use vstd::prelude::*;

verus! {

/// Why a request could not be translated into a dispatchable form.
#[derive(Clone, Debug, PartialEq, Eq)]
pub enum InvalidRequestReason {
    /// The HTTP method is outside the supported closed enumeration; carries
    /// the method value as received.
    UnknownMethod(String),
    /// A header value does not decode as text; carries the header's name.
    NonTextHeader(String),
}

/// Why the application's response could not be translated back.
#[derive(Clone, Copy, Debug, PartialEq, Eq, Structural)]
pub enum InvalidResponseReason {
    /// The configuration mandated a text body but the bytes are not UTF-8.
    NonUtf8TextBody,
}

/// A recoverable translation failure, surfaced to the caller, who produces a
/// failure-status response. Never retried.
#[derive(Clone, Debug, PartialEq, Eq)]
pub enum RocketLambError {
    InvalidRequest(InvalidRequestReason),
    InvalidResponse(InvalidResponseReason),
}

/// A fatal mismatch between the declared routing configuration and the actual
/// deployment, detected while computing the base path. Not a recoverable
/// runtime condition: callers abort the in-flight invocation.
#[derive(Clone, Copy, Debug, PartialEq, Eq, Structural)]
pub enum PathError {
    /// The resource template references a path parameter the event lacks.
    MissingPathParameter,
    /// The populated resource template does not occur in the raw path.
    UnmatchedResourceTemplate,
}

/// Everything that can stop a request from being translated: a fatal path
/// resolution failure, or an invalid request.
#[derive(Clone, Debug, PartialEq, Eq)]
pub enum TranslateError {
    Path(PathError),
    Request(RocketLambError),
}

} // verus!
