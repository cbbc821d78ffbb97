use vstd::prelude::*;

use crate::strutil::lookup_str;

verus! {

/// How the base path contributed by the deployment (stage or custom-domain
/// mapping) is reflected in the URI used to dispatch into the application.
#[derive(Clone, Copy, Debug, PartialEq, Eq, Structural)]
pub enum BasePathBehaviour {
    /// Dispatch on the full path, without touching the application's routes.
    Include,
    /// Dispatch on the full path, remounting the application's routes under
    /// the base path observed on the first request.
    RemountAndInclude,
    /// Dispatch on the path with the base path stripped.
    Exclude,
}

/// How a response body is delivered back through the gateway envelope.
#[derive(Clone, Copy, Debug, PartialEq, Eq, Structural)]
pub enum ResponseType {
    /// Text when the bytes are valid UTF-8, binary otherwise.
    Auto,
    /// Text, failing if the bytes are not valid UTF-8.
    Text,
    /// Always binary.
    Binary,
}

/// Immutable policy, fixed at startup and read-only thereafter.
#[derive(Clone, Debug)]
pub struct Config {
    pub base_path_behaviour: BasePathBehaviour,
    /// Lowercase content type to body encoding; the first matching entry wins.
    pub response_types: Vec<(String, ResponseType)>,
    /// Encoding used when the content type has no entry in `response_types`.
    pub default_response_type: ResponseType,
}

/// The encoding that `entries` assigns to the (lowercase) content type `ct`,
/// or `dflt` if no entry matches.
pub open spec fn lookup_response_type(
    entries: Seq<(String, ResponseType)>,
    ct: Seq<char>,
    dflt: ResponseType,
) -> ResponseType {
    match lookup_str(entries, ct) {
        Some(t) => t,
        None => dflt,
    }
}

impl Config {
    pub fn new(
        base_path_behaviour: BasePathBehaviour,
        response_types: Vec<(String, ResponseType)>,
        default_response_type: ResponseType,
    ) -> (r: Config)
        ensures
            r.base_path_behaviour == base_path_behaviour,
            r.response_types == response_types,
            r.default_response_type == default_response_type,
    {
        Config { base_path_behaviour, response_types, default_response_type }
    }
}

} // verus!
