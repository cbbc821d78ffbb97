use vstd::prelude::*;

verus! {

/// The closed enumeration of dispatchable HTTP methods.
#[derive(Clone, Copy, Debug, PartialEq, Eq, Structural)]
pub enum Method {
    Get,
    Put,
    Post,
    Delete,
    Options,
    Head,
    Trace,
    Connect,
    Patch,
}

/// The request-context variant carried by the gateway event, tagging which of
/// the three topologies produced it.
#[derive(Clone, Debug)]
pub enum RequestContext {
    ApiGatewayV1 { stage: Option<String>, resource_path: Option<String> },
    ApiGatewayV2 { stage: Option<String>, path: Option<String> },
    Alb,
}

/// An inbound gateway proxy event, already deserialized from the wire
/// envelope by an external collaborator.
#[derive(Clone, Debug)]
pub struct IncomingEvent {
    /// The HTTP method, as received.
    pub method: String,
    /// The raw request path.
    pub path: String,
    /// Query parameters: an ordered multimap, each key with its values in
    /// original order.
    pub query: Vec<(String, Vec<String>)>,
    /// Headers in order; values are raw bytes.
    pub headers: Vec<(String, Vec<u8>)>,
    /// Path parameters bound by route-template matching upstream.
    pub path_parameters: Vec<(String, String)>,
    /// The body bytes, passed through unmodified.
    pub body: Vec<u8>,
    /// Which topology produced the event, with its stage and template.
    pub context: RequestContext,
    /// The host header, when present and textual; used for topology
    /// detection.
    pub host: Option<String>,
}

/// The view of an optional string, empty when absent.
pub open spec fn opt_str_view(o: Option<String>) -> Seq<char> {
    match o {
        Some(s) => s@,
        None => Seq::<char>::empty(),
    }
}

/// The deployment stage label carried by the context, empty when absent.
pub open spec fn spec_stage(ctx: RequestContext) -> Seq<char> {
    match ctx {
        RequestContext::ApiGatewayV1 { stage, .. } => opt_str_view(stage),
        RequestContext::ApiGatewayV2 { stage, .. } => opt_str_view(stage),
        RequestContext::Alb => Seq::<char>::empty(),
    }
}

/// The declared resource-path template carried by the context, empty when
/// absent.
pub open spec fn spec_template(ctx: RequestContext) -> Seq<char> {
    match ctx {
        RequestContext::ApiGatewayV1 { resource_path, .. } => opt_str_view(resource_path),
        RequestContext::ApiGatewayV2 { path, .. } => opt_str_view(path),
        RequestContext::Alb => Seq::<char>::empty(),
    }
}

} // verus!
