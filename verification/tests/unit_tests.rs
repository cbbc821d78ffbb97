use rocket_lamb::config::{BasePathBehaviour, Config, ResponseType};
use rocket_lamb::error::{
    InvalidRequestReason, InvalidResponseReason, PathError, RocketLambError, TranslateError,
};
use rocket_lamb::event::{IncomingEvent, Method, RequestContext};
use rocket_lamb::lifecycle::{needs_remount, ClientLifecycle};
use rocket_lamb::request::{get_path_and_query, to_rocket_method, translate_request};
use rocket_lamb::response::{translate_response, OutgoingResponse, ResponseBody};

fn base_config(behaviour: BasePathBehaviour) -> Config {
    Config::new(behaviour, Vec::new(), ResponseType::Auto)
}

fn custom_event(path: &str, resource: &str) -> IncomingEvent {
    IncomingEvent {
        method: "GET".to_string(),
        path: path.to_string(),
        query: Vec::new(),
        headers: Vec::new(),
        path_parameters: Vec::new(),
        body: Vec::new(),
        context: RequestContext::ApiGatewayV1 {
            stage: Some("Prod".to_string()),
            resource_path: Some(resource.to_string()),
        },
        host: Some("api.example.com".to_string()),
    }
}

#[test]
fn method_mapping_closed_enumeration() {
    assert_eq!(to_rocket_method("GET").unwrap(), Method::Get);
    assert_eq!(to_rocket_method("PUT").unwrap(), Method::Put);
    assert_eq!(to_rocket_method("POST").unwrap(), Method::Post);
    assert_eq!(to_rocket_method("DELETE").unwrap(), Method::Delete);
    assert_eq!(to_rocket_method("OPTIONS").unwrap(), Method::Options);
    assert_eq!(to_rocket_method("HEAD").unwrap(), Method::Head);
    assert_eq!(to_rocket_method("TRACE").unwrap(), Method::Trace);
    assert_eq!(to_rocket_method("CONNECT").unwrap(), Method::Connect);
    assert_eq!(to_rocket_method("PATCH").unwrap(), Method::Patch);
}

#[test]
fn method_mapping_unknown_fails() {
    let err = to_rocket_method("BREW").unwrap_err();
    assert_eq!(
        err,
        RocketLambError::InvalidRequest(InvalidRequestReason::UnknownMethod("BREW".to_string()))
    );
    let err = to_rocket_method("get").unwrap_err();
    assert_eq!(
        err,
        RocketLambError::InvalidRequest(InvalidRequestReason::UnknownMethod("get".to_string()))
    );
}

#[test]
fn query_string_repeated_keys_percent_encoded() {
    let mut ev = custom_event("/path/", "/path");
    ev.query = vec![
        (
            "a b".to_string(),
            vec!["1 2".to_string(), "3".to_string()],
        ),
        ("k".to_string(), vec!["v".to_string()]),
    ];
    let config = base_config(BasePathBehaviour::Include);
    let uri = get_path_and_query(&config, &ev).unwrap();
    assert_eq!(uri, "/path/?a%20b=1%202&a%20b=3&k=v".to_string());
}

#[test]
fn query_string_empty_values_list_adds_nothing() {
    let mut ev = custom_event("/path/", "/path");
    ev.query = vec![
        ("empty".to_string(), Vec::new()),
        ("k".to_string(), vec!["v".to_string()]),
    ];
    let config = base_config(BasePathBehaviour::Include);
    let uri = get_path_and_query(&config, &ev).unwrap();
    assert_eq!(uri, "/path/?k=v".to_string());
}

#[test]
fn non_text_header_fails_naming_header() {
    let mut ev = custom_event("/path/", "/path");
    ev.headers = vec![
        ("accept".to_string(), b"text/html".to_vec()),
        ("x-bin".to_string(), vec![0xff, 0x00]),
    ];
    let config = base_config(BasePathBehaviour::Include);
    let err = translate_request(&config, &ev).unwrap_err();
    assert_eq!(
        err,
        TranslateError::Request(RocketLambError::InvalidRequest(
            InvalidRequestReason::NonTextHeader("x-bin".to_string())
        ))
    );
}

#[test]
fn request_passes_method_headers_and_body_through() {
    let mut ev = custom_event("/path/", "/path");
    ev.method = "POST".to_string();
    ev.headers = vec![("content-type".to_string(), b"text/plain".to_vec())];
    ev.body = vec![1, 2, 3];
    let config = base_config(BasePathBehaviour::Include);
    let req = translate_request(&config, &ev).unwrap();
    assert_eq!(req.method, Method::Post);
    assert_eq!(req.uri, "/path/".to_string());
    assert_eq!(req.headers.len(), 1);
    assert_eq!(req.headers[0].0, "content-type".to_string());
    assert_eq!(req.headers[0].1, b"text/plain".to_vec());
    assert_eq!(req.body, vec![1, 2, 3]);
}

#[test]
fn missing_path_parameter_is_fatal() {
    let ev = custom_event("/users/42/", "/users/{id}");
    let err = ev.base_path().unwrap_err();
    assert_eq!(err, PathError::MissingPathParameter);
    let config = base_config(BasePathBehaviour::Exclude);
    let err = translate_request(&config, &ev).unwrap_err();
    assert_eq!(err, TranslateError::Path(PathError::MissingPathParameter));
}

#[test]
fn unmatched_resource_template_is_fatal() {
    let ev = custom_event("/path/", "/other");
    let err = ev.base_path().unwrap_err();
    assert_eq!(err, PathError::UnmatchedResourceTemplate);
}

#[test]
fn path_parameter_substitution_locates_base() {
    let mut ev = custom_event("/base-path/users/42/", "/users/{id}");
    ev.path_parameters = vec![("id".to_string(), "42".to_string())];
    assert_eq!(ev.base_path().unwrap(), "/base-path".to_string());
    assert_eq!(ev.api_path().unwrap(), "/users/42/".to_string());
    assert_eq!(ev.full_path(), "/base-path/users/42/".to_string());
}

#[test]
fn default_domain_empty_stage_gives_root_base() {
    let ev = IncomingEvent {
        method: "GET".to_string(),
        path: "/path/".to_string(),
        query: Vec::new(),
        headers: Vec::new(),
        path_parameters: Vec::new(),
        body: Vec::new(),
        context: RequestContext::ApiGatewayV2 {
            stage: None,
            path: Some("/path".to_string()),
        },
        host: Some("xyz.execute-api.eu-west-1.amazonaws.com".to_string()),
    };
    assert_eq!(ev.base_path().unwrap(), "/".to_string());
    assert_eq!(ev.full_path(), "//path/".to_string());
    assert_eq!(ev.api_path().unwrap(), "/path/".to_string());
}

fn text_config() -> Config {
    Config::new(
        BasePathBehaviour::RemountAndInclude,
        vec![("text/plain".to_string(), ResponseType::Auto)],
        ResponseType::Binary,
    )
}

fn plain_headers() -> Vec<(String, String)> {
    vec![(
        "Content-Type".to_string(),
        "text/plain; charset=utf-8".to_string(),
    )]
}

#[test]
fn response_auto_utf8_gives_identical_text() {
    let config = text_config();
    let body = "héllo, wörld".as_bytes().to_vec();
    let res = translate_response(&config, 200, &plain_headers(), Some(body)).unwrap();
    assert_eq!(res.status, 200);
    assert_eq!(res.headers.len(), 1);
    assert_eq!(res.headers[0].0, "Content-Type".to_string());
    assert_eq!(res.body, ResponseBody::Text("héllo, wörld".to_string()));
}

#[test]
fn response_auto_non_utf8_gives_identical_binary() {
    let config = text_config();
    let body = vec![0xff, 0xfe, 0x01, 0x41];
    let res = translate_response(&config, 200, &plain_headers(), Some(body.clone())).unwrap();
    assert_eq!(res.body, ResponseBody::Binary(body));
}

#[test]
fn response_mandated_text_rejects_non_utf8() {
    let config = Config::new(
        BasePathBehaviour::Include,
        vec![("application/json".to_string(), ResponseType::Text)],
        ResponseType::Auto,
    );
    let headers = vec![("content-type".to_string(), "application/json".to_string())];
    let err = translate_response(&config, 200, &headers, Some(vec![0xff])).unwrap_err();
    assert_eq!(
        err,
        RocketLambError::InvalidResponse(InvalidResponseReason::NonUtf8TextBody)
    );
}

#[test]
fn response_mandated_binary_keeps_valid_utf8_as_bytes() {
    let config = Config::new(
        BasePathBehaviour::Include,
        vec![("application/octet-stream".to_string(), ResponseType::Binary)],
        ResponseType::Auto,
    );
    let headers = vec![(
        "content-type".to_string(),
        "application/octet-stream".to_string(),
    )];
    let res = translate_response(&config, 200, &headers, Some(b"abc".to_vec())).unwrap();
    assert_eq!(res.body, ResponseBody::Binary(b"abc".to_vec()));
}

#[test]
fn response_content_type_lookup_is_lowercased() {
    // The configured encoding must be found even when the header value uses
    // upper case: if lowercasing handed its input back unchanged, the lookup
    // would miss and Auto would deliver text instead.
    let config = Config::new(
        BasePathBehaviour::Include,
        vec![("text/plain".to_string(), ResponseType::Binary)],
        ResponseType::Auto,
    );
    let headers = vec![("Content-Type".to_string(), "TEXT/Plain; q=1".to_string())];
    let res = translate_response(&config, 200, &headers, Some(b"abc".to_vec())).unwrap();
    assert_eq!(res.body, ResponseBody::Binary(b"abc".to_vec()));
}

#[test]
fn response_without_content_type_uses_default() {
    let config = Config::new(
        BasePathBehaviour::Include,
        vec![("text/plain".to_string(), ResponseType::Text)],
        ResponseType::Binary,
    );
    let headers = vec![("x-other".to_string(), "1".to_string())];
    let res = translate_response(&config, 204, &headers, Some(b"abc".to_vec())).unwrap();
    assert_eq!(res.body, ResponseBody::Binary(b"abc".to_vec()));
}

#[test]
fn response_without_body_is_empty() {
    let config = text_config();
    let res: OutgoingResponse =
        translate_response(&config, 204, &Vec::new(), None).unwrap();
    assert_eq!(res.status, 204);
    assert_eq!(res.body, ResponseBody::Empty);
}

#[test]
fn lifecycle_transitions_exactly_once() {
    let mut lc: ClientLifecycle<String, u64> = ClientLifecycle::new("app".to_string());
    assert!(!lc.is_ready());
    assert!(lc.client().is_none());
    lc.install(7);
    assert!(lc.is_ready());
    assert_eq!(*lc.client().unwrap(), 7);
    // a later invocation reads the same handle without another transition
    assert_eq!(*lc.client().unwrap(), 7);
}

#[test]
fn lifecycle_take_app_hands_definition_back() {
    let lc: ClientLifecycle<String, u64> = ClientLifecycle::new("app".to_string());
    assert_eq!(lc.take_app(), "app".to_string());
}

#[test]
fn remount_decision_requires_mode_and_nonempty_base() {
    assert!(needs_remount(BasePathBehaviour::RemountAndInclude, "/Prod"));
    assert!(!needs_remount(BasePathBehaviour::RemountAndInclude, ""));
    assert!(!needs_remount(BasePathBehaviour::Include, "/Prod"));
    assert!(!needs_remount(BasePathBehaviour::Exclude, "/Prod"));
}

#[test]
fn amazonaws_host_without_api_infix_is_custom_domain() {
    let mut ev = custom_event("/path/", "/path");
    ev.host = Some("abc123.amazonaws.com".to_string());
    assert_eq!(ev.full_path(), "/path/".to_string());
    assert_eq!(ev.base_path().unwrap(), "".to_string());
}

#[test]
fn missing_host_is_custom_domain() {
    let mut ev = custom_event("/path/", "/path");
    ev.host = None;
    assert_eq!(ev.full_path(), "/path/".to_string());
    assert_eq!(ev.base_path().unwrap(), "".to_string());
}

#[test]
fn query_values_with_reserved_characters_are_encoded() {
    let mut ev = custom_event("/path/", "/path");
    ev.query = vec![("q".to_string(), vec!["a=b&c".to_string()])];
    let config = base_config(BasePathBehaviour::Include);
    let uri = get_path_and_query(&config, &ev).unwrap();
    assert_eq!(uri, "/path/?q=a%3Db%26c".to_string());
}
