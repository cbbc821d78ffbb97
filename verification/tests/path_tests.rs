use rocket_lamb::config::{BasePathBehaviour, Config, ResponseType};
use rocket_lamb::event::{IncomingEvent, RequestContext};
use rocket_lamb::lifecycle::needs_remount;
use rocket_lamb::request::translate_request;

// The wrapped application used by these tests serves GET /path (echoing the
// request path) with a catch-all that echoes the path on 404, as seen through
// the gateway adapter. Dispatch itself is the framework's job; this helper
// plays its routing part: a route set mounted at each base, matched with a
// trailing slash tolerated.
fn dispatch_status(mounts: &[String], path: &str) -> u16 {
    let p = path.trim_end_matches('/');
    for m in mounts {
        let base = m.trim_end_matches('/');
        if p == format!("{}/path", base) {
            return 200;
        }
    }
    404
}

fn config_with(behaviour: BasePathBehaviour) -> Config {
    Config::new(behaviour, Vec::new(), ResponseType::Auto)
}

fn event(context: RequestContext, host: &str, path: &str) -> IncomingEvent {
    IncomingEvent {
        method: "GET".to_string(),
        path: path.to_string(),
        query: Vec::new(),
        headers: vec![("host".to_string(), host.as_bytes().to_vec())],
        path_parameters: Vec::new(),
        body: Vec::new(),
        context,
        host: Some(host.to_string()),
    }
}

fn api_gateway_event() -> IncomingEvent {
    event(
        RequestContext::ApiGatewayV1 {
            stage: Some("Prod".to_string()),
            resource_path: Some("/path".to_string()),
        },
        "abc123.execute-api.us-east-1.amazonaws.com",
        "/path/",
    )
}

fn custom_domain_event() -> IncomingEvent {
    event(
        RequestContext::ApiGatewayV1 {
            stage: Some("Prod".to_string()),
            resource_path: Some("/path".to_string()),
        },
        "api.example.com",
        "/path/",
    )
}

fn custom_domain_with_base_event() -> IncomingEvent {
    let mut ev = event(
        RequestContext::ApiGatewayV1 {
            stage: Some("Prod".to_string()),
            resource_path: Some("/{proxy+}".to_string()),
        },
        "api.example.com",
        "/base-path/path/",
    );
    ev.path_parameters = vec![("proxy".to_string(), "path".to_string())];
    ev
}

fn alb_event() -> IncomingEvent {
    event(
        RequestContext::Alb,
        "my-lb-1234567890.us-east-1.elb.amazonaws.com",
        "/path/",
    )
}

// One invocation through the adapter: resolve the lifecycle's remount
// decision from the first request, translate, and dispatch against the
// simulated application; the body echoes the dispatched path.
fn invoke(config: &Config, ev: &IncomingEvent) -> (u16, String) {
    let mut mounts = vec!["/".to_string()];
    let base = ev.base_path().unwrap();
    if needs_remount(config.base_path_behaviour, base.as_str()) {
        mounts.push(base.clone());
    }
    let req = translate_request(config, ev).unwrap();
    let path_part = req.uri.split('?').next().unwrap().to_string();
    let status = dispatch_status(&mounts, &path_part);
    (status, path_part)
}

#[test]
fn api_gateway() {
    let config = config_with(BasePathBehaviour::RemountAndInclude);
    let (status, body) = invoke(&config, &api_gateway_event());
    assert_eq!(status, 200);
    assert_eq!(body, "/Prod/path/".to_string());
}

#[test]
fn api_gateway_include_base() {
    let config = config_with(BasePathBehaviour::Include);
    let (status, body) = invoke(&config, &api_gateway_event());
    assert_eq!(status, 404);
    assert_eq!(body, "/Prod/path/".to_string());
}

#[test]
fn api_gateway_exclude_base() {
    let config = config_with(BasePathBehaviour::Exclude);
    let (status, body) = invoke(&config, &api_gateway_event());
    assert_eq!(status, 200);
    assert_eq!(body, "/path/".to_string());
}

#[test]
fn custom_domain() {
    let config = config_with(BasePathBehaviour::RemountAndInclude);
    let (status, body) = invoke(&config, &custom_domain_event());
    assert_eq!(status, 200);
    assert_eq!(body, "/path/".to_string());
}

#[test]
fn custom_domain_include_empty_base() {
    let config = config_with(BasePathBehaviour::Include);
    let (status, body) = invoke(&config, &custom_domain_event());
    assert_eq!(status, 200);
    assert_eq!(body, "/path/".to_string());
}

#[test]
fn custom_domain_exclude_empty_base() {
    let config = config_with(BasePathBehaviour::Exclude);
    let (status, body) = invoke(&config, &custom_domain_event());
    assert_eq!(status, 200);
    assert_eq!(body, "/path/".to_string());
}

#[test]
fn custom_domain_with_base_path() {
    let config = config_with(BasePathBehaviour::RemountAndInclude);
    let (status, body) = invoke(&config, &custom_domain_with_base_event());
    assert_eq!(status, 200);
    assert_eq!(body, "/base-path/path/".to_string());
}

#[test]
fn custom_domain_with_base_path_include() {
    let config = config_with(BasePathBehaviour::Include);
    let (status, body) = invoke(&config, &custom_domain_with_base_event());
    assert_eq!(status, 404);
    assert_eq!(body, "/base-path/path/".to_string());
}

#[test]
fn custom_domain_with_base_path_exclude() {
    let config = config_with(BasePathBehaviour::Exclude);
    let (status, body) = invoke(&config, &custom_domain_with_base_event());
    assert_eq!(status, 200);
    assert_eq!(body, "/path/".to_string());
}

#[test]
fn application_load_balancer() {
    let config = config_with(BasePathBehaviour::RemountAndInclude);
    let (status, body) = invoke(&config, &alb_event());
    assert_eq!(status, 200);
    assert_eq!(body, "/path/".to_string());
}

#[test]
fn application_load_balancer_include_empty_base() {
    let config = config_with(BasePathBehaviour::Include);
    let (status, body) = invoke(&config, &alb_event());
    assert_eq!(status, 200);
    assert_eq!(body, "/path/".to_string());
}

#[test]
fn application_load_balancer_exclude_empty_base() {
    let config = config_with(BasePathBehaviour::Exclude);
    let (status, body) = invoke(&config, &alb_event());
    assert_eq!(status, 200);
    assert_eq!(body, "/path/".to_string());
}
