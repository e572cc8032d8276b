use htrpc::error::ErrorKind;
use htrpc::path_template::PathSegment;
use htrpc::procedure::EntryPoint;
use htrpc::router::RouterBuilder;
use htrpc::types::{HttpMethod, HttpStatus};

fn seg(s: &'static str) -> PathSegment {
    PathSegment::Val(s)
}

#[test]
fn routing_precedence() {
    let mut b = RouterBuilder::new();
    let literal = EntryPoint::new(vec![seg("users"), seg("admin")]);
    let pattern = EntryPoint::new(vec![seg("users"), PathSegment::Var]);
    b.register_handler(HttpMethod::Get, &literal, 1).unwrap();
    b.register_handler(HttpMethod::Get, &pattern, 2).unwrap();
    let router = b.finish();
    let admin = vec!["users".to_string(), "admin".to_string()];
    assert_eq!(router.route(&admin, HttpMethod::Get), Ok(1));
    let other = vec!["users".to_string(), "42".to_string()];
    assert_eq!(router.route(&other, HttpMethod::Get), Ok(2));
}

#[test]
fn routing_precedence_registration_order_does_not_matter() {
    let mut b = RouterBuilder::new();
    let literal = EntryPoint::new(vec![seg("users"), seg("admin")]);
    let pattern = EntryPoint::new(vec![seg("users"), PathSegment::Var]);
    b.register_handler(HttpMethod::Get, &pattern, 2).unwrap();
    b.register_handler(HttpMethod::Get, &literal, 1).unwrap();
    let router = b.finish();
    let admin = vec!["users".to_string(), "admin".to_string()];
    assert_eq!(router.route(&admin, HttpMethod::Get), Ok(1));
    let other = vec!["users".to_string(), "42".to_string()];
    assert_eq!(router.route(&other, HttpMethod::Get), Ok(2));
}

#[test]
fn conflict_detection() {
    let ep = EntryPoint::new(vec![seg("users"), PathSegment::Var]);
    let mut b = RouterBuilder::new();
    b.register_handler(HttpMethod::Get, &ep, 1).unwrap();
    let e = b.register_handler(HttpMethod::Get, &ep, 2).unwrap_err();
    assert_eq!(e.kind, ErrorKind::Invalid);
    // another method at the same entry point is fine
    b.register_handler(HttpMethod::Put, &ep, 3).unwrap();
    // and an unrelated registration in between does not unblock the duplicate
    b.register_handler(HttpMethod::Get, &EntryPoint::new(vec![seg("other")]), 4).unwrap();
    let e = b.register_handler(HttpMethod::Get, &ep, 5).unwrap_err();
    assert_eq!(e.kind, ErrorKind::Invalid);
}

#[test]
fn routing_failures() {
    let mut b = RouterBuilder::new();
    let ep = EntryPoint::new(vec![seg("users"), PathSegment::Var]);
    b.register_handler(HttpMethod::Get, &ep, 1).unwrap();
    let router = b.finish();
    let missing = vec!["nosuch".to_string()];
    assert_eq!(router.route(&missing, HttpMethod::Get), Err(HttpStatus::NotFound));
    let known = vec!["users".to_string(), "7".to_string()];
    assert_eq!(router.route(&known, HttpMethod::Put), Err(HttpStatus::MethodNotAllowed));
}

#[test]
fn dispatch_decodes_query_pairs() {
    let mut b = htrpc::server::RpcServerBuilder::new();
    let ep = EntryPoint::new(vec![seg("users"), PathSegment::Var]);
    b.router.register_handler(HttpMethod::Get, &ep, 7).unwrap();
    let server = b.start();
    match htrpc::server::dispatch_request(&server.router, HttpMethod::Get, "/users/42?bar=baz+qux&foo=3") {
        htrpc::server::RouteOutcome::Found { handler, segments, query_pairs } => {
            assert_eq!(handler, 7);
            assert_eq!(segments, vec!["users".to_string(), "42".to_string()]);
            assert_eq!(
                query_pairs,
                vec![
                    ("bar".to_string(), "baz qux".to_string()),
                    ("foo".to_string(), "3".to_string()),
                ]
            );
        },
        htrpc::server::RouteOutcome::Problem { .. } => panic!("expected a route hit"),
    }
}
