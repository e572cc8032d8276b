use htrpc::client::{call_on_response_body, call_on_response_head, call_start, CallStep};
use htrpc::path_template::PathSegment;
use htrpc::procedure::{
    EntryPoint, Procedure, QueryField, RequestDescriptor, RpcResponseData, Scalar, ScalarKind,
};
use htrpc::rfc7807::Problem;
use htrpc::serializers::rpc_response::RpcResponseSerializer;
use htrpc::server::{decode_for_handler, dispatch_request, DecodeOutcome, RouteOutcome, RpcServerBuilder};
use htrpc::types::{HttpMethod, HttpStatus};

struct CounterProcedure;

impl Procedure for CounterProcedure {
    fn method() -> HttpMethod {
        HttpMethod::Put
    }

    fn entry_point() -> EntryPoint {
        EntryPoint::new(vec![PathSegment::Val("counters"), PathSegment::Var])
    }

    fn request_descriptor() -> RequestDescriptor {
        RequestDescriptor {
            path_kinds: vec![ScalarKind::Text],
            query_fields: vec![QueryField { name: "value", kind: ScalarKind::Uint, required: false }],
        }
    }
}

/// Drives one request through the server pipeline against an in-memory
/// counter table, returning the encoded response pieces.
fn serve_once(
    server: &htrpc::server::RpcServer,
    counters: &mut Vec<(String, u64)>,
    method: HttpMethod,
    target: &str,
) -> (u16, Vec<(String, String)>, Vec<u8>) {
    let reaction = dispatch_request(&server.router, method, target);
    let response: RpcResponseData = match reaction {
        RouteOutcome::Problem { status } => problem_response(status),
        RouteOutcome::Found { handler, segments, query_pairs } => {
            assert_eq!(handler, 1);
            let template = CounterProcedure::entry_point();
            let descriptor = CounterProcedure::request_descriptor();
            match decode_for_handler(
                template.segments(),
                &descriptor,
                &segments,
                &query_pairs,
                vec![],
                vec![],
            ) {
                DecodeOutcome::Problem { status } => problem_response(status),
                DecodeOutcome::Request(request) => {
                    // the handler: add the `value` query parameter (default 1)
                    // to the named counter and return the new total
                    let name = match &request.path[0] {
                        Scalar::Text(s) => s.clone(),
                        _ => panic!("path variable must be text"),
                    };
                    let add = match &request.query[0] {
                        Some(Scalar::Uint(v)) => *v,
                        None => 1,
                        _ => panic!("query field must be unsigned"),
                    };
                    let mut total = add;
                    let mut found = false;
                    for entry in counters.iter_mut() {
                        if entry.0 == name {
                            entry.1 += add;
                            total = entry.1;
                            found = true;
                        }
                    }
                    if !found {
                        counters.push((name, add));
                    }
                    RpcResponseData {
                        status: HttpStatus::Okay,
                        headers: vec![],
                        body: total.to_string().into_bytes(),
                    }
                },
            }
        },
    };
    let (head, body) = RpcResponseSerializer::serialize(response);
    (head.code, head.headers, body)
}

fn problem_response(status: HttpStatus) -> RpcResponseData {
    let response = Problem::about_blank(status).into_response();
    let body = response.problem().to_json().into_bytes();
    RpcResponseData {
        status,
        headers: vec![("content-type".to_string(), "application/problem+json".to_string())],
        body,
    }
}

fn counter_call(value: Option<u64>) -> htrpc::client::Call {
    call_start(
        CounterProcedure::method(),
        CounterProcedure::entry_point(),
        &vec![Scalar::Text("foo".to_string())],
        &vec![("value".to_string(), value.map(Scalar::Uint))],
        &vec![],
        vec![],
    )
    .unwrap()
}

#[test]
fn end_to_end_counter() {
    let mut builder = RpcServerBuilder::new();
    builder.register::<CounterProcedure>(1).unwrap();
    let server = builder.start();
    let mut counters: Vec<(String, u64)> = Vec::new();

    // first call: value=5 yields 5
    let call = counter_call(Some(5));
    assert_eq!(call.head.target, "/counters/foo?value=5");
    let (code, headers, body) = serve_once(&server, &mut counters, call.method, &call.head.target);
    let step = call_on_response_head(call.method, code, headers).unwrap();
    let response = match step {
        CallStep::NeedBody { code, headers } => {
            call_on_response_body(code, headers, body).unwrap()
        },
        CallStep::Finished(r) => r,
    };
    assert_eq!(response.status, HttpStatus::Okay);
    assert_eq!(String::from_utf8(response.body).unwrap(), "5");

    // second call in sequence yields 10
    let call = counter_call(Some(5));
    let (code, headers, body) = serve_once(&server, &mut counters, call.method, &call.head.target);
    let response = call_on_response_body(code, headers, body).unwrap();
    assert_eq!(String::from_utf8(response.body).unwrap(), "10");

    // an absent optional value defaults to 1
    let call = counter_call(None);
    assert_eq!(call.head.target, "/counters/foo");
    let (code, headers, body) = serve_once(&server, &mut counters, call.method, &call.head.target);
    let response = call_on_response_body(code, headers, body).unwrap();
    assert_eq!(String::from_utf8(response.body).unwrap(), "11");
}

#[test]
fn malformed_input_keeps_connection_usable() {
    let mut builder = RpcServerBuilder::new();
    builder.register::<CounterProcedure>(1).unwrap();
    let server = builder.start();
    let mut counters: Vec<(String, u64)> = Vec::new();

    // a query value that fails to parse into the declared type yields a
    // 400-class problem response
    let (code, _headers, body) =
        serve_once(&server, &mut counters, HttpMethod::Put, "/counters/foo?value=abc");
    assert_eq!(code, 400);
    let text = String::from_utf8(body).unwrap();
    assert!(text.contains("\"status\": 400"));
    assert!(text.contains("about:blank"));

    // the same connection stays usable: the next, valid request succeeds
    let (code, headers, body) =
        serve_once(&server, &mut counters, HttpMethod::Put, "/counters/foo?value=5");
    assert_eq!(code, 200);
    let response = call_on_response_body(code, headers, body).unwrap();
    assert_eq!(String::from_utf8(response.body).unwrap(), "5");
}

#[test]
fn routing_problems_map_to_statuses() {
    let mut builder = RpcServerBuilder::new();
    builder.register::<CounterProcedure>(1).unwrap();
    let server = builder.start();
    let mut counters: Vec<(String, u64)> = Vec::new();

    let (code, _, _) = serve_once(&server, &mut counters, HttpMethod::Put, "/nosuch");
    assert_eq!(code, 404);
    let (code, _, _) = serve_once(&server, &mut counters, HttpMethod::Get, "/counters/foo");
    assert_eq!(code, 405);
}

#[test]
fn head_call_skips_body() {
    let step = call_on_response_head(HttpMethod::Head, 204, vec![]).unwrap();
    match step {
        CallStep::Finished(r) => {
            assert_eq!(r.status, HttpStatus::NoContent);
            assert!(r.body.is_empty());
        },
        CallStep::NeedBody { .. } => panic!("a HEAD call reads no body"),
    }
    // any other method reads the body first
    let step = call_on_response_head(HttpMethod::Get, 200, vec![]).unwrap();
    assert!(matches!(step, CallStep::NeedBody { .. }));
    // an unknown code fails the call
    assert!(call_on_response_body(999, vec![], vec![]).is_err());
}
