use htrpc::error::Error;
use htrpc::procedure::RpcResponse;
use htrpc::rfc7807::{AboutBlankProblem, Problem, ProblemHeader};
use htrpc::types::HttpStatus;

#[test]
fn about_blank_json() {
    let problem = Problem::about_blank(HttpStatus::NotFound);
    let http_body = problem.to_json();
    assert_eq!(
        http_body,
        "{\n  \"type\": \"about:blank\",\n  \"title\": \"Not Found\",\n  \"status\": 404\n}"
    );
}

#[test]
fn trackable_json_escapes_title() {
    let problem = Problem::trackable(HttpStatus::BadRequest, Error::invalid());
    let text = problem.to_json();
    assert!(text.contains("\"title\": \"invalid input\""));
    assert!(text.contains("\"status\": 400"));
}

#[test]
fn problem_response_carries_payload() {
    let mut response = Problem::about_blank(HttpStatus::NotFound).into_response();
    assert_eq!(response.status, Some(404));
    assert_eq!(ProblemHeader::new().content_type, "application/problem+json");
    let body = response.body();
    let text = String::from_utf8(body).unwrap();
    assert!(text.contains("\"status\": 404"));
    response.set_problem(Problem::about_blank(HttpStatus::Gone));
    match response.problem() {
        Problem::AboutBlank(a) => assert_eq!(a.status, 410),
        _ => panic!("expected the about:blank shape"),
    }
    let fresh = AboutBlankProblem::new(HttpStatus::ImATeapot);
    assert_eq!(fresh.title, "I'm a teapot");
    assert_eq!(fresh.status, 418);
}
