use edge_proxy::header::Header;
use edge_proxy::proxy::{join_body, proxy, Outcome, ProxyCommand, ProxyEvent, ProxyFailure};

fn header(name: &str, value: &str) -> Header {
    Header { name: name.to_string(), value: value.to_string() }
}

#[test]
fn the_decision_is_asked_first() {
    let (handling, command) = proxy(false);
    assert!(!handling.is_closed());
    assert_eq!(command, ProxyCommand::AskStatus { current: 0 });
}

#[test]
fn without_an_override_the_request_goes_to_the_origin() {
    let (mut handling, _) = proxy(false);
    assert_eq!(handling.step(ProxyEvent::Status(0)), ProxyCommand::Forward);
}

#[test]
fn an_override_answers_the_request_without_the_origin() {
    let (mut handling, _) = proxy(false);
    assert_eq!(handling.step(ProxyEvent::Status(301)), ProxyCommand::Synthesize { status: 301 });
    assert_eq!(
        handling.step(ProxyEvent::Response { status: 301, headers: Vec::new() }),
        ProxyCommand::AskStatus { current: 301 }
    );
    assert_eq!(
        handling.step(ProxyEvent::Status(0)),
        ProxyCommand::FilterHeaders { headers: Vec::new(), status: 301, add_rule_ids: false }
    );
    let filtered = vec![header("Location", "https://example.org/new")];
    assert_eq!(
        handling.step(ProxyEvent::Filtered(filtered.clone())),
        ProxyCommand::AskBodyFilter { status: 301, headers: filtered.clone() }
    );
    assert_eq!(
        handling.step(ProxyEvent::BodyFilter(false)),
        ProxyCommand::Finish(Outcome {
            status: 301,
            headers: filtered,
            backend_status_code: 301,
            body: None,
        })
    );
    assert!(handling.is_closed());
}

#[test]
fn the_status_of_the_origin_goes_out_where_nothing_is_put_in_its_place() {
    let (mut handling, _) = proxy(true);
    handling.step(ProxyEvent::Status(0));
    handling.step(ProxyEvent::Response { status: 200, headers: vec![header("server", "origin")] });
    assert_eq!(
        handling.step(ProxyEvent::Status(0)),
        ProxyCommand::FilterHeaders {
            headers: vec![header("server", "origin")],
            status: 200,
            add_rule_ids: true,
        }
    );
    let filtered = vec![header("server", "origin"), header("X-RedirectionIo-RuleIds", "r1;r2")];
    handling.step(ProxyEvent::Filtered(filtered.clone()));
    assert_eq!(
        handling.step(ProxyEvent::BodyFilter(false)),
        ProxyCommand::Finish(Outcome {
            status: 200,
            headers: filtered,
            backend_status_code: 200,
            body: None,
        })
    );
}

#[test]
fn a_second_override_replaces_the_status_and_the_first_is_recorded() {
    let (mut handling, _) = proxy(false);
    handling.step(ProxyEvent::Status(0));
    handling.step(ProxyEvent::Response { status: 404, headers: Vec::new() });
    assert_eq!(
        handling.step(ProxyEvent::Status(410)),
        ProxyCommand::FilterHeaders { headers: Vec::new(), status: 404, add_rule_ids: false }
    );
    assert_eq!(
        handling.step(ProxyEvent::Filtered(Vec::new())),
        ProxyCommand::AskBodyFilter { status: 404, headers: Vec::new() }
    );
    assert_eq!(
        handling.step(ProxyEvent::BodyFilter(false)),
        ProxyCommand::Finish(Outcome {
            status: 410,
            headers: Vec::new(),
            backend_status_code: 404,
            body: None,
        })
    );
}

#[test]
fn cookies_reach_the_filter_in_headers_of_their_own() {
    let (mut handling, _) = proxy(false);
    handling.step(ProxyEvent::Status(0));
    handling.step(ProxyEvent::Response {
        status: 200,
        headers: vec![
            header("set-cookie", "a=1, b=2; Expires=Thu, 04-Jun-2020 12:00:00 GMT; Path=/"),
            header("content-type", "text/html"),
        ],
    });
    assert_eq!(
        handling.step(ProxyEvent::Status(0)),
        ProxyCommand::FilterHeaders {
            headers: vec![
                header("set-cookie", "a=1"),
                header("set-cookie", "b=2; Expires=Thu, 04-Jun-2020 12:00:00 GMT; Path=/"),
                header("content-type", "text/html"),
            ],
            status: 200,
            add_rule_ids: false,
        }
    );
}

#[test]
fn a_filtered_body_ends_with_what_the_filter_gave_last() {
    let (mut handling, _) = proxy(false);
    handling.step(ProxyEvent::Status(0));
    handling.step(ProxyEvent::Response { status: 200, headers: Vec::new() });
    handling.step(ProxyEvent::Status(0));
    handling.step(ProxyEvent::Filtered(vec![header("content-type", "text/html")]));
    assert_eq!(handling.step(ProxyEvent::BodyFilter(true)), ProxyCommand::FilterBody);
    assert!(!handling.is_closed());
    assert_eq!(
        handling.step(ProxyEvent::Body {
            filtered: b"<html><body>hello".to_vec(),
            trailer: b"</body></html>".to_vec(),
        }),
        ProxyCommand::Finish(Outcome {
            status: 200,
            headers: vec![header("content-type", "text/html")],
            backend_status_code: 200,
            body: Some(b"<html><body>hello</body></html>".to_vec()),
        })
    );
    assert!(handling.is_closed());
}

#[test]
fn a_failure_at_the_origin_fails_the_request() {
    let (mut handling, _) = proxy(false);
    handling.step(ProxyEvent::Status(0));
    assert_eq!(handling.step(ProxyEvent::Failed), ProxyCommand::Fail(ProxyFailure::Transport));
    assert!(handling.is_closed());
    assert_eq!(handling.step(ProxyEvent::Status(0)), ProxyCommand::Fail(ProxyFailure::OutOfTurn));
}

#[test]
fn a_failure_while_the_body_is_read_fails_the_request() {
    let (mut handling, _) = proxy(false);
    handling.step(ProxyEvent::Status(0));
    handling.step(ProxyEvent::Response { status: 200, headers: Vec::new() });
    handling.step(ProxyEvent::Status(0));
    handling.step(ProxyEvent::Filtered(Vec::new()));
    handling.step(ProxyEvent::BodyFilter(true));
    assert_eq!(handling.step(ProxyEvent::Failed), ProxyCommand::Fail(ProxyFailure::Transport));
}

#[test]
fn an_event_that_was_not_waited_for_ends_the_handling() {
    let (mut handling, _) = proxy(false);
    assert_eq!(
        handling.step(ProxyEvent::BodyFilter(true)),
        ProxyCommand::Fail(ProxyFailure::OutOfTurn)
    );
    assert!(handling.is_closed());
}

#[test]
fn the_origin_is_not_asked_again() {
    let (mut handling, _) = proxy(false);
    handling.step(ProxyEvent::Status(0));
    handling.step(ProxyEvent::Response { status: 500, headers: Vec::new() });
    handling.step(ProxyEvent::Status(0));
    assert_eq!(handling.step(ProxyEvent::Status(0)), ProxyCommand::Fail(ProxyFailure::OutOfTurn));
}

#[test]
fn bodies_are_joined_in_order() {
    assert_eq!(join_body(b"abc".to_vec(), b"de".to_vec()), b"abcde".to_vec());
    assert_eq!(join_body(Vec::new(), b"de".to_vec()), b"de".to_vec());
    assert_eq!(join_body(b"abc".to_vec(), Vec::new()), b"abc".to_vec());
}
