use edge_proxy::action::{Agent, Call};
use edge_proxy::header::Header;
use edge_proxy::request::NormalizedRequest;
use edge_proxy::telemetry::{log_call, log_record, log_url, LogRecord, Timing};

fn header(name: &str, value: &str) -> Header {
    Header { name: name.to_string(), value: value.to_string() }
}

fn request() -> NormalizedRequest {
    NormalizedRequest {
        method: Some("GET".to_string()),
        scheme: Some("https".to_string()),
        host: Some("example.org".to_string()),
        path_and_query: "/old?x=1".to_string(),
        headers: vec![header("user-agent", "curl/8")],
        remote_addr: Some("203.0.113.7".to_string()),
        created_at: 1_591_273_076_123,
        sampling_override: None,
    }
}

fn timing() -> Timing {
    Timing {
        start_time: 1_591_273_076_123,
        action_match_time: 1_591_273_076_130,
        response_time: 1_591_273_076_190,
    }
}

#[test]
fn the_log_is_reached_under_the_token() {
    assert_eq!(log_url("https://agent.redirection.io", "tok-7"), "https://agent.redirection.io/tok-7/log");
}

#[test]
fn a_report_carries_the_headers_of_every_request_to_the_engine() {
    let agent = Agent {
        host: "https://agent.redirection.io".to_string(),
        token: "tok-7".to_string(),
        instance_name: "edge-1".to_string(),
        version: "1.2.3".to_string(),
        cache_time: 0,
        timeout: 5000,
    };
    assert_eq!(
        log_call(&agent),
        Call {
            url: "https://agent.redirection.io/tok-7/log".to_string(),
            headers: vec![
                header("Content-Type", "application/json"),
                header("x-redirectionio-instance-name", "edge-1"),
                header("User-Agent", "cloudflare-worker/1.2.3"),
            ],
        }
    );
}

#[test]
fn a_record_is_made_of_what_is_known_of_the_request() {
    let record = log_record(
        true,
        request(),
        301,
        vec![header("location", "/new")],
        vec!["rule-1".to_string(), "rule-2".to_string()],
        "1.2.3",
        timing(),
        Some("203.0.113.7".to_string()),
    );
    assert_eq!(
        record,
        Some(LogRecord {
            request: request(),
            status: 301,
            response_headers: vec![header("location", "/new")],
            rule_ids: vec!["rule-1".to_string(), "rule-2".to_string()],
            proxy: "cloudflare-worker/1.2.3".to_string(),
            start_time: 1_591_273_076_123,
            action_match_time: 1_591_273_076_130,
            response_time: Some(1_591_273_076_190),
            client_ip: "203.0.113.7".to_string(),
        })
    );
}

#[test]
fn an_unknown_client_is_recorded_with_an_empty_address() {
    let record = log_record(true, request(), 200, Vec::new(), Vec::new(), "dev", timing(), None);
    assert_eq!(record.map(|r| r.client_ip), Some(String::new()));
}

#[test]
fn no_record_is_made_where_none_is_wanted() {
    let record = log_record(
        false,
        request(),
        200,
        Vec::new(),
        Vec::new(),
        "dev",
        timing(),
        Some("203.0.113.7".to_string()),
    );
    assert_eq!(record, None);
}
