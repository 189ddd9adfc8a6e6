use edge_proxy::header::Header;
use edge_proxy::request::{
    create_redirectionio_request, join_path_and_query, ConnectingIp, InboundRequest,
    NormalizedRequest,
};

fn inbound(query: Option<&str>, connecting_ip: Option<ConnectingIp>) -> InboundRequest {
    InboundRequest {
        method: "GET".to_string(),
        scheme: "https".to_string(),
        host: Some("example.org".to_string()),
        path: "/a%20b/c".to_string(),
        query: query.map(|q| q.to_string()),
        headers: vec![
            Header { name: "Accept".to_string(), value: "*/*".to_string() },
            Header { name: "X-Twice".to_string(), value: "1".to_string() },
            Header { name: "X-Twice".to_string(), value: "2".to_string() },
        ],
        connecting_ip,
        received_at: 1_591_273_076_123,
    }
}

#[test]
fn the_path_alone_where_there_is_no_query() {
    assert_eq!(join_path_and_query("/a/b".to_string(), None), "/a/b");
}

#[test]
fn the_query_follows_a_question_mark() {
    assert_eq!(join_path_and_query("/a/b".to_string(), Some("x=1&y=%20".to_string())), "/a/b?x=1&y=%20");
}

#[test]
fn an_empty_query_still_gets_its_question_mark() {
    assert_eq!(join_path_and_query("/".to_string(), Some(String::new())), "/?");
}

#[test]
fn the_snapshot_keeps_what_came_in() {
    let ip = ConnectingIp { text: "203.0.113.7".to_string(), is_address: true };
    let (request, client_ip) = create_redirectionio_request(inbound(Some("q=1"), Some(ip)));
    assert_eq!(
        request,
        NormalizedRequest {
            method: Some("GET".to_string()),
            scheme: Some("https".to_string()),
            host: Some("example.org".to_string()),
            path_and_query: "/a%20b/c?q=1".to_string(),
            headers: vec![
                Header { name: "Accept".to_string(), value: "*/*".to_string() },
                Header { name: "X-Twice".to_string(), value: "1".to_string() },
                Header { name: "X-Twice".to_string(), value: "2".to_string() },
            ],
            remote_addr: Some("203.0.113.7".to_string()),
            created_at: 1_591_273_076_123,
            sampling_override: None,
        }
    );
    assert_eq!(client_ip, Some("203.0.113.7".to_string()));
}

#[test]
fn an_address_that_does_not_read_as_one_is_reported_and_not_trusted() {
    let ip = ConnectingIp { text: "not-an-ip".to_string(), is_address: false };
    let (request, client_ip) = create_redirectionio_request(inbound(None, Some(ip)));
    assert_eq!(request.remote_addr, None);
    assert_eq!(client_ip, Some("not-an-ip".to_string()));
    assert_eq!(request.path_and_query, "/a%20b/c");
}

#[test]
fn no_address_leaves_both_unset() {
    let (request, client_ip) = create_redirectionio_request(inbound(None, None));
    assert_eq!(request.remote_addr, None);
    assert_eq!(client_ip, None);
}

#[test]
fn a_request_without_a_host_is_built_too() {
    let mut raw = inbound(None, None);
    raw.host = None;
    raw.headers = Vec::new();
    let (request, _) = create_redirectionio_request(raw);
    assert_eq!(request.host, None);
    assert_eq!(request.headers, Vec::<Header>::new());
    assert_eq!(request.method, Some("GET".to_string()));
    assert_eq!(request.scheme, Some("https".to_string()));
}

#[test]
fn the_same_inbound_request_gives_the_same_snapshot() {
    let ip = ConnectingIp { text: "::1".to_string(), is_address: true };
    let one = create_redirectionio_request(inbound(Some("a=b"), Some(ip.clone())));
    let two = create_redirectionio_request(inbound(Some("a=b"), Some(ip)));
    assert_eq!(one, two);
}
