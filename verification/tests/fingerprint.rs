use std::collections::hash_map::DefaultHasher;
use std::hash::Hasher;

use edge_proxy::fingerprint::{canonical_text, fingerprint};
use edge_proxy::header::Header;
use edge_proxy::request::{
    create_redirectionio_request, ConnectingIp, InboundRequest, NormalizedRequest,
};

fn base() -> NormalizedRequest {
    NormalizedRequest {
        method: Some("GET".to_string()),
        scheme: Some("https".to_string()),
        host: Some("example.org".to_string()),
        path_and_query: "/a?b=1".to_string(),
        headers: vec![
            Header { name: "Accept".to_string(), value: "*/*".to_string() },
            Header { name: "X-\u{e9}".to_string(), value: String::new() },
        ],
        remote_addr: None,
        created_at: 1_591_273_076_123,
        sampling_override: None,
    }
}

fn hashed(text: &str) -> u64 {
    let mut hasher = DefaultHasher::new();
    hasher.write(text.as_bytes());
    hasher.finish()
}

#[test]
fn a_snapshot_is_written_out_part_by_part() {
    assert_eq!(
        canonical_text(&base()),
        "+3:GET+5:https+11:example.org6:/a?b=12:6:Accept3:*/*3:X-\u{e9}0:-+1591273076123:-"
    );
}

#[test]
fn parts_that_are_missing_are_written_as_missing() {
    let request = NormalizedRequest {
        method: None,
        scheme: None,
        host: None,
        path_and_query: String::new(),
        headers: Vec::new(),
        remote_addr: Some("::1".to_string()),
        created_at: -5,
        sampling_override: Some(true),
    };
    assert_eq!(canonical_text(&request), "---0:0:+3:::1-5:t");
}

#[test]
fn the_earliest_and_the_latest_time_are_written_out() {
    let mut request = base();
    request.headers = Vec::new();
    request.sampling_override = Some(false);
    request.created_at = i64::MIN;
    assert!(canonical_text(&request).ends_with("0:--9223372036854775808:f"));
    request.created_at = i64::MAX;
    assert!(canonical_text(&request).ends_with("0:-+9223372036854775807:f"));
    request.created_at = 0;
    assert!(canonical_text(&request).ends_with("0:-+0:f"));
}

#[test]
fn the_fingerprint_is_the_hash_of_what_is_written_out() {
    let request = base();
    assert_eq!(fingerprint(&request), hashed(&canonical_text(&request)));
    assert_eq!(
        fingerprint(&request),
        hashed("+3:GET+5:https+11:example.org6:/a?b=12:6:Accept3:*/*3:X-\u{e9}0:-+1591273076123:-")
    );
}

#[test]
fn the_same_snapshot_has_the_same_fingerprint() {
    assert_eq!(fingerprint(&base()), fingerprint(&base()));
}

#[test]
fn the_same_inbound_request_has_the_same_fingerprint() {
    let inbound = InboundRequest {
        method: "POST".to_string(),
        scheme: "http".to_string(),
        host: None,
        path: "/p".to_string(),
        query: Some("q".to_string()),
        headers: vec![Header { name: "a".to_string(), value: "b".to_string() }],
        connecting_ip: Some(ConnectingIp { text: "10.0.0.1".to_string(), is_address: true }),
        received_at: 7,
    };
    let (one, _) = create_redirectionio_request(inbound.clone());
    let (two, _) = create_redirectionio_request(inbound);
    assert_eq!(fingerprint(&one), fingerprint(&two));
}

#[test]
fn any_difference_changes_what_is_written_out_and_the_fingerprint() {
    let mut others: Vec<NormalizedRequest> = Vec::new();
    let mut other = base();
    other.method = Some("POST".to_string());
    others.push(other);
    let mut other = base();
    other.method = None;
    others.push(other);
    let mut other = base();
    other.scheme = Some("http".to_string());
    others.push(other);
    let mut other = base();
    other.host = Some("example.com".to_string());
    others.push(other);
    let mut other = base();
    other.path_and_query = "/a?b=2".to_string();
    others.push(other);
    let mut other = base();
    other.path_and_query = "/a".to_string();
    others.push(other);
    let mut other = base();
    other.headers.pop();
    others.push(other);
    let mut other = base();
    other.headers[0].value = "*/*;q=1".to_string();
    others.push(other);
    let mut other = base();
    other.headers.swap(0, 1);
    others.push(other);
    let mut other = base();
    other.remote_addr = Some("10.0.0.1".to_string());
    others.push(other);
    let mut other = base();
    other.created_at += 1;
    others.push(other);
    let mut other = base();
    other.sampling_override = Some(false);
    others.push(other);
    for other in &others {
        assert_ne!(canonical_text(other), canonical_text(&base()), "{:?}", other);
        assert_ne!(fingerprint(other), fingerprint(&base()), "{:?}", other);
    }
}

#[test]
fn parts_do_not_run_into_each_other() {
    let mut one = base();
    one.headers = vec![Header { name: "ab".to_string(), value: "c".to_string() }];
    let mut two = base();
    two.headers = vec![Header { name: "a".to_string(), value: "bc".to_string() }];
    assert_ne!(canonical_text(&one), canonical_text(&two));
    let mut three = base();
    three.headers = vec![
        Header { name: "a".to_string(), value: "1:b".to_string() },
        Header { name: "1:c".to_string(), value: "d".to_string() },
    ];
    let mut four = base();
    four.headers = vec![Header { name: "a".to_string(), value: "1:b1:1:c1:d".to_string() }];
    assert_ne!(canonical_text(&three), canonical_text(&four));
}
