use edge_proxy::action::{
    action_url, agent_headers, cache_headers, cache_key, get_action, proxy_name, ActionFetch, Agent,
    CacheWrite, Call, FetchCommand, FetchEvent, FetchFailure, Verdict,
};
use edge_proxy::fingerprint::fingerprint;
use edge_proxy::header::Header;
use edge_proxy::request::NormalizedRequest;

fn agent(cache_time: u64) -> Agent {
    Agent {
        host: "https://agent.redirection.io".to_string(),
        token: "tok-7".to_string(),
        instance_name: "edge-1".to_string(),
        version: "1.2.3".to_string(),
        cache_time,
        timeout: 5000,
    }
}

fn header(name: &str, value: &str) -> Header {
    Header { name: name.to_string(), value: value.to_string() }
}

fn finish(verdict: Verdict, write_back: Option<CacheWrite>) -> FetchCommand {
    FetchCommand::Finish { verdict, write_back }
}

#[test]
fn the_cache_key_names_host_token_and_fingerprint() {
    assert_eq!(
        cache_key("https://agent.redirection.io", "tok", 1234567890123456789),
        "https://agent.redirection.io/tok/action/1234567890123456789"
    );
    assert_eq!(cache_key("h", "t", 0), "h/t/action/0");
    assert_eq!(cache_key("", "", u64::MAX), "//action/18446744073709551615");
}

#[test]
fn different_fingerprints_give_different_keys() {
    assert_ne!(cache_key("h", "t", 1), cache_key("h", "t", 10));
    assert_ne!(cache_key("h", "t", 12), cache_key("h", "t", 21));
    assert_eq!(cache_key("h", "t", 7), cache_key("h", "t", 7));
}

#[test]
fn the_engine_is_asked_under_the_token() {
    assert_eq!(action_url("https://agent.redirection.io", "tok"), "https://agent.redirection.io/tok/action");
}

#[test]
fn the_proxy_names_itself_with_its_version() {
    assert_eq!(proxy_name("1.2.3"), "cloudflare-worker/1.2.3");
    assert_eq!(proxy_name("redirection-io-cloudflare/dev"), "cloudflare-worker/redirection-io-cloudflare/dev");
}

#[test]
fn requests_to_the_engine_carry_three_headers() {
    assert_eq!(
        agent_headers("edge-1", "1.2.3"),
        vec![
            header("Content-Type", "application/json"),
            header("x-redirectionio-instance-name", "edge-1"),
            header("User-Agent", "cloudflare-worker/1.2.3"),
        ]
    );
}

#[test]
fn a_cached_decision_may_be_kept_for_the_cache_time() {
    assert_eq!(
        cache_headers(60),
        vec![
            header("Content-Type", "application/json"),
            header("Cache-Control", "public, max-age=60"),
        ]
    );
}

#[test]
fn the_search_starts_in_the_cache() {
    let (fetch, command) = ActionFetch::open(agent(0), 42);
    assert!(!fetch.is_closed());
    assert_eq!(
        command,
        FetchCommand::ReadCache { key: "https://agent.redirection.io/tok-7/action/42".to_string() }
    );
}

#[test]
fn a_hit_is_decoded_and_nothing_is_fetched_or_written() {
    let (mut fetch, _) = ActionFetch::open(agent(60), 42);
    let payload = b"{\"status_code_update\":null}".to_vec();
    assert_eq!(
        fetch.step(FetchEvent::CacheHit(payload.clone())),
        FetchCommand::Decode { payload }
    );
    assert!(!fetch.is_closed());
    assert_eq!(fetch.step(FetchEvent::Decoded), finish(Verdict::Decoded, None));
    assert!(fetch.is_closed());
}

#[test]
fn a_miss_asks_the_engine_against_the_clock() {
    let (mut fetch, _) = ActionFetch::open(agent(0), 42);
    assert_eq!(
        fetch.step(FetchEvent::CacheMiss),
        FetchCommand::Race {
            call: Call {
                url: "https://agent.redirection.io/tok-7/action".to_string(),
                headers: vec![
                    header("Content-Type", "application/json"),
                    header("x-redirectionio-instance-name", "edge-1"),
                    header("User-Agent", "cloudflare-worker/1.2.3"),
                ],
            },
            timeout: 5000,
        }
    );
}

#[test]
fn a_timeout_passes_the_request_through() {
    let (mut fetch, _) = ActionFetch::open(agent(60), 42);
    fetch.step(FetchEvent::CacheMiss);
    assert_eq!(fetch.step(FetchEvent::TimedOut), finish(Verdict::PassThrough, None));
    assert!(fetch.is_closed());
}

#[test]
fn an_answer_is_decoded_and_written_back_as_it_came() {
    let (mut fetch, _) = ActionFetch::open(agent(60), 42);
    fetch.step(FetchEvent::CacheMiss);
    let body = b"{\"rule_ids\":[\"r1\"]}".to_vec();
    assert_eq!(
        fetch.step(FetchEvent::Fetched { status: 200, body: body.clone() }),
        FetchCommand::Decode { payload: body.clone() }
    );
    assert_eq!(
        fetch.step(FetchEvent::Decoded),
        finish(
            Verdict::Decoded,
            Some(CacheWrite {
                key: "https://agent.redirection.io/tok-7/action/42".to_string(),
                body,
                headers: vec![
                    header("Content-Type", "application/json"),
                    header("Cache-Control", "public, max-age=60"),
                ],
            })
        )
    );
    assert!(fetch.is_closed());
}

#[test]
fn what_was_written_back_is_what_a_hit_decodes() {
    let body = b"{\"rule_ids\":[\"r1\"]}".to_vec();
    let (mut first, read) = ActionFetch::open(agent(60), 7);
    first.step(FetchEvent::CacheMiss);
    first.step(FetchEvent::Fetched { status: 200, body });
    let stored = match first.step(FetchEvent::Decoded) {
        FetchCommand::Finish { write_back: Some(write), .. } => write,
        other => panic!("no write-back: {:?}", other),
    };
    let (mut second, read_again) = ActionFetch::open(agent(60), 7);
    assert_eq!(read_again, read);
    assert_eq!(read, FetchCommand::ReadCache { key: stored.key.clone() });
    assert_eq!(
        second.step(FetchEvent::CacheHit(stored.body.clone())),
        FetchCommand::Decode { payload: stored.body }
    );
    assert_eq!(second.step(FetchEvent::Decoded), finish(Verdict::Decoded, None));
}

#[test]
fn nothing_is_written_back_where_caching_is_off() {
    let (mut fetch, _) = ActionFetch::open(agent(0), 42);
    fetch.step(FetchEvent::CacheMiss);
    fetch.step(FetchEvent::Fetched { status: 200, body: b"{}".to_vec() });
    assert_eq!(fetch.step(FetchEvent::Decoded), finish(Verdict::Decoded, None));
}

#[test]
fn an_answer_that_is_no_decision_fails_the_request() {
    let (mut fetch, _) = ActionFetch::open(agent(60), 42);
    fetch.step(FetchEvent::CacheMiss);
    fetch.step(FetchEvent::Fetched { status: 200, body: b"<html>".to_vec() });
    assert_eq!(fetch.step(FetchEvent::Undecodable), FetchCommand::Fail(FetchFailure::Deserialization));
    assert!(fetch.is_closed());
}

#[test]
fn a_cache_entry_that_is_no_decision_fails_the_request() {
    let (mut fetch, _) = ActionFetch::open(agent(60), 42);
    fetch.step(FetchEvent::CacheHit(b"garbage".to_vec()));
    assert_eq!(fetch.step(FetchEvent::Undecodable), FetchCommand::Fail(FetchFailure::Deserialization));
    assert!(fetch.is_closed());
}

#[test]
fn a_failure_to_reach_the_engine_fails_the_request() {
    let (mut fetch, _) = ActionFetch::open(agent(60), 42);
    fetch.step(FetchEvent::CacheMiss);
    assert_eq!(fetch.step(FetchEvent::Failed), FetchCommand::Fail(FetchFailure::Transport));
    assert!(fetch.is_closed());
}

#[test]
fn a_failure_to_read_the_cache_fails_the_request() {
    let (mut fetch, _) = ActionFetch::open(agent(60), 42);
    assert_eq!(fetch.step(FetchEvent::Failed), FetchCommand::Fail(FetchFailure::Transport));
}

#[test]
fn an_event_out_of_turn_ends_the_search() {
    let (mut fetch, _) = ActionFetch::open(agent(60), 42);
    assert_eq!(fetch.step(FetchEvent::TimedOut), FetchCommand::Fail(FetchFailure::OutOfTurn));
    assert!(fetch.is_closed());
    assert_eq!(fetch.step(FetchEvent::CacheMiss), FetchCommand::Fail(FetchFailure::OutOfTurn));
    assert_eq!(fetch.step(FetchEvent::Failed), FetchCommand::Fail(FetchFailure::OutOfTurn));
}

#[test]
fn the_engine_is_not_asked_twice() {
    let (mut fetch, _) = ActionFetch::open(agent(60), 42);
    fetch.step(FetchEvent::CacheMiss);
    assert_eq!(fetch.step(FetchEvent::CacheMiss), FetchCommand::Fail(FetchFailure::OutOfTurn));
    assert!(fetch.is_closed());
}

#[test]
fn an_answer_that_is_no_success_fails_the_request_undecoded() {
    for status in [199u16, 300, 404, 500, 0] {
        let (mut fetch, _) = ActionFetch::open(agent(60), 42);
        fetch.step(FetchEvent::CacheMiss);
        assert_eq!(
            fetch.step(FetchEvent::Fetched { status, body: b"{}".to_vec() }),
            FetchCommand::Fail(FetchFailure::Refused)
        );
        assert!(fetch.is_closed());
    }
}

#[test]
fn every_success_is_decoded() {
    for status in [200u16, 204, 299] {
        let (mut fetch, _) = ActionFetch::open(agent(60), 42);
        fetch.step(FetchEvent::CacheMiss);
        assert_eq!(
            fetch.step(FetchEvent::Fetched { status, body: b"{}".to_vec() }),
            FetchCommand::Decode { payload: b"{}".to_vec() }
        );
    }
}

fn snapshot(path_and_query: &str) -> NormalizedRequest {
    NormalizedRequest {
        method: Some("GET".to_string()),
        scheme: Some("https".to_string()),
        host: Some("example.org".to_string()),
        path_and_query: path_and_query.to_string(),
        headers: vec![header("accept", "*/*")],
        remote_addr: None,
        created_at: 1_591_273_076_123,
        sampling_override: None,
    }
}

#[test]
fn a_request_is_looked_up_under_its_fingerprint() {
    let request = snapshot("/old?x=1");
    let (fetch, command) = get_action(&request, agent(60));
    assert!(!fetch.is_closed());
    assert_eq!(
        command,
        FetchCommand::ReadCache {
            key: format!("https://agent.redirection.io/tok-7/action/{}", fingerprint(&request)),
        }
    );
}

#[test]
fn the_same_request_is_looked_up_under_the_same_key() {
    let (_, first) = get_action(&snapshot("/old?x=1"), agent(60));
    let (_, second) = get_action(&snapshot("/old?x=1"), agent(60));
    assert_eq!(first, second);
}

#[test]
fn another_request_is_looked_up_under_another_key() {
    let (_, first) = get_action(&snapshot("/old?x=1"), agent(60));
    let (_, second) = get_action(&snapshot("/old?x=2"), agent(60));
    assert_ne!(first, second);
}
