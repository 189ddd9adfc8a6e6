//! What is reported of a request once it is answered.

use crate::action::{
    agent_headers, agent_headers_text, proxy_name, proxy_name_text, Agent, AgentText, Call,
    CallText,
};
use crate::header::{Header, HeaderText};
use crate::request::{NormalizedRequest, RequestText};
use vstd::prelude::*;
use vstd::string::StringExecFns;

verus! {

/// What is reported of one request once it is answered. Times are in
/// milliseconds since the Unix epoch.
#[derive(Debug, Clone, PartialEq, Eq)]
pub struct LogRecord {
    pub request: NormalizedRequest,
    /// The status that the client got.
    pub status: u16,
    /// The headers that the client got.
    pub response_headers: Vec<Header>,
    /// The rules that the decision applied.
    pub rule_ids: Vec<String>,
    /// This proxy's name.
    pub proxy: String,
    pub start_time: u128,
    pub action_match_time: u128,
    pub response_time: Option<u128>,
    /// The client's address as the platform reported it; empty where it
    /// reported none.
    pub client_ip: String,
}

/// When a request came in, when its decision was found, and when its
/// response was there.
#[derive(Debug, Clone, Copy, PartialEq, Eq)]
pub struct Timing {
    pub start_time: u128,
    pub action_match_time: u128,
    pub response_time: u128,
}

/// What a `LogRecord` holds, as texts.
pub struct LogRecordText {
    pub request: RequestText,
    pub status: u16,
    pub response_headers: Seq<HeaderText>,
    pub rule_ids: Seq<Seq<char>>,
    pub proxy: Seq<char>,
    pub start_time: u128,
    pub action_match_time: u128,
    pub response_time: Option<u128>,
    pub client_ip: Seq<char>,
}

impl DeepView for LogRecord {
    type V = LogRecordText;

    open spec fn deep_view(&self) -> LogRecordText {
        LogRecordText {
            request: self.request.deep_view(),
            status: self.status,
            response_headers: self.response_headers.deep_view(),
            rule_ids: self.rule_ids.deep_view(),
            proxy: self.proxy@,
            start_time: self.start_time,
            action_match_time: self.action_match_time,
            response_time: self.response_time,
            client_ip: self.client_ip@,
        }
    }
}

/// The address of the engine's log.
pub open spec fn log_url_text(host: Seq<char>, token: Seq<char>) -> Seq<char> {
    host + "/"@ + token + "/log"@
}

/// The request by which a record is sent to the engine's log.
pub open spec fn log_call_text(agent: AgentText) -> CallText {
    CallText {
        url: log_url_text(agent.host, agent.token),
        headers: agent_headers_text(agent.instance_name, agent.version),
    }
}

/// The record of a request, where one is to be made.
pub open spec fn recorded(
    wanted: bool,
    request: RequestText,
    status: u16,
    response_headers: Seq<HeaderText>,
    rule_ids: Seq<Seq<char>>,
    version: Seq<char>,
    timing: Timing,
    client_ip: Option<Seq<char>>,
) -> Option<LogRecordText> {
    if wanted {
        Some(
            LogRecordText {
                request,
                status,
                response_headers,
                rule_ids,
                proxy: proxy_name_text(version),
                start_time: timing.start_time,
                action_match_time: timing.action_match_time,
                response_time: Some(timing.response_time),
                client_ip: match client_ip {
                    Some(ip) => ip,
                    None => Seq::empty(),
                },
            },
        )
    } else {
        None
    }
}

/// The address of the engine's log.
pub fn log_url(host: &str, token: &str) -> (url: String)
    ensures
        url@ == log_url_text(host@, token@),
{
    let mut url = host.to_owned();
    url.append("/");
    url.append(token);
    url.append("/log");
    url
}

/// The request by which a record is sent to the engine's log.
pub fn log_call(agent: &Agent) -> (call: Call)
    ensures
        call.deep_view() == log_call_text(agent.deep_view()),
{
    Call {
        url: log_url(agent.host.as_str(), agent.token.as_str()),
        headers: agent_headers(agent.instance_name.as_str(), agent.version.as_str()),
    }
}

/// Makes the record of a request where `wanted` says that it is to be
/// reported, and none where it is not.
pub fn log_record(
    wanted: bool,
    request: NormalizedRequest,
    status: u16,
    response_headers: Vec<Header>,
    rule_ids: Vec<String>,
    version: &str,
    timing: Timing,
    client_ip: Option<String>,
) -> (record: Option<LogRecord>)
    ensures
        record.deep_view() == recorded(
            wanted,
            request.deep_view(),
            status,
            response_headers.deep_view(),
            rule_ids.deep_view(),
            version@,
            timing,
            client_ip.deep_view(),
        ),
{
    if wanted {
        Some(
            LogRecord {
                request,
                status,
                response_headers,
                rule_ids,
                proxy: proxy_name(version),
                start_time: timing.start_time,
                action_match_time: timing.action_match_time,
                response_time: Some(timing.response_time),
                client_ip: match client_ip {
                    Some(ip) => ip,
                    None => String::new(),
                },
            },
        )
    } else {
        None
    }
}

} // verus!
