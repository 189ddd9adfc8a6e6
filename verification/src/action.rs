//! The search for the decision on a request: in the cache first, then at
//! the decision engine, for a bounded time.
//!
//! The search does no work outside. It gives a command, and takes what
//! happened as an event: `get_action` starts it, `ActionFetch::step` carries
//! it on, and `after` says what each step does.

use crate::fingerprint::{fingerprint, fingerprint_of};
use crate::header::{Header, HeaderText};
use crate::number::{decimal, lemma_decimal_injective, push_decimal};
use crate::request::NormalizedRequest;
use vstd::prelude::*;
use vstd::string::StringExecFns;

verus! {

/// Where and how the decision engine is asked.
#[derive(Debug, Clone, PartialEq, Eq)]
pub struct Agent {
    pub host: String,
    pub token: String,
    pub instance_name: String,
    pub version: String,
    /// For how many seconds a decision is kept in the cache; 0 keeps none.
    pub cache_time: u64,
    /// For how many milliseconds the engine's answer is waited for.
    pub timeout: u64,
}

/// A request that is to be sent by `POST`, with a body in JSON.
#[derive(Debug, Clone, PartialEq, Eq)]
pub struct Call {
    pub url: String,
    pub headers: Vec<Header>,
}

/// A decision that is to be put into the cache once the client has its
/// response.
#[derive(Debug, Clone, PartialEq, Eq)]
pub struct CacheWrite {
    pub key: String,
    pub body: Vec<u8>,
    pub headers: Vec<Header>,
}

/// How far the search for a decision has come.
#[derive(Debug, Clone, Copy, PartialEq, Eq)]
pub enum FetchPhase {
    /// The cache is being read.
    Lookup,
    /// The engine is being asked, against the clock.
    Race,
    /// What the cache held is being decoded.
    DecodeCached,
    /// What the engine sent is being decoded.
    DecodeFetched,
    /// The search is over.
    Closed,
}

/// Which decision the request is handled by.
#[derive(Debug, Clone, Copy, PartialEq, Eq)]
pub enum Verdict {
    /// The empty decision: the request is passed through unchanged.
    PassThrough,
    /// The decision that was decoded last.
    Decoded,
}

/// Why no decision was found.
#[derive(Debug, Clone, Copy, PartialEq, Eq)]
pub enum FetchFailure {
    /// The cache or the engine could not be reached or read.
    Transport,
    /// The engine answered with a status that is no success.
    Refused,
    /// What the cache or the engine gave is no decision.
    Deserialization,
    /// An event came that the search was not waiting for.
    OutOfTurn,
}

/// What happened outside since the last command.
#[derive(Debug, Clone, PartialEq, Eq)]
pub enum FetchEvent {
    /// The cache holds this payload under the key.
    CacheHit(Vec<u8>),
    /// The cache holds nothing under the key.
    CacheMiss,
    /// The time ran out before the engine had answered.
    TimedOut,
    /// The engine answered in time, with this status and this body.
    Fetched { status: u16, body: Vec<u8> },
    /// The payload is a decision.
    Decoded,
    /// The payload is no decision.
    Undecodable,
    /// The cache or the engine could not be reached or read.
    Failed,
}

/// What is to be done outside next.
#[derive(Debug, Clone, PartialEq, Eq)]
pub enum FetchCommand {
    /// Read the cache under `key`; stale entries count as missing.
    ReadCache { key: String },
    /// Send `call` with the request as its body, and give it up when
    /// `timeout` milliseconds have passed.
    Race { call: Call, timeout: u64 },
    /// Decode `payload` as a decision.
    Decode { payload: Vec<u8> },
    /// Go on with the decision that `verdict` names, and run `write_back`
    /// once the client has its response.
    Finish { verdict: Verdict, write_back: Option<CacheWrite> },
    /// Fail the request.
    Fail(FetchFailure),
}

/// The search for the decision on one request: first in the cache, then at
/// the engine, for a bounded time.
pub struct ActionFetch {
    agent: Agent,
    key: String,
    phase: FetchPhase,
    body: Vec<u8>,
}

/// What an `Agent` holds, as texts.
pub struct AgentText {
    pub host: Seq<char>,
    pub token: Seq<char>,
    pub instance_name: Seq<char>,
    pub version: Seq<char>,
    pub cache_time: u64,
    pub timeout: u64,
}

/// What a `Call` holds, as texts.
pub struct CallText {
    pub url: Seq<char>,
    pub headers: Seq<HeaderText>,
}

/// What a `CacheWrite` holds, as texts and bytes.
pub struct CacheWriteText {
    pub key: Seq<char>,
    pub body: Seq<u8>,
    pub headers: Seq<HeaderText>,
}

/// What a `FetchEvent` holds, as bytes.
pub enum FetchEventText {
    CacheHit(Seq<u8>),
    CacheMiss,
    TimedOut,
    Fetched { status: u16, body: Seq<u8> },
    Decoded,
    Undecodable,
    Failed,
}

/// What a `FetchCommand` holds, as texts and bytes.
pub enum FetchCommandText {
    ReadCache { key: Seq<char> },
    Race { call: CallText, timeout: u64 },
    Decode { payload: Seq<u8> },
    Finish { verdict: Verdict, write_back: Option<CacheWriteText> },
    Fail(FetchFailure),
}

/// What stands behind an `ActionFetch`: where it asks, under which key it
/// looks, how far it has come, and the answer it keeps for the cache.
pub struct ActionFetchText {
    pub agent: AgentText,
    pub key: Seq<char>,
    pub phase: FetchPhase,
    pub body: Seq<u8>,
}

impl DeepView for Agent {
    type V = AgentText;

    open spec fn deep_view(&self) -> AgentText {
        AgentText {
            host: self.host@,
            token: self.token@,
            instance_name: self.instance_name@,
            version: self.version@,
            cache_time: self.cache_time,
            timeout: self.timeout,
        }
    }
}

impl DeepView for Call {
    type V = CallText;

    open spec fn deep_view(&self) -> CallText {
        CallText { url: self.url@, headers: self.headers.deep_view() }
    }
}

impl DeepView for CacheWrite {
    type V = CacheWriteText;

    open spec fn deep_view(&self) -> CacheWriteText {
        CacheWriteText { key: self.key@, body: self.body@, headers: self.headers.deep_view() }
    }
}

impl DeepView for FetchEvent {
    type V = FetchEventText;

    open spec fn deep_view(&self) -> FetchEventText {
        match self {
            FetchEvent::CacheHit(payload) => FetchEventText::CacheHit(payload@),
            FetchEvent::CacheMiss => FetchEventText::CacheMiss,
            FetchEvent::TimedOut => FetchEventText::TimedOut,
            FetchEvent::Fetched { status, body } => FetchEventText::Fetched {
                status: *status,
                body: body@,
            },
            FetchEvent::Decoded => FetchEventText::Decoded,
            FetchEvent::Undecodable => FetchEventText::Undecodable,
            FetchEvent::Failed => FetchEventText::Failed,
        }
    }
}

impl DeepView for FetchCommand {
    type V = FetchCommandText;

    open spec fn deep_view(&self) -> FetchCommandText {
        match self {
            FetchCommand::ReadCache { key } => FetchCommandText::ReadCache { key: key@ },
            FetchCommand::Race { call, timeout } => FetchCommandText::Race {
                call: call.deep_view(),
                timeout: *timeout,
            },
            FetchCommand::Decode { payload } => FetchCommandText::Decode { payload: payload@ },
            FetchCommand::Finish { verdict, write_back } => FetchCommandText::Finish {
                verdict: *verdict,
                write_back: write_back.deep_view(),
            },
            FetchCommand::Fail(failure) => FetchCommandText::Fail(*failure),
        }
    }
}

impl DeepView for ActionFetch {
    type V = ActionFetchText;

    closed spec fn deep_view(&self) -> ActionFetchText {
        ActionFetchText {
            agent: self.agent.deep_view(),
            key: self.key@,
            phase: self.phase,
            body: self.body@,
        }
    }
}

/// The key under which the decision on a request is cached: the engine's
/// host, the token, the word `action` and the request's fingerprint in
/// decimal, with a slash between each two.
pub open spec fn cache_key_text(host: Seq<char>, token: Seq<char>, fingerprint: u64) -> Seq<char> {
    host + "/"@ + token + "/action/"@ + decimal(fingerprint as nat)
}

/// The address at which the engine is asked for a decision.
pub open spec fn action_url_text(host: Seq<char>, token: Seq<char>) -> Seq<char> {
    host + "/"@ + token + "/action"@
}

/// The name under which this proxy makes itself known.
pub open spec fn proxy_name_text(version: Seq<char>) -> Seq<char> {
    "cloudflare-worker/"@ + version
}

/// The headers of every request to the engine: the body's type, the
/// instance's name, and this proxy's name with its version.
pub open spec fn agent_headers_text(instance_name: Seq<char>, version: Seq<char>) -> Seq<
    HeaderText,
> {
    seq![
        HeaderText { name: "Content-Type"@, value: "application/json"@ },
        HeaderText { name: "x-redirectionio-instance-name"@, value: instance_name },
        HeaderText { name: "User-Agent"@, value: proxy_name_text(version) },
    ]
}

/// The request by which the engine is asked for a decision.
pub open spec fn action_call_text(agent: AgentText) -> CallText {
    CallText {
        url: action_url_text(agent.host, agent.token),
        headers: agent_headers_text(agent.instance_name, agent.version),
    }
}

/// The headers that a cached decision is stored with: its type, and leave to
/// keep it for `cache_time` seconds.
pub open spec fn cache_headers_text(cache_time: u64) -> Seq<HeaderText> {
    seq![
        HeaderText { name: "Content-Type"@, value: "application/json"@ },
        HeaderText {
            name: "Cache-Control"@,
            value: "public, max-age="@ + decimal(cache_time as nat),
        },
    ]
}

/// What is written back to the cache after the engine's answer `body` was
/// decoded: nothing where caching is off, else `body` as it came, under
/// `key`.
pub open spec fn write_back_text(key: Seq<char>, body: Seq<u8>, cache_time: u64) -> Option<
    CacheWriteText,
> {
    if cache_time > 0 {
        Some(CacheWriteText { key, body, headers: cache_headers_text(cache_time) })
    } else {
        None
    }
}

/// Whether a status stands for success: whether it is one of 200 to 299.
pub open spec fn is_success(status: u16) -> bool {
    200 <= status <= 299
}

/// A search as it starts for a request with this fingerprint.
pub open spec fn opened(agent: AgentText, fingerprint: u64) -> ActionFetchText {
    ActionFetchText {
        agent,
        key: cache_key_text(agent.host, agent.token, fingerprint),
        phase: FetchPhase::Lookup,
        body: Seq::empty(),
    }
}

/// The search `fetch` in another phase and with another body kept.
pub open spec fn moved(
    fetch: ActionFetchText,
    phase: FetchPhase,
    body: Seq<u8>,
) -> ActionFetchText {
    ActionFetchText { agent: fetch.agent, key: fetch.key, phase, body }
}

/// The search `fetch` once it is over.
pub open spec fn closed(fetch: ActionFetchText) -> ActionFetchText {
    moved(fetch, FetchPhase::Closed, Seq::empty())
}

/// What a search does on an event: the search as it stands afterwards, and
/// the command it gives.
///
/// A payload from the cache is decoded and ends the search, with no request
/// to the engine and nothing to write back. On a miss the engine is asked,
/// once. Where the time runs out first, the search ends with the empty
/// decision. Where the engine answers first and with success, its body is
/// decoded, and is written back to the cache if caching is on. An answer
/// that is no success, a payload that is no decision, and a failure to
/// reach the cache or the engine, fail the request. An event that the
/// search was not waiting for ends it too.
pub open spec fn after(fetch: ActionFetchText, event: FetchEventText) -> (
    ActionFetchText,
    FetchCommandText,
) {
    match (fetch.phase, event) {
        (FetchPhase::Lookup, FetchEventText::CacheHit(payload)) => (
            moved(fetch, FetchPhase::DecodeCached, fetch.body),
            FetchCommandText::Decode { payload },
        ),
        (FetchPhase::Lookup, FetchEventText::CacheMiss) => (
            moved(fetch, FetchPhase::Race, fetch.body),
            FetchCommandText::Race {
                call: action_call_text(fetch.agent),
                timeout: fetch.agent.timeout,
            },
        ),
        (FetchPhase::Race, FetchEventText::TimedOut) => (
            closed(fetch),
            FetchCommandText::Finish { verdict: Verdict::PassThrough, write_back: None },
        ),
        (FetchPhase::Race, FetchEventText::Fetched { status, body }) => if is_success(status) {
            (
                moved(fetch, FetchPhase::DecodeFetched, body),
                FetchCommandText::Decode { payload: body },
            )
        } else {
            (closed(fetch), FetchCommandText::Fail(FetchFailure::Refused))
        },
        (FetchPhase::DecodeCached, FetchEventText::Decoded) => (
            closed(fetch),
            FetchCommandText::Finish { verdict: Verdict::Decoded, write_back: None },
        ),
        (FetchPhase::DecodeFetched, FetchEventText::Decoded) => (
            closed(fetch),
            FetchCommandText::Finish {
                verdict: Verdict::Decoded,
                write_back: write_back_text(fetch.key, fetch.body, fetch.agent.cache_time),
            },
        ),
        (FetchPhase::DecodeCached, FetchEventText::Undecodable) => (
            closed(fetch),
            FetchCommandText::Fail(FetchFailure::Deserialization),
        ),
        (FetchPhase::DecodeFetched, FetchEventText::Undecodable) => (
            closed(fetch),
            FetchCommandText::Fail(FetchFailure::Deserialization),
        ),
        (FetchPhase::Lookup, FetchEventText::Failed) => (
            closed(fetch),
            FetchCommandText::Fail(FetchFailure::Transport),
        ),
        (FetchPhase::Race, FetchEventText::Failed) => (
            closed(fetch),
            FetchCommandText::Fail(FetchFailure::Transport),
        ),
        _ => (closed(fetch), FetchCommandText::Fail(FetchFailure::OutOfTurn)),
    }
}

/// The key under which the decision on a request is cached.
pub fn cache_key(host: &str, token: &str, fingerprint: u64) -> (key: String)
    ensures
        key@ == cache_key_text(host@, token@, fingerprint),
{
    let mut key = host.to_owned();
    key.append("/");
    key.append(token);
    key.append("/action/");
    push_decimal(&mut key, fingerprint);
    key
}

/// The address at which the engine is asked for a decision.
pub fn action_url(host: &str, token: &str) -> (url: String)
    ensures
        url@ == action_url_text(host@, token@),
{
    let mut url = host.to_owned();
    url.append("/");
    url.append(token);
    url.append("/action");
    url
}

/// The name under which this proxy makes itself known.
pub fn proxy_name(version: &str) -> (name: String)
    ensures
        name@ == proxy_name_text(version@),
{
    let mut name = "cloudflare-worker/".to_owned();
    name.append(version);
    name
}

/// The headers of every request to the engine.
pub fn agent_headers(instance_name: &str, version: &str) -> (headers: Vec<Header>)
    ensures
        headers.deep_view() == agent_headers_text(instance_name@, version@),
{
    let mut headers: Vec<Header> = Vec::new();
    headers.push(
        Header { name: "Content-Type".to_owned(), value: "application/json".to_owned() },
    );
    headers.push(
        Header {
            name: "x-redirectionio-instance-name".to_owned(),
            value: instance_name.to_owned(),
        },
    );
    headers.push(Header { name: "User-Agent".to_owned(), value: proxy_name(version) });
    headers
}

/// The headers that a cached decision is stored with.
pub fn cache_headers(cache_time: u64) -> (headers: Vec<Header>)
    ensures
        headers.deep_view() == cache_headers_text(cache_time),
{
    let mut value = "public, max-age=".to_owned();
    push_decimal(&mut value, cache_time);
    let mut headers: Vec<Header> = Vec::new();
    headers.push(
        Header { name: "Content-Type".to_owned(), value: "application/json".to_owned() },
    );
    headers.push(Header { name: "Cache-Control".to_owned(), value });
    headers
}

/// Starts the search for the decision on a request. The first command is to
/// read the cache under the key of the request's fingerprint.
pub fn get_action(request: &NormalizedRequest, agent: Agent) -> (r: (ActionFetch, FetchCommand))
    ensures
        r.0.deep_view() == opened(agent.deep_view(), fingerprint_of(request.deep_view())),
        r.1.deep_view() == (FetchCommandText::ReadCache {
            key: cache_key_text(agent.host@, agent.token@, fingerprint_of(request.deep_view())),
        }),
{
    ActionFetch::open(agent, fingerprint(request))
}

impl ActionFetch {
    /// Starts the search for the decision on the request with this
    /// fingerprint. The first command is to read the cache under the
    /// request's key.
    pub fn open(agent: Agent, fingerprint: u64) -> (r: (ActionFetch, FetchCommand))
        ensures
            r.0.deep_view() == opened(agent.deep_view(), fingerprint),
            r.1.deep_view() == (FetchCommandText::ReadCache {
                key: cache_key_text(agent.host@, agent.token@, fingerprint),
            }),
    {
        let key = cache_key(agent.host.as_str(), agent.token.as_str(), fingerprint);
        let command = FetchCommand::ReadCache { key: key.clone() };
        (ActionFetch { agent, key, phase: FetchPhase::Lookup, body: Vec::new() }, command)
    }

    /// Whether the search is over.
    pub fn is_closed(&self) -> (r: bool)
        ensures
            r == (self.deep_view().phase == FetchPhase::Closed),
    {
        match self.phase {
            FetchPhase::Closed => true,
            _ => false,
        }
    }

    fn close(&mut self)
        ensures
            final(self).deep_view() == closed(old(self).deep_view()),
    {
        self.phase = FetchPhase::Closed;
        self.body = Vec::new();
    }

    /// Takes in what happened outside, and says what is to be done next.
    pub fn step(&mut self, event: FetchEvent) -> (command: FetchCommand)
        ensures
            (final(self).deep_view(), command.deep_view()) == after(
                old(self).deep_view(),
                event.deep_view(),
            ),
    {
        match (self.phase, event) {
            (FetchPhase::Lookup, FetchEvent::CacheHit(payload)) => {
                self.phase = FetchPhase::DecodeCached;
                FetchCommand::Decode { payload }
            },
            (FetchPhase::Lookup, FetchEvent::CacheMiss) => {
                self.phase = FetchPhase::Race;
                let call = Call {
                    url: action_url(self.agent.host.as_str(), self.agent.token.as_str()),
                    headers: agent_headers(
                        self.agent.instance_name.as_str(),
                        self.agent.version.as_str(),
                    ),
                };
                FetchCommand::Race { call, timeout: self.agent.timeout }
            },
            (FetchPhase::Race, FetchEvent::TimedOut) => {
                self.close();
                FetchCommand::Finish { verdict: Verdict::PassThrough, write_back: None }
            },
            (FetchPhase::Race, FetchEvent::Fetched { status, body }) => {
                if 200 <= status && status <= 299 {
                    self.phase = FetchPhase::DecodeFetched;
                    self.body = body.clone();
                    FetchCommand::Decode { payload: body }
                } else {
                    self.close();
                    FetchCommand::Fail(FetchFailure::Refused)
                }
            },
            (FetchPhase::DecodeCached, FetchEvent::Decoded) => {
                self.close();
                FetchCommand::Finish { verdict: Verdict::Decoded, write_back: None }
            },
            (FetchPhase::DecodeFetched, FetchEvent::Decoded) => {
                let write_back = if self.agent.cache_time > 0 {
                    let mut body: Vec<u8> = Vec::new();
                    body.append(&mut self.body);
                    Some(
                        CacheWrite {
                            key: self.key.clone(),
                            body,
                            headers: cache_headers(self.agent.cache_time),
                        },
                    )
                } else {
                    None
                };
                self.close();
                FetchCommand::Finish { verdict: Verdict::Decoded, write_back }
            },
            (FetchPhase::DecodeCached, FetchEvent::Undecodable) => {
                self.close();
                FetchCommand::Fail(FetchFailure::Deserialization)
            },
            (FetchPhase::DecodeFetched, FetchEvent::Undecodable) => {
                self.close();
                FetchCommand::Fail(FetchFailure::Deserialization)
            },
            (FetchPhase::Lookup, FetchEvent::Failed) => {
                self.close();
                FetchCommand::Fail(FetchFailure::Transport)
            },
            (FetchPhase::Race, FetchEvent::Failed) => {
                self.close();
                FetchCommand::Fail(FetchFailure::Transport)
            },
            _ => {
                self.close();
                FetchCommand::Fail(FetchFailure::OutOfTurn)
            },
        }
    }
}

/// Timeout fallback: where the time runs out before the engine has
/// answered, the search ends at once with the empty decision, and nothing is
/// written to the cache. This holds of every search that is asking the
/// engine, and so of every request that missed the cache.
pub proof fn lemma_timeout_passes_through(agent: AgentText, fingerprint: u64)
    ensures
        forall|fetch: ActionFetchText|
            fetch.phase == FetchPhase::Race ==> #[trigger] after(fetch, FetchEventText::TimedOut)
                == (
                closed(fetch),
                FetchCommandText::Finish { verdict: Verdict::PassThrough, write_back: None },
            ),
        after(
            after(opened(agent, fingerprint), FetchEventText::CacheMiss).0,
            FetchEventText::TimedOut,
        ).1 == (FetchCommandText::Finish { verdict: Verdict::PassThrough, write_back: None }),
{
}

/// Cache round trip: where caching is on, the body that the engine sent for
/// a request is written back as it came, under the request's key; and where
/// the cache then gives that body under that key, the search decodes the same
/// body and ends with what was decoded, without a request to the engine and
/// with nothing more to write.
pub proof fn lemma_cache_round_trip(
    agent: AgentText,
    fingerprint: u64,
    status: u16,
    body: Seq<u8>,
)
    requires
        agent.cache_time > 0,
        is_success(status),
    ensures
        ({
            let start = opened(agent, fingerprint);
            let asked = after(start, FetchEventText::CacheMiss).0;
            let fetched = after(asked, FetchEventText::Fetched { status, body }).0;
            let hit = after(start, FetchEventText::CacheHit(body));
            &&& after(fetched, FetchEventText::Decoded).1 == (FetchCommandText::Finish {
                verdict: Verdict::Decoded,
                write_back: Some(
                    CacheWriteText {
                        key: cache_key_text(agent.host, agent.token, fingerprint),
                        body,
                        headers: cache_headers_text(agent.cache_time),
                    },
                ),
            })
            &&& hit.1 == (FetchCommandText::Decode { payload: body })
            &&& after(hit.0, FetchEventText::Decoded).1 == (FetchCommandText::Finish {
                verdict: Verdict::Decoded,
                write_back: None,
            })
        }),
{
}

/// The engine is asked at most once: once a search has asked it, no event
/// makes it ask again.
pub proof fn lemma_no_second_attempt(fetch: ActionFetchText, event: FetchEventText)
    requires
        fetch.phase != FetchPhase::Lookup,
    ensures
        !(after(fetch, event).1 is Race),
        after(fetch, event).0.phase != FetchPhase::Lookup,
{
}

/// A search asks one engine under one key from start to end.
pub proof fn lemma_search_keeps_its_key(fetch: ActionFetchText, event: FetchEventText)
    ensures
        after(fetch, event).0.agent == fetch.agent,
        after(fetch, event).0.key == fetch.key,
{
}

/// A search is over after three events at most, whatever they are: it never
/// waits for a fourth.
pub proof fn lemma_search_is_bounded(
    agent: AgentText,
    fingerprint: u64,
    first: FetchEventText,
    second: FetchEventText,
    third: FetchEventText,
)
    ensures
        after(
            after(after(opened(agent, fingerprint), first).0, second).0,
            third,
        ).0.phase == FetchPhase::Closed,
{
}

/// An entry of the cache is made only of an answer of the engine that was
/// decoded, and only where caching is on; it then holds that answer.
pub proof fn lemma_write_back_only_after_fetch(fetch: ActionFetchText, event: FetchEventText)
    ensures
        match after(fetch, event).1 {
            FetchCommandText::Finish { write_back: Some(write), .. } => {
                &&& fetch.phase == FetchPhase::DecodeFetched
                &&& event == FetchEventText::Decoded
                &&& fetch.agent.cache_time > 0
                &&& write.key == fetch.key
                &&& write.body == fetch.body
            },
            _ => true,
        },
{
}

/// A search that is over stays over: whatever comes, it commands nothing
/// but to fail.
pub proof fn lemma_closed_search_stays_closed(fetch: ActionFetchText, event: FetchEventText)
    requires
        fetch.phase == FetchPhase::Closed,
    ensures
        after(fetch, event) == (closed(fetch), FetchCommandText::Fail(FetchFailure::OutOfTurn)),
{
}

/// For one engine and one token, requests with different fingerprints
/// have different keys in the cache.
pub proof fn lemma_cache_key_injective(host: Seq<char>, token: Seq<char>, a: u64, b: u64)
    requires
        cache_key_text(host, token, a) == cache_key_text(host, token, b),
    ensures
        a == b,
{
    let front = host + "/"@ + token + "/action/"@;
    let left = front + decimal(a as nat);
    let right = front + decimal(b as nat);
    assert(left.skip(front.len() as int) =~= decimal(a as nat));
    assert(right.skip(front.len() as int) =~= decimal(b as nat));
    lemma_decimal_injective(a as nat, b as nat);
}

} // verus!
