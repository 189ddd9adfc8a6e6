//! The handling of a request under its decision: whether the origin is
//! asked, which status the response goes out with, which headers the
//! decision filters, and what becomes of the body.
//!
//! The handling does no work outside. It gives a command, and takes what
//! happened as an event: `proxy` starts it, `Proxy::step` carries it on, and
//! `after` says what each step does.

use crate::header::{collect_headers, copy_headers, unfolded_all, Header, HeaderText};
use vstd::prelude::*;

verus! {

/// How far the handling of one request has come.
#[derive(Debug, Clone, Copy, PartialEq, Eq)]
pub enum ProxyPhase {
    /// The decision is being asked whether it answers the request itself.
    Deciding,
    /// The response is being fetched from the origin, or made up.
    Responding,
    /// The decision is being asked for a status in place of the response's.
    Overriding,
    /// The decision is filtering the headers.
    Filtering,
    /// The decision is being asked for a filter of the body.
    Probing,
    /// The body is being filtered.
    Rewriting,
    /// The request is handled.
    Closed,
}

/// Why a request could not be handled.
#[derive(Debug, Clone, Copy, PartialEq, Eq)]
pub enum ProxyFailure {
    /// The origin could not be reached, or the response could not be read
    /// or built.
    Transport,
    /// An event came that the handling was not waiting for.
    OutOfTurn,
}

/// What happened outside since the last command.
#[derive(Debug, Clone, PartialEq, Eq)]
pub enum ProxyEvent {
    /// The status that the decision puts in place of the one it was asked
    /// about; 0 where it puts none.
    Status(u16),
    /// The response that is there now, the origin's or the one made up: its
    /// status and its headers, in their order.
    Response { status: u16, headers: Vec<Header> },
    /// The headers as the decision filtered them.
    Filtered(Vec<Header>),
    /// Whether the decision has a filter for the body.
    BodyFilter(bool),
    /// What the filter made of the whole body, and what it gave when it was
    /// ended.
    Body { filtered: Vec<u8>, trailer: Vec<u8> },
    /// The origin could not be reached, or the response could not be read
    /// or built.
    Failed,
}

/// The response that goes to the client, and what is recorded of it.
#[derive(Debug, Clone, PartialEq, Eq)]
pub struct Outcome {
    /// The status of the response.
    pub status: u16,
    /// The headers of the response, as the decision filtered them.
    pub headers: Vec<Header>,
    /// The status that the origin gave, or the one the response was made up
    /// with.
    pub backend_status_code: u16,
    /// The body in place of the one that is there; `None` leaves that one.
    pub body: Option<Vec<u8>>,
}

/// What is to be done outside next.
#[derive(Debug, Clone, PartialEq, Eq)]
pub enum ProxyCommand {
    /// Ask the decision which status it puts in place of `current`, where
    /// 0 stands for no response yet.
    AskStatus { current: u16 },
    /// Send the request on to the origin as it came.
    Forward,
    /// Make up an empty response with this status, and send nothing to the
    /// origin.
    Synthesize { status: u16 },
    /// Let the decision filter `headers`, for a response of this status.
    FilterHeaders { headers: Vec<Header>, status: u16, add_rule_ids: bool },
    /// Put `headers` on the response, and ask the decision for a filter of
    /// the body, for this status and these headers.
    AskBodyFilter { status: u16, headers: Vec<Header> },
    /// Read the whole body, pass it through the filter, and end the filter.
    FilterBody,
    /// Answer the client.
    Finish(Outcome),
    /// Fail the request.
    Fail(ProxyFailure),
}

/// The handling of one request under one decision.
pub struct Proxy {
    phase: ProxyPhase,
    add_rule_ids: bool,
    backend_status_code: u16,
    status: u16,
    headers: Vec<Header>,
}

/// What a `ProxyEvent` holds, as texts and bytes.
pub enum ProxyEventText {
    Status(u16),
    Response { status: u16, headers: Seq<HeaderText> },
    Filtered(Seq<HeaderText>),
    BodyFilter(bool),
    Body { filtered: Seq<u8>, trailer: Seq<u8> },
    Failed,
}

/// What an `Outcome` holds, as texts and bytes.
pub struct OutcomeText {
    pub status: u16,
    pub headers: Seq<HeaderText>,
    pub backend_status_code: u16,
    pub body: Option<Seq<u8>>,
}

/// What a `ProxyCommand` holds, as texts and bytes.
pub enum ProxyCommandText {
    AskStatus { current: u16 },
    Forward,
    Synthesize { status: u16 },
    FilterHeaders { headers: Seq<HeaderText>, status: u16, add_rule_ids: bool },
    AskBodyFilter { status: u16, headers: Seq<HeaderText> },
    FilterBody,
    Finish(OutcomeText),
    Fail(ProxyFailure),
}

/// What stands behind a `Proxy`: how far it has come, whether the rules are
/// to be listed, the two statuses, and the headers it keeps.
pub struct ProxyText {
    pub phase: ProxyPhase,
    pub add_rule_ids: bool,
    pub backend_status_code: u16,
    pub status: u16,
    pub headers: Seq<HeaderText>,
}

impl DeepView for ProxyEvent {
    type V = ProxyEventText;

    open spec fn deep_view(&self) -> ProxyEventText {
        match self {
            ProxyEvent::Status(status) => ProxyEventText::Status(*status),
            ProxyEvent::Response { status, headers } => ProxyEventText::Response {
                status: *status,
                headers: headers.deep_view(),
            },
            ProxyEvent::Filtered(headers) => ProxyEventText::Filtered(headers.deep_view()),
            ProxyEvent::BodyFilter(present) => ProxyEventText::BodyFilter(*present),
            ProxyEvent::Body { filtered, trailer } => ProxyEventText::Body {
                filtered: filtered@,
                trailer: trailer@,
            },
            ProxyEvent::Failed => ProxyEventText::Failed,
        }
    }
}

impl DeepView for Outcome {
    type V = OutcomeText;

    open spec fn deep_view(&self) -> OutcomeText {
        OutcomeText {
            status: self.status,
            headers: self.headers.deep_view(),
            backend_status_code: self.backend_status_code,
            body: bytes_of(self.body),
        }
    }
}

/// The bytes of a body, where there is one.
pub open spec fn bytes_of(body: Option<Vec<u8>>) -> Option<Seq<u8>> {
    match body {
        Some(bytes) => Some(bytes@),
        None => None,
    }
}

impl DeepView for ProxyCommand {
    type V = ProxyCommandText;

    open spec fn deep_view(&self) -> ProxyCommandText {
        match self {
            ProxyCommand::AskStatus { current } => ProxyCommandText::AskStatus {
                current: *current,
            },
            ProxyCommand::Forward => ProxyCommandText::Forward,
            ProxyCommand::Synthesize { status } => ProxyCommandText::Synthesize {
                status: *status,
            },
            ProxyCommand::FilterHeaders {
                headers,
                status,
                add_rule_ids,
            } => ProxyCommandText::FilterHeaders {
                headers: headers.deep_view(),
                status: *status,
                add_rule_ids: *add_rule_ids,
            },
            ProxyCommand::AskBodyFilter { status, headers } => ProxyCommandText::AskBodyFilter {
                status: *status,
                headers: headers.deep_view(),
            },
            ProxyCommand::FilterBody => ProxyCommandText::FilterBody,
            ProxyCommand::Finish(outcome) => ProxyCommandText::Finish(outcome.deep_view()),
            ProxyCommand::Fail(failure) => ProxyCommandText::Fail(*failure),
        }
    }
}

impl DeepView for Proxy {
    type V = ProxyText;

    closed spec fn deep_view(&self) -> ProxyText {
        ProxyText {
            phase: self.phase,
            add_rule_ids: self.add_rule_ids,
            backend_status_code: self.backend_status_code,
            status: self.status,
            headers: self.headers.deep_view(),
        }
    }
}

/// The handling of a request as it starts.
pub open spec fn started(add_rule_ids: bool) -> ProxyText {
    ProxyText {
        phase: ProxyPhase::Deciding,
        add_rule_ids,
        backend_status_code: 0,
        status: 0,
        headers: Seq::empty(),
    }
}

/// The status that a response goes out with: the one that the decision puts
/// in its place, where it puts one, else the one it came with.
pub open spec fn overridden(backend_status_code: u16, put: u16) -> u16 {
    if put > 0 {
        put
    } else {
        backend_status_code
    }
}

/// The handling `proxy` in another phase.
pub open spec fn turned(proxy: ProxyText, phase: ProxyPhase) -> ProxyText {
    ProxyText {
        phase,
        add_rule_ids: proxy.add_rule_ids,
        backend_status_code: proxy.backend_status_code,
        status: proxy.status,
        headers: proxy.headers,
    }
}

/// The handling `proxy` once it is over.
pub open spec fn ended(proxy: ProxyText) -> ProxyText {
    ProxyText {
        phase: ProxyPhase::Closed,
        add_rule_ids: proxy.add_rule_ids,
        backend_status_code: proxy.backend_status_code,
        status: proxy.status,
        headers: Seq::empty(),
    }
}

/// The response that `proxy` ends with, with `body` in place of the one
/// that is there.
pub open spec fn outcome(proxy: ProxyText, body: Option<Seq<u8>>) -> OutcomeText {
    OutcomeText {
        status: proxy.status,
        headers: proxy.headers,
        backend_status_code: proxy.backend_status_code,
        body,
    }
}

/// What the handling of a request does on an event: the handling as it
/// stands afterwards, and the command it gives.
///
/// The decision is asked first. Where it answers with a status, a response
/// of that status is made up and the origin is not asked; else the request
/// goes to the origin. The status of the response that is then there is
/// recorded, and the decision is asked for a status in its place. The
/// headers go to the decision's filter with each cookie in a header of its
/// own. Where the decision has a filter for the body, the whole body is
/// passed through it, and what the filter gives at its end is put behind.
/// A failure outside fails the request, and nothing is tried again.
pub open spec fn after(proxy: ProxyText, event: ProxyEventText) -> (ProxyText, ProxyCommandText) {
    match (proxy.phase, event) {
        (ProxyPhase::Deciding, ProxyEventText::Status(put)) => (
            turned(proxy, ProxyPhase::Responding),
            if put == 0 {
                ProxyCommandText::Forward
            } else {
                ProxyCommandText::Synthesize { status: put }
            },
        ),
        (ProxyPhase::Responding, ProxyEventText::Response { status, headers }) => (
            ProxyText {
                phase: ProxyPhase::Overriding,
                add_rule_ids: proxy.add_rule_ids,
                backend_status_code: status,
                status,
                headers: unfolded_all(headers),
            },
            ProxyCommandText::AskStatus { current: status },
        ),
        (ProxyPhase::Overriding, ProxyEventText::Status(put)) => (
            ProxyText {
                phase: ProxyPhase::Filtering,
                add_rule_ids: proxy.add_rule_ids,
                backend_status_code: proxy.backend_status_code,
                status: overridden(proxy.backend_status_code, put),
                headers: Seq::empty(),
            },
            ProxyCommandText::FilterHeaders {
                headers: proxy.headers,
                status: proxy.backend_status_code,
                add_rule_ids: proxy.add_rule_ids,
            },
        ),
        (ProxyPhase::Filtering, ProxyEventText::Filtered(headers)) => (
            ProxyText {
                phase: ProxyPhase::Probing,
                add_rule_ids: proxy.add_rule_ids,
                backend_status_code: proxy.backend_status_code,
                status: proxy.status,
                headers,
            },
            ProxyCommandText::AskBodyFilter { status: proxy.backend_status_code, headers },
        ),
        (ProxyPhase::Probing, ProxyEventText::BodyFilter(present)) => if present {
            (turned(proxy, ProxyPhase::Rewriting), ProxyCommandText::FilterBody)
        } else {
            (ended(proxy), ProxyCommandText::Finish(outcome(proxy, None)))
        },
        (ProxyPhase::Rewriting, ProxyEventText::Body { filtered, trailer }) => (
            ended(proxy),
            ProxyCommandText::Finish(outcome(proxy, Some(filtered + trailer))),
        ),
        (ProxyPhase::Closed, _) => (ended(proxy), ProxyCommandText::Fail(ProxyFailure::OutOfTurn)),
        (_, ProxyEventText::Failed) => (
            ended(proxy),
            ProxyCommandText::Fail(ProxyFailure::Transport),
        ),
        _ => (ended(proxy), ProxyCommandText::Fail(ProxyFailure::OutOfTurn)),
    }
}

/// The filtered body with what the filter gave at its end put behind it.
pub fn join_body(filtered: Vec<u8>, trailer: Vec<u8>) -> (body: Vec<u8>)
    ensures
        body@ == filtered@ + trailer@,
{
    let mut body = filtered;
    let mut rest = trailer;
    body.append(&mut rest);
    body
}

/// Starts the handling of a request. The first command is to ask the
/// decision whether it answers the request itself.
pub fn proxy(add_rules_id_header: bool) -> (r: (Proxy, ProxyCommand))
    ensures
        r.0.deep_view() == started(add_rules_id_header),
        r.1.deep_view() == (ProxyCommandText::AskStatus { current: 0 }),
{
    let proxy = Proxy {
        phase: ProxyPhase::Deciding,
        add_rule_ids: add_rules_id_header,
        backend_status_code: 0,
        status: 0,
        headers: Vec::new(),
    };
    assert(proxy.headers.deep_view() =~= Seq::empty());
    (proxy, ProxyCommand::AskStatus { current: 0 })
}

impl Proxy {
    /// Whether the request is handled.
    pub fn is_closed(&self) -> (r: bool)
        ensures
            r == (self.deep_view().phase == ProxyPhase::Closed),
    {
        match self.phase {
            ProxyPhase::Closed => true,
            _ => false,
        }
    }

    fn take_headers(&mut self) -> (headers: Vec<Header>)
        ensures
            headers.deep_view() == old(self).deep_view().headers,
            final(self).deep_view() == (ProxyText {
                headers: Seq::empty(),
                ..old(self).deep_view()
            }),
    {
        let mut headers: Vec<Header> = Vec::new();
        headers.append(&mut self.headers);
        assert(self.headers.deep_view() =~= Seq::empty());
        headers
    }

    fn end(&mut self)
        ensures
            final(self).deep_view() == ended(old(self).deep_view()),
    {
        self.phase = ProxyPhase::Closed;
        self.headers = Vec::new();
        assert(self.headers.deep_view() =~= Seq::empty());
    }

    fn finish(&mut self, body: Option<Vec<u8>>) -> (command: ProxyCommand)
        ensures
            final(self).deep_view() == ended(old(self).deep_view()),
            command.deep_view() == ProxyCommandText::Finish(
                outcome(old(self).deep_view(), bytes_of(body)),
            ),
    {
        let headers = self.take_headers();
        self.phase = ProxyPhase::Closed;
        ProxyCommand::Finish(
            Outcome {
                status: self.status,
                headers,
                backend_status_code: self.backend_status_code,
                body,
            },
        )
    }

    /// Takes in what happened outside, and says what is to be done next.
    pub fn step(&mut self, event: ProxyEvent) -> (command: ProxyCommand)
        ensures
            (final(self).deep_view(), command.deep_view()) == after(
                old(self).deep_view(),
                event.deep_view(),
            ),
    {
        match (self.phase, event) {
            (ProxyPhase::Deciding, ProxyEvent::Status(put)) => {
                self.phase = ProxyPhase::Responding;
                if put == 0 {
                    ProxyCommand::Forward
                } else {
                    ProxyCommand::Synthesize { status: put }
                }
            },
            (ProxyPhase::Responding, ProxyEvent::Response { status, headers }) => {
                self.phase = ProxyPhase::Overriding;
                self.backend_status_code = status;
                self.status = status;
                self.headers = collect_headers(headers);
                ProxyCommand::AskStatus { current: status }
            },
            (ProxyPhase::Overriding, ProxyEvent::Status(put)) => {
                let headers = self.take_headers();
                self.phase = ProxyPhase::Filtering;
                if put > 0 {
                    self.status = put;
                } else {
                    self.status = self.backend_status_code;
                }
                ProxyCommand::FilterHeaders {
                    headers,
                    status: self.backend_status_code,
                    add_rule_ids: self.add_rule_ids,
                }
            },
            (ProxyPhase::Filtering, ProxyEvent::Filtered(headers)) => {
                self.phase = ProxyPhase::Probing;
                self.headers = copy_headers(&headers);
                ProxyCommand::AskBodyFilter { status: self.backend_status_code, headers }
            },
            (ProxyPhase::Probing, ProxyEvent::BodyFilter(present)) => {
                if present {
                    self.phase = ProxyPhase::Rewriting;
                    ProxyCommand::FilterBody
                } else {
                    self.finish(None)
                }
            },
            (ProxyPhase::Rewriting, ProxyEvent::Body { filtered, trailer }) => {
                self.finish(Some(join_body(filtered, trailer)))
            },
            (ProxyPhase::Closed, _) => {
                self.end();
                ProxyCommand::Fail(ProxyFailure::OutOfTurn)
            },
            (_, ProxyEvent::Failed) => {
                self.end();
                ProxyCommand::Fail(ProxyFailure::Transport)
            },
            _ => {
                self.end();
                ProxyCommand::Fail(ProxyFailure::OutOfTurn)
            },
        }
    }
}

/// The outcome that a command ends the handling with, if it ends it.
pub open spec fn finished(command: ProxyCommandText) -> Option<OutcomeText> {
    match command {
        ProxyCommandText::Finish(outcome) => Some(outcome),
        _ => None,
    }
}

/// Status override precedence. Where the decision answers the first
/// question with a status, a response of that status is made up and the
/// request does not go to the origin; where it answers with 0, the request
/// goes to the origin. Either way the response goes out with the status
/// that the decision puts in place of the one the response came with, or
/// with that one where the decision puts none; the status the response came
/// with is recorded beside it. So a response that was made up with the
/// decision's status, and that the decision leaves at it, goes out with
/// that status.
pub proof fn lemma_status_override_precedence(
    add_rule_ids: bool,
    first: u16,
    status: u16,
    headers: Seq<HeaderText>,
    second: u16,
    filtered: Seq<HeaderText>,
    body: Seq<u8>,
    trailer: Seq<u8>,
)
    ensures
        ({
            let (responding, command) = after(started(add_rule_ids), ProxyEventText::Status(first));
            let overriding = after(responding, ProxyEventText::Response { status, headers }).0;
            let filtering = after(overriding, ProxyEventText::Status(second)).0;
            let probing = after(filtering, ProxyEventText::Filtered(filtered)).0;
            let plain = after(probing, ProxyEventText::BodyFilter(false)).1;
            let rewriting = after(probing, ProxyEventText::BodyFilter(true)).0;
            let rewritten = after(rewriting, ProxyEventText::Body { filtered: body, trailer }).1;
            &&& first != 0 ==> command == (ProxyCommandText::Synthesize { status: first })
            &&& first == 0 ==> command == ProxyCommandText::Forward
            &&& finished(plain) == Some(
                OutcomeText {
                    status: overridden(status, second),
                    headers: filtered,
                    backend_status_code: status,
                    body: None,
                },
            )
            &&& finished(rewritten) == Some(
                OutcomeText {
                    status: overridden(status, second),
                    headers: filtered,
                    backend_status_code: status,
                    body: Some(body + trailer),
                },
            )
            &&& first != 0 && status == first && (second == 0 || second == first) ==> overridden(
                status,
                second,
            ) == first
        }),
{
}

/// The origin is asked at most once, and only on the decision's first
/// answer: once that answer is in, no event sends the request on, and none
/// makes up another response.
pub proof fn lemma_single_forward(proxy: ProxyText, event: ProxyEventText)
    requires
        proxy.phase != ProxyPhase::Deciding,
    ensures
        !(after(proxy, event).1 is Forward),
        !(after(proxy, event).1 is Synthesize),
        after(proxy, event).0.phase != ProxyPhase::Deciding,
{
}

/// The status that is recorded as the backend's is that of the response
/// that came, and nothing changes it afterwards; nor does anything change
/// whether the rules are to be listed.
pub proof fn lemma_backend_status_is_kept(proxy: ProxyText, event: ProxyEventText)
    ensures
        after(proxy, event).0.add_rule_ids == proxy.add_rule_ids,
        match (proxy.phase, event) {
            (ProxyPhase::Responding, ProxyEventText::Response { status, .. }) => after(
                proxy,
                event,
            ).0.backend_status_code == status,
            _ => after(proxy, event).0.backend_status_code == proxy.backend_status_code,
        },
{
}

/// The phases in the order in which a handling passes through them.
pub open spec fn rank(phase: ProxyPhase) -> int {
    match phase {
        ProxyPhase::Deciding => 0,
        ProxyPhase::Responding => 1,
        ProxyPhase::Overriding => 2,
        ProxyPhase::Filtering => 3,
        ProxyPhase::Probing => 4,
        ProxyPhase::Rewriting => 5,
        ProxyPhase::Closed => 6,
    }
}

/// Every event carries a handling that is not over one phase on, or ends
/// it: so a handling is over after six events at most.
pub proof fn lemma_handling_moves_on(proxy: ProxyText, event: ProxyEventText)
    requires
        proxy.phase != ProxyPhase::Closed,
    ensures
        rank(after(proxy, event).0.phase) == rank(proxy.phase) + 1 || after(proxy, event).0.phase
            == ProxyPhase::Closed,
{
}

/// The decision filters the headers of a response once: the command to
/// filter is given on the decision's second answer and on no other event,
/// so what the filter adds is not added again.
pub proof fn lemma_headers_filtered_once(proxy: ProxyText, event: ProxyEventText)
    ensures
        after(proxy, event).1 is FilterHeaders <==> proxy.phase == ProxyPhase::Overriding
            && event is Status,
        after(proxy, event).0.phase != ProxyPhase::Overriding || proxy.phase
            == ProxyPhase::Responding,
{
}

/// A handling that is over stays over: whatever comes, it commands nothing
/// but to fail.
pub proof fn lemma_closed_handling_stays_closed(proxy: ProxyText, event: ProxyEventText)
    requires
        proxy.phase == ProxyPhase::Closed,
    ensures
        after(proxy, event) == (ended(proxy), ProxyCommandText::Fail(ProxyFailure::OutOfTurn)),
{
}

/// A failure outside ends the handling with that failure, whatever it was
/// waiting for.
pub proof fn lemma_failure_is_surfaced(proxy: ProxyText)
    requires
        proxy.phase != ProxyPhase::Closed,
    ensures
        after(proxy, ProxyEventText::Failed) == (
            ended(proxy),
            ProxyCommandText::Fail(ProxyFailure::Transport),
        ),
{
}

} // verus!
