//! The snapshot of an inbound request.

use crate::header::{Header, HeaderText};
use vstd::prelude::*;
use vstd::string::StringExecFns;

verus! {

/// The address that the platform reports as the one the client connected
/// from, as it stood in the platform's header.
#[derive(Debug, Clone, PartialEq, Eq)]
pub struct ConnectingIp {
    /// The header's value.
    pub text: String,
    /// Whether that value reads as an IP address.
    pub is_address: bool,
}

/// An inbound request as the platform hands it over.
#[derive(Debug, Clone, PartialEq, Eq)]
pub struct InboundRequest {
    pub method: String,
    pub scheme: String,
    pub host: Option<String>,
    pub path: String,
    pub query: Option<String>,
    pub headers: Vec<Header>,
    pub connecting_ip: Option<ConnectingIp>,
    /// When the request came in, in milliseconds since the Unix epoch.
    pub received_at: i64,
}

/// The snapshot of a request that the decision is asked for and cached under.
/// It is not changed once it is built.
#[derive(Debug, Clone, PartialEq, Eq)]
pub struct NormalizedRequest {
    pub method: Option<String>,
    pub scheme: Option<String>,
    pub host: Option<String>,
    pub path_and_query: String,
    pub headers: Vec<Header>,
    /// The client's address, where the platform gave one that reads as an
    /// IP address.
    pub remote_addr: Option<String>,
    /// In milliseconds since the Unix epoch.
    pub created_at: i64,
    pub sampling_override: Option<bool>,
}

/// What a `ConnectingIp` holds, as texts.
pub struct ConnectingIpText {
    pub text: Seq<char>,
    pub is_address: bool,
}

/// What an `InboundRequest` holds, as texts.
pub struct InboundText {
    pub method: Seq<char>,
    pub scheme: Seq<char>,
    pub host: Option<Seq<char>>,
    pub path: Seq<char>,
    pub query: Option<Seq<char>>,
    pub headers: Seq<HeaderText>,
    pub connecting_ip: Option<ConnectingIpText>,
    pub received_at: i64,
}

/// What a `NormalizedRequest` holds, as texts.
pub struct RequestText {
    pub method: Option<Seq<char>>,
    pub scheme: Option<Seq<char>>,
    pub host: Option<Seq<char>>,
    pub path_and_query: Seq<char>,
    pub headers: Seq<HeaderText>,
    pub remote_addr: Option<Seq<char>>,
    pub created_at: i64,
    pub sampling_override: Option<bool>,
}

impl DeepView for ConnectingIp {
    type V = ConnectingIpText;

    open spec fn deep_view(&self) -> ConnectingIpText {
        ConnectingIpText { text: self.text@, is_address: self.is_address }
    }
}

impl DeepView for InboundRequest {
    type V = InboundText;

    open spec fn deep_view(&self) -> InboundText {
        InboundText {
            method: self.method@,
            scheme: self.scheme@,
            host: self.host.deep_view(),
            path: self.path@,
            query: self.query.deep_view(),
            headers: self.headers.deep_view(),
            connecting_ip: self.connecting_ip.deep_view(),
            received_at: self.received_at,
        }
    }
}

impl DeepView for NormalizedRequest {
    type V = RequestText;

    open spec fn deep_view(&self) -> RequestText {
        RequestText {
            method: self.method.deep_view(),
            scheme: self.scheme.deep_view(),
            host: self.host.deep_view(),
            path_and_query: self.path_and_query@,
            headers: self.headers.deep_view(),
            remote_addr: self.remote_addr.deep_view(),
            created_at: self.created_at,
            sampling_override: self.sampling_override,
        }
    }
}

/// The path with its query as they stood in the URL: the path alone where
/// there is no query, else the path, a question mark and the query.
pub open spec fn path_and_query(path: Seq<char>, query: Option<Seq<char>>) -> Seq<char> {
    match query {
        Some(q) => path.push('?') + q,
        None => path,
    }
}

/// The address that a request is taken to come from: the one that the
/// platform reported, where it reads as an IP address.
pub open spec fn trusted_address(ip: Option<ConnectingIpText>) -> Option<Seq<char>> {
    match ip {
        Some(ip) => if ip.is_address {
            Some(ip.text)
        } else {
            None
        },
        None => None,
    }
}

/// The address that the platform reported, whether or not it reads as one.
pub open spec fn reported_address(ip: Option<ConnectingIpText>) -> Option<Seq<char>> {
    match ip {
        Some(ip) => Some(ip.text),
        None => None,
    }
}

/// The snapshot that stands for `inbound`.
pub open spec fn normalized(inbound: InboundText) -> RequestText {
    RequestText {
        method: Some(inbound.method),
        scheme: Some(inbound.scheme),
        host: inbound.host,
        path_and_query: path_and_query(inbound.path, inbound.query),
        headers: inbound.headers,
        remote_addr: trusted_address(inbound.connecting_ip),
        created_at: inbound.received_at,
        sampling_override: None,
    }
}

/// Joins a path and a query as they stood in the URL, with nothing encoded
/// anew.
pub fn join_path_and_query(path: String, query: Option<String>) -> (joined: String)
    ensures
        joined@ == path_and_query(path@, query.deep_view()),
{
    match query {
        Some(q) => {
            let mut joined = path;
            joined.push('?');
            joined.append(q.as_str());
            joined
        },
        None => path,
    }
}

/// Builds the snapshot of an inbound request, and gives with it the client's
/// address as the platform reported it. Names and values of the headers are
/// kept as they came, in their order. An address that does not read as an
/// IP address leaves `remote_addr` unset; nothing fails on that account.
pub fn create_redirectionio_request(inbound: InboundRequest) -> (r: (
    NormalizedRequest,
    Option<String>,
))
    ensures
        r.0.deep_view() == normalized(inbound.deep_view()),
        r.1.deep_view() == reported_address(inbound.deep_view().connecting_ip),
{
    let InboundRequest { method, scheme, host, path, query, headers, connecting_ip, received_at } =
        inbound;
    let (remote_addr, client_ip) = match connecting_ip {
        Some(ip) => if ip.is_address {
            (Some(ip.text.clone()), Some(ip.text))
        } else {
            (None, Some(ip.text))
        },
        None => (None, None),
    };
    let request = NormalizedRequest {
        method: Some(method),
        scheme: Some(scheme),
        host,
        path_and_query: join_path_and_query(path, query),
        headers,
        remote_addr,
        created_at: received_at,
        sampling_override: None,
    };
    (request, client_ip)
}

} // verus!
