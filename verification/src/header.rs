//! Headers, and the list of a response's headers in which every cookie has
//! a header of its own.

use crate::cookie::{cookies_of, lemma_cookies_are_fixed, split_set_cookie};
use vstd::prelude::*;

verus! {

/// One header of a request or of a response. A name may occur more than once
/// in a list of headers, and the list keeps the order in which they came.
#[derive(Debug, Clone, PartialEq, Eq, Hash)]
pub struct Header {
    pub name: String,
    pub value: String,
}

/// What a `Header` holds, as texts.
pub struct HeaderText {
    pub name: Seq<char>,
    pub value: Seq<char>,
}

impl View for Header {
    type V = HeaderText;

    open spec fn view(&self) -> HeaderText {
        HeaderText { name: self.name@, value: self.value@ }
    }
}

impl DeepView for Header {
    type V = HeaderText;

    open spec fn deep_view(&self) -> HeaderText {
        self@
    }
}

/// The text that `str::to_lowercase` makes of a text. It has no body: what
/// it is on a given text is known from a call alone.
pub uninterp spec fn lowercase(s: Seq<char>) -> Seq<char>;

/// Calls `str::to_lowercase`, which gives a text in lowercase as Unicode
/// defines it. What is taken on trust: the result depends on the text alone.
/// The contract gives it the name `lowercase` and claims nothing else of it.
#[verifier::external_body]
fn to_lowercase(s: &str) -> (r: String)
    ensures
        r@ == lowercase(s@),
{
    s.to_lowercase()
}

/// The name under which cookies are set, in lowercase.
pub open spec fn set_cookie_name() -> Seq<char> {
    "set-cookie"@
}

/// Whether a header of this name sets cookies, whatever the case it is
/// written in.
pub open spec fn sets_cookies(name: Seq<char>) -> bool {
    lowercase(name) == set_cookie_name()
}

/// The headers that stand for `header` in a list where each cookie has a
/// header of its own: one for each cookie folded into its value where it sets
/// cookies, all under its name; else the header itself.
pub open spec fn unfolded(header: HeaderText, set_cookie: bool) -> Seq<HeaderText> {
    if set_cookie {
        let cookies = cookies_of(header.value);
        Seq::new(cookies.len(), |i: int| HeaderText { name: header.name, value: cookies[i] })
    } else {
        seq![header]
    }
}

/// The headers of a response with every folded `Set-Cookie` header
/// unfolded, in the order of the response.
pub open spec fn unfolded_all(headers: Seq<HeaderText>) -> Seq<HeaderText>
    decreases headers.len(),
{
    if headers.len() == 0 {
        Seq::empty()
    } else {
        unfolded_all(headers.drop_last()) + unfolded(
            headers.last(),
            sets_cookies(headers.last().name),
        )
    }
}

/// Whether `lowered`, a header's name in lowercase, is the name under which
/// cookies are set.
pub fn is_set_cookie(lowered: &String) -> (r: bool)
    ensures
        r == (lowered@ == set_cookie_name()),
{
    let name = "set-cookie".to_owned();
    *lowered == name
}

/// Unfolds one header: where `set_cookie` holds, into one header for each
/// cookie of its value.
pub fn unfold_header(header: Header, set_cookie: bool) -> (headers: Vec<Header>)
    ensures
        headers.deep_view() == unfolded(header@, set_cookie),
{
    let mut headers: Vec<Header> = Vec::new();
    if set_cookie {
        let ghost cookies = cookies_of(header.value@);
        let mut values = split_set_cookie(header.value.as_str());
        let mut i: usize = 0;
        while i < values.len()
            invariant
                i <= values.len(),
                values.deep_view() == cookies,
                cookies == cookies_of(header.value@),
                headers.deep_view() == unfolded(header@, true).take(i as int),
            decreases values.len() - i,
        {
            let ghost before = headers.deep_view();
            let value = values[i].clone();
            let next = Header { name: header.name.clone(), value };
            headers.push(next);
            i += 1;
            assert(headers.deep_view() =~= before.push(next@));
        }
    } else {
        headers.push(header);
    }
    headers
}

/// Collects the headers of a response into the list that the decision is
/// applied to: every header in its place, and every `Set-Cookie` header that
/// carries several cookies replaced by one header for each.
pub fn collect_headers(response: Vec<Header>) -> (headers: Vec<Header>)
    ensures
        headers.deep_view() == unfolded_all(response.deep_view()),
{
    let mut headers: Vec<Header> = Vec::new();
    let ghost all = response.deep_view();
    let mut i: usize = 0;
    while i < response.len()
        invariant
            i <= response.len(),
            all == response.deep_view(),
            headers.deep_view() == unfolded_all(all.take(i as int)),
        decreases response.len() - i,
    {
        let header = Header { name: response[i].name.clone(), value: response[i].value.clone() };
        let set_cookie = is_set_cookie(&to_lowercase(header.name.as_str()));
        let mut more = unfold_header(header, set_cookie);
        headers.append(&mut more);
        assert(all.take(i + 1).drop_last() =~= all.take(i as int));
        i += 1;
    }
    assert(all.take(i as int) =~= all);
    headers
}

/// A copy of `headers`.
pub fn copy_headers(headers: &Vec<Header>) -> (copy: Vec<Header>)
    ensures
        copy.deep_view() == headers.deep_view(),
{
    let mut copy: Vec<Header> = Vec::new();
    let mut i: usize = 0;
    while i < headers.len()
        invariant
            i <= headers.len(),
            copy.deep_view() == headers.deep_view().take(i as int),
        decreases headers.len() - i,
    {
        let ghost before = copy.deep_view();
        let header = Header { name: headers[i].name.clone(), value: headers[i].value.clone() };
        copy.push(header);
        i += 1;
        assert(copy.deep_view() =~= before.push(header@));
    }
    copy
}

/// Unfolding two lists one behind the other unfolds each.
proof fn lemma_unfolded_all_concat(a: Seq<HeaderText>, b: Seq<HeaderText>)
    ensures
        unfolded_all(a + b) == unfolded_all(a) + unfolded_all(b),
    decreases b.len(),
{
    if b.len() > 0 {
        assert((a + b).drop_last() =~= a + b.drop_last());
        lemma_unfolded_all_concat(a, b.drop_last());
    }
}

/// The first `n` of the headers that a header unfolds into unfold into
/// themselves.
proof fn lemma_unfolded_is_fixed(header: HeaderText, n: int)
    requires
        0 <= n <= unfolded(header, sets_cookies(header.name)).len(),
    ensures
        unfolded_all(unfolded(header, sets_cookies(header.name)).take(n)) == unfolded(
            header,
            sets_cookies(header.name),
        ).take(n),
    decreases n,
{
    let all = unfolded(header, sets_cookies(header.name));
    if n > 0 {
        lemma_unfolded_is_fixed(header, n - 1);
        assert(all.take(n).drop_last() =~= all.take(n - 1));
        if sets_cookies(header.name) {
            lemma_cookies_are_fixed(header.value);
        }
    }
}

/// Unfolding is done once: the headers that come out of it hold one cookie
/// each, so unfolding them again gives the same headers.
pub proof fn lemma_unfolding_is_idempotent(headers: Seq<HeaderText>)
    ensures
        unfolded_all(unfolded_all(headers)) == unfolded_all(headers),
    decreases headers.len(),
{
    if headers.len() > 0 {
        let last = unfolded(headers.last(), sets_cookies(headers.last().name));
        lemma_unfolding_is_idempotent(headers.drop_last());
        lemma_unfolded_all_concat(unfolded_all(headers.drop_last()), last);
        lemma_unfolded_is_fixed(headers.last(), last.len() as int);
        assert(last.take(last.len() as int) =~= last);
    }
}

} // verus!
