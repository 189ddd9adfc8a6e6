//! The fingerprint of a request: the number under which its decision is
//! cached.
//!
//! A snapshot is first written out as one text in which every part is
//! framed, so that no two snapshots are written alike. The fingerprint is
//! what the standard library's default hasher makes of that text.

use crate::header::{Header, HeaderText};
use crate::number::{decimal, is_digit, lemma_decimal_injective, lemma_decimal_len, push_decimal};
use crate::request::{InboundText, NormalizedRequest, RequestText, normalized};
use std::collections::hash_map::DefaultHasher;
use std::hash::Hasher;
use vstd::prelude::*;
use vstd::std_specs::hash::DefaultHasherAdditionalSpecFns;
use vstd::string::{StrSliceExecFns, StringExecFns, StringSliceAdditionalSpecFns};
use vstd::utf8::{encode_utf8, encode_utf8_decode_utf8};

verus! {

/// A number, and a colon behind it.
pub open spec fn counted(n: nat) -> Seq<char> {
    decimal(n).push(':')
}

/// A text behind the number of its characters.
pub open spec fn framed(s: Seq<char>) -> Seq<char> {
    counted(s.len()) + s
}

/// A text that may be missing: a plus sign and the framed text, or a minus
/// sign alone.
pub open spec fn framed_option(o: Option<Seq<char>>) -> Seq<char> {
    match o {
        Some(s) => seq!['+'] + framed(s),
        None => seq!['-'],
    }
}

/// A header: its name and its value, each framed.
pub open spec fn framed_header(header: HeaderText) -> Seq<char> {
    framed(header.name) + framed(header.value)
}

/// Headers one behind the other, in their order.
pub open spec fn framed_headers(headers: Seq<HeaderText>) -> Seq<char>
    decreases headers.len(),
{
    if headers.len() == 0 {
        Seq::empty()
    } else {
        framed_headers(headers.drop_last()) + framed_header(headers.last())
    }
}

/// A list of headers behind the number of its headers.
pub open spec fn framed_list(headers: Seq<HeaderText>) -> Seq<char> {
    counted(headers.len()) + framed_headers(headers)
}

/// How far a time is from zero.
pub open spec fn away(t: i64) -> nat {
    if t < 0 {
        (-t) as nat
    } else {
        t as nat
    }
}

/// A time: its sign, and how far it is from zero.
pub open spec fn framed_time(t: i64) -> Seq<char> {
    if t < 0 {
        seq!['-'] + counted(away(t))
    } else {
        seq!['+'] + counted(away(t))
    }
}

/// A choice that may be missing, in one character.
pub open spec fn framed_choice(choice: Option<bool>) -> Seq<char> {
    match choice {
        Some(true) => seq!['t'],
        Some(false) => seq!['f'],
        None => seq!['-'],
    }
}

/// A snapshot written out: every part of it, framed, in a fixed order.
pub open spec fn canonical(request: RequestText) -> Seq<char> {
    framed_option(request.method) + (framed_option(request.scheme) + (framed_option(request.host)
        + (framed(request.path_and_query) + (framed_list(request.headers) + (framed_option(
        request.remote_addr,
    ) + (framed_time(request.created_at) + framed_choice(request.sampling_override)))))))
}

/// The fingerprint of a snapshot: what the default hasher gives when the
/// snapshot, written out and encoded as UTF-8, is all that was written to
/// it.
pub open spec fn fingerprint_of(request: RequestText) -> u64 {
    DefaultHasher::spec_finish(seq![encode_utf8(canonical(request))])
}

fn push_counted(out: &mut String, n: usize)
    ensures
        final(out)@ == old(out)@ + counted(n as nat),
{
    push_decimal(out, n as u64);
    out.push(':');
}

fn push_framed(out: &mut String, s: &str)
    ensures
        final(out)@ == old(out)@ + framed(s@),
{
    push_counted(out, s.unicode_len());
    out.append(s);
}

fn push_framed_option(out: &mut String, o: &Option<String>)
    ensures
        final(out)@ == old(out)@ + framed_option(o.deep_view()),
{
    match o {
        Some(s) => {
            out.push('+');
            push_framed(out, s.as_str());
        },
        None => {
            out.push('-');
        },
    }
}

fn push_framed_list(out: &mut String, headers: &Vec<Header>)
    ensures
        final(out)@ == old(out)@ + framed_list(headers.deep_view()),
{
    let ghost all = headers.deep_view();
    push_counted(out, headers.len());
    let mut i: usize = 0;
    while i < headers.len()
        invariant
            i <= headers.len(),
            all == headers.deep_view(),
            out@ == old(out)@ + counted(all.len()) + framed_headers(all.take(i as int)),
        decreases headers.len() - i,
    {
        push_framed(out, headers[i].name.as_str());
        push_framed(out, headers[i].value.as_str());
        assert(all.take(i + 1).drop_last() =~= all.take(i as int));
        i += 1;
    }
    assert(all.take(i as int) =~= all);
}

fn push_framed_time(out: &mut String, t: i64)
    ensures
        final(out)@ == old(out)@ + framed_time(t),
{
    if t < 0 {
        out.push('-');
        let away: u64 = ((-(t + 1)) as u64) + 1;
        push_decimal(out, away);
        out.push(':');
    } else {
        out.push('+');
        push_decimal(out, t as u64);
        out.push(':');
    }
}

fn push_framed_choice(out: &mut String, choice: Option<bool>)
    ensures
        final(out)@ == old(out)@ + framed_choice(choice),
{
    match choice {
        Some(true) => out.push('t'),
        Some(false) => out.push('f'),
        None => out.push('-'),
    }
}

/// Writes a snapshot out.
pub fn canonical_text(request: &NormalizedRequest) -> (text: String)
    ensures
        text@ == canonical(request.deep_view()),
{
    let mut text = String::new();
    push_framed_option(&mut text, &request.method);
    let ghost x1 = text@;
    push_framed_option(&mut text, &request.scheme);
    let ghost x2 = text@;
    push_framed_option(&mut text, &request.host);
    let ghost x3 = text@;
    push_framed(&mut text, request.path_and_query.as_str());
    let ghost x4 = text@;
    push_framed_list(&mut text, &request.headers);
    let ghost x5 = text@;
    push_framed_option(&mut text, &request.remote_addr);
    let ghost x6 = text@;
    push_framed_time(&mut text, request.created_at);
    push_framed_choice(&mut text, request.sampling_override);
    proof {
        let r = request.deep_view();
        let p8 = framed_choice(r.sampling_override);
        let r7 = framed_time(r.created_at) + p8;
        let r6 = framed_option(r.remote_addr) + r7;
        let r5 = framed_list(r.headers) + r6;
        let r4 = framed(r.path_and_query) + r5;
        let r3 = framed_option(r.host) + r4;
        lemma_concat_assoc(x6, framed_time(r.created_at), p8);
        lemma_concat_assoc(x5, framed_option(r.remote_addr), r7);
        lemma_concat_assoc(x4, framed_list(r.headers), r6);
        lemma_concat_assoc(x3, framed(r.path_and_query), r5);
        lemma_concat_assoc(x2, framed_option(r.host), r4);
        lemma_concat_assoc(x1, framed_option(r.scheme), r3);
    }
    text
}

/// Texts put one behind the other make the same text however they are
/// grouped.
proof fn lemma_concat_assoc(a: Seq<char>, b: Seq<char>, c: Seq<char>)
    ensures
        (a + b) + c == a + (b + c),
{
}

/// The fingerprint of a snapshot.
pub fn fingerprint(request: &NormalizedRequest) -> (r: u64)
    ensures
        r == fingerprint_of(request.deep_view()),
{
    let text = canonical_text(request);
    let mut hasher = DefaultHasher::new();
    hasher.write(text.as_str().as_bytes());
    hasher.finish()
}

/// A counted number is told apart from whatever follows it.
proof fn lemma_counted_splits(n: nat, x: Seq<char>, m: nat, y: Seq<char>)
    requires
        counted(n) + x == counted(m) + y,
    ensures
        n == m,
        x == y,
{
    let left = counted(n) + x;
    let right = counted(m) + y;
    let a = decimal(n).len() as int;
    let b = decimal(m).len() as int;
    lemma_decimal_len(n);
    lemma_decimal_len(m);
    assert(left[a] == ':');
    assert(right[b] == ':');
    if a < b {
        assert(right[a] == decimal(m)[a]);
        assert(is_digit(decimal(m)[a]));
    }
    if b < a {
        assert(left[b] == decimal(n)[b]);
        assert(is_digit(decimal(n)[b]));
    }
    assert(decimal(n) =~= left.take(a));
    assert(decimal(m) =~= right.take(b));
    lemma_decimal_injective(n, m);
    assert(x =~= left.skip(a + 1));
    assert(y =~= right.skip(b + 1));
}

/// A framed text is told apart from whatever follows it.
proof fn lemma_framed_splits(s: Seq<char>, x: Seq<char>, t: Seq<char>, y: Seq<char>)
    requires
        framed(s) + x == framed(t) + y,
    ensures
        s == t,
        x == y,
{
    assert(framed(s) + x =~= counted(s.len()) + (s + x));
    assert(framed(t) + y =~= counted(t.len()) + (t + y));
    lemma_counted_splits(s.len(), s + x, t.len(), t + y);
    assert(s =~= (s + x).take(s.len() as int));
    assert(t =~= (t + y).take(t.len() as int));
    assert(x =~= (s + x).skip(s.len() as int));
    assert(y =~= (t + y).skip(t.len() as int));
}

/// A framed text that may be missing is told apart from whatever follows
/// it.
proof fn lemma_framed_option_splits(
    s: Option<Seq<char>>,
    x: Seq<char>,
    t: Option<Seq<char>>,
    y: Seq<char>,
)
    requires
        framed_option(s) + x == framed_option(t) + y,
    ensures
        s == t,
        x == y,
{
    let left = framed_option(s) + x;
    let right = framed_option(t) + y;
    assert(left[0] == framed_option(s)[0]);
    assert(right[0] == framed_option(t)[0]);
    match (s, t) {
        (Some(a), Some(b)) => {
            assert(framed(a) + x =~= left.skip(1));
            assert(framed(b) + y =~= right.skip(1));
            lemma_framed_splits(a, x, b, y);
        },
        (None, None) => {
            assert(x =~= left.skip(1));
            assert(y =~= right.skip(1));
        },
        (Some(_), None) => {
            assert(left[0] == '+' && right[0] == '-');
        },
        (None, Some(_)) => {
            assert(left[0] == '-' && right[0] == '+');
        },
    }
}

/// As many framed headers are told apart from whatever follows them.
proof fn lemma_framed_headers_split(
    a: Seq<HeaderText>,
    x: Seq<char>,
    b: Seq<HeaderText>,
    y: Seq<char>,
)
    requires
        a.len() == b.len(),
        framed_headers(a) + x == framed_headers(b) + y,
    ensures
        a == b,
        x == y,
    decreases a.len(),
{
    if a.len() == 0 {
        assert(a =~= b);
        assert(framed_headers(a) + x =~= x);
        assert(framed_headers(b) + y =~= y);
    } else {
        let p = a.last();
        let q = b.last();
        let px = framed(p.name) + (framed(p.value) + x);
        let qy = framed(q.name) + (framed(q.value) + y);
        assert(framed_headers(a) + x =~= framed_headers(a.drop_last()) + px);
        assert(framed_headers(b) + y =~= framed_headers(b.drop_last()) + qy);
        lemma_framed_headers_split(a.drop_last(), px, b.drop_last(), qy);
        lemma_framed_splits(p.name, framed(p.value) + x, q.name, framed(q.value) + y);
        lemma_framed_splits(p.value, x, q.value, y);
        assert(a =~= a.drop_last().push(p));
        assert(b =~= b.drop_last().push(q));
    }
}

/// A framed list of headers is told apart from whatever follows it.
proof fn lemma_framed_list_splits(
    a: Seq<HeaderText>,
    x: Seq<char>,
    b: Seq<HeaderText>,
    y: Seq<char>,
)
    requires
        framed_list(a) + x == framed_list(b) + y,
    ensures
        a == b,
        x == y,
{
    assert(framed_list(a) + x =~= counted(a.len()) + (framed_headers(a) + x));
    assert(framed_list(b) + y =~= counted(b.len()) + (framed_headers(b) + y));
    lemma_counted_splits(a.len(), framed_headers(a) + x, b.len(), framed_headers(b) + y);
    lemma_framed_headers_split(a, x, b, y);
}

/// A framed time is told apart from whatever follows it.
proof fn lemma_framed_time_splits(s: i64, x: Seq<char>, t: i64, y: Seq<char>)
    requires
        framed_time(s) + x == framed_time(t) + y,
    ensures
        s == t,
        x == y,
{
    let left = framed_time(s) + x;
    let right = framed_time(t) + y;
    assert(left[0] == framed_time(s)[0]);
    assert(right[0] == framed_time(t)[0]);
    assert(framed_time(s)[0] == if s < 0 { '-' } else { '+' });
    assert(framed_time(t)[0] == if t < 0 { '-' } else { '+' });
    assert(counted(away(s)) + x =~= left.skip(1));
    assert(counted(away(t)) + y =~= right.skip(1));
    lemma_counted_splits(away(s), x, away(t), y);
}

/// No two snapshots are written alike: snapshots that differ in anything,
/// be it the method, the host, the path, the query or a header, are written
/// differently.
pub proof fn lemma_canonical_is_injective(a: RequestText, b: RequestText)
    requires
        canonical(a) == canonical(b),
    ensures
        a == b,
{
    let a7 = framed_choice(a.sampling_override);
    let b7 = framed_choice(b.sampling_override);
    let a6 = framed_time(a.created_at) + a7;
    let b6 = framed_time(b.created_at) + b7;
    let a5 = framed_option(a.remote_addr) + a6;
    let b5 = framed_option(b.remote_addr) + b6;
    let a4 = framed_list(a.headers) + a5;
    let b4 = framed_list(b.headers) + b5;
    let a3 = framed(a.path_and_query) + a4;
    let b3 = framed(b.path_and_query) + b4;
    let a2 = framed_option(a.host) + a3;
    let b2 = framed_option(b.host) + b3;
    let a1 = framed_option(a.scheme) + a2;
    let b1 = framed_option(b.scheme) + b2;
    lemma_framed_option_splits(a.method, a1, b.method, b1);
    lemma_framed_option_splits(a.scheme, a2, b.scheme, b2);
    lemma_framed_option_splits(a.host, a3, b.host, b3);
    lemma_framed_splits(a.path_and_query, a4, b.path_and_query, b4);
    lemma_framed_list_splits(a.headers, a5, b.headers, b5);
    lemma_framed_option_splits(a.remote_addr, a6, b.remote_addr, b6);
    lemma_framed_time_splits(a.created_at, a7, b.created_at, b7);
    assert(a7[0] == b7[0]);
}

/// Snapshots that differ give the hasher different bytes.
pub proof fn lemma_hashed_bytes_are_injective(a: RequestText, b: RequestText)
    requires
        encode_utf8(canonical(a)) == encode_utf8(canonical(b)),
    ensures
        a == b,
{
    encode_utf8_decode_utf8(canonical(a));
    encode_utf8_decode_utf8(canonical(b));
    lemma_canonical_is_injective(a, b);
}

/// Fingerprint stability: inbound requests that are the same, to the byte
/// and to the millisecond, have snapshots with the same fingerprint.
pub proof fn lemma_fingerprint_is_stable(a: InboundText, b: InboundText)
    requires
        a == b,
    ensures
        fingerprint_of(normalized(a)) == fingerprint_of(normalized(b)),
{
}

} // verus!
