//! Cookies that were folded into one `Set-Cookie` value, and how they are
//! told apart again.
//!
//! Some layers hand over the `Set-Cookie` headers of a response as one
//! value, joined by commas. A comma may also stand inside a cookie, in the
//! date of its `Expires` attribute, so the value cannot be cut at every
//! comma. It is cut into pieces at the commas, and each piece that does not
//! start a cookie is put back behind the piece before it.

use crate::text::{
    all_white_space, chars_of, find_in, first_index, is_white_space, lemma_first_index_absent,
    lemma_first_index_at, lemma_first_index_found, lemma_trim_end_is_front,
    lemma_trim_start_is_tail, lemma_trim_twice, string_of, trim, trim_bounds, trim_start,
};
use vstd::prelude::*;

verus! {

/// The pieces of `s` between its commas, in order. A text without a comma is
/// its own single piece, and a comma at either end borders an empty piece.
pub open spec fn split_commas(s: Seq<char>) -> Seq<Seq<char>>
    decreases s.len(),
{
    if s.len() == 0 {
        seq![s]
    } else if s.last() == ',' {
        split_commas(s.drop_last()).push(Seq::empty())
    } else {
        let before = split_commas(s.drop_last());
        before.update(before.len() - 1, before.last().push(s.last()))
    }
}

/// Whether a piece of a folded `Set-Cookie` value carries on the cookie before
/// it: it holds no `=`, or its first `=` comes after its first `;`.
pub open spec fn is_continuation(piece: Seq<char>) -> bool {
    match first_index(piece, '=') {
        None => true,
        Some(eq) => match first_index(piece, ';') {
            None => false,
            Some(semi) => eq > semi,
        },
    }
}

/// The cookies that a run of pieces stands for. A continuation is put back
/// behind the cookie before it, with the comma that was split off and with
/// its white space kept. Any other piece, and a continuation that has no
/// cookie before it, starts a cookie of its own, trimmed.
pub open spec fn regroup(pieces: Seq<Seq<char>>) -> Seq<Seq<char>>
    decreases pieces.len(),
{
    if pieces.len() == 0 {
        Seq::empty()
    } else {
        let before = regroup(pieces.drop_last());
        let piece = pieces.last();
        if is_continuation(piece) && before.len() > 0 {
            before.update(before.len() - 1, before.last().push(',') + piece)
        } else {
            before.push(trim(piece))
        }
    }
}

/// The cookies folded into one comma-joined `Set-Cookie` value.
pub open spec fn cookies_of(set_cookie: Seq<char>) -> Seq<Seq<char>> {
    regroup(split_commas(set_cookie))
}

/// Whether `v[lo..hi]` carries on the cookie before it.
fn continues(v: &Vec<char>, lo: usize, hi: usize) -> (r: bool)
    requires
        lo <= hi <= v.len(),
    ensures
        r == is_continuation(v@.subrange(lo as int, hi as int)),
{
    match find_in(v, lo, hi, '=') {
        None => true,
        Some(eq) => match find_in(v, lo, hi, ';') {
            None => false,
            Some(semi) => eq > semi,
        },
    }
}

/// Takes the piece `v[lo..hi]` into `cookies`.
fn absorb(cookies: &mut Vec<String>, v: &Vec<char>, lo: usize, hi: usize, Ghost(pieces): Ghost<
    Seq<Seq<char>>,
>)
    requires
        lo <= hi <= v.len(),
        old(cookies).deep_view() == regroup(pieces),
    ensures
        final(cookies).deep_view() == regroup(pieces.push(v@.subrange(lo as int, hi as int))),
{
    let ghost piece = v@.subrange(lo as int, hi as int);
    let ghost before = cookies.deep_view();
    assert(pieces.push(piece).drop_last() =~= pieces);
    if continues(v, lo, hi) && cookies.len() > 0 {
        let mut cookie = cookies.pop().unwrap();
        cookie.push(',');
        let mut i: usize = lo;
        while i < hi
            invariant
                lo <= i <= hi <= v.len(),
                cookie@ == before.last().push(',') + v@.subrange(lo as int, i as int),
            decreases hi - i,
        {
            cookie.push(v[i]);
            i += 1;
        }
        cookies.push(cookie);
    } else {
        let (a, b) = trim_bounds(v, lo, hi);
        cookies.push(string_of(v, a, b));
    }
}

/// Splits a `Set-Cookie` value in which several cookies were joined by commas
/// back into the single cookies. A comma inside a cookie, as in the date of
/// an `Expires` attribute, does not end it.
pub fn split_set_cookie(set_cookie: &str) -> (cookies: Vec<String>)
    ensures
        cookies.deep_view() == cookies_of(set_cookie@),
{
    let v = chars_of(set_cookie);
    let n: usize = v.len();
    let mut cookies: Vec<String> = Vec::new();
    let ghost mut pieces: Seq<Seq<char>> = Seq::empty();
    let mut lo: usize = 0;
    let mut hi: usize = 0;
    while hi < n
        invariant
            n == v.len(),
            lo <= hi <= n,
            cookies.deep_view() == regroup(pieces),
            split_commas(v@.take(hi as int)) == pieces.push(v@.subrange(lo as int, hi as int)),
        decreases n - hi,
    {
        let ghost piece = v@.subrange(lo as int, hi as int);
        assert(v@.take(hi + 1).drop_last() =~= v@.take(hi as int));
        if v[hi] == ',' {
            absorb(&mut cookies, &v, lo, hi, Ghost(pieces));
            proof {
                pieces = pieces.push(piece);
            }
            lo = hi + 1;
            assert(v@.subrange(lo as int, lo as int) =~= Seq::empty());
        } else {
            assert(piece.push(v@[hi as int]) =~= v@.subrange(lo as int, hi + 1));
        }
        hi += 1;
    }
    absorb(&mut cookies, &v, lo, n, Ghost(pieces));
    assert(v@.take(n as int) =~= v@);
    cookies
}

/// Whether `cookie` reads as one cookie: it opens with its `name=value`
/// pair, with no white space before or after its first piece, and what
/// follows each of its commas carries that same cookie on.
pub open spec fn is_single_cookie(cookie: Seq<char>) -> bool {
    let pieces = split_commas(cookie);
    &&& !is_continuation(pieces[0])
    &&& trim(pieces[0]) == pieces[0]
    &&& forall|i: int| 1 <= i < pieces.len() ==> is_continuation(#[trigger] pieces[i])
}

/// The cookies joined into one value, each but the first behind a comma and
/// `gap`.
pub open spec fn fold_cookies(cookies: Seq<Seq<char>>, gap: Seq<char>) -> Seq<char>
    decreases cookies.len(),
{
    if cookies.len() == 0 {
        Seq::empty()
    } else if cookies.len() == 1 {
        cookies[0]
    } else {
        fold_cookies(cookies.drop_last(), gap).push(',') + gap + cookies.last()
    }
}

/// The pieces joined again, a comma between each two.
pub open spec fn join_commas(pieces: Seq<Seq<char>>) -> Seq<char>
    decreases pieces.len(),
{
    if pieces.len() == 0 {
        Seq::empty()
    } else if pieces.len() == 1 {
        pieces[0]
    } else {
        join_commas(pieces.drop_last()).push(',') + pieces.last()
    }
}

/// Every text has a first piece.
pub proof fn lemma_split_nonempty(s: Seq<char>)
    ensures
        split_commas(s).len() >= 1,
    decreases s.len(),
{
    if s.len() > 0 {
        lemma_split_nonempty(s.drop_last());
    }
}

/// Splitting at a comma splits the pieces: those of the left side, then
/// those of the right side.
proof fn lemma_split_at_comma(a: Seq<char>, b: Seq<char>)
    ensures
        split_commas(a.push(',') + b) == split_commas(a) + split_commas(b),
    decreases b.len(),
{
    let whole = a.push(',') + b;
    lemma_split_nonempty(a);
    if b.len() == 0 {
        assert(whole.drop_last() =~= a);
        assert(b =~= Seq::empty());
    } else {
        assert(whole.drop_last() =~= a.push(',') + b.drop_last());
        lemma_split_at_comma(a, b.drop_last());
        lemma_split_nonempty(b.drop_last());
    }
}

/// White space put before a text goes to the front of its first piece.
proof fn lemma_split_behind_gap(gap: Seq<char>, s: Seq<char>)
    requires
        all_white_space(gap),
    ensures
        split_commas(gap + s) == split_commas(s).update(0, gap + split_commas(s)[0]),
    decreases s.len(),
{
    lemma_split_nonempty(s);
    if s.len() == 0 {
        lemma_split_comma_free(gap);
    } else {
        assert((gap + s).drop_last() =~= gap + s.drop_last());
        lemma_split_behind_gap(gap, s.drop_last());
        lemma_split_nonempty(s.drop_last());
    }
}

/// Joining the pieces of a text gives the text back.
pub proof fn lemma_join_split(s: Seq<char>)
    ensures
        join_commas(split_commas(s)) == s,
    decreases s.len(),
{
    if s.len() > 0 {
        lemma_join_split(s.drop_last());
        lemma_split_nonempty(s.drop_last());
        let before = split_commas(s.drop_last());
        if s.last() == ',' {
            assert(before.push(Seq::empty()).drop_last() =~= before);
        } else if before.len() > 1 {
            let pieces = before.update(before.len() - 1, before.last().push(s.last()));
            assert(pieces.drop_last() =~= before.drop_last());
            assert(join_commas(pieces) =~= (join_commas(before.drop_last()).push(',')
                + before.last()).push(s.last()));
        }
    }
}

/// White space before a piece does not change whether the piece carries on
/// the cookie before it.
proof fn lemma_continuation_behind_gap(gap: Seq<char>, piece: Seq<char>)
    requires
        all_white_space(gap),
    ensures
        is_continuation(gap + piece) == is_continuation(piece),
{
    lemma_first_index_behind_gap(gap, piece, '=');
    lemma_first_index_behind_gap(gap, piece, ';');
}

proof fn lemma_first_index_behind_gap(gap: Seq<char>, piece: Seq<char>, c: char)
    requires
        all_white_space(gap),
        !is_white_space(c),
    ensures
        first_index(gap + piece, c) == match first_index(piece, c) {
            Some(i) => Some(i + gap.len()),
            None => None,
        },
{
    let whole = gap + piece;
    lemma_first_index_found(piece, c);
    match first_index(piece, c) {
        Some(i) => {
            lemma_first_index_at(whole, c, i + gap.len());
        },
        None => {
            lemma_first_index_absent(whole, c);
        },
    }
}

/// White space before a text is trimmed away with the rest.
proof fn lemma_trim_behind_gap(gap: Seq<char>, s: Seq<char>)
    requires
        all_white_space(gap),
    ensures
        trim(gap + s) == trim(s),
    decreases gap.len(),
{
    if gap.len() > 0 {
        assert((gap + s).drop_first() =~= gap.drop_first() + s);
        lemma_trim_behind_gap(gap.drop_first(), s);
    }
}

/// A run of pieces that opens a cookie and then carries it on regroups into
/// that one cookie, behind the cookies of the pieces before the run.
proof fn lemma_regroup_run(before: Seq<Seq<char>>, run: Seq<Seq<char>>)
    requires
        run.len() >= 1,
        !is_continuation(run[0]),
        forall|i: int| 1 <= i < run.len() ==> is_continuation(#[trigger] run[i]),
    ensures
        regroup(before + run) == regroup(before).push(join_commas(run.update(0, trim(run[0])))),
    decreases run.len(),
{
    let all = before + run;
    let opened = run.update(0, trim(run[0]));
    assert(all.drop_last() =~= before + run.drop_last());
    if run.len() > 1 {
        lemma_regroup_run(before, run.drop_last());
        assert(opened.drop_last() =~= run.drop_last().update(0, trim(run[0])));
    }
}

/// A single cookie, behind white space and behind the pieces of other
/// cookies, comes out as itself.
proof fn lemma_regroup_cookie(before: Seq<Seq<char>>, gap: Seq<char>, cookie: Seq<char>)
    requires
        all_white_space(gap),
        is_single_cookie(cookie),
    ensures
        regroup(before + split_commas(gap + cookie)) == regroup(before).push(cookie),
{
    let pieces = split_commas(cookie);
    let run = pieces.update(0, gap + pieces[0]);
    lemma_split_nonempty(cookie);
    lemma_split_behind_gap(gap, cookie);
    lemma_continuation_behind_gap(gap, pieces[0]);
    lemma_trim_behind_gap(gap, pieces[0]);
    lemma_regroup_run(before, run);
    assert(run.update(0, trim(run[0])) =~= pieces);
    lemma_join_split(cookie);
}

/// Splitting recovers what was folded: where single cookies are joined into
/// one value, each behind a comma and any white space, `cookies_of` gives
/// back those cookies, as many and each as it was.
pub proof fn lemma_split_recovers_cookies(cookies: Seq<Seq<char>>, gap: Seq<char>)
    requires
        cookies.len() >= 1,
        forall|i: int| 0 <= i < cookies.len() ==> is_single_cookie(#[trigger] cookies[i]),
        all_white_space(gap),
    ensures
        cookies_of(fold_cookies(cookies, gap)) == cookies,
    decreases cookies.len(),
{
    let last = cookies.last();
    if cookies.len() == 1 {
        lemma_regroup_cookie(Seq::empty(), Seq::empty(), last);
    } else {
        let front = cookies.drop_last();
        lemma_split_recovers_cookies(front, gap);
        let folded = fold_cookies(front, gap);
        assert(fold_cookies(cookies, gap) =~= folded.push(',') + (gap + last));
        lemma_split_at_comma(folded, gap + last);
        lemma_regroup_cookie(split_commas(folded), gap, last);
    }
}

/// Whether `s` holds no comma.
pub open spec fn is_comma_free(s: Seq<char>) -> bool {
    forall|i: int| 0 <= i < s.len() ==> s[i] != ','
}

/// The pieces in the runs in which they are regrouped: each run is the
/// piece that starts a cookie and the continuations behind it.
pub open spec fn runs(pieces: Seq<Seq<char>>) -> Seq<Seq<Seq<char>>>
    decreases pieces.len(),
{
    if pieces.len() == 0 {
        Seq::empty()
    } else {
        let before = runs(pieces.drop_last());
        let piece = pieces.last();
        if is_continuation(piece) && before.len() > 0 {
            before.update(before.len() - 1, before.last().push(piece))
        } else {
            before.push(seq![piece])
        }
    }
}

/// Whether `run` is a piece and then continuations only, all without a
/// comma.
pub open spec fn is_run(run: Seq<Seq<char>>) -> bool {
    &&& run.len() >= 1
    &&& forall|i: int| 0 <= i < run.len() ==> is_comma_free(#[trigger] run[i])
    &&& forall|i: int| 1 <= i < run.len() ==> is_continuation(#[trigger] run[i])
}

/// The cookie that a run stands for.
pub open spec fn cookie_of_run(run: Seq<Seq<char>>) -> Seq<char> {
    join_commas(run.update(0, trim(run[0])))
}

/// The pieces of a text hold no comma.
pub proof fn lemma_pieces_comma_free(s: Seq<char>)
    ensures
        forall|i: int|
            0 <= i < split_commas(s).len() ==> is_comma_free(#[trigger] split_commas(s)[i]),
    decreases s.len(),
{
    if s.len() > 0 {
        lemma_pieces_comma_free(s.drop_last());
        lemma_split_nonempty(s.drop_last());
    }
}

/// A text without a comma is one piece.
proof fn lemma_split_comma_free(s: Seq<char>)
    requires
        is_comma_free(s),
    ensures
        split_commas(s) == seq![s],
    decreases s.len(),
{
    if s.len() > 0 {
        lemma_split_comma_free(s.drop_last());
        assert(s.drop_last().push(s.last()) =~= s);
    }
}

/// Pieces without commas, joined and split again, are the same pieces.
proof fn lemma_split_join(pieces: Seq<Seq<char>>)
    requires
        pieces.len() >= 1,
        forall|i: int| 0 <= i < pieces.len() ==> is_comma_free(#[trigger] pieces[i]),
    ensures
        split_commas(join_commas(pieces)) == pieces,
    decreases pieces.len(),
{
    lemma_split_comma_free(pieces.last());
    if pieces.len() > 1 {
        let front = pieces.drop_last();
        lemma_split_join(front);
        lemma_split_at_comma(join_commas(front), pieces.last());
    }
}

/// Every run of regrouped pieces is a run, where the pieces hold no comma;
/// and the cookies are those of the runs.
proof fn lemma_regroup_by_runs(pieces: Seq<Seq<char>>)
    requires
        forall|i: int| 0 <= i < pieces.len() ==> is_comma_free(#[trigger] pieces[i]),
    ensures
        regroup(pieces).len() == runs(pieces).len(),
        forall|i: int| 0 <= i < runs(pieces).len() ==> is_run(#[trigger] runs(pieces)[i]),
        forall|i: int|
            0 <= i < runs(pieces).len() ==> #[trigger] regroup(pieces)[i] == cookie_of_run(
                runs(pieces)[i],
            ),
    decreases pieces.len(),
{
    if pieces.len() > 0 {
        let front = pieces.drop_last();
        let piece = pieces.last();
        lemma_regroup_by_runs(front);
        let before = runs(front);
        if is_continuation(piece) && before.len() > 0 {
            let run = before.last();
            let grown = run.push(piece);
            assert(grown.update(0, trim(grown[0])).drop_last() =~= run.update(0, trim(run[0])));
        }
    }
}

/// What is left of a text once it is trimmed was in the text.
proof fn lemma_trim_keeps_comma_free(s: Seq<char>)
    requires
        is_comma_free(s),
    ensures
        is_comma_free(trim(s)),
{
    lemma_trim_start_is_tail(s);
    lemma_trim_end_is_front(trim_start(s));
}

/// A cookie that came out of a run splits into itself.
proof fn lemma_run_cookie_is_fixed(run: Seq<Seq<char>>)
    requires
        is_run(run),
    ensures
        cookies_of(cookie_of_run(run)) == seq![cookie_of_run(run)],
{
    let opened = run.update(0, trim(run[0]));
    lemma_trim_keeps_comma_free(run[0]);
    lemma_split_join(opened);
    lemma_regroup_first_run(opened);
    lemma_trim_twice(run[0]);
    assert(opened.update(0, trim(opened[0])) =~= opened);
}

/// Pieces that are continuations from the second on regroup into one cookie,
/// whatever the first piece is.
proof fn lemma_regroup_first_run(run: Seq<Seq<char>>)
    requires
        run.len() >= 1,
        forall|i: int| 1 <= i < run.len() ==> is_continuation(#[trigger] run[i]),
    ensures
        regroup(run) == seq![cookie_of_run(run)],
    decreases run.len(),
{
    let opened = run.update(0, trim(run[0]));
    if run.len() == 1 {
        assert(regroup(run.drop_last()).len() == 0);
    } else {
        let front = run.drop_last();
        lemma_regroup_first_run(front);
        assert(opened.drop_last() =~= front.update(0, trim(front[0])));
    }
}

/// Every cookie that comes out of a value splits into itself: splitting
/// what was split changes nothing.
pub proof fn lemma_cookies_are_fixed(set_cookie: Seq<char>)
    ensures
        forall|i: int|
            0 <= i < cookies_of(set_cookie).len() ==> cookies_of(
                #[trigger] cookies_of(set_cookie)[i],
            ) == seq![cookies_of(set_cookie)[i]],
{
    let pieces = split_commas(set_cookie);
    lemma_pieces_comma_free(set_cookie);
    lemma_regroup_by_runs(pieces);
    assert forall|i: int| 0 <= i < cookies_of(set_cookie).len() implies cookies_of(
        #[trigger] cookies_of(set_cookie)[i],
    ) == seq![cookies_of(set_cookie)[i]] by {
        lemma_run_cookie_is_fixed(runs(pieces)[i]);
    }
}

} // verus!
