//! Keeping the lines of a text body that contain a query.
use vstd::prelude::*;

use crate::text::{chars_of, lines_of, split_lines};

verus! {

/// `q` occurs in `line` as a contiguous run of characters.
pub open spec fn contains(line: Seq<char>, q: Seq<char>) -> bool {
    exists|i: int| 0 <= i <= line.len() - q.len() && #[trigger] line.subrange(i, i + q.len()) == q
}

/// The lines of `body` that contain `q`, in their order in `body`.
pub open spec fn search_spec(q: Seq<char>, body: Seq<char>) -> Seq<Seq<char>> {
    lines_of(body).filter(|l: Seq<char>| contains(l, q))
}

/// The lowercase form of `s` that `str::to_lowercase` gives (Unicode's lowercase mapping).
pub uninterp spec fn lower_of(s: Seq<char>) -> Seq<char>;

/// The lines of `body` whose lowercase form contains the lowercase form of `q`, as they
/// stand in `body`, in their order there.
pub open spec fn search_case_insensitive_spec(q: Seq<char>, body: Seq<char>) -> Seq<Seq<char>> {
    lines_of(body).filter(|l: Seq<char>| contains(lower_of(l), lower_of(q)))
}

/// Relies on `str::to_lowercase`: the lowercase form of a string, which depends on its
/// characters alone.
#[verifier::external_body]
fn lowercase(s: &str) -> (r: String)
    ensures
        r@ == lower_of(s@),
{
    s.to_lowercase()
}

/// `needle` occurs in `hay` at position `at`.
fn occurs_at(hay: &Vec<char>, needle: &Vec<char>, at: usize) -> (r: bool)
    requires
        at + needle.len() <= hay.len(),
    ensures
        r == (hay@.subrange(at as int, at + needle.len()) == needle@),
{
    let mut j: usize = 0;
    while j < needle.len()
        invariant
            at + needle.len() <= hay.len(),
            j <= needle.len(),
            forall|k: int| 0 <= k < j ==> hay@[at + k] == needle@[k],
        decreases needle.len() - j,
    {
        if hay[at + j] != needle[j] {
            assert(hay@.subrange(at as int, at + needle.len())[j as int] != needle@[j as int]);
            return false;
        }
        j += 1;
    }
    assert(hay@.subrange(at as int, at + needle.len()) =~= needle@);
    true
}

/// Whether `needle` occurs in `hay`.
fn contains_chars(hay: &Vec<char>, needle: &Vec<char>) -> (r: bool)
    ensures
        r == contains(hay@, needle@),
{
    if needle.len() > hay.len() {
        return false;
    }
    let last = hay.len() - needle.len();
    let mut i: usize = 0;
    loop
        invariant
            i <= last,
            last + needle.len() == hay.len(),
            forall|k: int|
                0 <= k < i ==> #[trigger] hay@.subrange(k, k + needle.len()) != needle@,
        decreases last - i,
    {
        if occurs_at(hay, needle, i) {
            return true;
        }
        if i == last {
            return false;
        }
        i += 1;
    }
}

/// Whether `line` contains `query` as a contiguous substring, compared character for
/// character.
pub fn line_contains(line: &str, query: &str) -> (r: bool)
    ensures
        r == contains(line@, query@),
{
    contains_chars(&chars_of(line), &chars_of(query))
}

/// The lines of `contents` that contain `query`, compared character for character, in
/// their order in `contents`.
pub fn search(query: &str, contents: &str) -> (r: Vec<String>)
    ensures
        r.deep_view() == search_spec(query@, contents@),
{
    let q = chars_of(query);
    let lines = split_lines(contents);
    let ghost all = lines.deep_view();
    let mut r: Vec<String> = Vec::new();
    let mut k: usize = 0;
    proof {
        reveal(Seq::filter);
        assert(all.take(0) =~= Seq::<Seq<char>>::empty());
    }
    while k < lines.len()
        invariant
            q@ == query@,
            all == lines.deep_view(),
            all == lines_of(contents@),
            k <= lines.len(),
            r.deep_view() == all.take(k as int).filter(|l: Seq<char>| contains(l, q@)),
        decreases lines.len() - k,
    {
        proof {
            reveal(Seq::filter);
            assert(all.take(k + 1).drop_last() =~= all.take(k as int));
        }
        let ghost old_r = r.deep_view();
        if contains_chars(&chars_of(&lines[k]), &q) {
            r.push(lines[k].clone());
            assert(r.deep_view() =~= old_r.push(all[k as int]));
        }
        k += 1;
    }
    assert(all.take(k as int) =~= all);
    r
}

/// The lines of `contents` whose lowercase form contains the lowercase form of `query`,
/// returned in their original case and order.
pub fn search_case_insensitive(query: &str, contents: &str) -> (r: Vec<String>)
    ensures
        r.deep_view() == search_case_insensitive_spec(query@, contents@),
{
    let folded_query = lowercase(query);
    let lines = split_lines(contents);
    let ghost all = lines.deep_view();
    let ghost keep = |l: Seq<char>| contains(lower_of(l), lower_of(query@));
    let mut r: Vec<String> = Vec::new();
    let mut k: usize = 0;
    proof {
        reveal(Seq::filter);
        assert(all.take(0) =~= Seq::<Seq<char>>::empty());
    }
    while k < lines.len()
        invariant
            folded_query@ == lower_of(query@),
            keep == (|l: Seq<char>| contains(lower_of(l), lower_of(query@))),
            all == lines.deep_view(),
            all == lines_of(contents@),
            k <= lines.len(),
            r.deep_view() == all.take(k as int).filter(keep),
        decreases lines.len() - k,
    {
        proof {
            reveal(Seq::filter);
            assert(all.take(k + 1).drop_last() =~= all.take(k as int));
        }
        let ghost old_r = r.deep_view();
        let folded_line = lowercase(lines[k].as_str());
        if line_contains(folded_line.as_str(), folded_query.as_str()) {
            r.push(lines[k].clone());
            assert(r.deep_view() =~= old_r.push(all[k as int]));
        }
        k += 1;
    }
    assert(all.take(k as int) =~= all);
    r
}

} // verus!
