//! Properties of the search that hold for every query and text body.
use vstd::prelude::*;

use crate::matcher::{contains, search_spec};
use crate::text::{lines_of, pieces};

verus! {

broadcast use vstd::seq_lib::group_to_multiset_ensures;

/// Filtering keeps every element that the predicate accepts as often as it occurs.
proof fn lemma_filter_keeps_count(s: Seq<Seq<char>>, pred: spec_fn(Seq<char>) -> bool, x: Seq<char>)
    requires
        pred(x),
    ensures
        s.filter(pred).to_multiset().count(x) == s.to_multiset().count(x),
    decreases s.len(),
{
    reveal(Seq::filter);
    if s.len() > 0 {
        lemma_filter_keeps_count(s.drop_last(), pred, x);
        assert(s =~= s.drop_last().push(s.last()));
    } else {
        assert(s.filter(pred) =~= s);
    }
}

/// Filtering with a predicate that accepts everything changes nothing.
proof fn lemma_filter_all(s: Seq<Seq<char>>, pred: spec_fn(Seq<char>) -> bool)
    requires
        forall|l: Seq<char>| #[trigger] pred(l),
    ensures
        s.filter(pred) == s,
    decreases s.len(),
{
    reveal(Seq::filter);
    if s.len() > 0 {
        lemma_filter_all(s.drop_last(), pred);
        assert(s =~= s.drop_last().push(s.last()));
    }
}

/// Filtering a prefix whose lines all contain `q` keeps it whole.
proof fn lemma_filter_prefix_all_match(r: Seq<Seq<char>>, q: Seq<char>, n: int)
    requires
        0 <= n <= r.len(),
        forall|k: int| 0 <= k < r.len() ==> contains(#[trigger] r[k], q),
    ensures
        r.take(n).filter(|l: Seq<char>| contains(l, q)) == r.take(n),
    decreases n,
{
    reveal(Seq::filter);
    if n > 0 {
        lemma_filter_prefix_all_match(r, q, n - 1);
        assert(r.take(n).drop_last() =~= r.take(n - 1));
        assert(r.take(n).last() == r[n - 1]);
    } else {
        assert(r.take(0).filter(|l: Seq<char>| contains(l, q)) =~= r.take(0));
    }
}

/// A line of the body that contains the query is returned, and as many times as the body
/// holds it: once for each line where it stands.
pub proof fn lemma_matching_line_returned(q: Seq<char>, body: Seq<char>, i: int)
    requires
        0 <= i < lines_of(body).len(),
        contains(lines_of(body)[i], q),
    ensures
        search_spec(q, body).contains(lines_of(body)[i]),
        search_spec(q, body).to_multiset().count(lines_of(body)[i]) == lines_of(
            body,
        ).to_multiset().count(lines_of(body)[i]),
{
    let lines = lines_of(body);
    lemma_filter_keeps_count(lines, |l: Seq<char>| contains(l, q), lines[i]);
    assert(lines.contains(lines[i]));
}

/// Every line returned contains the query and is a line of the body: there are no false
/// positives.
pub proof fn lemma_returned_lines_match(q: Seq<char>, body: Seq<char>)
    ensures
        forall|k: int|
            0 <= k < search_spec(q, body).len() ==> contains(#[trigger] search_spec(q, body)[k], q)
                && lines_of(body).contains(search_spec(q, body)[k]),
{
    let pred = |l: Seq<char>| contains(l, q);
    let r = lines_of(body).filter(pred);
    assert forall|k: int| 0 <= k < r.len() implies contains(#[trigger] r[k], q)
        && lines_of(body).contains(r[k]) by {
        lines_of(body).lemma_filter_pred(pred, k);
        assert(r.contains(r[k]));
        lines_of(body).lemma_filter_contains_rev(pred, r[k]);
    }
}

/// The result depends on the query and the body alone: two searches of the same body
/// for the same query return the same lines.
pub proof fn lemma_search_deterministic(
    q: Seq<char>,
    body: Seq<char>,
    first: Seq<Seq<char>>,
    second: Seq<Seq<char>>,
)
    requires
        first == search_spec(q, body),
        second == search_spec(q, body),
    ensures
        first == second,
{
}

/// Searching the returned lines again for the same query keeps all of them.
pub proof fn lemma_search_idempotent(q: Seq<char>, body: Seq<char>)
    ensures
        search_spec(q, body).filter(|l: Seq<char>| contains(l, q)) == search_spec(q, body),
{
    lemma_returned_lines_match(q, body);
    let r = search_spec(q, body);
    lemma_filter_prefix_all_match(r, q, r.len() as int);
    assert(r.take(r.len() as int) =~= r);
}

/// Every line contains the empty query, so searching for it returns every line of the
/// body, unchanged and in order.
pub proof fn lemma_empty_query_returns_all_lines(body: Seq<char>)
    ensures
        search_spec(Seq::empty(), body) == lines_of(body),
{
    let pred = |l: Seq<char>| contains(l, Seq::<char>::empty());
    assert forall|l: Seq<char>| #[trigger] pred(l) by {
        let e = Seq::<char>::empty();
        let z: int = 0;
        assert(l.subrange(z, z + e.len()) =~= e);
    }
    lemma_filter_all(lines_of(body), pred);
}

/// An empty body has no lines, so nothing is returned for any query.
pub proof fn lemma_empty_body_returns_nothing(q: Seq<char>)
    ensures
        search_spec(q, Seq::empty()) == Seq::<Seq<char>>::empty(),
{
    reveal(Seq::filter);
    assert(pieces(Seq::empty()) == seq![Seq::<char>::empty()]);
    assert(lines_of(Seq::empty()) =~= Seq::<Seq<char>>::empty());
}

} // verus!
