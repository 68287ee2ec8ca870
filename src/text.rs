//! Characters of strings, and the split of a text body into lines.
use vstd::prelude::*;

verus! {

/// The characters of `s`, in order.
pub fn chars_of(s: &str) -> (r: Vec<char>)
    ensures
        r@ == s@,
{
    let mut r: Vec<char> = Vec::new();
    for c in it: s.chars()
        invariant
            it.seq() == s@,
            r@ == it.seq().take(it.index() as int),
    {
        r.push(c);
    }
    r
}

/// The pieces of `s` between its newline characters, newlines left out: one more piece
/// than `s` holds newlines.
pub open spec fn pieces(s: Seq<char>) -> Seq<Seq<char>>
    decreases s.len(),
{
    if s.len() == 0 {
        seq![Seq::empty()]
    } else {
        let p = pieces(s.drop_last());
        if s.last() == '\n' {
            p.push(Seq::empty())
        } else {
            p.update(p.len() - 1, p.last().push(s.last()))
        }
    }
}

/// A piece that ended at a newline, with the carriage return of a `"\r\n"` ending removed.
pub open spec fn strip_cr(l: Seq<char>) -> Seq<char> {
    if l.len() > 0 && l.last() == '\r' {
        l.drop_last()
    } else {
        l
    }
}

/// The lines of a text body: each piece that a `'\n'` (or `"\r\n"`) ends, without its
/// ending, then the text after the last newline if it is not empty.
pub open spec fn lines_of(s: Seq<char>) -> Seq<Seq<char>> {
    let p = pieces(s);
    let ended = p.drop_last().map_values(|l: Seq<char>| strip_cr(l));
    if p.last().len() == 0 {
        ended
    } else {
        ended.push(p.last())
    }
}

/// There is always at least one piece.
pub proof fn lemma_pieces_nonempty(s: Seq<char>)
    ensures
        pieces(s).len() >= 1,
    decreases s.len(),
{
    if s.len() > 0 {
        lemma_pieces_nonempty(s.drop_last());
    }
}

/// Relies on `String::push`: appends one character at the end of the string.
#[verifier::external_body]
fn push_char(s: &mut String, c: char)
    ensures
        final(s)@ == old(s)@.push(c),
{
    s.push(c)
}

/// A string that holds the first `n` characters of `cs`.
fn string_of_prefix(cs: &Vec<char>, n: usize) -> (r: String)
    requires
        n <= cs.len(),
    ensures
        r@ == cs@.take(n as int),
{
    let mut r = String::new();
    let mut i: usize = 0;
    while i < n
        invariant
            n <= cs.len(),
            i <= n,
            r@ == cs@.take(i as int),
        decreases n - i,
    {
        push_char(&mut r, cs[i]);
        assert(cs@.take(i + 1) =~= cs@.take(i as int).push(cs@[i as int]));
        i += 1;
    }
    r
}

/// Splits `body` into its lines, in order, as copies.
pub fn split_lines(body: &str) -> (r: Vec<String>)
    ensures
        r.deep_view() == lines_of(body@),
{
    let cs = chars_of(body);
    let mut done: Vec<String> = Vec::new();
    let mut cur: Vec<char> = Vec::new();
    let mut i: usize = 0;
    proof {
        assert(cs@.take(0) =~= Seq::<char>::empty());
    }
    while i < cs.len()
        invariant
            cs@ == body@,
            i <= cs.len(),
            pieces(cs@.take(i as int)).len() >= 1,
            cur@ == pieces(cs@.take(i as int)).last(),
            done.deep_view() == pieces(cs@.take(i as int)).drop_last().map_values(
                |l: Seq<char>| strip_cr(l),
            ),
        decreases cs.len() - i,
    {
        let ghost before = cs@.take(i as int);
        let ghost after = cs@.take(i + 1);
        assert(after.drop_last() =~= before);
        assert(after.last() == cs@[i as int]);
        let c = cs[i];
        if c == '\n' {
            let n = cur.len();
            let end = if n > 0 && cur[n - 1] == '\r' {
                n - 1
            } else {
                n
            };
            let line = string_of_prefix(&cur, end);
            assert(line@ =~= strip_cr(cur@));
            let ghost old_done = done.deep_view();
            done.push(line);
            cur = Vec::new();
            assert(done.deep_view() =~= old_done.push(strip_cr(pieces(before).last())));
            assert(pieces(after).drop_last() =~= pieces(before));
            assert(pieces(before).map_values(|l: Seq<char>| strip_cr(l)) =~= pieces(
                before,
            ).drop_last().map_values(|l: Seq<char>| strip_cr(l)).push(
                strip_cr(pieces(before).last()),
            ));
            assert(done.deep_view() =~= pieces(after).drop_last().map_values(
                |l: Seq<char>| strip_cr(l),
            ));
        } else {
            cur.push(c);
            assert(pieces(after).drop_last() =~= pieces(before).drop_last());
        }
        i += 1;
    }
    assert(cs@.take(i as int) =~= cs@);
    if cur.len() > 0 {
        let n = cur.len();
        let line = string_of_prefix(&cur, n);
        assert(line@ =~= cur@);
        let ghost old_done = done.deep_view();
        done.push(line);
        assert(done.deep_view() =~= old_done.push(cur@));
        assert(done.deep_view() =~= lines_of(body@));
    }
    done
}

} // verus!
