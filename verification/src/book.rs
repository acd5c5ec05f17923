//! The opening book: the positions that a book file holds, one per line, in
//! the order of the file or shuffled.

use vstd::prelude::*;
use rand::seq::SliceRandom;
use rand_chacha::ChaCha8Rng;
use crate::shogi::{book_position, spec_book_position};
use crate::text::push_char;

verus! {

#[verifier::external_type_specification]
#[verifier::external_body]
pub struct ExChaCha8Rng(ChaCha8Rng);

/// The character sequences of `v`.
pub open spec fn string_views(v: Seq<String>) -> Seq<Seq<char>> {
    v.map_values(|s: String| s@)
}

/// The pieces of `s` between line feeds, in order: one more than `s` has
/// line feeds. (A carriage return before a line feed stays in its piece.)
pub open spec fn line_pieces(s: Seq<char>) -> Seq<Seq<char>>
    decreases s.len(),
{
    if s.len() == 0 {
        seq![Seq::empty()]
    } else {
        let p = line_pieces(s.drop_last());
        if s.last() == '\n' {
            p.push(Seq::empty())
        } else {
            p.update(p.len() - 1, p.last().push(s.last()))
        }
    }
}

/// The positions that the lines `ls` give, in order (blank lines give none).
pub open spec fn positions_of(ls: Seq<Seq<char>>) -> Seq<Seq<char>>
    decreases ls.len(),
{
    if ls.len() == 0 {
        Seq::empty()
    } else {
        let rest = positions_of(ls.drop_last());
        match spec_book_position(ls.last()) {
            Some(p) => rest.push(p),
            None => rest,
        }
    }
}

/// The positions of a book file, in the order of the file. Splitting at
/// line feeds alone gives the same positions as splitting into text lines:
/// a carriage return at the end of a line and an empty last piece are blank
/// to `spec_book_position`.
pub open spec fn spec_book_positions(text: Seq<char>) -> Seq<Seq<char>> {
    positions_of(line_pieces(text))
}

proof fn lemma_line_pieces_nonempty(s: Seq<char>)
    ensures
        line_pieces(s).len() >= 1,
    decreases s.len(),
{
    if s.len() > 0 {
        lemma_line_pieces_nonempty(s.drop_last());
    }
}

/// Appends the position of `line` to `out` if it holds one.
fn push_position(out: &mut Vec<String>, line: &String)
    ensures
        string_views(final(out)@) == match spec_book_position(line@) {
            Some(p) => string_views(old(out)@).push(p),
            None => string_views(old(out)@),
        },
{
    match book_position(line.as_str()) {
        Some(p) => {
            out.push(p);
            assert(string_views(out@) =~= string_views(old(out)@).push(spec_book_position(line@)->0));
        },
        None => {},
    }
}

/// The positions of a book file, in the order of the file.
pub fn book_positions(text: &str) -> (r: Vec<String>)
    ensures
        string_views(r@) == spec_book_positions(text@),
{
    let n = text.unicode_len();
    let mut out: Vec<String> = Vec::new();
    let mut line = String::new();
    let mut i: usize = 0;
    proof {
        assert(text@.take(0) =~= Seq::<char>::empty());
        assert(line@ =~= Seq::<char>::empty());
        assert(string_views(out@) =~= Seq::<Seq<char>>::empty());
    }
    while i < n
        invariant
            n == text@.len(),
            i <= n,
            line_pieces(text@.take(i as int)).len() >= 1,
            line@ == line_pieces(text@.take(i as int)).last(),
            string_views(out@) == positions_of(line_pieces(text@.take(i as int)).drop_last()),
        decreases n - i,
    {
        let c = text.get_char(i);
        let ghost before = text@.take(i as int);
        let ghost after = text@.take(i as int + 1);
        proof {
            assert(after.drop_last() =~= before);
            assert(after.last() == c);
            lemma_line_pieces_nonempty(after);
        }
        let ghost p = line_pieces(before);
        if c == '\n' {
            push_position(&mut out, &line);
            line = String::new();
            proof {
                assert(line_pieces(after) == p.push(Seq::<char>::empty()));
                assert(line_pieces(after).drop_last() =~= p);
                assert(p.drop_last().push(p.last()) =~= p);
                assert(line@ =~= Seq::<char>::empty());
            }
        } else {
            push_char(&mut line, c);
            proof {
                let q = line_pieces(after);
                assert(q == p.update(p.len() - 1, p.last().push(c)));
                assert(q.drop_last() =~= p.drop_last());
            }
        }
        i = i + 1;
    }
    push_position(&mut out, &line);
    proof {
        let p = line_pieces(text@.take(n as int));
        assert(text@.take(n as int) =~= text@);
        assert(p.drop_last().push(p.last()) =~= p);
    }
    out
}

/// Shuffles `v` with `rng` (`SliceRandom::shuffle`): the same strings, in an
/// order that depends on the state of `rng`. What the order is, is not
/// stated.
#[verifier::external_body]
fn shuffle_strings(v: &mut Vec<String>, rng: &mut ChaCha8Rng)
    ensures
        final(v)@.len() == old(v)@.len(),
        string_views(final(v)@).to_multiset() == string_views(old(v)@).to_multiset(),
{
    v.shuffle(rng);
}

/// The openings of a book file, shuffled with `rng` when `random_order`;
/// `None` when the file holds no position.
pub fn book_openings(text: &str, random_order: bool, rng: &mut ChaCha8Rng) -> (r: Option<Vec<String>>)
    ensures
        r is None <==> spec_book_positions(text@).len() == 0,
        r matches Some(v) ==> string_views(v@).to_multiset() == spec_book_positions(text@).to_multiset(),
        r matches Some(v) ==> !random_order ==> string_views(v@) == spec_book_positions(text@),
{
    let mut openings = book_positions(text);
    if openings.len() == 0 {
        return None;
    }
    if random_order {
        shuffle_strings(&mut openings, rng);
    }
    Some(openings)
}

} // verus!
