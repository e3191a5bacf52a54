//! Splitting text at a separator and joining it again.

use vstd::prelude::*;
use vstd::string::StrSliceExecFns;
use vstd::string::StringExecFns;

verus! {

/// The texts that a list of strings holds.
pub open spec fn texts(strings: Seq<String>) -> Seq<Seq<char>> {
    Seq::new(strings.len(), |i: int| strings[i]@)
}

/// The pieces of `s` between occurrences of `sep`: one more piece than there
/// are separators, so that the empty text has the one piece that is empty.
pub open spec fn split_on(s: Seq<char>, sep: char) -> Seq<Seq<char>>
    decreases s.len(),
{
    if s.len() == 0 {
        seq![Seq::<char>::empty()]
    } else {
        let before = split_on(s.drop_last(), sep);
        if s.last() == sep {
            before.push(Seq::<char>::empty())
        } else {
            before.drop_last().push(before.last().push(s.last()))
        }
    }
}

/// A split always has a piece.
pub proof fn lemma_split_nonempty(s: Seq<char>, sep: char)
    ensures
        split_on(s, sep).len() >= 1,
    decreases s.len(),
{
    if s.len() > 0 {
        lemma_split_nonempty(s.drop_last(), sep);
    }
}

/// The pieces with `sep` between each two of them.
pub open spec fn join(pieces: Seq<Seq<char>>, sep: Seq<char>) -> Seq<char>
    decreases pieces.len(),
{
    if pieces.len() == 0 {
        Seq::<char>::empty()
    } else if pieces.len() == 1 {
        pieces[0]
    } else {
        join(pieces.drop_last(), sep) + sep + pieces.last()
    }
}

/// Splitting loses nothing: no piece holds the separator, and the pieces
/// joined by the separator are the text again.
pub proof fn lemma_split_round_trip(s: Seq<char>, sep: char)
    ensures
        split_on(s, sep).len() >= 1,
        forall|i: int|
            0 <= i < split_on(s, sep).len() ==> !(#[trigger] split_on(s, sep)[i]).contains(sep),
        join(split_on(s, sep), seq![sep]) == s,
    decreases s.len(),
{
    let pieces = split_on(s, sep);
    let by = seq![sep];
    if s.len() == 0 {
        assert(pieces[0] =~= s);
    } else {
        let front = s.drop_last();
        let before = split_on(front, sep);
        lemma_split_round_trip(front, sep);
        assert(s =~= front.push(s.last()));
        if s.last() == sep {
            assert(pieces.drop_last() =~= before);
            assert(join(pieces, by) =~= join(before, by) + by + Seq::<char>::empty());
            assert(join(pieces, by) =~= s);
        } else {
            let grown = before.last().push(s.last());
            assert(pieces.last() == grown);
            assert forall|i: int| 0 <= i < pieces.len() implies !(#[trigger] pieces[i]).contains(
                sep,
            ) by {
                if i < pieces.len() - 1 {
                    assert(pieces[i] == before[i]);
                } else {
                    assert(!before[i].contains(sep));
                    if grown.contains(sep) {
                        let k = choose|k: int| 0 <= k < grown.len() && grown[k] == sep;
                        if k < before[i].len() {
                            assert(before[i][k] == sep);
                        }
                    }
                }
            }
            if before.len() == 1 {
                assert(join(before, by) == before[0]);
                assert(join(pieces, by) =~= join(before, by).push(s.last()));
            } else {
                assert(pieces.drop_last() =~= before.drop_last());
                assert(join(pieces, by) =~= (join(before.drop_last(), by) + by + before.last()).push(
                    s.last(),
                ));
            }
            assert(join(pieces, by) =~= s);
        }
    }
}

/// Splits `s` at every `sep`.
pub fn split(s: &str, sep: char) -> (pieces: Vec<String>)
    ensures
        texts(pieces@) == split_on(s@, sep),
{
    let n: usize = s.unicode_len();
    let mut pieces: Vec<String> = Vec::new();
    let mut start: usize = 0;
    let mut i: usize = 0;
    proof {
        assert(s@.take(0).len() == 0);
        assert(s@.subrange(0, 0) =~= Seq::<char>::empty());
        assert(texts(pieces@).push(s@.subrange(0, 0)) =~= seq![Seq::<char>::empty()]);
    }
    while i < n
        invariant
            n == s@.len(),
            start <= i <= n,
            split_on(s@.take(i as int), sep) == texts(pieces@).push(
                s@.subrange(start as int, i as int),
            ),
        decreases n - i,
    {
        let c: char = s.get_char(i);
        let ghost before = split_on(s@.take(i as int), sep);
        proof {
            assert(s@.take(i + 1).drop_last() =~= s@.take(i as int));
            assert(s@.take(i + 1).last() == c);
            assert(before.last() == s@.subrange(start as int, i as int));
            assert(before.drop_last() =~= texts(pieces@));
        }
        if c == sep {
            let piece = String::from_str(s.substring_char(start, i));
            let ghost old_pieces = pieces@;
            pieces.push(piece);
            start = i + 1;
            proof {
                assert(texts(pieces@) =~= texts(old_pieces).push(piece@));
                assert(s@.subrange(start as int, i + 1) =~= Seq::<char>::empty());
            }
        } else {
            proof {
                assert(s@.subrange(start as int, i as int).push(c) =~= s@.subrange(
                    start as int,
                    i + 1,
                ));
            }
        }
        i = i + 1;
    }
    let piece = String::from_str(s.substring_char(start, n));
    let ghost old_pieces = pieces@;
    pieces.push(piece);
    proof {
        assert(s@.take(n as int) =~= s@);
        assert(texts(pieces@) =~= texts(old_pieces).push(piece@));
    }
    pieces
}

} // verus!
