//! Counting bombs in a sequence of tiles, and the facts about that count the
//! board engine relies on.

use vstd::prelude::*;
use crate::tile::Tile;

verus! {

/// One if the tile is a bomb, zero otherwise.
pub open spec fn bomb_tally(t: Tile) -> int {
    if t is Bomb {
        1
    } else {
        0
    }
}

/// How many tiles of `s` are bombs.
pub open spec fn count_bombs(s: Seq<Tile>) -> int
    decreases s.len(),
{
    if s.len() == 0 {
        0
    } else {
        count_bombs(s.drop_last()) + bomb_tally(s.last())
    }
}

/// The bomb count of a sequence lies between zero and its length.
pub proof fn lemma_count_bombs_bounds(s: Seq<Tile>)
    ensures
        0 <= count_bombs(s) <= s.len(),
    decreases s.len(),
{
    if s.len() > 0 {
        lemma_count_bombs_bounds(s.drop_last());
    }
}

/// A sequence without bombs counts zero.
pub proof fn lemma_count_bombs_zero(s: Seq<Tile>)
    requires
        forall|i: int| 0 <= i < s.len() ==> !(#[trigger] s[i] is Bomb),
    ensures
        count_bombs(s) == 0,
    decreases s.len(),
{
    if s.len() > 0 {
        assert(forall|i: int| 0 <= i < s.drop_last().len() ==> #[trigger] s.drop_last()[i] == s[i]);
        lemma_count_bombs_zero(s.drop_last());
        assert(!(s.last() is Bomb));
    }
}

/// A sequence whose bomb count equals its length holds bombs everywhere.
pub proof fn lemma_count_bombs_full(s: Seq<Tile>)
    requires
        count_bombs(s) == s.len(),
    ensures
        forall|i: int| 0 <= i < s.len() ==> #[trigger] s[i] is Bomb,
    decreases s.len(),
{
    if s.len() > 0 {
        lemma_count_bombs_bounds(s.drop_last());
        lemma_count_bombs_full(s.drop_last());
        assert forall|i: int| 0 <= i < s.len() implies #[trigger] s[i] is Bomb by {
            if i < s.len() - 1 {
                assert(s.drop_last()[i] is Bomb);
            } else {
                assert(s[i] == s.last());
            }
        }
    }
}

/// Replacing one tile adjusts the count by the difference of the tallies.
pub proof fn lemma_count_bombs_update(s: Seq<Tile>, i: int, t: Tile)
    requires
        0 <= i < s.len(),
    ensures
        count_bombs(s.update(i, t)) == count_bombs(s) - bomb_tally(s[i]) + bomb_tally(t),
    decreases s.len(),
{
    let su = s.update(i, t);
    if i == s.len() - 1 {
        assert(su.drop_last() =~= s.drop_last());
        assert(su.last() == t);
    } else {
        assert(su.drop_last() =~= s.drop_last().update(i, t));
        assert(su.last() == s.last());
        lemma_count_bombs_update(s.drop_last(), i, t);
        assert(s.drop_last()[i] == s[i]);
    }
}

/// Extending a prefix by one tile adds that tile's tally.
pub proof fn lemma_count_bombs_take_step(s: Seq<Tile>, i: int)
    requires
        0 <= i < s.len(),
    ensures
        count_bombs(s.take(i + 1)) == count_bombs(s.take(i)) + bomb_tally(s[i]),
{
    assert(s.take(i + 1).drop_last() =~= s.take(i));
    assert(s.take(i + 1).last() == s[i]);
}

/// The full prefix counts the same as the sequence itself.
pub proof fn lemma_count_bombs_take_all(s: Seq<Tile>)
    ensures
        count_bombs(s.take(s.len() as int)) == count_bombs(s),
{
    assert(s.take(s.len() as int) =~= s);
}

/// Two sequences that agree on where the bombs sit have the same count.
pub proof fn lemma_count_bombs_pointwise(s1: Seq<Tile>, s2: Seq<Tile>)
    requires
        s1.len() == s2.len(),
        forall|i: int| 0 <= i < s1.len() ==> ((#[trigger] s1[i] is Bomb) <==> (#[trigger] s2[i] is Bomb)),
    ensures
        count_bombs(s1) == count_bombs(s2),
    decreases s1.len(),
{
    if s1.len() > 0 {
        assert forall|i: int|
            0 <= i < s1.drop_last().len() implies ((#[trigger] s1.drop_last()[i] is Bomb) <==> (
        #[trigger] s2.drop_last()[i] is Bomb)) by {
            assert(s1.drop_last()[i] == s1[i]);
            assert(s2.drop_last()[i] == s2[i]);
        }
        lemma_count_bombs_pointwise(s1.drop_last(), s2.drop_last());
        assert(s1.last() == s1[s1.len() - 1]);
        assert(s2.last() == s2[s2.len() - 1]);
    }
}

} // verus!
