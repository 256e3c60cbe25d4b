//! Facts about the single bits of a 128-bit word, and about the set of the
//! positions at which a word holds a one.

use vstd::prelude::*;

verus! {

/// Whether bit `i` of `word` is one. Positions from 128 on hold no bit.
pub open spec fn bit_at(word: u128, i: nat) -> bool {
    i < 128 && (word >> (i as u8)) & 1 == 1
}

/// The positions at which `word` holds a one.
pub open spec fn members(word: u128) -> Set<nat> {
    Set::new(|i: nat| bit_at(word, i))
}

/// The number of ones that `word` holds at the positions below `n`.
pub open spec fn ones_below(word: u128, n: nat) -> nat
    decreases n,
{
    if n == 0 {
        0
    } else {
        ones_below(word, (n - 1) as nat) + if bit_at(word, (n - 1) as nat) {
            1nat
        } else {
            0nat
        }
    }
}

/// The positions below `n` at which `word` holds a one.
pub open spec fn members_below(word: u128, n: nat) -> Set<nat> {
    Set::new(|i: nat| i < n && bit_at(word, i))
}

/// The zero word holds no one.
pub proof fn lemma_zero_word()
    ensures
        members(0) == Set::<nat>::empty(),
{
    assert forall|i: nat| !bit_at(0, i) by {
        if i < 128 {
            let j = i as u8;
            assert((0u128 >> j) & 1 != 1) by (bit_vector);
        }
    }
    assert(members(0) =~= Set::<nat>::empty());
}

/// Or-ing in the mask of position `e` makes `e` a member and leaves every
/// other position as it was.
pub proof fn lemma_set_bit(word: u128, e: u8)
    requires
        e < 128,
    ensures
        members(word | (1u128 << e)) == members(word).insert(e as nat),
{
    let after = word | (1u128 << e);
    assert forall|i: nat| bit_at(after, i) == (i == e || bit_at(word, i)) by {
        if i < 128 {
            let j = i as u8;
            assert(((word | (1u128 << e)) >> j) & 1 == 1 <==> (j == e || (word >> j) & 1 == 1))
                by (bit_vector)
                requires
                    e < 128,
                    j < 128,
            ;
        }
    }
    assert(members(after) =~= members(word).insert(e as nat));
}

/// And-ing with the complement of the mask of position `e` takes `e` out and
/// leaves every other position as it was.
pub proof fn lemma_clear_bit(word: u128, e: u8)
    requires
        e < 128,
    ensures
        members(word & !(1u128 << e)) == members(word).remove(e as nat),
{
    let after = word & !(1u128 << e);
    assert forall|i: nat| bit_at(after, i) == (i != e && bit_at(word, i)) by {
        if i < 128 {
            let j = i as u8;
            assert(((word & !(1u128 << e)) >> j) & 1 == 1 <==> (j != e && (word >> j) & 1 == 1))
                by (bit_vector)
                requires
                    e < 128,
                    j < 128,
            ;
        }
    }
    assert(members(after) =~= members(word).remove(e as nat));
}

/// The positions below `n` that hold a one are as many as `ones_below` counts.
pub proof fn lemma_ones_below_counts(word: u128, n: nat)
    ensures
        members_below(word, n).finite(),
        members_below(word, n).len() == ones_below(word, n),
    decreases n,
{
    if n == 0 {
        assert(members_below(word, n) =~= Set::<nat>::empty());
    } else {
        let m = (n - 1) as nat;
        lemma_ones_below_counts(word, m);
        if bit_at(word, m) {
            assert(members_below(word, n) =~= members_below(word, m).insert(m));
        } else {
            assert(members_below(word, n) =~= members_below(word, m));
        }
    }
}

/// A word holds finitely many ones, as many as `ones_below` counts over all
/// of its positions.
pub proof fn lemma_members_count(word: u128)
    ensures
        members(word).finite(),
        members(word).len() == ones_below(word, 128),
{
    lemma_ones_below_counts(word, 128);
    assert(members(word) =~= members_below(word, 128));
}

/// A position at which two different words differ.
proof fn lemma_differing_bit(a: u128, b: u128) -> (i: nat)
    requires
        a != b,
    ensures
        i < 128,
        bit_at(a, i) != bit_at(b, i),
    decreases a + b,
{
    if a & 1 != b & 1 {
        assert(((a >> 0u8) & 1 == 1) != ((b >> 0u8) & 1 == 1)) by (bit_vector)
            requires
                a & 1 != b & 1,
        ;
        0
    } else {
        let a1 = a >> 1u8;
        let b1 = b >> 1u8;
        assert(a1 != b1 && a1 + b1 < a + b) by (bit_vector)
            requires
                a != b,
                a & 1 == b & 1,
                a1 == a >> 1u8,
                b1 == b >> 1u8,
        ;
        let i = lemma_differing_bit(a1, b1);
        let j = i as u8;
        let k = (i + 1) as u8;
        assert(k < 128 && ((a >> k) & 1 == 1) != ((b >> k) & 1 == 1)) by (bit_vector)
            requires
                j < 128,
                k == j + 1,
                a1 == a >> 1u8,
                b1 == b >> 1u8,
                ((a1 >> j) & 1 == 1) != ((b1 >> j) & 1 == 1),
        ;
        i + 1
    }
}

/// Two words that hold their ones at the same positions are the same word.
pub proof fn lemma_members_injective(a: u128, b: u128)
    requires
        members(a) == members(b),
    ensures
        a == b,
{
    if a != b {
        let i = lemma_differing_bit(a, b);
        assert(members(a).contains(i) == bit_at(a, i));
        assert(members(b).contains(i) == bit_at(b, i));
    }
}

} // verus!
