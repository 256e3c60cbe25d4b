//! The bit set itself: one 128-bit word and a capacity.

use vstd::prelude::*;
use crate::bits::{
    lemma_clear_bit, lemma_members_count, lemma_set_bit, lemma_zero_word, members, ones_below,
};
use crate::error::BitSetError;
use crate::laws::{law_operations_keep_well_formed, law_size_at_most_capacity};
use crate::model::{SetModel, MAX_CAPACITY};

verus! {

/// A set of the integers below a capacity of at most 128, kept as the bits
/// of one word: bit `i` is one exactly when `i` is a member.
pub struct BitSet {
    data: u128,
    capacity: u8,
}

impl View for BitSet {
    type V = SetModel;

    /// The members are the positions of the one bits of the word.
    open spec fn view(&self) -> SetModel {
        SetModel { members: members(self.data()), capacity: self.capacity() as nat }
    }
}

impl BitSet {
    /// The backing word.
    pub closed spec fn data(&self) -> u128 {
        self.data
    }

    /// The capacity the set was made with.
    pub closed spec fn spec_capacity(&self) -> u8 {
        self.capacity
    }

    /// Holds of every set at all times: the capacity is at most 128 and no
    /// bit at or above the capacity is one.
    #[verifier::type_invariant]
    pub open spec fn wf(&self) -> bool {
        self@.wf()
    }

    /// Makes the empty set of capacity `size`. A capacity above 128 is none
    /// that a set can have: the word has no positions for it.
    pub fn new(size: u8) -> (s: Self)
        requires
            size <= MAX_CAPACITY,
        ensures
            s@ == SetModel::empty(size as nat),
            s.data() == 0,
            s.wf(),
    {
        let data: u128 = 0;
        proof {
            lemma_zero_word();
        }
        BitSet { data, capacity: size }
    }

    /// Returns the capacity: the exclusive upper bound of the elements the
    /// set may hold. It never changes.
    #[verifier::when_used_as_spec(spec_capacity)]
    pub fn capacity(&self) -> (c: u8)
        ensures
            c == self.capacity(),
    {
        self.capacity
    }

    /// Returns the number of members, counted as the one bits of the whole
    /// word. It is never more than the capacity.
    pub fn size(&self) -> (ones: u8)
        ensures
            self@.members.finite(),
            ones as nat == self@.size(),
            ones <= self.capacity(),
    {
        let mut ones: u8 = 0;
        let mut i: u8 = 0;
        while i < MAX_CAPACITY
            invariant
                i <= MAX_CAPACITY,
                ones <= i,
                ones as nat == ones_below(self.data, i as nat),
            decreases MAX_CAPACITY - i,
        {
            if (self.data >> i) & 1u128 == 1u128 {
                ones += 1;
            }
            i += 1;
        }
        proof {
            use_type_invariant(self);
            lemma_members_count(self.data);
            law_size_at_most_capacity(self@);
        }
        ones
    }

    /// Says whether `num` lies inside the domain of the set: below 128 and
    /// below the capacity.
    fn is_valid(&self, num: &u8) -> (r: Result<(), BitSetError>)
        ensures
            r == self@.validity(*num as nat),
    {
        let _num: u8 = *num;
        if _num >= MAX_CAPACITY || _num >= self.capacity {
            return Err(BitSetError::OutOfRange);
        }
        Ok(())
    }

    /// Returns the backing word: bit `i` is one exactly when `i` is a member.
    pub fn get_data(&self) -> (word: &u128)
        ensures
            *word == self.data(),
    {
        &self.data
    }

    /// Tells whether `num` is a member, or fails with `OutOfRange` when `num`
    /// lies outside the domain. The set is not changed.
    pub fn has(&self, num: &u8) -> (r: Result<bool, BitSetError>)
        ensures
            r == self@.has(*num as nat),
    {
        self.is_valid(num)?;

        let mut _data: u128 = self.data;
        let mask: u128 = 1u128;
        _data >>= *num;

        Ok(_data & mask == 1u128)
    }

    /// Adds `num` to the set, or fails with `OutOfRange` when `num` lies
    /// outside the domain. Adding a member again succeeds and changes nothing.
    pub fn add(&mut self, num: &u8) -> (r: Result<(), BitSetError>)
        ensures
            r == old(self)@.add_result(*num as nat),
            final(self)@ == old(self)@.after_add(*num as nat),
            final(self).data() == (if r is Ok {
                old(self).data() | (1u128 << *num)
            } else {
                old(self).data()
            }),
            final(self).wf(),
    {
        proof {
            use_type_invariant(&*self);
        }
        self.is_valid(num)?;

        let mut mask: u128 = 1u128;
        mask <<= *num;

        proof {
            lemma_set_bit(self.data, *num);
            law_operations_keep_well_formed(self@, *num as nat);
        }
        self.data |= mask;

        Ok(())
    }

    /// Removes `num` from the set. Fails with `OutOfRange` when `num` lies
    /// outside the domain, and with `ElementNotFound` when it lies inside but
    /// is not a member; the set is then left as it was.
    pub fn remove(&mut self, num: &u8) -> (r: Result<(), BitSetError>)
        ensures
            r == old(self)@.remove_result(*num as nat),
            final(self)@ == old(self)@.after_remove(*num as nat),
            final(self).data() == (if r is Ok {
                old(self).data() & !(1u128 << *num)
            } else {
                old(self).data()
            }),
            final(self).wf(),
    {
        proof {
            use_type_invariant(&*self);
        }
        self.is_valid(num)?;
        if !self.has(num)? {
            return Err(BitSetError::ElementNotFound);
        }
        let mut mask: u128 = 1u128;
        mask <<= *num;
        mask = !mask;

        proof {
            lemma_clear_bit(self.data, *num);
        }
        self.data &= mask;

        Ok(())
    }

    /// Renders the set for diagnostics: between brackets, one digit for each
    /// position below the capacity, the highest position first, `1` for a
    /// member and `0` for any other.
    pub fn debug_string(&self) -> (out: String)
        ensures
            out@ == self@.rendering(),
    {
        proof {
            use_type_invariant(self);
            reveal_strlit("[");
            reveal_strlit("]");
            reveal_strlit("0");
            reveal_strlit("1");
        }
        let mut out = String::new();
        out.append("[");
        let mut i: u8 = self.capacity;
        while i > 0
            invariant
                i <= self.capacity <= MAX_CAPACITY,
                "0"@ == seq!['0'],
                "1"@ == seq!['1'],
                out@ == seq!['['] + Seq::new(
                    (self.capacity - i) as nat,
                    |k: int| self@.digit((self.capacity - 1 - k) as nat),
                ),
            decreases i,
        {
            let ghost before = out@;
            i -= 1;
            if (self.data >> i) & 1u128 == 1u128 {
                out.append("1");
            } else {
                out.append("0");
            }
            assert(out@ == before.push(self@.digit(i as nat)));
            assert(out@ =~= seq!['['] + Seq::new(
                (self.capacity - i) as nat,
                |k: int| self@.digit((self.capacity - 1 - k) as nat),
            ));
        }
        out.append("]");
        assert(out@ =~= self@.rendering());
        out
    }
}

} // verus!
