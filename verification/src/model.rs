//! The mathematical model of a bit set: a set of natural numbers together
//! with the bound below which its elements must lie.

use vstd::prelude::*;
use crate::error::BitSetError;

verus! {

/// The number of bit positions of the backing word, and so the largest
/// capacity a set can have.
pub const MAX_CAPACITY: u8 = 128;

/// What a bit set stands for.
pub ghost struct SetModel {
    /// The elements that are in the set.
    pub members: Set<nat>,
    /// The exclusive upper bound of the elements the set may hold.
    pub capacity: nat,
}

impl SetModel {
    /// The capacity fits the backing word and every member lies below it.
    pub open spec fn wf(self) -> bool {
        &&& self.capacity <= MAX_CAPACITY
        &&& forall|e: nat| self.members.contains(e) ==> e < self.capacity
    }

    /// The set of the given capacity that has no members.
    pub open spec fn empty(capacity: nat) -> SetModel {
        SetModel { members: Set::empty(), capacity }
    }

    /// Whether `e` lies inside the domain of the set: below the capacity, and
    /// below the width of the backing word whatever the capacity says.
    pub open spec fn admits(self, e: nat) -> bool {
        e < MAX_CAPACITY && e < self.capacity
    }

    /// What validating `e` answers.
    pub open spec fn validity(self, e: nat) -> Result<(), BitSetError> {
        if self.admits(e) {
            Ok(())
        } else {
            Err(BitSetError::OutOfRange)
        }
    }

    /// What a membership query for `e` answers.
    pub open spec fn has(self, e: nat) -> Result<bool, BitSetError> {
        if self.admits(e) {
            Ok(self.members.contains(e))
        } else {
            Err(BitSetError::OutOfRange)
        }
    }

    /// What adding `e` answers: it succeeds whenever `e` is admitted, whether
    /// or not `e` is a member already.
    pub open spec fn add_result(self, e: nat) -> Result<(), BitSetError> {
        self.validity(e)
    }

    /// The set that adding `e` leaves behind.
    pub open spec fn after_add(self, e: nat) -> SetModel {
        if self.admits(e) {
            SetModel { members: self.members.insert(e), capacity: self.capacity }
        } else {
            self
        }
    }

    /// What removing `e` answers: it succeeds only when `e` is admitted and
    /// is a member.
    pub open spec fn remove_result(self, e: nat) -> Result<(), BitSetError> {
        if !self.admits(e) {
            Err(BitSetError::OutOfRange)
        } else if !self.members.contains(e) {
            Err(BitSetError::ElementNotFound)
        } else {
            Ok(())
        }
    }

    /// The set that removing `e` leaves behind.
    pub open spec fn after_remove(self, e: nat) -> SetModel {
        if self.remove_result(e) is Ok {
            SetModel { members: self.members.remove(e), capacity: self.capacity }
        } else {
            self
        }
    }

    /// The number of members.
    pub open spec fn size(self) -> nat {
        self.members.len()
    }

    /// The character that stands for position `e` in the rendering.
    pub open spec fn digit(self, e: nat) -> char {
        if self.members.contains(e) {
            '1'
        } else {
            '0'
        }
    }

    /// The diagnostic rendering: between brackets, one digit for each position
    /// below the capacity, the highest position first.
    pub open spec fn rendering(self) -> Seq<char> {
        seq!['['] + Seq::new(self.capacity, |k: int| self.digit((self.capacity - 1 - k) as nat))
            + seq![']']
    }
}

} // verus!
