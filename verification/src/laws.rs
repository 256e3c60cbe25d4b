//! What holds of every bit set, whatever was done to it. The laws are proved
//! of the model in which the operations of the set state what they do, so
//! each of them holds of the sets themselves.

use vstd::prelude::*;
use vstd::set_lib::lemma_len_subset;
use crate::bits::{bit_at, lemma_members_injective};
use crate::error::BitSetError;
use crate::model::{SetModel, MAX_CAPACITY};
use crate::set::BitSet;

verus! {

/// The natural numbers below `n`.
spec fn below(n: nat) -> Set<nat> {
    Set::new(|i: nat| i < n)
}

/// There are `n` natural numbers below `n`.
proof fn lemma_below_len(n: nat)
    ensures
        below(n).finite(),
        below(n).len() == n,
    decreases n,
{
    if n == 0 {
        assert(below(n) =~= Set::<nat>::empty());
    } else {
        let m = (n - 1) as nat;
        lemma_below_len(m);
        assert(below(n) =~= below(m).insert(m));
    }
}

/// A set whose members all lie below its capacity has finitely many of them,
/// and no more than its capacity.
pub proof fn law_size_at_most_capacity(s: SetModel)
    requires
        s.wf(),
    ensures
        s.members.finite(),
        s.size() <= s.capacity,
{
    lemma_below_len(s.capacity);
    assert(s.members.subset_of(below(s.capacity)));
    lemma_len_subset(s.members, below(s.capacity));
}

/// The empty set of a capacity up to 128 is well formed and has size zero.
pub proof fn law_empty_is_well_formed(capacity: nat)
    requires
        capacity <= MAX_CAPACITY,
    ensures
        SetModel::empty(capacity).wf(),
        SetModel::empty(capacity).size() == 0,
{
}

/// Adding and removing keep a set well formed and never change its capacity,
/// whether they succeed or fail.
pub proof fn law_operations_keep_well_formed(s: SetModel, e: nat)
    requires
        s.wf(),
    ensures
        s.after_add(e).wf(),
        s.after_add(e).capacity == s.capacity,
        s.after_remove(e).wf(),
        s.after_remove(e).capacity == s.capacity,
{
}

/// A freshly made set of capacity `c` has no element `e` below `c` as a
/// member; after `e` is added to it, `e` is a member.
pub proof fn law_fresh_then_add(c: nat, e: nat)
    requires
        c <= MAX_CAPACITY,
        e < c,
    ensures
        SetModel::empty(c).has(e) == Ok::<bool, BitSetError>(false),
        SetModel::empty(c).add_result(e) == Ok::<(), BitSetError>(()),
        SetModel::empty(c).after_add(e).has(e) == Ok::<bool, BitSetError>(true),
{
}

/// Whatever a set holds, adding an element below its capacity succeeds and
/// makes the element a member.
pub proof fn law_add_then_has(s: SetModel, e: nat)
    requires
        s.wf(),
        e < s.capacity,
    ensures
        s.add_result(e) == Ok::<(), BitSetError>(()),
        s.after_add(e).has(e) == Ok::<bool, BitSetError>(true),
{
}

/// Adding an element below the capacity and then removing it succeeds both
/// times, and the element is no member afterwards.
pub proof fn law_add_then_remove(s: SetModel, e: nat)
    requires
        s.wf(),
        e < s.capacity,
    ensures
        s.add_result(e) == Ok::<(), BitSetError>(()),
        s.after_add(e).remove_result(e) == Ok::<(), BitSetError>(()),
        s.after_add(e).after_remove(e).has(e) == Ok::<bool, BitSetError>(false),
{
}

/// Removing an element that lies inside the domain but is no member fails
/// with `ElementNotFound` and leaves the set as it was.
pub proof fn law_remove_absent(s: SetModel, e: nat)
    requires
        s.admits(e),
        !s.members.contains(e),
    ensures
        s.remove_result(e) == Err::<(), BitSetError>(BitSetError::ElementNotFound),
        s.after_remove(e) == s,
{
}

/// An element at or above the capacity, or at or above 128, is turned down
/// by every operation with `OutOfRange`, and the set is left as it was.
pub proof fn law_out_of_range(s: SetModel, e: nat)
    requires
        e >= s.capacity || e >= MAX_CAPACITY,
    ensures
        s.validity(e) == Err::<(), BitSetError>(BitSetError::OutOfRange),
        s.has(e) == Err::<bool, BitSetError>(BitSetError::OutOfRange),
        s.add_result(e) == Err::<(), BitSetError>(BitSetError::OutOfRange),
        s.remove_result(e) == Err::<(), BitSetError>(BitSetError::OutOfRange),
        s.after_add(e) == s,
        s.after_remove(e) == s,
{
}

/// Adding is idempotent: a second `add` of the same element answers as the
/// first did and leaves the set that the first left.
pub proof fn law_add_idempotent(s: SetModel, e: nat)
    ensures
        s.after_add(e).add_result(e) == s.add_result(e),
        s.after_add(e).after_add(e) == s.after_add(e),
{
    if s.admits(e) {
        assert(s.members.insert(e).insert(e) =~= s.members.insert(e));
    }
}

/// A successful `add` of an element that was absent makes the set one
/// larger; every other `add` leaves its size as it was.
pub proof fn law_size_after_add(s: SetModel, e: nat)
    requires
        s.members.finite(),
    ensures
        s.after_add(e).members.finite(),
        s.after_add(e).size() == s.size() + (if s.admits(e) && !s.members.contains(e) {
            1nat
        } else {
            0nat
        }),
{
    if s.admits(e) && s.members.contains(e) {
        assert(s.members.insert(e) =~= s.members);
    }
}

/// A successful `remove` makes the set one smaller; a failed one leaves its
/// size as it was.
pub proof fn law_size_after_remove(s: SetModel, e: nat)
    requires
        s.members.finite(),
    ensures
        s.after_remove(e).members.finite(),
        s.after_remove(e).size() == s.size() - (if s.remove_result(e) is Ok {
            1nat
        } else {
            0nat
        }),
{
}

/// One call that may change a set.
pub ghost enum Call {
    /// A call of `add` with this element.
    Add(nat),
    /// A call of `remove` with this element.
    Remove(nat),
}

/// The set that the call leaves behind.
pub open spec fn step(s: SetModel, call: Call) -> SetModel {
    match call {
        Call::Add(e) => s.after_add(e),
        Call::Remove(e) => s.after_remove(e),
    }
}

/// What the call counts for in the number of members: one up for an `add`
/// that succeeds on an element that was absent, one down for a `remove` that
/// succeeds, nothing for any other call.
pub open spec fn gain(s: SetModel, call: Call) -> int {
    match call {
        Call::Add(e) => if s.add_result(e) is Ok && !s.members.contains(e) {
            1
        } else {
            0
        },
        Call::Remove(e) => if s.remove_result(e) is Ok {
            -1
        } else {
            0
        },
    }
}

/// The set that the calls leave behind, made one after the other.
pub open spec fn run(s: SetModel, calls: Seq<Call>) -> SetModel
    decreases calls.len(),
{
    if calls.len() == 0 {
        s
    } else {
        step(run(s, calls.drop_last()), calls.last())
    }
}

/// What the calls count for together, each taken on the set it was made on.
pub open spec fn net_gain(s: SetModel, calls: Seq<Call>) -> int
    decreases calls.len(),
{
    if calls.len() == 0 {
        0
    } else {
        net_gain(s, calls.drop_last()) + gain(run(s, calls.drop_last()), calls.last())
    }
}

/// Whatever calls are made on a well-formed set, it stays well formed, keeps
/// its capacity, and its size changes by what the calls count for together.
pub proof fn law_size_follows_calls(s: SetModel, calls: Seq<Call>)
    requires
        s.wf(),
    ensures
        run(s, calls).wf(),
        run(s, calls).capacity == s.capacity,
        run(s, calls).size() == s.size() + net_gain(s, calls),
    decreases calls.len(),
{
    if calls.len() > 0 {
        let before = run(s, calls.drop_last());
        law_size_follows_calls(s, calls.drop_last());
        law_size_at_most_capacity(before);
        match calls.last() {
            Call::Add(e) => {
                law_size_after_add(before, e);
            },
            Call::Remove(e) => {
                law_size_after_remove(before, e);
            },
        }
    }
}

/// The size of a set is the number of elements added to it with success
/// while they were absent, less the number removed from it with success,
/// over all the calls made on it since it was made empty.
pub proof fn law_size_is_net_gain(c: nat, calls: Seq<Call>)
    requires
        c <= MAX_CAPACITY,
    ensures
        run(SetModel::empty(c), calls).size() == net_gain(SetModel::empty(c), calls),
{
    law_size_follows_calls(SetModel::empty(c), calls);
}

/// An element that no call has added since the set was made empty is no
/// member, so removing it fails: with `ElementNotFound` when it lies inside
/// the domain, with `OutOfRange` when it does not.
pub proof fn law_never_added_is_absent(c: nat, calls: Seq<Call>, e: nat)
    requires
        forall|i: int| 0 <= i < calls.len() ==> calls[i] != Call::Add(e),
    ensures
        !run(SetModel::empty(c), calls).members.contains(e),
        run(SetModel::empty(c), calls).remove_result(e) == Err::<(), BitSetError>(
            if run(SetModel::empty(c), calls).admits(e) {
                BitSetError::ElementNotFound
            } else {
                BitSetError::OutOfRange
            },
        ),
        run(SetModel::empty(c), calls).after_remove(e) == run(SetModel::empty(c), calls),
    decreases calls.len(),
{
    if calls.len() > 0 {
        law_never_added_is_absent(c, calls.drop_last(), e);
        assert(calls.last() == calls[calls.len() - 1]);
    }
}

/// In a well-formed set no bit of the word at or above the capacity is one.
pub proof fn law_no_bit_above_capacity(s: BitSet, i: nat)
    requires
        s.wf(),
        i >= s.capacity(),
    ensures
        !bit_at(s.data(), i),
{
    assert(s@.members.contains(i) == bit_at(s.data(), i));
}

/// Two sets that stand for the same model hold the same word and have the
/// same capacity.
pub proof fn law_view_determines_data(a: BitSet, b: BitSet)
    requires
        a@ == b@,
    ensures
        a.data() == b.data(),
        a.capacity() == b.capacity(),
{
    lemma_members_injective(a.data(), b.data());
}

/// Calling `add` twice with the same element leaves the same word as calling
/// it once: if `once` is what one call makes of `start`, and `twice` what a
/// second call makes of `once`, the two hold the same word.
pub proof fn law_add_twice_same_data(start: BitSet, once: BitSet, twice: BitSet, e: u8)
    requires
        once@ == start@.after_add(e as nat),
        twice@ == once@.after_add(e as nat),
    ensures
        twice@ == once@,
        twice.data() == once.data(),
{
    law_add_idempotent(start@, e as nat);
    law_view_determines_data(once, twice);
}

} // verus!
