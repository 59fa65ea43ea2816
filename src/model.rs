//! The lock's protocol as a state machine over its three pieces of shared
//! state, and the laws that follow from it for runs without contention.
//! This specifies the protocol; the executable lock is written to follow it
//! but is not proved against it.
use vstd::prelude::*;

verus! {

/// The lock's shared state between operations: the canonical value, the
/// pending slot and the joined flag.
pub struct CowState<T> {
    pub canonical: T,
    pub pending: Option<T>,
    pub joined: bool,
}

/// A fresh lock: the value is canonical and nothing is pending.
pub open spec fn initial<T>(value: T) -> CowState<T> {
    CowState { canonical: value, pending: None, joined: true }
}

/// A set joined flag means the slot is empty.
pub open spec fn well_formed<T>(s: CowState<T>) -> bool {
    s.joined ==> s.pending is None
}

/// The join done under the slot's lock: a pending value, if any, becomes
/// canonical, and the flag is set.
pub open spec fn merged<T>(s: CowState<T>) -> CowState<T> {
    match s.pending {
        Some(v) => CowState { canonical: v, pending: None, joined: true },
        None => CowState { canonical: s.canonical, pending: None, joined: true },
    }
}

/// The join that `read` attempts: skipped when the flag is set or when
/// another thread holds the slot (`slot_free` false).
pub open spec fn try_joined<T>(s: CowState<T>, slot_free: bool) -> CowState<T> {
    if s.joined || !slot_free {
        s
    } else {
        merged(s)
    }
}

/// The join that `write` waits for.
pub open spec fn joined<T>(s: CowState<T>) -> CowState<T> {
    if s.joined {
        s
    } else {
        merged(s)
    }
}

/// A dropped write handle's copy replaces whatever the slot held.
pub open spec fn deposited<T>(s: CowState<T>, edit: T) -> CowState<T> {
    CowState { canonical: s.canonical, pending: Some(edit), joined: false }
}

/// The value that `read` observes.
pub open spec fn read_value<T>(s: CowState<T>, slot_free: bool) -> T {
    try_joined(s, slot_free).canonical
}

/// The copy that `write` hands out: the canonical value after its join.
pub open spec fn write_base<T>(s: CowState<T>) -> T {
    joined(s).canonical
}

/// The state after writes that do not overlap, the i-th of which leaves its
/// handle holding `edits[i]` when dropped.
pub open spec fn after_writes<T>(s: CowState<T>, edits: Seq<T>) -> CowState<T>
    decreases edits.len(),
{
    if edits.len() == 0 {
        s
    } else {
        deposited(joined(after_writes(s, edits.drop_last())), edits.last())
    }
}

/// The state after `n` writes that do not overlap, each setting the value to
/// its base plus one.
pub open spec fn after_increments(s: CowState<int>, n: nat) -> CowState<int>
    decreases n,
{
    if n == 0 {
        s
    } else {
        let t = joined(after_increments(s, (n - 1) as nat));
        deposited(t, t.canonical + 1)
    }
}

/// Every step keeps the joined flag honest.
pub proof fn lemma_steps_well_formed<T>(s: CowState<T>, slot_free: bool, edit: T)
    requires
        well_formed(s),
    ensures
        well_formed(merged(s)),
        well_formed(try_joined(s, slot_free)),
        well_formed(joined(s)),
        well_formed(deposited(s, edit)),
{
}

/// After writes that do not overlap, a read observes the last write's value,
/// and so does the next writer's copy.
pub proof fn lemma_read_sees_last_write<T>(s: CowState<T>, edits: Seq<T>)
    requires
        well_formed(s),
        edits.len() > 0,
    ensures
        read_value(after_writes(s, edits), true) == edits.last(),
        write_base(after_writes(s, edits)) == edits.last(),
{
}

/// Counting up from zero with `n` writes that do not overlap leaves `n` for
/// a reader.
pub proof fn lemma_increments_count(n: nat)
    ensures
        read_value(after_increments(initial(0int), n), true) == n,
        write_base(after_increments(initial(0int), n)) == n,
        well_formed(after_increments(initial(0int), n)),
    decreases n,
{
    if n > 0 {
        lemma_increments_count((n - 1) as nat);
    }
}

/// Two overlapping writers: both copy the same base, and the one dropped
/// last wins, so the first one's edit is lost.
pub proof fn lemma_last_drop_wins<T>(s: CowState<T>, edit_a: T, edit_b: T)
    requires
        well_formed(s),
    ensures
        ({
            let after_a_begins = joined(s);
            let after_b_begins = joined(after_a_begins);
            let after_a_drops = deposited(after_b_begins, edit_a);
            let after_b_drops = deposited(after_a_drops, edit_b);
            &&& write_base(s) == write_base(after_a_begins)
            &&& read_value(after_b_drops, true) == edit_b
            &&& write_base(after_b_drops) == edit_b
        }),
{
}

/// While a write handle is alive, readers observe the value it copied, at
/// any contention; its edit shows only once it is dropped.
pub proof fn lemma_edit_hidden_until_drop<T>(s: CowState<T>, slot_free: bool, edit: T)
    requires
        well_formed(s),
    ensures
        read_value(joined(s), slot_free) == write_base(s),
        read_value(deposited(joined(s), edit), true) == edit,
{
}

} // verus!
