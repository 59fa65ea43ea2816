//! The copy-on-write lock. Its state changes behind shared references, so
//! the contracts here say nothing of the values it holds; `model` states the
//! protocol that this code follows, without a proof that it does.
use std::sync::atomic::{AtomicBool, Ordering};
use parking_lot::lock_api;
use crate::data::{is_prefix, Decode, DecodeError, Encode};
use vstd::prelude::*;

verus! {

#[verifier::external_type_specification]
#[verifier::external_body]
#[verifier::reject_recursive_types(R)]
#[verifier::reject_recursive_types(T)]
pub struct ExRwLock<R, T: ?Sized>(lock_api::RwLock<R, T>);

#[verifier::external_type_specification]
#[verifier::external_body]
#[verifier::reject_recursive_types(R)]
#[verifier::reject_recursive_types(T)]
pub struct ExMutex<R, T: ?Sized>(lock_api::Mutex<R, T>);

#[verifier::external_type_specification]
#[verifier::external_body]
pub struct ExRawRwLock(parking_lot::RawRwLock);

#[verifier::external_type_specification]
#[verifier::external_body]
pub struct ExRawMutex(parking_lot::RawMutex);

/// A shared borrow of the canonical value, held under the read lock.
#[verifier::external_body]
#[verifier::reject_recursive_types(T)]
pub struct CowLockReadGuard<'a, T> {
    guard: parking_lot::RwLockReadGuard<'a, T>,
}

/// The pending slot, held under its lock.
#[verifier::external_body]
#[verifier::reject_recursive_types(T)]
struct SlotGuard<'a, T> {
    guard: parking_lot::MutexGuard<'a, Option<T>>,
}

/// Relies on parking_lot::RwLock::new.
#[verifier::external_body]
fn new_store<T>(value: T) -> (r: parking_lot::RwLock<T>) {
    parking_lot::RwLock::new(value)
}

/// Relies on parking_lot::RwLock::read, which waits while a writer holds
/// the lock.
#[verifier::external_body]
fn read_store<T>(store: &parking_lot::RwLock<T>) -> (r: CowLockReadGuard<'_, T>) {
    CowLockReadGuard { guard: store.read() }
}

/// Relies on parking_lot::RwLock::write: the value is replaced under the
/// exclusive lock, which is released on return.
#[verifier::external_body]
fn replace_store<T>(store: &parking_lot::RwLock<T>, value: T) {
    *store.write() = value;
}

/// Relies on lock_api::RwLockReadGuard's Deref: the value under the lock.
#[verifier::external_body]
fn guarded<'a, 'b, T>(g: &'b CowLockReadGuard<'a, T>) -> (r: &'b T) {
    &g.guard
}

/// Relies on parking_lot::Mutex::new.
#[verifier::external_body]
fn new_slot<T>() -> (r: parking_lot::Mutex<Option<T>>) {
    parking_lot::Mutex::new(None)
}

/// Relies on parking_lot::Mutex::lock, which waits for the lock and does
/// not panic.
#[verifier::external_body]
fn lock_slot<T>(slot: &parking_lot::Mutex<Option<T>>) -> (r: SlotGuard<'_, T>)
    opens_invariants none
    no_unwind
{
    SlotGuard { guard: slot.lock() }
}

/// Relies on parking_lot::Mutex::try_lock: `None` when another thread holds
/// the lock.
#[verifier::external_body]
fn try_lock_slot<T>(slot: &parking_lot::Mutex<Option<T>>) -> (r: Option<SlotGuard<'_, T>>) {
    slot.try_lock().map(|guard| SlotGuard { guard })
}

/// Relies on lock_api::MutexGuard's DerefMut: moves the value out of the
/// locked slot, leaving it empty.
#[verifier::external_body]
fn take_slot<T>(g: &mut SlotGuard<'_, T>) -> (r: Option<T>) {
    g.guard.take()
}

/// Relies on lock_api::MutexGuard's DerefMut: stores a value in the locked
/// slot, dropping what it held.
#[verifier::external_body]
fn put_slot<T>(g: &mut SlotGuard<'_, T>, value: T)
    opens_invariants none
    no_unwind
{
    *g.guard = Some(value);
}

/// Relies on AtomicBool::store, which panics only for the Acquire and
/// AcqRel orderings.
#[verifier::external_body]
fn set_flag(flag: &AtomicBool, value: bool)
    opens_invariants none
    no_unwind
{
    flag.store(value, Ordering::Release)
}

/// A value that many threads read at once and that writers replace by
/// editing a private copy.
#[verifier::reject_recursive_types(T)]
pub struct CowLock<T> where T: Clone {
    lock: parking_lot::RwLock<T>,
    join_cache: parking_lot::Mutex<Option<T>>,
    joined: AtomicBool,
}

impl<T: Clone> CowLock<T> {
    /// A lock holding `value`, with nothing pending.
    pub fn new(value: T) -> (r: Self) {
        CowLock { lock: new_store(value), join_cache: new_slot(), joined: AtomicBool::new(true) }
    }

    /// Folds in a pending write if the slot is free, then takes the read
    /// lock.
    pub fn read(&self) -> (r: CowLockReadGuard<'_, T>) {
        self.try_join();
        read_store(&self.lock)
    }

    /// Folds in any pending write, waiting for the slot, and hands out a
    /// private copy of the canonical value to edit; dropping the handle
    /// deposits the copy in this lock. Overlapping handles each copy the
    /// same base, and the one dropped last wins (as the protocol in
    /// `model` states; this code is not proved against it).
    pub fn write(&self) -> (r: CowLockWriteGuard<'_, T>)
        ensures
            r.owner() == self,
    {
        self.join();
        let g = read_store(&self.lock);
        let value = guarded(&g).clone();
        CowLockWriteGuard { lock: self, value: Some(value) }
    }

    /// Moves a pending value, if any, into the canonical store and marks the
    /// lock joined (the step `model::merged` describes; this code is not
    /// proved against it). Call with the slot's lock held, so that
    /// no deposit falls between the take and the flag.
    fn merge(&self, slot: &mut SlotGuard<'_, T>) {
        if let Some(value) = take_slot(slot) {
            replace_store(&self.lock, value);
        }
        set_flag(&self.joined, true);
    }

    /// Stores a finished edit in the pending slot, replacing any value
    /// there, and clears the joined flag (the step `model::deposited`
    /// describes; this code is not proved against it).
    fn deposit(&self, value: T)
        opens_invariants none
        no_unwind
    {
        let mut slot = lock_slot(&self.join_cache);
        put_slot(&mut slot, value);
        set_flag(&self.joined, false);
    }

    /// Joins without waiting: false when another thread holds the slot
    /// (the step `model::try_joined`
    /// describes; this code is not proved against it).
    fn try_join(&self) -> (r: bool) {
        if self.joined.load(Ordering::Acquire) {
            return true;
        }
        match try_lock_slot(&self.join_cache) {
            Some(mut slot) => {
                self.merge(&mut slot);
                true
            },
            None => false,
        }
    }

    /// Joins, waiting for the slot if another thread holds it
    /// (the step `model::joined`
    /// describes; this code is not proved against it).
    fn join(&self) {
        if self.joined.load(Ordering::Acquire) {
            return;
        }
        let mut slot = lock_slot(&self.join_cache);
        self.merge(&mut slot);
    }
}

impl<'a, T> std::ops::Deref for CowLockReadGuard<'a, T> {
    type Target = T;

    fn deref(&self) -> (r: &T) {
        guarded(self)
    }
}

impl<T: Clone> From<T> for CowLock<T> {
    fn from(value: T) -> (r: Self) {
        Self::new(value)
    }
}

impl<T: Clone> vstd::std_specs::convert::FromSpecImpl<T> for CowLock<T> {
    open spec fn obeys_from_spec() -> bool {
        false
    }

    open spec fn from_spec(v: T) -> Self {
        arbitrary()
    }
}

impl<T: Clone + Encode + Decode> CowLock<T> {
    /// Appends the encoding of the value a reader would observe now.
    pub fn encode(&self, writer: &mut Vec<u8>)
        ensures
            exists|v: T| final(writer)@ == old(writer)@ + #[trigger] v.encoding(),
    {
        let g = self.read();
        guarded(&g).encode(writer);
    }

    /// The length of the encoding of the value a reader would observe now.
    pub fn bytes_len(&self) -> (r: usize)
        ensures
            exists|v: T| r as int == #[trigger] v.encoding().len(),
    {
        let g = self.read();
        guarded(&g).bytes_len()
    }

    /// A fresh lock holding the value that `bytes` begin with; fails exactly
    /// when no value's encoding begins them, with `T`'s own error.
    pub fn decode(bytes: &[u8]) -> (r: Result<Self, DecodeError>)
        ensures
            r is Ok <==> exists|v: T| #[trigger] is_prefix(v.encoding(), bytes@),
            r matches Err(e) ==> e == T::decode_error(bytes@),
    {
        match T::decode(bytes) {
            Ok(value) => Ok(Self::new(value)),
            Err(e) => Err(e),
        }
    }
}

/// A writer's private copy; dropping it hands the copy to the lock.
#[verifier::reject_recursive_types(T)]
pub struct CowLockWriteGuard<'a, T> where T: Clone {
    lock: &'a CowLock<T>,
    value: Option<T>,
}

impl<'a, T: Clone> CowLockWriteGuard<'a, T> {
    /// The lock that the copy goes back to.
    pub closed spec fn owner(&self) -> &'a CowLock<T> {
        self.lock
    }

    /// The handle's private copy.
    pub closed spec fn edit(&self) -> T {
        self.value->0
    }

    #[verifier::type_invariant]
    spec fn holds_value(&self) -> bool {
        self.value is Some
    }
}

impl<'a, T: Clone> std::ops::Deref for CowLockWriteGuard<'a, T> {
    type Target = T;

    fn deref(&self) -> (r: &T)
        ensures
            *r == self.edit(),
    {
        proof {
            use_type_invariant(self);
        }
        self.value.as_ref().unwrap()
    }
}

impl<'a, T: Clone> std::ops::DerefMut for CowLockWriteGuard<'a, T> {
    /// The copy is always present until the handle is dropped. Verus does
    /// not lend out a mutable reference into a field of a type with an
    /// invariant, so Verus does not verify this body.
    #[verifier::external_body]
    fn deref_mut(&mut self) -> (r: &mut T) {
        self.value.as_mut().unwrap()
    }
}

impl<'a, T: Clone> Drop for CowLockWriteGuard<'a, T> {
    /// Hands the edited copy to the lock. The copy leaves the handle here,
    /// so the handle's invariant ends with it; `deposit` does the work.
    #[verifier::external_body]
    fn drop(&mut self)
        opens_invariants none
        no_unwind
    {
        if let Some(value) = self.value.take() {
            self.lock.deposit(value);
        }
    }
}

} // verus!
