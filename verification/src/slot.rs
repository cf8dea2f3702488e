//! The cell of one variable in one store.
//!
//! # How a contract speaks of a cell that is shared
//!
//! A slot is filled through a shared reference, so the slot that a caller
//! holds may change under its eyes: another thread, or an initializer that
//! calls back, may fill it between any two steps. A contract therefore cannot
//! say what a shared slot holds *now*. But a shared slot changes in one way
//! only, and once: from empty to full. Everything else needs exclusive access.
//!
//! So the life of a slot is a chain of stretches of shared access, parted by
//! exclusive accesses, and a contract speaks of the present stretch and of its
//! two ends:
//!
//! * [`Slot::epoch`] is the number of the stretch: every exclusive access ends
//!   one stretch and begins the next;
//! * [`Slot::stored`] is what the slot held when the stretch began: the value
//!   with which it was made, or which the last exclusive access left;
//! * [`Slot::value`] is what the slot holds when the stretch ends: the value
//!   that the next exclusive access finds.
//!
//! A value that is stored stays, so it is also the `value`; where nothing is
//! stored, `value` is the value that the first caller to fill the slot puts
//! in, or nothing if no caller does. Whoever reads a value from a shared slot
//! reads `value`: this is how two readers know that they have the same.
//!
//! # What is assumed
//!
//! The cell is a `once_cell::sync::OnceCell`. Nothing is proved of it: the
//! functions of this module that call it ([`Slot::get`], [`Slot::get_mut`] and
//! four private ones) state what the call does in terms of `epoch`, `stored`
//! and `value`, and the rest of the library is proved from what they state.

use once_cell::sync::OnceCell;
use vstd::prelude::*;

verus! {

/// Makes `once_cell::sync::OnceCell` known to the verifier, as a type of which
/// it sees nothing.
#[verifier::external_type_specification]
#[verifier::external_body]
#[verifier::reject_recursive_types(T)]
pub struct ExOnceCell<T>(OnceCell<T>);

/// The cell of one variable: empty, or holding one value.
///
/// While a slot is shared it can only go from empty to full, once; the value
/// that it then holds stays where it is until someone with exclusive access
/// replaces or removes it. A slot owns its value, and drops it with itself.
#[verifier::reject_recursive_types(T)]
pub struct Slot<T> {
    cell: OnceCell<T>,
    epoch: Ghost<nat>,
    stored: Ghost<Option<T>>,
    settled: Ghost<Option<T>>,
}

impl<T> Slot<T> {
    /// The number of the present stretch of shared access. It goes up with
    /// every exclusive access to the slot.
    pub closed spec fn epoch(&self) -> nat {
        self.epoch@
    }

    /// What the slot held when the present stretch of shared access began: the
    /// value with which it was made, or which the last exclusive access left.
    pub closed spec fn stored(&self) -> Option<T> {
        self.stored@
    }

    /// What the slot holds when the present stretch of shared access ends: the
    /// value that the next exclusive access finds. It is the value that is
    /// stored, if one is: a shared slot that is full stays as it is.
    pub closed spec fn value(&self) -> Option<T> {
        match self.stored@ {
            Some(v) => Some(v),
            None => self.settled@,
        }
    }

    /// A value that is stored is the value that the slot holds while it is
    /// shared, and that the next exclusive access finds.
    pub proof fn lemma_stored_is_value(&self)
        ensures
            self.stored() is Some ==> self.value() == self.stored(),
    {
    }

    /// Calls `OnceCell::new`: the slot is empty. With what it ends the stretch
    /// of shared access that now begins is open.
    #[verifier::external_body]
    fn vacant() -> (slot: Self)
        ensures
            slot.stored() is None,
    {
        Slot {
            cell: OnceCell::new(),
            epoch: Ghost(arbitrary()),
            stored: Ghost(None),
            settled: Ghost(arbitrary()),
        }
    }

    /// Calls `OnceCell::with_value`: the slot holds `val`.
    #[verifier::external_body]
    fn filled(val: T) -> (slot: Self)
        ensures
            slot.stored() == Some(val),
    {
        Slot {
            cell: OnceCell::with_value(val),
            epoch: Ghost(arbitrary()),
            stored: Ghost(Some(val)),
            settled: Ghost(arbitrary()),
        }
    }

    /// Calls `OnceCell::try_insert`, which fills the cell if it is empty. `Ok`
    /// brings a reference to `val` in the cell; the cell was empty, so nothing
    /// was stored. `Err` brings a reference to the value that was there first,
    /// and `val` back. Either way the slot is full from now on, and keeps the
    /// value that the reference shows while it is shared.
    #[verifier::external_body]
    fn publish(&self, val: T) -> (r: Result<&T, (&T, T)>)
        ensures
            match r {
                Ok(now) => *now == val && self.value() == Some(val) && self.stored() is None,
                Err((first, back)) => self.value() == Some(*first) && back == val,
            },
    {
        self.cell.try_insert(val)
    }

    /// Calls `OnceCell::take`: hands out what the cell holds and leaves it
    /// empty. The access is exclusive, so what the cell holds is that with
    /// which the slot ends its stretch of shared access, and a new stretch
    /// begins.
    #[verifier::external_body]
    fn empty_out(&mut self) -> (prev: Option<T>)
        ensures
            prev == old(self).value(),
            final(self).stored() is None,
            final(self).epoch() == old(self).epoch() + 1,
    {
        self.cell.take()
    }

    /// A slot that holds `val`.
    pub fn new(val: T) -> (slot: Self)
        ensures
            slot.stored() == Some(val),
            slot.value() == Some(val),
    {
        Self::filled(val)
    }

    /// The value of the slot, if it has one at the time of the call.
    ///
    /// Calls `OnceCell::get`. A value that was stored is found; any value that
    /// is found is the one that the slot keeps while it is shared. `None` says
    /// no more than that the slot was empty, or being filled, at the time of
    /// the call.
    #[verifier::external_body]
    pub fn get(&self) -> (r: Option<&T>)
        ensures
            r matches Some(v) ==> self.value() == Some(*v),
            self.stored() is Some ==> r is Some,
    {
        self.cell.get()
    }

    /// The value of the slot, for a caller with exclusive access: `None`
    /// exactly when the slot is empty.
    ///
    /// Calls `OnceCell::get_mut`. The access is exclusive, so what the call
    /// finds is that with which the slot ends its stretch of shared access,
    /// and a new stretch begins. What the caller leaves behind the reference
    /// is what the slot holds when that stretch begins, and keeps during it.
    #[verifier::external_body]
    pub fn get_mut(&mut self) -> (r: Option<&mut T>)
        ensures
            final(self).epoch() == old(self).epoch() + 1,
            match r {
                Some(v) => old(self).value() == Some(*v) && final(self).stored() == Some(
                    *final(v),
                ) && final(self).value() == Some(*final(v)),
                None => old(self).value() is None && final(self).stored() is None,
            },
    {
        self.cell.get_mut()
    }

    /// Puts `val` in place of what the slot holds, and returns what it held.
    /// A slot that is left empty is in a new stretch of shared access: what it
    /// held is gone, whoever had put it there.
    pub fn replace(&mut self, val: Option<T>) -> (prev: Option<T>)
        ensures
            prev == old(self).value(),
            final(self).stored() == val,
            val is Some ==> final(self).value() == val,
            val is None ==> final(self).epoch() == old(self).epoch() + 1,
    {
        let prev = self.empty_out();
        match val {
            Some(v) => {
                *self = Self::filled(v);
            },
            None => {},
        }
        prev
    }

    /// Fills the slot if it is empty. If it is full, by an earlier call or by
    /// another thread, the slot keeps what it has and `val` comes back.
    pub fn set(&self, val: T) -> (r: Result<(), T>)
        ensures
            match r {
                Ok(()) => self.value() == Some(val) && self.stored() is None,
                Err(back) => back == val && self.value() is Some,
            },
    {
        match self.publish(val) {
            Ok(_) => Ok(()),
            Err((_, back)) => Err(back),
        }
    }
}

/// The value that a slot holds after an attempt to fill it: the first that
/// went in. `Ok` is what an attempt brings that found the slot empty, with
/// its own value in the slot; `Err` what one brings that found the slot full,
/// with the value that was there and its own, which is dropped here.
pub fn first_wins<'a, T>(attempt: Result<&'a T, (&'a T, T)>) -> (held: &'a T)
    ensures
        held == match attempt {
            Ok(own) => own,
            Err((first, _)) => first,
        },
{
    match attempt {
        Ok(own) => own,
        Err((first, _)) => first,
    }
}

impl<T> Slot<T> {
    /// The value of the slot. If the slot is empty, `init` makes a value and
    /// the slot takes it, unless another caller was first: then the slot keeps
    /// that caller's value, and what `init` made is dropped.
    pub fn get_or_init<F: FnOnce() -> T>(&self, init: F) -> (r: &T)
        requires
            init.requires(()),
        ensures
            self.value() == Some(*r),
    {
        match self.get() {
            Some(v) => v,
            None => first_wins(self.publish(init())),
        }
    }

    /// The value of the slot, for a caller with exclusive access. If the slot
    /// is empty, `init` makes a value and the slot takes it; if it is full,
    /// `init` is not called.
    pub fn get_mut_or_init<F: FnOnce() -> T>(&mut self, init: F) -> (r: &mut T)
        requires
            init.requires(()),
        ensures
            match old(self).value() {
                Some(v) => *r == v,
                None => init.ensures((), *r),
            },
            final(self).stored() == Some(*final(r)),
            final(self).value() == Some(*final(r)),
    {
        let empty = self.get_mut().is_none();
        if empty {
            let _ = self.replace(Some(init()));
        }
        match self.get_mut() {
            Some(v) => v,
            None => unreached(),
        }
    }
}

impl<T> Default for Slot<T> {
    /// An empty slot.
    fn default() -> (slot: Self)
        ensures
            slot.stored() is None,
    {
        Slot::vacant()
    }
}

} // verus!
