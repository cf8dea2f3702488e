//! Stores: the values attached to one instance.

use crate::node::{spec_node_len, Node, MIN_SLOTS};
use crate::slot::Slot;
use crate::var::Var;
use crate::var_cnt::VarCnt;
use vstd::prelude::*;

verus! {

/// The values that one instance holds for the variables of the domain `CTX`.
///
/// A store may be shared: [`Vars::get`] and [`Vars::get_or_init`] take `&self`,
/// and a value that one of them has returned stays where it is for as long as
/// the store is shared. The other operations need the store exclusively.
///
/// Contracts speak of what a store holds under an identifier as those of a
/// [`Slot`] do, by [`Vars::epoch`], [`Vars::stored`] and [`Vars::value`].
#[verifier::reject_recursive_types(CTX)]
#[verifier::reject_recursive_types(T)]
pub struct Vars<CTX, T> {
    node: Node<CTX, T>,
}

impl<CTX, T> Vars<CTX, T> {
    /// The store's chain of nodes starts at identifier 0 and has no gap. It
    /// holds of every store that [`Vars::new`] has made, whatever was done with
    /// it since.
    pub closed spec fn wf(&self) -> bool {
        self.node.wf() && self.node.offset() == 0
    }

    /// The number of slots in the first node of the store: the room that it
    /// was made with.
    pub closed spec fn spec_capacity(&self) -> nat {
        self.node.slots().len()
    }

    /// The slot of `id`, if the store has a node for it when the present
    /// stretch of shared access to its chain of nodes ends.
    pub closed spec fn slot(&self, id: nat) -> Option<Slot<T>> {
        self.node.slot_of(id as int)
    }

    /// Whether the store had a slot for `id` when the present stretch of
    /// shared access began: whether `id` is below the capacity, or exclusive
    /// access has extended the chain of nodes as far.
    pub closed spec fn reaches(&self, id: nat) -> bool {
        self.node.reaches(id as int)
    }

    /// The number of the present stretch of shared access to the slot of
    /// `id`: it goes up with every exclusive access to the slot.
    pub open spec fn epoch(&self, id: nat) -> nat {
        match self.slot(id) {
            Some(slot) => slot.epoch(),
            None => 0,
        }
    }

    /// What the store held under `id` when the present stretch of shared
    /// access began: the value that the last exclusive access left there.
    pub open spec fn stored(&self, id: nat) -> Option<T> {
        match self.slot(id) {
            Some(slot) => slot.stored(),
            None => None,
        }
    }

    /// What the store holds under `id` when the present stretch of shared
    /// access ends: the value that the next exclusive access finds there.
    pub open spec fn value(&self, id: nat) -> Option<T> {
        match self.slot(id) {
            Some(slot) => slot.value(),
            None => None,
        }
    }

    /// `post` has under every identifier but `id` what `self` has, and a slot
    /// wherever `self` had one.
    pub open spec fn others_same(&self, post: &Self, id: nat) -> bool {
        &&& forall|j: nat|
            #![trigger post.slot(j)]
            #![trigger self.slot(j)]
            j != id ==> post.slot(j) == self.slot(j)
        &&& forall|j: nat|
            #![trigger post.reaches(j)]
            #![trigger self.reaches(j)]
            self.reaches(j) ==> post.reaches(j)
    }

    /// `post` keeps under every identifier but `id` what `self` has: a slot
    /// that is there stays as it is, and what comes behind the last has
    /// nothing stored.
    pub open spec fn others_kept(&self, post: &Self, id: nat) -> bool {
        &&& forall|j: nat|
            #![trigger post.slot(j)]
            #![trigger self.slot(j)]
            j != id ==> match self.slot(j) {
                Some(slot) => post.slot(j) == Some(slot),
                None => post.stored(j) is None,
            }
        &&& forall|j: nat|
            #![trigger post.reaches(j)]
            #![trigger self.reaches(j)]
            self.reaches(j) ==> post.reaches(j)
    }
}

impl<CTX, T> Vars<CTX, T> {
    /// While a store is shared it shows one value per identifier: whatever
    /// [`Vars::get`] finds and whatever [`Vars::get_or_init`] returns for one
    /// identifier, at any time and to any caller, is the same value, however
    /// often an initializer ran.
    pub proof fn lemma_one_value(&self, id: nat, first: T, second: T)
        requires
            self.value(id) == Some(first),
            self.value(id) == Some(second),
        ensures
            first == second,
    {
    }

    /// A value that exclusive access left in the store is the value that the
    /// store shows while it is shared, and the one that the next exclusive
    /// access finds: a `replace` returns what the `replace` before it put.
    pub proof fn lemma_stored_is_value(&self, id: nat)
        ensures
            self.stored(id) is Some ==> self.value(id) == self.stored(id),
    {
        if let Some(slot) = self.slot(id) {
            slot.lemma_stored_is_value();
        }
    }

    /// A store has a slot for every identifier below its capacity, and for
    /// every one that it reaches.
    pub proof fn lemma_covered(&self, id: nat)
        requires
            self.wf(),
        ensures
            id < self.spec_capacity() ==> self.reaches(id),
            self.reaches(id) ==> self.slot(id) is Some,
    {
        self.node.lemma_reaches(id as int);
    }

    /// What an operation on `id` leaves the same, it leaves the same: the
    /// value of any other identifier is held and shown as before, also where
    /// the operation had to extend the chain of nodes to reach `id`.
    pub proof fn lemma_others_untouched(&self, post: &Self, id: nat, other: nat)
        requires
            self.others_same(post, id) || self.others_kept(post, id),
            other != id,
        ensures
            post.stored(other) == self.stored(other),
            self.value(other) is Some ==> post.value(other) == self.value(other),
            self.others_same(post, id) ==> post.value(other) == self.value(other),
    {
    }
}

impl<CTX: VarCnt, T> Vars<CTX, T> {
    /// A store that holds nothing, with room for every identifier that the
    /// domain has issued so far: it is what [`Vars::with_capacity`] makes for
    /// the count that the domain's counter shows. The count is a hint, not a
    /// bound: the store grows for identifiers that are issued later.
    pub fn new() -> (vars: Self)
        ensures
            vars.wf(),
            vars.spec_capacity() >= MIN_SLOTS,
            forall|id: nat| (#[trigger] vars.stored(id)) is None,
    {
        Self::with_capacity(CTX::var_cnt().cur())
    }

    /// A store that holds nothing, with room for `count` identifiers: so many
    /// slots has its first node, and [`MIN_SLOTS`] at least.
    pub fn with_capacity(count: usize) -> (vars: Self)
        ensures
            vars.wf(),
            vars.spec_capacity() == spec_node_len(count, 0, MIN_SLOTS),
            forall|id: nat| (#[trigger] vars.stored(id)) is None,
    {
        let node = Node::sized(count, 0, MIN_SLOTS);
        proof {
            assert forall|id: nat| (#[trigger] node.stored(id as int)) is None by {
                node.lemma_fresh(id as int);
            }
        }
        let vars = Vars { node };
        assert forall|id: nat| (#[trigger] vars.stored(id)) is None by {
            assert(vars.node.stored(id as int) is None);
        }
        vars
    }

    /// The number of slots in the first node of the store.
    pub fn capacity(&self) -> (n: usize)
        ensures
            n == self.spec_capacity(),
    {
        self.node.len()
    }

    /// The value of `var`, if the store has one.
    pub fn get(&self, var: &Var<T, CTX>) -> (r: Option<&T>)
        requires
            self.wf(),
        ensures
            r matches Some(v) ==> self.value(var@) == Some(*v),
            self.stored(var@) is Some ==> r is Some,
    {
        match self.node.slot(var.id()) {
            Some(slot) => slot.get(),
            None => None,
        }
    }

    /// The value of `var`. If the store has none, `init` makes one and the
    /// store takes it, unless another caller was first: then the store keeps
    /// that caller's value, and what `init` made is dropped.
    pub fn get_or_init<F: FnOnce() -> T>(&self, var: &Var<T, CTX>, init: F) -> (r: &T)
        requires
            self.wf(),
            init.requires(()),
        ensures
            self.value(var@) == Some(*r),
            self.stored(var@) matches Some(v) ==> *r == v,
    {
        proof {
            self.lemma_stored_is_value(var@);
        }
        self.node.slot_or_init(var.id()).get_or_init(init)
    }

    /// The value of `var`, for a caller with exclusive access: `None` exactly
    /// when the store has none. What the caller leaves behind the reference is
    /// the value of `var` afterwards.
    pub fn get_mut(&mut self, var: &Var<T, CTX>) -> (r: Option<&mut T>)
        requires
            old(self).wf(),
        ensures
            final(self).wf(),
            match r {
                Some(v) => {
                    &&& old(self).value(var@) == Some(*v)
                    &&& final(self).stored(var@) == Some(*final(v))
                    &&& final(self).value(var@) == Some(*final(v))
                    &&& final(self).reaches(var@)
                },
                None => old(self).value(var@) is None && final(self).stored(var@) is None,
            },
            old(self).others_kept(final(self), var@),
    {
        match self.node.slot_mut(var.id()) {
            Some(slot) => slot.get_mut(),
            None => None,
        }
    }

    /// The value of `var`, for a caller with exclusive access. If the store has
    /// none, `init` makes one and the store takes it; if it has one, `init` is
    /// not called.
    pub fn get_or_init_mut<F: FnOnce() -> T>(&mut self, var: &Var<T, CTX>, init: F) -> (r: &mut T)
        requires
            old(self).wf(),
            init.requires(()),
        ensures
            final(self).wf(),
            match old(self).value(var@) {
                Some(v) => *r == v,
                None => init.ensures((), *r),
            },
            final(self).stored(var@) == Some(*final(r)),
            final(self).value(var@) == Some(*final(r)),
            final(self).reaches(var@),
            old(self).others_same(final(self), var@),
    {
        self.node.slot_or_init_mut(var.id()).get_mut_or_init(init)
    }

    /// Puts `val` in place of the value of `var`, and returns the value that
    /// the store had.
    pub fn replace(&mut self, var: &Var<T, CTX>, val: Option<T>) -> (prev: Option<T>)
        requires
            old(self).wf(),
        ensures
            final(self).wf(),
            prev == old(self).value(var@),
            final(self).stored(var@) == val,
            val is Some ==> final(self).value(var@) == val,
            val is None ==> final(self).epoch(var@) == old(self).epoch(var@) + 1,
            final(self).reaches(var@),
            old(self).others_same(final(self), var@),
    {
        let slot = self.node.slot_or_init_mut(var.id());
        slot.replace(val)
    }

    /// Takes the value of `var` out of the store: the store has nothing under
    /// `var` then, in a new stretch of shared access.
    pub fn take(&mut self, var: &Var<T, CTX>) -> (prev: Option<T>)
        requires
            old(self).wf(),
        ensures
            final(self).wf(),
            prev == old(self).value(var@),
            final(self).stored(var@) is None,
            final(self).epoch(var@) == old(self).epoch(var@) + 1,
            final(self).reaches(var@),
            old(self).others_same(final(self), var@),
    {
        self.replace(var, None)
    }

    /// Drops the value of `var`, if the store has one: then the store has
    /// nothing under `var`, in a new stretch of shared access.
    pub fn clear(&mut self, var: &Var<T, CTX>)
        requires
            old(self).wf(),
        ensures
            final(self).wf(),
            final(self).stored(var@) is None,
            old(self).value(var@) is Some ==> final(self).epoch(var@) == old(self).epoch(var@)
                + 1,
            old(self).others_kept(final(self), var@),
    {
        match self.node.slot_mut(var.id()) {
            Some(slot) => {
                let _ = slot.replace(None);
            },
            None => {},
        }
    }
}

/// The operations of a store, from the side of the handle.
impl<T, CTX: VarCnt> Var<T, CTX> {
    /// The value of the variable in `ctx`, if `ctx` has one.
    pub fn get<'a>(&self, ctx: &'a Vars<CTX, T>) -> (r: Option<&'a T>)
        requires
            ctx.wf(),
        ensures
            r matches Some(v) ==> ctx.value(self@) == Some(*v),
            ctx.stored(self@) is Some ==> r is Some,
    {
        ctx.get(self)
    }

    /// The value of the variable in `ctx`, for a caller with exclusive
    /// access: `None` exactly when `ctx` has none.
    pub fn get_mut<'a>(&self, ctx: &'a mut Vars<CTX, T>) -> (r: Option<&'a mut T>)
        requires
            old(ctx).wf(),
        ensures
            final(ctx).wf(),
            match r {
                Some(v) => {
                    &&& old(ctx).value(self@) == Some(*v)
                    &&& final(ctx).stored(self@) == Some(*final(v))
                    &&& final(ctx).value(self@) == Some(*final(v))
                    &&& final(ctx).reaches(self@)
                },
                None => old(ctx).value(self@) is None && final(ctx).stored(self@) is None,
            },
            old(ctx).others_kept(final(ctx), self@),
    {
        ctx.get_mut(self)
    }

    /// The value of the variable in `ctx`, which `init` makes if `ctx` has
    /// none. A value that is there is found without a look at the end of the
    /// chain of nodes.
    pub fn get_or_init<'a, F: FnOnce() -> T>(&self, ctx: &'a Vars<CTX, T>, init: F) -> (r: &'a T)
        requires
            ctx.wf(),
            init.requires(()),
        ensures
            ctx.value(self@) == Some(*r),
            ctx.stored(self@) matches Some(v) ==> *r == v,
    {
        proof {
            ctx.lemma_stored_is_value(self@);
        }
        match ctx.get(self) {
            Some(v) => v,
            None => ctx.get_or_init(self, init),
        }
    }

    /// The value of the variable in `ctx`, for a caller with exclusive access;
    /// `init` makes it if `ctx` has none, and is not called if it has one.
    pub fn get_or_init_mut<'a, F: FnOnce() -> T>(
        &self,
        ctx: &'a mut Vars<CTX, T>,
        init: F,
    ) -> (r: &'a mut T)
        requires
            old(ctx).wf(),
            init.requires(()),
        ensures
            final(ctx).wf(),
            match old(ctx).value(self@) {
                Some(v) => *r == v,
                None => init.ensures((), *r),
            },
            final(ctx).stored(self@) == Some(*final(r)),
            final(ctx).value(self@) == Some(*final(r)),
            final(ctx).reaches(self@),
            old(ctx).others_kept(final(ctx), self@),
    {
        if ctx.get(self).is_some() {
            match ctx.get_mut(self) {
                Some(v) => v,
                None => unreached(),
            }
        } else {
            ctx.get_or_init_mut(self, init)
        }
    }

    /// Puts `val` in place of the value of the variable in `ctx`, and returns
    /// the value that `ctx` had.
    pub fn replace(&self, ctx: &mut Vars<CTX, T>, val: Option<T>) -> (prev: Option<T>)
        requires
            old(ctx).wf(),
        ensures
            final(ctx).wf(),
            prev == old(ctx).value(self@),
            final(ctx).stored(self@) == val,
            val is Some ==> final(ctx).value(self@) == val,
            val is None ==> final(ctx).epoch(self@) == old(ctx).epoch(self@) + 1,
            final(ctx).reaches(self@),
            old(ctx).others_same(final(ctx), self@),
    {
        ctx.replace(self, val)
    }

    /// Takes the value of the variable out of `ctx`.
    pub fn take(&self, ctx: &mut Vars<CTX, T>) -> (prev: Option<T>)
        requires
            old(ctx).wf(),
        ensures
            final(ctx).wf(),
            prev == old(ctx).value(self@),
            final(ctx).stored(self@) is None,
            final(ctx).epoch(self@) == old(ctx).epoch(self@) + 1,
            final(ctx).reaches(self@),
            old(ctx).others_same(final(ctx), self@),
    {
        ctx.replace(self, None)
    }
}

impl<CTX: VarCnt, T> Default for Vars<CTX, T> {
    /// A store that holds nothing.
    fn default() -> (vars: Self)
        ensures
            vars.wf(),
            vars.spec_capacity() >= MIN_SLOTS,
            forall|id: nat| (#[trigger] vars.stored(id)) is None,
    {
        Vars::new()
    }
}

} // verus!
