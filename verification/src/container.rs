//! Containers: stores that are addressed by handles passed by value.

use crate::node::{spec_node_len, MIN_SLOTS};
use crate::var::Var;
use crate::var_cnt::VarCnt;
use crate::vars::Vars;
use vstd::prelude::*;

verus! {

/// The values that one instance holds for the variables of the domain `Ctx`.
///
/// A container is a [`Vars`] store that takes its handles by value. It is
/// made with a slot for every identifier that the domain has issued, and
/// grows, as the store does, for a variable that is declared later.
///
/// Contracts speak of a container through the store that it holds, its view.
#[verifier::reject_recursive_types(Ctx)]
#[verifier::reject_recursive_types(T)]
pub struct Container<Ctx, T> {
    vars: Vars<Ctx, T>,
}

impl<Ctx, T> Container<Ctx, T> {
    /// The store that the container holds.
    pub closed spec fn view(&self) -> Vars<Ctx, T> {
        self.vars
    }
}

impl<Ctx: VarCnt, T> Container<Ctx, T> {
    /// A container that holds nothing, with room for every identifier that
    /// the domain has issued so far: it is what [`Container::with_capacity`]
    /// makes for the count that the domain's counter shows.
    pub fn new() -> (container: Self)
        ensures
            container@.wf(),
            container@.spec_capacity() >= MIN_SLOTS,
            forall|id: nat| (#[trigger] container@.stored(id)) is None,
    {
        Self::with_capacity(Ctx::var_cnt().cur())
    }

    /// A container that holds nothing, with room for `count` identifiers: so
    /// many slots has its first node, and [`MIN_SLOTS`] at least.
    pub fn with_capacity(count: usize) -> (container: Self)
        ensures
            container@.wf(),
            container@.spec_capacity() == spec_node_len(count, 0, MIN_SLOTS),
            forall|id: nat| (#[trigger] container@.stored(id)) is None,
    {
        Container { vars: Vars::with_capacity(count) }
    }

    /// The number of slots in the first node of the container.
    pub fn capacity(&self) -> (n: usize)
        ensures
            n == self@.spec_capacity(),
    {
        self.vars.capacity()
    }

    /// The value of `var`, if the container has one.
    pub fn get(&self, var: Var<T, Ctx>) -> (r: Option<&T>)
        requires
            self@.wf(),
        ensures
            r matches Some(v) ==> self@.value(var@) == Some(*v),
            self@.stored(var@) is Some ==> r is Some,
    {
        self.vars.get(&var)
    }

    /// The value of `var`, for a caller with exclusive access: `None` exactly
    /// when the container has none. What the caller leaves behind the
    /// reference is the value of `var` afterwards.
    pub fn get_mut(&mut self, var: Var<T, Ctx>) -> (r: Option<&mut T>)
        requires
            old(self)@.wf(),
        ensures
            final(self)@.wf(),
            match r {
                Some(v) => {
                    &&& old(self)@.value(var@) == Some(*v)
                    &&& final(self)@.stored(var@) == Some(*final(v))
                    &&& final(self)@.value(var@) == Some(*final(v))
                    &&& final(self)@.reaches(var@)
                },
                None => old(self)@.value(var@) is None && final(self)@.stored(var@) is None,
            },
            old(self)@.others_kept(&final(self)@, var@),
    {
        self.vars.get_mut(&var)
    }

    /// The value of `var`. If the container has none, `init` makes one and the
    /// container takes it, unless another caller was first: then the container
    /// keeps that caller's value, and what `init` made is dropped.
    pub fn get_or_init<F: FnOnce() -> T>(&self, var: Var<T, Ctx>, init: F) -> (r: &T)
        requires
            self@.wf(),
            init.requires(()),
        ensures
            self@.value(var@) == Some(*r),
            self@.stored(var@) matches Some(v) ==> *r == v,
    {
        self.vars.get_or_init(&var, init)
    }

    /// The value of `var`, for a caller with exclusive access. If the
    /// container has none, `init` makes one and the container takes it; if it
    /// has one, `init` is not called.
    pub fn get_mut_or_init<F: FnOnce() -> T>(&mut self, var: Var<T, Ctx>, init: F) -> (r: &mut T)
        requires
            old(self)@.wf(),
            init.requires(()),
        ensures
            final(self)@.wf(),
            match old(self)@.value(var@) {
                Some(v) => *r == v,
                None => init.ensures((), *r),
            },
            final(self)@.stored(var@) == Some(*final(r)),
            final(self)@.value(var@) == Some(*final(r)),
            final(self)@.reaches(var@),
            old(self)@.others_same(&final(self)@, var@),
    {
        self.vars.get_or_init_mut(&var, init)
    }

    /// Takes the value of `var` out of the container: the container has
    /// nothing under `var` then, in a new stretch of shared access.
    pub fn take(&mut self, var: Var<T, Ctx>) -> (prev: Option<T>)
        requires
            old(self)@.wf(),
        ensures
            final(self)@.wf(),
            prev == old(self)@.value(var@),
            final(self)@.stored(var@) is None,
            final(self)@.epoch(var@) == old(self)@.epoch(var@) + 1,
            final(self)@.reaches(var@),
            old(self)@.others_same(&final(self)@, var@),
    {
        self.vars.take(&var)
    }

    /// Drops the value of `var`, if the container has one: then the container
    /// has nothing under `var`, in a new stretch of shared access.
    pub fn clear(&mut self, var: Var<T, Ctx>)
        requires
            old(self)@.wf(),
        ensures
            final(self)@.wf(),
            final(self)@.stored(var@) is None,
            old(self)@.value(var@) is Some ==> final(self)@.epoch(var@) == old(self)@.epoch(var@)
                + 1,
            old(self)@.others_kept(&final(self)@, var@),
    {
        self.vars.clear(&var)
    }
}

impl<Ctx: VarCnt, T> Default for Container<Ctx, T> {
    /// A container that holds nothing.
    fn default() -> (container: Self)
        ensures
            container@.wf(),
            container@.spec_capacity() >= MIN_SLOTS,
            forall|id: nat| (#[trigger] container@.stored(id)) is None,
    {
        Container::new()
    }
}

} // verus!
