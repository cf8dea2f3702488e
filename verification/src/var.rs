//! Handles: the keys under which a store keeps its values.

use crate::var_cnt::VarCnt;
use std::marker::PhantomData;
use vstd::prelude::*;

verus! {

/// The handle of one variable of the domain `CTX`, whose values have type `T`.
///
/// A handle is a key, not a container: it holds the identifier that its domain
/// issued for it, and addresses the slot of that identifier in every store of
/// the domain.
pub struct Var<T, CTX> {
    id: usize,
    _ctx: PhantomData<CTX>,
    _t: PhantomData<T>,
}

impl<T, CTX> Var<T, CTX> {
    /// The identifier that the handle carries.
    pub closed spec fn view(&self) -> nat {
        self.id as nat
    }

    /// The identifier that the handle carries.
    pub fn id(&self) -> (id: usize)
        ensures
            id == self@,
    {
        self.id
    }
}

impl<T, CTX: VarCnt> Var<T, CTX> {
    /// Declares a variable: takes the next identifier of the domain.
    pub fn new() -> Self {
        Var { id: CTX::var_cnt().next(), _ctx: PhantomData, _t: PhantomData }
    }
}

impl<T, CTX> Clone for Var<T, CTX> {
    fn clone(&self) -> (copy: Self)
        ensures
            copy == *self,
    {
        Var { id: self.id, _ctx: PhantomData, _t: PhantomData }
    }
}

impl<T, CTX> Copy for Var<T, CTX> {}

} // verus!
