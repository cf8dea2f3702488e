//! The counter of a domain: it issues the identifiers of the domain's handles.

use std::sync::atomic::AtomicUsize;
use std::sync::atomic::Ordering;
use vstd::prelude::*;

verus! {

/// The number of identifiers that a domain has issued.
///
/// The counter is shared by every handle and every store of its domain and is
/// read and advanced atomically. Nothing is known statically of the number it
/// holds: any thread may advance it at any time.
pub struct Cnt(AtomicUsize);

impl Cnt {
    /// A counter that has issued nothing.
    pub fn new() -> Self {
        Cnt(AtomicUsize::new(0))
    }

    /// The number of identifiers issued so far. A store uses it as a hint for
    /// the size of a new node, never as a bound.
    pub fn cur(&self) -> usize {
        self.0.load(Ordering::Relaxed)
    }

    /// Issues the next identifier: the count before the call, which the call
    /// advances by one.
    pub fn next(&self) -> usize {
        self.0.fetch_add(1, Ordering::Relaxed)
    }
}

/// A domain: a tag type with one counter for the whole process.
pub trait VarCnt {
    /// The domain's counter, the same one at every call.
    fn var_cnt() -> &'static Cnt;
}

} // verus!
