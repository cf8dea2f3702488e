//! A value paired with its version number.

use crate::get_version::GetVersion;
use std::ops::Deref;
use vstd::prelude::*;

verus! {

/// A value and its version number.
pub struct Version<T>(pub T, pub u64);

impl<T> Deref for Version<T> {
    type Target = T;

    /// The value.
    fn deref(&self) -> (value: &T)
        ensures
            *value == self.0,
    {
        &self.0
    }
}

impl<T> GetVersion for Version<T> {
    open spec fn spec_version(&self) -> u64 {
        self.1
    }

    fn get_version(&self) -> (v: u64) {
        self.1
    }
}

} // verus!
