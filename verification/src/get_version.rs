//! Values that carry a version number.

use vstd::prelude::*;

verus! {

/// A value that carries a version number.
pub trait GetVersion {
    /// The version number of the value.
    spec fn spec_version(&self) -> u64;

    /// The version number of the value.
    fn get_version(&self) -> (v: u64)
        ensures
            v == self.spec_version(),
    ;

    /// Raises `version` to the version number of the value, if that is the
    /// larger one, and hands the value on.
    fn max(self, version: &mut u64) -> (same: Self) where Self: Sized
        ensures
            same == self,
            *final(version) == if self.spec_version() >= *old(version) {
                self.spec_version()
            } else {
                *old(version)
            },
    {
        let own = self.get_version();
        if own > *version {
            *version = own;
        }
        self
    }
}

impl<T: GetVersion> GetVersion for &T {
    open spec fn spec_version(&self) -> u64 {
        (**self).spec_version()
    }

    fn get_version(&self) -> (v: u64) {
        (**self).get_version()
    }
}

} // verus!
