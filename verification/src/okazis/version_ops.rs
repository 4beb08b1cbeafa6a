//! Comparing versions with plain numbers, and moving a version on.
use vstd::prelude::*;
use vstd::std_specs::cmp::PartialEqSpecImpl;
use vstd::std_specs::ops::AddSpecImpl;
use super::Version;

verus! {

impl PartialEq<usize> for Version {
    fn eq(&self, rhs: &usize) -> (r: bool) {
        *rhs == self.0
    }
}

impl PartialEqSpecImpl<usize> for Version {
    open spec fn obeys_eq_spec() -> bool {
        true
    }

    open spec fn eq_spec(&self, rhs: &usize) -> bool {
        *rhs == self.0
    }
}

impl PartialEq<Version> for usize {
    fn eq(&self, rhs: &Version) -> (r: bool) {
        rhs.0 == *self
    }
}

impl PartialEqSpecImpl<Version> for usize {
    open spec fn obeys_eq_spec() -> bool {
        true
    }

    open spec fn eq_spec(&self, rhs: &Version) -> bool {
        rhs.0 == *self
    }
}

impl core::ops::Add<usize> for Version {
    type Output = Version;

    fn add(self, rhs: usize) -> (v: Version) {
        Version(self.0 + rhs)
    }
}

impl AddSpecImpl<usize> for Version {
    open spec fn obeys_add_spec() -> bool {
        true
    }

    /// The sum stays within `usize`.
    open spec fn add_req(self, rhs: usize) -> bool {
        self.0 + rhs <= usize::MAX
    }

    open spec fn add_spec(self, rhs: usize) -> Version {
        Version((self.0 + rhs) as usize)
    }
}

impl core::ops::AddAssign<usize> for Version {
    fn add_assign(&mut self, rhs: usize)
        requires
            old(self).0 + rhs <= usize::MAX,
        ensures
            final(self).0 == old(self).0 + rhs,
    {
        self.0 = self.0 + rhs;
    }
}

} // verus!
