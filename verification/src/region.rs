//! What the benchmark needs to know about a device region, as plain values.

use vstd::prelude::*;

verus! {

/// The operations a region allows.
#[derive(Clone, Copy, Debug, PartialEq, Eq, Structural)]
pub enum Permissions {
    /// Neither reading nor writing.
    NoAccess,
    ReadOnly,
    WriteOnly,
    ReadWrite,
}

impl Permissions {
    pub open spec fn spec_can_read(self) -> bool {
        self is ReadOnly || self is ReadWrite
    }

    pub open spec fn spec_can_write(self) -> bool {
        self is WriteOnly || self is ReadWrite
    }

    /// The permission set with exactly the given abilities.
    pub open spec fn spec_new(read: bool, write: bool) -> Permissions {
        if read && write {
            Permissions::ReadWrite
        } else if read {
            Permissions::ReadOnly
        } else if write {
            Permissions::WriteOnly
        } else {
            Permissions::NoAccess
        }
    }

    /// Whether `self` grants everything that `needed` asks for.
    pub open spec fn spec_covers(self, needed: Permissions) -> bool {
        &&& needed.spec_can_read() ==> self.spec_can_read()
        &&& needed.spec_can_write() ==> self.spec_can_write()
    }

    #[verifier::when_used_as_spec(spec_new)]
    pub fn new(read: bool, write: bool) -> (p: Permissions)
        ensures
            p == Permissions::spec_new(read, write),
            p.spec_can_read() == read,
            p.spec_can_write() == write,
    {
        if read && write {
            Permissions::ReadWrite
        } else if read {
            Permissions::ReadOnly
        } else if write {
            Permissions::WriteOnly
        } else {
            Permissions::NoAccess
        }
    }

    #[verifier::when_used_as_spec(spec_can_read)]
    pub fn can_read(self) -> (r: bool)
        ensures
            r == self.spec_can_read(),
    {
        match self {
            Permissions::ReadOnly | Permissions::ReadWrite => true,
            _ => false,
        }
    }

    #[verifier::when_used_as_spec(spec_can_write)]
    pub fn can_write(self) -> (w: bool)
        ensures
            w == self.spec_can_write(),
    {
        match self {
            Permissions::WriteOnly | Permissions::ReadWrite => true,
            _ => false,
        }
    }

    #[verifier::when_used_as_spec(spec_covers)]
    pub fn covers(self, needed: Permissions) -> (c: bool)
        ensures
            c == self.spec_covers(needed),
    {
        (!needed.can_read() || self.can_read()) && (!needed.can_write() || self.can_write())
    }
}

/// The facts about a region that decide whether a benchmark may run on it.
#[derive(Clone, Copy, Debug, PartialEq, Eq, Structural)]
pub struct RegionInfo {
    /// Length of the region in bytes.
    pub length: u64,
    /// What the region may be used for.
    pub permissions: Permissions,
    /// Whether a range of the region can be mapped into memory.
    pub mappable: bool,
}

} // verus!
