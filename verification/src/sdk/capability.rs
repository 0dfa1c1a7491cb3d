//! Capabilities a userspace service can request and check.
use vstd::prelude::*;
use std::collections::BTreeSet;
use crate::sdk::error::{Error, ErrorCode, err};

verus! {

broadcast use vstd::std_specs::btree::group_btree_axioms;

/// A capability token, named by its id.
#[derive(Clone, Copy, Debug, PartialEq, Eq, Structural)]
pub struct Capability {
    pub id: u32,
}

/// The id that never names a capability.
pub const INVALID_CAPABILITY: u32 = 0;

/// A source of capabilities for a service.
pub trait CapabilityProvider {
    /// Asks for a capability to be granted.
    fn request(&mut self, capability: Capability) -> Result<(), Error>;

    /// Whether a capability has been granted.
    fn check(&self, capability: Capability) -> bool;
}

/// A capability provider that keeps its grants in memory.
pub struct InMemoryCapabilities {
    granted: BTreeSet<u32>,
}

impl InMemoryCapabilities {
    /// The ids granted so far.
    pub closed spec fn granted(&self) -> Set<u32> {
        self.granted@
    }

    /// A provider that has granted nothing.
    pub fn new() -> (p: Self)
        ensures
            p.granted() == Set::<u32>::empty(),
    {
        InMemoryCapabilities { granted: BTreeSet::new() }
    }
}

impl Default for InMemoryCapabilities {
    fn default() -> (p: Self)
        ensures
            p.granted() == Set::<u32>::empty(),
    {
        InMemoryCapabilities::new()
    }
}

impl CapabilityProvider for InMemoryCapabilities {
    /// Grants any capability but the invalid one.
    fn request(&mut self, capability: Capability) -> (r: Result<(), Error>)
        ensures
            capability.id == INVALID_CAPABILITY ==> r == Err::<(), Error>(err(ErrorCode::InvalidArgument))
                && final(self).granted() == old(self).granted(),
            capability.id != INVALID_CAPABILITY ==> r is Ok
                && final(self).granted() == old(self).granted().insert(capability.id),
    {
        if capability.id == INVALID_CAPABILITY {
            return Err(Error::new(ErrorCode::InvalidArgument));
        }
        self.granted.insert(capability.id);
        Ok(())
    }

    /// Whether the capability's id has been granted.
    fn check(&self, capability: Capability) -> (b: bool)
        ensures
            b == self.granted().contains(capability.id),
    {
        self.granted.contains(&capability.id)
    }
}

} // verus!
