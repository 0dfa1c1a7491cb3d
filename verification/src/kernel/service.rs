//! The handoff record for the first userspace service.
use vstd::prelude::*;

verus! {

/// What the kernel hands the first userspace service: the ABI version it
/// speaks, and where the service starts and its stack is.
#[derive(Clone, Copy, Debug, PartialEq, Eq, Structural)]
pub struct UserServiceAbi {
    pub abi_version: u32,
    pub entry_point: u64,
    pub stack_pointer: u64,
}

/// The record the kernel publishes: ABI version 1, entry point and stack
/// not yet assigned.
pub fn service_abi() -> (abi: UserServiceAbi)
    ensures
        abi == (UserServiceAbi { abi_version: 1, entry_point: 0, stack_pointer: 0 }),
{
    UserServiceAbi { abi_version: 1, entry_point: 0, stack_pointer: 0 }
}

} // verus!
