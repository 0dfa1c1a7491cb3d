//! The userspace SDK: ABI types, transports, capabilities and services.
pub mod capability;
pub mod error;
pub mod ipc;
pub mod log;
pub mod service;
pub mod simulator;
pub mod syscall;

pub use error::{Error, ErrorCode};
pub use ipc::{Message, Transport};

use vstd::prelude::*;

verus! {

/// ABI version implemented by this SDK.
pub const ABI_VERSION: u32 = 2;

} // verus!
