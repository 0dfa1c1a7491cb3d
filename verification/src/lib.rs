//! Rootware: the IPC, capability, service and memory-management logic of a
//! small microkernel and of its userspace SDK, with verified contracts.
pub mod kernel;
pub mod sdk;
