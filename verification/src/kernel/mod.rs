//! Kernel-side logic: capability grants, the IPC queue, the audit log,
//! page tables and boot-information parsing.
pub mod capability;
pub mod ipc;
pub mod audit;
pub mod vmem;
pub mod memory;
pub mod gdt;
pub mod idt;
pub mod serial;
pub mod timer;
pub mod scheduler;
pub mod service;
pub mod boot;
