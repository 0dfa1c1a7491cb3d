# rootware

The logic of the Rootware microkernel and of its userspace SDK, written in
Verus with contracts that the verifier proves.

- `src/sdk/`: the message ABI, the in-memory transport (one FIFO queue per
  receiver under a global capacity), the syscall transport (unsupported off the
  kernel target), capabilities, and the service registry with the echo service.
- `src/kernel/`: the capability registry, the permission-checked IPC queue, the
  audit log ring, four-level page tables, the Multiboot2 boot-information walk,
  descriptor-table entries, the system-call handler, the APIC timer count and
  the round-robin scheduler's bookkeeping.
- `app/`: a small service program and the SDK's logging to standard error.
- `tests/`: scenarios run against the compiled library.
