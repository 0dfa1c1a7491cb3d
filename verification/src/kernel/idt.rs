//! Interrupt descriptors and the IPC system-call handler.
use vstd::prelude::*;
use crate::kernel::capability::CapabilityRegistry;
use crate::kernel::ipc::{Ipc, Message};

verus! {

/// One interrupt-gate descriptor: a handler address split in three, with
/// its code-segment selector and type.
#[derive(Clone, Copy, Debug, PartialEq, Eq, Structural)]
pub struct IdtEntry {
    pub offset_low: u16,
    pub selector: u16,
    pub ist: u8,
    pub type_attr: u8,
    pub offset_middle: u16,
    pub offset_high: u32,
    pub reserved: u32,
}

/// The interrupt gate to `handler` through code segment `selector`, of type
/// `type_attr`: the handler address split into its low 16, middle 16 and
/// high 32 bits.
pub open spec fn gate(handler: u64, selector: u16, type_attr: u8) -> IdtEntry {
    IdtEntry {
        offset_low: (handler % 0x1_0000) as u16,
        selector,
        ist: 0,
        type_attr,
        offset_middle: ((handler / 0x1_0000) % 0x1_0000) as u16,
        offset_high: (handler / 0x1_0000_0000) as u32,
        reserved: 0,
    }
}

/// The descriptor with every field zero.
pub open spec fn missing_gate() -> IdtEntry {
    IdtEntry { offset_low: 0, selector: 0, ist: 0, type_attr: 0, offset_middle: 0, offset_high: 0, reserved: 0 }
}

/// Number of descriptors in the table.
pub const IDT_ENTRIES: usize = 256;
/// Kernel code-segment selector.
pub const KERNEL_CODE_SELECTOR: u16 = 0x08;
/// Present, ring 0, 64-bit interrupt gate.
pub const INTERRUPT_GATE: u8 = 0x8E;
/// Present, ring 3, 64-bit interrupt gate, callable from user mode.
pub const USER_INTERRUPT_GATE: u8 = 0xEE;
/// The table's limit: its size in bytes, 16 per descriptor, less one.
pub const IDT_LIMIT: u16 = 4095;

/// What the `lidt` instruction loads: the table's limit and address.
#[derive(Clone, Copy, Debug, PartialEq, Eq, Structural)]
pub struct IdtPointer {
    pub size: u16,
    pub offset: u64,
}

/// The interrupt table the kernel loads, given its handlers' addresses:
/// divide-by-zero at vector 0, double fault at 8, page fault at 14 and the
/// timer at 32 as kernel interrupt gates; the system call at vector 128 as a
/// gate user mode may call; every other vector missing.
pub fn table(divide_by_zero: u64, double_fault: u64, page_fault: u64, timer: u64, syscall: u64) -> (t: [IdtEntry; 256])
    ensures
        t@[0] == gate(divide_by_zero, KERNEL_CODE_SELECTOR, INTERRUPT_GATE),
        t@[8] == gate(double_fault, KERNEL_CODE_SELECTOR, INTERRUPT_GATE),
        t@[14] == gate(page_fault, KERNEL_CODE_SELECTOR, INTERRUPT_GATE),
        t@[32] == gate(timer, KERNEL_CODE_SELECTOR, INTERRUPT_GATE),
        t@[128] == gate(syscall, KERNEL_CODE_SELECTOR, USER_INTERRUPT_GATE),
        forall|v: int|
            0 <= v < 256 && v != 0 && v != 8 && v != 14 && v != 32 && v != 128 ==> t@[v] == missing_gate(),
{
    let missing = IdtEntry::missing();
    let mut t = [missing; 256];
    t[0] = IdtEntry::new(divide_by_zero, KERNEL_CODE_SELECTOR, INTERRUPT_GATE);
    t[14] = IdtEntry::new(page_fault, KERNEL_CODE_SELECTOR, INTERRUPT_GATE);
    t[8] = IdtEntry::new(double_fault, KERNEL_CODE_SELECTOR, INTERRUPT_GATE);
    t[32] = IdtEntry::new(timer, KERNEL_CODE_SELECTOR, INTERRUPT_GATE);
    t[128] = IdtEntry::new(syscall, KERNEL_CODE_SELECTOR, USER_INTERRUPT_GATE);
    t
}

/// The pointer to load for a table at address `offset`.
pub fn table_pointer(offset: u64) -> (p: IdtPointer)
    ensures
        p == (IdtPointer { size: IDT_LIMIT, offset }),
{
    IdtPointer { size: IDT_LIMIT, offset }
}

impl IdtEntry {
    /// The handler address the descriptor's three offset fields make up.
    pub open spec fn handler(self) -> int {
        self.offset_low + self.offset_middle * 0x1_0000 + self.offset_high * 0x1_0000_0000
    }

    /// A descriptor with every field zero.
    pub fn missing() -> (e: Self)
        ensures
            e == missing_gate(),
    {
        IdtEntry {
            offset_low: 0,
            selector: 0,
            ist: 0,
            type_attr: 0,
            offset_middle: 0,
            offset_high: 0,
            reserved: 0,
        }
    }

    /// A gate to `handler` through code segment `selector`, of type
    /// `type_attr`.
    pub fn new(handler: u64, selector: u16, type_attr: u8) -> (e: Self)
        ensures
            e == gate(handler, selector, type_attr),
            e.handler() == handler,
            e.offset_low == handler % 0x1_0000,
            e.offset_middle == (handler / 0x1_0000) % 0x1_0000,
            e.offset_high == handler / 0x1_0000_0000,
            e.selector == selector,
            e.type_attr == type_attr,
            e.ist == 0,
            e.reserved == 0,
    {
        let low = (handler & 0xFFFF) as u16;
        let middle = ((handler >> 16) & 0xFFFF) as u16;
        let high = ((handler >> 32) & 0xFFFFFFFF) as u32;
        assert(handler & 0xFFFF == handler % 0x1_0000) by (bit_vector);
        assert((handler >> 16) & 0xFFFF == (handler / 0x1_0000) % 0x1_0000) by (bit_vector);
        assert((handler >> 32) & 0xFFFFFFFF == handler / 0x1_0000_0000) by (bit_vector);
        assert(handler == handler % 0x1_0000 + ((handler / 0x1_0000) % 0x1_0000) * 0x1_0000
            + (handler / 0x1_0000_0000) * 0x1_0000_0000) by (bit_vector);
        IdtEntry {
            offset_low: low,
            selector,
            ist: 0,
            type_attr,
            offset_middle: middle,
            offset_high: high,
            reserved: 0,
        }
    }
}

/// Send the message at the first argument.
pub const IPC_SEND: u64 = 1;
/// Receive a message for the service named by the first argument into the
/// second.
pub const IPC_RECEIVE: u64 = 2;
/// Answer the request at the first argument with the payload at the second.
pub const IPC_REPLY: u64 = 3;

/// The answer to `request` carrying `payload`: same type and capability,
/// sender and receiver swapped.
pub open spec fn response_to(request: Message, payload: [u8; 32]) -> Message {
    Message {
        sender: request.receiver,
        receiver: request.sender,
        message_type: request.message_type,
        capability: request.capability,
        payload,
    }
}

/// Whether the caller supplied what the call reads from user memory: the
/// message at a non-null first argument of a send or reply, and the payload
/// at a non-null second argument of a reply.
pub open spec fn arguments_read(number: u64, first: u64, second: u64, at_first: Option<Message>, at_second: Option<[u8; 32]>) -> bool {
    &&& (number == IPC_SEND || number == IPC_REPLY) && first != 0 ==> at_first is Some
    &&& number == IPC_REPLY && second != 0 ==> at_second is Some
}

/// What an IPC system call does to the queue and returns, for the values
/// read at its two arguments.
pub open spec fn syscall_outcome(
    pre: Ipc,
    grants: CapabilityRegistry,
    number: u64,
    first: u64,
    second: u64,
    at_first: Option<Message>,
    at_second: Option<[u8; 32]>,
    post: Ipc,
    r: (i64, Option<Message>),
) -> bool {
    &&& number == IPC_SEND && first == 0 ==> r == (-1i64, None::<Message>) && post == pre
    &&& number == IPC_SEND && first != 0 ==> exists|s: Result<(), ()>|
        pre.send_outcome(grants, at_first->Some_0, post, s) && r == (if s is Ok { 0i64 } else { -7i64 }, None::<Message>)
    &&& number == IPC_RECEIVE && second == 0 ==> r == (-1i64, None::<Message>) && post == pre
    &&& number == IPC_RECEIVE && second != 0 ==> pre.recv_outcome((#[verifier::truncate] (first as u16)), post, r.1)
        && r.0 == if r.1 is Some { 0i64 } else { -4i64 }
    &&& number == IPC_REPLY && (first == 0 || second == 0) ==> r == (-1i64, None::<Message>) && post == pre
    &&& number == IPC_REPLY && first != 0 && second != 0 && (at_first->Some_0.receiver == 0
        || at_first->Some_0.sender == 0) ==> r == (-1i64, None::<Message>) && post == pre
    &&& number == IPC_REPLY && first != 0 && second != 0 && at_first->Some_0.receiver != 0
        && at_first->Some_0.sender != 0 ==> exists|s: Result<(), ()>|
        pre.send_outcome(grants, response_to(at_first->Some_0, at_second->Some_0), post, s)
        && r == (if s is Ok { 0i64 } else { -7i64 }, None::<Message>)
    &&& number != IPC_SEND && number != IPC_RECEIVE && number != IPC_REPLY ==> r == (-6i64, None::<Message>)
        && post == pre
}

/// Handles an IPC system call. `at_first` and `at_second` are what user
/// memory holds at the two arguments, read where the call reads them.
/// Returns the status for the caller, zero on success, and the message to
/// write at the second argument of a successful receive.
pub fn syscall_handler(
    ipc: &mut Ipc,
    grants: &CapabilityRegistry,
    number: u64,
    first: u64,
    second: u64,
    at_first: Option<Message>,
    at_second: Option<[u8; 32]>,
) -> (r: (i64, Option<Message>))
    requires
        arguments_read(number, first, second, at_first, at_second),
    ensures
        number == IPC_SEND && first == 0 ==> r == (-1i64, None::<Message>) && *final(ipc) == *old(ipc),
        number == IPC_SEND && first != 0 ==> exists|s: Result<(), ()>|
            old(ipc).send_outcome(*grants, at_first->Some_0, *final(ipc), s)
            && r == (if s is Ok { 0i64 } else { -7i64 }, None::<Message>),
        number == IPC_RECEIVE && second == 0 ==> r == (-1i64, None::<Message>) && *final(ipc) == *old(ipc),
        number == IPC_RECEIVE && second != 0 ==> old(ipc).recv_outcome((#[verifier::truncate] (first as u16)), *final(ipc), r.1)
            && r.0 == if r.1 is Some { 0i64 } else { -4i64 },
        number == IPC_REPLY && (first == 0 || second == 0) ==> r == (-1i64, None::<Message>) && *final(ipc)
            == *old(ipc),
        number == IPC_REPLY && first != 0 && second != 0 && (at_first->Some_0.receiver == 0
            || at_first->Some_0.sender == 0) ==> r == (-1i64, None::<Message>) && *final(ipc) == *old(ipc),
        number == IPC_REPLY && first != 0 && second != 0 && at_first->Some_0.receiver != 0
            && at_first->Some_0.sender != 0 ==> exists|s: Result<(), ()>|
            old(ipc).send_outcome(
                *grants,
                response_to(at_first->Some_0, at_second->Some_0),
                *final(ipc),
                s,
            ) && r == (if s is Ok { 0i64 } else { -7i64 }, None::<Message>),
        number != IPC_SEND && number != IPC_RECEIVE && number != IPC_REPLY ==> r == (
            -6i64,
            None::<Message>,
        ) && *final(ipc) == *old(ipc),
        syscall_outcome(*old(ipc), *grants, number, first, second, at_first, at_second, *final(ipc), r),
        number == IPC_REPLY && r.0 == 0 ==> {
            let m = final(ipc).queued().last()->Some_0;
            &&& final(ipc).queued().len() == old(ipc).queued().len() + 1
            &&& final(ipc).queued().last() is Some
            &&& m.payload == at_second->Some_0
            &&& m.sender == at_first->Some_0.receiver
            &&& m.receiver == at_first->Some_0.sender
            &&& m.message_type == at_first->Some_0.message_type
            &&& m.capability == at_first->Some_0.capability
        },
{
    if number == IPC_SEND {
        if first == 0 {
            return (-1, None);
        }
        let message = at_first.unwrap();
        let sent = ipc.send(grants, message);
        match sent {
            Ok(()) => (0, None),
            Err(()) => (-7, None),
        }
    } else if number == IPC_RECEIVE {
        if second == 0 {
            return (-1, None);
        }
        match ipc.recv(#[verifier::truncate] (first as u16)) {
            Some(message) => (0, Some(message)),
            None => (-4, None),
        }
    } else if number == IPC_REPLY {
        if first == 0 || second == 0 {
            return (-1, None);
        }
        let request = at_first.unwrap();
        if request.receiver == 0 || request.sender == 0 {
            return (-1, None);
        }
        let payload = at_second.unwrap();
        let response = Message {
            sender: request.receiver,
            receiver: request.sender,
            message_type: request.message_type,
            capability: request.capability,
            payload,
        };
        assert(response == response_to(request, payload));
        let ghost before = *ipc;
        let sent = ipc.send(grants, response);
        assert(before.send_outcome(*grants, response_to(at_first->Some_0, at_second->Some_0), *ipc, sent));
        match sent {
            Ok(()) => (0, None),
            Err(()) => (-7, None),
        }
    } else {
        (-6, None)
    }
}

/// The model-specific register holding the system-call entry address.
pub const IA32_LSTAR: u32 = 0xc000_0082;
/// The model-specific register holding the system-call segment selectors.
pub const IA32_STAR: u32 = 0xc000_0081;
/// The extended feature-enable register.
pub const IA32_EFER: u32 = 0xc000_0080;

/// The values written to the system-call registers, each as the low and high
/// 32-bit halves `wrmsr` takes.
#[derive(Clone, Copy, Debug, PartialEq, Eq, Structural)]
pub struct SyscallRegisters {
    pub lstar_low: u32,
    pub lstar_high: u32,
    pub star_low: u32,
    pub star_high: u32,
    pub efer_low: u32,
    pub efer_high: u32,
}

/// The system-call register values, given the address of the system-call
/// entry and the current extended feature-enable register: the entry address
/// in LSTAR, the selector pair 0x0008 / 0x000b_0008 in STAR, and the feature
/// register with its system-call-enable bit (bit 0) set.
pub fn syscall_registers(entry: u64, efer_low: u32, efer_high: u32) -> (r: SyscallRegisters)
    ensures
        r.lstar_low == entry % 0x1_0000_0000,
        r.lstar_high == entry / 0x1_0000_0000,
        r.lstar_low + r.lstar_high * 0x1_0000_0000 == entry,
        r.star_low == 0x0008,
        r.star_high == 0x000b_0008,
        r.efer_low == efer_low | 1,
        r.efer_low % 2 == 1,
        r.efer_high == efer_high,
{
    let lstar_low = entry as u32;
    let lstar_high = (entry >> 32) as u32;
    assert(lstar_low == entry % 0x1_0000_0000) by (bit_vector)
        requires lstar_low == entry as u32;
    assert((entry >> 32) == entry / 0x1_0000_0000) by (bit_vector);
    assert((efer_low | 1) % 2 == 1) by (bit_vector);
    SyscallRegisters {
        lstar_low,
        lstar_high,
        star_low: 0x0008,
        star_high: 0x000b_0008,
        efer_low: efer_low | 1,
        efer_high,
    }
}

/// A reply that succeeds queues, behind what was queued, the answer to the
/// request: from the request's receiver back to its sender, with the
/// request's type and capability and the payload read at the second argument.
pub proof fn law_reply_queues_answer(
    pre: Ipc,
    grants: CapabilityRegistry,
    first: u64,
    second: u64,
    request: Message,
    payload: [u8; 32],
    post: Ipc,
    r: (i64, Option<Message>),
)
    requires
        syscall_outcome(pre, grants, IPC_REPLY, first, second, Some(request), Some(payload), post, r),
        r.0 == 0,
    ensures
        post.queued().len() == pre.queued().len() + 1,
        post.queued().subrange(0, pre.queued().len() as int) == pre.queued(),
        post.queued().last() is Some,
        post.queued().last()->Some_0.payload == payload,
        post.queued().last()->Some_0.sender == request.receiver,
        post.queued().last()->Some_0.receiver == request.sender,
        post.queued().last()->Some_0.message_type == request.message_type,
        post.queued().last()->Some_0.capability == request.capability,
{
    let s = choose|s: Result<(), ()>|
        pre.send_outcome(grants, response_to(request, payload), post, s) && r == (if s is Ok { 0i64 } else { -7i64 }, None::<Message>);
    assert(post.queued() == pre.queued().push(Some(response_to(request, payload))));
    assert(post.queued().subrange(0, pre.queued().len() as int) =~= pre.queued());
}

/// A reply to a requester with nothing queued is what the requester receives
/// next, with the payload read at the second argument.
pub proof fn law_reply_then_receive(
    pre: Ipc,
    grants: CapabilityRegistry,
    first: u64,
    second: u64,
    request: Message,
    payload: [u8; 32],
    mid: Ipc,
    r: (i64, Option<Message>),
    post: Ipc,
    received: Option<Message>,
)
    requires
        pre.queued().len() == 0,
        syscall_outcome(pre, grants, IPC_REPLY, first, second, Some(request), Some(payload), mid, r),
        r.0 == 0,
        mid.recv_outcome(request.sender, post, received),
    ensures
        received is Some,
        received->Some_0.payload == payload,
        received->Some_0.sender == request.receiver,
        received->Some_0.receiver == request.sender,
{
    law_reply_queues_answer(pre, grants, first, second, request, payload, mid, r);
    assert(mid.queued()[0] == mid.queued().last());
}

} // verus!
