//! Rootware kernel syscall transport.
//!
//! Rootware uses the x86_64 `syscall` instruction with the syscall number in
//! `rax`. The kernel returns zero on success and a negative error code on
//! failure; [`status_result`], [`receive_buffer`] and [`receive_result`] turn
//! that into a result. This library makes no syscall itself: its
//! [`SyscallTransport`] reports [`ErrorCode::Unsupported`] for every
//! operation, on every target, after checking a reply's route.
use vstd::prelude::*;
use crate::sdk::error::{Error, ErrorCode, err};
use crate::sdk::capability::Capability;
use crate::sdk::ipc::{Message, Transport};

verus! {

/// Send an IPC message.
pub const SYS_IPC_SEND: u64 = 1;
/// Receive an IPC message for a service.
pub const SYS_IPC_RECEIVE: u64 = 2;
/// Reply to an IPC request.
pub const SYS_IPC_REPLY: u64 = 3;

/// The error code a kernel status code stands for; its sign is ignored.
pub open spec fn status_code(status: i64) -> ErrorCode {
    let code = if status < 0 { -status } else { status as int };
    let low = (code as u32);
    if low == 1 {
        ErrorCode::InvalidArgument
    } else if low == 2 {
        ErrorCode::PermissionDenied
    } else if low == 3 {
        ErrorCode::QueueFull
    } else if low == 4 {
        ErrorCode::QueueEmpty
    } else if low == 5 {
        ErrorCode::NotFound
    } else if low == 6 {
        ErrorCode::Unsupported
    } else {
        ErrorCode::Transport
    }
}

/// Turns a kernel status into a result: zero is success, anything else the
/// error its magnitude names (its low 32 bits).
pub fn status_result(status: i64) -> (r: Result<(), Error>)
    requires
        status != i64::MIN,
    ensures
        status == 0 ==> r is Ok,
        status != 0 ==> r == Err::<(), Error>(err(status_code(status))),
{
    if status == 0 {
        return Ok(());
    }
    let code: i64 = if status < 0 { -status } else { status };
    let low: u32 = code as u32;
    let error = if low == 1 {
        ErrorCode::InvalidArgument
    } else if low == 2 {
        ErrorCode::PermissionDenied
    } else if low == 3 {
        ErrorCode::QueueFull
    } else if low == 4 {
        ErrorCode::QueueEmpty
    } else if low == 5 {
        ErrorCode::NotFound
    } else if low == 6 {
        ErrorCode::Unsupported
    } else {
        ErrorCode::Transport
    };
    Err(Error::new(error))
}

/// The message a receive asks the kernel to fill: addressed to `receiver`,
/// everything else zero.
pub fn receive_buffer(receiver: u16) -> (m: Message)
    ensures
        m.sender == 0,
        m.receiver == receiver,
        m.message_type == 0,
        m.capability == (Capability { id: 0 }),
        m.payload@ == Seq::new(32, |i: int| 0u8),
{
    let m = Message::new(0, receiver, 0, Capability { id: 0 }, [0u8; 32]);
    assert(m.payload@ =~= Seq::new(32, |i: int| 0u8));
    m
}

/// The result of a receive on the Rootware target, given the status the
/// kernel returned and the buffer as the kernel left it: the buffer when the
/// status is zero, else the error the status names.
pub fn receive_result(status: i64, buffer: Message) -> (r: Result<Message, Error>)
    requires
        status != i64::MIN,
    ensures
        status == 0 ==> r == Ok::<Message, Error>(buffer),
        status != 0 ==> r == Err::<Message, Error>(err(status_code(status))),
{
    match status_result(status) {
        Ok(()) => Ok(buffer),
        Err(e) => Err(e),
    }
}

/// The answer of every operation off the Rootware target.
pub fn unsupported<T>() -> (r: Result<T, Error>)
    ensures
        r == Err::<T, Error>(err(ErrorCode::Unsupported)),
{
    Err(Error::new(ErrorCode::Unsupported))
}

/// The kernel-call transport. No syscall is made here: every operation
/// reports [`ErrorCode::Unsupported`], on every target.
#[derive(Clone, Copy, Debug)]
pub struct SyscallTransport;

impl SyscallTransport {
    /// Creates a kernel-backed transport.
    pub fn new() -> (t: Self)
        ensures
            t == SyscallTransport,
    {
        SyscallTransport
    }
}

impl Default for SyscallTransport {
    fn default() -> (t: Self)
        ensures
            t == SyscallTransport,
    {
        SyscallTransport
    }
}

impl Transport for SyscallTransport {
    fn send(&mut self, message: Message) -> (r: Result<(), Error>)
        ensures
            r == Err::<(), Error>(err(ErrorCode::Unsupported)),
    {
        unsupported()
    }

    fn receive(&mut self, receiver: u16) -> (r: Result<Message, Error>)
        ensures
            r == Err::<Message, Error>(err(ErrorCode::Unsupported)),
    {
        unsupported()
    }

    /// Checks the route before the kernel is asked.
    fn reply(&mut self, request: &Message, payload: [u8; 32]) -> (r: Result<(), Error>)
        ensures
            request.receiver == 0 || request.sender == 0 ==> r == Err::<(), Error>(
                err(ErrorCode::InvalidArgument),
            ),
            request.receiver != 0 && request.sender != 0 ==> r == Err::<(), Error>(
                err(ErrorCode::Unsupported),
            ),
    {
        if request.receiver == 0 || request.sender == 0 {
            return Err(Error::new(ErrorCode::InvalidArgument));
        }
        unsupported()
    }
}

/// A status and its negation stand for the same error.
pub proof fn law_status_sign_ignored(status: i64)
    requires
        status != i64::MIN,
    ensures
        status_code(status) == status_code((-status) as i64),
{
}

} // verus!
