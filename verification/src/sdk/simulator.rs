//! Linux-hosted simulator primitives for SDK integration tests.
use vstd::prelude::*;
use crate::sdk::error::Error;
use crate::sdk::ipc::{InMemoryTransport, Message, Transport};

verus! {

/// A hosted stand-in for the kernel, carrying messages in memory.
pub struct Simulator {
    pub ipc: InMemoryTransport,
}

impl Default for Simulator {
    fn default() -> (s: Self)
        ensures
            s.ipc.queues() == Map::<u16, Seq<Message>>::empty(),
            s.ipc.capacity() == 8,
    {
        Simulator { ipc: InMemoryTransport::default() }
    }
}

impl Simulator {
    /// Sends through the in-memory transport.
    pub fn send(&mut self, message: Message) -> (r: Result<(), Error>)
        ensures
            old(self).ipc.send_outcome(message, final(self).ipc, r),
    {
        self.ipc.send(message)
    }

    /// Receives through the in-memory transport.
    pub fn receive(&mut self, receiver: u16) -> (r: Result<Message, Error>)
        ensures
            old(self).ipc.receive_outcome(receiver, final(self).ipc, r),
    {
        self.ipc.receive(receiver)
    }
}

} // verus!
