//! The message ABI and the in-memory transport.
pub mod message_type;

use vstd::prelude::*;
use std::collections::HashMap;
use std::collections::VecDeque;
use crate::sdk::capability::Capability;
use crate::sdk::error::{Error, ErrorCode, err};

verus! {

/// Size in bytes of a message payload.
pub const PAYLOAD_SIZE: usize = 32;
/// The receiver id that addresses every service.
pub const BROADCAST_RECEIVER: u16 = 0xffff;
/// Version of the message ABI.
pub const ABI_VERSION: u32 = 3;

/// A routing rule: where messages of a given type go.
#[derive(Clone, Copy, Debug, PartialEq, Eq, Structural)]
pub struct RouteRule {
    pub message_type: u16,
    pub receiver: u16,
}

/// A fixed-size IPC message.
#[derive(Clone, Copy, Debug, PartialEq, Eq)]
pub struct Message {
    pub sender: u16,
    pub receiver: u16,
    pub message_type: u16,
    pub capability: Capability,
    pub payload: [u8; 32],
}

impl Message {
    /// Builds a message from its fields.
    pub fn new(
        sender: u16,
        receiver: u16,
        message_type: u16,
        capability: Capability,
        payload: [u8; 32],
    ) -> (m: Message)
        ensures
            m == (Message { sender, receiver, message_type, capability, payload }),
    {
        Message { sender, receiver, message_type, capability, payload }
    }
}

/// The answer to `request` carrying `payload`: same type and capability,
/// sender and receiver swapped.
pub open spec fn reply_message(request: Message, payload: [u8; 32]) -> Message {
    Message {
        sender: request.receiver,
        receiver: request.sender,
        message_type: request.message_type,
        capability: request.capability,
        payload,
    }
}

/// Whether a message may enter the in-memory transport: it names a sender,
/// a receiver and a capability.
pub open spec fn routable(message: Message) -> bool {
    message.sender != 0 && message.receiver != 0 && message.capability.id != 0
}

/// The queue of `receiver` in a map of queues; empty where it has none.
pub open spec fn queue_of(queues: Map<u16, Seq<Message>>, receiver: u16) -> Seq<Message> {
    if queues.contains_key(receiver) {
        queues[receiver]
    } else {
        Seq::empty()
    }
}

/// Number of messages in the queues of receivers `from` and above.
pub open spec fn messages_from(queues: Map<u16, Seq<Message>>, from: int) -> nat
    decreases 0x10000 - from,
{
    if from < 0 || from >= 0x10000 {
        0
    } else {
        queue_of(queues, from as u16).len() + messages_from(queues, from + 1)
    }
}

/// Number of messages held in all the queues.
pub open spec fn total_messages(queues: Map<u16, Seq<Message>>) -> nat {
    messages_from(queues, 0)
}

/// Changing the queue of one receiver changes the total by the difference
/// of that queue's lengths.
proof fn lemma_messages_from_update(
    a: Map<u16, Seq<Message>>,
    b: Map<u16, Seq<Message>>,
    key: u16,
    from: int,
)
    requires
        0 <= from <= 0x10000,
        forall|r: u16| r != key ==> queue_of(a, r) == queue_of(b, r),
    ensures
        from <= key ==> messages_from(b, from) + queue_of(a, key).len() == messages_from(a, from)
            + queue_of(b, key).len(),
        from > key ==> messages_from(b, from) == messages_from(a, from),
    decreases 0x10000 - from,
{
    if from < 0x10000 {
        lemma_messages_from_update(a, b, key, from + 1);
        assert(queue_of(a, from as u16) == queue_of(b, from as u16) || from == key);
    }
}

/// Message transport a service talks through.
pub trait Transport {
    /// Queues a message for its receiver.
    fn send(&mut self, message: Message) -> Result<(), Error>;

    /// Takes the oldest message queued for `receiver`.
    fn receive(&mut self, receiver: u16) -> Result<Message, Error>;

    /// Answers `request` with `payload`.
    fn reply(&mut self, request: &Message, payload: [u8; 32]) -> Result<(), Error>;
}

/// A transport that keeps one FIFO queue per receiver in memory, holding at
/// most `capacity` messages in all.
pub struct InMemoryTransport {
    queues: HashMap<u16, VecDeque<Message>>,
    queued: usize,
    capacity: usize,
}

impl InMemoryTransport {
    /// The queue of each receiver that has messages waiting.
    pub closed spec fn queues(&self) -> Map<u16, Seq<Message>> {
        self.queues@.map_values(|q: VecDeque<Message>| q@)
    }

    /// The messages waiting for `receiver`, oldest first.
    pub open spec fn pending(&self, receiver: u16) -> Seq<Message> {
        queue_of(self.queues(), receiver)
    }

    /// Most messages the transport holds at once.
    pub closed spec fn capacity(&self) -> nat {
        self.capacity as nat
    }

    /// Number of messages the transport holds.
    pub open spec fn queued(&self) -> nat {
        total_messages(self.queues())
    }

    #[verifier::type_invariant]
    closed spec fn well_formed(&self) -> bool {
        &&& self.queued == total_messages(self.queues())
        &&& self.queued <= self.capacity
        &&& forall|r: u16| #[trigger] self.queues().contains_key(r) ==> self.queues()[r].len() > 0
    }

    /// What a send of `message` does: refused without a route, refused when
    /// full, else appended to its receiver's queue.
    pub open spec fn send_outcome(self, message: Message, post: Self, r: Result<(), Error>) -> bool {
        &&& post.capacity() == self.capacity()
        &&& post.queued() <= post.capacity()
        &&& if !routable(message) {
            r == Err::<(), Error>(err(ErrorCode::PermissionDenied)) && post.queues() == self.queues()
        } else if self.queued() == self.capacity() {
            r == Err::<(), Error>(err(ErrorCode::QueueFull)) && post.queues() == self.queues()
        } else {
            r is Ok && post.queues() == self.queues().insert(
                message.receiver,
                self.pending(message.receiver).push(message),
            )
        }
    }

    /// What a receive for `receiver` does: refused when nothing waits, else
    /// the oldest waiting message leaves its queue.
    pub open spec fn receive_outcome(self, receiver: u16, post: Self, r: Result<Message, Error>) -> bool {
        &&& post.capacity() == self.capacity()
        &&& post.queued() <= post.capacity()
        &&& if self.pending(receiver).len() == 0 {
            r == Err::<Message, Error>(err(ErrorCode::QueueEmpty)) && post.queues() == self.queues()
        } else {
            &&& r == Ok::<Message, Error>(self.pending(receiver)[0])
            &&& post.queues() == if self.pending(receiver).len() == 1 {
                self.queues().remove(receiver)
            } else {
                self.queues().insert(receiver, self.pending(receiver).drop_first())
            }
        }
    }

    /// What a reply does: refused when the request lacks a sender or a
    /// receiver; else it sends the answer, back to the request's sender.
    pub open spec fn reply_outcome(self, request: Message, payload: [u8; 32], post: Self, r: Result<(), Error>) -> bool {
        if request.receiver == 0 || request.sender == 0 {
            &&& r == Err::<(), Error>(err(ErrorCode::InvalidArgument))
            &&& post.queues() == self.queues()
            &&& post.capacity() == self.capacity()
        } else {
            self.send_outcome(reply_message(request, payload), post, r)
        }
    }

    /// An empty transport that holds at most `capacity` messages.
    pub fn new(capacity: usize) -> (t: Self)
        ensures
            t.queues() == Map::<u16, Seq<Message>>::empty(),
            t.queued() == 0,
            t.capacity() == capacity,
    {
        let queues: HashMap<u16, VecDeque<Message>> = HashMap::new();
        proof {
            let view = queues@.map_values(|q: VecDeque<Message>| q@);
            assert(view =~= Map::<u16, Seq<Message>>::empty());
            lemma_empty_total(view, 0);
        }
        InMemoryTransport { queues, queued: 0, capacity }
    }
}

proof fn lemma_empty_total(m: Map<u16, Seq<Message>>, from: int)
    requires
        m == Map::<u16, Seq<Message>>::empty(),
        0 <= from <= 0x10000,
    ensures
        messages_from(m, from) == 0,
    decreases 0x10000 - from,
{
    if from < 0x10000 {
        lemma_empty_total(m, from + 1);
    }
}

impl Default for InMemoryTransport {
    /// An empty transport holding at most eight messages.
    fn default() -> (t: Self)
        ensures
            t.queues() == Map::<u16, Seq<Message>>::empty(),
            t.queued() == 0,
            t.capacity() == 8,
    {
        Self::new(8)
    }
}

impl Transport for InMemoryTransport {
    fn send(&mut self, message: Message) -> (r: Result<(), Error>)
        ensures
            old(self).send_outcome(message, *final(self), r),
    {
        proof { use_type_invariant(&*self); }
        if message.sender == 0 || message.receiver == 0 || message.capability.id == 0 {
            return Err(Error::new(ErrorCode::PermissionDenied));
        }
        if self.queued == self.capacity {
            return Err(Error::new(ErrorCode::QueueFull));
        }
        let receiver = message.receiver;
        let ghost before = self.queues();
        let mut this = InMemoryTransport::new(0);
        std::mem::swap(self, &mut this);
        let InMemoryTransport { mut queues, queued, capacity } = this;
        let mut queue = match queues.remove(&receiver) {
            Some(q) => q,
            None => VecDeque::new(),
        };
        queue.push_back(message);
        queues.insert(receiver, queue);
        let ghost after = queues@.map_values(|q: VecDeque<Message>| q@);
        proof {
            assert(after =~= before.insert(receiver, queue_of(before, receiver).push(message)));
            lemma_messages_from_update(before, after, receiver, 0);
        }
        *self = InMemoryTransport { queues, queued: queued + 1, capacity };
        Ok(())
    }

    fn receive(&mut self, receiver: u16) -> (r: Result<Message, Error>)
        ensures
            old(self).receive_outcome(receiver, *final(self), r),
    {
        proof { use_type_invariant(&*self); }
        let ghost before = self.queues();
        let mut this = InMemoryTransport::new(0);
        std::mem::swap(self, &mut this);
        let InMemoryTransport { mut queues, queued, capacity } = this;
        match queues.remove(&receiver) {
            None => {
                proof { assert(queues@.map_values(|q: VecDeque<Message>| q@) =~= before); }
                *self = InMemoryTransport { queues, queued, capacity };
                Err(Error::new(ErrorCode::QueueEmpty))
            },
            Some(mut queue) => {
                let ghost q0 = queue@;
                assert(before.contains_key(receiver));
                assert(before[receiver] == q0);
                match queue.pop_front() {
                    None => {
                        proof { assert(false); }
                        queues.insert(receiver, queue);
                        *self = InMemoryTransport { queues, queued, capacity };
                        Err(Error::new(ErrorCode::QueueEmpty))
                    },
                    Some(message) => {
                        if queue.len() > 0 {
                            queues.insert(receiver, queue);
                        }
                        let ghost after = queues@.map_values(|q: VecDeque<Message>| q@);
                        proof {
                            if q0.len() == 1 {
                                assert(after =~= before.remove(receiver));
                            } else {
                                assert(after =~= before.insert(receiver, q0.drop_first()));
                            }
                            lemma_messages_from_update(before, after, receiver, 0);
                        }
                        *self = InMemoryTransport { queues, queued: queued - 1, capacity };
                        Ok(message)
                    },
                }
            },
        }
    }

    fn reply(&mut self, request: &Message, payload: [u8; 32]) -> (r: Result<(), Error>)
        ensures
            request.receiver == 0 || request.sender == 0 ==> r == Err::<(), Error>(
                err(ErrorCode::InvalidArgument),
            ) && final(self).queues() == old(self).queues() && final(self).capacity()
                == old(self).capacity(),
            request.receiver != 0 && request.sender != 0 ==> old(self).send_outcome(
                reply_message(*request, payload),
                *final(self),
                r,
            ),
            old(self).reply_outcome(*request, payload, *final(self), r),
            r is Ok ==> {
                let answer = final(self).pending(request.sender).last();
                &&& final(self).pending(request.sender).len() == old(self).pending(request.sender).len() + 1
                &&& answer.payload == payload
                &&& answer.sender == request.receiver
                &&& answer.receiver == request.sender
                &&& answer.message_type == request.message_type
                &&& answer.capability == request.capability
            },
    {
        if request.receiver == 0 || request.sender == 0 {
            return Err(Error::new(ErrorCode::InvalidArgument));
        }
        self.send(
            Message::new(
                request.receiver,
                request.sender,
                request.message_type,
                request.capability,
                payload,
            ),
        )
    }
}

/// A message sent to a receiver with nothing waiting is the next message
/// that receiver gets, and getting it leaves every queue as it was.
pub proof fn law_send_then_receive(
    t0: InMemoryTransport,
    message: Message,
    t1: InMemoryTransport,
    sent: Result<(), Error>,
    t2: InMemoryTransport,
    received: Result<Message, Error>,
)
    requires
        t0.pending(message.receiver).len() == 0,
        t0.send_outcome(message, t1, sent),
        sent is Ok,
        t1.receive_outcome(message.receiver, t2, received),
    ensures
        received == Ok::<Message, Error>(message),
        forall|r: u16| #[trigger] t2.pending(r) == t0.pending(r),
{
    assert(t1.pending(message.receiver) =~= seq![message]);
    assert(t2.pending(message.receiver) =~= t0.pending(message.receiver));
}

/// Messages leave a receiver's queue in the order they were sent: a send
/// appends to the back, a receive takes from the front.
pub proof fn law_fifo(
    t0: InMemoryTransport,
    message: Message,
    t1: InMemoryTransport,
    sent: Result<(), Error>,
)
    requires
        t0.send_outcome(message, t1, sent),
        sent is Ok,
    ensures
        t1.pending(message.receiver) == t0.pending(message.receiver).push(message),
        t1.pending(message.receiver)[0] == if t0.pending(message.receiver).len() == 0 {
            message
        } else {
            t0.pending(message.receiver)[0]
        },
{
}

/// Receivers' queues are isolated: sending to one receiver, or receiving for
/// one, leaves every other receiver's queue as it was.
pub proof fn law_queues_isolated(
    t0: InMemoryTransport,
    message: Message,
    t1: InMemoryTransport,
    sent: Result<(), Error>,
    receiver: u16,
    t2: InMemoryTransport,
    received: Result<Message, Error>,
    other: u16,
)
    requires
        t0.send_outcome(message, t1, sent),
        t1.receive_outcome(receiver, t2, received),
        other != message.receiver,
        other != receiver,
    ensures
        t1.pending(other) == t0.pending(other),
        t2.pending(other) == t1.pending(other),
{
}

/// A reply that succeeds appends, to the queue of the request's sender, the
/// answer: from the request's receiver, with the request's type and
/// capability, and exactly the payload given.
pub proof fn law_reply_answers_sender(
    t0: InMemoryTransport,
    request: Message,
    payload: [u8; 32],
    t1: InMemoryTransport,
    r: Result<(), Error>,
)
    requires
        t0.reply_outcome(request, payload, t1, r),
        r is Ok,
    ensures
        t1.pending(request.sender).len() == t0.pending(request.sender).len() + 1,
        t1.pending(request.sender).subrange(0, t0.pending(request.sender).len() as int)
            == t0.pending(request.sender),
        t1.pending(request.sender).last().payload == payload,
        t1.pending(request.sender).last().sender == request.receiver,
        t1.pending(request.sender).last().receiver == request.sender,
        t1.pending(request.sender).last().message_type == request.message_type,
        t1.pending(request.sender).last().capability == request.capability,
{
    assert(t1.pending(request.sender) == t0.pending(request.sender).push(reply_message(request, payload)));
    assert(t1.pending(request.sender).subrange(0, t0.pending(request.sender).len() as int)
        =~= t0.pending(request.sender));
}

/// When the request's sender has nothing waiting, what it receives after a
/// successful reply carries exactly the payload given.
pub proof fn law_reply_then_receive(
    t0: InMemoryTransport,
    request: Message,
    payload: [u8; 32],
    t1: InMemoryTransport,
    r: Result<(), Error>,
    t2: InMemoryTransport,
    received: Result<Message, Error>,
)
    requires
        t0.pending(request.sender).len() == 0,
        t0.reply_outcome(request, payload, t1, r),
        r is Ok,
        t1.receive_outcome(request.sender, t2, received),
    ensures
        received is Ok,
        received->Ok_0.payload == payload,
        received->Ok_0.sender == request.receiver,
        received->Ok_0.receiver == request.sender,
        received->Ok_0.message_type == request.message_type,
{
    law_reply_answers_sender(t0, request, payload, t1, r);
    assert(t1.pending(request.sender)[0] == t1.pending(request.sender).last());
}

} // verus!
