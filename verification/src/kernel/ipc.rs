//! Kernel IPC: a fixed-size message queue guarded by a configurable
//! permission table and by capabilities.
use vstd::prelude::*;
use crate::kernel::capability::{Capability, CapabilityRegistry, IPC_SEND_CAPABILITY};

verus! {

/// Size in bytes of a message payload.
pub const PAYLOAD_SIZE: usize = 32;
/// How many messages the queue holds.
pub const MSG_CAPACITY: usize = 8;
/// How many rules a permission table holds.
pub const MAX_PERMISSION_RULES: usize = 8;

/// A kernel IPC message.
#[derive(Clone, Copy)]
pub struct Message {
    pub sender: u16,
    pub receiver: u16,
    pub message_type: u16,
    pub capability: Capability,
    pub payload: [u8; 32],
}

/// A rule letting `sender` send to `receiver` with `capability`.
#[derive(Clone, Copy, Debug, PartialEq, Eq, Structural)]
pub struct PermissionRule {
    pub sender: u16,
    pub receiver: u16,
    pub capability: Capability,
}

/// A table of permission rules; the first `count` of them are in force.
#[derive(Clone, Copy)]
pub struct PermissionConfig {
    pub rules: [PermissionRule; 8],
    pub count: u16,
}

/// The rule that permits nothing, filling unused entries.
pub open spec fn blank_rule() -> PermissionRule {
    PermissionRule { sender: 0, receiver: 0, capability: Capability { id: 0 } }
}

/// How many rules of a table are in force: its count, at most the table size.
pub open spec fn rules_in_force(count: u16) -> int {
    if count as int <= 8 {
        count as int
    } else {
        8
    }
}

/// Whether a rule permits a sender, receiver and capability.
pub open spec fn rule_matches(rule: PermissionRule, sender: u16, receiver: u16, capability: Capability) -> bool {
    rule.sender == sender && rule.receiver == receiver && rule.capability == capability
}

impl PermissionConfig {
    /// Whether a rule in force permits `sender` to send to `receiver` with
    /// `capability`.
    pub open spec fn spec_allows(&self, sender: u16, receiver: u16, capability: Capability) -> bool {
        exists|i: int|
            0 <= i < rules_in_force(self.count) && rule_matches(self.rules@[i], sender, receiver, capability)
    }

    /// A table with no rules.
    pub fn empty() -> (c: Self)
        ensures
            c.count == 0,
            forall|i: int| 0 <= i < 8 ==> c.rules@[i] == blank_rule(),
    {
        let blank = PermissionRule { sender: 0, receiver: 0, capability: Capability { id: 0 } };
        PermissionConfig { rules: [blank, blank, blank, blank, blank, blank, blank, blank], count: 0 }
    }

    /// A table holding the first rules given, as many as fit.
    pub fn with_rules(rules: &[PermissionRule]) -> (c: Self)
        ensures
            c.count as int == if rules@.len() <= 8 { rules@.len() as int } else { 8 },
            forall|i: int| 0 <= i < c.count ==> c.rules@[i] == rules@[i],
            forall|i: int| c.count <= i < 8 ==> c.rules@[i] == blank_rule(),
    {
        let mut config = Self::empty();
        let mut index: usize = 0;
        while index < rules.len() && index < MAX_PERMISSION_RULES
            invariant
                0 <= index <= 8,
                index <= rules@.len(),
                forall|i: int| 0 <= i < index ==> config.rules@[i] == rules@[i],
                forall|i: int| index <= i < 8 ==> config.rules@[i] == blank_rule(),
            decreases 8 - index,
        {
            config.rules[index] = rules[index];
            index += 1;
        }
        config.count = index as u16;
        config
    }

    /// Whether a rule in force permits `sender` to send to `receiver` with
    /// `capability`.
    pub fn allows(&self, sender: u16, receiver: u16, capability: Capability) -> (b: bool)
        ensures
            b == self.spec_allows(sender, receiver, capability),
    {
        let count: usize = if (self.count as usize) < MAX_PERMISSION_RULES {
            self.count as usize
        } else {
            MAX_PERMISSION_RULES
        };
        let mut index: usize = 0;
        while index < count
            invariant
                0 <= index <= count,
                count as int == rules_in_force(self.count),
                forall|i: int| 0 <= i < index ==> !rule_matches(self.rules@[i], sender, receiver, capability),
            decreases count - index,
        {
            let rule = self.rules[index];
            if rule.sender == sender && rule.receiver == receiver && rule.capability.id == capability.id {
                proof {
                    assert(rule.capability == capability);
                    assert(rule_matches(self.rules@[index as int], sender, receiver, capability));
                }
                return true;
            }
            index += 1;
        }
        false
    }
}

/// Whether `c` is the boot table: its one rule lets owner 1 send to
/// service 2 with the IPC send capability.
pub open spec fn is_boot_table(c: PermissionConfig) -> bool {
    &&& c.count == 1
    &&& c.rules@[0] == (PermissionRule { sender: 1, receiver: 2, capability: Capability { id: IPC_SEND_CAPABILITY } })
    &&& forall|i: int| 1 <= i < 8 ==> c.rules@[i] == blank_rule()
}

/// The table loaded at boot.
pub fn default_permissions() -> (c: PermissionConfig)
    ensures
        is_boot_table(c),
{
    let rules = [PermissionRule { sender: 1, receiver: 2, capability: Capability { id: IPC_SEND_CAPABILITY } }];
    PermissionConfig::with_rules(&rules)
}

/// The kernel's message queue and the permission table that guards it.
pub struct Ipc {
    queue: [Option<Message>; 8],
    head: usize,
    tail: usize,
    count: usize,
    permissions: PermissionConfig,
}

/// The queue slots from `head`, `count` of them, in order.
pub open spec fn ring_window(slots: Seq<Option<Message>>, head: int, count: int) -> Seq<Option<Message>> {
    Seq::new(count as nat, |i: int| slots[(head + i) % 8])
}

/// Filling the slot after the window extends the window by that slot.
proof fn lemma_ring_push(slots: Seq<Option<Message>>, head: int, count: int, message: Message)
    requires
        slots.len() == 8,
        0 <= head < 8,
        0 <= count < 8,
    ensures
        ring_window(slots.update((head + count) % 8, Some(message)), head, count + 1)
            == ring_window(slots, head, count).push(Some(message)),
{
    let tail = (head + count) % 8;
    let after = ring_window(slots.update(tail, Some(message)), head, count + 1);
    let before = ring_window(slots, head, count);
    assert forall|i: int| 0 <= i < count implies after[i] == before[i] by {
        assert((head + i) % 8 != tail);
    }
    assert(after =~= before.push(Some(message)));
}

/// Emptying the front slot empties the window's first slot.
proof fn lemma_ring_clear_front(slots: Seq<Option<Message>>, head: int, count: int)
    requires
        slots.len() == 8,
        0 <= head < 8,
        0 < count <= 8,
    ensures
        ring_window(slots.update(head, None), head, count) == ring_window(slots, head, count).update(0, None),
{
    let after = ring_window(slots.update(head, None), head, count);
    let before = ring_window(slots, head, count);
    assert forall|i: int| 1 <= i < count implies after[i] == before[i] by {
        assert((head + i) % 8 != head);
    }
    assert(after =~= before.update(0, None));
}

/// Emptying the front slot and moving past it drops the window's first slot.
proof fn lemma_ring_pop(slots: Seq<Option<Message>>, head: int, count: int)
    requires
        slots.len() == 8,
        0 <= head < 8,
        0 < count <= 8,
    ensures
        ring_window(slots.update(head, None), (head + 1) % 8, count - 1) == ring_window(slots, head, count).drop_first(),
{
    let after = ring_window(slots.update(head, None), (head + 1) % 8, count - 1);
    let before = ring_window(slots, head, count);
    assert forall|i: int| 0 <= i < count - 1 implies after[i] == before[i + 1] by {
        assert(((head + 1) % 8 + i) % 8 == (head + i + 1) % 8);
        assert((head + i + 1) % 8 != head);
    }
    assert(after =~= before.drop_first());
}

impl Ipc {
    #[verifier::type_invariant]
    closed spec fn ring_ok(&self) -> bool {
        &&& self.head < 8
        &&& self.tail < 8
        &&& self.count <= 8
        &&& self.tail == (self.head + self.count) % 8
    }

    /// The occupied queue slots, oldest first. A slot whose message was taken
    /// by a receiver it was not addressed to stays in the queue, empty.
    pub closed spec fn queued(&self) -> Seq<Option<Message>> {
        ring_window(self.queue@, self.head as int, self.count as int)
    }

    /// The permission table in force.
    pub closed spec fn permissions(&self) -> PermissionConfig {
        self.permissions
    }

    /// Whether `message` passes the permission table and its sender holds
    /// its capability.
    pub open spec fn may_send(&self, grants: CapabilityRegistry, message: Message) -> bool {
        &&& self.permissions().spec_allows(message.sender, message.receiver, message.capability)
        &&& grants.spec_holds(message.sender, message.capability)
    }

    /// What a send does: refused, with nothing changed, unless the message
    /// may be sent and the queue has room; else the message joins the back of
    /// the queue.
    pub open spec fn send_outcome(self, grants: CapabilityRegistry, message: Message, post: Self, r: Result<(), ()>) -> bool {
        if !self.may_send(grants, message) || self.queued().len() >= 8 {
            r is Err && post == self
        } else {
            &&& r is Ok
            &&& post.queued() == self.queued().push(Some(message))
            &&& post.permissions() == self.permissions()
        }
    }

    /// What a receive does: nothing when the front slot is missing or empty;
    /// else the front message leaves its slot, and the slot leaves the queue
    /// when the message is for `receiver`, who gets it.
    pub open spec fn recv_outcome(self, receiver: u16, post: Self, r: Option<Message>) -> bool {
        if self.queued().len() == 0 || self.queued()[0] is None {
            r is None && post == self
        } else {
            let m = self.queued()[0]->Some_0;
            &&& post.permissions() == self.permissions()
            &&& m.receiver != receiver ==> r is None && post.queued() == self.queued().update(0, None)
            &&& m.receiver == receiver ==> r == Some(m) && post.queued() == self.queued().drop_first()
        }
    }

    /// An empty queue under the boot permission table.
    pub fn new() -> (ipc: Self)
        ensures
            ipc.queued() == Seq::<Option<Message>>::empty(),
            is_boot_table(ipc.permissions()),
    {
        Ipc {
            queue: [None, None, None, None, None, None, None, None],
            head: 0,
            tail: 0,
            count: 0,
            permissions: default_permissions(),
        }
    }

    /// Replaces the permission table.
    pub fn load_permissions(&mut self, config: &PermissionConfig)
        ensures
            final(self).permissions() == *config,
            final(self).queued() == old(self).queued(),
    {
        proof { use_type_invariant(&*self); }
        *self = Ipc {
            queue: self.queue,
            head: self.head,
            tail: self.tail,
            count: self.count,
            permissions: *config,
        };
    }

    /// Loads the boot permission table.
    pub fn init(&mut self)
        ensures
            is_boot_table(final(self).permissions()),
            final(self).queued() == old(self).queued(),
    {
        let config = default_permissions();
        self.load_permissions(&config);
    }

    /// Queues `message` when the permission table allows it, its sender
    /// holds its capability and the queue has room.
    pub fn send(&mut self, grants: &CapabilityRegistry, message: Message) -> (r: Result<(), ()>)
        ensures
            old(self).send_outcome(*grants, message, *final(self), r),
            final(self).queued().len() <= MSG_CAPACITY,
    {
        proof { use_type_invariant(&*self); }
        if !self.permissions.allows(message.sender, message.receiver, message.capability)
            || !grants.holds(message.sender, message.capability) {
            return Err(());
        }
        if self.count == MSG_CAPACITY {
            return Err(());
        }
        let tail = self.tail;
        let mut queue = self.queue;
        queue[tail] = Some(message);
        let next = Ipc {
            queue,
            head: self.head,
            tail: (tail + 1) % MSG_CAPACITY,
            count: self.count + 1,
            permissions: self.permissions,
        };
        proof {
            lemma_ring_push(self.queue@, self.head as int, self.count as int, message);
        }
        *self = next;
        Ok(())
    }

    /// Takes the oldest queued message when it is addressed to `receiver`.
    /// A message addressed to another receiver is taken out of its slot and
    /// dropped, and its slot stays at the front of the queue, empty.
    pub fn recv(&mut self, receiver: u16) -> (r: Option<Message>)
        ensures
            old(self).recv_outcome(receiver, *final(self), r),
            final(self).queued().len() <= MSG_CAPACITY,
    {
        proof { use_type_invariant(&*self); }
        if self.count == 0 || self.queue[self.head].is_none() {
            return None;
        }
        let head = self.head;
        let message = self.queue[head];
        let mut queue = self.queue;
        queue[head] = None;
        match message {
            Some(m) => {
                if m.receiver != receiver {
                    proof {
                        lemma_ring_clear_front(self.queue@, head as int, self.count as int);
                    }
                    *self = Ipc {
                        queue,
                        head,
                        tail: self.tail,
                        count: self.count,
                        permissions: self.permissions,
                    };
                    return None;
                }
                proof {
                    lemma_ring_pop(self.queue@, head as int, self.count as int);
                }
                *self = Ipc {
                    queue,
                    head: (head + 1) % MSG_CAPACITY,
                    tail: self.tail,
                    count: self.count - 1,
                    permissions: self.permissions,
                };
                Some(m)
            },
            None => None,
        }
    }
}

/// The greeting the boot tasks exchange: "hello from A", zero-padded.
pub open spec fn greeting_payload() -> Seq<u8> {
    seq![104u8, 101, 108, 108, 111, 32, 102, 114, 111, 109, 32, 65] + Seq::new(20, |i: int| 0u8)
}

/// The greeting from owner 1 to service 2, sent with the IPC send capability.
pub fn test_message() -> (m: Message)
    ensures
        m.sender == 1,
        m.receiver == 2,
        m.message_type == 1,
        m.capability == (Capability { id: IPC_SEND_CAPABILITY }),
        m.payload@ == greeting_payload(),
{
    let mut payload = [0u8; 32];
    payload[0] = 104;
    payload[1] = 101;
    payload[2] = 108;
    payload[3] = 108;
    payload[4] = 111;
    payload[5] = 32;
    payload[6] = 102;
    payload[7] = 114;
    payload[8] = 111;
    payload[9] = 109;
    payload[10] = 32;
    payload[11] = 65;
    assert(payload@ =~= greeting_payload());
    Message {
        sender: 1,
        receiver: 2,
        message_type: 1,
        capability: Capability { id: IPC_SEND_CAPABILITY },
        payload,
    }
}

/// A message that may be sent, sent to an empty queue, is what its receiver
/// gets next, and getting it empties the queue again.
pub proof fn law_send_then_recv(
    q0: Ipc,
    grants: CapabilityRegistry,
    message: Message,
    q1: Ipc,
    sent: Result<(), ()>,
    q2: Ipc,
    received: Option<Message>,
)
    requires
        q0.queued().len() == 0,
        q0.may_send(grants, message),
        q0.send_outcome(grants, message, q1, sent),
        q1.recv_outcome(message.receiver, q2, received),
    ensures
        sent is Ok,
        received == Some(message),
        q2.queued() == q0.queued(),
{
    assert(q1.queued() =~= seq![Some(message)]);
    assert(q2.queued() =~= q0.queued());
}

/// The queue never holds more than [`MSG_CAPACITY`] slots: sends and
/// receives keep it within that bound.
pub proof fn law_queue_bounded(
    q0: Ipc,
    grants: CapabilityRegistry,
    message: Message,
    q1: Ipc,
    sent: Result<(), ()>,
    receiver: u16,
    q2: Ipc,
    received: Option<Message>,
)
    requires
        q0.queued().len() <= MSG_CAPACITY,
        q0.send_outcome(grants, message, q1, sent),
        q1.recv_outcome(receiver, q2, received),
    ensures
        q1.queued().len() <= MSG_CAPACITY,
        q2.queued().len() <= q1.queued().len(),
{
}

/// A message refused by the permission table or by the capability registry
/// leaves the queue untouched.
pub proof fn law_refused_send_changes_nothing(
    q0: Ipc,
    grants: CapabilityRegistry,
    message: Message,
    q1: Ipc,
    sent: Result<(), ()>,
)
    requires
        !q0.may_send(grants, message),
        q0.send_outcome(grants, message, q1, sent),
    ensures
        sent is Err,
        q1 == q0,
{
}

} // verus!
