//! Fixed-size in-memory IPC audit log: the most recent entries, oldest first.
use vstd::prelude::*;

verus! {

/// How many entries the log keeps.
pub const AUDIT_CAPACITY: usize = 32;

/// One audited IPC event.
#[derive(Clone, Copy, Debug, PartialEq, Eq, Structural)]
pub struct AuditEntry {
    pub timestamp: u64,
    pub sender: u16,
    pub receiver: u16,
    pub message_type: u16,
    pub result: u16,
    pub capability: u32,
}

/// The entries of `entries` recorded for `sender`, in order.
pub open spec fn entries_from(entries: Seq<AuditEntry>, sender: u16) -> Seq<AuditEntry> {
    entries.filter(|e: AuditEntry| e.sender == sender)
}

/// The log after recording `entry`: it is appended, and the oldest entry
/// leaves when the log was full.
pub open spec fn after_record(entries: Seq<AuditEntry>, entry: AuditEntry) -> Seq<AuditEntry> {
    if entries.len() < 32 {
        entries.push(entry)
    } else {
        entries.drop_first().push(entry)
    }
}

/// Position of the oldest of `count` entries whose successor goes at `next`.
pub open spec fn ring_start(next: int, count: int) -> int {
    (next + 32 - count) % 32
}

/// Whether the `count` slots before `next` all hold entries.
pub open spec fn ring_filled(log: Seq<Option<AuditEntry>>, next: int, count: int) -> bool {
    &&& log.len() == 32
    &&& 0 <= next < 32
    &&& 0 <= count <= 32
    &&& forall|i: int| 0 <= i < count ==> (#[trigger] log[(ring_start(next, count) + i) % 32]) is Some
}

/// The entries in the `count` slots before `next`, oldest first.
pub open spec fn ring_entries(log: Seq<Option<AuditEntry>>, next: int, count: int) -> Seq<AuditEntry> {
    Seq::new(count as nat, |i: int| log[(ring_start(next, count) + i) % 32]->Some_0)
}

/// Writing an entry at `next` of a log with room appends it.
proof fn lemma_record_with_room(log: Seq<Option<AuditEntry>>, next: int, count: int, entry: AuditEntry)
    requires
        ring_filled(log, next, count),
        count < 32,
    ensures
        ring_filled(log.update(next, Some(entry)), (next + 1) % 32, count + 1),
        ring_entries(log.update(next, Some(entry)), (next + 1) % 32, count + 1)
            == ring_entries(log, next, count).push(entry),
{
    let log2 = log.update(next, Some(entry));
    let start = ring_start(next, count);
    assert(ring_start((next + 1) % 32, count + 1) == start);
    assert forall|i: int| 0 <= i < count + 1 implies (#[trigger] log2[(start + i) % 32]) is Some by {
        if i < count {
            assert((start + i) % 32 != next);
            assert(log[(start + i) % 32] is Some);
        } else {
            assert((start + i) % 32 == next);
        }
    }
    let before = ring_entries(log, next, count);
    let after = ring_entries(log2, (next + 1) % 32, count + 1);
    assert forall|i: int| 0 <= i < count implies after[i] == before[i] by {
        assert((start + i) % 32 != next);
    }
    assert((start + count) % 32 == next);
    assert(after =~= before.push(entry));
}

/// Writing an entry at `next` of a full log replaces the oldest entry.
proof fn lemma_record_full(log: Seq<Option<AuditEntry>>, next: int, entry: AuditEntry)
    requires
        ring_filled(log, next, 32),
    ensures
        ring_filled(log.update(next, Some(entry)), (next + 1) % 32, 32),
        ring_entries(log.update(next, Some(entry)), (next + 1) % 32, 32)
            == ring_entries(log, next, 32).drop_first().push(entry),
{
    let log2 = log.update(next, Some(entry));
    let next2 = (next + 1) % 32;
    assert(ring_start(next, 32) == next);
    assert(ring_start(next2, 32) == next2);
    assert forall|i: int| 0 <= i < 32 implies (#[trigger] log2[(next2 + i) % 32]) is Some by {
        if i < 31 {
            assert((next2 + i) % 32 == (next + (i + 1)) % 32);
            assert(log[(next + (i + 1)) % 32] is Some);
        } else {
            assert((next2 + i) % 32 == next);
        }
    }
    let before = ring_entries(log, next, 32);
    let after = ring_entries(log2, next2, 32);
    assert forall|i: int| 0 <= i < 31 implies after[i] == before.drop_first()[i] by {
        assert((next2 + i) % 32 == (next + (i + 1)) % 32);
    }
    assert((next2 + 31) % 32 == next);
    assert(after =~= before.drop_first().push(entry));
}

/// A ring of the last [`AUDIT_CAPACITY`] audit entries.
pub struct AuditLog {
    log: [Option<AuditEntry>; 32],
    next: usize,
    count: usize,
}

impl AuditLog {
    #[verifier::type_invariant]
    closed spec fn ring_ok(&self) -> bool {
        ring_filled(self.log@, self.next as int, self.count as int)
    }

    /// The entries kept, oldest first.
    pub closed spec fn entries(&self) -> Seq<AuditEntry> {
        ring_entries(self.log@, self.next as int, self.count as int)
    }

    /// An empty log.
    pub fn new() -> (l: Self)
        ensures
            l.entries() == Seq::<AuditEntry>::empty(),
    {
        let l = AuditLog {
            log: [None, None, None, None, None, None, None, None, None, None, None, None, None, None, None, None, None, None, None, None, None, None, None, None, None, None, None, None, None, None, None, None],
            next: 0,
            count: 0,
        };
        assert(l.entries() =~= Seq::<AuditEntry>::empty());
        l
    }

    /// Empties the log.
    pub fn init(&mut self)
        ensures
            final(self).entries() == Seq::<AuditEntry>::empty(),
    {
        *self = AuditLog::new();
    }

    /// Records an entry, overwriting the oldest when the log is full.
    pub fn record(&mut self, entry: AuditEntry)
        ensures
            final(self).entries() == after_record(old(self).entries(), entry),
            final(self).entries().len() <= AUDIT_CAPACITY,
    {
        proof { use_type_invariant(&*self); }
        let next = self.next;
        let mut log = self.log;
        log[next] = Some(entry);
        let count = if self.count < AUDIT_CAPACITY { self.count + 1 } else { self.count };
        proof {
            if self.count < 32 {
                lemma_record_with_room(self.log@, next as int, self.count as int, entry);
            } else {
                lemma_record_full(self.log@, next as int, entry);
            }
            assert(log@ == self.log@.update(next as int, Some(entry)));
        }
        let updated = AuditLog { log, next: (next + 1) % AUDIT_CAPACITY, count };
        *self = updated;
    }

    /// Copies the entries recorded for `sender`, oldest first, to the front
    /// of `output`, and returns how many there are. The rest of `output` is
    /// left as it was.
    pub fn query_sender(&self, sender: u16, output: &mut [AuditEntry; 32]) -> (found: usize)
        ensures
            found == entries_from(self.entries(), sender).len(),
            found <= self.entries().len() <= AUDIT_CAPACITY,
            final(output)@.subrange(0, found as int) == entries_from(self.entries(), sender),
            final(output)@.subrange(found as int, 32) == old(output)@.subrange(found as int, 32),
    {
        proof { use_type_invariant(self); }
        let count = self.count;
        let start = (self.next + AUDIT_CAPACITY - count) % AUDIT_CAPACITY;
        let ghost all = self.entries();
        let mut found: usize = 0;
        let mut offset: usize = 0;
        while offset < count
            invariant
                count == self.count,
                count <= 32,
                start as int == ring_start(self.next as int, count as int),
                all == self.entries(),
                all.len() == count,
                ring_filled(self.log@, self.next as int, count as int),
                0 <= offset <= count,
                found <= offset,
                found == entries_from(all.take(offset as int), sender).len(),
                output@.subrange(0, found as int) == entries_from(all.take(offset as int), sender),
                output@.subrange(found as int, 32) == old(output)@.subrange(found as int, 32),
                output@.len() == 32,
            decreases count - offset,
        {
            let slot = self.log[(start + offset) % AUDIT_CAPACITY];
            proof {
                reveal(Seq::filter);
                assert(all.take(offset as int + 1).drop_last() =~= all.take(offset as int));
                assert(self.log@[(start + offset) % 32] is Some);
                assert(all[offset as int] == slot->Some_0);
                assert(all.take(offset as int + 1).last() == all[offset as int]);
            }
            if let Some(entry) = slot {
                if entry.sender == sender {
                    let ghost prev = output@;
                    output[found] = entry;
                    proof {
                        assert(output@.subrange(0, found as int + 1) =~= prev.subrange(0, found as int).push(entry));
                        assert forall|k: int| found + 1 <= k < 32 implies output@[k] == old(output)@[k] by {
                            assert(prev.subrange(found as int, 32)[k - found] == old(output)@.subrange(found as int, 32)[k - found]);
                        }
                        assert(output@.subrange(found as int + 1, 32) =~= old(output)@.subrange(found as int + 1, 32));
                    }
                    found += 1;
                }
            }
            offset += 1;
        }
        proof {
            assert(all.take(count as int) =~= all);
        }
        found
    }
}

/// The newest entry recorded is the newest one a query for its sender
/// returns.
pub proof fn law_record_then_query(entries: Seq<AuditEntry>, entry: AuditEntry)
    ensures
        entries_from(after_record(entries, entry), entry.sender).len() > 0,
        entries_from(after_record(entries, entry), entry.sender).last() == entry,
{
    reveal(Seq::filter);
    let grown = after_record(entries, entry);
    assert(grown.drop_last() =~= if entries.len() < 32 { entries } else { entries.drop_first() });
}

/// The log never holds more than [`AUDIT_CAPACITY`] entries.
pub proof fn law_log_bounded(entries: Seq<AuditEntry>, entry: AuditEntry)
    requires
        entries.len() <= 32,
    ensures
        after_record(entries, entry).len() <= 32,
        entries.len() < 32 ==> after_record(entries, entry).len() == entries.len() + 1,
{
}

} // verus!
