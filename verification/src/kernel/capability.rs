//! The kernel's fixed-size capability registry.
use vstd::prelude::*;

verus! {

/// How many grants the registry holds.
pub const MAX_CAPABILITY_HOLDERS: usize = 8;
/// The id that never names a capability.
pub const INVALID_CAPABILITY: u32 = 0;
/// The capability to send IPC messages.
pub const IPC_SEND_CAPABILITY: u32 = 1;

/// A capability, named by its id.
#[derive(Clone, Copy, Debug, PartialEq, Eq, Structural)]
pub struct Capability {
    pub id: u32,
}

#[derive(Clone, Copy, PartialEq, Eq, Structural)]
struct CapabilityGrant {
    owner: u16,
    capability: Capability,
}

/// A grant as seen in specifications: its owner and capability.
pub type GrantView = (u16, Capability);

spec fn grant_view(g: Option<CapabilityGrant>) -> Option<GrantView> {
    match g {
        Some(g) => Some((g.owner, g.capability)),
        None => None,
    }
}

/// Whether `slots` records that `owner` holds `capability`.
pub open spec fn recorded(slots: Seq<Option<GrantView>>, owner: u16, capability: Capability) -> bool {
    exists|i: int| 0 <= i < slots.len() && slots[i] == Some((owner, capability))
}

/// Whether `i` is the first free slot.
pub open spec fn first_free(slots: Seq<Option<GrantView>>, i: int) -> bool {
    &&& 0 <= i < slots.len()
    &&& slots[i] is None
    &&& forall|j: int| 0 <= j < i ==> slots[j] is Some
}

/// Whether `slots` has a free slot.
pub open spec fn has_free(slots: Seq<Option<GrantView>>) -> bool {
    exists|i: int| 0 <= i < slots.len() && slots[i] is None
}

/// Whether no grant sits in two slots.
pub open spec fn distinct_grants(slots: Seq<Option<GrantView>>) -> bool {
    forall|i: int, j: int| 0 <= i < j < slots.len() && slots[i] is Some ==> slots[i] != slots[j]
}

/// The grants in `slots`, in slot order.
pub open spec fn held(slots: Seq<Option<GrantView>>) -> Seq<GrantView>
    decreases slots.len(),
{
    if slots.len() == 0 {
        Seq::empty()
    } else {
        let rest = held(slots.drop_last());
        match slots.last() {
            Some(g) => rest.push(g),
            None => rest,
        }
    }
}

/// The set of grants in `slots`.
pub open spec fn grant_set(slots: Seq<Option<GrantView>>) -> Set<GrantView> {
    held(slots).to_set()
}

proof fn lemma_held_contains(slots: Seq<Option<GrantView>>, g: GrantView)
    ensures
        held(slots).contains(g) <==> recorded(slots, g.0, g.1),
    decreases slots.len(),
{
    assert((g.0, g.1) == g);
    if slots.len() > 0 {
        let rest = slots.drop_last();
        let last = slots.len() - 1;
        lemma_held_contains(rest, g);
        if held(slots).contains(g) {
            match slots.last() {
                Some(h) => {
                    let k = choose|k: int| 0 <= k < held(slots).len() && held(slots)[k] == g;
                    if k < held(rest).len() {
                        assert(held(rest)[k] == g);
                        assert(held(rest).contains(g));
                        let i = choose|i: int| 0 <= i < rest.len() && rest[i] == Some((g.0, g.1));
                        assert(slots[i] == Some((g.0, g.1)));
                    } else {
                        assert(slots[last] == Some(g));
                    }
                },
                None => {
                    let i = choose|i: int| 0 <= i < rest.len() && rest[i] == Some((g.0, g.1));
                    assert(slots[i] == Some((g.0, g.1)));
                },
            }
        }
        if recorded(slots, g.0, g.1) {
            let i = choose|i: int| 0 <= i < slots.len() && slots[i] == Some((g.0, g.1));
            if i < last {
                assert(rest[i] == Some((g.0, g.1)));
                assert(held(rest).contains(g));
                let k = choose|k: int| 0 <= k < held(rest).len() && held(rest)[k] == g;
                match slots.last() {
                    Some(h) => { assert(held(slots)[k] == g); },
                    None => {},
                }
            } else {
                assert(slots.last() == Some(g));
                assert(held(slots)[held(rest).len() as int] == g);
            }
        }
    }
}

proof fn lemma_held_len(slots: Seq<Option<GrantView>>)
    ensures
        held(slots).len() <= slots.len(),
        held(slots).len() == slots.len() <==> !has_free(slots),
    decreases slots.len(),
{
    if slots.len() > 0 {
        let rest = slots.drop_last();
        lemma_held_len(rest);
        if has_free(rest) {
            let i = choose|i: int| 0 <= i < rest.len() && rest[i] is None;
            assert(slots[i] is None);
        }
        if has_free(slots) {
            let i = choose|i: int| 0 <= i < slots.len() && slots[i] is None;
            if i < slots.len() - 1 {
                assert(rest[i] is None);
            }
        }
    }
}

proof fn lemma_held_no_duplicates(slots: Seq<Option<GrantView>>)
    requires
        distinct_grants(slots),
    ensures
        held(slots).no_duplicates(),
    decreases slots.len(),
{
    if slots.len() > 0 {
        let rest = slots.drop_last();
        assert(distinct_grants(rest)) by {
            assert forall|i: int, j: int| 0 <= i < j < rest.len() && rest[i] is Some implies rest[i] != rest[j] by {
                assert(slots[i] == rest[i] && slots[j] == rest[j]);
            }
        }
        lemma_held_no_duplicates(rest);
        match slots.last() {
            Some(g) => {
                lemma_held_contains(rest, g);
                if recorded(rest, g.0, g.1) {
                    let i = choose|i: int| 0 <= i < rest.len() && rest[i] == Some((g.0, g.1));
                    assert(slots[i] == slots[slots.len() - 1]);
                }
                let h = held(rest);
                assert(!h.contains(g));
                assert forall|i: int, j: int| 0 <= i < j < h.push(g).len() implies h.push(g)[i] != h.push(g)[j] by {
                    if j == h.len() {
                        assert(h.contains(h[i]));
                    }
                }
            },
            None => {},
        }
    }
}

/// What the set of grants is, for slots in which no grant repeats: as many
/// grants as filled slots, and a grant is in it exactly when a slot holds it.
proof fn lemma_grant_set(slots: Seq<Option<GrantView>>)
    requires
        distinct_grants(slots),
    ensures
        grant_set(slots).finite(),
        grant_set(slots).len() == held(slots).len(),
        grant_set(slots).len() <= slots.len(),
        grant_set(slots).len() == slots.len() <==> !has_free(slots),
        forall|g: GrantView| #[trigger] grant_set(slots).contains(g) <==> recorded(slots, g.0, g.1),
{
    lemma_held_no_duplicates(slots);
    held(slots).unique_seq_to_set();
    lemma_held_len(slots);
    assert forall|g: GrantView| #[trigger] grant_set(slots).contains(g) <==> recorded(slots, g.0, g.1) by {
        lemma_held_contains(slots, g);
    }
}

/// Filling an empty slot with a grant held in no slot keeps grants distinct.
proof fn lemma_distinct_after_fill(slots: Seq<Option<GrantView>>, i: int, g: GrantView)
    requires
        distinct_grants(slots),
        0 <= i < slots.len(),
        slots[i] is None,
        !recorded(slots, g.0, g.1),
    ensures
        distinct_grants(slots.update(i, Some(g))),
{
    assert((g.0, g.1) == g);
    let u = slots.update(i, Some(g));
    assert forall|a: int, b: int| 0 <= a < b < u.len() && u[a] is Some implies u[a] != u[b] by {
        if a == i {
            assert(slots[b] != Some(g));
        } else if b == i {
            assert(slots[a] != Some(g));
        }
    }
}

/// Filling the first free slot adds the grant to the set of grants.
proof fn lemma_fill_set(slots: Seq<Option<GrantView>>, i: int, g: GrantView)
    requires
        distinct_grants(slots),
        0 <= i < slots.len(),
        slots[i] is None,
        !recorded(slots, g.0, g.1),
    ensures
        grant_set(slots.update(i, Some(g))) == grant_set(slots).insert(g),
{
    assert((g.0, g.1) == g);
    let u = slots.update(i, Some(g));
    lemma_distinct_after_fill(slots, i, g);
    lemma_grant_set(slots);
    lemma_grant_set(u);
    assert forall|x: GrantView| #[trigger] grant_set(u).contains(x) <==> grant_set(slots).insert(g).contains(x) by {
        assert((x.0, x.1) == x);
        if recorded(u, x.0, x.1) && x != g {
            let k = choose|k: int| 0 <= k < u.len() && u[k] == Some((x.0, x.1));
            assert(k != i);
            assert(slots[k] == Some((x.0, x.1)));
        }
        if recorded(slots, x.0, x.1) {
            let k = choose|k: int| 0 <= k < slots.len() && slots[k] == Some((x.0, x.1));
            assert(u[k] == Some((x.0, x.1)));
        }
        if x == g {
            assert(u[i] == Some((x.0, x.1)));
        }
    }
    assert(grant_set(u) =~= grant_set(slots).insert(g));
}

/// The capability grants, one slot per holder.
pub struct CapabilityRegistry {
    grants: [Option<CapabilityGrant>; 8],
}

impl CapabilityRegistry {
    /// The grant slots, in order.
    pub closed spec fn slots(&self) -> Seq<Option<GrantView>> {
        self.grants@.map_values(|g: Option<CapabilityGrant>| grant_view(g))
    }

    #[verifier::type_invariant]
    closed spec fn no_repeated_grant(&self) -> bool {
        distinct_grants(self.slots())
    }

    /// The grants held.
    pub open spec fn grants(&self) -> Set<GrantView> {
        grant_set(self.slots())
    }

    /// What a grant does to the set of grants: refused for the invalid
    /// capability or owner 0; accepted unchanged when already held; else
    /// added, and refused when [`MAX_CAPABILITY_HOLDERS`] grants are held.
    pub open spec fn grant_set_outcome(self, owner: u16, capability: Capability, post: Self, r: Result<(), ()>) -> bool {
        &&& post.grants().len() <= MAX_CAPABILITY_HOLDERS
        &&& if capability.id == INVALID_CAPABILITY || owner == 0 {
            r is Err && post.grants() == self.grants()
        } else if self.grants().contains((owner, capability)) {
            r is Ok && post.grants() == self.grants()
        } else if self.grants().len() < MAX_CAPABILITY_HOLDERS {
            r is Ok && post.grants() == self.grants().insert((owner, capability))
        } else {
            r is Err && post.grants() == self.grants()
        }
    }

    /// Whether `owner` holds `capability`: a valid capability that has been
    /// granted to it.
    pub open spec fn spec_holds(&self, owner: u16, capability: Capability) -> bool {
        capability.id != INVALID_CAPABILITY && recorded(self.slots(), owner, capability)
    }

    /// What a grant does: refused for the invalid capability or owner 0;
    /// accepted unchanged when already granted; else recorded in the first
    /// free slot, and refused when none is free.
    pub open spec fn grant_outcome(self, owner: u16, capability: Capability, post: Self, r: Result<(), ()>) -> bool {
        if capability.id == INVALID_CAPABILITY || owner == 0 {
            r is Err && post.slots() == self.slots()
        } else if recorded(self.slots(), owner, capability) {
            r is Ok && post.slots() == self.slots()
        } else if has_free(self.slots()) {
            &&& r is Ok
            &&& exists|i: int| first_free(self.slots(), i) && post.slots() == self.slots().update(
                i,
                Some((owner, capability)),
            )
        } else {
            r is Err && post.slots() == self.slots()
        }
    }

    /// A registry with no grants.
    pub fn new() -> (r: Self)
        ensures
            r.slots() == Seq::new(8, |i: int| None::<GrantView>),
            r.grants() == Set::<GrantView>::empty(),
    {
        let r = CapabilityRegistry { grants: [None, None, None, None, None, None, None, None] };
        proof {
            assert(r.slots() =~= Seq::new(8, |i: int| None::<GrantView>));
            lemma_grant_set(r.slots());
            assert(r.grants() =~= Set::<GrantView>::empty());
        }
        r
    }

    /// Grants `capability` to `owner`.
    pub fn grant(&mut self, owner: u16, capability: Capability) -> (r: Result<(), ()>)
        ensures
            old(self).grant_outcome(owner, capability, *final(self), r),
            old(self).grant_set_outcome(owner, capability, *final(self), r),
    {
        proof { use_type_invariant(&*self); }
        let ghost before = *self;
        let r = self.fill(owner, capability);
        proof {
            use_type_invariant(&*self);
            lemma_grant_sets(before, owner, capability, *self, r);
        }
        r
    }

    /// Records the grant in the first free slot unless it is invalid or
    /// already recorded.
    fn fill(&mut self, owner: u16, capability: Capability) -> (r: Result<(), ()>)
        ensures
            old(self).grant_outcome(owner, capability, *final(self), r),
    {
        proof { use_type_invariant(&*self); }
        if capability.id == INVALID_CAPABILITY || owner == 0 {
            return Err(());
        }
        let mut index: usize = 0;
        while index < MAX_CAPABILITY_HOLDERS
            invariant
                0 <= index <= 8,
                self.slots().len() == 8,
                forall|j: int| 0 <= j < index ==> self.slots()[j] != Some((owner, capability)),
                *old(self) == *self,
                capability.id != INVALID_CAPABILITY && owner != 0,
            decreases 8 - index,
        {
            let slot = self.grants[index];
            assert(self.slots()[index as int] == grant_view(slot));
            if let Some(g) = slot {
                if g.owner == owner && g.capability.id == capability.id {
                    proof {
                        assert(g.capability == capability);
                        assert(self.slots()[index as int] == Some((owner, capability)));
                    }
                    return Ok(());
                }
            }
            index += 1;
        }
        let ghost before = self.slots();
        index = 0;
        while index < MAX_CAPABILITY_HOLDERS
            invariant
                0 <= index <= 8,
                self.slots() == before,
                before.len() == 8,
                !recorded(before, owner, capability),
                distinct_grants(before),
                capability.id != INVALID_CAPABILITY && owner != 0,
                forall|j: int| 0 <= j < index ==> before[j] is Some,
                *old(self) == *self,
            decreases 8 - index,
        {
            if self.grants[index].is_none() {
                proof {
                    assert(self.slots()[index as int] is None);
                    lemma_distinct_after_fill(before, index as int, (owner, capability));
                }
                let mut grants = self.grants;
                grants[index] = Some(CapabilityGrant { owner, capability });
                let ghost filled = grants@.map_values(|g: Option<CapabilityGrant>| grant_view(g));
                proof {
                    assert(first_free(before, index as int));
                    assert(filled =~= before.update(index as int, Some((owner, capability))));
                }
                *self = CapabilityRegistry { grants };
                return Ok(());
            }
            index += 1;
        }
        proof {
            assert(!has_free(before));
        }
        Err(())
    }

    /// Whether `owner` holds `capability`.
    pub fn holds(&self, owner: u16, capability: Capability) -> (b: bool)
        ensures
            b == self.spec_holds(owner, capability),
            b == (capability.id != INVALID_CAPABILITY && self.grants().contains((owner, capability))),
    {
        proof {
            use_type_invariant(self);
            lemma_grant_set(self.slots());
        }
        if capability.id == INVALID_CAPABILITY {
            return false;
        }
        let mut index: usize = 0;
        while index < MAX_CAPABILITY_HOLDERS
            invariant
                0 <= index <= 8,
                self.slots().len() == 8,
                capability.id != INVALID_CAPABILITY,
                distinct_grants(self.slots()),
                forall|j: int| 0 <= j < index ==> self.slots()[j] != Some((owner, capability)),
            decreases 8 - index,
        {
            let slot = self.grants[index];
            assert(self.slots()[index as int] == grant_view(slot));
            if let Some(g) = slot {
                if g.owner == owner && g.capability.id == capability.id {
                    proof {
                        assert(g.capability == capability);
                        assert(self.slots()[index as int] == Some((owner, capability)));
                        lemma_grant_set(self.slots());
                        assert(self.grants().contains((owner, capability)));
                    }
                    return true;
                }
            }
            index += 1;
        }
        proof {
            lemma_grant_set(self.slots());
            assert(!self.grants().contains((owner, capability)));
        }
        false
    }

    /// Clears every grant, then grants the IPC send capability to owner 1.
    pub fn init(&mut self)
        ensures
            final(self).slots() == Seq::new(8, |i: int| None::<GrantView>).update(
                0,
                Some((1u16, Capability { id: IPC_SEND_CAPABILITY })),
            ),
            final(self).grants() == Set::<GrantView>::empty().insert((1u16, Capability { id: IPC_SEND_CAPABILITY })),
    {
        *self = CapabilityRegistry::new();
        let _ = self.grant(1, Capability { id: IPC_SEND_CAPABILITY });
        proof {
            let empty = Seq::new(8, |i: int| None::<GrantView>);
            assert(has_free(empty) && first_free(empty, 0) && empty[0] is None);
            assert(!recorded(empty, 1u16, Capability { id: IPC_SEND_CAPABILITY }));
            assert forall|i: int| first_free(empty, i) implies i == 0 by {
                if i > 0 {
                    assert(empty[0] is Some);
                }
            }
        }
    }
}

/// After a successful grant, the owner holds the capability.
pub proof fn law_grant_then_holds(
    before: CapabilityRegistry,
    owner: u16,
    capability: Capability,
    after: CapabilityRegistry,
    r: Result<(), ()>,
)
    requires
        before.grant_outcome(owner, capability, after, r),
        r is Ok,
    ensures
        after.spec_holds(owner, capability),
{
    if !recorded(before.slots(), owner, capability) {
        let i = choose|i: int| first_free(before.slots(), i) && after.slots() == before.slots().update(
            i,
            Some((owner, capability)),
        );
        assert(after.slots()[i] == Some((owner, capability)));
    }
}

/// A grant never takes away a capability someone held.
pub proof fn law_grant_keeps_holdings(
    before: CapabilityRegistry,
    owner: u16,
    capability: Capability,
    after: CapabilityRegistry,
    r: Result<(), ()>,
    other_owner: u16,
    other_capability: Capability,
)
    requires
        before.grant_outcome(owner, capability, after, r),
        before.spec_holds(other_owner, other_capability),
    ensures
        after.spec_holds(other_owner, other_capability),
{
    let j = choose|j: int| 0 <= j < before.slots().len() && before.slots()[j] == Some((other_owner, other_capability));
    if has_free(before.slots()) && !recorded(before.slots(), owner, capability) && capability.id
        != INVALID_CAPABILITY && owner != 0 {
        let i = choose|i: int| first_free(before.slots(), i) && after.slots() == before.slots().update(
            i,
            Some((owner, capability)),
        );
        assert(i != j);
        assert(after.slots()[j] == Some((other_owner, other_capability)));
    }
}

/// No one ever holds the invalid capability.
pub proof fn law_invalid_never_held(registry: CapabilityRegistry, owner: u16)
    ensures
        !registry.spec_holds(owner, Capability { id: INVALID_CAPABILITY }),
{
}

/// A grant's effect on the slots determines its effect on the set of grants.
proof fn lemma_grant_sets(
    before: CapabilityRegistry,
    owner: u16,
    capability: Capability,
    after: CapabilityRegistry,
    r: Result<(), ()>,
)
    requires
        distinct_grants(before.slots()),
        distinct_grants(after.slots()),
        before.grant_outcome(owner, capability, after, r),
    ensures
        before.grant_set_outcome(owner, capability, after, r),
{
    lemma_grant_set(before.slots());
    lemma_grant_set(after.slots());
    assert(before.slots().len() == 8 && after.slots().len() == 8);
    if capability.id != INVALID_CAPABILITY && owner != 0 && !recorded(before.slots(), owner, capability)
        && has_free(before.slots()) {
        let i = choose|i: int| first_free(before.slots(), i) && after.slots() == before.slots().update(
            i,
            Some((owner, capability)),
        );
        lemma_fill_set(before.slots(), i, (owner, capability));
    }
}

} // verus!
