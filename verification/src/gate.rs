//! Who may change a project, and who may use it, at one time.
use vstd::prelude::*;
use crate::text_map::TextMap;

verus! {

/// The leases on a project, and whether someone owns it alone. Those who wait ask again after
/// every change.
#[derive(Debug)]
pub struct LeaseGate {
    pub exclusive: bool,
    pub leases: TextMap<()>,
}

/// What a [`LeaseGate`] holds.
#[verifier::ext_equal]
pub struct GateView {
    pub exclusive: bool,
    pub leases: Set<Seq<char>>,
}

impl View for LeaseGate {
    type V = GateView;

    open spec fn view(&self) -> GateView {
        GateView { exclusive: self.exclusive, leases: self.leases@.dom() }
    }
}

/// What is asked of a gate.
pub enum GateEvent {
    /// To own the project alone.
    Claim,
    /// To own it no longer.
    End,
    /// A lease with this identifier.
    Lease(Seq<char>),
    /// To give a lease back.
    Release(Seq<char>),
}

/// What holds after an event.
pub open spec fn gate_after(g: GateView, e: GateEvent) -> GateView {
    match e {
        GateEvent::Claim => GateView { exclusive: true, ..g },
        GateEvent::End => GateView { exclusive: false, ..g },
        GateEvent::Lease(id) => if g.exclusive {
            g
        } else {
            GateView { leases: g.leases.insert(id), ..g }
        },
        GateEvent::Release(id) => GateView { leases: g.leases.remove(id), ..g },
    }
}

/// Whether what an event asks for is granted.
pub open spec fn gate_grants(g: GateView, e: GateEvent) -> bool {
    match e {
        GateEvent::Claim => !g.exclusive,
        GateEvent::End => true,
        GateEvent::Lease(id) => !g.exclusive,
        GateEvent::Release(id) => g.leases.contains(id),
    }
}

impl LeaseGate {
    /// A gate without leases and without an owner.
    pub fn new() -> (r: Self)
        ensures
            r@ == (GateView { exclusive: false, leases: Set::empty() }),
    {
        let r = LeaseGate { exclusive: false, leases: TextMap::new() };
        assert(r@.leases =~= Set::empty());
        r
    }

    /// Makes the caller the owner, unless there is one. No new lease is given from then on; the
    /// owner waits until it is [drained](LeaseGate::drained).
    pub fn begin_exclusive(&mut self) -> (r: bool)
        ensures
            final(self)@ == gate_after(old(self)@, GateEvent::Claim),
            r == gate_grants(old(self)@, GateEvent::Claim),
    {
        if self.exclusive {
            return false;
        }
        self.exclusive = true;
        true
    }

    /// Whether no lease is left.
    pub fn drained(&self) -> (r: bool)
        ensures
            r == (self@.leases =~= Set::empty()),
    {
        self.leases.is_empty()
    }

    /// Ends the ownership.
    pub fn end_exclusive(&mut self)
        ensures
            final(self)@ == gate_after(old(self)@, GateEvent::End),
    {
        self.exclusive = false;
    }

    /// Gives a lease, unless the project has an owner.
    pub fn activity(&mut self, id: &str) -> (r: bool)
        ensures
            final(self)@ =~= gate_after(old(self)@, GateEvent::Lease(id@)),
            r == gate_grants(old(self)@, GateEvent::Lease(id@)),
    {
        if self.exclusive {
            return false;
        }
        self.leases.insert(id.to_owned(), ());
        assert(self@.leases =~= old(self)@.leases.insert(id@));
        true
    }

    /// Takes a lease back; says whether it was there.
    pub fn release(&mut self, id: &str) -> (r: bool)
        ensures
            final(self)@ =~= gate_after(old(self)@, GateEvent::Release(id@)),
            r == gate_grants(old(self)@, GateEvent::Release(id@)),
    {
        let removed = self.leases.remove(id);
        assert(self@.leases =~= old(self)@.leases.remove(id@));
        removed.is_some()
    }
}

/// What holds after a number of events.
pub open spec fn gate_replayed(g: GateView, events: Seq<GateEvent>) -> GateView
    decreases events.len(),
{
    if events.len() == 0 {
        g
    } else {
        gate_after(gate_replayed(g, events.drop_last()), events.last())
    }
}

/// Whether an event ends an ownership.
pub open spec fn ends(e: GateEvent) -> bool {
    e is End
}

/// While a project has an owner, every other claim and every new lease is refused, and no lease
/// is there that was not there before.
pub proof fn law_owner_shuts_the_gate(g: GateView, events: Seq<GateEvent>)
    requires
        g.exclusive,
        forall|i: int| 0 <= i < events.len() ==> !ends(#[trigger] events[i]),
    ensures
        gate_replayed(g, events).exclusive,
        gate_replayed(g, events).leases.subset_of(g.leases),
        !gate_grants(gate_replayed(g, events), GateEvent::Claim),
        forall|id: Seq<char>| !#[trigger] gate_grants(gate_replayed(g, events), GateEvent::Lease(id)),
    decreases events.len(),
{
    if events.len() > 0 {
        assert forall|i: int| 0 <= i < events.drop_last().len() implies !ends(
            #[trigger] events.drop_last()[i],
        ) by {
            assert(events.drop_last()[i] == events[i]);
        }
        law_owner_shuts_the_gate(g, events.drop_last());
        assert(!ends(events[events.len() - 1]));
    }
}

/// Once the leases are drained, the owner stays alone until it ends its ownership.
pub proof fn law_owner_stays_alone(g: GateView, events: Seq<GateEvent>)
    requires
        g.exclusive,
        g.leases =~= Set::empty(),
        forall|i: int| 0 <= i < events.len() ==> !ends(#[trigger] events[i]),
    ensures
        gate_replayed(g, events).leases =~= Set::empty(),
{
    law_owner_shuts_the_gate(g, events);
}

/// Between two claims that are granted, the ownership was ended.
pub proof fn law_owners_are_serialized(g: GateView, events: Seq<GateEvent>)
    requires
        gate_grants(g, GateEvent::Claim),
        gate_grants(
            gate_replayed(gate_after(g, GateEvent::Claim), events),
            GateEvent::Claim,
        ),
    ensures
        exists|i: int| 0 <= i < events.len() && ends(#[trigger] events[i]),
{
    if forall|i: int| 0 <= i < events.len() ==> !ends(#[trigger] events[i]) {
        law_owner_shuts_the_gate(gate_after(g, GateEvent::Claim), events);
    }
}

/// A lease is idempotent: asked for twice it is held once, and once it is taken back it is not there
/// to be taken back again.
pub proof fn law_leases_are_idempotent(g: GateView, id: Seq<char>)
    ensures
        ({
            let once = gate_after(g, GateEvent::Lease(id));
            let released = gate_after(g, GateEvent::Release(id));
            &&& gate_after(once, GateEvent::Lease(id)) == once
            &&& gate_grants(once, GateEvent::Lease(id)) == gate_grants(g, GateEvent::Lease(id))
            &&& gate_grants(g, GateEvent::Lease(id)) ==> gate_grants(once, GateEvent::Release(id))
            &&& !gate_grants(released, GateEvent::Release(id))
            &&& gate_after(released, GateEvent::Release(id)) == released
        }),
{
    let once = gate_after(g, GateEvent::Lease(id));
    let released = gate_after(g, GateEvent::Release(id));
    assert(gate_after(once, GateEvent::Lease(id)).leases =~= once.leases);
    assert(gate_after(released, GateEvent::Release(id)).leases =~= released.leases);
}

} // verus!
