use vstd::prelude::*;

use crate::entry_set::EntrySet;
use crate::pubkey::Pubkey;
use crate::table::KeyedTable;
use crate::well_known::SYSVAR_CLOCK_ID;

verus! {

/// The first slot at which a subscription to `pubkey` took effect, after a
/// subscription at `slot`: the earliest of the two (a subscription at the
/// largest slot of an account never subscribed records nothing).
pub open spec fn first_slot_after(slots: Map<Pubkey, u64>, pubkey: Pubkey, slot: u64) -> Map<Pubkey, u64> {
    if slot < (if slots.contains_key(pubkey) { slots[pubkey] } else { u64::MAX }) {
        slots.insert(pubkey, slot)
    } else {
        slots
    }
}

/// The last slot at which `pubkey` was seen updated, after an update seen
/// at `slot`: the latest of the two (an update at slot zero of an account
/// never seen before records nothing).
pub open spec fn last_slot_after(slots: Map<Pubkey, u64>, pubkey: Pubkey, slot: u64) -> Map<Pubkey, u64> {
    if slot > (if slots.contains_key(pubkey) { slots[pubkey] } else { 0 }) {
        slots.insert(pubkey, slot)
    } else {
        slots
    }
}

/// For each monitored account, the first slot at which its subscription
/// took effect and the last slot at which it was seen updated.
pub struct UpdateSlots {
    pub first_subscribed_slots: KeyedTable<u64>,
    pub last_known_update_slots: KeyedTable<u64>,
}

impl UpdateSlots {
    pub open spec fn wf(&self) -> bool {
        self.first_subscribed_slots.wf() && self.last_known_update_slots.wf()
    }

    /// No slot recorded yet.
    pub fn new() -> (r: Self)
        ensures
            r.wf(),
            r.first_subscribed_slots.view() == Map::<Pubkey, u64>::empty(),
            r.last_known_update_slots.view() == Map::<Pubkey, u64>::empty(),
    {
        UpdateSlots { first_subscribed_slots: KeyedTable::new(), last_known_update_slots: KeyedTable::new() }
    }

    /// Records that a subscription to `pubkey` took effect at `subscribed_slot`;
    /// the earliest such slot is kept.
    pub fn try_to_override_first_subscribed_slot(&mut self, pubkey: Pubkey, subscribed_slot: u64)
        requires
            old(self).wf(),
        ensures
            final(self).wf(),
            final(self).first_subscribed_slots.view() == first_slot_after(
                old(self).first_subscribed_slots.view(),
                pubkey,
                subscribed_slot,
            ),
            final(self).last_known_update_slots.view() == old(self).last_known_update_slots.view(),
    {
        let current = self.first_subscribed_slots.get(&pubkey);
        let bound = match current {
            Some(s) => s,
            None => u64::MAX,
        };
        if subscribed_slot < bound {
            self.first_subscribed_slots.insert(pubkey, subscribed_slot);
        }
    }

    /// Records that `pubkey` was seen updated at `current_update_slot`; the
    /// latest such slot is kept.
    pub fn try_to_override_last_known_update_slot(&mut self, pubkey: Pubkey, current_update_slot: u64)
        requires
            old(self).wf(),
        ensures
            final(self).wf(),
            final(self).last_known_update_slots.view() == last_slot_after(
                old(self).last_known_update_slots.view(),
                pubkey,
                current_update_slot,
            ),
            final(self).first_subscribed_slots.view() == old(self).first_subscribed_slots.view(),
    {
        let current = self.last_known_update_slots.get(&pubkey);
        let bound = match current {
            Some(s) => s,
            None => 0,
        };
        if current_update_slot > bound {
            self.last_known_update_slots.insert(pubkey, current_update_slot);
        }
    }

    /// The first slot at which the subscription to `pubkey` took effect.
    pub fn get_first_subscribed_slot(&self, pubkey: &Pubkey) -> (r: Option<u64>)
        requires
            self.wf(),
        ensures
            r == (if self.first_subscribed_slots.view().contains_key(*pubkey) {
                Some(self.first_subscribed_slots.view()[*pubkey])
            } else {
                None::<u64>
            }),
    {
        self.first_subscribed_slots.get(pubkey)
    }

    /// The last slot at which `pubkey` was seen updated.
    pub fn get_last_known_update_slot(&self, pubkey: &Pubkey) -> (r: Option<u64>)
        requires
            self.wf(),
        ensures
            r == (if self.last_known_update_slots.view().contains_key(*pubkey) {
                Some(self.last_known_update_slots.view()[*pubkey])
            } else {
                None::<u64>
            }),
    {
        self.last_known_update_slots.get(pubkey)
    }
}

/// Recording a subscription never makes an account's first subscribed slot
/// later, and recording an update never makes its last known update slot
/// earlier; the slot recorded is never later (earlier) than the one given.
pub proof fn lemma_slots_are_monotone(slots: Map<Pubkey, u64>, pubkey: Pubkey, slot: u64, other: Pubkey)
    ensures
        slots.contains_key(pubkey) || slot < u64::MAX ==> first_slot_after(slots, pubkey, slot).contains_key(pubkey)
            && first_slot_after(slots, pubkey, slot)[pubkey] <= slot,
        slots.contains_key(pubkey) ==> first_slot_after(slots, pubkey, slot)[pubkey] <= slots[pubkey],
        slots.contains_key(pubkey) ==> last_slot_after(slots, pubkey, slot)[pubkey] >= slots[pubkey],
        slots.contains_key(pubkey) || slot > 0 ==> last_slot_after(slots, pubkey, slot).contains_key(pubkey)
            && last_slot_after(slots, pubkey, slot)[pubkey] >= slot,
        other != pubkey ==> first_slot_after(slots, pubkey, slot).contains_key(other) == slots.contains_key(other)
            && first_slot_after(slots, pubkey, slot)[other] == slots[other],
        other != pubkey ==> last_slot_after(slots, pubkey, slot).contains_key(other) == slots.contains_key(other)
            && last_slot_after(slots, pubkey, slot)[other] == slots[other],
{
}

/// What reaches a shard of the account updates service: a clock
/// notification (with its slot when its data could be read), a request to
/// monitor an account whose subscription took effect, a request to stop
/// monitoring an account, or an update of an account seen at a slot.
pub enum ShardEvent {
    Clock(Option<u64>),
    Subscribed(Pubkey),
    Unsubscribed(Pubkey),
    Update(Pubkey, u64),
}

/// A shard's clock slot, first subscribed slots and last known update
/// slots after `event`: a clock notification moves the clock (when its
/// slot could be read) and records the clock account as updated at it; a
/// subscription is recorded at the clock slot; stopping a subscription
/// records nothing; an update is recorded at its slot.
pub open spec fn shard_step(state: (u64, Map<Pubkey, u64>, Map<Pubkey, u64>), event: ShardEvent) -> (
    u64,
    Map<Pubkey, u64>,
    Map<Pubkey, u64>,
) {
    match event {
        ShardEvent::Clock(decoded) => {
            let clock = match decoded {
                Some(s) => s,
                None => state.0,
            };
            (clock, state.1, last_slot_after(state.2, Pubkey(SYSVAR_CLOCK_ID), clock))
        },
        ShardEvent::Subscribed(pubkey) => (state.0, first_slot_after(state.1, pubkey, state.0), state.2),
        ShardEvent::Unsubscribed(_) => state,
        ShardEvent::Update(pubkey, slot) => (state.0, state.1, last_slot_after(state.2, pubkey, slot)),
    }
}

/// A shard's clock slot and recorded slots after `events`, in order.
pub open spec fn shard_run(state: (u64, Map<Pubkey, u64>, Map<Pubkey, u64>), events: Seq<ShardEvent>) -> (
    u64,
    Map<Pubkey, u64>,
    Map<Pubkey, u64>,
)
    decreases events.len(),
{
    if events.len() == 0 {
        state
    } else {
        shard_step(shard_run(state, events.drop_last()), events.last())
    }
}

proof fn lemma_shard_run_monotone(
    state: (u64, Map<Pubkey, u64>, Map<Pubkey, u64>),
    events: Seq<ShardEvent>,
    j: int,
    pubkey: Pubkey,
)
    requires
        0 <= j <= events.len(),
    ensures
        ({
            let a = shard_run(state, events.take(j));
            let b = shard_run(state, events);
            &&& a.2.contains_key(pubkey) ==> b.2.contains_key(pubkey) && b.2[pubkey] >= a.2[pubkey]
            &&& a.1.contains_key(pubkey) ==> b.1.contains_key(pubkey) && b.1[pubkey] <= a.1[pubkey]
        }),
    decreases events.len() - j,
{
    if j < events.len() {
        let a = shard_run(state, events.take(j));
        let next = events.take(j + 1);
        assert(next.drop_last() =~= events.take(j));
        assert(next.last() == events[j]);
        match events[j] {
            ShardEvent::Clock(decoded) => {
                let clock = match decoded {
                    Some(s) => s,
                    None => a.0,
                };
                lemma_slots_are_monotone(a.2, Pubkey(SYSVAR_CLOCK_ID), clock, pubkey);
            },
            ShardEvent::Subscribed(k) => {
                lemma_slots_are_monotone(a.1, k, a.0, pubkey);
            },
            ShardEvent::Unsubscribed(_) => {},
            ShardEvent::Update(k, slot) => {
                lemma_slots_are_monotone(a.2, k, slot, pubkey);
            },
        }
        lemma_shard_run_monotone(state, events, j + 1, pubkey);
    } else {
        assert(events.take(j) =~= events);
    }
}

/// What a shard's records keep over any run of events: after an update of
/// an account at a slot (one above zero, or of an account already seen),
/// its last known update slot is at least that slot from then on; after a
/// subscription to an account took effect (with the clock below the
/// largest slot, or the account already recorded), its first subscribed
/// slot is at most the clock slot of that moment from then on; after a
/// clock notification with a slot, the clock account's last known update
/// slot is at least that slot from then on; stopping a subscription
/// records no slot.
pub proof fn lemma_shard_run(state: (u64, Map<Pubkey, u64>, Map<Pubkey, u64>), events: Seq<ShardEvent>, i: int)
    requires
        0 <= i < events.len(),
    ensures
        ({
            let before = shard_run(state, events.take(i));
            let end = shard_run(state, events);
            &&& events[i] matches ShardEvent::Update(pubkey, slot) ==> ((slot > 0 || before.2.contains_key(pubkey))
                ==> end.2.contains_key(pubkey) && end.2[pubkey] >= slot)
            &&& events[i] matches ShardEvent::Subscribed(pubkey) ==> ((before.0 < u64::MAX || before.1.contains_key(
                pubkey,
            )) ==> end.1.contains_key(pubkey) && end.1[pubkey] <= before.0)
            &&& events[i] matches ShardEvent::Clock(Some(slot)) ==> ((slot > 0 || before.2.contains_key(
                Pubkey(SYSVAR_CLOCK_ID),
            )) ==> end.2.contains_key(Pubkey(SYSVAR_CLOCK_ID)) && end.2[Pubkey(SYSVAR_CLOCK_ID)] >= slot)
            &&& (events[i] is Unsubscribed) ==> shard_run(state, events.take(i + 1)) == before
        }),
{
    let before = shard_run(state, events.take(i));
    let next = events.take(i + 1);
    assert(next.drop_last() =~= events.take(i));
    assert(next.last() == events[i]);
    match events[i] {
        ShardEvent::Clock(decoded) => {
            let clock = match decoded {
                Some(s) => s,
                None => before.0,
            };
            lemma_slots_are_monotone(before.2, Pubkey(SYSVAR_CLOCK_ID), clock, Pubkey(SYSVAR_CLOCK_ID));
            lemma_shard_run_monotone(state, events, i + 1, Pubkey(SYSVAR_CLOCK_ID));
        },
        ShardEvent::Subscribed(k) => {
            lemma_slots_are_monotone(before.1, k, before.0, k);
            lemma_shard_run_monotone(state, events, i + 1, k);
        },
        ShardEvent::Unsubscribed(_) => {},
        ShardEvent::Update(k, slot) => {
            lemma_slots_are_monotone(before.2, k, slot, k);
            lemma_shard_run_monotone(state, events, i + 1, k);
        },
    }
}

/// What a shard of the account updates service keeps between events: the
/// latest slot of the cluster's clock and the slots it records.
pub struct ShardState {
    pub clock_slot: u64,
    pub slots: UpdateSlots,
}

impl ShardState {
    pub open spec fn wf(&self) -> bool {
        self.slots.wf()
    }

    /// The clock slot, the first subscribed slots and the last known update
    /// slots.
    pub open spec fn model(&self) -> (u64, Map<Pubkey, u64>, Map<Pubkey, u64>) {
        (self.clock_slot, self.slots.first_subscribed_slots.view(), self.slots.last_known_update_slots.view())
    }

    /// A shard that has seen no clock yet.
    pub fn new(slots: UpdateSlots) -> (r: Self)
        ensures
            r.clock_slot == 0,
            r.slots == slots,
    {
        ShardState { clock_slot: 0, slots }
    }

    /// A clock notification arrived, holding `decoded_slot` when its data
    /// could be read: the clock's slot becomes the current one, and the
    /// clock account is recorded as updated at the current slot.
    pub fn on_clock(&mut self, decoded_slot: Option<u64>)
        requires
            old(self).wf(),
        ensures
            final(self).wf(),
            final(self).clock_slot == (match decoded_slot {
                Some(s) => s,
                None => old(self).clock_slot,
            }),
            final(self).slots.last_known_update_slots.view() == last_slot_after(
                old(self).slots.last_known_update_slots.view(),
                Pubkey(SYSVAR_CLOCK_ID),
                final(self).clock_slot,
            ),
            final(self).slots.first_subscribed_slots.view() == old(self).slots.first_subscribed_slots.view(),
            final(self).model() == shard_step(old(self).model(), ShardEvent::Clock(decoded_slot)),
    {
        if let Some(s) = decoded_slot {
            self.clock_slot = s;
        }
        let clock_slot = self.clock_slot;
        self.slots.try_to_override_last_known_update_slot(Pubkey(SYSVAR_CLOCK_ID), clock_slot);
    }

    /// A subscription to `pubkey` took effect: it is recorded at the
    /// current clock slot.
    pub fn on_subscribed(&mut self, pubkey: Pubkey)
        requires
            old(self).wf(),
        ensures
            final(self).wf(),
            final(self).clock_slot == old(self).clock_slot,
            final(self).slots.first_subscribed_slots.view() == first_slot_after(
                old(self).slots.first_subscribed_slots.view(),
                pubkey,
                old(self).clock_slot,
            ),
            final(self).slots.last_known_update_slots.view() == old(self).slots.last_known_update_slots.view(),
            final(self).model() == shard_step(old(self).model(), ShardEvent::Subscribed(pubkey)),
    {
        let clock_slot = self.clock_slot;
        self.slots.try_to_override_first_subscribed_slot(pubkey, clock_slot);
    }

    /// An update of `pubkey` arrived, observed at `update_slot`.
    pub fn on_account_update(&mut self, pubkey: Pubkey, update_slot: u64)
        requires
            old(self).wf(),
        ensures
            final(self).wf(),
            final(self).clock_slot == old(self).clock_slot,
            final(self).slots.last_known_update_slots.view() == last_slot_after(
                old(self).slots.last_known_update_slots.view(),
                pubkey,
                update_slot,
            ),
            final(self).slots.first_subscribed_slots.view() == old(self).slots.first_subscribed_slots.view(),
            final(self).model() == shard_step(old(self).model(), ShardEvent::Update(pubkey, update_slot)),
    {
        self.slots.try_to_override_last_known_update_slot(pubkey, update_slot);
    }
}

/// The index of the first smallest count.
pub open spec fn is_first_min(subs: Seq<usize>, i: int) -> bool {
    &&& 0 <= i < subs.len()
    &&& forall|j: int| 0 <= j < subs.len() ==> subs[i] <= subs[j]
    &&& forall|j: int| 0 <= j < i ==> subs[i] < subs[j]
}

/// The books of a pool of connections that share the subscriptions of a
/// shard: how many subscriptions each connection carries, and which
/// connection carries each subscribed account.
pub struct PoolBook {
    pub subs: Vec<usize>,
    pub assigned: KeyedTable<u64>,
}

/// Whether `k` is assigned to connection `i`.
pub open spec fn assigned_to(assigned: Map<Pubkey, u64>, i: int) -> spec_fn(Pubkey) -> bool {
    |k: Pubkey| assigned[k] == i
}

/// How many subscribed accounts connection `i` carries.
pub open spec fn carried_by(assigned: Map<Pubkey, u64>, i: int) -> nat {
    assigned.dom().filter(assigned_to(assigned, i)).len()
}

proof fn lemma_carried_after_insert(assigned: Map<Pubkey, u64>, k: Pubkey, v: u64, i: int)
    requires
        assigned.dom().finite(),
        !assigned.contains_key(k),
    ensures
        carried_by(assigned.insert(k, v), i) == carried_by(assigned, i) + (if v == i { 1nat } else { 0nat }),
{
    let before = assigned.dom().filter(assigned_to(assigned, i));
    let m = assigned.insert(k, v);
    let after = m.dom().filter(assigned_to(m, i));
    assigned.dom().lemma_len_filter(assigned_to(assigned, i));
    assert(!before.contains(k));
    if v == i {
        assert(after =~= before.insert(k));
    } else {
        assert(after =~= before);
    }
}

proof fn lemma_carried_after_remove(assigned: Map<Pubkey, u64>, k: Pubkey, i: int)
    requires
        assigned.dom().finite(),
        assigned.contains_key(k),
    ensures
        carried_by(assigned.remove(k), i) + (if assigned[k] == i { 1nat } else { 0nat }) == carried_by(assigned, i),
{
    let before = assigned.dom().filter(assigned_to(assigned, i));
    let m = assigned.remove(k);
    let after = m.dom().filter(assigned_to(m, i));
    assigned.dom().lemma_len_filter(assigned_to(assigned, i));
    if assigned[k] == i {
        assert(after =~= before.remove(k));
        assert(before.contains(k));
    } else {
        assert(after =~= before);
    }
}

impl PoolBook {
    pub open spec fn wf(&self) -> bool {
        &&& self.subs@.len() > 0
        &&& self.assigned.wf()
    }

    /// The books agree: each connection is counted with exactly the
    /// accounts assigned to it, and every account is assigned to one of the
    /// connections.
    pub open spec fn books_agree(&self) -> bool {
        &&& forall|i: int| 0 <= i < self.subs@.len() ==> #[trigger] self.subs@[i] == carried_by(self.assigned.view(), i)
        &&& forall|k: Pubkey| #[trigger] self.assigned.view().contains_key(k) ==> self.assigned.view()[k]
            < self.subs@.len()
    }

    /// Books for `connections` connections carrying nothing.
    pub fn new(connections: usize) -> (r: Self)
        requires
            connections > 0,
        ensures
            r.wf(),
            r.subs@ == Seq::new(connections as nat, |i: int| 0usize),
            r.assigned.view() == Map::<Pubkey, u64>::empty(),
            r.books_agree(),
    {
        let mut subs: Vec<usize> = Vec::new();
        let mut i: usize = 0;
        while i < connections
            invariant
                0 <= i <= connections,
                subs@ == Seq::new(i as nat, |k: int| 0usize),
            decreases connections - i,
        {
            subs.push(0);
            i = i + 1;
            proof {
                assert(subs@ =~= Seq::new(i as nat, |k: int| 0usize));
            }
        }
        let r = PoolBook { subs, assigned: KeyedTable::new() };
        proof {
            assert forall|i: int| 0 <= i < r.subs@.len() implies #[trigger] r.subs@[i] == carried_by(r.assigned.view(), i) by {
                assert(r.assigned.view().dom().filter(assigned_to(r.assigned.view(), i)) =~= Set::<Pubkey>::empty());
            }
        }
        r
    }

    /// The connection that takes the next subscription: the first of those
    /// carrying the fewest.
    pub fn pick_connection(&self) -> (r: usize)
        requires
            self.wf(),
        ensures
            is_first_min(self.subs@, r as int),
    {
        let mut best: usize = 0;
        let mut i: usize = 1;
        while i < self.subs.len()
            invariant
                1 <= i <= self.subs@.len(),
                self.subs@.len() > 0,
                0 <= best < i,
                forall|j: int| 0 <= j < i ==> self.subs@[best as int] <= self.subs@[j],
                forall|j: int| 0 <= j < best ==> self.subs@[best as int] < self.subs@[j],
            decreases self.subs@.len() - i,
        {
            if self.subs[i] < self.subs[best] {
                best = i;
            }
            i = i + 1;
        }
        best
    }

    /// Whether `pubkey` is subscribed.
    pub fn subscribed(&self, pubkey: &Pubkey) -> (r: bool)
        requires
            self.wf(),
        ensures
            r == self.assigned.view().contains_key(*pubkey),
    {
        self.assigned.get(pubkey).is_some()
    }

    /// Records that connection `index` now carries the subscription to
    /// `pubkey`.
    pub fn record_subscription(&mut self, pubkey: Pubkey, index: usize)
        requires
            old(self).wf(),
            index < old(self).subs@.len(),
            old(self).subs@[index as int] < usize::MAX,
        ensures
            final(self).wf(),
            final(self).subs@ == old(self).subs@.update(index as int, (old(self).subs@[index as int] + 1) as usize),
            final(self).assigned.view() == old(self).assigned.view().insert(pubkey, index as u64),
            old(self).books_agree() && !old(self).assigned.view().contains_key(pubkey) ==> final(self).books_agree(),
    {
        let n = self.subs[index];
        self.subs.set(index, n + 1);
        self.assigned.insert(pubkey, index as u64);
        proof {
            if old(self).books_agree() && !old(self).assigned.view().contains_key(pubkey) {
                old(self).assigned.lemma_finite();
                assert forall|i: int| 0 <= i < self.subs@.len() implies #[trigger] self.subs@[i] == carried_by(
                    self.assigned.view(),
                    i,
                ) by {
                    lemma_carried_after_insert(old(self).assigned.view(), pubkey, index as u64, i);
                    assert(old(self).subs@[i] == carried_by(old(self).assigned.view(), i));
                }
            }
        }
    }

    /// Forgets the subscription to `pubkey`; the connection that carried it
    /// carries one less (never below zero). Returns that connection, if the
    /// account was subscribed.
    pub fn record_unsubscription(&mut self, pubkey: &Pubkey) -> (r: Option<u64>)
        requires
            old(self).wf(),
        ensures
            final(self).wf(),
            final(self).assigned.view() == old(self).assigned.view().remove(*pubkey),
            !old(self).assigned.view().contains_key(*pubkey) ==> r is None && final(self).subs@ == old(self).subs@,
            old(self).assigned.view().contains_key(*pubkey) ==> r == Some(old(self).assigned.view()[*pubkey]),
            old(self).assigned.view().contains_key(*pubkey) && old(self).assigned.view()[*pubkey] < old(self).subs@.len()
                ==> final(self).subs@ == old(self).subs@.update(
                old(self).assigned.view()[*pubkey] as int,
                (if old(self).subs@[old(self).assigned.view()[*pubkey] as int] > 0 {
                    old(self).subs@[old(self).assigned.view()[*pubkey] as int] - 1
                } else {
                    0
                }) as usize,
            ),
            old(self).assigned.view().contains_key(*pubkey) && old(self).assigned.view()[*pubkey] >= old(self).subs@.len()
                ==> final(self).subs@ == old(self).subs@,
            old(self).books_agree() ==> final(self).books_agree(),
    {
        let r = self.assigned.remove(pubkey);
        if let Some(index) = r {
            if index < self.subs.len() as u64 {
                let i = index as usize;
                let n = self.subs[i];
                let m = if n > 0 { n - 1 } else { 0 };
                self.subs.set(i, m);
            }
        }
        proof {
            if old(self).books_agree() {
                old(self).assigned.lemma_finite();
                if old(self).assigned.view().contains_key(*pubkey) {
                    let idx = old(self).assigned.view()[*pubkey] as int;
                    assert forall|j: int| 0 <= j < self.subs@.len() implies #[trigger] self.subs@[j] == carried_by(
                        self.assigned.view(),
                        j,
                    ) by {
                        lemma_carried_after_remove(old(self).assigned.view(), *pubkey, j);
                        assert(old(self).subs@[j] == carried_by(old(self).assigned.view(), j));
                    }
                } else {
                    assert(self.assigned.view() =~= old(self).assigned.view());
                }
            }
        }
        r
    }
}

/// A stand-in for the account updates service: it records which accounts
/// are monitored and answers with the slots it was given.
pub struct AccountUpdatesStub {
    pub account_monitoring: EntrySet<Pubkey>,
    pub slots: UpdateSlots,
}

impl AccountUpdatesStub {
    pub open spec fn wf(&self) -> bool {
        self.account_monitoring.wf() && self.slots.wf()
    }

    /// Nothing monitored, no slot known.
    pub fn new() -> (r: Self)
        ensures
            r.wf(),
            r.account_monitoring@ == Set::<Pubkey>::empty(),
            r.slots.first_subscribed_slots.view() == Map::<Pubkey, u64>::empty(),
            r.slots.last_known_update_slots.view() == Map::<Pubkey, u64>::empty(),
    {
        AccountUpdatesStub { account_monitoring: EntrySet::new(), slots: UpdateSlots::new() }
    }

    /// Whether `pubkey` is monitored.
    pub fn has_account_monitoring(&self, pubkey: &Pubkey) -> (r: bool)
        ensures
            r == self.account_monitoring@.contains(*pubkey),
    {
        self.account_monitoring.contains(pubkey)
    }

    /// Starts monitoring `pubkey`.
    pub fn ensure_account_monitoring(&mut self, pubkey: &Pubkey)
        requires
            old(self).wf(),
        ensures
            final(self).wf(),
            final(self).account_monitoring@ == old(self).account_monitoring@.insert(*pubkey),
            final(self).slots == old(self).slots,
    {
        self.account_monitoring.insert(*pubkey);
    }

    /// Sets the first subscribed slot of `pubkey`.
    pub fn set_first_subscribed_slot(&mut self, pubkey: Pubkey, at_slot: u64)
        requires
            old(self).wf(),
        ensures
            final(self).wf(),
            final(self).slots.first_subscribed_slots.view() == old(self).slots.first_subscribed_slots.view().insert(
                pubkey,
                at_slot,
            ),
            final(self).slots.last_known_update_slots.view() == old(self).slots.last_known_update_slots.view(),
            final(self).account_monitoring == old(self).account_monitoring,
    {
        self.slots.first_subscribed_slots.insert(pubkey, at_slot);
    }

    /// Sets the last known update slot of `pubkey`.
    pub fn set_last_known_update_slot(&mut self, pubkey: Pubkey, at_slot: u64)
        requires
            old(self).wf(),
        ensures
            final(self).wf(),
            final(self).slots.last_known_update_slots.view() == old(self).slots.last_known_update_slots.view().insert(
                pubkey,
                at_slot,
            ),
            final(self).slots.first_subscribed_slots.view() == old(self).slots.first_subscribed_slots.view(),
            final(self).account_monitoring == old(self).account_monitoring,
    {
        self.slots.last_known_update_slots.insert(pubkey, at_slot);
    }

    /// The first subscribed slot of `pubkey`, if it was set.
    pub fn get_first_subscribed_slot(&self, pubkey: &Pubkey) -> (r: Option<u64>)
        requires
            self.wf(),
        ensures
            r == (if self.slots.first_subscribed_slots.view().contains_key(*pubkey) {
                Some(self.slots.first_subscribed_slots.view()[*pubkey])
            } else {
                None::<u64>
            }),
    {
        self.slots.get_first_subscribed_slot(pubkey)
    }

    /// The last known update slot of `pubkey`, if it was set.
    pub fn get_last_known_update_slot(&self, pubkey: &Pubkey) -> (r: Option<u64>)
        requires
            self.wf(),
        ensures
            r == (if self.slots.last_known_update_slots.view().contains_key(*pubkey) {
                Some(self.slots.last_known_update_slots.view()[*pubkey])
            } else {
                None::<u64>
            }),
    {
        self.slots.get_last_known_update_slot(pubkey)
    }
}

} // verus!
