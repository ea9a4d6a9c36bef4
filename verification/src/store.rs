//! The entity store: every live rocket, under an id that is never given
//! out twice.

use vstd::prelude::*;
use crate::fixed::Vec3;
use crate::rocket::Rocket;

verus! {

/// A live rocket and the id that it is known by.
#[derive(Clone, Copy, PartialEq, Eq, Debug, Structural)]
pub struct Slot {
    pub id: u64,
    pub rocket: Rocket,
}

impl Slot {
    /// The slot one step of length `dt` later, under the force `force`.
    pub open spec fn moved(self, force: Vec3, dt: u64, flight_duration: i64) -> Slot {
        Slot { id: self.id, rocket: self.rocket.pushed(force).advanced(dt, flight_duration) }
    }
}

/// Whether the ids of `slots` grow from each slot to the next.
pub open spec fn ascending(slots: Seq<Slot>) -> bool {
    forall|i: int, j: int| 0 <= i < j < slots.len() ==> slots[i].id < slots[j].id
}

/// Every slot of `slots` one step of length `dt` later.
pub open spec fn moved_all(slots: Seq<Slot>, force: Vec3, dt: u64, flight_duration: i64) -> Seq<
    Slot,
> {
    Seq::new(slots.len(), |i: int| slots[i].moved(force, dt, flight_duration))
}

/// The slots of `slots` whose rocket has not expired, in their order.
pub open spec fn survivors(slots: Seq<Slot>, flight_duration: i64) -> Seq<Slot> {
    slots.filter(|s: Slot| !s.rocket.spent(flight_duration))
}

/// The slots of `slots` whose rocket has expired, in their order.
pub open spec fn spent_slots(slots: Seq<Slot>, flight_duration: i64) -> Seq<Slot> {
    slots.filter(|s: Slot| s.rocket.spent(flight_duration))
}

/// The slots of `slots` that hold a shell, in their order.
pub open spec fn shells(slots: Seq<Slot>) -> Seq<Slot> {
    slots.filter(|s: Slot| s.rocket.is_shell)
}

/// Filtering a sequence that ends in `last` filters what comes before and
/// then keeps `last` or drops it.
pub proof fn lemma_filter_push<A>(s: Seq<A>, keep: spec_fn(A) -> bool, last: A)
    ensures
        s.push(last).filter(keep) == if keep(last) {
            s.filter(keep).push(last)
        } else {
            s.filter(keep)
        },
{
    reveal(Seq::filter);
    assert(s.push(last).drop_last() =~= s);
}

/// A store as a value: its slots in the order of their ids, and the id that
/// the next rocket gets.
#[verifier::ext_equal]
pub struct StoreView {
    pub slots: Seq<Slot>,
    pub next_id: u64,
}

impl StoreView {
    /// The ids grow along the slots and the next id lies above them all.
    pub open spec fn wf(self) -> bool {
        &&& ascending(self.slots)
        &&& forall|i: int| 0 <= i < self.slots.len() ==> (#[trigger] self.slots[i]).id < self.next_id
    }

    /// Whether a rocket is stored under `id`.
    pub open spec fn contains(self, id: u64) -> bool {
        exists|i: int| 0 <= i < self.slots.len() && (#[trigger] self.slots[i]).id == id
    }

    /// The index of the slot with the id `id`.
    pub open spec fn index_of(self, id: u64) -> int
        recommends
            self.contains(id),
    {
        choose|i: int| 0 <= i < self.slots.len() && (#[trigger] self.slots[i]).id == id
    }

    /// The rocket that is stored under `id`, if there is one.
    pub open spec fn lookup(self, id: u64) -> Option<Rocket> {
        if self.contains(id) {
            Some(self.slots[self.index_of(id)].rocket)
        } else {
            None
        }
    }

    /// The store with `rocket` added under the next id.
    pub open spec fn spawned(self, rocket: Rocket) -> StoreView
        recommends
            self.next_id < u64::MAX,
    {
        StoreView {
            slots: self.slots.push(Slot { id: self.next_id, rocket }),
            next_id: (self.next_id + 1) as u64,
        }
    }

    /// The store with each of `rockets` added in turn.
    pub open spec fn spawned_all(self, rockets: Seq<Rocket>) -> StoreView
        recommends
            self.next_id + rockets.len() <= u64::MAX,
    {
        StoreView {
            slots: self.slots + Seq::new(
                rockets.len(),
                |i: int| Slot { id: (self.next_id + i) as u64, rocket: rockets[i] },
            ),
            next_id: (self.next_id + rockets.len()) as u64,
        }
    }

    /// The store without the rocket that is stored under `id`. A store that
    /// holds none is left as it is.
    pub open spec fn without(self, id: u64) -> StoreView {
        if self.contains(id) {
            StoreView { slots: self.slots.remove(self.index_of(id)), next_id: self.next_id }
        } else {
            self
        }
    }

    /// The store one step of length `dt` later, under the force `force`.
    pub open spec fn advanced(self, force: Vec3, dt: u64, flight_duration: i64) -> StoreView {
        StoreView {
            slots: moved_all(self.slots, force, dt, flight_duration),
            next_id: self.next_id,
        }
    }

    /// The store without its expired rockets.
    pub open spec fn swept(self, flight_duration: i64) -> StoreView {
        StoreView { slots: survivors(self.slots, flight_duration), next_id: self.next_id }
    }
}

/// In a store in order, the slot at index `i` is the one that its id leads
/// to.
pub proof fn lemma_found_at(store: StoreView, i: int)
    requires
        ascending(store.slots),
        0 <= i < store.slots.len(),
    ensures
        store.contains(store.slots[i].id),
        store.index_of(store.slots[i].id) == i,
        store.lookup(store.slots[i].id) == Some(store.slots[i].rocket),
{
    let id = store.slots[i].id;
    assert(store.contains(id));
    let j = store.index_of(id);
    assert(store.slots[j].id == id);
    if j < i {
        assert(store.slots[j].id < store.slots[i].id);
    } else if i < j {
        assert(store.slots[i].id < store.slots[j].id);
    }
}

/// What is kept of slots in the order of their ids is in that order too,
/// and holds the slots that `keep` accepts and no others.
pub proof fn lemma_filtered(slots: Seq<Slot>, keep: spec_fn(Slot) -> bool)
    requires
        ascending(slots),
    ensures
        ascending(slots.filter(keep)),
        forall|k: int|
            0 <= k < slots.filter(keep).len() ==> keep(#[trigger] slots.filter(keep)[k])
                && slots.contains(slots.filter(keep)[k]),
        forall|i: int|
            0 <= i < slots.len() && keep(slots[i]) ==> slots.filter(keep).contains(
                #[trigger] slots[i],
            ),
    decreases slots.len(),
{
    reveal(Seq::filter);
    if slots.len() > 0 {
        let init = slots.drop_last();
        let last = slots.last();
        let kept = init.filter(keep);
        lemma_filtered(init, keep);
        assert(slots =~= init.push(last));
        lemma_filter_push(init, keep, last);
        let all = slots.filter(keep);
        assert forall|k: int| 0 <= k < kept.len() implies (#[trigger] kept[k]).id < last.id
            && slots.contains(kept[k]) by {
            assert(init.contains(kept[k]));
            let i = choose|i: int| 0 <= i < init.len() && init[i] == kept[k];
            assert(slots[i] == kept[k]);
        }
        assert forall|k: int| 0 <= k < all.len() implies keep(#[trigger] all[k]) && slots.contains(
            all[k],
        ) by {
            if k < kept.len() {
                assert(all[k] == kept[k]);
            } else {
                assert(all[k] == last);
                assert(slots[slots.len() - 1] == last);
            }
        }
        assert forall|i: int| 0 <= i < slots.len() && keep(slots[i]) implies all.contains(
            #[trigger] slots[i],
        ) by {
            if i < init.len() {
                assert(init[i] == slots[i]);
                assert(kept.contains(init[i]));
                let k = choose|k: int| 0 <= k < kept.len() && kept[k] == init[i];
                assert(all[k] == slots[i]);
            } else {
                assert(all[all.len() - 1] == slots[i]);
            }
        }
    }
}

/// Moving the rockets of a store leaves each under its id.
pub proof fn lemma_advanced(store: StoreView, force: Vec3, dt: u64, flight_duration: i64, id: u64)
    requires
        store.wf(),
    ensures
        store.advanced(force, dt, flight_duration).wf(),
        store.advanced(force, dt, flight_duration).lookup(id) == match store.lookup(id) {
            Some(rocket) => Some(rocket.pushed(force).advanced(dt, flight_duration)),
            None => None,
        },
{
    let after = store.advanced(force, dt, flight_duration);
    assert forall|i: int| 0 <= i < after.slots.len() implies (#[trigger] after.slots[i]).id
        == store.slots[i].id by {}
    if store.contains(id) {
        let i = store.index_of(id);
        lemma_found_at(after, i);
    } else {
        if after.contains(id) {
            let j = after.index_of(id);
            assert(store.slots[j].id == id);
        }
    }
}

/// Sweeping a store removes the expired rockets and no others.
pub proof fn lemma_swept(store: StoreView, flight_duration: i64, id: u64)
    requires
        store.wf(),
    ensures
        store.swept(flight_duration).wf(),
        store.swept(flight_duration).lookup(id) == match store.lookup(id) {
            Some(rocket) => if rocket.spent(flight_duration) {
                None
            } else {
                Some(rocket)
            },
            None => None,
        },
        forall|k: int|
            0 <= k < store.swept(flight_duration).slots.len() ==> !(
            #[trigger] store.swept(flight_duration).slots[k]).rocket.spent(flight_duration),
{
    let keep = |s: Slot| !s.rocket.spent(flight_duration);
    let after = store.swept(flight_duration);
    lemma_filtered(store.slots, keep);
    assert forall|k: int| 0 <= k < after.slots.len() implies (#[trigger] after.slots[k]).id
        < after.next_id by {
        assert(store.slots.contains(after.slots[k]));
    }
    if after.contains(id) {
        let k = after.index_of(id);
        lemma_found_at(after, k);
        assert(store.slots.contains(after.slots[k]));
        let i = choose|i: int| 0 <= i < store.slots.len() && store.slots[i] == after.slots[k];
        lemma_found_at(store, i);
    } else {
        if store.contains(id) {
            let i = store.index_of(id);
            lemma_found_at(store, i);
            if keep(store.slots[i]) {
                assert(after.slots.contains(store.slots[i]));
                let k = choose|k: int| 0 <= k < after.slots.len() && after.slots[k] == store.slots[i];
                assert(after.slots[k].id == id);
            }
        }
    }
}

/// Rockets that are added together are found under the ids from the next
/// id on, in their order; what was stored before is found as before; and
/// nothing is found under an id that was not given out.
pub proof fn lemma_spawned_all_found(store: StoreView, rockets: Seq<Rocket>, id: u64)
    requires
        store.wf(),
        store.next_id + rockets.len() <= u64::MAX,
    ensures
        store.spawned_all(rockets).lookup(id) == if id < store.next_id {
            store.lookup(id)
        } else if id < store.next_id + rockets.len() {
            Some(rockets[id - store.next_id])
        } else {
            None
        },
{
    let after = store.spawned_all(rockets);
    let n = store.slots.len() as int;
    lemma_spawned_all(store, rockets);
    if id < store.next_id {
        if store.contains(id) {
            let i = store.index_of(id);
            assert(after.slots[i] == store.slots[i]);
            lemma_found_at(after, i);
        } else {
            if after.contains(id) {
                let j = after.index_of(id);
                if j < n {
                    assert(store.slots[j].id == id);
                }
            }
        }
    } else if id < store.next_id + rockets.len() {
        let j = n + (id - store.next_id);
        assert(after.slots[j].id == id);
        lemma_found_at(after, j);
    } else {
        if after.contains(id) {
            let j = after.index_of(id);
            if j < n {
                assert(store.slots[j].id < store.next_id);
            }
        }
    }
}

/// A rocket that is added to a store is found there under the id it was
/// given, and what was stored before is found as before.
pub proof fn lemma_spawned_is_found(store: StoreView, rocket: Rocket, id: u64)
    requires
        store.wf(),
        store.next_id < u64::MAX,
    ensures
        store.spawned(rocket).wf(),
        store.spawned(rocket).lookup(store.next_id) == Some(rocket),
        id != store.next_id ==> store.spawned(rocket).lookup(id) == store.lookup(id),
{
    let after = store.spawned(rocket);
    let n = store.slots.len() as int;
    assert(after.slots[n].id == store.next_id);
    assert(after.contains(store.next_id));
    if id != store.next_id {
        if store.contains(id) {
            let i = store.index_of(id);
            assert(after.slots[i].id == id);
            assert(after.contains(id));
            assert(after.index_of(id) == i);
        } else {
            if after.contains(id) {
                let j = after.index_of(id);
                assert(store.slots[j].id == id);
            }
        }
    }
}

/// Rockets that are added together get the ids from the next id on, in
/// their order, and leave the store in order.
pub proof fn lemma_spawned_all(store: StoreView, rockets: Seq<Rocket>)
    requires
        store.wf(),
        store.next_id + rockets.len() <= u64::MAX,
    ensures
        store.spawned_all(rockets).wf(),
        rockets.len() == 0 ==> store.spawned_all(rockets) == store,
        rockets.len() > 0 ==> store.spawned_all(rockets) == store.spawned_all(
            rockets.drop_last(),
        ).spawned(rockets.last()),
{
    let after = store.spawned_all(rockets);
    let n = store.slots.len() as int;
    assert forall|i: int, j: int| 0 <= i < j < after.slots.len() implies after.slots[i].id
        < after.slots[j].id by {
        if j < n {
        } else if i < n {
            assert(store.slots[i].id < store.next_id);
        } else {
        }
    }
    if rockets.len() == 0 {
        assert(after.slots =~= store.slots);
    } else {
        let step = store.spawned_all(rockets.drop_last()).spawned(rockets.last());
        assert(after.slots =~= step.slots);
    }
}

/// An id that a store has given out and holds no longer stays unknown
/// whatever is added later: no id is given out twice.
pub proof fn lemma_stale_id_stays_unknown(store: StoreView, rocket: Rocket, id: u64)
    requires
        store.wf(),
        store.next_id < u64::MAX,
        id < store.next_id,
        !store.contains(id),
    ensures
        !store.spawned(rocket).contains(id),
        store.spawned(rocket).lookup(id) is None,
{
    let after = store.spawned(rocket);
    if after.contains(id) {
        let j = after.index_of(id);
        if j < store.slots.len() {
            assert(store.slots[j].id == id);
        }
    }
}

/// Once a rocket is removed, nothing is found under its id, and every other
/// id leads where it led before.
pub proof fn lemma_removed_is_unknown(store: StoreView, id: u64, other: u64)
    requires
        store.wf(),
    ensures
        store.without(id).wf(),
        store.without(id).lookup(id) is None,
        other != id ==> store.without(id).lookup(other) == store.lookup(other),
{
    let after = store.without(id);
    if store.contains(id) {
        let k = store.index_of(id);
        assert forall|i: int, j: int| 0 <= i < j < after.slots.len() implies after.slots[i].id
            < after.slots[j].id by {
            let a = if i < k { i } else { i + 1 };
            let b = if j < k { j } else { j + 1 };
            assert(after.slots[i] == store.slots[a]);
            assert(after.slots[j] == store.slots[b]);
        }
        assert forall|i: int| 0 <= i < after.slots.len() implies (#[trigger] after.slots[i]).id
            < after.next_id by {
            let a = if i < k { i } else { i + 1 };
            assert(after.slots[i] == store.slots[a]);
        }
        if after.contains(id) {
            let j = after.index_of(id);
            let b = if j < k { j } else { j + 1 };
            assert(after.slots[j] == store.slots[b]);
        }
        if other != id {
            if store.contains(other) {
                let i = store.index_of(other);
                let a = if i < k { i } else { i - 1 };
                assert(after.slots[a] == store.slots[i]);
                assert(after.contains(other));
                let j = after.index_of(other);
                let b = if j < k { j } else { j + 1 };
                assert(after.slots[j] == store.slots[b]);
                assert(b == i);
            } else {
                if after.contains(other) {
                    let j = after.index_of(other);
                    let b = if j < k { j } else { j + 1 };
                    assert(after.slots[j] == store.slots[b]);
                }
            }
        }
    }
}

/// The live rockets of a display.
pub struct Store {
    slots: Vec<Slot>,
    next_id: u64,
}

impl View for Store {
    type V = StoreView;

    closed spec fn view(&self) -> StoreView {
        StoreView { slots: self.slots@, next_id: self.next_id }
    }
}

impl Store {
    /// Whether the store is in order, as every store is that this module
    /// hands out.
    pub open spec fn wf(&self) -> bool {
        self@.wf()
    }

    /// An empty store, whose first rocket gets the id zero.
    pub fn new() -> (store: Store)
        ensures
            store.wf(),
            store@.slots.len() == 0,
            store@.next_id == 0,
    {
        Store { slots: Vec::new(), next_id: 0 }
    }

    /// An empty store, whose first rocket gets the id `first`.
    pub fn starting_at(first: u64) -> (store: Store)
        ensures
            store.wf(),
            store@.slots.len() == 0,
            store@.next_id == first,
    {
        Store { slots: Vec::new(), next_id: first }
    }

    /// The number of live rockets.
    pub fn len(&self) -> (n: usize)
        ensures
            n == self@.slots.len(),
    {
        self.slots.len()
    }

    /// The id that the next rocket gets.
    pub fn next_id(&self) -> (id: u64)
        ensures
            id == self@.next_id,
    {
        self.next_id
    }

    /// The live rockets with their ids, in the order of their ids.
    pub fn slots(&self) -> (slots: &Vec<Slot>)
        ensures
            slots@ == self@.slots,
    {
        &self.slots
    }

    fn position(&self, id: u64) -> (found: Option<usize>)
        requires
            self.wf(),
        ensures
            match found {
                Some(i) => i < self@.slots.len() && self@.slots[i as int].id == id
                    && self@.contains(id) && self@.index_of(id) == i,
                None => !self@.contains(id),
            },
    {
        let mut low: usize = 0;
        let mut high: usize = self.slots.len();
        while low < high
            invariant
                self.wf(),
                low <= high <= self.slots.len(),
                forall|j: int| 0 <= j < low ==> (#[trigger] self.slots[j]).id < id,
                forall|j: int| high <= j < self.slots.len() ==> (#[trigger] self.slots[j]).id > id,
            decreases high - low,
        {
            let mid = low + (high - low) / 2;
            let here = self.slots[mid].id;
            if here == id {
                assert(self@.slots[mid as int].id == id);
                return Some(mid);
            } else if here < id {
                low = mid + 1;
            } else {
                high = mid;
            }
        }
        assert(!self@.contains(id)) by {
            if self@.contains(id) {
                let j = self@.index_of(id);
                assert(self.slots[j].id == id);
            }
        }
        None
    }

    /// The rocket that is stored under `id`. An id whose rocket is gone
    /// leads to `None`.
    pub fn get(&self, id: u64) -> (rocket: Option<Rocket>)
        requires
            self.wf(),
        ensures
            rocket == self@.lookup(id),
    {
        match self.position(id) {
            Some(i) => Some(self.slots[i].rocket),
            None => None,
        }
    }

    /// Adds `rocket` to the store and returns its id, under which it is
    /// found from then on. Returns `None`, and adds nothing, once every id
    /// has been given out.
    pub fn spawn(&mut self, rocket: Rocket) -> (id: Option<u64>)
        requires
            old(self).wf(),
        ensures
            final(self).wf(),
            match id {
                Some(id) => {
                    &&& old(self)@.next_id < u64::MAX
                    &&& id == old(self)@.next_id
                    &&& final(self)@ == old(self)@.spawned(rocket)
                    &&& final(self)@.lookup(id) == Some(rocket)
                },
                None => old(self)@.next_id == u64::MAX && final(self)@ == old(self)@,
            },
    {
        if self.next_id == u64::MAX {
            return None;
        }
        let id = self.next_id;
        proof {
            lemma_spawned_is_found(self@, rocket, id);
        }
        self.slots.push(Slot { id, rocket });
        self.next_id = id + 1;
        Some(id)
    }

    /// Adds each of `rockets` to the store, in their order, and returns the
    /// id of the first: the others follow it one by one. Returns `None`, and
    /// adds nothing, where there are not ids enough left for them all.
    pub fn spawn_all(&mut self, rockets: &Vec<Rocket>) -> (first: Option<u64>)
        requires
            old(self).wf(),
        ensures
            final(self).wf(),
            match first {
                Some(first) => {
                    &&& old(self)@.next_id + rockets.len() <= u64::MAX
                    &&& first == old(self)@.next_id
                    &&& final(self)@ == old(self)@.spawned_all(rockets@)
                },
                None => {
                    &&& old(self)@.next_id + rockets.len() > u64::MAX
                    &&& final(self)@ == old(self)@
                },
            },
    {
        let first = self.next_id;
        let n = rockets.len();
        if n as u64 > u64::MAX - first {
            return None;
        }
        let mut i: usize = 0;
        proof {
            lemma_spawned_all(old(self)@, rockets@.take(0));
        }
        while i < n
            invariant
                i <= n,
                n == rockets.len(),
                first == old(self)@.next_id,
                first + n <= u64::MAX,
                old(self).wf(),
                self.wf(),
                self@ == old(self)@.spawned_all(rockets@.take(i as int)),
            decreases n - i,
        {
            proof {
                assert(rockets@.take(i + 1).drop_last() =~= rockets@.take(i as int));
                lemma_spawned_all(old(self)@, rockets@.take(i + 1));
            }
            self.slots.push(Slot { id: self.next_id, rocket: rockets[i] });
            self.next_id = self.next_id + 1;
            i += 1;
        }
        assert(rockets@.take(n as int) =~= rockets@);
        Some(first)
    }

    /// Removes the rocket that is stored under `id`, and says whether there
    /// was one. Where there was none, the store is left as it is.
    pub fn despawn(&mut self, id: u64) -> (found: bool)
        requires
            old(self).wf(),
        ensures
            final(self).wf(),
            found == old(self)@.contains(id),
            final(self)@ == old(self)@.without(id),
            final(self)@.lookup(id) is None,
    {
        proof {
            lemma_removed_is_unknown(self@, id, id);
        }
        match self.position(id) {
            Some(i) => {
                self.slots.remove(i);
                true
            },
            None => false,
        }
    }

    /// Moves every rocket through one step of length `dt`, after `force`
    /// has been added to what accelerates it.
    pub fn advance_all(&mut self, force: Vec3, dt: u64, flight_duration: i64)
        requires
            old(self).wf(),
            flight_duration > 0,
        ensures
            final(self).wf(),
            final(self)@ == old(self)@.advanced(force, dt, flight_duration),
    {
        let n = self.slots.len();
        let mut i: usize = 0;
        while i < n
            invariant
                flight_duration > 0,
                i <= n,
                n == self.slots.len(),
                n == old(self).slots.len(),
                self.next_id == old(self).next_id,
                forall|j: int| 0 <= j < i ==> #[trigger] self.slots[j] == old(self).slots[j].moved(
                    force,
                    dt,
                    flight_duration,
                ),
                forall|j: int| i <= j < n ==> #[trigger] self.slots[j] == old(self).slots[j],
            decreases n - i,
        {
            let mut slot = self.slots[i];
            slot.rocket.add_force(force);
            slot.rocket.update(dt, flight_duration);
            self.slots.set(i, slot);
            i += 1;
        }
        assert(self.slots@ =~= moved_all(old(self).slots@, force, dt, flight_duration));
    }

    /// Removes every expired rocket and returns what was removed, in the
    /// order of the ids. No rocket that is left has expired.
    pub fn sweep(&mut self, flight_duration: i64) -> (gone: Vec<Slot>)
        requires
            old(self).wf(),
        ensures
            final(self).wf(),
            final(self)@ == old(self)@.swept(flight_duration),
            gone@ == spent_slots(old(self)@.slots, flight_duration),
            forall|i: int|
                0 <= i < final(self)@.slots.len() ==> !(#[trigger] final(self)@.slots[i]).rocket.spent(
                    flight_duration,
                ),
    {
        let ghost before = self.slots@;
        let ghost keep = |s: Slot| !s.rocket.spent(flight_duration);
        let ghost drop = |s: Slot| s.rocket.spent(flight_duration);
        let n = self.slots.len();
        let mut kept: Vec<Slot> = Vec::new();
        let mut gone: Vec<Slot> = Vec::new();
        let mut i: usize = 0;
        proof {
            reveal(Seq::filter);
            assert(before.take(0) =~= Seq::<Slot>::empty());
        }
        while i < n
            invariant
                i <= n,
                n == before.len(),
                before == self.slots@,
                ascending(before),
                forall|j: int| 0 <= j < n ==> (#[trigger] before[j]).id < self.next_id,
                keep == |s: Slot| !s.rocket.spent(flight_duration),
                drop == |s: Slot| s.rocket.spent(flight_duration),
                kept@ == before.take(i as int).filter(keep),
                gone@ == before.take(i as int).filter(drop),
                ascending(kept@),
                forall|k: int| 0 <= k < kept.len() ==> (#[trigger] kept[k]).id < self.next_id,
                forall|k: int| 0 <= k < kept.len() ==> !(#[trigger] kept[k]).rocket.spent(flight_duration),
                i < n ==> forall|k: int| 0 <= k < kept.len() ==> (#[trigger] kept[k]).id < before[i as int].id,
            decreases n - i,
        {
            let slot = self.slots[i];
            proof {
                assert(before.take(i + 1) =~= before.take(i as int).push(slot));
                lemma_filter_push(before.take(i as int), keep, slot);
                lemma_filter_push(before.take(i as int), drop, slot);
            }
            if slot.rocket.is_spent(flight_duration) {
                gone.push(slot);
            } else {
                kept.push(slot);
            }
            i += 1;
        }
        assert(before.take(n as int) =~= before);
        self.slots = kept;
        gone
    }
}

} // verus!
