use vstd::prelude::*;

verus! {

use crate::device::{AccountId, Config, Error, Event, IotDevice};
use crate::id_gen::{blake2_128_of, gen_unique_id, payload_of};

/// One owner's slice of the ownership index: the account and the ordered
/// list of device identifiers it registered.
pub struct OwnerEntry {
    pub owner: AccountId,
    pub ids: Vec<[u8; 16]>,
}

/// The mathematical image of an `OwnerEntry`.
#[verifier::ext_equal]
pub struct OwnerEntryView {
    pub owner: AccountId,
    pub ids: Seq<[u8; 16]>,
}

impl View for OwnerEntry {
    type V = OwnerEntryView;

    open spec fn view(&self) -> OwnerEntryView {
        OwnerEntryView { owner: self.owner, ids: self.ids@ }
    }
}

/// The mathematical image of the whole registry: the device sequence, the
/// ownership index, the global count, the configured per-owner bound, and
/// the events recorded so far.
#[verifier::ext_equal]
pub struct RegistryView {
    pub max_owned: u32,
    pub count: u64,
    pub devices: Seq<IotDevice>,
    pub owners: Seq<OwnerEntryView>,
    pub events: Seq<Event>,
}

impl RegistryView {
    /// The state of a freshly constructed registry: no devices, no owner
    /// entries, no events, count zero.
    pub open spec fn empty(max_owned: u32) -> RegistryView {
        RegistryView {
            max_owned,
            count: 0,
            devices: Seq::empty(),
            owners: Seq::empty(),
            events: Seq::empty(),
        }
    }

    /// Some registered device carries `id`.
    pub open spec fn contains_id(self, id: [u8; 16]) -> bool {
        exists|i: int| 0 <= i < self.devices.len() && (#[trigger] self.devices[i]).unique_id == id
    }

    /// An index of a device carrying `id`; meaningful only when
    /// `contains_id(id)` holds.
    pub open spec fn device_index_of(self, id: [u8; 16]) -> int {
        choose|i: int| 0 <= i < self.devices.len() && (#[trigger] self.devices[i]).unique_id == id
    }

    /// The record registered under `id`, if any.
    pub open spec fn record_for(self, id: [u8; 16]) -> Option<IotDevice> {
        if self.contains_id(id) {
            Some(self.devices[self.device_index_of(id)])
        } else {
            None
        }
    }

    /// Some device with identifier `id` is owned by `o`.
    pub open spec fn has_device(self, id: [u8; 16], o: AccountId) -> bool {
        exists|i: int|
            0 <= i < self.devices.len() && (#[trigger] self.devices[i]).unique_id == id
                && self.devices[i].owner == o
    }

    /// The ownership index has an entry for `o`.
    pub open spec fn has_owner(self, o: AccountId) -> bool {
        exists|k: int| 0 <= k < self.owners.len() && (#[trigger] self.owners[k]).owner == o
    }

    /// An index of `o`'s entry in the ownership index; meaningful only when
    /// `has_owner(o)` holds.
    pub open spec fn owner_slot(self, o: AccountId) -> int {
        choose|k: int| 0 <= k < self.owners.len() && (#[trigger] self.owners[k]).owner == o
    }

    /// The ordered identifiers owned by `o`; empty when `o` never
    /// successfully registered a device.
    pub open spec fn owner_ids(self, o: AccountId) -> Seq<[u8; 16]> {
        if self.has_owner(o) {
            self.owners[self.owner_slot(o)].ids
        } else {
            Seq::empty()
        }
    }

    /// Device identifiers are globally unique.
    pub open spec fn device_ids_distinct(self) -> bool {
        forall|i: int, j: int|
            0 <= i < self.devices.len() && 0 <= j < self.devices.len() && i != j
                ==> (#[trigger] self.devices[i]).unique_id != (#[trigger] self.devices[j]).unique_id
    }

    /// Each account has at most one entry in the ownership index.
    pub open spec fn owners_distinct(self) -> bool {
        forall|k: int, l: int|
            0 <= k < self.owners.len() && 0 <= l < self.owners.len() && k != l
                ==> (#[trigger] self.owners[k]).owner != (#[trigger] self.owners[l]).owner
    }

    /// No owner list exceeds the configured capacity.
    pub open spec fn owner_lists_bounded(self) -> bool {
        forall|k: int|
            0 <= k < self.owners.len() ==> (#[trigger] self.owners[k]).ids.len() <= self.max_owned
    }

    /// No owner list repeats an identifier.
    pub open spec fn owner_lists_no_dup(self) -> bool {
        forall|k: int, a: int, b: int|
            #![trigger self.owners[k].ids[a], self.owners[k].ids[b]]
            0 <= k < self.owners.len() && 0 <= a < self.owners[k].ids.len() && 0 <= b
                < self.owners[k].ids.len() && a != b ==> self.owners[k].ids[a]
                != self.owners[k].ids[b]
    }

    /// Every identifier listed for an owner names a registered device of
    /// that owner.
    pub open spec fn owner_lists_sound(self) -> bool {
        forall|k: int, a: int|
            #![trigger self.owners[k].ids[a]]
            0 <= k < self.owners.len() && 0 <= a < self.owners[k].ids.len()
                ==> self.has_device(self.owners[k].ids[a], self.owners[k].owner)
    }

    /// Every registered device is listed under its owner.
    pub open spec fn devices_indexed(self) -> bool {
        forall|i: int|
            0 <= i < self.devices.len() ==> self.owner_ids(
                (#[trigger] self.devices[i]).owner,
            ).contains(self.devices[i].unique_id)
    }

    /// The registry invariant: the count equals the number of devices,
    /// identifiers are globally unique, and the ownership index lists
    /// exactly the devices of each owner, without duplicates and within
    /// the configured capacity.
    pub open spec fn wf(self) -> bool {
        &&& self.count == self.devices.len()
        &&& self.device_ids_distinct()
        &&& self.owners_distinct()
        &&& self.owner_lists_bounded()
        &&& self.owner_lists_no_dup()
        &&& self.owner_lists_sound()
        &&& self.devices_indexed()
    }

    /// The state after committing a fresh record: the record appended to
    /// the device sequence, its identifier appended to its owner's list,
    /// the count incremented, and the registration event recorded.
    pub open spec fn committed(self, owner: AccountId, id: [u8; 16]) -> RegistryView {
        RegistryView {
            count: (self.count + 1) as u64,
            devices: self.devices.push(IotDevice { unique_id: id, owner }),
            owners: if self.has_owner(owner) {
                self.owners.update(
                    self.owner_slot(owner),
                    OwnerEntryView { owner, ids: self.owner_ids(owner).push(id) },
                )
            } else {
                self.owners.push(OwnerEntryView { owner, ids: seq![id] })
            },
            events: self.events.push(Event::CollectibleCreated { collectible: id, owner }),
            ..self
        }
    }

    /// What a mint attempt returns: the identifier on success, and
    /// otherwise the first failing check, in the order duplicate
    /// identifier, ownership capacity, counter overflow.
    pub open spec fn mint_result(self, owner: AccountId, id: [u8; 16]) -> Result<[u8; 16], Error> {
        if self.contains_id(id) {
            Err(Error::DuplicateDevices)
        } else if self.owner_ids(owner).len() >= self.max_owned {
            Err(Error::MaximumDevicesOwned)
        } else if self.count == u64::MAX {
            Err(Error::BoundsOverflow)
        } else {
            Ok(id)
        }
    }

    /// The state after a mint attempt: committed on success, untouched on
    /// any failure.
    pub open spec fn mint_post(self, owner: AccountId, id: [u8; 16]) -> RegistryView {
        if self.mint_result(owner, id) is Ok {
            self.committed(owner, id)
        } else {
            self
        }
    }

    /// When the ownership index has distinct owners, `owner_slot` is the
    /// one index carrying `o`.
    pub proof fn lemma_owner_slot(self, o: AccountId)
        requires
            self.owners_distinct(),
            self.has_owner(o),
        ensures
            0 <= self.owner_slot(o) < self.owners.len(),
            self.owners[self.owner_slot(o)].owner == o,
            forall|k: int|
                0 <= k < self.owners.len() && (#[trigger] self.owners[k]).owner == o ==> k
                    == self.owner_slot(o),
    {
        let k0 = self.owner_slot(o);
        assert(0 <= k0 < self.owners.len() && self.owners[k0].owner == o);
    }

    /// Committing a fresh identifier under capacity preserves the
    /// invariant and changes the state in exactly the described way.
    pub proof fn lemma_commit(self, owner: AccountId, id: [u8; 16])
        requires
            self.wf(),
            !self.contains_id(id),
            self.count < u64::MAX,
            self.owner_ids(owner).len() < self.max_owned,
        ensures
            self.committed(owner, id).wf(),
            self.committed(owner, id).count == self.count + 1,
            self.committed(owner, id).max_owned == self.max_owned,
            self.committed(owner, id).devices == self.devices.push(
                IotDevice { unique_id: id, owner },
            ),
            self.committed(owner, id).events == self.events.push(
                Event::CollectibleCreated { collectible: id, owner },
            ),
            forall|x: [u8; 16]|
                self.committed(owner, id).contains_id(x) <==> (self.contains_id(x) || x == id),
            self.committed(owner, id).record_for(id) == Some(IotDevice { unique_id: id, owner }),
            forall|x: [u8; 16]|
                x != id ==> self.committed(owner, id).record_for(x) == self.record_for(x),
            self.committed(owner, id).owner_ids(owner) == self.owner_ids(owner).push(id),
            forall|o: AccountId|
                o != owner ==> self.committed(owner, id).owner_ids(o) == self.owner_ids(o),
    {
        let w = self.committed(owner, id);
        let rec = IotDevice { unique_id: id, owner };
        let n = self.devices.len() as int;

        // No existing device carries the fresh identifier.
        assert forall|i: int| 0 <= i < n implies (#[trigger] self.devices[i]).unique_id != id by {
            if self.devices[i].unique_id == id {
                assert(self.contains_id(id));
            }
        }

        // The owner fields of the index are untouched (or extended by one).
        if self.has_owner(owner) {
            self.lemma_owner_slot(owner);
            let k0 = self.owner_slot(owner);
            assert(w.owners[k0].ids == self.owners[k0].ids.push(id));
            assert forall|k: int| 0 <= k < w.owners.len() implies (#[trigger] w.owners[k]).owner
                == self.owners[k].owner by {}
            assert(w.owners_distinct());
            // The index still has exactly the same owners.
            assert forall|o: AccountId| w.has_owner(o) == self.has_owner(o) by {
                if self.has_owner(o) {
                    let k = self.owner_slot(o);
                    assert(0 <= k < self.owners.len() && self.owners[k].owner == o);
                    assert(w.owners[k].owner == o);
                    assert(w.has_owner(o));
                }
                if w.has_owner(o) {
                    let k = choose|k: int|
                        0 <= k < w.owners.len() && (#[trigger] w.owners[k]).owner == o;
                    assert(self.owners[k].owner == o);
                    assert(self.has_owner(o));
                }
            }
            // Slot by slot, only the owner's list changed.
            assert forall|o: AccountId| o != owner implies w.owner_ids(o) == self.owner_ids(o) by {
                if self.has_owner(o) {
                    self.lemma_owner_slot(o);
                    w.lemma_owner_slot(o);
                    let k = self.owner_slot(o);
                    assert(w.owners[k].owner == o);
                    assert(w.owner_slot(o) == k);
                    assert(k != k0);
                    assert(w.owners[k] == self.owners[k]);
                }
            }
            w.lemma_owner_slot(owner);
            assert(w.owners[k0].owner == owner);
            assert(w.owner_slot(owner) == k0);
            assert(w.owner_ids(owner) == self.owner_ids(owner).push(id));
        } else {
            let m = self.owners.len() as int;
            assert(w.owners[m] == OwnerEntryView { owner, ids: seq![id] });
            assert forall|k: int| 0 <= k < m implies (#[trigger] w.owners[k])
                == self.owners[k] by {}
            assert forall|k: int| 0 <= k < m implies (#[trigger] self.owners[k]).owner
                != owner by {
                if self.owners[k].owner == owner {
                    assert(self.has_owner(owner));
                }
            }
            assert(w.owners_distinct());
            assert(w.has_owner(owner));
            w.lemma_owner_slot(owner);
            assert(w.owner_slot(owner) == m);
            assert(self.owner_ids(owner) == Seq::<[u8; 16]>::empty());
            assert(w.owner_ids(owner) =~= self.owner_ids(owner).push(id));
            assert forall|o: AccountId| o != owner implies w.owner_ids(o) == self.owner_ids(o) by {
                assert(w.has_owner(o) == self.has_owner(o)) by {
                    if self.has_owner(o) {
                        let k = self.owner_slot(o);
                        assert(0 <= k < m && self.owners[k].owner == o);
                        assert(w.owners[k].owner == o);
                    }
                    if w.has_owner(o) {
                        let k = choose|k: int|
                            0 <= k < w.owners.len() && (#[trigger] w.owners[k]).owner == o;
                        assert(k != m);
                        assert(self.owners[k].owner == o);
                    }
                }
                if self.has_owner(o) {
                    self.lemma_owner_slot(o);
                    w.lemma_owner_slot(o);
                    let k = self.owner_slot(o);
                    assert(w.owners[k].owner == o);
                    assert(w.owner_slot(o) == k);
                }
            }
        }

        // Membership after the commit.
        assert forall|x: [u8; 16]| w.contains_id(x) <==> (self.contains_id(x) || x == id) by {
            if w.contains_id(x) {
                let i = choose|i: int|
                    0 <= i < w.devices.len() && (#[trigger] w.devices[i]).unique_id == x;
                if i < n {
                    assert(self.devices[i].unique_id == x);
                    assert(self.contains_id(x));
                } else {
                    assert(x == id);
                }
            }
            if self.contains_id(x) {
                let i = self.device_index_of(x);
                assert(w.devices[i].unique_id == x);
                assert(w.contains_id(x));
            }
            if x == id {
                assert(w.devices[n].unique_id == x);
                assert(w.contains_id(x));
            }
        }

        // Identifiers stay globally unique.
        assert forall|i: int, j: int|
            0 <= i < w.devices.len() && 0 <= j < w.devices.len() && i != j implies (
        #[trigger] w.devices[i]).unique_id != (#[trigger] w.devices[j]).unique_id by {
            if i < n && j < n {
                assert(self.devices[i].unique_id != self.devices[j].unique_id);
            }
        }

        // Lookup pins the committed record, and leaves the others alone.
        assert(w.contains_id(id));
        assert(w.devices[n] == rec);
        let iw = w.device_index_of(id);
        assert(0 <= iw < w.devices.len() && w.devices[iw].unique_id == id);
        if iw < n {
            assert(w.devices[iw] == self.devices[iw]);
        }
        assert(iw == n);
        assert(w.record_for(id) == Some(rec));
        assert forall|x: [u8; 16]| x != id implies w.record_for(x) == self.record_for(x) by {
            if self.contains_id(x) {
                let iold = self.device_index_of(x);
                assert(w.contains_id(x));
                let inew = w.device_index_of(x);
                assert(0 <= inew < w.devices.len() && w.devices[inew].unique_id == x);
                if inew == n {
                    assert(w.devices[n].unique_id == id);
                }
                assert(inew != n);
                assert(w.devices[inew] == self.devices[inew]);
                assert(self.devices[inew].unique_id == x);
                assert(inew == iold);
            } else {
                assert(!w.contains_id(x));
            }
        }

        // The capacity bound still holds on every list.
        assert(w.owner_ids(owner).len() <= w.max_owned);
        assert forall|k: int| 0 <= k < w.owners.len() implies (#[trigger] w.owners[k]).ids.len()
            <= w.max_owned by {
            if w.owners[k].owner == owner {
                w.lemma_owner_slot(owner);
                assert(k == w.owner_slot(owner));
                assert(w.owners[k].ids == w.owner_ids(owner));
            } else {
                assert(w.owners[k].ids == w.owner_ids(w.owners[k].owner)) by {
                    w.lemma_owner_slot(w.owners[k].owner);
                }
                assert(w.owner_ids(w.owners[k].owner) == self.owner_ids(w.owners[k].owner));
                if self.has_owner(w.owners[k].owner) {
                    self.lemma_owner_slot(w.owners[k].owner);
                }
            }
        }

        // The owner's old list never listed the fresh identifier.
        assert forall|a: int| 0 <= a < self.owner_ids(owner).len() implies #[trigger] self
            .owner_ids(owner)[a] != id by {
            if self.has_owner(owner) {
                self.lemma_owner_slot(owner);
                let k = self.owner_slot(owner);
                assert(self.has_device(self.owners[k].ids[a], self.owners[k].owner));
                if self.owner_ids(owner)[a] == id {
                    let i = choose|i: int|
                        0 <= i < self.devices.len() && (#[trigger] self.devices[i]).unique_id == id
                            && self.devices[i].owner == owner;
                    assert(self.contains_id(id));
                }
            }
        }

        // No list repeats an identifier.
        assert forall|k: int, a: int, b: int|
            #![trigger w.owners[k].ids[a], w.owners[k].ids[b]]
            0 <= k < w.owners.len() && 0 <= a < w.owners[k].ids.len() && 0 <= b
                < w.owners[k].ids.len() && a != b implies w.owners[k].ids[a]
            != w.owners[k].ids[b] by {
            w.lemma_owner_slot(w.owners[k].owner);
            assert(k == w.owner_slot(w.owners[k].owner));
            if w.owners[k].owner == owner {
                assert(w.owners[k].ids == self.owner_ids(owner).push(id));
                let olen = self.owner_ids(owner).len() as int;
                if a < olen && b < olen {
                    if self.has_owner(owner) {
                        self.lemma_owner_slot(owner);
                        assert(self.owner_ids(owner)[a] != self.owner_ids(owner)[b]);
                    }
                } else if a == olen {
                    assert(w.owners[k].ids[b] == self.owner_ids(owner)[b]);
                    assert(self.owner_ids(owner)[b] != id);
                } else {
                    assert(b == olen);
                    assert(w.owners[k].ids[a] == self.owner_ids(owner)[a]);
                    assert(self.owner_ids(owner)[a] != id);
                }
            } else {
                assert(w.owners[k].ids == self.owner_ids(w.owners[k].owner));
                self.lemma_owner_slot(w.owners[k].owner);
                let ks = self.owner_slot(w.owners[k].owner);
                assert(self.owners[ks].ids[a] != self.owners[ks].ids[b]);
            }
        }

        // Every listed identifier still names a device of its owner.
        assert forall|k: int, a: int|
            #![trigger w.owners[k].ids[a]]
            0 <= k < w.owners.len() && 0 <= a < w.owners[k].ids.len() implies w.has_device(
            w.owners[k].ids[a],
            w.owners[k].owner,
        ) by {
            w.lemma_owner_slot(w.owners[k].owner);
            assert(k == w.owner_slot(w.owners[k].owner));
            if w.owners[k].owner == owner {
                assert(w.owners[k].ids == self.owner_ids(owner).push(id));
                let olen = self.owner_ids(owner).len() as int;
                if a < olen {
                    if self.has_owner(owner) {
                        self.lemma_owner_slot(owner);
                        let ks = self.owner_slot(owner);
                        assert(self.has_device(self.owners[ks].ids[a], owner));
                        let i = choose|i: int|
                            0 <= i < self.devices.len() && (#[trigger] self.devices[i]).unique_id
                                == self.owners[ks].ids[a] && self.devices[i].owner == owner;
                        assert(w.devices[i] == self.devices[i]);
                        assert(w.has_device(w.owners[k].ids[a], owner));
                    }
                } else {
                    assert(w.owners[k].ids[a] == id);
                    assert(w.devices[n] == rec);
                    assert(w.has_device(id, owner));
                }
            } else {
                assert(w.owners[k].ids == self.owner_ids(w.owners[k].owner));
                self.lemma_owner_slot(w.owners[k].owner);
                let ks = self.owner_slot(w.owners[k].owner);
                assert(self.has_device(self.owners[ks].ids[a], self.owners[ks].owner));
                let i = choose|i: int|
                    0 <= i < self.devices.len() && (#[trigger] self.devices[i]).unique_id
                        == self.owners[ks].ids[a] && self.devices[i].owner == self.owners[ks].owner;
                assert(w.devices[i] == self.devices[i]);
                assert(w.has_device(w.owners[k].ids[a], w.owners[k].owner));
            }
        }

        // Every device is still listed under its owner.
        assert forall|i: int| 0 <= i < w.devices.len() implies w.owner_ids(
            (#[trigger] w.devices[i]).owner,
        ).contains(w.devices[i].unique_id) by {
            if i < n {
                let o = self.devices[i].owner;
                assert(self.owner_ids(o).contains(self.devices[i].unique_id));
                let a = choose|a: int|
                    0 <= a < self.owner_ids(o).len() && #[trigger] self.owner_ids(o)[a]
                        == self.devices[i].unique_id;
                if o == owner {
                    assert(w.owner_ids(o)[a] == self.devices[i].unique_id);
                    assert(w.owner_ids(o).contains(w.devices[i].unique_id));
                } else {
                    assert(w.owner_ids(o) == self.owner_ids(o));
                    assert(w.owner_ids(o).contains(w.devices[i].unique_id));
                }
            } else {
                let olen = self.owner_ids(owner).len() as int;
                assert(w.owner_ids(owner)[olen] == id);
                assert(w.owner_ids(owner).contains(id));
            }
        }

        assert(w.wf());
    }
}

/// The registry: the sole mutable state of the mint service. It owns the
/// device map, the per-owner ownership index, the global counter and the
/// recorded events, and changes only through all-or-nothing commits.
pub struct Pallet {
    max_owned: u32,
    device_count: u64,
    devices: Vec<IotDevice>,
    owners: Vec<OwnerEntry>,
    events: Vec<Event>,
}

impl View for Pallet {
    type V = RegistryView;

    closed spec fn view(&self) -> RegistryView {
        RegistryView {
            max_owned: self.max_owned,
            count: self.device_count,
            devices: self.devices@,
            owners: Seq::new(self.owners@.len(), |i: int| self.owners@[i]@),
            events: self.events@,
        }
    }
}

/// The two identifiers hold the same sixteen bytes.
fn id_eq(a: &[u8; 16], b: &[u8; 16]) -> (r: bool)
    ensures
        r == (*a == *b),
{
    let mut i: usize = 0;
    while i < 16
        invariant
            i <= 16,
            forall|j: int| 0 <= j < i ==> a@[j] == b@[j],
        decreases 16 - i,
    {
        if a[i] != b[i] {
            return false;
        }
        i = i + 1;
    }
    proof {
        assert(*a =~= *b);
    }
    true
}

impl Pallet {
    /// A fresh, empty registry with the given configuration.
    pub fn new(config: Config) -> (r: Pallet)
        ensures
            r@ == RegistryView::empty(config.max_owned),
            r@.wf(),
    {
        let r = Pallet {
            max_owned: config.max_owned,
            device_count: 0,
            devices: Vec::new(),
            owners: Vec::new(),
            events: Vec::new(),
        };
        proof {
            assert(r@ =~= RegistryView::empty(config.max_owned));
        }
        r
    }

    /// The configured per-owner capacity.
    pub fn max_owned(&self) -> (r: u32)
        ensures
            r == self@.max_owned,
    {
        self.max_owned
    }

    /// How many devices are registered.
    pub fn count(&self) -> (r: u64)
        ensures
            r == self@.count,
    {
        self.device_count
    }

    /// The events recorded so far, oldest first.
    pub fn event_log(&self) -> (r: &Vec<Event>)
        ensures
            r@ == self@.events,
    {
        &self.events
    }

    /// Whether a device with this identifier is registered.
    pub fn contains(&self, unique_id: &[u8; 16]) -> (r: bool)
        ensures
            r == self@.contains_id(*unique_id),
    {
        let mut i: usize = 0;
        while i < self.devices.len()
            invariant
                i <= self.devices@.len(),
                forall|j: int| 0 <= j < i ==> (#[trigger] self.devices@[j]).unique_id != *unique_id,
            decreases self.devices@.len() - i,
        {
            if id_eq(&self.devices[i].unique_id, unique_id) {
                proof {
                    assert(self@.devices[i as int].unique_id == *unique_id);
                }
                return true;
            }
            i = i + 1;
        }
        false
    }

    /// The record registered under this identifier, if any.
    pub fn get(&self, unique_id: &[u8; 16]) -> (r: Option<IotDevice>)
        requires
            self@.wf(),
        ensures
            r == self@.record_for(*unique_id),
    {
        let mut i: usize = 0;
        while i < self.devices.len()
            invariant
                self@.wf(),
                i <= self.devices@.len(),
                forall|j: int| 0 <= j < i ==> (#[trigger] self.devices@[j]).unique_id != *unique_id,
            decreases self.devices@.len() - i,
        {
            if id_eq(&self.devices[i].unique_id, unique_id) {
                proof {
                    assert(self@.devices[i as int].unique_id == *unique_id);
                    assert(self@.contains_id(*unique_id));
                    let iw = self@.device_index_of(*unique_id);
                    assert(0 <= iw < self@.devices.len());
                    assert(self@.devices[iw].unique_id == *unique_id);
                    if iw != i {
                        assert(self@.devices[iw].unique_id != self@.devices[i as int].unique_id);
                    }
                    assert(iw == i);
                }
                return Some(self.devices[i]);
            }
            i = i + 1;
        }
        proof {
            if self@.contains_id(*unique_id) {
                let iw = self@.device_index_of(*unique_id);
                assert(self@.devices[iw].unique_id == *unique_id);
            }
        }
        None
    }

    /// The index of `o`'s entry in the ownership index, if it has one.
    fn find_owner_slot(&self, o: AccountId) -> (r: Option<usize>)
        ensures
            match r {
                Some(k) => k < self@.owners.len() && self@.owners[k as int].owner == o,
                None => !self@.has_owner(o),
            },
    {
        let mut k: usize = 0;
        while k < self.owners.len()
            invariant
                k <= self.owners@.len(),
                forall|j: int| 0 <= j < k ==> (#[trigger] self@.owners[j]).owner != o,
            decreases self.owners@.len() - k,
        {
            if self.owners[k].owner == o {
                return Some(k);
            }
            k = k + 1;
        }
        None
    }

    /// The ordered identifiers owned by `o`, as committed; empty when `o`
    /// never successfully registered a device.
    pub fn owned_device_ids(&self, o: AccountId) -> (r: Vec<[u8; 16]>)
        requires
            self@.wf(),
        ensures
            r@ == self@.owner_ids(o),
    {
        let mut r: Vec<[u8; 16]> = Vec::new();
        match self.find_owner_slot(o) {
            Some(k) => {
                proof {
                    assert(self@.has_owner(o));
                    self@.lemma_owner_slot(o);
                    assert(self@.owner_slot(o) == k as int);
                }
                let mut a: usize = 0;
                let len = self.owners[k].ids.len();
                while a < len
                    invariant
                        a <= len,
                        k < self.owners@.len(),
                        len == self.owners@[k as int].ids@.len(),
                        r@ == self.owners@[k as int].ids@.take(a as int),
                    decreases len - a,
                {
                    r.push(self.owners[k].ids[a]);
                    proof {
                        assert(r@ =~= self.owners@[k as int].ids@.take(a + 1));
                    }
                    a = a + 1;
                }
                proof {
                    assert(r@ =~= self@.owner_ids(o));
                }
                r
            },
            None => {
                proof {
                    assert(r@ =~= self@.owner_ids(o));
                }
                r
            },
        }
    }

    /// Records a notification for subscribers; invoked exactly once per
    /// successful mint, after the commit.
    fn deposit_event(&mut self, event: Event)
        ensures
            final(self)@ == (RegistryView { events: old(self)@.events.push(event), ..old(self)@ }),
    {
        self.events.push(event);
        proof {
            assert(self@ =~= (RegistryView { events: old(self)@.events.push(event), ..old(self)@ }));
        }
    }

    /// Mints one device: verifies, as one indivisible operation, that the
    /// identifier is absent, the owner below capacity and the counter
    /// below its maximum, and only then inserts the record, appends the
    /// identifier to the owner's list, increments the count and records
    /// the event. Any failure leaves the registry untouched, bit for bit.
    pub fn mint(&mut self, owner: AccountId, unique_id: [u8; 16]) -> (r: Result<[u8; 16], Error>)
        requires
            old(self)@.wf(),
        ensures
            final(self)@ == old(self)@.mint_post(owner, unique_id),
            r == old(self)@.mint_result(owner, unique_id),
            final(self)@.wf(),
            r is Err ==> *final(self) == *old(self),
    {
        if self.contains(&unique_id) {
            return Err(Error::DuplicateDevices);
        }

        // The owner's capacity is judged before the counter.
        let slot = self.find_owner_slot(owner);
        match slot {
            Some(k) => {
                proof {
                    assert(old(self)@.has_owner(owner));
                    old(self)@.lemma_owner_slot(owner);
                    assert(old(self)@.owner_slot(owner) == k as int);
                }
                if self.owners[k].ids.len() >= self.max_owned as usize {
                    proof {
                        assert(old(self)@.owner_ids(owner).len() >= old(self)@.max_owned);
                    }
                    return Err(Error::MaximumDevicesOwned);
                }
            },
            None => {
                proof {
                    assert(old(self)@.owner_ids(owner) == Seq::<[u8; 16]>::empty());
                }
                if self.max_owned == 0 {
                    return Err(Error::MaximumDevicesOwned);
                }
            },
        }
        if self.device_count == u64::MAX {
            return Err(Error::BoundsOverflow);
        }
        let new_count = self.device_count + 1;

        // Append the identifier to the owner's list.
        match slot {
            Some(k) => {
                proof {
                    assert(old(self)@.has_owner(owner));
                    old(self)@.lemma_owner_slot(owner);
                    assert(old(self)@.owner_slot(owner) == k as int);
                }
                let mut entry = self.owners.remove(k);
                entry.ids.push(unique_id);
                self.owners.insert(k, entry);
                proof {
                    assert(self@.owners =~= old(self)@.owners.update(
                        k as int,
                        OwnerEntryView {
                            owner,
                            ids: old(self)@.owner_ids(owner).push(unique_id),
                        },
                    ));
                }
            },
            None => {
                let mut ids: Vec<[u8; 16]> = Vec::new();
                ids.push(unique_id);
                self.owners.push(OwnerEntry { owner, ids });
                proof {
                    assert(self@.owners =~= old(self)@.owners.push(
                        OwnerEntryView { owner, ids: seq![unique_id] },
                    ));
                }
            },
        }

        // Write the record and the count, then record the event.
        self.devices.push(IotDevice { unique_id, owner });
        self.device_count = new_count;
        self.deposit_event(Event::CollectibleCreated { collectible: unique_id, owner });
        proof {
            old(self)@.lemma_commit(owner, unique_id);
            assert(self@ =~= old(self)@.committed(owner, unique_id));
        }
        Ok(unique_id)
    }

    /// Registers a new device for an already-authenticated caller: derives
    /// a candidate identifier from the supplied entropy and call context,
    /// then mints it. The specific failure, if any, is returned verbatim.
    pub fn create_devices(
        &mut self,
        sender: AccountId,
        entropy: &[u8; 32],
        extrinsic_index: u32,
        block_number: u64,
    ) -> (r: Result<(), Error>)
        requires
            old(self)@.wf(),
        ensures
            ({
                let id = blake2_128_of(payload_of(entropy@, extrinsic_index, block_number));
                &&& final(self)@ == old(self)@.mint_post(sender, id)
                &&& r == (match old(self)@.mint_result(sender, id) {
                    Ok(_) => Ok::<(), Error>(()),
                    Err(e) => Err(e),
                })
                &&& final(self)@.wf()
            }),
    {
        let candidate = gen_unique_id(entropy, extrinsic_index, block_number);
        match self.mint(sender, candidate) {
            Ok(_) => Ok(()),
            Err(e) => Err(e),
        }
    }
}

} // verus!
