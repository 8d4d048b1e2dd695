//! The record of resting orders, keyed by participant.
//!
//! To its users the store is a map from a participant's canonical address
//! to that participant's order, so a participant has one order or none.
//! Inside, the records stand in a vector in which no owner occurs twice.

use vstd::prelude::*;
use crate::address::same_bytes;
use crate::order::{LimitOrderState, OrderView};

verus! {

/// One record: a participant and its order.
#[derive(Debug, PartialEq, Eq)]
pub struct OrderRecord {
    pub owner: Vec<u8>,
    pub order: LimitOrderState,
}

/// The mathematical content of an [`OrderRecord`].
pub struct RecordView {
    pub owner: Seq<u8>,
    pub order: OrderView,
}

impl View for OrderRecord {
    type V = RecordView;

    open spec fn view(&self) -> RecordView {
        RecordView { owner: self.owner@, order: self.order@ }
    }
}

impl Clone for OrderRecord {
    fn clone(&self) -> (copy: Self)
        ensures
            copy@ == self@,
    {
        OrderRecord { owner: self.owner.clone(), order: self.order.clone() }
    }
}

/// No participant occurs in two records.
pub open spec fn one_record_per_owner(recs: Seq<RecordView>) -> bool {
    forall|i: int, j: int|
        0 <= i < j < recs.len() ==> (#[trigger] recs[i]).owner != (#[trigger] recs[j]).owner
}

/// Some record of `recs` belongs to `owner`.
pub open spec fn listed(recs: Seq<RecordView>, owner: Seq<u8>) -> bool {
    exists|i: int| 0 <= i < recs.len() && (#[trigger] recs[i]).owner == owner
}

/// The map that a list of records stands for.
pub open spec fn keyed(recs: Seq<RecordView>) -> Map<Seq<u8>, OrderView>
    decreases recs.len(),
{
    if recs.len() == 0 {
        Map::empty()
    } else {
        keyed(recs.drop_last()).insert(recs.last().owner, recs.last().order)
    }
}

/// The map has a key for exactly the owners that are listed.
pub proof fn lemma_keyed_dom(recs: Seq<RecordView>, owner: Seq<u8>)
    ensures
        keyed(recs).contains_key(owner) <==> listed(recs, owner),
    decreases recs.len(),
{
    if recs.len() > 0 {
        let init = recs.drop_last();
        lemma_keyed_dom(init, owner);
        if listed(init, owner) {
            let i = choose|i: int| 0 <= i < init.len() && (#[trigger] init[i]).owner == owner;
            assert(recs[i] == init[i]);
        }
        if recs.last().owner == owner {
            assert(recs[recs.len() - 1].owner == owner);
        }
        if listed(recs, owner) {
            let i = choose|i: int| 0 <= i < recs.len() && (#[trigger] recs[i]).owner == owner;
            if i < init.len() {
                assert(init[i] == recs[i]);
            }
        }
    }
}

/// Where no owner occurs twice, the map gives each listed owner the order
/// of its record.
pub proof fn lemma_keyed_value(recs: Seq<RecordView>, i: int)
    requires
        one_record_per_owner(recs),
        0 <= i < recs.len(),
    ensures
        keyed(recs).contains_key(recs[i].owner),
        keyed(recs)[recs[i].owner] == recs[i].order,
    decreases recs.len(),
{
    let init = recs.drop_last();
    if i < recs.len() - 1 {
        assert(init[i] == recs[i]);
        assert(recs[i].owner != recs[recs.len() - 1].owner);
        assert forall|a: int, b: int| 0 <= a < b < init.len() implies (#[trigger] init[a]).owner
            != (#[trigger] init[b]).owner by {
            assert(init[a] == recs[a] && init[b] == recs[b]);
        }
        lemma_keyed_value(init, i);
    }
}

/// Where no owner occurs twice, the map has as many keys as there are
/// records.
pub proof fn lemma_keyed_len(recs: Seq<RecordView>)
    requires
        one_record_per_owner(recs),
    ensures
        keyed(recs).dom().finite(),
        keyed(recs).dom().len() == recs.len(),
    decreases recs.len(),
{
    if recs.len() > 0 {
        let init = recs.drop_last();
        assert forall|a: int, b: int| 0 <= a < b < init.len() implies (#[trigger] init[a]).owner
            != (#[trigger] init[b]).owner by {
            assert(init[a] == recs[a] && init[b] == recs[b]);
        }
        lemma_keyed_len(init);
        lemma_keyed_dom(init, recs.last().owner);
        assert(!listed(init, recs.last().owner)) by {
            if listed(init, recs.last().owner) {
                let i = choose|i: int|
                    0 <= i < init.len() && (#[trigger] init[i]).owner == recs.last().owner;
                assert(init[i] == recs[i]);
                assert(recs[i].owner != recs[recs.len() - 1].owner);
            }
        }
        assert(keyed(recs).dom() =~= keyed(init).dom().insert(recs.last().owner));
    } else {
        assert(keyed(recs).dom() =~= Set::<Seq<u8>>::empty());
    }
}

/// The contents of a list of records.
pub open spec fn record_views(records: Seq<OrderRecord>) -> Seq<RecordView> {
    Seq::new(records.len(), |i: int| records[i]@)
}

/// The keyed store of resting orders: one order per participant, or none.
#[derive(Debug, PartialEq, Eq)]
pub struct OrderStore {
    records: Vec<OrderRecord>,
}

impl View for OrderStore {
    type V = Map<Seq<u8>, OrderView>;

    closed spec fn view(&self) -> Map<Seq<u8>, OrderView> {
        keyed(self.listing())
    }
}

impl OrderStore {
    /// The records in the order in which they are kept.
    pub closed spec fn listing(&self) -> Seq<RecordView> {
        record_views(self.records@)
    }

    /// No participant has two records, and the map is what the records list.
    pub open spec fn wf(&self) -> bool {
        &&& one_record_per_owner(self.listing())
        &&& self@ == keyed(self.listing())
    }

    /// The empty store.
    pub fn new() -> (store: Self)
        ensures
            store.wf(),
            store@ == Map::<Seq<u8>, OrderView>::empty(),
            store.listing() == Seq::<RecordView>::empty(),
    {
        let store = OrderStore { records: Vec::new() };
        assert(store.listing() =~= Seq::<RecordView>::empty());
        store
    }

    /// The store that holds `records`, if no participant occurs in two of
    /// them; `None` otherwise.
    pub fn from_records(records: Vec<OrderRecord>) -> (store: Option<Self>)
        ensures
            match store {
                Some(s) => s.wf() && s.listing() == record_views(records@),
                None => !one_record_per_owner(record_views(records@)),
            },
    {
        let ghost views = record_views(records@);
        let mut k: usize = 0;
        while k < records.len()
            invariant
                k <= records.len(),
                views == record_views(records@),
                forall|i: int, j: int|
                    0 <= i < j < k ==> (#[trigger] views[i]).owner != (#[trigger] views[j]).owner,
            decreases records.len() - k,
        {
            let mut i: usize = 0;
            while i < k
                invariant
                    i <= k,
                    k < records.len(),
                    views == record_views(records@),
                    forall|m: int| 0 <= m < i ==> (#[trigger] views[m]).owner != views[k as int].owner,
                decreases k - i,
            {
                if same_bytes(&records[i].owner, &records[k].owner) {
                    assert(views[i as int].owner == views[k as int].owner);
                    return None;
                }
                i += 1;
            }
            k += 1;
        }
        Some(OrderStore { records })
    }

    /// The records, one for each participant that has an order.
    pub fn records(&self) -> (records: Vec<OrderRecord>)
        ensures
            record_views(records@) == self.listing(),
    {
        let mut records: Vec<OrderRecord> = Vec::new();
        let mut k: usize = 0;
        while k < self.records.len()
            invariant
                k <= self.records.len(),
                records@.len() == k,
                forall|i: int| 0 <= i < k ==> (#[trigger] records@[i])@ == self.listing()[i],
            decreases self.records.len() - k,
        {
            records.push(self.records[k].clone());
            k += 1;
        }
        assert(record_views(records@) =~= self.listing());
        records
    }

    /// Number of orders on record, which is the number of participants that
    /// have one.
    pub fn len(&self) -> (n: usize)
        requires
            self.wf(),
        ensures
            n == self.listing().len(),
            self@.dom().finite(),
            n == self@.dom().len(),
    {
        proof {
            lemma_keyed_len(self.listing());
        }
        self.records.len()
    }

    /// Index of the record of `owner`, or the number of records if it has
    /// none.
    fn find(&self, owner: &Vec<u8>) -> (k: usize)
        ensures
            k <= self.listing().len(),
            k < self.listing().len() ==> self.listing()[k as int].owner == owner@,
            k < self.listing().len() <==> self@.contains_key(owner@),
    {
        let mut k: usize = 0;
        while k < self.records.len() && !same_bytes(&self.records[k].owner, owner)
            invariant
                k <= self.records.len(),
                forall|j: int| 0 <= j < k ==> (#[trigger] self.listing()[j]).owner != owner@,
            decreases self.records.len() - k,
        {
            k += 1;
        }
        proof {
            lemma_keyed_dom(self.listing(), owner@);
            if k < self.records.len() {
                assert(self.listing()[k as int].owner == owner@);
            } else if listed(self.listing(), owner@) {
                let i = choose|i: int|
                    0 <= i < self.listing().len() && (#[trigger] self.listing()[i]).owner
                        == owner@;
                assert(self.listing()[i].owner != owner@);
            }
        }
        k
    }

    /// Whether `owner` has an order on record.
    pub fn contains(&self, owner: &Vec<u8>) -> (found: bool)
        ensures
            found == self@.contains_key(owner@),
    {
        self.find(owner) < self.records.len()
    }

    /// The order of `owner`, if it has one.
    pub fn get(&self, owner: &Vec<u8>) -> (found: Option<LimitOrderState>)
        requires
            self.wf(),
        ensures
            match found {
                Some(order) => self@.contains_key(owner@) && order@ == self@[owner@],
                None => !self@.contains_key(owner@),
            },
    {
        let k = self.find(owner);
        if k < self.records.len() {
            proof {
                lemma_keyed_value(self.listing(), k as int);
            }
            Some(self.records[k].order.clone())
        } else {
            None
        }
    }

    /// Records `order` as the order of `owner`, in place of any order that
    /// `owner` had.
    pub fn put(&mut self, owner: Vec<u8>, order: LimitOrderState)
        requires
            old(self).wf(),
        ensures
            final(self).wf(),
            final(self)@ == old(self)@.insert(owner@, order@),
    {
        let ghost before = self.listing();
        let ghost rec = RecordView { owner: owner@, order: order@ };
        let k = self.find(&owner);
        if k < self.records.len() {
            self.records.set(k, OrderRecord { owner, order });
            proof {
                let after = self.listing();
                assert(after =~= before.update(k as int, rec));
                assert forall|i: int, j: int| 0 <= i < j < after.len() implies (
                #[trigger] after[i]).owner != (#[trigger] after[j]).owner by {
                    assert(after[i].owner == before[i].owner);
                    assert(after[j].owner == before[j].owner);
                }
                assert forall|key: Seq<u8>|
                    keyed(after).contains_key(key) <==> #[trigger] keyed(before).insert(
                        rec.owner,
                        rec.order,
                    ).contains_key(key) by {
                    lemma_keyed_dom(after, key);
                    lemma_keyed_dom(before, key);
                    if listed(after, key) {
                        let i = choose|i: int|
                            0 <= i < after.len() && (#[trigger] after[i]).owner == key;
                        assert(before[i].owner == key);
                    }
                    if listed(before, key) {
                        let i = choose|i: int|
                            0 <= i < before.len() && (#[trigger] before[i]).owner == key;
                        assert(after[i].owner == key);
                    }
                }
                assert forall|key: Seq<u8>| #[trigger] keyed(after).contains_key(key) implies keyed(
                    after,
                )[key] == keyed(before).insert(rec.owner, rec.order)[key] by {
                    lemma_keyed_dom(after, key);
                    let i = choose|i: int|
                        0 <= i < after.len() && (#[trigger] after[i]).owner == key;
                    lemma_keyed_value(after, i);
                    lemma_keyed_value(before, i);
                    if i != k {
                        assert(after[i] == before[i]);
                        assert(before[i].owner != before[k as int].owner);
                    }
                }
                assert(keyed(after) =~= keyed(before).insert(rec.owner, rec.order));
            }
        } else {
            self.records.push(OrderRecord { owner, order });
            proof {
                let after = self.listing();
                assert(after =~= before.push(rec));
                assert(after.drop_last() =~= before);
                lemma_keyed_dom(before, rec.owner);
                assert forall|i: int, j: int| 0 <= i < j < after.len() implies (
                #[trigger] after[i]).owner != (#[trigger] after[j]).owner by {
                    assert(after[i] == before[i]);
                    if j < before.len() {
                        assert(after[j] == before[j]);
                    }
                }
            }
        }
    }

    /// Deletes the order of `owner`. Does nothing if `owner` has none.
    pub fn delete(&mut self, owner: &Vec<u8>)
        requires
            old(self).wf(),
        ensures
            final(self).wf(),
            final(self)@ == old(self)@.remove(owner@),
    {
        let ghost before = self.listing();
        let k = self.find(owner);
        if k < self.records.len() {
            self.records.remove(k);
            proof {
                let after = self.listing();
                let gone = owner@;
                assert(after =~= before.remove(k as int));
                assert forall|i: int| 0 <= i < after.len() implies #[trigger] after[i]
                    == before[if i < k { i } else { i + 1 }] by {}
                assert forall|i: int, j: int| 0 <= i < j < after.len() implies (
                #[trigger] after[i]).owner != (#[trigger] after[j]).owner by {
                    let bi = if i < k { i } else { i + 1 };
                    let bj = if j < k { j } else { j + 1 };
                    assert(before[bi].owner != before[bj].owner);
                }
                assert forall|key: Seq<u8>|
                    keyed(after).contains_key(key) <==> #[trigger] keyed(before).remove(
                        gone,
                    ).contains_key(key) by {
                    lemma_keyed_dom(after, key);
                    lemma_keyed_dom(before, key);
                    if listed(after, key) {
                        let i = choose|i: int|
                            0 <= i < after.len() && (#[trigger] after[i]).owner == key;
                        let bi = if i < k { i } else { i + 1 };
                        assert(before[bi].owner == key);
                        if bi < k {
                            assert(before[bi].owner != before[k as int].owner);
                        } else {
                            assert(before[k as int].owner != before[bi].owner);
                        }
                    }
                    if listed(before, key) && key != gone {
                        let i = choose|i: int|
                            0 <= i < before.len() && (#[trigger] before[i]).owner == key;
                        let ai = if i < k { i } else { i - 1 };
                        assert(after[ai] == before[i]);
                    }
                }
                assert forall|key: Seq<u8>| #[trigger] keyed(after).contains_key(key) implies keyed(
                    after,
                )[key] == keyed(before).remove(gone)[key] by {
                    lemma_keyed_dom(after, key);
                    let i = choose|i: int|
                        0 <= i < after.len() && (#[trigger] after[i]).owner == key;
                    let bi = if i < k { i } else { i + 1 };
                    lemma_keyed_value(after, i);
                    lemma_keyed_value(before, bi);
                }
                assert(keyed(after) =~= keyed(before).remove(gone));
            }
        } else {
            assert(self@ =~= self@.remove(owner@));
        }
    }
}

} // verus!
