//! The price-time priority queue of resting orders.
//!
//! The queue is ranked as a bid side: a higher price ranks first, and among
//! equal prices the earlier arrival ranks first. Entries that agree in both
//! keep the order in which they were inserted.
//!
//! The entries are kept in rank order in a vector, so `peek` is constant
//! time while `insert` and `remove` walk the queue once.

use vstd::prelude::*;
use crate::address::same_bytes;
use crate::error::ContractError;

verus! {

/// One resting order as the queue sees it.
#[derive(Debug, PartialEq, Eq)]
pub struct QueueEntry {
    /// Canonical address of the participant whose order this is.
    pub owner: Vec<u8>,
    pub price: u128,
    pub created_at: u64,
}

/// The mathematical content of a [`QueueEntry`].
pub struct EntryView {
    pub owner: Seq<u8>,
    pub price: u128,
    pub created_at: u64,
}

impl View for QueueEntry {
    type V = EntryView;

    open spec fn view(&self) -> EntryView {
        EntryView { owner: self.owner@, price: self.price, created_at: self.created_at }
    }
}

impl Clone for QueueEntry {
    fn clone(&self) -> (copy: Self)
        ensures
            copy@ == self@,
    {
        QueueEntry { owner: self.owner.clone(), price: self.price, created_at: self.created_at }
    }
}

/// `a` ranks strictly before `b`: at a better price, or at the same price
/// and earlier.
pub open spec fn outranks(a: EntryView, b: EntryView) -> bool {
    a.price > b.price || (a.price == b.price && a.created_at < b.created_at)
}

/// No entry is outranked by one that stands behind it.
pub open spec fn ranked(s: Seq<EntryView>) -> bool {
    forall|i: int, j: int| 0 <= i < j < s.len() ==> !outranks(#[trigger] s[j], #[trigger] s[i])
}

/// No participant has two entries.
pub open spec fn one_entry_per_owner(s: Seq<EntryView>) -> bool {
    forall|i: int, j: int|
        0 <= i < j < s.len() ==> (#[trigger] s[i]).owner != (#[trigger] s[j]).owner
}

/// Some entry of `s` belongs to `owner`.
pub open spec fn holds(s: Seq<EntryView>, owner: Seq<u8>) -> bool {
    exists|i: int| 0 <= i < s.len() && (#[trigger] s[i]).owner == owner
}

/// Where `e` goes: in front of the first entry that it outranks, or at the
/// end if it outranks none.
pub open spec fn rank_of(s: Seq<EntryView>, e: EntryView) -> int
    decreases s.len(),
{
    if s.len() == 0 || outranks(e, s[0]) {
        0
    } else {
        1 + rank_of(s.skip(1), e)
    }
}

/// Index of the first entry of `owner`, or the length of `s` if there is none.
pub open spec fn position_of(s: Seq<EntryView>, owner: Seq<u8>) -> int
    decreases s.len(),
{
    if s.len() == 0 || s[0].owner == owner {
        0
    } else {
        1 + position_of(s.skip(1), owner)
    }
}

/// `s` with the entry of `owner` taken out; `s` itself if there is none.
pub open spec fn without(s: Seq<EntryView>, owner: Seq<u8>) -> Seq<EntryView> {
    if holds(s, owner) {
        s.remove(position_of(s, owner))
    } else {
        s
    }
}

/// `rank_of` is the one index that splits `s` into entries that `e` does not
/// outrank, up to the first one that it does.
pub proof fn lemma_rank_of(s: Seq<EntryView>, e: EntryView, k: int)
    requires
        0 <= k <= s.len(),
        forall|j: int| 0 <= j < k ==> !outranks(e, #[trigger] s[j]),
        k == s.len() || outranks(e, s[k]),
    ensures
        rank_of(s, e) == k,
    decreases s.len(),
{
    if s.len() == 0 || outranks(e, s[0]) {
    } else {
        let rest = s.skip(1);
        assert forall|j: int| 0 <= j < k - 1 implies !outranks(e, #[trigger] rest[j]) by {
            assert(rest[j] == s[j + 1]);
        }
        lemma_rank_of(rest, e, k - 1);
    }
}

/// `rank_of` lies within the queue, nothing in front of it is outranked by
/// `e`, and the entry at it, if any, is.
pub proof fn lemma_rank_of_splits(s: Seq<EntryView>, e: EntryView)
    ensures
        0 <= rank_of(s, e) <= s.len(),
        forall|j: int| 0 <= j < rank_of(s, e) ==> !outranks(e, #[trigger] s[j]),
        rank_of(s, e) == s.len() || outranks(e, s[rank_of(s, e)]),
    decreases s.len(),
{
    if s.len() == 0 || outranks(e, s[0]) {
    } else {
        let rest = s.skip(1);
        lemma_rank_of_splits(rest, e);
        assert forall|j: int| 0 <= j < rank_of(s, e) implies !outranks(e, #[trigger] s[j]) by {
            if j > 0 {
                assert(s[j] == rest[j - 1]);
            }
        }
    }
}

/// `position_of` is the index of the first entry of `owner`.
pub proof fn lemma_position_of(s: Seq<EntryView>, owner: Seq<u8>, k: int)
    requires
        0 <= k <= s.len(),
        forall|j: int| 0 <= j < k ==> (#[trigger] s[j]).owner != owner,
        k == s.len() || s[k].owner == owner,
    ensures
        position_of(s, owner) == k,
        holds(s, owner) <==> k < s.len(),
    decreases s.len(),
{
    if s.len() == 0 || s[0].owner == owner {
    } else {
        let rest = s.skip(1);
        assert forall|j: int| 0 <= j < k - 1 implies (#[trigger] rest[j]).owner != owner by {
            assert(rest[j] == s[j + 1]);
        }
        lemma_position_of(rest, owner, k - 1);
    }
    if k < s.len() {
        assert(s[k].owner == owner);
    } else {
        assert(!holds(s, owner)) by {
            if holds(s, owner) {
                let i = choose|i: int| 0 <= i < s.len() && (#[trigger] s[i]).owner == owner;
                assert(s[i].owner != owner);
            }
        }
    }
}

/// `position_of` lies within the queue exactly when `owner` has an entry,
/// and then it is the first one.
pub proof fn lemma_position_of_finds(s: Seq<EntryView>, owner: Seq<u8>)
    ensures
        0 <= position_of(s, owner) <= s.len(),
        holds(s, owner) <==> position_of(s, owner) < s.len(),
        holds(s, owner) ==> s[position_of(s, owner)].owner == owner,
        forall|j: int| 0 <= j < position_of(s, owner) ==> (#[trigger] s[j]).owner != owner,
    decreases s.len(),
{
    if s.len() == 0 {
    } else if s[0].owner == owner {
        assert(holds(s, owner));
    } else {
        let rest = s.skip(1);
        lemma_position_of_finds(rest, owner);
        assert forall|j: int| 0 <= j < position_of(s, owner) implies (#[trigger] s[j]).owner
            != owner by {
            if j > 0 {
                assert(s[j] == rest[j - 1]);
            }
        }
        if holds(rest, owner) {
            let i = choose|i: int| 0 <= i < rest.len() && (#[trigger] rest[i]).owner == owner;
            assert(s[i + 1] == rest[i]);
            assert(s[position_of(s, owner)] == rest[position_of(rest, owner)]);
        }
        if holds(s, owner) {
            let i = choose|i: int| 0 <= i < s.len() && (#[trigger] s[i]).owner == owner;
            assert(rest[i - 1] == s[i]);
        }
    }
}

/// Inserting an entry at its rank keeps a ranked queue ranked.
pub proof fn lemma_insert_keeps_ranked(s: Seq<EntryView>, e: EntryView)
    requires
        ranked(s),
    ensures
        ranked(s.insert(rank_of(s, e), e)),
{
    let k = rank_of(s, e);
    let t = s.insert(k, e);
    lemma_rank_of_splits(s, e);
    assert forall|i: int, j: int| 0 <= i < j < t.len() implies !outranks(
        #[trigger] t[j],
        #[trigger] t[i],
    ) by {
        if j < k {
            assert(t[i] == s[i] && t[j] == s[j]);
        } else if j == k {
            assert(t[i] == s[i]);
        } else if i == k {
            assert(t[j] == s[j - 1]);
            if j - 1 > k {
                assert(!outranks(s[j - 1], s[k]));
            }
        } else if i < k {
            assert(t[i] == s[i] && t[j] == s[j - 1]);
        } else {
            assert(t[i] == s[i - 1] && t[j] == s[j - 1]);
        }
    }
}

/// Inserting an entry adds its owner to those that the queue holds, and
/// nobody else.
pub proof fn lemma_insert_holds(s: Seq<EntryView>, k: int, e: EntryView, owner: Seq<u8>)
    requires
        0 <= k <= s.len(),
    ensures
        holds(s.insert(k, e), owner) <==> (holds(s, owner) || owner == e.owner),
{
    let t = s.insert(k, e);
    if holds(s, owner) {
        let i = choose|i: int| 0 <= i < s.len() && (#[trigger] s[i]).owner == owner;
        if i < k {
            assert(t[i] == s[i]);
        } else {
            assert(t[i + 1] == s[i]);
        }
    }
    if owner == e.owner {
        assert(t[k] == e);
    }
    if holds(t, owner) {
        let i = choose|i: int| 0 <= i < t.len() && (#[trigger] t[i]).owner == owner;
        if i < k {
            assert(t[i] == s[i]);
        } else if i > k {
            assert(t[i] == s[i - 1]);
        }
    }
}

/// Inserting an entry of a new owner keeps the owners distinct.
pub proof fn lemma_insert_keeps_owners(s: Seq<EntryView>, k: int, e: EntryView)
    requires
        0 <= k <= s.len(),
        one_entry_per_owner(s),
        !holds(s, e.owner),
    ensures
        one_entry_per_owner(s.insert(k, e)),
{
    let t = s.insert(k, e);
    assert forall|i: int, j: int| 0 <= i < j < t.len() implies (#[trigger] t[i]).owner != (
    #[trigger] t[j]).owner by {
        let si = if i < k { i } else { i - 1 };
        let sj = if j < k { j } else { j - 1 };
        if i == k {
            assert(t[j] == s[sj]);
            assert(s[sj].owner != e.owner);
        } else if j == k {
            assert(t[i] == s[si]);
            assert(s[si].owner != e.owner);
        } else {
            assert(t[i] == s[si] && t[j] == s[sj]);
        }
    }
}

/// Taking an owner's entry out keeps the queue ranked and the owners
/// distinct, and leaves every other owner's entry in place.
pub proof fn lemma_without(s: Seq<EntryView>, owner: Seq<u8>)
    requires
        ranked(s),
        one_entry_per_owner(s),
    ensures
        ranked(without(s, owner)),
        one_entry_per_owner(without(s, owner)),
        !holds(without(s, owner), owner),
        forall|other: Seq<u8>|
            other != owner ==> (holds(without(s, owner), other) <==> holds(s, other)),
{
    lemma_position_of_finds(s, owner);
    let t = without(s, owner);
    if holds(s, owner) {
        let k = position_of(s, owner);
        assert forall|i: int| 0 <= i < t.len() implies #[trigger] t[i] == s[if i < k {
            i
        } else {
            i + 1
        }] by {}
        assert forall|i: int, j: int| 0 <= i < j < t.len() implies !outranks(
            #[trigger] t[j],
            #[trigger] t[i],
        ) by {
            let si = if i < k { i } else { i + 1 };
            let sj = if j < k { j } else { j + 1 };
            assert(!outranks(s[sj], s[si]));
        }
        assert forall|i: int, j: int| 0 <= i < j < t.len() implies (#[trigger] t[i]).owner != (
        #[trigger] t[j]).owner by {
            let si = if i < k { i } else { i + 1 };
            let sj = if j < k { j } else { j + 1 };
            assert(s[si].owner != s[sj].owner);
        }
        assert(!holds(t, owner)) by {
            if holds(t, owner) {
                let i = choose|i: int| 0 <= i < t.len() && (#[trigger] t[i]).owner == owner;
                let si = if i < k { i } else { i + 1 };
                assert(s[si].owner == owner);
                if si < k {
                } else {
                    assert(s[k].owner != s[si].owner);
                }
            }
        }
        assert forall|other: Seq<u8>| other != owner implies (holds(t, other) <==> holds(
            s,
            other,
        )) by {
            if holds(t, other) {
                let i = choose|i: int| 0 <= i < t.len() && (#[trigger] t[i]).owner == other;
                let si = if i < k { i } else { i + 1 };
                assert(s[si].owner == other);
            }
            if holds(s, other) {
                let i = choose|i: int| 0 <= i < s.len() && (#[trigger] s[i]).owner == other;
                let ti = if i < k { i } else { i - 1 };
                assert(t[ti] == s[i]);
            }
        }
    }
}

/// In a ranked queue nothing outranks the head.
pub proof fn lemma_head_is_best(s: Seq<EntryView>, i: int)
    requires
        ranked(s),
        0 <= i < s.len(),
    ensures
        !outranks(s[i], s[0]),
        s[i].price <= s[0].price,
{
    if i > 0 {
        assert(!outranks(s[i], s[0]));
    }
}

/// Whether an order at `price`, arrived at `created_at`, ranks strictly
/// before `other`.
fn ranks_before(price: u128, created_at: u64, other: &QueueEntry) -> (yes: bool)
    ensures
        yes == (price > other.price || (price == other.price && created_at < other.created_at)),
{
    price > other.price || (price == other.price && created_at < other.created_at)
}

/// The contents of a list of entries.
pub open spec fn entry_views(entries: Seq<QueueEntry>) -> Seq<EntryView> {
    Seq::new(entries.len(), |i: int| entries[i]@)
}

/// Resting orders in rank order, best first.
#[derive(Debug, PartialEq, Eq)]
pub struct OrderQueue {
    entries: Vec<QueueEntry>,
}

impl View for OrderQueue {
    type V = Seq<EntryView>;

    closed spec fn view(&self) -> Seq<EntryView> {
        entry_views(self.entries@)
    }
}

impl OrderQueue {
    /// The entries are in rank order and no participant has two.
    pub open spec fn wf(&self) -> bool {
        ranked(self@) && one_entry_per_owner(self@)
    }

    /// The empty queue.
    pub fn new() -> (queue: Self)
        ensures
            queue@ == Seq::<EntryView>::empty(),
            queue.wf(),
    {
        let queue = OrderQueue { entries: Vec::new() };
        assert(queue@ =~= Seq::<EntryView>::empty());
        queue
    }

    /// Number of resting entries.
    pub fn len(&self) -> (n: usize)
        ensures
            n == self@.len(),
    {
        self.entries.len()
    }

    pub fn is_empty(&self) -> (empty: bool)
        ensures
            empty == (self@.len() == 0),
    {
        self.entries.len() == 0
    }

    /// The queue that holds `entries` in the order given, if they are in
    /// rank order and no participant has two of them; `None` otherwise.
    pub fn from_entries(entries: Vec<QueueEntry>) -> (queue: Option<Self>)
        ensures
            match queue {
                Some(q) => q.wf() && q@ == entry_views(entries@),
                None => !(ranked(entry_views(entries@)) && one_entry_per_owner(
                    entry_views(entries@),
                )),
            },
    {
        let ghost views = entry_views(entries@);
        let mut k: usize = 0;
        while k < entries.len()
            invariant
                k <= entries.len(),
                views == entry_views(entries@),
                forall|i: int, j: int|
                    0 <= i < j < k ==> !outranks(#[trigger] views[j], #[trigger] views[i]),
                forall|i: int, j: int|
                    0 <= i < j < k ==> (#[trigger] views[i]).owner != (#[trigger] views[j]).owner,
            decreases entries.len() - k,
        {
            if k > 0 && ranks_before(entries[k].price, entries[k].created_at, &entries[k - 1]) {
                assert(outranks(views[k as int], views[k - 1]));
                return None;
            }
            let mut i: usize = 0;
            while i < k
                invariant
                    i <= k,
                    k < entries.len(),
                    views == entry_views(entries@),
                    forall|m: int| 0 <= m < i ==> (#[trigger] views[m]).owner != views[k as int].owner,
                decreases k - i,
            {
                if same_bytes(&entries[i].owner, &entries[k].owner) {
                    assert(views[i as int].owner == views[k as int].owner);
                    return None;
                }
                i += 1;
            }
            proof {
                assert forall|m: int| 0 <= m < k implies !outranks(
                    views[k as int],
                    #[trigger] views[m],
                ) by {
                    if m < k - 1 {
                        assert(!outranks(views[k - 1], views[m]));
                    }
                }
            }
            k += 1;
        }
        Some(OrderQueue { entries })
    }

    /// The entries in rank order, best first.
    pub fn entries(&self) -> (entries: Vec<QueueEntry>)
        ensures
            entry_views(entries@) == self@,
    {
        let mut entries: Vec<QueueEntry> = Vec::new();
        let mut k: usize = 0;
        while k < self.entries.len()
            invariant
                k <= self.entries.len(),
                entries@.len() == k,
                forall|i: int| 0 <= i < k ==> (#[trigger] entries@[i])@ == self@[i],
            decreases self.entries.len() - k,
        {
            entries.push(self.entries[k].clone());
            k += 1;
        }
        assert(entry_views(entries@) =~= self@);
        entries
    }

    /// Index of the entry of `owner`, or the queue's length if it has none.
    fn find(&self, owner: &Vec<u8>) -> (k: usize)
        ensures
            k == position_of(self@, owner@),
            k <= self@.len(),
            holds(self@, owner@) <==> k < self@.len(),
    {
        let mut k: usize = 0;
        while k < self.entries.len() && !same_bytes(&self.entries[k].owner, owner)
            invariant
                k <= self.entries.len(),
                forall|j: int| 0 <= j < k ==> (#[trigger] self@[j]).owner != owner@,
            decreases self.entries.len() - k,
        {
            k += 1;
        }
        proof {
            lemma_position_of(self@, owner@, k as int);
        }
        k
    }

    /// Whether `owner` has an entry.
    pub fn contains(&self, owner: &Vec<u8>) -> (found: bool)
        ensures
            found == holds(self@, owner@),
    {
        self.find(owner) < self.entries.len()
    }

    /// The entry of `owner`, if it has one.
    pub fn entry_of(&self, owner: &Vec<u8>) -> (entry: Option<QueueEntry>)
        ensures
            match entry {
                Some(e) => holds(self@, owner@) && e@ == self@[position_of(self@, owner@)],
                None => !holds(self@, owner@),
            },
    {
        let k = self.find(owner);
        if k < self.entries.len() {
            Some(self.entries[k].clone())
        } else {
            None
        }
    }

    /// Enters an order at its rank: behind every entry at a better price and
    /// every entry at the same price that is no younger, in front of all
    /// others. Fails with `DuplicateOwner`, changing nothing, if `owner`
    /// already has an entry.
    pub fn insert(&mut self, owner: Vec<u8>, price: u128, created_at: u64) -> (done: Result<
        (),
        ContractError,
    >)
        requires
            old(self).wf(),
        ensures
            final(self).wf(),
            holds(old(self)@, owner@) ==> done == Err::<(), ContractError>(
                ContractError::DuplicateOwner,
            ) && final(self)@ == old(self)@,
            !holds(old(self)@, owner@) ==> done is Ok && final(self)@ == old(self)@.insert(
                rank_of(old(self)@, EntryView { owner: owner@, price, created_at }),
                EntryView { owner: owner@, price, created_at },
            ),
    {
        if self.contains(&owner) {
            return Err(ContractError::DuplicateOwner);
        }
        let ghost before = self@;
        let ghost e = EntryView { owner: owner@, price, created_at };
        let mut k: usize = 0;
        while k < self.entries.len() && !ranks_before(price, created_at, &self.entries[k])
            invariant
                k <= self.entries.len(),
                self@ == before,
                e == (EntryView { owner: owner@, price, created_at }),
                forall|j: int| 0 <= j < k ==> !outranks(e, #[trigger] self@[j]),
            decreases self.entries.len() - k,
        {
            k += 1;
        }
        proof {
            lemma_rank_of(before, e, k as int);
            lemma_insert_keeps_ranked(before, e);
            lemma_insert_keeps_owners(before, k as int, e);
        }
        self.entries.insert(k, QueueEntry { owner, price, created_at });
        assert(self@ =~= before.insert(k as int, e));
        Ok(())
    }

    /// The best-ranked entry, or `None` if the queue is empty. The queue is
    /// left as it is.
    pub fn peek(&self) -> (head: Option<QueueEntry>)
        ensures
            match head {
                Some(e) => self@.len() > 0 && e@ == self@[0],
                None => self@.len() == 0,
            },
    {
        if self.entries.len() == 0 {
            None
        } else {
            Some(self.entries[0].clone())
        }
    }

    /// Takes out the entry of `owner`, wherever it stands. Does nothing if
    /// `owner` has no entry.
    pub fn remove(&mut self, owner: &Vec<u8>)
        requires
            old(self).wf(),
        ensures
            final(self).wf(),
            final(self)@ == without(old(self)@, owner@),
    {
        let ghost before = self@;
        proof {
            lemma_without(before, owner@);
        }
        let k = self.find(owner);
        if k < self.entries.len() {
            self.entries.remove(k);
            assert(self@ =~= before.remove(k as int));
        }
    }
}

} // verus!
