//! `SimpleBag`: a fixed row of slots, each empty or holding one entry.
//!
//! A borrow takes the entry of the first occupied slot; a release puts the
//! entry into the first empty slot. The bag also keeps a 16-bit counter of
//! available entries that releases raise and borrows lower, wrapping around
//! as an atomic counter does.

use vstd::prelude::*;
use vstd::multiset::Multiset;
use crate::random::{gen_range, thread_rng};

verus! {

/// Index of the first slot at or after `from` whose occupancy is `occupied`,
/// or `s.len()` when there is none.
pub open spec fn first_slot_from<T>(s: Seq<Option<T>>, from: int, occupied: bool) -> int
    decreases s.len() - from,
{
    if from >= s.len() {
        s.len() as int
    } else if s[from].is_some() == occupied {
        from
    } else {
        first_slot_from(s, from + 1, occupied)
    }
}

/// Index of the first slot whose occupancy is `occupied`, or `s.len()`.
pub open spec fn first_slot<T>(s: Seq<Option<T>>, occupied: bool) -> int {
    first_slot_from(s, 0, occupied)
}

/// What `first_slot_from` is: the least index at or after `from` with the
/// asked occupancy, or the length.
pub proof fn lemma_first_slot_from<T>(s: Seq<Option<T>>, from: int, occupied: bool)
    requires
        0 <= from <= s.len(),
    ensures
        from <= first_slot_from(s, from, occupied) <= s.len(),
        forall|j: int|
            from <= j < first_slot_from(s, from, occupied) ==> (#[trigger] s[j]).is_some()
                != occupied,
        first_slot_from(s, from, occupied) < s.len() ==> s[first_slot_from(
            s,
            from,
            occupied,
        )].is_some() == occupied,
    decreases s.len() - from,
{
    if from < s.len() && s[from].is_some() != occupied {
        lemma_first_slot_from(s, from + 1, occupied);
    }
}

/// The abstract state of a `SimpleBag`: its slots and its counter.
pub struct SimpleBagView<T> {
    pub slots: Seq<Option<T>>,
    pub available: u16,
}

impl<T> SimpleBagView<T> {
    /// The bag after a borrow, and what the borrow hands out: the entry of the
    /// first occupied slot, which becomes empty, and the counter lowered by one
    /// (wrapping); a bag with no occupied slot stays as it is and hands out nothing.
    pub open spec fn borrow(self) -> (SimpleBagView<T>, Option<T>) {
        let i = first_slot(self.slots, true);
        if i < self.slots.len() {
            (
                SimpleBagView {
                    slots: self.slots.update(i, None),
                    available: self.available.wrapping_sub(1),
                },
                self.slots[i],
            )
        } else {
            (self, None)
        }
    }

    /// The bag after `entry` is released: it fills the first empty slot and the
    /// counter rises by one (wrapping); a bag with no empty slot stays as it is
    /// and the entry is dropped.
    pub open spec fn release(self, entry: T) -> SimpleBagView<T> {
        let i = first_slot(self.slots, false);
        if i < self.slots.len() {
            SimpleBagView {
                slots: self.slots.update(i, Some(entry)),
                available: self.available.wrapping_add(1),
            }
        } else {
            self
        }
    }
}

/// What one slot holds, as a multiset: its entry, or nothing.
pub open spec fn slot_entry<T>(o: Option<T>) -> Multiset<T> {
    match o {
        Some(x) => Multiset::singleton(x),
        None => Multiset::empty(),
    }
}

/// The entries that the slots hold, counted with multiplicity.
pub open spec fn slot_entries<T>(s: Seq<Option<T>>) -> Multiset<T>
    decreases s.len(),
{
    if s.len() == 0 {
        Multiset::empty()
    } else {
        slot_entries(s.drop_last()).add(slot_entry(s.last()))
    }
}

/// Changing one slot changes the entries by what it held and what it holds now.
proof fn lemma_slot_entries_update<T>(s: Seq<Option<T>>, i: int, v: Option<T>)
    requires
        0 <= i < s.len(),
    ensures
        slot_entries(s.update(i, v)).add(slot_entry(s[i])) =~= slot_entries(s).add(
            slot_entry(v),
        ),
    decreases s.len(),
{
    broadcast use vstd::multiset::group_multiset_axioms;

    let t = s.update(i, v);
    if i == s.len() - 1 {
        assert(t.drop_last() =~= s.drop_last());
    } else {
        lemma_slot_entries_update(s.drop_last(), i, v);
        assert(t.drop_last() =~= s.drop_last().update(i, v));
        let before = slot_entries(t.drop_last()).add(slot_entry(s[i]));
        assert(before == slot_entries(s.drop_last()).add(slot_entry(v)));
        assert forall|x: T| #[trigger]
            slot_entries(t).add(slot_entry(s[i])).count(x) == slot_entries(s).add(
                slot_entry(v),
            ).count(x) by {
            assert(before.count(x) == slot_entries(s.drop_last()).add(slot_entry(v)).count(x));
        }
    }
}

/// A borrow hands out only what the bag held and takes it out of the bag:
/// the entries left, together with the one handed out, are those before.
/// It hands out nothing only when no slot is occupied, and the number of
/// slots never changes.
pub proof fn lemma_borrow_conserves_entries<T>(v: SimpleBagView<T>)
    ensures
        slot_entries(v.borrow().0.slots).add(slot_entry(v.borrow().1)) == slot_entries(v.slots),
        v.borrow().1 is None <==> forall|j: int| 0 <= j < v.slots.len() ==> (#[trigger] v.slots[j]) is None,
        v.borrow().0.slots.len() == v.slots.len(),
{
    broadcast use vstd::multiset::group_multiset_axioms;

    lemma_first_slot_from(v.slots, 0, true);
    let i = first_slot(v.slots, true);
    if i < v.slots.len() {
        lemma_slot_entries_update(v.slots, i, None);
        assert(slot_entries(v.borrow().0.slots).add(slot_entry(v.borrow().1)) =~= slot_entries(
            v.slots,
        ));
    } else {
        assert(slot_entries(v.borrow().0.slots).add(slot_entry(v.borrow().1)) =~= slot_entries(
            v.slots,
        ));
    }
}

/// A release into a bag with an empty slot adds exactly the released entry
/// and raises the counter; a bag whose slots are all occupied stays as it
/// was. The number of slots never changes.
pub proof fn lemma_release_conserves_entries<T>(v: SimpleBagView<T>, entry: T)
    ensures
        (exists|j: int| 0 <= j < v.slots.len() && (#[trigger] v.slots[j]) is None) ==> {
            &&& slot_entries(v.release(entry).slots) == slot_entries(v.slots).insert(entry)
            &&& v.release(entry).available == v.available.wrapping_add(1)
        },
        (forall|j: int| 0 <= j < v.slots.len() ==> (#[trigger] v.slots[j]) is Some) ==> v.release(
            entry,
        ) == v,
        v.release(entry).slots.len() == v.slots.len(),
{
    broadcast use vstd::multiset::group_multiset_axioms;

    lemma_first_slot_from(v.slots, 0, false);
    let i = first_slot(v.slots, false);
    if i < v.slots.len() {
        lemma_slot_entries_update(v.slots, i, Some(entry));
        assert(slot_entries(v.release(entry).slots) =~= slot_entries(v.slots).insert(entry));
    } else {
        assert forall|j: int| 0 <= j < v.slots.len() implies (#[trigger] v.slots[j]) is Some by {}
    }
}

/// The counter of a bag counts its entries (modulo 2^16) as long as only
/// borrows and releases change the bag: a new bag starts so, and borrows and
/// releases keep it so. (`add_entry` and `remove_entry` leave the counter
/// alone and so can break it.)
pub proof fn lemma_counter_counts_entries<T>(v: SimpleBagView<T>, entry: T)
    requires
        v.available == slot_entries(v.slots).len() % 0x10000,
    ensures
        v.borrow().0.available == slot_entries(v.borrow().0.slots).len() % 0x10000,
        v.release(entry).available == slot_entries(v.release(entry).slots).len() % 0x10000,
{
    broadcast use vstd::multiset::group_multiset_axioms;

    lemma_borrow_conserves_entries(v);
    lemma_release_conserves_entries(v, entry);
    lemma_first_slot_from(v.slots, 0, true);
    lemma_first_slot_from(v.slots, 0, false);
}

/// A new bag's counter counts its entries, none.
pub proof fn lemma_new_bag_counts_entries<T>(v: SimpleBagView<T>)
    requires
        v.available == 0,
        forall|j: int| 0 <= j < v.slots.len() ==> (#[trigger] v.slots[j]) is None,
    ensures
        v.available == slot_entries(v.slots).len() % 0x10000,
    decreases v.slots.len(),
{
    broadcast use vstd::multiset::group_multiset_axioms;

    if v.slots.len() > 0 {
        lemma_new_bag_counts_entries(SimpleBagView { slots: v.slots.drop_last(), available: 0 });
    }
}

/// A borrow takes the entry of the occupied slot with the least index and
/// empties that slot, leaving every other slot alone; a bag with no
/// occupied slot hands out nothing and stays as it is.
pub proof fn lemma_borrow_takes_first_occupied<T>(v: SimpleBagView<T>)
    ensures
        v.borrow().1 matches Some(x) ==> exists|i: int|
            {
                &&& 0 <= i < v.slots.len()
                &&& v.slots[i] == Some(x)
                &&& (forall|j: int| 0 <= j < i ==> (#[trigger] v.slots[j]) is None)
                &&& v.borrow().0.slots == v.slots.update(i, None)
            },
        v.borrow().1 is None ==> v.borrow().0 == v && forall|j: int|
            0 <= j < v.slots.len() ==> (#[trigger] v.slots[j]) is None,
{
    lemma_first_slot_from(v.slots, 0, true);
}

/// A release puts the entry into the empty slot with the least index,
/// leaving every other slot alone; a bag with no empty slot drops the entry
/// and stays as it is.
pub proof fn lemma_release_fills_first_empty<T>(v: SimpleBagView<T>, entry: T)
    ensures
        (exists|i: int| 0 <= i < v.slots.len() && (#[trigger] v.slots[i]) is None) ==> exists|
            i: int,
        |
            {
                &&& 0 <= i < v.slots.len()
                &&& v.slots[i] is None
                &&& (forall|j: int| 0 <= j < i ==> (#[trigger] v.slots[j]) is Some)
                &&& v.release(entry).slots == v.slots.update(i, Some(entry))
            },
        (forall|j: int| 0 <= j < v.slots.len() ==> (#[trigger] v.slots[j]) is Some) ==> v.release(
            entry,
        ) == v,
{
    lemma_first_slot_from(v.slots, 0, false);
    let i = first_slot(v.slots, false);
    if exists|k: int| 0 <= k < v.slots.len() && (#[trigger] v.slots[k]) is None {
        let k = choose|k: int| 0 <= k < v.slots.len() && (#[trigger] v.slots[k]) is None;
        assert(i <= k);
        assert(v.slots[i] is None);
        assert forall|j: int| 0 <= j < i implies (#[trigger] v.slots[j]) is Some by {
            assert(v.slots[j].is_some() != false);
        }
        assert(v.release(entry).slots == v.slots.update(i, Some(entry)));
    }
}

/// A borrow right after a release hands back the released entry and leaves
/// the bag as it was before the release, counter included, whenever the
/// first empty slot comes before the first occupied one: in particular in a
/// bag with at least one slot whose slots are all empty, as a new bag's are.
pub proof fn lemma_release_then_borrow<T>(v: SimpleBagView<T>, entry: T)
    requires
        first_slot(v.slots, false) < first_slot(v.slots, true),
    ensures
        v.release(entry).borrow() == (v, Some(entry)),
{
    lemma_first_slot_from(v.slots, 0, false);
    lemma_first_slot_from(v.slots, 0, true);
    let i = first_slot(v.slots, false);
    assert(i == 0);
    let w = v.release(entry);
    lemma_first_slot_from(w.slots, 0, true);
    assert(first_slot(w.slots, true) == 0);
    assert(w.slots.update(0, None) =~= v.slots);
    let a = v.available;
    assert(a.wrapping_add(1).wrapping_sub(1) == a);
}

/// A bag with at least one slot, all of them empty, meets the condition of
/// `lemma_release_then_borrow`.
pub proof fn lemma_all_empty_release_then_borrow<T>(v: SimpleBagView<T>, entry: T)
    requires
        v.slots.len() > 0,
        forall|j: int| 0 <= j < v.slots.len() ==> (#[trigger] v.slots[j]) is None,
    ensures
        v.release(entry).borrow() == (v, Some(entry)),
{
    lemma_first_slot_from(v.slots, 0, true);
    assert(v.slots[0] is None);
    lemma_release_then_borrow(v, entry);
}

/// A bag of entries held in a fixed row of slots.
pub struct SimpleBag<T> {
    entry_list: Vec<Option<T>>,
    available_entries: u16,
}

impl<T> View for SimpleBag<T> {
    type V = SimpleBagView<T>;

    closed spec fn view(&self) -> SimpleBagView<T> {
        SimpleBagView { slots: self.entry_list@, available: self.available_entries }
    }
}

impl<T> SimpleBag<T> {
    /// A bag of `initial_size` empty slots whose counter is 0.
    pub fn new(initial_size: u16) -> (bag: SimpleBag<T>)
        ensures
            bag@.slots.len() == initial_size,
            forall|j: int| 0 <= j < initial_size ==> (#[trigger] bag@.slots[j]) is None,
            bag@.available == 0,
    {
        let mut local_entry_list: Vec<Option<T>> = Vec::new();
        let mut i: u16 = 0;
        while i < initial_size
            invariant
                i <= initial_size,
                local_entry_list@.len() == i,
                forall|j: int| 0 <= j < i ==> (#[trigger] local_entry_list@[j]) is None,
            decreases initial_size - i,
        {
            local_entry_list.push(None);
            i = i + 1;
        }
        SimpleBag { entry_list: local_entry_list, available_entries: 0 }
    }

    /// Scans the slots `from..to` for the first occupied one and takes its
    /// entry. The caller has seen no occupied slot before `from`.
    fn take_first_in(&mut self, from: usize, to: usize) -> (entry: Option<T>)
        requires
            from <= to <= old(self)@.slots.len(),
            first_slot(old(self)@.slots, true) == first_slot_from(
                old(self)@.slots,
                from as int,
                true,
            ),
        ensures
            first_slot(old(self)@.slots, true) < to ==> (final(self)@, entry) == old(
                self,
            )@.borrow(),
            first_slot(old(self)@.slots, true) >= to ==> {
                &&& final(self)@ == old(self)@
                &&& entry is None
                &&& first_slot(old(self)@.slots, true) == first_slot_from(
                    old(self)@.slots,
                    to as int,
                    true,
                )
            },
    {
        let ghost s = self@.slots;
        let mut i: usize = from;
        while i < to
            invariant
                self@ == old(self)@,
                s == self@.slots,
                from <= i <= to,
                to <= s.len(),
                first_slot(s, true) == first_slot_from(s, i as int, true),
            decreases to - i,
        {
            if self.entry_list[i].is_some() {
                let entry = self.entry_list[i].take();
                self.available_entries = self.available_entries.wrapping_sub(1);
                return entry;
            }
            i = i + 1;
        }
        proof {
            lemma_first_slot_from(s, to as int, true);
        }
        None
    }

    /// Scans the slots `from..to` for the first empty one and puts `entry`
    /// there. The caller has seen no empty slot before `from`. When there is
    /// none in the range, the entry is handed back.
    fn put_first_in(&mut self, from: usize, to: usize, entry: T) -> (rest: Option<T>)
        requires
            from <= to <= old(self)@.slots.len(),
            first_slot(old(self)@.slots, false) == first_slot_from(
                old(self)@.slots,
                from as int,
                false,
            ),
        ensures
            first_slot(old(self)@.slots, false) < to ==> {
                &&& final(self)@ == old(self)@.release(entry)
                &&& rest is None
            },
            first_slot(old(self)@.slots, false) >= to ==> {
                &&& final(self)@ == old(self)@
                &&& rest == Some(entry)
                &&& first_slot(old(self)@.slots, false) == first_slot_from(
                    old(self)@.slots,
                    to as int,
                    false,
                )
            },
    {
        let ghost s = self@.slots;
        let mut i: usize = from;
        while i < to
            invariant
                self@ == old(self)@,
                s == self@.slots,
                from <= i <= to,
                to <= s.len(),
                first_slot(s, false) == first_slot_from(s, i as int, false),
            decreases to - i,
        {
            if self.entry_list[i].is_none() {
                self.entry_list.set(i, Some(entry));
                self.available_entries = self.available_entries.wrapping_add(1);
                return None;
            }
            i = i + 1;
        }
        proof {
            lemma_first_slot_from(s, to as int, false);
        }
        Some(entry)
    }

    /// Takes the entry of the first occupied slot, if any.
    pub fn borrow_entry_std(&mut self) -> (entry: Option<T>)
        ensures
            (final(self)@, entry) == old(self)@.borrow(),
    {
        let n = self.entry_list.len();
        let entry = self.take_first_in(0, n);
        entry
    }

    /// Draws a random index of the bag, scans the slots before it and then the
    /// slots from it on. The two scans together visit every slot in order, so
    /// the result is that of `borrow_entry_std` whatever index was drawn.
    pub fn borrow_entry_rnd(&mut self) -> (entry: Option<T>)
        requires
            old(self)@.slots.len() > 0,
        ensures
            (final(self)@, entry) == old(self)@.borrow(),
    {
        let n = self.entry_list.len();
        let mut rng = thread_rng();
        let randomvalue = gen_range(&mut rng, 0, n);
        proof {
            lemma_first_slot_from(self@.slots, 0, true);
        }
        if randomvalue > 0 {
            let entry = self.take_first_in(0, randomvalue);
            if entry.is_some() {
                return entry;
            }
        }
        if randomvalue < n {
            let entry = self.take_first_in(randomvalue, n);
            if entry.is_some() {
                return entry;
            }
        }
        None
    }

    /// The first attempt of a borrow that is willing to wait: it takes the
    /// entry of the first occupied slot, if any. When it hands out nothing, a
    /// bag shared between threads waits up to `WAIT_FOR_RELEASE_MILLIS` for a
    /// release and then calls `borrow_entry_after_wait`.
    pub fn borrow_entry(&mut self) -> (entry: Option<T>)
        ensures
            (final(self)@, entry) == old(self)@.borrow(),
    {
        self.borrow_entry_std()
    }

    /// The end of a borrow that waited for a release: a wait that timed out
    /// hands out nothing and leaves the bag alone; otherwise the borrow is
    /// tried once more.
    pub fn borrow_entry_after_wait(&mut self, timed_out: bool) -> (entry: Option<T>)
        ensures
            timed_out ==> final(self)@ == old(self)@ && entry is None,
            !timed_out ==> (final(self)@, entry) == old(self)@.borrow(),
    {
        if timed_out {
            None
        } else {
            self.borrow_entry_std()
        }
    }

    /// Puts `entry` back into the bag, as `release_entry_std` does; a bag
    /// shared between threads then wakes one waiting borrower.
    pub fn release_entry(&mut self, entry: T)
        ensures
            final(self)@ == old(self)@.release(entry),
    {
        self.release_entry_std(entry)
    }

    /// Puts `entry` into the first empty slot; a bag with no empty slot drops it.
    pub fn release_entry_std(&mut self, entry: T)
        ensures
            final(self)@ == old(self)@.release(entry),
    {
        let n = self.entry_list.len();
        let _rest = self.put_first_in(0, n, entry);
    }

    /// Draws a random index of the bag, scans the slots before it and then the
    /// slots from it on for an empty one. As with `borrow_entry_rnd`, the entry
    /// lands where `release_entry_std` puts it, whatever index was drawn.
    pub fn release_entry_rnd(&mut self, entry: T)
        requires
            old(self)@.slots.len() > 0,
        ensures
            final(self)@ == old(self)@.release(entry),
    {
        let n = self.entry_list.len();
        let mut rng = thread_rng();
        let randomvalue = gen_range(&mut rng, 0, n);
        proof {
            lemma_first_slot_from(self@.slots, 0, false);
        }
        let mut rest = Some(entry);
        if randomvalue > 0 {
            if let Some(e) = rest {
                rest = self.put_first_in(0, randomvalue, e);
            }
        }
        if randomvalue < n {
            if let Some(e) = rest {
                rest = self.put_first_in(randomvalue, n, e);
            }
        }
    }

    /// The number of slots.
    pub fn size(&self) -> (n: usize)
        ensures
            n == self@.slots.len(),
    {
        self.entry_list.len()
    }

    /// The counter of available entries.
    pub fn available_size(&self) -> (n: u16)
        ensures
            n == self@.available,
    {
        self.available_entries
    }

    /// Appends a slot that holds `value`; the counter is left as it is.
    pub fn add_entry(&mut self, value: T)
        ensures
            final(self)@.slots == old(self)@.slots.push(Some(value)),
            final(self)@.available == old(self)@.available,
    {
        self.entry_list.push(Some(value));
    }

    /// Removes the last slot, with whatever it holds; the counter is left as
    /// it is. A bag without slots stays as it is.
    pub fn remove_entry(&mut self)
        ensures
            old(self)@.slots.len() > 0 ==> final(self)@.slots == old(self)@.slots.drop_last(),
            old(self)@.slots.len() == 0 ==> final(self)@.slots == old(self)@.slots,
            final(self)@.available == old(self)@.available,
    {
        let _last = self.entry_list.pop();
    }
}

/// How long, in milliseconds, a shared bag's borrow waits for a release.
pub const WAIT_FOR_RELEASE_MILLIS: u64 = 500;

} // verus!
