//! `ConcurrentBag`: entries kept in two stacks that borrows and releases
//! take turns on.
//!
//! Each stack has a 16-bit counter of the entries it holds (wrapping as an
//! atomic counter does). Releases push onto the two stacks in turn; borrows
//! pop from the two stacks in turn and fall back to the other stack when the
//! chosen one is empty. A borrow gives up at once when both counters are 0.

use vstd::prelude::*;
use vstd::multiset::Multiset;

verus! {

/// The abstract state of a `ConcurrentBag`.
pub struct ConcurrentBagView<T> {
    pub list_1: Seq<T>,
    pub list_2: Seq<T>,
    pub available_1: u16,
    pub available_2: u16,
    pub sequence_gen: u16,
    pub sequence_gen_release: u16,
}

impl<T> ConcurrentBagView<T> {
    /// Each counter holds the size of its stack, modulo 2^16.
    pub open spec fn wf(self) -> bool {
        &&& self.available_1 == self.list_1.len() % 0x10000
        &&& self.available_2 == self.list_2.len() % 0x10000
    }

    /// The entries of the bag, counted with multiplicity.
    pub open spec fn entries(self) -> Multiset<T> {
        self.list_1.to_multiset().add(self.list_2.to_multiset())
    }

    /// The number of entries in the bag.
    pub open spec fn len(self) -> nat {
        self.list_1.len() + self.list_2.len()
    }

    /// Pops the top of the first stack, lowering its counter; an empty stack
    /// gives nothing.
    pub open spec fn pop_1(self) -> (ConcurrentBagView<T>, Option<T>) {
        if self.list_1.len() > 0 {
            (
                ConcurrentBagView {
                    list_1: self.list_1.drop_last(),
                    available_1: self.available_1.wrapping_sub(1),
                    ..self
                },
                Some(self.list_1.last()),
            )
        } else {
            (self, None)
        }
    }

    /// Pops the top of the second stack, lowering its counter; an empty
    /// stack gives nothing.
    pub open spec fn pop_2(self) -> (ConcurrentBagView<T>, Option<T>) {
        if self.list_2.len() > 0 {
            (
                ConcurrentBagView {
                    list_2: self.list_2.drop_last(),
                    available_2: self.available_2.wrapping_sub(1),
                    ..self
                },
                Some(self.list_2.last()),
            )
        } else {
            (self, None)
        }
    }

    /// The bag after a borrow, and what the borrow hands out. With both
    /// counters at 0 nothing changes and nothing is handed out. Otherwise the
    /// borrow sequence number advances (wrapping); an even number pops the
    /// first stack and falls back to the second, an odd one the other way round.
    pub open spec fn borrow(self) -> (ConcurrentBagView<T>, Option<T>) {
        if self.available_1 == 0 && self.available_2 == 0 {
            (self, None)
        } else {
            let turned = ConcurrentBagView {
                sequence_gen: self.sequence_gen.wrapping_add(1),
                ..self
            };
            if self.sequence_gen % 2 == 0 {
                if turned.list_1.len() > 0 {
                    turned.pop_1()
                } else {
                    turned.pop_2()
                }
            } else {
                if turned.list_2.len() > 0 {
                    turned.pop_2()
                } else {
                    turned.pop_1()
                }
            }
        }
    }

    /// The bag after `entry` is released: the release sequence number advances
    /// (wrapping); an even number pushes onto the first stack, an odd one onto
    /// the second, and the counter of that stack rises by one (wrapping).
    pub open spec fn release(self, entry: T) -> ConcurrentBagView<T> {
        let seq = self.sequence_gen_release.wrapping_add(1);
        if self.sequence_gen_release % 2 == 0 {
            ConcurrentBagView {
                list_1: self.list_1.push(entry),
                available_1: self.available_1.wrapping_add(1),
                sequence_gen_release: seq,
                ..self
            }
        } else {
            ConcurrentBagView {
                list_2: self.list_2.push(entry),
                available_2: self.available_2.wrapping_add(1),
                sequence_gen_release: seq,
                ..self
            }
        }
    }
}

/// What a borrow hands out, as a multiset: its entry, or nothing.
pub open spec fn borrowed_entry<T>(o: Option<T>) -> Multiset<T> {
    match o {
        Some(x) => Multiset::singleton(x),
        None => Multiset::empty(),
    }
}

/// Popping a stack takes its top out of its multiset.
proof fn lemma_drop_last_to_multiset<T>(s: Seq<T>)
    requires
        s.len() > 0,
    ensures
        s.drop_last().to_multiset().insert(s.last()) =~= s.to_multiset(),
{
    broadcast use vstd::seq_lib::group_to_multiset_ensures;

    assert(s.drop_last().push(s.last()) =~= s);
}

/// A borrow hands out only what the bag held and takes it out of the bag:
/// the entries left, together with the one handed out, are those before;
/// the bag shrinks by one exactly when something is handed out. The
/// invariant is kept.
pub proof fn lemma_borrow_conserves_entries<T>(v: ConcurrentBagView<T>)
    ensures
        v.borrow().0.entries().add(borrowed_entry(v.borrow().1)) == v.entries(),
        v.borrow().1 is Some ==> v.borrow().0.len() + 1 == v.len(),
        v.borrow().1 is None ==> v.borrow().0.len() == v.len(),
        v.wf() ==> v.borrow().0.wf(),
{
    broadcast use vstd::multiset::group_multiset_axioms;

    if v.list_1.len() > 0 {
        lemma_drop_last_to_multiset(v.list_1);
        if v.wf() {
            lemma_counter_pop(v.available_1, v.list_1.len());
        }
    }
    if v.list_2.len() > 0 {
        lemma_drop_last_to_multiset(v.list_2);
        if v.wf() {
            lemma_counter_pop(v.available_2, v.list_2.len());
        }
    }
    assert(v.borrow().0.entries().add(borrowed_entry(v.borrow().1)) =~= v.entries());
}

/// A release adds exactly the released entry to the bag, which grows by one.
/// The invariant is kept.
pub proof fn lemma_release_conserves_entries<T>(v: ConcurrentBagView<T>, entry: T)
    ensures
        v.release(entry).entries() == v.entries().insert(entry),
        v.release(entry).len() == v.len() + 1,
        v.wf() ==> v.release(entry).wf(),
{
    broadcast use vstd::multiset::group_multiset_axioms;
    broadcast use vstd::seq_lib::group_to_multiset_ensures;

    if v.wf() {
        lemma_counter_push(v.available_1, v.list_1.len());
        lemma_counter_push(v.available_2, v.list_2.len());
    }
    assert(v.release(entry).entries() =~= v.entries().insert(entry));
}

/// While neither stack holds 2^16 entries or more, so that no counter has
/// wrapped to 0, a borrow hands out an entry exactly when the bag is not empty.
pub proof fn lemma_borrow_succeeds_iff_not_empty<T>(v: ConcurrentBagView<T>)
    requires
        v.wf(),
        v.list_1.len() < 0x10000,
        v.list_2.len() < 0x10000,
    ensures
        v.borrow().1 is Some <==> v.len() > 0,
{
}

/// In an empty bag, a borrow right after a release hands back the released
/// entry and leaves the bag empty again.
pub proof fn lemma_release_then_borrow<T>(v: ConcurrentBagView<T>, entry: T)
    requires
        v.wf(),
        v.len() == 0,
    ensures
        v.release(entry).borrow().1 == Some(entry),
        v.release(entry).borrow().0.len() == 0,
        v.release(entry).borrow().0.wf(),
{
    lemma_release_conserves_entries(v, entry);
    lemma_borrow_conserves_entries(v.release(entry));
}

/// A borrow hands out the top of one of the two stacks (the entry most
/// recently released onto it) and takes exactly that entry off, leaving the
/// other stack alone; a borrow that hands out nothing leaves both stacks
/// alone.
pub proof fn lemma_borrow_takes_a_top<T>(v: ConcurrentBagView<T>)
    ensures
        v.borrow().1 matches Some(x) ==> {
            ||| {
                &&& v.list_1.len() > 0
                &&& x == v.list_1.last()
                &&& v.borrow().0.list_1 == v.list_1.drop_last()
                &&& v.borrow().0.list_2 == v.list_2
            }
            ||| {
                &&& v.list_2.len() > 0
                &&& x == v.list_2.last()
                &&& v.borrow().0.list_2 == v.list_2.drop_last()
                &&& v.borrow().0.list_1 == v.list_1
            }
        },
        v.borrow().1 is None ==> v.borrow().0.list_1 == v.list_1 && v.borrow().0.list_2
            == v.list_2,
{
}

/// A release pushes the entry onto one of the two stacks and leaves the
/// other alone.
pub proof fn lemma_release_pushes_one_stack<T>(v: ConcurrentBagView<T>, entry: T)
    ensures
        (v.release(entry).list_1 == v.list_1.push(entry) && v.release(entry).list_2 == v.list_2)
            || (v.release(entry).list_2 == v.list_2.push(entry) && v.release(entry).list_1
            == v.list_1),
{
}

/// Releases take turns: of two releases in a row, one lands on each stack.
pub proof fn lemma_releases_take_turns<T>(v: ConcurrentBagView<T>, x: T, y: T)
    ensures
        v.release(x).release(y).list_1.len() == v.list_1.len() + 1,
        v.release(x).release(y).list_2.len() == v.list_2.len() + 1,
{
}

/// Borrows take turns: while both stacks hold entries (fewer than 2^16
/// each), two borrows in a row take the top of each stack, one each.
pub proof fn lemma_borrows_take_turns<T>(v: ConcurrentBagView<T>)
    requires
        v.wf(),
        0 < v.list_1.len() < 0x10000,
        0 < v.list_2.len() < 0x10000,
    ensures
        v.borrow().0.borrow().0.list_1 == v.list_1.drop_last(),
        v.borrow().0.borrow().0.list_2 == v.list_2.drop_last(),
        (v.borrow().1 == Some(v.list_1.last()) && v.borrow().0.borrow().1 == Some(
            v.list_2.last(),
        )) || (v.borrow().1 == Some(v.list_2.last()) && v.borrow().0.borrow().1 == Some(
            v.list_1.last(),
        )),
{
    lemma_borrow_conserves_entries(v);
}

/// A call on a bag, as far as it changes the bag.
pub enum BagCall<T> {
    Release(T),
    Borrow,
}

/// The bag after the calls, made one after the other.
pub open spec fn run_calls<T>(v: ConcurrentBagView<T>, calls: Seq<BagCall<T>>) -> ConcurrentBagView<
    T,
>
    decreases calls.len(),
{
    if calls.len() == 0 {
        v
    } else {
        let before = run_calls(v, calls.drop_last());
        match calls.last() {
            BagCall::Release(entry) => before.release(entry),
            BagCall::Borrow => before.borrow().0,
        }
    }
}

/// How many of the calls are releases.
pub open spec fn releases<T>(calls: Seq<BagCall<T>>) -> nat
    decreases calls.len(),
{
    if calls.len() == 0 {
        0
    } else {
        releases(calls.drop_last()) + if calls.last() is Release {
            1nat
        } else {
            0nat
        }
    }
}

/// How many of the calls are borrows that handed out an entry.
pub open spec fn successful_borrows<T>(v: ConcurrentBagView<T>, calls: Seq<BagCall<T>>) -> nat
    decreases calls.len(),
{
    if calls.len() == 0 {
        0
    } else {
        successful_borrows(v, calls.drop_last()) + if calls.last() is Borrow && run_calls(
            v,
            calls.drop_last(),
        ).borrow().1 is Some {
            1nat
        } else {
            0nat
        }
    }
}

/// Over any history of releases and borrows, the bag holds what it held,
/// plus one entry per release, minus one per borrow that handed out an
/// entry; in particular a new bag holds `r - s` entries after `r` releases
/// and `s` borrows that handed out an entry. The invariant is kept
/// throughout. (`size` takes the bag by shared reference and so changes
/// nothing.)
pub proof fn lemma_history_size<T>(v: ConcurrentBagView<T>, calls: Seq<BagCall<T>>)
    ensures
        run_calls(v, calls).len() + successful_borrows(v, calls) == v.len() + releases(calls),
        v.wf() ==> run_calls(v, calls).wf(),
    decreases calls.len(),
{
    if calls.len() > 0 {
        lemma_history_size(v, calls.drop_last());
        let before = run_calls(v, calls.drop_last());
        match calls.last() {
            BagCall::Release(entry) => lemma_release_conserves_entries(before, entry),
            BagCall::Borrow => lemma_borrow_conserves_entries(before),
        }
    }
}

/// The two stacks, their counters and their sequence numbers.
struct Stacks<T> {
    protected_list_1: Vec<T>,
    protected_list_2: Vec<T>,
    available_entries_1: u16,
    available_entries_2: u16,
    sequence_gen: u16,
    sequence_gen_release: u16,
}

impl<T> View for Stacks<T> {
    type V = ConcurrentBagView<T>;

    closed spec fn view(&self) -> ConcurrentBagView<T> {
        ConcurrentBagView {
            list_1: self.protected_list_1@,
            list_2: self.protected_list_2@,
            available_1: self.available_entries_1,
            available_2: self.available_entries_2,
            sequence_gen: self.sequence_gen,
            sequence_gen_release: self.sequence_gen_release,
        }
    }
}

/// Lowering the counter of a stack when its top is popped keeps it equal to
/// the stack's size modulo 2^16.
proof fn lemma_counter_pop(a: u16, len: nat)
    requires
        len > 0,
        a == len % 0x10000,
    ensures
        a.wrapping_sub(1) == (len - 1) as nat % 0x10000,
{
}

/// Raising the counter of a stack when an entry is pushed keeps it equal to
/// the stack's size modulo 2^16.
proof fn lemma_counter_push(a: u16, len: nat)
    requires
        a == len % 0x10000,
    ensures
        a.wrapping_add(1) == (len + 1) % 0x10000,
{
}

impl<T> Stacks<T> {
    /// An empty bag whose counters and sequence numbers are 0.
    fn new() -> (bag: Stacks<T>)
        ensures
            bag@.wf(),
            bag@.list_1 == Seq::<T>::empty(),
            bag@.list_2 == Seq::<T>::empty(),
            bag@.available_1 == 0,
            bag@.available_2 == 0,
            bag@.sequence_gen == 0,
            bag@.sequence_gen_release == 0,
    {
        Stacks {
            protected_list_1: Vec::new(),
            protected_list_2: Vec::new(),
            available_entries_1: 0,
            available_entries_2: 0,
            sequence_gen: 0,
            sequence_gen_release: 0,
        }
    }

    /// Pops the first stack.
    fn pop_list_1(&mut self) -> (entry: Option<T>)
        requires
            old(self)@.wf(),
        ensures
            final(self)@.wf(),
            (final(self)@, entry) == old(self)@.pop_1(),
    {
        let entry = self.protected_list_1.pop();
        if entry.is_some() {
            proof {
                lemma_counter_pop(self.available_entries_1, old(self)@.list_1.len());
            }
            self.available_entries_1 = self.available_entries_1.wrapping_sub(1);
        }
        entry
    }

    /// Pops the second stack.
    fn pop_list_2(&mut self) -> (entry: Option<T>)
        requires
            old(self)@.wf(),
        ensures
            final(self)@.wf(),
            (final(self)@, entry) == old(self)@.pop_2(),
    {
        let entry = self.protected_list_2.pop();
        if entry.is_some() {
            proof {
                lemma_counter_pop(self.available_entries_2, old(self)@.list_2.len());
            }
            self.available_entries_2 = self.available_entries_2.wrapping_sub(1);
        }
        entry
    }

    /// Takes an entry from the stack whose turn it is, or from the other one
    /// when that stack is empty; gives up at once when both counters are 0.
    fn borrow_entry(&mut self) -> (entry: Option<T>)
        requires
            old(self)@.wf(),
        ensures
            final(self)@.wf(),
            (final(self)@, entry) == old(self)@.borrow(),
    {
        if self.available_entries_1 == 0 && self.available_entries_2 == 0 {
            return None;
        }
        let in_ms = self.sequence_gen;
        self.sequence_gen = self.sequence_gen.wrapping_add(1);
        let randomvalue = (in_ms % 2) + 1;
        if randomvalue == 1 {
            let opt_from_list_1 = self.pop_list_1();
            if opt_from_list_1.is_some() {
                opt_from_list_1
            } else {
                self.pop_list_2()
            }
        } else {
            let opt_from_list_2 = self.pop_list_2();
            if opt_from_list_2.is_some() {
                opt_from_list_2
            } else {
                self.pop_list_1()
            }
        }
    }

    /// Pushes `entry` onto the stack whose turn it is.
    fn release_entry(&mut self, entry: T)
        requires
            old(self)@.wf(),
        ensures
            final(self)@.wf(),
            final(self)@ == old(self)@.release(entry),
    {
        let in_ms = self.sequence_gen_release;
        self.sequence_gen_release = self.sequence_gen_release.wrapping_add(1);
        let randomvalue = (in_ms % 2) + 1;
        if randomvalue == 1 {
            proof {
                lemma_counter_push(self.available_entries_1, old(self)@.list_1.len());
            }
            self.protected_list_1.push(entry);
            self.available_entries_1 = self.available_entries_1.wrapping_add(1);
        } else {
            proof {
                lemma_counter_push(self.available_entries_2, old(self)@.list_2.len());
            }
            self.protected_list_2.push(entry);
            self.available_entries_2 = self.available_entries_2.wrapping_add(1);
        }
    }

    /// The number of entries in the bag.
    fn size(&self) -> (n: usize)
        requires
            self@.len() <= usize::MAX,
        ensures
            n == self@.len(),
    {
        let size = self.protected_list_1.len();
        let size = size + self.protected_list_2.len();
        size
    }
}

/// A bag of entries kept in two stacks.
pub struct ConcurrentBag<T> {
    stacks: Stacks<T>,
}

impl<T> View for ConcurrentBag<T> {
    type V = ConcurrentBagView<T>;

    closed spec fn view(&self) -> ConcurrentBagView<T> {
        self.stacks@
    }
}

impl<T> ConcurrentBag<T> {
    /// Each counter holds the size of its stack, modulo 2^16.
    #[verifier::type_invariant]
    spec fn counters_match(self) -> bool {
        self.stacks@.wf()
    }

    /// An empty bag whose counters and sequence numbers are 0.
    pub fn new() -> (bag: ConcurrentBag<T>)
        ensures
            bag@.wf(),
            bag@.list_1 == Seq::<T>::empty(),
            bag@.list_2 == Seq::<T>::empty(),
            bag@.available_1 == 0,
            bag@.available_2 == 0,
            bag@.sequence_gen == 0,
            bag@.sequence_gen_release == 0,
    {
        ConcurrentBag { stacks: Stacks::new() }
    }

    /// Takes the stacks out, leaving an empty bag in their place.
    fn take_stacks(&mut self) -> (stacks: Stacks<T>)
        ensures
            stacks@ == old(self)@,
            stacks@.wf(),
    {
        proof {
            use_type_invariant(&*self);
        }
        let mut stacks = Stacks::new();
        std::mem::swap(&mut self.stacks, &mut stacks);
        stacks
    }

    /// Takes an entry from the stack whose turn it is, or from the other one
    /// when that stack is empty; gives up at once when both counters are 0.
    pub fn borrow_entry(&mut self) -> (entry: Option<T>)
        ensures
            final(self)@.wf(),
            (final(self)@, entry) == old(self)@.borrow(),
    {
        let mut stacks = self.take_stacks();
        let entry = stacks.borrow_entry();
        self.stacks = stacks;
        entry
    }

    /// Pushes `entry` onto the stack whose turn it is.
    pub fn release_entry(&mut self, entry: T)
        ensures
            final(self)@.wf(),
            final(self)@ == old(self)@.release(entry),
    {
        let mut stacks = self.take_stacks();
        stacks.release_entry(entry);
        self.stacks = stacks;
    }

    /// The number of entries in the bag.
    pub fn size(&self) -> (n: usize)
        requires
            self@.len() <= usize::MAX,
        ensures
            n == self@.len(),
    {
        self.stacks.size()
    }
}

} // verus!
