//! The registry of persistent named script contexts, and the decisions a run
//! in a named context takes against it.

use vstd::prelude::*;
use crate::text::{
    code_point_lt, join_seq, join_texts, lemma_code_point_lt_irreflexive,
    lemma_code_point_lt_total, lemma_code_point_lt_transitive, text_eq, text_lt, views_of,
};

verus! {

/// `list` names every key of `keys` once, in strictly increasing code point order.
pub open spec fn is_sorted_listing(list: Seq<Seq<char>>, keys: Set<Seq<char>>) -> bool {
    &&& forall|i: int, j: int| 0 <= i < j < list.len() ==> code_point_lt(list[i], list[j])
    &&& forall|k: Seq<char>| keys.contains(k) <==> list.contains(k)
}

/// The keys of `keys` in increasing code point order.
pub open spec fn sorted_names(keys: Set<Seq<char>>) -> Seq<Seq<char>> {
    choose|list: Seq<Seq<char>>| is_sorted_listing(list, keys)
}

/// Two strictly sorted listings of the same keys are the same listing.
pub proof fn lemma_sorted_listing_unique(a: Seq<Seq<char>>, b: Seq<Seq<char>>, keys: Set<Seq<char>>)
    requires
        is_sorted_listing(a, keys),
        is_sorted_listing(b, keys),
    ensures
        a == b,
    decreases a.len(),
{
    if a.len() == 0 {
        if b.len() > 0 {
            assert(b.contains(b[0]));
            assert(keys.contains(b[0]));
        }
        assert(a =~= b);
    } else {
        assert(a.contains(a[0]));
        assert(keys.contains(a[0]));
        assert(b.len() > 0);
        assert(b.contains(b[0]));
        let j = choose|j: int| 0 <= j < b.len() && b[j] == a[0];
        let i = choose|i: int| 0 <= i < a.len() && a[i] == b[0];
        if j > 0 {
            assert(code_point_lt(b[0], b[j]));
            if i > 0 {
                assert(code_point_lt(a[0], a[i]));
                lemma_code_point_lt_transitive(a[0], b[0], a[0]);
            }
            lemma_code_point_lt_irreflexive(a[0]);
            assert(false);
        }
        let rest = keys.remove(a[0]);
        let a1 = a.drop_first();
        let b1 = b.drop_first();
        assert forall|k: Seq<char>| rest.contains(k) <==> a1.contains(k) by {
            if a1.contains(k) {
                let t = choose|t: int| 0 <= t < a1.len() && a1[t] == k;
                assert(a[t + 1] == k);
                assert(a.contains(k));
                assert(code_point_lt(a[0], a[t + 1]));
                lemma_code_point_lt_irreflexive(a[0]);
            }
            if rest.contains(k) {
                assert(a.contains(k));
                let t = choose|t: int| 0 <= t < a.len() && a[t] == k;
                assert(t != 0);
                assert(a1[t - 1] == k);
            }
        }
        assert forall|k: Seq<char>| rest.contains(k) <==> b1.contains(k) by {
            if b1.contains(k) {
                let t = choose|t: int| 0 <= t < b1.len() && b1[t] == k;
                assert(b[t + 1] == k);
                assert(b.contains(k));
                assert(code_point_lt(b[0], b[t + 1]));
                lemma_code_point_lt_irreflexive(b[0]);
            }
            if rest.contains(k) {
                assert(b.contains(k));
                let t = choose|t: int| 0 <= t < b.len() && b[t] == k;
                assert(t != 0);
                assert(b1[t - 1] == k);
            }
        }
        assert forall|x: int, y: int| 0 <= x < y < a1.len() implies code_point_lt(a1[x], a1[y]) by {
            assert(a1[x] == a[x + 1] && a1[y] == a[y + 1]);
        }
        assert forall|x: int, y: int| 0 <= x < y < b1.len() implies code_point_lt(b1[x], b1[y]) by {
            assert(b1[x] == b[x + 1] && b1[y] == b[y + 1]);
        }
        lemma_sorted_listing_unique(a1, b1, rest);
        assert(a =~= seq![a[0]] + a1);
        assert(b =~= seq![b[0]] + b1);
    }
}

/// One named context: the handle that feeds its engine thread, and whether
/// a program is running on it now.
struct ContextSlot<H> {
    name: String,
    handle: H,
    busy: bool,
}

/// The slots are in strictly increasing code point order of their names.
spec fn slots_sorted<H>(slots: Seq<ContextSlot<H>>) -> bool {
    forall|i: int, j: int|
        0 <= i < j < slots.len() ==> code_point_lt(#[trigger] slots[i].name@, #[trigger] slots[j].name@)
}

/// Some slot carries the name `k`.
spec fn slots_have<H>(slots: Seq<ContextSlot<H>>, k: Seq<char>) -> bool {
    exists|i: int| 0 <= i < slots.len() && #[trigger] slots[i].name@ == k
}

/// The index of the slot named `k`.
spec fn slot_index<H>(slots: Seq<ContextSlot<H>>, k: Seq<char>) -> int {
    choose|i: int| 0 <= i < slots.len() && #[trigger] slots[i].name@ == k
}

/// Each name mapped to its handle and its busy flag.
spec fn slots_map<H>(slots: Seq<ContextSlot<H>>) -> Map<Seq<char>, (H, bool)> {
    Map::new(
        |k: Seq<char>| slots_have(slots, k),
        |k: Seq<char>| (slots[slot_index(slots, k)].handle, slots[slot_index(slots, k)].busy),
    )
}

proof fn lemma_slot_entry<H>(slots: Seq<ContextSlot<H>>, i: int)
    requires
        slots_sorted(slots),
        0 <= i < slots.len(),
    ensures
        slots_map(slots).contains_key(slots[i].name@),
        slots_map(slots)[slots[i].name@] == (slots[i].handle, slots[i].busy),
{
    let k = slots[i].name@;
    assert(slots_have(slots, k));
    let j = slot_index(slots, k);
    if j != i {
        lemma_code_point_lt_irreflexive(k);
        if j < i {
            assert(code_point_lt(slots[j].name@, slots[i].name@));
        } else {
            assert(code_point_lt(slots[i].name@, slots[j].name@));
        }
    }
}

/// Replacing one slot by one of the same name changes only that entry.
proof fn lemma_slots_update<H>(old_slots: Seq<ContextSlot<H>>, i: int, slot: ContextSlot<H>)
    requires
        slots_sorted(old_slots),
        0 <= i < old_slots.len(),
        slot.name@ == old_slots[i].name@,
    ensures
        slots_sorted(old_slots.update(i, slot)),
        slots_map(old_slots.update(i, slot)) == slots_map(old_slots).insert(
            slot.name@,
            (slot.handle, slot.busy),
        ),
{
    let new_slots = old_slots.update(i, slot);
    assert forall|a: int, b: int| 0 <= a < b < new_slots.len() implies code_point_lt(
        #[trigger] new_slots[a].name@,
        #[trigger] new_slots[b].name@,
    ) by {
        assert(new_slots[a].name@ == old_slots[a].name@);
        assert(new_slots[b].name@ == old_slots[b].name@);
    }
    let m_old = slots_map(old_slots);
    let m_new = slots_map(new_slots);
    let m = m_old.insert(slot.name@, (slot.handle, slot.busy));
    assert forall|k: Seq<char>| m_new.contains_key(k) <==> m.contains_key(k) by {
        if slots_have(new_slots, k) {
            let j = slot_index(new_slots, k);
            assert(old_slots[j].name@ == k);
        }
        if slots_have(old_slots, k) {
            let j = slot_index(old_slots, k);
            assert(new_slots[j].name@ == k);
        }
    }
    assert forall|k: Seq<char>| #[trigger] m_new.contains_key(k) implies m_new[k] == m[k] by {
        let j = slot_index(new_slots, k);
        lemma_slot_entry(new_slots, j);
        if j != i {
            assert(new_slots[j] == old_slots[j]);
            lemma_slot_entry(old_slots, j);
            lemma_code_point_lt_irreflexive(k);
            if j < i {
                assert(code_point_lt(old_slots[j].name@, old_slots[i].name@));
            } else {
                assert(code_point_lt(old_slots[i].name@, old_slots[j].name@));
            }
        } else {
            assert(new_slots[j] == slot);
        }
    }
    assert(m_new =~= m);
}

/// Taking one slot out removes exactly its name.
proof fn lemma_slots_remove<H>(old_slots: Seq<ContextSlot<H>>, i: int)
    requires
        slots_sorted(old_slots),
        0 <= i < old_slots.len(),
    ensures
        slots_sorted(old_slots.remove(i)),
        slots_map(old_slots.remove(i)) == slots_map(old_slots).remove(old_slots[i].name@),
{
    let new_slots = old_slots.remove(i);
    let name = old_slots[i].name@;
    assert forall|a: int, b: int| 0 <= a < b < new_slots.len() implies code_point_lt(
        #[trigger] new_slots[a].name@,
        #[trigger] new_slots[b].name@,
    ) by {
        let oa = if a < i { a } else { a + 1 };
        let ob = if b < i { b } else { b + 1 };
        assert(new_slots[a] == old_slots[oa]);
        assert(new_slots[b] == old_slots[ob]);
    }
    let m_old = slots_map(old_slots);
    let m_new = slots_map(new_slots);
    let m = m_old.remove(name);
    assert forall|k: Seq<char>| m_new.contains_key(k) <==> m.contains_key(k) by {
        if slots_have(new_slots, k) {
            let j = slot_index(new_slots, k);
            let oj = if j < i { j } else { j + 1 };
            assert(new_slots[j] == old_slots[oj]);
            assert(slots_have(old_slots, k));
            lemma_code_point_lt_irreflexive(name);
            if oj < i {
                assert(code_point_lt(old_slots[oj].name@, old_slots[i].name@));
            } else {
                assert(code_point_lt(old_slots[i].name@, old_slots[oj].name@));
            }
        }
        if m.contains_key(k) {
            let j = slot_index(old_slots, k);
            assert(j != i);
            let nj = if j < i { j } else { j - 1 };
            assert(new_slots[nj] == old_slots[j]);
            assert(slots_have(new_slots, k));
        }
    }
    assert forall|k: Seq<char>| #[trigger] m_new.contains_key(k) implies m_new[k] == m[k] by {
        let j = slot_index(new_slots, k);
        let oj = if j < i { j } else { j + 1 };
        assert(new_slots[j] == old_slots[oj]);
        lemma_slot_entry(new_slots, j);
        lemma_slot_entry(old_slots, oj);
    }
    assert(m_new =~= m);
}

/// Putting a slot in at its place in the order adds exactly its name.
proof fn lemma_slots_insert<H>(old_slots: Seq<ContextSlot<H>>, p: int, slot: ContextSlot<H>)
    requires
        slots_sorted(old_slots),
        0 <= p <= old_slots.len(),
        forall|i: int| 0 <= i < p ==> code_point_lt(#[trigger] old_slots[i].name@, slot.name@),
        forall|i: int| p <= i < old_slots.len() ==> code_point_lt(slot.name@, #[trigger] old_slots[i].name@),
    ensures
        slots_sorted(old_slots.insert(p, slot)),
        slots_map(old_slots.insert(p, slot)) == slots_map(old_slots).insert(
            slot.name@,
            (slot.handle, slot.busy),
        ),
{
    let new_slots = old_slots.insert(p, slot);
    let name = slot.name@;
    assert forall|a: int, b: int| 0 <= a < b < new_slots.len() implies code_point_lt(
        #[trigger] new_slots[a].name@,
        #[trigger] new_slots[b].name@,
    ) by {
        if a == p {
            assert(new_slots[b] == old_slots[b - 1]);
        } else if b == p {
            assert(new_slots[a] == old_slots[a]);
        } else {
            let oa = if a < p { a } else { a - 1 };
            let ob = if b < p { b } else { b - 1 };
            assert(new_slots[a] == old_slots[oa]);
            assert(new_slots[b] == old_slots[ob]);
        }
    }
    lemma_code_point_lt_irreflexive(name);
    let m_old = slots_map(old_slots);
    let m_new = slots_map(new_slots);
    let m = m_old.insert(name, (slot.handle, slot.busy));
    assert forall|k: Seq<char>| m_new.contains_key(k) <==> m.contains_key(k) by {
        if slots_have(new_slots, k) {
            let j = slot_index(new_slots, k);
            if j != p {
                let oj = if j < p { j } else { j - 1 };
                assert(new_slots[j] == old_slots[oj]);
                assert(slots_have(old_slots, k));
            }
        }
        if m_old.contains_key(k) {
            let j = slot_index(old_slots, k);
            let nj = if j < p { j } else { j + 1 };
            assert(new_slots[nj] == old_slots[j]);
            assert(slots_have(new_slots, k));
        }
        if k == name {
            assert(new_slots[p] == slot);
            assert(slots_have(new_slots, k));
        }
    }
    assert forall|k: Seq<char>| #[trigger] m_new.contains_key(k) implies m_new[k] == m[k] by {
        let j = slot_index(new_slots, k);
        lemma_slot_entry(new_slots, j);
        if j != p {
            let oj = if j < p { j } else { j - 1 };
            assert(new_slots[j] == old_slots[oj]);
            lemma_slot_entry(old_slots, oj);
            if oj < p {
                assert(code_point_lt(old_slots[oj].name@, name));
            } else {
                assert(code_point_lt(name, old_slots[oj].name@));
            }
        } else {
            assert(new_slots[p] == slot);
        }
    }
    assert(m_new =~= m);
}

/// The session's named script contexts. Each name is held once; a context is
/// kept with the handle that feeds its engine thread and a flag that is set
/// while a program runs on it.
pub struct JsContexts<H> {
    slots: Vec<ContextSlot<H>>,
}

impl<H> View for JsContexts<H> {
    /// Each context name mapped to its handle and whether it is busy.
    type V = Map<Seq<char>, (H, bool)>;

    closed spec fn view(&self) -> Map<Seq<char>, (H, bool)> {
        slots_map(self.slots@)
    }
}

impl<H> JsContexts<H> {
    #[verifier::type_invariant]
    spec fn well_formed(self) -> bool {
        slots_sorted(self.slots@)
    }

    /// A registry with no contexts.
    pub fn new() -> (r: Self)
        ensures
            r@ == Map::<Seq<char>, (H, bool)>::empty(),
    {
        let r = JsContexts { slots: Vec::new() };
        assert(r@ =~= Map::<Seq<char>, (H, bool)>::empty());
        r
    }

    /// The index of the context named `name`, if there is one.
    fn find(&self, name: &str) -> (r: Option<usize>)
        ensures
            r matches Some(i) ==> i < self.slots@.len() && self.slots@[i as int].name@ == name@,
            r is None ==> !self@.contains_key(name@),
    {
        let n = self.slots.len();
        let mut i: usize = 0;
        while i < n
            invariant
                n == self.slots@.len(),
                i <= n,
                forall|k: int| 0 <= k < i ==> (#[trigger] self.slots@[k]).name@ != name@,
            decreases n - i,
        {
            if text_eq(self.slots[i].name.as_str(), name) {
                return Some(i);
            }
            i = i + 1;
        }
        None
    }

    /// Where a context named `name`, which is not held, goes in the order.
    fn place_for(&self, name: &str) -> (p: usize)
        requires
            slots_sorted(self.slots@),
            !self@.contains_key(name@),
        ensures
            p <= self.slots@.len(),
            forall|i: int| 0 <= i < p ==> code_point_lt(#[trigger] self.slots@[i].name@, name@),
            forall|i: int|
                p <= i < self.slots@.len() ==> code_point_lt(name@, #[trigger] self.slots@[i].name@),
    {
        let n = self.slots.len();
        let mut p: usize = 0;
        let mut found = false;
        while !found && p < n
            invariant
                n == self.slots@.len(),
                p <= n,
                forall|i: int| 0 <= i < p ==> code_point_lt(#[trigger] self.slots@[i].name@, name@),
                found ==> p < n && !code_point_lt(self.slots@[p as int].name@, name@),
            decreases n - p + (if found { 0int } else { 1int }),
        {
            if text_lt(self.slots[p].name.as_str(), name) {
                p = p + 1;
            } else {
                found = true;
            }
        }
        if found {
            let ghost at = self.slots@[p as int].name@;
            proof {
                assert(slots_have(self.slots@, at));
                lemma_code_point_lt_total(at, name@);
                assert forall|i: int| p <= i < self.slots@.len() implies code_point_lt(
                    name@,
                    #[trigger] self.slots@[i].name@,
                ) by {
                    if i > p {
                        lemma_code_point_lt_transitive(name@, at, self.slots@[i].name@);
                    }
                }
            }
        }
        p
    }

    /// Whether a context named `name` is held.
    pub fn contains(&self, name: &str) -> (r: bool)
        ensures
            r == self@.contains_key(name@),
    {
        proof {
            use_type_invariant(self);
        }
        match self.find(name) {
            Some(i) => {
                proof {
                    lemma_slot_entry(self.slots@, i as int);
                }
                true
            },
            None => false,
        }
    }

    /// Whether the context named `name` is running a program; `None` when no
    /// such context is held.
    pub fn is_busy(&self, name: &str) -> (r: Option<bool>)
        ensures
            r == (if self@.contains_key(name@) {
                Some(self@[name@].1)
            } else {
                None::<bool>
            }),
    {
        proof {
            use_type_invariant(self);
        }
        match self.find(name) {
            Some(i) => {
                proof {
                    lemma_slot_entry(self.slots@, i as int);
                }
                Some(self.slots[i].busy)
            },
            None => None,
        }
    }

    /// The handle of the context named `name`, if it is held.
    pub fn handle(&self, name: &str) -> (r: Option<&H>)
        ensures
            r matches Some(h) ==> self@.contains_key(name@) && *h == self@[name@].0,
            r is None ==> !self@.contains_key(name@),
    {
        proof {
            use_type_invariant(self);
        }
        match self.find(name) {
            Some(i) => {
                proof {
                    lemma_slot_entry(self.slots@, i as int);
                }
                Some(&self.slots[i].handle)
            },
            None => None,
        }
    }

    /// The names of all contexts, in increasing code point order.
    pub fn names(&self) -> (r: Vec<String>)
        ensures
            is_sorted_listing(views_of(r@), self@.dom()),
            views_of(r@) == sorted_names(self@.dom()),
    {
        proof {
            use_type_invariant(self);
        }
        let n = self.slots.len();
        let mut out: Vec<String> = Vec::new();
        let mut i: usize = 0;
        while i < n
            invariant
                n == self.slots@.len(),
                i <= n,
                out@.len() == i,
                forall|k: int| 0 <= k < i ==> (#[trigger] out@[k])@ == self.slots@[k].name@,
            decreases n - i,
        {
            out.push(self.slots[i].name.clone());
            i = i + 1;
        }
        let ghost list = views_of(out@);
        proof {
            let keys = self@.dom();
            assert forall|a: int, b: int| 0 <= a < b < list.len() implies code_point_lt(
                list[a],
                list[b],
            ) by {
                assert(list[a] == self.slots@[a].name@);
                assert(list[b] == self.slots@[b].name@);
            }
            assert forall|k: Seq<char>| keys.contains(k) <==> list.contains(k) by {
                if keys.contains(k) {
                    let j = slot_index(self.slots@, k);
                    assert(list[j] == k);
                }
                if list.contains(k) {
                    let j = choose|j: int| 0 <= j < list.len() && list[j] == k;
                    assert(self.slots@[j].name@ == k);
                    assert(slots_have(self.slots@, k));
                }
            }
            lemma_sorted_listing_unique(list, sorted_names(keys), keys);
        }
        out
    }
}

impl<H> JsContexts<H> {
    /// Releases the context named `name`; whether it was held. The engine
    /// thread ends when its dropped handle closes the job channel.
    pub fn drop_context(&mut self, name: &str) -> (r: bool)
        ensures
            r == old(self)@.contains_key(name@),
            final(self)@ == old(self)@.remove(name@),
    {
        proof {
            use_type_invariant(&*self);
        }
        match self.find(name) {
            Some(i) => {
                let mut slots: Vec<ContextSlot<H>> = Vec::new();
                std::mem::swap(&mut slots, &mut self.slots);
                proof {
                    lemma_slot_entry(slots@, i as int);
                    lemma_slots_remove(slots@, i as int);
                }
                let _released = slots.remove(i);
                self.slots = slots;
                true
            },
            None => {
                assert(old(self)@.remove(name@) =~= old(self)@);
                false
            },
        }
    }

    /// Holds `handle` as the idle context named `name`, in place of any
    /// context of that name held before.
    pub fn insert(&mut self, name: &str, handle: H)
        ensures
            final(self)@ == old(self)@.insert(name@, (handle, false)),
    {
        proof {
            use_type_invariant(&*self);
        }
        let slot = ContextSlot { name: String::from_str(name), handle, busy: false };
        match self.find(name) {
            Some(i) => {
                let mut slots: Vec<ContextSlot<H>> = Vec::new();
                std::mem::swap(&mut slots, &mut self.slots);
                proof {
                    lemma_slots_update(slots@, i as int, slot);
                }
                slots.set(i, slot);
                self.slots = slots;
            },
            None => {
                let p = self.place_for(name);
                let mut slots: Vec<ContextSlot<H>> = Vec::new();
                std::mem::swap(&mut slots, &mut self.slots);
                proof {
                    lemma_slots_insert(slots@, p as int, slot);
                }
                slots.insert(p, slot);
                self.slots = slots;
            },
        }
    }

    /// Marks the context named `name` as running a program or as idle; a
    /// name that is not held changes nothing.
    pub fn set_busy(&mut self, name: &str, busy: bool)
        ensures
            final(self)@ == with_busy(old(self)@, name@, busy),
    {
        proof {
            use_type_invariant(&*self);
        }
        match self.find(name) {
            Some(i) => {
                let mut slots: Vec<ContextSlot<H>> = Vec::new();
                std::mem::swap(&mut slots, &mut self.slots);
                let ghost before = slots@;
                proof {
                    lemma_slot_entry(before, i as int);
                }
                let mut slot = slots.remove(i);
                slot.busy = busy;
                slots.insert(i, slot);
                proof {
                    assert(slots@ =~= before.update(i as int, slot));
                    lemma_slots_update(before, i as int, slot);
                }
                self.slots = slots;
            },
            None => {},
        }
    }
}

/// The map with the busy flag of `name` set to `busy`, when `name` is held.
pub open spec fn with_busy<H>(m: Map<Seq<char>, (H, bool)>, name: Seq<char>, busy: bool) -> Map<
    Seq<char>,
    (H, bool),
> {
    if m.contains_key(name) {
        m.insert(name, (m[name].0, busy))
    } else {
        m
    }
}

/// The registry once the program run in `name` has ended: the context is
/// idle again when it gave a result, and released when it did not.
pub open spec fn after_run<H>(m: Map<Seq<char>, (H, bool)>, name: Seq<char>, had_result: bool) -> Map<
    Seq<char>,
    (H, bool),
> {
    if had_result {
        with_busy(m, name, false)
    } else {
        m.remove(name)
    }
}

/// What `run in context` answers before it runs anything.
pub enum Admission {
    /// The context is held and idle: run the program in it.
    Run,
    /// No such context is held and one may be created: start one.
    Spawn,
    /// The run is refused with this message.
    Refuse(String),
}

/// The mathematical form of an [`Admission`].
pub enum AdmissionView {
    Run,
    Spawn,
    Refuse(Seq<char>),
}

impl View for Admission {
    type V = AdmissionView;

    open spec fn view(&self) -> AdmissionView {
        match self {
            Admission::Run => AdmissionView::Run,
            Admission::Spawn => AdmissionView::Spawn,
            Admission::Refuse(msg) => AdmissionView::Refuse(msg@),
        }
    }
}

/// The text that refuses a run in a context that is not held.
pub open spec fn missing_context_text(name: Seq<char>, known: Seq<Seq<char>>) -> Seq<char> {
    if known.len() == 0 {
        "no script context named `"@ + name + "` (this session has none; create one with `script --keep "@
            + name + "`)"@
    } else {
        "no script context named `"@ + name + "` (this session has: "@ + join_seq(known, ", "@)
            + "); create one with `script --keep "@ + name + "`"@
    }
}

/// The text that refuses a run in a context that is already running one.
pub open spec fn busy_text(name: Seq<char>) -> Seq<char> {
    "script context `"@ + name
        + "` is already running a program; a context runs one at a time, so a script cannot re-enter its own context (use a different context name)"@
}

/// The text for a context whose engine thread is gone.
pub open spec fn gone_text(name: Seq<char>) -> Seq<char> {
    "script context `"@ + name
        + "` is gone (its engine thread ended); it has been released — rerun to start a fresh one"@
}

/// The text for a context whose run ended without a result.
pub open spec fn ended_text(name: Seq<char>) -> Seq<char> {
    "script context `"@ + name + "` ended without a result; it has been released"@
}

/// The text for a context thread that could not be started.
pub open spec fn thread_start_text(detail: Seq<char>) -> Seq<char> {
    "failed to start script context thread: "@ + detail
}

/// What a run in the context `name` of the registry `m` is answered first.
pub open spec fn admission_of<H>(m: Map<Seq<char>, (H, bool)>, name: Seq<char>, create: bool) -> AdmissionView {
    if m.contains_key(name) {
        if m[name].1 {
            AdmissionView::Refuse(busy_text(name))
        } else {
            AdmissionView::Run
        }
    } else if create {
        AdmissionView::Spawn
    } else {
        AdmissionView::Refuse(missing_context_text(name, sorted_names(m.dom())))
    }
}

/// The message refusing a run in the unknown context `name`, listing the
/// contexts the session has.
pub fn missing_context_message(name: &str, known: &Vec<String>) -> (r: String)
    ensures
        r@ == missing_context_text(name@, views_of(known@)),
{
    let mut out = String::from_str("no script context named `");
    out.append(name);
    if known.len() == 0 {
        out.append("` (this session has none; create one with `script --keep ");
        out.append(name);
        out.append("`)");
    } else {
        let listed = join_texts(known, ", ");
        out.append("` (this session has: ");
        out.append(listed.as_str());
        out.append("); create one with `script --keep ");
        out.append(name);
        out.append("`");
    }
    out
}

/// The message refusing a run in a context that is running one already.
pub fn busy_message(name: &str) -> (r: String)
    ensures
        r@ == busy_text(name@),
{
    let mut out = String::from_str("script context `");
    out.append(name);
    out.append(
        "` is already running a program; a context runs one at a time, so a script cannot re-enter its own context (use a different context name)",
    );
    out
}

/// The message for a context whose engine thread is gone.
pub fn gone_message(name: &str) -> (r: String)
    ensures
        r@ == gone_text(name@),
{
    let mut out = String::from_str("script context `");
    out.append(name);
    out.append("` is gone (its engine thread ended); it has been released — rerun to start a fresh one");
    out
}

/// The message for a context whose run ended without a result.
pub fn ended_message(name: &str) -> (r: String)
    ensures
        r@ == ended_text(name@),
{
    let mut out = String::from_str("script context `");
    out.append(name);
    out.append("` ended without a result; it has been released");
    out
}

/// The message for a context thread that could not be started.
pub fn thread_start_error(detail: &str) -> (r: String)
    ensures
        r@ == thread_start_text(detail@),
{
    let mut out = String::from_str("failed to start script context thread: ");
    out.append(detail);
    out
}

impl<H> JsContexts<H> {
    /// Decides how a run in the context `name` begins: an unknown context is
    /// refused unless `create` is set, in which case one is to be started; a
    /// context that is running a program refuses a second one.
    pub fn admission(&self, name: &str, create: bool) -> (r: Admission)
        ensures
            r@ == admission_of(self@, name@, create),
    {
        match self.is_busy(name) {
            Some(true) => Admission::Refuse(busy_message(name)),
            Some(false) => Admission::Run,
            None => {
                if create {
                    Admission::Spawn
                } else {
                    let known = self.names();
                    Admission::Refuse(missing_context_message(name, &known))
                }
            },
        }
    }

    /// Releases a context whose engine thread no longer takes jobs, and gives
    /// the message that says so.
    pub fn release_gone(&mut self, name: &str) -> (r: String)
        ensures
            final(self)@ == old(self)@.remove(name@),
            r@ == gone_text(name@),
    {
        let _held = self.drop_context(name);
        gone_message(name)
    }

    /// Ends a run in the context `name` with what its engine thread reported:
    /// `None` when the thread ended without a result. The context is idle
    /// afterwards; one that gave no result is released.
    pub fn finish_run<V>(&mut self, name: &str, outcome: Option<Result<V, String>>) -> (r: Result<
        V,
        String,
    >)
        ensures
            final(self)@ == after_run(old(self)@, name@, outcome is Some),
            outcome matches Some(res) ==> r == res,
            outcome is None ==> (r matches Err(e) && e@ == ended_text(name@)),
    {
        self.set_busy(name, false);
        match outcome {
            Some(res) => res,
            None => {
                let _held = self.drop_context(name);
                proof {
                    assert(with_busy(old(self)@, name@, false).remove(name@) =~= old(self)@.remove(
                        name@,
                    ));
                }
                Err(ended_message(name))
            },
        }
    }
}

impl<H> Default for JsContexts<H> {
    fn default() -> (r: Self)
        ensures
            r@ == Map::<Seq<char>, (H, bool)>::empty(),
    {
        Self::new()
    }
}

} // verus!

verus! {

/// A context runs one program at a time: once a run is under way in a held
/// context, another run in it is refused with the busy message, whether or
/// not it may create.
pub proof fn lemma_running_context_refuses_another_run<H>(
    m: Map<Seq<char>, (H, bool)>,
    name: Seq<char>,
    create: bool,
)
    requires
        m.contains_key(name),
    ensures
        admission_of(with_busy(m, name, true), name, create) == AdmissionView::Refuse(busy_text(name)),
{
}

/// A context is busy only while its job is in flight: once the run gave a
/// result the context is held, with the same handle, idle, and takes the
/// next run.
pub proof fn lemma_finished_context_is_idle<H>(
    m: Map<Seq<char>, (H, bool)>,
    name: Seq<char>,
    create: bool,
)
    requires
        m.contains_key(name),
    ensures
        after_run(with_busy(m, name, true), name, true) == m.insert(name, (m[name].0, false)),
        admission_of(after_run(with_busy(m, name, true), name, true), name, create)
            == AdmissionView::Run,
{
    assert(after_run(with_busy(m, name, true), name, true) =~= m.insert(name, (m[name].0, false)));
}

/// A context that is released (its thread is gone, or its run ended without
/// a result) is no longer held: a run that may create starts a fresh one,
/// and one that may not is refused as for any unknown context.
pub proof fn lemma_released_context_starts_fresh<H>(m: Map<Seq<char>, (H, bool)>, name: Seq<char>)
    ensures
        after_run(m, name, false) == m.remove(name),
        admission_of(m.remove(name), name, true) == AdmissionView::Spawn,
        admission_of(m.remove(name), name, false) == AdmissionView::Refuse(
            missing_context_text(name, sorted_names(m.remove(name).dom())),
        ),
{
}

/// A run that may not create never starts a context; and dropping a context
/// that is not held leaves the registry as it was.
pub proof fn lemma_unknown_context_is_not_created<H>(m: Map<Seq<char>, (H, bool)>, name: Seq<char>)
    requires
        !m.contains_key(name),
    ensures
        admission_of(m, name, false) != AdmissionView::Spawn,
        m.remove(name) == m,
{
    assert(m.remove(name) =~= m);
}

/// A dropped context is listed no more; every other context still is.
pub proof fn lemma_dropped_context_not_listed<H>(
    m: Map<Seq<char>, (H, bool)>,
    name: Seq<char>,
    list: Seq<Seq<char>>,
)
    requires
        is_sorted_listing(list, m.remove(name).dom()),
    ensures
        !list.contains(name),
        forall|k: Seq<char>| k != name && m.contains_key(k) ==> list.contains(k),
{
}

/// A context that was just put in is held, idle, and takes the next run.
pub proof fn lemma_inserted_context_runs<H>(
    m: Map<Seq<char>, (H, bool)>,
    name: Seq<char>,
    handle: H,
    create: bool,
)
    ensures
        admission_of(m.insert(name, (handle, false)), name, create) == AdmissionView::Run,
{
}

} // verus!
