//! Per-message reactions: reaction key to sender to reaction details.
use vstd::prelude::*;

use crate::text_order::{
    chars_less, lemma_chars_less_irreflexive, lemma_chars_less_total, lemma_chars_less_transitive,
    str_eq, str_less,
};

verus! {

/// Details of one sender's reaction under one key.
#[derive(Clone, Copy, Debug, PartialEq, Eq, Structural)]
pub struct ReactionInfo {
    /// Milliseconds since the Unix epoch.
    pub timestamp: u64,
}

/// One reaction as seen from the outside: key, sender, timestamp.
pub type ReactionView = (Seq<char>, Seq<char>, u64);

/// Order on (key, sender) pairs: by key, then by sender.
pub open spec fn pair_less(a: ReactionView, b: ReactionView) -> bool {
    chars_less(a.0, b.0) || (a.0 == b.0 && chars_less(a.1, b.1))
}

/// Strictly increasing by (key, sender): each pair at most once, in natural order.
pub open spec fn reactions_sorted(v: Seq<ReactionView>) -> bool {
    forall|i: int, j: int| 0 <= i < j < v.len() ==> #[trigger] pair_less(v[i], v[j])
}

/// Index of the first entry that does not sort before `(key, sender)`.
pub open spec fn slot_of(v: Seq<ReactionView>, key: Seq<char>, sender: Seq<char>) -> int
    decreases v.len(),
{
    if v.len() == 0 {
        0
    } else if pair_less(v[0], (key, sender, 0u64)) {
        1 + slot_of(v.drop_first(), key, sender)
    } else {
        0
    }
}

/// `(key, sender)` has an entry; in a sorted sequence it stands at its slot.
pub open spec fn holds_pair(v: Seq<ReactionView>, key: Seq<char>, sender: Seq<char>) -> bool {
    let i = slot_of(v, key, sender);
    i < v.len() && v[i].0 == key && v[i].1 == sender
}

/// Some entry carries `key`.
pub open spec fn holds_key(v: Seq<ReactionView>, key: Seq<char>) -> bool {
    exists|i: int| 0 <= i < v.len() && #[trigger] v[i].0 == key
}

/// The entries under `key`, in order.
pub open spec fn senders_under(v: Seq<ReactionView>, key: Seq<char>) -> Seq<ReactionView> {
    v.filter(|e: ReactionView| e.0 == key)
}

/// The distinct keys of a sorted sequence, in order.
pub open spec fn keys_of(v: Seq<ReactionView>) -> Seq<Seq<char>>
    decreases v.len(),
{
    if v.len() == 0 {
        Seq::empty()
    } else {
        let rest = keys_of(v.drop_last());
        if rest.len() > 0 && rest.last() == v.last().0 {
            rest
        } else {
            rest.push(v.last().0)
        }
    }
}

/// All reactions to one message, grouped by key and then by sender.
///
/// The entries are kept strictly sorted by (key, sender), so each pair is held
/// at most once and a key exists exactly while some sender reacted with it.
#[derive(Clone, Debug)]
pub struct ReactionsByKeyBySender {
    entries: Vec<(String, String, ReactionInfo)>,
}

impl View for ReactionsByKeyBySender {
    type V = Seq<ReactionView>;

    closed spec fn view(&self) -> Seq<ReactionView> {
        self.entries@.map_values(|e: (String, String, ReactionInfo)| (e.0@, e.1@, e.2.timestamp))
    }
}

proof fn lemma_slot_bounds(v: Seq<ReactionView>, key: Seq<char>, sender: Seq<char>)
    ensures
        0 <= slot_of(v, key, sender) <= v.len(),
        forall|j: int| 0 <= j < slot_of(v, key, sender) ==> pair_less(#[trigger] v[j], (key, sender, 0u64)),
        slot_of(v, key, sender) < v.len() ==> !pair_less(v[slot_of(v, key, sender)], (key, sender, 0u64)),
    decreases v.len(),
{
    if v.len() > 0 && pair_less(v[0], (key, sender, 0u64)) {
        lemma_slot_bounds(v.drop_first(), key, sender);
        assert forall|j: int| 0 <= j < slot_of(v, key, sender) implies pair_less(#[trigger] v[j], (key, sender, 0u64)) by {
            if j > 0 {
                assert(v[j] == v.drop_first()[j - 1]);
            }
        }
    }
}

proof fn lemma_pair_less_transitive(a: ReactionView, b: ReactionView, c: ReactionView)
    requires
        pair_less(a, b),
        pair_less(b, c),
    ensures
        pair_less(a, c),
{
    if chars_less(a.0, b.0) && chars_less(b.0, c.0) {
        lemma_chars_less_transitive(a.0, b.0, c.0);
    } else if chars_less(a.0, b.0) {
    } else if chars_less(b.0, c.0) {
    } else {
        lemma_chars_less_transitive(a.1, b.1, c.1);
    }
}

proof fn lemma_pair_less_irreflexive(a: ReactionView, b: ReactionView)
    requires
        a.0 == b.0,
        a.1 == b.1,
    ensures
        !pair_less(a, b),
{
    lemma_chars_less_irreflexive(a.0);
    lemma_chars_less_irreflexive(a.1);
}

/// Outside the slot, no entry of a sorted sequence carries the pair.
proof fn lemma_slot_is_only_place(v: Seq<ReactionView>, key: Seq<char>, sender: Seq<char>, j: int)
    requires
        reactions_sorted(v),
        0 <= j < v.len(),
        v[j].0 == key,
        v[j].1 == sender,
    ensures
        j == slot_of(v, key, sender),
{
    lemma_slot_bounds(v, key, sender);
    let s = slot_of(v, key, sender);
    let p = (key, sender, 0u64);
    if j < s {
        assert(pair_less(v[j], p));
        lemma_pair_less_irreflexive(v[j], p);
    } else if j > s {
        assert(pair_less(v[s], v[j]));
        lemma_chars_less_total(v[s].0, key);
        lemma_chars_less_total(v[s].1, sender);
        if v[s].0 == key && v[s].1 == sender {
            lemma_pair_less_irreflexive(v[s], v[j]);
        } else {
            assert(pair_less(p, v[s]));
            lemma_pair_less_transitive(p, v[s], v[j]);
            lemma_pair_less_irreflexive(p, v[j]);
        }
    }
}

/// Past the slot of a missing pair, every entry sorts after it.
proof fn lemma_after_slot(v: Seq<ReactionView>, p: ReactionView)
    requires
        reactions_sorted(v),
        !holds_pair(v, p.0, p.1),
    ensures
        forall|j: int| slot_of(v, p.0, p.1) <= j < v.len() ==> pair_less(p, #[trigger] v[j]),
{
    lemma_slot_bounds(v, p.0, p.1);
    let s = slot_of(v, p.0, p.1);
    if s < v.len() {
        lemma_chars_less_total(v[s].0, p.0);
        lemma_chars_less_total(v[s].1, p.1);
        assert(pair_less(p, v[s]));
        assert forall|j: int| s <= j < v.len() implies pair_less(p, #[trigger] v[j]) by {
            if j > s {
                lemma_pair_less_transitive(p, v[s], v[j]);
            }
        }
    }
}

/// In a sorted sequence the pair is held exactly when some entry carries it.
pub proof fn lemma_holds_pair_iff_present(v: Seq<ReactionView>, key: Seq<char>, sender: Seq<char>)
    requires
        reactions_sorted(v),
    ensures
        holds_pair(v, key, sender) <==> exists|j: int|
            0 <= j < v.len() && #[trigger] v[j].0 == key && v[j].1 == sender,
{
    lemma_slot_bounds(v, key, sender);
    if exists|j: int| 0 <= j < v.len() && #[trigger] v[j].0 == key && v[j].1 == sender {
        let j = choose|j: int| 0 <= j < v.len() && #[trigger] v[j].0 == key && v[j].1 == sender;
        lemma_slot_is_only_place(v, key, sender, j);
    }
}

/// Every listed key is carried by some entry.
proof fn lemma_keys_of_held(v: Seq<ReactionView>)
    ensures
        forall|j: int| 0 <= j < keys_of(v).len() ==> holds_key(v, #[trigger] keys_of(v)[j]),
    decreases v.len(),
{
    if v.len() > 0 {
        let w = v.drop_last();
        lemma_keys_of_held(w);
        assert forall|j: int| 0 <= j < keys_of(v).len() implies holds_key(v, #[trigger] keys_of(v)[j]) by {
            if j < keys_of(w).len() {
                assert(keys_of(v)[j] == keys_of(w)[j]);
                let i = choose|i: int| 0 <= i < w.len() && #[trigger] w[i].0 == keys_of(w)[j];
                assert(v[i].0 == keys_of(v)[j]);
            } else {
                assert(v[v.len() - 1].0 == keys_of(v)[j]);
            }
        }
    }
}

/// Each (key, sender) pair is held at most once, and no key, whether found
/// among the entries or listed by `keys`, stands without a sender.
pub proof fn lemma_reactions_unique(r: ReactionsByKeyBySender)
    requires
        r.wf(),
    ensures
        forall|i: int, j: int|
            0 <= i < j < r@.len() ==> !(#[trigger] r@[i].0 == #[trigger] r@[j].0 && r@[i].1 == r@[j].1),
        forall|key: Seq<char>| holds_key(r@, key) ==> #[trigger] senders_under(r@, key).len() > 0,
        forall|j: int| 0 <= j < keys_of(r@).len() ==> #[trigger] senders_under(r@, keys_of(r@)[j]).len() > 0,
{
    let v = r@;
    lemma_keys_of_held(v);
    assert forall|i: int, j: int| 0 <= i < j < v.len() implies !(#[trigger] v[i].0 == #[trigger] v[j].0
        && v[i].1 == v[j].1) by {
        assert(pair_less(v[i], v[j]));
        if v[i].0 == v[j].0 && v[i].1 == v[j].1 {
            lemma_pair_less_irreflexive(v[i], v[j]);
        }
    }
    assert forall|key: Seq<char>| holds_key(v, key) implies #[trigger] senders_under(v, key).len() > 0 by {
        let i = choose|i: int| 0 <= i < v.len() && #[trigger] v[i].0 == key;
        let f = |e: ReactionView| e.0 == key;
        v.lemma_filter_contains(f, i);
        assert(senders_under(v, key) == v.filter(f));
    }
    assert forall|j: int| 0 <= j < keys_of(v).len() implies #[trigger] senders_under(v, keys_of(v)[j]).len() > 0 by {
        assert(holds_key(v, keys_of(v)[j]));
    }
}

impl Default for ReactionsByKeyBySender {
    fn default() -> (r: Self)
        ensures
            r.wf(),
            r@.len() == 0,
    {
        ReactionsByKeyBySender::new()
    }
}

impl ReactionsByKeyBySender {
    /// Entries strictly sorted by (key, sender).
    pub open spec fn wf(&self) -> bool {
        reactions_sorted(self@)
    }

    /// No reactions.
    pub fn new() -> (r: Self)
        ensures
            r.wf(),
            r@.len() == 0,
    {
        let r = ReactionsByKeyBySender { entries: Vec::new() };
        assert(r@ =~= Seq::<ReactionView>::empty());
        r
    }

    /// Number of (key, sender) pairs.
    pub fn len(&self) -> (n: usize)
        ensures
            n == self@.len(),
    {
        self.entries.len()
    }

    /// No sender reacted with any key.
    pub fn is_empty(&self) -> (b: bool)
        ensures
            b == (self@.len() == 0),
    {
        self.entries.len() == 0
    }

    /// Records that `sender` reacted with `key` at `timestamp`, replacing an
    /// earlier record of the same pair.
    pub fn add(&mut self, key: String, sender: String, timestamp: u64)
        requires
            old(self).wf(),
        ensures
            final(self).wf(),
            final(self)@ == if holds_pair(old(self)@, key@, sender@) {
                old(self)@.update(slot_of(old(self)@, key@, sender@), (key@, sender@, timestamp))
            } else {
                old(self)@.insert(slot_of(old(self)@, key@, sender@), (key@, sender@, timestamp))
            },
    {
        let ghost v = self@;
        let ghost p: ReactionView = (key@, sender@, timestamp);
        proof {
            lemma_slot_bounds(v, key@, sender@);
        }
        let i = self.slot(key.as_str(), sender.as_str());
        if i < self.entries.len() && str_eq(self.entries[i].0.as_str(), key.as_str()) && str_eq(
            self.entries[i].1.as_str(),
            sender.as_str(),
        ) {
            self.entries[i].2 = ReactionInfo { timestamp };
            assert(self@ =~= v.update(i as int, p));
            assert forall|a: int, b: int| 0 <= a < b < self@.len() implies #[trigger] pair_less(
                self@[a],
                self@[b],
            ) by {
                assert(pair_less(v[a], v[b]));
            }
        } else {
            let ghost old_entries = self.entries@;
            self.entries.insert(i, (key, sender, ReactionInfo { timestamp }));
            assert(self@ =~= v.insert(i as int, p));
            proof {
                lemma_after_slot(v, p);
            }
            assert forall|a: int, b: int| 0 <= a < b < self@.len() implies #[trigger] pair_less(
                self@[a],
                self@[b],
            ) by {
                if b < i {
                    assert(pair_less(v[a], v[b]));
                } else if b == i {
                    assert(pair_less(v[a], (key@, sender@, 0u64)));
                } else if a == i {
                    assert(pair_less(p, v[b - 1]));
                } else if a < i {
                    assert(pair_less(v[a], v[b - 1]));
                } else {
                    assert(pair_less(v[a - 1], v[b - 1]));
                }
            }
        }
    }

    /// Forgets that `sender` reacted with `key`; a key left without senders
    /// disappears with its last entry.
    pub fn remove(&mut self, key: &str, sender: &str)
        requires
            old(self).wf(),
        ensures
            final(self).wf(),
            final(self)@ == if holds_pair(old(self)@, key@, sender@) {
                old(self)@.remove(slot_of(old(self)@, key@, sender@))
            } else {
                old(self)@
            },
    {
        let ghost v = self@;
        let i = self.slot(key, sender);
        if i < self.entries.len() && str_eq(self.entries[i].0.as_str(), key) && str_eq(
            self.entries[i].1.as_str(),
            sender,
        ) {
            self.entries.remove(i);
            assert(self@ =~= v.remove(i as int));
            assert forall|a: int, b: int| 0 <= a < b < self@.len() implies #[trigger] pair_less(
                self@[a],
                self@[b],
            ) by {
                if b < i {
                    assert(pair_less(v[a], v[b]));
                } else if a < i {
                    assert(pair_less(v[a], v[b + 1]));
                } else {
                    assert(pair_less(v[a + 1], v[b + 1]));
                }
            }
        }
    }

    /// The record of `sender`'s reaction with `key`, if any.
    pub fn get(&self, key: &str, sender: &str) -> (r: Option<ReactionInfo>)
        ensures
            r == if holds_pair(self@, key@, sender@) {
                Some(ReactionInfo { timestamp: self@[slot_of(self@, key@, sender@)].2 })
            } else {
                None::<ReactionInfo>
            },
    {
        let i = self.slot(key, sender);
        proof {
            lemma_slot_bounds(self@, key@, sender@);
        }
        if i < self.entries.len() && str_eq(self.entries[i].0.as_str(), key) && str_eq(
            self.entries[i].1.as_str(),
            sender,
        ) {
            Some(self.entries[i].2)
        } else {
            None
        }
    }

    /// The keys that at least one sender reacted with, in key order.
    pub fn keys(&self) -> (r: Vec<String>)
        ensures
            r@.map_values(|k: String| k@) == keys_of(self@),
    {
        let ghost v = self@;
        let mut out: Vec<String> = Vec::new();
        let mut i: usize = 0;
        while i < self.entries.len()
            invariant
                v == self@,
                i <= v.len(),
                out@.map_values(|k: String| k@) == keys_of(v.take(i as int)),
            decreases v.len() - i,
        {
            let key = &self.entries[i].0;
            assert(v.take(i as int + 1).drop_last() =~= v.take(i as int));
            assert(v.take(i as int + 1).last() == v[i as int]);
            let n = out.len();
            if n > 0 && str_eq(out[n - 1].as_str(), key.as_str()) {
                assert(out@.map_values(|k: String| k@).last() == out@[n - 1]@);
            } else {
                let ghost before = out@;
                out.push(key.clone());
                assert(out@.map_values(|k: String| k@) =~= before.map_values(|k: String| k@).push(
                    key@,
                ));
            }
            i = i + 1;
        }
        assert(v.take(v.len() as int) =~= v);
        out
    }

    /// The senders that reacted with `key`, in sender order, with their records.
    pub fn senders(&self, key: &str) -> (r: Vec<(String, ReactionInfo)>)
        ensures
            r@.map_values(|e: (String, ReactionInfo)| (e.0@, e.1.timestamp)) == senders_under(
                self@,
                key@,
            ).map_values(|e: ReactionView| (e.1, e.2)),
    {
        let ghost v = self@;
        let ghost f = |e: ReactionView| e.0 == key@;
        let mut out: Vec<(String, ReactionInfo)> = Vec::new();
        let mut i: usize = 0;
        assert(v.take(0).filter(f) =~= Seq::<ReactionView>::empty()) by {
            reveal(Seq::filter);
        }
        while i < self.entries.len()
            invariant
                v == self@,
                i <= v.len(),
                f == (|e: ReactionView| e.0 == key@),
                out@.map_values(|e: (String, ReactionInfo)| (e.0@, e.1.timestamp)) == v.take(
                    i as int,
                ).filter(f).map_values(|e: ReactionView| (e.1, e.2)),
            decreases v.len() - i,
        {
            let entry = &self.entries[i];
            let ghost before = out@;
            assert(v.take(i as int + 1).drop_last() =~= v.take(i as int));
            assert(v.take(i as int + 1).last() == v[i as int]);
            assert(v[i as int] == (entry.0@, entry.1@, entry.2.timestamp));
            reveal(Seq::filter);
            if str_eq(entry.0.as_str(), key) {
                out.push((entry.1.clone(), entry.2));
                assert(v.take(i as int + 1).filter(f) == v.take(i as int).filter(f).push(v[i as int]));
                assert(out@.map_values(|e: (String, ReactionInfo)| (e.0@, e.1.timestamp)) =~= before.map_values(
                    |e: (String, ReactionInfo)| (e.0@, e.1.timestamp),
                ).push((entry.1@, entry.2.timestamp)));
                assert(v.take(i as int + 1).filter(f).map_values(|e: ReactionView| (e.1, e.2)) =~= v.take(
                    i as int,
                ).filter(f).map_values(|e: ReactionView| (e.1, e.2)).push((entry.1@, entry.2.timestamp)));
            } else {
                assert(v.take(i as int + 1).filter(f) == v.take(i as int).filter(f));
            }
            i = i + 1;
        }
        assert(v.take(v.len() as int) =~= v);
        out
    }

    fn slot(&self, key: &str, sender: &str) -> (i: usize)
        ensures
            i == slot_of(self@, key@, sender@),
    {
        let ghost v = self@;
        let mut i: usize = 0;
        assert(v.skip(0) =~= v);
        while i < self.entries.len()
            invariant
                v == self@,
                i <= v.len(),
                slot_of(v, key@, sender@) == i + slot_of(v.skip(i as int), key@, sender@),
                forall|j: int| 0 <= j < i ==> pair_less(#[trigger] v[j], (key@, sender@, 0u64)),
            decreases v.len() - i,
        {
            let e = &self.entries[i];
            assert(v[i as int] == (e.0@, e.1@, e.2.timestamp));
            let before = str_less(e.0.as_str(), key) || (str_eq(e.0.as_str(), key) && str_less(e.1.as_str(), sender));
            assert(before == pair_less(v[i as int], (key@, sender@, 0u64)));
            assert(v.skip(i as int)[0] == v[i as int]);
            if !before {
                return i;
            }
            assert(v.skip(i as int).drop_first() =~= v.skip(i as int + 1));
            i = i + 1;
        }
        i
    }
}

} // verus!
