//! The router's durable state: byte slots under byte keys, kept in key order,
//! the order a snapshot of them is written in. The router writes it as it goes
//! and reads it back once, at start, before anything else touches it.

use vstd::prelude::*;
use vstd::slice::slice_to_vec;

verus! {

/// Byte strings in dictionary order: by the first byte where they differ, and
/// a proper prefix before what it starts.
pub open spec fn bytes_lt(a: Seq<u8>, b: Seq<u8>) -> bool
    decreases a.len(),
{
    if a.len() == 0 {
        b.len() > 0
    } else if b.len() == 0 {
        false
    } else if a[0] != b[0] {
        a[0] < b[0]
    } else {
        bytes_lt(a.drop_first(), b.drop_first())
    }
}

/// No key comes before itself.
pub proof fn lemma_lt_irreflexive(a: Seq<u8>)
    ensures
        !bytes_lt(a, a),
    decreases a.len(),
{
    if a.len() > 0 {
        lemma_lt_irreflexive(a.drop_first());
    }
}

/// Of two keys, at most one comes first, and one that comes first is another key.
pub proof fn lemma_lt_asymmetric(a: Seq<u8>, b: Seq<u8>)
    requires
        bytes_lt(a, b),
    ensures
        !bytes_lt(b, a),
        a != b,
    decreases a.len(),
{
    if a.len() > 0 && b.len() > 0 && a[0] == b[0] {
        lemma_lt_asymmetric(a.drop_first(), b.drop_first());
    }
    lemma_lt_irreflexive(a);
}

/// A key before one before a third is before the third.
pub proof fn lemma_lt_transitive(a: Seq<u8>, b: Seq<u8>, c: Seq<u8>)
    requires
        bytes_lt(a, b),
        bytes_lt(b, c),
    ensures
        bytes_lt(a, c),
    decreases a.len(),
{
    if a.len() > 0 && b.len() > 0 && c.len() > 0 && a[0] == b[0] && b[0] == c[0] {
        lemma_lt_transitive(a.drop_first(), b.drop_first(), c.drop_first());
    }
}

/// Of two different keys, one comes first.
pub proof fn lemma_lt_total(a: Seq<u8>, b: Seq<u8>)
    ensures
        a == b || bytes_lt(a, b) || bytes_lt(b, a),
    decreases a.len(),
{
    if a.len() == 0 && b.len() == 0 {
        assert(a =~= b);
    }
    if a.len() > 0 && b.len() > 0 && a[0] == b[0] {
        lemma_lt_total(a.drop_first(), b.drop_first());
        if a.drop_first() == b.drop_first() {
            assert forall|i: int| 0 <= i < a.len() implies a[i] == b[i] by {
                if i > 0 {
                    assert(a[i] == a.drop_first()[i - 1]);
                    assert(b[i] == b.drop_first()[i - 1]);
                }
            }
            assert(a =~= b);
        }
    }
}

/// After a common run, the order is that of what follows it.
proof fn lemma_lt_after_common(a: Seq<u8>, b: Seq<u8>, i: int)
    requires
        0 <= i <= a.len(),
        i <= b.len(),
        forall|j: int| 0 <= j < i ==> a[j] == b[j],
    ensures
        bytes_lt(a, b) == bytes_lt(a.skip(i), b.skip(i)),
    decreases i,
{
    if i > 0 {
        assert forall|j: int| 0 <= j < i - 1 implies a.drop_first()[j] == b.drop_first()[j] by {
            assert(a[j + 1] == b[j + 1]);
        }
        lemma_lt_after_common(a.drop_first(), b.drop_first(), i - 1);
        assert(a.drop_first().skip(i - 1) =~= a.skip(i));
        assert(b.drop_first().skip(i - 1) =~= b.skip(i));
    } else {
        assert(a.skip(0) =~= a);
        assert(b.skip(0) =~= b);
    }
}

/// Where one key stands against another.
#[derive(Clone, Copy, Debug, PartialEq, Eq, Structural)]
pub enum KeyOrder {
    Before,
    Same,
    After,
}

/// Compares two keys in dictionary order.
pub fn compare_keys(a: &[u8], b: &[u8]) -> (res: KeyOrder)
    ensures
        res == KeyOrder::Before <==> bytes_lt(a@, b@),
        res == KeyOrder::Same <==> a@ == b@,
        res == KeyOrder::After <==> bytes_lt(b@, a@),
{
    proof {
        if bytes_lt(a@, b@) {
            lemma_lt_asymmetric(a@, b@);
        }
        if bytes_lt(b@, a@) {
            lemma_lt_asymmetric(b@, a@);
        }
    }
    let mut i: usize = 0;
    while i < a.len() && i < b.len()
        invariant
            0 <= i <= a@.len(),
            i <= b@.len(),
            forall|j: int| 0 <= j < i ==> a@[j] == b@[j],
        decreases a@.len() - i,
    {
        if a[i] != b[i] {
            proof {
                lemma_lt_after_common(a@, b@, i as int);
                lemma_lt_after_common(b@, a@, i as int);
                assert(a@.skip(i as int)[0] == a@[i as int]);
                assert(b@.skip(i as int)[0] == b@[i as int]);
            }
            if a[i] < b[i] {
                return KeyOrder::Before;
            } else {
                return KeyOrder::After;
            }
        }
        i += 1;
    }
    proof {
        lemma_lt_after_common(a@, b@, i as int);
        lemma_lt_after_common(b@, a@, i as int);
    }
    if a.len() == b.len() {
        assert(a@ =~= b@);
        proof {
            lemma_lt_irreflexive(a@);
        }
        KeyOrder::Same
    } else if a.len() < b.len() {
        KeyOrder::Before
    } else {
        KeyOrder::After
    }
}

/// Whether `key` begins with `prefix`.
pub fn starts_with(key: &[u8], prefix: &[u8]) -> (res: bool)
    ensures
        res == prefix@.is_prefix_of(key@),
{
    if prefix.len() > key.len() {
        return false;
    }
    let mut i: usize = 0;
    while i < prefix.len()
        invariant
            prefix@.len() <= key@.len(),
            0 <= i <= prefix@.len(),
            forall|j: int| 0 <= j < i ==> prefix@[j] == key@[j],
        decreases prefix@.len() - i,
    {
        if prefix[i] != key[i] {
            assert(prefix@[i as int] != key@.subrange(0, prefix@.len() as int)[i as int]);
            return false;
        }
        i += 1;
    }
    assert(prefix@ =~= key@.subrange(0, prefix@.len() as int));
    true
}

/// Each key before the next.
pub open spec fn in_key_order(s: Seq<(Seq<u8>, Seq<u8>)>) -> bool {
    forall|i: int, j: int| 0 <= i < j < s.len() ==> bytes_lt(#[trigger] s[i].0, #[trigger] s[j].0)
}

pub open spec fn holds_key(s: Seq<(Seq<u8>, Seq<u8>)>, key: Seq<u8>) -> bool {
    exists|i: int| 0 <= i < s.len() && s[i].0 == key
}

pub open spec fn slot_at(s: Seq<(Seq<u8>, Seq<u8>)>, key: Seq<u8>) -> Seq<u8> {
    s[choose|i: int| 0 <= i < s.len() && s[i].0 == key].1
}

/// The slots as a map from key to contents.
pub open spec fn slot_map(s: Seq<(Seq<u8>, Seq<u8>)>) -> Map<Seq<u8>, Seq<u8>> {
    Map::new(|key: Seq<u8>| holds_key(s, key), |key: Seq<u8>| slot_at(s, key))
}

/// Where `key` belongs among slots in key order: every key before `i` comes
/// before it, the key at `i` is it or comes after it, and every later key comes
/// after it.
pub open spec fn belongs_at(s: Seq<(Seq<u8>, Seq<u8>)>, key: Seq<u8>, i: int) -> bool {
    &&& 0 <= i <= s.len()
    &&& forall|j: int| 0 <= j < i ==> bytes_lt(#[trigger] s[j].0, key)
    &&& i < s.len() ==> (s[i].0 == key || bytes_lt(key, s[i].0))
    &&& forall|j: int| i < j < s.len() ==> bytes_lt(key, #[trigger] s[j].0)
}

proof fn lemma_slot_at(s: Seq<(Seq<u8>, Seq<u8>)>, i: int)
    requires
        in_key_order(s),
        0 <= i < s.len(),
    ensures
        holds_key(s, s[i].0),
        slot_at(s, s[i].0) == s[i].1,
{
    assert(holds_key(s, s[i].0));
    let c = choose|c: int| 0 <= c < s.len() && s[c].0 == s[i].0;
    if c != i {
        lemma_lt_irreflexive(s[i].0);
        if c < i {
            assert(bytes_lt(s[c].0, s[i].0));
        } else {
            assert(bytes_lt(s[i].0, s[c].0));
        }
    }
}

proof fn lemma_not_held(s: Seq<(Seq<u8>, Seq<u8>)>, key: Seq<u8>, i: int)
    requires
        belongs_at(s, key, i),
        i < s.len() ==> s[i].0 != key,
    ensures
        !holds_key(s, key),
{
    if holds_key(s, key) {
        let c = choose|c: int| 0 <= c < s.len() && s[c].0 == key;
        lemma_lt_irreflexive(key);
        if c < i {
            assert(bytes_lt(s[c].0, key));
        } else if c > i {
            assert(bytes_lt(key, s[c].0));
        }
    }
}

proof fn lemma_stored(
    s: Seq<(Seq<u8>, Seq<u8>)>,
    t: Seq<(Seq<u8>, Seq<u8>)>,
    key: Seq<u8>,
    value: Seq<u8>,
    i: int,
    found: bool,
)
    requires
        in_key_order(s),
        belongs_at(s, key, i),
        found == (i < s.len() && s[i].0 == key),
        found ==> t == s.update(i, (key, value)),
        !found ==> t == s.insert(i, (key, value)),
    ensures
        in_key_order(t),
        slot_map(t) == slot_map(s).insert(key, value),
{
    assert forall|a: int, b: int| 0 <= a < b < t.len() implies bytes_lt(#[trigger] t[a].0, #[trigger] t[b].0) by {
        if found {
            if a == i {
                assert(bytes_lt(key, s[b].0));
            } else if b == i {
                assert(bytes_lt(s[a].0, key));
            } else {
                assert(bytes_lt(s[a].0, s[b].0));
            }
        } else {
            if b == i {
                assert(t[a] == s[a]);
                assert(bytes_lt(s[a].0, key));
            } else if a == i {
                assert(t[b] == s[b - 1]);
                if b - 1 == i {
                    assert(s[i].0 != key);
                    assert(bytes_lt(key, s[i].0));
                } else {
                    assert(bytes_lt(key, s[b - 1].0));
                }
            } else if a > i {
                assert(t[a] == s[a - 1] && t[b] == s[b - 1]);
                assert(bytes_lt(s[a - 1].0, s[b - 1].0));
            } else if b > i {
                assert(t[a] == s[a] && t[b] == s[b - 1]);
                assert(bytes_lt(s[a].0, s[b - 1].0));
            } else {
                assert(t[a] == s[a] && t[b] == s[b]);
                assert(bytes_lt(s[a].0, s[b].0));
            }
        }
    }
    lemma_slot_at(t, i);
    assert forall|k: Seq<u8>| k != key implies (#[trigger] holds_key(t, k) == holds_key(s, k)) by {
        if holds_key(t, k) {
            let c = choose|c: int| 0 <= c < t.len() && t[c].0 == k;
            if found {
                assert(s[c].0 == k);
            } else if c < i {
                assert(s[c].0 == k);
            } else {
                assert(s[c - 1].0 == k);
            }
        }
        if holds_key(s, k) {
            let c = choose|c: int| 0 <= c < s.len() && s[c].0 == k;
            if found {
                assert(t[c].0 == k);
            } else if c < i {
                assert(t[c].0 == k);
            } else {
                assert(t[c + 1].0 == k);
            }
        }
    }
    assert forall|k: Seq<u8>| k != key && holds_key(t, k) implies #[trigger] slot_at(t, k) == slot_at(s, k) by {
        let c = choose|c: int| 0 <= c < t.len() && t[c].0 == k;
        lemma_slot_at(t, c);
        if found {
            lemma_slot_at(s, c);
        } else if c < i {
            lemma_slot_at(s, c);
        } else {
            lemma_slot_at(s, c - 1);
        }
    }
    assert(slot_map(t) =~= slot_map(s).insert(key, value));
}

proof fn lemma_removed(s: Seq<(Seq<u8>, Seq<u8>)>, t: Seq<(Seq<u8>, Seq<u8>)>, key: Seq<u8>, i: int, found: bool)
    requires
        in_key_order(s),
        belongs_at(s, key, i),
        found == (i < s.len() && s[i].0 == key),
        found ==> t == s.remove(i),
        !found ==> t == s,
    ensures
        in_key_order(t),
        slot_map(t) == slot_map(s).remove(key),
{
    assert forall|a: int, b: int| 0 <= a < b < t.len() implies bytes_lt(#[trigger] t[a].0, #[trigger] t[b].0) by {
        if found {
            if a >= i {
                assert(t[a] == s[a + 1] && t[b] == s[b + 1]);
                assert(bytes_lt(s[a + 1].0, s[b + 1].0));
            } else if b >= i {
                assert(t[a] == s[a] && t[b] == s[b + 1]);
                assert(bytes_lt(s[a].0, s[b + 1].0));
            } else {
                assert(bytes_lt(s[a].0, s[b].0));
            }
        } else {
            assert(bytes_lt(s[a].0, s[b].0));
        }
    }
    if found {
        assert(belongs_at(t, key, i)) by {
            assert forall|j: int| 0 <= j < i implies bytes_lt(#[trigger] t[j].0, key) by {
                assert(t[j] == s[j]);
            }
            assert forall|j: int| i < j < t.len() implies bytes_lt(key, #[trigger] t[j].0) by {
                assert(t[j] == s[j + 1]);
            }
            if i < t.len() {
                assert(t[i] == s[i + 1]);
                assert(bytes_lt(key, s[i + 1].0));
            }
        }
        if i < t.len() {
            assert(t[i] == s[i + 1]);
            assert(bytes_lt(key, s[i + 1].0));
            lemma_lt_asymmetric(key, s[i + 1].0);
        }
        lemma_not_held(t, key, i);
    } else {
        lemma_not_held(t, key, i);
    }
    assert forall|k: Seq<u8>| k != key implies (#[trigger] holds_key(t, k) == holds_key(s, k)) by {
        if holds_key(t, k) {
            let c = choose|c: int| 0 <= c < t.len() && t[c].0 == k;
            if found {
                if c < i {
                    assert(s[c].0 == k);
                } else {
                    assert(s[c + 1].0 == k);
                }
            } else {
                assert(s[c].0 == k);
            }
        }
        if holds_key(s, k) {
            let c = choose|c: int| 0 <= c < s.len() && s[c].0 == k;
            if found {
                assert(c != i);
                if c < i {
                    assert(t[c].0 == k);
                } else {
                    assert(t[c - 1].0 == k);
                }
            } else {
                assert(t[c].0 == k);
            }
        }
    }
    assert forall|k: Seq<u8>| k != key && holds_key(t, k) implies #[trigger] slot_at(t, k) == slot_at(s, k) by {
        let c = choose|c: int| 0 <= c < t.len() && t[c].0 == k;
        lemma_slot_at(t, c);
        if found {
            if c < i {
                lemma_slot_at(s, c);
            } else {
                lemma_slot_at(s, c + 1);
            }
        } else {
            lemma_slot_at(s, c);
        }
    }
    assert(slot_map(t) =~= slot_map(s).remove(key));
}

/// The router's slots, in key order.
pub struct Slots {
    entries: Vec<(Vec<u8>, Vec<u8>)>,
}

pub open spec fn slot_view(entry: (Vec<u8>, Vec<u8>)) -> (Seq<u8>, Seq<u8>) {
    (entry.0@, entry.1@)
}

pub open spec fn key_of(slot: (Seq<u8>, Seq<u8>)) -> Seq<u8> {
    slot.0
}

pub open spec fn has_prefix(prefix: Seq<u8>) -> spec_fn(Seq<u8>) -> bool {
    |key: Seq<u8>| prefix.is_prefix_of(key)
}

impl Slots {
    /// The slots held, key and contents, in key order.
    pub closed spec fn slots(&self) -> Seq<(Seq<u8>, Seq<u8>)> {
        self.entries@.map_values(|entry: (Vec<u8>, Vec<u8>)| slot_view(entry))
    }

    pub closed spec fn wf(&self) -> bool {
        in_key_order(self.slots())
    }

    pub open spec fn map(&self) -> Map<Seq<u8>, Seq<u8>> {
        slot_map(self.slots())
    }

    /// The keys held, in key order.
    pub open spec fn key_list(&self) -> Seq<Seq<u8>> {
        self.slots().map_values(|slot: (Seq<u8>, Seq<u8>)| key_of(slot))
    }

    pub fn new() -> (res: Slots)
        ensures
            res.wf(),
            res.slots().len() == 0,
            res.map() == Map::<Seq<u8>, Seq<u8>>::empty(),
    {
        let res = Slots { entries: Vec::new() };
        assert(res.slots() =~= Seq::empty());
        assert(res.map() =~= Map::<Seq<u8>, Seq<u8>>::empty());
        res
    }

    /// The slots, key and contents, in key order.
    pub fn entries(&self) -> (res: &Vec<(Vec<u8>, Vec<u8>)>)
        ensures
            res@.map_values(|entry: (Vec<u8>, Vec<u8>)| slot_view(entry)) == self.slots(),
    {
        &self.entries
    }

    fn position(&self, key: &[u8]) -> (res: (usize, bool))
        requires
            self.wf(),
        ensures
            belongs_at(self.slots(), key@, res.0 as int),
            res.1 == (res.0 < self.slots().len() && self.slots()[res.0 as int].0 == key@),
    {
        let ghost s = self.slots();
        let n = self.entries.len();
        let mut i: usize = 0;
        while i < n
            invariant
                n == self.entries@.len(),
                s == self.slots(),
                in_key_order(s),
                0 <= i <= n,
                forall|j: int| 0 <= j < i ==> bytes_lt(#[trigger] s[j].0, key@),
            decreases n - i,
        {
            assert(s[i as int].0 == self.entries@[i as int].0@);
            let order = compare_keys(self.entries[i].0.as_slice(), key);
            if order == KeyOrder::Before {
                i += 1;
            } else {
                proof {
                    assert forall|j: int| i < j < s.len() implies bytes_lt(key@, #[trigger] s[j].0) by {
                        assert(bytes_lt(s[i as int].0, s[j].0));
                        if s[i as int].0 != key@ {
                            lemma_lt_transitive(key@, s[i as int].0, s[j].0);
                        }
                    }
                }
                return (i, order == KeyOrder::Same);
            }
        }
        (n, false)
    }

    /// The contents under `key`, if it holds any.
    pub fn load(&self, key: &[u8]) -> (res: Option<Vec<u8>>)
        requires
            self.wf(),
        ensures
            match res {
                Some(value) => self.map().contains_key(key@) && self.map()[key@] == value@,
                None => !self.map().contains_key(key@),
            },
    {
        let (i, found) = self.position(key);
        if found {
            proof {
                lemma_slot_at(self.slots(), i as int);
            }
            let value = slice_to_vec(self.entries[i].1.as_slice());
            Some(value)
        } else {
            proof {
                lemma_not_held(self.slots(), key@, i as int);
            }
            None
        }
    }

    /// Puts `value` under `key`, in place of whatever it held.
    pub fn store(&mut self, key: &[u8], value: &[u8])
        requires
            old(self).wf(),
        ensures
            final(self).wf(),
            final(self).map() == old(self).map().insert(key@, value@),
    {
        let (i, found) = self.position(key);
        let ghost s = self.slots();
        let entry = (slice_to_vec(key), slice_to_vec(value));
        if found {
            self.entries.set(i, entry);
            assert(self.slots() =~= s.update(i as int, (key@, value@)));
        } else {
            self.entries.insert(i, entry);
            assert(self.slots() =~= s.insert(i as int, (key@, value@)));
        }
        proof {
            lemma_stored(s, self.slots(), key@, value@, i as int, found);
        }
    }

    /// Empties `key`.
    pub fn remove(&mut self, key: &[u8])
        requires
            old(self).wf(),
        ensures
            final(self).wf(),
            final(self).map() == old(self).map().remove(key@),
    {
        let (i, found) = self.position(key);
        let ghost s = self.slots();
        if found {
            self.entries.remove(i);
            assert(self.slots() =~= s.remove(i as int));
        }
        proof {
            lemma_removed(s, self.slots(), key@, i as int, found);
        }
    }

    /// The keys that begin with `prefix`, in key order.
    pub fn keys(&self, prefix: &[u8]) -> (res: Vec<Vec<u8>>)
        requires
            self.wf(),
        ensures
            res@.map_values(|key: Vec<u8>| key@) == self.key_list().filter(has_prefix(prefix@)),
    {
        let ghost all = self.key_list();
        let ghost pred = has_prefix(prefix@);
        let mut out: Vec<Vec<u8>> = Vec::new();
        let mut i: usize = 0;
        while i < self.entries.len()
            invariant
                0 <= i <= self.entries@.len(),
                all == self.key_list(),
                all.len() == self.entries@.len(),
                pred == has_prefix(prefix@),
                out@.map_values(|key: Vec<u8>| key@) == all.take(i as int).filter(pred),
            decreases self.entries@.len() - i,
        {
            let key = self.entries[i].0.as_slice();
            assert(all[i as int] == key@);
            proof {
                assert(all.take(i as int + 1).drop_last() =~= all.take(i as int));
                reveal(Seq::filter);
            }
            if starts_with(key, prefix) {
                let ghost before = out@;
                out.push(slice_to_vec(key));
                assert(out@.map_values(|key: Vec<u8>| key@) =~= before.map_values(|key: Vec<u8>| key@).push(key@));
            }
            i += 1;
        }
        assert(all.take(i as int) =~= all);
        out
    }
}

/// The keys come out in key order, each once, and they are the keys held.
pub proof fn keys_in_order(slots: Slots)
    requires
        slots.wf(),
    ensures
        forall|i: int, j: int| 0 <= i < j < slots.key_list().len()
            ==> bytes_lt(#[trigger] slots.key_list()[i], #[trigger] slots.key_list()[j]),
        forall|key: Seq<u8>| slots.map().contains_key(key) <==> #[trigger] slots.key_list().contains(key),
{
    let s = slots.slots();
    let list = slots.key_list();
    assert forall|i: int, j: int| 0 <= i < j < list.len() implies bytes_lt(#[trigger] list[i], #[trigger] list[j]) by {
        assert(list[i] == s[i].0 && list[j] == s[j].0);
    }
    assert forall|key: Seq<u8>| slots.map().contains_key(key) <==> #[trigger] list.contains(key) by {
        if holds_key(s, key) {
            let c = choose|c: int| 0 <= c < s.len() && s[c].0 == key;
            assert(list[c] == key);
        }
        if list.contains(key) {
            let c = choose|c: int| 0 <= c < list.len() && list[c] == key;
            assert(s[c].0 == key);
        }
    }
}

/// What `store` put under a key is what `load` finds there, and every other
/// key still holds what it held.
pub proof fn a_stored_slot_is_loaded_back(before: Slots, after: Slots, key: Seq<u8>, value: Seq<u8>, other: Seq<u8>)
    requires
        after.map() == before.map().insert(key, value),
    ensures
        after.map().contains_key(key),
        after.map()[key] == value,
        other != key ==> (after.map().contains_key(other) == before.map().contains_key(other)),
        other != key && before.map().contains_key(other) ==> after.map()[other] == before.map()[other],
{
}

/// After `remove`, `load` finds nothing under the key, and every other key
/// still holds what it held.
pub proof fn a_removed_slot_is_gone(before: Slots, after: Slots, key: Seq<u8>, other: Seq<u8>)
    requires
        after.map() == before.map().remove(key),
    ensures
        !after.map().contains_key(key),
        other != key ==> (after.map().contains_key(other) == before.map().contains_key(other)),
        other != key && before.map().contains_key(other) ==> after.map()[other] == before.map()[other],
{
}

} // verus!
