//! Held messages keyed by their arrival number, kept in arrival order.

use vstd::prelude::*;

verus! {

/// One sequence number and what it holds now. `None` is a removal.
pub type Change = (u64, Option<String>);

/// Messages by sequence number, ascending.
pub struct Held {
    entries: Vec<(u64, String)>,
}

pub open spec fn ascending(s: Seq<(u64, String)>) -> bool {
    forall|i: int, j: int| 0 <= i < j < s.len() ==> s[i].0 < s[j].0
}

pub open spec fn has_key(s: Seq<(u64, String)>, key: u64) -> bool {
    exists|i: int| 0 <= i < s.len() && s[i].0 == key
}

pub open spec fn value_at_key(s: Seq<(u64, String)>, key: u64) -> String {
    s[choose|i: int| 0 <= i < s.len() && s[i].0 == key].1
}

/// The entries as a map from sequence number to message.
pub open spec fn as_map(s: Seq<(u64, String)>) -> Map<u64, String> {
    Map::new(|key: u64| has_key(s, key), |key: u64| value_at_key(s, key))
}

proof fn lemma_key_at(s: Seq<(u64, String)>, i: int)
    requires
        ascending(s),
        0 <= i < s.len(),
    ensures
        has_key(s, s[i].0),
        value_at_key(s, s[i].0) == s[i].1,
{
    assert(has_key(s, s[i].0));
    let c = choose|c: int| 0 <= c < s.len() && s[c].0 == s[i].0;
    if c < i {
        assert(s[c].0 < s[i].0);
    } else if c > i {
        assert(s[i].0 < s[c].0);
    }
}

impl Held {
    pub closed spec fn entries(&self) -> Seq<(u64, String)> {
        self.entries@
    }

    pub closed spec fn wf(&self) -> bool {
        ascending(self.entries@)
    }

    pub open spec fn map(&self) -> Map<u64, String> {
        as_map(self.entries())
    }

    pub fn new() -> (res: Held)
        ensures
            res.wf(),
            res.entries().len() == 0,
    {
        Held { entries: Vec::new() }
    }

    /// The messages held, by sequence number, ascending.
    pub fn entries_in_order(&self) -> (res: &Vec<(u64, String)>)
        ensures
            res@ == self.entries(),
    {
        &self.entries
    }

    pub fn len(&self) -> (res: usize)
        ensures
            res == self.entries().len(),
    {
        self.entries.len()
    }

    /// The highest sequence number held.
    pub fn last_key(&self) -> (res: Option<u64>)
        requires
            self.wf(),
        ensures
            self.entries().len() == 0 ==> res is None,
            self.entries().len() > 0 ==> res == Some(self.entries().last().0),
            res matches Some(last) ==> forall|i: int| 0 <= i < self.entries().len() ==> #[trigger] self.entries()[i].0 <= last,
    {
        let n = self.entries.len();
        if n == 0 {
            None
        } else {
            Some(self.entries[n - 1].0)
        }
    }

    /// Adds a message after every one held.
    pub fn append(&mut self, key: u64, json: String)
        requires
            old(self).wf(),
            forall|i: int| 0 <= i < old(self).entries().len() ==> #[trigger] old(self).entries()[i].0 < key,
        ensures
            final(self).wf(),
            final(self).entries() == old(self).entries().push((key, json)),
    {
        self.entries.push((key, json));
    }

    /// Takes the message with the lowest sequence number.
    pub fn pop_first(&mut self) -> (res: Option<(u64, String)>)
        requires
            old(self).wf(),
        ensures
            final(self).wf(),
            old(self).entries().len() == 0 ==> res is None && final(self).entries() == old(self).entries(),
            old(self).entries().len() > 0 ==> res == Some(old(self).entries()[0])
                && final(self).entries() == old(self).entries().drop_first(),
    {
        if self.entries.len() == 0 {
            return None;
        }
        let first = self.entries.remove(0);
        assert(self.entries@ =~= old(self).entries@.drop_first());
        Some(first)
    }
}

/// Where `seq` belongs in `s`: every key before `i` is lower, every key from
/// `i` on is at least `seq`.
pub open spec fn belongs_at(s: Seq<(u64, String)>, seq: u64, i: int) -> bool {
    &&& 0 <= i <= s.len()
    &&& forall|j: int| 0 <= j < i ==> #[trigger] s[j].0 < seq
    &&& forall|j: int| i <= j < s.len() ==> #[trigger] s[j].0 >= seq
}

fn position(held: &Held, seq: u64) -> (res: (usize, bool))
    requires
        held.wf(),
    ensures
        belongs_at(held.entries(), seq, res.0 as int),
        res.1 == (res.0 < held.entries().len() && held.entries()[res.0 as int].0 == seq),
{
    let n = held.entries.len();
    let mut i: usize = 0;
    while i < n && held.entries[i].0 < seq
        invariant
            n == held.entries@.len(),
            ascending(held.entries@),
            0 <= i <= n,
            forall|j: int| 0 <= j < i ==> #[trigger] held.entries@[j].0 < seq,
        decreases n - i,
    {
        i += 1;
    }
    proof {
        let s = held.entries@;
        assert forall|j: int| i <= j < n implies #[trigger] s[j].0 >= seq by {
            if j > i {
                assert(s[i as int].0 < s[j].0);
            }
        }
    }
    (i, i < n && held.entries[i].0 == seq)
}

proof fn lemma_stored(s: Seq<(u64, String)>, t: Seq<(u64, String)>, seq: u64, json: String, i: int, found: bool)
    requires
        ascending(s),
        belongs_at(s, seq, i),
        found == (i < s.len() && s[i].0 == seq),
        found ==> t == s.update(i, (seq, json)),
        !found ==> t == s.insert(i, (seq, json)),
    ensures
        ascending(t),
        as_map(t) == as_map(s).insert(seq, json),
{
    assert forall|a: int, b: int| 0 <= a < b < t.len() implies t[a].0 < t[b].0 by {
        if !found {
            if b == i {
                assert(t[a] == s[a]);
            } else if a == i {
                assert(t[b] == s[b - 1]);
                if b - 1 > i { assert(s[i].0 < s[b - 1].0); }
                assert(s[b - 1].0 >= seq);
                assert(s[b - 1].0 != seq || b - 1 > i);
                if b - 1 == i { assert(s[i].0 != seq); }
            } else if a > i {
                assert(t[a] == s[a - 1] && t[b] == s[b - 1]);
            } else if b > i {
                assert(t[a] == s[a] && t[b] == s[b - 1]);
            }
        }
    }
    lemma_key_at(t, i);
    assert forall|key: u64| key != seq implies (#[trigger] has_key(t, key) == has_key(s, key)) by {
        if has_key(t, key) {
            let c = choose|c: int| 0 <= c < t.len() && t[c].0 == key;
            if found { assert(s[c].0 == key); } else if c < i { assert(s[c].0 == key); } else { assert(s[c - 1].0 == key); }
        }
        if has_key(s, key) {
            let c = choose|c: int| 0 <= c < s.len() && s[c].0 == key;
            if found { assert(c != i); assert(t[c].0 == key); } else if c < i { assert(t[c].0 == key); } else { assert(t[c + 1].0 == key); }
        }
    }
    assert forall|key: u64| key != seq && has_key(t, key) implies #[trigger] value_at_key(t, key) == value_at_key(s, key) by {
        let c = choose|c: int| 0 <= c < t.len() && t[c].0 == key;
        lemma_key_at(t, c);
        if found { lemma_key_at(s, c); } else if c < i { lemma_key_at(s, c); } else { lemma_key_at(s, c - 1); }
    }
    assert(as_map(t) =~= as_map(s).insert(seq, json));
}

proof fn lemma_removed(s: Seq<(u64, String)>, t: Seq<(u64, String)>, seq: u64, i: int, found: bool)
    requires
        ascending(s),
        belongs_at(s, seq, i),
        found == (i < s.len() && s[i].0 == seq),
        found ==> t == s.remove(i),
        !found ==> t == s,
    ensures
        ascending(t),
        as_map(t) == as_map(s).remove(seq),
{
    assert forall|a: int, b: int| 0 <= a < b < t.len() implies t[a].0 < t[b].0 by {
        if found {
            if a >= i { assert(t[a] == s[a + 1] && t[b] == s[b + 1]); } else if b >= i { assert(t[a] == s[a] && t[b] == s[b + 1]); }
        }
    }
    assert(!has_key(t, seq)) by {
        if has_key(t, seq) {
            let c = choose|c: int| 0 <= c < t.len() && t[c].0 == seq;
            if found {
                if c < i { assert(t[c] == s[c]); } else { assert(t[c] == s[c + 1]); assert(s[i].0 < s[c + 1].0); }
            } else {
                assert(t[c] == s[c]);
                if c >= i && c > i { assert(s[i].0 < s[c].0); }
            }
        }
    }
    assert forall|key: u64| key != seq implies (#[trigger] has_key(t, key) == has_key(s, key)) by {
        if has_key(t, key) {
            let c = choose|c: int| 0 <= c < t.len() && t[c].0 == key;
            if found { if c < i { assert(s[c].0 == key); } else { assert(s[c + 1].0 == key); } } else { assert(s[c].0 == key); }
        }
        if has_key(s, key) {
            let c = choose|c: int| 0 <= c < s.len() && s[c].0 == key;
            if found { assert(c != i); if c < i { assert(t[c].0 == key); } else { assert(t[c - 1].0 == key); } } else { assert(t[c].0 == key); }
        }
    }
    assert forall|key: u64| key != seq && has_key(t, key) implies #[trigger] value_at_key(t, key) == value_at_key(s, key) by {
        let c = choose|c: int| 0 <= c < t.len() && t[c].0 == key;
        lemma_key_at(t, c);
        if found { if c < i { lemma_key_at(s, c); } else { lemma_key_at(s, c + 1); } } else { lemma_key_at(s, c); }
    }
    assert(as_map(t) =~= as_map(s).remove(seq));
}

/// Applies one change to the held map: the message stored under its sequence
/// number, or the number removed.
pub fn apply(held: &mut Held, change: Change)
    requires
        old(held).wf(),
    ensures
        final(held).wf(),
        final(held).map() == match change.1 {
            Some(json) => old(held).map().insert(change.0, json),
            None => old(held).map().remove(change.0),
        },
{
    let (seq, json) = change;
    let (i, found) = position(held, seq);
    let ghost s = held.entries@;
    match json {
        Some(json) => {
            if found {
                held.entries.set(i, (seq, json));
            } else {
                held.entries.insert(i, (seq, json));
            }
            proof {
                lemma_stored(s, held.entries@, seq, json, i as int, found);
            }
        },
        None => {
            if found {
                held.entries.remove(i);
            }
            proof {
                lemma_removed(s, held.entries@, seq, i as int, found);
            }
        },
    }
}

} // verus!
