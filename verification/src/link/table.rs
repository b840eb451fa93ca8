//! A small map keyed by 16-byte ids: link ids, destination hashes.

use vstd::prelude::*;

use crate::bytes::same_bytes;

verus! {

pub struct Table<S> {
    entries: Vec<([u8; 16], S)>,
}

pub open spec fn distinct_keys<S>(s: Seq<([u8; 16], S)>) -> bool {
    forall|i: int, j: int| 0 <= i < j < s.len() ==> s[i].0 != s[j].0
}

pub open spec fn key_index<S>(s: Seq<([u8; 16], S)>, key: [u8; 16]) -> int {
    choose|i: int| 0 <= i < s.len() && s[i].0 == key
}

pub open spec fn seq_map<S>(s: Seq<([u8; 16], S)>) -> Map<[u8; 16], S> {
    Map::new(
        |key: [u8; 16]| exists|i: int| 0 <= i < s.len() && s[i].0 == key,
        |key: [u8; 16]| s[key_index(s, key)].1,
    )
}

proof fn lemma_key_index<S>(s: Seq<([u8; 16], S)>, i: int)
    requires
        distinct_keys(s),
        0 <= i < s.len(),
    ensures
        seq_map(s).contains_key(s[i].0),
        key_index(s, s[i].0) == i,
        seq_map(s)[s[i].0] == s[i].1,
{
    let k = s[i].0;
    assert(exists|j: int| 0 <= j < s.len() && s[j].0 == k);
    let c = key_index(s, k);
    if c != i {
        if c < i {
            assert(s[c].0 != s[i].0);
        } else {
            assert(s[i].0 != s[c].0);
        }
    }
}

proof fn lemma_map_len<S>(s: Seq<([u8; 16], S)>)
    requires
        distinct_keys(s),
    ensures
        seq_map(s).dom().finite(),
        seq_map(s).dom().len() == s.len(),
    decreases s.len(),
{
    if s.len() == 0 {
        assert(seq_map(s).dom() =~= Set::<[u8; 16]>::empty());
    } else {
        let t = s.drop_last();
        lemma_map_len(t);
        let k = s.last().0;
        assert forall|key: [u8; 16]| #[trigger] seq_map(s).dom().contains(key) == seq_map(t).dom().insert(k).contains(key) by {
            if seq_map(s).dom().contains(key) && key != k {
                let i = choose|i: int| 0 <= i < s.len() && s[i].0 == key;
                assert(t[i].0 == key);
            }
            if seq_map(t).dom().contains(key) {
                let i = choose|i: int| 0 <= i < t.len() && t[i].0 == key;
                assert(s[i].0 == key);
            }
            if key == k {
                assert(s[s.len() - 1].0 == k);
            }
        }
        assert(seq_map(s).dom() =~= seq_map(t).dom().insert(k));
        if seq_map(t).dom().contains(k) {
            let i = choose|i: int| 0 <= i < t.len() && t[i].0 == k;
            assert(s[i].0 == s[s.len() - 1].0);
        }
    }
}

impl<S> Table<S> {
    pub closed spec fn view(&self) -> Map<[u8; 16], S> {
        seq_map(self.entries@)
    }

    #[verifier::type_invariant]
    closed spec fn wf(&self) -> bool {
        distinct_keys(self.entries@)
    }

    pub fn new() -> (res: Table<S>)
        ensures
            res.view() == Map::<[u8; 16], S>::empty(),
    {
        let res = Table { entries: Vec::new() };
        assert(res.view() =~= Map::<[u8; 16], S>::empty());
        res
    }

    fn find(&self, key: &[u8; 16]) -> (res: Option<usize>)
        ensures
            match res {
                Some(i) => i < self.entries@.len() && self.entries@[i as int].0 == *key,
                None => forall|i: int| 0 <= i < self.entries@.len() ==> self.entries@[i].0 != *key,
            },
    {
        let mut i: usize = 0;
        while i < self.entries.len()
            invariant
                0 <= i <= self.entries@.len(),
                forall|j: int| 0 <= j < i ==> self.entries@[j].0 != *key,
            decreases self.entries@.len() - i,
        {
            if same_bytes(&self.entries[i].0, key) {
                return Some(i);
            }
            i += 1;
        }
        None
    }

    pub fn insert(&mut self, key: [u8; 16], value: S)
        ensures
            final(self).view() == old(self).view().insert(key, value),
    {
        proof {
            use_type_invariant(&*self);
        }
        let ghost s = self.entries@;
        let found = self.find(&key);
        let mut entries: Vec<([u8; 16], S)> = Vec::new();
        std::mem::swap(&mut entries, &mut self.entries);
        match found {
            Some(i) => {
                entries.set(i, (key, value));
                proof {
                    let t = entries@;
                    assert(distinct_keys(t)) by {
                        assert forall|a: int, b: int| 0 <= a < b < t.len() implies t[a].0 != t[b].0 by {
                            assert(s[a].0 != s[b].0);
                        }
                    }
                    lemma_key_index(t, i as int);
                    assert forall|k: [u8; 16]| k != key implies (#[trigger] seq_map(t).contains_key(k) == seq_map(s).contains_key(k)) by {
                        if seq_map(t).contains_key(k) {
                            let j = choose|j: int| 0 <= j < t.len() && t[j].0 == k;
                            assert(s[j].0 == k);
                        }
                        if seq_map(s).contains_key(k) {
                            let j = choose|j: int| 0 <= j < s.len() && s[j].0 == k;
                            assert(t[j].0 == k);
                        }
                    }
                    assert forall|k: [u8; 16]| k != key && seq_map(t).contains_key(k) implies #[trigger] seq_map(t)[k] == seq_map(s)[k] by {
                        let j = choose|j: int| 0 <= j < t.len() && t[j].0 == k;
                        lemma_key_index(t, j);
                        lemma_key_index(s, j);
                    }
                    assert(seq_map(t) =~= seq_map(s).insert(key, value));
                }
            },
            None => {
                entries.push((key, value));
                proof {
                    let t = entries@;
                    let n = s.len() as int;
                    assert(distinct_keys(t)) by {
                        assert forall|a: int, b: int| 0 <= a < b < t.len() implies t[a].0 != t[b].0 by {
                            if b < n {
                                assert(s[a].0 != s[b].0);
                            } else {
                                assert(s[a].0 != key);
                            }
                        }
                    }
                    lemma_key_index(t, n);
                    assert forall|k: [u8; 16]| k != key implies (#[trigger] seq_map(t).contains_key(k) == seq_map(s).contains_key(k)) by {
                        if seq_map(t).contains_key(k) {
                            let j = choose|j: int| 0 <= j < t.len() && t[j].0 == k;
                            assert(s[j].0 == k);
                        }
                        if seq_map(s).contains_key(k) {
                            let j = choose|j: int| 0 <= j < s.len() && s[j].0 == k;
                            assert(t[j].0 == k);
                        }
                    }
                    assert forall|k: [u8; 16]| k != key && seq_map(t).contains_key(k) implies #[trigger] seq_map(t)[k] == seq_map(s)[k] by {
                        let j = choose|j: int| 0 <= j < t.len() && t[j].0 == k;
                        lemma_key_index(t, j);
                        lemma_key_index(s, j);
                    }
                    assert(seq_map(t) =~= seq_map(s).insert(key, value));
                }
            },
        }
        self.entries = entries;
    }

    pub fn remove(&mut self, key: &[u8; 16])
        ensures
            final(self).view() == old(self).view().remove(*key),
    {
        proof {
            use_type_invariant(&*self);
        }
        let ghost s = self.entries@;
        match self.find(key) {
            Some(i) => {
                let mut entries: Vec<([u8; 16], S)> = Vec::new();
                std::mem::swap(&mut entries, &mut self.entries);
                entries.remove(i);
                proof {
                    let t = entries@;
                    assert(t =~= s.remove(i as int));
                    assert(distinct_keys(t)) by {
                        assert forall|a: int, b: int| 0 <= a < b < t.len() implies t[a].0 != t[b].0 by {
                            if a >= i {
                                assert(s[a + 1].0 != s[b + 1].0);
                            } else if b >= i {
                                assert(s[a].0 != s[b + 1].0);
                            } else {
                                assert(s[a].0 != s[b].0);
                            }
                        }
                    }
                    assert forall|k: [u8; 16]| #[trigger] seq_map(t).contains_key(k) == seq_map(s).remove(*key).contains_key(k) by {
                        if seq_map(t).contains_key(k) {
                            let j = choose|j: int| 0 <= j < t.len() && t[j].0 == k;
                            if j < i {
                                assert(s[j].0 == k);
                                assert(s[j].0 != s[i as int].0);
                            } else {
                                assert(s[j + 1].0 == k);
                                assert(s[i as int].0 != s[j + 1].0);
                            }
                        }
                        if seq_map(s).contains_key(k) && k != *key {
                            let j = choose|j: int| 0 <= j < s.len() && s[j].0 == k;
                            if j < i {
                                assert(t[j].0 == k);
                            } else {
                                assert(j != i);
                                assert(t[j - 1].0 == k);
                            }
                        }
                    }
                    assert forall|k: [u8; 16]| seq_map(t).contains_key(k) implies #[trigger] seq_map(t)[k] == seq_map(s)[k] by {
                        let j = choose|j: int| 0 <= j < t.len() && t[j].0 == k;
                        lemma_key_index(t, j);
                        if j < i {
                            lemma_key_index(s, j);
                        } else {
                            lemma_key_index(s, j + 1);
                        }
                    }
                    assert(seq_map(t) =~= seq_map(s).remove(*key));
                }
                self.entries = entries;
            },
            None => {
                proof {
                    assert(!seq_map(s).contains_key(*key));
                    assert(seq_map(s) =~= seq_map(s).remove(*key));
                }
            },
        }
    }

    pub fn get(&self, key: &[u8; 16]) -> (res: Option<&S>)
        ensures
            match res {
                Some(value) => self.view().contains_key(*key) && *value == self.view()[*key],
                None => !self.view().contains_key(*key),
            },
    {
        proof {
            use_type_invariant(self);
        }
        match self.find(key) {
            Some(i) => {
                proof {
                    lemma_key_index(self.entries@, i as int);
                }
                Some(&self.entries[i].1)
            },
            None => None,
        }
    }

    pub fn is_empty(&self) -> (res: bool)
        ensures
            res == (self.view().dom().len() == 0),
    {
        proof {
            use_type_invariant(self);
            lemma_map_len(self.entries@);
        }
        self.entries.len() == 0
    }
}

} // verus!
