//! Which propagation stamps are on the stamp thread. The router asks again on
//! every pass while one is being ground, and a second grind of the same stamp
//! is wasted work, so a message is handed over once until its answer is back.

use vstd::prelude::*;

use crate::bytes::same_bytes;

verus! {

/// The messages whose propagation stamp is being ground, each once.
pub struct Jobs {
    grinding: Vec<[u8; 32]>,
}

impl Jobs {
    pub closed spec fn wf(&self) -> bool {
        self.grinding@.no_duplicates()
    }

    /// The messages on the stamp thread.
    pub closed spec fn on_the_thread(&self) -> Set<[u8; 32]> {
        self.grinding@.to_set()
    }

    pub fn new() -> (res: Jobs)
        ensures
            res.wf(),
            res.on_the_thread() == Set::<[u8; 32]>::empty(),
    {
        let res = Jobs { grinding: Vec::new() };
        assert(res.on_the_thread() =~= Set::<[u8; 32]>::empty());
        res
    }

    fn position(&self, message_id: &[u8; 32]) -> (res: Option<usize>)
        ensures
            match res {
                Some(i) => i < self.grinding@.len() && self.grinding@[i as int] == *message_id,
                None => !self.grinding@.contains(*message_id),
            },
    {
        let mut i: usize = 0;
        while i < self.grinding.len()
            invariant
                0 <= i <= self.grinding@.len(),
                forall|j: int| 0 <= j < i ==> self.grinding@[j] != *message_id,
            decreases self.grinding@.len() - i,
        {
            if same_bytes(&self.grinding[i], message_id) {
                return Some(i);
            }
            i += 1;
        }
        None
    }

    /// Whether the propagation stamp the router asks for `message_id` goes to
    /// the stamp thread: not while one for it is being ground already.
    pub fn propagation(&mut self, message_id: &[u8; 32]) -> (res: bool)
        requires
            old(self).wf(),
        ensures
            final(self).wf(),
            res == !old(self).on_the_thread().contains(*message_id),
            final(self).on_the_thread() == old(self).on_the_thread().insert(*message_id),
    {
        match self.position(message_id) {
            Some(_) => {
                assert(self.on_the_thread().contains(*message_id));
                assert(self.on_the_thread() =~= old(self).on_the_thread().insert(*message_id));
                false
            },
            None => {
                let ghost before = self.grinding@;
                self.grinding.push(*message_id);
                proof {
                    assert(!before.to_set().contains(*message_id));
                    assert forall|a: int, b: int| 0 <= a < b < self.grinding@.len()
                        implies self.grinding@[a] != self.grinding@[b] by {
                        if b == before.len() {
                            assert(before.contains(before[a]));
                        }
                    }
                    assert(self.grinding@.to_set() =~= before.to_set().insert(*message_id)) by {
                        assert forall|x: [u8; 32]| self.grinding@.contains(x) <==> (before.contains(x) || x == *message_id) by {
                            if self.grinding@.contains(x) {
                                let k = choose|k: int| 0 <= k < self.grinding@.len() && self.grinding@[k] == x;
                                if k < before.len() {
                                    assert(before[k] == x);
                                }
                            }
                            if before.contains(x) {
                                let k = choose|k: int| 0 <= k < before.len() && before[k] == x;
                                assert(self.grinding@[k] == x);
                            }
                            if x == *message_id {
                                assert(self.grinding@[before.len() as int] == x);
                            }
                        }
                    }
                }
                true
            },
        }
    }

    /// The answer for `message_id` is back, whatever it was: the message is
    /// off the thread, and grindable again.
    pub fn finished(&mut self, message_id: &[u8; 32])
        requires
            old(self).wf(),
        ensures
            final(self).wf(),
            final(self).on_the_thread() == old(self).on_the_thread().remove(*message_id),
    {
        match self.position(message_id) {
            Some(i) => {
                let ghost before = self.grinding@;
                self.grinding.remove(i);
                proof {
                    assert(self.grinding@ =~= before.remove(i as int));
                    assert forall|a: int, b: int| 0 <= a < b < self.grinding@.len()
                        implies self.grinding@[a] != self.grinding@[b] by {
                        if a >= i {
                            assert(self.grinding@[a] == before[a + 1] && self.grinding@[b] == before[b + 1]);
                        } else if b >= i {
                            assert(self.grinding@[a] == before[a] && self.grinding@[b] == before[b + 1]);
                        }
                    }
                    assert forall|x: [u8; 32]| self.grinding@.contains(x) <==> (before.contains(x) && x != *message_id) by {
                        if self.grinding@.contains(x) {
                            let k = choose|k: int| 0 <= k < self.grinding@.len() && self.grinding@[k] == x;
                            if k < i {
                                assert(before[k] == x);
                                assert(k != i);
                            } else {
                                assert(before[k + 1] == x);
                            }
                        }
                        if before.contains(x) && x != *message_id {
                            let k = choose|k: int| 0 <= k < before.len() && before[k] == x;
                            assert(k != i);
                            if k < i {
                                assert(self.grinding@[k] == x);
                            } else {
                                assert(self.grinding@[k - 1] == x);
                            }
                        }
                    }
                    assert(self.grinding@.to_set() =~= before.to_set().remove(*message_id));
                }
            },
            None => {
                assert(self.on_the_thread() =~= old(self).on_the_thread().remove(*message_id));
            },
        }
    }
}

} // verus!
