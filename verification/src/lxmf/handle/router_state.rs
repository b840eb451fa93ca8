//! What the router reports about itself once per tick, for the reading end
//! of the handle to learn of it without reaching in.

use vstd::prelude::*;

verus! {

/// The ids of the messages queued for delivery, and the selected propagation
/// node. Written whole on every tick, so it follows the router rather than
/// latching its first value.
pub struct RouterState {
    outbound: Vec<[u8; 32]>,
    propagation_node: Option<[u8; 16]>,
}

impl RouterState {
    pub closed spec fn outbound_ids(&self) -> Seq<[u8; 32]> {
        self.outbound@
    }

    pub closed spec fn node(&self) -> Option<[u8; 16]> {
        self.propagation_node
    }

    pub fn new() -> (res: RouterState)
        ensures
            res.outbound_ids().len() == 0,
            res.node() is None,
    {
        RouterState { outbound: Vec::new(), propagation_node: None }
    }

    /// Derived from the id list rather than counted alongside it: a snapshot
    /// carrying both cannot then report a depth its own ids contradict.
    pub fn outbound_depth(&self) -> (res: usize)
        ensures
            res == self.outbound_ids().len(),
    {
        self.queued().len()
    }

    pub fn queued_ids(&self) -> (res: Vec<[u8; 32]>)
        ensures
            res@ == self.outbound_ids(),
    {
        let queued = self.queued();
        let mut out: Vec<[u8; 32]> = Vec::new();
        let mut i: usize = 0;
        while i < queued.len()
            invariant
                queued@ == self.outbound_ids(),
                0 <= i <= queued@.len(),
                out@ == queued@.take(i as int),
            decreases queued@.len() - i,
        {
            out.push(queued[i]);
            i += 1;
            proof {
                assert(out@ =~= queued@.take(i as int));
            }
        }
        proof {
            assert(queued@.take(queued@.len() as int) =~= queued@);
        }
        out
    }

    pub fn propagation_node(&self) -> (res: Option<[u8; 16]>)
        ensures
            res == self.node(),
    {
        self.propagation_node
    }

    /// Restamped from the router every tick, which is what makes this a
    /// following value rather than one latched at the first read.
    pub fn publish(&mut self, outbound: Vec<[u8; 32]>, propagation_node: Option<[u8; 16]>)
        ensures
            final(self).outbound_ids() == outbound@,
            final(self).node() == propagation_node,
    {
        self.outbound = outbound;
        self.propagation_node = propagation_node;
    }

    pub fn queued(&self) -> (res: &Vec<[u8; 32]>)
        ensures
            res@ == self.outbound_ids(),
    {
        &self.outbound
    }
}

} // verus!
