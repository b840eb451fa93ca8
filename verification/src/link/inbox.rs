//! Responder-side links, sorted by the local destination they targeted.

use vstd::prelude::*;

use super::table::Table;

verus! {

/// Who claimed which destination, by the channel `S` each listens on.
pub struct Inbox<S> {
    claimed: Table<S>,
}

impl<S> Inbox<S> {
    pub closed spec fn view(&self) -> Map<[u8; 16], S> {
        self.claimed.view()
    }

    pub fn new() -> (res: Inbox<S>)
        ensures
            res.view() == Map::<[u8; 16], S>::empty(),
    {
        Inbox { claimed: Table::new() }
    }

    /// Links to `destination` go to `listener` from now on, in place of
    /// whoever claimed it before.
    pub fn claim(&mut self, destination: [u8; 16], listener: S)
        ensures
            final(self).view() == old(self).view().insert(destination, listener),
    {
        self.claimed.insert(destination, listener);
    }

    /// Where a link to `destination` goes: its claimant, or `None` for the
    /// unclaimed queue.
    pub fn sort(&self, destination: &[u8; 16]) -> (res: Option<&S>)
        ensures
            match res {
                Some(listener) => self.view().contains_key(*destination) && *listener == self.view()[*destination],
                None => !self.view().contains_key(*destination),
            },
    {
        self.claimed.get(destination)
    }
}

} // verus!
