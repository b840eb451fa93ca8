//! Demultiplexes link events onto per-session channels keyed by link id.
//! Responder-side links this node did not open are surfaced so the listen
//! side can accept and service them.

pub mod dial;
pub mod inbox;
pub mod route;
pub mod table;

use vstd::prelude::*;

use self::table::Table;

verus! {

/// A message routed to one link session, in arrival order.
#[derive(Debug, Clone, PartialEq, Eq)]
pub enum LinkMsg {
    Established,
    Data(Vec<u8>),
    Closed,
}

/// Routing table: one inbound channel per attached link, of whatever kind
/// `S` the caller sends on.
pub struct LinkRouter<S> {
    sessions: Table<S>,
}

impl<S> LinkRouter<S> {
    pub closed spec fn view(&self) -> Map<[u8; 16], S> {
        self.sessions.view()
    }

    pub fn new() -> (res: LinkRouter<S>)
        ensures
            res.view() == Map::<[u8; 16], S>::empty(),
    {
        LinkRouter { sessions: Table::new() }
    }

    /// Attach a session for a link. Call before awaiting establishment so the
    /// `Established` event is not missed. A second attach replaces the first.
    pub fn attach(&mut self, link_id: [u8; 16], session: S)
        ensures
            final(self).view() == old(self).view().insert(link_id, session),
    {
        self.sessions.insert(link_id, session);
    }

    pub fn detach(&mut self, link_id: &[u8; 16])
        ensures
            final(self).view() == old(self).view().remove(*link_id),
    {
        self.sessions.remove(link_id);
    }

    /// Where a message for `link_id` is delivered; `None` if no session is attached.
    pub fn deliver(&self, link_id: &[u8; 16]) -> (res: Option<&S>)
        ensures
            match res {
                Some(session) => self.view().contains_key(*link_id) && *session == self.view()[*link_id],
                None => !self.view().contains_key(*link_id),
            },
    {
        self.sessions.get(link_id)
    }

    pub fn is_empty(&self) -> (res: bool)
        ensures
            res == (self.view().dom().len() == 0),
    {
        self.sessions.is_empty()
    }
}

} // verus!
