//! A router event as what the caller is told of it.
//!
//! Every match here is exhaustive on purpose: these tokens are the caller's
//! contract, and a `_` arm would answer for a variant added later by silently
//! picking whichever label it happened to land on.

pub mod reason;
pub mod refusal;

use vstd::prelude::*;

use self::reason::{attempts_exhausted, Refusal};
use crate::lxmf::handle::Overflow;
use crate::text::{hex_encode, hex_lower};

verus! {

/// Where a queued message stands, as the router reports it.
#[derive(Clone, Copy, Debug, PartialEq, Eq, Structural)]
pub enum MessageState {
    Generating,
    Outbound,
    Sending,
    Sent,
    AwaitingCollection,
    Delivered,
    Rejected,
    Cancelled,
    Failed,
}

pub open spec fn state_token(state: MessageState) -> Seq<char> {
    match state {
        MessageState::Generating => "generating"@,
        MessageState::Outbound => "queued"@,
        MessageState::Sending => "sending"@,
        MessageState::Sent => "sent"@,
        MessageState::AwaitingCollection => "awaiting_collection"@,
        MessageState::Delivered => "delivered"@,
        MessageState::Rejected => "rejected"@,
        MessageState::Cancelled => "cancelled"@,
        MessageState::Failed => "failed"@,
    }
}

/// The caller's name for a state. `AwaitingCollection` is on a propagation
/// node, not with the recipient, so it is not `delivered`.
pub fn state_name(state: MessageState) -> (res: &'static str)
    ensures
        res@ == state_token(state),
{
    match state {
        MessageState::Generating => "generating",
        MessageState::Outbound => "queued",
        MessageState::Sending => "sending",
        MessageState::Sent => "sent",
        MessageState::AwaitingCollection => "awaiting_collection",
        MessageState::Delivered => "delivered",
        MessageState::Rejected => "rejected",
        MessageState::Cancelled => "cancelled",
        MessageState::Failed => "failed",
    }
}

/// Whether a received message's signature checked out.
#[derive(Clone, Copy, Debug, PartialEq, Eq, Structural)]
pub enum Verification {
    Valid,
    Unverified,
    Invalid,
}

pub open spec fn verification_token(verification: Verification) -> Seq<char> {
    match verification {
        Verification::Valid => "valid"@,
        Verification::Unverified => "unverified"@,
        Verification::Invalid => "invalid"@,
    }
}

pub fn verification_name(verification: Verification) -> (res: &'static str)
    ensures
        res@ == verification_token(verification),
{
    match verification {
        Verification::Valid => "valid",
        Verification::Unverified => "unverified",
        Verification::Invalid => "invalid",
    }
}

/// One entry of what the caller polls. A received message and an announce
/// carry a timestamp and are rendered by the caller of this library before
/// they are queued; everything else is rendered from these fields.
#[derive(Clone, Debug)]
pub enum Report {
    /// A plain delivery update: `{"type": "delivery", "message_id", "state"}`.
    Delivery { message_id: [u8; 32], state: MessageState },
    /// The `failed` delivery update, the one that carries a reason and a retry token.
    Failed { message_id: [u8; 32], refusal: Refusal },
    /// A re-queue the router did not carry out.
    RequeueRefused { message_id: [u8; 32], refusal: Refusal },
    /// How many entries of one queue were refused for want of room.
    Overflow { kind: Overflow, dropped: u64 },
    /// Already rendered: a received message or an announce.
    Rendered(String),
}

/// The `state` token of a report, where it has one.
pub open spec fn report_state(report: Report) -> Option<Seq<char>> {
    match report {
        Report::Delivery { state, .. } => Some(state_token(state)),
        Report::Failed { .. } => Some("failed"@),
        _ => None,
    }
}

/// The `reason` token of a report, where it has one.
pub open spec fn report_reason(report: Report) -> Option<Seq<char>> {
    match report {
        Report::Failed { refusal, .. } => Some(refusal.reason@),
        Report::RequeueRefused { refusal, .. } => Some(refusal.reason@),
        _ => None,
    }
}

/// The `retry` token of a report, where it has one.
pub open spec fn report_retry(report: Report) -> Option<Seq<char>> {
    match report {
        Report::Failed { refusal, .. } => Some(reason::retry_token(refusal.retry)),
        Report::RequeueRefused { refusal, .. } => Some(reason::retry_token(refusal.retry)),
        _ => None,
    }
}

/// The `type` token of a report; a rendered one carries its own.
pub open spec fn report_kind(report: Report) -> Option<Seq<char>> {
    match report {
        Report::Delivery { .. } | Report::Failed { .. } => Some("delivery"@),
        Report::RequeueRefused { .. } => Some("requeue_refused"@),
        Report::Overflow { .. } => Some("overflow"@),
        Report::Rendered(_) => None,
    }
}

impl Report {
    pub fn kind(&self) -> (res: Option<&'static str>)
        ensures
            match res {
                Some(token) => report_kind(*self) == Some(token@),
                None => report_kind(*self) is None,
            },
    {
        match self {
            Report::Delivery { .. } | Report::Failed { .. } => Some("delivery"),
            Report::RequeueRefused { .. } => Some("requeue_refused"),
            Report::Overflow { .. } => Some("overflow"),
            Report::Rendered(_) => None,
        }
    }

    pub fn state(&self) -> (res: Option<&'static str>)
        ensures
            match res {
                Some(token) => report_state(*self) == Some(token@),
                None => report_state(*self) is None,
            },
    {
        match self {
            Report::Delivery { state, .. } => Some(state_name(*state)),
            Report::Failed { .. } => Some("failed"),
            _ => None,
        }
    }

    pub fn reason(&self) -> (res: Option<&'static str>)
        ensures
            match res {
                Some(token) => report_reason(*self) == Some(token@),
                None => report_reason(*self) is None,
            },
    {
        match self {
            Report::Failed { refusal, .. } => Some(refusal.reason),
            Report::RequeueRefused { refusal, .. } => Some(refusal.reason),
            _ => None,
        }
    }

    pub fn retry(&self) -> (res: Option<&'static str>)
        ensures
            match res {
                Some(token) => report_retry(*self) == Some(token@),
                None => report_retry(*self) is None,
            },
    {
        match self {
            Report::Failed { refusal, .. } => Some(refusal.retry.token()),
            Report::RequeueRefused { refusal, .. } => Some(refusal.retry.token()),
            _ => None,
        }
    }

    pub fn message_id(&self) -> (res: Option<[u8; 32]>)
        ensures
            res == match *self {
                Report::Delivery { message_id, .. } => Some(message_id),
                Report::Failed { message_id, .. } => Some(message_id),
                Report::RequeueRefused { message_id, .. } => Some(message_id),
                _ => None,
            },
    {
        match self {
            Report::Delivery { message_id, .. } => Some(*message_id),
            Report::Failed { message_id, .. } => Some(*message_id),
            Report::RequeueRefused { message_id, .. } => Some(*message_id),
            _ => None,
        }
    }

    /// The message id as the caller reads it: lowercase hex.
    pub fn message_id_hex(&self) -> (res: Option<String>)
        ensures
            match self.message_id_spec() {
                Some(id) => res matches Some(text) && text@ == hex_lower(id@),
                None => res is None,
            },
    {
        match self.message_id() {
            Some(id) => Some(hex_encode(&id)),
            None => None,
        }
    }
}

/// What the router reports, carrying the fields the caller's view is made of.
/// The payload of a received message or an announce stays with the caller of
/// this library, who renders it.
#[derive(Clone, Copy, Debug)]
pub enum RouterEvent {
    MessageReceived,
    PeerAnnounced { destination: [u8; 16] },
    MessageState { message_id: [u8; 32], state: MessageState },
    Duplicate,
    InvalidSignature,
    InvalidStamp,
    InboundRejected,
    MessageQueued,
    DirectLinkEstablished,
    ResourceBuildPending,
    PropagationSyncState,
    PropagationSyncComplete,
    PersistenceRequested,
    StampPending,
    InboundStampPending,
    PropagationStampPending,
}

/// What a state event becomes for the caller: the router's own give-up as a
/// `failed` with `attempts_exhausted`, every other state as a plain update.
pub open spec fn state_report(message_id: [u8; 32], state: MessageState) -> Report {
    if state == MessageState::Failed {
        Report::Failed {
            message_id,
            refusal: Refusal { reason: "attempts_exhausted", retry: reason::Retry::Resubmit },
        }
    } else {
        Report::Delivery { message_id, state }
    }
}

/// The report a router event gives the caller, if it is one that is rendered
/// from fields alone. Received messages and announces are rendered with their
/// payload by the caller of this library; inbound duplicates, bad signatures,
/// unpaid stamps, router bookkeeping and stamp work never reach the caller.
pub fn event_report(event: &RouterEvent) -> (res: Option<Report>)
    ensures
        match *event {
            RouterEvent::MessageState { message_id, state } => res == Some(state_report(message_id, state)),
            _ => res is None,
        },
{
    match event {
        RouterEvent::MessageState { message_id, state } => {
            if *state == MessageState::Failed {
                Some(Report::Failed { message_id: *message_id, refusal: attempts_exhausted() })
            } else {
                Some(Report::Delivery { message_id: *message_id, state: *state })
            }
        },
        RouterEvent::MessageReceived | RouterEvent::PeerAnnounced { .. } => None,
        RouterEvent::Duplicate | RouterEvent::InvalidSignature | RouterEvent::InvalidStamp
        | RouterEvent::InboundRejected => None,
        RouterEvent::MessageQueued | RouterEvent::DirectLinkEstablished
        | RouterEvent::ResourceBuildPending | RouterEvent::PropagationSyncState
        | RouterEvent::PropagationSyncComplete | RouterEvent::PersistenceRequested => None,
        RouterEvent::StampPending | RouterEvent::InboundStampPending
        | RouterEvent::PropagationStampPending => None,
    }
}

impl Report {
    pub open spec fn message_id_spec(self) -> Option<[u8; 32]> {
        match self {
            Report::Delivery { message_id, .. } => Some(message_id),
            Report::Failed { message_id, .. } => Some(message_id),
            Report::RequeueRefused { message_id, .. } => Some(message_id),
            _ => None,
        }
    }
}

/// Only `failed` carries a reason and a retry token: a state event becomes a
/// report with a reason exactly when its state is `Failed`, and that reason is
/// the router's own give-up.
pub proof fn only_failed_carries_a_reason(message_id: [u8; 32], state: MessageState)
    ensures
        report_reason(state_report(message_id, state)) is Some <==> state == MessageState::Failed,
        report_retry(state_report(message_id, state)) is Some <==> state == MessageState::Failed,
        state == MessageState::Failed ==> report_reason(state_report(message_id, state)) == Some(
            "attempts_exhausted"@,
        ) && report_retry(state_report(message_id, state)) == Some("resubmit"@),
{
}

/// Which state a token names, told apart by its length and first character.
spec fn state_named(token: Seq<char>) -> Option<MessageState> {
    let n = token.len();
    let c = if n > 0 { token[0] } else { ' ' };
    if n == 10 { Some(MessageState::Generating) }
    else if n == 6 && c == 'q' { Some(MessageState::Outbound) }
    else if n == 7 { Some(MessageState::Sending) }
    else if n == 4 { Some(MessageState::Sent) }
    else if n == 19 { Some(MessageState::AwaitingCollection) }
    else if n == 9 && c == 'd' { Some(MessageState::Delivered) }
    else if n == 8 { Some(MessageState::Rejected) }
    else if n == 9 && c == 'c' { Some(MessageState::Cancelled) }
    else if n == 6 && c == 'f' { Some(MessageState::Failed) }
    else { None }
}

proof fn token_names_its_state(state: MessageState)
    ensures
        state_named(state_token(state)) == Some(state),
{
    match state {
        MessageState::Generating => reveal_strlit("generating"),
        MessageState::Outbound => reveal_strlit("queued"),
        MessageState::Sending => reveal_strlit("sending"),
        MessageState::Sent => reveal_strlit("sent"),
        MessageState::AwaitingCollection => reveal_strlit("awaiting_collection"),
        MessageState::Delivered => reveal_strlit("delivered"),
        MessageState::Rejected => reveal_strlit("rejected"),
        MessageState::Cancelled => reveal_strlit("cancelled"),
        MessageState::Failed => reveal_strlit("failed"),
    }
}

/// Every message state has a token of its own: a caller never reads one state
/// for another, and only a delivered message reads `delivered`, so a message
/// waiting on a propagation node is never told as having arrived.
pub proof fn every_state_has_its_own_token(a: MessageState, b: MessageState)
    ensures
        a != b ==> state_token(a) != state_token(b),
        state_token(a) == "delivered"@ <==> a == MessageState::Delivered,
        state_token(a) == "failed"@ <==> a == MessageState::Failed,
{
    token_names_its_state(a);
    token_names_its_state(b);
    token_names_its_state(MessageState::Delivered);
    token_names_its_state(MessageState::Failed);
    reveal_strlit("delivered");
    reveal_strlit("failed");
}

/// A state update from the router reaches the caller as a delivery update for
/// the same message carrying the state the router reported, told by its own
/// token; the router's give-up is a `failed` one.
pub proof fn a_state_update_keeps_its_state(message_id: [u8; 32], state: MessageState)
    ensures
        report_kind(state_report(message_id, state)) == Some("delivery"@),
        state_report(message_id, state).message_id_spec() == Some(message_id),
        report_state(state_report(message_id, state)) == Some(state_token(state)),
        forall|other: MessageState| other != state ==> report_state(state_report(message_id, state)) != Some(
            #[trigger] state_token(other),
        ),
{
    assert forall|other: MessageState| other != state implies report_state(state_report(message_id, state)) != Some(
        #[trigger] state_token(other),
    ) by {
        every_state_has_its_own_token(state, other);
    }
}

/// Whether a received message's signature checked out is told by three
/// distinct tokens, and only a valid signature reads `valid`.
pub proof fn only_a_valid_signature_reads_valid(a: Verification, b: Verification)
    ensures
        a != b ==> verification_token(a) != verification_token(b),
        verification_token(a) == "valid"@ <==> a == Verification::Valid,
{
    reveal_strlit("valid");
    reveal_strlit("unverified");
    reveal_strlit("invalid");
    assert("valid"@.len() == 5 && "unverified"@.len() == 10 && "invalid"@.len() == 7);
}

} // verus!
