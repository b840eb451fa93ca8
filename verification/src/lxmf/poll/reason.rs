//! Why the router would not take a message, translated into what the caller
//! should do about it.

use vstd::prelude::*;

verus! {

/// Why the router refused a request. The variants the router reports with a
/// payload are carried here without it: what the caller is told depends on the
/// variant alone.
#[derive(Clone, Copy, Debug, PartialEq, Eq, Structural)]
pub enum RouterError {
    QueueFull,
    Duplicate,
    NotFound,
    IdentityMismatch,
    UnsupportedMethod,
    PropagationNodeUnavailable,
    PropagationStampUnavailable,
    StaleStampRequest,
    StaleBuild,
    NoWallClock,
    Node,
    Message,
    Propagation,
    PropagationTransport,
    Paper,
    Stamp,
    Storage,
    CorruptSnapshot,
}

/// What the caller should do next. A token rather than a boolean: a boolean
/// cannot tell "send it again" from "send it another way".
#[derive(Clone, Copy, Debug, PartialEq, Eq, Structural)]
pub enum Retry {
    /// Send the same request again later — nothing about it was wrong.
    Resubmit,
    /// Re-queue the held message under another delivery method.
    Requeue,
    /// The request itself is malformed; repeating it verbatim cannot succeed.
    Never,
}

pub open spec fn retry_token(retry: Retry) -> Seq<char> {
    match retry {
        Retry::Resubmit => "resubmit"@,
        Retry::Requeue => "requeue"@,
        Retry::Never => "never"@,
    }
}

impl Retry {
    pub fn token(self) -> (res: &'static str)
        ensures
            res@ == retry_token(self),
    {
        match self {
            Retry::Resubmit => "resubmit",
            Retry::Requeue => "requeue",
            Retry::Never => "never",
        }
    }
}

/// A refusal as the caller reads it. One value rather than two arguments, so
/// the reason and the action cannot be separated or handed over in the wrong
/// order on the way to the caller.
#[derive(Clone, Copy, Debug)]
pub struct Refusal {
    pub reason: &'static str,
    pub retry: Retry,
}

pub fn refuse(reason: &'static str, retry: Retry) -> (res: Refusal)
    ensures
        res.reason == reason,
        res.retry == retry,
{
    Refusal { reason, retry }
}

/// The router's own give-up, which has no `RouterError` to translate.
pub fn attempts_exhausted() -> (res: Refusal)
    ensures
        res.reason == "attempts_exhausted",
        res.retry == Retry::Resubmit,
{
    refuse("attempts_exhausted", Retry::Resubmit)
}

/// The reason token the caller is given for each refusal.
pub open spec fn reason_str(error: RouterError) -> &'static str {
    match error {
        RouterError::UnsupportedMethod => "unsupported_method",
        RouterError::IdentityMismatch => "identity_mismatch",
        RouterError::NotFound => "not_found",
        RouterError::NoWallClock => "no_wall_clock",
        RouterError::Message => "malformed_message",
        RouterError::Duplicate => "duplicate",
        RouterError::PropagationNodeUnavailable => "propagation_node_unavailable",
        RouterError::PropagationStampUnavailable => "propagation_stamp_unavailable",
        RouterError::Propagation => "propagation_failed",
        RouterError::PropagationTransport => "propagation_transport",
        RouterError::QueueFull => "queue_full",
        RouterError::StaleStampRequest => "stale_stamp_request",
        RouterError::StaleBuild => "stale_build",
        RouterError::Node => "lxmf_node",
        RouterError::Paper => "paper_format",
        RouterError::Stamp => "stamp_failed",
        RouterError::Storage => "storage_failed",
        RouterError::CorruptSnapshot => "corrupt_snapshot",
    }
}

pub open spec fn reason_of(error: RouterError) -> Seq<char> {
    reason_str(error)@
}

/// The refusal a router error is reported as.
pub open spec fn refusal_of(error: RouterError) -> Refusal {
    Refusal { reason: reason_str(error), retry: retry_of(error) }
}

/// `Never` only where the request itself is what is wrong; `Requeue` where the
/// obstacle is the propagation path (or the router already holds the message);
/// `Resubmit` everywhere else.
pub open spec fn retry_of(error: RouterError) -> Retry {
    match error {
        RouterError::UnsupportedMethod | RouterError::IdentityMismatch | RouterError::NotFound
        | RouterError::NoWallClock | RouterError::Message => Retry::Never,
        RouterError::Duplicate | RouterError::PropagationNodeUnavailable
        | RouterError::PropagationStampUnavailable | RouterError::Propagation
        | RouterError::PropagationTransport => Retry::Requeue,
        _ => Retry::Resubmit,
    }
}

/// `Never` only where the request itself is what is wrong, since repeating an
/// identical call cannot change that.
///
/// `Requeue` where the router is still carrying the message and the obstacle
/// is the propagation path specifically, so another delivery method is the
/// remedy rather than waiting. Everything else is `Resubmit`, on the judgment
/// that telling a caller to give up on something that could still succeed is
/// the worse mistake.
pub fn refusal(error: &RouterError) -> (res: Refusal)
    ensures
        res == refusal_of(*error),
{
    match error {
        RouterError::UnsupportedMethod => refuse("unsupported_method", Retry::Never),
        RouterError::IdentityMismatch => refuse("identity_mismatch", Retry::Never),
        RouterError::NotFound => refuse("not_found", Retry::Never),
        RouterError::NoWallClock => refuse("no_wall_clock", Retry::Never),
        RouterError::Message => refuse("malformed_message", Retry::Never),
        RouterError::Duplicate => refuse("duplicate", Retry::Requeue),
        RouterError::PropagationNodeUnavailable => {
            refuse("propagation_node_unavailable", Retry::Requeue)
        },
        RouterError::PropagationStampUnavailable => {
            refuse("propagation_stamp_unavailable", Retry::Requeue)
        },
        RouterError::Propagation => refuse("propagation_failed", Retry::Requeue),
        RouterError::PropagationTransport => refuse("propagation_transport", Retry::Requeue),
        RouterError::QueueFull => refuse("queue_full", Retry::Resubmit),
        RouterError::StaleStampRequest => refuse("stale_stamp_request", Retry::Resubmit),
        RouterError::StaleBuild => refuse("stale_build", Retry::Resubmit),
        RouterError::Node => refuse("lxmf_node", Retry::Resubmit),
        RouterError::Paper => refuse("paper_format", Retry::Resubmit),
        RouterError::Stamp => refuse("stamp_failed", Retry::Resubmit),
        RouterError::Storage => refuse("storage_failed", Retry::Resubmit),
        RouterError::CorruptSnapshot => refuse("corrupt_snapshot", Retry::Resubmit),
    }
}

/// Which refusal a reason token names, told apart by its length and first
/// character.
spec fn refusal_named(reason: Seq<char>) -> Option<RouterError> {
    let n = reason.len();
    let c = if n > 0 { reason[0] } else { ' ' };
    if n == 18 && c == 'u' { Some(RouterError::UnsupportedMethod) }
    else if n == 17 && c == 'i' { Some(RouterError::IdentityMismatch) }
    else if n == 9 && c == 'n' { Some(RouterError::NotFound) }
    else if n == 13 { Some(RouterError::NoWallClock) }
    else if n == 17 && c == 'm' { Some(RouterError::Message) }
    else if n == 9 && c == 'd' { Some(RouterError::Duplicate) }
    else if n == 28 { Some(RouterError::PropagationNodeUnavailable) }
    else if n == 29 { Some(RouterError::PropagationStampUnavailable) }
    else if n == 18 && c == 'p' { Some(RouterError::Propagation) }
    else if n == 21 { Some(RouterError::PropagationTransport) }
    else if n == 10 { Some(RouterError::QueueFull) }
    else if n == 19 { Some(RouterError::StaleStampRequest) }
    else if n == 11 { Some(RouterError::StaleBuild) }
    else if n == 9 && c == 'l' { Some(RouterError::Node) }
    else if n == 12 && c == 'p' { Some(RouterError::Paper) }
    else if n == 12 && c == 's' { Some(RouterError::Stamp) }
    else if n == 14 { Some(RouterError::Storage) }
    else if n == 16 { Some(RouterError::CorruptSnapshot) }
    else { None }
}

proof fn reason_names_its_refusal(error: RouterError)
    ensures
        refusal_named(reason_of(error)) == Some(error),
{
    match error {
        RouterError::UnsupportedMethod => reveal_strlit("unsupported_method"),
        RouterError::IdentityMismatch => reveal_strlit("identity_mismatch"),
        RouterError::NotFound => reveal_strlit("not_found"),
        RouterError::NoWallClock => reveal_strlit("no_wall_clock"),
        RouterError::Message => reveal_strlit("malformed_message"),
        RouterError::Duplicate => reveal_strlit("duplicate"),
        RouterError::PropagationNodeUnavailable => reveal_strlit("propagation_node_unavailable"),
        RouterError::PropagationStampUnavailable => reveal_strlit("propagation_stamp_unavailable"),
        RouterError::Propagation => reveal_strlit("propagation_failed"),
        RouterError::PropagationTransport => reveal_strlit("propagation_transport"),
        RouterError::QueueFull => reveal_strlit("queue_full"),
        RouterError::StaleStampRequest => reveal_strlit("stale_stamp_request"),
        RouterError::StaleBuild => reveal_strlit("stale_build"),
        RouterError::Node => reveal_strlit("lxmf_node"),
        RouterError::Paper => reveal_strlit("paper_format"),
        RouterError::Stamp => reveal_strlit("stamp_failed"),
        RouterError::Storage => reveal_strlit("storage_failed"),
        RouterError::CorruptSnapshot => reveal_strlit("corrupt_snapshot"),
    }
}

/// No two refusals share a reason: the caller can tell every one of them apart
/// by its token alone.
pub proof fn every_refusal_has_its_own_reason(a: RouterError, b: RouterError)
    requires
        a != b,
    ensures
        reason_of(a) != reason_of(b),
{
    reason_names_its_refusal(a);
    reason_names_its_refusal(b);
}

/// The obstacle is the propagation path, or the router holds the message
/// already: another delivery method is the remedy.
pub open spec fn on_the_propagation_path(error: RouterError) -> bool {
    ||| error == RouterError::Duplicate
    ||| error == RouterError::PropagationNodeUnavailable
    ||| error == RouterError::PropagationStampUnavailable
    ||| error == RouterError::Propagation
    ||| error == RouterError::PropagationTransport
}

/// The request itself is what is wrong: repeating it cannot help.
pub open spec fn request_is_wrong(error: RouterError) -> bool {
    ||| error == RouterError::UnsupportedMethod
    ||| error == RouterError::IdentityMismatch
    ||| error == RouterError::NotFound
    ||| error == RouterError::NoWallClock
    ||| error == RouterError::Message
}

/// The reasons a caller acts on by re-queueing.
pub open spec fn a_requeue_reason(reason: Seq<char>) -> bool {
    ||| reason == "duplicate"@
    ||| reason == "propagation_node_unavailable"@
    ||| reason == "propagation_stamp_unavailable"@
    ||| reason == "propagation_failed"@
    ||| reason == "propagation_transport"@
}

/// The reasons a caller acts on by giving up.
pub open spec fn a_never_reason(reason: Seq<char>) -> bool {
    ||| reason == "unsupported_method"@
    ||| reason == "identity_mismatch"@
    ||| reason == "not_found"@
    ||| reason == "no_wall_clock"@
    ||| reason == "malformed_message"@
}

/// What the caller is told to do follows the obstacle: `Requeue` exactly for
/// a propagation-path refusal, `Never` exactly for a request that is wrong in
/// itself, `Resubmit` for everything else. And the reason alone tells which:
/// the requeue reasons and the give-up reasons are fixed tokens.
pub proof fn the_retry_follows_the_obstacle(error: RouterError)
    ensures
        retry_of(error) == Retry::Requeue <==> on_the_propagation_path(error),
        retry_of(error) == Retry::Never <==> request_is_wrong(error),
        retry_of(error) == Retry::Resubmit <==> !on_the_propagation_path(error) && !request_is_wrong(error),
        retry_of(error) == Retry::Requeue <==> a_requeue_reason(reason_of(error)),
        retry_of(error) == Retry::Never <==> a_never_reason(reason_of(error)),
{
    reason_names_its_refusal(error);
    reason_names_its_refusal(RouterError::Duplicate);
    reason_names_its_refusal(RouterError::PropagationNodeUnavailable);
    reason_names_its_refusal(RouterError::PropagationStampUnavailable);
    reason_names_its_refusal(RouterError::Propagation);
    reason_names_its_refusal(RouterError::PropagationTransport);
    reason_names_its_refusal(RouterError::UnsupportedMethod);
    reason_names_its_refusal(RouterError::IdentityMismatch);
    reason_names_its_refusal(RouterError::NotFound);
    reason_names_its_refusal(RouterError::NoWallClock);
    reason_names_its_refusal(RouterError::Message);
}

} // verus!
