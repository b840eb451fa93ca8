//! Results that are let go on purpose, each trait naming why, so a reader can
//! tell a deliberate drop from a forgotten one.

use vstd::prelude::*;

verus! {

#[verifier::external_type_specification]
#[verifier::external_body]
#[verifier::reject_recursive_types(T)]
pub struct ExTokioSendError<T>(tokio::sync::mpsc::error::SendError<T>);

#[verifier::external_type_specification]
#[verifier::external_body]
#[verifier::reject_recursive_types(T)]
pub struct ExTokioTrySendError<T>(tokio::sync::mpsc::error::TrySendError<T>);

#[verifier::external_type_specification]
#[verifier::external_body]
#[verifier::reject_recursive_types(T)]
pub struct ExBroadcastSendError<T>(tokio::sync::broadcast::error::SendError<T>);

#[verifier::external_type_specification]
#[verifier::external_body]
#[verifier::reject_recursive_types(T)]
pub struct ExWatchSendError<T>(tokio::sync::watch::error::SendError<T>);

#[verifier::external_type_specification]
#[verifier::external_body]
#[verifier::reject_recursive_types(T)]
pub struct ExStdSendError<T>(std::sync::mpsc::SendError<T>);

/// A send whose receiver may be gone: nobody listening is not an error.
pub trait NoOneIsListening {
    fn no_one_is_listening(self);
}

impl<T, U> NoOneIsListening for Result<T, tokio::sync::mpsc::error::SendError<U>> {
    fn no_one_is_listening(self) {
    }
}

impl<T, U> NoOneIsListening for Result<T, tokio::sync::broadcast::error::SendError<U>> {
    fn no_one_is_listening(self) {
    }
}

impl<T, U> NoOneIsListening for Result<T, tokio::sync::watch::error::SendError<U>> {
    fn no_one_is_listening(self) {
    }
}

impl<T, U> NoOneIsListening for Result<T, std::sync::mpsc::SendError<U>> {
    fn no_one_is_listening(self) {
    }
}

/// A non-blocking send into a bounded queue: what does not fit is dropped.
pub trait TheQueueMayBeFull {
    fn dropped_if_the_queue_is_full(self, what: &str);
}

impl<T, U> TheQueueMayBeFull for Result<T, tokio::sync::mpsc::error::TrySendError<U>> {
    fn dropped_if_the_queue_is_full(self, what: &str) {
    }
}

/// A failure while shutting down, which has nobody left to report to.
pub trait OnTheWayOut {
    fn on_the_way_out(self, what: &str);
}

impl<T, E> OnTheWayOut for Result<T, E> {
    fn on_the_way_out(self, what: &str) {
    }
}

/// An insertion that may find its key already present, which is as good.
pub trait ItWasAlreadyThere {
    fn it_was_already_there(self);
}

impl<T, E> ItWasAlreadyThere for Result<T, E> {
    fn it_was_already_there(self) {
    }
}

/// A value only computed for a side effect that must not panic.
pub trait ItOnlyMustNotPanic {
    fn it_only_must_not_panic(self);
}

impl<T> ItOnlyMustNotPanic for T {
    fn it_only_must_not_panic(self) {
    }
}

} // verus!
