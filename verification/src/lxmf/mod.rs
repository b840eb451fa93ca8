//! LXMF messaging: the queues the caller polls, the tokens it reads, and the
//! requests it hands in.

pub mod checkpoint;
pub mod fields;
pub mod handle;
pub mod inbox;
pub mod poll;
pub mod processor;
pub mod request;
pub mod requeue;
pub mod send;
pub mod stamp;
