//! Shared core for a Resilum node: the decisions and encodings behind its
//! transports and its LXMF messaging, each with a proved contract.

pub mod bytes;
pub mod letting_go;
pub mod text;

pub mod lxmf;
pub mod iroh;
pub mod link;
