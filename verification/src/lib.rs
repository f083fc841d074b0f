//! The status endpoint of a virtual machine: it tells the state of the machine over HTTP and
//! takes requests to shut the machine down.
//!
//! Nothing here reads or writes anything. Connections, files and the shutdown event belong to the
//! caller, who hands in what was read and gets back what is to be done.

pub mod cleanup;
pub mod listener;
pub mod number;
pub mod request;
pub mod response;
pub mod status;
pub mod text;
pub mod uri;
