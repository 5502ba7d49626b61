//! A broker for human-in-the-loop decisions raised by autonomous agent
//! processes.
//!
//! An agent emits a request ("may I run this tool?", "please answer these
//! questions") that is held open until a human responds or a deadline
//! elapses. The crate provides the coordination core: a registry of pending
//! decisions, a correlator that ties a request to the unique unclaimed
//! tool-use entry of a conversation log, the decision half of the timeout
//! race, the approval and question service abstractions, and the protocol
//! adapter that translates one agent's control protocol into decisions.

pub mod approvals;
pub mod client;
pub mod log;
pub mod notion;
pub mod questions;
pub mod registry;
pub mod subdomain;
pub mod text;
