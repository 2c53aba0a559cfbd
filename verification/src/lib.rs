//! Typed requests for the view resources of a Jenkins server.
//!
//! The library decides which request to send and where; sending it and
//! reading the answer is left to the caller.

pub mod client;
pub mod encoding;
pub mod job;
pub mod text;
pub mod view;
