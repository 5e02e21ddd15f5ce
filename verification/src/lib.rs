//! Smart-card presence authentication for a host login framework.
//!
//! An attempt opens a session with the platform's card service, lists the
//! readers, and probes the card in one reader after another until something
//! conclusive happens or the retry bound is reached. The library decides;
//! the host performs: [`session::Session`] is given what happened and says
//! what to do next. [`world::authenticate_in`] runs a whole attempt against a
//! recorded card service, and [`laws`] states what holds of every attempt.

pub mod apdu;
pub mod decision;
pub mod entry;
pub mod error;
pub mod laws;
pub mod reader;
pub mod session;
pub mod world;
