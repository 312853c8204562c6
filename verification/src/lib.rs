//! Server-side rules of a multiplayer quiz session: the session lifecycle,
//! the hand-over of a player's answer record to a fast execution venue and
//! back, and the scoring of submitted answers against the answer key.
//!
//! Every operation is a decision: it reads the accounts it is given as plain
//! values and returns either a typed failure or the ordered list of actions
//! that the runtime has to carry out.

pub mod error;
pub mod state;
pub mod wire;
pub mod codec;
pub mod address;
pub mod instruction;
pub mod scoring;
pub mod action;
pub mod processor;
pub mod laws;
