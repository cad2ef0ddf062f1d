//! Explicit finite-state machines driven by messages, with a registry of
//! contracts and a checker that replays a message sequence against them.

pub mod constraints;
pub mod fsm;
pub mod fsm_check;

pub use fsm::{Fsm, FsmHandler};
