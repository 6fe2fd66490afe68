//! Core engine of a terminal typing trainer: cyclic word supply, countdown,
//! the typing-session state machine, milli-unit scoring, and the append-only
//! result history with its line codec.

pub mod calculators;
pub mod codec;
pub mod error;
pub mod loader;
pub mod menu;
pub mod record;
pub mod session;
pub mod shuffle;
pub mod store;
pub mod timer;
pub mod words;

use vstd::prelude::*;

verus! {

} // verus!
