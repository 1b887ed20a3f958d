//! The telemetry hub's logic: command encoding, session framing, map rendering,
//! per-car state, SLAM worker pacing and the configuration defaults.

pub mod api;
pub mod clock;
pub mod command;
pub mod config;
pub mod decimal;
pub mod ingest;
pub mod map_png;
pub mod pipeline;
pub mod session;
pub mod sim;
pub mod state;
pub mod viz;
pub mod worker;

use vstd::prelude::*;

verus! {

} // verus!
