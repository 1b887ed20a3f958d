//! The rerun viewer sink. This build has no viewer, so there is never a sink to log to.

use vstd::prelude::*;

verus! {

/// A cloneable handle to the recording; empty in a build without the viewer.
#[derive(Debug, Clone, Copy, PartialEq, Eq, Structural)]
pub struct Sink {}

/// Why the viewer could not be started.
#[derive(Debug, Clone, Copy, PartialEq, Eq, Structural)]
pub enum VizError {
    /// The viewer could not be spawned.
    ViewerUnavailable,
}

/// Spawns the viewer and connects; without the viewer in the build there is no sink.
pub fn start() -> (r: Result<Option<Sink>, VizError>)
    ensures
        r matches Ok(None),
{
    Ok(None)
}

} // verus!
