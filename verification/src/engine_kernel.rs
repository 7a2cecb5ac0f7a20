//! Events the engine kernel reacts to.
//!
//! The kernel owning the window surface and the engine translates each
//! event into the matching surface action; the event data itself is plain
//! and lives here.

use vstd::prelude::*;

verus! {

/// The new size of the rendering surface, in pixels.
#[derive(Clone, Copy, PartialEq, Eq, Structural, Debug)]
pub struct ResizePayload {
    pub width: u32,
    pub height: u32,
}

/// An event dispatched to the engine kernel.
#[derive(Clone, Copy, PartialEq, Eq, Structural, Debug)]
pub enum EngineEvent {
    Resize(ResizePayload),
}

impl EngineEvent {
    /// The surface size this event asks for, when it carries one.
    pub fn resize_payload(&self) -> (r: Option<ResizePayload>)
        ensures
            r == match self {
                EngineEvent::Resize(payload) => Some(*payload),
            },
    {
        match self {
            EngineEvent::Resize(payload) => Some(*payload),
        }
    }
}

} // verus!
