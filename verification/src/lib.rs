//! Core of a real-time rendering engine: a fixed-timestep scheduler that
//! drives scene updates and draw calls, a backend lifecycle state machine,
//! a per-frame submission pipeline with recreation on transient failure,
//! and a GPU buffer cache with mark-and-sweep eviction keyed by scene-object
//! identity.
//!
//! Platform windowing and the GPU-API boilerplate of the concrete backends
//! are collaborators: they acquire targets, upload buffers and present
//! frames, while every decision (how many update steps to run, which buffers
//! to upload or evict, whether a frame failure is fatal) is made here.
use vstd::prelude::*;

pub mod backend;
pub mod cache;
pub mod engine;
pub mod error;
pub mod game_objects;
pub mod scheduler;
pub mod submitter;
pub mod window;

verus! {

/// Window/surface dimensions in pixels.
#[derive(Debug, Clone, Copy, PartialEq, Eq, Structural)]
pub struct Size {
    pub width: u32,
    pub height: u32,
}

impl Size {
    pub fn new(width: u32, height: u32) -> (s: Size)
        ensures
            s.width == width,
            s.height == height,
    {
        Size { width, height }
    }
}

impl Default for Size {
    /// The default window size is 800x600.
    fn default() -> (s: Self)
        ensures
            s.width == 800,
            s.height == 600,
    {
        Size { width: 800, height: 600 }
    }
}

/// The three lifecycle events a window emits to its single dispatcher:
/// `OnStart` once after the surface exists, `OnDraw` once per platform
/// redraw tick, `OnStop` once when the window closes.
#[derive(Debug, Clone, Copy, PartialEq, Eq, Structural)]
pub enum WindowEvent {
    OnStart,
    OnDraw,
    OnStop,
}

/// A GPU backend as the engine sees it: draw one scene's current object
/// list and report how the frame ended. Implementations acquire a target,
/// run the frame submitter over it and present; what they return decides
/// whether the scheduler loop continues (`Done`, `Recreate`) or stops
/// fatally (`Fail`).
pub trait ThrustlerBackend {
    fn draw_scene(&mut self, game_objects: &Vec<crate::game_objects::GameObject>)
        -> crate::submitter::BufferExecutorResult;
}

} // verus!
