//! The window abstraction's lifecycle rules.
//!
//! A window owns the platform event source and presents a uniform
//! three-event stream (start, draw, stop) to exactly one dispatcher,
//! registered when the run begins. Running a second time is a programming
//! error (the platform event loop is one-shot). Before emitting the start
//! event the window must invoke its one-shot surface-created callback, so
//! that backend initialization — which needs the surface handle — has
//! completed before any draw event can be observed.
//!
//! The platform half (creating the OS window, pumping its events) lives
//! with the collaborator; this state machine makes the decisions: whether
//! a run may begin, and which event may be emitted next.
use vstd::prelude::*;

use crate::Size;
use crate::WindowEvent;
use crate::error::ThrustlerWindowError;

verus! {

/// The decision state of one window: whether its one-shot run was
/// consumed, whether the surface-created callback has completed, and how
/// far the emitted event stream has progressed.
pub struct WindowCore {
    size: Size,
    run_consumed: bool,
    surface_ready: bool,
    started: bool,
    stopped: bool,
}

impl WindowCore {
    pub closed spec fn size(self) -> Size {
        self.size
    }

    /// Whether `begin_run` already consumed the one-shot event loop.
    pub closed spec fn run_consumed(self) -> bool {
        self.run_consumed
    }

    /// Whether the surface-created callback has completed.
    pub closed spec fn surface_ready(self) -> bool {
        self.surface_ready
    }

    /// Whether the start event has been emitted.
    pub closed spec fn started(self) -> bool {
        self.started
    }

    /// Whether the stop event has been emitted.
    pub closed spec fn stopped(self) -> bool {
        self.stopped
    }

    /// Which event the window may emit next: the start event only once the
    /// surface callback has run and only once; draw and stop events only
    /// between start and stop.
    pub open spec fn emit_allowed(self, event: WindowEvent) -> bool {
        &&& self.run_consumed()
        &&& match event {
            WindowEvent::OnStart => self.surface_ready() && !self.started() && !self.stopped(),
            WindowEvent::OnDraw => self.started() && !self.stopped(),
            WindowEvent::OnStop => self.started() && !self.stopped(),
        }
    }

    /// A window of the given size, not yet run.
    pub fn new(size: Size) -> (w: WindowCore)
        ensures
            w.size() == size,
            !w.run_consumed(),
            !w.surface_ready(),
            !w.started(),
            !w.stopped(),
    {
        WindowCore {
            size,
            run_consumed: false,
            surface_ready: false,
            started: false,
            stopped: false,
        }
    }

    /// Begin the run: consume the one-shot event loop and register the
    /// dispatcher. A second run is a programming error and fails as the
    /// event loop does.
    pub fn begin_run(&mut self) -> (r: Result<(), ThrustlerWindowError>)
        requires
            !old(self).started(),
            !old(self).stopped(),
        ensures
            old(self).run_consumed() ==> r == Err::<(), ThrustlerWindowError>(
                ThrustlerWindowError::WindowLoopError,
            ) && *final(self) == *old(self),
            !old(self).run_consumed() ==> {
                &&& r is Ok
                &&& final(self).run_consumed()
                &&& final(self).size() == old(self).size()
                &&& final(self).surface_ready() == old(self).surface_ready()
                &&& !final(self).started()
                &&& !final(self).stopped()
            },
    {
        if self.run_consumed {
            Err(ThrustlerWindowError::WindowLoopError)
        } else {
            self.run_consumed = true;
            Ok(())
        }
    }

    /// Record that the surface-created callback completed; done once the
    /// platform window exists and before the start event.
    pub fn note_surface_created(&mut self)
        requires
            old(self).run_consumed(),
            !old(self).started(),
        ensures
            final(self).surface_ready(),
            final(self).size() == old(self).size(),
            final(self).run_consumed(),
            !final(self).started(),
            final(self).stopped() == old(self).stopped(),
    {
        self.surface_ready = true;
    }

    /// Try to emit an event to the dispatcher: allowed exactly when the
    /// lifecycle rules permit it, and the emission is recorded. A refused
    /// event leaves the window unchanged — the caller must not dispatch it.
    pub fn emit(&mut self, event: WindowEvent) -> (ok: bool)
        ensures
            ok == old(self).emit_allowed(event),
            !ok ==> *final(self) == *old(self),
            ok ==> {
                &&& final(self).size() == old(self).size()
                &&& final(self).run_consumed()
                &&& final(self).surface_ready() == old(self).surface_ready()
                &&& final(self).started() == (old(self).started() || event is OnStart)
                &&& final(self).stopped() == (event is OnStop)
            },
    {
        if !self.run_consumed {
            return false;
        }
        match event {
            WindowEvent::OnStart => {
                if self.surface_ready && !self.started && !self.stopped {
                    self.started = true;
                    true
                } else {
                    false
                }
            },
            WindowEvent::OnDraw => self.started && !self.stopped,
            WindowEvent::OnStop => {
                if self.started && !self.stopped {
                    self.stopped = true;
                    true
                } else {
                    false
                }
            },
        }
    }
}

} // verus!
