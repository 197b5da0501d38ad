//! The error taxonomy of the engine.
//!
//! Fatal errors (setup, submission) bubble up to the caller of the event
//! loop; transient surface errors are never represented here — they are
//! signalled as a `Recreate` frame result and the loop continues.
use vstd::prelude::*;

verus! {

/// Top-level error returned to the caller of the engine: the failing
/// subsystem, with the detailed cause attached by the caller's error
/// reporting.
#[derive(Debug, Clone, Copy, PartialEq, Eq, Structural)]
pub enum ThrustlerError {
    WindowError,
    GraphicalBackendError,
    EngineError,
}

impl ThrustlerError {
    pub open spec fn message_spec(self) -> Seq<char> {
        match self {
            ThrustlerError::WindowError => "Unable error"@,
            ThrustlerError::GraphicalBackendError => "Graphical backend error"@,
            ThrustlerError::EngineError => "Engine error"@,
        }
    }

    /// A human-readable description of the error.
    pub fn message(&self) -> (r: &'static str)
        ensures
            r@ == self.message_spec(),
    {
        match self {
            ThrustlerError::WindowError => "Unable error",
            ThrustlerError::GraphicalBackendError => "Graphical backend error",
            ThrustlerError::EngineError => "Engine error",
        }
    }
}

/// Errors of engine construction: a configuration the engine rejects
/// before any window is created.
#[derive(Debug, Clone, Copy, PartialEq, Eq, Structural)]
pub enum EngineError {
    InitialisationError,
}

impl EngineError {
    pub open spec fn message_spec(self) -> Seq<char> {
        match self {
            EngineError::InitialisationError => "Engine creation error"@,
        }
    }

    /// A human-readable description of the error.
    pub fn message(&self) -> (r: &'static str)
        ensures
            r@ == self.message_spec(),
    {
        match self {
            EngineError::InitialisationError => "Engine creation error",
        }
    }
}

/// Errors of the window abstraction: creation of the platform window, and
/// running its event loop (including running it a second time).
#[derive(Debug, Clone, Copy, PartialEq, Eq, Structural)]
pub enum ThrustlerWindowError {
    UnableToCreateWindow,
    WindowLoopError,
}

impl ThrustlerWindowError {
    pub open spec fn message_spec(self) -> Seq<char> {
        match self {
            ThrustlerWindowError::UnableToCreateWindow => "Unable to create window"@,
            ThrustlerWindowError::WindowLoopError => "Window loop error"@,
        }
    }

    /// A human-readable description of the error.
    pub fn message(&self) -> (r: &'static str)
        ensures
            r@ == self.message_spec(),
    {
        match self {
            ThrustlerWindowError::UnableToCreateWindow => "Unable to create window",
            ThrustlerWindowError::WindowLoopError => "Window loop error",
        }
    }
}

/// Errors of GPU backend setup, reported by the collaborator that performs
/// device, surface and pipeline construction. Any of them is fatal: the
/// backend stays uninitialized.
#[derive(Debug, Clone, Copy, PartialEq, Eq, Structural)]
pub enum ThrustlerBackendError {
    BackendUnavailable,
    GraphicalApiError,
    AcquisitionError,
    CreationError,
    AllocationError,
    ShaderError,
}

impl ThrustlerBackendError {
    pub open spec fn message_spec(self) -> Seq<char> {
        match self {
            ThrustlerBackendError::BackendUnavailable => "Unavailable"@,
            ThrustlerBackendError::GraphicalApiError => "Api error"@,
            ThrustlerBackendError::AcquisitionError => "Api entity acquisition error"@,
            ThrustlerBackendError::CreationError => "Api entity creation error"@,
            ThrustlerBackendError::AllocationError => "Allocation error"@,
            ThrustlerBackendError::ShaderError => "Shader error"@,
        }
    }

    /// A human-readable description of the error.
    pub fn message(&self) -> (r: &'static str)
        ensures
            r@ == self.message_spec(),
    {
        match self {
            ThrustlerBackendError::BackendUnavailable => "Unavailable",
            ThrustlerBackendError::GraphicalApiError => "Api error",
            ThrustlerBackendError::AcquisitionError => "Api entity acquisition error",
            ThrustlerBackendError::CreationError => "Api entity creation error",
            ThrustlerBackendError::AllocationError => "Allocation error",
            ThrustlerBackendError::ShaderError => "Shader error",
        }
    }
}

} // verus!
