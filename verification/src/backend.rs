//! The backend lifecycle state machine.
//!
//! A backend is constructed `Uninitialized` with its target size, and
//! becomes `Ready` when the GPU collaborator's device/surface/pipeline
//! setup succeeds: readiness means owning a frame submitter. Setup failure
//! is fatal for startup and leaves the backend untouched. Frames can be
//! drawn only once `Ready`; the window blocks draw events until the
//! initialization callback has completed, so drawing earlier is a
//! programming error and excluded by contract.
use vstd::prelude::*;

use crate::Size;
use crate::error::ThrustlerBackendError;
use crate::error::ThrustlerError;
use crate::game_objects::GameObject;
use crate::submitter::AcquireOutcome;
use crate::submitter::BufferExecutorResult;
use crate::submitter::FrameOutcome;
use crate::submitter::FrameSubmitter;
use crate::submitter::PresentOutcome;
use crate::submitter::SubmitterView;
use crate::submitter::record_spec;
use crate::submitter::upload_views;

verus! {

/// A GPU backend: uninitialized until the collaborator's setup installs a
/// frame submitter.
pub struct Backend {
    screen_size: Size,
    submitter: Option<FrameSubmitter>,
}

impl Backend {
    /// Whether setup has completed: draw calls are valid only when ready.
    pub closed spec fn is_ready(self) -> bool {
        self.submitter is Some
    }

    /// The submitter state (meaningful when ready).
    pub closed spec fn submitter_view(self) -> SubmitterView {
        self.submitter->0@
    }

    pub closed spec fn size(self) -> Size {
        self.screen_size
    }

    pub open spec fn wf(self) -> bool {
        self.is_ready() ==> self.submitter_view().cache.wf()
    }

    /// A backend for a surface of the given size, not yet initialized.
    pub fn new(size: Size) -> (b: Backend)
        ensures
            !b.is_ready(),
            b.size() == size,
            b.wf(),
    {
        Backend { screen_size: size, submitter: None }
    }

    /// Whether the backend is ready to draw.
    pub fn ready(&self) -> (r: bool)
        ensures
            r == self.is_ready(),
    {
        self.submitter.is_some()
    }

    /// Complete initialization with the outcome of the collaborator's
    /// device/surface/pipeline setup: on success the backend becomes ready
    /// with a fresh submitter; on failure it stays as it was and the error
    /// is fatal.
    pub fn init(&mut self, setup: Result<(), ThrustlerBackendError>) -> (r: Result<
        (),
        ThrustlerError,
    >)
        ensures
            final(self).size() == old(self).size(),
            setup is Ok ==> {
                &&& r is Ok
                &&& final(self).is_ready()
                &&& final(self).wf()
                &&& final(self).submitter_view().cache.entries.len() == 0
                &&& final(self).submitter_view().cache.uploads == 0
                &&& final(self).submitter_view().cache.next_buffer == 0
                &&& !final(self).submitter_view().fence_outstanding
            },
            setup is Err ==> r == Err::<(), ThrustlerError>(ThrustlerError::GraphicalBackendError)
                && *final(self) == *old(self),
    {
        match setup {
            Ok(()) => {
                self.submitter = Some(FrameSubmitter::new());
                Ok(())
            },
            Err(_) => Err(ThrustlerError::GraphicalBackendError),
        }
    }

    /// Whether a frame over this many objects stays within the submitter's
    /// counters; callers check this before `execute_frame`.
    pub fn can_record(&self, object_count: usize) -> (r: bool)
        requires
            self.is_ready(),
        ensures
            r == (self.submitter_view().cache.next_buffer + object_count <= u64::MAX
                && self.submitter_view().cache.uploads + object_count <= u64::MAX),
    {
        match &self.submitter {
            Some(s) => s.can_record(object_count),
            None => false,
        }
    }

    /// How many uploads this backend's cache has requested since setup.
    pub fn uploads_performed(&self) -> (n: u64)
        requires
            self.is_ready(),
        ensures
            n == self.submitter_view().cache.uploads,
    {
        match &self.submitter {
            Some(s) => s.uploads_performed(),
            None => 0,
        }
    }

    /// How many identities this backend's cache currently holds.
    pub fn cached_objects(&self) -> (n: usize)
        requires
            self.is_ready(),
        ensures
            n == self.submitter_view().cache.entries.len(),
    {
        match &self.submitter {
            Some(s) => s.cached_objects(),
            None => 0,
        }
    }

    /// Begin one frame: delegate to the submitter (see
    /// `FrameSubmitter::execute_buffer`). Defined only when ready.
    pub fn execute_frame(&mut self, acquire: AcquireOutcome, game_objects: &Vec<GameObject>) -> (r:
        FrameOutcome)
        requires
            old(self).is_ready(),
            old(self).wf(),
            old(self).submitter_view().cache.next_buffer + game_objects@.len() <= u64::MAX,
            old(self).submitter_view().cache.uploads + game_objects@.len() <= u64::MAX,
        ensures
            final(self).is_ready(),
            final(self).wf(),
            final(self).size() == old(self).size(),
            acquire is Fatal ==> r == FrameOutcome::Skipped(BufferExecutorResult::Fail)
                && final(self).submitter_view() == old(self).submitter_view(),
            acquire is Suboptimal ==> r == FrameOutcome::Skipped(BufferExecutorResult::Recreate)
                && final(self).submitter_view() == old(self).submitter_view(),
            acquire matches AcquireOutcome::Acquired(idx) ==> ({
                let (rec, freed) = record_spec(old(self).submitter_view().cache, game_objects@);
                &&& r matches FrameOutcome::Submitted(plan) && plan.target_index == idx
                    && plan.draws@ == rec.draws && upload_views(plan.uploads@) == rec.uploads
                    && plan.frees@ == freed
                &&& final(self).submitter_view().cache == rec.cache
                &&& final(self).submitter_view().fence_outstanding
            }),
    {
        match &mut self.submitter {
            Some(s) => s.execute_buffer(acquire, game_objects),
            None => FrameOutcome::Skipped(BufferExecutorResult::Fail),
        }
    }

    /// Classify the present outcome that ends a frame (see
    /// `FrameSubmitter::finish_frame`). Defined only when ready.
    pub fn finish_frame(&self, present: PresentOutcome) -> (r: BufferExecutorResult)
        requires
            self.is_ready(),
        ensures
            present is Presented ==> r == BufferExecutorResult::Done,
            present is OutOfDate ==> r == BufferExecutorResult::Recreate,
            present is Fatal ==> r == BufferExecutorResult::Fail,
    {
        match &self.submitter {
            Some(s) => s.finish_frame(present),
            None => BufferExecutorResult::Fail,
        }
    }
}

} // verus!
