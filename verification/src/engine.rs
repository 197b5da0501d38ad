//! The engine: scene list, fixed-timestep scheduler and lifecycle
//! dispatch.
//!
//! The window abstraction owns the platform event loop and hands the
//! engine one event at a time; the engine decides everything that follows.
//! On `OnStart` every scene's `on_start` runs, in list order. On each
//! `OnDraw` the measured wall-clock delta is banked and converted into
//! zero or more fixed update steps; each step runs `on_update` then a
//! backend draw for every scene, in list order. On `OnStop` every scene's
//! `on_destroy` runs. A fatal draw failure stops the run with an error; a
//! transient `Recreate` is treated exactly like `Done` and the loop
//! continues.
//!
//! Every hook invocation is recorded in a ghost call trace, over which the
//! lifecycle-ordering law is proved: one `on_start` per scene before any
//! of its updates, one `on_destroy` after all of them, however many draw
//! events occurred.
use vstd::prelude::*;

use crate::Size;
use crate::ThrustlerBackend;
use crate::WindowEvent;
use crate::error::ThrustlerError;
use crate::game_objects::Scene;
use crate::scheduler::NANOS_PER_SECOND;
use crate::scheduler::Scheduler;
use crate::submitter::BufferExecutorResult;

verus! {

/// The supported window implementations.
#[derive(Debug, Clone, Copy, PartialEq, Eq, Structural)]
pub enum WindowKind {
    Winit,
}

/// The supported GPU backends: the explicit API and the portable one.
#[derive(Debug, Clone, Copy, PartialEq, Eq, Structural)]
pub enum BackendKind {
    Vulkan,
    Wgpu,
}

/// Engine configuration: window size, target update rate, and which
/// window and backend implementations to construct.
#[derive(Debug, Clone, Copy, PartialEq, Eq, Structural)]
pub struct EngineSettings {
    pub window_size: Size,
    pub frames_per_second: u32,
    pub window: WindowKind,
    pub backend: BackendKind,
}

impl Default for EngineSettings {
    /// Defaults: 800x600 window, 60 frames per second, a winit window and
    /// the Vulkan backend.
    fn default() -> (s: Self)
        ensures
            s.window_size == (Size { width: 800, height: 600 }),
            s.frames_per_second == 60,
            s.window == WindowKind::Winit,
            s.backend == BackendKind::Vulkan,
    {
        EngineSettings {
            window_size: Size::new(800, 600),
            frames_per_second: 60,
            window: WindowKind::Winit,
            backend: BackendKind::Vulkan,
        }
    }
}

/// Where the engine stands in its window's event stream.
#[derive(Debug, Clone, Copy, PartialEq, Eq, Structural)]
pub enum LifecyclePhase {
    Created,
    Started,
    Stopped,
}

/// One scene hook invocation, as recorded in the engine's ghost call
/// trace; the payload is the scene's position in the engine's list.
pub enum SceneCall {
    Start(int),
    Update(int),
    Draw(int),
    Destroy(int),
}

/// The calls an `OnStart` event produces: `on_start` for each scene in
/// list order.
pub open spec fn start_calls(n: nat) -> Seq<SceneCall> {
    Seq::new(n, |i: int| SceneCall::Start(i))
}

/// The calls an `OnStop` event produces: `on_destroy` for each scene in
/// list order.
pub open spec fn destroy_calls(n: nat) -> Seq<SceneCall> {
    Seq::new(n, |i: int| SceneCall::Destroy(i))
}

/// The calls one fixed update step produces: `on_update` then a backend
/// draw, for each scene in list order.
pub open spec fn step_calls(n: nat) -> Seq<SceneCall> {
    Seq::new(
        2 * n,
        |i: int|
            if i % 2 == 0 {
                SceneCall::Update(i / 2)
            } else {
                SceneCall::Draw(i / 2)
            },
    )
}

/// The calls `k` consecutive fixed update steps produce.
pub open spec fn steps_calls(k: nat, n: nat) -> Seq<SceneCall>
    decreases k,
{
    if k == 0 {
        Seq::empty()
    } else {
        steps_calls((k - 1) as nat, n) + step_calls(n)
    }
}

/// Consecutive step runs concatenate.
pub proof fn lemma_steps_calls_add(a: nat, b: nat, n: nat)
    ensures
        steps_calls(a + b, n) == steps_calls(a, n) + steps_calls(b, n),
    decreases b,
{
    if b == 0 {
        assert(steps_calls(a + 0, n) =~= steps_calls(a, n) + steps_calls(0, n));
    } else {
        lemma_steps_calls_add(a, (b - 1) as nat, n);
        assert(steps_calls(a + b, n) == steps_calls((a + b - 1) as nat, n) + step_calls(n));
        assert(steps_calls(b, n) == steps_calls((b - 1) as nat, n) + step_calls(n));
        assert(steps_calls(a, n) + steps_calls((b - 1) as nat, n) + step_calls(n) =~= steps_calls(
            a,
            n,
        ) + (steps_calls((b - 1) as nat, n) + step_calls(n)));
    }
}

/// Every call in a step run is an update or a draw of a listed scene.
pub proof fn lemma_steps_calls_elems(k: nat, n: nat)
    ensures
        forall|m: int|
            0 <= m < steps_calls(k, n).len() ==> {
                let c = #[trigger] steps_calls(k, n)[m];
                (c matches SceneCall::Update(j) && 0 <= j < n) || (c matches SceneCall::Draw(j) && 0
                    <= j < n)
            },
    decreases k,
{
    if k > 0 {
        lemma_steps_calls_elems((k - 1) as nat, n);
        let prev = steps_calls((k - 1) as nat, n);
        assert forall|m: int| 0 <= m < steps_calls(k, n).len() implies {
            let c = #[trigger] steps_calls(k, n)[m];
            (c matches SceneCall::Update(j) && 0 <= j < n) || (c matches SceneCall::Draw(j) && 0
                <= j < n)
        } by {
            if m < prev.len() {
                assert(steps_calls(k, n)[m] == prev[m]);
            } else {
                assert(steps_calls(k, n)[m] == step_calls(n)[m - prev.len()]);
            }
        }
    }
}

/// Steps over an empty scene list produce no calls at all.
pub proof fn lemma_steps_calls_no_scenes(k: nat)
    ensures
        steps_calls(k, 0) == Seq::<SceneCall>::empty(),
    decreases k,
{
    if k > 0 {
        lemma_steps_calls_no_scenes((k - 1) as nat);
        assert(steps_calls(k, 0) =~= Seq::<SceneCall>::empty());
    }
}

/// The trace left by a draw event that failed fatally: the trace before
/// it, the `k` update steps that completed in full, and one partial step
/// that ends immediately after the failing draw of scene `i`.
pub open spec fn partial_draw_trace(t0: Seq<SceneCall>, k: nat, n: nat, i: int) -> Seq<SceneCall> {
    t0 + steps_calls(k, n) + step_calls(n).take(2 * (i + 1))
}

/// Whether the scheduler loop continues after a frame that ended with this
/// result: only a fatal failure stops it; a transient `Recreate` is
/// treated exactly like `Done`.
pub open spec fn continues_after(result: BufferExecutorResult) -> bool {
    !(result is Fail)
}

/// Transient-error non-fatality: a frame that ended in `Recreate` leaves
/// the loop running, exactly like `Done`; only `Fail` stops it.
pub proof fn lemma_transient_error_nonfatal()
    ensures
        continues_after(BufferExecutorResult::Recreate),
        continues_after(BufferExecutorResult::Done),
        !continues_after(BufferExecutorResult::Fail),
{
}

/// Whether this frame result stops the run.
pub fn is_fatal(result: &BufferExecutorResult) -> (r: bool)
    ensures
        r == !continues_after(*result),
{
    match result {
        BufferExecutorResult::Fail => true,
        _ => false,
    }
}

/// The engine: an ordered scene list, the fixed-timestep scheduler, and
/// the lifecycle phase, with a ghost trace of every scene hook invocation.
pub struct Engine<S> {
    scheduler: Scheduler,
    phase: LifecyclePhase,
    failed: bool,
    scenes: Vec<S>,
    trace: Ghost<Seq<SceneCall>>,
    steps_run: Ghost<nat>,
}

impl<S: Scene> Engine<S> {
    pub closed spec fn phase(self) -> LifecyclePhase {
        self.phase
    }

    pub closed spec fn has_failed(self) -> bool {
        self.failed
    }

    pub closed spec fn scene_count(self) -> nat {
        self.scenes@.len()
    }

    /// The scenes the engine drives, in list order.
    pub closed spec fn scene_list(self) -> Seq<S> {
        self.scenes@
    }

    /// The scene hook invocations performed so far, in order.
    pub closed spec fn trace(self) -> Seq<SceneCall> {
        self.trace@
    }

    /// How many fixed update steps have completed.
    pub closed spec fn steps(self) -> nat {
        self.steps_run@
    }

    pub closed spec fn period(self) -> u64 {
        self.scheduler.period()
    }

    pub closed spec fn accumulator(self) -> u64 {
        self.scheduler.accumulator()
    }

    /// The trace always has the shape the phase dictates: empty before
    /// start; the start calls plus every completed step while running (a
    /// failed run may end inside a step); and the destroy calls at the end
    /// once stopped.
    pub closed spec fn wf(self) -> bool {
        let n = self.scenes@.len();
        &&& self.scheduler.wf()
        &&& match self.phase {
            LifecyclePhase::Created => self.trace@ == Seq::<SceneCall>::empty() && self.steps_run@
                == 0 && !self.failed,
            LifecyclePhase::Started => if self.failed {
                exists|j: int|
                    0 <= j <= step_calls(n).len() && self.trace@ == start_calls(n) + steps_calls(
                        self.steps_run@,
                        n,
                    ) + step_calls(n).take(j)
            } else {
                self.trace@ == start_calls(n) + steps_calls(self.steps_run@, n)
            },
            LifecyclePhase::Stopped => self.trace@ == start_calls(n) + steps_calls(
                self.steps_run@,
                n,
            ) + destroy_calls(n) && !self.failed,
        }
    }

    /// An engine for the given settings, with no scenes yet. A target rate
    /// of zero frames per second is a configuration error, rejected before
    /// any window exists.
    pub fn new_with_settings(engine_settings: EngineSettings) -> (r: Result<
        Engine<S>,
        ThrustlerError,
    >)
        ensures
            engine_settings.frames_per_second == 0 <==> r is Err,
            r is Err ==> r->Err_0 == ThrustlerError::EngineError,
            r is Ok ==> ({
                let e = r->Ok_0;
                &&& e.wf()
                &&& e.phase() is Created
                &&& !e.has_failed()
                &&& e.scene_count() == 0
                &&& e.trace() == Seq::<SceneCall>::empty()
                &&& e.accumulator() == 0
                &&& (NANOS_PER_SECOND as int / engine_settings.frames_per_second as int > 0
                    ==> e.period() == NANOS_PER_SECOND as int
                    / engine_settings.frames_per_second as int)
                &&& (NANOS_PER_SECOND as int / engine_settings.frames_per_second as int == 0
                    ==> e.period() == 1)
            }),
    {
        match Scheduler::new(engine_settings.frames_per_second) {
            Ok(scheduler) => Ok(
                Engine {
                    scheduler,
                    phase: LifecyclePhase::Created,
                    failed: false,
                    scenes: Vec::new(),
                    trace: Ghost(Seq::empty()),
                    steps_run: Ghost(0nat),
                },
            ),
            Err(_) => Err(ThrustlerError::EngineError),
        }
    }

    /// Append a scene to the list; scenes are added before the run starts.
    pub fn add_scene(self, scene: S) -> (r: Engine<S>)
        requires
            self.wf(),
            self.phase() is Created,
        ensures
            r.wf(),
            r.phase() is Created,
            !r.has_failed(),
            r.scene_count() == self.scene_count() + 1,
            r.scene_list() == self.scene_list().push(scene),
            r.period() == self.period(),
            r.accumulator() == self.accumulator(),
            r.trace() == Seq::<SceneCall>::empty(),
    {
        let mut e = self;
        e.scenes.push(scene);
        e
    }

    /// How many scenes the engine will drive.
    pub fn scenes_len(&self) -> (n: usize)
        ensures
            n == self.scene_count(),
    {
        self.scenes.len()
    }

    /// Dispatch one window event.
    ///
    /// `OnStart` (valid once, first) runs `on_start` on every scene in
    /// list order. `OnDraw` banks the measured delta and runs the fixed
    /// update steps it pays for: each step runs `on_update` then a backend
    /// draw per scene, in list order, and a fatal draw result stops the
    /// run with a backend error — any other result continues. `OnStop`
    /// runs `on_destroy` on every scene and ends the run. The window emits
    /// `OnStart` before any other event and nothing after `OnStop`, so
    /// dispatch in any other order is a programming error, excluded here
    /// by contract.
    pub fn handle_event<B: ThrustlerBackend>(
        &mut self,
        event: WindowEvent,
        delta_nanos: u64,
        backend: &mut B,
    ) -> (r: Result<(), ThrustlerError>)
        requires
            old(self).wf(),
            !old(self).has_failed(),
            event is OnStart ==> old(self).phase() is Created,
            event is OnDraw ==> old(self).phase() is Started,
            event is OnStop ==> old(self).phase() is Started,
            event is OnDraw ==> old(self).accumulator() + delta_nanos <= u64::MAX,
        ensures
            final(self).wf(),
            final(self).scene_count() == old(self).scene_count(),
            final(self).period() == old(self).period(),
            event is OnStart ==> {
                &&& r is Ok
                &&& final(self).phase() is Started
                &&& !final(self).has_failed()
                &&& final(self).trace() == old(self).trace() + start_calls(
                    old(self).scene_count(),
                )
                &&& final(self).steps() == 0
                &&& final(self).accumulator() == old(self).accumulator()
            },
            event is OnStop ==> {
                &&& r is Ok
                &&& final(self).phase() is Stopped
                &&& !final(self).has_failed()
                &&& final(self).trace() == old(self).trace() + destroy_calls(
                    old(self).scene_count(),
                )
                &&& final(self).accumulator() == old(self).accumulator()
            },
            event is OnDraw ==> ({
                let banked = old(self).accumulator() + delta_nanos;
                let steps = banked as int / old(self).period() as int;
                &&& final(self).phase() is Started
                &&& final(self).accumulator() == banked as int % old(self).period() as int
                &&& (steps == 0 ==> r is Ok && final(self).trace() == old(self).trace())
                &&& (old(self).scene_count() == 0 ==> r is Ok && final(self).trace() == old(
                    self,
                ).trace())
                &&& (r is Ok ==> !final(self).has_failed() && final(self).trace()
                    == old(self).trace() + steps_calls(steps as nat, old(self).scene_count())
                    && final(self).steps() == old(self).steps() + steps)
                &&& (r is Err ==> final(self).has_failed() && r->Err_0
                    == ThrustlerError::GraphicalBackendError
                    && old(self).steps() <= final(self).steps()
                    && final(self).steps() <= old(self).steps() + steps
                    && (exists|k: nat, i: int|
                        0 <= k < steps && 0 <= i < old(self).scene_count()
                            && final(self).steps() == old(self).steps() + k
                            && final(self).trace() == #[trigger] partial_draw_trace(
                            old(self).trace(),
                            k,
                            old(self).scene_count(),
                            i,
                        )))
            }),
    {
        match event {
            WindowEvent::OnStart => {
                let count = self.scenes.len();
                let mut i: usize = 0;
                while i < count
                    invariant
                        count == self.scenes@.len(),
                        0 <= i <= count,
                        self.scheduler == old(self).scheduler,
                        self.phase == old(self).phase,
                        self.failed == old(self).failed,
                        self.trace@ == old(self).trace@,
                        self.steps_run@ == old(self).steps_run@,
                    decreases count - i,
                {
                    self.scenes[i].on_start();
                    i = i + 1;
                }
                self.phase = LifecyclePhase::Started;
                self.trace = Ghost(self.trace@ + start_calls(count as nat));
                proof {
                    assert(self.trace@ =~= start_calls(count as nat) + steps_calls(
                        0,
                        count as nat,
                    ));
                }
                Ok(())
            },
            WindowEvent::OnStop => {
                let count = self.scenes.len();
                let mut i: usize = 0;
                while i < count
                    invariant
                        count == self.scenes@.len(),
                        0 <= i <= count,
                        self.scheduler == old(self).scheduler,
                        self.phase == old(self).phase,
                        self.failed == old(self).failed,
                        self.trace@ == old(self).trace@,
                        self.steps_run@ == old(self).steps_run@,
                    decreases count - i,
                {
                    self.scenes[i].on_destroy();
                    i = i + 1;
                }
                self.phase = LifecyclePhase::Stopped;
                self.trace = Ghost(self.trace@ + destroy_calls(count as nat));
                Ok(())
            },
            WindowEvent::OnDraw => {
                let steps = self.scheduler.advance(delta_nanos);
                let ghost sched_after = self.scheduler;
                let count = self.scenes.len();
                let ghost n = count as nat;
                let mut s: u64 = 0;
                while s < steps
                    invariant
                        event is OnDraw,
                        count == self.scenes@.len(),
                        count == old(self).scenes@.len(),
                        n == count as nat,
                        0 <= s <= steps,
                        steps as int == (old(self).accumulator() + delta_nanos) as int / old(
                            self,
                        ).period() as int,
                        self.scheduler == sched_after,
                        self.scheduler.wf(),
                        self.scheduler.period() == old(self).period(),
                        self.scheduler.accumulator() == (old(self).accumulator()
                            + delta_nanos) as int % old(self).period() as int,
                        self.phase == old(self).phase,
                        old(self).phase is Started,
                        !self.failed,
                        old(self).trace@ == start_calls(n) + steps_calls(old(self).steps_run@, n),
                        self.trace@ == old(self).trace@ + steps_calls(s as nat, n),
                        self.steps_run@ == old(self).steps_run@ + s,
                    decreases steps - s,
                {
                    let mut i: usize = 0;
                    while i < count
                        invariant
                            event is OnDraw,
                            count == self.scenes@.len(),
                            count == old(self).scenes@.len(),
                            n == count as nat,
                            0 <= i <= count,
                            s < steps,
                            steps as int == (old(self).accumulator() + delta_nanos) as int / old(
                                self,
                            ).period() as int,
                            self.scheduler == sched_after,
                            self.scheduler.wf(),
                            self.scheduler.period() == old(self).period(),
                            self.scheduler.accumulator() == (old(self).accumulator()
                                + delta_nanos) as int % old(self).period() as int,
                            self.phase == old(self).phase,
                            old(self).phase is Started,
                            !self.failed,
                            old(self).trace@ == start_calls(n) + steps_calls(
                                old(self).steps_run@,
                                n,
                            ),
                            self.trace@ == old(self).trace@ + steps_calls(s as nat, n)
                                + step_calls(n).take(2 * i as int),
                            self.steps_run@ == old(self).steps_run@ + s,
                        decreases count - i,
                    {
                        self.scenes[i].on_update();
                        let result = backend.draw_scene(self.scenes[i].get_scene_objects());
                        self.trace = Ghost(
                            old(self).trace@ + steps_calls(s as nat, n) + step_calls(n).take(
                                2 * (i + 1) as int,
                            ),
                        );
                        if is_fatal(&result) {
                            self.failed = true;
                            proof {
                                lemma_steps_calls_add(old(self).steps_run@, s as nat, n);
                                let m = self.scenes@.len();
                                let j = 2 * (i + 1) as int;
                                assert(self.trace@ =~= start_calls(m) + steps_calls(
                                    self.steps_run@,
                                    m,
                                ) + step_calls(m).take(j));
                                assert(0 <= j <= step_calls(m).len() && self.trace@ == start_calls(
                                    m,
                                ) + steps_calls(self.steps_run@, m) + step_calls(m).take(j));
                                assert(self.wf());
                                assert(n == old(self).scene_count());
                                assert((s as nat) < (old(self).accumulator()
                                    + delta_nanos) as int / old(self).period() as int);
                                assert(0 <= (i as int) < old(self).scene_count());
                                assert(self.steps_run@ == old(self).steps() + (s as nat));
                                assert(self.trace@ == partial_draw_trace(
                                    old(self).trace(),
                                    s as nat,
                                    old(self).scene_count(),
                                    i as int,
                                ));
                            }
                            return Err(ThrustlerError::GraphicalBackendError);
                        }
                        proof {
                            assert(step_calls(n).take(2 * (i + 1) as int) == step_calls(n).take(
                                2 * (i as int + 1),
                            ));
                        }
                        i = i + 1;
                    }
                    proof {
                        assert(step_calls(n).take(2 * count as int) =~= step_calls(n));
                        assert(steps_calls(s as nat + 1, n) == steps_calls(s as nat, n)
                            + step_calls(n));
                        assert(old(self).trace@ + steps_calls(s as nat, n) + step_calls(n) =~= old(
                            self,
                        ).trace@ + steps_calls(s as nat + 1, n));
                    }
                    self.trace = Ghost(old(self).trace@ + steps_calls(s as nat + 1, n));
                    self.steps_run = Ghost(self.steps_run@ + 1);
                    s = s + 1;
                }
                proof {
                    lemma_steps_calls_add(old(self).steps_run@, s as nat, n);
                    assert(self.trace@ =~= start_calls(n) + steps_calls(self.steps_run@, n));
                    if steps == 0 {
                        assert(self.trace@ =~= old(self).trace@);
                    }
                    if count == 0 {
                        lemma_steps_calls_no_scenes(s as nat);
                        assert(self.trace@ =~= old(self).trace@);
                    }
                }
                Ok(())
            },
        }
    }
}

/// The lifecycle order holds mid-run as well: while the engine is running,
/// scene `i` has received `on_start` exactly once, before any of its
/// updates and draws, and `on_destroy` not at all — whether or not a fatal
/// draw already ended the run inside a step.
pub proof fn lemma_lifecycle_order_running<S: Scene>(e: Engine<S>, i: int)
    requires
        e.wf(),
        e.phase() is Started,
        0 <= i < e.scene_count(),
    ensures
        ({
            let t = e.trace();
            &&& exists|p: int| 0 <= p < t.len() && t[p] == SceneCall::Start(i)
            &&& forall|p: int, q: int|
                (0 <= p < t.len() && 0 <= q < t.len() && t[p] == SceneCall::Start(i) && t[q]
                    == SceneCall::Start(i)) ==> p == q
            &&& forall|p: int, q: int|
                (0 <= p < t.len() && 0 <= q < t.len() && t[p] == SceneCall::Start(i) && (t[q]
                    == SceneCall::Update(i) || t[q] == SceneCall::Draw(i))) ==> p < q
            &&& forall|p: int| 0 <= p < t.len() ==> t[p] != SceneCall::Destroy(i)
        }),
{
    let t = e.trace();
    let n = e.scene_count();
    let k = e.steps();
    let a = start_calls(n);
    let m = steps_calls(k, n);
    lemma_steps_calls_elems(k, n);
    let j: int = if e.has_failed() {
        choose|j: int|
            0 <= j <= step_calls(n).len() && e.trace() == start_calls(n) + steps_calls(
                e.steps(),
                n,
            ) + step_calls(n).take(j)
    } else {
        0
    };
    let partial = step_calls(n).take(j);
    assert(t =~= a + m + partial);
    // Starts sit only in the start segment, at their scene's own index;
    // the step segment and the partial step hold updates and draws alone.
    assert forall|p: int| 0 <= p < t.len() && t[p] == SceneCall::Start(i) implies p == i by {
        if p < a.len() {
            assert(t[p] == a[p]);
        } else if p < a.len() + m.len() {
            assert(t[p] == m[p - a.len()]);
        } else {
            assert(t[p] == partial[p - a.len() - m.len()]);
            assert(partial[p - a.len() - m.len()] == step_calls(n)[p - a.len() - m.len()]);
        }
    }
    assert(t[i] == a[i]);
    assert forall|q: int|
        0 <= q < t.len() && (t[q] == SceneCall::Update(i) || t[q] == SceneCall::Draw(i)) implies q
        >= a.len() by {
        if q < a.len() {
            assert(t[q] == a[q]);
        }
    }
    assert forall|p: int| 0 <= p < t.len() implies t[p] != SceneCall::Destroy(i) by {
        if p < a.len() {
            assert(t[p] == a[p]);
        } else if p < a.len() + m.len() {
            assert(t[p] == m[p - a.len()]);
        } else {
            assert(t[p] == partial[p - a.len() - m.len()]);
            assert(partial[p - a.len() - m.len()] == step_calls(n)[p - a.len() - m.len()]);
        }
    }
}

/// Idempotent lifecycle order: over a completed run (the engine reached
/// `Stopped`), scene `i` received `on_start` exactly once, before any of
/// its updates and draws; and `on_destroy` exactly once, after all of
/// them — however many draw events occurred.
pub proof fn lemma_lifecycle_order<S: Scene>(e: Engine<S>, i: int)
    requires
        e.wf(),
        e.phase() is Stopped,
        0 <= i < e.scene_count(),
    ensures
        ({
            let t = e.trace();
            &&& exists|p: int| 0 <= p < t.len() && t[p] == SceneCall::Start(i)
            &&& forall|p: int, q: int|
                (0 <= p < t.len() && 0 <= q < t.len() && t[p] == SceneCall::Start(i) && t[q]
                    == SceneCall::Start(i)) ==> p == q
            &&& forall|p: int, q: int|
                (0 <= p < t.len() && 0 <= q < t.len() && t[p] == SceneCall::Start(i) && (t[q]
                    == SceneCall::Update(i) || t[q] == SceneCall::Draw(i))) ==> p < q
            &&& exists|p: int| 0 <= p < t.len() && t[p] == SceneCall::Destroy(i)
            &&& forall|p: int, q: int|
                (0 <= p < t.len() && 0 <= q < t.len() && t[p] == SceneCall::Destroy(i) && t[q]
                    == SceneCall::Destroy(i)) ==> p == q
            &&& forall|p: int, q: int|
                (0 <= p < t.len() && 0 <= q < t.len() && t[p] == SceneCall::Destroy(i) && (t[q]
                    == SceneCall::Update(i) || t[q] == SceneCall::Draw(i))) ==> q < p
        }),
{
    let t = e.trace();
    let n = e.scene_count();
    let k = e.steps();
    let a = start_calls(n);
    let m = steps_calls(k, n);
    let z = destroy_calls(n);
    lemma_steps_calls_elems(k, n);
    assert(t == a + m + z);
    // Starts sit only in the start segment, at their scene's own index.
    assert forall|p: int| 0 <= p < t.len() && t[p] == SceneCall::Start(i) implies p == i by {
        if p < a.len() {
            assert(t[p] == a[p]);
        } else if p < a.len() + m.len() {
            assert(t[p] == m[p - a.len()]);
        } else {
            assert(t[p] == z[p - a.len() - m.len()]);
        }
    }
    assert(t[i] == a[i]);
    // Destroys sit only in the destroy segment, at a fixed position.
    assert forall|p: int| 0 <= p < t.len() && t[p] == SceneCall::Destroy(i) implies p == a.len()
        + m.len() + i by {
        if p < a.len() {
            assert(t[p] == a[p]);
        } else if p < a.len() + m.len() {
            assert(t[p] == m[p - a.len()]);
        } else {
            assert(t[p] == z[p - a.len() - m.len()]);
        }
    }
    assert(t[a.len() + m.len() + i] == z[i]);
    // Updates and draws sit only in the step segment.
    assert forall|q: int|
        0 <= q < t.len() && (t[q] == SceneCall::Update(i) || t[q] == SceneCall::Draw(i)) implies
        a.len() <= q < a.len() + m.len() by {
        if q < a.len() {
            assert(t[q] == a[q]);
        } else if q < a.len() + m.len() {
            assert(t[q] == m[q - a.len()]);
        } else {
            assert(t[q] == z[q - a.len() - m.len()]);
        }
    }
}

} // verus!
