//! The per-frame submission pipeline.
//!
//! One frame runs in four steps: acquire a presentable target, record one
//! render pass over the scene's objects (marking, filling and sweeping the
//! buffer cache), submit the recorded work gated on the previous frame's
//! fence, and present. Acquire and present are performed by the GPU
//! collaborator; their outcomes are handed in here, and everything between
//! — which buffers to upload, which draws to issue, which buffers to free,
//! and whether a failure is fatal — is decided and verified here.
//!
//! Transient surface staleness (a suboptimal or out-of-date target) is not
//! an error: the frame is skipped and `Recreate` reported, and the caller
//! keeps running.
use vstd::prelude::*;

use crate::cache::BufferCache;
use crate::cache::CacheView;
use crate::cache::lemma_after_get_wf;
use crate::cache::lemma_after_mark_wf;
use crate::cache::lemma_after_sweep_wf;
use crate::cache::lemma_surviving_entry_of;
use crate::cache::lemma_surviving_used;
use crate::cache::lemma_sweep_keeps_used;
use crate::cache::lemma_sweep_removes_unused;
use crate::cache::seq_has_id;
use crate::cache::surviving;
use crate::cache::with_used;
use crate::game_objects::GameObject;
use crate::game_objects::Vertex;

verus! {

/// Outcome of requesting the next presentable target, as reported by the
/// GPU collaborator.
#[derive(Debug, Clone, Copy, PartialEq, Eq, Structural)]
pub enum AcquireOutcome {
    /// A target is available; the payload is its image index.
    Acquired(u32),
    /// The surface is usable but mismatched (e.g. mid-resize): skip the
    /// frame and flag for recreation.
    Suboptimal,
    /// The surface is lost: fatal.
    Fatal,
}

/// Outcome of requesting presentation of the acquired target.
#[derive(Debug, Clone, Copy, PartialEq, Eq, Structural)]
pub enum PresentOutcome {
    Presented,
    /// The surface no longer matches the target: skip and flag for
    /// recreation.
    OutOfDate,
    /// Presentation failed for another reason: fatal.
    Fatal,
}

/// How a frame ended: completed, skipped pending surface recreation, or
/// failed fatally.
#[derive(Debug, Clone, Copy, PartialEq, Eq, Structural)]
pub enum BufferExecutorResult {
    Done,
    Recreate,
    Fail,
}

/// One draw call: bind the named vertex buffer, draw its vertices.
#[derive(Debug, Clone, Copy, PartialEq, Eq, Structural)]
pub struct DrawCommand {
    pub buffer: u64,
    pub vertex_count: usize,
}

/// One upload: create the named buffer with these vertices before drawing.
#[derive(Debug)]
pub struct UploadCommand {
    pub buffer: u64,
    pub vertices: Vec<Vertex>,
}

/// The mathematical content of an upload command.
pub open spec fn upload_views(s: Seq<UploadCommand>) -> Seq<(u64, Seq<Vertex>)> {
    s.map_values(|u: UploadCommand| (u.buffer, u.vertices@))
}

/// Everything the GPU collaborator must do to realize one recorded frame:
/// upload the new buffers, issue the draws in order inside the render pass,
/// and free the swept buffers once the frame completes.
#[derive(Debug)]
pub struct FramePlan {
    /// The image index the target was acquired under.
    pub target_index: u32,
    pub uploads: Vec<UploadCommand>,
    pub draws: Vec<DrawCommand>,
    pub frees: Vec<u64>,
}

/// Outcome of beginning a frame: skipped (with the result to report), or
/// submitted with the plan to execute.
#[derive(Debug)]
pub enum FrameOutcome {
    Skipped(BufferExecutorResult),
    Submitted(FramePlan),
}

/// Spec-level result of recording a frame over the cache: the cache state
/// after the gets, plus the draws and uploads accumulated in order.
#[verifier::ext_equal]
pub struct FrameRecording {
    pub cache: CacheView,
    pub draws: Seq<DrawCommand>,
    pub uploads: Seq<(u64, Seq<Vertex>)>,
}

/// Folding `get_or_create` over the object list in order, accumulating one
/// draw per object and one upload per cache miss.
pub open spec fn run_gets(c: CacheView, objs: Seq<GameObject>) -> FrameRecording
    decreases objs.len(),
{
    if objs.len() == 0 {
        FrameRecording { cache: c, draws: Seq::empty(), uploads: Seq::empty() }
    } else {
        let prev = run_gets(c, objs.drop_last());
        let o = objs.last();
        let (c1, b, fresh) = prev.cache.after_get(o.id, o.vertices@.len() as usize);
        FrameRecording {
            cache: c1,
            draws: prev.draws.push(
                DrawCommand { buffer: b, vertex_count: o.vertices@.len() as usize },
            ),
            uploads: if fresh {
                prev.uploads.push((b, o.vertices@))
            } else {
                prev.uploads
            },
        }
    }
}

/// Spec-level recording of one whole frame: clear every used-flag, fold the
/// gets over the object list, then sweep. The second component is the
/// handles the sweep released.
pub open spec fn record_spec(c: CacheView, objs: Seq<GameObject>) -> (FrameRecording, Seq<u64>) {
    let rec = run_gets(c.after_mark(), objs);
    let (swept, freed) = rec.cache.after_sweep();
    (FrameRecording { cache: swept, draws: rec.draws, uploads: rec.uploads }, freed)
}

/// The state the submitter carries across frames: the buffer cache, and
/// whether a completion token for the previous frame's GPU work is still
/// outstanding (there is never more than one).
#[verifier::ext_equal]
pub struct SubmitterView {
    pub cache: CacheView,
    pub fence_outstanding: bool,
}

/// Records frames against the buffer cache and classifies the collaborator
/// outcomes of acquire and present.
#[derive(Debug)]
pub struct FrameSubmitter {
    cache: BufferCache,
    fence_outstanding: bool,
}

impl View for FrameSubmitter {
    type V = SubmitterView;

    closed spec fn view(&self) -> SubmitterView {
        SubmitterView { cache: self.cache@, fence_outstanding: self.fence_outstanding }
    }
}

impl FrameSubmitter {
    /// A fresh submitter: empty cache, no outstanding completion token.
    pub fn new() -> (s: FrameSubmitter)
        ensures
            s@.cache.wf(),
            s@.cache.entries.len() == 0,
            s@.cache.uploads == 0,
            s@.cache.next_buffer == 0,
            !s@.fence_outstanding,
    {
        FrameSubmitter { cache: BufferCache::new(), fence_outstanding: false }
    }

    /// How many identities the cache currently holds.
    pub fn cached_objects(&self) -> (n: usize)
        ensures
            n == self@.cache.entries.len(),
    {
        self.cache.len()
    }

    /// How many uploads the cache has requested since construction.
    pub fn uploads_performed(&self) -> (n: u64)
        ensures
            n == self@.cache.uploads,
    {
        self.cache.uploads()
    }

    /// Whether a frame over this many objects stays within the handle and
    /// upload counters. Callers check this before `execute_buffer`.
    pub fn can_record(&self, object_count: usize) -> (r: bool)
        ensures
            r == (self@.cache.next_buffer + object_count <= u64::MAX && self@.cache.uploads
                + object_count <= u64::MAX),
    {
        let next = self.cache.next_buffer_handle();
        let ups = self.cache.uploads();
        (object_count as u64) <= u64::MAX - next && (object_count as u64) <= u64::MAX - ups
    }

    /// Begin one frame, given the collaborator's acquire outcome. A fatal
    /// acquire fails the frame and a suboptimal one skips it as `Recreate`,
    /// both leaving every cached buffer in place. With a target acquired,
    /// the frame is recorded — used-flags cleared, one get per object in
    /// list order, unmarked entries swept (see `record_spec`) — the
    /// previous frame's completion token is consumed into this submission,
    /// a new token is installed, and the plan to execute is returned.
    pub fn execute_buffer(&mut self, acquire: AcquireOutcome, game_objects: &Vec<GameObject>) -> (r:
        FrameOutcome)
        requires
            old(self)@.cache.wf(),
            old(self)@.cache.next_buffer + game_objects@.len() <= u64::MAX,
            old(self)@.cache.uploads + game_objects@.len() <= u64::MAX,
        ensures
            final(self)@.cache.wf(),
            acquire is Fatal ==> r == FrameOutcome::Skipped(BufferExecutorResult::Fail)
                && final(self)@ == old(self)@,
            acquire is Suboptimal ==> r == FrameOutcome::Skipped(BufferExecutorResult::Recreate)
                && final(self)@ == old(self)@,
            acquire matches AcquireOutcome::Acquired(idx) ==> ({
                let (rec, freed) = record_spec(old(self)@.cache, game_objects@);
                &&& r matches FrameOutcome::Submitted(plan) && plan.target_index == idx
                    && plan.draws@ == rec.draws && upload_views(plan.uploads@) == rec.uploads
                    && plan.frees@ == freed
                &&& final(self)@.cache == rec.cache
                &&& final(self)@.fence_outstanding
            }),
    {
        match acquire {
            AcquireOutcome::Fatal => FrameOutcome::Skipped(BufferExecutorResult::Fail),
            AcquireOutcome::Suboptimal => FrameOutcome::Skipped(BufferExecutorResult::Recreate),
            AcquireOutcome::Acquired(target_index) => {
                self.cache.mark_buffers_as_unused();
                let ghost marked = self@.cache;
                proof {
                    lemma_after_mark_wf(old(self)@.cache);
                }
                let n = game_objects.len();
                let mut draws: Vec<DrawCommand> = Vec::new();
                let mut uploads: Vec<UploadCommand> = Vec::new();
                let mut i: usize = 0;
                while i < n
                    invariant
                        n == game_objects@.len(),
                        0 <= i <= n,
                        marked == old(self)@.cache.after_mark(),
                        self@.fence_outstanding == old(self)@.fence_outstanding,
                        self@.cache.wf(),
                        self@.cache == run_gets(marked, game_objects@.take(i as int)).cache,
                        draws@ == run_gets(marked, game_objects@.take(i as int)).draws,
                        upload_views(uploads@) == run_gets(
                            marked,
                            game_objects@.take(i as int),
                        ).uploads,
                        self@.cache.next_buffer + (n - i) <= u64::MAX,
                        self@.cache.uploads + (n - i) <= u64::MAX,
                    decreases n - i,
                {
                    let obj = &game_objects[i];
                    let vertex_count = obj.vertices.len();
                    let (buffer, fresh) = self.cache.get_or_create(obj);
                    draws.push(DrawCommand { buffer, vertex_count });
                    if fresh {
                        uploads.push(
                            UploadCommand { buffer, vertices: copy_vertices(&obj.vertices) },
                        );
                    }
                    proof {
                        let taken = game_objects@.take(i + 1 as int);
                        assert(taken.drop_last() =~= game_objects@.take(i as int));
                        assert(taken.last() == game_objects@[i as int]);
                        assert(upload_views(uploads@) =~= run_gets(marked, taken).uploads);
                    }
                    i = i + 1;
                }
                proof {
                    assert(game_objects@.take(n as int) =~= game_objects@);
                }
                let frees = self.cache.delete_all_unused_buffers();
                self.fence_outstanding = true;
                proof {
                    lemma_after_sweep_wf(run_gets(marked, game_objects@).cache);
                }
                FrameOutcome::Submitted(FramePlan { target_index, uploads, draws, frees })
            },
        }
    }

    /// Classify the present outcome that ends the frame: success completes
    /// it (`Done`), a stale surface skips it (`Recreate`), anything else is
    /// fatal (`Fail`). The submitter is unchanged: the completion token
    /// installed at submission stays outstanding until the next frame
    /// consumes it.
    pub fn finish_frame(&self, present: PresentOutcome) -> (r: BufferExecutorResult)
        ensures
            present is Presented ==> r == BufferExecutorResult::Done,
            present is OutOfDate ==> r == BufferExecutorResult::Recreate,
            present is Fatal ==> r == BufferExecutorResult::Fail,
    {
        match present {
            PresentOutcome::Presented => BufferExecutorResult::Done,
            PresentOutcome::OutOfDate => BufferExecutorResult::Recreate,
            PresentOutcome::Fatal => BufferExecutorResult::Fail,
        }
    }
}

/// Whether some object of the list carries the identity.
pub open spec fn objs_has_id(objs: Seq<GameObject>, id: u128) -> bool {
    exists|m: int| 0 <= m < objs.len() && objs[m].id == id
}

/// How `run_gets` transforms the cache: existing entries keep their slot,
/// identity, buffer and vertex count; the used-flag only ever rises, and
/// only for identities in the object list; appended entries carry listed
/// identities and are marked used; every listed identity ends up cached and
/// marked used; and the counters grow by at most one per object.
pub proof fn lemma_run_gets_structure(c: CacheView, objs: Seq<GameObject>)
    requires
        c.wf(),
        c.next_buffer + objs.len() <= u64::MAX,
        c.uploads + objs.len() <= u64::MAX,
    ensures
        ({
            let rc = run_gets(c, objs).cache;
            &&& rc.wf()
            &&& c.entries.len() <= rc.entries.len()
            &&& c.next_buffer <= rc.next_buffer <= c.next_buffer + objs.len()
            &&& c.uploads <= rc.uploads <= c.uploads + objs.len()
            &&& forall|k: int|
                0 <= k < c.entries.len() ==> {
                    let e = #[trigger] rc.entries[k];
                    &&& e.object_id == c.entries[k].object_id
                    &&& e.buffer == c.entries[k].buffer
                    &&& e.vertex_count == c.entries[k].vertex_count
                    &&& (c.entries[k].used ==> e.used)
                    &&& (e.used && !c.entries[k].used ==> objs_has_id(objs, e.object_id))
                }
            &&& forall|k: int|
                c.entries.len() <= k < rc.entries.len() ==> objs_has_id(
                    objs,
                    (#[trigger] rc.entries[k]).object_id,
                ) && rc.entries[k].used
            &&& forall|x: u128|
                #[trigger] objs_has_id(objs, x) ==> exists|k: int|
                    0 <= k < rc.entries.len() && (#[trigger] rc.entries[k]).object_id == x
                        && rc.entries[k].used
        }),
    decreases objs.len(),
{
    if objs.len() == 0 {
    } else {
        let head = objs.drop_last();
        lemma_run_gets_structure(c, head);
        let prev = run_gets(c, head).cache;
        let o = objs.last();
        lemma_after_get_wf(prev, o.id, o.vertices@.len() as usize);
        let rc = run_gets(c, objs).cache;
        assert forall|x: u128| objs_has_id(head, x) implies #[trigger] objs_has_id(objs, x) by {
            let m = choose|m: int| 0 <= m < head.len() && head[m].id == x;
            assert(objs[m].id == x);
        }
        assert(objs_has_id(objs, o.id)) by {
            assert(objs[objs.len() - 1].id == o.id);
        }
        if prev.has_id(o.id) {
            let w = prev.index_of(o.id);
            assert(rc.entries =~= prev.entries.update(w, rc.entries[w]));
            assert forall|x: u128| #[trigger] objs_has_id(objs, x) implies exists|k: int|
                0 <= k < rc.entries.len() && (#[trigger] rc.entries[k]).object_id == x
                    && rc.entries[k].used by {
                if x == o.id {
                    assert(rc.entries[w].object_id == x && rc.entries[w].used);
                } else {
                    let m = choose|m: int| 0 <= m < objs.len() && objs[m].id == x;
                    assert(0 <= m < head.len() && head[m].id == x);
                    assert(objs_has_id(head, x));
                    let k = choose|k: int|
                        0 <= k < prev.entries.len() && (#[trigger] prev.entries[k]).object_id == x
                            && prev.entries[k].used;
                    assert(rc.entries[k].object_id == x && rc.entries[k].used);
                }
            }
        } else {
            assert forall|x: u128| #[trigger] objs_has_id(objs, x) implies exists|k: int|
                0 <= k < rc.entries.len() && (#[trigger] rc.entries[k]).object_id == x
                    && rc.entries[k].used by {
                if x == o.id {
                    let w = prev.entries.len() as int;
                    assert(rc.entries[w].object_id == x && rc.entries[w].used);
                } else {
                    let m = choose|m: int| 0 <= m < objs.len() && objs[m].id == x;
                    assert(0 <= m < head.len() && head[m].id == x);
                    assert(objs_has_id(head, x));
                    let k = choose|k: int|
                        0 <= k < prev.entries.len() && (#[trigger] prev.entries[k]).object_id == x
                            && prev.entries[k].used;
                    assert(rc.entries[k].object_id == x && rc.entries[k].used);
                }
            }
        }
    }
}

/// Cache eviction: an identity cached before the frame but absent from the
/// frame's object list has its entry removed by the end of the recording
/// and its handle released; an object reappearing under that identity in a
/// later frame triggers a fresh upload under a handle never seen before.
pub proof fn lemma_cache_eviction(
    c: CacheView,
    objs: Seq<GameObject>,
    id: u128,
    vertex_count: usize,
)
    requires
        c.wf(),
        c.has_id(id),
        forall|m: int| 0 <= m < objs.len() ==> objs[m].id != id,
        c.next_buffer + objs.len() < u64::MAX,
        c.uploads + objs.len() < u64::MAX,
    ensures
        ({
            let (rec, freed) = record_spec(c, objs);
            let (c3, b3, fresh3) = rec.cache.after_get(id, vertex_count);
            &&& !rec.cache.has_id(id)
            &&& freed.contains(c.buffer_for(id))
            &&& fresh3 == true
            &&& b3 != c.buffer_for(id)
            &&& c3.uploads == rec.cache.uploads + 1
        }),
{
    let marked = c.after_mark();
    lemma_after_mark_wf(c);
    lemma_run_gets_structure(marked, objs);
    let rc = run_gets(marked, objs).cache;
    let w = c.index_of(id);
    assert(0 <= w < c.entries.len() && c.entries[w].object_id == id);
    assert(marked.entries[w] == with_used(c.entries[w], false));
    assert(!objs_has_id(objs, id));
    assert(rc.entries[w].object_id == id && !rc.entries[w].used && rc.entries[w].buffer
        == c.buffer_for(id));
    lemma_sweep_removes_unused(rc.entries, w);
    let (rec, freed) = record_spec(c, objs);
    assert(!rec.cache.has_id(id)) by {
        assert(!seq_has_id(surviving(rc.entries), id));
    }
    assert(freed.contains(c.buffer_for(id)));
    assert(c.buffer_for(id) < c.next_buffer);
    assert(rec.cache.next_buffer == rc.next_buffer);
}

/// After a frame's recording the cache holds exactly the identities of the
/// frame's object list: bounded memory, one buffer per visited identity.
pub proof fn lemma_record_exact_ids(c: CacheView, objs: Seq<GameObject>)
    requires
        c.wf(),
        c.next_buffer + objs.len() <= u64::MAX,
        c.uploads + objs.len() <= u64::MAX,
    ensures
        forall|x: u128| record_spec(c, objs).0.cache.has_id(x) <==> objs_has_id(objs, x),
{
    let marked = c.after_mark();
    lemma_after_mark_wf(c);
    lemma_run_gets_structure(marked, objs);
    let rc = run_gets(marked, objs).cache;
    let swept = record_spec(c, objs).0.cache;
    lemma_surviving_entry_of(rc.entries);
    lemma_surviving_used(rc.entries);
    assert forall|x: u128| swept.has_id(x) implies objs_has_id(objs, x) by {
        let m = choose|m: int|
            0 <= m < swept.entries.len() && (#[trigger] swept.entries[m]).object_id == x;
        let k = choose|k: int|
            0 <= k < rc.entries.len() && #[trigger] surviving(rc.entries)[m]
                == rc.entries[k];
        assert(rc.entries[k].object_id == x && rc.entries[k].used);
        if k < marked.entries.len() {
            assert(!marked.entries[k].used);
            assert(objs_has_id(objs, rc.entries[k].object_id));
        } else {
            assert(objs_has_id(objs, rc.entries[k].object_id));
        }
    }
    assert forall|x: u128| objs_has_id(objs, x) implies swept.has_id(x) by {
        let k = choose|k: int|
            0 <= k < rc.entries.len() && (#[trigger] rc.entries[k]).object_id == x
                && rc.entries[k].used;
        lemma_sweep_keeps_used(rc.entries, k);
        let m = choose|m: int|
            0 <= m < surviving(rc.entries).len()
                && surviving(rc.entries)[m] == rc.entries[k];
        assert(swept.entries[m].object_id == x);
    }
}

/// A recorded frame issues exactly one draw per object in list order, each
/// over the object's own vertex count.
pub proof fn lemma_one_draw_per_object(c: CacheView, objs: Seq<GameObject>)
    requires
        c.wf(),
        c.next_buffer + objs.len() <= u64::MAX,
        c.uploads + objs.len() <= u64::MAX,
    ensures
        record_spec(c, objs).0.draws.len() == objs.len(),
        forall|i: int|
            0 <= i < objs.len() ==> (#[trigger] record_spec(c, objs).0.draws[i]).vertex_count
                == objs[i].vertices@.len() as usize,
{
    lemma_after_mark_wf(c);
    lemma_run_gets_draws(c.after_mark(), objs);
}

proof fn lemma_run_gets_draws(c: CacheView, objs: Seq<GameObject>)
    requires
        c.wf(),
        c.next_buffer + objs.len() <= u64::MAX,
        c.uploads + objs.len() <= u64::MAX,
    ensures
        run_gets(c, objs).draws.len() == objs.len(),
        forall|i: int|
            0 <= i < objs.len() ==> (#[trigger] run_gets(c, objs).draws[i]).vertex_count
                == objs[i].vertices@.len() as usize,
    decreases objs.len(),
{
    if objs.len() > 0 {
        lemma_run_gets_draws(c, objs.drop_last());
        assert forall|i: int| 0 <= i < objs.len() implies (#[trigger] run_gets(
            c,
            objs,
        ).draws[i]).vertex_count == objs[i].vertices@.len() as usize by {
            if i < objs.len() - 1 {
                assert(run_gets(c, objs).draws[i] == run_gets(c, objs.drop_last()).draws[i]);
                assert(objs.drop_last()[i] == objs[i]);
            }
        }
    }
}

/// A frame whose every identity is already cached performs no upload at
/// all, however many times it is drawn: the cache is keyed by identity and
/// a hit reuses the stored buffer.
pub proof fn lemma_cached_frame_uploads_nothing(c: CacheView, objs: Seq<GameObject>)
    requires
        c.wf(),
        c.next_buffer + objs.len() <= u64::MAX,
        c.uploads + objs.len() <= u64::MAX,
        forall|m: int| 0 <= m < objs.len() ==> c.has_id((#[trigger] objs[m]).id),
    ensures
        record_spec(c, objs).0.uploads.len() == 0,
        record_spec(c, objs).0.cache.uploads == c.uploads,
{
    let marked = c.after_mark();
    lemma_after_mark_wf(c);
    assert forall|m: int| 0 <= m < objs.len() implies marked.has_id((#[trigger] objs[m]).id) by {
        let k = choose|k: int|
            0 <= k < c.entries.len() && (#[trigger] c.entries[k]).object_id == objs[m].id;
        assert(marked.entries[k].object_id == objs[m].id);
    }
    lemma_run_gets_no_upload(marked, objs);
}

proof fn lemma_run_gets_no_upload(c: CacheView, objs: Seq<GameObject>)
    requires
        c.wf(),
        c.next_buffer + objs.len() <= u64::MAX,
        c.uploads + objs.len() <= u64::MAX,
        forall|m: int| 0 <= m < objs.len() ==> c.has_id((#[trigger] objs[m]).id),
    ensures
        run_gets(c, objs).uploads.len() == 0,
        run_gets(c, objs).cache.uploads == c.uploads,
    decreases objs.len(),
{
    if objs.len() > 0 {
        let head = objs.drop_last();
        assert forall|m: int| 0 <= m < head.len() implies c.has_id((#[trigger] head[m]).id) by {
            assert(head[m] == objs[m]);
        }
        lemma_run_gets_no_upload(c, head);
        lemma_run_gets_structure(c, head);
        let prev = run_gets(c, head).cache;
        let o = objs.last();
        assert(c.has_id(o.id)) by {
            assert(objs[objs.len() - 1].id == o.id);
        }
        assert(prev.has_id(o.id)) by {
            let k = choose|k: int|
                0 <= k < c.entries.len() && (#[trigger] c.entries[k]).object_id == o.id;
            assert(prev.entries[k].object_id == o.id);
        }
    }
}

/// An owned copy of vertex data, for an upload command.
fn copy_vertices(src: &Vec<Vertex>) -> (r: Vec<Vertex>)
    ensures
        r@ == src@,
{
    let n = src.len();
    let mut r: Vec<Vertex> = Vec::new();
    let mut i: usize = 0;
    while i < n
        invariant
            n == src.len(),
            0 <= i <= n,
            r@ == src@.take(i as int),
        decreases n - i,
    {
        r.push(src[i]);
        proof {
            assert(src@.take(i + 1 as int) =~= src@.take(i as int).push(src@[i as int]));
        }
        i = i + 1;
    }
    proof {
        assert(src@.take(n as int) =~= src@);
    }
    r
}

} // verus!
