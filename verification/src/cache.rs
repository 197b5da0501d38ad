//! The GPU buffer cache: object identity -> uploaded vertex buffer.
//!
//! The cache amortizes upload cost across frames with a mark-and-sweep
//! eviction policy. At the start of a frame's recording every entry's
//! used-flag is cleared; each object drawn marks (or creates) its entry;
//! after recording, every entry still unmarked is deleted and its buffer
//! released. An entry's buffer is never re-uploaded while its identity
//! stays in the scene: the cache is keyed purely by identity, not content.
//!
//! Buffers themselves live with the GPU collaborator; the cache names them
//! by handle. Handles are assigned from a counter that never repeats, so a
//! swept identity that reappears gets a fresh upload under a fresh handle.
use vstd::prelude::*;

use crate::game_objects::GameObject;

verus! {

/// One cache slot: an identity, the handle and vertex count of its uploaded
/// buffer, and whether the identity was drawn this frame.
#[derive(Debug, Clone, Copy, PartialEq, Eq, Structural)]
pub struct CacheEntry {
    pub object_id: u128,
    pub buffer: u64,
    pub vertex_count: usize,
    pub used: bool,
}

/// `e` with its used-flag replaced.
pub open spec fn with_used(e: CacheEntry, used: bool) -> CacheEntry {
    CacheEntry { object_id: e.object_id, buffer: e.buffer, vertex_count: e.vertex_count, used }
}

/// The entries that survive a sweep: those marked used, in order.
pub open spec fn surviving(s: Seq<CacheEntry>) -> Seq<CacheEntry>
    decreases s.len(),
{
    if s.len() == 0 {
        Seq::empty()
    } else {
        let rest = surviving(s.drop_last());
        if s.last().used {
            rest.push(s.last())
        } else {
            rest
        }
    }
}

/// The buffer handles a sweep releases: those of unused entries, in order.
pub open spec fn swept_buffers(s: Seq<CacheEntry>) -> Seq<u64>
    decreases s.len(),
{
    if s.len() == 0 {
        Seq::empty()
    } else {
        let rest = swept_buffers(s.drop_last());
        if !s.last().used {
            rest.push(s.last().buffer)
        } else {
            rest
        }
    }
}

/// Whether some entry of the list carries the identity.
pub open spec fn seq_has_id(s: Seq<CacheEntry>, id: u128) -> bool {
    exists|i: int| 0 <= i < s.len() && s[i].object_id == id
}

/// Mathematical state of the buffer cache: the entry list, the next unused
/// buffer handle, and how many uploads have been performed in total.
#[verifier::ext_equal]
pub struct CacheView {
    pub entries: Seq<CacheEntry>,
    pub next_buffer: u64,
    pub uploads: u64,
}

impl CacheView {
    /// At most one entry per identity, and every assigned handle is below
    /// the handle counter (so a fresh handle never collides).
    pub open spec fn wf(self) -> bool {
        &&& forall|i: int, j: int|
            0 <= i < j < self.entries.len() ==> self.entries[i].object_id
                != self.entries[j].object_id
        &&& forall|i: int| 0 <= i < self.entries.len() ==> self.entries[i].buffer < self.next_buffer
    }

    pub open spec fn has_id(self, id: u128) -> bool {
        seq_has_id(self.entries, id)
    }

    pub open spec fn index_of(self, id: u128) -> int {
        choose|i: int| 0 <= i < self.entries.len() && self.entries[i].object_id == id
    }

    /// The buffer handle cached for `id` (meaningful when `has_id`).
    pub open spec fn buffer_for(self, id: u128) -> u64 {
        self.entries[self.index_of(id)].buffer
    }

    /// The cache after clearing every used-flag (start of a recording).
    pub open spec fn after_mark(self) -> CacheView {
        CacheView {
            entries: Seq::new(self.entries.len(), |i: int| with_used(self.entries[i], false)),
            next_buffer: self.next_buffer,
            uploads: self.uploads,
        }
    }

    /// The cache after `get_or_create(id)`, with the handle returned and
    /// whether a fresh upload was performed: a present identity is marked
    /// used and its buffer returned unchanged; an absent one gets the next
    /// handle, one more upload, and a new entry marked used.
    pub open spec fn after_get(self, id: u128, vertex_count: usize) -> (CacheView, u64, bool) {
        if self.has_id(id) {
            let i = self.index_of(id);
            (
                CacheView {
                    entries: self.entries.update(i, with_used(self.entries[i], true)),
                    next_buffer: self.next_buffer,
                    uploads: self.uploads,
                },
                self.entries[i].buffer,
                false,
            )
        } else {
            (
                CacheView {
                    entries: self.entries.push(
                        CacheEntry {
                            object_id: id,
                            buffer: self.next_buffer,
                            vertex_count,
                            used: true,
                        },
                    ),
                    next_buffer: (self.next_buffer + 1) as u64,
                    uploads: (self.uploads + 1) as u64,
                },
                self.next_buffer,
                true,
            )
        }
    }

    /// The cache after a sweep, with the handles released.
    pub open spec fn after_sweep(self) -> (CacheView, Seq<u64>) {
        (
            CacheView {
                entries: surviving(self.entries),
                next_buffer: self.next_buffer,
                uploads: self.uploads,
            },
            swept_buffers(self.entries),
        )
    }
}

/// Every surviving entry is an entry of the original list.
pub proof fn lemma_surviving_entry_of(s: Seq<CacheEntry>)
    ensures
        forall|k: int|
            0 <= k < surviving(s).len() ==> exists|j: int|
                0 <= j < s.len() && #[trigger] surviving(s)[k] == s[j],
    decreases s.len(),
{
    if s.len() > 0 {
        lemma_surviving_entry_of(s.drop_last());
        assert forall|k: int| 0 <= k < surviving(s).len() implies exists|j: int|
            0 <= j < s.len() && #[trigger] surviving(s)[k] == s[j] by {
            let rest = surviving(s.drop_last());
            if k < rest.len() {
                let j = choose|j: int| 0 <= j < s.drop_last().len() && rest[k] == s.drop_last()[j];
                assert(surviving(s)[k] == s[j]);
            } else {
                assert(surviving(s)[k] == s[s.len() - 1]);
            }
        }
    }
}

/// Every surviving entry carries a set used-flag.
pub proof fn lemma_surviving_used(s: Seq<CacheEntry>)
    ensures
        forall|m: int| 0 <= m < surviving(s).len() ==> (#[trigger] surviving(s)[m]).used,
    decreases s.len(),
{
    if s.len() > 0 {
        lemma_surviving_used(s.drop_last());
        let rest = surviving(s.drop_last());
        assert forall|m: int| 0 <= m < surviving(s).len() implies (#[trigger] surviving(
            s,
        )[m]).used by {
            if m < rest.len() {
                assert(surviving(s)[m] == rest[m]);
            }
        }
    }
}

/// A sweep keeps identities distinct.
pub proof fn lemma_surviving_distinct(s: Seq<CacheEntry>)
    requires
        forall|i: int, j: int| 0 <= i < j < s.len() ==> s[i].object_id != s[j].object_id,
    ensures
        forall|i: int, j: int|
            0 <= i < j < surviving(s).len() ==> surviving(s)[i].object_id
                != surviving(s)[j].object_id,
    decreases s.len(),
{
    if s.len() > 0 {
        lemma_surviving_distinct(s.drop_last());
        lemma_surviving_entry_of(s.drop_last());
        let rest = surviving(s.drop_last());
        if s.last().used {
            assert forall|i: int, j: int| 0 <= i < j < surviving(s).len() implies surviving(
                s,
            )[i].object_id != surviving(s)[j].object_id by {
                if j == rest.len() {
                    let m = choose|m: int|
                        0 <= m < s.drop_last().len() && rest[i] == s.drop_last()[m];
                    assert(s[m].object_id != s[s.len() - 1].object_id);
                }
            }
        }
    }
}

/// Clearing the used-flags preserves well-formedness.
pub proof fn lemma_after_mark_wf(c: CacheView)
    requires
        c.wf(),
    ensures
        c.after_mark().wf(),
{
}

/// `get_or_create` preserves well-formedness, never lowers the handle
/// counter or the upload count, and leaves the identity cached.
pub proof fn lemma_after_get_wf(c: CacheView, id: u128, vertex_count: usize)
    requires
        c.wf(),
        c.next_buffer < u64::MAX,
        c.uploads < u64::MAX,
    ensures
        c.after_get(id, vertex_count).0.wf(),
        c.after_get(id, vertex_count).0.next_buffer >= c.next_buffer,
        c.after_get(id, vertex_count).0.uploads >= c.uploads,
        c.after_get(id, vertex_count).0.has_id(id),
        forall|other: u128| c.has_id(other) ==> c.after_get(id, vertex_count).0.has_id(other),
{
    let (c1, b, fresh) = c.after_get(id, vertex_count);
    if c.has_id(id) {
        let w = c.index_of(id);
        assert(c1.entries[w].object_id == id);
        assert forall|other: u128| c.has_id(other) implies c1.has_id(other) by {
            let k = choose|k: int| 0 <= k < c.entries.len() && c.entries[k].object_id == other;
            assert(c1.entries[k].object_id == other);
        }
    } else {
        assert(c1.entries[c.entries.len() as int].object_id == id);
        assert forall|other: u128| c.has_id(other) implies c1.has_id(other) by {
            let k = choose|k: int| 0 <= k < c.entries.len() && c.entries[k].object_id == other;
            assert(c1.entries[k].object_id == other);
        }
    }
}

/// A sweep preserves well-formedness.
pub proof fn lemma_after_sweep_wf(c: CacheView)
    requires
        c.wf(),
    ensures
        c.after_sweep().0.wf(),
{
    lemma_surviving_distinct(c.entries);
    lemma_surviving_entry_of(c.entries);
}

/// An entry still unmarked at sweep time is deleted and its handle released.
pub proof fn lemma_sweep_removes_unused(s: Seq<CacheEntry>, k: int)
    requires
        0 <= k < s.len(),
        !s[k].used,
        forall|i: int, j: int| 0 <= i < j < s.len() ==> s[i].object_id != s[j].object_id,
    ensures
        !seq_has_id(surviving(s), s[k].object_id),
        swept_buffers(s).contains(s[k].buffer),
    decreases s.len(),
{
    lemma_surviving_entry_of(s);
    lemma_surviving_used(s);
    assert forall|m: int| 0 <= m < surviving(s).len() implies surviving(s)[m].object_id
        != s[k].object_id by {
        let j = choose|j: int| 0 <= j < s.len() && #[trigger] surviving(s)[m] == s[j];
        if j < k {
            assert(s[j].object_id != s[k].object_id);
        } else if j > k {
            assert(s[k].object_id != s[j].object_id);
        } else {
            assert(surviving(s)[m].used);
        }
    }
    if s.len() - 1 == k {
        assert(swept_buffers(s) == swept_buffers(s.drop_last()).push(s[k].buffer));
        assert(swept_buffers(s)[swept_buffers(s).len() - 1] == s[k].buffer);
    } else {
        assert(s.drop_last()[k] == s[k]);
        lemma_sweep_removes_unused(s.drop_last(), k);
        let m = choose|m: int|
            0 <= m < swept_buffers(s.drop_last()).len() && swept_buffers(s.drop_last())[m]
                == s[k].buffer;
        assert(swept_buffers(s)[m] == s[k].buffer);
    }
}

/// An entry marked used at sweep time survives the sweep unchanged.
pub proof fn lemma_sweep_keeps_used(s: Seq<CacheEntry>, k: int)
    requires
        0 <= k < s.len(),
        s[k].used,
    ensures
        exists|m: int| 0 <= m < surviving(s).len() && surviving(s)[m] == s[k],
    decreases s.len(),
{
    if s.len() - 1 == k {
        assert(surviving(s)[surviving(s).len() - 1] == s[k]);
    } else {
        assert(s.drop_last()[k] == s[k]);
        lemma_sweep_keeps_used(s.drop_last(), k);
        let m = choose|m: int|
            0 <= m < surviving(s.drop_last()).len() && surviving(s.drop_last())[m] == s[k];
        assert(surviving(s)[m] == s[k]);
    }
}

/// Cache reuse: a second `get_or_create` for the same identity in the same
/// frame returns the identical buffer handle, performs no further upload,
/// and leaves the cache exactly as the first call left it.
pub proof fn lemma_cache_reuse(c: CacheView, id: u128, vc1: usize, vc2: usize)
    requires
        c.wf(),
        c.next_buffer < u64::MAX,
        c.uploads < u64::MAX,
    ensures
        ({
            let (c1, b1, f1) = c.after_get(id, vc1);
            let (c2, b2, f2) = c1.after_get(id, vc2);
            &&& b2 == b1
            &&& f2 == false
            &&& c2 == c1
        }),
{
    lemma_after_get_wf(c, id, vc1);
    let (c1, b1, f1) = c.after_get(id, vc1);
    let (c2, b2, f2) = c1.after_get(id, vc2);
    let w1 = if c.has_id(id) {
        c.index_of(id)
    } else {
        c.entries.len() as int
    };
    assert(c1.entries[w1].object_id == id && c1.entries[w1].used && c1.entries[w1].buffer == b1);
    let w2 = c1.index_of(id);
    assert(w2 == w1) by {
        if w2 < w1 {
            assert(c1.entries[w2].object_id != c1.entries[w1].object_id);
        } else if w2 > w1 {
            assert(c1.entries[w1].object_id != c1.entries[w2].object_id);
        }
    }
    assert(c2.entries =~= c1.entries);
    assert(c2 =~= c1);
}

/// The executable buffer cache. Its mathematical value is a `CacheView`;
/// every operation's contract is exact over the `CacheView` transition
/// functions.
#[derive(Debug)]
pub struct BufferCache {
    entries: Vec<CacheEntry>,
    next_buffer: u64,
    uploads: u64,
}

impl View for BufferCache {
    type V = CacheView;

    closed spec fn view(&self) -> CacheView {
        CacheView { entries: self.entries@, next_buffer: self.next_buffer, uploads: self.uploads }
    }
}

impl BufferCache {
    /// An empty cache: no entries, no uploads performed, handles start at 0.
    pub fn new() -> (c: BufferCache)
        ensures
            c@.entries == Seq::<CacheEntry>::empty(),
            c@.next_buffer == 0,
            c@.uploads == 0,
            c@.wf(),
    {
        BufferCache { entries: Vec::new(), next_buffer: 0, uploads: 0 }
    }

    /// How many identities are currently cached.
    pub fn len(&self) -> (n: usize)
        ensures
            n == self@.entries.len(),
    {
        self.entries.len()
    }

    /// How many uploads the cache has requested since construction.
    pub fn uploads(&self) -> (n: u64)
        ensures
            n == self@.uploads,
    {
        self.uploads
    }

    /// The next buffer handle that would be assigned.
    pub fn next_buffer_handle(&self) -> (n: u64)
        ensures
            n == self@.next_buffer,
    {
        self.next_buffer
    }

    /// The position of the identity's entry, if one exists.
    fn find_index(&self, id: u128) -> (r: Option<usize>)
        ensures
            match r {
                Some(i) => 0 <= i < self@.entries.len() && self@.entries[i as int].object_id == id,
                None => forall|j: int| 0 <= j < self@.entries.len() ==> self@.entries[j].object_id
                    != id,
            },
    {
        let n = self.entries.len();
        let mut i: usize = 0;
        let mut found: Option<usize> = None;
        while i < n
            invariant
                n == self.entries.len(),
                0 <= i <= n,
                match found {
                    Some(k) => 0 <= k < n && self.entries@[k as int].object_id == id,
                    None => forall|j: int| 0 <= j < i ==> self.entries@[j].object_id != id,
                },
            ensures
                match found {
                    Some(k) => 0 <= k < n && self.entries@[k as int].object_id == id,
                    None => forall|j: int| 0 <= j < n ==> self.entries@[j].object_id != id,
                },
            decreases n - i,
        {
            if self.entries[i].object_id == id {
                found = Some(i);
                break ;
            }
            i = i + 1;
        }
        found
    }

    /// Whether an entry exists for the identity.
    pub fn contains(&self, id: u128) -> (r: bool)
        ensures
            r == self@.has_id(id),
    {
        match self.find_index(id) {
            Some(i) => {
                proof {
                    assert(self@.entries[i as int].object_id == id);
                }
                true
            },
            None => false,
        }
    }

    /// Clear every entry's used-flag; done once before each frame's
    /// recording.
    pub fn mark_buffers_as_unused(&mut self)
        ensures
            final(self)@ == old(self)@.after_mark(),
    {
        let n = self.entries.len();
        let mut i: usize = 0;
        while i < n
            invariant
                n == self.entries.len(),
                0 <= i <= n,
                self.next_buffer == old(self).next_buffer,
                self.uploads == old(self).uploads,
                forall|j: int| 0 <= j < i ==> self.entries@[j] == with_used(old(self).entries@[j], false),
                forall|j: int| i <= j < n ==> self.entries@[j] == old(self).entries@[j],
            decreases n - i,
        {
            self.entries[i].used = false;
            i = i + 1;
        }
        proof {
            assert(self@.entries =~= old(self)@.after_mark().entries);
            assert(self@ =~= old(self)@.after_mark());
        }
    }

    /// The buffer backing the object's identity, uploading on first sight:
    /// returns the handle and whether a fresh upload must be performed by
    /// the caller. A cache hit is marked used and returns the stored handle
    /// unchanged; a miss appends an entry under the next fresh handle.
    pub fn get_or_create(&mut self, game_object: &GameObject) -> (r: (u64, bool))
        requires
            old(self)@.wf(),
            old(self)@.next_buffer < u64::MAX,
            old(self)@.uploads < u64::MAX,
        ensures
            final(self)@.wf(),
            ({
                let (c, buffer, fresh) = old(self)@.after_get(
                    game_object.id,
                    game_object.vertices@.len() as usize,
                );
                final(self)@ == c && r.0 == buffer && r.1 == fresh
            }),
    {
        let id = game_object.id;
        match self.find_index(id) {
            Some(i) => {
                proof {
                    assert(old(self)@.entries[i as int].object_id == id);
                    assert(old(self)@.has_id(id));
                    let w = old(self)@.index_of(id);
                    assert(0 <= w < old(self)@.entries.len() && old(self)@.entries[w].object_id
                        == id);
                    assert(w == i) by {
                        if w < i as int {
                            assert(old(self)@.entries[w].object_id != old(
                                self,
                            )@.entries[i as int].object_id);
                        } else if w > i as int {
                            assert(old(self)@.entries[i as int].object_id != old(
                                self,
                            )@.entries[w].object_id);
                        }
                    }
                }
                let buffer = self.entries[i].buffer;
                self.entries[i].used = true;
                proof {
                    assert(self@.entries =~= old(self)@.after_get(
                        id,
                        game_object.vertices@.len() as usize,
                    ).0.entries);
                    assert(self@ =~= old(self)@.after_get(
                        id,
                        game_object.vertices@.len() as usize,
                    ).0);
                }
                (buffer, false)
            },
            None => {
                let buffer = self.next_buffer;
                let entry = CacheEntry {
                    object_id: id,
                    buffer,
                    vertex_count: game_object.vertices.len(),
                    used: true,
                };
                self.entries.push(entry);
                self.next_buffer = self.next_buffer + 1;
                self.uploads = self.uploads + 1;
                proof {
                    assert(!old(self)@.has_id(id));
                    assert(self@.entries =~= old(self)@.after_get(
                        id,
                        game_object.vertices@.len() as usize,
                    ).0.entries);
                    assert(self@ =~= old(self)@.after_get(
                        id,
                        game_object.vertices@.len() as usize,
                    ).0);
                }
                (buffer, true)
            },
        }
    }

    /// Delete every entry whose used-flag is still clear; done once after
    /// each frame's recording. Returns the released handles so the caller
    /// can free the buffers they name.
    pub fn delete_all_unused_buffers(&mut self) -> (freed: Vec<u64>)
        requires
            old(self)@.wf(),
        ensures
            final(self)@.wf(),
            ({
                let (c, swept) = old(self)@.after_sweep();
                final(self)@ == c && freed@ == swept
            }),
    {
        let n = self.entries.len();
        let mut kept: Vec<CacheEntry> = Vec::new();
        let mut freed: Vec<u64> = Vec::new();
        let mut i: usize = 0;
        while i < n
            invariant
                *self == *old(self),
                n == self.entries.len(),
                0 <= i <= n,
                old(self)@.wf(),
                kept@ == surviving(self.entries@.take(i as int)),
                freed@ == swept_buffers(self.entries@.take(i as int)),
            decreases n - i,
        {
            let e = self.entries[i];
            proof {
                assert(self.entries@.take(i + 1 as int).drop_last() =~= self.entries@.take(
                    i as int,
                ));
                assert(self.entries@.take(i + 1 as int).last() == self.entries@[i as int]);
            }
            if e.used {
                kept.push(e);
            } else {
                freed.push(e.buffer);
            }
            i = i + 1;
        }
        proof {
            assert(self.entries@.take(n as int) =~= self.entries@);
            assert(self.entries@ == old(self)@.entries);
            lemma_surviving_distinct(self.entries@);
            lemma_surviving_entry_of(self.entries@);
        }
        self.entries = kept;
        proof {
            assert(self@ =~= old(self)@.after_sweep().0);
        }
        freed
    }
}

} // verus!
