//! Maps the host's own frame ids to the library's frames.
//!
//! The host marks its frames with ids of its own (simulation start, present),
//! while the library hands out frame handles as frames begin. Handles wait in a
//! queue until a host id claims one; the newest handle is taken, since the host
//! marks simulation start on the frame it is beginning.
use vstd::prelude::*;

use crate::time::pause;

verus! {

/// An id the host gave one of its frames.
#[derive(Debug, Copy, Clone, PartialEq, Eq, Structural, PartialOrd, Ord, Hash)]
pub struct ReflexId(pub u64);

/// What a host id is bound to: a frame handle, or nothing because no handle
/// was waiting when the host id was first seen.
pub enum FrameState<F> {
    Bound(F),
    Untracked,
}

/// Handles waiting beyond this many are a sign that pairing went astray.
pub const MAX_QUEUED_FRAMES: usize = 8;

/// How long a recalibration lets the pipeline drain, in nanoseconds.
pub const RECALIBRATION_SLEEP: u64 = 200_000_000;

/// The tracker, as the contracts see it.
pub struct TrackerView<F> {
    pub need_recalibrate: bool,
    /// Host ids with their bindings, oldest first.
    pub bindings: Seq<(u64, FrameState<F>)>,
    /// Handles not bound yet, oldest first.
    pub queue: Seq<F>,
    pub last_present: Option<u64>,
}

pub struct ReflexMappingTracker<F> {
    need_recalibrate: bool,
    reflex_id_to_frame: Vec<(u64, FrameState<F>)>,
    frame_queue: Vec<F>,
    last_present: Option<u64>,
}

impl<F> View for ReflexMappingTracker<F> {
    type V = TrackerView<F>;

    closed spec fn view(&self) -> TrackerView<F> {
        TrackerView {
            need_recalibrate: self.need_recalibrate,
            bindings: self.reflex_id_to_frame@,
            queue: self.frame_queue@,
            last_present: self.last_present,
        }
    }
}

/// The binding of `id` in `b`, if any.
pub open spec fn lookup<F>(b: Seq<(u64, FrameState<F>)>, id: u64) -> Option<FrameState<F>>
    decreases b.len(),
{
    if b.len() == 0 {
        None
    } else if b[0].0 == id {
        Some(b[0].1)
    } else {
        lookup(b.drop_first(), id)
    }
}

/// Whether `id` is no later than the last presented host id.
pub open spec fn is_stale<F>(s: TrackerView<F>, id: u64) -> bool {
    s.last_present is Some && id <= s.last_present->Some_0
}

/// Binds host id `id`: a stale id gets nothing; a bound id keeps its binding;
/// otherwise the newest waiting handle is taken. With no handle waiting the
/// id is bound to nothing where `allow_untracked` holds, and otherwise stays
/// unbound and recalibration is asked for.
pub open spec fn bind_outcome<F>(s: TrackerView<F>, id: u64, allow_untracked: bool) -> (
    TrackerView<F>,
    Option<FrameState<F>>,
) {
    if is_stale(s, id) {
        (s, None)
    } else if lookup(s.bindings, id) is Some {
        (s, lookup(s.bindings, id))
    } else if s.queue.len() > 0 {
        let f = s.queue.last();
        (
            TrackerView {
                need_recalibrate: s.need_recalibrate,
                bindings: s.bindings.push((id, FrameState::Bound(f))),
                queue: s.queue.drop_last(),
                last_present: s.last_present,
            },
            Some(FrameState::Bound(f)),
        )
    } else if allow_untracked {
        (
            TrackerView {
                need_recalibrate: s.need_recalibrate,
                bindings: s.bindings.push((id, FrameState::Untracked)),
                queue: s.queue,
                last_present: s.last_present,
            },
            Some(FrameState::Untracked),
        )
    } else {
        (
            TrackerView {
                need_recalibrate: true,
                bindings: s.bindings,
                queue: s.queue,
                last_present: s.last_present,
            },
            None,
        )
    }
}

/// The bindings of host ids later than `id`, in their order.
pub open spec fn bindings_after<F>(b: Seq<(u64, FrameState<F>)>, id: u64) -> Seq<(u64, FrameState<F>)>
    decreases b.len(),
{
    if b.len() == 0 {
        b
    } else if b.last().0 > id {
        bindings_after(b.drop_last(), id).push(b.last())
    } else {
        bindings_after(b.drop_last(), id)
    }
}

/// The tracker after host id `id` was presented: it is bound if it can be,
/// then it and every earlier id are forgotten.
pub open spec fn after_present<F>(s: TrackerView<F>, id: u64) -> TrackerView<F> {
    let s1 = bind_outcome(s, id, false).0;
    TrackerView {
        need_recalibrate: s1.need_recalibrate,
        bindings: bindings_after(s1.bindings, id),
        queue: s1.queue,
        last_present: Some(id),
    }
}

/// The tracker after handle `f` was queued.
pub open spec fn after_add_frame<F>(s: TrackerView<F>, f: F) -> TrackerView<F> {
    TrackerView {
        need_recalibrate: s.need_recalibrate || s.queue.len() + 1 > MAX_QUEUED_FRAMES,
        bindings: s.bindings,
        queue: s.queue.push(f),
        last_present: s.last_present,
    }
}


proof fn lemma_lookup_after_push<F>(b: Seq<(u64, FrameState<F>)>, id: u64, st: FrameState<F>)
    requires
        lookup(b, id) is None,
    ensures
        lookup(b.push((id, st)), id) == Some(st),
    decreases b.len(),
{
    if b.len() > 0 {
        assert(b.push((id, st)).drop_first() =~= b.drop_first().push((id, st)));
        lemma_lookup_after_push(b.drop_first(), id, st);
    }
}

/// Once host id `k` was presented, asking for any host id up to `k` gives
/// nothing and changes nothing.
pub proof fn lemma_presented_ids_are_gone<F>(s: TrackerView<F>, k: u64, j: u64)
    requires
        j <= k,
    ensures
        bind_outcome(after_present(s, k), j, false).1 is None,
        bind_outcome(after_present(s, k), j, false).0 == after_present(s, k),
{
}

/// A handle queued just before the host marks simulation start of a new,
/// unbound, host id `k` is what `k` is bound to from then on.
pub proof fn lemma_queued_frame_binds<F>(s: TrackerView<F>, f: F, k: u64)
    requires
        !is_stale(s, k),
        lookup(s.bindings, k) is None,
    ensures
        bind_outcome(after_add_frame(s, f), k, true).1 == Some(FrameState::Bound(f)),
        bind_outcome(bind_outcome(after_add_frame(s, f), k, true).0, k, false).1 == Some(
            FrameState::Bound(f),
        ),
{
    let s1 = after_add_frame(s, f);
    assert(s1.queue.last() == f);
    lemma_lookup_after_push(s.bindings, k, FrameState::Bound(f));
}

impl<F: Clone> ReflexMappingTracker<F> {
    pub fn new() -> (r: ReflexMappingTracker<F>)
        ensures
            r@ == (TrackerView::<F> {
                need_recalibrate: false,
                bindings: Seq::empty(),
                queue: Seq::empty(),
                last_present: None,
            }),
    {
        let r = ReflexMappingTracker {
            need_recalibrate: false,
            reflex_id_to_frame: Vec::new(),
            frame_queue: Vec::new(),
            last_present: None,
        };
        assert(r@.bindings =~= Seq::empty());
        assert(r@.queue =~= Seq::empty());
        r
    }

    /// Where pairing went astray, drops the waiting handles and lets the
    /// pipeline drain for `RECALIBRATION_SLEEP` before pairing again.
    pub fn recalibrate(&mut self)
        ensures
            old(self)@.need_recalibrate ==> final(self)@ == (TrackerView::<F> {
                need_recalibrate: false,
                bindings: old(self)@.bindings,
                queue: Seq::empty(),
                last_present: old(self)@.last_present,
            }),
            !old(self)@.need_recalibrate ==> final(self)@ == old(self)@,
    {
        if self.need_recalibrate {
            self.frame_queue.clear();
            pause(RECALIBRATION_SLEEP);
            self.need_recalibrate = false;
            assert(self@.queue =~= Seq::empty());
        }
    }

    /// Position of `id` in the bindings.
    fn find(&self, id: u64) -> (r: Option<usize>)
        ensures
            match r {
                Some(i) => i < self@.bindings.len() && self@.bindings[i as int].0 == id && lookup(
                    self@.bindings,
                    id,
                ) == Some(self@.bindings[i as int].1),
                None => lookup(self@.bindings, id) is None,
            },
    {
        let ghost b = self@.bindings;
        assert(b.subrange(0, b.len() as int) =~= b);
        let mut i: usize = 0;
        while i < self.reflex_id_to_frame.len()
            invariant
                b == self@.bindings,
                i <= b.len(),
                lookup(b, id) == lookup(b.subrange(i as int, b.len() as int), id),
            decreases b.len() - i,
        {
            assert(b.subrange(i as int, b.len() as int).drop_first() =~= b.subrange(
                i as int + 1,
                b.len() as int,
            ));
            if self.reflex_id_to_frame[i].0 == id {
                return Some(i);
            }
            i = i + 1;
        }
        None
    }

    fn bind(&mut self, id: ReflexId, allow_untracked: bool) -> (r: Option<usize>)
        ensures
            final(self)@ == bind_outcome(old(self)@, id.0, allow_untracked).0,
            match r {
                Some(i) => i < final(self)@.bindings.len() && bind_outcome(
                    old(self)@,
                    id.0,
                    allow_untracked,
                ).1 == Some(final(self)@.bindings[i as int].1),
                None => bind_outcome(old(self)@, id.0, allow_untracked).1 is None,
            },
    {
        if let Some(last_present) = self.last_present {
            if id.0 <= last_present {
                return None;
            }
        }
        if let Some(i) = self.find(id.0) {
            return Some(i);
        }
        match self.frame_queue.pop() {
            Some(frame) => {
                self.reflex_id_to_frame.push((id.0, FrameState::Bound(frame)));
                Some(self.reflex_id_to_frame.len() - 1)
            },
            None => {
                if allow_untracked {
                    self.reflex_id_to_frame.push((id.0, FrameState::Untracked));
                    Some(self.reflex_id_to_frame.len() - 1)
                } else {
                    self.need_recalibrate = true;
                    None
                }
            },
        }
    }

    /// Queues the handle of a frame that has just begun.
    pub fn add_frame(&mut self, frame: F)
        ensures
            final(self)@ == after_add_frame(old(self)@, frame),
    {
        self.frame_queue.push(frame);
        if self.frame_queue.len() > MAX_QUEUED_FRAMES && !self.need_recalibrate {
            self.need_recalibrate = true;
        }
    }

    /// The host began simulating frame `frame_id`.
    pub fn mark_simulation_begin(&mut self, frame_id: ReflexId)
        ensures
            final(self)@ == bind_outcome(old(self)@, frame_id.0, true).0,
    {
        self.bind(frame_id, true);
    }

    /// The host began submitting rendering for `frame_id`; the pairing does
    /// not use it.
    pub fn mark_render_begin(&mut self, _frame_id: ReflexId)
        ensures
            final(self)@ == old(self)@,
    {
    }

    /// The host presented frame `frame_id`: it and every earlier host id are
    /// forgotten.
    pub fn present(&mut self, frame_id: ReflexId)
        ensures
            final(self)@ == after_present(old(self)@, frame_id.0),
    {
        self.bind(frame_id, false);
        let ghost b = self@.bindings;
        assert(b.len() == self.reflex_id_to_frame.len());
        let mut rest: Vec<(u64, FrameState<F>)> = Vec::new();
        std::mem::swap(&mut rest, &mut self.reflex_id_to_frame);
        let mut kept: Vec<(u64, FrameState<F>)> = Vec::new();
        let mut n: usize = 0;
        while rest.len() > 0
            invariant
                n + rest@.len() == b.len(),
                b.len() <= usize::MAX,
                rest@ == b.subrange(n as int, b.len() as int),
                kept@ == bindings_after(b.take(n as int), frame_id.0),
            decreases rest@.len(),
        {
            let e = rest.remove(0);
            assert(b.take(n as int + 1).drop_last() =~= b.take(n as int));
            assert(b.take(n as int + 1).last() == e);
            if e.0 > frame_id.0 {
                kept.push(e);
            }
            n = n + 1;
            assert(rest@ =~= b.subrange(n as int, b.len() as int));
        }
        assert(b.take(b.len() as int) =~= b);
        self.reflex_id_to_frame = kept;
        self.last_present = Some(frame_id.0);
    }

    /// The handle bound to host id `frame_id`, binding it first if it can be
    /// (see `bind_outcome`, without untracked bindings); `None` for a stale id, an
    /// id bound to nothing, or an id that cannot be bound.
    pub fn get(&mut self, frame_id: ReflexId) -> (r: Option<F>)
        ensures
            final(self)@ == bind_outcome(old(self)@, frame_id.0, false).0,
            match bind_outcome(old(self)@, frame_id.0, false).1 {
                Some(FrameState::Bound(f)) => r is Some && cloned(f, r->Some_0),
                _ => r is None,
            },
    {
        match self.bind(frame_id, false) {
            None => None,
            Some(i) => match &self.reflex_id_to_frame[i].1 {
                FrameState::Bound(frame) => Some(frame.clone()),
                FrameState::Untracked => None,
            },
        }
    }
}

} // verus!
