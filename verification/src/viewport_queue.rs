//! The browser's GPU viewport queue: one render in flight at a time, the
//! newest request remembered, and a request whose render failed on the
//! current revision not tried again. A request is stamped with the
//! document's id and the caller's number for the viewport's key.
use vstd::prelude::*;
use crate::workspace::Workspace;

verus! {

/// The viewport queue's state. `context` is whether a GPU context is up,
/// `epoch` the context's generation (renders from an older one are
/// ignored), `pending` whether a render is in flight, `requested` the
/// newest viewport asked for and `failed` the one whose render last failed.
#[derive(Debug)]
pub struct ViewportQueue {
    pub context: bool,
    pub epoch: u64,
    pub pending: bool,
    pub requested: Option<(u64, u64)>,
    pub failed: Option<(u64, u64)>,
}

/// What a viewport request comes to.
#[derive(Debug)]
pub enum ViewportStep {
    /// Not queued: the caller paints another way.
    NotQueued,
    /// A render is already in flight; it will be replaced by this request.
    Busy,
    /// A render starts, compositing the `missing` tiles first.
    Start { missing: Vec<(i64, i64)> },
}

/// The tiles of `coords` not in the cache, in order.
pub open spec fn missing_tiles(coords: Seq<(i64, i64)>, cached: Seq<bool>) -> Seq<(i64, i64)>
    decreases coords.len(),
{
    if coords.len() == 0 {
        Seq::empty()
    } else {
        let rest = missing_tiles(coords.drop_last(), cached);
        if cached[coords.len() - 1] {
            rest
        } else {
            rest.push(coords.last())
        }
    }
}

/// What a finished render asks of the caller.
#[derive(Debug, Clone, Copy, PartialEq, Eq, Structural)]
pub struct ViewportDone {
    /// Keep the render's new tiles in the tile cache.
    pub store: bool,
    /// Show the rendered image.
    pub present: bool,
}

/// `n` is the queue `o` after viewport `key` of document `doc` (none
/// without a document) was asked for, with visible tiles `coords`,
/// `cached` telling for each whether the tile cache holds it, and
/// `plan_ok` whether the document's render plan could be built; `r` is
/// what it came to. Without a context or a document nothing happens.
/// Otherwise the request becomes the newest; it is refused when its render
/// last failed, answered busy while another render is in flight, and
/// refused when tiles are missing and no plan could be built; else a
/// render starts with the missing tiles.
pub open spec fn viewport_queued(
    o: ViewportQueue,
    n: ViewportQueue,
    doc: Option<u64>,
    key: u64,
    coords: Seq<(i64, i64)>,
    cached: Seq<bool>,
    plan_ok: bool,
    r: ViewportStep,
) -> bool {
    match doc {
        None => r is NotQueued && n == o,
        Some(d) => if !o.context {
            r is NotQueued && n == o
        } else {
            let stamp = (d, key);
            let missing = missing_tiles(coords, cached);
            &&& n.requested == Some(stamp)
            &&& if o.failed == Some(stamp) {
                r is NotQueued && n.pending == o.pending
            } else if o.pending {
                r is Busy && n.pending
            } else if missing.len() > 0 && !plan_ok {
                r is NotQueued && !n.pending
            } else {
                r matches ViewportStep::Start { missing: m } && m@ == missing && n.pending
            }
            &&& n.context == o.context
            &&& n.epoch == o.epoch
            &&& n.failed == o.failed
        },
    }
}

/// `n` is the queue `o` after the render started under context generation
/// `epoch` for `stamp` finished, and `r` what the caller is to do.
/// `current` is the document's revision when the document on show is
/// still the stamp's and its colours unchanged; `revision` is
/// the revision the render was made from; `rendered` whether it gave an
/// image; `lost` whether the context was lost; `presentable` whether the
/// image may stand for the newest request. A render from an older
/// context changes nothing. Otherwise nothing is in flight any more, a
/// lost context goes, and, for the same document: a render keeps its
/// tiles only when made from the current revision and is shown when the
/// newest request is for the same document and it may stand for it; a
/// failure on the current revision marks the stamp failed.
pub open spec fn viewport_done(
    o: ViewportQueue,
    n: ViewportQueue,
    epoch: u64,
    stamp: (u64, u64),
    current: Option<u64>,
    revision: u64,
    rendered: bool,
    lost: bool,
    presentable: bool,
    r: ViewportDone,
) -> bool {
    if epoch != o.epoch {
        r == (ViewportDone { store: false, present: false }) && n == o
    } else {
        &&& !n.pending
        &&& n.context == (o.context && !lost)
        &&& n.epoch == o.epoch
        &&& n.requested == o.requested
        &&& match current {
            None => r == (ViewportDone { store: false, present: false }) && n.failed == o.failed,
            Some(now) => if rendered {
                &&& r.store == (now == revision)
                &&& r.present == (o.requested matches Some(q) && q.0 == stamp.0 && presentable)
                &&& n.failed == o.failed
            } else {
                &&& r == (ViewportDone { store: false, present: false })
                &&& n.failed == if now == revision { Some(stamp) } else { o.failed }
            },
        }
    }
}

/// A render that failed on the document's current revision is not tried
/// again: the same request is refused, while a render is in flight or not.
pub proof fn lemma_failed_not_retried(
    o: ViewportQueue,
    n: ViewportQueue,
    m: ViewportQueue,
    epoch: u64,
    stamp: (u64, u64),
    now: u64,
    lost: bool,
    presentable: bool,
    done: ViewportDone,
    coords: Seq<(i64, i64)>,
    cached: Seq<bool>,
    plan_ok: bool,
    r: ViewportStep,
)
    requires
        epoch == o.epoch,
        viewport_done(o, n, epoch, stamp, Some(now), now, false, lost, presentable, done),
        viewport_queued(n, m, Some(stamp.0), stamp.1, coords, cached, plan_ok, r),
    ensures
        r is NotQueued,
{
}

impl ViewportQueue {
    /// No context, nothing requested or in flight.
    pub fn new() -> (r: ViewportQueue)
        ensures
            !r.context && r.epoch == 0 && !r.pending && r.requested is None && r.failed is None,
    {
        ViewportQueue { context: false, epoch: 0, pending: false, requested: None, failed: None }
    }

    /// Ask for viewport `key` of document `doc` (see `viewport_queued`).
    pub fn request(
        &mut self,
        doc: Option<u64>,
        key: u64,
        coords: &Vec<(i64, i64)>,
        cached: &Vec<bool>,
        plan_ok: bool,
    ) -> (r: ViewportStep)
        requires
            coords@.len() == cached@.len(),
        ensures
            viewport_queued(*old(self), *final(self), doc, key, coords@, cached@, plan_ok, r),
    {
        let d = match doc {
            Some(d) => d,
            None => return ViewportStep::NotQueued,
        };
        if !self.context {
            return ViewportStep::NotQueued;
        }
        let stamp = (d, key);
        self.requested = Some(stamp);
        let failed_here = match self.failed {
            Some((fd, fk)) => fd == d && fk == key,
            None => false,
        };
        if failed_here {
            return ViewportStep::NotQueued;
        }
        if self.pending {
            return ViewportStep::Busy;
        }
        let mut missing: Vec<(i64, i64)> = Vec::new();
        let mut i: usize = 0;
        while i < coords.len()
            invariant
                i <= coords@.len(),
                coords@.len() == cached@.len(),
                missing@ == missing_tiles(coords@.take(i as int), cached@),
            decreases coords@.len() - i,
        {
            proof {
                assert(coords@.take(i + 1).drop_last() =~= coords@.take(i as int));
            }
            if !cached[i] {
                missing.push(coords[i]);
            }
            i = i + 1;
        }
        assert(coords@.take(coords@.len() as int) =~= coords@);
        if missing.len() > 0 && !plan_ok {
            return ViewportStep::NotQueued;
        }
        self.pending = true;
        ViewportStep::Start { missing }
    }

    /// A render finished (see `viewport_done`).
    pub fn finished(
        &mut self,
        epoch: u64,
        stamp: (u64, u64),
        current: Option<u64>,
        revision: u64,
        rendered: bool,
        lost: bool,
        presentable: bool,
    ) -> (r: ViewportDone)
        ensures
            viewport_done(*old(self), *final(self), epoch, stamp, current, revision, rendered, lost, presentable, r),
    {
        let nothing = ViewportDone { store: false, present: false };
        if epoch != self.epoch {
            return nothing;
        }
        self.pending = false;
        if lost {
            self.context = false;
        }
        let now = match current {
            Some(v) => v,
            None => return nothing,
        };
        if rendered {
            let same_doc = match self.requested {
                Some((d, _)) => d == stamp.0,
                None => false,
            };
            ViewportDone { store: now == revision, present: same_doc && presentable }
        } else {
            if now == revision {
                self.failed = Some(stamp);
            }
            nothing
        }
    }
}

impl Workspace {
    /// Ask the GPU viewport queue for viewport `key` of the document on
    /// show, whose id is `doc_id` (see `viewport_queued`); without a
    /// document nothing is queued. Only the queue changes.
    pub fn queue_browser_viewport(
        &mut self,
        doc_id: u64,
        key: u64,
        coords: &Vec<(i64, i64)>,
        cached: &Vec<bool>,
        plan_ok: bool,
    ) -> (r: ViewportStep)
        requires
            coords@.len() == cached@.len(),
        ensures
            viewport_queued(
                old(self).browser_gpu,
                final(self).browser_gpu,
                if old(self).doc is Some { Some(doc_id) } else { None },
                key,
                coords@,
                cached@,
                plan_ok,
                r,
            ),
            *final(self) == (Workspace { browser_gpu: final(self).browser_gpu, ..*old(self) }),
    {
        let doc = if self.doc.is_some() {
            Some(doc_id)
        } else {
            None
        };
        self.browser_gpu.request(doc, key, coords, cached, plan_ok)
    }
}

} // verus!
