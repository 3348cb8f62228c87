//! Which thumbnails to download next. A small pool of downloads bounds the
//! network; images stay for a few viewports so that scrolling back is
//! instant, and an overfull cache falls back to the photos near the
//! viewport.
use vstd::prelude::*;
use crate::assets::Wanted;
use crate::cloud_sync::{key_pos, lemma_key_pos};
use crate::workspace::Workspace;

verus! {

/// At most this many thumbnail downloads run at once.
pub const THUMBNAIL_WORKERS: usize = 8;

/// Past this many images held, only those of photos near the viewport stay.
pub const THUMBNAIL_CACHE: usize = 600;

/// Whether photo `id` is among the thumbnails wanted.
pub open spec fn in_view(w: Seq<Wanted>, id: Seq<char>) -> bool {
    exists|k: int| 0 <= k < w.len() && (#[trigger] w[k]).0@ == id
}

/// The entries of `s` about photos among the thumbnails wanted, in order.
pub open spec fn pairs_in_view(s: Seq<(String, u64)>, w: Seq<Wanted>) -> Seq<(String, u64)>
    decreases s.len(),
{
    if s.len() == 0 {
        s
    } else if in_view(w, s.last().0@) {
        pairs_in_view(s.drop_last(), w).push(s.last())
    } else {
        pairs_in_view(s.drop_last(), w)
    }
}

/// The photos of `s` among the thumbnails wanted, in order.
pub open spec fn ids_in_view(s: Seq<String>, w: Seq<Wanted>) -> Seq<String>
    decreases s.len(),
{
    if s.len() == 0 {
        s
    } else if in_view(w, s.last()@) {
        ids_in_view(s.drop_last(), w).push(s.last())
    } else {
        ids_in_view(s.drop_last(), w)
    }
}

/// Whether the image held for photo `id` is of revision `rev`.
pub open spec fn holds(have: Seq<(String, u64)>, id: Seq<char>, rev: u64) -> bool {
    key_pos(have, id) >= 0 && have[key_pos(have, id)].1 == rev
}

/// Whether photo `id` at revision `rev` was asked for already.
pub open spec fn asked(jobs: Seq<(String, u64)>, id: Seq<char>, rev: u64) -> bool {
    exists|k: int| 0 <= k < jobs.len() && (#[trigger] jobs[k]).0@ == id && jobs[k].1 == rev
}

/// The queue's state: downloads running, downloads asked for, and the
/// downloads started by this pass (photo, revision, address).
pub type Queue = (int, Seq<(String, u64)>, Seq<(String, u64, String)>);

/// The queue after looking at wanted thumbnail `item`, with the images
/// `have` held: it is started unless the pool is full, its image is held
/// at that revision already, it has no address, or it was asked for.
pub open spec fn queue_step(q: Queue, have: Seq<(String, u64)>, item: Wanted) -> Queue {
    if q.0 >= THUMBNAIL_WORKERS || holds(have, item.0@, item.1) || item.2 is None || asked(q.1, item.0@, item.1) {
        q
    } else {
        (q.0 + 1, q.1.push((item.0, item.1)), q.2.push((item.0, item.1, item.2->0)))
    }
}

/// The queue after looking at the wanted thumbnails `w` in order.
pub open spec fn queued(w: Seq<Wanted>, have: Seq<(String, u64)>, q0: Queue) -> Queue
    decreases w.len(),
{
    if w.len() == 0 {
        q0
    } else {
        queue_step(queued(w.drop_last(), have, q0), have, w.last())
    }
}

/// The images kept: all of them, unless there are more than the cache
/// holds; then those of photos among the thumbnails wanted.
pub open spec fn kept_images(have: Seq<(String, u64)>, w: Seq<Wanted>) -> Seq<(String, u64)> {
    if have.len() > THUMBNAIL_CACHE {
        pairs_in_view(have, w)
    } else {
        have
    }
}

/// `post` is `pre` after a pass over the wanted thumbnails that started
/// the downloads `start`: signed out, nothing happens; otherwise the cache
/// is trimmed, downloads and failures of photos no longer wanted are
/// forgotten, and the wanted thumbnails are queued in order.
pub open spec fn thumbnails_queued(pre: Workspace, post: Workspace, evicted: bool, start: Seq<(String, u64, String)>) -> bool {
    if !pre.feed.signed_in {
        post == pre && !evicted && start.len() == 0
    } else {
        let w = crate::assets::spec_wanted_thumbnails(pre.feed);
        let have = kept_images(pre.thumbnails.have@, w);
        let q = queued(w, have, (pre.thumbnails.active as int, pairs_in_view(pre.thumbnails.jobs@, w), Seq::empty()));
        &&& evicted == (pre.thumbnails.have@.len() > THUMBNAIL_CACHE)
        &&& post.thumbnails.have@ == have
        &&& post.thumbnails.failed@ == ids_in_view(pre.thumbnails.failed@, w)
        &&& post.thumbnails.jobs@ == q.1
        &&& post.thumbnails.active == q.0
        &&& start == q.2
        &&& post == (Workspace { thumbnails: post.thumbnails, ..pre })
    }
}

/// Once the pool is full, the rest of the wanted thumbnails change nothing.
proof fn lemma_full_pool(w: Seq<Wanted>, have: Seq<(String, u64)>, q0: Queue, i: int)
    requires
        0 <= i <= w.len(),
        queued(w.take(i), have, q0).0 >= THUMBNAIL_WORKERS,
    ensures
        queued(w, have, q0) == queued(w.take(i), have, q0),
    decreases w.len(),
{
    if i < w.len() {
        assert(w.drop_last().take(i) =~= w.take(i));
        lemma_full_pool(w.drop_last(), have, q0, i);
    } else {
        assert(w.take(i) =~= w);
    }
}

fn in_view_exec(w: &Vec<Wanted>, id: &String) -> (r: bool)
    ensures
        r == in_view(w@, id@),
{
    let mut k: usize = 0;
    while k < w.len()
        invariant
            k <= w@.len(),
            forall|j: int| 0 <= j < k ==> (#[trigger] w@[j]).0@ != id@,
        decreases w@.len() - k,
    {
        if w[k].0 == *id {
            return true;
        }
        k = k + 1;
    }
    false
}

fn keep_pairs_in_view(s: &Vec<(String, u64)>, w: &Vec<Wanted>) -> (r: Vec<(String, u64)>)
    ensures
        r@ == pairs_in_view(s@, w@),
{
    let mut r: Vec<(String, u64)> = Vec::new();
    let mut i: usize = 0;
    assert(s@.take(0) =~= Seq::<(String, u64)>::empty());
    while i < s.len()
        invariant
            i <= s@.len(),
            r@ == pairs_in_view(s@.take(i as int), w@),
        decreases s@.len() - i,
    {
        assert(s@.take(i + 1).drop_last() =~= s@.take(i as int));
        if in_view_exec(w, &s[i].0) {
            r.push((s[i].0.clone(), s[i].1));
        }
        i = i + 1;
    }
    assert(s@.take(s@.len() as int) =~= s@);
    r
}

fn keep_ids_in_view(s: &Vec<String>, w: &Vec<Wanted>) -> (r: Vec<String>)
    ensures
        r@ == ids_in_view(s@, w@),
{
    let mut r: Vec<String> = Vec::new();
    let mut i: usize = 0;
    assert(s@.take(0) =~= Seq::<String>::empty());
    while i < s.len()
        invariant
            i <= s@.len(),
            r@ == ids_in_view(s@.take(i as int), w@),
        decreases s@.len() - i,
    {
        assert(s@.take(i + 1).drop_last() =~= s@.take(i as int));
        if in_view_exec(w, &s[i]) {
            r.push(s[i].clone());
        }
        i = i + 1;
    }
    assert(s@.take(s@.len() as int) =~= s@);
    r
}

fn holds_exec(have: &Vec<(String, u64)>, id: &String, rev: u64) -> (r: bool)
    ensures
        r == holds(have@, id@, rev),
{
    let mut i: usize = 0;
    while i < have.len()
        invariant
            i <= have@.len(),
            forall|j: int| 0 <= j < i ==> have@[j].0@ != id@,
        decreases have@.len() - i,
    {
        if have[i].0 == *id {
            proof {
                lemma_key_pos(have@, id@, i as int);
            }
            return have[i].1 == rev;
        }
        i = i + 1;
    }
    proof {
        lemma_key_pos(have@, id@, have@.len() as int);
    }
    false
}

fn asked_exec(jobs: &Vec<(String, u64)>, id: &String, rev: u64) -> (r: bool)
    ensures
        r == asked(jobs@, id@, rev),
{
    let mut k: usize = 0;
    while k < jobs.len()
        invariant
            k <= jobs@.len(),
            forall|j: int| 0 <= j < k ==> !((#[trigger] jobs@[j]).0@ == id@ && jobs@[j].1 == rev),
        decreases jobs@.len() - k,
    {
        if jobs[k].0 == *id && jobs[k].1 == rev {
            return true;
        }
        k = k + 1;
    }
    false
}

/// A pass's outcome: whether the cache was trimmed (the caller then drops
/// the images no longer held), and the downloads to start.
#[derive(Debug)]
pub struct Downloads {
    pub evicted: bool,
    pub start: Vec<(String, u64, String)>,
}

impl Workspace {
    /// Queue the wanted thumbnails' downloads (see `thumbnails_queued`).
    pub fn cloud_load_thumbnails(&mut self) -> (r: Downloads)
        ensures
            thumbnails_queued(*old(self), *final(self), r.evicted, r.start@),
    {
        if !self.feed.signed_in {
            return Downloads { evicted: false, start: Vec::new() };
        }
        let wanted = self.feed.wanted_thumbnails();
        let evicted = self.thumbnails.have.len() > THUMBNAIL_CACHE;
        if evicted {
            self.thumbnails.have = keep_pairs_in_view(&self.thumbnails.have, &wanted);
        }
        self.thumbnails.jobs = keep_pairs_in_view(&self.thumbnails.jobs, &wanted);
        self.thumbnails.failed = keep_ids_in_view(&self.thumbnails.failed, &wanted);
        let ghost have = self.thumbnails.have@;
        let ghost q0: Queue = (self.thumbnails.active as int, self.thumbnails.jobs@, Seq::empty());
        let ghost mid = *self;
        let mut start: Vec<(String, u64, String)> = Vec::new();
        let mut i: usize = 0;
        assert(wanted@.take(0) =~= Seq::<Wanted>::empty());
        loop
            invariant
                i <= wanted@.len(),
                self.thumbnails.have@ == have,
                *self == (Workspace { thumbnails: self.thumbnails, ..mid }),
                self.thumbnails.have == mid.thumbnails.have,
                self.thumbnails.failed == mid.thumbnails.failed,
                ({
                    let q = queued(wanted@.take(i as int), have, q0);
                    &&& self.thumbnails.active == q.0
                    &&& self.thumbnails.jobs@ == q.1
                    &&& start@ == q.2
                }),
            ensures
                self.thumbnails.have@ == have,
                *self == (Workspace { thumbnails: self.thumbnails, ..mid }),
                self.thumbnails.have == mid.thumbnails.have,
                self.thumbnails.failed == mid.thumbnails.failed,
                ({
                    let q = queued(wanted@, have, q0);
                    &&& self.thumbnails.active == q.0
                    &&& self.thumbnails.jobs@ == q.1
                    &&& start@ == q.2
                }),
            decreases wanted@.len() - i,
        {
            if i >= wanted.len() {
                assert(wanted@.take(i as int) =~= wanted@);
                break;
            }
            assert(wanted@.take(i + 1).drop_last() =~= wanted@.take(i as int));
            if self.thumbnails.active >= THUMBNAIL_WORKERS {
                proof {
                    lemma_full_pool(wanted@, have, q0, i as int);
                }
                break;
            }
            let item = &wanted[i];
            let skip = holds_exec(&self.thumbnails.have, &item.0, item.1) || item.2.is_none()
                || asked_exec(&self.thumbnails.jobs, &item.0, item.1);
            if !skip {
                let url = match &item.2 {
                    Some(u) => u.clone(),
                    None => String::new(),
                };
                self.thumbnails.jobs.push((item.0.clone(), item.1));
                self.thumbnails.active = self.thumbnails.active + 1;
                start.push((item.0.clone(), item.1, url));
            }
            i = i + 1;
        }
        Downloads { evicted, start }
    }
}

proof fn lemma_pairs_in_view(s: Seq<(String, u64)>, w: Seq<Wanted>)
    ensures
        forall|j: int| 0 <= j < pairs_in_view(s, w).len() ==> in_view(w, (#[trigger] pairs_in_view(s, w)[j]).0@),
        (forall|j: int| 0 <= j < s.len() ==> in_view(w, (#[trigger] s[j]).0@)) ==> pairs_in_view(s, w) == s,
    decreases s.len(),
{
    if s.len() > 0 {
        let d = s.drop_last();
        lemma_pairs_in_view(d, w);
        let r = pairs_in_view(s, w);
        let rd = pairs_in_view(d, w);
        if in_view(w, s.last().0@) {
            assert(r == rd.push(s.last()));
            assert forall|j: int| 0 <= j < r.len() implies in_view(w, (#[trigger] r[j]).0@) by {
                if j < rd.len() {
                    assert(r[j] == rd[j]);
                }
            }
        } else {
            assert(r == rd);
        }
        if forall|j: int| 0 <= j < s.len() ==> in_view(w, (#[trigger] s[j]).0@) {
            assert forall|j: int| 0 <= j < d.len() implies in_view(w, (#[trigger] d[j]).0@) by {
                assert(d[j] == s[j]);
            }
            assert(in_view(w, s[s.len() - 1].0@));
            assert(r =~= s);
        }
    }
}

proof fn lemma_ids_in_view(s: Seq<String>, w: Seq<Wanted>)
    ensures
        forall|j: int| 0 <= j < ids_in_view(s, w).len() ==> in_view(w, (#[trigger] ids_in_view(s, w)[j])@),
        (forall|j: int| 0 <= j < s.len() ==> in_view(w, (#[trigger] s[j])@)) ==> ids_in_view(s, w) == s,
    decreases s.len(),
{
    if s.len() > 0 {
        let d = s.drop_last();
        lemma_ids_in_view(d, w);
        let r = ids_in_view(s, w);
        let rd = ids_in_view(d, w);
        if in_view(w, s.last()@) {
            assert(r == rd.push(s.last()));
            assert forall|j: int| 0 <= j < r.len() implies in_view(w, (#[trigger] r[j])@) by {
                if j < rd.len() {
                    assert(r[j] == rd[j]);
                }
            }
        } else {
            assert(r == rd);
        }
        if forall|j: int| 0 <= j < s.len() ==> in_view(w, (#[trigger] s[j])@) {
            assert forall|j: int| 0 <= j < d.len() implies in_view(w, (#[trigger] d[j])@) by {
                assert(d[j] == s[j]);
            }
            assert(in_view(w, s[s.len() - 1]@));
            assert(r =~= s);
        }
    }
}

proof fn lemma_key_pos_range(s: Seq<(String, u64)>, id: Seq<char>)
    ensures
        -1 <= key_pos(s, id) < s.len(),
    decreases s.len(),
{
    if s.len() > 0 {
        lemma_key_pos_range(s.drop_last(), id);
    }
}

/// Trimming the cache to the photos wanted keeps what is held of them.
proof fn lemma_holds_in_view(s: Seq<(String, u64)>, w: Seq<Wanted>, id: Seq<char>, rev: u64)
    requires
        in_view(w, id),
    ensures
        holds(pairs_in_view(s, w), id, rev) == holds(s, id, rev),
        (key_pos(pairs_in_view(s, w), id) >= 0) == (key_pos(s, id) >= 0),
        key_pos(s, id) >= 0 ==> pairs_in_view(s, w)[key_pos(pairs_in_view(s, w), id)] == s[key_pos(s, id)],
    decreases s.len(),
{
    if s.len() > 0 {
        let d = s.drop_last();
        lemma_holds_in_view(d, w, id, rev);
        let r = pairs_in_view(s, w);
        let rd = pairs_in_view(d, w);
        lemma_key_pos_range(d, id);
        lemma_key_pos_range(rd, id);
        let last = s.last();
        if in_view(w, last.0@) {
            assert(r == rd.push(last));
            assert(r.drop_last() =~= rd);
            if key_pos(rd, id) >= 0 {
                assert(r[key_pos(rd, id)] == rd[key_pos(rd, id)]);
            }
            if key_pos(d, id) >= 0 {
                assert(s[key_pos(d, id)] == d[key_pos(d, id)]);
            }
        } else {
            assert(last.0@ != id);
            assert(r == rd);
            if key_pos(d, id) >= 0 {
                assert(s[key_pos(d, id)] == d[key_pos(d, id)]);
            }
        }
    }
}

/// Whether wanted thumbnail `item` needs no download from queue `q`.
pub open spec fn covered(q: Queue, have: Seq<(String, u64)>, item: Wanted) -> bool {
    q.0 >= THUMBNAIL_WORKERS || holds(have, item.0@, item.1) || item.2 is None || asked(q.1, item.0@, item.1)
}

proof fn lemma_queue_grows(w: Seq<Wanted>, have: Seq<(String, u64)>, q0: Queue)
    ensures
        queued(w, have, q0).0 >= q0.0,
        queued(w, have, q0).1.len() >= q0.1.len(),
        forall|j: int| 0 <= j < q0.1.len() ==> #[trigger] queued(w, have, q0).1[j] == q0.1[j],
    decreases w.len(),
{
    if w.len() > 0 {
        lemma_queue_grows(w.drop_last(), have, q0);
    }
}

proof fn lemma_queue_in_view(v: Seq<Wanted>, w: Seq<Wanted>, have: Seq<(String, u64)>, q0: Queue)
    requires
        forall|k: int| 0 <= k < v.len() ==> in_view(w, (#[trigger] v[k]).0@),
        forall|j: int| 0 <= j < q0.1.len() ==> in_view(w, (#[trigger] q0.1[j]).0@),
    ensures
        forall|j: int| 0 <= j < queued(v, have, q0).1.len() ==> in_view(w, (#[trigger] queued(v, have, q0).1[j]).0@),
    decreases v.len(),
{
    if v.len() > 0 {
        let d = v.drop_last();
        assert forall|k: int| 0 <= k < d.len() implies in_view(w, (#[trigger] d[k]).0@) by {
            assert(d[k] == v[k]);
        }
        lemma_queue_in_view(d, w, have, q0);
        let qd = queued(d, have, q0);
        let q = queued(v, have, q0);
        assert(q == queue_step(qd, have, v.last()));
        assert(in_view(w, v[v.len() - 1].0@));
        assert forall|j: int| 0 <= j < q.1.len() implies in_view(w, (#[trigger] q.1[j]).0@) by {
            if j < qd.1.len() {
                assert(q.1[j] == qd.1[j]);
            } else {
                assert(q.1[j].0 == v[v.len() - 1].0);
            }
        }
    }
}

/// After a pass over a prefix of the wanted thumbnails, each of them needs
/// no further download.
proof fn lemma_pass_covers(w: Seq<Wanted>, have: Seq<(String, u64)>, q0: Queue, i: int)
    requires
        0 <= i <= w.len(),
    ensures
        forall|k: int| 0 <= k < i ==> covered(queued(w.take(i), have, q0), have, #[trigger] w[k]),
    decreases i,
{
    if i > 0 {
        lemma_pass_covers(w, have, q0, i - 1);
        assert(w.take(i).drop_last() =~= w.take(i - 1));
        let q = queued(w.take(i - 1), have, q0);
        let q2 = queued(w.take(i), have, q0);
        assert(q2 == queue_step(q, have, w[i - 1]));
        assert forall|k: int| 0 <= k < i implies covered(q2, have, #[trigger] w[k]) by {
            if k < i - 1 {
                assert(covered(q, have, w[k]));
                if asked(q.1, w[k].0@, w[k].1) {
                    let j = choose|j: int| 0 <= j < q.1.len() && (#[trigger] q.1[j]).0@ == w[k].0@ && q.1[j].1 == w[k].1;
                    assert(q2.1[j] == q.1[j]);
                }
            } else if q2 != q {
                assert(q2.1[q2.1.len() - 1] == (w[k].0, w[k].1));
            }
        }
    }
}

/// A pass over wanted thumbnails that all need no download changes nothing.
proof fn lemma_idle_pass(w: Seq<Wanted>, have: Seq<(String, u64)>, q: Queue)
    requires
        forall|k: int| 0 <= k < w.len() ==> covered(q, have, #[trigger] w[k]),
    ensures
        queued(w, have, q) == q,
    decreases w.len(),
{
    if w.len() > 0 {
        let d = w.drop_last();
        assert forall|k: int| 0 <= k < d.len() implies covered(q, have, #[trigger] d[k]) by {
            assert(d[k] == w[k]);
        }
        lemma_idle_pass(d, have, q);
        assert(covered(q, have, w[w.len() - 1]));
    }
}

/// A second pass right after the first starts no download and leaves the
/// bookkeeping as it was: the first asked for every wanted thumbnail it
/// could.
pub proof fn lemma_second_pass_starts_nothing(
    pre: Workspace,
    mid: Workspace,
    post: Workspace,
    e1: bool,
    s1: Seq<(String, u64, String)>,
    e2: bool,
    s2: Seq<(String, u64, String)>,
)
    requires
        thumbnails_queued(pre, mid, e1, s1),
        thumbnails_queued(mid, post, e2, s2),
    ensures
        s2.len() == 0,
        post.thumbnails.active == mid.thumbnails.active,
        post.thumbnails.have@ == mid.thumbnails.have@,
        post.thumbnails.jobs@ == mid.thumbnails.jobs@,
        post.thumbnails.failed@ == mid.thumbnails.failed@,
        post == (Workspace { thumbnails: post.thumbnails, ..mid }),
{
    if pre.feed.signed_in {
        let w = crate::assets::spec_wanted_thumbnails(pre.feed);
        assert(crate::assets::spec_wanted_thumbnails(mid.feed) == w);
        let have0 = pre.thumbnails.have@;
        let have1 = kept_images(have0, w);
        let j0 = pairs_in_view(pre.thumbnails.jobs@, w);
        let q0: Queue = (pre.thumbnails.active as int, j0, Seq::empty());
        let q1 = queued(w, have1, q0);
        // The cache and the failures stay as the first pass left them.
        lemma_pairs_in_view(have0, w);
        lemma_pairs_in_view(have1, w);
        assert(kept_images(have1, w) == have1);
        lemma_ids_in_view(pre.thumbnails.failed@, w);
        lemma_ids_in_view(mid.thumbnails.failed@, w);
        // Every download asked for is of a photo still wanted.
        lemma_pairs_in_view(pre.thumbnails.jobs@, w);
        assert forall|k: int| 0 <= k < w.len() implies in_view(w, (#[trigger] w[k]).0@) by {}
        lemma_queue_in_view(w, w, have1, q0);
        lemma_pairs_in_view(q1.1, w);
        // Every wanted thumbnail needs no further download.
        lemma_pass_covers(w, have1, q0, w.len() as int);
        assert(w.take(w.len() as int) =~= w);
        let qm: Queue = (q1.0, q1.1, Seq::empty());
        assert forall|k: int| 0 <= k < w.len() implies covered(qm, have1, #[trigger] w[k]) by {
            assert(covered(q1, have1, w[k]));
        }
        lemma_idle_pass(w, have1, qm);
    }
}

proof fn lemma_queue_count(w: Seq<Wanted>, have: Seq<(String, u64)>, q0: Queue)
    ensures
        queued(w, have, q0).0 == q0.0 + queued(w, have, q0).2.len() - q0.2.len(),
        q0.0 <= THUMBNAIL_WORKERS ==> queued(w, have, q0).0 <= THUMBNAIL_WORKERS,
    decreases w.len(),
{
    if w.len() > 0 {
        lemma_queue_count(w.drop_last(), have, q0);
    }
}

/// A pass keeps the pool's bound: each download it starts counts as
/// running, and with at most the pool's size running before, at most that
/// many run after.
pub proof fn lemma_pass_respects_pool(pre: Workspace, post: Workspace, evicted: bool, start: Seq<(String, u64, String)>)
    requires
        thumbnails_queued(pre, post, evicted, start),
    ensures
        post.thumbnails.active == pre.thumbnails.active + start.len(),
        pre.thumbnails.active <= THUMBNAIL_WORKERS ==> post.thumbnails.active <= THUMBNAIL_WORKERS,
{
    if pre.feed.signed_in {
        let w = crate::assets::spec_wanted_thumbnails(pre.feed);
        let have = kept_images(pre.thumbnails.have@, w);
        let q0: Queue = (pre.thumbnails.active as int, pairs_in_view(pre.thumbnails.jobs@, w), Seq::empty());
        lemma_queue_count(w, have, q0);
    }
}

} // verus!
