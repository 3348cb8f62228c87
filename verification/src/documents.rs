//! Cloud documents open in the editor: which are joined to their live
//! session, which were detached when the cloud revoked them, and the
//! requests still waiting for an answer.
use vstd::prelude::*;
use crate::text::str_is;

verus! {

/// An editor document bound to a cloud photo.
#[derive(Debug, PartialEq, Eq)]
pub struct RemoteDocument {
    pub asset_id: String,
    pub joined: bool,
    pub detached: bool,
    pub sending: bool,
    pub changed: bool,
    pub render: bool,
    pub generation: u64,
    pub saved: u64,
}

/// A request sent to the cloud, by what its answer is for.
#[derive(Debug, Clone, Copy, PartialEq, Eq, Structural)]
pub enum Pending {
    Capabilities,
    Join(u64),
    Update { doc: u64, generation: u64 },
    Mutation,
}

impl Pending {
    pub open spec fn spec_belongs_to(self, id: u64) -> bool {
        match self {
            Pending::Join(doc) => doc == id,
            Pending::Update { doc, .. } => doc == id,
            _ => false,
        }
    }

    /// Whether the answer to this request is for document `id`.
    pub fn belongs_to(&self, id: u64) -> (r: bool)
        ensures
            r == self.spec_belongs_to(id),
    {
        match self {
            Pending::Join(doc) => *doc == id,
            Pending::Update { doc, .. } => *doc == id,
            _ => false,
        }
    }
}

impl RemoteDocument {
    /// Stop exchanging edits with the cloud, keeping the local edits.
    pub fn detach(&mut self)
        ensures
            final(self).detached,
            !final(self).joined,
            !final(self).sending,
            !final(self).render,
            final(self).asset_id == old(self).asset_id,
            final(self).changed == old(self).changed,
            final(self).generation == old(self).generation,
            final(self).saved == old(self).saved,
    {
        self.detached = true;
        self.joined = false;
        self.sending = false;
        self.render = false;
    }
}

/// The cloud documents, by id, and the requests awaiting answers, by
/// request id. `image_model` is whether the provider edits images
/// collaboratively, once its capabilities are known (`None` before, or
/// when it lists none).
///
/// Both are kept as vectors of (key, value) pairs and searched in order,
/// the first match being the one acted on, so that each contract can say
/// which entry a change reaches and that the others stay as they were.
/// No change here adds a document or moves one: each keeps every document
/// under its id, in its place, so ids the caller added once each stay
/// unique (`lemma_changes_keep_ids`). Requests are added under the request
/// ids the caller hands in.
pub struct Documents {
    pub docs: Vec<(u64, RemoteDocument)>,
    pub pending: Vec<(String, Pending)>,
    pub connected: bool,
    pub capabilities_ready: bool,
    pub image_model: Option<bool>,
}

/// The position of the first document bound to photo `asset`, or -1.
pub open spec fn find_asset(d: Seq<(u64, RemoteDocument)>, asset: Seq<char>) -> int
    decreases d.len(),
{
    if d.len() == 0 {
        -1
    } else {
        let p = find_asset(d.drop_last(), asset);
        if p >= 0 {
            p
        } else if d.last().1.asset_id@ == asset {
            d.len() - 1
        } else {
            -1
        }
    }
}

/// Whether no two documents share an id.
pub open spec fn ids_unique(d: Seq<(u64, RemoteDocument)>) -> bool {
    forall|i: int, j: int| 0 <= i < j < d.len() ==> d[i].0 != d[j].0
}

/// Whether `d` is bound to photo `asset` and still live, not detached.
pub open spec fn live_for(d: RemoteDocument, asset: Seq<char>) -> bool {
    d.asset_id@ == asset && !d.detached
}

/// The position of the first live document bound to photo `asset`, or -1.
pub open spec fn find_live(d: Seq<(u64, RemoteDocument)>, asset: Seq<char>) -> int
    decreases d.len(),
{
    if d.len() == 0 {
        -1
    } else {
        let p = find_live(d.drop_last(), asset);
        if p >= 0 {
            p
        } else if live_for(d.last().1, asset) {
            d.len() - 1
        } else {
            -1
        }
    }
}

proof fn lemma_find_live(m: Seq<(u64, RemoteDocument)>, asset: Seq<char>, i: int)
    requires
        0 <= i <= m.len(),
        forall|j: int| 0 <= j < i ==> !live_for(m[j].1, asset),
        i < m.len() ==> live_for(m[i].1, asset),
    ensures
        find_live(m, asset) == (if i < m.len() { i } else { -1 }),
    decreases m.len(),
{
    if m.len() > 0 {
        let d = m.drop_last();
        if i < m.len() - 1 {
            lemma_find_live(d, asset, i);
        } else {
            lemma_find_live(d, asset, d.len() as int);
        }
    }
}

/// `n` is `o` after a cloud update for photo `asset` arrived, `applied`
/// being what applying it to the shared state of the first live document
/// bound to that photo gave. With no such document the update is ignored
/// and all is well. Otherwise an update that did not apply is the error,
/// with nothing changed; one that did marks that document to be drawn
/// again, and its id is the result.
pub open spec fn update_applied(
    o: Documents,
    n: Documents,
    asset: Seq<char>,
    applied: Result<(), String>,
    r: Result<Option<u64>, String>,
) -> bool {
    let k = find_live(o.docs@, asset);
    if k < 0 {
        r == Ok::<Option<u64>, String>(None) && n == o
    } else {
        match applied {
            Err(e) => r == Err::<Option<u64>, String>(e) && n == o,
            Ok(_) => {
                &&& r == Ok::<Option<u64>, String>(Some(o.docs@[k].0))
                &&& n.docs@ == o.docs@.update(k, (o.docs@[k].0, RemoteDocument { render: true, ..o.docs@[k].1 }))
                &&& n == (Documents { docs: n.docs, ..o })
            },
        }
    }
}

/// `n` is `o` after document `id` was reopened, `r` telling whether it had
/// been detached: it is live again and nothing else changed.
pub open spec fn document_reopened(o: Documents, n: Documents, id: u64, r: bool) -> bool {
    let p = find_doc(o.docs@, id);
    &&& (p < 0 ==> !r && n == o)
    &&& (p >= 0 ==> {
        let (a, b) = (n.docs@[p].1, o.docs@[p].1);
        &&& r == b.detached
        &&& n.docs@.len() == o.docs@.len()
        &&& n.docs@[p].0 == id
        &&& a == (RemoteDocument { detached: false, ..b })
        &&& forall|j: int| 0 <= j < o.docs@.len() && j != p ==> #[trigger] n.docs@[j] == o.docs@[j]
        &&& n == (Documents { docs: n.docs, ..o })
    })
}

/// The position of document `id`, or -1.
pub open spec fn find_doc(d: Seq<(u64, RemoteDocument)>, id: u64) -> int
    decreases d.len(),
{
    if d.len() == 0 {
        -1
    } else {
        let p = find_doc(d.drop_last(), id);
        if p >= 0 {
            p
        } else if d.last().0 == id {
            d.len() - 1
        } else {
            -1
        }
    }
}

/// The requests that are not for document `id`, in order.
pub open spec fn unrelated(p: Seq<(String, Pending)>, id: u64) -> Seq<(String, Pending)>
    decreases p.len(),
{
    if p.len() == 0 {
        Seq::empty()
    } else {
        let rest = unrelated(p.drop_last(), id);
        if p.last().1.spec_belongs_to(id) {
            rest
        } else {
            rest.push(p.last())
        }
    }
}

/// The ids of the documents that are not detached, in order.
pub open spec fn joinable(d: Seq<(u64, RemoteDocument)>) -> Seq<u64>
    decreases d.len(),
{
    if d.len() == 0 {
        Seq::empty()
    } else {
        let rest = joinable(d.drop_last());
        if d.last().1.detached {
            rest
        } else {
            rest.push(d.last().0)
        }
    }
}

proof fn lemma_find_asset(m: Seq<(u64, RemoteDocument)>, asset: Seq<char>, i: int)
    requires
        0 <= i <= m.len(),
        forall|j: int| 0 <= j < i ==> m[j].1.asset_id@ != asset,
        i < m.len() ==> m[i].1.asset_id@ == asset,
    ensures
        find_asset(m, asset) == (if i < m.len() { i } else { -1 }),
    decreases m.len(),
{
    if m.len() > 0 {
        let d = m.drop_last();
        if i < m.len() - 1 {
            lemma_find_asset(d, asset, i);
        } else {
            lemma_find_asset(d, asset, d.len() as int);
        }
    }
}

proof fn lemma_find_asset_found(m: Seq<(u64, RemoteDocument)>, asset: Seq<char>)
    ensures
        find_asset(m, asset) >= 0 ==> find_asset(m, asset) < m.len() && m[find_asset(m, asset)].1.asset_id@ == asset,
    decreases m.len(),
{
    if m.len() > 0 {
        lemma_find_asset_found(m.drop_last(), asset);
    }
}

proof fn lemma_find_live_found(m: Seq<(u64, RemoteDocument)>, asset: Seq<char>)
    ensures
        find_live(m, asset) < m.len(),
    decreases m.len(),
{
    if m.len() > 0 {
        lemma_find_live_found(m.drop_last(), asset);
    }
}

proof fn lemma_find_doc_found(m: Seq<(u64, RemoteDocument)>, id: u64)
    ensures
        find_doc(m, id) < m.len(),
        find_doc(m, id) >= 0 ==> m[find_doc(m, id)].0 == id,
    decreases m.len(),
{
    if m.len() > 0 {
        lemma_find_doc_found(m.drop_last(), id);
    }
}

proof fn lemma_find_doc(m: Seq<(u64, RemoteDocument)>, id: u64, i: int)
    requires
        0 <= i <= m.len(),
        forall|j: int| 0 <= j < i ==> m[j].0 != id,
        i < m.len() ==> m[i].0 == id,
    ensures
        find_doc(m, id) == (if i < m.len() { i } else { -1 }),
    decreases m.len(),
{
    if m.len() > 0 {
        let d = m.drop_last();
        if i < m.len() - 1 {
            lemma_find_doc(d, id, i);
        } else {
            lemma_find_doc(d, id, d.len() as int);
        }
    }
}

/// `n` is `o` after the connection dropped: nothing is joined or sending,
/// and no answer is awaited any more.
pub open spec fn disconnected(o: Documents, n: Documents) -> bool {
    &&& !n.connected
    &&& !n.capabilities_ready
    &&& n.pending@.len() == 0
    &&& n.docs@.len() == o.docs@.len()
    &&& forall|i: int| 0 <= i < o.docs@.len() ==> {
        let (a, b) = (#[trigger] n.docs@[i], o.docs@[i]);
        &&& a.0 == b.0
        &&& a.1 == (RemoteDocument { joined: false, sending: false, ..b.1 })
    }
}

/// `n` is `o` after the document bound to photo `asset` was detached: it
/// keeps its edits but stops exchanging them, and the requests still
/// waiting on its behalf are dropped.
pub open spec fn document_detached(o: Documents, n: Documents, asset: Seq<char>) -> bool {
    let p = find_asset(o.docs@, asset);
    let id = o.docs@[p].0;
    &&& n.docs@.len() == o.docs@.len()
    &&& n.docs@[p].0 == id
    &&& n.docs@[p].1 == (RemoteDocument { detached: true, joined: false, sending: false, render: false, ..o.docs@[p].1 })
    &&& forall|j: int| 0 <= j < o.docs@.len() && j != p ==> #[trigger] n.docs@[j] == o.docs@[j]
    &&& n.pending@ == unrelated(o.pending@, id)
    &&& n.connected == o.connected
    &&& n.capabilities_ready == o.capabilities_ready
}

impl Documents {
    /// No documents and nothing pending.
    pub fn new() -> (r: Documents)
        ensures
            r.docs@.len() == 0,
            r.pending@.len() == 0,
            !r.connected,
            !r.capabilities_ready,
            r.image_model is None,
    {
        Documents { docs: Vec::new(), pending: Vec::new(), connected: false, capabilities_ready: false, image_model: None }
    }

    /// The documents that a new connection joins again: every one not
    /// detached.
    pub fn joinable_documents(&self) -> (r: Vec<u64>)
        ensures
            r@ == joinable(self.docs@),
    {
        let mut r: Vec<u64> = Vec::new();
        let mut i: usize = 0;
        assert(self.docs@.take(0) =~= Seq::<(u64, RemoteDocument)>::empty());
        while i < self.docs.len()
            invariant
                i <= self.docs.len(),
                r@ == joinable(self.docs@.take(i as int)),
            decreases self.docs.len() - i,
        {
            proof {
                assert(self.docs@.take(i + 1).drop_last() =~= self.docs@.take(i as int));
            }
            if !self.docs[i].1.detached {
                r.push(self.docs[i].0);
            }
            i = i + 1;
        }
        assert(self.docs@.take(self.docs@.len() as int) =~= self.docs@);
        r
    }

    /// The connection dropped: nothing is joined or sending, and no answer
    /// is awaited any more.
    pub fn disconnect(&mut self)
        ensures
            disconnected(*old(self), *final(self)),
    {
        self.connected = false;
        self.capabilities_ready = false;
        let mut rest: Vec<(u64, RemoteDocument)> = Vec::new();
        std::mem::swap(&mut rest, &mut self.docs);
        let mut kept: Vec<(u64, RemoteDocument)> = Vec::new();
        let ghost orig = rest@;
        let mut i: usize = 0;
        let n = rest.len();
        while i < n
            invariant
                n == orig.len(),
                i <= n,
                rest@ == orig.subrange(i as int, n as int),
                kept@.len() == i,
                forall|j: int| 0 <= j < i ==> {
                    let (a, o) = (#[trigger] kept@[j], orig[j]);
                    &&& a.0 == o.0
                    &&& a.1 == (RemoteDocument { joined: false, sending: false, ..o.1 })
                },
            decreases n - i,
        {
            let (id, mut doc) = rest.remove(0);
            proof {
                assert(orig[i as int] == orig.subrange(i as int, n as int)[0]);
            }
            doc.joined = false;
            doc.sending = false;
            kept.push((id, doc));
            proof {
                assert(rest@ =~= orig.subrange(i + 1, n as int));
            }
            i = i + 1;
        }
        self.docs = kept;
        self.pending = Vec::new();
    }

    /// The cloud revoked access: every document stops exchanging edits,
    /// keeping its local edits, until it is explicitly reopened.
    pub fn detach_all(&mut self)
        ensures
            final(self).docs@.len() == old(self).docs@.len(),
            forall|i: int| 0 <= i < old(self).docs@.len() ==> {
                let (n, o) = (#[trigger] final(self).docs@[i], old(self).docs@[i]);
                &&& n.0 == o.0
                &&& n.1 == (RemoteDocument { detached: true, joined: false, sending: false, render: false, ..o.1 })
            },
            final(self).pending == old(self).pending,
            final(self).connected == old(self).connected,
            final(self).capabilities_ready == old(self).capabilities_ready,
    {
        let mut rest: Vec<(u64, RemoteDocument)> = Vec::new();
        std::mem::swap(&mut rest, &mut self.docs);
        let mut kept: Vec<(u64, RemoteDocument)> = Vec::new();
        let ghost orig = rest@;
        let mut i: usize = 0;
        let n = rest.len();
        while i < n
            invariant
                n == orig.len(),
                i <= n,
                rest@ == orig.subrange(i as int, n as int),
                kept@.len() == i,
                forall|j: int| 0 <= j < i ==> {
                    let (a, o) = (#[trigger] kept@[j], orig[j]);
                    &&& a.0 == o.0
                    &&& a.1 == (RemoteDocument { detached: true, joined: false, sending: false, render: false, ..o.1 })
                },
            decreases n - i,
        {
            let (id, mut doc) = rest.remove(0);
            proof {
                assert(orig[i as int] == orig.subrange(i as int, n as int)[0]);
            }
            doc.detach();
            kept.push((id, doc));
            proof {
                assert(rest@ =~= orig.subrange(i + 1, n as int));
            }
            i = i + 1;
        }
        self.docs = kept;
    }

    fn asset_index(&self, asset: &str) -> (r: Option<usize>)
        ensures
            match r {
                Some(i) => i < self.docs@.len() && i as int == find_asset(self.docs@, asset@),
                None => find_asset(self.docs@, asset@) < 0,
            },
    {
        let mut i: usize = 0;
        while i < self.docs.len()
            invariant
                i <= self.docs.len(),
                forall|j: int| 0 <= j < i ==> self.docs@[j].1.asset_id@ != asset@,
            decreases self.docs.len() - i,
        {
            if str_is(self.docs[i].1.asset_id.as_str(), asset) {
                proof {
                    lemma_find_asset(self.docs@, asset@, i as int);
                }
                return Some(i);
            }
            i = i + 1;
        }
        proof {
            lemma_find_asset(self.docs@, asset@, i as int);
        }
        None
    }

    /// Set document `i`'s exchange state, keeping its id and photo.
    pub(crate) fn set_doc_state(
        &mut self,
        i: usize,
        joined: bool,
        sending: bool,
        changed: bool,
        render: bool,
        generation: u64,
        saved: u64,
    )
        requires
            i < old(self).docs@.len(),
        ensures
            final(self).docs@ == old(self).docs@.update(
                i as int,
                (
                    old(self).docs@[i as int].0,
                    RemoteDocument { joined, sending, changed, render, generation, saved, ..old(self).docs@[i as int].1 },
                ),
            ),
            *final(self) == (Documents { docs: final(self).docs, ..*old(self) }),
    {
        let ghost before = self.docs@;
        let (id, mut d) = self.docs.remove(i);
        d.joined = joined;
        d.sending = sending;
        d.changed = changed;
        d.render = render;
        d.generation = generation;
        d.saved = saved;
        self.docs.insert(i, (id, d));
        assert(self.docs@ =~= before.update(
            i as int,
            (before[i as int].0, RemoteDocument { joined, sending, changed, render, generation, saved, ..before[i as int].1 }),
        ));
    }

    /// Drop the requests awaiting answers for document `id`.
    pub(crate) fn drop_pending_of(&mut self, id: u64)
        ensures
            final(self).pending@ == unrelated(old(self).pending@, id),
            *final(self) == (Documents { pending: final(self).pending, ..*old(self) }),
    {
        let mut src: Vec<(String, Pending)> = Vec::new();
        std::mem::swap(&mut src, &mut self.pending);
        let mut k: usize = 0;
        let mut kept: Vec<(String, Pending)> = Vec::new();
        let ghost orig = src@;
        assert(orig.take(0) =~= Seq::<(String, Pending)>::empty());
        let n = src.len();
        while k < n
            invariant
                n == orig.len(),
                k <= n,
                src@ == orig.subrange(k as int, n as int),
                kept@ == unrelated(orig.take(k as int), id),
            decreases n - k,
        {
            let item = src.remove(0);
            proof {
                assert(item == orig[k as int]);
                assert(orig.take(k + 1).drop_last() =~= orig.take(k as int));
                assert(src@ =~= orig.subrange(k + 1, n as int));
            }
            if !item.1.belongs_to(id) {
                kept.push(item);
            }
            k = k + 1;
        }
        assert(orig.take(n as int) =~= orig);
        self.pending = kept;
    }

    pub(crate) fn doc_index(&self, id: u64) -> (r: Option<usize>)
        ensures
            match r {
                Some(i) => i < self.docs@.len() && i as int == find_doc(self.docs@, id) && self.docs@[i as int].0 == id,
                None => find_doc(self.docs@, id) < 0,
            },
    {
        let mut i: usize = 0;
        while i < self.docs.len()
            invariant
                i <= self.docs.len(),
                forall|j: int| 0 <= j < i ==> self.docs@[j].0 != id,
            decreases self.docs.len() - i,
        {
            if self.docs[i].0 == id {
                proof {
                    lemma_find_doc(self.docs@, id, i as int);
                }
                return Some(i);
            }
            i = i + 1;
        }
        proof {
            lemma_find_doc(self.docs@, id, i as int);
        }
        None
    }

    /// Detach the document bound to photo `asset`, dropping the requests
    /// still waiting on its behalf; returns its id, or `None` when no
    /// document is bound to that photo.
    pub fn detach_document(&mut self, asset: &str) -> (r: Option<u64>)
        ensures
            ({
                let p = find_asset(old(self).docs@, asset@);
                &&& (p < 0 ==> r is None && *final(self) == *old(self))
                &&& (p >= 0 ==> r == Some(old(self).docs@[p].0) && document_detached(*old(self), *final(self), asset@))
            }),
    {
        let i = match self.asset_index(asset) {
            Some(i) => i,
            None => return None,
        };
        let ghost before = self.docs@;
        let (id, mut doc) = self.docs.remove(i);
        doc.detach();
        self.docs.insert(i, (id, doc));
        proof {
            assert forall|j: int| 0 <= j < before.len() && j != i implies #[trigger] self.docs@[j] == before[j] by {
                if j < i {
                } else {
                }
            }
        }
        let mut src: Vec<(String, Pending)> = Vec::new();
        std::mem::swap(&mut src, &mut self.pending);
        let mut k: usize = 0;
        let mut kept: Vec<(String, Pending)> = Vec::new();
        let ghost orig = src@;
        assert(orig.take(0) =~= Seq::<(String, Pending)>::empty());
        let n = src.len();
        while k < n
            invariant
                n == orig.len(),
                k <= n,
                src@ == orig.subrange(k as int, n as int),
                kept@ == unrelated(orig.take(k as int), id),
            decreases n - k,
        {
            let item = src.remove(0);
            proof {
                assert(item == orig[k as int]);
                assert(orig.take(k + 1).drop_last() =~= orig.take(k as int));
                assert(src@ =~= orig.subrange(k + 1, n as int));
            }
            if !item.1.belongs_to(id) {
                kept.push(item);
            }
            k = k + 1;
        }
        assert(orig.take(n as int) =~= orig);
        self.pending = kept;
        Some(id)
    }

    /// Rejoin a detached document on explicit request. Returns whether it had
    /// been detached; false for an unknown document.
    pub fn reopen_document(&mut self, id: u64) -> (r: bool)
        ensures
            document_reopened(*old(self), *final(self), id, r),
    {
        let i = match self.doc_index(id) {
            Some(i) => i,
            None => return false,
        };
        let ghost before = self.docs@;
        let (d, mut doc) = self.docs.remove(i);
        let was = doc.detached;
        doc.detached = false;
        self.docs.insert(i, (d, doc));
        proof {
            assert forall|j: int| 0 <= j < before.len() && j != i implies #[trigger] self.docs@[j] == before[j] by {
                if j < i {
                } else {
                }
            }
        }
        was
    }

    /// The live document a cloud update for photo `asset` goes to: the first
    /// one bound to it that is not detached. A detached document ignores late
    /// updates.
    pub fn update_target(&self, asset: &str) -> (r: Option<usize>)
        ensures
            match r {
                Some(i) => i < self.docs@.len() && self.docs@[i as int].1.asset_id@ == asset@
                    && !self.docs@[i as int].1.detached && forall|j: int| 0 <= j < i ==> !(
                    self.docs@[j].1.asset_id@ == asset@ && !self.docs@[j].1.detached),
                None => forall|j: int| 0 <= j < self.docs@.len() ==> !(self.docs@[j].1.asset_id@
                    == asset@ && !self.docs@[j].1.detached),
            },
    {
        let mut i: usize = 0;
        while i < self.docs.len()
            invariant
                i <= self.docs.len(),
                forall|j: int| 0 <= j < i ==> !(self.docs@[j].1.asset_id@ == asset@
                    && !self.docs@[j].1.detached),
            decreases self.docs.len() - i,
        {
            if !self.docs[i].1.detached && str_is(self.docs[i].1.asset_id.as_str(), asset) {
                return Some(i);
            }
            i = i + 1;
        }
        None
    }
}

impl Documents {
    /// A cloud update for photo `asset` arrived (see `update_applied`).
    /// `applied` is what applying it to the shared state of the document
    /// that `update_target` names gave; where it names none, `applied` is
    /// not read.
    pub fn apply_document_update(&mut self, asset: &str, applied: Result<(), String>) -> (r: Result<Option<u64>, String>)
        ensures
            update_applied(*old(self), *final(self), asset@, applied, r),
    {
        let i = match self.update_target(asset) {
            Some(i) => i,
            None => {
                proof {
                    lemma_find_live(self.docs@, asset@, self.docs@.len() as int);
                }
                return Ok(None);
            },
        };
        proof {
            lemma_find_live(self.docs@, asset@, i as int);
        }
        match applied {
            Err(e) => Err(e),
            Ok(()) => {
                let ghost before = self.docs@;
                let (d, mut doc) = self.docs.remove(i);
                doc.render = true;
                self.docs.insert(i, (d, doc));
                assert(self.docs@ =~= before.update(i as int, (before[i as int].0, RemoteDocument {
                    render: true,
                    ..before[i as int].1
                })));
                Ok(Some(d))
            },
        }
    }
}

/// Whether `n` holds documents under the ids `o` holds, in the same places.
pub open spec fn same_ids(o: Seq<(u64, RemoteDocument)>, n: Seq<(u64, RemoteDocument)>) -> bool {
    o.len() == n.len() && forall|i: int| 0 <= i < o.len() ==> #[trigger] n[i].0 == o[i].0
}

proof fn lemma_same_ids_unique(o: Seq<(u64, RemoteDocument)>, n: Seq<(u64, RemoteDocument)>)
    requires
        same_ids(o, n),
        ids_unique(o),
    ensures
        ids_unique(n),
{
    assert forall|i: int, j: int| 0 <= i < j < n.len() implies n[i].0 != n[j].0 by {
        assert(n[i].0 == o[i].0 && n[j].0 == o[j].0);
    }
}

/// Dropping the connection, detaching a document, reopening one and
/// taking an update each keep every document under its id, in its place:
/// ids that were unique stay unique.
pub proof fn lemma_changes_keep_ids(
    o: Documents,
    dropped: Documents,
    detached: Documents,
    reopened: Documents,
    updated: Documents,
    asset: Seq<char>,
    id: u64,
    was: bool,
    applied: Result<(), String>,
    r: Result<Option<u64>, String>,
)
    requires
        ids_unique(o.docs@),
        disconnected(o, dropped),
        find_asset(o.docs@, asset) >= 0 ==> document_detached(o, detached, asset),
        document_reopened(o, reopened, id, was),
        update_applied(o, updated, asset, applied, r),
    ensures
        same_ids(o.docs@, dropped.docs@) && ids_unique(dropped.docs@),
        find_asset(o.docs@, asset) >= 0 ==> same_ids(o.docs@, detached.docs@) && ids_unique(detached.docs@),
        same_ids(o.docs@, reopened.docs@) && ids_unique(reopened.docs@),
        same_ids(o.docs@, updated.docs@) && ids_unique(updated.docs@),
{
    lemma_same_ids_unique(o.docs@, dropped.docs@);
    if find_asset(o.docs@, asset) >= 0 {
        let p = find_asset(o.docs@, asset);
        lemma_find_asset_found(o.docs@, asset);
        assert forall|i: int| 0 <= i < o.docs@.len() implies #[trigger] detached.docs@[i].0 == o.docs@[i].0 by {
            if i != p {
                assert(detached.docs@[i] == o.docs@[i]);
            }
        }
        lemma_same_ids_unique(o.docs@, detached.docs@);
    }
    let q = find_doc(o.docs@, id);
    lemma_find_doc_found(o.docs@, id);
    if q >= 0 {
        assert forall|i: int| 0 <= i < o.docs@.len() implies #[trigger] reopened.docs@[i].0 == o.docs@[i].0 by {
            if i != q {
                assert(reopened.docs@[i] == o.docs@[i]);
            }
        }
    }
    lemma_same_ids_unique(o.docs@, reopened.docs@);
    lemma_find_live_found(o.docs@, asset);
    lemma_same_ids_unique(o.docs@, updated.docs@);
}

/// A late update for a photo whose only document was detached is ignored:
/// it succeeds and changes nothing, whatever applying it would have given.
pub proof fn lemma_detached_ignores_updates(
    o: Documents,
    n: Documents,
    m: Documents,
    asset: Seq<char>,
    applied: Result<(), String>,
    r: Result<Option<u64>, String>,
)
    requires
        find_asset(o.docs@, asset) >= 0,
        forall|j: int| 0 <= j < o.docs@.len() && o.docs@[j].1.asset_id@ == asset ==> j == find_asset(o.docs@, asset),
        document_detached(o, n, asset),
        update_applied(n, m, asset, applied, r),
    ensures
        m == n,
        r == Ok::<Option<u64>, String>(None),
{
    let p = find_asset(o.docs@, asset);
    lemma_find_asset_found(o.docs@, asset);
    assert forall|j: int| 0 <= j < n.docs@.len() implies !live_for(n.docs@[j].1, asset) by {
        if j != p {
            assert(n.docs@[j] == o.docs@[j]);
        }
    }
    lemma_find_live(n.docs@, asset, n.docs@.len() as int);
}

/// A reopened document takes updates again: an update for its photo, when
/// no other document is bound to that photo, goes to it.
pub proof fn lemma_reopened_takes_updates(
    o: Documents,
    n: Documents,
    m: Documents,
    id: u64,
    was: bool,
    asset: Seq<char>,
    r: Result<Option<u64>, String>,
)
    requires
        find_doc(o.docs@, id) >= 0,
        o.docs@[find_doc(o.docs@, id)].1.asset_id@ == asset,
        forall|j: int| 0 <= j < o.docs@.len() && o.docs@[j].1.asset_id@ == asset ==> j == find_doc(o.docs@, id),
        document_reopened(o, n, id, was),
        update_applied(n, m, asset, Ok(()), r),
    ensures
        r == Ok::<Option<u64>, String>(Some(id)),
        m.docs@[find_doc(o.docs@, id)].1.render,
{
    let p = find_doc(o.docs@, id);
    lemma_find_doc_found(o.docs@, id);
    assert forall|j: int| 0 <= j < p implies !live_for(n.docs@[j].1, asset) by {
        assert(n.docs@[j] == o.docs@[j]);
    }
    lemma_find_live(n.docs@, asset, p);
}

/// A detached document stays out of the documents a new connection joins,
/// until it is reopened.
pub proof fn lemma_detached_not_joinable(d: Seq<(u64, RemoteDocument)>, k: int)
    requires
        0 <= k < d.len(),
        d[k].1.detached,
        ids_unique(d),
    ensures
        !joinable(d).contains(d[k].0),
    decreases d.len(),
{
    let l = d.drop_last();
    if k < d.len() - 1 {
        assert(l[k] == d[k]);
        lemma_detached_not_joinable(l, k);
        if !d.last().1.detached {
            assert(d.last().0 != d[k].0);
            assert(joinable(d) =~= joinable(l).push(d.last().0));
        }
    } else {
        lemma_joinable_ids(l);
        assert forall|i: int| 0 <= i < joinable(l).len() implies joinable(l)[i] != d[k].0 by {
            let j = choose|j: int| 0 <= j < l.len() && l[j].0 == joinable(l)[i];
            assert(l[j] == d[j]);
        }
    }
}

/// Every joinable id is the id of some document.
pub proof fn lemma_joinable_ids(d: Seq<(u64, RemoteDocument)>)
    ensures
        forall|i: int| 0 <= i < joinable(d).len() ==> exists|j: int| 0 <= j < d.len() && d[j].0 == #[trigger] joinable(d)[i],
    decreases d.len(),
{
    if d.len() > 0 {
        let l = d.drop_last();
        lemma_joinable_ids(l);
        assert forall|i: int| 0 <= i < joinable(d).len() implies exists|j: int| 0 <= j < d.len() && d[j].0 == #[trigger] joinable(d)[i] by {
            if i < joinable(l).len() {
                let j = choose|j: int| 0 <= j < l.len() && l[j].0 == joinable(l)[i];
                assert(d[j] == l[j]);
            } else {
                assert(d[d.len() - 1].0 == joinable(d)[i]);
            }
        }
    }
}

} // verus!
