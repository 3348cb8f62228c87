//! Exchanging a cloud document's edits: joining its live session, sending
//! the local edits, saving, undoing, closing, and the answers the cloud
//! gives to those requests. The shared document itself (its updates,
//! state vectors and diffs) stays with the caller; this side decides what
//! is sent when, and what each answer does.
use vstd::prelude::*;
use crate::documents::{Documents, Pending, RemoteDocument, find_doc, unrelated};
use crate::workspace::Workspace;

verus! {

/// `post` is `pre` with `msg` in the status line and the cloud panel.
pub open spec fn reported(pre: Workspace, post: Workspace, msg: Seq<char>) -> bool {
    &&& post.status@ == msg
    &&& post.cloud_message@ == msg
    &&& post == (Workspace { status: post.status, cloud_message: post.cloud_message, ..pre })
}

/// `post` is `pre` with document `i` now `d`.
pub open spec fn doc_set(pre: Workspace, post: Workspace, i: int, d: RemoteDocument) -> bool {
    &&& post.documents.docs@ == pre.documents.docs@.update(i, (pre.documents.docs@[i].0, d))
    &&& post == (Workspace { documents: Documents { docs: post.documents.docs, ..pre.documents }, ..pre })
}

/// `post` is `pre` with document `i` now `d`, and `msg` reported.
pub open spec fn doc_set_reported(pre: Workspace, post: Workspace, i: int, d: RemoteDocument, msg: Seq<char>) -> bool {
    &&& post.documents.docs@ == pre.documents.docs@.update(i, (pre.documents.docs@[i].0, d))
    &&& post.status@ == msg
    &&& post.cloud_message@ == msg
    &&& post == (Workspace {
        documents: Documents { docs: post.documents.docs, ..pre.documents },
        status: post.status,
        cloud_message: post.cloud_message,
        ..pre
    })
}

/// Whether a join of document `id` is awaiting its answer.
pub open spec fn join_waiting(p: Seq<(String, Pending)>, id: u64) -> bool {
    exists|k: int| 0 <= k < p.len() && (#[trigger] p[k]).1 == Pending::Join(id)
}

/// The first position of request `req` among `p`, or -1.
pub open spec fn pending_pos(p: Seq<(String, Pending)>, req: Seq<char>) -> int
    decreases p.len(),
{
    if p.len() == 0 {
        -1
    } else {
        let r = pending_pos(p.drop_last(), req);
        if r >= 0 {
            r
        } else if p.last().0@ == req {
            p.len() - 1
        } else {
            -1
        }
    }
}

/// `p` with request `req` awaiting `what`, in place of what it awaited.
pub open spec fn pending_set(p: Seq<(String, Pending)>, req: String, what: Pending) -> Seq<(String, Pending)> {
    let i = pending_pos(p, req@);
    if i >= 0 {
        p.update(i, (req, what))
    } else {
        p.push((req, what))
    }
}

proof fn lemma_pending_pos(p: Seq<(String, Pending)>, req: Seq<char>, i: int)
    requires
        0 <= i <= p.len(),
        forall|j: int| 0 <= j < i ==> (#[trigger] p[j]).0@ != req,
        i < p.len() ==> p[i].0@ == req,
    ensures
        pending_pos(p, req) == (if i < p.len() { i } else { -1 }),
    decreases p.len(),
{
    if p.len() > 0 {
        let d = p.drop_last();
        if i < p.len() - 1 {
            assert forall|j: int| 0 <= j < i implies (#[trigger] d[j]).0@ != req by {
                assert(d[j] == p[j]);
            }
            lemma_pending_pos(d, req, i);
        } else {
            assert forall|j: int| 0 <= j < d.len() implies (#[trigger] d[j]).0@ != req by {
                assert(d[j] == p[j]);
            }
            lemma_pending_pos(d, req, d.len() as int);
        }
    }
}

fn pending_index(p: &Vec<(String, Pending)>, req: &str) -> (r: Option<usize>)
    ensures
        match r {
            Some(i) => i < p@.len() && i as int == pending_pos(p@, req@),
            None => pending_pos(p@, req@) < 0,
        },
{
    let mut i: usize = 0;
    while i < p.len()
        invariant
            i <= p@.len(),
            forall|j: int| 0 <= j < i ==> (#[trigger] p@[j]).0@ != req@,
        decreases p@.len() - i,
    {
        if crate::text::str_is(p[i].0.as_str(), req) {
            proof {
                lemma_pending_pos(p@, req@, i as int);
            }
            return Some(i);
        }
        i = i + 1;
    }
    proof {
        lemma_pending_pos(p@, req@, i as int);
    }
    None
}

fn is_join_waiting(p: &Vec<(String, Pending)>, id: u64) -> (r: bool)
    ensures
        r == join_waiting(p@, id),
{
    let mut i: usize = 0;
    while i < p.len()
        invariant
            i <= p@.len(),
            forall|j: int| 0 <= j < i ==> (#[trigger] p@[j]).1 != Pending::Join(id),
        decreases p@.len() - i,
    {
        let is_join = match p[i].1 {
            Pending::Join(d) => d == id,
            _ => false,
        };
        if is_join {
            return true;
        }
        i = i + 1;
    }
    false
}

/// Whether the provider is known not to edit images collaboratively.
pub open spec fn no_image_model(ds: Documents) -> bool {
    ds.image_model == Some(false)
}

fn image_model_refused(ds: &Documents) -> (r: bool)
    ensures
        r == no_image_model(*ds),
{
    match ds.image_model {
        Some(m) => !m,
        None => false,
    }
}

/// `post` is `pre` after asking to join document `id`'s live session;
/// `r` is the photo whose session is to be joined, when a request is to
/// go out. Nothing happens before the connection is up and its
/// capabilities known, for a document unknown or detached, or while a
/// join of it awaits its answer; a provider that does not edit images
/// collaboratively is reported. Otherwise the document stops counting as
/// joined or sending until the answer comes.
pub open spec fn join_started(pre: Workspace, post: Workspace, id: u64, r: Option<String>) -> bool {
    let ds = pre.documents;
    let i = find_doc(ds.docs@, id);
    if !ds.connected || !ds.capabilities_ready {
        post == pre && r is None
    } else if no_image_model(ds) {
        reported(pre, post, "cloud.error.no_collaborative_editing"@) && r is None
    } else if i < 0 || ds.docs@[i].1.detached || join_waiting(ds.pending@, id) {
        post == pre && r is None
    } else {
        let d = ds.docs@[i].1;
        &&& doc_set(pre, post, i, RemoteDocument { joined: false, sending: false, ..d })
        &&& r == if pre.cloud_client { Some(d.asset_id) } else { None }
    }
}

/// `post` is `pre` after asking to send document `id`'s local edits,
/// `check` being whether the provider takes the document at its size and
/// its edits could be read off (the first failure's message); `r` is the
/// photo and the edit count to send, when an update is to go out. Only a
/// joined, live document with edits not yet sent, and none on their way,
/// sends; a failed check leaves it unjoined and is reported.
pub open spec fn update_started(
    pre: Workspace,
    post: Workspace,
    id: u64,
    check: Result<(), String>,
    r: Option<(String, u64)>,
) -> bool {
    let ds = pre.documents;
    let i = find_doc(ds.docs@, id);
    if i < 0 {
        post == pre && r is None
    } else {
        let d = ds.docs@[i].1;
        if d.detached || !d.joined || d.sending || !d.changed {
            post == pre && r is None
        } else {
            match check {
                Err(e) => doc_set_reported(pre, post, i, RemoteDocument { joined: false, ..d }, e@) && r is None,
                Ok(_) => if pre.cloud_client {
                    doc_set(pre, post, i, RemoteDocument { sending: true, changed: false, ..d }) && r == Some(
                        (d.asset_id, d.generation),
                    )
                } else {
                    post == pre && r is None
                },
            }
        }
    }
}

impl Workspace {
    /// Record that request `req` awaits its answer for `what`.
    pub fn cloud_pending(&mut self, req: String, what: Pending)
        ensures
            final(self).documents.pending@ == pending_set(old(self).documents.pending@, req, what),
            *final(self) == (Workspace {
                documents: Documents { pending: final(self).documents.pending, ..old(self).documents },
                ..*old(self)
            }),
    {
        match pending_index(&self.documents.pending, req.as_str()) {
            Some(i) => {
                self.documents.pending.set(i, (req, what));
            },
            None => {
                self.documents.pending.push((req, what));
            },
        }
    }

    /// Ask to join document `id`'s live session (see `join_started`).
    pub fn cloud_join(&mut self, id: u64) -> (r: Option<String>)
        ensures
            join_started(*old(self), *final(self), id, r),
    {
        if !self.documents.connected || !self.documents.capabilities_ready {
            return None;
        }
        if image_model_refused(&self.documents) {
            self.cloud_error("cloud.error.no_collaborative_editing");
            return None;
        }
        let i = match self.documents.doc_index(id) {
            Some(i) => i,
            None => return None,
        };
        if self.documents.docs[i].1.detached || is_join_waiting(&self.documents.pending, id) {
            return None;
        }
        let asset = self.documents.docs[i].1.asset_id.clone();
        let (changed, render, generation, saved) = {
            let d = &self.documents.docs[i].1;
            (d.changed, d.render, d.generation, d.saved)
        };
        self.documents.set_doc_state(i, false, false, changed, render, generation, saved);
        if self.cloud_client {
            Some(asset)
        } else {
            None
        }
    }

    /// Ask to send document `id`'s local edits (see `update_started`).
    pub fn cloud_send_document(&mut self, id: u64, check: Result<(), String>) -> (r: Option<(String, u64)>)
        ensures
            update_started(*old(self), *final(self), id, check, r),
    {
        let i = match self.documents.doc_index(id) {
            Some(i) => i,
            None => return None,
        };
        let (joined, detached, sending, changed, render, generation, saved) = {
            let d = &self.documents.docs[i].1;
            (d.joined, d.detached, d.sending, d.changed, d.render, d.generation, d.saved)
        };
        if detached || !joined || sending || !changed {
            return None;
        }
        match check {
            Err(e) => {
                self.documents.set_doc_state(i, false, sending, changed, render, generation, saved);
                self.cloud_error(e.as_str());
                None
            },
            Ok(()) => {
                if !self.cloud_client {
                    return None;
                }
                let asset = self.documents.docs[i].1.asset_id.clone();
                self.documents.set_doc_state(i, joined, true, false, render, generation, saved);
                Some((asset, generation))
            },
        }
    }
}

/// The documents once the provider's capabilities arrived, `joining`
/// being whether joins go ahead: each live document with no join awaiting
/// its answer in `p` stops counting as joined or sending.
pub open spec fn rejoined(d: Seq<(u64, RemoteDocument)>, p: Seq<(String, Pending)>, joining: bool) -> Seq<(u64, RemoteDocument)> {
    Seq::new(
        d.len(),
        |k: int|
            if joining && !d[k].1.detached && !join_waiting(p, d[k].0) {
                (d[k].0, RemoteDocument { joined: false, sending: false, ..d[k].1 })
            } else {
                d[k]
            },
    )
}

/// The joins those documents send: each one's id and photo, in order.
pub open spec fn joins_to_send(d: Seq<(u64, RemoteDocument)>, p: Seq<(String, Pending)>) -> Seq<(u64, String)>
    decreases d.len(),
{
    if d.len() == 0 {
        Seq::empty()
    } else {
        let r = joins_to_send(d.drop_last(), p);
        let e = d.last();
        if !e.1.detached && !join_waiting(p, e.0) {
            r.push((e.0, e.1.asset_id))
        } else {
            r
        }
    }
}

/// What is left to do once an answer was taken in.
#[derive(Debug)]
pub enum ReplyStep {
    /// No request awaited that answer.
    Unknown,
    /// Nothing more.
    Done,
    /// The capabilities arrived: send these joins (document, photo).
    Join(Vec<(u64, String)>),
    /// Document `doc`'s edits are all saved: mark its image saved; with
    /// `close`, a quit waited on it: close its tab and go on quitting.
    Saved { doc: u64, close: bool },
}

/// `post` is `pre` once the capabilities arrived (`m`: whether the
/// provider edits images collaboratively), the request's entry dropped,
/// leaving `rest` awaited: joins of the live documents go ahead when
/// connected and allowed; a provider that does not edit images
/// collaboratively is reported, once, if a document would have joined.
pub open spec fn capabilities_taken(pre: Workspace, post: Workspace, rest: Seq<(String, Pending)>, m: Option<bool>, step: ReplyStep) -> bool {
    let ds = pre.documents;
    let joining = ds.connected && m != Some(false);
    let refused = ds.connected && m == Some(false) && exists|k: int| 0 <= k < ds.docs@.len() && !(#[trigger] ds.docs@[k]).1.detached;
    &&& post.documents.docs@ == rejoined(ds.docs@, rest, joining)
    &&& post.documents.pending@ == rest
    &&& post.documents == (Documents {
        docs: post.documents.docs,
        pending: post.documents.pending,
        capabilities_ready: true,
        image_model: m,
        ..ds
    })
    &&& if refused {
        &&& post.status@ == "cloud.error.no_collaborative_editing"@
        &&& post.cloud_message@ == "cloud.error.no_collaborative_editing"@
        &&& post == (Workspace { documents: post.documents, status: post.status, cloud_message: post.cloud_message, ..pre })
    } else {
        post == (Workspace { documents: post.documents, ..pre })
    }
    &&& step is Join
    &&& step->Join_0@ == if joining && pre.cloud_client { joins_to_send(ds.docs@, rest) } else { Seq::empty() }
}

/// `post`'s documents are `pre`'s, with `rest` awaited and document `id`,
/// if there is one, given these flags and this count of edits saved.
pub open spec fn answered_doc(pre: Workspace, post: Workspace, rest: Seq<(String, Pending)>, id: u64, joined: bool, sending: bool, changed: bool, render: bool, saved: u64) -> bool {
    let ds = pre.documents;
    let i = find_doc(ds.docs@, id);
    &&& post.documents.pending@ == rest
    &&& post.documents.docs@ == if i >= 0 {
        ds.docs@.update(i, (ds.docs@[i].0, RemoteDocument { joined, sending, changed, render, saved, ..ds.docs@[i].1 }))
    } else {
        ds.docs@
    }
}

/// `post` is `pre` but for its documents and the requests they await.
pub open spec fn frame_of(pre: Workspace, post: Workspace) -> Workspace {
    Workspace { documents: Documents { docs: post.documents.docs, pending: post.documents.pending, ..pre.documents }, ..pre }
}

/// A failed answer: reported, the documents as they were, `rest` awaited.
pub open spec fn answer_failed(pre: Workspace, post: Workspace, rest: Seq<(String, Pending)>, e: Seq<char>) -> bool {
    &&& post.documents.docs@ == pre.documents.docs@
    &&& post.documents.pending@ == rest
    &&& reported(frame_of(pre, post), post, e)
}

/// A join answered: the document is joined, its edits are to be sent and
/// its image drawn again.
pub open spec fn join_answered(pre: Workspace, post: Workspace, rest: Seq<(String, Pending)>, id: u64) -> bool {
    let ds = pre.documents;
    let d = ds.docs@[find_doc(ds.docs@, id)].1;
    &&& answered_doc(pre, post, rest, id, true, d.sending, true, true, d.saved)
    &&& post == frame_of(pre, post)
}

/// An update answered: the cloud holds `generation` edits of document
/// `doc`, none on their way; when that is all of them the document is
/// saved, and a quit waiting on it goes on.
pub open spec fn update_answered(pre: Workspace, post: Workspace, rest: Seq<(String, Pending)>, doc: u64, generation: u64, step: ReplyStep) -> bool {
    let ds = pre.documents;
    let i = find_doc(ds.docs@, doc);
    let d = ds.docs@[i].1;
    let full = i >= 0 && generation == d.generation;
    let close = full && pre.close_after_save == Some(doc);
    &&& answered_doc(pre, post, rest, doc, d.joined, false, d.changed, d.render, generation)
    &&& post == (Workspace { close_after_save: if close { None } else { pre.close_after_save }, ..frame_of(pre, post) })
    &&& step == if full { ReplyStep::Saved { doc, close } } else { ReplyStep::Done }
}

/// An update failed: the document is neither joined nor sending any more,
/// and the failure is reported.
pub open spec fn update_failed(pre: Workspace, post: Workspace, rest: Seq<(String, Pending)>, doc: u64, e: Seq<char>) -> bool {
    let ds = pre.documents;
    let d = ds.docs@[find_doc(ds.docs@, doc)].1;
    &&& answered_doc(pre, post, rest, doc, false, false, d.changed, d.render, d.saved)
    &&& reported(frame_of(pre, post), post, e)
}

/// Another request answered: the cloud panel says the cloud updated.
pub open spec fn change_answered(pre: Workspace, post: Workspace, rest: Seq<(String, Pending)>) -> bool {
    &&& post.documents.docs@ == pre.documents.docs@
    &&& post.documents.pending@ == rest
    &&& post.cloud_message@ == "cloud.status.updated"@
    &&& post == (Workspace { cloud_message: post.cloud_message, ..frame_of(pre, post) })
}

/// `post` is `pre` once request `req` was answered with `result` (for the
/// provider's capabilities: whether it edits images collaboratively;
/// otherwise the content does not count, the caller having taken it in):
/// an answer nobody awaits changes nothing; otherwise the request is no
/// longer awaited, and the answer lands as the request's kind says.
pub open spec fn reply_taken(pre: Workspace, post: Workspace, req: Seq<char>, result: Result<Option<bool>, String>, step: ReplyStep) -> bool {
    let ds = pre.documents;
    let pos = pending_pos(ds.pending@, req);
    if pos < 0 {
        post == pre && step is Unknown
    } else {
        let rest = ds.pending@.remove(pos);
        match result {
            Err(e) => step is Done && match ds.pending@[pos].1 {
                Pending::Update { doc, .. } => update_failed(pre, post, rest, doc, e@),
                _ => answer_failed(pre, post, rest, e@),
            },
            Ok(m) => match ds.pending@[pos].1 {
                Pending::Capabilities => capabilities_taken(pre, post, rest, m, step),
                Pending::Join(id) => join_answered(pre, post, rest, id) && step is Done,
                Pending::Update { doc, generation } => update_answered(pre, post, rest, doc, generation, step),
                Pending::Mutation => change_answered(pre, post, rest) && step is Done,
            },
        }
    }
}

impl Workspace {
    fn take_capabilities(&mut self, m: Option<bool>) -> (step: ReplyStep)
        ensures
            capabilities_taken(*old(self), *final(self), old(self).documents.pending@, m, step),
    {
        self.documents.image_model = m;
        self.documents.capabilities_ready = true;
        let joining = self.documents.connected && !image_model_refused(&self.documents);
        let refusing = self.documents.connected && image_model_refused(&self.documents);
        let ghost pre = *self;
        let ghost d0 = self.documents.docs@;
        let mut sends: Vec<(u64, String)> = Vec::new();
        let mut refused = false;
        let mut i: usize = 0;
        assert(d0.take(0) =~= Seq::<(u64, RemoteDocument)>::empty());
        while i < self.documents.docs.len()
            invariant
                i <= self.documents.docs@.len(),
                self.documents.docs@.len() == d0.len(),
                *self == (Workspace { documents: Documents { docs: self.documents.docs, ..pre.documents }, ..pre }),
                forall|k: int| 0 <= k < i ==> #[trigger] self.documents.docs@[k] == rejoined(d0, pre.documents.pending@, joining)[k],
                forall|k: int| i <= k < d0.len() ==> #[trigger] self.documents.docs@[k] == d0[k],
                sends@ == if joining && pre.cloud_client { joins_to_send(d0.take(i as int), pre.documents.pending@) } else { Seq::empty() },
                refused == (refusing && exists|k: int| 0 <= k < i && !(#[trigger] d0[k]).1.detached),
            decreases self.documents.docs@.len() - i,
        {
            assert(d0.take(i + 1).drop_last() =~= d0.take(i as int));
            let (id, detached, sending, changed, render, generation, saved) = {
                let e = &self.documents.docs[i];
                (e.0, e.1.detached, e.1.sending, e.1.changed, e.1.render, e.1.generation, e.1.saved)
            };
            if !detached && refusing {
                refused = true;
            }
            if joining && !detached && !is_join_waiting(&self.documents.pending, id) {
                let asset = self.documents.docs[i].1.asset_id.clone();
                self.documents.set_doc_state(i, false, false, changed, render, generation, saved);
                if self.cloud_client {
                    sends.push((id, asset));
                }
            }
            proof {
                assert(self.documents.docs@[i as int] == rejoined(d0, pre.documents.pending@, joining)[i as int]);
            }
            i = i + 1;
        }
        assert(d0.take(d0.len() as int) =~= d0);
        assert(self.documents.docs@ =~= rejoined(d0, pre.documents.pending@, joining));
        if refused {
            self.cloud_error("cloud.error.no_collaborative_editing");
        }
        ReplyStep::Join(sends)
    }

    fn answer_doc(&mut self, id: u64, joined: Option<bool>, sending: Option<bool>, changed: Option<bool>, render: Option<bool>, saved: Option<u64>)
        ensures
            ({
                let i = find_doc(old(self).documents.docs@, id);
                let d = old(self).documents.docs@[i].1;
                &&& answered_doc(
                    *old(self),
                    *final(self),
                    old(self).documents.pending@,
                    id,
                    match joined { Some(v) => v, None => d.joined },
                    match sending { Some(v) => v, None => d.sending },
                    match changed { Some(v) => v, None => d.changed },
                    match render { Some(v) => v, None => d.render },
                    match saved { Some(v) => v, None => d.saved },
                )
                &&& *final(self) == (Workspace { documents: Documents { docs: final(self).documents.docs, ..old(self).documents }, ..*old(self) })
            }),
    {
        if let Some(i) = self.documents.doc_index(id) {
            let (j0, s0, c0, r0, g0, v0) = {
                let d = &self.documents.docs[i].1;
                (d.joined, d.sending, d.changed, d.render, d.generation, d.saved)
            };
            self.documents.set_doc_state(
                i,
                match joined { Some(v) => v, None => j0 },
                match sending { Some(v) => v, None => s0 },
                match changed { Some(v) => v, None => c0 },
                match render { Some(v) => v, None => r0 },
                g0,
                match saved { Some(v) => v, None => v0 },
            );
        }
    }

    /// Take in the answer `result` to request `req` (see `reply_taken`).
    pub fn cloud_reply(&mut self, req: &str, result: Result<Option<bool>, String>) -> (step: ReplyStep)
        ensures
            reply_taken(*old(self), *final(self), req@, result, step),
    {
        let pos = match pending_index(&self.documents.pending, req) {
            Some(p) => p,
            None => return ReplyStep::Unknown,
        };
        let ghost pre = *self;
        let (_, what) = self.documents.pending.remove(pos);
        assert(*self == (Workspace { documents: Documents { pending: self.documents.pending, ..pre.documents }, ..pre }));
        match result {
            Err(e) => {
                match what {
                    Pending::Update { doc, .. } => self.update_failed_now(Ghost(pre), doc, e),
                    _ => self.answer_failed_now(Ghost(pre), e),
                }
                ReplyStep::Done
            },
            Ok(m) => match what {
                Pending::Capabilities => self.take_capabilities(m),
                Pending::Join(id) => {
                    self.join_answered_now(Ghost(pre), id);
                    ReplyStep::Done
                },
                Pending::Update { doc, generation } => self.update_answered_now(Ghost(pre), doc, generation),
                Pending::Mutation => {
                    self.cloud_message = "cloud.status.updated".to_owned();
                    ReplyStep::Done
                },
            },
        }
    }

    fn answer_failed_now(&mut self, Ghost(pre): Ghost<Workspace>, e: String)
        requires
            *old(self) == (Workspace { documents: Documents { pending: old(self).documents.pending, ..pre.documents }, ..pre }),
        ensures
            answer_failed(pre, *final(self), old(self).documents.pending@, e@),
    {
        self.cloud_error(e.as_str());
    }

    fn join_answered_now(&mut self, Ghost(pre): Ghost<Workspace>, id: u64)
        requires
            *old(self) == (Workspace { documents: Documents { pending: old(self).documents.pending, ..pre.documents }, ..pre }),
        ensures
            join_answered(pre, *final(self), old(self).documents.pending@, id),
    {
        self.answer_doc(id, Some(true), None, Some(true), Some(true), None);
    }

    fn update_failed_now(&mut self, Ghost(pre): Ghost<Workspace>, doc: u64, e: String)
        requires
            *old(self) == (Workspace { documents: Documents { pending: old(self).documents.pending, ..pre.documents }, ..pre }),
        ensures
            update_failed(pre, *final(self), old(self).documents.pending@, doc, e@),
    {
        self.answer_doc(doc, Some(false), Some(false), None, None, None);
        self.cloud_error(e.as_str());
    }

    fn update_answered_now(&mut self, Ghost(pre): Ghost<Workspace>, doc: u64, generation: u64) -> (step: ReplyStep)
        requires
            *old(self) == (Workspace { documents: Documents { pending: old(self).documents.pending, ..pre.documents }, ..pre }),
        ensures
            update_answered(pre, *final(self), old(self).documents.pending@, doc, generation, step),
    {
        let full = match self.documents.doc_index(doc) {
            Some(i) => self.documents.docs[i].1.generation == generation,
            None => false,
        };
        self.answer_doc(doc, None, Some(false), None, None, Some(generation));
        let close = full && self.close_after_save == Some(doc);
        if close {
            self.close_after_save = None;
        }
        if full {
            ReplyStep::Saved { doc, close }
        } else {
            ReplyStep::Done
        }
    }
}

/// Changing a document in place, its id kept, finds documents where they were.
proof fn lemma_find_doc_update(d: Seq<(u64, RemoteDocument)>, i: int, e: (u64, RemoteDocument), id: u64)
    requires
        0 <= i < d.len(),
        e.0 == d[i].0,
    ensures
        find_doc(d.update(i, e), id) == find_doc(d, id),
    decreases d.len(),
{
    let u = d.update(i, e);
    if i < d.len() - 1 {
        assert(u.drop_last() =~= d.drop_last().update(i, e));
        lemma_find_doc_update(d.drop_last(), i, e, id);
    } else {
        assert(u.drop_last() =~= d.drop_last());
    }
}

/// What saving a document came to.
#[derive(Debug, PartialEq)]
pub enum SaveStep {
    /// Not a cloud document: the caller saves it as it saves any other.
    NotCloud,
    /// The provider does not edit images collaboratively: reported; save
    /// it locally instead.
    LocalOnly,
    /// Its exchange with the cloud stopped: reported.
    Stopped,
    /// All its edits are in the cloud: mark its image saved; with `close`,
    /// a quit waited on it: close its tab and go on quitting.
    Saved { close: bool },
    /// Its edits are on their way: send the join of `join`'s photo, or the
    /// update of `update`'s photo and edit count, if any.
    Sending { join: Option<String>, update: Option<(String, u64)> },
}

/// The status while a save goes out, online or not.
pub open spec fn saving_message(connected: bool) -> Seq<char> {
    if connected { "cloud.status.saving"@ } else { "cloud.status.offline_will_sync"@ }
}

/// `post` is `pre` after saving document `id` (none: no document on
/// show), `check` being whether the provider takes the document and its
/// edits could be read off: a document all of whose edits the cloud holds
/// is saved at once; otherwise an unjoined document asks to join, a joined
/// one sends its edits, and the status says the save is on its way.
pub open spec fn save_taken(pre: Workspace, post: Workspace, id: Option<u64>, check: Result<(), String>, step: SaveStep) -> bool {
    let ds = pre.documents;
    match id {
        None => post == pre && step == SaveStep::NotCloud,
        Some(id) => {
            let i = find_doc(ds.docs@, id);
            let d = ds.docs@[i].1;
            if i < 0 {
                post == pre && step == SaveStep::NotCloud
            } else if no_image_model(ds) {
                reported(pre, post, "cloud.error.no_collaborative_editing_save_local"@) && step == SaveStep::LocalOnly
            } else if d.detached {
                reported(pre, post, "cloud.error.sync_stopped"@) && step == SaveStep::Stopped
            } else if d.joined && !d.sending && !d.changed && d.saved == d.generation {
                let close = pre.close_after_save == Some(id);
                &&& post.status@ == "cloud.status.saved"@
                &&& post == (Workspace {
                    close_after_save: if close { None } else { pre.close_after_save },
                    status: post.status,
                    ..pre
                })
                &&& step == SaveStep::Saved { close }
            } else if !d.joined {
                let joins = ds.connected && ds.capabilities_ready && !join_waiting(ds.pending@, id);
                &&& post.documents.docs@ == if joins {
                    ds.docs@.update(i, (ds.docs@[i].0, RemoteDocument { joined: false, sending: false, ..d }))
                } else {
                    ds.docs@
                }
                &&& post.status@ == saving_message(ds.connected)
                &&& post == (Workspace { documents: Documents { docs: post.documents.docs, ..ds }, status: post.status, ..pre })
                &&& step == SaveStep::Sending { join: if joins && pre.cloud_client { Some(d.asset_id) } else { None }, update: None }
            } else if d.sending || !d.changed {
                &&& post.status@ == saving_message(ds.connected)
                &&& post == (Workspace { status: post.status, ..pre })
                &&& step == SaveStep::Sending { join: None, update: None }
            } else {
                match check {
                    Err(e) => {
                        &&& post.documents.docs@ == ds.docs@.update(i, (ds.docs@[i].0, RemoteDocument { joined: false, ..d }))
                        &&& post.status@ == saving_message(ds.connected)
                        &&& post.cloud_message@ == e@
                        &&& post == (Workspace {
                            documents: Documents { docs: post.documents.docs, ..ds },
                            status: post.status,
                            cloud_message: post.cloud_message,
                            ..pre
                        })
                        &&& step == SaveStep::Sending { join: None, update: None }
                    },
                    Ok(_) => {
                        &&& post.documents.docs@ == if pre.cloud_client {
                            ds.docs@.update(i, (ds.docs@[i].0, RemoteDocument { sending: true, changed: false, ..d }))
                        } else {
                            ds.docs@
                        }
                        &&& post.status@ == saving_message(ds.connected)
                        &&& post == (Workspace { documents: Documents { docs: post.documents.docs, ..ds }, status: post.status, ..pre })
                        &&& step == SaveStep::Sending {
                            join: None,
                            update: if pre.cloud_client { Some((d.asset_id, d.generation)) } else { None },
                        }
                    },
                }
            }
        },
    }
}

impl Workspace {
    /// Save document `id` to the cloud (see `save_taken`).
    pub fn cloud_save(&mut self, id: Option<u64>, check: Result<(), String>) -> (step: SaveStep)
        ensures
            save_taken(*old(self), *final(self), id, check, step),
    {
        let id = match id {
            Some(id) => id,
            None => return SaveStep::NotCloud,
        };
        let i = match self.documents.doc_index(id) {
            Some(i) => i,
            None => return SaveStep::NotCloud,
        };
        if image_model_refused(&self.documents) {
            self.cloud_error("cloud.error.no_collaborative_editing_save_local");
            return SaveStep::LocalOnly;
        }
        let (joined, detached, sending, changed, generation, saved) = {
            let d = &self.documents.docs[i].1;
            (d.joined, d.detached, d.sending, d.changed, d.generation, d.saved)
        };
        if detached {
            self.cloud_error("cloud.error.sync_stopped");
            return SaveStep::Stopped;
        }
        if joined && !sending && !changed && saved == generation {
            let close = self.close_after_save == Some(id);
            if close {
                self.close_after_save = None;
            }
            self.status = "cloud.status.saved".to_owned();
            return SaveStep::Saved { close };
        }
        let ghost before = self.documents.docs@;
        let join = if !joined {
            self.cloud_join(id)
        } else {
            None
        };
        proof {
            if self.documents.docs@ != before {
                lemma_find_doc_update(before, i as int, self.documents.docs@[i as int], id);
            }
        }
        let update = self.cloud_send_document(id, check);
        self.status = if self.documents.connected {
            "cloud.status.saving".to_owned()
        } else {
            "cloud.status.offline_will_sync".to_owned()
        };
        SaveStep::Sending { join, update }
    }

    /// Whether undoing in document `id` (none: no document on show) may go
    /// to the shared document: only for a cloud document that is joined;
    /// an unjoined one is reported. Returns `None` for a document not of
    /// the cloud, else whether to undo.
    pub fn cloud_undo_allowed(&mut self, id: Option<u64>) -> (r: Option<bool>)
        ensures
            ({
                let ds = old(self).documents;
                match id {
                    None => r is None && *final(self) == *old(self),
                    Some(id) => {
                        let i = find_doc(ds.docs@, id);
                        if i < 0 {
                            r is None && *final(self) == *old(self)
                        } else if !ds.docs@[i].1.joined {
                            r == Some(false) && reported(*old(self), *final(self), "cloud.error.connect_before_undo"@)
                        } else {
                            r == Some(true) && *final(self) == *old(self)
                        }
                    },
                }
            }),
    {
        let id = match id {
            Some(id) => id,
            None => return None,
        };
        let i = match self.documents.doc_index(id) {
            Some(i) => i,
            None => return None,
        };
        if !self.documents.docs[i].1.joined {
            self.cloud_error("cloud.error.connect_before_undo");
            return Some(false);
        }
        Some(true)
    }

    /// The shared document `id` undid or redid an edit: it is a new edit
    /// to send, and its image is to be drawn again.
    pub fn cloud_undone(&mut self, id: u64)
        requires
            find_doc(old(self).documents.docs@, id) >= 0 ==> old(self).documents.docs@[find_doc(
                old(self).documents.docs@,
                id,
            )].1.generation < u64::MAX,
        ensures
            ({
                let ds = old(self).documents;
                let i = find_doc(ds.docs@, id);
                if i < 0 {
                    *final(self) == *old(self)
                } else {
                    let d = ds.docs@[i].1;
                    doc_set(*old(self), *final(self), i, RemoteDocument { render: true, changed: true, generation: (d.generation + 1) as u64, ..d })
                }
            }),
    {
        if let Some(i) = self.documents.doc_index(id) {
            let (joined, sending, generation, saved) = {
                let d = &self.documents.docs[i].1;
                (d.joined, d.sending, d.generation, d.saved)
            };
            self.documents.set_doc_state(i, joined, sending, true, true, generation + 1, saved);
        }
    }

    /// The editor's document `id` was compared with its shared document:
    /// `outcome` says whether it held new edits, or why they could not be
    /// read (the message to show). New edits count as one more edit to
    /// send; a failure is reported.
    pub fn cloud_edit_captured(&mut self, id: u64, outcome: Result<bool, String>)
        requires
            find_doc(old(self).documents.docs@, id) >= 0 ==> old(self).documents.docs@[find_doc(
                old(self).documents.docs@,
                id,
            )].1.generation < u64::MAX,
        ensures
            ({
                let ds = old(self).documents;
                let i = find_doc(ds.docs@, id);
                let d = ds.docs@[i].1;
                if i < 0 {
                    *final(self) == *old(self)
                } else {
                    match outcome {
                        Ok(true) => doc_set(*old(self), *final(self), i, RemoteDocument { changed: true, generation: (d.generation + 1) as u64, ..d }),
                        Ok(false) => *final(self) == *old(self),
                        Err(e) => reported(*old(self), *final(self), e@),
                    }
                }
            }),
    {
        let i = match self.documents.doc_index(id) {
            Some(i) => i,
            None => return,
        };
        match outcome {
            Ok(true) => {
                let (joined, sending, render, generation, saved) = {
                    let d = &self.documents.docs[i].1;
                    (d.joined, d.sending, d.render, d.generation, d.saved)
                };
                self.documents.set_doc_state(i, joined, sending, true, render, generation + 1, saved);
            },
            Ok(false) => {},
            Err(e) => self.cloud_error(e.as_str()),
        }
    }

    /// Close cloud document `id`: the requests awaited for it are dropped
    /// and it is forgotten. Returns its photo, whose recovery file goes and
    /// whose session is left; `None` for a document not of the cloud.
    pub fn cloud_close_document(&mut self, id: u64) -> (r: Option<String>)
        ensures
            ({
                let ds = old(self).documents;
                let i = find_doc(ds.docs@, id);
                &&& final(self).documents.pending@ == unrelated(ds.pending@, id)
                &&& final(self).documents.docs@ == if i >= 0 { ds.docs@.remove(i) } else { ds.docs@ }
                &&& r == if i >= 0 { Some(ds.docs@[i].1.asset_id) } else { None }
                &&& *final(self) == (Workspace {
                    documents: Documents { docs: final(self).documents.docs, pending: final(self).documents.pending, ..ds },
                    ..*old(self)
                })
            }),
    {
        self.documents.drop_pending_of(id);
        match self.documents.doc_index(id) {
            Some(i) => {
                let (_, d) = self.documents.docs.remove(i);
                Some(d.asset_id)
            },
            None => None,
        }
    }
}

impl Documents {
    /// The shared document of entry `i` took in an update from the cloud:
    /// its image is to be drawn again.
    pub fn rerender(&mut self, i: usize)
        requires
            i < old(self).docs@.len(),
        ensures
            final(self).docs@ == old(self).docs@.update(
                i as int,
                (old(self).docs@[i as int].0, RemoteDocument { render: true, ..old(self).docs@[i as int].1 }),
            ),
            *final(self) == (Documents { docs: final(self).docs, ..*old(self) }),
    {
        let (joined, sending, changed, generation, saved) = {
            let d = &self.docs[i].1;
            (d.joined, d.sending, d.changed, d.generation, d.saved)
        };
        self.set_doc_state(i, joined, sending, changed, true, generation, saved);
    }
}

proof fn lemma_pending_set_found(p: Seq<(String, Pending)>, req: String, what: Pending)
    ensures
        ({
            let q = pending_set(p, req, what);
            let k = pending_pos(q, req@);
            &&& 0 <= k < q.len()
            &&& q[k] == (req, what)
            &&& q.remove(k) == (if pending_pos(p, req@) >= 0 { p.remove(pending_pos(p, req@)) } else { p })
        }),
{
    let i = pending_pos(p, req@);
    lemma_pending_pos_range(p, req@);
    if i >= 0 {
        let q = p.update(i, (req, what));
        assert forall|j: int| 0 <= j < i implies (#[trigger] q[j]).0@ != req@ by {
            lemma_pending_pos_first(p, req@, j);
        }
        lemma_pending_pos(q, req@, i);
        assert(q.remove(i) =~= p.remove(i));
    } else {
        let q = p.push((req, what));
        assert forall|j: int| 0 <= j < p.len() implies (#[trigger] q[j]).0@ != req@ by {
            lemma_pending_pos_first(p, req@, j);
        }
        lemma_pending_pos(q, req@, p.len() as int);
        assert(q.remove(p.len() as int) =~= p);
    }
}

proof fn lemma_pending_pos_range(p: Seq<(String, Pending)>, req: Seq<char>)
    ensures
        -1 <= pending_pos(p, req) < p.len(),
        pending_pos(p, req) >= 0 ==> p[pending_pos(p, req)].0@ == req,
    decreases p.len(),
{
    if p.len() > 0 {
        lemma_pending_pos_range(p.drop_last(), req);
    }
}

/// Nothing before the first position of `req` is `req`, and without one,
/// nothing is.
proof fn lemma_pending_pos_first(p: Seq<(String, Pending)>, req: Seq<char>, j: int)
    requires
        0 <= j < p.len(),
        pending_pos(p, req) < 0 || j < pending_pos(p, req),
    ensures
        p[j].0@ != req,
    decreases p.len(),
{
    lemma_pending_pos_range(p.drop_last(), req);
    if j < p.len() - 1 {
        lemma_pending_pos_first(p.drop_last(), req, j);
    }
}

/// Edits sent come back saved: once an update of document `id` went out
/// (its request `req` then awaited for it) and the cloud answered it, the
/// cloud holds all the edits the document had; it sends nothing more
/// until new edits come, and a quit waiting on it goes on.
pub proof fn lemma_sent_edits_saved_on_answer(
    w0: Workspace,
    w1: Workspace,
    w2: Workspace,
    w3: Workspace,
    id: u64,
    asset: String,
    generation: u64,
    req: String,
    answer: Option<bool>,
    step: ReplyStep,
)
    requires
        update_started(w0, w1, id, Ok(()), Some((asset, generation))),
        w2.documents.pending@ == pending_set(w1.documents.pending@, req, Pending::Update { doc: id, generation }),
        w2 == (Workspace { documents: Documents { pending: w2.documents.pending, ..w1.documents }, ..w1 }),
        reply_taken(w2, w3, req@, Ok(answer), step),
    ensures
        ({
            let i = find_doc(w0.documents.docs@, id);
            let d = w3.documents.docs@[i].1;
            &&& 0 <= i
            &&& d.saved == d.generation
            &&& d.generation == w0.documents.docs@[i].1.generation
            &&& !d.sending
            &&& step == ReplyStep::Saved { doc: id, close: w0.close_after_save == Some(id) }
        }),
{
    let i = find_doc(w0.documents.docs@, id);
    let d0 = w0.documents.docs@[i].1;
    lemma_find_doc_range(w0.documents.docs@, id);
    lemma_find_doc_update(w0.documents.docs@, i, (w0.documents.docs@[i].0, RemoteDocument { sending: true, changed: false, ..d0 }), id);
    lemma_pending_set_found(w1.documents.pending@, req, Pending::Update { doc: id, generation });
    let i1 = find_doc(w2.documents.docs@, id);
    assert(i1 == i);
    lemma_find_doc_range(w2.documents.docs@, id);
}

proof fn lemma_find_doc_range(d: Seq<(u64, RemoteDocument)>, id: u64)
    ensures
        -1 <= find_doc(d, id) < d.len(),
    decreases d.len(),
{
    if d.len() > 0 {
        lemma_find_doc_range(d.drop_last(), id);
    }
}

/// A detached document stays quiet: asking it to join or to send its edits
/// sends nothing.
pub proof fn lemma_detached_stays_quiet(
    pre: Workspace,
    joined: Workspace,
    sent: Workspace,
    id: u64,
    check: Result<(), String>,
    j: Option<String>,
    u: Option<(String, u64)>,
)
    requires
        find_doc(pre.documents.docs@, id) >= 0,
        pre.documents.docs@[find_doc(pre.documents.docs@, id)].1.detached,
        join_started(pre, joined, id, j),
        update_started(pre, sent, id, check, u),
    ensures
        j is None,
        u is None,
        sent == pre,
{
}

proof fn lemma_unrelated_from(p: Seq<(String, Pending)>, id: u64)
    ensures
        forall|x: int| 0 <= x < unrelated(p, id).len() ==> exists|j: int|
            0 <= j < p.len() && p[j] == #[trigger] unrelated(p, id)[x] && !p[j].1.spec_belongs_to(id),
    decreases p.len(),
{
    if p.len() > 0 {
        let d = p.drop_last();
        lemma_unrelated_from(d, id);
        let u = unrelated(p, id);
        let ud = unrelated(d, id);
        assert forall|x: int| 0 <= x < u.len() implies exists|j: int|
            0 <= j < p.len() && p[j] == #[trigger] u[x] && !p[j].1.spec_belongs_to(id) by {
            if x < ud.len() {
                assert(u[x] == ud[x]);
                let j = choose|j: int| 0 <= j < d.len() && d[j] == ud[x] && !d[j].1.spec_belongs_to(id);
                assert(p[j] == d[j]);
            } else {
                assert(u[x] == p.last());
                assert(p[p.len() - 1] == p.last());
            }
        }
    }
}

/// Closing a document turns away the answers to its requests: an answer to
/// one of them finds nothing awaiting it, and changes nothing.
pub proof fn lemma_closed_document_answers_ignored(
    pre: Workspace,
    post: Workspace,
    later: Workspace,
    id: u64,
    k: int,
    result: Result<Option<bool>, String>,
    step: ReplyStep,
)
    requires
        post.documents.pending@ == unrelated(pre.documents.pending@, id),
        keys_unique(pre.documents.pending@),
        0 <= k < pre.documents.pending@.len(),
        pre.documents.pending@[k].1.spec_belongs_to(id),
        reply_taken(post, later, pre.documents.pending@[k].0@, result, step),
    ensures
        later == post,
        step is Unknown,
{
    let p = pre.documents.pending@;
    let u = post.documents.pending@;
    let key = p[k].0@;
    lemma_unrelated_from(p, id);
    lemma_pending_pos_range(u, key);
    if pending_pos(u, key) >= 0 {
        let x = pending_pos(u, key);
        let j = choose|j: int| 0 <= j < p.len() && p[j] == #[trigger] u[x] && !p[j].1.spec_belongs_to(id);
        if j < k {
            assert(p[j].0@ != p[k].0@);
        } else if k < j {
            assert(p[k].0@ != p[j].0@);
        }
    }
}

/// Whether no two requests of `p` share an id.
pub open spec fn keys_unique(p: Seq<(String, Pending)>) -> bool {
    forall|a: int, b: int| 0 <= a < b < p.len() ==> (#[trigger] p[a]).0@ != (#[trigger] p[b]).0@
}

/// Recording a request keeps one entry per request id.
pub proof fn lemma_pending_keys_stay_unique(p: Seq<(String, Pending)>, req: String, what: Pending)
    requires
        keys_unique(p),
    ensures
        keys_unique(pending_set(p, req, what)),
{
    let i = pending_pos(p, req@);
    lemma_pending_pos_range(p, req@);
    let q = pending_set(p, req, what);
    assert forall|a: int, b: int| 0 <= a < b < q.len() implies (#[trigger] q[a]).0@ != (#[trigger] q[b]).0@ by {
        if i >= 0 {
            if a != i && b != i {
                assert(q[a] == p[a] && q[b] == p[b]);
            } else if a == i {
                assert(q[b] == p[b]);
            } else {
                assert(q[a] == p[a]);
            }
        } else if b == p.len() {
            lemma_pending_pos_first(p, req@, a);
        } else {
            assert(q[a] == p[a] && q[b] == p[b]);
        }
    }
}

} // verus!
