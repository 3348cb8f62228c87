//! What the workspace makes of the cloud's background work as it comes
//! back: thumbnails, progress and errors, map markers.
use vstd::prelude::*;
use crate::assets::{
    Asset, AssetFeed, Snapshot, Wanted, first_error, is_listed, listed, page_failed, page_index, snapshot_applied,
    spec_wanted_thumbnails,
};
use crate::documents::{Documents, RemoteDocument, disconnected, document_detached, find_asset, joinable};
use crate::modal::Modal;
use crate::text::{has_prefix, str_starts_with};
use crate::workspace::{Workspace, modal_opened, modal_refused};

verus! {

/// The thumbnail cache's bookkeeping: how many downloads are running, the
/// revision of each photo's image held, the photos whose download failed,
/// and the downloads asked for.
#[derive(Debug)]
pub struct Thumbnails {
    pub active: usize,
    pub have: Vec<(String, u64)>,
    pub failed: Vec<String>,
    pub jobs: Vec<(String, u64)>,
}

/// `s` without the entries for photo `id` at revision `rev`.
pub open spec fn without_pair(s: Seq<(String, u64)>, id: Seq<char>, rev: u64) -> Seq<(String, u64)>
    decreases s.len(),
{
    if s.len() == 0 {
        s
    } else if s.last().0@ == id && s.last().1 == rev {
        without_pair(s.drop_last(), id, rev)
    } else {
        without_pair(s.drop_last(), id, rev).push(s.last())
    }
}

/// `s` without photo `id`.
pub open spec fn without_id(s: Seq<String>, id: Seq<char>) -> Seq<String>
    decreases s.len(),
{
    if s.len() == 0 {
        s
    } else if s.last()@ == id {
        without_id(s.drop_last(), id)
    } else {
        without_id(s.drop_last(), id).push(s.last())
    }
}

/// `s` with photo `id` in it, once.
pub open spec fn with_id(s: Seq<String>, id: String) -> Seq<String> {
    if listed(s, id@) {
        s
    } else {
        s.push(id)
    }
}

/// The position of photo `id` in `s`, or -1.
pub open spec fn key_pos(s: Seq<(String, u64)>, id: Seq<char>) -> int
    decreases s.len(),
{
    if s.len() == 0 {
        -1
    } else {
        let p = key_pos(s.drop_last(), id);
        if p >= 0 {
            p
        } else if s.last().0@ == id {
            s.len() - 1
        } else {
            -1
        }
    }
}

/// `s` holding revision `rev` for photo `id`.
pub open spec fn keyed_set(s: Seq<(String, u64)>, id: String, rev: u64) -> Seq<(String, u64)> {
    let p = key_pos(s, id@);
    if p >= 0 {
        s.update(p, (id, rev))
    } else {
        s.push((id, rev))
    }
}

/// Whether photo `id` at revision `rev` is among the thumbnails wanted.
pub open spec fn wanted_has(w: Seq<Wanted>, id: Seq<char>, rev: u64) -> bool {
    exists|k: int| 0 <= k < w.len() && (#[trigger] w[k]).0@ == id && w[k].1 == rev
}

fn drop_pair(s: &mut Vec<(String, u64)>, id: &String, rev: u64)
    ensures
        final(s)@ == without_pair(old(s)@, id@, rev),
{
    let mut out: Vec<(String, u64)> = Vec::new();
    let mut i: usize = 0;
    while i < s.len()
        invariant
            i <= s@.len(),
            out@ == without_pair(s@.take(i as int), id@, rev),
        decreases s@.len() - i,
    {
        proof {
            assert(s@.take(i + 1).drop_last() =~= s@.take(i as int));
        }
        if !(s[i].0 == *id && s[i].1 == rev) {
            out.push((s[i].0.clone(), s[i].1));
        }
        i = i + 1;
    }
    assert(s@.take(s@.len() as int) =~= s@);
    *s = out;
}

fn drop_id(s: &mut Vec<String>, id: &String)
    ensures
        final(s)@ == without_id(old(s)@, id@),
{
    let mut out: Vec<String> = Vec::new();
    let mut i: usize = 0;
    while i < s.len()
        invariant
            i <= s@.len(),
            out@ == without_id(s@.take(i as int), id@),
        decreases s@.len() - i,
    {
        proof {
            assert(s@.take(i + 1).drop_last() =~= s@.take(i as int));
        }
        if s[i] != *id {
            out.push(s[i].clone());
        }
        i = i + 1;
    }
    assert(s@.take(s@.len() as int) =~= s@);
    *s = out;
}

pub(crate) proof fn lemma_key_pos(s: Seq<(String, u64)>, id: Seq<char>, i: int)
    requires
        0 <= i <= s.len(),
        forall|j: int| 0 <= j < i ==> s[j].0@ != id,
        i < s.len() ==> s[i].0@ == id,
    ensures
        key_pos(s, id) == (if i < s.len() { i } else { -1 }),
    decreases s.len(),
{
    if s.len() > 0 {
        let d = s.drop_last();
        if i < s.len() - 1 {
            lemma_key_pos(d, id, i);
        } else {
            lemma_key_pos(d, id, d.len() as int);
        }
    }
}

fn set_key(s: &mut Vec<(String, u64)>, id: String, rev: u64)
    ensures
        final(s)@ == keyed_set(old(s)@, id, rev),
{
    let mut i: usize = 0;
    while i < s.len()
        invariant
            i <= s@.len(),
            s@ == old(s)@,
            forall|j: int| 0 <= j < i ==> s@[j].0@ != id@,
        decreases s@.len() - i,
    {
        if s[i].0 == id {
            proof {
                lemma_key_pos(s@, id@, i as int);
            }
            s.set(i, (id, rev));
            return;
        }
        i = i + 1;
    }
    proof {
        lemma_key_pos(s@, id@, s@.len() as int);
    }
    s.push((id, rev));
}

fn is_wanted(w: &Vec<Wanted>, id: &String, rev: u64) -> (r: bool)
    ensures
        r == wanted_has(w@, id@, rev),
{
    let mut i: usize = 0;
    while i < w.len()
        invariant
            i <= w@.len(),
            forall|k: int| 0 <= k < i ==> !((#[trigger] w@[k]).0@ == id@ && w@[k].1 == rev),
        decreases w@.len() - i,
    {
        if w[i].0 == *id && w[i].1 == rev {
            return true;
        }
        i = i + 1;
    }
    false
}

/// Background work come back from the cloud.
#[derive(Debug)]
pub enum CloudJob {
    /// A thumbnail download ended, with the image or without.
    Thumbnail { epoch: u64, id: String, revision: u64, loaded: bool },
    /// A cloud operation failed.
    Error { epoch: u64, error: String },
    /// A cloud operation finished.
    Done { epoch: u64, message: String },
    /// A cloud operation's progress.
    Progress { epoch: u64, done: u64, total: u64, label: String },
    /// The world map's markers arrived, or failed to.
    MapAssets { epoch: u64, key: String, result: Result<Vec<Asset>, String> },
}

impl CloudJob {
    pub open spec fn epoch(self) -> u64 {
        match self {
            CloudJob::Thumbnail { epoch, .. } => epoch,
            CloudJob::Error { epoch, .. } => epoch,
            CloudJob::Done { epoch, .. } => epoch,
            CloudJob::Progress { epoch, .. } => epoch,
            CloudJob::MapAssets { epoch, .. } => epoch,
        }
    }
}

/// The thumbnails after a download of photo `id` at revision `rev` ended,
/// with the wanted thumbnails `w`: one download fewer is running; a
/// download no longer wanted (the photo moved on to another revision) is
/// forgotten and its image dropped; otherwise the image is kept, or the
/// photo marked failed.
pub open spec fn thumbnail_done(t: Thumbnails, n: Thumbnails, w: Seq<Wanted>, id: String, rev: u64, loaded: bool) -> bool {
    let active = if t.active > 0 { (t.active - 1) as usize } else { 0usize };
    if !wanted_has(w, id@, rev) {
        &&& n.jobs@ == without_pair(t.jobs@, id@, rev)
        &&& n == (Thumbnails { active, jobs: n.jobs, ..t })
    } else if loaded {
        &&& n.failed@ == without_id(t.failed@, id@)
        &&& n.have@ == keyed_set(t.have@, id, rev)
        &&& n == (Thumbnails { active, failed: n.failed, have: n.have, ..t })
    } else {
        &&& n.failed@ == with_id(t.failed@, id)
        &&& n == (Thumbnails { active, failed: n.failed, ..t })
    }
}

/// Whether `m` is the dialog that warns the cloud is out of storage,
/// showing `error`.
pub open spec fn storage_warning(m: Modal, error: Seq<char>) -> bool {
    &&& m matches Modal::Cloud { kind, fields } && kind@ == "storage-warning"@ && fields@.len() == 1
        && fields@[0].0@ == "message"@ && fields@[0].1@.len() == 0 && fields@[0].2@ == error
}

/// `new` is `old` after `m` was asked for from the menus.
pub open spec fn open_result(pre: Workspace, post: Workspace, m: Modal) -> bool {
    if !pre.cloud_enabled && m.spec_is_cloud() {
        modal_refused(pre, post)
    } else {
        modal_opened(pre, post, m)
    }
}

/// `new` is `old` after background job `job` came back; `storage` is how
/// an error about the cloud being out of storage begins. Work from an
/// earlier sign-in is ignored.
pub open spec fn job_applied(pre: Workspace, post: Workspace, job: CloudJob, storage: Seq<char>) -> bool {
    if job.epoch() != pre.cloud_epoch {
        post == pre
    } else {
        match job {
            CloudJob::Thumbnail { id, revision, loaded, .. } => {
                &&& thumbnail_done(pre.thumbnails, post.thumbnails, spec_wanted_thumbnails(pre.feed), id, revision, loaded)
                &&& post == (Workspace { thumbnails: post.thumbnails, ..pre })
            },
            CloudJob::Error { error, .. } => {
                let w0 = Workspace { cloud_progress: None, ..pre };
                &&& post.status@ == error@
                &&& post.cloud_message@ == error@
                &&& if has_prefix(error@, storage) {
                    exists|mid: Workspace, m: Modal|
                        #![trigger open_result(w0, mid, m)]
                        storage_warning(m, error@) && open_result(w0, mid, m) && post == (Workspace {
                            status: post.status,
                            cloud_message: post.cloud_message,
                            ..mid
                        })
                } else {
                    post == (Workspace { status: post.status, cloud_message: post.cloud_message, ..w0 })
                }
            },
            CloudJob::Done { message, .. } => {
                &&& post.status == message
                &&& post == (Workspace { cloud_progress: None, status: message, cloud_message: message, ..pre })
            },
            CloudJob::Progress { done, total, label, .. } => {
                post == (Workspace { status: label, cloud_message: label, cloud_progress: Some((done, total, label)), ..pre })
            },
            CloudJob::MapAssets { key, result, .. } => match result {
                Ok(assets) => post == (Workspace {
                    map_loading: false,
                    map_key: Some(key),
                    feed: AssetFeed { map_assets: assets, ..pre.feed },
                    ..pre
                }),
                Err(e) => {
                    &&& post.status@ == e@
                    &&& post.cloud_message@ == e@
                    &&& post == (Workspace {
                        map_loading: false,
                        map_key: Some(key),
                        status: post.status,
                        cloud_message: post.cloud_message,
                        ..pre
                    })
                },
            },
        }
    }
}

impl Workspace {
    fn thumbnail_job(&mut self, id: String, revision: u64, loaded: bool) -> (keep: bool)
        ensures
            thumbnail_done(old(self).thumbnails, final(self).thumbnails, spec_wanted_thumbnails(old(self).feed), id, revision, loaded),
            keep == (loaded && wanted_has(spec_wanted_thumbnails(old(self).feed), id@, revision)),
            *final(self) == (Workspace { thumbnails: final(self).thumbnails, ..*old(self) }),
    {
        self.thumbnails.active = if self.thumbnails.active > 0 {
            self.thumbnails.active - 1
        } else {
            0
        };
        let wanted = self.feed.wanted_thumbnails();
        if !is_wanted(&wanted, &id, revision) {
            drop_pair(&mut self.thumbnails.jobs, &id, revision);
            return false;
        }
        if loaded {
            drop_id(&mut self.thumbnails.failed, &id);
            set_key(&mut self.thumbnails.have, id, revision);
            true
        } else {
            if !is_listed(&self.thumbnails.failed, &id) {
                self.thumbnails.failed.push(id);
            }
            false
        }
    }

    /// Take in background job `job`; `storage` is how an error about the
    /// cloud being out of storage begins, in the language on show. Returns
    /// whether a downloaded thumbnail's image is to be kept.
    pub fn cloud_job(&mut self, job: CloudJob, storage: &str) -> (keep: bool)
        ensures
            job_applied(*old(self), *final(self), job, storage@),
            keep == (job.epoch() == old(self).cloud_epoch && (job matches CloudJob::Thumbnail { id, revision, loaded, .. }
                && loaded && wanted_has(spec_wanted_thumbnails(old(self).feed), id@, revision))),
    {
        let epoch = match &job {
            CloudJob::Thumbnail { epoch, .. } => *epoch,
            CloudJob::Error { epoch, .. } => *epoch,
            CloudJob::Done { epoch, .. } => *epoch,
            CloudJob::Progress { epoch, .. } => *epoch,
            CloudJob::MapAssets { epoch, .. } => *epoch,
        };
        if epoch != self.cloud_epoch {
            return false;
        }
        match job {
            CloudJob::Thumbnail { id, revision, loaded, .. } => self.thumbnail_job(id, revision, loaded),
            CloudJob::Error { error, .. } => {
                self.cloud_progress = None;
                if str_starts_with(error.as_str(), storage) {
                    let ghost w0 = *self;
                    let fields = vec![("message".to_owned(), String::new(), error.clone())];
                    let m = Modal::Cloud { kind: "storage-warning".to_owned(), fields };
                    let ghost gm = m;
                    proof {
                        reveal_strlit("message");
                        reveal_strlit("storage-warning");
                    }
                    self.open_modal(m);
                    let ghost mid = *self;
                    self.cloud_error(error.as_str());
                    assert(open_result(w0, mid, gm));
                } else {
                    self.cloud_error(error.as_str());
                }
                false
            },
            CloudJob::Done { message, .. } => {
                self.cloud_progress = None;
                self.status = message.clone();
                self.cloud_message = message;
                false
            },
            CloudJob::Progress { done, total, label, .. } => {
                self.status = label.clone();
                self.cloud_message = label.clone();
                self.cloud_progress = Some((done, total, label));
                false
            },
            CloudJob::MapAssets { key, result, .. } => {
                self.map_loading = false;
                self.map_key = Some(key);
                match result {
                    Ok(assets) => {
                        self.feed.map_assets = assets;
                    },
                    Err(e) => {
                        self.cloud_error(e.as_str());
                    },
                }
                false
            },
        }
    }
}

} // verus!

verus! {

/// What the connection reported.
#[derive(Debug)]
pub enum CloudEvent {
    /// The connection is up.
    Connected,
    /// The account lost access to the cloud.
    AccountUnavailable,
    /// The connection dropped, with why.
    Disconnected(String),
    /// The account's credentials were renewed.
    Credentials,
    /// A watched page of the gallery delivered, its items read.
    AssetSnapshot { watch: String, snapshot: Snapshot },
    /// A watched page delivered items that could not be read.
    SnapshotInvalid { watch: String, error: String },
    /// A watch failed; `catalogue` when it was the folders' or the buckets'.
    WatchError { watch: String, error: String, catalogue: bool },
    /// A cloud document failed for good.
    DocumentError { asset: String, error: String },
}

/// What the caller is to do after an event.
#[derive(Clone, Copy, Debug, PartialEq, Eq, Structural)]
pub enum CloudAction {
    Nothing,
    /// Ask the connection for the workspace's capabilities.
    RequestCapabilities,
    /// Write the renewed credentials.
    StoreCredentials,
    /// Forget the stored credentials, and the folders, buckets and face
    /// previews held for this account.
    AccessLost,
    /// A quit was waiting on the document that failed: give the quit up.
    CancelQuit,
}

/// Whether photo `id` is in `assets`.
pub open spec fn on_page(assets: Seq<Asset>, id: Seq<char>) -> bool {
    exists|k: int| 0 <= k < assets.len() && (#[trigger] assets[k]).id@ == id
}

/// The photos of `sel` still in `assets`, in order.
pub open spec fn retained(sel: Seq<String>, assets: Seq<Asset>) -> Seq<String>
    decreases sel.len(),
{
    if sel.len() == 0 {
        sel
    } else if on_page(assets, sel.last()@) {
        retained(sel.drop_last(), assets).push(sel.last())
    } else {
        retained(sel.drop_last(), assets)
    }
}

pub open spec fn connected_message() -> Seq<char> {
    "cloud.status.connected"@
}

pub open spec fn access_unavailable() -> Seq<char> {
    "cloud.error.access_unavailable"@
}

/// `new` is `old` after the cloud took access away: the connection and
/// the account are gone, the gallery, its selection, people and
/// thumbnails are emptied, every document is detached with its edits, and
/// later work from this sign-in will be ignored.
pub open spec fn access_revoked(pre: Workspace, post: Workspace) -> bool {
    let d = pre.documents.docs@;
    &&& !post.documents.connected
    &&& !post.documents.capabilities_ready
    &&& post.documents.pending@.len() == 0
    &&& post.documents.docs@.len() == d.len()
    &&& forall|i: int| 0 <= i < d.len() ==> {
        let (a, b) = (#[trigger] post.documents.docs@[i], d[i]);
        &&& a.0 == b.0
        &&& a.1 == (RemoteDocument { detached: true, joined: false, sending: false, render: false, ..b.1 })
    }
    &&& post.feed.assets@.len() == 0
    &&& post.feed.pages@.len() == 0
    &&& post.feed.grid_wanted@.len() == 0
    &&& post.feed.selected@.len() == 0
    &&& post.feed == (AssetFeed {
        assets: post.feed.assets,
        pages: post.feed.pages,
        grid_wanted: post.feed.grid_wanted,
        selected: post.feed.selected,
        people: None,
        people_target: None,
        total: 0,
        signed_in: false,
        ..pre.feed
    })
    &&& post.thumbnails.active == 0
    &&& post.thumbnails.have@.len() == 0
    &&& post.thumbnails.failed@.len() == 0
    &&& post.thumbnails.jobs@.len() == 0
    &&& post.status@ == access_unavailable()
    &&& post.cloud_message@ == access_unavailable()
    &&& post == (Workspace {
        documents: post.documents,
        feed: post.feed,
        thumbnails: post.thumbnails,
        cloud_epoch: (pre.cloud_epoch + 1) as u64,
        cloud_client: false,
        status: post.status,
        cloud_message: post.cloud_message,
        ..pre
    })
}

/// `new` is `old` after the connection reported `event`, and `action` is
/// what the caller is to do.
pub open spec fn event_applied(pre: Workspace, post: Workspace, event: CloudEvent, action: CloudAction) -> bool {
    match event {
        CloudEvent::Connected => {
            &&& action == if pre.cloud_client { CloudAction::RequestCapabilities } else { CloudAction::Nothing }
            &&& post.cloud_message@ == connected_message()
            &&& post == (Workspace {
                documents: Documents { connected: true, capabilities_ready: false, image_model: None, ..pre.documents },
                feed: AssetFeed { load_error: first_error(pre.feed.pages@), ..pre.feed },
                cloud_message: post.cloud_message,
                ..pre
            })
        },
        CloudEvent::AccountUnavailable => action == CloudAction::AccessLost && access_revoked(pre, post),
        CloudEvent::Disconnected(error) => {
            &&& action == CloudAction::Nothing
            &&& disconnected(pre.documents, post.documents)
            &&& post == (Workspace {
                documents: post.documents,
                feed: AssetFeed {
                    load_error: if pre.feed.loaded { pre.feed.load_error } else { Some(error) },
                    ..pre.feed
                },
                cloud_message: error,
                ..pre
            })
        },
        CloudEvent::Credentials => {
            &&& action == CloudAction::StoreCredentials
            &&& post == (Workspace { feed: AssetFeed { signed_in: true, ..pre.feed }, ..pre })
        },
        CloudEvent::AssetSnapshot { watch, snapshot } => {
            &&& action == CloudAction::Nothing
            &&& if page_index(pre.feed.pages@, watch@) < 0 {
                post == pre
            } else {
                &&& snapshot_applied(pre.feed, AssetFeed { selected: pre.feed.selected, ..post.feed }, watch@, snapshot)
                &&& post.feed.selected@ == retained(pre.feed.selected@, post.feed.assets@)
                &&& post.select_anchor == match pre.select_anchor {
                    Some(a) => if on_page(post.feed.assets@, a@) { Some(a) } else { None },
                    None => None,
                }
                &&& post == (Workspace { feed: post.feed, select_anchor: post.select_anchor, ..pre })
            }
        },
        CloudEvent::SnapshotInvalid { watch, error } => {
            &&& action == CloudAction::Nothing
            &&& if page_index(pre.feed.pages@, watch@) < 0 {
                post == pre
            } else {
                &&& page_failed(pre.feed, post.feed, watch@, error@)
                &&& post.status@ == error@
                &&& post.cloud_message@ == error@
                &&& post == (Workspace { feed: post.feed, status: post.status, cloud_message: post.cloud_message, ..pre })
            }
        },
        CloudEvent::WatchError { watch, error, catalogue } => {
            let failed = page_index(pre.feed.pages@, watch@) >= 0;
            &&& action == CloudAction::Nothing
            &&& if failed { page_failed(pre.feed, post.feed, watch@, error@) } else { post.feed == pre.feed }
            &&& if failed || catalogue {
                &&& post.status@ == error@
                &&& post.cloud_message@ == error@
                &&& post == (Workspace { feed: post.feed, status: post.status, cloud_message: post.cloud_message, ..pre })
            } else {
                post == (Workspace { feed: post.feed, ..pre })
            }
        },
        CloudEvent::DocumentError { asset, error } => {
            let p = find_asset(pre.documents.docs@, asset@);
            let quit = p >= 0 && pre.close_after_save == Some(pre.documents.docs@[p].0);
            &&& action == if quit { CloudAction::CancelQuit } else { CloudAction::Nothing }
            &&& if p >= 0 { document_detached(pre.documents, post.documents, asset@) } else { post.documents == pre.documents }
            &&& post.status@ == error@
            &&& post.cloud_message@ == error@
            &&& post == (Workspace {
                documents: post.documents,
                close_after_save: if quit { None } else { pre.close_after_save },
                status: post.status,
                cloud_message: post.cloud_message,
                ..pre
            })
        },
    }
}

proof fn lemma_on_page(assets: Seq<Asset>, id: Seq<char>, i: int)
    requires
        0 <= i < assets.len(),
        assets[i].id@ == id,
    ensures
        on_page(assets, id),
{
}

fn find_on_page(assets: &Vec<Asset>, id: &String) -> (r: bool)
    ensures
        r == on_page(assets@, id@),
{
    let mut i: usize = 0;
    while i < assets.len()
        invariant
            i <= assets@.len(),
            forall|k: int| 0 <= k < i ==> (#[trigger] assets@[k]).id@ != id@,
        decreases assets@.len() - i,
    {
        if assets[i].id == *id {
            proof {
                lemma_on_page(assets@, id@, i as int);
            }
            return true;
        }
        i = i + 1;
    }
    false
}

fn retain_on_page(sel: &mut Vec<String>, assets: &Vec<Asset>)
    ensures
        final(sel)@ == retained(old(sel)@, assets@),
{
    let mut out: Vec<String> = Vec::new();
    let mut i: usize = 0;
    while i < sel.len()
        invariant
            i <= sel@.len(),
            out@ == retained(sel@.take(i as int), assets@),
        decreases sel@.len() - i,
    {
        proof {
            assert(sel@.take(i + 1).drop_last() =~= sel@.take(i as int));
        }
        if find_on_page(assets, &sel[i]) {
            out.push(sel[i].clone());
        }
        i = i + 1;
    }
    assert(sel@.take(sel@.len() as int) =~= sel@);
    *sel = out;
}

impl Workspace {
    fn revoke_access(&mut self)
        requires
            old(self).cloud_epoch < u64::MAX,
        ensures
            access_revoked(*old(self), *final(self)),
    {
        self.documents.disconnect();
        self.documents.detach_all();
        self.cloud_epoch = self.cloud_epoch + 1;
        self.cloud_client = false;
        self.feed.signed_in = false;
        self.feed.assets = Vec::new();
        self.feed.pages = Vec::new();
        self.feed.grid_wanted = Vec::new();
        self.feed.selected = Vec::new();
        self.feed.people = None;
        self.feed.people_target = None;
        self.feed.total = 0;
        self.thumbnails = Thumbnails { active: 0, have: Vec::new(), failed: Vec::new(), jobs: Vec::new() };
        self.cloud_error("cloud.error.access_unavailable");
    }

    fn take_asset_snapshot(&mut self, watch: String, snapshot: Snapshot)
        requires
            old(self).feed.changes < u64::MAX,
        ensures
            event_applied(*old(self), *final(self), CloudEvent::AssetSnapshot { watch, snapshot }, CloudAction::Nothing),
    {
        let ghost s = snapshot;
        if !self.feed.apply_asset_snapshot(watch.as_str(), snapshot) {
            return;
        }
        let ghost applied = self.feed;
        retain_on_page(&mut self.feed.selected, &self.feed.assets);
        let drop_anchor = match &self.select_anchor {
            Some(a) => !find_on_page(&self.feed.assets, a),
            None => false,
        };
        if drop_anchor {
            self.select_anchor = None;
        }
        assert(AssetFeed { selected: applied.selected, ..self.feed } == applied);
    }

    /// Take in what the connection reported. Returns what is left for the
    /// caller to do.
    pub fn cloud_event(&mut self, event: CloudEvent) -> (action: CloudAction)
        requires
            old(self).cloud_epoch < u64::MAX,
            old(self).feed.changes < u64::MAX,
        ensures
            event_applied(*old(self), *final(self), event, action),
    {
        match event {
            CloudEvent::Connected => {
                self.documents.connected = true;
                self.documents.capabilities_ready = false;
                self.documents.image_model = None;
                self.feed.load_error = self.feed.first_page_error();
                self.cloud_message = "cloud.status.connected".to_owned();
                if self.cloud_client {
                    CloudAction::RequestCapabilities
                } else {
                    CloudAction::Nothing
                }
            },
            CloudEvent::AccountUnavailable => {
                self.revoke_access();
                CloudAction::AccessLost
            },
            CloudEvent::Disconnected(error) => {
                self.documents.disconnect();
                if !self.feed.loaded {
                    self.feed.load_error = Some(error.clone());
                }
                self.cloud_message = error;
                CloudAction::Nothing
            },
            CloudEvent::Credentials => {
                self.feed.signed_in = true;
                CloudAction::StoreCredentials
            },
            CloudEvent::AssetSnapshot { watch, snapshot } => {
                self.take_asset_snapshot(watch, snapshot);
                CloudAction::Nothing
            },
            CloudEvent::SnapshotInvalid { watch, error } => {
                if self.feed.fail_asset_page(watch.as_str(), error.as_str()) {
                    self.cloud_error(error.as_str());
                }
                CloudAction::Nothing
            },
            CloudEvent::WatchError { watch, error, catalogue } => {
                let failed = self.feed.fail_asset_page(watch.as_str(), error.as_str());
                if failed || catalogue {
                    self.cloud_error(error.as_str());
                }
                CloudAction::Nothing
            },
            CloudEvent::DocumentError { asset, error } => {
                let mut action = CloudAction::Nothing;
                if let Some(id) = self.documents.detach_document(asset.as_str()) {
                    if self.close_after_save == Some(id) {
                        self.close_after_save = None;
                        action = CloudAction::CancelQuit;
                    }
                }
                self.cloud_error(error.as_str());
                action
            },
        }
    }
}

} // verus!

verus! {

proof fn lemma_all_detached_none_joinable(d: Seq<(u64, RemoteDocument)>)
    requires
        forall|i: int| 0 <= i < d.len() ==> (#[trigger] d[i]).1.detached,
    ensures
        joinable(d).len() == 0,
    decreases d.len(),
{
    if d.len() > 0 {
        lemma_all_detached_none_joinable(d.drop_last());
        assert(d.last().1.detached);
    }
}

/// Once the cloud has taken access away, no document joins again on its
/// own: every one waits for an explicit reopen.
pub proof fn lemma_revoked_documents_stay_detached(before: Workspace, after: Workspace)
    requires
        access_revoked(before, after),
    ensures
        joinable(after.documents.docs@).len() == 0,
{
    assert(forall|i: int| 0 <= i < after.documents.docs@.len() ==> (#[trigger] after.documents.docs@[i]).1.detached);
    lemma_all_detached_none_joinable(after.documents.docs@);
}

/// Work started before access was taken away and finished after it
/// changes nothing.
pub proof fn lemma_late_work_ignored(a: Workspace, b: Workspace, c: Workspace, job: CloudJob, storage: Seq<char>)
    requires
        a.cloud_epoch < u64::MAX,
        access_revoked(a, b),
        job.epoch() == a.cloud_epoch,
        job_applied(b, c, job, storage),
    ensures
        c == b,
{
}

} // verus!

verus! {

/// The position of the last photo in `u` with id `id`, or -1.
pub open spec fn latest(u: Seq<Asset>, id: Seq<char>) -> int
    decreases u.len(),
{
    if u.len() == 0 {
        -1
    } else if u.last().id@ == id {
        u.len() - 1
    } else {
        latest(u.drop_last(), id)
    }
}

proof fn lemma_latest_range(u: Seq<Asset>, id: Seq<char>)
    ensures
        -1 <= latest(u, id) < u.len(),
        latest(u, id) >= 0 ==> u[latest(u, id)].id@ == id,
    decreases u.len(),
{
    if u.len() > 0 {
        lemma_latest_range(u.drop_last(), id);
    }
}

/// `a` as the updates `u` leave it: the last update of the same photo,
/// or `a` itself when none is about it.
pub open spec fn updated(a: Asset, u: Seq<Asset>) -> Asset {
    let p = latest(u, a.id@);
    if p >= 0 { u[p] } else { a }
}

/// Replace every photo of `list` that `updates` has a newer copy of.
pub fn replace_updated(list: &mut Vec<Asset>, updates: &Vec<Asset>)
    ensures
        final(list)@.len() == old(list)@.len(),
        forall|k: int| 0 <= k < old(list)@.len() ==> #[trigger] final(list)@[k] == updated(old(list)@[k], updates@),
{
    let ghost orig = list@;
    let mut j: usize = 0;
    while j < updates.len()
        invariant
            j <= updates@.len(),
            list@.len() == orig.len(),
            forall|k: int| 0 <= k < orig.len() ==> #[trigger] list@[k] == updated(orig[k], updates@.take(j as int)),
        decreases updates@.len() - j,
    {
        let ghost before = list@;
        let mut k: usize = 0;
        while k < list.len()
            invariant
                j < updates@.len(),
                k <= list@.len(),
                list@.len() == before.len(),
                forall|m: int| 0 <= m < k ==> #[trigger] list@[m] == (if before[m].id@ == updates@[j as int].id@ {
                    updates@[j as int]
                } else {
                    before[m]
                }),
                forall|m: int| k <= m < list@.len() ==> #[trigger] list@[m] == before[m],
            decreases list@.len() - k,
        {
            if list[k].id == updates[j].id {
                list.set(k, updates[j].duplicate());
            }
            k = k + 1;
        }
        proof {
            let t1 = updates@.take(j + 1);
            assert(t1.drop_last() =~= updates@.take(j as int));
            assert forall|m: int| 0 <= m < orig.len() implies #[trigger] list@[m] == updated(orig[m], t1) by {
                lemma_latest_range(updates@.take(j as int), orig[m].id@);
                let p = latest(updates@.take(j as int), orig[m].id@);
                if p >= 0 {
                    assert(before[m].id@ == orig[m].id@);
                } else {
                    assert(before[m] == orig[m]);
                }
            }
        }
        j = j + 1;
    }
    assert(updates@.take(updates@.len() as int) =~= updates@);
}

impl Workspace {
    /// The cloud answered a gallery edit with the photos it changed: the
    /// grid shows them as they now are.
    pub fn cloud_gallery_updated(&mut self, assets: Vec<Asset>)
        ensures
            final(self).feed.assets@.len() == old(self).feed.assets@.len(),
            forall|k: int| 0 <= k < old(self).feed.assets@.len() ==> #[trigger] final(self).feed.assets@[k] == updated(
                old(self).feed.assets@[k],
                assets@,
            ),
            final(self).cloud_message@ == "common.done"@,
            *final(self) == (Workspace {
                feed: AssetFeed { assets: final(self).feed.assets, ..old(self).feed },
                cloud_message: final(self).cloud_message,
                ..*old(self)
            }),
    {
        replace_updated(&mut self.feed.assets, &assets);
        self.cloud_message = "common.done".to_owned();
    }
}

} // verus!
