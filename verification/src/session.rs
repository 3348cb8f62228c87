//! The cloud session as the workspace sees it: connecting an account,
//! browsing a scope, signing out, and asking again for the gallery's pages
//! that failed.
use vstd::prelude::*;
use crate::assets::{AssetFeed, AssetPage};
use crate::cloud_sync::Thumbnails;
use crate::cloud_view::page_watches;
use crate::documents::Documents;
use crate::import_target::Scope;
use crate::modal::Modal;
use crate::workspace::{Workspace, modal_opened, modal_refused, PAGE_SIZE};

verus! {

/// The status the cloud panel shows while an account connects.
pub open spec fn connecting_message() -> Seq<char> {
    "cloud.status.connecting"@
}

/// The status the cloud panel shows once signed out.
pub open spec fn signed_out_message() -> Seq<char> {
    "cloud.status.signed_out"@
}

/// `post` is `mid` once the gallery's query started again from its first
/// page of `PAGE_SIZE` photos under `watch`, the old photos cleared;
/// `dropped` are the old pages' watches when connected.
pub open spec fn watching_again(mid: Workspace, post: Workspace, watch: String, dropped: Seq<String>) -> bool {
    &&& dropped == if mid.cloud_client { page_watches(mid.feed.pages@) } else { Seq::empty() }
    &&& post.feed.assets@.len() == 0
    &&& post.feed.grid_wanted@.len() == 0
    &&& if mid.cloud_client {
        &&& post.feed.pages@.len() == 1
        &&& post.feed.pages@[0].watch == watch
        &&& post.feed.pages@[0].offset == 0
        &&& post.feed.pages@[0].pending
        &&& post.feed.pages@[0].assets@.len() == 0
        &&& post.feed.pages@[0].error is None
    } else {
        post.feed.pages@.len() == 0
    }
    &&& post == (Workspace {
        feed: AssetFeed {
            pages: post.feed.pages,
            assets: post.feed.assets,
            total: 0,
            loaded: false,
            load_error: None,
            grid_wanted: post.feed.grid_wanted,
            ..mid.feed
        },
        query_limit: PAGE_SIZE,
        ..mid
    })
}

/// `post` is `pre` once connected to an account, quietly: the client is
/// up and the account known, requests waiting on the old connection are
/// forgotten, the people view lets go of its photo, and the gallery's query
/// starts over on the whole library; whatever screen is up stays up.
pub open spec fn connected_to(pre: Workspace, post: Workspace, watch: String, dropped: Seq<String>) -> bool {
    let mid = Workspace {
        cloud_client: true,
        feed: AssetFeed { people_target: None, signed_in: true, ..pre.feed },
        documents: Documents { pending: post.documents.pending, ..pre.documents },
        cloud_message: post.cloud_message,
        query_scope: Scope::Library,
        ..pre
    };
    &&& post.documents.pending@.len() == 0
    &&& post.cloud_message@ == connecting_message()
    &&& watching_again(mid, post, watch, dropped)
}

/// `post` is `pre` once signed out: work from this sign-in is ignored from
/// now on, the client and the account are gone, the documents, the
/// requests waiting and the gallery's photos, pages, selection, people and
/// thumbnails are emptied, and the gallery is hidden.
pub open spec fn signed_out(pre: Workspace, post: Workspace) -> bool {
    &&& post.documents.docs@.len() == 0
    &&& post.documents.pending@.len() == 0
    &&& post.documents == (Documents {
        docs: post.documents.docs,
        pending: post.documents.pending,
        connected: false,
        capabilities_ready: false,
        image_model: None,
    })
    &&& post.feed.assets@.len() == 0
    &&& post.feed.pages@.len() == 0
    &&& post.feed.grid_wanted@.len() == 0
    &&& post.feed.selected@.len() == 0
    &&& post.feed == (AssetFeed {
        assets: post.feed.assets,
        pages: post.feed.pages,
        grid_wanted: post.feed.grid_wanted,
        selected: post.feed.selected,
        people: None,
        people_target: None,
        show: false,
        signed_in: false,
        ..pre.feed
    })
    &&& post.thumbnails.active == 0
    &&& post.thumbnails.have@.len() == 0
    &&& post.thumbnails.failed@.len() == 0
    &&& post.thumbnails.jobs@.len() == 0
    &&& post.cloud_message@ == signed_out_message()
    &&& post == (Workspace {
        documents: post.documents,
        feed: post.feed,
        thumbnails: post.thumbnails,
        cloud_epoch: (pre.cloud_epoch + 1) as u64,
        cloud_client: false,
        select_anchor: None,
        cloud_message: post.cloud_message,
        ..pre
    })
}

/// What browsing a scope of the cloud came to.
#[derive(Debug)]
pub enum Browse {
    /// The cloud feature is off: nothing happens.
    Ignored,
    /// No account yet: sign in first.
    SignIn,
    /// The gallery shows the scope; the old pages' watches are to be dropped.
    Watching(Vec<String>),
}

/// `post` is `pre` once the gallery shows `scope`: the gallery and the
/// library are on screen, the selection is dropped, and the query starts
/// over on the scope.
pub open spec fn browsing(pre: Workspace, post: Workspace, scope: Scope, watch: String, dropped: Seq<String>) -> bool {
    let mid = Workspace {
        feed: AssetFeed { show: true, selected: post.feed.selected, ..pre.feed },
        library_open: true,
        query_scope: scope,
        select_anchor: None,
        ..pre
    };
    &&& post.feed.selected@.len() == 0
    &&& watching_again(mid, post, watch, dropped)
}

/// How many of `p` failed.
pub open spec fn failed_count(p: Seq<AssetPage>) -> int
    decreases p.len(),
{
    if p.len() == 0 {
        0
    } else {
        failed_count(p.drop_last()) + if p.last().error is Some { 1int } else { 0int }
    }
}

/// The pages `p` once each failed one is watched again under the next of
/// `fresh`, waiting for its items, its error forgotten.
pub open spec fn retried(p: Seq<AssetPage>, fresh: Seq<String>) -> Seq<AssetPage>
    decreases p.len(),
{
    if p.len() == 0 {
        p
    } else {
        let page = p.last();
        let r = retried(p.drop_last(), fresh);
        if page.error is Some {
            r.push(AssetPage { watch: fresh[failed_count(p.drop_last())], pending: true, error: None, ..page })
        } else {
            r.push(page)
        }
    }
}

/// For each failed page of `p`, in order: its old watch, its new one, and
/// its offset.
pub open spec fn rewatches(p: Seq<AssetPage>, fresh: Seq<String>) -> Seq<(String, String, u64)>
    decreases p.len(),
{
    if p.len() == 0 {
        Seq::empty()
    } else {
        let page = p.last();
        let r = rewatches(p.drop_last(), fresh);
        if page.error is Some {
            r.push((page.watch, fresh[failed_count(p.drop_last())], page.offset))
        } else {
            r
        }
    }
}

proof fn lemma_failed_count(p: Seq<AssetPage>)
    ensures
        0 <= failed_count(p) <= p.len(),
    decreases p.len(),
{
    if p.len() > 0 {
        lemma_failed_count(p.drop_last());
    }
}

impl AssetFeed {
    /// How many of the gallery's pages failed.
    pub fn failed_pages(&self) -> (n: usize)
        ensures
            n == failed_count(self.pages@),
    {
        let mut n: usize = 0;
        let mut i: usize = 0;
        assert(self.pages@.take(0) =~= Seq::<AssetPage>::empty());
        while i < self.pages.len()
            invariant
                i <= self.pages@.len(),
                n == failed_count(self.pages@.take(i as int)),
                n <= i,
            decreases self.pages@.len() - i,
        {
            assert(self.pages@.take(i + 1).drop_last() =~= self.pages@.take(i as int));
            if self.pages[i].error.is_some() {
                n = n + 1;
            }
            i = i + 1;
        }
        assert(self.pages@.take(self.pages@.len() as int) =~= self.pages@);
        n
    }
}

impl Workspace {
    /// Connect to the account just signed in, the gallery's query watched
    /// under `watch` (see `connected_to`). Nothing happens with the cloud
    /// feature off. Returns the old pages' watches to drop.
    pub fn cloud_connect(&mut self, watch: String) -> (r: Option<Vec<String>>)
        ensures
            !old(self).cloud_enabled ==> r is None && *final(self) == *old(self),
            old(self).cloud_enabled ==> r is Some && connected_to(*old(self), *final(self), watch, r->0@),
    {
        if !self.cloud_enabled {
            return None;
        }
        self.feed.people_target = None;
        self.cloud_client = true;
        self.feed.signed_in = true;
        self.cloud_message = "cloud.status.connecting".to_owned();
        self.documents.pending = Vec::new();
        self.query_scope = Scope::Library;
        let dropped = self.cloud_watch_assets(false, watch);
        Some(dropped)
    }

    /// Sign out (see `signed_out`). Returns whether an account was signed
    /// in, whose session the server is to end.
    pub fn cloud_sign_out(&mut self) -> (had_account: bool)
        requires
            old(self).cloud_epoch < u64::MAX,
        ensures
            had_account == old(self).feed.signed_in,
            signed_out(*old(self), *final(self)),
    {
        let had_account = self.feed.signed_in;
        self.cloud_epoch = self.cloud_epoch + 1;
        self.cloud_client = false;
        self.feed.signed_in = false;
        self.documents.connected = false;
        self.documents.capabilities_ready = false;
        self.documents.image_model = None;
        self.documents.pending = Vec::new();
        self.documents.docs = Vec::new();
        self.feed.show = false;
        self.feed.assets = Vec::new();
        self.feed.pages = Vec::new();
        self.feed.grid_wanted = Vec::new();
        self.feed.people = None;
        self.feed.people_target = None;
        self.thumbnails = Thumbnails { active: 0, have: Vec::new(), failed: Vec::new(), jobs: Vec::new() };
        self.feed.selected = Vec::new();
        self.select_anchor = None;
        self.cloud_message = "cloud.status.signed_out".to_owned();
        had_account
    }

    /// Show `scope` of the cloud in the gallery, its query watched under
    /// `watch` (see `browsing`): only with the cloud feature on, and once
    /// signed in.
    pub fn cloud_browse(&mut self, scope: Scope, watch: String) -> (r: Browse)
        ensures
            !old(self).cloud_enabled ==> r is Ignored && *final(self) == *old(self),
            old(self).cloud_enabled && !old(self).feed.signed_in ==> r is SignIn && *final(self) == *old(self),
            old(self).cloud_enabled && old(self).feed.signed_in ==> r is Watching && browsing(
                *old(self),
                *final(self),
                scope,
                watch,
                r->Watching_0@,
            ),
    {
        if !self.cloud_enabled {
            return Browse::Ignored;
        }
        if !self.feed.signed_in {
            return Browse::SignIn;
        }
        self.feed.show = true;
        self.library_open = true;
        self.query_scope = scope;
        self.feed.selected = Vec::new();
        self.select_anchor = None;
        let dropped = self.cloud_watch_assets(false, watch);
        Browse::Watching(dropped)
    }

    /// Ask again for the gallery's pages that failed, each under the next
    /// of `fresh`, one for each failed page: when connected, each failed
    /// page waits for its items again and the gallery's error is
    /// forgotten. Returns, per failed page, its old watch, its new one and
    /// its offset, for the connection to drop and make.
    pub fn cloud_retry_assets(&mut self, fresh: Vec<String>) -> (r: Vec<(String, String, u64)>)
        requires
            fresh@.len() == failed_count(old(self).feed.pages@),
        ensures
            !old(self).cloud_client ==> r@.len() == 0 && *final(self) == *old(self),
            old(self).cloud_client ==> {
                &&& r@ == rewatches(old(self).feed.pages@, fresh@)
                &&& final(self).feed.pages@ == retried(old(self).feed.pages@, fresh@)
                &&& *final(self) == (Workspace {
                    feed: AssetFeed { pages: final(self).feed.pages, load_error: None, ..old(self).feed },
                    ..*old(self)
                })
            },
    {
        let mut r: Vec<(String, String, u64)> = Vec::new();
        if !self.cloud_client {
            return r;
        }
        let ghost orig = self.feed.pages@;
        let mut pages: Vec<AssetPage> = Vec::new();
        std::mem::swap(&mut pages, &mut self.feed.pages);
        let mut out: Vec<AssetPage> = Vec::new();
        let mut k: usize = 0;
        let mut c: usize = 0;
        assert(orig.take(0) =~= Seq::<AssetPage>::empty());
        assert(orig.skip(0) =~= orig);
        assert(orig.len() == pages.len() && fresh@.len() == fresh.len());
        while pages.len() > 0
            invariant
                k <= orig.len(),
                orig.len() <= usize::MAX,
                fresh@.len() <= usize::MAX,
                pages@ == orig.skip(k as int),
                out@ == retried(orig.take(k as int), fresh@),
                r@ == rewatches(orig.take(k as int), fresh@),
                c == failed_count(orig.take(k as int)),
                fresh@.len() == failed_count(orig),
                0 <= failed_count(orig.take(k as int)) <= k,
            decreases pages@.len(),
        {
            proof {
                assert(orig.take(k + 1).drop_last() =~= orig.take(k as int));
                lemma_failed_count(orig.take(k + 1));
                lemma_count_prefix(orig, k as int);
            }
            assert(pages@.len() == orig.len() - k);
            let page = pages.remove(0);
            assert(page == orig[k as int]);
            if page.error.is_some() {
                assert(c < fresh@.len());
                let watch = fresh[c].clone();
                r.push((page.watch, watch.clone(), page.offset));
                out.push(AssetPage { watch, offset: page.offset, assets: page.assets, pending: true, error: None });
                c = c + 1;
            } else {
                out.push(page);
            }
            k = k + 1;
            assert(pages@ =~= orig.skip(k as int));
        }
        assert(orig.take(orig.len() as int) =~= orig);
        self.feed.pages = out;
        self.feed.load_error = None;
        r
    }
}

/// A prefix ending on a failed page still leaves one fresh watch for it.
proof fn lemma_count_prefix(p: Seq<AssetPage>, k: int)
    requires
        0 <= k < p.len(),
    ensures
        failed_count(p.take(k + 1)) <= failed_count(p),
        p[k].error is Some ==> failed_count(p.take(k)) < failed_count(p),
    decreases p.len(),
{
    if k + 1 < p.len() {
        assert(p.drop_last().take(k + 1) =~= p.take(k + 1));
        assert(p.drop_last().take(k) =~= p.take(k));
        lemma_count_prefix(p.drop_last(), k);
    } else {
        assert(p.take(k + 1) =~= p);
        assert(p.take(k + 1).drop_last() =~= p.take(k));
    }
}

/// After signing out, work still on its way from the session before
/// changes nothing.
pub proof fn lemma_signed_out_ignores_late_work(
    a: Workspace,
    b: Workspace,
    c: Workspace,
    job: crate::cloud_sync::CloudJob,
    storage: Seq<char>,
)
    requires
        a.cloud_epoch < u64::MAX,
        signed_out(a, b),
        job.epoch() == a.cloud_epoch,
        crate::cloud_sync::job_applied(b, c, job, storage),
    ensures
        c == b,
{
}

/// The dialog that asks which folder a bucket's photos are filed into.
pub open spec fn move_dialog(m: Modal) -> bool {
    m matches Modal::Cloud { kind, fields } && kind@ == "move-items"@ && fields@.len() == 1
        && fields@[0].0@ == "cloud-folder"@ && fields@[0].1@ == "common.folder"@ && fields@[0].2@.len() == 0
}

/// Where an upload from the gallery's strip goes: into the bucket or the
/// folder on show, as (bucket, folder); neither for the whole library.
pub open spec fn spec_upload_destination(scope: Scope) -> (Option<String>, Option<String>) {
    match scope {
        Scope::Bucket { id } => (Some(id), None),
        Scope::Folder { id } => (None, Some(id)),
        Scope::Library => (None, None),
    }
}

/// Where an upload from the gallery's strip goes (see
/// `spec_upload_destination`).
pub fn upload_destination(scope: &Scope) -> (r: (Option<String>, Option<String>))
    ensures
        r == spec_upload_destination(*scope),
{
    match scope {
        Scope::Bucket { id } => (Some(id.clone()), None),
        Scope::Folder { id } => (None, Some(id.clone())),
        Scope::Library => (None, None),
    }
}

impl Workspace {
    /// Whether work on a whole bucket or folder can start: signed in and
    /// connected. Otherwise the status line says which is missing.
    pub fn cloud_client_for_bucket(&mut self) -> (ready: bool)
        ensures
            ready == (old(self).cloud_client && old(self).documents.connected),
            ready ==> *final(self) == *old(self),
            !old(self).cloud_client ==> {
                &&& final(self).status@ == "cloud.error.sign_in_first"@
                &&& final(self).cloud_message@ == "cloud.error.sign_in_first"@
                &&& *final(self) == (Workspace { status: final(self).status, cloud_message: final(self).cloud_message, ..*old(self) })
            },
            old(self).cloud_client && !old(self).documents.connected ==> {
                &&& final(self).status@ == "cloud.error.wait_for_connection"@
                &&& final(self).cloud_message@ == "cloud.error.wait_for_connection"@
                &&& *final(self) == (Workspace { status: final(self).status, cloud_message: final(self).cloud_message, ..*old(self) })
            },
    {
        if !self.cloud_client {
            self.cloud_error("cloud.error.sign_in_first");
            return false;
        }
        if !self.documents.connected {
            self.cloud_error("cloud.error.wait_for_connection");
            return false;
        }
        true
    }

    /// Ask which cloud folder bucket `id` (at `revision`) is filed into:
    /// the move dialog opens for it.
    pub fn cloud_move_bucket(&mut self, id: String, revision: u64)
        ensures
            ({
                let mid = Workspace { form_target: Some((id, revision)), ..*old(self) };
                exists|m: Modal| #![trigger move_dialog(m)] move_dialog(m) && if !old(self).cloud_enabled {
                    modal_refused(mid, *final(self))
                } else {
                    modal_opened(mid, *final(self), m)
                }
            }),
    {
        self.form_target = Some((id, revision));
        let mut fields: Vec<(String, String, String)> = Vec::new();
        fields.push(("cloud-folder".to_owned(), "common.folder".to_owned(), String::new()));
        let m = Modal::Cloud { kind: "move-items".to_owned(), fields };
        proof {
            reveal_strlit("");
            assert(move_dialog(m));
        }
        self.open_modal(m);
    }

    /// Whether the world map's photos are to be fetched again for `key`
    /// (the query on show and the gallery's change count): only with the
    /// gallery on screen and connected, no fetch running, and the key
    /// changed. A fetch is then marked as running.
    pub fn cloud_map_refresh(&mut self, key: &String) -> (fetch: bool)
        ensures
            fetch == (old(self).feed.show && old(self).documents.connected && !old(self).map_loading
                && !(old(self).map_key is Some && old(self).map_key->0@ == key@) && old(self).cloud_client),
            *final(self) == if fetch { Workspace { map_loading: true, ..*old(self) } } else { *old(self) },
    {
        if !self.feed.show || !self.documents.connected || self.map_loading {
            return false;
        }
        let same = match &self.map_key {
            Some(k) => *k == *key,
            None => false,
        };
        if same || !self.cloud_client {
            return false;
        }
        self.map_loading = true;
        true
    }
}

} // verus!
