//! The cloud gallery's side-by-side views: a comparison of two photos, a
//! review of similar photos group by group, and a photo's version history.
//! Which photos they show, and how the cloud's replies land in them.
use vstd::prelude::*;
use crate::assets::{Asset, listed, is_listed};
use crate::cloud_sync::{replace_updated, updated};
use crate::fields::Modifiers;
use crate::keys::{CullingKey, cloud_culling_key, spec_cloud_culling_key};
use crate::text::{chars_of, has_prefix, str_starts_with, string_of};
use crate::workspace::Workspace;

verus! {

/// Which side-by-side view is open.
#[derive(Clone, Copy, Debug, PartialEq, Eq, Structural)]
pub enum GalleryView {
    Compare,
    Review,
    Versions,
}

/// The side-by-side views' state. `serial` tells replies meant for the
/// view on show from replies to one closed since. `groups` lists, per group
/// of similar photos, positions in `photos`; `group` and `candidate` pick
/// the group on show and the photo set beside its first. `versions` holds
/// each version's thumbnail address, `version` the one on show; `active` is
/// the pane (0 or 1) that edits and keys act on.
#[derive(Debug)]
pub struct Gallery {
    pub view: Option<GalleryView>,
    pub serial: u64,
    pub busy: bool,
    pub progress: Option<(usize, usize)>,
    pub photos: Vec<Asset>,
    pub groups: Vec<Vec<usize>>,
    pub group: usize,
    pub candidate: usize,
    pub versions: Vec<String>,
    pub version: usize,
    pub active: usize,
    pub error: Option<String>,
}

/// Every group is non-empty and names photos of `photos`.
pub open spec fn groups_valid(photos: Seq<Asset>, groups: Seq<Vec<usize>>) -> bool {
    &&& forall|g: int| 0 <= g < groups.len() ==> #[trigger] groups[g]@.len() > 0
    &&& forall|g: int, i: int|
        #![trigger groups[g]@[i]]
        0 <= g < groups.len() && 0 <= i < groups[g]@.len() ==> groups[g]@[i] < photos.len()
}

/// The gallery with its view closed: replies still on their way are
/// ignored from now on; the photos and groups stay.
pub open spec fn closed(g: Gallery) -> Gallery {
    Gallery { view: None, serial: (g.serial + 1) as u64, busy: false, progress: None, error: None, ..g }
}

/// The two photos on show: in a review, the group's first photo and its
/// candidate (the group's last photo when the candidate lies beyond it),
/// or none without a group; otherwise the first two photos.
pub open spec fn spec_pair(g: Gallery) -> Seq<Asset> {
    if g.view == Some(GalleryView::Review) {
        if g.group < g.groups@.len() {
            let grp = g.groups@[g.group as int]@;
            let c = if g.candidate < grp.len() - 1 { g.candidate as int } else { grp.len() - 1 };
            seq![g.photos@[grp[0] as int], g.photos@[grp[c] as int]]
        } else {
            Seq::empty()
        }
    } else if g.photos@.len() >= 2 {
        g.photos@.take(2)
    } else {
        g.photos@
    }
}

/// Whether `a` is `p` again, same revision, with metadata at least as new.
pub open spec fn newer_metadata(a: Asset, p: Asset) -> bool {
    a.id@ == p.id@ && a.revision == p.revision && a.metadata_revision >= p.metadata_revision
}

/// The first position in `s` of a copy of `p` with newer metadata, or -1.
pub open spec fn first_newer(s: Seq<Asset>, p: Asset) -> int
    decreases s.len(),
{
    if s.len() == 0 {
        -1
    } else {
        let r = first_newer(s.drop_last(), p);
        if r >= 0 {
            r
        } else if newer_metadata(s.last(), p) {
            s.len() - 1
        } else {
            -1
        }
    }
}

proof fn lemma_first_newer(s: Seq<Asset>, p: Asset)
    ensures
        -1 <= first_newer(s, p) < s.len(),
        first_newer(s, p) >= 0 ==> newer_metadata(s[first_newer(s, p)], p),
        forall|j: int| 0 <= j < s.len() && (first_newer(s, p) < 0 || j < first_newer(s, p)) ==> !newer_metadata(#[trigger] s[j], p),
    decreases s.len(),
{
    if s.len() > 0 {
        lemma_first_newer(s.drop_last(), p);
        assert forall|j: int| 0 <= j < s.len() - 1 implies #[trigger] s[j] == s.drop_last()[j] by {}
    }
}

/// `p` as the photos `s` leave it: their first copy of it with newer
/// metadata, or `p` itself.
pub open spec fn reconciled(p: Asset, s: Seq<Asset>) -> Asset {
    let i = first_newer(s, p);
    if i >= 0 { s[i] } else { p }
}

/// The photos of `s` that `w` lists, in order.
pub open spec fn selected_of(s: Seq<Asset>, w: Seq<String>) -> Seq<Asset>
    decreases s.len(),
{
    if s.len() == 0 {
        Seq::empty()
    } else if listed(w, s.last().id@) {
        selected_of(s.drop_last(), w).push(s.last())
    } else {
        selected_of(s.drop_last(), w)
    }
}

fn first_newer_in(s: &Vec<Asset>, p: &Asset) -> (r: Option<usize>)
    ensures
        match r {
            Some(i) => i == first_newer(s@, *p),
            None => first_newer(s@, *p) < 0,
        },
{
    let mut i: usize = 0;
    assert(s@.take(0) =~= Seq::<Asset>::empty());
    while i < s.len()
        invariant
            i <= s.len(),
            first_newer(s@.take(i as int), *p) < 0,
        decreases s.len() - i,
    {
        assert(s@.take(i + 1).drop_last() =~= s@.take(i as int));
        let a = &s[i];
        if a.id == p.id && a.revision == p.revision && a.metadata_revision >= p.metadata_revision {
            proof {
                assert(a.id@ == p.id@);
                lemma_first_newer_prefix(s@, *p, i as int);
            }
            return Some(i);
        }
        i = i + 1;
    }
    assert(s@.take(s@.len() as int) =~= s@);
    None
}

/// A first match in a prefix is the first match of the whole.
proof fn lemma_first_newer_prefix(s: Seq<Asset>, p: Asset, i: int)
    requires
        0 <= i < s.len(),
        first_newer(s.take(i), p) < 0,
        newer_metadata(s[i], p),
    ensures
        first_newer(s, p) == i,
    decreases s.len(),
{
    if i == s.len() - 1 {
        assert(s.drop_last() =~= s.take(i));
    } else {
        assert(s.drop_last().take(i) =~= s.take(i));
        lemma_first_newer_prefix(s.drop_last(), p, i);
    }
}

impl Gallery {
    /// The active pane is 0 or 1, and in a review no group names a photo
    /// the review does not have.
    pub open spec fn wf(&self) -> bool {
        &&& self.active <= 1
        &&& self.view == Some(GalleryView::Review) ==> groups_valid(self.photos@, self.groups@)
    }

    /// No view open, nothing loaded.
    pub fn new() -> (g: Gallery)
        ensures
            g.view is None,
            g.serial == 0,
            !g.busy,
            g.progress is None,
            g.photos@.len() == 0,
            g.groups@.len() == 0,
            g.group == 0,
            g.candidate == 0,
            g.versions@.len() == 0,
            g.version == 0,
            g.active == 0,
            g.error is None,
            g.wf(),
    {
        Gallery {
            view: None,
            serial: 0,
            busy: false,
            progress: None,
            photos: Vec::new(),
            groups: Vec::new(),
            group: 0,
            candidate: 0,
            versions: Vec::new(),
            version: 0,
            active: 0,
            error: None,
        }
    }

    /// Close the view on show; replies to it that arrive later are ignored.
    pub fn close(&mut self)
        requires
            old(self).serial < u64::MAX,
        ensures
            *final(self) == closed(*old(self)),
    {
        self.serial = self.serial + 1;
        self.view = None;
        self.busy = false;
        self.progress = None;
        self.error = None;
    }

    /// The two photos on show (see `spec_pair`).
    pub fn pair(&self) -> (r: Vec<Asset>)
        requires
            self.view == Some(GalleryView::Review) ==> groups_valid(self.photos@, self.groups@),
        ensures
            r@ == spec_pair(*self),
    {
        let mut r: Vec<Asset> = Vec::new();
        match self.view {
            Some(GalleryView::Review) => {
                if self.group < self.groups.len() {
                    let grp = &self.groups[self.group];
                    assert(grp@.len() > 0);
                    let last = grp.len() - 1;
                    let c = if self.candidate < last { self.candidate } else { last };
                    let first = grp[0];
                    let second = grp[c];
                    assert(first == self.groups@[self.group as int]@[0]);
                    assert(second == self.groups@[self.group as int]@[c as int]);
                    r.push(self.photos[first].duplicate());
                    r.push(self.photos[second].duplicate());
                    assert(r@ =~= spec_pair(*self));
                }
            },
            _ => {
                if self.photos.len() > 0 {
                    r.push(self.photos[0].duplicate());
                }
                if self.photos.len() > 1 {
                    r.push(self.photos[1].duplicate());
                }
                assert(r@ =~= spec_pair(*self));
            },
        }
        r
    }

    /// Take in the newer metadata of photos on show that `assets` holds:
    /// each photo becomes its first copy in `assets` of the same revision
    /// with metadata at least as new, if there is one.
    pub fn reconcile(&mut self, assets: &Vec<Asset>)
        ensures
            final(self).photos@.len() == old(self).photos@.len(),
            forall|k: int| 0 <= k < old(self).photos@.len() ==> #[trigger] final(self).photos@[k] == reconciled(
                old(self).photos@[k],
                assets@,
            ),
            *final(self) == (Gallery { photos: final(self).photos, ..*old(self) }),
    {
        let ghost before = self.photos@;
        let ghost g0 = *self;
        let mut k: usize = 0;
        while k < self.photos.len()
            invariant
                *self == (Gallery { photos: self.photos, ..g0 }),
                g0.photos@ == before,
                k <= self.photos@.len(),
                self.photos@.len() == before.len(),
                forall|m: int| 0 <= m < k ==> #[trigger] self.photos@[m] == reconciled(before[m], assets@),
                forall|m: int| k <= m < before.len() ==> #[trigger] self.photos@[m] == before[m],
            decreases self.photos@.len() - k,
        {
            proof {
                lemma_first_newer(assets@, before[k as int]);
            }
            match first_newer_in(assets, &self.photos[k]) {
                Some(i) => {
                    let a = assets[i].duplicate();
                    self.photos.set(k, a);
                },
                None => {},
            }
            k = k + 1;
        }
    }
}

/// The photos of `s` that `w` lists, in order.
pub fn selected_assets(s: &Vec<Asset>, w: &Vec<String>) -> (r: Vec<Asset>)
    ensures
        r@ == selected_of(s@, w@),
{
    let mut r: Vec<Asset> = Vec::new();
    let mut i: usize = 0;
    assert(s@.take(0) =~= Seq::<Asset>::empty());
    while i < s.len()
        invariant
            i <= s.len(),
            r@ == selected_of(s@.take(i as int), w@),
        decreases s.len() - i,
    {
        assert(s@.take(i + 1).drop_last() =~= s@.take(i as int));
        if is_listed(w, &s[i].id) {
            r.push(s[i].duplicate());
        }
        i = i + 1;
    }
    assert(s@.take(s@.len() as int) =~= s@);
    r
}

/// Where a pane's preview comes from.
#[derive(Debug, PartialEq)]
pub enum PreviewSource {
    /// The thumbnail of the version on show, at this address.
    Version(String),
    /// The preview the cloud gives of the photo with this id.
    Photo(String),
}

/// A preview to fetch for pane `slot`; its reply carries `serial`.
#[derive(Debug)]
pub struct PreviewRequest {
    pub slot: usize,
    pub serial: u64,
    pub source: PreviewSource,
}

/// Where pane `slot`'s preview comes from: in the version history the
/// second pane shows the version on show, if there is one; otherwise a
/// pane shows its photo of the pair, if there is one.
pub open spec fn preview_source(g: Gallery, slot: int) -> Option<PreviewSource> {
    let pair = spec_pair(g);
    if g.view == Some(GalleryView::Versions) && slot == 1 && g.version < g.versions@.len() {
        Some(PreviewSource::Version(g.versions@[g.version as int]))
    } else if 0 <= slot < pair.len() {
        Some(PreviewSource::Photo(pair[slot].id))
    } else {
        None
    }
}

/// Pane `slot`'s preview request, if it has something to show.
pub open spec fn request_for(g: Gallery, slot: int) -> Seq<PreviewRequest> {
    match preview_source(g, slot) {
        Some(src) => seq![PreviewRequest { slot: slot as usize, serial: g.serial, source: src }],
        None => Seq::empty(),
    }
}

/// The previews to fetch for both panes, first pane first.
pub open spec fn preview_requests(g: Gallery) -> Seq<PreviewRequest> {
    request_for(g, 0) + request_for(g, 1)
}

/// The gallery once its previews are asked for anew: replies carrying the
/// earlier serial are ignored from now on.
pub open spec fn refreshed(g: Gallery) -> Gallery {
    Gallery { serial: (g.serial + 1) as u64, ..g }
}

/// The previews to ask for, when connected, once the gallery is `g`.
pub open spec fn previews_for(w: Workspace, g: Gallery) -> Seq<PreviewRequest> {
    if w.cloud_client {
        preview_requests(g)
    } else {
        Seq::empty()
    }
}

/// The photos the gallery's actions apply to: with a view open, the photo
/// in the active pane; otherwise the selected photos of the grid.
pub open spec fn spec_gallery_photos(w: Workspace) -> Seq<Asset> {
    if w.gallery.view is Some {
        let p = spec_pair(w.gallery);
        if w.gallery.active < p.len() {
            seq![p[w.gallery.active as int]]
        } else {
            Seq::empty()
        }
    } else {
        selected_of(w.feed.assets@, w.feed.selected@)
    }
}

/// Whether `a` is a video.
pub open spec fn is_video(a: Asset) -> bool {
    has_prefix(a.mime_type@, "video/"@)
}

/// Whether `s` can be compared side by side: two photos, neither a video.
pub open spec fn comparable(s: Seq<Asset>) -> bool {
    s.len() == 2 && !is_video(s[0]) && !is_video(s[1])
}

fn preview_source_of(g: &Gallery, pair: &Vec<Asset>, slot: usize) -> (r: Option<PreviewSource>)
    requires
        pair@ == spec_pair(*g),
    ensures
        r == preview_source(*g, slot as int),
{
    let versions_view = match g.view {
        Some(GalleryView::Versions) => true,
        _ => false,
    };
    if versions_view && slot == 1 && g.version < g.versions.len() {
        return Some(PreviewSource::Version(g.versions[g.version].clone()));
    }
    if slot < pair.len() {
        Some(PreviewSource::Photo(pair[slot].id.clone()))
    } else {
        None
    }
}

fn is_video_asset(a: &Asset) -> (r: bool)
    ensures
        r == is_video(*a),
{
    str_starts_with(a.mime_type.as_str(), "video/")
}

/// Whether every group is non-empty and names photos of `photos`.
pub fn valid_groups(photos: &Vec<Asset>, groups: &Vec<Vec<usize>>) -> (r: bool)
    ensures
        r == groups_valid(photos@, groups@),
{
    let mut g: usize = 0;
    while g < groups.len()
        invariant
            g <= groups@.len(),
            forall|h: int| 0 <= h < g ==> #[trigger] groups@[h]@.len() > 0,
            forall|h: int, i: int|
                #![trigger groups@[h]@[i]]
                0 <= h < g && 0 <= i < groups@[h]@.len() ==> groups@[h]@[i] < photos@.len(),
        decreases groups@.len() - g,
    {
        let grp = &groups[g];
        if grp.len() == 0 {
            return false;
        }
        let mut i: usize = 0;
        while i < grp.len()
            invariant
                g < groups@.len(),
                *grp == groups@[g as int],
                i <= grp@.len(),
                forall|j: int| 0 <= j < i ==> #[trigger] grp@[j] < photos@.len(),
            decreases grp@.len() - i,
        {
            if grp[i] >= photos.len() {
                assert(groups@[g as int]@[i as int] >= photos@.len());
                return false;
            }
            i = i + 1;
        }
        g = g + 1;
    }
    true
}

impl Workspace {
    /// Ask for the previews of the panes again; earlier previews still on
    /// their way are ignored from now on. Returns what to fetch: nothing
    /// when not connected.
    pub fn cloud_gallery_previews(&mut self) -> (r: Vec<PreviewRequest>)
        requires
            old(self).gallery.serial < u64::MAX,
            old(self).gallery.wf(),
        ensures
            *final(self) == (Workspace { gallery: refreshed(old(self).gallery), ..*old(self) }),
            r@ == previews_for(*old(self), refreshed(old(self).gallery)),
    {
        self.gallery.serial = self.gallery.serial + 1;
        let mut r: Vec<PreviewRequest> = Vec::new();
        if !self.cloud_client {
            return r;
        }
        let pair = self.gallery.pair();
        if let Some(source) = preview_source_of(&self.gallery, &pair, 0) {
            r.push(PreviewRequest { slot: 0, serial: self.gallery.serial, source });
        }
        if let Some(source) = preview_source_of(&self.gallery, &pair, 1) {
            r.push(PreviewRequest { slot: 1, serial: self.gallery.serial, source });
        }
        assert(r@ =~= preview_requests(self.gallery));
        r
    }

    /// The photos the gallery's actions apply to (see `spec_gallery_photos`).
    pub fn cloud_gallery_photos(&self) -> (r: Vec<Asset>)
        requires
            self.gallery.wf(),
        ensures
            r@ == spec_gallery_photos(*self),
    {
        if self.gallery.view.is_some() {
            let p = self.gallery.pair();
            let mut r: Vec<Asset> = Vec::new();
            if self.gallery.active < p.len() {
                r.push(p[self.gallery.active].duplicate());
            }
            assert(r@ =~= spec_gallery_photos(*self));
            r
        } else {
            selected_assets(&self.feed.assets, &self.feed.selected)
        }
    }

    /// Compare the two photos the gallery's actions apply to, side by side,
    /// the second pane active. Nothing happens unless they are two photos
    /// and neither is a video. Returns the previews to fetch once opened.
    pub fn cloud_compare(&mut self) -> (r: Option<Vec<PreviewRequest>>)
        requires
            old(self).gallery.serial < u64::MAX - 1,
            old(self).gallery.wf(),
        ensures
            !comparable(spec_gallery_photos(*old(self))) ==> r is None && *final(self) == *old(self),
            comparable(spec_gallery_photos(*old(self))) ==> {
                let g = refreshed(Gallery {
                    view: Some(GalleryView::Compare),
                    photos: final(self).gallery.photos,
                    active: 1,
                    ..closed(old(self).gallery)
                });
                &&& final(self).gallery.photos@ == spec_gallery_photos(*old(self))
                &&& *final(self) == (Workspace { gallery: g, ..*old(self) })
                &&& r is Some && r->0@ == previews_for(*old(self), g)
            },
            final(self).gallery.wf(),
    {
        let photos = self.cloud_gallery_photos();
        if photos.len() != 2 || is_video_asset(&photos[0]) || is_video_asset(&photos[1]) {
            return None;
        }
        self.gallery.close();
        self.gallery.view = Some(GalleryView::Compare);
        self.gallery.photos = photos;
        self.gallery.active = 1;
        let r = self.cloud_gallery_previews();
        Some(r)
    }
}

/// What the cloud answered a request of the gallery's, read according to
/// the request.
#[derive(Debug)]
pub enum GalleryReply {
    /// To `asset.versions`: each version's thumbnail address.
    Versions(Vec<String>),
    /// To `asset.version.create`.
    VersionCreated,
    /// To `asset.version.restore`.
    VersionRestored,
    /// To `asset.metadata`: the photo's name and where its XMP sidecar is.
    Metadata { name: String, xmp_url: String },
    /// To any other request: the photos it changed.
    Assets(Vec<Asset>),
}

/// What arrives for the gallery, each with the serial of the view it was
/// started for.
#[derive(Debug)]
pub enum GalleryEvent {
    /// A review's scan progress.
    Progress { serial: u64, done: usize, total: usize },
    /// A request's answer, or why it failed.
    Reply { serial: u64, result: Result<GalleryReply, String> },
    /// A review's photos and their groups, or why the scan failed.
    Review { serial: u64, result: Result<(Vec<Asset>, Vec<Vec<usize>>), String> },
    /// Whether pane `slot`'s preview decoded.
    Preview { serial: u64, slot: usize, result: Result<(), String> },
}

/// What the caller does after an event.
#[derive(Debug)]
pub enum GalleryAction {
    Nothing,
    /// Fetch these previews.
    FetchPreviews(Vec<PreviewRequest>),
    /// Ask the cloud for the versions of the photo with this id.
    RequestVersions(String),
    /// Start the gallery's query over, keeping its photos on screen.
    WatchAssets,
    /// Download `url` and save it under `name`.
    Download { url: String, name: String },
    /// Show the decoded preview in pane `slot`.
    ShowPreview(usize),
}

/// The serial an event carries.
pub open spec fn event_serial(e: GalleryEvent) -> u64 {
    match e {
        GalleryEvent::Progress { serial, .. } => serial,
        GalleryEvent::Reply { serial, .. } => serial,
        GalleryEvent::Review { serial, .. } => serial,
        GalleryEvent::Preview { serial, .. } => serial,
    }
}

/// A review's result names only photos it has.
pub open spec fn event_valid(e: GalleryEvent) -> bool {
    match e {
        GalleryEvent::Review { result: Ok((photos, groups)), .. } => groups_valid(photos@, groups@),
        _ => true,
    }
}

/// `post` is `w` with gallery `g`, after failing with `msg`: the gallery
/// keeps the message as its error, and the status line and the cloud
/// panel show it.
pub open spec fn gallery_failed(w: Workspace, g: Gallery, post: Workspace, msg: Seq<char>) -> bool {
    &&& post.gallery == Gallery { error: post.gallery.error, ..g }
    &&& post.gallery.error is Some && post.gallery.error->0@ == msg
    &&& post.status@ == msg
    &&& post.cloud_message@ == msg
    &&& post == Workspace { gallery: post.gallery, status: post.status, cloud_message: post.cloud_message, ..w }
}

/// `act` fetches the previews of gallery `g`, as far as `w` is connected.
pub open spec fn fetches(act: GalleryAction, w: Workspace, g: Gallery) -> bool {
    act is FetchPreviews && act->FetchPreviews_0@ == previews_for(w, g)
}

/// The effect of answer `reply` on `w`, whose gallery is `g` once no
/// longer busy.
pub open spec fn reply_applied(w: Workspace, g: Gallery, post: Workspace, reply: GalleryReply, act: GalleryAction) -> bool {
    match reply {
        GalleryReply::Versions(v) => {
            let g2 = refreshed(Gallery { versions: v, version: 0, ..g });
            post == Workspace { gallery: g2, ..w } && fetches(act, w, g2)
        },
        GalleryReply::VersionCreated => if g.photos@.len() > 0 && w.cloud_client {
            &&& post == Workspace { gallery: Gallery { busy: true, error: None, ..g }, ..w }
            &&& act is RequestVersions && act->RequestVersions_0@ == g.photos@[0].id@
        } else {
            post == Workspace { gallery: g, ..w } && act is Nothing
        },
        GalleryReply::VersionRestored => {
            &&& post == Workspace { gallery: closed(g), cloud_message: post.cloud_message, ..w }
            &&& post.cloud_message@ == "common.done"@
            &&& act is WatchAssets
        },
        GalleryReply::Metadata { name, xmp_url } => {
            &&& post == Workspace { gallery: g, ..w }
            &&& act is Download && act->url == xmp_url && act->name@ == name@ + ".xmp"@
        },
        GalleryReply::Assets(list) => {
            &&& post.feed.assets@.len() == w.feed.assets@.len()
            &&& forall|k: int| 0 <= k < w.feed.assets@.len() ==> #[trigger] post.feed.assets@[k] == updated(w.feed.assets@[k], list@)
            &&& post.gallery.photos@.len() == g.photos@.len()
            &&& forall|k: int| 0 <= k < g.photos@.len() ==> #[trigger] post.gallery.photos@[k] == updated(g.photos@[k], list@)
            &&& post.cloud_message@ == "common.done"@
            &&& post == Workspace {
                feed: crate::assets::AssetFeed { assets: post.feed.assets, ..w.feed },
                gallery: Gallery { photos: post.gallery.photos, ..g },
                cloud_message: post.cloud_message,
                ..w
            }
            &&& act is Nothing
        },
    }
}

/// The effect of event `e` on workspace `pre`: an event for a view closed
/// since changes nothing; otherwise progress is shown, an answer or a
/// review lands, and a failure is reported.
pub open spec fn gallery_event_applied(pre: Workspace, post: Workspace, e: GalleryEvent, act: GalleryAction) -> bool {
    if event_serial(e) != pre.gallery.serial {
        post == pre && act is Nothing
    } else {
        match e {
            GalleryEvent::Progress { done, total, .. } => {
                post == Workspace { gallery: Gallery { progress: Some((done, total)), ..pre.gallery }, ..pre }
                    && act is Nothing
            },
            GalleryEvent::Reply { result, .. } => {
                let g = Gallery { busy: false, ..pre.gallery };
                match result {
                    Err(msg) => gallery_failed(pre, g, post, msg@) && act is Nothing,
                    Ok(reply) => reply_applied(pre, g, post, reply, act),
                }
            },
            GalleryEvent::Review { result, .. } => {
                let g = Gallery { busy: false, progress: None, ..pre.gallery };
                match result {
                    Err(msg) => gallery_failed(pre, g, post, msg@) && act is Nothing,
                    Ok((photos, groups)) => {
                        let g2 = refreshed(Gallery { photos, groups, group: 0, candidate: 1, ..g });
                        post == Workspace { gallery: g2, ..pre } && fetches(act, pre, g2)
                    },
                }
            },
            GalleryEvent::Preview { slot, result, .. } => match result {
                Err(msg) => gallery_failed(pre, pre.gallery, post, msg@) && act is Nothing,
                Ok(_) => post == pre && act == GalleryAction::ShowPreview(slot),
            },
        }
    }
}

impl Workspace {
    /// Mark a request of the gallery's as under way, when connected.
    fn gallery_request_started(&mut self) -> (sent: bool)
        ensures
            sent == old(self).cloud_client,
            *final(self) == if sent {
                Workspace { gallery: Gallery { busy: true, error: None, ..old(self).gallery }, ..*old(self) }
            } else {
                *old(self)
            },
    {
        if !self.cloud_client {
            return false;
        }
        self.gallery.busy = true;
        self.gallery.error = None;
        true
    }

    fn gallery_error(&mut self, msg: String)
        ensures
            gallery_failed(*old(self), old(self).gallery, *final(self), msg@),
    {
        self.cloud_error(msg.as_str());
        self.gallery.error = Some(msg);
    }

    /// Show the version history of the one photo the gallery's actions
    /// apply to, in the first pane. Nothing happens unless there is
    /// exactly one. Returns the photo whose versions to ask the cloud for,
    /// when connected.
    pub fn cloud_versions(&mut self) -> (r: Option<String>)
        requires
            old(self).gallery.serial < u64::MAX,
            old(self).gallery.wf(),
        ensures
            spec_gallery_photos(*old(self)).len() != 1 ==> r is None && *final(self) == *old(self),
            spec_gallery_photos(*old(self)).len() == 1 ==> {
                let g = Gallery {
                    view: Some(GalleryView::Versions),
                    photos: final(self).gallery.photos,
                    versions: final(self).gallery.versions,
                    active: 0,
                    busy: old(self).cloud_client,
                    ..closed(old(self).gallery)
                };
                &&& final(self).gallery.photos@ == spec_gallery_photos(*old(self))
                &&& final(self).gallery.versions@.len() == 0
                &&& *final(self) == (Workspace { gallery: g, ..*old(self) })
                &&& r == (if old(self).cloud_client { Some(spec_gallery_photos(*old(self))[0].id) } else { None })
            },
            final(self).gallery.wf(),
    {
        let photos = self.cloud_gallery_photos();
        if photos.len() != 1 {
            return None;
        }
        let id = photos[0].id.clone();
        self.gallery.close();
        self.gallery.view = Some(GalleryView::Versions);
        self.gallery.active = 0;
        self.gallery.photos = photos;
        self.gallery.versions = Vec::new();
        if self.gallery_request_started() {
            Some(id)
        } else {
            None
        }
    }

    /// Start a review of similar photos: the review opens empty and busy
    /// while the caller scans the gallery's query. Returns the serial the
    /// scan's progress and result carry, or `None` when not connected, when
    /// nothing happens.
    pub fn cloud_review(&mut self) -> (r: Option<u64>)
        requires
            old(self).gallery.serial < u64::MAX,
        ensures
            !old(self).cloud_client ==> r is None && *final(self) == *old(self),
            old(self).cloud_client ==> {
                let g = Gallery {
                    view: Some(GalleryView::Review),
                    photos: final(self).gallery.photos,
                    groups: final(self).gallery.groups,
                    busy: true,
                    ..closed(old(self).gallery)
                };
                &&& final(self).gallery.photos@.len() == 0
                &&& final(self).gallery.groups@.len() == 0
                &&& *final(self) == (Workspace { gallery: g, ..*old(self) })
                &&& r == Some(g.serial)
            },
    {
        if !self.cloud_client {
            return None;
        }
        self.gallery.close();
        self.gallery.view = Some(GalleryView::Review);
        self.gallery.photos = Vec::new();
        self.gallery.groups = Vec::new();
        self.gallery.busy = true;
        Some(self.gallery.serial)
    }

    /// Take in what arrived for the gallery (see `gallery_event_applied`),
    /// and say what the caller does next.
    pub fn cloud_gallery_event(&mut self, event: GalleryEvent) -> (act: GalleryAction)
        requires
            old(self).gallery.serial < u64::MAX,
            old(self).gallery.wf(),
            event_valid(event),
        ensures
            gallery_event_applied(*old(self), *final(self), event, act),
            final(self).gallery.wf(),
    {
        let serial = match &event {
            GalleryEvent::Progress { serial, .. } => *serial,
            GalleryEvent::Reply { serial, .. } => *serial,
            GalleryEvent::Review { serial, .. } => *serial,
            GalleryEvent::Preview { serial, .. } => *serial,
        };
        if serial != self.gallery.serial {
            return GalleryAction::Nothing;
        }
        match event {
            GalleryEvent::Progress { done, total, .. } => {
                self.gallery.progress = Some((done, total));
                GalleryAction::Nothing
            },
            GalleryEvent::Reply { result, .. } => {
                self.gallery.busy = false;
                match result {
                    Err(msg) => {
                        self.gallery_error(msg);
                        GalleryAction::Nothing
                    },
                    Ok(reply) => self.gallery_reply(reply),
                }
            },
            GalleryEvent::Review { result, .. } => {
                self.gallery.busy = false;
                self.gallery.progress = None;
                match result {
                    Err(msg) => {
                        self.gallery_error(msg);
                        GalleryAction::Nothing
                    },
                    Ok((photos, groups)) => {
                        self.gallery.photos = photos;
                        self.gallery.groups = groups;
                        self.gallery.group = 0;
                        self.gallery.candidate = 1;
                        GalleryAction::FetchPreviews(self.cloud_gallery_previews())
                    },
                }
            },
            GalleryEvent::Preview { slot, result, .. } => match result {
                Err(msg) => {
                    self.gallery_error(msg);
                    GalleryAction::Nothing
                },
                Ok(()) => GalleryAction::ShowPreview(slot),
            },
        }
    }

    fn gallery_reply(&mut self, reply: GalleryReply) -> (act: GalleryAction)
        requires
            old(self).gallery.serial < u64::MAX,
            old(self).gallery.wf(),
        ensures
            reply_applied(*old(self), old(self).gallery, *final(self), reply, act),
            final(self).gallery.wf(),
    {
        match reply {
            GalleryReply::Versions(v) => {
                self.gallery.versions = v;
                self.gallery.version = 0;
                GalleryAction::FetchPreviews(self.cloud_gallery_previews())
            },
            GalleryReply::VersionCreated => {
                if self.gallery.photos.len() > 0 {
                    let id = self.gallery.photos[0].id.clone();
                    if self.gallery_request_started() {
                        return GalleryAction::RequestVersions(id);
                    }
                }
                GalleryAction::Nothing
            },
            GalleryReply::VersionRestored => {
                self.gallery.close();
                self.cloud_message = "common.done".to_owned();
                GalleryAction::WatchAssets
            },
            GalleryReply::Metadata { name, xmp_url } => {
                let mut n = chars_of(name.as_str());
                n.push('.');
                n.push('x');
                n.push('m');
                n.push('p');
                let name = string_of(n.as_slice());
                proof {
                    reveal_strlit(".xmp");
                    assert(name@ =~= reply->name@ + ".xmp"@);
                }
                GalleryAction::Download { url: xmp_url, name }
            },
            GalleryReply::Assets(list) => {
                replace_updated(&mut self.feed.assets, &list);
                replace_updated(&mut self.gallery.photos, &list);
                self.cloud_message = "common.done".to_owned();
                GalleryAction::Nothing
            },
        }
    }
}

/// The group a review steps to: the next one, but not past the last, or
/// the previous one, but not before the first.
pub open spec fn stepped_group(g: Gallery, forward: bool) -> usize {
    if forward {
        let top = if g.groups@.len() > 0 { (g.groups@.len() - 1) as usize } else { 0usize };
        if g.group < top { (g.group + 1) as usize } else { top }
    } else if g.group > 0 {
        (g.group - 1) as usize
    } else {
        0usize
    }
}

/// The gallery after key `k`: a closing key closes the view, the pane
/// keys pick the active pane; other keys leave it to the caller.
pub open spec fn key_applied(g: Gallery, k: CullingKey) -> Gallery {
    match k {
        CullingKey::CloseCompare => closed(g),
        CullingKey::ShowPane(p) => Gallery { active: p as usize, ..g },
        CullingKey::OtherPane => Gallery { active: (1 - g.active) as usize, ..g },
        _ => g,
    }
}

impl Workspace {
    /// Step the review to the next or previous group of similar photos,
    /// its second photo beside the first. Returns the previews to fetch.
    pub fn cloud_review_step(&mut self, forward: bool) -> (r: Vec<PreviewRequest>)
        requires
            old(self).gallery.serial < u64::MAX,
            old(self).gallery.wf(),
        ensures
            ({
                let g = refreshed(Gallery { group: stepped_group(old(self).gallery, forward), candidate: 1, ..old(self).gallery });
                &&& *final(self) == (Workspace { gallery: g, ..*old(self) })
                &&& r@ == previews_for(*old(self), g)
            }),
            final(self).gallery.wf(),
    {
        let len = self.gallery.groups.len();
        let group = self.gallery.group;
        self.gallery.group = if forward {
            let top = if len > 0 { len - 1 } else { 0 };
            if group < top { group + 1 } else { top }
        } else if group > 0 {
            group - 1
        } else {
            0
        };
        self.gallery.candidate = 1;
        self.cloud_gallery_previews()
    }

    /// Handle `key`, with `mods` held, in the cloud gallery (see
    /// `spec_cloud_culling_key`; a view counts as a comparison). Closing
    /// and pane keys act on the view here; the caller zooms, resets the
    /// view, opens a comparison and culls.
    pub fn cloud_gallery_key(&mut self, key: &str, mods: Modifiers, typing: bool, culling: bool) -> (k: CullingKey)
        requires
            old(self).gallery.serial < u64::MAX,
            old(self).gallery.wf(),
        ensures
            k == spec_cloud_culling_key(key@, mods, typing, old(self).gallery.view is Some, culling),
            *final(self) == (Workspace { gallery: key_applied(old(self).gallery, k), ..*old(self) }),
            final(self).gallery.wf(),
    {
        let k = cloud_culling_key(key, mods, typing, self.gallery.view.is_some(), culling);
        match k {
            CullingKey::CloseCompare => self.gallery.close(),
            CullingKey::ShowPane(p) => {
                assert(p == 0 || p == 1);
                self.gallery.active = p as usize;
            },
            CullingKey::OtherPane => self.gallery.active = 1 - self.gallery.active,
            _ => {},
        }
        k
    }

    /// Start culling the photos the gallery's actions apply to, when the
    /// cloud offers culling, no request of the gallery's is under way,
    /// there are such photos and the cloud is connected. Returns them, for
    /// the caller to send with the culling edit.
    pub fn cloud_cull(&mut self, culling: bool) -> (r: Option<Vec<Asset>>)
        requires
            old(self).gallery.wf(),
        ensures
            ({
                let p = spec_gallery_photos(*old(self));
                if culling && !old(self).gallery.busy && p.len() > 0 && old(self).cloud_client {
                    &&& *final(self) == (Workspace { gallery: Gallery { busy: true, error: None, ..old(self).gallery }, ..*old(self) })
                    &&& r is Some && r->0@ == p
                } else {
                    r is None && *final(self) == *old(self)
                }
            }),
            final(self).gallery.wf(),
    {
        if !culling || self.gallery.busy {
            return None;
        }
        let photos = self.cloud_gallery_photos();
        if photos.len() == 0 {
            return None;
        }
        if self.gallery_request_started() {
            Some(photos)
        } else {
            None
        }
    }

    /// Record a choice for the photo in the review's active pane, within
    /// its group: unless a request is under way, the review has no group
    /// on show or the pane no photo, or the cloud is not connected. Returns
    /// the group's photos and the chosen photo's id, for the caller to send
    /// with the choice.
    pub fn cloud_review_choice(&mut self) -> (r: Option<(Vec<Asset>, String)>)
        requires
            old(self).gallery.wf(),
            groups_valid(old(self).gallery.photos@, old(self).gallery.groups@),
        ensures
            ({
                let g = old(self).gallery;
                let pair = spec_pair(g);
                if !g.busy && g.group < g.groups@.len() && g.active < pair.len() && old(self).cloud_client {
                    let grp = g.groups@[g.group as int]@;
                    &&& *final(self) == (Workspace { gallery: Gallery { busy: true, error: None, ..g }, ..*old(self) })
                    &&& r is Some
                    &&& {
                        let (photos, id) = r->0;
                        &&& photos@.len() == grp.len()
                        &&& forall|i: int| 0 <= i < grp.len() ==> #[trigger] photos@[i] == g.photos@[grp[i] as int]
                        &&& id@ == pair[g.active as int].id@
                    }
                } else {
                    r is None && *final(self) == *old(self)
                }
            }),
            final(self).gallery.wf(),
    {
        if self.gallery.busy || self.gallery.group >= self.gallery.groups.len() {
            return None;
        }
        let ghost g = self.gallery;
        let grp = &self.gallery.groups[self.gallery.group];
        let mut photos: Vec<Asset> = Vec::new();
        let mut i: usize = 0;
        while i < grp.len()
            invariant
                g == self.gallery,
                g.group < g.groups@.len(),
                *grp == g.groups@[g.group as int],
                groups_valid(g.photos@, g.groups@),
                i <= grp@.len(),
                photos@.len() == i,
                forall|j: int| 0 <= j < i ==> #[trigger] photos@[j] == g.photos@[grp@[j] as int],
            decreases grp@.len() - i,
        {
            assert(grp@[i as int] == g.groups@[g.group as int]@[i as int]);
            photos.push(self.gallery.photos[grp[i]].duplicate());
            i = i + 1;
        }
        let pair = self.gallery.pair();
        if self.gallery.active >= pair.len() {
            return None;
        }
        let id = pair[self.gallery.active].id.clone();
        if self.gallery_request_started() {
            Some((photos, id))
        } else {
            None
        }
    }
}

/// Closing a view turns away what was still on its way to it: an event
/// started for the view closed changes nothing and asks nothing.
pub proof fn lemma_closed_view_ignores_late_events(w: Workspace, post: Workspace, e: GalleryEvent, act: GalleryAction)
    requires
        w.gallery.serial < u64::MAX,
        event_serial(e) == w.gallery.serial,
        gallery_event_applied(Workspace { gallery: closed(w.gallery), ..w }, post, e, act),
    ensures
        post == (Workspace { gallery: closed(w.gallery), ..w }),
        act is Nothing,
{
}

/// Asking for previews anew turns away the earlier ones: an event
/// carrying the serial from before changes nothing and asks nothing.
pub proof fn lemma_new_previews_ignore_old_ones(w: Workspace, post: Workspace, e: GalleryEvent, act: GalleryAction)
    requires
        w.gallery.serial < u64::MAX,
        event_serial(e) == w.gallery.serial,
        gallery_event_applied(Workspace { gallery: refreshed(w.gallery), ..w }, post, e, act),
    ensures
        post == (Workspace { gallery: refreshed(w.gallery), ..w }),
        act is Nothing,
{
}

/// Stepping a review forward and back again returns to the group it
/// showed, unless it was on the last group; back and forward again
/// returns too, unless it was on the first.
pub proof fn lemma_review_steps_undo(g: Gallery)
    requires
        g.group < g.groups@.len(),
    ensures
        g.group + 1 < g.groups@.len() ==> stepped_group(Gallery { group: stepped_group(g, true), ..g }, false) == g.group,
        g.group > 0 ==> stepped_group(Gallery { group: stepped_group(g, false), ..g }, true) == g.group,
{
    assert(g.groups.len() == g.groups@.len());
}

/// In a comparison, ← and → show the first and the second pane, and Tab
/// the other one, so that Tab twice comes back; closing leaves the view.
pub proof fn lemma_pane_keys(g: Gallery)
    requires
        g.active <= 1,
    ensures
        key_applied(g, CullingKey::ShowPane(0)).active == 0,
        key_applied(g, CullingKey::ShowPane(1)).active == 1,
        key_applied(g, CullingKey::OtherPane).active == 1 - g.active,
        key_applied(key_applied(g, CullingKey::OtherPane), CullingKey::OtherPane) == g,
        key_applied(g, CullingKey::CloseCompare).view is None,
        key_applied(g, CullingKey::ZoomIn) == g && key_applied(g, CullingKey::ZoomOut) == g,
{
}

proof fn lemma_first_newer_is(s: Seq<Asset>, q: Asset, i: int)
    requires
        0 <= i < s.len(),
        newer_metadata(s[i], q),
        forall|j: int| 0 <= j < i ==> !newer_metadata(#[trigger] s[j], q),
    ensures
        first_newer(s, q) == i,
{
    lemma_first_newer(s.take(i), q);
    if first_newer(s.take(i), q) >= 0 {
        let k = first_newer(s.take(i), q);
        assert(s.take(i)[k] == s[k]);
    }
    lemma_first_newer_prefix(s, q, i);
}

/// Taking in the same photos twice changes nothing more than once.
pub proof fn lemma_reconcile_settles(p: Asset, s: Seq<Asset>)
    ensures
        reconciled(reconciled(p, s), s) == reconciled(p, s),
{
    lemma_first_newer(s, p);
    let i = first_newer(s, p);
    if i >= 0 {
        let a = s[i];
        assert forall|j: int| 0 <= j < i implies !newer_metadata(#[trigger] s[j], a) by {
            assert(!newer_metadata(s[j], p));
        }
        lemma_first_newer_is(s, a, i);
    }
}

} // verus!
