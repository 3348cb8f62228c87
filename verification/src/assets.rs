//! The cloud gallery's live asset feed: pages of a query arrive and update
//! independently, and the grid shows them merged, one cell per photo with
//! its newest revision. Also the people view's photo, and which thumbnails
//! to fetch.
use vstd::prelude::*;
use crate::text::str_is;

verus! {

/// A photo in the cloud library, as far as the gallery reads it.
#[derive(Debug, PartialEq)]
pub struct Asset {
    pub id: String,
    pub name: String,
    pub revision: u64,
    pub thumbnail_url: Option<String>,
    pub rating: u8,
    pub flag: String,
    pub label: String,
    pub mime_type: String,
    pub metadata_revision: u64,
}

pub fn clone_string_opt(s: &Option<String>) -> (r: Option<String>)
    ensures
        r == *s,
{
    match s {
        Some(t) => Some(t.clone()),
        None => None,
    }
}

impl Asset {
    /// An exact copy.
    pub fn duplicate(&self) -> (r: Asset)
        ensures
            r == *self,
    {
        Asset {
            id: self.id.clone(),
            name: self.name.clone(),
            revision: self.revision,
            thumbnail_url: clone_string_opt(&self.thumbnail_url),
            rating: self.rating,
            flag: self.flag.clone(),
            label: self.label.clone(),
            mime_type: self.mime_type.clone(),
            metadata_revision: self.metadata_revision,
        }
    }
}

/// One subscribed page of the live query.
#[derive(Debug)]
pub struct AssetPage {
    pub watch: String,
    pub offset: u64,
    pub assets: Vec<Asset>,
    pub pending: bool,
    pub error: Option<String>,
}

/// Which photo a person's avatar is cut from, and, from newer providers, the
/// revision and thumbnail to fetch it at.
#[derive(Debug)]
pub struct PersonAvatar {
    pub asset_id: String,
    pub revision: Option<u64>,
    pub thumbnail_url: Option<String>,
}

/// A named person.
#[derive(Debug)]
pub struct Person {
    pub id: String,
    pub name: String,
    pub avatar: Option<PersonAvatar>,
}

/// The people the cloud has recognised.
#[derive(Debug)]
pub struct People {
    pub people: Vec<Person>,
}

/// One delivery of a watched page: the query's total and the page's items.
#[derive(Debug)]
pub struct Snapshot {
    pub total: u64,
    pub items: Vec<Asset>,
    pub people: Option<People>,
}

/// One thumbnail to fetch: the photo, its revision and where from.
pub type Wanted = (String, u64, Option<String>);

// ---------------------------------------------------------------------
// Merging pages: one cell per photo, newest revision wins.

/// The first position in `m` of a photo with id `id`, or -1.
pub open spec fn find_id(m: Seq<Asset>, id: Seq<char>) -> int
    decreases m.len(),
{
    if m.len() == 0 {
        -1
    } else {
        let p = find_id(m.drop_last(), id);
        if p >= 0 {
            p
        } else if m.last().id@ == id {
            m.len() - 1
        } else {
            -1
        }
    }
}

/// The photos of `s`, one per id, in order of first appearance, each with
/// the newest revision seen (the earliest of equal revisions). The merge
/// looks ids up among the photos kept so far rather than in a set of ids
/// seen: the kept photos are what the gallery shows, in order, and
/// `lemma_merge_assets` proves each id is kept once.
pub open spec fn merge_assets(s: Seq<Asset>) -> Seq<Asset>
    decreases s.len(),
{
    if s.len() == 0 {
        Seq::empty()
    } else {
        let m = merge_assets(s.drop_last());
        let a = s.last();
        let p = find_id(m, a.id@);
        if p < 0 {
            m.push(a)
        } else if a.revision > m[p].revision {
            m.update(p, a)
        } else {
            m
        }
    }
}

/// Every page's photos, page after page.
pub open spec fn flat_pages(pages: Seq<AssetPage>) -> Seq<Asset>
    decreases pages.len(),
{
    if pages.len() == 0 {
        Seq::empty()
    } else {
        flat_pages(pages.drop_last()) + pages.last().assets@
    }
}

/// No two photos share an id.
pub open spec fn unique_ids(m: Seq<Asset>) -> bool {
    forall|i: int, j: int| 0 <= i < j < m.len() ==> m[i].id@ != m[j].id@
}

pub proof fn lemma_find_id(m: Seq<Asset>, id: Seq<char>, i: int)
    requires
        0 <= i <= m.len(),
        forall|j: int| 0 <= j < i ==> m[j].id@ != id,
        i < m.len() ==> m[i].id@ == id,
    ensures
        find_id(m, id) == (if i < m.len() { i } else { -1 }),
    decreases m.len(),
{
    if m.len() > 0 {
        let d = m.drop_last();
        if i < m.len() - 1 {
            lemma_find_id(d, id, i);
        } else {
            lemma_find_id(d, id, d.len() as int);
        }
    }
}

pub proof fn lemma_find_id_range(m: Seq<Asset>, id: Seq<char>)
    ensures
        -1 <= find_id(m, id) < m.len(),
        find_id(m, id) >= 0 ==> m[find_id(m, id)].id@ == id,
        find_id(m, id) < 0 ==> forall|j: int| 0 <= j < m.len() ==> m[j].id@ != id,
    decreases m.len(),
{
    if m.len() > 0 {
        let d = m.drop_last();
        lemma_find_id_range(d, id);
        assert forall|j: int| 0 <= j < m.len() - 1 implies m[j] == d[j] by {}
    }
}

/// The position of the photo with the given id in `m`, if any.
fn position_of(m: &Vec<Asset>, id: &String) -> (r: Option<usize>)
    ensures
        match r {
            Some(p) => p as int == find_id(m@, id@),
            None => find_id(m@, id@) == -1,
        },
{
    let mut i: usize = 0;
    while i < m.len()
        invariant
            i <= m.len(),
            forall|j: int| 0 <= j < i ==> m@[j].id@ != id@,
        decreases m.len() - i,
    {
        if m[i].id == *id {
            proof {
                lemma_find_id(m@, id@, i as int);
            }
            return Some(i);
        }
        i = i + 1;
    }
    proof {
        lemma_find_id(m@, id@, m@.len() as int);
    }
    None
}

/// Add one photo to a merged list.
fn merge_one(m: &mut Vec<Asset>, a: &Asset)
    ensures
        final(m)@ == ({
            let p = find_id(old(m)@, a.id@);
            if p < 0 {
                old(m)@.push(*a)
            } else if a.revision > old(m)@[p].revision {
                old(m)@.update(p, *a)
            } else {
                old(m)@
            }
        }),
{
    proof {
        lemma_find_id_range(m@, a.id@);
    }
    match position_of(m, &a.id) {
        None => {
            m.push(a.duplicate());
        },
        Some(p) => {
            if a.revision > m[p].revision {
                m.set(p, a.duplicate());
            }
        },
    }
}

/// Whether some photo of `n` has id `id`.
pub open spec fn has_id(n: Seq<Asset>, id: Seq<char>) -> bool {
    exists|j: int| 0 <= j < n.len() && n[j].id@ == id
}

/// Adding one photo to merged photos.
pub open spec fn merge_step(m: Seq<Asset>, a: Asset) -> Seq<Asset> {
    let p = find_id(m, a.id@);
    if p < 0 {
        m.push(a)
    } else if a.revision > m[p].revision {
        m.update(p, a)
    } else {
        m
    }
}

/// Merging one more photo keeps ids unique and keeps every id it had.
pub proof fn lemma_merge_step(m: Seq<Asset>, a: Asset)
    requires
        unique_ids(m),
    ensures
        unique_ids(merge_step(m, a)),
        has_id(merge_step(m, a), a.id@),
        forall|id: Seq<char>| has_id(m, id) ==> #[trigger] has_id(merge_step(m, a), id),
{
    lemma_find_id_range(m, a.id@);
    let p = find_id(m, a.id@);
    let n = merge_step(m, a);
    if p < 0 {
        assert(n[m.len() as int].id@ == a.id@);
        assert forall|i: int, j: int| 0 <= i < j < n.len() implies n[i].id@ != n[j].id@ by {
            if j < m.len() {
                assert(n[i] == m[i] && n[j] == m[j]);
            } else {
                assert(n[i] == m[i]);
            }
        }
    } else {
        assert(n[p].id@ == a.id@);
        assert forall|i: int| 0 <= i < n.len() implies #[trigger] n[i].id@ == m[i].id@ by {}
        assert forall|i: int, j: int| 0 <= i < j < n.len() implies n[i].id@ != n[j].id@ by {
            assert(n[i].id@ == m[i].id@ && n[j].id@ == m[j].id@);
        }
    }
    assert(has_id(n, a.id@));
    assert forall|id: Seq<char>| has_id(m, id) implies #[trigger] has_id(n, id) by {
        let j = choose|j: int| 0 <= j < m.len() && m[j].id@ == id;
        assert(n[j].id@ == m[j].id@);
    }
}

/// The merged photos have unique ids, and every photo of the pages has its
/// id among them.
pub proof fn lemma_merge_assets(s: Seq<Asset>)
    ensures
        unique_ids(merge_assets(s)),
        forall|k: int| 0 <= k < s.len() ==> has_id(merge_assets(s), #[trigger] s[k].id@),
    decreases s.len(),
{
    if s.len() > 0 {
        let d = s.drop_last();
        lemma_merge_assets(d);
        let m = merge_assets(d);
        lemma_merge_step(m, s.last());
        assert(merge_assets(s) == merge_step(m, s.last()));
        assert forall|k: int| 0 <= k < s.len() implies has_id(merge_assets(s), #[trigger] s[k].id@) by {
            if k < s.len() - 1 {
                assert(s[k] == d[k]);
                assert(has_id(m, d[k].id@));
            }
        }
    }
}

proof fn lemma_flat_pages_push(pages: Seq<AssetPage>, i: int)
    requires
        0 <= i < pages.len(),
    ensures
        flat_pages(pages.take(i + 1)) == flat_pages(pages.take(i)) + pages[i].assets@,
{
    assert(pages.take(i + 1).drop_last() =~= pages.take(i));
}

proof fn lemma_merge_push(s: Seq<Asset>, a: Asset)
    ensures
        merge_assets(s.push(a)) == ({
            let m = merge_assets(s);
            let p = find_id(m, a.id@);
            if p < 0 {
                m.push(a)
            } else if a.revision > m[p].revision {
                m.update(p, a)
            } else {
                m
            }
        }),
{
    assert(s.push(a).drop_last() =~= s);
}

/// The photos of every page, merged.
fn merge_pages(pages: &Vec<AssetPage>) -> (r: Vec<Asset>)
    ensures
        r@ == merge_assets(flat_pages(pages@)),
{
    let mut m: Vec<Asset> = Vec::new();
    let mut i: usize = 0;
    assert(pages@.take(0) =~= Seq::<AssetPage>::empty());
    while i < pages.len()
        invariant
            i <= pages.len(),
            m@ == merge_assets(flat_pages(pages@.take(i as int))),
        decreases pages.len() - i,
    {
        let page = &pages[i];
        let ghost base = flat_pages(pages@.take(i as int));
        let mut j: usize = 0;
        assert(base + page.assets@.take(0) =~= base);
        while j < page.assets.len()
            invariant
                i < pages.len(),
                page == &pages@[i as int],
                j <= page.assets.len(),
                base == flat_pages(pages@.take(i as int)),
                m@ == merge_assets(base + page.assets@.take(j as int)),
            decreases page.assets.len() - j,
        {
            proof {
                assert(base + page.assets@.take(j + 1) =~= (base + page.assets@.take(j as int)).push(
                    page.assets@[j as int],
                ));
                lemma_merge_push(base + page.assets@.take(j as int), page.assets@[j as int]);
            }
            merge_one(&mut m, &page.assets[j]);
            j = j + 1;
        }
        proof {
            assert(page.assets@.take(page.assets@.len() as int) =~= page.assets@);
            lemma_flat_pages_push(pages@, i as int);
        }
        i = i + 1;
    }
    assert(pages@.take(pages@.len() as int) =~= pages@);
    m
}

// ---------------------------------------------------------------------
// The feed.

/// The first error among the pages, if any page failed.
pub open spec fn first_error(pages: Seq<AssetPage>) -> Option<String>
    decreases pages.len(),
{
    if pages.len() == 0 {
        None
    } else if pages[0].error is Some {
        pages[0].error
    } else {
        first_error(pages.drop_first())
    }
}

/// Whether a page is still waiting for its first delivery.
pub open spec fn any_pending(pages: Seq<AssetPage>) -> bool {
    exists|i: int| 0 <= i < pages.len() && #[trigger] pages[i].pending
}

/// The position of the page watched under `id`, or -1.
pub open spec fn page_index(pages: Seq<AssetPage>, id: Seq<char>) -> int
    decreases pages.len(),
{
    if pages.len() == 0 {
        -1
    } else {
        let p = page_index(pages.drop_last(), id);
        if p >= 0 {
            p
        } else if pages.last().watch@ == id {
            pages.len() - 1
        } else {
            -1
        }
    }
}

proof fn lemma_page_index(m: Seq<AssetPage>, id: Seq<char>, i: int)
    requires
        0 <= i <= m.len(),
        forall|j: int| 0 <= j < i ==> m[j].watch@ != id,
        i < m.len() ==> m[i].watch@ == id,
    ensures
        page_index(m, id) == (if i < m.len() { i } else { -1 }),
    decreases m.len(),
{
    if m.len() > 0 {
        let d = m.drop_last();
        if i < m.len() - 1 {
            lemma_page_index(d, id, i);
        } else {
            lemma_page_index(d, id, d.len() as int);
        }
    }
}

proof fn lemma_page_index_range(m: Seq<AssetPage>, id: Seq<char>)
    ensures
        -1 <= page_index(m, id) < m.len(),
        page_index(m, id) >= 0 ==> m[page_index(m, id)].watch@ == id,
    decreases m.len(),
{
    if m.len() > 0 {
        lemma_page_index_range(m.drop_last(), id);
    }
}

/// The cloud gallery's live query: its pages, the merged photos on show,
/// and the photo the people view is about.
pub struct AssetFeed {
    pub pages: Vec<AssetPage>,
    pub assets: Vec<Asset>,
    pub total: u64,
    pub loaded: bool,
    pub load_error: Option<String>,
    pub changes: u64,
    pub people: Option<People>,
    pub people_target: Option<Asset>,
    pub map_assets: Vec<Asset>,
    pub grid_wanted: Vec<String>,
    pub map_wanted: Vec<String>,
    pub show: bool,
    pub signed_in: bool,
    pub selected: Vec<String>,
}

/// The next offset to subscribe to, if another page is wanted: only once the
/// first page has landed, nothing failed and nothing is pending, and only
/// after a non-empty last page that ends short of the total.
pub open spec fn spec_next_offset(f: AssetFeed) -> Option<u64> {
    if !f.loaded || f.load_error is Some || any_pending(f.pages@) || f.pages@.len() == 0 {
        None
    } else {
        let page = f.pages@.last();
        let next = page.offset + page.assets@.len();
        if page.assets@.len() > 0 && next < f.total {
            Some(next as u64)
        } else {
            None
        }
    }
}

/// Paging goes on from where the last page ended: the next page starts
/// right after the last page's photos and short of the total, and only
/// once the first page has landed with nothing pending or failed. An
/// empty last page, or one that reaches the total, ends the paging.
pub proof fn lemma_next_page(f: AssetFeed)
    ensures
        spec_next_offset(f) matches Some(o) ==> f.loaded && f.load_error is None && !any_pending(f.pages@)
            && f.pages@.len() > 0 && f.pages@.last().assets@.len() > 0 && o == f.pages@.last().offset
            + f.pages@.last().assets@.len() && o < f.total,
        f.pages@.len() > 0 && f.pages@.last().assets@.len() == 0 ==> spec_next_offset(f) is None,
        f.pages@.len() > 0 && f.pages@.last().offset + f.pages@.last().assets@.len() >= f.total ==> spec_next_offset(
            f,
        ) is None,
        !f.loaded || f.load_error is Some || any_pending(f.pages@) ==> spec_next_offset(f) is None,
{
}

/// `n` is `o` after the page watched under `id` delivered `snapshot`: the
/// page holds its items and is no longer pending or failed, the first page
/// brings the people along, the total follows the delivery, the grid is the
/// pages merged, and the people view's photo is refreshed from the grid.
pub open spec fn snapshot_applied(o: AssetFeed, n: AssetFeed, id: Seq<char>, snapshot: Snapshot) -> bool {
    let i = page_index(o.pages@, id);
    &&& n.pages@.len() == o.pages@.len()
    &&& forall|j: int| 0 <= j < o.pages@.len() && j != i ==> #[trigger] n.pages@[j] == o.pages@[j]
    &&& n.pages@[i].watch == o.pages@[i].watch
    &&& n.pages@[i].offset == o.pages@[i].offset
    &&& n.pages@[i].assets == snapshot.items
    &&& !n.pages@[i].pending
    &&& n.pages@[i].error is None
    &&& n.load_error == first_error(n.pages@)
    &&& n.assets@ == merge_assets(flat_pages(n.pages@))
    &&& n.people_target == match o.people_target {
        None => None,
        Some(t) => {
            let p = find_id(n.assets@, t.id@);
            if p >= 0 { Some(n.assets@[p]) } else { Some(t) }
        },
    }
    &&& n == (AssetFeed {
        pages: n.pages,
        assets: n.assets,
        people: if i == 0 { snapshot.people } else { o.people },
        total: snapshot.total,
        loaded: o.loaded || i == 0,
        load_error: n.load_error,
        changes: (o.changes + 1) as u64,
        people_target: n.people_target,
        ..o
    })
}

/// `n` is `o` after the page watched under `id` failed with `error`: the
/// page and the feed show the error; before the first page has landed the
/// grid empties, afterwards the earlier results stay.
pub open spec fn page_failed(o: AssetFeed, n: AssetFeed, id: Seq<char>, error: Seq<char>) -> bool {
    let i = page_index(o.pages@, id);
    &&& n.pages@.len() == o.pages@.len()
    &&& forall|j: int| 0 <= j < o.pages@.len() && j != i ==> #[trigger] n.pages@[j] == o.pages@[j]
    &&& n.pages@[i].watch == o.pages@[i].watch
    &&& n.pages@[i].offset == o.pages@[i].offset
    &&& n.pages@[i].assets == o.pages@[i].assets
    &&& !n.pages@[i].pending
    &&& n.pages@[i].error matches Some(e) && e@ == error
    &&& n.load_error matches Some(e) && e@ == error
    &&& n.assets@ == if o.loaded { o.assets@ } else { Seq::empty() }
    &&& n == (AssetFeed {
        pages: n.pages,
        assets: if o.loaded { o.assets } else { n.assets },
        total: if o.loaded { o.total } else { 0 },
        load_error: n.load_error,
        ..o
    })
}

impl AssetFeed {
    /// A feed with nothing subscribed.
    pub fn new() -> (r: AssetFeed)
        ensures
            r.pages@.len() == 0,
            r.assets@.len() == 0,
            r.total == 0,
            !r.loaded,
            r.load_error is None,
            r.changes == 0,
            r.people is None,
            r.people_target is None,
            !r.show,
            !r.signed_in,
            r.selected@.len() == 0,
            r.map_assets@.len() == 0,
            r.grid_wanted@.len() == 0,
            r.map_wanted@.len() == 0,
    {
        AssetFeed {
            pages: Vec::new(),
            assets: Vec::new(),
            total: 0,
            loaded: false,
            load_error: None,
            changes: 0,
            people: None,
            people_target: None,
            map_assets: Vec::new(),
            grid_wanted: Vec::new(),
            map_wanted: Vec::new(),
            show: false,
            signed_in: false,
            selected: Vec::new(),
        }
    }

    /// Subscribe another page of the query, watched under `watch`.
    pub fn watch_page(&mut self, watch: String, offset: u64)
        ensures
            final(self).pages@.len() == old(self).pages@.len() + 1,
            final(self).pages@.drop_last() == old(self).pages@,
            final(self).pages@.last().watch == watch,
            final(self).pages@.last().offset == offset,
            final(self).pages@.last().assets@.len() == 0,
            final(self).pages@.last().pending,
            final(self).pages@.last().error is None,
            *final(self) == (AssetFeed { pages: final(self).pages, ..*old(self) }),
    {
        self.pages.push(AssetPage { watch, offset, assets: Vec::new(), pending: true, error: None });
    }

    fn pages_pending(&self) -> (r: bool)
        ensures
            r == any_pending(self.pages@),
    {
        let mut i: usize = 0;
        while i < self.pages.len()
            invariant
                i <= self.pages.len(),
                forall|j: int| 0 <= j < i ==> !self.pages@[j].pending,
            decreases self.pages.len() - i,
        {
            if self.pages[i].pending {
                return true;
            }
            i = i + 1;
        }
        false
    }

    /// The offset of the next page to subscribe to, if the grid should grow.
    pub fn next_asset_offset(&self) -> (r: Option<u64>)
        ensures
            r == spec_next_offset(*self),
    {
        if !self.loaded || self.load_error.is_some() || self.pages_pending() {
            return None;
        }
        if self.pages.len() == 0 {
            return None;
        }
        let page = &self.pages[self.pages.len() - 1];
        let n = page.assets.len() as u64;
        if n == 0 || page.offset > u64::MAX - n {
            return None;
        }
        let next = page.offset + n;
        if next < self.total {
            Some(next)
        } else {
            None
        }
    }

    /// Whether a further page is on its way.
    pub fn is_loading_more(&self) -> (r: bool)
        ensures
            r == (self.loaded && self.load_error is None && any_pending(self.pages@)),
    {
        self.loaded && self.load_error.is_none() && self.pages_pending()
    }

    /// Whether the first page of a signed-in query has yet to land.
    pub fn is_loading(&self) -> (r: bool)
        ensures
            r == (self.signed_in && !self.loaded && self.load_error is None),
    {
        self.signed_in && !self.loaded && self.load_error.is_none()
    }

    fn find_page(&self, id: &str) -> (r: Option<usize>)
        ensures
            match r {
                Some(p) => p as int == page_index(self.pages@, id@) && p < self.pages@.len(),
                None => page_index(self.pages@, id@) == -1,
            },
    {
        let mut i: usize = 0;
        while i < self.pages.len()
            invariant
                i <= self.pages.len(),
                forall|j: int| 0 <= j < i ==> self.pages@[j].watch@ != id@,
            decreases self.pages.len() - i,
        {
            if str_is(self.pages[i].watch.as_str(), id) {
                proof {
                    lemma_page_index_range(self.pages@, id@);
                    lemma_page_index(self.pages@, id@, i as int);
                }
                return Some(i);
            }
            i = i + 1;
        }
        proof {
            lemma_page_index(self.pages@, id@, self.pages@.len() as int);
        }
        None
    }

    pub fn first_page_error(&self) -> (r: Option<String>)
        ensures
            r == first_error(self.pages@),
    {
        let mut i: usize = 0;
        assert(self.pages@.subrange(0, self.pages@.len() as int) =~= self.pages@);
        while i < self.pages.len()
            invariant
                i <= self.pages.len(),
                first_error(self.pages@) == first_error(self.pages@.subrange(i as int, self.pages@.len() as int)),
            decreases self.pages.len() - i,
        {
            proof {
                let rest = self.pages@.subrange(i as int, self.pages@.len() as int);
                assert(rest.drop_first() =~= self.pages@.subrange(i + 1, self.pages@.len() as int));
                assert(rest[0] == self.pages@[i as int]);
            }
            if self.pages[i].error.is_some() {
                return clone_string_opt(&self.pages[i].error);
            }
            i = i + 1;
        }
        None
    }

    /// Replace the people view's photo by the same photo on the page, when it
    /// is there; a photo off the page keeps the copy the view has.
    pub fn refresh_people_target(&mut self)
        ensures
            *final(self) == (AssetFeed { people_target: final(self).people_target, ..*old(self) }),
            match old(self).people_target {
                None => final(self).people_target is None,
                Some(t) => {
                    let p = find_id(old(self).assets@, t.id@);
                    final(self).people_target == if p >= 0 {
                        Some(old(self).assets@[p])
                    } else {
                        Some(t)
                    }
                },
            },
    {
        proof {
            if let Some(t) = &self.people_target {
                lemma_find_id_range(self.assets@, t.id@);
            }
        }
        let found = match &self.people_target {
            Some(t) => position_of(&self.assets, &t.id),
            None => None,
        };
        if let Some(p) = found {
            let a = self.assets[p].duplicate();
            self.people_target = Some(a);
        }
    }

    /// Record a page's delivery and rebuild the merged photos. Returns false,
    /// changing nothing, when no current page is watched under `id`.
    pub fn apply_asset_snapshot(&mut self, id: &str, snapshot: Snapshot) -> (r: bool)
        requires
            old(self).changes < u64::MAX,
        ensures
            r == (page_index(old(self).pages@, id@) >= 0),
            !r ==> *final(self) == *old(self),
            r ==> snapshot_applied(*old(self), *final(self), id@, snapshot),
    {
        let index = match self.find_page(id) {
            Some(i) => i,
            None => return false,
        };
        let Snapshot { total, items, people } = snapshot;
        let ghost before = self.pages@;
        let mut page = self.pages.remove(index);
        page.assets = items;
        page.pending = false;
        page.error = None;
        self.pages.insert(index, page);
        proof {
            assert forall|j: int| 0 <= j < before.len() && j != index implies #[trigger] self.pages@[j] == before[j] by {
                if j < index {
                } else {
                }
            }
        }
        if index == 0 {
            self.people = people;
        }
        self.total = total;
        self.loaded = self.loaded || index == 0;
        self.load_error = self.first_page_error();
        self.assets = merge_pages(&self.pages);
        self.refresh_people_target();
        self.changes = self.changes + 1;
        true
    }

    /// Record that a page failed. Returns false, changing nothing, when no
    /// current page is watched under `id`. Before the first page has landed
    /// the grid empties; afterwards the earlier results stay.
    pub fn fail_asset_page(&mut self, id: &str, error: &str) -> (r: bool)
        ensures
            r == (page_index(old(self).pages@, id@) >= 0),
            !r ==> *final(self) == *old(self),
            r ==> page_failed(*old(self), *final(self), id@, error@),
    {
        let index = match self.find_page(id) {
            Some(i) => i,
            None => return false,
        };
        let ghost before = self.pages@;
        let mut page = self.pages.remove(index);
        page.pending = false;
        page.error = Some(String::from_str(error));
        self.pages.insert(index, page);
        proof {
            assert forall|j: int| 0 <= j < before.len() && j != index implies #[trigger] self.pages@[j] == before[j] by {
                if j < index {
                } else {
                }
            }
        }
        self.load_error = Some(String::from_str(error));
        if !self.loaded {
            self.assets = Vec::new();
            self.total = 0;
        }
        true
    }

    /// The photo with this id, on the page or, failing that, the one the
    /// people view holds.
    pub fn people_asset(&self, id: &str) -> (r: Option<&Asset>)
        ensures
            ({
                let p = find_id_str(self.assets@, id@);
                match r {
                    Some(a) => if p >= 0 {
                        *a == self.assets@[p]
                    } else {
                        self.people_target matches Some(t) && t.id@ == id@ && *a == t
                    },
                    None => p < 0 && !(self.people_target matches Some(t) && t.id@ == id@),
                }
            }),
    {
        let mut i: usize = 0;
        while i < self.assets.len()
            invariant
                i <= self.assets.len(),
                forall|j: int| 0 <= j < i ==> self.assets@[j].id@ != id@,
            decreases self.assets.len() - i,
        {
            if str_is(self.assets[i].id.as_str(), id) {
                proof {
                    lemma_find_id(self.assets@, id@, i as int);
                }
                return Some(&self.assets[i]);
            }
            i = i + 1;
        }
        proof {
            lemma_find_id(self.assets@, id@, self.assets@.len() as int);
        }
        match &self.people_target {
            Some(t) => if str_is(t.id.as_str(), id) {
                Some(t)
            } else {
                None
            },
            None => None,
        }
    }
}

// ---------------------------------------------------------------------
// Thumbnails to fetch.

/// Where a person's avatar photo is fetched from: the avatar's own revision
/// and ticket when it has one, else the photo's entry on the page or the
/// map, if it is there.
pub open spec fn spec_avatar_source(assets: Seq<Asset>, map_assets: Seq<Asset>, av: PersonAvatar) -> Option<(u64, Option<String>)> {
    match av.revision {
        Some(r) => Some((r, av.thumbnail_url)),
        None => {
            let both = assets + map_assets;
            let p = find_id(both, av.asset_id@);
            if p >= 0 {
                Some((both[p].revision, both[p].thumbnail_url))
            } else {
                None
            }
        },
    }
}

/// The thumbnails the people list needs, person by person.
pub open spec fn portraits(assets: Seq<Asset>, map_assets: Seq<Asset>, ps: Seq<Person>) -> Seq<Wanted>
    decreases ps.len(),
{
    if ps.len() == 0 {
        Seq::empty()
    } else {
        let rest = portraits(assets, map_assets, ps.drop_last());
        match ps.last().avatar {
            Some(av) => match spec_avatar_source(assets, map_assets, av) {
                Some((r, u)) => rest.push((av.asset_id, r, u)),
                None => rest,
            },
            None => rest,
        }
    }
}

/// Whether `id` is among `w`.
pub open spec fn listed(w: Seq<String>, id: Seq<char>) -> bool {
    exists|i: int| 0 <= i < w.len() && w[i]@ == id
}

/// The photos of `s` that `w` lists, as thumbnails to fetch.
pub open spec fn wanted_of(s: Seq<Asset>, w: Seq<String>) -> Seq<Wanted>
    decreases s.len(),
{
    if s.len() == 0 {
        Seq::empty()
    } else {
        let rest = wanted_of(s.drop_last(), w);
        let a = s.last();
        if listed(w, a.id@) {
            rest.push((a.id, a.revision, a.thumbnail_url))
        } else {
            rest
        }
    }
}

/// The first position in `m` of a thumbnail for photo `id`, or -1.
pub open spec fn find_wanted(m: Seq<Wanted>, id: Seq<char>) -> int
    decreases m.len(),
{
    if m.len() == 0 {
        -1
    } else {
        let p = find_wanted(m.drop_last(), id);
        if p >= 0 {
            p
        } else if m.last().0@ == id {
            m.len() - 1
        } else {
            -1
        }
    }
}

/// One request per photo, at the first position it was asked for, with the
/// newest revision asked and, among equal revisions, the first with a
/// ticket.
pub open spec fn merge_wanted(s: Seq<Wanted>) -> Seq<Wanted>
    decreases s.len(),
{
    if s.len() == 0 {
        Seq::empty()
    } else {
        let m = merge_wanted(s.drop_last());
        let a = s.last();
        let p = find_wanted(m, a.0@);
        if p < 0 {
            m.push(a)
        } else if a.1 > m[p].1 || (a.1 == m[p].1 && m[p].2 is None) {
            m.update(p, a)
        } else {
            m
        }
    }
}

/// Every thumbnail the gallery wants: people's portraits always, the
/// photos near the viewport on the page and on the map while the cloud
/// gallery shows, and the people view's photo.
pub open spec fn spec_wanted_thumbnails(f: AssetFeed) -> Seq<Wanted> {
    let ps = match f.people {
        Some(p) => portraits(f.assets@, f.map_assets@, p.people@),
        None => Seq::empty(),
    };
    let page = if f.show {
        wanted_of(f.assets@, f.grid_wanted@) + wanted_of(f.map_assets@, f.map_wanted@)
    } else {
        Seq::empty()
    };
    let target = match f.people_target {
        Some(a) => seq![(a.id, a.revision, a.thumbnail_url)],
        None => Seq::empty(),
    };
    merge_wanted(ps + page + target)
}

proof fn lemma_find_wanted(m: Seq<Wanted>, id: Seq<char>, i: int)
    requires
        0 <= i <= m.len(),
        forall|j: int| 0 <= j < i ==> m[j].0@ != id,
        i < m.len() ==> m[i].0@ == id,
    ensures
        find_wanted(m, id) == (if i < m.len() { i } else { -1 }),
    decreases m.len(),
{
    if m.len() > 0 {
        let d = m.drop_last();
        if i < m.len() - 1 {
            lemma_find_wanted(d, id, i);
        } else {
            lemma_find_wanted(d, id, d.len() as int);
        }
    }
}

fn clone_wanted(w: &Wanted) -> (r: Wanted)
    ensures
        r == *w,
{
    (w.0.clone(), w.1, clone_string_opt(&w.2))
}

fn merge_wanted_into(m: &mut Vec<Wanted>, a: &Wanted)
    ensures
        final(m)@ == ({
            let p = find_wanted(old(m)@, a.0@);
            if p < 0 {
                old(m)@.push(*a)
            } else if a.1 > old(m)@[p].1 || (a.1 == old(m)@[p].1 && old(m)@[p].2 is None) {
                old(m)@.update(p, *a)
            } else {
                old(m)@
            }
        }),
{
    let mut i: usize = 0;
    let ghost orig = m@;
    while i < m.len()
        invariant
            i <= m.len(),
            m@ == orig,
            orig == old(m)@,
            forall|j: int| 0 <= j < i ==> m@[j].0@ != a.0@,
        decreases m.len() - i,
    {
        if m[i].0 == a.0 {
            proof {
                lemma_find_wanted(m@, a.0@, i as int);
            }
            if a.1 > m[i].1 || (a.1 == m[i].1 && m[i].2.is_none()) {
                m.set(i, clone_wanted(a));
            }
            return;
        }
        i = i + 1;
    }
    proof {
        lemma_find_wanted(m@, a.0@, m@.len() as int);
    }
    m.push(clone_wanted(a));
}

fn merge_wanted_vec(s: &Vec<Wanted>) -> (r: Vec<Wanted>)
    ensures
        r@ == merge_wanted(s@),
{
    let mut m: Vec<Wanted> = Vec::new();
    let mut i: usize = 0;
    assert(s@.take(0) =~= Seq::<Wanted>::empty());
    while i < s.len()
        invariant
            i <= s.len(),
            m@ == merge_wanted(s@.take(i as int)),
        decreases s.len() - i,
    {
        proof {
            assert(s@.take(i + 1).drop_last() =~= s@.take(i as int));
        }
        merge_wanted_into(&mut m, &s[i]);
        i = i + 1;
    }
    assert(s@.take(s@.len() as int) =~= s@);
    m
}

pub fn is_listed(w: &Vec<String>, id: &String) -> (r: bool)
    ensures
        r == listed(w@, id@),
{
    let mut i: usize = 0;
    while i < w.len()
        invariant
            i <= w.len(),
            forall|j: int| 0 <= j < i ==> w@[j]@ != id@,
        decreases w.len() - i,
    {
        if w[i] == *id {
            return true;
        }
        i = i + 1;
    }
    false
}

fn append_wanted_of(out: &mut Vec<Wanted>, s: &Vec<Asset>, w: &Vec<String>)
    ensures
        final(out)@ == old(out)@ + wanted_of(s@, w@),
{
    let mut i: usize = 0;
    let ghost start = out@;
    assert(s@.take(0) =~= Seq::<Asset>::empty());
    assert(start + Seq::<Wanted>::empty() =~= start);
    while i < s.len()
        invariant
            i <= s.len(),
            out@ == start + wanted_of(s@.take(i as int), w@),
        decreases s.len() - i,
    {
        proof {
            assert(s@.take(i + 1).drop_last() =~= s@.take(i as int));
        }
        let a = &s[i];
        if is_listed(w, &a.id) {
            out.push((a.id.clone(), a.revision, clone_string_opt(&a.thumbnail_url)));
            assert(out@ =~= start + wanted_of(s@.take(i + 1), w@));
        }
        i = i + 1;
    }
    assert(s@.take(s@.len() as int) =~= s@);
}

impl AssetFeed {
    /// Where a person's avatar photo is fetched from, if anywhere.
    pub fn avatar_source(&self, avatar: &PersonAvatar) -> (r: Option<(u64, Option<String>)>)
        ensures
            r == spec_avatar_source(self.assets@, self.map_assets@, *avatar),
    {
        if let Some(revision) = avatar.revision {
            return Some((revision, clone_string_opt(&avatar.thumbnail_url)));
        }
        let ghost both = self.assets@ + self.map_assets@;
        let mut i: usize = 0;
        while i < self.assets.len()
            invariant
                i <= self.assets.len(),
                both == self.assets@ + self.map_assets@,
                avatar.revision is None,
                forall|j: int| 0 <= j < i ==> both[j].id@ != avatar.asset_id@,
            decreases self.assets.len() - i,
        {
            assert(both[i as int] == self.assets@[i as int]);
            if self.assets[i].id == avatar.asset_id {
                proof {
                    assert forall|j: int| 0 <= j <= i implies both[j] == self.assets@[j] by {}
                    lemma_find_id(both, avatar.asset_id@, i as int);
                }
                return Some((self.assets[i].revision, clone_string_opt(&self.assets[i].thumbnail_url)));
            }
            i = i + 1;
        }
        let mut k: usize = 0;
        while k < self.map_assets.len()
            invariant
                k <= self.map_assets.len(),
                both == self.assets@ + self.map_assets@,
                avatar.revision is None,
                forall|j: int| 0 <= j < self.assets@.len() + k ==> both[j].id@ != avatar.asset_id@,
            decreases self.map_assets.len() - k,
        {
            assert(both[self.assets@.len() + k] == self.map_assets@[k as int]);
            if self.map_assets[k].id == avatar.asset_id {
                proof {
                    assert(both[self.assets@.len() + k] == self.map_assets@[k as int]);
                    lemma_find_id(both, avatar.asset_id@, self.assets@.len() + k);
                }
                return Some((self.map_assets[k].revision, clone_string_opt(&self.map_assets[k].thumbnail_url)));
            }
            k = k + 1;
        }
        proof {
            lemma_find_id(both, avatar.asset_id@, both.len() as int);
        }
        None
    }

    /// Every thumbnail to fetch, one per photo.
    pub fn wanted_thumbnails(&self) -> (r: Vec<Wanted>)
        ensures
            r@ == spec_wanted_thumbnails(*self),
    {
        let mut sources: Vec<Wanted> = Vec::new();
        if let Some(people) = &self.people {
            let ps = &people.people;
            let mut i: usize = 0;
            assert(ps@.take(0) =~= Seq::<Person>::empty());
            while i < ps.len()
                invariant
                    i <= ps.len(),
                    sources@ == portraits(self.assets@, self.map_assets@, ps@.take(i as int)),
                decreases ps.len() - i,
            {
                proof {
                    assert(ps@.take(i + 1).drop_last() =~= ps@.take(i as int));
                }
                if let Some(avatar) = &ps[i].avatar {
                    if let Some((revision, url)) = self.avatar_source(avatar) {
                        sources.push((avatar.asset_id.clone(), revision, url));
                    }
                }
                i = i + 1;
            }
            assert(ps@.take(ps@.len() as int) =~= ps@);
        }
        let ghost ps_part = sources@;
        if self.show {
            append_wanted_of(&mut sources, &self.assets, &self.grid_wanted);
            append_wanted_of(&mut sources, &self.map_assets, &self.map_wanted);
        }
        let ghost page_part = if self.show {
            wanted_of(self.assets@, self.grid_wanted@) + wanted_of(self.map_assets@, self.map_wanted@)
        } else {
            Seq::empty()
        };
        assert(sources@ =~= ps_part + page_part);
        if let Some(a) = &self.people_target {
            sources.push((a.id.clone(), a.revision, clone_string_opt(&a.thumbnail_url)));
        }
        let ghost target_part = match &self.people_target {
            Some(a) => seq![(a.id, a.revision, a.thumbnail_url)],
            None => Seq::empty(),
        };
        assert(sources@ =~= ps_part + page_part + target_part);
        merge_wanted_vec(&sources)
    }
}

/// `find_id` for a plain character sequence.
pub open spec fn find_id_str(m: Seq<Asset>, id: Seq<char>) -> int {
    find_id(m, id)
}

} // verus!
