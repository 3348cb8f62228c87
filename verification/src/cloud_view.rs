//! The cloud gallery as the workspace drives it: showing it, starting its
//! query over, loading the next page, and reporting errors.
use vstd::prelude::*;
use crate::assets::{AssetFeed, AssetPage, spec_next_offset};
use crate::workspace::{Workspace, PAGE_SIZE};

verus! {

/// The watches of `pages`, in order.
pub open spec fn page_watches(pages: Seq<AssetPage>) -> Seq<String> {
    pages.map_values(|p: AssetPage| p.watch)
}

impl Workspace {
    /// Show a cloud error in the status line and the cloud panel.
    pub fn cloud_error(&mut self, error: &str)
        ensures
            final(self).status@ == error@,
            final(self).cloud_message@ == error@,
            *final(self) == (Workspace { status: final(self).status, cloud_message: final(self).cloud_message, ..*old(self) }),
    {
        self.status = error.to_owned();
        self.cloud_message = error.to_owned();
    }

    /// Show or hide the cloud gallery, and the library with it. Showing
    /// it needs the cloud feature.
    pub fn cloud_set_visible(&mut self, visible: bool)
        ensures
            if visible && !old(self).cloud_enabled {
                *final(self) == *old(self)
            } else {
                *final(self) == (Workspace {
                    feed: AssetFeed { show: visible, ..old(self).feed },
                    library_open: visible,
                    ..*old(self)
                })
            },
    {
        if visible && !self.cloud_enabled {
            return;
        }
        self.feed.show = visible;
        self.library_open = visible;
    }

    /// Start the gallery's query again from its first page, watched under
    /// `watch` when connected, a page being `PAGE_SIZE` photos. `keep` leaves
    /// the old photos on screen until the new ones arrive. Returns the old
    /// pages' watches, for the connection to drop.
    pub fn cloud_watch_assets(&mut self, keep: bool, watch: String) -> (dropped: Vec<String>)
        ensures
            dropped@ == if old(self).cloud_client { page_watches(old(self).feed.pages@) } else { Seq::empty() },
            !final(self).feed.loaded,
            final(self).feed.load_error is None,
            final(self).feed.grid_wanted@.len() == 0,
            keep ==> final(self).feed.assets == old(self).feed.assets && final(self).feed.total == old(self).feed.total,
            !keep ==> final(self).feed.assets@.len() == 0 && final(self).feed.total == 0,
            if old(self).cloud_client {
                &&& final(self).feed.pages@.len() == 1
                &&& final(self).feed.pages@[0].watch == watch
                &&& final(self).feed.pages@[0].offset == 0
                &&& final(self).feed.pages@[0].pending
                &&& final(self).feed.pages@[0].assets@.len() == 0
                &&& final(self).feed.pages@[0].error is None
            } else {
                final(self).feed.pages@.len() == 0
            },
            *final(self) == (Workspace {
                feed: AssetFeed {
                    pages: final(self).feed.pages,
                    assets: final(self).feed.assets,
                    total: final(self).feed.total,
                    loaded: false,
                    load_error: None,
                    grid_wanted: final(self).feed.grid_wanted,
                    ..old(self).feed
                },
                query_limit: PAGE_SIZE,
                ..*old(self)
            }),
    {
        self.query_limit = PAGE_SIZE;
        self.feed.loaded = false;
        self.feed.load_error = None;
        self.feed.grid_wanted = Vec::new();
        if !keep {
            self.feed.assets = Vec::new();
            self.feed.total = 0;
        }
        let mut dropped: Vec<String> = Vec::new();
        if self.cloud_client {
            let mut i: usize = 0;
            while i < self.feed.pages.len()
                invariant
                    i <= self.feed.pages@.len(),
                    dropped@ == page_watches(self.feed.pages@).take(i as int),
                decreases self.feed.pages@.len() - i,
            {
                dropped.push(self.feed.pages[i].watch.clone());
                i = i + 1;
                assert(dropped@ =~= page_watches(self.feed.pages@).take(i as int));
            }
            assert(page_watches(self.feed.pages@).take(self.feed.pages@.len() as int) =~= page_watches(self.feed.pages@));
        }
        self.feed.pages = Vec::new();
        if self.cloud_client {
            self.feed.watch_page(watch, 0);
        }
        dropped
    }

    /// Load the gallery's next page, watched under `watch`, when the
    /// gallery is on show and connected and another page is wanted.
    /// Returns the offset the new page starts at.
    pub fn cloud_load_more(&mut self, watch: String) -> (r: Option<u64>)
        ensures
            if old(self).feed.show && old(self).documents.connected && old(self).cloud_client {
                r == spec_next_offset(old(self).feed)
            } else {
                r is None
            },
            match r {
                Some(offset) => {
                    &&& final(self).feed.pages@ == old(self).feed.pages@.push(final(self).feed.pages@.last())
                    &&& final(self).feed.pages@.last().watch == watch
                    &&& final(self).feed.pages@.last().offset == offset
                    &&& final(self).feed.pages@.last().pending
                    &&& final(self).feed.pages@.last().assets@.len() == 0
                    &&& final(self).feed.pages@.last().error is None
                    &&& *final(self) == (Workspace {
                        feed: AssetFeed { pages: final(self).feed.pages, ..old(self).feed },
                        ..*old(self)
                    })
                },
                None => *final(self) == *old(self),
            },
    {
        if !self.feed.show || !self.documents.connected || !self.cloud_client {
            return None;
        }
        match self.feed.next_asset_offset() {
            Some(offset) => {
                let ghost before = self.feed;
                self.feed.watch_page(watch, offset);
                assert(self.feed.pages@ =~= before.pages@.push(self.feed.pages@.last()));
                Some(offset)
            },
            None => None,
        }
    }
}

/// How many photos one page of a scan through a whole query asks for.
pub const SCAN_LIMIT: u64 = 500;

/// What a scan through every photo a query matches (the world map's, a
/// review's, a folder's) asks next, a page of `SCAN_LIMIT` at a time: the
/// page at `offset` came back with `got` photos out of `total`, and
/// `have` photos are gathered of at most `cap`. The offset of the next
/// page, or `None` once a page came back empty, the total is reached or
/// the cap is.
pub fn query_assets(offset: u64, got: u64, total: u64, have: usize, cap: usize) -> (next: Option<u64>)
    requires
        offset + got <= u64::MAX,
    ensures
        next == if got == 0 || offset + got >= total || have >= cap { None } else { Some((offset + got) as u64) },
{
    let after = offset + got;
    if got == 0 || after >= total || have >= cap {
        None
    } else {
        Some(after)
    }
}

} // verus!
