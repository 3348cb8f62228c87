//! Reviewing groups of similar photos: the review opening and closing,
//! and stepping through a group's candidates, each compared with the
//! group's first photo.
use vstd::prelude::*;
use crate::text::str_is;

verus! {

/// The review's state, as far as its keys and its opening decide
/// anything: whether it is open, whether a scan runs, how many photos were
/// scanned, each group's size, the group and candidate on show, and the
/// preview loading for them.
#[derive(Debug)]
pub struct SimilarReview {
    pub open: bool,
    pub running: bool,
    pub photos: usize,
    pub group_sizes: Vec<usize>,
    pub group: usize,
    pub candidate: usize,
    pub loading: bool,
    pub revision: u64,
}

/// What opening the review asks for.
#[derive(Clone, Copy, Debug, PartialEq, Eq, Structural)]
pub enum SimilarStep {
    /// Scan the library: nothing was scanned and no scan runs.
    Scan,
    /// Load the pair on show.
    LoadPair,
    /// A scan is running; wait for it.
    Wait,
}

/// A group holds at least the photo compared against and one candidate.
pub open spec fn groups_ok(sizes: Seq<usize>) -> bool {
    forall|g: int| 0 <= g < sizes.len() ==> #[trigger] sizes[g] >= 2
}

/// The candidate after the arrow: left steps back but not onto the first
/// photo, right steps on but not past the last.
pub open spec fn stepped(candidate: int, size: int, right: bool) -> int {
    if right {
        if candidate + 1 < size - 1 { candidate + 1 } else { size - 1 }
    } else {
        let back = if candidate > 0 { candidate - 1 } else { 0 };
        if back > 1 { back } else { 1 }
    }
}

impl SimilarReview {
    /// Nothing scanned, closed, on the first candidate.
    pub fn new() -> (r: SimilarReview)
        ensures
            !r.open,
            !r.running,
            r.photos == 0,
            r.group_sizes@.len() == 0,
            r.group == 0,
            r.candidate == 1,
            !r.loading,
            r.revision == 0,
    {
        SimilarReview {
            open: false,
            running: false,
            photos: 0,
            group_sizes: Vec::new(),
            group: 0,
            candidate: 1,
            loading: false,
            revision: 0,
        }
    }

    /// Open the review: scan when nothing was scanned and no scan runs,
    /// else show the pair on show unless a scan runs.
    pub fn open_review(&mut self) -> (step: SimilarStep)
        ensures
            final(self).open,
            step == if old(self).running {
                SimilarStep::Wait
            } else if old(self).photos == 0 {
                SimilarStep::Scan
            } else {
                SimilarStep::LoadPair
            },
            *final(self) == (SimilarReview { open: true, ..*old(self) }),
    {
        self.open = true;
        if self.running {
            SimilarStep::Wait
        } else if self.photos == 0 {
            SimilarStep::Scan
        } else {
            SimilarStep::LoadPair
        }
    }

    /// Close the review: whatever preview was loading is stale.
    pub fn close_review(&mut self)
        requires
            old(self).revision < u64::MAX,
        ensures
            *final(self) == (SimilarReview {
                open: false,
                loading: false,
                revision: (old(self).revision + 1) as u64,
                ..*old(self)
            }),
    {
        self.open = false;
        self.revision = self.revision + 1;
        self.loading = false;
    }

    /// A key in the open review, with the viewer or the search box not
    /// taking it. The arrows step through the group's candidates; the
    /// review's other keys are taken and do nothing here. Returns whether
    /// the key was taken, and whether the pair on show changed.
    pub fn review_key(&mut self, key: &str, viewer_open: bool, search_active: bool) -> (r: (bool, bool))
        requires
            groups_ok(old(self).group_sizes@),
        ensures
            ({
                let s = old(self);
                let arrow = key@ == "left"@ || key@ == "right"@;
                let other = key@ == "space"@ || key@ == "enter"@ || key@ == "delete"@ || key@ == "backspace"@
                    || key@ == "up"@ || key@ == "down"@;
                if !s.open || viewer_open || search_active || !(arrow || other) {
                    r == (false, false) && *final(self) == *s
                } else if arrow && s.group < s.group_sizes@.len() {
                    let next = stepped(s.candidate as int, s.group_sizes@[s.group as int] as int, key@ == "right"@);
                    &&& r == (true, next != s.candidate)
                    &&& *final(self) == (SimilarReview { candidate: next as usize, ..*s })
                } else {
                    r == (true, false) && *final(self) == *s
                }
            }),
    {
        if !self.open || viewer_open || search_active {
            return (false, false);
        }
        let left = str_is(key, "left");
        let right = str_is(key, "right");
        if left || right {
            if self.group < self.group_sizes.len() {
                let size = self.group_sizes[self.group];
                let next = if right {
                    if self.candidate < size - 1 && self.candidate + 1 < size - 1 {
                        self.candidate + 1
                    } else {
                        size - 1
                    }
                } else {
                    let back = if self.candidate > 0 {
                        self.candidate - 1
                    } else {
                        0
                    };
                    if back > 1 {
                        back
                    } else {
                        1
                    }
                };
                if next != self.candidate {
                    self.candidate = next;
                    return (true, true);
                }
            }
            return (true, false);
        }
        if str_is(key, "space") || str_is(key, "enter") || str_is(key, "delete") || str_is(key, "backspace")
            || str_is(key, "up") || str_is(key, "down") {
            return (true, false);
        }
        (false, false)
    }
}

/// Stepping right and then left, from a candidate that has a next one,
/// comes back to it.
pub proof fn lemma_right_then_left(candidate: int, size: int)
    requires
        1 <= candidate < size - 1,
    ensures
        stepped(stepped(candidate, size, true), size, false) == candidate,
{
}

/// The arrows keep the candidate within the group, never on the photo it
/// is compared with.
pub proof fn lemma_step_in_group(candidate: int, size: int, right: bool)
    requires
        size >= 2,
        0 <= candidate < size,
    ensures
        1 <= stepped(candidate, size, right) < size,
{
}

} // verus!
