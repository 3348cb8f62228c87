//! What an export run reports: how many files were written and failed,
//! and the first error, over the outputs of one source and over the
//! sources of a run.
use vstd::prelude::*;

verus! {

/// The tally of an export.
#[derive(Debug, PartialEq)]
pub struct Report {
    pub written: usize,
    pub failed: usize,
    pub error: Option<String>,
}

impl Report {
    /// Nothing written, nothing failed.
    pub fn new() -> (r: Report)
        ensures
            r == (Report { written: 0, failed: 0, error: None }),
    {
        Report { written: 0, failed: 0, error: None }
    }

    /// One file was written.
    pub fn wrote(&mut self)
        requires
            old(self).written < usize::MAX,
        ensures
            *final(self) == (Report { written: (old(self).written + 1) as usize, ..*old(self) }),
    {
        self.written = self.written + 1;
    }

    /// One file failed; the first error is the one reported.
    pub fn fail(&mut self, error: String)
        requires
            old(self).failed < usize::MAX,
        ensures
            *final(self) == (Report {
                failed: (old(self).failed + 1) as usize,
                error: if old(self).error is Some { old(self).error } else { Some(error) },
                ..*old(self)
            }),
    {
        self.failed = self.failed + 1;
        if self.error.is_none() {
            self.error = Some(error);
        }
    }

    /// Take in the report of one more source of the run: the counts add
    /// up, and the run keeps its first error.
    pub fn absorb(&mut self, other: Report)
        requires
            old(self).written + other.written <= usize::MAX,
            old(self).failed + other.failed <= usize::MAX,
        ensures
            *final(self) == (Report {
                written: (old(self).written + other.written) as usize,
                failed: (old(self).failed + other.failed) as usize,
                error: if old(self).error is Some { old(self).error } else { other.error },
            }),
    {
        self.written = self.written + other.written;
        self.failed = self.failed + other.failed;
        if self.error.is_none() {
            self.error = other.error;
        }
    }
}

} // verus!
