//! A one-line text box's text, caret and selection. Offsets count
//! characters; the selection runs between the anchor and the caret.
use vstd::prelude::*;
use crate::text::is_whitespace;
use crate::text::is_ws;

verus! {

/// A press in a text box: where, how many clicks in a row, and whether
/// Shift was held.
#[derive(Clone, Copy, Debug, PartialEq, Eq)]
pub struct TextPress {
    pub offset: usize,
    pub clicks: u32,
    pub shift: bool,
}

/// A text box's editable state.
#[derive(Debug)]
pub struct LineEdit {
    pub text: Vec<char>,
    pub cursor: usize,
    pub anchor: usize,
    pub active: bool,
}

pub open spec fn min_usize(a: int, b: int) -> int {
    if a <= b { a } else { b }
}

/// Where a word that holds position `i` of `s` starts: words are runs of
/// characters other than white space.
pub open spec fn word_start(s: Seq<char>, i: int) -> int
    decreases i,
{
    if i <= 0 {
        0
    } else if is_ws(s[i - 1]) {
        i
    } else {
        word_start(s, i - 1)
    }
}

/// Where the word that holds position `i` of `s` ends.
pub open spec fn word_end(s: Seq<char>, i: int) -> int
    decreases s.len() - i,
{
    if i >= s.len() {
        s.len() as int
    } else if is_ws(s[i]) {
        i
    } else {
        word_end(s, i + 1)
    }
}

/// The word a double click selects: every character of it is not white
/// space, and it runs as far as it can, up to white space or an end of
/// the text on either side.
pub proof fn lemma_word_bounds(s: Seq<char>, i: int)
    requires
        0 <= i <= s.len(),
    ensures
        0 <= word_start(s, i) <= i <= word_end(s, i) <= s.len(),
        forall|k: int| word_start(s, i) <= k < word_end(s, i) ==> !is_ws(#[trigger] s[k]),
        word_start(s, i) > 0 ==> is_ws(s[word_start(s, i) - 1]),
        word_end(s, i) < s.len() ==> is_ws(s[word_end(s, i)]),
    decreases s.len() + 1 - i,
{
    lemma_word_start_range(s, i);
    lemma_word_end_range(s, i);
    lemma_word_start_facts(s, i);
    lemma_word_end_facts(s, i);
}

proof fn lemma_word_start_facts(s: Seq<char>, i: int)
    requires
        0 <= i <= s.len(),
    ensures
        forall|k: int| word_start(s, i) <= k < i ==> !is_ws(#[trigger] s[k]),
        word_start(s, i) > 0 ==> is_ws(s[word_start(s, i) - 1]),
    decreases i,
{
    if i > 0 && !is_ws(s[i - 1]) {
        lemma_word_start_facts(s, i - 1);
    }
}

proof fn lemma_word_end_facts(s: Seq<char>, i: int)
    requires
        0 <= i <= s.len(),
    ensures
        forall|k: int| i <= k < word_end(s, i) ==> !is_ws(#[trigger] s[k]),
        word_end(s, i) < s.len() ==> is_ws(s[word_end(s, i)]),
    decreases s.len() - i,
{
    if i < s.len() && !is_ws(s[i]) {
        lemma_word_end_facts(s, i + 1);
    }
}

proof fn lemma_word_start_range(s: Seq<char>, i: int)
    requires
        0 <= i <= s.len(),
    ensures
        0 <= word_start(s, i) <= i,
    decreases i,
{
    if i > 0 && !is_ws(s[i - 1]) {
        lemma_word_start_range(s, i - 1);
    }
}

proof fn lemma_word_end_range(s: Seq<char>, i: int)
    requires
        0 <= i <= s.len(),
    ensures
        i <= word_end(s, i) <= s.len(),
    decreases s.len() - i,
{
    if i < s.len() && !is_ws(s[i]) {
        lemma_word_end_range(s, i + 1);
    }
}

impl LineEdit {
    /// A valid caret and anchor lie within the text.
    pub open spec fn wf(&self) -> bool {
        self.cursor <= self.text@.len() && self.anchor <= self.text@.len()
    }

    /// An empty, inactive box.
    pub fn new() -> (r: LineEdit)
        ensures
            r.text@.len() == 0,
            r.cursor == 0,
            r.anchor == 0,
            !r.active,
    {
        LineEdit { text: Vec::new(), cursor: 0, anchor: 0, active: false }
    }

    /// Put the caret at `to`, keeping the anchor when `extend`.
    pub fn move_caret(&mut self, to: usize, extend: bool)
        requires
            old(self).wf(),
        ensures
            final(self).wf(),
            final(self).text == old(self).text,
            final(self).active == old(self).active,
            final(self).cursor == min_usize(to as int, old(self).text@.len() as int),
            final(self).anchor == if extend { old(self).anchor as int } else { final(self).cursor as int },
    {
        let to = if to < self.text.len() {
            to
        } else {
            self.text.len()
        };
        self.cursor = to;
        if !extend {
            self.anchor = to;
        }
    }

    /// Put the caret at `to` with nothing selected.
    pub fn place_caret(&mut self, to: usize)
        requires
            old(self).wf(),
        ensures
            final(self).wf(),
            final(self).text == old(self).text,
            final(self).active == old(self).active,
            final(self).cursor == min_usize(to as int, old(self).text@.len() as int),
            final(self).anchor == final(self).cursor,
    {
        self.move_caret(to, false);
    }

    /// The selection follows a drag to `to`.
    pub fn extend_to(&mut self, to: usize)
        requires
            old(self).wf(),
        ensures
            final(self).wf(),
            final(self).text == old(self).text,
            final(self).active == old(self).active,
            final(self).cursor == min_usize(to as int, old(self).text@.len() as int),
            final(self).anchor == old(self).anchor,
    {
        self.move_caret(to, true);
    }

    /// Select the whole text.
    pub fn select_all(&mut self)
        requires
            old(self).wf(),
        ensures
            final(self).wf(),
            final(self).text == old(self).text,
            final(self).active == old(self).active,
            final(self).anchor == 0,
            final(self).cursor == old(self).text@.len(),
    {
        self.anchor = 0;
        self.cursor = self.text.len();
    }

    /// A press: one click places the caret (or, with Shift, extends the
    /// selection), two select the word under it, three the whole text.
    pub fn press(&mut self, press: &TextPress)
        requires
            old(self).wf(),
        ensures
            final(self).wf(),
            final(self).text == old(self).text,
            final(self).active == old(self).active,
            ({
                let s = old(self).text@;
                let at = min_usize(press.offset as int, s.len() as int);
                if press.clicks >= 3 {
                    final(self).anchor == 0 && final(self).cursor == s.len()
                } else if press.clicks == 2 {
                    final(self).anchor == word_start(s, at) && final(self).cursor == word_end(s, at)
                } else if press.shift {
                    final(self).cursor == at && final(self).anchor == old(self).anchor
                } else {
                    final(self).cursor == at && final(self).anchor == at
                }
            }),
    {
        let len = self.text.len();
        let at = if press.offset < len {
            press.offset
        } else {
            len
        };
        if press.clicks >= 3 {
            self.select_all();
        } else if press.clicks == 2 {
            let mut start = at;
            proof {
                lemma_word_start_range(self.text@, at as int);
            }
            while start > 0 && !is_whitespace(self.text[start - 1])
                invariant
                    start <= at <= len,
                    len == self.text@.len(),
                    word_start(self.text@, start as int) == word_start(self.text@, at as int),
                decreases start,
            {
                start = start - 1;
            }
            let mut end = at;
            while end < len && !is_whitespace(self.text[end])
                invariant
                    at <= end <= len,
                    len == self.text@.len(),
                    word_end(self.text@, end as int) == word_end(self.text@, at as int),
                decreases len - end,
            {
                end = end + 1;
            }
            self.anchor = start;
            self.cursor = end;
        } else if press.shift {
            self.cursor = at;
        } else {
            self.cursor = at;
            self.anchor = at;
        }
    }

    /// The selection, low end first.
    pub fn selection(&self) -> (r: (usize, usize))
        ensures
            ({
                let c = min_usize(self.cursor as int, self.text@.len() as int);
                let a = min_usize(self.anchor as int, self.text@.len() as int);
                &&& r.0 == min_usize(c, a)
                &&& r.1 == if c <= a { a } else { c }
            }),
    {
        let len = self.text.len();
        let c = if self.cursor < len {
            self.cursor
        } else {
            len
        };
        let a = if self.anchor < len {
            self.anchor
        } else {
            len
        };
        if c <= a {
            (c, a)
        } else {
            (a, c)
        }
    }

    /// Delete what is selected; false, changing nothing, when nothing is.
    pub fn delete_selection(&mut self) -> (r: bool)
        requires
            old(self).wf(),
        ensures
            final(self).wf(),
            final(self).active == old(self).active,
            ({
                let (lo, hi) = if old(self).cursor <= old(self).anchor {
                    (old(self).cursor as int, old(self).anchor as int)
                } else {
                    (old(self).anchor as int, old(self).cursor as int)
                };
                &&& r == (lo < hi)
                &&& !r ==> final(self).text == old(self).text && final(self).cursor == old(self).cursor
                    && final(self).anchor == old(self).anchor
                &&& r ==> final(self).text@ == old(self).text@.subrange(0, lo) + old(self).text@.subrange(hi, old(self).text@.len() as int)
                    && final(self).cursor == lo && final(self).anchor == lo
            }),
    {
        let (lo, hi) = self.selection();
        if lo == hi {
            return false;
        }
        let mut out: Vec<char> = Vec::new();
        let mut i: usize = 0;
        while i < lo
            invariant
                i <= lo < hi <= self.text@.len(),
                out@ == self.text@.subrange(0, i as int),
            decreases lo - i,
        {
            out.push(self.text[i]);
            i = i + 1;
            assert(out@ =~= self.text@.subrange(0, i as int));
        }
        let mut j: usize = hi;
        while j < self.text.len()
            invariant
                lo < hi <= j <= self.text@.len(),
                out@ == self.text@.subrange(0, lo as int) + self.text@.subrange(hi as int, j as int),
            decreases self.text@.len() - j,
        {
            out.push(self.text[j]);
            j = j + 1;
            assert(out@ =~= self.text@.subrange(0, lo as int) + self.text@.subrange(hi as int, j as int));
        }
        self.text = out;
        self.cursor = lo;
        self.anchor = lo;
        true
    }

    /// Type `t` over the selection, or at the caret when nothing is
    /// selected; the caret ends after it.
    pub fn insert(&mut self, t: &[char])
        requires
            old(self).wf(),
        ensures
            final(self).wf(),
            final(self).active == old(self).active,
            ({
                let (lo, hi) = if old(self).cursor <= old(self).anchor {
                    (old(self).cursor as int, old(self).anchor as int)
                } else {
                    (old(self).anchor as int, old(self).cursor as int)
                };
                &&& final(self).text@ == old(self).text@.subrange(0, lo) + t@ + old(self).text@.subrange(hi, old(self).text@.len() as int)
                &&& final(self).cursor == lo + t@.len()
                &&& final(self).anchor == final(self).cursor
            }),
    {
        let ghost s0 = self.text@;
        let (lo, hi) = self.selection();
        let deleted = self.delete_selection();
        assert(!deleted ==> self.text@ =~= s0.subrange(0, lo as int) + s0.subrange(hi as int, s0.len() as int));
        let mut out: Vec<char> = Vec::new();
        let mut i: usize = 0;
        while i < lo
            invariant
                i <= lo <= self.text@.len(),
                out@ == self.text@.subrange(0, i as int),
            decreases lo - i,
        {
            out.push(self.text[i]);
            i = i + 1;
            assert(out@ =~= self.text@.subrange(0, i as int));
        }
        let mut k: usize = 0;
        while k < t.len()
            invariant
                k <= t@.len(),
                lo <= self.text@.len(),
                out@ == self.text@.subrange(0, lo as int) + t@.subrange(0, k as int),
            decreases t@.len() - k,
        {
            out.push(t[k]);
            k = k + 1;
            assert(out@ =~= self.text@.subrange(0, lo as int) + t@.subrange(0, k as int));
        }
        assert(out@.len() == lo + t@.len());
        let n = out.len();
        let mut j: usize = lo;
        while j < self.text.len()
            invariant
                lo <= j <= self.text@.len(),
                out@ == self.text@.subrange(0, lo as int) + t@ + self.text@.subrange(lo as int, j as int),
            decreases self.text@.len() - j,
        {
            out.push(self.text[j]);
            j = j + 1;
            assert(out@ =~= self.text@.subrange(0, lo as int) + t@ + self.text@.subrange(lo as int, j as int));
        }
        proof {
            assert(t@.subrange(0, t@.len() as int) =~= t@);
            let s1 = self.text@;
            assert(s1.subrange(0, lo as int) =~= s0.subrange(0, lo as int));
            assert(s1.subrange(lo as int, s1.len() as int) =~= s0.subrange(hi as int, s0.len() as int));
        }
        self.text = out;
        self.cursor = n;
        self.anchor = n;
    }
}

} // verus!
