//! Dialog fields: which one has the keyboard, its text, caret and
//! selection, the caret's blink, and Enter in a dialog. The caret and the
//! selection's anchor are byte positions in the field's UTF-8 text, as
//! `str::len` and string indices count them.
use vstd::prelude::*;
use crate::line_edit::{LineEdit, TextPress, min_usize, word_end, word_start};
use crate::metadata::{is_caption, spec_is_caption};
use crate::text::{byte_pos, byte_position, chars_of, chars_within, chars_within_bytes, str_is, utf8_fits, utf8_len};
use crate::workspace::{Workspace, elapsed_millis, now};

verus! {

/// The modifier keys held with a keystroke.
#[derive(Clone, Copy, Debug, PartialEq, Eq, Structural)]
pub struct Modifiers {
    pub shift: bool,
    pub control: bool,
    pub platform: bool,
    pub alt: bool,
    pub function: bool,
}

impl Default for Modifiers {
    /// No modifier held.
    fn default() -> (r: Modifiers)
        ensures
            r == (Modifiers { shift: false, control: false, platform: false, alt: false, function: false }),
    {
        Modifiers { shift: false, control: false, platform: false, alt: false, function: false }
    }
}

/// Whether `key` in a dialog whose focused field is `field` presses the
/// dialog's primary button: Enter does, except Shift+Enter (without ⌘ or
/// Ctrl) in a photo caption, which breaks the line.
pub open spec fn spec_enter_confirms(field: Option<Seq<char>>, key: Seq<char>, mods: Modifiers) -> bool {
    key == "enter"@ && !(field matches Some(f) && spec_is_caption(f) && mods.shift && !mods.platform
        && !mods.control)
}

pub fn modal_enter_confirms(field: Option<&str>, key: &str, mods: Modifiers) -> (r: bool)
    ensures
        r == spec_enter_confirms(
            match field {
                Some(f) => Some(f@),
                None => None,
            },
            key@,
            mods,
        ),
{
    if !str_is(key, "enter") {
        return false;
    }
    let caption = match field {
        Some(f) => is_caption(f),
        None => false,
    };
    !(caption && mods.shift && !mods.platform && !mods.control)
}

/// Whether the caret shows `ms` milliseconds after the last keystroke:
/// solid for the first beat, then on and off in 530 ms beats.
pub open spec fn caret_beat_on(ms: u128) -> bool {
    (ms / 530) % 2 == 0
}

/// Whether carets show, given the time since the last keystroke; with no
/// keystroke to count from they stay solid.
pub fn caret_on_at(elapsed: Option<u128>) -> (r: bool)
    ensures
        r == match elapsed {
            Some(ms) => caret_beat_on(ms),
            None => true,
        },
{
    match elapsed {
        Some(ms) => (ms / 530) % 2 == 0,
        None => true,
    }
}

/// The caret blinks in 530 ms beats: solid for the first beat after a
/// keystroke, hidden for the next, and so on, twice a 1060 ms period. The
/// blinker's wait always ends 5 ms into the next beat.
pub proof fn lemma_caret_blinks(ms: u128)
    ensures
        ms < 530 ==> caret_beat_on(ms),
        530 <= ms < 1060 ==> !caret_beat_on(ms),
        ms + 1060 <= u128::MAX ==> caret_beat_on((ms + 1060) as u128) == caret_beat_on(ms),
        ms + 530 <= u128::MAX ==> caret_beat_on((ms + 530) as u128) != caret_beat_on(ms),
        ms <= u64::MAX ==> (ms as u64) % 530 + spec_blink_wait(Some(ms)) == 535,
        spec_blink_wait(None) == 535,
{
    if ms + 1060 <= u128::MAX {
        assert((ms + 1060) / 530 == ms / 530 + 2);
    }
    if ms + 530 <= u128::MAX {
        assert((ms + 530) / 530 == ms / 530 + 1);
    }
}

/// How long the caret blinker waits, given the time since the last
/// keystroke: a hair past the next beat, so that the repaint lands on the
/// caret's other state rather than on the boundary.
pub open spec fn spec_blink_wait(elapsed: Option<u128>) -> u64 {
    let into = match elapsed {
        Some(ms) => (ms as u64) % 530,
        None => 0,
    };
    (530 - into + 5) as u64
}

pub fn blink_wait(elapsed: Option<u128>) -> (r: u64)
    ensures
        r == spec_blink_wait(elapsed),
        5 < r <= 535,
{
    let into: u64 = match elapsed {
        Some(ms) => (ms as u64) % 530,
        None => 0,
    };
    530 - into + 5
}

/// Where a press lands in text `s` whose selection is anchored at `anchor`:
/// the new caret and anchor. One click places the caret (with Shift it
/// drags the selection), two take the word under it, three the lot.
pub open spec fn press_result(s: Seq<char>, anchor: int, press: TextPress) -> (int, int) {
    let at = min_usize(press.offset as int, s.len() as int);
    if press.clicks >= 3 {
        (s.len() as int, 0)
    } else if press.clicks == 2 {
        (word_end(s, at), word_start(s, at))
    } else if press.shift {
        (at, anchor)
    } else {
        (at, at)
    }
}

impl Workspace {
    /// A keystroke or a focus: the caret shows solid from here.
    pub fn reset_caret_phase(&mut self)
        ensures
            final(self).caret_phase is Some,
            *final(self) == (Workspace { caret_phase: final(self).caret_phase, ..*old(self) }),
    {
        self.caret_phase = Some(now());
    }

    /// Whether carets are on at this instant of the blink. The time since
    /// the last keystroke is read from the clock; what is made of it is
    /// `caret_on_at`.
    pub fn caret_on(&self) -> (r: bool)
        ensures
            self.caret_phase is None ==> r,
    {
        match &self.caret_phase {
            Some(phase) => caret_on_at(Some(elapsed_millis(phase))),
            None => caret_on_at(None),
        }
    }

    /// Whether anything shows a caret: a dialog field, the dropdown's
    /// search, the spotlight, the gallery search, a rename, a note, the AI
    /// prompt.
    pub fn caret_somewhere(&self) -> (r: bool)
        ensures
            r == (self.chrome.spotlight_open || self.chrome.dropdown_search.active || self.focused_field is Some
                || self.chrome.gallery_search_active || self.chrome.layer_rename || self.chrome.note_edit
                || self.chrome.ai_input_active),
    {
        self.chrome.spotlight_open || self.chrome.dropdown_search.active || self.focused_field.is_some()
            || self.chrome.gallery_search_active || self.chrome.layer_rename || self.chrome.note_edit
            || self.chrome.ai_input_active
    }

    /// The blinker's next wait, while anything shows a caret; none when
    /// nothing does, and the blinker retires. The time since the last
    /// keystroke is read from the clock.
    pub fn caret_blink_wait(&self) -> (r: Option<u64>)
        ensures
            r is Some == (self.chrome.spotlight_open || self.chrome.dropdown_search.active || self.focused_field is Some
                || self.chrome.gallery_search_active || self.chrome.layer_rename || self.chrome.note_edit
                || self.chrome.ai_input_active),
            self.caret_phase is None && r is Some ==> r == Some(535u64),
            r matches Some(w) ==> 5 < w <= 535,
    {
        if !self.caret_somewhere() {
            return None;
        }
        match &self.caret_phase {
            Some(phase) => Some(blink_wait(Some(elapsed_millis(phase)))),
            None => Some(blink_wait(None)),
        }
    }

    /// Give field `id` the keyboard, seeded with the text it shows, the
    /// caret at its end (its byte length).
    pub fn focus_field(&mut self, id: &str, current: &str)
        ensures
            final(self).focused_field matches Some(f) && f@ == id@,
            final(self).field_buffer@ == current@,
            final(self).field_cursor == utf8_len(current@),
            final(self).field_anchor == utf8_len(current@),
            final(self).caret_phase is Some,
            *final(self) == (Workspace {
                focused_field: final(self).focused_field,
                field_buffer: final(self).field_buffer,
                field_cursor: final(self).field_cursor,
                field_anchor: final(self).field_anchor,
                field_fresh: true,
                caret_phase: final(self).caret_phase,
                ..*old(self)
            }),
    {
        utf8_fits(current);
        let len = current.len();
        self.focused_field = Some(id.to_owned());
        self.field_buffer = current.to_owned();
        self.field_cursor = len;
        self.field_anchor = len;
        self.field_fresh = true;
        self.reset_caret_phase();
    }

    /// What is selected in the focused field, low end first; empty when
    /// nothing is. Offsets are byte positions, the caret and the anchor
    /// each kept within the text's byte length.
    pub fn field_selection(&self) -> (r: std::ops::Range<usize>)
        ensures
            ({
                let n = utf8_len(self.field_buffer@);
                let c = min_usize(self.field_cursor as int, n);
                let a = min_usize(self.field_anchor as int, n);
                &&& r.start == min_usize(c, a)
                &&& r.end == if c <= a { a } else { c }
            }),
    {
        utf8_fits(self.field_buffer.as_str());
        let len = self.field_buffer.as_str().len();
        let c = if self.field_cursor < len {
            self.field_cursor
        } else {
            len
        };
        let a = if self.field_anchor < len {
            self.field_anchor
        } else {
            len
        };
        if c <= a {
            c..a
        } else {
            a..c
        }
    }

    /// Whether field `id` has the keyboard.
    fn is_focused(&self, id: &str) -> (r: bool)
        ensures
            r == (self.focused_field matches Some(f) && f@ == id@),
    {
        match &self.focused_field {
            Some(f) => str_is(f.as_str(), id),
            None => false,
        }
    }

    /// A press in field `id`: it takes the keyboard if it did not have it,
    /// seeded with `current`, and the caret lands where the press did.
    /// The press's offset and the anchor are byte positions; each stands
    /// for the whole characters before it, the press acts on characters
    /// (see `press_result`), and the caret and anchor it leaves are the
    /// byte positions of the characters it lands on.
    pub fn press_field(&mut self, id: &str, current: &str, press: &TextPress)
        ensures
            ({
                let refocus = !(old(self).focused_field matches Some(f) && f@ == id@);
                let s = if refocus { current@ } else { old(self).field_buffer@ };
                let anchor = if refocus { utf8_len(current@) } else {
                    min_usize(old(self).field_anchor as int, utf8_len(s))
                };
                let p = TextPress { offset: chars_within(s, press.offset as int) as usize, ..*press };
                let (c, a) = press_result(s, chars_within(s, anchor), p);
                &&& final(self).focused_field matches Some(f) && f@ == id@
                &&& final(self).field_buffer@ == s
                &&& final(self).field_cursor == byte_pos(s, c)
                &&& final(self).field_anchor == byte_pos(s, a)
                &&& final(self).field_fresh == (refocus || old(self).field_fresh)
                &&& final(self).caret_phase is Some
                &&& *final(self) == (Workspace {
                    focused_field: final(self).focused_field,
                    field_buffer: final(self).field_buffer,
                    field_cursor: final(self).field_cursor,
                    field_anchor: final(self).field_anchor,
                    field_fresh: final(self).field_fresh,
                    caret_phase: final(self).caret_phase,
                    ..*old(self)
                })
            }),
    {
        if !self.is_focused(id) {
            self.focus_field(id, current);
        }
        utf8_fits(self.field_buffer.as_str());
        let len = self.field_buffer.as_str().len();
        let anchor_b = if self.field_anchor < len {
            self.field_anchor
        } else {
            len
        };
        let anchor = chars_within_bytes(self.field_buffer.as_str(), anchor_b);
        let at = chars_within_bytes(self.field_buffer.as_str(), press.offset);
        let text = chars_of(self.field_buffer.as_str());
        let mut edit = LineEdit { text, cursor: anchor, anchor, active: true };
        edit.press(&TextPress { offset: at, clicks: press.clicks, shift: press.shift });
        let cursor = byte_position(self.field_buffer.as_str(), edit.cursor);
        let anchor = byte_position(self.field_buffer.as_str(), edit.anchor);
        self.field_cursor = cursor;
        self.field_anchor = anchor;
        self.reset_caret_phase();
    }

    /// The pointer dragging across field `id`: the selection follows it
    /// to byte position `offset`, kept within the text's byte length.
    /// Nothing happens unless the field has the keyboard.
    pub fn drag_field(&mut self, id: &str, offset: usize)
        ensures
            if old(self).focused_field matches Some(f) && f@ == id@ {
                let len = utf8_len(old(self).field_buffer@);
                &&& final(self).field_cursor == min_usize(offset as int, len)
                &&& final(self).field_anchor == min_usize(old(self).field_anchor as int, len)
                &&& final(self).caret_phase is Some
                &&& *final(self) == (Workspace {
                    field_cursor: final(self).field_cursor,
                    field_anchor: final(self).field_anchor,
                    caret_phase: final(self).caret_phase,
                    ..*old(self)
                })
            } else {
                *final(self) == *old(self)
            },
    {
        if !self.is_focused(id) {
            return;
        }
        utf8_fits(self.field_buffer.as_str());
        let len = self.field_buffer.as_str().len();
        let anchor = if self.field_anchor < len {
            self.field_anchor
        } else {
            len
        };
        let cursor = if offset < len {
            offset
        } else {
            len
        };
        self.field_cursor = cursor;
        self.field_anchor = anchor;
        self.reset_caret_phase();
    }
}

} // verus!
