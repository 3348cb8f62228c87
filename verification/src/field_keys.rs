//! A key pressed in the focused dialog field. Text fields edit like any
//! one-line box (with the clipboard, caret keys and a selection); the
//! colour picker's hex field and the numeric fields keep their own rules,
//! whose verdicts the caller hands in. The caret and anchor stay UTF-8
//! byte positions; the editing itself is on whole characters, a position
//! inside a character's encoding counting as that character's start.
use vstd::prelude::*;
use crate::field_commit::{field_committed, field_value_committed, recipe_field_ok};
use crate::fields::Modifiers;
use crate::line_edit::{LineEdit, min_usize};
use crate::metadata::{is_caption, spec_is_caption};
use crate::text::{
    byte_pos, byte_position, chars_of, chars_within, chars_within_bytes, has_prefix, str_is, str_starts_with,
    string_of, utf8_fits, utf8_len,
};
use crate::workspace::Workspace;

verus! {

/// Whether field `id` takes any printable text, with a caret and a
/// selection: the names, the bucket search, and every metadata, recipe and
/// cloud field. (The palette search and the file picker's name are text
/// fields too, but are not among the dialogs this library holds.)
pub open spec fn spec_textual(id: Seq<char>) -> bool {
    id == "spot-name"@ || id == "layer-name"@ || id == "brush-preset-name"@ || id == "recorded-action-name"@
        || id == "workspace-name"@ || id == "new-doc-name"@ || id == "bucket-name"@ || id == "bucket-query"@
        || id == "variant-name"@ || id == "face-name"@ || id == "person-name"@ || has_prefix(id, "metadata-"@)
        || has_prefix(id, "recipe-"@) || has_prefix(id, "cloud-"@)
}

fn textual(id: &str) -> (r: bool)
    ensures
        r == spec_textual(id@),
{
    str_is(id, "spot-name") || str_is(id, "layer-name") || str_is(id, "brush-preset-name") || str_is(
        id,
        "recorded-action-name",
    ) || str_is(id, "workspace-name") || str_is(id, "new-doc-name") || str_is(id, "bucket-name") || str_is(
        id,
        "bucket-query",
    ) || str_is(id, "variant-name") || str_is(id, "face-name") || str_is(id, "person-name")
        || str_starts_with(id, "metadata-") || str_starts_with(id, "recipe-") || str_starts_with(id, "cloud-")
}

/// A control character (Unicode's Cc), as `char::is_control` has it.
pub open spec fn spec_is_control(c: char) -> bool {
    c <= '\u{1f}' || ('\u{7f}' <= c && c <= '\u{9f}')
}

fn is_control(c: char) -> (r: bool)
    ensures
        r == spec_is_control(c),
{
    c <= '\u{1f}' || ('\u{7f}' <= c && c <= '\u{9f}')
}

/// Typed text a field can take: something, and no control character.
pub open spec fn clean_text(t: Seq<char>) -> bool {
    t.len() > 0 && forall|i: int| 0 <= i < t.len() ==> !spec_is_control(#[trigger] t[i])
}

/// Pasted text made one line: each control character becomes a space,
/// except the line breaks a caption keeps.
pub open spec fn one_line(t: Seq<char>, caption: bool) -> Seq<char> {
    t.map_values(|c: char| if spec_is_control(c) && !(caption && c == '\n') { ' ' } else { c })
}

/// What a key in a focused field comes to.
#[derive(Clone, Copy, Debug, PartialEq, Eq, Structural)]
pub enum KeyKind {
    /// Not for the field: handed on, the field's fresh mark back as it was.
    Command,
    /// Not taken, the field's fresh mark gone.
    Refused,
    /// Taken with nothing else changed: a copy, or a paste of nothing.
    Taken,
    /// The caret or the selection moves.
    Caret,
    /// The text changes as a text box's does, and is applied.
    Edit,
    /// The text becomes another, the caret left where it was, and is applied.
    Replace,
    /// The field lets go of the keyboard and of its text.
    Escape,
    /// The field's text is committed and the field lets go.
    Commit,
}

/// Which keys, with ⌘ or Ctrl, a field still reads.
pub open spec fn field_chord(key: Seq<char>) -> bool {
    key == "a"@ || key == "c"@ || key == "x"@ || key == "v"@ || key == "left"@ || key == "right"@
}

/// What key `key`, typing `text`, comes to in field `id` whose selection is
/// empty or not (`selected`); `pasted` is whether the clipboard held text,
/// `hex` whether the hex field takes the typing, `numeric` whether a numeric
/// field does.
#[verifier::opaque]
pub open spec fn key_kind(
    id: Seq<char>,
    key: Seq<char>,
    text: Option<Seq<char>>,
    mods: Modifiers,
    selected: bool,
    pasted: bool,
    hex: bool,
    numeric: bool,
) -> KeyKind {
    let primary = mods.platform || mods.control;
    let t = spec_textual(id);
    if primary && !field_chord(key) {
        KeyKind::Command
    } else if (key == "c"@ || key == "x"@) && t && primary && selected {
        if key == "c"@ { KeyKind::Taken } else { KeyKind::Edit }
    } else if key == "v"@ && t && primary {
        if pasted { KeyKind::Edit } else { KeyKind::Taken }
    } else if (key == "a"@ || key == "left"@ || key == "right"@ || key == "home"@ || key == "up"@ || key
        == "end"@ || key == "down"@) && t && (primary || key != "a"@) {
        KeyKind::Caret
    } else if (key == "space"@ || key == "backspace"@ || key == "delete"@) && t {
        KeyKind::Edit
    } else if key == "backspace"@ {
        KeyKind::Replace
    } else if key == "escape"@ {
        KeyKind::Escape
    } else if key == "enter"@ && spec_is_caption(id) && mods.shift {
        KeyKind::Edit
    } else if key == "enter"@ || key == "tab"@ {
        KeyKind::Commit
    } else if id == "cp-hex"@ {
        if hex { KeyKind::Replace } else { KeyKind::Refused }
    } else if text matches Some(x) && clean_text(x) && (t || numeric) {
        if t { KeyKind::Edit } else { KeyKind::Replace }
    } else {
        KeyKind::Refused
    }
}

/// Text `s` with `t` typed over the selection between `c` and `a`.
pub open spec fn typed(s: Seq<char>, c: int, a: int, t: Seq<char>) -> (Seq<char>, int, int) {
    let lo = min_usize(c, a);
    let hi = if c <= a { a } else { c };
    (s.subrange(0, lo) + t + s.subrange(hi, s.len() as int), lo + t.len(), lo + t.len())
}

/// Text `s` with the selection between `c` and `a` deleted.
pub open spec fn cut(s: Seq<char>, c: int, a: int) -> (Seq<char>, int, int) {
    typed(s, c, a, Seq::empty())
}

/// The text, caret and anchor, in characters, after a caret key or an edit
/// (see `key_kind`) on text `s` with caret `c` and anchor `a`: ⌘A selects
/// it all; ⌘← and ⌘→, Home and Up, End and Down go to an end; ← and → step
/// one character, or, without Shift, go to that end of a selection; Shift
/// keeps the anchor. ⌘X and a paste or a typing replace the selection;
/// Backspace and Delete take the selection, or else the character before
/// or after the caret.
pub open spec fn key_edit(
    s: Seq<char>,
    c: int,
    a: int,
    key: Seq<char>,
    text: Option<Seq<char>>,
    mods: Modifiers,
    caption: bool,
    pasted: Option<Seq<char>>,
) -> (Seq<char>, int, int) {
    let primary = mods.platform || mods.control;
    let n = s.len() as int;
    let lo = min_usize(c, a);
    let hi = if c <= a { a } else { c };
    let shift = mods.shift;
    let to_end = |to: int| (s, to, if shift { a } else { to });
    if key == "a"@ && primary {
        (s, n, 0)
    } else if (key == "left"@ || key == "right"@) && primary {
        to_end(if key == "left"@ { 0 } else { n })
    } else if key == "left"@ || key == "right"@ {
        if !shift && lo < hi {
            if key == "left"@ { (s, lo, lo) } else { (s, hi, hi) }
        } else {
            to_end(if key == "left"@ { if c > 0 { c - 1 } else { 0 } } else { if c < n { c + 1 } else { n } })
        }
    } else if key == "home"@ || key == "up"@ {
        to_end(0)
    } else if key == "end"@ || key == "down"@ {
        to_end(n)
    } else if key == "x"@ && primary && lo < hi {
        cut(s, c, a)
    } else if key == "v"@ && primary {
        typed(s, c, a, one_line(pasted->0, caption))
    } else if key == "space"@ {
        typed(s, c, a, seq![' '])
    } else if key == "backspace"@ {
        if lo < hi {
            cut(s, c, a)
        } else if c > 0 {
            (s.remove(c - 1), c - 1, c - 1)
        } else {
            (s, c, a)
        }
    } else if key == "delete"@ {
        if lo < hi {
            cut(s, c, a)
        } else if c < n {
            (s.remove(c), c, a)
        } else {
            (s, c, a)
        }
    } else if key == "enter"@ {
        typed(s, c, a, seq!['\n'])
    } else {
        match text {
            Some(t) => typed(s, c, a, t),
            None => (s, c, a),
        }
    }
}

/// The field's text after a `Replace`: Backspace drops the last character,
/// the hex field takes what its rule made of the typing, and a numeric
/// field adds the typing at the end.
pub open spec fn key_replace(s: Seq<char>, key: Seq<char>, id: Seq<char>, text: Option<Seq<char>>, hex_next: Option<Seq<char>>) -> Seq<char> {
    if key == "backspace"@ {
        if s.len() > 0 { s.drop_last() } else { s }
    } else if id == "cp-hex"@ {
        hex_next->0
    } else {
        s + text->0
    }
}

pub open spec fn opt_seq(o: Option<String>) -> Option<Seq<char>> {
    match o {
        Some(s) => Some(s@),
        None => None,
    }
}

pub open spec fn opt_str(o: Option<&str>) -> Option<Seq<char>> {
    match o {
        Some(s) => Some(s@),
        None => None,
    }
}

/// What key `key` comes to in the focused field `id` of `pre` (see
/// `key_kind`), with the caret and the anchor kept within the text.
#[verifier::opaque]
pub open spec fn key_kind_at(
    pre: Workspace,
    id: Seq<char>,
    key: Seq<char>,
    text: Option<Seq<char>>,
    mods: Modifiers,
    pasted: Option<Seq<char>>,
    hex_next: Option<Seq<char>>,
    numeric: bool,
) -> KeyKind {
    let s = pre.field_buffer@;
    let n = utf8_len(s);
    let c = chars_within(s, min_usize(pre.field_cursor as int, n));
    let a = chars_within(s, min_usize(pre.field_anchor as int, n));
    key_kind(id, key, text, mods, min_usize(c, a) < (if c <= a { a } else { c }), pasted is Some, hex_next is Some, numeric)
}

proof fn lemma_kind_at(
    pre: Workspace,
    id: Seq<char>,
    key: Seq<char>,
    text: Option<Seq<char>>,
    mods: Modifiers,
    pasted: Option<Seq<char>>,
    hex_next: Option<Seq<char>>,
    numeric: bool,
    c: int,
    a: int,
    kind: KeyKind,
)
    requires
        c == chars_within(pre.field_buffer@, min_usize(pre.field_cursor as int, utf8_len(pre.field_buffer@))),
        a == chars_within(pre.field_buffer@, min_usize(pre.field_anchor as int, utf8_len(pre.field_buffer@))),
        kind == key_kind(id, key, text, mods, min_usize(c, a) < (if c <= a { a } else { c }), pasted is Some, hex_next is Some, numeric),
    ensures
        kind == key_kind_at(pre, id, key, text, mods, pasted, hex_next, numeric),
{
    reveal(key_kind_at);
}

/// Whether a key of this kind applies the field's text to the dialog:
/// an edit, a replacement or a commit.
pub open spec fn applies_text(kind: KeyKind) -> bool {
    kind == KeyKind::Edit || kind == KeyKind::Replace || kind == KeyKind::Commit
}

/// `post` is `w1`, the field's caret and anchor within its text and its
/// fresh mark gone, after a key of kind `kind` (see `field_key_done`); `c`
/// and `a` are the caret and the anchor in characters, and `fresh` the
/// fresh mark the field had.
#[verifier::opaque]
pub open spec fn key_applied(
    w1: Workspace,
    post: Workspace,
    id: Seq<char>,
    key: Seq<char>,
    text: Option<Seq<char>>,
    mods: Modifiers,
    pasted: Option<Seq<char>>,
    hex_next: Option<Seq<char>>,
    c: int,
    a: int,
    kind: KeyKind,
    fresh: bool,
) -> bool {
    let s = w1.field_buffer@;
    match kind {
        KeyKind::Command => post == Workspace { field_fresh: fresh, ..w1 },
        KeyKind::Refused | KeyKind::Taken => post == w1,
        KeyKind::Caret => {
            let (_, c2, a2) = key_edit(s, c, a, key, text, mods, spec_is_caption(id), pasted);
            &&& post.caret_phase is Some
            &&& post == Workspace {
                field_cursor: byte_pos(s, c2) as usize,
                field_anchor: byte_pos(s, a2) as usize,
                caret_phase: post.caret_phase,
                ..w1
            }
        },
        KeyKind::Edit => {
            let (s2, c2, a2) = key_edit(s, c, a, key, text, mods, spec_is_caption(id), pasted);
            let w2 = Workspace {
                field_buffer: post.field_buffer,
                field_cursor: byte_pos(s2, c2) as usize,
                field_anchor: byte_pos(s2, a2) as usize,
                caret_phase: post.caret_phase,
                ..w1
            };
            &&& post.field_buffer@ == s2
            &&& post.caret_phase is Some
            &&& field_value_committed(w2, post, id)
        },
        KeyKind::Replace => {
            let w2 = Workspace { field_buffer: post.field_buffer, caret_phase: post.caret_phase, ..w1 };
            &&& post.field_buffer@ == key_replace(s, key, id, text, hex_next)
            &&& post.caret_phase is Some
            &&& field_value_committed(w2, post, id)
        },
        KeyKind::Escape => {
            &&& post.field_buffer@.len() == 0
            &&& post == Workspace {
                focused_field: None,
                field_buffer: post.field_buffer,
                field_cursor: 0,
                field_anchor: 0,
                ..w1
            }
        },
        KeyKind::Commit => field_committed(w1, post, id),
    }
}

/// `post` is `pre` after key `key` in the focused field `id`, and `r` what
/// the key returns: whether the field took it, and the text to put on the
/// clipboard. The fresh mark goes and the caret and anchor are first kept
/// within the text; then, by `key_kind`:
/// a command returns the fresh mark and is not taken; a refusal is not
/// taken; ⌘C hands out the selection; a caret key moves the caret
/// (`key_edit`) and restarts its blink; an edit (⌘X handing out the
/// selection too) or a replacement changes the text, restarts the blink and
/// applies the text (`field_value_committed`); Escape lets go of the field
/// and its text; Enter and Tab commit the field.
#[verifier::opaque]
pub open spec fn field_key_done(
    pre: Workspace,
    post: Workspace,
    id: Seq<char>,
    key: Seq<char>,
    text: Option<Seq<char>>,
    mods: Modifiers,
    pasted: Option<Seq<char>>,
    hex_next: Option<Seq<char>>,
    numeric: bool,
    r: (bool, Option<String>),
) -> bool {
    let s = pre.field_buffer@;
    let n = utf8_len(s);
    let cb = min_usize(pre.field_cursor as int, n);
    let ab = min_usize(pre.field_anchor as int, n);
    let c = chars_within(s, cb);
    let a = chars_within(s, ab);
    let lo = min_usize(c, a);
    let hi = if c <= a { a } else { c };
    let w1 = Workspace { field_fresh: false, field_cursor: cb as usize, field_anchor: ab as usize, ..pre };
    let kind = key_kind(id, key, text, mods, lo < hi, pasted is Some, hex_next is Some, numeric);
    let copied = if (key == "c"@ || key == "x"@) && (mods.platform || mods.control) && spec_textual(id) && lo < hi {
        Some(s.subrange(lo, hi))
    } else {
        None
    };
    &&& opt_seq(r.1) == copied
    &&& r.0 == !(kind == KeyKind::Command || kind == KeyKind::Refused)
    &&& key_applied(w1, post, id, key, text, mods, pasted, hex_next, c, a, kind, pre.field_fresh)
}

fn kind_of(
    id: &str,
    key: &str,
    text: Option<&str>,
    mods: Modifiers,
    selected: bool,
    pasted: bool,
    hex: bool,
    numeric: bool,
) -> (r: KeyKind)
    ensures
        r == key_kind(id@, key@, opt_str(text), mods, selected, pasted, hex, numeric),
{
    reveal(key_kind);
    let primary = mods.platform || mods.control;
    let t = textual(id);
    let chord = str_is(key, "a") || str_is(key, "c") || str_is(key, "x") || str_is(key, "v") || str_is(key, "left")
        || str_is(key, "right");
    if primary && !chord {
        KeyKind::Command
    } else if (str_is(key, "c") || str_is(key, "x")) && t && primary && selected {
        if str_is(key, "c") {
            KeyKind::Taken
        } else {
            KeyKind::Edit
        }
    } else if str_is(key, "v") && t && primary {
        if pasted {
            KeyKind::Edit
        } else {
            KeyKind::Taken
        }
    } else if (str_is(key, "a") || str_is(key, "left") || str_is(key, "right") || str_is(key, "home") || str_is(
        key,
        "up",
    ) || str_is(key, "end") || str_is(key, "down")) && t && (primary || !str_is(key, "a")) {
        KeyKind::Caret
    } else if (str_is(key, "space") || str_is(key, "backspace") || str_is(key, "delete")) && t {
        KeyKind::Edit
    } else if str_is(key, "backspace") {
        KeyKind::Replace
    } else if str_is(key, "escape") {
        KeyKind::Escape
    } else if str_is(key, "enter") && is_caption(id) && mods.shift {
        KeyKind::Edit
    } else if str_is(key, "enter") || str_is(key, "tab") {
        KeyKind::Commit
    } else if str_is(id, "cp-hex") {
        if hex {
            KeyKind::Replace
        } else {
            KeyKind::Refused
        }
    } else {
        match text {
            Some(x) => if clean(x) && (t || numeric) {
                if t {
                    KeyKind::Edit
                } else {
                    KeyKind::Replace
                }
            } else {
                KeyKind::Refused
            },
            None => KeyKind::Refused,
        }
    }
}

fn clean(t: &str) -> (r: bool)
    ensures
        r == clean_text(t@),
{
    let v = chars_of(t);
    let mut i: usize = 0;
    while i < v.len()
        invariant
            i <= v@.len(),
            v@ == t@,
            forall|j: int| 0 <= j < i ==> !spec_is_control(#[trigger] v@[j]),
        decreases v@.len() - i,
    {
        if is_control(v[i]) {
            return false;
        }
        i = i + 1;
    }
    v.len() > 0
}

fn one_line_chars(t: &str, caption: bool) -> (r: Vec<char>)
    ensures
        r@ == one_line(t@, caption),
{
    let v = chars_of(t);
    let mut r: Vec<char> = Vec::new();
    let mut i: usize = 0;
    while i < v.len()
        invariant
            i <= v@.len(),
            v@ == t@,
            r@ == one_line(t@, caption).take(i as int),
        decreases v@.len() - i,
    {
        let c = v[i];
        let d = if is_control(c) && !(caption && c == '\n') {
            ' '
        } else {
            c
        };
        r.push(d);
        i = i + 1;
        assert(r@ =~= one_line(t@, caption).take(i as int));
    }
    assert(one_line(t@, caption).take(v@.len() as int) =~= one_line(t@, caption));
    r
}

fn chars_between(v: &Vec<char>, lo: usize, hi: usize) -> (r: Vec<char>)
    requires
        lo <= hi <= v@.len(),
    ensures
        r@ == v@.subrange(lo as int, hi as int),
{
    let mut r: Vec<char> = Vec::new();
    let mut i: usize = lo;
    while i < hi
        invariant
            lo <= i <= hi <= v@.len(),
            r@ == v@.subrange(lo as int, i as int),
        decreases hi - i,
    {
        r.push(v[i]);
        i = i + 1;
        assert(r@ =~= v@.subrange(lo as int, i as int));
    }
    r
}

/// Apply a caret key or an edit to `edit` (see `key_edit`).
fn apply_key_edit(edit: &mut LineEdit, key: &str, text: Option<&str>, mods: Modifiers, caption: bool, pasted: Option<&str>)
    requires
        old(edit).wf(),
        key@ == "v"@ && (mods.platform || mods.control) ==> pasted is Some,
    ensures
        final(edit).wf(),
        final(edit).active == old(edit).active,
        (final(edit).text@, final(edit).cursor as int, final(edit).anchor as int) == key_edit(
            old(edit).text@,
            old(edit).cursor as int,
            old(edit).anchor as int,
            key@,
            opt_str(text),
            mods,
            caption,
            opt_str(pasted),
        ),
{
    let primary = mods.platform || mods.control;
    let shift = mods.shift;
    let n = edit.text.len();
    let (lo, hi) = edit.selection();
    let c = edit.cursor;
    proof {
        reveal_strlit(" ");
        reveal_strlit("\n");
        reveal_strlit("a");
        reveal_strlit("c");
        reveal_strlit("x");
        reveal_strlit("v");
        reveal_strlit("left");
        reveal_strlit("right");
        reveal_strlit("home");
        reveal_strlit("up");
        reveal_strlit("end");
        reveal_strlit("down");
        reveal_strlit("space");
        reveal_strlit("backspace");
        reveal_strlit("delete");
        reveal_strlit("enter");
        reveal_strlit("tab");
        reveal_strlit("escape");
    }
    if str_is(key, "a") && primary {
        edit.select_all();
    } else if (str_is(key, "left") || str_is(key, "right")) && primary {
        let to = if str_is(key, "left") {
            0
        } else {
            n
        };
        edit.move_caret(to, shift);
    } else if str_is(key, "left") || str_is(key, "right") {
        if !shift && lo < hi {
            if str_is(key, "left") {
                edit.place_caret(lo);
            } else {
                edit.place_caret(hi);
            }
        } else {
            let to = if str_is(key, "left") {
                if c > 0 {
                    c - 1
                } else {
                    0
                }
            } else {
                if c < n {
                    c + 1
                } else {
                    n
                }
            };
            edit.move_caret(to, shift);
        }
    } else if str_is(key, "home") || str_is(key, "up") {
        edit.move_caret(0, shift);
    } else if str_is(key, "end") || str_is(key, "down") {
        edit.move_caret(n, shift);
    } else if str_is(key, "x") && primary && lo < hi {
        edit.insert(&[]);
    } else if str_is(key, "v") && primary {
        let p = match pasted {
            Some(p) => p,
            None => "",
        };
        let t = one_line_chars(p, caption);
        edit.insert(t.as_slice());
    } else if str_is(key, "space") {
        edit.insert(&[' ']);
    } else if str_is(key, "backspace") {
        if lo < hi {
            edit.insert(&[]);
        } else if c > 0 {
            edit.text.remove(c - 1);
            edit.cursor = c - 1;
            edit.anchor = c - 1;
        }
    } else if str_is(key, "delete") {
        if lo < hi {
            edit.insert(&[]);
        } else if c < n {
            edit.text.remove(c);
        }
    } else if str_is(key, "enter") {
        edit.insert(&['\n']);
    } else if let Some(t) = text {
        let t = chars_of(t);
        edit.insert(t.as_slice());
    }
}

/// Applying a field's text leaves the field itself, its text, caret and
/// blink, as they were.
proof fn lemma_applied_keeps_field(pre: Workspace, post: Workspace, id: Seq<char>)
    requires
        field_value_committed(pre, post, id),
    ensures
        post.field_buffer == pre.field_buffer,
        post.field_cursor == pre.field_cursor,
        post.field_anchor == pre.field_anchor,
        post.caret_phase == pre.caret_phase,
        post.focused_field == pre.focused_field,
        post.field_fresh == pre.field_fresh,
{
}

/// What a key's kind tells of the values its handling reads.
proof fn lemma_kind_needs(
    id: Seq<char>,
    key: Seq<char>,
    text: Option<Seq<char>>,
    mods: Modifiers,
    selected: bool,
    pasted: bool,
    hex: bool,
    numeric: bool,
)
    ensures
        ({
            let k = key_kind(id, key, text, mods, selected, pasted, hex, numeric);
            &&& k == KeyKind::Edit && key == "v"@ && (mods.platform || mods.control) ==> pasted
            &&& k == KeyKind::Replace && key != "backspace"@ && id == "cp-hex"@ ==> hex
            &&& k == KeyKind::Replace && key != "backspace"@ && id != "cp-hex"@ ==> text is Some
            &&& k == KeyKind::Caret ==> caret_key(key, mods.platform || mods.control)
        }),
{
    reveal(key_kind);
    reveal_strlit("a");
    reveal_strlit("c");
    reveal_strlit("x");
    reveal_strlit("v");
    reveal_strlit("left");
    reveal_strlit("right");
    reveal_strlit("home");
    reveal_strlit("up");
    reveal_strlit("end");
    reveal_strlit("down");
    reveal_strlit("space");
    reveal_strlit("backspace");
    reveal_strlit("delete");
    reveal_strlit("escape");
    reveal_strlit("enter");
    reveal_strlit("tab");
    assert("c"@[0] != "v"@[0]);
    assert("x"@[0] != "v"@[0]);
    assert("a"@[0] != "v"@[0]);
}

proof fn lemma_key_done(
    pre: Workspace,
    post: Workspace,
    id: Seq<char>,
    key: Seq<char>,
    text: Option<Seq<char>>,
    mods: Modifiers,
    pasted: Option<Seq<char>>,
    hex_next: Option<Seq<char>>,
    numeric: bool,
    r: (bool, Option<String>),
    w1: Workspace,
    cb: int,
    ab: int,
    c: int,
    a: int,
    kind: KeyKind,
    copy: Option<Seq<char>>,
)
    requires
        cb == min_usize(pre.field_cursor as int, utf8_len(pre.field_buffer@)),
        ab == min_usize(pre.field_anchor as int, utf8_len(pre.field_buffer@)),
        w1 == (Workspace { field_fresh: false, field_cursor: cb as usize, field_anchor: ab as usize, ..pre }),
        c == chars_within(pre.field_buffer@, cb),
        a == chars_within(pre.field_buffer@, ab),
        kind == key_kind(id, key, text, mods, min_usize(c, a) < (if c <= a { a } else { c }), pasted is Some, hex_next is Some, numeric),
        key_applied(w1, post, id, key, text, mods, pasted, hex_next, c, a, kind, pre.field_fresh),
        r.0 == !(kind == KeyKind::Command || kind == KeyKind::Refused),
        copy == (if (key == "c"@ || key == "x"@) && (mods.platform || mods.control) && spec_textual(id)
            && min_usize(c, a) < (if c <= a { a } else { c }) {
            Some(pre.field_buffer@.subrange(min_usize(c, a), if c <= a { a } else { c }))
        } else {
            None
        }),
        opt_seq(r.1) == copy,
    ensures
        field_key_done(pre, post, id, key, text, mods, pasted, hex_next, numeric, r),
{
    reveal(field_key_done);
}

/// The keys that move the caret in a text field.
pub open spec fn caret_key(key: Seq<char>, primary: bool) -> bool {
    (key == "a"@ && primary) || key == "left"@ || key == "right"@ || key == "home"@ || key == "up"@ || key == "end"@
        || key == "down"@
}

impl Workspace {
    fn key_caret(
        &mut self,
        id: &str,
        key: &str,
        text: Option<&str>,
        mods: Modifiers,
        c: usize,
        a: usize,
        Ghost(pasted): Ghost<Option<Seq<char>>>,
        Ghost(hex_next): Ghost<Option<Seq<char>>>,
        Ghost(fresh): Ghost<bool>,
    )
        requires
            caret_key(key@, mods.platform || mods.control),
            c <= old(self).field_buffer@.len(),
            a <= old(self).field_buffer@.len(),
        ensures
            key_applied(*old(self), *final(self), id@, key@, opt_str(text), mods, pasted, hex_next, c as int, a as int, KeyKind::Caret, fresh),
    {
        reveal(key_applied);
        proof {
            reveal_strlit("a");
            reveal_strlit("v");
            reveal_strlit("x");
            reveal_strlit("left");
            reveal_strlit("right");
            reveal_strlit("home");
            reveal_strlit("up");
            reveal_strlit("end");
            reveal_strlit("down");
            assert("a"@[0] != "v"@[0]);
        }
        let chars = chars_of(self.field_buffer.as_str());
        let mut edit = LineEdit { text: chars, cursor: c, anchor: a, active: true };
        apply_key_edit(&mut edit, key, text, mods, is_caption(id), None);
        assert(edit.text@ == self.field_buffer@);
        let cb = byte_position(self.field_buffer.as_str(), edit.cursor);
        let ab = byte_position(self.field_buffer.as_str(), edit.anchor);
        self.field_cursor = cb;
        self.field_anchor = ab;
        self.reset_caret_phase();
    }

    #[verifier::rlimit(50)]
    fn key_text_edit(
        &mut self,
        id: &str,
        key: &str,
        text: Option<&str>,
        mods: Modifiers,
        pasted: &Option<String>,
        c: usize,
        a: usize,
        Ghost(hex_next): Ghost<Option<Seq<char>>>,
        Ghost(fresh): Ghost<bool>,
    )
        requires
            c <= old(self).field_buffer@.len(),
            a <= old(self).field_buffer@.len(),
            key@ == "v"@ && (mods.platform || mods.control) ==> pasted is Some,
            recipe_field_ok(old(self).modal, id@),
        ensures
            key_applied(*old(self), *final(self), id@, key@, opt_str(text), mods, opt_seq(*pasted), hex_next, c as int, a as int, KeyKind::Edit, fresh),
    {
        reveal(key_applied);
        let chars = chars_of(self.field_buffer.as_str());
        let mut edit = LineEdit { text: chars, cursor: c, anchor: a, active: true };
        let p = match pasted {
            Some(p) => Some(p.as_str()),
            None => None,
        };
        apply_key_edit(&mut edit, key, text, mods, is_caption(id), p);
        let buffer = string_of(edit.text.as_slice());
        let cb = byte_position(buffer.as_str(), edit.cursor);
        let ab = byte_position(buffer.as_str(), edit.anchor);
        self.field_buffer = buffer;
        self.field_cursor = cb;
        self.field_anchor = ab;
        self.reset_caret_phase();
        let ghost w2 = *self;
        self.commit_field_value(id);
        proof {
            lemma_applied_keeps_field(w2, *self, id@);
        }
    }

    fn key_replace_text(
        &mut self,
        id: &str,
        key: &str,
        text: Option<&str>,
        hex_next: Option<String>,
        Ghost(mods): Ghost<Modifiers>,
        Ghost(pasted): Ghost<Option<Seq<char>>>,
        Ghost(c): Ghost<int>,
        Ghost(a): Ghost<int>,
        Ghost(fresh): Ghost<bool>,
    )
        requires
            id@ == "cp-hex"@ && key@ != "backspace"@ ==> hex_next is Some,
            id@ != "cp-hex"@ && key@ != "backspace"@ ==> text is Some,
            recipe_field_ok(old(self).modal, id@),
        ensures
            key_applied(*old(self), *final(self), id@, key@, opt_str(text), mods, pasted, opt_seq(hex_next), c, a, KeyKind::Replace, fresh),
    {
        reveal(key_applied);
        let chars = chars_of(self.field_buffer.as_str());
        let next = if str_is(key, "backspace") {
            let mut v = chars;
            if v.len() > 0 {
                v.pop();
            }
            string_of(v.as_slice())
        } else if str_is(id, "cp-hex") {
            match hex_next {
                Some(h) => h,
                None => String::new(),
            }
        } else {
            let mut v = chars;
            let t = match text {
                Some(t) => chars_of(t),
                None => Vec::new(),
            };
            let mut i: usize = 0;
            let ghost v0 = v@;
            while i < t.len()
                invariant
                    i <= t@.len(),
                    v@ == v0 + t@.take(i as int),
                decreases t@.len() - i,
            {
                v.push(t[i]);
                i = i + 1;
                assert(v@ =~= v0 + t@.take(i as int));
            }
            assert(t@.take(t@.len() as int) =~= t@);
            string_of(v.as_slice())
        };
        proof {
            reveal_strlit("backspace");
            reveal_strlit("cp-hex");
        }
        self.field_buffer = next;
        self.reset_caret_phase();
        let ghost w2 = *self;
        self.commit_field_value(id);
        proof {
            lemma_applied_keeps_field(w2, *self, id@);
        }
    }

    fn key_plain(
        &mut self,
        id: &str,
        kind: KeyKind,
        fresh: bool,
        Ghost(key): Ghost<Seq<char>>,
        Ghost(text): Ghost<Option<Seq<char>>>,
        Ghost(mods): Ghost<Modifiers>,
        Ghost(pasted): Ghost<Option<Seq<char>>>,
        Ghost(hex_next): Ghost<Option<Seq<char>>>,
        Ghost(c): Ghost<int>,
        Ghost(a): Ghost<int>,
    )
        requires
            kind == KeyKind::Command || kind == KeyKind::Refused || kind == KeyKind::Taken || kind == KeyKind::Escape
                || kind == KeyKind::Commit,
            kind == KeyKind::Commit ==> recipe_field_ok(old(self).modal, id@),
        ensures
            key_applied(*old(self), *final(self), id@, key, text, mods, pasted, hex_next, c, a, kind, fresh),
    {
        reveal(key_applied);
        match kind {
            KeyKind::Command => {
                self.field_fresh = fresh;
            },
            KeyKind::Escape => {
                self.focused_field = None;
                self.field_buffer = String::new();
                self.field_cursor = 0;
                self.field_anchor = 0;
                proof {
                    reveal_strlit("");
                }
            },
            KeyKind::Commit => {
                self.commit_field(id);
            },
            _ => {},
        }
    }

    /// The focused field's fresh mark goes and its caret and anchor are
    /// kept within its text; returns the mark, and the caret and anchor in
    /// characters.
    fn take_field_key(&mut self) -> (r: (bool, usize, usize))
        ensures
            ({
                let s = old(self).field_buffer@;
                let n = utf8_len(s);
                let cb = min_usize(old(self).field_cursor as int, n);
                let ab = min_usize(old(self).field_anchor as int, n);
                &&& *final(self) == (Workspace { field_fresh: false, field_cursor: cb as usize, field_anchor: ab as usize, ..*old(self) })
                &&& r.0 == old(self).field_fresh
                &&& r.1 == chars_within(s, cb)
                &&& r.2 == chars_within(s, ab)
                &&& r.1 <= s.len()
                &&& r.2 <= s.len()
            }),
    {
        let fresh = self.field_fresh;
        self.field_fresh = false;
        utf8_fits(self.field_buffer.as_str());
        let n = self.field_buffer.as_str().len();
        if self.field_cursor > n {
            self.field_cursor = n;
        }
        if self.field_anchor > n {
            self.field_anchor = n;
        }
        let c = chars_within_bytes(self.field_buffer.as_str(), self.field_cursor);
        let a = chars_within_bytes(self.field_buffer.as_str(), self.field_anchor);
        (fresh, c, a)
    }

    /// A key pressed with the keyboard in the focused field, typing `text`
    /// (see `field_key_done`); with no field focused it is not taken.
    /// `pasted` is the clipboard's text, read for ⌘V; `hex_next` what the
    /// colour picker's hex field becomes with `text` (or nothing) typed into
    /// it, given its fresh mark, or `None` where it refuses it; `numeric` whether a
    /// numeric field accepts `text` after what it holds. The result says
    /// whether the field took the key, and what to put on the clipboard.
    #[verifier::rlimit(100)]
    pub fn field_key(
        &mut self,
        key: &str,
        text: Option<&str>,
        mods: Modifiers,
        pasted: Option<String>,
        hex_next: Option<String>,
        numeric: bool,
    ) -> (r: (bool, Option<String>))
        requires
            match old(self).focused_field {
                Some(id) => applies_text(
                    key_kind_at(*old(self), id@, key@, opt_str(text), mods, opt_seq(pasted), opt_seq(hex_next), numeric),
                ) ==> recipe_field_ok(old(self).modal, id@),
                None => true,
            },
        ensures
            match old(self).focused_field {
                None => r.0 == false && r.1 is None && *final(self) == *old(self),
                Some(id) => field_key_done(
                    *old(self),
                    *final(self),
                    id@,
                    key@,
                    opt_str(text),
                    mods,
                    opt_seq(pasted),
                    opt_seq(hex_next),
                    numeric,
                    r,
                ),
            },
    {
        let id = match &self.focused_field {
            Some(f) => f.clone(),
            None => return (false, None),
        };
        let (fresh, c, a) = self.take_field_key();
        let (lo, hi) = if c <= a {
            (c, a)
        } else {
            (a, c)
        };
        let primary = mods.platform || mods.control;
        let copied = if (str_is(key, "c") || str_is(key, "x")) && primary && textual(id.as_str()) && lo < hi {
            let chars = chars_of(self.field_buffer.as_str());
            let sel = chars_between(&chars, lo, hi);
            Some(string_of(sel.as_slice()))
        } else {
            None
        };
        let kind = kind_of(id.as_str(), key, text, mods, lo < hi, pasted.is_some(), hex_next.is_some(), numeric);
        proof {
            lemma_kind_needs(id@, key@, opt_str(text), mods, lo < hi, pasted is Some, hex_next is Some, numeric);
            lemma_kind_at(*old(self), id@, key@, opt_str(text), mods, opt_seq(pasted), opt_seq(hex_next), numeric, c as int, a as int, kind);
        }
        let ghost w1 = *self;
        match kind {
            KeyKind::Command | KeyKind::Refused | KeyKind::Taken | KeyKind::Escape | KeyKind::Commit => {
                self.key_plain(id.as_str(), kind, fresh, Ghost(key@), Ghost(opt_str(text)), Ghost(mods), Ghost(opt_seq(pasted)), Ghost(opt_seq(hex_next)), Ghost(c as int), Ghost(a as int));
            },
            KeyKind::Caret => {
                self.key_caret(id.as_str(), key, text, mods, c, a, Ghost(opt_seq(pasted)), Ghost(opt_seq(hex_next)), Ghost(fresh));
            },
            KeyKind::Edit => {
                self.key_text_edit(id.as_str(), key, text, mods, &pasted, c, a, Ghost(opt_seq(hex_next)), Ghost(fresh));
            },
            KeyKind::Replace => {
                self.key_replace_text(id.as_str(), key, text, hex_next, Ghost(mods), Ghost(opt_seq(pasted)), Ghost(c as int), Ghost(a as int), Ghost(fresh));
            },
        }
        let taken = match kind {
            KeyKind::Command | KeyKind::Refused => false,
            _ => true,
        };
        proof {
            let pre = *old(self);
            let s = pre.field_buffer@;
            let n = utf8_len(s);
            let cb = min_usize(pre.field_cursor as int, n);
            let ab = min_usize(pre.field_anchor as int, n);
            let copy_spec = if (key@ == "c"@ || key@ == "x"@) && (mods.platform || mods.control) && spec_textual(id@)
                && lo < hi {
                Some(s.subrange(lo as int, hi as int))
            } else {
                None
            };
            assert(opt_seq(copied) == copy_spec);
            lemma_key_done(pre, *self, id@, key@, opt_str(text), mods, opt_seq(pasted), opt_seq(hex_next), numeric, (taken, copied), w1, cb, ab, c as int, a as int, kind, copy_spec);
        }
        (taken, copied)
    }
}

/// The key names' letters, which tell them apart.
proof fn lemma_key_names()
    ensures
        "a"@.len() == 1 && "a"@[0] == 'a',
        "x"@.len() == 1 && "x"@[0] == 'x',
        "v"@.len() == 1 && "v"@[0] == 'v',
        "c"@.len() == 1 && "c"@[0] == 'c',
        "left"@.len() == 4 && "left"@[0] == 'l',
        "right"@.len() == 5 && "right"@[0] == 'r',
        "home"@.len() == 4 && "home"@[0] == 'h',
        "up"@.len() == 2 && "up"@[0] == 'u',
        "end"@.len() == 3 && "end"@[0] == 'e',
        "down"@.len() == 4 && "down"@[0] == 'd',
        "space"@.len() == 5 && "space"@[0] == 's',
        "backspace"@.len() == 9 && "backspace"@[0] == 'b',
        "delete"@.len() == 6 && "delete"@[0] == 'd',
        "enter"@.len() == 5 && "enter"@[0] == 'e',
        "escape"@.len() == 6 && "escape"@[0] == 'e',
        "tab"@.len() == 3 && "tab"@[0] == 't',
        "cp-hex"@.len() == 6 && "cp-hex"@[0] == 'c',
{
    reveal_strlit("a");
    reveal_strlit("x");
    reveal_strlit("v");
    reveal_strlit("c");
    reveal_strlit("left");
    reveal_strlit("right");
    reveal_strlit("home");
    reveal_strlit("up");
    reveal_strlit("end");
    reveal_strlit("down");
    reveal_strlit("space");
    reveal_strlit("backspace");
    reveal_strlit("delete");
    reveal_strlit("enter");
    reveal_strlit("escape");
    reveal_strlit("tab");
    reveal_strlit("cp-hex");
}

/// How the keys edit a text box's text `s`, with caret `c` and anchor `a`
/// within it, in characters, whatever else is held. Delete takes the
/// selection, or else the character just after the caret, the caret
/// staying; Backspace takes the selection, or else the character just
/// before the caret, the caret moving back onto its place; at the end
/// (or the start) of the text they change nothing. Space and typed text
/// replace the selection, the caret ending after what was typed. Home and
/// Up go to the start, End and Down to the end, Shift keeping the anchor;
/// ⌘A selects everything; ← and → step one character, or without Shift
/// go to that end of a selection; ⌘← and ⌘→ go to the ends.
pub proof fn lemma_text_keys(
    s: Seq<char>,
    c: int,
    a: int,
    key: Seq<char>,
    text: Option<Seq<char>>,
    mods: Modifiers,
    caption: bool,
    pasted: Option<Seq<char>>,
)
    requires
        0 <= c <= s.len(),
        0 <= a <= s.len(),
    ensures
        ({
            let n = s.len() as int;
            let lo = if c <= a { c } else { a };
            let hi = if c <= a { a } else { c };
            let primary = mods.platform || mods.control;
            &&& c == a && c < n ==> key_edit(s, c, a, "delete"@, text, mods, caption, pasted) == (
                s.subrange(0, c) + s.subrange(c + 1, n),
                c,
                c,
            )
            &&& c == a && c == n ==> key_edit(s, c, a, "delete"@, text, mods, caption, pasted) == (s, c, a)
            &&& c == a && c > 0 ==> key_edit(s, c, a, "backspace"@, text, mods, caption, pasted) == (
                s.subrange(0, c - 1) + s.subrange(c, n),
                c - 1,
                c - 1,
            )
            &&& c == a && c == 0 ==> key_edit(s, c, a, "backspace"@, text, mods, caption, pasted) == (s, c, a)
            &&& lo < hi ==> key_edit(s, c, a, "delete"@, text, mods, caption, pasted) == (
                s.subrange(0, lo) + s.subrange(hi, n),
                lo,
                lo,
            )
            &&& lo < hi ==> key_edit(s, c, a, "backspace"@, text, mods, caption, pasted) == (
                s.subrange(0, lo) + s.subrange(hi, n),
                lo,
                lo,
            )
            &&& key_edit(s, c, a, "space"@, text, mods, caption, pasted) == (
                s.subrange(0, lo) + seq![' '] + s.subrange(hi, n),
                lo + 1,
                lo + 1,
            )
            &&& (text matches Some(t) && !primary && key != "left"@ && key != "right"@ && key != "home"@ && key
                != "up"@ && key != "end"@ && key != "down"@ && key != "space"@ && key != "backspace"@ && key
                != "delete"@ && key != "enter"@) ==> key_edit(s, c, a, key, text, mods, caption, pasted) == (
                s.subrange(0, lo) + text->0 + s.subrange(hi, n),
                lo + text->0.len(),
                lo + text->0.len(),
            )
            &&& key_edit(s, c, a, "home"@, text, mods, caption, pasted) == (s, 0int, if mods.shift { a } else { 0int })
            &&& key_edit(s, c, a, "up"@, text, mods, caption, pasted) == (s, 0int, if mods.shift { a } else { 0int })
            &&& key_edit(s, c, a, "end"@, text, mods, caption, pasted) == (s, n, if mods.shift { a } else { n })
            &&& key_edit(s, c, a, "down"@, text, mods, caption, pasted) == (s, n, if mods.shift { a } else { n })
            &&& primary ==> key_edit(s, c, a, "a"@, text, mods, caption, pasted) == (s, n, 0int)
            &&& !primary && c == a && c > 0 ==> key_edit(s, c, a, "left"@, text, mods, caption, pasted) == (
                s,
                c - 1,
                if mods.shift { a } else { c - 1 },
            )
            &&& !primary && c == a && c < n ==> key_edit(s, c, a, "right"@, text, mods, caption, pasted) == (
                s,
                c + 1,
                if mods.shift { a } else { c + 1 },
            )
            &&& !primary && !mods.shift && lo < hi ==> key_edit(s, c, a, "left"@, text, mods, caption, pasted) == (
                s,
                lo,
                lo,
            )
            &&& !primary && !mods.shift && lo < hi ==> key_edit(s, c, a, "right"@, text, mods, caption, pasted) == (
                s,
                hi,
                hi,
            )
            &&& primary ==> key_edit(s, c, a, "left"@, text, mods, caption, pasted) == (
                s,
                0int,
                if mods.shift { a } else { 0int },
            )
            &&& primary ==> key_edit(s, c, a, "right"@, text, mods, caption, pasted) == (
                s,
                n,
                if mods.shift { a } else { n },
            )
        }),
{
    lemma_key_names();
    let n = s.len() as int;
    let lo = if c <= a { c } else { a };
    let hi = if c <= a { a } else { c };
    if c == a && c < n {
        assert(s.remove(c) =~= s.subrange(0, c) + s.subrange(c + 1, n));
    }
    if c == a && c > 0 {
        assert(s.remove(c - 1) =~= s.subrange(0, c - 1) + s.subrange(c, n));
    }
    if c == a {
        assert(s.subrange(0, c) + Seq::<char>::empty() + s.subrange(c, n) =~= s);
    }
    assert(s.subrange(0, lo) + Seq::<char>::empty() + s.subrange(hi, n) =~= s.subrange(0, lo) + s.subrange(hi, n));
}

/// What each key comes to in a field. With ⌘ or Ctrl, a key the field has
/// no use for is left to the workspace. Without them, in a text field:
/// Space, Backspace and Delete edit the text; the arrows, Home, End, Up
/// and Down move the caret; Escape lets the field go; Enter (but Shift+
/// Enter in a caption, which breaks the line) and Tab commit it; typed
/// text edits it. In a field that is not a text field, Backspace drops
/// the last character.
pub proof fn lemma_key_kinds(
    id: Seq<char>,
    key: Seq<char>,
    text: Option<Seq<char>>,
    mods: Modifiers,
    selected: bool,
    pasted: bool,
    hex: bool,
    numeric: bool,
)
    ensures
        ({
            let k = key_kind(id, key, text, mods, selected, pasted, hex, numeric);
            let primary = mods.platform || mods.control;
            &&& primary && !field_chord(key) ==> k == KeyKind::Command
            &&& !primary && spec_textual(id) && (key == "space"@ || key == "backspace"@ || key == "delete"@) ==> k
                == KeyKind::Edit
            &&& !primary && spec_textual(id) && (key == "left"@ || key == "right"@ || key == "home"@ || key == "up"@
                || key == "end"@ || key == "down"@) ==> k == KeyKind::Caret
            &&& !primary && key == "escape"@ ==> k == KeyKind::Escape
            &&& !primary && (key == "tab"@ || (key == "enter"@ && !(spec_is_caption(id) && mods.shift))) ==> k
                == KeyKind::Commit
            &&& !primary && key == "enter"@ && spec_is_caption(id) && mods.shift ==> k == KeyKind::Edit
            &&& !primary && !spec_textual(id) && key == "backspace"@ ==> k == KeyKind::Replace
            &&& primary && spec_textual(id) && key == "c"@ && selected ==> k == KeyKind::Taken
            &&& primary && spec_textual(id) && key == "x"@ && selected ==> k == KeyKind::Edit
        }),
{
    reveal(key_kind);
    lemma_key_names();
}

} // verus!
