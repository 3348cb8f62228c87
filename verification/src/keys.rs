//! What Escape cancels, and what a key does in the gallery's culling view.
use vstd::prelude::*;
use crate::culling::{CullEdit, shortcut, spec_shortcut};
use crate::fields::Modifiers;
use crate::modal::Modal;
use crate::text::str_is;
use crate::workspace::{Workspace, modal_closed};

verus! {

/// What Escape did.
#[derive(Clone, Copy, Debug, PartialEq, Eq, Structural)]
pub enum EscapeStep {
    /// A background removal was running; the caller stops it.
    BackgroundRemoval,
    /// The layer rename was abandoned; the caller puts the old name back.
    RenameCancelled,
    /// The note being written was let go, keeping its text.
    NoteReleased,
    /// The AI model menu closed.
    ModelMenuClosed,
    /// The AI prompt let go of the keyboard, keeping its draft.
    PromptReleased,
    /// The tool flyout closed.
    FlyoutClosed,
    /// The context menu closed.
    ContextMenuClosed,
    /// The open dropdown folded up.
    PopupClosed,
    /// The focused field let go, its dialog staying up.
    FieldReleased,
    /// A busy dialog stays: its run is not Escape's to cancel.
    Busy,
    /// The dialog on show closed.
    DialogClosed,
    /// Nothing else was open: the active tool's gesture is cancelled by the
    /// caller.
    ToolCancelled,
}

/// `new` is `old` after Escape, and `step` what it did: the innermost
/// thing open goes first. `removal` is whether a background removal
/// runs, `type_field` whether the type tool's field option is open.
pub open spec fn escaped(pre: Workspace, post: Workspace, removal: bool, type_field: bool, step: EscapeStep) -> bool {
    let c = pre.chrome;
    if removal {
        step == EscapeStep::BackgroundRemoval && post == pre
    } else if c.layer_rename {
        step == EscapeStep::RenameCancelled && post == (Workspace { chrome: crate::workspace::Chrome { layer_rename: false, ..c }, ..pre })
    } else if c.note_edit {
        step == EscapeStep::NoteReleased && post == (Workspace { chrome: crate::workspace::Chrome { note_edit: false, ..c }, ..pre })
    } else if c.ai_model_menu {
        step == EscapeStep::ModelMenuClosed && post == (Workspace { chrome: crate::workspace::Chrome { ai_model_menu: false, ..c }, ..pre })
    } else if c.ai_input_active {
        step == EscapeStep::PromptReleased && post == (Workspace { chrome: crate::workspace::Chrome { ai_input_active: false, ..c }, ..pre })
    } else if c.tool_flyout {
        step == EscapeStep::FlyoutClosed && post == (Workspace { chrome: crate::workspace::Chrome { tool_flyout: false, ..c }, ..pre })
    } else if c.context_menu {
        step == EscapeStep::ContextMenuClosed && post == (Workspace { chrome: crate::workspace::Chrome { context_menu: false, ..c }, ..pre })
    } else if c.open_popup {
        step == EscapeStep::PopupClosed && post == (Workspace { chrome: crate::workspace::Chrome { open_popup: false, ..c }, ..pre })
    } else if pre.focused_field is Some && (pre.modal is Some || type_field) {
        &&& step == EscapeStep::FieldReleased
        &&& post.field_buffer@.len() == 0
        &&& post == (Workspace { focused_field: None, field_buffer: post.field_buffer, ..pre })
    } else if pre.modal matches Some(Modal::Busy) {
        step == EscapeStep::Busy && post == pre
    } else if pre.modal is Some {
        step == EscapeStep::DialogClosed && modal_closed(pre, post)
    } else {
        step == EscapeStep::ToolCancelled && post == pre
    }
}

impl Workspace {
    /// Escape: close or let go of the innermost thing open.
    pub fn cancel_gesture(&mut self, removal: bool, type_field: bool) -> (step: EscapeStep)
        ensures
            escaped(*old(self), *final(self), removal, type_field, step),
    {
        if removal {
            return EscapeStep::BackgroundRemoval;
        }
        if self.chrome.layer_rename {
            self.chrome.layer_rename = false;
            return EscapeStep::RenameCancelled;
        }
        if self.chrome.note_edit {
            self.chrome.note_edit = false;
            return EscapeStep::NoteReleased;
        }
        if self.chrome.ai_model_menu {
            self.chrome.ai_model_menu = false;
            return EscapeStep::ModelMenuClosed;
        }
        if self.chrome.ai_input_active {
            self.chrome.ai_input_active = false;
            return EscapeStep::PromptReleased;
        }
        if self.chrome.tool_flyout {
            self.chrome.tool_flyout = false;
            return EscapeStep::FlyoutClosed;
        }
        if self.chrome.context_menu {
            self.chrome.context_menu = false;
            return EscapeStep::ContextMenuClosed;
        }
        if self.chrome.open_popup {
            self.chrome.open_popup = false;
            return EscapeStep::PopupClosed;
        }
        if self.focused_field.is_some() && (self.modal.is_some() || type_field) {
            self.focused_field = None;
            self.field_buffer = String::new();
            return EscapeStep::FieldReleased;
        }
        match &self.modal {
            Some(Modal::Busy) => EscapeStep::Busy,
            Some(_) => {
                self.close_modal();
                EscapeStep::DialogClosed
            },
            None => EscapeStep::ToolCancelled,
        }
    }
}

/// What a key does in the gallery's culling view.
#[derive(Clone, Copy, Debug, PartialEq, Eq, Structural)]
pub enum CullingKey {
    /// Not the culling view's: let it through.
    Ignored,
    /// Compare the selected photos side by side.
    OpenCompare,
    /// Leave the comparison.
    CloseCompare,
    /// Make pane 0 or 1 of the comparison the active one.
    ShowPane(u8),
    /// Make the other pane the active one.
    OtherPane,
    /// Zoom the comparison in or out.
    ZoomIn,
    ZoomOut,
    /// Back to the whole photos.
    ResetView,
    /// Rate, flag or label the photos.
    Cull(CullEdit),
}

/// What `key` does in the culling view, with `mods` held, while a
/// comparison is on show or not. `typing` is whether a search box, a
/// field, the AI prompt or menu, or the spotlight has the keyboard.
pub open spec fn spec_culling_key(key: Seq<char>, mods: Modifiers, typing: bool, comparing: bool) -> CullingKey {
    let cull = match spec_shortcut(key) {
        Some(e) => CullingKey::Cull(e),
        None => CullingKey::Ignored,
    };
    if typing || mods.control || mods.platform || mods.alt || mods.function || (mods.shift && key != "+"@) {
        CullingKey::Ignored
    } else if key == "c"@ && !comparing {
        CullingKey::OpenCompare
    } else if comparing {
        if key == "escape"@ || key == "space"@ {
            CullingKey::CloseCompare
        } else if key == "left"@ {
            CullingKey::ShowPane(0)
        } else if key == "right"@ {
            CullingKey::ShowPane(1)
        } else if key == "tab"@ {
            CullingKey::OtherPane
        } else if key == "+"@ || key == "="@ {
            CullingKey::ZoomIn
        } else if key == "-"@ {
            CullingKey::ZoomOut
        } else if key == "f"@ {
            CullingKey::ResetView
        } else {
            cull
        }
    } else {
        cull
    }
}

pub fn culling_key(key: &str, mods: Modifiers, typing: bool, comparing: bool) -> (r: CullingKey)
    ensures
        r == spec_culling_key(key@, mods, typing, comparing),
{
    let cull = match shortcut(key) {
        Some(e) => CullingKey::Cull(e),
        None => CullingKey::Ignored,
    };
    if typing || mods.control || mods.platform || mods.alt || mods.function || (mods.shift && !str_is(key, "+")) {
        return CullingKey::Ignored;
    }
    if str_is(key, "c") && !comparing {
        return CullingKey::OpenCompare;
    }
    if comparing {
        if str_is(key, "escape") || str_is(key, "space") {
            CullingKey::CloseCompare
        } else if str_is(key, "left") {
            CullingKey::ShowPane(0)
        } else if str_is(key, "right") {
            CullingKey::ShowPane(1)
        } else if str_is(key, "tab") {
            CullingKey::OtherPane
        } else if str_is(key, "+") || str_is(key, "=") {
            CullingKey::ZoomIn
        } else if str_is(key, "-") {
            CullingKey::ZoomOut
        } else if str_is(key, "f") {
            CullingKey::ResetView
        } else {
            cull
        }
    } else {
        cull
    }
}

/// What `key` does in the cloud gallery, with `mods` held, while a
/// comparison is on show or not; `culling` is whether the cloud offers
/// culling. Shift only passes in a comparison.
pub open spec fn spec_cloud_culling_key(key: Seq<char>, mods: Modifiers, typing: bool, comparing: bool, culling: bool) -> CullingKey {
    let cull = match spec_shortcut(key) {
        Some(e) => if culling { CullingKey::Cull(e) } else { CullingKey::Ignored },
        None => CullingKey::Ignored,
    };
    if typing || mods.control || mods.platform || mods.alt || mods.function {
        CullingKey::Ignored
    } else if comparing {
        if key == "escape"@ {
            CullingKey::CloseCompare
        } else if key == "left"@ {
            CullingKey::ShowPane(0)
        } else if key == "right"@ {
            CullingKey::ShowPane(1)
        } else if key == "tab"@ {
            CullingKey::OtherPane
        } else if key == "+"@ || key == "="@ {
            CullingKey::ZoomIn
        } else if key == "-"@ {
            CullingKey::ZoomOut
        } else if key == "f"@ {
            CullingKey::ResetView
        } else {
            cull
        }
    } else if mods.shift {
        CullingKey::Ignored
    } else if key == "c"@ && culling {
        CullingKey::OpenCompare
    } else {
        cull
    }
}

pub fn cloud_culling_key(key: &str, mods: Modifiers, typing: bool, comparing: bool, culling: bool) -> (r: CullingKey)
    ensures
        r == spec_cloud_culling_key(key@, mods, typing, comparing, culling),
{
    let cull = match shortcut(key) {
        Some(e) => if culling {
            CullingKey::Cull(e)
        } else {
            CullingKey::Ignored
        },
        None => CullingKey::Ignored,
    };
    if typing || mods.control || mods.platform || mods.alt || mods.function {
        return CullingKey::Ignored;
    }
    if comparing {
        if str_is(key, "escape") {
            CullingKey::CloseCompare
        } else if str_is(key, "left") {
            CullingKey::ShowPane(0)
        } else if str_is(key, "right") {
            CullingKey::ShowPane(1)
        } else if str_is(key, "tab") {
            CullingKey::OtherPane
        } else if str_is(key, "+") || str_is(key, "=") {
            CullingKey::ZoomIn
        } else if str_is(key, "-") {
            CullingKey::ZoomOut
        } else if str_is(key, "f") {
            CullingKey::ResetView
        } else {
            cull
        }
    } else if mods.shift {
        CullingKey::Ignored
    } else if str_is(key, "c") && culling {
        CullingKey::OpenCompare
    } else {
        cull
    }
}

/// The culling keys' letters, which tell them apart.
proof fn lemma_culling_key_names()
    ensures
        "c"@.len() == 1 && "c"@[0] == 'c',
        "escape"@.len() == 6 && "escape"@[0] == 'e',
        "space"@.len() == 5 && "space"@[0] == 's',
        "left"@.len() == 4 && "left"@[0] == 'l',
        "right"@.len() == 5 && "right"@[0] == 'r',
        "tab"@.len() == 3 && "tab"@[0] == 't',
        "+"@.len() == 1 && "+"@[0] == '+',
        "="@.len() == 1 && "="@[0] == '=',
        "-"@.len() == 1 && "-"@[0] == '-',
        "f"@.len() == 1 && "f"@[0] == 'f',
{
    reveal_strlit("c");
    reveal_strlit("escape");
    reveal_strlit("space");
    reveal_strlit("left");
    reveal_strlit("right");
    reveal_strlit("tab");
    reveal_strlit("+");
    reveal_strlit("=");
    reveal_strlit("-");
    reveal_strlit("f");
}

/// No modifier that stops the culling keys is held (Shift aside).
pub open spec fn no_command(mods: Modifiers) -> bool {
    !mods.control && !mods.platform && !mods.alt && !mods.function
}

/// The culling view's keys. While something is typing, or with ⌘, Ctrl,
/// Alt or Fn held, no key is the view's. With nothing held: outside a
/// comparison C opens one; in a comparison Escape and Space leave it, ←
/// shows the first pane and → the second, Tab the other one, + and = zoom
/// in, - zooms out and F goes back to the whole photos; + zooms in with
/// Shift held too, as a keyboard may need it, while Shift stops the other
/// keys.
pub proof fn lemma_culling_keys(key: Seq<char>, mods: Modifiers, typing: bool, comparing: bool)
    ensures
        typing || !no_command(mods) ==> spec_culling_key(key, mods, typing, comparing) == CullingKey::Ignored,
        !typing && no_command(mods) && mods.shift && key != "+"@ ==> spec_culling_key(key, mods, typing, comparing)
            == CullingKey::Ignored,
        !typing && no_command(mods) && !mods.shift && !comparing ==> spec_culling_key("c"@, mods, typing, comparing)
            == CullingKey::OpenCompare,
        !typing && no_command(mods) && !mods.shift && comparing ==> {
            &&& spec_culling_key("escape"@, mods, typing, comparing) == CullingKey::CloseCompare
            &&& spec_culling_key("space"@, mods, typing, comparing) == CullingKey::CloseCompare
            &&& spec_culling_key("left"@, mods, typing, comparing) == CullingKey::ShowPane(0)
            &&& spec_culling_key("right"@, mods, typing, comparing) == CullingKey::ShowPane(1)
            &&& spec_culling_key("tab"@, mods, typing, comparing) == CullingKey::OtherPane
            &&& spec_culling_key("="@, mods, typing, comparing) == CullingKey::ZoomIn
            &&& spec_culling_key("-"@, mods, typing, comparing) == CullingKey::ZoomOut
            &&& spec_culling_key("f"@, mods, typing, comparing) == CullingKey::ResetView
        },
        !typing && no_command(mods) && comparing ==> spec_culling_key("+"@, mods, typing, comparing)
            == CullingKey::ZoomIn,
{
    lemma_culling_key_names();
}

/// The cloud gallery's culling keys: the same in a comparison, except that
/// Space is no key of it and Shift stops nothing there; outside one, C
/// opens a comparison where the cloud offers culling, and Shift stops
/// every key. While something is typing, or with ⌘, Ctrl, Alt or Fn held,
/// no key is the gallery's.
pub proof fn lemma_cloud_culling_keys(key: Seq<char>, mods: Modifiers, typing: bool, comparing: bool, culling: bool)
    ensures
        typing || !no_command(mods) ==> spec_cloud_culling_key(key, mods, typing, comparing, culling)
            == CullingKey::Ignored,
        !typing && no_command(mods) && !comparing && mods.shift ==> spec_cloud_culling_key(
            key,
            mods,
            typing,
            comparing,
            culling,
        ) == CullingKey::Ignored,
        !typing && no_command(mods) && !mods.shift && !comparing && culling ==> spec_cloud_culling_key(
            "c"@,
            mods,
            typing,
            comparing,
            culling,
        ) == CullingKey::OpenCompare,
        !typing && no_command(mods) && comparing ==> {
            &&& spec_cloud_culling_key("escape"@, mods, typing, comparing, culling) == CullingKey::CloseCompare
            &&& spec_cloud_culling_key("left"@, mods, typing, comparing, culling) == CullingKey::ShowPane(0)
            &&& spec_cloud_culling_key("right"@, mods, typing, comparing, culling) == CullingKey::ShowPane(1)
            &&& spec_cloud_culling_key("tab"@, mods, typing, comparing, culling) == CullingKey::OtherPane
            &&& spec_cloud_culling_key("+"@, mods, typing, comparing, culling) == CullingKey::ZoomIn
            &&& spec_cloud_culling_key("="@, mods, typing, comparing, culling) == CullingKey::ZoomIn
            &&& spec_cloud_culling_key("-"@, mods, typing, comparing, culling) == CullingKey::ZoomOut
            &&& spec_cloud_culling_key("f"@, mods, typing, comparing, culling) == CullingKey::ResetView
        },
{
    lemma_culling_key_names();
}

} // verus!
