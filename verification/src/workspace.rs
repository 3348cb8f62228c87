//! The workspace: the dialog on show and the ones suspended under it, the
//! focused dialog field with its caret, the cloud feed and documents, and
//! the open image.
use vstd::prelude::*;
use crate::assets::{Asset, AssetFeed, find_id};
use crate::cloud_sync::Thumbnails;
use crate::culling::Filters;
use crate::import_target::Scope;
use crate::documents::Documents;
use crate::gallery_review::Gallery;
use crate::line_edit::LineEdit;
use crate::metadata::{fields_view, find_key, key_position};
use crate::modal::{ColorTarget, Modal, Rgba8};
use crate::text::str_is;
use crate::viewport_queue::ViewportQueue;

verus! {

/// `std::time::Instant`, carried through opaque: when a caret's blink
/// phase began.
#[verifier::external_type_specification]
#[verifier::external_body]
pub struct ExInstant(std::time::Instant);

/// `Instant::now`: nothing is stated of the instant, which depends on the
/// clock.
#[verifier::external_body]
pub(crate) fn now() -> std::time::Instant {
    std::time::Instant::now()
}

/// `Instant::elapsed` of `i`, in whole milliseconds (`as_millis`): nothing
/// is stated of the count, which depends on the clock.
#[verifier::external_body]
pub(crate) fn elapsed_millis(i: &std::time::Instant) -> u128 {
    i.elapsed().as_millis()
}

/// Refine Mask's session while its dialog is up: whether a render is
/// running, whether the layer is RGB (so its edges can be decontaminated),
/// and the last error to show.
#[derive(Debug)]
pub struct MaskRefineState {
    pub processing: bool,
    pub rgb: bool,
    pub error: Option<String>,
}

/// Work that belongs to whichever dialog is up, and goes away with it.
#[derive(Debug)]
pub struct Jobs {
    pub printing: bool,
    pub photo_merge_job: bool,
    pub library_versions: bool,
    pub file_picker: bool,
    pub filter_preview: bool,
    pub layer_style_preview: bool,
    pub preferences_preview: bool,
    pub update_progress: bool,
    pub batch_cancel: Option<bool>,
    pub mask_refine: Option<MaskRefineState>,
    pub filter_canvas: Option<(usize, usize)>,
}

/// Transient pieces of the window's chrome.
#[derive(Debug)]
pub struct Chrome {
    pub context_menu: bool,
    pub open_popup: bool,
    pub dropdown_search: LineEdit,
    pub default_action: bool,
    pub spotlight_open: bool,
    pub gallery_search_active: bool,
    pub layer_rename: bool,
    pub note_edit: bool,
    pub ai_input_active: bool,
    pub ai_model_menu: bool,
    pub tool_flyout: bool,
}

/// The editor's colours and active tool.
#[derive(Debug)]
pub struct EditorState {
    pub foreground: Rgba8,
    pub background: Rgba8,
    pub note_color: Rgba8,
    pub active_tool: String,
}

/// A registered tool, as far as the workspace asks it anything.
#[derive(Debug)]
pub struct ToolInfo {
    pub id: String,
    pub captures_keys: bool,
}

/// A spot colour channel of the document.
#[derive(Debug)]
pub struct InkChannel {
    pub id: u32,
    pub name: String,
}

/// The open image: its canvas, its raster layers' pixels (row-major,
/// `width`×`height` each), its spot channels and its history.
#[derive(Debug)]
pub struct Document {
    pub title: String,
    pub width: usize,
    pub height: usize,
    pub layers: Vec<Vec<u32>>,
    pub ink_channels: Vec<InkChannel>,
    pub active_ink: Option<u32>,
    pub history: Vec<String>,
}

impl Document {
    /// Every layer covers the canvas.
    pub open spec fn wf(&self) -> bool {
        forall|l: int| 0 <= l < self.layers@.len() ==> #[trigger] self.layers@[l]@.len() == self.width * self.height
    }
}

/// A recorded action being edited: its name and, per step, the layer name a
/// "select layer" step selects.
#[derive(Debug)]
pub struct ActionDraft {
    pub name: String,
    pub layer_steps: Vec<Option<String>>,
}

/// The workspace.
pub struct Workspace {
    pub modal: Option<Modal>,
    pub modal_stack: Vec<Modal>,
    pub focused_field: Option<String>,
    pub field_buffer: String,
    pub field_cursor: usize,
    pub field_anchor: usize,
    pub field_fresh: bool,
    pub caret_phase: Option<std::time::Instant>,
    pub chrome: Chrome,
    pub jobs: Jobs,
    pub cloud_enabled: bool,
    pub cloud_client: bool,
    pub cloud_epoch: u64,
    pub thumbnails: Thumbnails,
    pub cloud_progress: Option<(u64, u64, String)>,
    pub map_loading: bool,
    pub map_key: Option<String>,
    pub close_after_save: Option<u64>,
    pub select_anchor: Option<String>,
    pub query_text: String,
    pub query_limit: u64,
    pub search_text: String,
    pub query_filters: Filters,
    pub query_scope: Scope,
    pub catalogue: String,
    pub form_target: Option<(String, u64)>,
    pub form_scope: Scope,
    pub feed: AssetFeed,
    pub gallery: Gallery,
    pub documents: Documents,
    pub workflow_ticks: u16,
    pub workflows_running: bool,
    pub status: String,
    pub cloud_message: String,
    pub library_open: bool,
    pub editor: EditorState,
    pub tools: Vec<ToolInfo>,
    pub doc: Option<Document>,
    pub brush_preset_name: String,
    pub viewer_name: Option<String>,
    pub action_draft: Option<ActionDraft>,
    pub generation_editing: Option<String>,
    pub generation_inputs: Vec<(String, String)>,
    pub browser_gpu: ViewportQueue,
}

/// How many photos one page of the gallery's query asks for.
pub const PAGE_SIZE: u64 = 200;

impl Workspace {
    /// A workspace with no image, no dialog and nothing focused, the cloud
    /// feature on or off: not signed in, with an empty gallery whose query
    /// asks for a page of `PAGE_SIZE` photos.
    pub fn new(cloud_enabled: bool) -> (r: Workspace)
        ensures
            r.cloud_enabled == cloud_enabled,
            r.modal is None,
            r.modal_stack@.len() == 0,
            r.focused_field is None,
            r.field_buffer@.len() == 0,
            r.doc is None,
            r.tools@.len() == 0,
            !r.cloud_client,
            r.workflow_ticks == 400,
            !r.workflows_running,
            r.gallery.view is None,
            r.gallery.wf(),
            r.cloud_epoch == 0,
            r.cloud_progress is None,
            r.cloud_message@ == "cloud.msg.not_signed_in"@,
            r.query_text@.len() == 0,
            r.query_limit == PAGE_SIZE,
            r.feed.pages@.len() == 0,
            r.feed.assets@.len() == 0,
            r.feed.total == 0,
            !r.feed.loaded,
            r.feed.load_error is None,
            !r.feed.show,
            !r.feed.signed_in,
            r.feed.map_assets@.len() == 0,
            r.feed.grid_wanted@.len() == 0,
            r.feed.map_wanted@.len() == 0,
            r.feed.selected@.len() == 0,
            r.feed.people is None,
            r.feed.people_target is None,
            r.feed.changes == 0,
            !r.browser_gpu.context && !r.browser_gpu.pending,
            r.browser_gpu.requested is None && r.browser_gpu.failed is None,
            r.documents.docs@.len() == 0,
            r.documents.pending@.len() == 0,
            !r.documents.connected,
    {
        Workspace {
            modal: None,
            modal_stack: Vec::new(),
            focused_field: None,
            field_buffer: String::new(),
            field_cursor: 0,
            field_anchor: 0,
            field_fresh: false,
            caret_phase: None,
            chrome: Chrome {
                context_menu: false,
                open_popup: false,
                dropdown_search: LineEdit::new(),
                default_action: false,
                spotlight_open: false,
                gallery_search_active: false,
                layer_rename: false,
                note_edit: false,
                ai_input_active: false,
                ai_model_menu: false,
                tool_flyout: false,
            },
            jobs: Jobs {
                printing: false,
                photo_merge_job: false,
                library_versions: false,
                file_picker: false,
                filter_preview: false,
                layer_style_preview: false,
                preferences_preview: false,
                update_progress: false,
                batch_cancel: None,
                mask_refine: None,
                filter_canvas: None,
            },
            cloud_enabled,
            cloud_client: false,
            cloud_epoch: 0,
            thumbnails: Thumbnails { active: 0, have: Vec::new(), failed: Vec::new(), jobs: Vec::new() },
            cloud_progress: None,
            map_loading: false,
            map_key: None,
            close_after_save: None,
            select_anchor: None,
            query_text: String::new(),
            query_limit: PAGE_SIZE,
            search_text: String::new(),
            query_filters: Filters {
                person_id: None,
                mime_types: None,
                tags: None,
                edited: None,
                content: None,
                min_rating: None,
                captured_after: None,
                captured_before: None,
                flag: None,
                label: None,
            },
            query_scope: Scope::Library,
            catalogue: String::new(),
            form_target: None,
            form_scope: Scope::Library,
            feed: AssetFeed::new(),
            gallery: Gallery::new(),
            documents: Documents::new(),
            workflow_ticks: 400,
            workflows_running: false,
            status: String::new(),
            cloud_message: "cloud.msg.not_signed_in".to_owned(),
            library_open: false,
            editor: EditorState {
                foreground: Rgba8 { r: 0, g: 0, b: 0, a: 255 },
                background: Rgba8 { r: 255, g: 255, b: 255, a: 255 },
                note_color: Rgba8 { r: 255, g: 230, b: 120, a: 255 },
                active_tool: String::new(),
            },
            tools: Vec::new(),
            doc: None,
            brush_preset_name: String::new(),
            viewer_name: None,
            action_draft: None,
            generation_editing: None,
            generation_inputs: Vec::new(),
            browser_gpu: ViewportQueue::new(),
        }
    }
}

impl Workspace {
    /// Enter let the active tool commit its pending gesture: `transform` is
    /// the transform the tool reported before committing, `before` and
    /// `after` the document's revision around the commit. The result is the
    /// transform to record as a step of the action being recorded: the
    /// tool's, but only where the commit changed the document.
    pub fn commit_gesture<T>(transform: Option<T>, before: u64, after: u64) -> (recorded: Option<T>)
        ensures
            recorded == if after != before { transform } else { None },
    {
        if after != before {
            transform
        } else {
            None
        }
    }
}

// ---------------------------------------------------------------------
// The people view's photo follows the dialog on show.

/// The photo the people view holds once `modal` is on show: for the view
/// and naming dialogs, the photo they name, on the page or, failing that,
/// the copy held already; for any other dialog, none.
pub open spec fn spec_people_target(feed: AssetFeed, modal: Option<Modal>) -> Option<Asset> {
    match modal {
        Some(Modal::Cloud { kind, fields }) => if kind@ == "people-view"@ || kind@ == "face-name"@ {
            let f = fields_view(fields@);
            let k = find_key(f, "cloud-asset-id"@);
            if k < 0 {
                None
            } else {
                let id = f[k].2;
                let p = find_id(feed.assets@, id);
                if p >= 0 {
                    Some(feed.assets@[p])
                } else {
                    match feed.people_target {
                        Some(t) => if t.id@ == id {
                            Some(t)
                        } else {
                            None
                        },
                        None => None,
                    }
                }
            }
        } else {
            None
        },
        _ => None,
    }
}

impl AssetFeed {
    /// The people view and naming dialogs hold on to the photo they are
    /// about while `modal` is on show; any other dialog releases it.
    pub fn set_people_modal(&mut self, modal: Option<&Modal>)
        ensures
            *final(self) == (AssetFeed {
                people_target: spec_people_target(*old(self), match modal {
                    Some(m) => Some(*m),
                    None => None,
                }),
                ..*old(self)
            }),
    {
        let mut target: Option<Asset> = None;
        if let Some(Modal::Cloud { kind, fields }) = modal {
            if str_is(kind.as_str(), "people-view") || str_is(kind.as_str(), "face-name") {
                if let Some(k) = key_position(fields, "cloud-asset-id") {
                    target = match self.people_asset(fields[k].2.as_str()) {
                        Some(a) => Some(a.duplicate()),
                        None => None,
                    };
                }
            }
        }
        self.people_target = target;
    }
}

// ---------------------------------------------------------------------
// Opening and closing dialogs.

/// A line edit with nothing in it and no caret shown.
pub open spec fn line_edit_cleared(e: LineEdit) -> bool {
    &&& e.text@.len() == 0
    &&& e.cursor == 0
    &&& e.anchor == 0
    &&& !e.active
}

/// Printing and a photo merge stop whenever the dialogs change.
pub open spec fn jobs_stopped(j: Jobs) -> Jobs {
    Jobs { printing: false, photo_merge_job: false, ..j }
}

/// The library's version list is dropped with the version history dialog.
pub open spec fn versions_after(j: Jobs, shown: Option<Modal>) -> bool {
    j.library_versions && !(shown matches Some(Modal::VersionHistory))
}

/// `new` is `old` with `m` put on show, whatever is suspended under it:
/// focus, popups and the previous dialog's work are dropped, and the people
/// view follows the new dialog.
pub open spec fn dialog_shown(pre: Workspace, post: Workspace, m: Modal) -> bool {
    &&& post.field_buffer@.len() == 0
    &&& line_edit_cleared(post.chrome.dropdown_search)
    &&& post == Workspace {
        modal: Some(m),
        modal_stack: post.modal_stack,
        focused_field: None,
        field_buffer: post.field_buffer,
        chrome: Chrome {
            context_menu: false,
            open_popup: false,
            dropdown_search: post.chrome.dropdown_search,
            ..pre.chrome
        },
        jobs: Jobs {
            library_versions: versions_after(pre.jobs, pre.modal),
            mask_refine: if m is MaskRefine { pre.jobs.mask_refine } else { None },
            filter_canvas: None,
            ..jobs_stopped(pre.jobs)
        },
        feed: AssetFeed { people_target: spec_people_target(pre.feed, Some(m)), ..pre.feed },
        ..pre
    }
}

/// `new` is `old` after `m` was opened from the menus: it replaces whatever
/// was up, suspended dialogs included.
pub open spec fn modal_opened(pre: Workspace, post: Workspace, m: Modal) -> bool {
    &&& post.modal_stack@.len() == 0
    &&& dialog_shown(pre, post, m)
}

/// `new` is `old` after a cloud dialog was refused for want of the cloud
/// feature: only printing and a photo merge were stopped.
pub open spec fn modal_refused(pre: Workspace, post: Workspace) -> bool {
    post == Workspace { jobs: jobs_stopped(pre.jobs), ..pre }
}

/// `new` is `old` after the dialog on show was closed: the one suspended
/// under it, if any, comes back; the closed dialog's previews, pickers and
/// sessions are cancelled. A running batch is asked to stop instead, and
/// its dialog stays.
pub open spec fn modal_closed(pre: Workspace, post: Workspace) -> bool {
    if pre.modal matches Some(Modal::RecordedActionBatch { finished: false }) {
        post == Workspace {
            jobs: Jobs {
                batch_cancel: if pre.jobs.batch_cancel is Some { Some(true) } else { None },
                ..jobs_stopped(pre.jobs)
            },
            ..pre
        }
    } else {
        let back = if pre.modal_stack@.len() > 0 { Some(pre.modal_stack@.last()) } else { None };
        &&& post.modal_stack@ == (if pre.modal_stack@.len() > 0 { pre.modal_stack@.drop_last() } else { pre.modal_stack@ })
        &&& post.field_buffer@.len() == 0
        &&& post == Workspace {
            modal: back,
            modal_stack: post.modal_stack,
            focused_field: None,
            field_buffer: post.field_buffer,
            chrome: Chrome { default_action: false, open_popup: false, ..pre.chrome },
            jobs: Jobs {
                library_versions: versions_after(pre.jobs, pre.modal),
                mask_refine: None,
                filter_canvas: None,
                file_picker: false,
                filter_preview: false,
                layer_style_preview: false,
                preferences_preview: pre.jobs.preferences_preview && !(pre.modal matches Some(Modal::Preferences)),
                update_progress: pre.jobs.update_progress && !(pre.modal matches Some(Modal::UpdateAvailable)),
                ..jobs_stopped(pre.jobs)
            },
            feed: AssetFeed { people_target: spec_people_target(pre.feed, back), ..pre.feed },
            ..pre
        }
    }
}

/// `new` is `old` with `p` opened over the dialog on show, which is
/// suspended under it.
pub open spec fn opened_over(pre: Workspace, post: Workspace, p: Modal) -> bool {
    &&& post.modal_stack@ == match pre.modal {
        Some(d) => seq![d],
        None => Seq::<Modal>::empty(),
    }
    &&& dialog_shown(Workspace { modal: None, ..pre }, post, p)
}

impl Jobs {
    /// The dialog's work as another dialog replaces it: the version list
    /// goes with the version history, Refine Mask's session unless it is
    /// kept, and any filter canvas.
    fn leave(&mut self, versions_shown: bool, keep_refine: bool)
        ensures
            *final(self) == (Jobs {
                library_versions: old(self).library_versions && !versions_shown,
                mask_refine: if keep_refine { old(self).mask_refine } else { None },
                filter_canvas: None,
                ..*old(self)
            }),
    {
        if versions_shown {
            self.library_versions = false;
        }
        if !keep_refine {
            self.mask_refine = None;
        }
        self.filter_canvas = None;
    }

    /// The dialog's work as it closes: previews, pickers and sessions are
    /// cancelled, and the dialog's own downloads and lists with it.
    fn close(&mut self, versions_shown: bool, preferences_shown: bool, update_shown: bool)
        ensures
            *final(self) == (Jobs {
                library_versions: old(self).library_versions && !versions_shown,
                mask_refine: None,
                filter_canvas: None,
                file_picker: false,
                filter_preview: false,
                layer_style_preview: false,
                preferences_preview: old(self).preferences_preview && !preferences_shown,
                update_progress: old(self).update_progress && !update_shown,
                ..*old(self)
            }),
    {
        if versions_shown {
            self.library_versions = false;
        }
        if preferences_shown {
            self.preferences_preview = false;
        }
        if update_shown {
            self.update_progress = false;
        }
        self.mask_refine = None;
        self.file_picker = false;
        self.filter_canvas = None;
        self.filter_preview = false;
        self.layer_style_preview = false;
    }

    fn stop_foreground(&mut self)
        ensures
            *final(self) == jobs_stopped(*old(self)),
    {
        self.printing = false;
        self.photo_merge_job = false;
    }
}

impl Workspace {
    fn stop_foreground(&mut self)
        ensures
            *final(self) == (Workspace { jobs: jobs_stopped(old(self).jobs), ..*old(self) }),
    {
        self.jobs.stop_foreground();
    }

    /// Drop the work of the dialog on show as another replaces it.
    fn leave_dialog_jobs(&mut self, keep_refine: bool)
        ensures
            *final(self) == (Workspace {
                jobs: Jobs {
                    library_versions: versions_after(old(self).jobs, old(self).modal),
                    mask_refine: if keep_refine { old(self).jobs.mask_refine } else { None },
                    filter_canvas: None,
                    ..old(self).jobs
                },
                ..*old(self)
            }),
    {
        let shown = match &self.modal {
            Some(Modal::VersionHistory) => true,
            _ => false,
        };
        self.jobs.leave(shown, keep_refine);
    }

    /// Put `modal` on show with nothing suspended under it, and drop focus
    /// and popups.
    fn show_dialog(&mut self, modal: Modal)
        ensures
            final(self).modal_stack@.len() == 0,
            final(self).field_buffer@.len() == 0,
            line_edit_cleared(final(self).chrome.dropdown_search),
            *final(self) == (Workspace {
                modal: Some(modal),
                modal_stack: final(self).modal_stack,
                focused_field: None,
                field_buffer: final(self).field_buffer,
                chrome: Chrome {
                    context_menu: false,
                    open_popup: false,
                    dropdown_search: final(self).chrome.dropdown_search,
                    ..old(self).chrome
                },
                feed: AssetFeed { people_target: spec_people_target(old(self).feed, Some(modal)), ..old(self).feed },
                ..*old(self)
            }),
    {
        self.feed.set_people_modal(Some(&modal));
        self.modal = Some(modal);
        self.modal_stack = Vec::new();
        self.focused_field = None;
        self.field_buffer = String::new();
        self.chrome.context_menu = false;
        self.chrome.open_popup = false;
        self.chrome.dropdown_search = LineEdit::new();
    }

    /// Open a dialog from the menus. A cloud dialog is refused while the
    /// cloud feature is off.
    pub fn open_modal(&mut self, modal: Modal)
        ensures
            if !old(self).cloud_enabled && modal.spec_is_cloud() {
                modal_refused(*old(self), *final(self))
            } else {
                modal_opened(*old(self), *final(self), modal)
            },
    {
        self.stop_foreground();
        if !self.cloud_enabled && modal.is_cloud() {
            return;
        }
        let keep_refine = match &modal {
            Modal::MaskRefine => true,
            _ => false,
        };
        self.leave_dialog_jobs(keep_refine);
        self.show_dialog(modal);
    }

    /// Ask a running batch to stop.
    fn cancel_batch(&mut self)
        ensures
            *final(self) == (Workspace {
                jobs: Jobs {
                    batch_cancel: if old(self).jobs.batch_cancel is Some { Some(true) } else { None },
                    ..old(self).jobs
                },
                ..*old(self)
            }),
    {
        if self.jobs.batch_cancel.is_some() {
            self.jobs.batch_cancel = Some(true);
        }
    }

    /// Cancel the previews, pickers and sessions of the dialog on show as it
    /// closes.
    fn close_dialog_jobs(&mut self)
        ensures
            *final(self) == (Workspace {
                jobs: Jobs {
                    library_versions: versions_after(old(self).jobs, old(self).modal),
                    mask_refine: None,
                    filter_canvas: None,
                    file_picker: false,
                    filter_preview: false,
                    layer_style_preview: false,
                    preferences_preview: old(self).jobs.preferences_preview && !(old(self).modal matches Some(Modal::Preferences)),
                    update_progress: old(self).jobs.update_progress && !(old(self).modal matches Some(Modal::UpdateAvailable)),
                    ..old(self).jobs
                },
                ..*old(self)
            }),
    {
        let (versions, preferences, update) = match &self.modal {
            Some(Modal::VersionHistory) => (true, false, false),
            Some(Modal::Preferences) => (false, true, false),
            Some(Modal::UpdateAvailable) => (false, false, true),
            _ => (false, false, false),
        };
        self.jobs.close(versions, preferences, update);
    }

    /// Bring back the dialog suspended under the one on show, if any.
    fn restore_suspended(&mut self)
        ensures
            ({
                let back = if old(self).modal_stack@.len() > 0 { Some(old(self).modal_stack@.last()) } else { None };
                &&& final(self).modal_stack@ == (if old(self).modal_stack@.len() > 0 {
                    old(self).modal_stack@.drop_last()
                } else {
                    old(self).modal_stack@
                })
                &&& final(self).field_buffer@.len() == 0
                &&& *final(self) == (Workspace {
                    modal: back,
                    modal_stack: final(self).modal_stack,
                    focused_field: None,
                    field_buffer: final(self).field_buffer,
                    chrome: Chrome { default_action: false, open_popup: false, ..old(self).chrome },
                    feed: AssetFeed { people_target: spec_people_target(old(self).feed, back), ..old(self).feed },
                    ..*old(self)
                })
            }),
    {
        let back = self.modal_stack.pop();
        match &back {
            Some(m) => self.feed.set_people_modal(Some(m)),
            None => self.feed.set_people_modal(None),
        }
        self.modal = back;
        self.focused_field = None;
        self.field_buffer = String::new();
        self.chrome.default_action = false;
        self.chrome.open_popup = false;
    }

    /// Close the dialog on show, bringing back the one it was opened over.
    pub fn close_modal(&mut self)
        ensures
            modal_closed(*old(self), *final(self)),
    {
        self.stop_foreground();
        if let Some(Modal::RecordedActionBatch { finished: false }) = &self.modal {
            self.cancel_batch();
            return;
        }
        self.close_dialog_jobs();
        self.restore_suspended();
    }

    /// The dialog on show, to change in place.
    pub fn update_modal(&mut self) -> (r: Option<&mut Modal>)
        ensures
            match r {
                Some(m) => old(self).modal == Some(*m) && final(self).modal == Some(*final(m)),
                None => old(self).modal is None && final(self).modal is None,
            },
            *final(self) == (Workspace { modal: final(self).modal, ..*old(self) }),
    {
        match &mut self.modal {
            Some(m) => Some(m),
            None => None,
        }
    }

    /// Open `m` over the dialog on show, which is suspended under it.
    pub fn open_over(&mut self, m: Modal)
        requires
            !m.spec_is_cloud(),
        ensures
            opened_over(*old(self), *final(self), m),
    {
        let parent = self.modal.take();
        assert(*self == Workspace { modal: None, ..*old(self) });
        self.open_modal(m);
        let ghost shown = *self;
        if let Some(parent) = parent {
            self.modal_stack.push(parent);
            assert(self.modal_stack@ =~= seq![parent]);
        }
        assert(*self == Workspace { modal_stack: self.modal_stack, ..shown });
        assert(self.modal_stack@ =~= match old(self).modal {
            Some(d) => seq![d],
            None => Seq::<Modal>::empty(),
        });
    }

    /// Open the colour picker over the dialog on show, which is suspended
    /// rather than closed: closing the picker, OK'd or cancelled, brings it
    /// back.
    pub fn open_color_picker_on(&mut self, target: ColorTarget, original: Rgba8)
        ensures
            opened_over(*old(self), *final(self), Modal::ColorPicker { target, original }),
    {
        self.open_over(Modal::ColorPicker { target, original });
    }

    /// Open the colour picker on one of the editor's colours. The picker's
    /// other targets belong to dialogs that supply the colour themselves,
    /// and open nothing from here.
    pub fn open_color_picker(&mut self, target: ColorTarget)
        ensures
            match target {
                ColorTarget::Foreground | ColorTarget::Background | ColorTarget::Note => {
                    let original = match target {
                        ColorTarget::Foreground => old(self).editor.foreground,
                        ColorTarget::Background => old(self).editor.background,
                        _ => old(self).editor.note_color,
                    };
                    opened_over(*old(self), *final(self), Modal::ColorPicker { target, original })
                },
                _ => *final(self) == *old(self),
            },
    {
        let original = match target {
            ColorTarget::Foreground => self.editor.foreground,
            ColorTarget::Background => self.editor.background,
            ColorTarget::Note => self.editor.note_color,
            _ => {
                return;
            },
        };
        self.open_color_picker_on(target, original);
    }
}

/// Whatever dialog is up, a colour picker opened over it and then closed,
/// whether OK'd or cancelled, brings exactly that dialog back, with nothing
/// left suspended.
pub proof fn lemma_picker_returns_to_its_dialog(a: Workspace, b: Workspace, c: Workspace, target: ColorTarget, original: Rgba8)
    requires
        a.modal is Some,
        opened_over(a, b, Modal::ColorPicker { target, original }),
        modal_closed(b, c),
    ensures
        c.modal == a.modal,
        c.modal_stack@.len() == 0,
{
    assert(b.modal_stack@.drop_last() =~= Seq::<Modal>::empty());
}

/// Opening a dialog from the menus leaves no dialog suspended, so closing
/// it leaves none up.
pub proof fn lemma_open_then_close_leaves_none(a: Workspace, b: Workspace, c: Workspace, m: Modal)
    requires
        modal_opened(a, b, m),
        !(m matches Modal::RecordedActionBatch { finished: false }),
        modal_closed(b, c),
    ensures
        c.modal is None,
        c.modal_stack@.len() == 0,
        c.focused_field is None,
{
}

} // verus!
