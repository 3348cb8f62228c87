//! The export recipe dialog's workspace entry points: the finishing page
//! opened over it and saved back into it, saving and deleting a recipe,
//! and what running one starts.
use vstd::prelude::*;
use crate::assets::clone_string_opt;
use crate::field_commit::{field_committed, focused_field_ok};
use crate::modal::{FinishingCategory, Modal, RecipeEditor, same_recipe_content};
use crate::workspace::{Workspace, modal_closed, opened_over};
use crate::modal::clone_strings;

verus! {

/// The countdown the cloud workflow sync restarts from when a library it
/// carries changes.
pub open spec fn workflow_delay() -> u16 {
    400
}

/// `mid` is `old` after the focused field, if any, was committed.
pub open spec fn focus_committed(pre: Workspace, mid: Workspace) -> bool {
    match pre.focused_field {
        Some(f) => field_committed(pre, mid, f@),
        None => mid == pre,
    }
}

/// `new` is `mid` with the recipe dialog's finishing page `cat` opened
/// over it: a copy of the dialog, on page `cat`, without its error, with
/// the dialog itself suspended underneath. Without a recipe dialog up,
/// nothing happens.
pub open spec fn finishing_opened(mid: Workspace, post: Workspace, cat: FinishingCategory) -> bool {
    match mid.modal {
        Some(Modal::ExportRecipes { editor }) => {
            &&& post.modal matches Some(Modal::ExportRecipes { editor: e2 }) && same_recipe_content(e2, editor)
                && e2.finishing_category == Some(cat) && e2.error is None
            &&& opened_over(mid, post, post.modal->0)
        },
        _ => post == mid,
    }
}

/// `new` is `mid` after the finishing page was saved: the page's copy of
/// the dialog, off its page and with the error the dialog underneath
/// showed, replaces that dialog, and the page closes onto it. Without a
/// finishing page over a recipe dialog, nothing happens.
pub open spec fn finishing_saved(mid: Workspace, post: Workspace) -> bool {
    let n = mid.modal_stack@.len();
    if mid.modal matches Some(Modal::ExportRecipes { editor }) && editor.finishing_category is Some && n > 0
        && mid.modal_stack@[n - 1] is ExportRecipes {
        let parent = mid.modal_stack@[n - 1]->editor;
        let page = mid.modal->0->editor;
        &&& post.modal matches Some(Modal::ExportRecipes { editor: e2 }) && same_recipe_content(e2, page)
            && e2.finishing_category is None && e2.error == parent.error
        &&& exists|before: Workspace|
            #![trigger modal_closed(before, post)]
            before.modal_stack@ == mid.modal_stack@.update(n - 1, post.modal->0) && before == (Workspace {
                modal_stack: before.modal_stack,
                ..mid
            }) && modal_closed(before, post)
    } else {
        post == mid
    }
}

/// The recipe book Delete asks to be written: the recipes without the
/// deleted one, and the selection on the same place or the last recipe.
#[derive(Debug)]
pub struct RecipeBook {
    pub recipes: Vec<String>,
    pub selected: usize,
}

/// The selection after recipe `i` of `len` went: the same place, or the
/// last recipe, or the first of none.
pub open spec fn selection_after_delete(i: int, len: int) -> int {
    let last = if len - 1 > 0 { len - 1 } else { 0 };
    if i < last { i } else { last }
}

/// After a recipe is deleted the selection stays on the same place, now
/// holding the recipe that followed, or, when the last one went, moves to
/// the new last recipe; it is always one of the `len` recipes left, or
/// the first place when none is left.
pub proof fn lemma_selection_after_delete(i: int, len: int)
    requires
        0 <= i <= len,
    ensures
        i < len ==> selection_after_delete(i, len) == i,
        len > 0 && i == len ==> selection_after_delete(i, len) == len - 1,
        len > 0 ==> 0 <= selection_after_delete(i, len) < len,
        len == 0 ==> selection_after_delete(i, len) == 0,
{
}

impl Workspace {
    /// A library the cloud workflow sync carries changed: restart its
    /// countdown.
    pub fn cloud_workflows_changed(&mut self)
        ensures
            *final(self) == (Workspace { workflow_ticks: workflow_delay(), ..*old(self) }),
    {
        self.workflow_ticks = 400;
    }

    /// Open finishing page `category` over the recipe dialog, after
    /// committing the focused field.
    pub fn open_export_finishing(&mut self, category: FinishingCategory)
        requires
            focused_field_ok(old(self).modal, old(self).focused_field),
        ensures
            exists|mid: Workspace|
                #![trigger focus_committed(*old(self), mid)]
                focus_committed(*old(self), mid) && finishing_opened(mid, *final(self), category),
    {
        self.commit_focused_field();
        let ghost mid = *self;
        let mut editor = match &self.modal {
            Some(Modal::ExportRecipes { editor }) => editor.duplicate(),
            _ => {
                assert(focus_committed(*old(self), mid));
                return;
            },
        };
        editor.finishing_category = Some(category);
        editor.error = None;
        self.open_over(Modal::ExportRecipes { editor });
        assert(focus_committed(*old(self), mid));
    }

    /// Save the finishing page back into the recipe dialog under it and
    /// close the page, after committing the focused field.
    pub fn save_export_finishing(&mut self)
        requires
            focused_field_ok(old(self).modal, old(self).focused_field),
        ensures
            exists|mid: Workspace|
                #![trigger focus_committed(*old(self), mid)]
                focus_committed(*old(self), mid) && finishing_saved(mid, *final(self)),
    {
        self.commit_focused_field();
        let ghost mid = *self;
        assert(focus_committed(*old(self), mid));
        let mut editor = match &self.modal {
            Some(Modal::ExportRecipes { editor }) => {
                if editor.finishing_category.is_none() {
                    return;
                }
                editor.duplicate()
            },
            _ => return,
        };
        let n = self.modal_stack.len();
        if n == 0 {
            return;
        }
        let error = match &self.modal_stack[n - 1] {
            Modal::ExportRecipes { editor: parent } => clone_string_opt(&parent.error),
            _ => return,
        };
        editor.finishing_category = None;
        editor.error = error;
        let saved = Modal::ExportRecipes { editor };
        self.modal_stack.set(n - 1, saved);
        let ghost before = *self;
        self.close_modal();
        assert(modal_closed(before, *self));
    }

    /// Delete the recipe selected in the recipe dialog: the book without it,
    /// for the caller to write. Nothing to write without a selection.
    pub fn delete_export_recipe(&self) -> (book: Option<RecipeBook>)
        requires
            self.modal matches Some(Modal::ExportRecipes { editor }) ==> (editor.selected matches Some(i)
                ==> i < editor.recipes@.len()),
        ensures
            match self.modal {
                Some(Modal::ExportRecipes { editor }) => match editor.selected {
                    Some(i) => book matches Some(b) && b.recipes@ == editor.recipes@.remove(i as int)
                        && b.selected == selection_after_delete(i as int, editor.recipes@.len() - 1),
                    None => book is None,
                },
                _ => book is None,
            },
    {
        let editor = match &self.modal {
            Some(Modal::ExportRecipes { editor }) => editor,
            _ => return None,
        };
        let index = match editor.selected {
            Some(i) => i,
            None => return None,
        };
        let mut recipes = crate::modal::clone_strings(&editor.recipes);
        recipes.remove(index);
        let len = recipes.len();
        let last = if len > 0 {
            len - 1
        } else {
            0
        };
        let selected = if index < last {
            index
        } else {
            last
        };
        Some(RecipeBook { recipes, selected })
    }

    /// The recipe book from Delete was written, or failed to be. Written,
    /// the dialog shows the new book with nothing selected and no error;
    /// failed, it shows the error. Either way the workflow sync restarts
    /// its countdown and the focused field lets go.
    pub fn export_recipe_book_saved(&mut self, book: RecipeBook, saved: Result<(), String>)
        ensures
            final(self).workflow_ticks == workflow_delay(),
            final(self).focused_field is None,
            final(self).field_buffer@.len() == 0,
            match old(self).modal {
                Some(Modal::ExportRecipes { editor }) => final(self).modal == Some(Modal::ExportRecipes {
                    editor: match saved {
                        Ok(_) => RecipeEditor {
                            recipes: book.recipes,
                            book_selected: book.selected,
                            selected: None,
                            finishing_category: None,
                            error: None,
                            ..editor
                        },
                        Err(e) => RecipeEditor { error: Some(e), ..editor },
                    },
                }),
                _ => final(self).modal == old(self).modal,
            },
            *final(self) == (Workspace {
                modal: final(self).modal,
                workflow_ticks: final(self).workflow_ticks,
                focused_field: None,
                field_buffer: final(self).field_buffer,
                ..*old(self)
            }),
    {
        if let Some(Modal::ExportRecipes { editor }) = &mut self.modal {
            match saved {
                Ok(_) => {
                    editor.recipes = book.recipes;
                    editor.book_selected = book.selected;
                    editor.selected = None;
                    editor.finishing_category = None;
                    editor.error = None;
                },
                Err(e) => {
                    editor.error = Some(e);
                },
            }
        }
        self.cloud_workflows_changed();
        self.focused_field = None;
        self.field_buffer = String::new();
    }
}

/// What running the recipe dialog's recipe starts.
#[derive(Debug, PartialEq)]
pub enum ExportStart {
    /// Nothing: no recipe dialog, or nothing to export.
    Nothing,
    /// The dialog shows why the run cannot start.
    Refused,
    /// Run the recipe in the cloud over these photos.
    Cloud(Vec<String>),
    /// Run it here over these photos and, with `document`, the open image;
    /// the dialog closed.
    Local { photos: Vec<String>, document: bool },
}

/// `post` is `pre` with the recipe dialog, on show as `editor`, now
/// showing `error`.
pub open spec fn recipe_error_shown(pre: Workspace, post: Workspace, editor: RecipeEditor, error: Seq<char>) -> bool {
    &&& post.modal matches Some(Modal::ExportRecipes { editor: e2 }) && e2.error is Some && e2.error->0@ == error
        && e2 == (RecipeEditor { error: e2.error, ..editor })
    &&& post == (Workspace { modal: post.modal, ..pre })
}

impl Workspace {
    /// The recipe dialog's recipe was written to the book, or failed to
    /// be: written, the status says so and the workflow sync restarts its
    /// countdown; failed, the dialog shows why. Returns whether it was
    /// written; without a recipe dialog nothing happens.
    pub fn export_recipe_saved(&mut self, saved: Result<(), String>) -> (ok: bool)
        ensures
            match old(self).modal {
                Some(Modal::ExportRecipes { editor }) => match saved {
                    Ok(_) => {
                        &&& ok
                        &&& final(self).status@ == "export_recipes.saved"@
                        &&& *final(self) == (Workspace { status: final(self).status, workflow_ticks: workflow_delay(), ..*old(self) })
                    },
                    Err(e) => !ok && *final(self) == (Workspace {
                        modal: Some(Modal::ExportRecipes { editor: RecipeEditor { error: Some(e), ..editor } }),
                        ..*old(self)
                    }),
                },
                _ => !ok && *final(self) == *old(self),
            },
    {
        match &mut self.modal {
            Some(Modal::ExportRecipes { editor }) => match saved {
                Ok(_) => {},
                Err(e) => {
                    editor.error = Some(e);
                    return false;
                },
            },
            _ => return false,
        }
        self.status = "export_recipes.saved".to_owned();
        self.cloud_workflows_changed();
        true
    }

    /// Start running the recipe dialog's recipe, once saved: over the
    /// cloud photos it was opened for, in the cloud; otherwise here, over
    /// its photos or else the open image (`has_document`). A local run
    /// needs the destination folder to exist (`destination_ok`) and every
    /// output's format to be writable (`unsupported`: the message for the
    /// first that is not); the dialog shows what is missing. A local run
    /// closes the dialog and says it is running.
    pub fn export_recipe_start(&mut self, destination_ok: bool, unsupported: Option<String>, has_document: bool) -> (r: ExportStart)
        ensures
            match old(self).modal {
                Some(Modal::ExportRecipes { editor }) => if editor.cloud_assets@.len() > 0 {
                    *final(self) == *old(self) && r is Cloud && r->Cloud_0@ == editor.cloud_assets@
                } else if !destination_ok {
                    recipe_error_shown(*old(self), *final(self), editor, "export_recipes.folder_required"@) && r == ExportStart::Refused
                } else if unsupported is Some {
                    recipe_error_shown(*old(self), *final(self), editor, unsupported->0@) && r == ExportStart::Refused
                } else if editor.photos@.len() == 0 && !has_document {
                    *final(self) == *old(self) && r == ExportStart::Nothing
                } else {
                    &&& r is Local && r->photos@ == editor.photos@ && r->document == (editor.photos@.len() == 0)
                    &&& final(self).status@ == "export_recipes.running"@
                    &&& modal_closed(*old(self), Workspace { status: old(self).status, ..*final(self) })
                }
                _ => *final(self) == *old(self) && r == ExportStart::Nothing,
            },
    {
        let (cloud, photos) = match &self.modal {
            Some(Modal::ExportRecipes { editor }) => (clone_strings(&editor.cloud_assets), clone_strings(&editor.photos)),
            _ => return ExportStart::Nothing,
        };
        if cloud.len() > 0 {
            return ExportStart::Cloud(cloud);
        }
        if !destination_ok || unsupported.is_some() {
            let message = match unsupported {
                Some(m) if destination_ok => m,
                _ => "export_recipes.folder_required".to_owned(),
            };
            if let Some(Modal::ExportRecipes { editor }) = &mut self.modal {
                editor.error = Some(message);
            }
            return ExportStart::Refused;
        }
        if photos.len() == 0 && !has_document {
            return ExportStart::Nothing;
        }
        let document = photos.len() == 0;
        let ghost before = self.status;
        self.close_modal();
        assert(modal_closed(*old(self), Workspace { status: before, ..*self }));
        self.status = "export_recipes.running".to_owned();
        ExportStart::Local { photos, document }
    }
}

/// A finishing page opened over a recipe dialog with nothing focused,
/// edited, and saved with nothing focused, leaves the recipe dialog on show
/// with the page's edits, off the page and with the error it showed
/// before, and nothing suspended underneath.
pub proof fn lemma_finishing_round_trip(
    w0: Workspace,
    m0: Workspace,
    w1: Workspace,
    w2: Workspace,
    m2: Workspace,
    w3: Workspace,
    cat: FinishingCategory,
    page: RecipeEditor,
)
    requires
        w0.modal matches Some(Modal::ExportRecipes { editor }) && editor.finishing_category is None,
        w0.focused_field is None,
        focus_committed(w0, m0),
        finishing_opened(m0, w1, cat),
        page.finishing_category == Some(cat),
        w2 == (Workspace { modal: Some(Modal::ExportRecipes { editor: page }), ..w1 }),
        focus_committed(w2, m2),
        finishing_saved(m2, w3),
    ensures
        w3.modal matches Some(Modal::ExportRecipes { editor }) && same_recipe_content(editor, page)
            && editor.finishing_category is None && editor.error == w0.modal->0->editor.error,
        w3.modal_stack@.len() == 0,
{
    assert(m0 == w0);
    assert(w1.modal_stack@ == seq![w0.modal->0]);
    assert(w2.focused_field is None);
    assert(m2 == w2);
    let before = choose|before: Workspace|
        #![trigger modal_closed(before, w3)]
        before.modal_stack@ == m2.modal_stack@.update(0, w3.modal->0) && before == (Workspace {
            modal_stack: before.modal_stack,
            ..m2
        }) && modal_closed(before, w3);
    assert(before.modal_stack@.len() == 1);
    assert(w3.modal_stack@ =~= before.modal_stack@.drop_last());
}

} // verus!
