//! What committing a dialog field's text does: each field writes into the
//! dialog, the recorded action or the workspace setting it belongs to.
use vstd::prelude::*;
use crate::metadata::{
    commit_metadata_field, commit_value, fields_view, find_key, index_in, key_position, library_id,
    library_index, spec_commit_metadata, spec_enable,
};
use crate::modal::{Modal, RecipeEditor, RecipeOutput};
use crate::numbers::{parse_u32, spec_parse_u32};
use crate::text::{chars_of, has_prefix, str_is, str_starts_with, string_of, trim, trim_str};
use crate::workspace::{ActionDraft, Document, InkChannel, Workspace};

verus! {

/// The position of `id` among the batch metadata form's fields, or -1.
pub open spec fn library_field_index(id: Seq<char>) -> int {
    index_in(id, |j: int| library_id(j))
}

/// The batch metadata form's field `id` (one of its six) set to `buffer`:
/// a changed value is stored and ticks its box, unticking the other time
/// mode; an unchanged value, or a form busy saving, stays as it is.
pub open spec fn metadata_form_committed(m: Modal, n: Modal, id: Seq<char>, buffer: String) -> bool {
    let i = library_field_index(id);
    match m {
        Modal::MetadataEdit { id: mid, photos, values, enabled, error, busy } => {
            &&& n matches Modal::MetadataEdit { id: i2, photos: p2, values: v2, enabled: e2, error: r2, busy: b2 }
                && i2 == mid && p2 == photos && r2 == error && b2 == busy
                && if i >= 0 && !busy && values@[i]@ != buffer@ {
                    v2@ == values@.update(i, buffer) && e2@ == spec_enable(enabled@, i, true)
                } else {
                    v2@ == values@ && e2@ == enabled@
                }
        },
        _ => n == m,
    }
}

/// Commit the batch metadata form's field `id`; true when `id` is one of
/// its fields, whatever dialog is up.
pub fn commit_field(modal: &mut Modal, id: &str, buffer: String) -> (r: bool)
    ensures
        r == (library_field_index(id@) >= 0),
        metadata_form_committed(*old(modal), *final(modal), id@, buffer),
{
    let index = match library_index(id) {
        Some(i) => i,
        None => return false,
    };
    match modal {
        Modal::MetadataEdit { values, enabled, busy, .. } => {
            let b = *busy;
            commit_value(values, enabled, b, index, buffer);
        },
        _ => {},
    }
    true
}

/// The error an export recipe's size field shows for a size it refuses.
pub open spec fn invalid_size_key() -> Seq<char> {
    "export_recipes.invalid_size"@
}

/// `f` is `e` with its current output replaced by `o`.
pub open spec fn output_set(e: RecipeEditor, f: RecipeEditor, o: RecipeOutput) -> bool {
    &&& f.outputs@ == e.outputs@.update(e.output as int, o)
    &&& f == (RecipeEditor { outputs: f.outputs, ..e })
}

/// The recipe dialog's field `id` set to `b`: the recipe's name and
/// destination, and the current output's watermark, copyright, file name
/// template and longest edge. A longest edge that is not a number up to
/// 32768 becomes "no limit", with an error shown.
pub open spec fn recipe_field_committed(e: RecipeEditor, f: RecipeEditor, id: Seq<char>, b: String) -> bool {
    let o = e.outputs@[e.output as int];
    if id == "recipe-name"@ {
        f == RecipeEditor { name: b, ..e }
    } else if id == "recipe-destination"@ {
        f == RecipeEditor { destination: b, ..e }
    } else if id == "recipe-watermark"@ {
        output_set(e, f, RecipeOutput { text: b, ..o })
    } else if id == "recipe-copyright"@ {
        output_set(e, f, RecipeOutput { copyright: b, ..o })
    } else if id == "recipe-template"@ {
        output_set(e, f, RecipeOutput { template: b, ..o })
    } else if id == "recipe-max-edge"@ {
        let v = spec_parse_u32(b@);
        if v matches Some(x) && x <= 32768 {
            output_set(e, f, RecipeOutput { max_edge: v->0, ..o })
        } else {
            &&& f.outputs@ == e.outputs@.update(e.output as int, RecipeOutput { max_edge: u32::MAX, ..o })
            &&& f.error matches Some(m) && m@ == invalid_size_key()
            &&& f == (RecipeEditor { outputs: f.outputs, error: f.error, ..e })
        }
    } else {
        f == e
    }
}

fn set_output(editor: &mut RecipeEditor, o: RecipeOutput)
    requires
        old(editor).output < old(editor).outputs@.len(),
    ensures
        output_set(*old(editor), *final(editor), o),
{
    let i = editor.output;
    editor.outputs.set(i, o);
}

fn commit_recipe_field(editor: &mut RecipeEditor, id: &str, buffer: String)
    requires
        output_field(id@) ==> old(editor).output < old(editor).outputs@.len(),
    ensures
        recipe_field_committed(*old(editor), *final(editor), id@, buffer),
{
    let i = editor.output;
    if str_is(id, "recipe-name") {
        editor.name = buffer;
    } else if str_is(id, "recipe-destination") {
        editor.destination = buffer;
    } else if str_is(id, "recipe-watermark") {
        let mut o = editor.outputs[i].duplicate();
        o.text = buffer;
        set_output(editor, o);
    } else if str_is(id, "recipe-copyright") {
        let mut o = editor.outputs[i].duplicate();
        o.copyright = buffer;
        set_output(editor, o);
    } else if str_is(id, "recipe-template") {
        let mut o = editor.outputs[i].duplicate();
        o.template = buffer;
        set_output(editor, o);
    } else if str_is(id, "recipe-max-edge") {
        let chars = chars_of(buffer.as_str());
        let mut o = editor.outputs[i].duplicate();
        match parse_u32(chars.as_slice()) {
            Some(v) if v <= 32768 => {
                o.max_edge = v;
                set_output(editor, o);
            },
            _ => {
                o.max_edge = u32::MAX;
                set_output(editor, o);
                editor.error = Some("export_recipes.invalid_size".to_owned());
            },
        }
    }
}

/// A cloud form's field `id` set to `b`: the cloud's metadata form takes
/// its own fields (`spec_commit_metadata`); otherwise the first field
/// with that key takes the text, and with no such field nothing changes.
pub open spec fn cloud_field_committed(
    kind: String,
    fields: Seq<(String, String, String)>,
    next: Seq<(String, String, String)>,
    id: Seq<char>,
    b: String,
) -> bool {
    let f = fields_view(fields);
    let (owned, after) = if kind@ == "metadata"@ {
        spec_commit_metadata(f, id, b@)
    } else {
        (false, f)
    };
    if owned {
        fields_view(next) == after
    } else {
        let p = find_key(f, id);
        if p < 0 {
            next == fields
        } else {
            next == fields.update(p, (fields[p].0, fields[p].1, b))
        }
    }
}

fn commit_cloud_field(kind: &String, fields: &mut Vec<(String, String, String)>, id: &str, buffer: String)
    ensures
        cloud_field_committed(*kind, old(fields)@, final(fields)@, id@, buffer),
{
    if str_is(kind.as_str(), "metadata") {
        if commit_metadata_field(fields, id, buffer.as_str()) {
            return;
        }
    }
    match key_position(fields, id) {
        Some(p) => {
            let key = fields[p].0.clone();
            let label = fields[p].1.clone();
            fields.set(p, (key, label, buffer));
        },
        None => {},
    }
}

/// The characters a control character is: Unicode's Cc category.
pub open spec fn is_control(c: char) -> bool {
    (c as u32) < 0x20 || (0x7f <= (c as u32) && (c as u32) < 0xa0)
}

pub fn is_control_char(c: char) -> (r: bool)
    ensures
        r == is_control(c),
{
    let u = c as u32;
    u < 0x20 || (0x7f <= u && u < 0xa0)
}

/// `s` without its control characters.
pub open spec fn drop_controls(s: Seq<char>) -> Seq<char>
    decreases s.len(),
{
    if s.len() == 0 {
        s
    } else if is_control(s.last()) {
        drop_controls(s.drop_last())
    } else {
        drop_controls(s.drop_last()).push(s.last())
    }
}

/// At most the first `n` elements of `s`.
pub open spec fn first_n(s: Seq<char>, n: int) -> Seq<char> {
    if s.len() <= n {
        s
    } else {
        s.take(n)
    }
}

/// A brush preset's name as typed: trimmed, without control characters,
/// at most 64 characters.
pub open spec fn preset_name(typed: Seq<char>) -> Seq<char> {
    first_n(drop_controls(trim(typed)), 64)
}

proof fn lemma_drop_controls(s: Seq<char>)
    ensures
        drop_controls(s).len() <= s.len(),
        forall|i: int| 0 <= i < drop_controls(s).len() ==> !is_control(#[trigger] drop_controls(s)[i]),
        (forall|i: int| 0 <= i < s.len() ==> !is_control(#[trigger] s[i])) ==> drop_controls(s) == s,
    decreases s.len(),
{
    if s.len() > 0 {
        let d = s.drop_last();
        lemma_drop_controls(d);
        let r = drop_controls(s);
        let rd = drop_controls(d);
        if !is_control(s.last()) {
            assert forall|i: int| 0 <= i < r.len() implies !is_control(#[trigger] r[i]) by {
                if i < rd.len() {
                    assert(r[i] == rd[i]);
                }
            }
        }
        if forall|i: int| 0 <= i < s.len() ==> !is_control(#[trigger] s[i]) {
            assert(forall|i: int| 0 <= i < d.len() ==> !is_control(#[trigger] d[i]) ) by {
                assert forall|i: int| 0 <= i < d.len() implies !is_control(#[trigger] d[i]) by {
                    assert(d[i] == s[i]);
                }
            }
            assert(!is_control(s[s.len() - 1]));
            assert(d.push(s.last()) =~= s);
        }
    }
}

/// A brush preset's name holds at most 64 characters and no control
/// character; a name typed without control characters and surrounding
/// white space, and no longer than that, is kept as typed.
pub proof fn lemma_preset_name(typed: Seq<char>)
    ensures
        preset_name(typed).len() <= 64,
        forall|i: int| 0 <= i < preset_name(typed).len() ==> !is_control(#[trigger] preset_name(typed)[i]),
        trim(typed) == typed && typed.len() <= 64 && (forall|i: int| 0 <= i < typed.len() ==> !is_control(
            #[trigger] typed[i],
        )) ==> preset_name(typed) == typed,
{
    let d = drop_controls(trim(typed));
    lemma_drop_controls(trim(typed));
    assert forall|i: int| 0 <= i < preset_name(typed).len() implies !is_control(#[trigger] preset_name(typed)[i]) by {
        assert(preset_name(typed)[i] == d[i]);
    }
}

pub fn clean_preset_name(typed: &str) -> (r: String)
    ensures
        r@ == preset_name(typed@),
{
    let t = trim_str(typed);
    let mut out: Vec<char> = Vec::new();
    let mut i: usize = 0;
    while i < t.len()
        invariant
            i <= t@.len(),
            out@ == first_n(drop_controls(t@.take(i as int)), 64),
        decreases t@.len() - i,
    {
        let c = t[i];
        proof {
            assert(t@.take(i + 1).drop_last() =~= t@.take(i as int));
            assert(t@.take(i + 1).last() == c);
        }
        if !is_control_char(c) && out.len() < 64 {
            out.push(c);
        }
        i = i + 1;
        proof {
            let r = drop_controls(t@.take(i - 1));
            if !is_control(c) && r.len() < 64 {
                assert(out@ =~= first_n(r.push(c), 64));
            } else if !is_control(c) {
                assert(first_n(r.push(c), 64) =~= first_n(r, 64));
            }
        }
    }
    assert(t@.take(t@.len() as int) =~= t@);
    string_of(out.as_slice())
}

/// The dialog `n` is `m` after its field `id` took the text `b`, for the
/// fields that write into the dialog on show.
pub open spec fn dialog_field_committed(m: Modal, n: Modal, id: Seq<char>, b: String) -> bool {
    if id == "workspace-name"@ {
        n == match m {
            Modal::Workspaces { .. } => Modal::Workspaces { name: b },
            _ => m,
        }
    } else if id == "recorded-action-name"@ {
        n == match m {
            Modal::RecordedActions { step, .. } => Modal::RecordedActions { name: b, step },
            _ => m,
        }
    } else if id == "layer-name"@ {
        n == match m {
            Modal::LayerProperties { .. } => Modal::LayerProperties { name: b },
            _ => m,
        }
    } else if id == "new-doc-name"@ {
        n == match m {
            Modal::NewDocument { .. } => Modal::NewDocument { name: b },
            _ => m,
        }
    } else if id == "variant-name"@ {
        n == match m {
            Modal::VariantName { .. } => Modal::VariantName { name: b },
            _ => m,
        }
    } else if id == "person-name"@ {
        n == match m {
            Modal::PersonName { .. } => Modal::PersonName { name: b },
            _ => m,
        }
    } else if id == "bucket-name"@ {
        n == match m {
            Modal::BucketName { cloud, query, .. } => Modal::BucketName { cloud, name: b, query },
            _ => m,
        }
    } else if id == "bucket-query"@ {
        n == match m {
            Modal::BucketName { cloud, name, .. } => Modal::BucketName { cloud, name, query: b },
            _ => m,
        }
    } else if has_prefix(id, "recipe-"@) {
        match m {
            Modal::ExportRecipes { editor } => n matches Modal::ExportRecipes { editor: e2 }
                && recipe_field_committed(editor, e2, id, b),
            _ => n == m,
        }
    } else if has_prefix(id, "cloud-"@) {
        match m {
            Modal::Cloud { kind, fields } => n matches Modal::Cloud { kind: k2, fields: f2 } && k2 == kind
                && cloud_field_committed(kind, fields@, f2@, id, b),
            _ => n == m,
        }
    } else if has_prefix(id, "metadata-"@) {
        metadata_form_committed(m, n, id, b)
    } else {
        n == m
    }
}

/// The recipe dialog's fields that write into its current output.
pub open spec fn output_field(id: Seq<char>) -> bool {
    id == "recipe-watermark"@ || id == "recipe-copyright"@ || id == "recipe-template"@
        || id == "recipe-max-edge"@
}

/// Committing field `id` into the dialog on show reads nothing out of
/// range: a field of the current output finds that output in a recipe
/// dialog.
pub open spec fn recipe_field_ok(m: Option<Modal>, id: Seq<char>) -> bool {
    match m {
        Some(Modal::ExportRecipes { editor }) => output_field(id) ==> editor.output < editor.outputs@.len(),
        _ => true,
    }
}

/// `recipe_field_ok` for the focused field, if any.
pub open spec fn focused_field_ok(m: Option<Modal>, f: Option<String>) -> bool {
    match f {
        Some(id) => recipe_field_ok(m, id@),
        None => true,
    }
}

fn commit_dialog_field(modal: &mut Modal, id: &str, buffer: String)
    requires
        recipe_field_ok(Some(*old(modal)), id@),
    ensures
        dialog_field_committed(*old(modal), *final(modal), id@, buffer),
{
    if str_is(id, "workspace-name") {
        if let Modal::Workspaces { name } = modal {
            *name = buffer;
        }
    } else if str_is(id, "recorded-action-name") {
        if let Modal::RecordedActions { name, .. } = modal {
            *name = buffer;
        }
    } else if str_is(id, "layer-name") {
        if let Modal::LayerProperties { name } = modal {
            *name = buffer;
        }
    } else if str_is(id, "new-doc-name") {
        if let Modal::NewDocument { name } = modal {
            *name = buffer;
        }
    } else if str_is(id, "variant-name") {
        if let Modal::VariantName { name } = modal {
            *name = buffer;
        }
    } else if str_is(id, "person-name") {
        if let Modal::PersonName { name } = modal {
            *name = buffer;
        }
    } else if str_is(id, "bucket-name") {
        if let Modal::BucketName { name, .. } = modal {
            *name = buffer;
        }
    } else if str_is(id, "bucket-query") {
        if let Modal::BucketName { query, .. } = modal {
            *query = buffer;
        }
    } else if str_starts_with(id, "recipe-") {
        if let Modal::ExportRecipes { editor } = modal {
            commit_recipe_field(editor, id, buffer);
        }
    } else if str_starts_with(id, "cloud-") {
        if let Modal::Cloud { kind, fields } = modal {
            commit_cloud_field(kind, fields, id, buffer);
        }
    } else if str_starts_with(id, "metadata-") {
        commit_field(modal, id, buffer);
    }
}

} // verus!

verus! {

/// The position of the generation form's input `id` among `v`, or -1.
pub open spec fn find_input(v: Seq<(String, String)>, id: Seq<char>) -> int
    decreases v.len(),
{
    if v.len() == 0 {
        -1
    } else {
        let p = find_input(v.drop_last(), id);
        if p >= 0 {
            p
        } else if v.last().0@ == id {
            v.len() - 1
        } else {
            -1
        }
    }
}

proof fn lemma_find_input(v: Seq<(String, String)>, id: Seq<char>, i: int)
    requires
        0 <= i <= v.len(),
        forall|j: int| 0 <= j < i ==> v[j].0@ != id,
        i < v.len() ==> v[i].0@ == id,
    ensures
        find_input(v, id) == (if i < v.len() { i } else { -1 }),
    decreases v.len(),
{
    if v.len() > 0 {
        let d = v.drop_last();
        if i < v.len() - 1 {
            lemma_find_input(d, id, i);
        } else {
            lemma_find_input(d, id, d.len() as int);
        }
    }
}

/// The generation form's text inputs, by input id, once input `id` holds
/// the text `b`: its entry takes the text, or a new one is added.
pub open spec fn input_set(v: Seq<(String, String)>, id: String, b: String) -> Seq<(String, String)> {
    let k = find_input(v, id@);
    if k >= 0 {
        v.update(k, (v[k].0, b))
    } else {
        v.push((id, b))
    }
}

/// The dialog on show after its field `id` took the text `b`.
pub open spec fn shown_dialog_committed(m: Option<Modal>, n: Option<Modal>, id: Seq<char>, b: String) -> bool {
    match (m, n) {
        (Some(x), Some(y)) => dialog_field_committed(x, y, id, b),
        (None, None) => true,
        _ => false,
    }
}

/// The recorded action's "select layer" step that the dialog on show is
/// editing takes the layer name `b`; any other step, or none, stays.
pub open spec fn layer_step_committed(m: Option<Modal>, d: Option<ActionDraft>, nd: Option<ActionDraft>, b: String) -> bool {
    match (m, d) {
        (Some(Modal::RecordedActions { step: Some(i), .. }), Some(dr)) => if i < dr.layer_steps@.len()
            && dr.layer_steps@[i as int] is Some {
            nd matches Some(x) && x.name == dr.name && x.layer_steps@ == dr.layer_steps@.update(i as int, Some(b))
        } else {
            nd == d
        },
        _ => nd == d,
    }
}

/// `new` is `old` after the text of field `id` was applied, with the
/// field still focused: each field writes into the dialog, the recorded
/// action or the setting it belongs to; a field this does not know
/// changes nothing.
pub open spec fn field_value_committed(pre: Workspace, post: Workspace, id: Seq<char>) -> bool {
    let b = pre.field_buffer;
    if id == "spot-name"@ {
        post == pre
    } else if id == "cloud-generation-input"@ {
        match pre.generation_editing {
            Some(input) => {
                &&& post.generation_inputs@ == input_set(pre.generation_inputs@, input, b)
                &&& post == (Workspace { generation_inputs: post.generation_inputs, ..pre })
            },
            None => post == pre,
        }
    } else if id == "brush-preset-name"@ {
        &&& post.brush_preset_name@ == preset_name(b@)
        &&& post == (Workspace { brush_preset_name: post.brush_preset_name, ..pre })
    } else if id == "recorded-action-layer"@ {
        &&& layer_step_committed(pre.modal, pre.action_draft, post.action_draft, b)
        &&& post == (Workspace { action_draft: post.action_draft, ..pre })
    } else if id == "recorded-action-name"@ {
        &&& post.action_draft == match pre.action_draft {
            Some(d) => Some(ActionDraft { name: b, ..d }),
            None => None,
        }
        &&& shown_dialog_committed(pre.modal, post.modal, id, b)
        &&& post == (Workspace { modal: post.modal, action_draft: post.action_draft, ..pre })
    } else if id == "face-name"@ {
        post == (Workspace {
            viewer_name: match pre.viewer_name {
                Some(_) => Some(b),
                None => None,
            },
            ..pre
        })
    } else {
        &&& shown_dialog_committed(pre.modal, post.modal, id, b)
        &&& post == (Workspace { modal: post.modal, ..pre })
    }
}

impl Workspace {
    fn commit_layer_step(&mut self)
        ensures
            layer_step_committed(old(self).modal, old(self).action_draft, final(self).action_draft, old(self).field_buffer),
            *final(self) == (Workspace { action_draft: final(self).action_draft, ..*old(self) }),
    {
        let step = match &self.modal {
            Some(Modal::RecordedActions { step: Some(i), .. }) => Some(*i),
            _ => None,
        };
        let buffer = self.field_buffer.clone();
        if let Some(i) = step {
            if let Some(d) = &mut self.action_draft {
                if i < d.layer_steps.len() && d.layer_steps[i].is_some() {
                    d.layer_steps.set(i, Some(buffer));
                }
            }
        }
    }

    fn commit_generation_input(&mut self)
        ensures
            match old(self).generation_editing {
                Some(input) => {
                    &&& final(self).generation_inputs@ == input_set(old(self).generation_inputs@, input, old(self).field_buffer)
                    &&& *final(self) == (Workspace { generation_inputs: final(self).generation_inputs, ..*old(self) })
                },
                None => *final(self) == *old(self),
            },
    {
        let input = match &self.generation_editing {
            Some(i) => i.clone(),
            None => return,
        };
        let buffer = self.field_buffer.clone();
        let mut i: usize = 0;
        while i < self.generation_inputs.len()
            invariant
                *self == *old(self),
                old(self).generation_editing == Some(input),
                buffer == old(self).field_buffer,
                i <= self.generation_inputs@.len(),
                forall|j: int| 0 <= j < i ==> self.generation_inputs@[j].0@ != input@,
            decreases self.generation_inputs@.len() - i,
        {
            if self.generation_inputs[i].0 == input {
                proof {
                    lemma_find_input(self.generation_inputs@, input@, i as int);
                }
                let key = self.generation_inputs[i].0.clone();
                self.generation_inputs.set(i, (key, buffer));
                return;
            }
            i = i + 1;
        }
        proof {
            lemma_find_input(self.generation_inputs@, input@, self.generation_inputs@.len() as int);
        }
        self.generation_inputs.push((input, buffer));
    }

    fn commit_shown_dialog(&mut self, id: &str)
        requires
            recipe_field_ok(old(self).modal, id@),
        ensures
            shown_dialog_committed(old(self).modal, final(self).modal, id@, old(self).field_buffer),
            *final(self) == (Workspace { modal: final(self).modal, ..*old(self) }),
    {
        let buffer = self.field_buffer.clone();
        if let Some(m) = &mut self.modal {
            commit_dialog_field(m, id, buffer);
        }
    }

    /// Apply the focused field's text as it is typed, so the dialog stays
    /// live.
    pub fn commit_field_value(&mut self, id: &str)
        requires
            recipe_field_ok(old(self).modal, id@),
        ensures
            field_value_committed(*old(self), *final(self), id@),
    {
        if str_is(id, "spot-name") {
            return;
        }
        if str_is(id, "cloud-generation-input") {
            self.commit_generation_input();
            return;
        }
        if str_is(id, "brush-preset-name") {
            self.brush_preset_name = clean_preset_name(self.field_buffer.as_str());
            return;
        }
        if str_is(id, "recorded-action-layer") {
            self.commit_layer_step();
            return;
        }
        if str_is(id, "recorded-action-name") {
            let buffer = self.field_buffer.clone();
            if let Some(d) = &mut self.action_draft {
                d.name = buffer;
            }
            self.commit_shown_dialog(id);
            return;
        }
        if str_is(id, "face-name") {
            if self.viewer_name.is_some() {
                self.viewer_name = Some(self.field_buffer.clone());
            }
            return;
        }
        self.commit_shown_dialog(id);
    }
}

} // verus!

verus! {

/// The position of the first spot channel with id `id`, or -1.
pub open spec fn first_ink(chs: Seq<InkChannel>, id: u32) -> int
    decreases chs.len(),
{
    if chs.len() == 0 {
        -1
    } else {
        let p = first_ink(chs.drop_last(), id);
        if p >= 0 {
            p
        } else if chs.last().id == id {
            chs.len() - 1
        } else {
            -1
        }
    }
}

proof fn lemma_first_ink(chs: Seq<InkChannel>, id: u32, i: int)
    requires
        0 <= i <= chs.len(),
        forall|j: int| 0 <= j < i ==> chs[j].id != id,
        i < chs.len() ==> chs[i].id == id,
    ensures
        first_ink(chs, id) == (if i < chs.len() { i } else { -1 }),
    decreases chs.len(),
{
    if chs.len() > 0 {
        let d = chs.drop_last();
        if i < chs.len() - 1 {
            lemma_first_ink(d, id, i);
        } else {
            lemma_first_ink(d, id, d.len() as int);
        }
    }
}

/// The document after its active spot channel was renamed `name`: when
/// some channel with the active id has another name, the first channel
/// with that id takes the name, as one "rename" step of history.
pub open spec fn ink_renamed(d: Document, e: Document, name: Seq<char>) -> bool {
    match d.active_ink {
        Some(ch) => {
            let chs = d.ink_channels@;
            let p = first_ink(chs, ch);
            if exists|k: int| 0 <= k < chs.len() && chs[k].id == ch && #[trigger] chs[k].name@ != name {
                &&& e.ink_channels@.len() == chs.len()
                &&& e.ink_channels@[p].id == ch
                &&& e.ink_channels@[p].name@ == name
                &&& forall|k: int| 0 <= k < chs.len() && k != p ==> #[trigger] e.ink_channels@[k] == chs[k]
                &&& e.history@.len() == d.history@.len() + 1
                &&& e.history@.drop_last() == d.history@
                &&& e.history@.last()@ == rename_step()
                &&& e == (Document { ink_channels: e.ink_channels, history: e.history, ..d })
            } else {
                e == d
            }
        },
        None => e == d,
    }
}

/// The name of the history step a rename makes.
pub open spec fn rename_step() -> Seq<char> {
    "common.rename"@
}

/// `new` is `old` after the focused field `id` was committed and let go:
/// its text applied as `field_value_committed` says, the spot channel
/// renamed for the spot name field, and focus and text dropped.
pub open spec fn field_committed(pre: Workspace, post: Workspace, id: Seq<char>) -> bool {
    let t = trim(pre.field_buffer@);
    let applied = Workspace {
        focused_field: pre.focused_field,
        field_buffer: pre.field_buffer,
        field_cursor: pre.field_cursor,
        field_anchor: pre.field_anchor,
        doc: pre.doc,
        ..post
    };
    &&& post.focused_field is None
    &&& post.field_buffer@.len() == 0
    &&& post.field_cursor == 0
    &&& post.field_anchor == 0
    &&& field_value_committed(pre, applied, id)
    &&& if id == "spot-name"@ && t.len() > 0 {
        match pre.doc {
            Some(d) => post.doc matches Some(e) && ink_renamed(d, e, t),
            None => post.doc is None,
        }
    } else {
        post.doc == pre.doc
    }
}

/// Rename the active spot channel of `doc` to `name`.
fn rename_active_ink(doc: &mut Document, name: String)
    ensures
        ink_renamed(*old(doc), *final(doc), name@),
{
    let ch = match doc.active_ink {
        Some(c) => c,
        None => return,
    };
    let mut differs = false;
    let mut first: usize = doc.ink_channels.len();
    let mut i: usize = 0;
    while i < doc.ink_channels.len()
        invariant
            i <= doc.ink_channels@.len(),
            first == doc.ink_channels@.len() || (first < i && doc.ink_channels@[first as int].id == ch),
            first == doc.ink_channels@.len() ==> forall|j: int| 0 <= j < i ==> doc.ink_channels@[j].id != ch,
            first < doc.ink_channels@.len() ==> forall|j: int| 0 <= j < first ==> doc.ink_channels@[j].id != ch,
            differs == exists|k: int| 0 <= k < i && doc.ink_channels@[k].id == ch && #[trigger] doc.ink_channels@[k].name@ != name@,
        decreases doc.ink_channels@.len() - i,
    {
        if doc.ink_channels[i].id == ch {
            if first == doc.ink_channels.len() {
                first = i;
            }
            if doc.ink_channels[i].name != name {
                differs = true;
            }
        }
        i = i + 1;
    }
    proof {
        lemma_first_ink(doc.ink_channels@, ch, first as int);
    }
    if !differs {
        return;
    }
    let ghost before = doc.ink_channels@;
    doc.ink_channels.set(first, InkChannel { id: ch, name });
    doc.history.push("common.rename".to_owned());
    proof {
        assert(doc.history@.drop_last() =~= old(doc).history@);
    }
}

impl Workspace {
    fn rename_spot(&mut self)
        ensures
            ({
                let t = trim(old(self).field_buffer@);
                &&& if t.len() > 0 {
                    match old(self).doc {
                        Some(d) => final(self).doc matches Some(e) && ink_renamed(d, e, t),
                        None => final(self).doc is None,
                    }
                } else {
                    final(self).doc == old(self).doc
                }
                &&& *final(self) == (Workspace { doc: final(self).doc, ..*old(self) })
            }),
    {
        let t = trim_str(self.field_buffer.as_str());
        if t.len() == 0 {
            return;
        }
        let name = string_of(t.as_slice());
        if let Some(doc) = &mut self.doc {
            rename_active_ink(doc, name);
        }
    }

    /// Commit field `id` and let it go: its text is applied, and the spot
    /// channel name also renames the active spot channel.
    pub fn commit_field(&mut self, id: &str)
        requires
            recipe_field_ok(old(self).modal, id@),
        ensures
            field_committed(*old(self), *final(self), id@),
    {
        if str_is(id, "spot-name") {
            self.rename_spot();
        }
        let ghost renamed = *self;
        self.commit_field_value(id);
        let ghost applied = *self;
        self.focused_field = None;
        self.field_buffer = String::new();
        self.field_cursor = 0;
        self.field_anchor = 0;
        proof {
            assert(field_value_committed(renamed, applied, id@));
        }
    }

    /// Commit whatever is in the focused field and let it go.
    pub fn commit_focused_field(&mut self)
        requires
            focused_field_ok(old(self).modal, old(self).focused_field),
        ensures
            match old(self).focused_field {
                Some(f) => field_committed(*old(self), *final(self), f@),
                None => *final(self) == *old(self),
            },
    {
        let id = match &self.focused_field {
            Some(f) => f.clone(),
            None => return,
        };
        self.commit_field(id.as_str());
    }
}

} // verus!

verus! {

/// Focusing a metadata field and committing the value it already shows
/// selects nothing and changes nothing.
pub proof fn lemma_committing_the_shown_value_changes_nothing(m: Modal, n: Modal, id: Seq<char>, buffer: String)
    requires
        m matches Modal::MetadataEdit { values, .. } && library_field_index(id) >= 0
            && values@[library_field_index(id)]@ == buffer@,
        metadata_form_committed(m, n, id, buffer),
    ensures
        n matches Modal::MetadataEdit { values: v2, enabled: e2, .. } && v2@ == m->MetadataEdit_values@
            && e2@ == m->MetadataEdit_enabled@,
{
}

} // verus!
