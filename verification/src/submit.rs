//! What submitting a cloud form asks for: the download, sign-in, search,
//! catalogue and upload forms hand their values on; the folder, bucket and
//! photo forms become the mutation the cloud is sent.
use vstd::prelude::*;
use crate::culling::{Filters, FiltersView};
use crate::import_target::Scope;
use crate::search::{FilterError, field_value, get_field, is, parse_filters, spec_parse_filters};
use crate::text::{str_is, string_of};
use crate::workspace::Workspace;

verus! {

/// A parameter of a mutation.
#[derive(Debug)]
pub enum Param {
    Text(String),
    Nil,
    Number(u64),
    Flag(bool),
    /// A bucket's rule: what it searches, for what text, with which
    /// filters.
    Rule { scope: Scope, text: String, filters: Filters },
    /// The photos of bucket `id`, as the items a move takes.
    BucketItems(String),
}

/// What a submitted form asks the caller to do.
#[derive(Debug)]
pub enum SubmitStep {
    /// Download the selection, in this format or the original's.
    Download(Option<String>),
    /// Sign in at this domain, as typed.
    SignIn(String),
    /// The gallery's query changed: watch it again, keeping the photos on
    /// show until the new ones arrive.
    Search,
    /// The catalogue's search changed: watch the folders and buckets again.
    Catalogue,
    /// Send this mutation.
    Mutate { method: String, params: Vec<(String, Param)> },
    /// Upload the open document into this folder, or the library.
    UploadDocument(Option<String>),
    /// Upload the local folder at `path` into `folder`, or the library.
    UploadFolder { path: String, folder: Option<String> },
}

/// Why a form was refused.
#[derive(Debug)]
pub enum SubmitError {
    Filters(FilterError),
    /// The key of the message to show.
    Message(String),
}

/// What the map bounds and dates of a search form read as, read by the
/// caller.
#[derive(Debug)]
pub struct FormReadings {
    pub bounds: Result<(), String>,
    pub after: Result<Option<i64>, String>,
    pub before: Result<Option<i64>, String>,
}

pub enum ScopeView {
    Library,
    Folder(Seq<char>),
    Bucket(Seq<char>),
}

pub open spec fn scope_view(s: Scope) -> ScopeView {
    match s {
        Scope::Library => ScopeView::Library,
        Scope::Folder { id } => ScopeView::Folder(id@),
        Scope::Bucket { id } => ScopeView::Bucket(id@),
    }
}

pub enum ParamView {
    Text(Seq<char>),
    Nil,
    Number(u64),
    Flag(bool),
    Rule(ScopeView, Seq<char>, FiltersView),
    BucketItems(Seq<char>),
}

pub open spec fn param_view(p: Param) -> ParamView {
    match p {
        Param::Text(t) => ParamView::Text(t@),
        Param::Nil => ParamView::Nil,
        Param::Number(n) => ParamView::Number(n),
        Param::Flag(b) => ParamView::Flag(b),
        Param::Rule { scope, text, filters } => ParamView::Rule(scope_view(scope), text@, filters@),
        Param::BucketItems(id) => ParamView::BucketItems(id@),
    }
}

pub open spec fn params_view(p: Seq<(String, Param)>) -> Seq<(Seq<char>, ParamView)> {
    p.map_values(|e: (String, Param)| (e.0@, param_view(e.1)))
}

pub enum StepView {
    Download(Option<Seq<char>>),
    SignIn(Seq<char>),
    Search,
    Catalogue,
    Mutate(Seq<char>, Seq<(Seq<char>, ParamView)>),
    UploadDocument(Option<Seq<char>>),
    UploadFolder(Seq<char>, Option<Seq<char>>),
}

pub open spec fn step_view(s: SubmitStep) -> StepView {
    match s {
        SubmitStep::Download(f) => StepView::Download(opt(f)),
        SubmitStep::SignIn(d) => StepView::SignIn(d@),
        SubmitStep::Search => StepView::Search,
        SubmitStep::Catalogue => StepView::Catalogue,
        SubmitStep::Mutate { method, params } => StepView::Mutate(method@, params_view(params@)),
        SubmitStep::UploadDocument(f) => StepView::UploadDocument(opt(f)),
        SubmitStep::UploadFolder { path, folder } => StepView::UploadFolder(path@, opt(folder)),
    }
}

pub enum ErrorView {
    Filters(FilterError),
    Message(Seq<char>),
}

pub open spec fn error_view(e: SubmitError) -> ErrorView {
    match e {
        SubmitError::Filters(f) => ErrorView::Filters(f),
        SubmitError::Message(m) => ErrorView::Message(m@),
    }
}

pub open spec fn opt(o: Option<String>) -> Option<Seq<char>> {
    match o {
        Some(s) => Some(s@),
        None => None,
    }
}

/// Text that is empty stands for none.
pub open spec fn non_empty(s: Seq<char>) -> Option<Seq<char>> {
    if s.len() == 0 {
        None
    } else {
        Some(s)
    }
}

/// A search that asks nothing of the photos.
pub open spec fn no_filters(f: FiltersView) -> bool {
    &&& f.person_id is None
    &&& f.mime_types is None
    &&& f.tags is None
    &&& f.edited is None
    &&& f.content is None
    &&& f.min_rating is None
    &&& f.captured_after is None
    &&& f.captured_before is None
    &&& f.flag is None
    &&& f.label is None
}

/// The id and revision mutations take from the form's target.
pub open spec fn target_params(t: (String, u64)) -> Seq<(Seq<char>, ParamView)> {
    seq![("id"@, ParamView::Text(t.0@)), ("revision"@, ParamView::Number(t.1))]
}

/// What submitting form `kind` with `fields` asks for, in workspace `w`;
/// `r` is what the search form's bounds and dates read as. Every value is
/// read trimmed.
pub open spec fn spec_submit(w: Workspace, kind: Seq<char>, f: Seq<(String, String, String)>, r: FormReadings) -> Result<StepView, ErrorView> {
    let get = |k: Seq<char>| field_value(f, k);
    let filters = spec_parse_filters(f, r.bounds, r.after, r.before);
    if kind == "download"@ {
        Ok(StepView::Download(non_empty(get("cloud-download-format"@))))
    } else if kind == "sign-in"@ {
        Ok(StepView::SignIn(get("cloud-domain"@)))
    } else if kind == "search"@ {
        match filters {
            Ok(_) => Ok(StepView::Search),
            Err(e) => Err(ErrorView::Filters(e)),
        }
    } else if kind == "catalogue"@ {
        Ok(StepView::Catalogue)
    } else if kind == "new-folder"@ || kind == "new-subfolder"@ {
        let parent = if kind == "new-subfolder"@ {
            match w.form_target {
                Some(t) => ParamView::Text(t.0@),
                None => ParamView::Nil,
            }
        } else {
            match w.query_scope {
                Scope::Folder { id } => ParamView::Text(id@),
                _ => ParamView::Nil,
            }
        };
        Ok(StepView::Mutate("folder.create"@, seq![("name"@, ParamView::Text(get("cloud-name"@))), ("parent_id"@, parent)]))
    } else if kind == "delete-asset"@ {
        match w.form_target {
            Some(t) => Ok(StepView::Mutate("asset.delete"@, target_params(t))),
            None => Err(ErrorView::Message("cloud.error.no_photo_selected"@)),
        }
    } else if kind == "new-bucket"@ || kind == "edit-bucket"@ {
        match filters {
            Err(e) => Err(ErrorView::Filters(e)),
            Ok(fv) => {
                let text = get("cloud-query"@);
                let scope = if kind == "edit-bucket"@ {
                    scope_view(w.form_scope)
                } else {
                    match w.query_scope {
                        Scope::Bucket { .. } => ScopeView::Library,
                        s => scope_view(s),
                    }
                };
                let rule = if text.len() == 0 && no_filters(fv) { ParamView::Nil } else { ParamView::Rule(scope, text, fv) };
                let params = seq![("name"@, ParamView::Text(get("cloud-name"@))), ("rule"@, rule)];
                if kind == "edit-bucket"@ {
                    match w.form_target {
                        Some(t) => Ok(StepView::Mutate("bucket.update"@, params + target_params(t))),
                        None => Err(ErrorView::Message("cloud.error.no_bucket_selected"@)),
                    }
                } else {
                    Ok(StepView::Mutate("bucket.create"@, params))
                }
            },
        }
    } else if kind == "rename-folder"@ {
        match w.form_target {
            Some(t) => Ok(StepView::Mutate("folder.update"@, target_params(t).push(("name"@, ParamView::Text(get("cloud-name"@)))))),
            None => Err(ErrorView::Message("cloud.error.no_folder_selected"@)),
        }
    } else if kind == "delete-folder"@ || kind == "delete-bucket"@ {
        match w.form_target {
            Some(t) => {
                let contents = kind == "delete-folder"@ && get("cloud-check-contents"@) == "1"@;
                let params = if contents { target_params(t).push(("contents"@, ParamView::Flag(true))) } else { target_params(t) };
                Ok(StepView::Mutate(if kind == "delete-folder"@ { "folder.delete"@ } else { "bucket.delete"@ }, params))
            },
            None => Err(ErrorView::Message("cloud.error.no_item_selected"@)),
        }
    } else if kind == "upload-document"@ {
        Ok(StepView::UploadDocument(non_empty(get("cloud-folder"@))))
    } else if kind == "upload-folder"@ {
        Ok(StepView::UploadFolder(get("cloud-path"@), non_empty(get("cloud-folder"@))))
    } else if kind == "move-items"@ {
        match w.form_target {
            Some(t) => {
                let folder = get("cloud-folder"@);
                Ok(StepView::Mutate("asset.move"@, seq![
                    ("items"@, ParamView::BucketItems(t.0@)),
                    ("folder_id"@, if folder.len() == 0 { ParamView::Nil } else { ParamView::Text(folder) }),
                ]))
            },
            None => Err(ErrorView::Message("cloud.error.no_bucket_selected"@)),
        }
    } else {
        Err(ErrorView::Message("cloud.error.unknown_action"@))
    }
}

/// The id of the form's target.
pub open spec fn target_id(t: Option<(String, u64)>) -> Seq<char> {
    match t {
        Some(p) => p.0@,
        None => Seq::empty(),
    }
}

/// The photos of `sel` other than `id`, in order.
pub open spec fn without_photo(sel: Seq<String>, id: Seq<char>) -> Seq<String>
    decreases sel.len(),
{
    if sel.len() == 0 {
        sel
    } else if sel.last()@ == id {
        without_photo(sel.drop_last(), id)
    } else {
        without_photo(sel.drop_last(), id).push(sel.last())
    }
}

/// `new` is `old` after form `kind` was submitted: a search puts the typed
/// text into the gallery's search box, refused or not, and takes it and
/// the filters as the gallery's query; the catalogue form takes its
/// text as the catalogue's search, a new subfolder and a move use up the
/// form's target, a deleted photo leaves the selection; nothing else
/// changes.
pub open spec fn submit_effect(pre: Workspace, post: Workspace, kind: Seq<char>, f: Seq<(String, String, String)>, r: FormReadings) -> bool {
    let ok = spec_submit(pre, kind, f, r) is Ok;
    if kind == "search"@ {
        &&& post.search_text@ == field_value(f, "cloud-query"@)
        &&& if ok {
            &&& post.query_text@ == field_value(f, "cloud-query"@)
            &&& spec_parse_filters(f, r.bounds, r.after, r.before) == Ok::<FiltersView, FilterError>(post.query_filters@)
            &&& post == (Workspace { query_text: post.query_text, query_filters: post.query_filters, search_text: post.search_text, ..pre })
        } else {
            post == (Workspace { search_text: post.search_text, ..pre })
        }
    } else if !ok || kind == "download"@ || kind == "sign-in"@ {
        post == pre
    } else if kind == "catalogue"@ {
        &&& post.catalogue@ == field_value(f, "cloud-query"@)
        &&& post == (Workspace { catalogue: post.catalogue, ..pre })
    } else if kind == "new-folder"@ {
        post == pre
    } else if kind == "new-subfolder"@ {
        post == (Workspace { form_target: None, ..pre })
    } else if kind == "delete-asset"@ {
        &&& post.feed.selected@ == without_photo(pre.feed.selected@, target_id(pre.form_target))
        &&& post == (Workspace { feed: crate::assets::AssetFeed { selected: post.feed.selected, ..pre.feed }, ..pre })
    } else if kind == "move-items"@ && !(kind == "new-bucket"@ || kind == "edit-bucket"@ || kind == "rename-folder"@
        || kind == "delete-folder"@ || kind == "delete-bucket"@ || kind == "upload-document"@ || kind == "upload-folder"@) {
        post == (Workspace { form_target: None, ..pre })
    } else {
        post == pre
    }
}

fn text_param(fields: &Vec<(String, String, String)>, key: &str) -> (r: Param)
    ensures
        param_view(r) == ParamView::Text(field_value(fields@, key@)),
{
    Param::Text(string_of(get_field(fields, key).as_slice()))
}

fn opt_field(fields: &Vec<(String, String, String)>, key: &str) -> (r: Option<String>)
    ensures
        opt(r) == non_empty(field_value(fields@, key@)),
{
    let v = get_field(fields, key);
    if v.len() == 0 {
        None
    } else {
        Some(string_of(v.as_slice()))
    }
}

fn duplicate_scope(s: &Scope) -> (r: Scope)
    ensures
        r == *s,
{
    match s {
        Scope::Library => Scope::Library,
        Scope::Folder { id } => Scope::Folder { id: id.clone() },
        Scope::Bucket { id } => Scope::Bucket { id: id.clone() },
    }
}

fn target_vec(t: &(String, u64)) -> (r: Vec<(String, Param)>)
    ensures
        params_view(r@) == target_params(*t),
{
    let r = vec![("id".to_owned(), Param::Text(t.0.clone())), ("revision".to_owned(), Param::Number(t.1))];
    proof {
        reveal_strlit("id");
        reveal_strlit("revision");
    }
    assert(params_view(r@) =~= target_params(*t));
    r
}

fn is_no_filters(f: &Filters) -> (r: bool)
    ensures
        r == no_filters(f@),
{
    f.person_id.is_none() && f.mime_types.is_none() && f.tags.is_none() && f.edited.is_none() && f.content.is_none()
        && f.min_rating.is_none() && f.captured_after.is_none() && f.captured_before.is_none() && f.flag.is_none()
        && f.label.is_none()
}

fn retain_other(sel: &mut Vec<String>, id: &String)
    ensures
        final(sel)@ == without_photo(old(sel)@, id@),
{
    let mut out: Vec<String> = Vec::new();
    let mut i: usize = 0;
    while i < sel.len()
        invariant
            i <= sel@.len(),
            out@ == without_photo(sel@.take(i as int), id@),
        decreases sel@.len() - i,
    {
        proof {
            assert(sel@.take(i + 1).drop_last() =~= sel@.take(i as int));
        }
        if sel[i] != *id {
            out.push(sel[i].clone());
        }
        i = i + 1;
    }
    assert(sel@.take(sel@.len() as int) =~= sel@);
    *sel = out;
}

fn mutate(method: &str, params: Vec<(String, Param)>) -> (r: SubmitStep)
    ensures
        step_view(r) == StepView::Mutate(method@, params_view(params@)),
{
    SubmitStep::Mutate { method: method.to_owned(), params }
}

impl Workspace {
    fn submit_bucket(&mut self, kind: &str, fields: &Vec<(String, String, String)>, readings: FormReadings) -> (r: Result<SubmitStep, SubmitError>)
        requires
            kind@ != "download"@ && kind@ != "sign-in"@ && kind@ != "search"@ && kind@ != "catalogue"@
                && kind@ != "new-folder"@ && kind@ != "new-subfolder"@ && kind@ != "delete-asset"@,
            kind@ == "new-bucket"@ || kind@ == "edit-bucket"@,
        ensures
            match r {
                Ok(s) => spec_submit(*old(self), kind@, fields@, readings) == Ok::<StepView, ErrorView>(step_view(s)),
                Err(e) => spec_submit(*old(self), kind@, fields@, readings) == Err::<StepView, ErrorView>(error_view(e)),
            },
            *final(self) == *old(self),
    {
        let ghost g = readings;
        let FormReadings { bounds, after, before } = readings;
        let filters = match parse_filters(fields, bounds, after, before) {
            Ok(f) => f,
            Err(e) => return Err(SubmitError::Filters(e)),
        };
        let edit = str_is(kind, "edit-bucket");
        let text = get_field(fields, "cloud-query");
        let rule = if text.len() == 0 && is_no_filters(&filters) {
            Param::Nil
        } else {
            let scope = if edit {
                duplicate_scope(&self.form_scope)
            } else {
                match &self.query_scope {
                    Scope::Bucket { .. } => Scope::Library,
                    s => duplicate_scope(s),
                }
            };
            Param::Rule { scope, text: string_of(text.as_slice()), filters }
        };
        let ghost rule_view = param_view(rule);
        let mut params = vec![("name".to_owned(), text_param(fields, "cloud-name")), ("rule".to_owned(), rule)];
        assert(params_view(params@) =~= seq![
            ("name"@, ParamView::Text(field_value(fields@, "cloud-name"@))),
            ("rule"@, rule_view),
        ]);
        if edit {
            match &self.form_target {
                Some(t) => {
                    let mut tv = target_vec(t);
                    let ghost p0 = params@;
                    params.append(&mut tv);
                    assert(params_view(params@) =~= params_view(p0) + target_params(*t));
                    Ok(mutate("bucket.update", params))
                },
                None => Err(SubmitError::Message("cloud.error.no_bucket_selected".to_owned())),
            }
        } else {
            Ok(mutate("bucket.create", params))
        }
    }
}

impl Workspace {
    fn submit_target(&mut self, kind: &str, fields: &Vec<(String, String, String)>, readings: FormReadings) -> (r: Result<SubmitStep, SubmitError>)
        requires
            kind@ != "download"@ && kind@ != "sign-in"@ && kind@ != "search"@ && kind@ != "catalogue"@
                && kind@ != "new-folder"@ && kind@ != "new-subfolder"@ && kind@ != "delete-asset"@
                && kind@ != "new-bucket"@ && kind@ != "edit-bucket"@,
        ensures
            match r {
                Ok(s) => spec_submit(*old(self), kind@, fields@, readings) == Ok::<StepView, ErrorView>(step_view(s)),
                Err(e) => spec_submit(*old(self), kind@, fields@, readings) == Err::<StepView, ErrorView>(error_view(e)),
            },
            submit_effect(*old(self), *final(self), kind@, fields@, readings),
    {
        if str_is(kind, "rename-folder") {
            return match &self.form_target {
                Some(t) => {
                    let mut params = target_vec(t);
                    let ghost p0 = params@;
                    params.push(("name".to_owned(), text_param(fields, "cloud-name")));
                    assert(params_view(params@) =~= params_view(p0).push(("name"@, ParamView::Text(field_value(fields@, "cloud-name"@)))));
                    Ok(mutate("folder.update", params))
                },
                None => Err(SubmitError::Message("cloud.error.no_folder_selected".to_owned())),
            };
        }
        if str_is(kind, "delete-folder") || str_is(kind, "delete-bucket") {
            return match &self.form_target {
                Some(t) => {
                    let mut params = target_vec(t);
                    let folder = str_is(kind, "delete-folder");
                    let check = get_field(fields, "cloud-check-contents");
                    if folder && is(&check, "1") {
                        let ghost p0 = params@;
                        params.push(("contents".to_owned(), Param::Flag(true)));
                        assert(params_view(params@) =~= params_view(p0).push(("contents"@, ParamView::Flag(true))));
                    }
                    Ok(mutate(if folder { "folder.delete" } else { "bucket.delete" }, params))
                },
                None => Err(SubmitError::Message("cloud.error.no_item_selected".to_owned())),
            };
        }
        if str_is(kind, "upload-document") {
            return Ok(SubmitStep::UploadDocument(opt_field(fields, "cloud-folder")));
        }
        if str_is(kind, "upload-folder") {
            let path = string_of(get_field(fields, "cloud-path").as_slice());
            return Ok(SubmitStep::UploadFolder { path, folder: opt_field(fields, "cloud-folder") });
        }
        if str_is(kind, "move-items") {
            return match self.form_target.take() {
                Some((id, _)) => {
                    let folder = get_field(fields, "cloud-folder");
                    let ghost fv = folder@;
                    let ghost idv = id@;
                    let target = if folder.len() == 0 {
                        Param::Nil
                    } else {
                        Param::Text(string_of(folder.as_slice()))
                    };
                    let ghost tv = param_view(target);
                    let params = vec![("items".to_owned(), Param::BucketItems(id)), ("folder_id".to_owned(), target)];
                    assert(params_view(params@) =~= seq![("items"@, ParamView::BucketItems(idv)), ("folder_id"@, tv)]);
                    Ok(mutate("asset.move", params))
                },
                None => Err(SubmitError::Message("cloud.error.no_bucket_selected".to_owned())),
            };
        }
        Err(SubmitError::Message("cloud.error.unknown_action".to_owned()))
    }

    /// Submit cloud form `kind` with its `fields`; `readings` is what its
    /// map bounds and dates read as. Returns what is left for the caller
    /// to do, or why the form was refused.
    pub fn cloud_submit(&mut self, kind: &str, fields: &Vec<(String, String, String)>, readings: FormReadings) -> (r: Result<SubmitStep, SubmitError>)
        ensures
            match r {
                Ok(s) => spec_submit(*old(self), kind@, fields@, readings) == Ok::<StepView, ErrorView>(step_view(s)),
                Err(e) => spec_submit(*old(self), kind@, fields@, readings) == Err::<StepView, ErrorView>(error_view(e)),
            },
            submit_effect(*old(self), *final(self), kind@, fields@, readings),
    {
        proof {
            reveal_strlit("download");
            reveal_strlit("sign-in");
            reveal_strlit("search");
            assert("download"@.len() != "search"@.len() && "sign-in"@.len() != "search"@.len());
        }
        if str_is(kind, "download") {
            return Ok(SubmitStep::Download(opt_field(fields, "cloud-download-format")));
        }
        if str_is(kind, "sign-in") {
            return Ok(SubmitStep::SignIn(string_of(get_field(fields, "cloud-domain").as_slice())));
        }
        if str_is(kind, "search") {
            let ghost g = readings;
            let FormReadings { bounds, after, before } = readings;
            self.search_text = string_of(get_field(fields, "cloud-query").as_slice());
            return match parse_filters(fields, bounds, after, before) {
                Ok(f) => {
                    self.query_text = string_of(get_field(fields, "cloud-query").as_slice());
                    self.query_filters = f;
                    Ok(SubmitStep::Search)
                },
                Err(e) => Err(SubmitError::Filters(e)),
            };
        }
        if str_is(kind, "catalogue") {
            self.catalogue = string_of(get_field(fields, "cloud-query").as_slice());
            return Ok(SubmitStep::Catalogue);
        }
        if str_is(kind, "new-folder") || str_is(kind, "new-subfolder") {
            proof {
                reveal_strlit("new-folder");
                reveal_strlit("new-subfolder");
                assert("new-folder"@.len() != "new-subfolder"@.len());
            }
            let parent = if str_is(kind, "new-subfolder") {
                match self.form_target.take() {
                    Some((id, _)) => Param::Text(id),
                    None => Param::Nil,
                }
            } else {
                match &self.query_scope {
                    Scope::Folder { id } => Param::Text(id.clone()),
                    _ => Param::Nil,
                }
            };
            let ghost pv = param_view(parent);


            let params = vec![("name".to_owned(), text_param(fields, "cloud-name")), ("parent_id".to_owned(), parent)];
            assert(params_view(params@) =~= seq![
                ("name"@, ParamView::Text(field_value(fields@, "cloud-name"@))),
                ("parent_id"@, pv),
            ]);
            return Ok(mutate("folder.create", params));
        }
        if str_is(kind, "delete-asset") {
            return match &self.form_target {
                Some(t) => {
                    let id = t.0.clone();
                    let params = target_vec(t);
                    retain_other(&mut self.feed.selected, &id);
                    Ok(mutate("asset.delete", params))
                },
                None => Err(SubmitError::Message("cloud.error.no_photo_selected".to_owned())),
            };
        }
        if str_is(kind, "new-bucket") || str_is(kind, "edit-bucket") {
            return self.submit_bucket(kind, fields, readings);
        }
        self.submit_target(kind, fields, readings)
    }
}

} // verus!
