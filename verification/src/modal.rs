//! The dialogs the workspace shows, as far as their state is read and
//! written by the workspace: colour picking, metadata forms, the cloud's
//! forms, export recipes and the named-thing dialogs.
use vstd::prelude::*;
use crate::assets::clone_string_opt;

verus! {

/// An 8-bit RGBA colour.
#[derive(Clone, Copy, Debug, PartialEq, Eq, Structural)]
pub struct Rgba8 {
    pub r: u8,
    pub g: u8,
    pub b: u8,
    pub a: u8,
}

/// What a colour picker sets when it is OK'd.
#[derive(Clone, Copy, Debug, PartialEq, Eq, Structural)]
pub enum ColorTarget {
    Foreground,
    Background,
    Note,
    StyleEffect(u32),
    ColorRange,
    SpotInk(u32),
}

/// A section of an export recipe's finishing options.
#[derive(Clone, Copy, Debug, PartialEq, Eq, Structural)]
pub enum FinishingCategory {
    Watermark,
    Copyright,
    Sharpening,
    Border,
}

/// One output of an export recipe.
#[derive(Debug, PartialEq)]
pub struct RecipeOutput {
    pub template: String,
    pub text: String,
    pub copyright: String,
    pub max_edge: u32,
}

impl RecipeOutput {
    pub fn duplicate(&self) -> (r: RecipeOutput)
        ensures
            r == *self,
    {
        RecipeOutput {
            template: self.template.clone(),
            text: self.text.clone(),
            copyright: self.copyright.clone(),
            max_edge: self.max_edge,
        }
    }
}

/// The export recipe dialog's state: the saved recipes, which is selected,
/// the draft being edited, and which finishing page is open over it.
#[derive(Debug)]
pub struct RecipeEditor {
    pub recipes: Vec<String>,
    pub book_selected: usize,
    pub selected: Option<usize>,
    pub name: String,
    pub destination: String,
    pub outputs: Vec<RecipeOutput>,
    pub output: usize,
    pub finishing_category: Option<FinishingCategory>,
    pub error: Option<String>,
    pub photos: Vec<String>,
    pub cloud_assets: Vec<String>,
}

/// Whether two recipe dialogs agree on everything but the finishing page
/// and the error.
pub open spec fn same_recipe_content(a: RecipeEditor, b: RecipeEditor) -> bool {
    &&& a.recipes@ == b.recipes@
    &&& a.book_selected == b.book_selected
    &&& a.selected == b.selected
    &&& a.name == b.name
    &&& a.destination == b.destination
    &&& a.outputs@ == b.outputs@
    &&& a.output == b.output
    &&& a.photos@ == b.photos@
    &&& a.cloud_assets@ == b.cloud_assets@
}

pub fn clone_strings(v: &Vec<String>) -> (r: Vec<String>)
    ensures
        r@ == v@,
{
    let mut r: Vec<String> = Vec::new();
    let mut i: usize = 0;
    while i < v.len()
        invariant
            i <= v@.len(),
            r@ == v@.take(i as int),
        decreases v@.len() - i,
    {
        r.push(v[i].clone());
        i = i + 1;
        assert(r@ =~= v@.take(i as int));
    }
    assert(v@.take(v@.len() as int) =~= v@);
    r
}

impl RecipeEditor {
    /// The current output is one of the recipe's outputs, and the selected
    /// recipe one of the book's.
    pub open spec fn wf(&self) -> bool {
        &&& self.output < self.outputs@.len()
        &&& self.selected matches Some(i) ==> i < self.recipes@.len()
    }

    /// A copy of the dialog.
    pub fn duplicate(&self) -> (r: RecipeEditor)
        ensures
            same_recipe_content(r, *self),
            r.finishing_category == self.finishing_category,
            r.error == self.error,
    {
        let mut outputs: Vec<RecipeOutput> = Vec::new();
        let mut i: usize = 0;
        while i < self.outputs.len()
            invariant
                i <= self.outputs@.len(),
                outputs@ == self.outputs@.take(i as int),
            decreases self.outputs@.len() - i,
        {
            outputs.push(self.outputs[i].duplicate());
            i = i + 1;
            assert(outputs@ =~= self.outputs@.take(i as int));
        }
        assert(self.outputs@.take(self.outputs@.len() as int) =~= self.outputs@);
        RecipeEditor {
            recipes: clone_strings(&self.recipes),
            book_selected: self.book_selected,
            selected: self.selected,
            name: self.name.clone(),
            destination: self.destination.clone(),
            outputs,
            output: self.output,
            finishing_category: self.finishing_category,
            error: clone_string_opt(&self.error),
            photos: clone_strings(&self.photos),
            cloud_assets: clone_strings(&self.cloud_assets),
        }
    }
}

/// A dialog.
#[derive(Debug)]
pub enum Modal {
    ColorPicker { target: ColorTarget, original: Rgba8 },
    MetadataEdit { id: u64, photos: Vec<String>, values: [String; 6], enabled: [bool; 6], error: String, busy: bool },
    Cloud { kind: String, fields: Vec<(String, String, String)> },
    CloudGenerate,
    BucketName { cloud: bool, name: String, query: String },
    ExportRecipes { editor: RecipeEditor },
    RecordedActionBatch { finished: bool },
    RecordedActions { name: String, step: Option<usize> },
    Workspaces { name: String },
    LayerProperties { name: String },
    NewDocument { name: String },
    VariantName { name: String },
    PersonName { name: String },
    ColorRange { target: Rgba8 },
    MaskRefine,
    Preferences,
    VersionHistory,
    UpdateAvailable,
    Busy,
    Filter { id: String },
    Other { kind: String },
}

impl Modal {
    /// Whether this dialog belongs to the cloud, and so is unavailable
    /// without the cloud feature.
    pub open spec fn spec_is_cloud(&self) -> bool {
        match self {
            Modal::Cloud { .. } => true,
            Modal::CloudGenerate => true,
            Modal::BucketName { cloud, .. } => *cloud,
            _ => false,
        }
    }

    pub fn is_cloud(&self) -> (r: bool)
        ensures
            r == self.spec_is_cloud(),
    {
        match self {
            Modal::Cloud { .. } => true,
            Modal::CloudGenerate => true,
            Modal::BucketName { cloud, .. } => *cloud,
            _ => false,
        }
    }
}

} // verus!
