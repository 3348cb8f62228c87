//! Refine Mask's preview backgrounds and what its dialog asks of the
//! running session.
use vstd::prelude::*;
use crate::workspace::Workspace;

verus! {

/// What Refine Mask shows behind the refined layer.
#[derive(Debug, Clone, Copy, PartialEq, Eq, Structural)]
pub enum Background {
    Checkerboard,
    Black,
    White,
    Magenta,
    Mask,
}

pub open spec fn spec_label(b: Background) -> Seq<char> {
    match b {
        Background::Checkerboard => "mask_refine.checkerboard"@,
        Background::Black => "mask_refine.black"@,
        Background::White => "mask_refine.white"@,
        Background::Magenta => "mask_refine.magenta"@,
        Background::Mask => "mask_refine.mask_only"@,
    }
}

impl Background {
    /// Every background, in the order the dialog offers them.
    pub fn all() -> (r: [Background; 5])
        ensures
            r@ == seq![
                Background::Checkerboard,
                Background::Black,
                Background::White,
                Background::Magenta,
                Background::Mask,
            ],
    {
        let r = [Background::Checkerboard, Background::Black, Background::White, Background::Magenta, Background::Mask];
        assert(r@ =~= seq![
            Background::Checkerboard,
            Background::Black,
            Background::White,
            Background::Magenta,
            Background::Mask,
        ]);
        r
    }

    /// The key of the background's name in the string tables.
    pub fn label(self) -> (r: &'static str)
        ensures
            r@ == spec_label(self),
    {
        match self {
            Background::Checkerboard => "mask_refine.checkerboard",
            Background::Black => "mask_refine.black",
            Background::White => "mask_refine.white",
            Background::Magenta => "mask_refine.magenta",
            Background::Mask => "mask_refine.mask_only",
        }
    }
}

/// Each background has a name of its own.
pub proof fn lemma_background_names_differ(a: Background, b: Background)
    ensures
        spec_label(a) == spec_label(b) ==> a == b,
{
    reveal_strlit("mask_refine.checkerboard");
    reveal_strlit("mask_refine.black");
    reveal_strlit("mask_refine.white");
    reveal_strlit("mask_refine.magenta");
    reveal_strlit("mask_refine.mask_only");
    assert("mask_refine.checkerboard"@.len() == 24 && "mask_refine.black"@.len() == 17 && "mask_refine.white"@.len()
        == 17 && "mask_refine.magenta"@.len() == 19 && "mask_refine.mask_only"@.len() == 21);
    assert("mask_refine.black"@[12] != "mask_refine.white"@[12]);
}

/// The note under the preview when the session has no error to show.
pub open spec fn preview_note() -> Seq<char> {
    "mask_refine.preview_note"@
}

impl Workspace {
    /// Whether Refine Mask is rendering.
    pub fn mask_refine_busy(&self) -> (r: bool)
        ensures
            r == (self.jobs.mask_refine matches Some(s) && s.processing),
    {
        match &self.jobs.mask_refine {
            Some(s) => s.processing,
            None => false,
        }
    }

    /// Whether Refine Mask's layer is RGB, so its edge colours can be
    /// decontaminated.
    pub fn mask_refine_rgb(&self) -> (r: bool)
        ensures
            r == (self.jobs.mask_refine matches Some(s) && s.rgb),
    {
        match &self.jobs.mask_refine {
            Some(s) => s.rgb,
            None => false,
        }
    }

    /// The note under Refine Mask's preview: the session's error, if it
    /// has one, else the usual note.
    pub fn mask_refine_note(&self) -> (r: String)
        ensures
            r@ == match self.jobs.mask_refine {
                Some(s) => match s.error {
                    Some(e) => e@,
                    None => preview_note(),
                },
                None => preview_note(),
            },
    {
        match &self.jobs.mask_refine {
            Some(s) => match &s.error {
                Some(e) => e.clone(),
                None => "mask_refine.preview_note".to_owned(),
            },
            None => "mask_refine.preview_note".to_owned(),
        }
    }
}

} // verus!
