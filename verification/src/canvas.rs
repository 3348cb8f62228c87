//! Whole-canvas operations on the open image: quarter turns and flips, and
//! Image ▸ Trim; and the active tool's claim on the keyboard.
use vstd::prelude::*;
use crate::raster::{
    CanvasTransform, crop_pixels, cropped, has_content, is_content_bounds, new_dims, spec_title,
    transform_pixels, transformed, trim_bounds,
};
use crate::text::str_is;
use crate::workspace::{Document, ToolInfo, Workspace};

verus! {

/// The document after `op` turned or flipped every raster layer, as one
/// history step named after the operation.
pub open spec fn doc_transformed(d: Document, e: Document, op: CanvasTransform) -> bool {
    let (nw, nh) = new_dims(op, d.width as int, d.height as int);
    &&& e.width == nw
    &&& e.height == nh
    &&& e.layers@.len() == d.layers@.len()
    &&& forall|l: int| 0 <= l < d.layers@.len() ==> #[trigger] e.layers@[l]@ == transformed(
        op,
        d.width as int,
        d.height as int,
        d.layers@[l]@,
    )
    &&& e.history@.len() == d.history@.len() + 1
    &&& e.history@.drop_last() == d.history@
    &&& e.history@.last()@ == spec_title(op)
    &&& e == (Document { width: e.width, height: e.height, layers: e.layers, history: e.history, ..d })
}

/// Turn or flip a whole document, every raster layer with it, as one
/// history step.
pub fn transform_document(doc: &mut Document, op: CanvasTransform)
    requires
        old(doc).wf(),
    ensures
        final(doc).wf(),
        doc_transformed(*old(doc), *final(doc), op),
{
    let w = doc.width;
    let h = doc.height;
    let mut layers: Vec<Vec<u32>> = Vec::new();
    let mut i: usize = 0;
    while i < doc.layers.len()
        invariant
            i <= doc.layers@.len(),
            doc.wf(),
            w == doc.width,
            h == doc.height,
            layers@.len() == i,
            forall|l: int| 0 <= l < i ==> #[trigger] layers@[l]@ == transformed(op, w as int, h as int, doc.layers@[l]@),
        decreases doc.layers@.len() - i,
    {
        let t = transform_pixels(op, w, h, &doc.layers[i]);
        layers.push(t);
        i = i + 1;
    }
    let swaps = match op {
        CanvasTransform::Cw90 | CanvasTransform::Ccw90 => true,
        _ => false,
    };
    let (nw, nh) = if swaps {
        (h, w)
    } else {
        (w, h)
    };
    proof {
        assert(nw * nh == w * h) by (nonlinear_arith)
            requires
                (nw == h && nh == w) || (nw == w && nh == h),
        ;
    }
    doc.width = nw;
    doc.height = nh;
    doc.layers = layers;
    doc.history.push(op.title().to_owned());
    proof {
        assert(doc.history@.drop_last() =~= old(doc).history@);
    }
}

/// The status line after Image ▸ Trim found nothing to trim, and after it
/// trimmed.
pub open spec fn nothing_to_trim() -> Seq<char> {
    "workspace.canvas.nothing_to_trim"@
}

pub open spec fn trimmed_status() -> Seq<char> {
    "workspace.canvas.trimmed"@
}

/// The document cropped to the rectangle `l..r` × `t..b`, every layer with
/// it.
pub open spec fn doc_cropped(d: Document, e: Document, l: int, t: int, r: int, b: int) -> bool {
    &&& e.width == r - l
    &&& e.height == b - t
    &&& e.layers@.len() == d.layers@.len()
    &&& forall|k: int| 0 <= k < d.layers@.len() ==> #[trigger] e.layers@[k]@ == cropped(
        d.layers@[k]@,
        d.width as int,
        l,
        t,
        r,
        b,
    )
    &&& e == (Document { width: e.width, height: e.height, layers: e.layers, ..d })
}

fn crop_document(doc: &mut Document, l: usize, t: usize, r: usize, b: usize)
    requires
        old(doc).wf(),
        l < r <= old(doc).width,
        t < b <= old(doc).height,
    ensures
        final(doc).wf(),
        doc_cropped(*old(doc), *final(doc), l as int, t as int, r as int, b as int),
{
    let w = doc.width;
    let h = doc.height;
    let mut layers: Vec<Vec<u32>> = Vec::new();
    let mut i: usize = 0;
    while i < doc.layers.len()
        invariant
            i <= doc.layers@.len(),
            doc.wf(),
            w == doc.width,
            h == doc.height,
            l < r <= w,
            t < b <= h,
            layers@.len() == i,
            forall|k: int| 0 <= k < i ==> #[trigger] layers@[k]@ == cropped(
                doc.layers@[k]@,
                w as int,
                l as int,
                t as int,
                r as int,
                b as int,
            ),
        decreases doc.layers@.len() - i,
    {
        let c = crop_pixels(&doc.layers[i], w, h, l, t, r, b);
        layers.push(c);
        i = i + 1;
    }
    doc.width = r - l;
    doc.height = b - t;
    doc.layers = layers;
}

/// The position of the first tool with id `id` in `tools`, or -1.
pub open spec fn tool_index(tools: Seq<ToolInfo>, id: Seq<char>) -> int
    decreases tools.len(),
{
    if tools.len() == 0 {
        -1
    } else {
        let p = tool_index(tools.drop_last(), id);
        if p >= 0 {
            p
        } else if tools.last().id@ == id {
            tools.len() - 1
        } else {
            -1
        }
    }
}

proof fn lemma_tool_index(tools: Seq<ToolInfo>, id: Seq<char>, i: int)
    requires
        0 <= i <= tools.len(),
        forall|j: int| 0 <= j < i ==> tools[j].id@ != id,
        i < tools.len() ==> tools[i].id@ == id,
    ensures
        tool_index(tools, id) == (if i < tools.len() { i } else { -1 }),
    decreases tools.len(),
{
    if tools.len() > 0 {
        let d = tools.drop_last();
        if i < tools.len() - 1 {
            lemma_tool_index(d, id, i);
        } else {
            lemma_tool_index(d, id, d.len() as int);
        }
    }
}

impl Workspace {
    /// Image ▸ Image Rotation and the flips: turn or flip the open image,
    /// naming the step in the status line. Nothing happens without an
    /// image.
    pub fn transform_canvas(&mut self, op: CanvasTransform)
        requires
            old(self).doc matches Some(d) ==> d.wf(),
        ensures
            match old(self).doc {
                Some(d) => {
                    &&& final(self).doc matches Some(e) && e.wf() && doc_transformed(d, e, op)
                    &&& final(self).status@ == spec_title(op)
                    &&& *final(self) == (Workspace { doc: final(self).doc, status: final(self).status, ..*old(self) })
                },
                None => *final(self) == *old(self),
            },
    {
        if let Some(doc) = &mut self.doc {
            transform_document(doc, op);
        } else {
            return;
        }
        self.status = op.title().to_owned();
    }

    /// Image ▸ Trim, given the open image's composite (RGBA8, row-major):
    /// crop away the borders that match the top-left pixel, or
    /// transparency where that is transparent. When nothing would go, the
    /// status line says so and the image stays. Returns the rectangle kept.
    pub fn trim(&mut self, composite: &Vec<u8>) -> (kept: Option<(usize, usize, usize, usize)>)
        requires
            old(self).doc matches Some(d) ==> d.wf() && d.width > 0 && d.height > 0 && composite@.len() == d.width
                * d.height * 4,
        ensures
            match old(self).doc {
                Some(d) => {
                    let (w, h) = (d.width as int, d.height as int);
                    if !has_content(composite@, w, h) {
                        &&& kept is None
                        &&& final(self).status@ == nothing_to_trim()
                        &&& *final(self) == (Workspace { status: final(self).status, ..*old(self) })
                    } else {
                        let b = kept->0;
                        &&& kept is Some
                        &&& is_content_bounds(composite@, w, h, b)
                        &&& if b.0 == 0 && b.1 == 0 && b.2 == w && b.3 == h {
                            &&& final(self).status@ == nothing_to_trim()
                            &&& *final(self) == (Workspace { status: final(self).status, ..*old(self) })
                        } else {
                            &&& final(self).doc matches Some(e) && e.wf() && doc_cropped(
                                d,
                                e,
                                b.0 as int,
                                b.1 as int,
                                b.2 as int,
                                b.3 as int,
                            )
                            &&& final(self).status@ == trimmed_status()
                            &&& *final(self) == (Workspace {
                                doc: final(self).doc,
                                status: final(self).status,
                                ..*old(self)
                            })
                        }
                    }
                },
                None => kept is None && *final(self) == *old(self),
            },
    {
        let (w, h) = match &self.doc {
            Some(d) => (d.width, d.height),
            None => return None,
        };
        let kept = trim_bounds(composite.as_slice(), w, h);
        match kept {
            None => {
                self.status = "workspace.canvas.nothing_to_trim".to_owned();
            },
            Some((l, t, r, b)) => {
                if l == 0 && t == 0 && r == w && b == h {
                    self.status = "workspace.canvas.nothing_to_trim".to_owned();
                } else {
                    if let Some(doc) = &mut self.doc {
                        crop_document(doc, l, t, r, b);
                    }
                    self.status = "workspace.canvas.trimmed".to_owned();
                }
            },
        }
        kept
    }

    /// Whether the active tool takes raw typing.
    pub fn tool_captures_keys(&self) -> (r: bool)
        ensures
            ({
                let p = tool_index(self.tools@, self.editor.active_tool@);
                r == (p >= 0 && self.tools@[p].captures_keys)
            }),
    {
        let mut i: usize = 0;
        while i < self.tools.len()
            invariant
                i <= self.tools@.len(),
                forall|j: int| 0 <= j < i ==> self.tools@[j].id@ != self.editor.active_tool@,
            decreases self.tools@.len() - i,
        {
            if str_is(self.tools[i].id.as_str(), self.editor.active_tool.as_str()) {
                proof {
                    lemma_tool_index(self.tools@, self.editor.active_tool@, i as int);
                }
                return self.tools[i].captures_keys;
            }
            i = i + 1;
        }
        proof {
            lemma_tool_index(self.tools@, self.editor.active_tool@, self.tools@.len() as int);
        }
        false
    }
}

} // verus!

verus! {

/// A quarter turn clockwise and then one anticlockwise give back the
/// image: its size and every layer's pixels.
pub proof fn lemma_turn_and_back(d: Document, e: Document, f: Document)
    requires
        d.wf(),
        doc_transformed(d, e, CanvasTransform::Cw90),
        doc_transformed(e, f, CanvasTransform::Ccw90),
    ensures
        f.width == d.width,
        f.height == d.height,
        f.layers@.len() == d.layers@.len(),
        forall|l: int| 0 <= l < d.layers@.len() ==> #[trigger] f.layers@[l]@ == d.layers@[l]@,
        f.history@.len() == d.history@.len() + 2,
{
    assert forall|l: int| 0 <= l < d.layers@.len() implies #[trigger] f.layers@[l]@ == d.layers@[l]@ by {
        crate::raster::lemma_cw_then_ccw(d.width as int, d.height as int, d.layers@[l]@);
    }
}

/// A flip, or a half turn, done twice gives back the image.
pub proof fn lemma_flip_twice(op: CanvasTransform, d: Document, e: Document, f: Document)
    requires
        op == CanvasTransform::FlipH || op == CanvasTransform::FlipV || op == CanvasTransform::Rotate180,
        d.wf(),
        doc_transformed(d, e, op),
        doc_transformed(e, f, op),
    ensures
        f.width == d.width,
        f.height == d.height,
        f.layers@.len() == d.layers@.len(),
        forall|l: int| 0 <= l < d.layers@.len() ==> #[trigger] f.layers@[l]@ == d.layers@[l]@,
{
    assert forall|l: int| 0 <= l < d.layers@.len() implies #[trigger] f.layers@[l]@ == d.layers@[l]@ by {
        crate::raster::lemma_self_inverse(op, d.width as int, d.height as int, d.layers@[l]@);
    }
}

} // verus!
