//! Whole-canvas rotations and flips of row-major pixel buffers, and the
//! bounds that Image ▸ Trim keeps.
use vstd::prelude::*;
use vstd::arithmetic::div_mod::{lemma_fundamental_div_mod, lemma_fundamental_div_mod_converse};

verus! {

/// Image ▸ Image Rotation and the flips under Edit ▸ Transform.
#[derive(Clone, Copy, Debug, PartialEq, Eq, Structural)]
pub enum CanvasTransform {
    Cw90,
    Ccw90,
    Rotate180,
    FlipH,
    FlipV,
}

impl CanvasTransform {
    /// The history entry's name (a message key).
    pub fn title(self) -> (r: &'static str)
        ensures
            r@ == spec_title(self),
    {
        match self {
            CanvasTransform::Cw90 => "canvas.rotate_cw",
            CanvasTransform::Ccw90 => "canvas.rotate_ccw",
            CanvasTransform::Rotate180 => "canvas.rotate_180",
            CanvasTransform::FlipH => "canvas.flip_horizontal",
            CanvasTransform::FlipV => "canvas.flip_vertical",
        }
    }
}

pub open spec fn spec_title(op: CanvasTransform) -> Seq<char> {
    match op {
        CanvasTransform::Cw90 => "canvas.rotate_cw"@,
        CanvasTransform::Ccw90 => "canvas.rotate_ccw"@,
        CanvasTransform::Rotate180 => "canvas.rotate_180"@,
        CanvasTransform::FlipH => "canvas.flip_horizontal"@,
        CanvasTransform::FlipV => "canvas.flip_vertical"@,
    }
}

/// The canvas size after the transform: quarter turns swap the sides.
pub open spec fn new_dims(op: CanvasTransform, w: int, h: int) -> (int, int) {
    match op {
        CanvasTransform::Cw90 | CanvasTransform::Ccw90 => (h, w),
        _ => (w, h),
    }
}

/// Where destination pixel `(x, y)` comes from.
pub open spec fn source(op: CanvasTransform, w: int, h: int, x: int, y: int) -> (int, int) {
    let (nw, nh) = new_dims(op, w, h);
    match op {
        CanvasTransform::Cw90 => (y, nw - 1 - x),
        CanvasTransform::Ccw90 => (nh - 1 - y, x),
        CanvasTransform::Rotate180 => (w - 1 - x, h - 1 - y),
        CanvasTransform::FlipH => (w - 1 - x, y),
        CanvasTransform::FlipV => (x, h - 1 - y),
    }
}

/// A `w`×`h` row-major buffer turned or flipped.
pub open spec fn transformed<P>(op: CanvasTransform, w: int, h: int, p: Seq<P>) -> Seq<P> {
    let (nw, nh) = new_dims(op, w, h);
    Seq::new(
        (nw * nh) as nat,
        |i: int|
            {
                let s = source(op, w, h, i % nw, i / nw);
                p[s.1 * w + s.0]
            },
    )
}

/// Row-major position `(x, y)` of a `w`-wide buffer, and back.
pub proof fn lemma_index(w: int, h: int, x: int, y: int)
    requires
        0 <= x < w,
        0 <= y < h,
    ensures
        0 <= y * w + x < w * h,
        (y * w + x) % w == x,
        (y * w + x) / w == y,
{
    assert(0 <= y * w + x < w * h) by (nonlinear_arith)
        requires
            0 <= x < w,
            0 <= y < h,
    ;
    lemma_fundamental_div_mod_converse(y * w + x, w, y, x);
}

/// Every position of a `w`×`h` buffer is some `(x, y)`.
pub proof fn lemma_split(w: int, h: int, i: int)
    requires
        0 <= i < w * h,
        w > 0,
    ensures
        0 <= i % w < w,
        0 <= i / w < h,
        i == (i / w) * w + i % w,
{
    lemma_fundamental_div_mod(i, w);
    assert(w * (i / w) == (i / w) * w) by (nonlinear_arith);
    assert(0 <= i % w < w) by {
        vstd::arithmetic::div_mod::lemma_mod_bound(i, w);
    }
    assert(0 <= i / w < h) by (nonlinear_arith)
        requires
            0 <= i < w * h,
            w > 0,
            i == w * (i / w) + i % w,
            0 <= i % w < w,
    ;
}

/// The transform's pixel at `(x, y)`, and where it comes from.
pub proof fn lemma_transformed_at<P>(op: CanvasTransform, w: int, h: int, p: Seq<P>, x: int, y: int)
    requires
        w >= 0,
        h >= 0,
        p.len() == w * h,
        0 <= x < new_dims(op, w, h).0,
        0 <= y < new_dims(op, w, h).1,
    ensures
        ({
            let (nw, nh) = new_dims(op, w, h);
            let s = source(op, w, h, x, y);
            &&& 0 <= s.0 < w
            &&& 0 <= s.1 < h
            &&& 0 <= y * nw + x < nw * nh
            &&& 0 <= s.1 * w + s.0 < w * h
            &&& transformed(op, w, h, p).len() == nw * nh
            &&& transformed(op, w, h, p)[y * nw + x] == p[s.1 * w + s.0]
        }),
{
    let (nw, nh) = new_dims(op, w, h);
    lemma_index(nw, nh, x, y);
    let s = source(op, w, h, x, y);
    lemma_index(w, h, s.0, s.1);
    assert(nw * nh >= 0) by (nonlinear_arith)
        requires
            nw >= 0,
            nh >= 0,
    ;
}

/// Turn or flip a `w`×`h` row-major buffer.
pub fn transform_pixels<P: Copy>(op: CanvasTransform, w: usize, h: usize, p: &Vec<P>) -> (r: Vec<P>)
    requires
        p@.len() == w * h,
    ensures
        r@ == transformed(op, w as int, h as int, p@),
{
    let swaps = match op {
        CanvasTransform::Cw90 | CanvasTransform::Ccw90 => true,
        _ => false,
    };
    let (nw, nh) = if swaps {
        (h, w)
    } else {
        (w, h)
    };
    let ghost total = (nw * nh) as int;
    proof {
        assert(nw * nh == w * h) by (nonlinear_arith)
            requires
                (nw == h && nh == w) || (nw == w && nh == h),
        ;
    }
    let ghost expected = transformed(op, w as int, h as int, p@);
    let mut r: Vec<P> = Vec::new();
    let plen = p.len();
    let mut y: usize = 0;
    while y < nh
        invariant
            (nw as int, nh as int) == new_dims(op, w as int, h as int),
            nw * nh == w * h,
            p@.len() == w * h,
            plen == p@.len(),
            expected == transformed(op, w as int, h as int, p@),
            y <= nh,
            r@.len() == y * nw,
            forall|k: int| 0 <= k < r@.len() ==> r@[k] == expected[k],
        decreases nh - y,
    {
        let mut x: usize = 0;
        while x < nw
            invariant
                (nw as int, nh as int) == new_dims(op, w as int, h as int),
                nw * nh == w * h,
                p@.len() == w * h,
                plen == p@.len(),
                expected == transformed(op, w as int, h as int, p@),
                y < nh,
                x <= nw,
                r@.len() == y * nw + x,
                forall|k: int| 0 <= k < r@.len() ==> r@[k] == expected[k],
            decreases nw - x,
        {
            proof {
                lemma_transformed_at(op, w as int, h as int, p@, x as int, y as int);
            }
            let (sx, sy): (usize, usize) = match op {
                CanvasTransform::Cw90 => (y, nw - 1 - x),
                CanvasTransform::Ccw90 => (nh - 1 - y, x),
                CanvasTransform::Rotate180 => (w - 1 - x, h - 1 - y),
                CanvasTransform::FlipH => (w - 1 - x, y),
                CanvasTransform::FlipV => (x, h - 1 - y),
            };
            assert((sx as int, sy as int) == source(op, w as int, h as int, x as int, y as int));
            let v = p[sy * w + sx];
            r.push(v);
            x = x + 1;
        }
        proof {
            assert((y + 1) * nw == y * nw + nw) by (nonlinear_arith);
        }
        y = y + 1;
    }
    assert(nh * nw == nw * nh) by (nonlinear_arith);
    assert(r@.len() == expected.len());
    assert(r@ =~= expected);
    r
}

/// The pixel at `(x, y)` of a `w`-wide row-major buffer.
pub open spec fn at<P>(a: Seq<P>, w: int, x: int, y: int) -> P {
    a[y * w + x]
}

/// Whether two buffers of a `w`×`h` canvas agree everywhere.
proof fn lemma_same_pixels<P>(a: Seq<P>, b: Seq<P>, w: int, h: int)
    requires
        w > 0,
        a.len() == w * h,
        b.len() == w * h,
        forall|x: int, y: int| 0 <= x < w && 0 <= y < h ==> #[trigger] at(a, w, x, y) == at(b, w, x, y),
    ensures
        a == b,
{
    assert forall|i: int| 0 <= i < a.len() implies a[i] == b[i] by {
        lemma_split(w, h, i);
        let x = i % w;
        let y = i / w;
        assert(at(a, w, x, y) == at(b, w, x, y));
    }
    assert(a =~= b);
}

/// Turning clockwise and then anticlockwise gives the canvas back.
pub proof fn lemma_cw_then_ccw<P>(w: int, h: int, p: Seq<P>)
    requires
        w >= 0,
        h >= 0,
        p.len() == w * h,
    ensures
        transformed(CanvasTransform::Ccw90, h, w, transformed(CanvasTransform::Cw90, w, h, p)) == p,
{
    if w == 0 || h == 0 {
        assert(w * h == 0 && h * w == 0) by (nonlinear_arith)
            requires
                w == 0 || h == 0,
        ;
        assert(p =~= Seq::<P>::empty());
    } else {
        let q = transformed(CanvasTransform::Cw90, w, h, p);
        let r = transformed(CanvasTransform::Ccw90, h, w, q);
        lemma_transformed_at(CanvasTransform::Cw90, w, h, p, 0, 0);
        assert(q.len() == h * w);
        assert(h * w == w * h) by (nonlinear_arith);
        lemma_transformed_at(CanvasTransform::Ccw90, h, w, q, 0, 0);
        assert forall|x: int, y: int| 0 <= x < w && 0 <= y < h implies #[trigger] at(r, w, x, y) == at(p, w, x, y) by {
            lemma_transformed_at(CanvasTransform::Ccw90, h, w, q, x, y);
            lemma_transformed_at(CanvasTransform::Cw90, w, h, p, h - 1 - y, x);
        }
        lemma_same_pixels(r, p, w, h);
    }
}

/// Turning anticlockwise and then clockwise gives the canvas back.
pub proof fn lemma_ccw_then_cw<P>(w: int, h: int, p: Seq<P>)
    requires
        w >= 0,
        h >= 0,
        p.len() == w * h,
    ensures
        transformed(CanvasTransform::Cw90, h, w, transformed(CanvasTransform::Ccw90, w, h, p)) == p,
{
    if w == 0 || h == 0 {
        assert(w * h == 0 && h * w == 0) by (nonlinear_arith)
            requires
                w == 0 || h == 0,
        ;
        assert(p =~= Seq::<P>::empty());
    } else {
        let q = transformed(CanvasTransform::Ccw90, w, h, p);
        let r = transformed(CanvasTransform::Cw90, h, w, q);
        lemma_transformed_at(CanvasTransform::Ccw90, w, h, p, 0, 0);
        assert(h * w == w * h) by (nonlinear_arith);
        lemma_transformed_at(CanvasTransform::Cw90, h, w, q, 0, 0);
        assert forall|x: int, y: int| 0 <= x < w && 0 <= y < h implies #[trigger] at(r, w, x, y) == at(p, w, x, y) by {
            lemma_transformed_at(CanvasTransform::Cw90, h, w, q, x, y);
            lemma_transformed_at(CanvasTransform::Ccw90, w, h, p, y, w - 1 - x);
        }
        lemma_same_pixels(r, p, w, h);
    }
}

/// A flip or a half turn done twice gives the canvas back.
pub proof fn lemma_self_inverse<P>(op: CanvasTransform, w: int, h: int, p: Seq<P>)
    requires
        op == CanvasTransform::FlipH || op == CanvasTransform::FlipV || op
            == CanvasTransform::Rotate180,
        w >= 0,
        h >= 0,
        p.len() == w * h,
    ensures
        transformed(op, w, h, transformed(op, w, h, p)) == p,
{
    if w == 0 || h == 0 {
        assert(w * h == 0 && h * w == 0) by (nonlinear_arith)
            requires
                w == 0 || h == 0,
        ;
        assert(p =~= Seq::<P>::empty());
    } else {
        let q = transformed(op, w, h, p);
        let r = transformed(op, w, h, q);
        lemma_transformed_at(op, w, h, p, 0, 0);
        lemma_transformed_at(op, w, h, q, 0, 0);
        assert forall|x: int, y: int| 0 <= x < w && 0 <= y < h implies #[trigger] at(r, w, x, y) == at(p, w, x, y) by {
            lemma_transformed_at(op, w, h, q, x, y);
            let s = source(op, w, h, x, y);
            lemma_transformed_at(op, w, h, p, s.0, s.1);
        }
        lemma_same_pixels(r, p, w, h);
    }
}

/// Two clockwise quarter turns are a half turn.
pub proof fn lemma_cw_twice_is_half_turn<P>(w: int, h: int, p: Seq<P>)
    requires
        w > 0,
        h > 0,
        p.len() == w * h,
    ensures
        transformed(CanvasTransform::Cw90, h, w, transformed(CanvasTransform::Cw90, w, h, p))
            == transformed(CanvasTransform::Rotate180, w, h, p),
{
    let q = transformed(CanvasTransform::Cw90, w, h, p);
    let r = transformed(CanvasTransform::Cw90, h, w, q);
    let t = transformed(CanvasTransform::Rotate180, w, h, p);
    lemma_transformed_at(CanvasTransform::Cw90, w, h, p, 0, 0);
    assert(h * w == w * h) by (nonlinear_arith);
    lemma_transformed_at(CanvasTransform::Cw90, h, w, q, 0, 0);
    lemma_transformed_at(CanvasTransform::Rotate180, w, h, p, 0, 0);
    assert forall|x: int, y: int| 0 <= x < w && 0 <= y < h implies #[trigger] at(r, w, x, y) == at(t, w, x, y) by {
        lemma_transformed_at(CanvasTransform::Cw90, h, w, q, x, y);
        lemma_transformed_at(CanvasTransform::Cw90, w, h, p, y, w - 1 - x);
        lemma_transformed_at(CanvasTransform::Rotate180, w, h, p, x, y);
    }
    lemma_same_pixels(r, t, w, h);
}

// ---------------------------------------------------------------------
// Trim.

/// Byte `k` of pixel `(x, y)` of a `w`-wide RGBA8 buffer.
pub open spec fn byte(rgba: Seq<u8>, w: int, x: int, y: int, k: int) -> u8 {
    rgba[(y * w + x) * 4 + k]
}

/// Whether pixel `(x, y)` counts as border: the colour of the top-left
/// pixel, or transparent where that one is.
pub open spec fn is_border(rgba: Seq<u8>, w: int, x: int, y: int) -> bool {
    ||| (byte(rgba, w, x, y, 0) == rgba[0] && byte(rgba, w, x, y, 1) == rgba[1]
        && byte(rgba, w, x, y, 2) == rgba[2] && byte(rgba, w, x, y, 3) == rgba[3])
    ||| (byte(rgba, w, x, y, 3) == 0 && rgba[3] == 0)
}

/// Whether some pixel of the canvas is not border.
pub open spec fn has_content(rgba: Seq<u8>, w: int, h: int) -> bool {
    exists|x: int, y: int| 0 <= x < w && 0 <= y < h && !#[trigger] is_border(rgba, w, x, y)
}

/// `(left, top, right, bottom)` is the smallest rectangle holding every
/// pixel that is not border.
pub open spec fn is_content_bounds(rgba: Seq<u8>, w: int, h: int, b: (usize, usize, usize, usize)) -> bool {
    let (l, t, r, bt) = (b.0 as int, b.1 as int, b.2 as int, b.3 as int);
    &&& 0 <= l < r <= w
    &&& 0 <= t < bt <= h
    &&& forall|x: int, y: int| 0 <= x < w && 0 <= y < h && !#[trigger] is_border(rgba, w, x, y) ==> l <= x < r && t <= y < bt
    &&& exists|y: int| 0 <= y < h && !#[trigger] is_border(rgba, w, l, y)
    &&& exists|y: int| 0 <= y < h && !#[trigger] is_border(rgba, w, r - 1, y)
    &&& exists|x: int| 0 <= x < w && !#[trigger] is_border(rgba, w, x, t)
    &&& exists|x: int| 0 <= x < w && !#[trigger] is_border(rgba, w, x, bt - 1)
}

proof fn lemma_byte_index(w: int, h: int, x: int, y: int, k: int)
    requires
        0 <= x < w,
        0 <= y < h,
        0 <= k < 4,
    ensures
        0 <= (y * w + x) * 4 + k < w * h * 4,
{
    lemma_index(w, h, x, y);
    assert(0 <= (y * w + x) * 4 + k < w * h * 4) by (nonlinear_arith)
        requires
            0 <= y * w + x < w * h,
            0 <= k < 4,
    ;
}

/// What Image ▸ Trim keeps of a `w`×`h` RGBA8 composite: the bounds of
/// everything that is not border, or `None` when all of it is.
pub fn trim_bounds(rgba: &[u8], w: usize, h: usize) -> (r: Option<(usize, usize, usize, usize)>)
    requires
        w > 0,
        h > 0,
        rgba@.len() == w * h * 4,
    ensures
        match r {
            None => !has_content(rgba@, w as int, h as int),
            Some(b) => is_content_bounds(rgba@, w as int, h as int, b),
        },
{
    assert(w * h * 4 >= 4) by (nonlinear_arith)
        requires
            w > 0,
            h > 0,
    ;
    let rlen = rgba.len();
    let k0 = rgba[0];
    let k1 = rgba[1];
    let k2 = rgba[2];
    let k3 = rgba[3];
    let mut found = false;
    let mut l: usize = w;
    let mut t: usize = h;
    let mut rr: usize = 0;
    let mut bb: usize = 0;
    let mut lw: usize = 0;
    let mut rw: usize = 0;
    let mut tw: usize = 0;
    let mut bw: usize = 0;
    let mut y: usize = 0;
    while y < h
        invariant
            w > 0,
            h > 0,
            rgba@.len() == w * h * 4,
            rlen == rgba@.len(),
            k0 == rgba@[0] && k1 == rgba@[1] && k2 == rgba@[2] && k3 == rgba@[3],
            y <= h,
            !found ==> forall|xx: int, yy: int| 0 <= xx < w && 0 <= yy < y ==> #[trigger] is_border(rgba@, w as int, xx, yy),
            found ==> {
                &&& l < rr <= w && t < bb <= y
                &&& forall|xx: int, yy: int| 0 <= xx < w && 0 <= yy < y && !#[trigger] is_border(rgba@, w as int, xx, yy) ==> l <= xx < rr && t <= yy < bb
                &&& lw < h && !is_border(rgba@, w as int, l as int, lw as int)
                &&& rw < h && !is_border(rgba@, w as int, rr - 1, rw as int)
                &&& tw < w && !is_border(rgba@, w as int, tw as int, t as int)
                &&& bw < w && !is_border(rgba@, w as int, bw as int, bb - 1)
            },
        decreases h - y,
    {
        let mut x: usize = 0;
        while x < w
            invariant
                w > 0,
                h > 0,
                rgba@.len() == w * h * 4,
                rlen == rgba@.len(),
                k0 == rgba@[0] && k1 == rgba@[1] && k2 == rgba@[2] && k3 == rgba@[3],
                y < h,
                x <= w,
                !found ==> forall|xx: int, yy: int| 0 <= xx < w && 0 <= yy < y ==> #[trigger] is_border(rgba@, w as int, xx, yy),
                !found ==> forall|xx: int| 0 <= xx < x ==> #[trigger] is_border(rgba@, w as int, xx, y as int),
                found ==> {
                    &&& l < rr <= w && t < bb <= y + 1
                    &&& forall|xx: int, yy: int| 0 <= xx < w && 0 <= yy < y && !#[trigger] is_border(rgba@, w as int, xx, yy) ==> l <= xx < rr && t <= yy < bb
                    &&& forall|xx: int| 0 <= xx < x && !#[trigger] is_border(rgba@, w as int, xx, y as int) ==> l <= xx < rr && t <= y < bb
                    &&& lw < h && !is_border(rgba@, w as int, l as int, lw as int)
                    &&& rw < h && !is_border(rgba@, w as int, rr - 1, rw as int)
                    &&& tw < w && !is_border(rgba@, w as int, tw as int, t as int)
                    &&& bw < w && !is_border(rgba@, w as int, bw as int, bb - 1)
                },
            decreases w - x,
        {
            proof {
                lemma_byte_index(w as int, h as int, x as int, y as int, 0);
                lemma_byte_index(w as int, h as int, x as int, y as int, 3);
                lemma_index(w as int, h as int, x as int, y as int);
            }
            let i = (y * w + x) * 4;
            let same = (rgba[i] == k0 && rgba[i + 1] == k1 && rgba[i + 2] == k2 && rgba[i + 3] == k3)
                || (rgba[i + 3] == 0 && k3 == 0);
            assert(same == is_border(rgba@, w as int, x as int, y as int));
            if !same {
                if !found {
                    found = true;
                    l = x;
                    rr = x + 1;
                    t = y;
                    bb = y + 1;
                    lw = y;
                    rw = y;
                    tw = x;
                    bw = x;
                } else {
                    if x < l {
                        l = x;
                        lw = y;
                    }
                    if x + 1 > rr {
                        rr = x + 1;
                        rw = y;
                    }
                    if y + 1 > bb {
                        bb = y + 1;
                        bw = x;
                    }
                }
            }
            x = x + 1;
        }
        y = y + 1;
    }
    if !found {
        None
    } else {
        let b = (l, t, rr, bb);
        assert(exists|yy: int| 0 <= yy < h && !#[trigger] is_border(rgba@, w as int, l as int, yy));
        assert(exists|yy: int| 0 <= yy < h && !#[trigger] is_border(rgba@, w as int, rr - 1, yy));
        assert(exists|xx: int| 0 <= xx < w && !#[trigger] is_border(rgba@, w as int, xx, t as int));
        assert(exists|xx: int| 0 <= xx < w && !#[trigger] is_border(rgba@, w as int, xx, bb - 1));
        Some(b)
    }
}

// ---------------------------------------------------------------------
// Crop.

/// The `(r - l)`×`(b - t)` buffer cut from a `w`-wide one at `(l, t)`.
pub open spec fn cropped<P>(p: Seq<P>, w: int, l: int, t: int, r: int, b: int) -> Seq<P> {
    Seq::new(
        ((r - l) * (b - t)) as nat,
        |i: int| p[(i / (r - l) + t) * w + (i % (r - l) + l)],
    )
}

/// Cut the rectangle `[l, r)`×`[t, b)` out of a `w`×`h` buffer.
pub fn crop_pixels<P: Copy>(p: &Vec<P>, w: usize, h: usize, l: usize, t: usize, r: usize, b: usize) -> (out: Vec<P>)
    requires
        p@.len() == w * h,
        l < r <= w,
        t < b <= h,
    ensures
        out@ == cropped(p@, w as int, l as int, t as int, r as int, b as int),
{
    let nw = r - l;
    let nh = b - t;
    let ghost expected = cropped(p@, w as int, l as int, t as int, r as int, b as int);
    let plen = p.len();
    let mut out: Vec<P> = Vec::new();
    let mut y: usize = 0;
    while y < nh
        invariant
            nw == r - l,
            nh == b - t,
            l < r <= w,
            t < b <= h,
            p@.len() == w * h,
            plen == p@.len(),
            expected == cropped(p@, w as int, l as int, t as int, r as int, b as int),
            y <= nh,
            out@.len() == y * nw,
            forall|k: int| 0 <= k < out@.len() ==> out@[k] == expected[k],
        decreases nh - y,
    {
        let mut x: usize = 0;
        while x < nw
            invariant
                nw == r - l,
                nh == b - t,
                l < r <= w,
                t < b <= h,
                p@.len() == w * h,
                plen == p@.len(),
                expected == cropped(p@, w as int, l as int, t as int, r as int, b as int),
                y < nh,
                x <= nw,
                out@.len() == y * nw + x,
                forall|k: int| 0 <= k < out@.len() ==> out@[k] == expected[k],
            decreases nw - x,
        {
            proof {
                lemma_index(nw as int, nh as int, x as int, y as int);
                lemma_index(w as int, h as int, (x + l) as int, (y + t) as int);
            }
            let v = p[(y + t) * w + (x + l)];
            out.push(v);
            x = x + 1;
        }
        proof {
            assert((y + 1) * nw == y * nw + nw) by (nonlinear_arith);
        }
        y = y + 1;
    }
    assert(nh * nw == nw * nh) by (nonlinear_arith);
    assert(out@.len() == expected.len());
    assert(out@ =~= expected);
    out
}

/// Cropping to the whole canvas changes nothing.
pub proof fn lemma_crop_whole<P>(p: Seq<P>, w: int, h: int)
    requires
        w > 0,
        h > 0,
        p.len() == w * h,
    ensures
        cropped(p, w, 0, 0, w, h) == p,
{
    let c = cropped(p, w, 0, 0, w, h);
    assert forall|i: int| 0 <= i < p.len() implies c[i] == p[i] by {
        lemma_split(w, h, i);
    }
    assert(c =~= p);
}

/// Where every pixel of a turned or flipped `w`×`h` buffer comes from, as
/// `(column, row)` of the result read from the source. A horizontal flip
/// mirrors each row and keeps the rows; a vertical flip swaps the rows and
/// keeps each row's order; a half turn does both. A clockwise quarter turn
/// gives an `h`-wide, `w`-tall buffer whose row `y` is the source's column
/// `y` read from the bottom up; an anticlockwise one, whose row `y` is the
/// source's column `w - 1 - y` read from the top down.
pub proof fn lemma_where_pixels_go<P>(w: int, h: int, p: Seq<P>)
    requires
        w >= 0,
        h >= 0,
        p.len() == w * h,
    ensures
        transformed(CanvasTransform::FlipH, w, h, p).len() == w * h,
        transformed(CanvasTransform::FlipV, w, h, p).len() == w * h,
        transformed(CanvasTransform::Rotate180, w, h, p).len() == w * h,
        transformed(CanvasTransform::Cw90, w, h, p).len() == w * h,
        transformed(CanvasTransform::Ccw90, w, h, p).len() == w * h,
        forall|x: int, y: int|
            0 <= x < w && 0 <= y < h ==> #[trigger] at(transformed(CanvasTransform::FlipH, w, h, p), w, x, y) == at(
                p,
                w,
                w - 1 - x,
                y,
            ),
        forall|x: int, y: int|
            0 <= x < w && 0 <= y < h ==> #[trigger] at(transformed(CanvasTransform::FlipV, w, h, p), w, x, y) == at(
                p,
                w,
                x,
                h - 1 - y,
            ),
        forall|x: int, y: int|
            0 <= x < w && 0 <= y < h ==> #[trigger] at(transformed(CanvasTransform::Rotate180, w, h, p), w, x, y)
                == at(p, w, w - 1 - x, h - 1 - y),
        forall|x: int, y: int|
            0 <= x < h && 0 <= y < w ==> #[trigger] at(transformed(CanvasTransform::Cw90, w, h, p), h, x, y) == at(
                p,
                w,
                y,
                h - 1 - x,
            ),
        forall|x: int, y: int|
            0 <= x < h && 0 <= y < w ==> #[trigger] at(transformed(CanvasTransform::Ccw90, w, h, p), h, x, y) == at(
                p,
                w,
                w - 1 - y,
                x,
            ),
{
    assert(h * w == w * h) by (nonlinear_arith);
    assert forall|x: int, y: int| 0 <= x < w && 0 <= y < h implies #[trigger] at(
        transformed(CanvasTransform::FlipH, w, h, p),
        w,
        x,
        y,
    ) == at(p, w, w - 1 - x, y) by {
        lemma_transformed_at(CanvasTransform::FlipH, w, h, p, x, y);
    }
    assert forall|x: int, y: int| 0 <= x < w && 0 <= y < h implies #[trigger] at(
        transformed(CanvasTransform::FlipV, w, h, p),
        w,
        x,
        y,
    ) == at(p, w, x, h - 1 - y) by {
        lemma_transformed_at(CanvasTransform::FlipV, w, h, p, x, y);
    }
    assert forall|x: int, y: int| 0 <= x < w && 0 <= y < h implies #[trigger] at(
        transformed(CanvasTransform::Rotate180, w, h, p),
        w,
        x,
        y,
    ) == at(p, w, w - 1 - x, h - 1 - y) by {
        lemma_transformed_at(CanvasTransform::Rotate180, w, h, p, x, y);
    }
    assert forall|x: int, y: int| 0 <= x < h && 0 <= y < w implies #[trigger] at(
        transformed(CanvasTransform::Cw90, w, h, p),
        h,
        x,
        y,
    ) == at(p, w, y, h - 1 - x) by {
        lemma_transformed_at(CanvasTransform::Cw90, w, h, p, x, y);
    }
    assert forall|x: int, y: int| 0 <= x < h && 0 <= y < w implies #[trigger] at(
        transformed(CanvasTransform::Ccw90, w, h, p),
        h,
        x,
        y,
    ) == at(p, w, w - 1 - y, x) by {
        lemma_transformed_at(CanvasTransform::Ccw90, w, h, p, x, y);
    }
}

/// A crop keeps every pixel of the rectangle in place relative to its
/// corner: pixel `(x, y)` of the result is pixel `(x + l, y + t)` of the
/// source, and the result is `(r - l)`×`(b - t)`.
pub proof fn lemma_crop_keeps_pixels<P>(p: Seq<P>, w: int, h: int, l: int, t: int, r: int, b: int)
    requires
        p.len() == w * h,
        0 <= l < r <= w,
        0 <= t < b <= h,
    ensures
        cropped(p, w, l, t, r, b).len() == (r - l) * (b - t),
        forall|x: int, y: int|
            0 <= x < r - l && 0 <= y < b - t ==> #[trigger] at(cropped(p, w, l, t, r, b), r - l, x, y) == at(
                p,
                w,
                x + l,
                y + t,
            ),
{
    assert((r - l) * (b - t) >= 0) by (nonlinear_arith)
        requires
            r - l > 0,
            b - t > 0,
    ;
    assert forall|x: int, y: int| 0 <= x < r - l && 0 <= y < b - t implies #[trigger] at(
        cropped(p, w, l, t, r, b),
        r - l,
        x,
        y,
    ) == at(p, w, x + l, y + t) by {
        lemma_index(r - l, b - t, x, y);
    }
}

} // verus!
