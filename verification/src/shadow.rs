//! Drop shadows for rasterised text: the glyph coverage plane is padded,
//! blurred, and turned into tinted RGBA pixels.
use vstd::prelude::*;
use crate::blur::{stack_blur_in_place, BlurChannels};

verus! {

/// Cell `(row, col)` of the coverage plane padded by `pad` on every side:
/// the coverage of pixel `(col - pad, row - pad)` inside the original
/// `w x h` plane, 0 in the margin.
pub open spec fn padded_cell(alpha: Seq<u8>, w: int, h: int, pad: int, row: int, col: int) -> u8 {
    if pad <= row < pad + h && pad <= col < pad + w {
        alpha[(row - pad) * w + (col - pad)]
    } else {
        0
    }
}

/// Shadow opacity of a pixel of coverage `p` under a tint of opacity `t`:
/// `p * t / 255` rounded to the nearest integer (never a tie).
pub open spec fn tinted_alpha(p: u8, t: u8) -> u8 {
    ((2 * p * t + 255) / 510) as u8
}

proof fn lemma_cell_index(r: int, c: int, width: int, rows: int)
    requires
        0 <= r < rows,
        0 <= c < width,
    ensures
        0 <= r * width + c < rows * width,
        r * width + c + 1 <= rows * width,
        rows * width == width * rows,
        r * width <= r * width + c,
{
    assert(rows * width == width * rows) by (nonlinear_arith);
    assert(0 <= r * width + c < rows * width) by (nonlinear_arith)
        requires
            0 <= r < rows,
            0 <= c < width,
    ;
    assert(r * width + c + 1 <= rows * width) by (nonlinear_arith)
        requires
            0 <= r < rows,
            0 <= c < width,
    ;
}

proof fn lemma_rows_grow(r: int, width: int)
    requires
        width >= 0,
    ensures
        r * width + width == (r + 1) * width,
{
    assert(r * width + width == (r + 1) * width) by (nonlinear_arith);
}

proof fn lemma_row_order(r1: int, c1: int, r2: int, c2: int, width: int)
    requires
        0 <= r1 < r2,
        0 <= c1 < width,
        0 <= c2,
    ensures
        r1 * width + c1 < r2 * width + c2,
{
    assert(r1 * width + c1 < r2 * width + c2) by (nonlinear_arith)
        requires
            0 <= r1 < r2,
            0 <= c1 < width,
            0 <= c2,
    ;
}

proof fn lemma_tint_bounds(p: int, t: int)
    requires
        0 <= p <= 255,
        0 <= t <= 255,
    ensures
        0 <= p * t <= 65025,
        (2 * p * t + 255) / 510 <= 255,
{
    assert(0 <= p * t <= 65025) by (nonlinear_arith)
        requires
            0 <= p <= 255,
            0 <= t <= 255,
    ;
    let x = p * t;
    assert(2 * p * t == 2 * x) by (nonlinear_arith)
        requires
            x == p * t,
    ;
    assert((2 * x + 255) / 510 <= 255) by (nonlinear_arith)
        requires
            0 <= x <= 65025,
    ;
}

/// The `w x h` coverage plane `alpha` with a margin of `pad` zero cells
/// on each side, row by row.
pub fn padded_plane(alpha: &[u8], w: u32, h: u32, pad: u32) -> (plane: Vec<u8>)
    requires
        alpha@.len() >= w * h,
        w + 2 * pad <= u32::MAX,
        h + 2 * pad <= u32::MAX,
        (w + 2 * pad) * (h + 2 * pad) <= u32::MAX,
    ensures
        plane@.len() == (w + 2 * pad) * (h + 2 * pad),
        forall|r: int, c: int|
            0 <= r < h + 2 * pad && 0 <= c < w + 2 * pad ==> #[trigger] plane@[r * (w + 2 * pad) + c]
                == padded_cell(alpha@, w as int, h as int, pad as int, r, c),
{
    let pw = w + 2 * pad;
    let ph = h + 2 * pad;
    let ghost gw = pw as int;
    let alen = alpha.len();
    let mut plane: Vec<u8> = Vec::new();
    let mut r: u32 = 0;
    while r < ph
        invariant
            pw == w + 2 * pad,
            ph == h + 2 * pad,
            gw == pw,
            pw * ph <= u32::MAX,
            alpha@.len() >= w * h,
            alen == alpha@.len(),
            r <= ph,
            plane@.len() == r * gw,
            forall|r1: int, c1: int|
                0 <= r1 < r && 0 <= c1 < gw ==> #[trigger] plane@[r1 * gw + c1] == padded_cell(
                    alpha@,
                    w as int,
                    h as int,
                    pad as int,
                    r1,
                    c1,
                ),
        decreases ph - r,
    {
        let mut c: u32 = 0;
        while c < pw
            invariant
                pw == w + 2 * pad,
                ph == h + 2 * pad,
                gw == pw,
                pw * ph <= u32::MAX,
                alpha@.len() >= w * h,
                alen == alpha@.len(),
                r < ph,
                c <= pw,
                plane@.len() == r * gw + c,
                forall|r1: int, c1: int|
                    0 <= r1 < r && 0 <= c1 < gw ==> #[trigger] plane@[r1 * gw + c1] == padded_cell(
                        alpha@,
                        w as int,
                        h as int,
                        pad as int,
                        r1,
                        c1,
                    ),
                forall|c1: int|
                    0 <= c1 < c ==> #[trigger] plane@[r * gw + c1] == padded_cell(
                        alpha@,
                        w as int,
                        h as int,
                        pad as int,
                        r as int,
                        c1,
                    ),
            decreases pw - c,
        {
            let v: u8 = if pad <= r && r < pad + h && pad <= c && c < pad + w {
                proof {
                    lemma_cell_index((r - pad) as int, (c - pad) as int, w as int, h as int);
                }
                alpha[(r - pad) as usize * w as usize + (c - pad) as usize]
            } else {
                0
            };
            proof {
                lemma_cell_index(r as int, c as int, gw, ph as int);
            }
            plane.push(v);
            proof {
                assert forall|r1: int, c1: int|
                    0 <= r1 < r && 0 <= c1 < gw implies #[trigger] plane@[r1 * gw + c1]
                    == padded_cell(alpha@, w as int, h as int, pad as int, r1, c1) by {
                    lemma_row_order(r1, c1, r as int, c as int, gw);
                }
            }
            c = c + 1;
        }
        proof {
            lemma_rows_grow(r as int, gw);
        }
        r = r + 1;
    }
    proof {
        assert(r * gw == (w + 2 * pad) * (h + 2 * pad)) by (nonlinear_arith)
            requires
                r == h + 2 * pad,
                gw == w + 2 * pad,
        ;
        assert forall|r1: int, c1: int|
            0 <= r1 < h + 2 * pad && 0 <= c1 < w + 2 * pad implies #[trigger] plane@[r1 * (w + 2
                * pad) + c1] == padded_cell(alpha@, w as int, h as int, pad as int, r1, c1) by {
            assert(plane@[r1 * gw + c1] == padded_cell(alpha@, w as int, h as int, pad as int, r1, c1));
        }
    }
    plane
}

/// RGBA pixels of colour `tint`, one per cell of `plane`, each with the
/// tint's colour and an opacity of `tinted_alpha(cell, tint[3])`.
pub fn tint_plane(plane: &Vec<u8>, tint: [u8; 4]) -> (rgba: Vec<u8>)
    requires
        4 * plane@.len() <= usize::MAX,
    ensures
        rgba@.len() == 4 * plane@.len(),
        forall|i: int|
            0 <= i < plane@.len() ==> {
                &&& #[trigger] rgba@[4 * i] == tint[0]
                &&& rgba@[4 * i + 1] == tint[1]
                &&& rgba@[4 * i + 2] == tint[2]
                &&& rgba@[4 * i + 3] == tinted_alpha(plane@[i], tint[3])
            },
{
    let mut rgba: Vec<u8> = Vec::new();
    let mut i: usize = 0;
    while i < plane.len()
        invariant
            i <= plane@.len(),
            4 * plane@.len() <= usize::MAX,
            rgba@.len() == 4 * i,
            forall|k: int|
                0 <= k < i ==> {
                    &&& #[trigger] rgba@[4 * k] == tint[0]
                    &&& rgba@[4 * k + 1] == tint[1]
                    &&& rgba@[4 * k + 2] == tint[2]
                    &&& rgba@[4 * k + 3] == tinted_alpha(plane@[k], tint[3])
                },
        decreases plane.len() - i,
    {
        let ghost old_rgba = rgba@;
        let p = plane[i] as u32;
        let t = tint[3] as u32;
        proof {
            lemma_tint_bounds(p as int, t as int);
        }
        let a = ((2 * p * t + 255) / 510) as u8;
        rgba.push(tint[0]);
        rgba.push(tint[1]);
        rgba.push(tint[2]);
        rgba.push(a);
        proof {
            assert forall|k: int| 0 <= k < i + 1 implies {
                &&& #[trigger] rgba@[4 * k] == tint[0]
                &&& rgba@[4 * k + 1] == tint[1]
                &&& rgba@[4 * k + 2] == tint[2]
                &&& rgba@[4 * k + 3] == tinted_alpha(plane@[k], tint[3])
            } by {
                if k < i {
                    assert(rgba@[4 * k] == old_rgba[4 * k]);
                    assert(rgba@[4 * k + 1] == old_rgba[4 * k + 1]);
                    assert(rgba@[4 * k + 2] == old_rgba[4 * k + 2]);
                    assert(rgba@[4 * k + 3] == old_rgba[4 * k + 3]);
                }
            }
        }
        i = i + 1;
    }
    rgba
}

/// The shadow of a `w x h` coverage plane: the plane padded by `pad` cells
/// on each side, blurred with radius `pad` when `pad > 0`, and tinted.
/// Returns the RGBA pixels and the padded width and height.
///
/// The blurred coverage comes from the blur library and is not described
/// here beyond its size; with `pad == 0` nothing is blurred and the pixels
/// are exactly the tinted plane.
pub fn blur_and_tint(alpha: &[u8], w: u32, h: u32, pad: u32, tint: [u8; 4]) -> (r: (Vec<u8>, u32, u32))
    requires
        alpha@.len() >= w * h,
        w + 2 * pad <= u32::MAX,
        h + 2 * pad <= u32::MAX,
        (w + 2 * pad) * (h + 2 * pad) <= u32::MAX,
        4 * ((w + 2 * pad) * (h + 2 * pad)) <= usize::MAX,
    ensures
        r.1 == w + 2 * pad,
        r.2 == h + 2 * pad,
        r.0@.len() == 4 * (r.1 * r.2),
        forall|i: int|
            0 <= i < r.1 * r.2 ==> {
                &&& #[trigger] r.0@[4 * i] == tint[0]
                &&& r.0@[4 * i + 1] == tint[1]
                &&& r.0@[4 * i + 2] == tint[2]
            },
        pad == 0 ==> forall|row: int, col: int|
            0 <= row < h && 0 <= col < w ==> #[trigger] r.0@[4 * (row * w + col) + 3] == tinted_alpha(
                alpha@[row * w + col],
                tint[3],
            ),
{
    let pw = w + 2 * pad;
    let ph = h + 2 * pad;
    let mut plane = padded_plane(alpha, w, h, pad);
    assert(pw * 1 == pw);
    if pad > 0 {
        let _ = stack_blur_in_place(&mut plane, pw, ph, BlurChannels::Plane, pad);
    }
    let rgba = tint_plane(&plane, tint);
    proof {
        if pad == 0 {
            assert forall|row: int, col: int| 0 <= row < h && 0 <= col < w implies #[trigger] rgba@[4
                * (row * w + col) + 3] == tinted_alpha(alpha@[row * w + col], tint[3]) by {
                lemma_cell_index(row, col, w as int, h as int);
                assert(rgba@[4 * (row * w + col)] == tint[0]);
                assert(plane@[row * (w + 2 * pad) + col] == padded_cell(
                    alpha@,
                    w as int,
                    h as int,
                    pad as int,
                    row,
                    col,
                ));
            }
        }
    }
    (rgba, pw, ph)
}


/// The shadow opacity is the nearest integer to `p * t / 255`.
pub proof fn lemma_tinted_alpha_nearest(p: u8, t: u8)
    ensures
        -127 <= 255 * tinted_alpha(p, t) - p * t <= 127,
{
    lemma_tint_bounds(p as int, t as int);
    let x = p * t;
    let n = 2 * x + 255;
    let q = n / 510;
    let r = n % 510;
    vstd::arithmetic::div_mod::lemma_fundamental_div_mod(n, 510);
    assert(n == 510 * q + r);
    assert(0 <= r < 510);
    assert(2 * p * t == 2 * x) by (nonlinear_arith)
        requires
            x == p * t,
    ;
    assert(tinted_alpha(p, t) == q);
}

} // verus!
