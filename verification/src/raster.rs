//! Integer geometry of pasting one pixel rectangle onto another: which
//! source rows and columns land inside the destination, and how glyph
//! coverage accumulates in a coverage plane.
use vstd::prelude::*;

verus! {

/// Whether source index `i` of a run placed at `offset` falls in `[0, dst_len)`.
pub open spec fn lands(i: int, offset: int, dst_len: int) -> bool {
    0 <= i + offset < dst_len
}

/// The source indices `[lo, hi)` of a run of `src_len` pixels placed at
/// `offset` that land inside `[0, dst_len)`.
pub fn visible_span(offset: i32, src_len: u32, dst_len: u32) -> (r: (u32, u32))
    ensures
        r.0 <= r.1 <= src_len,
        forall|i: int| 0 <= i < src_len ==> ((r.0 <= i < r.1) <==> #[trigger] lands(i, offset as int, dst_len as int)),
{
    let off = offset as i64;
    let lo: i64 = if off < 0 { -off } else { 0 };
    let hi: i64 = dst_len as i64 - off;
    let lo2: i64 = if lo < src_len as i64 { lo } else { src_len as i64 };
    let hi2: i64 = if hi < lo2 { lo2 } else if hi > src_len as i64 { src_len as i64 } else { hi };
    (lo2 as u32, hi2 as u32)
}

/// Whether pixel `(x, y)` lies in the `w x h` rectangle placed at `(px, py)`.
pub open spec fn in_rect(x: int, y: int, px: int, py: int, w: int, h: int) -> bool {
    px <= x < px + w && py <= y < py + h
}

/// The value at pixel `(x, y)` of a plane stored row by row, `width` per row.
pub open spec fn pixel(plane: Seq<u8>, width: int, x: int, y: int) -> u8 {
    plane[y * width + x]
}

/// Pixel `(x, y)` of `plane` after raising the rectangle placed at
/// `(px, py)` of size `w x h` to at least `a`.
pub open spec fn raised(plane: Seq<u8>, width: int, x: int, y: int, px: int, py: int, w: int, h: int, a: u8) -> u8 {
    if in_rect(x, y, px, py, w, h) && a > pixel(plane, width, x, y) {
        a
    } else {
        pixel(plane, width, x, y)
    }
}

proof fn lemma_index(x: int, y: int, width: int, height: int)
    requires
        0 <= x < width,
        0 <= y < height,
    ensures
        0 <= y * width + x < width * height,
{
    assert(0 <= y * width + x < width * height) by (nonlinear_arith)
        requires
            0 <= x < width,
            0 <= y < height,
    ;
}

proof fn lemma_index_injective(x1: int, y1: int, x2: int, y2: int, width: int)
    requires
        0 <= x1 < width,
        0 <= x2 < width,
        0 <= y1,
        0 <= y2,
        y1 * width + x1 == y2 * width + x2,
    ensures
        x1 == x2,
        y1 == y2,
{
    if y1 < y2 {
        assert(y1 * width + x1 < y2 * width + x2) by (nonlinear_arith)
            requires
                0 <= x1 < width,
                0 <= x2,
                y1 < y2,
        ;
    } else if y2 < y1 {
        assert(y2 * width + x2 < y1 * width + x1) by (nonlinear_arith)
            requires
                0 <= x2 < width,
                0 <= x1,
                y2 < y1,
        ;
    }
}

/// Raise the coverage plane (`width x height`, row by row) to at least `a`
/// on every pixel of the `w x h` rectangle placed at `(px, py)` that lies
/// on the plane; other pixels keep their coverage.
pub fn raise_coverage(plane: &mut Vec<u8>, width: u32, height: u32, px: i32, py: i32, w: u32, h: u32, a: u8)
    requires
        old(plane)@.len() == width * height,
    ensures
        final(plane)@.len() == old(plane)@.len(),
        forall|x: int, y: int|
            0 <= x < width && 0 <= y < height ==> #[trigger] pixel(final(plane)@, width as int, x, y)
                == raised(old(plane)@, width as int, x, y, px as int, py as int, w as int, h as int, a),
{
    let ghost orig = plane@;
    let ghost wd = width as int;
    let (y0, y1) = visible_span(py, h, height);
    let (x0, x1) = visible_span(px, w, width);
    let mut dy = y0;
    proof {
        assert forall|x: int, y: int|
            0 <= x < width && 0 <= y < height implies #[trigger] pixel(plane@, wd, x, y)
                == raised(orig, wd, x, y, px as int, py as int, w as int, dy as int, a) by {
            if py <= y < py + y0 {
                assert(lands(y - py, py as int, height as int));
            }
        }
    }
    while dy < y1
        invariant
            y0 <= dy <= y1 <= h,
            x0 <= x1 <= w,
            wd == width,
            forall|i: int| 0 <= i < h ==> ((y0 <= i < y1) <==> #[trigger] lands(i, py as int, height as int)),
            forall|i: int| 0 <= i < w ==> ((x0 <= i < x1) <==> #[trigger] lands(i, px as int, width as int)),
            plane@.len() == width * height,
            orig.len() == width * height,
            forall|x: int, y: int|
                0 <= x < width && 0 <= y < height ==> #[trigger] pixel(plane@, wd, x, y)
                    == raised(orig, wd, x, y, px as int, py as int, w as int, dy as int, a),
        decreases y1 - dy,
    {
        assert(lands(dy as int, py as int, height as int));
        let y = (py as i64 + dy as i64) as u32;
        let mut dx = x0;
        proof {
            assert forall|xx: int, yy: int|
                0 <= xx < width && 0 <= yy < height implies #[trigger] pixel(plane@, wd, xx, yy) == (
                if yy == y && px <= xx < px + dx {
                    raised(orig, wd, xx, yy, px as int, py as int, w as int, dy + 1, a)
                } else {
                    raised(orig, wd, xx, yy, px as int, py as int, w as int, dy as int, a)
                }) by {
                if yy == y && px <= xx < px + x0 {
                    assert(lands(xx - px, px as int, width as int));
                }
            }
        }
        while dx < x1
            invariant
                y0 <= dy < y1 <= h,
                x0 <= dx <= x1 <= w,
                wd == width,
                y == py + dy,
                0 <= py + dy < height,
                forall|i: int| 0 <= i < w ==> ((x0 <= i < x1) <==> #[trigger] lands(i, px as int, width as int)),
                plane@.len() == width * height,
                orig.len() == width * height,
                forall|x: int, yy: int|
                    0 <= x < width && 0 <= yy < height ==> #[trigger] pixel(plane@, wd, x, yy) == (
                    if yy == y && px <= x < px + dx {
                        raised(orig, wd, x, yy, px as int, py as int, w as int, dy + 1, a)
                    } else {
                        raised(orig, wd, x, yy, px as int, py as int, w as int, dy as int, a)
                    }),
            decreases x1 - dx,
        {
            assert(lands(dx as int, px as int, width as int));
            let x = (px as i64 + dx as i64) as u32;
            proof {
                lemma_index(x as int, y as int, wd, height as int);
                assert(y * wd <= y * wd + x);
                assert(plane@.len() == plane.len());
            }
            let idx = y as usize * width as usize + x as usize;
            let ghost before = plane@;
            if a > plane[idx] {
                plane.set(idx, a);
            }
            proof {
                assert forall|xx: int, yy: int|
                    0 <= xx < width && 0 <= yy < height implies #[trigger] pixel(plane@, wd, xx, yy) == (
                    if yy == y && px <= xx < px + dx + 1 {
                        raised(orig, wd, xx, yy, px as int, py as int, w as int, dy + 1, a)
                    } else {
                        raised(orig, wd, xx, yy, px as int, py as int, w as int, dy as int, a)
                    }) by {
                    lemma_index(xx, yy, wd, height as int);
                    assert(pixel(before, wd, xx, yy) == (
                    if yy == y && px <= xx < px + dx {
                        raised(orig, wd, xx, yy, px as int, py as int, w as int, dy + 1, a)
                    } else {
                        raised(orig, wd, xx, yy, px as int, py as int, w as int, dy as int, a)
                    }));
                    if yy * wd + xx == idx {
                        lemma_index_injective(xx, yy, x as int, y as int, wd);
                    }
                }
            }
            dx = dx + 1;
        }
        proof {
            assert forall|xx: int, yy: int|
                0 <= xx < width && 0 <= yy < height implies #[trigger] pixel(plane@, wd, xx, yy)
                    == raised(orig, wd, xx, yy, px as int, py as int, w as int, dy + 1, a) by {
                assert(pixel(plane@, wd, xx, yy) == (
                    if yy == y && px <= xx < px + x1 {
                        raised(orig, wd, xx, yy, px as int, py as int, w as int, dy + 1, a)
                    } else {
                        raised(orig, wd, xx, yy, px as int, py as int, w as int, dy as int, a)
                    }));
                if yy == y && px <= xx < px + w {
                    assert(lands(xx - px, px as int, width as int));
                }
            }
        }
        dy = dy + 1;
    }
    proof {
        assert forall|x: int, y: int|
            0 <= x < width && 0 <= y < height implies #[trigger] pixel(plane@, wd, x, y)
                == raised(orig, wd, x, y, px as int, py as int, w as int, h as int, a) by {
            assert(pixel(plane@, wd, x, y)
                == raised(orig, wd, x, y, px as int, py as int, w as int, y1 as int, a));
            if py <= y < py + h {
                assert(lands(y - py, py as int, height as int));
            }
        }
    }
}

} // verus!
