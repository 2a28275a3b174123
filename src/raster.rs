//! The order in which pixels are traced and written: rows from the top of
//! the image down, each row from left to right. Row `0` is the bottom row,
//! so the first row produced is row `height - 1`.
use vstd::prelude::*;
use vstd::arithmetic::div_mod::{lemma_fundamental_div_mod, lemma_fundamental_div_mod_converse};

verus! {

/// Column and row of the `k`-th pixel produced in a `width`-wide,
/// `height`-tall image.
pub open spec fn position(width: int, height: int, k: int) -> (int, int) {
    (k % width, height - 1 - k / width)
}

/// The order produces every pixel of the image exactly once: pixel `(i, j)`
/// comes at step `(height - 1 - j) * width + i`, and at no other step.
pub proof fn lemma_each_pixel_once(width: int, height: int, i: int, j: int, k: int)
    requires
        0 <= i < width,
        0 <= j < height,
        0 <= k,
    ensures
        0 <= (height - 1 - j) * width + i < width * height,
        position(width, height, k) == (i, j) <==> k == (height - 1 - j) * width + i,
{
    let row = height - 1 - j;
    assert(0 <= row * width + i < width * height) by (nonlinear_arith)
        requires
            0 <= i < width,
            0 <= row < height,
    ;
    if k == row * width + i {
        lemma_fundamental_div_mod_converse(k, width, row, i);
    }
    if position(width, height, k) == (i, j) {
        lemma_fundamental_div_mod(k, width);
        assert(k / width == row && k % width == i);
        assert(k == width * row + i);
        assert(width * row == row * width) by (nonlinear_arith);
    }
}

/// The column and row of every pixel of a `width` by `height` image, in the
/// order in which they are produced.
pub fn scanline_order(width: u32, height: u32) -> (r: Vec<(u32, u32)>)
    requires
        width as int * height as int <= usize::MAX,
    ensures
        r@.len() == width as int * height as int,
        forall|k: int|
            0 <= k < r@.len() ==> (#[trigger] r@[k]).0 as int == position(
                width as int,
                height as int,
                k,
            ).0 && r@[k].1 as int == position(width as int, height as int, k).1,
{
    let mut out: Vec<(u32, u32)> = Vec::new();
    let mut row: u32 = height;
    while row > 0
        invariant
            row <= height,
            width as int * height as int <= usize::MAX,
            out@.len() == (height - row) * width,
            forall|k: int|
                0 <= k < out@.len() ==> (#[trigger] out@[k]).0 as int == position(
                    width as int,
                    height as int,
                    k,
                ).0 && out@[k].1 as int == position(width as int, height as int, k).1,
        decreases row,
    {
        row = row - 1;
        let mut col: u32 = 0;
        while col < width
            invariant
                row < height,
                col <= width,
                width as int * height as int <= usize::MAX,
                out@.len() == (height - 1 - row) * width + col,
                forall|k: int|
                    0 <= k < out@.len() ==> (#[trigger] out@[k]).0 as int == position(
                        width as int,
                        height as int,
                        k,
                    ).0 && out@[k].1 as int == position(width as int, height as int, k).1,
            decreases width - col,
        {
            proof {
                let k = (height - 1 - row) * width + col;
                lemma_fundamental_div_mod_converse(k, width as int, height - 1 - row, col as int);
                assert(k < width as int * height as int) by (nonlinear_arith)
                    requires
                        k == (height - 1 - row) * width + col,
                        col < width,
                        row < height,
                ;
            }
            out.push((col, row));
            col = col + 1;
        }
        assert((height - 1 - row) * width + width == (height - row) * width) by (nonlinear_arith);
    }
    assert((height - row) * width == width as int * height as int) by (nonlinear_arith)
        requires
            row == 0,
    ;
    out
}

} // verus!
