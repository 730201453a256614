use vstd::prelude::*;

verus! {

/// A position written row-major as `k == row * width + col` is recovered by
/// division and remainder.
pub proof fn lemma_row_major(k: int, row: int, col: int, width: int)
    requires
        width > 0,
        0 <= col < width,
        0 <= row,
        k == row * width + col,
    ensures
        k / width == row,
        k % width == col,
{
    vstd::arithmetic::div_mod::lemma_fundamental_div_mod_converse(k, width, row, col);
}

/// Position `row * width + col` of a row-major layout of `height` rows
/// lies inside it.
pub proof fn lemma_row_major_bound(row: int, col: int, width: int, height: int)
    requires
        0 <= col < width,
        0 <= row < height,
    ensures
        0 <= row * width + col < height * width,
        row * width + col + 1 <= height * width,
{
    assert(0 <= row * width) by (nonlinear_arith)
        requires
            0 <= row,
            0 <= width,
    ;
    assert((row + 1) * width <= height * width) by (nonlinear_arith)
        requires
            row + 1 <= height,
            0 <= width,
    ;
    assert((row + 1) * width == row * width + width) by (nonlinear_arith);
}

} // verus!
