//! Segmentation of the saturation grid into six fixed character
//! blocks, per-block mean binarization, and row-major flattening.

use vstd::arithmetic::div_mod::lemma_div_is_ordered;
use vstd::prelude::*;

use crate::errors::CaptchaError;
use crate::transform::rows_view;

verus! {

/// Leftmost column of block `a`: the blocks sit on a horizontal pitch
/// of 25 pixels, shifted 27 columns in from the left edge.
pub open spec fn block_x1(a: int) -> int {
    (a + 1) * 25 + 2
}

/// Topmost row of block `a`: even blocks start at row 8, odd blocks
/// sit 5 rows lower on the alternating baseline.
pub open spec fn block_y1(a: int) -> int {
    8 + 5 * (a % 2)
}

/// Every one of the six 22x24 block rectangles lies inside the grid.
/// Even blocks cover rows [8, 30) up to column 151; odd blocks cover
/// rows [13, 35) up to column 176.
pub open spec fn blocks_fit(g: Seq<Seq<u8>>) -> bool {
    &&& g.len() >= 35
    &&& forall|i: int| 8 <= i < 30 ==> (#[trigger] g[i]).len() >= 151
    &&& forall|i: int| 13 <= i < 35 ==> (#[trigger] g[i]).len() >= 176
}

/// Block `a` of a grid: the 22x24 sub-rectangle at its fixed offset.
pub open spec fn block_of(g: Seq<Seq<u8>>, a: int) -> Seq<Seq<u8>> {
    Seq::new(22, |i: int| Seq::new(24, |j: int| g[block_y1(a) + i][block_x1(a) + j]))
}

/// Slices the grid into the six fixed character blocks.  Each block
/// `a` spans rows `[block_y1(a), block_y1(a) + 22)` and columns
/// `[block_x1(a), block_x1(a) + 24)`; if any such rectangle exceeds
/// the grid, the result is a geometry error, not a fault.
pub fn get_blocks(deflatted: &Vec<Vec<u8>>) -> (r: Result<Vec<Vec<Vec<u8>>>, CaptchaError>)
    ensures
        r is Ok <==> blocks_fit(rows_view(deflatted@)),
        r matches Ok(bl) ==> bl@.len() == 6 && forall|a: int|
            0 <= a < 6 ==> rows_view(#[trigger] bl@[a]@) == block_of(rows_view(deflatted@), a),
        r matches Err(e) ==> e == CaptchaError::ShapeError,
{
    let ghost gv = rows_view(deflatted@);
    if deflatted.len() < 35 {
        return Err(CaptchaError::ShapeError);
    }
    for i in 8..30usize
        invariant
            deflatted@.len() >= 35,
            forall|ii: int| 8 <= ii < i ==> (#[trigger] rows_view(deflatted@)[ii]).len() >= 151,
    {
        if deflatted[i].len() < 151 {
            proof {
                assert(rows_view(deflatted@)[i as int].len() < 151);
            }
            return Err(CaptchaError::ShapeError);
        }
    }
    for i in 13..35usize
        invariant
            deflatted@.len() >= 35,
            forall|ii: int| 8 <= ii < 30 ==> (#[trigger] rows_view(deflatted@)[ii]).len() >= 151,
            forall|ii: int| 13 <= ii < i ==> (#[trigger] rows_view(deflatted@)[ii]).len() >= 176,
    {
        if deflatted[i].len() < 176 {
            proof {
                assert(rows_view(deflatted@)[i as int].len() < 176);
            }
            return Err(CaptchaError::ShapeError);
        }
    }
    assert(blocks_fit(gv));
    let mut blocks_list: Vec<Vec<Vec<u8>>> = Vec::new();
    for a in 0..6usize
        invariant
            blocks_fit(rows_view(deflatted@)),
            deflatted@.len() >= 35,
            blocks_list@.len() == a,
            forall|aa: int|
                0 <= aa < a ==> rows_view(#[trigger] blocks_list@[aa]@) =~~= block_of(
                    rows_view(deflatted@),
                    aa,
                ),
    {
        let x1: usize = (a + 1) * 25 + 2;
        let y1: usize = 8 + 5 * (a % 2);
        assert(x1 == block_x1(a as int));
        assert(y1 == block_y1(a as int));
        let mut block: Vec<Vec<u8>> = Vec::new();
        for i in 0..22usize
            invariant
                blocks_fit(rows_view(deflatted@)),
                deflatted@.len() >= 35,
                a < 6,
                x1 == block_x1(a as int),
                y1 == block_y1(a as int),
                block@.len() == i,
                forall|ii: int|
                    0 <= ii < i ==> #[trigger] block@[ii]@ =~= block_of(
                        rows_view(deflatted@),
                        a as int,
                    )[ii],
        {
            assert(rows_view(deflatted@)[y1 + i].len() >= x1 + 24);
            let mut row: Vec<u8> = Vec::new();
            for j in 0..24usize
                invariant
                    deflatted@.len() >= 35,
                    a < 6,
                    i < 22,
                    x1 == block_x1(a as int),
                    y1 == block_y1(a as int),
                    rows_view(deflatted@)[y1 + i].len() >= x1 + 24,
                    row@.len() == j,
                    forall|jj: int|
                        0 <= jj < j ==> #[trigger] row@[jj] == rows_view(deflatted@)[y1 + i][x1
                            + jj],
            {
                row.push(deflatted[y1 + i][x1 + j]);
            }
            proof {
                assert(row@ =~= block_of(rows_view(deflatted@), a as int)[i as int]);
            }
            block.push(row);
        }
        proof {
            assert(rows_view(block@) =~~= block_of(rows_view(deflatted@), a as int));
        }
        blocks_list.push(block);
    }
    Ok(blocks_list)
}

/// The sum of the bytes of one row.
pub open spec fn row_sum(r: Seq<u8>) -> int
    decreases r.len(),
{
    if r.len() == 0 {
        0
    } else {
        row_sum(r.drop_last()) + r.last()
    }
}

/// The sum of all cells of a grid of rows.
pub open spec fn grid_sum(b: Seq<Seq<u8>>) -> int
    decreases b.len(),
{
    if b.len() == 0 {
        0
    } else {
        grid_sum(b.drop_last()) + row_sum(b.last())
    }
}

/// A well-shaped character block: 22 rows of 24 cells.
pub open spec fn is_block_shape(b: Seq<Seq<u8>>) -> bool {
    b.len() == 22 && forall|i: int| 0 <= i < 22 ==> (#[trigger] b[i]).len() == 24
}

/// The binarization threshold of a block: the floor of its mean cell
/// value over all 528 cells.
pub open spec fn threshold_of(b: Seq<Seq<u8>>) -> int {
    grid_sum(b) / 528
}

/// One binarized cell: 1 where the raw value strictly exceeds the
/// block's own threshold, 0 otherwise.
pub open spec fn bin_cell(b: Seq<Seq<u8>>, i: int, j: int) -> u8 {
    if b[i][j] > threshold_of(b) {
        1u8
    } else {
        0u8
    }
}

/// The binarized form of a 22x24 block.
pub open spec fn bin_block_of(b: Seq<Seq<u8>>) -> Seq<Seq<u8>> {
    Seq::new(22, |i: int| Seq::new(24, |j: int| bin_cell(b, i, j)))
}

proof fn lemma_row_sum_take(r: Seq<u8>, i: int)
    requires
        0 <= i < r.len(),
    ensures
        row_sum(r.take(i + 1)) == row_sum(r.take(i)) + r[i],
{
    assert(r.take(i + 1).drop_last() =~= r.take(i));
    assert(r.take(i + 1).last() == r[i]);
}

proof fn lemma_grid_sum_take(b: Seq<Seq<u8>>, i: int)
    requires
        0 <= i < b.len(),
    ensures
        grid_sum(b.take(i + 1)) == grid_sum(b.take(i)) + row_sum(b[i]),
{
    assert(b.take(i + 1).drop_last() =~= b.take(i));
    assert(b.take(i + 1).last() == b[i]);
}

proof fn lemma_row_sum_bounds(r: Seq<u8>)
    ensures
        0 <= row_sum(r) <= 255 * r.len(),
    decreases r.len(),
{
    if r.len() > 0 {
        lemma_row_sum_bounds(r.drop_last());
    }
}

proof fn lemma_grid_sum_bounds(b: Seq<Seq<u8>>)
    requires
        forall|i: int| 0 <= i < b.len() ==> (#[trigger] b[i]).len() <= 24,
    ensures
        0 <= grid_sum(b) <= 6120 * b.len(),
    decreases b.len(),
{
    if b.len() > 0 {
        lemma_grid_sum_bounds(b.drop_last());
        lemma_row_sum_bounds(b.last());
    }
}

/// The threshold of a well-shaped block is itself a byte value.
pub proof fn lemma_threshold_bounds(b: Seq<Seq<u8>>)
    requires
        is_block_shape(b),
    ensures
        0 <= threshold_of(b) <= 255,
{
    lemma_grid_sum_bounds(b);
    lemma_div_is_ordered(0, grid_sum(b), 528);
    lemma_div_is_ordered(grid_sum(b), 134640, 528);
}

/// Binarizes one 22x24 block against the floor of its own mean: a
/// cell becomes 1 exactly where its value is strictly greater than
/// the threshold.  Any other shape is a geometry error.
pub fn pre_process(block: &Vec<Vec<u8>>) -> (r: Result<Vec<Vec<u8>>, CaptchaError>)
    ensures
        r is Ok <==> is_block_shape(rows_view(block@)),
        r matches Ok(p) ==> rows_view(p@) == bin_block_of(rows_view(block@)),
        r matches Err(e) ==> e == CaptchaError::ShapeError,
{
    let ghost bv = rows_view(block@);
    if block.len() != 22 {
        return Err(CaptchaError::ShapeError);
    }
    for i in 0..22usize
        invariant
            block@.len() == 22,
            forall|ii: int| 0 <= ii < i ==> (#[trigger] rows_view(block@)[ii]).len() == 24,
    {
        if block[i].len() != 24 {
            proof {
                assert(rows_view(block@)[i as int].len() != 24);
            }
            return Err(CaptchaError::ShapeError);
        }
    }
    assert(is_block_shape(bv));
    let mut sum: u32 = 0;
    for i in 0..22usize
        invariant
            block@.len() == 22,
            is_block_shape(rows_view(block@)),
            sum == grid_sum(rows_view(block@).take(i as int)),
            sum <= 6120 * i,
    {
        let ghost outer = sum;
        for j in 0..24usize
            invariant
                block@.len() == 22,
                i < 22,
                is_block_shape(rows_view(block@)),
                outer == grid_sum(rows_view(block@).take(i as int)),
                outer <= 6120 * i,
                sum == outer + row_sum(rows_view(block@)[i as int].take(j as int)),
                sum <= 6120 * i + 255 * j,
        {
            proof {
                lemma_row_sum_take(rows_view(block@)[i as int], j as int);
            }
            sum = sum + block[i][j] as u32;
        }
        proof {
            lemma_grid_sum_take(rows_view(block@), i as int);
            assert(rows_view(block@)[i as int].take(24) =~= rows_view(block@)[i as int]);
        }
    }
    proof {
        assert(rows_view(block@).take(22) =~= rows_view(block@));
        lemma_threshold_bounds(bv);
    }
    let threshold: u8 = (sum / 528) as u8;
    assert(threshold as int == threshold_of(bv));
    let mut processed: Vec<Vec<u8>> = Vec::new();
    for i in 0..22usize
        invariant
            block@.len() == 22,
            is_block_shape(rows_view(block@)),
            threshold as int == threshold_of(rows_view(block@)),
            processed@.len() == i,
            forall|ii: int|
                0 <= ii < i ==> #[trigger] processed@[ii]@ =~= bin_block_of(
                    rows_view(block@),
                )[ii],
    {
        let mut arr: Vec<u8> = Vec::new();
        for j in 0..24usize
            invariant
                block@.len() == 22,
                i < 22,
                is_block_shape(rows_view(block@)),
                threshold as int == threshold_of(rows_view(block@)),
                arr@.len() == j,
                forall|jj: int|
                    0 <= jj < j ==> #[trigger] arr@[jj] == bin_cell(
                        rows_view(block@),
                        i as int,
                        jj,
                    ),
        {
            proof {
                assert(block@[i as int]@ == rows_view(block@)[i as int]);
            }
            if block[i][j] > threshold {
                arr.push(1);
            } else {
                arr.push(0);
            }
        }
        proof {
            assert(arr@ =~= bin_block_of(rows_view(block@))[i as int]);
        }
        processed.push(arr);
    }
    proof {
        assert(rows_view(processed@) =~~= bin_block_of(rows_view(block@)));
    }
    Ok(processed)
}

proof fn lemma_flat_index(i: int, j: int)
    requires
        0 <= i,
        0 <= j < 24,
    ensures
        (24 * i + j) / 24 == i,
        (24 * i + j) % 24 == j,
{
    assert((24 * i + j) / 24 == i && (24 * i + j) % 24 == j) by (nonlinear_arith)
        requires
            0 <= i,
            0 <= j < 24,
    ;
}

/// A 22x24 block read row-major as a flat 528-byte vector:
/// `flat[k] == b[k / 24][k % 24]`.
pub open spec fn flat_block(b: Seq<Seq<u8>>) -> Seq<u8> {
    Seq::new(528, |k: int| b[k / 24][k % 24])
}

/// Flattens a 22x24 block row-major into a length-528 vector.  Any
/// other shape is a geometry error.
pub fn flatten(block: &Vec<Vec<u8>>) -> (r: Result<Vec<u8>, CaptchaError>)
    ensures
        r is Ok <==> is_block_shape(rows_view(block@)),
        r matches Ok(f) ==> f@ == flat_block(rows_view(block@)),
        r matches Err(e) ==> e == CaptchaError::ShapeError,
{
    let ghost bv = rows_view(block@);
    if block.len() != 22 {
        return Err(CaptchaError::ShapeError);
    }
    for i in 0..22usize
        invariant
            block@.len() == 22,
            forall|ii: int| 0 <= ii < i ==> (#[trigger] rows_view(block@)[ii]).len() == 24,
    {
        if block[i].len() != 24 {
            proof {
                assert(rows_view(block@)[i as int].len() != 24);
            }
            return Err(CaptchaError::ShapeError);
        }
    }
    assert(is_block_shape(bv));
    let mut flattened: Vec<u8> = Vec::new();
    for i in 0..22usize
        invariant
            block@.len() == 22,
            is_block_shape(rows_view(block@)),
            flattened@.len() == 24 * i,
            forall|k: int|
                0 <= k < 24 * i ==> #[trigger] flattened@[k] == rows_view(block@)[k / 24][k % 24],
    {
        for j in 0..24usize
            invariant
                block@.len() == 22,
                i < 22,
                is_block_shape(rows_view(block@)),
                flattened@.len() == 24 * i + j,
                forall|k: int|
                    0 <= k < 24 * i + j ==> #[trigger] flattened@[k] == rows_view(block@)[k
                        / 24][k % 24],
        {
            proof {
                lemma_flat_index(i as int, j as int);
                assert(block@[i as int]@ == rows_view(block@)[i as int]);
            }
            flattened.push(block[i][j]);
        }
    }
    proof {
        assert(flattened@ =~= flat_block(bv));
    }
    Ok(flattened)
}

} // verus!
