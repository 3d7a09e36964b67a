//! The verified front half of the recognizer: from a raw RGBA pixel
//! buffer to the six flattened binary block vectors that the linear
//! classifier consumes.

use vstd::prelude::*;

use crate::blocks::{
    bin_block_of, block_of, blocks_fit, flat_block, flatten, get_blocks, is_block_shape,
    pre_process,
};
use crate::errors::CaptchaError;
use crate::transform::{de_flatten, grid_of, rows_view, sat_seq, saturate};

verus! {

/// The six flattened binary blocks of an RGBA pixel buffer: the
/// buffer's saturation grid, segmented, binarized and flattened,
/// block by block.
pub open spec fn binary_blocks_of(p: Seq<u8>) -> Seq<Seq<u8>> {
    Seq::new(6, |a: int| flat_block(bin_block_of(block_of(grid_of(sat_seq(p)), a))))
}

/// Runs the integer pipeline on a decoded RGBA buffer: saturation,
/// reshape, segmentation, binarization, flattening.  Succeeds exactly
/// on buffers of a 200x40 image (32000 bytes); every other length is
/// a geometry error.
pub fn prepare_blocks(pixels: &Vec<u8>) -> (r: Result<Vec<Vec<u8>>, CaptchaError>)
    ensures
        r is Ok <==> pixels@.len() == 32000,
        r matches Ok(bl) ==> bl@.len() == 6 && forall|a: int|
            0 <= a < 6 ==> #[trigger] bl@[a]@ == binary_blocks_of(pixels@)[a],
        r matches Err(e) ==> e == CaptchaError::ShapeError,
{
    let sat = match saturate(pixels) {
        Ok(s) => s,
        Err(e) => {
            return Err(e);
        },
    };
    let grid = match de_flatten(&sat) {
        Ok(g) => g,
        Err(e) => {
            return Err(e);
        },
    };
    let ghost gv = rows_view(grid@);
    proof {
        assert(gv == grid_of(sat_seq(pixels@)));
        assert forall|i: int| 8 <= i < 35 implies (#[trigger] gv[i]).len() == 200 by {
            assert(gv[i] == grid_of(sat_seq(pixels@))[i]);
        }
        assert(blocks_fit(gv));
    }
    let blocks = match get_blocks(&grid) {
        Ok(bl) => bl,
        Err(e) => {
            proof {
                assert(false);
            }
            return Err(e);
        },
    };
    let mut out: Vec<Vec<u8>> = Vec::new();
    for a in 0..6usize
        invariant
            pixels@.len() == 32000,
            blocks@.len() == 6,
            forall|aa: int|
                0 <= aa < 6 ==> rows_view(#[trigger] blocks@[aa]@) == block_of(
                    grid_of(sat_seq(pixels@)),
                    aa,
                ),
            out@.len() == a,
            forall|aa: int|
                0 <= aa < a ==> #[trigger] out@[aa]@ == binary_blocks_of(pixels@)[aa],
    {
        let ghost bv = rows_view(blocks@[a as int]@);
        proof {
            assert(bv == block_of(grid_of(sat_seq(pixels@)), a as int));
            assert(is_block_shape(bv));
        }
        let pre = match pre_process(&blocks[a]) {
            Ok(p) => p,
            Err(e) => {
                proof {
                    assert(false);
                }
                return Err(e);
            },
        };
        proof {
            assert(is_block_shape(rows_view(pre@)));
        }
        let flat = match flatten(&pre) {
            Ok(f) => f,
            Err(e) => {
                proof {
                    assert(false);
                }
                return Err(e);
            },
        };
        proof {
            assert(flat@ == flat_block(bin_block_of(bv)));
            assert(flat@ == binary_blocks_of(pixels@)[a as int]);
        }
        out.push(flat);
    }
    Ok(out)
}

} // verus!
