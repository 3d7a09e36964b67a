//! The integer image pipeline: saturation transform, grid reshape,
//! block segmentation, binarization, and flattening.

use vstd::arithmetic::div_mod::{lemma_div_is_ordered, lemma_div_multiples_vanish};
use vstd::arithmetic::mul::lemma_mul_inequality;
use vstd::prelude::*;

use crate::errors::CaptchaError;

verus! {

/// The largest of a pixel's three color channels.
pub open spec fn max3(r: u8, g: u8, b: u8) -> u8 {
    if r >= g && r >= b {
        r
    } else if g >= b {
        g
    } else {
        b
    }
}

/// The smallest of a pixel's three color channels.
pub open spec fn min3(r: u8, g: u8, b: u8) -> u8 {
    if r <= g && r <= b {
        r
    } else if g <= b {
        g
    } else {
        b
    }
}

/// The saturation of one pixel: `(max - min) * 255 / max`, with
/// truncating integer division, and 0 for a pure black pixel, whose
/// channel maximum would otherwise divide by zero.
pub open spec fn sat_val(r: u8, g: u8, b: u8) -> int {
    let mx = max3(r, g, b) as int;
    let mn = min3(r, g, b) as int;
    if mx == 0 {
        0
    } else {
        (mx - mn) * 255 / mx
    }
}

/// The saturation of a pixel always fits in a byte.
pub proof fn lemma_sat_val_bounds(r: u8, g: u8, b: u8)
    ensures
        0 <= sat_val(r, g, b) <= 255,
{
    let mx = max3(r, g, b) as int;
    let mn = min3(r, g, b) as int;
    if mx != 0 {
        lemma_mul_inequality(mx - mn, mx, 255);
        lemma_div_is_ordered((mx - mn) * 255, mx * 255, mx);
        lemma_div_multiples_vanish(255, mx);
        assert((mx * 255) / mx == 255) by {
            assert(mx * 255 == 255 * mx) by (nonlinear_arith);
        }
        assert(sat_val(r, g, b) >= 0) by (nonlinear_arith)
            requires
                0 < mx,
                0 <= mn <= mx,
                sat_val(r, g, b) == (mx - mn) * 255 / mx,
        ;
    }
}

/// A gray pixel, with its three channels equal, has saturation zero.
pub proof fn lemma_gray_saturation_zero(c: u8)
    ensures
        sat_val(c, c, c) == 0,
{
}

/// The saturation of one pixel as a byte.
pub open spec fn sat_byte(r: u8, g: u8, b: u8) -> u8 {
    sat_val(r, g, b) as u8
}

/// The saturation buffer of an RGBA pixel buffer: one byte per
/// four-byte pixel, the alpha channel discarded.
pub open spec fn sat_seq(p: Seq<u8>) -> Seq<u8> {
    Seq::new(p.len() / 4, |k: int| sat_byte(p[4 * k], p[4 * k + 1], p[4 * k + 2]))
}

/// Maps an interleaved RGBA buffer to its saturation buffer.  The
/// input length must be a multiple of four; any other length is a
/// geometry mismatch, not a fault.
pub fn saturate(pixels: &Vec<u8>) -> (r: Result<Vec<u8>, CaptchaError>)
    ensures
        r is Ok <==> pixels@.len() % 4 == 0,
        r matches Ok(s) ==> s@ == sat_seq(pixels@),
        r matches Err(e) ==> e == CaptchaError::ShapeError,
{
    if pixels.len() % 4 != 0 {
        return Err(CaptchaError::ShapeError);
    }
    let n = pixels.len();
    let mut sat: Vec<u8> = Vec::new();
    let mut index: usize = 0;
    while index < n
        invariant
            pixels@.len() == n,
            n % 4 == 0,
            index % 4 == 0,
            index <= n,
            sat@.len() == index / 4,
            forall|k: int|
                0 <= k < sat@.len() ==> #[trigger] sat@[k] as int == sat_val(
                    pixels@[4 * k],
                    pixels@[4 * k + 1],
                    pixels@[4 * k + 2],
                ),
        decreases n - index,
    {
        assert(index + 4 <= n);
        let pr = pixels[index];
        let pg = pixels[index + 1];
        let pb = pixels[index + 2];
        let mn: u8 = if pr <= pg {
            if pr <= pb {
                pr
            } else {
                pb
            }
        } else {
            if pg <= pb {
                pg
            } else {
                pb
            }
        };
        let mx: u8 = if pr >= pg {
            if pr >= pb {
                pr
            } else {
                pb
            }
        } else {
            if pg >= pb {
                pg
            } else {
                pb
            }
        };
        assert(mx == max3(pr, pg, pb));
        assert(mn == min3(pr, pg, pb));
        let v: u8 = if mx == 0 {
            0u8
        } else {
            proof {
                lemma_sat_val_bounds(pr, pg, pb);
            }
            (((mx as u32 - mn as u32) * 255) / (mx as u32)) as u8
        };
        assert(v as int == sat_val(pr, pg, pb));
        sat.push(v);
        index = index + 4;
        assert(4 * ((index / 4) as int - 1) == index - 4);
    }
    proof {
        assert forall|k: int| 0 <= k < sat@.len() implies sat@[k] == sat_seq(pixels@)[k] by {
            lemma_sat_val_bounds(pixels@[4 * k], pixels@[4 * k + 1], pixels@[4 * k + 2]);
        }
        assert(sat@ =~= sat_seq(pixels@));
    }
    Ok(sat)
}

/// A vector of rows, each row seen as a sequence.
pub open spec fn rows_view(g: Seq<Vec<u8>>) -> Seq<Seq<u8>> {
    Seq::new(g.len(), |i: int| g[i]@)
}

/// The 40x200 grid read row-major out of a flat saturation buffer:
/// `grid[i][j] == buf[i * 200 + j]`.
pub open spec fn grid_of(buf: Seq<u8>) -> Seq<Seq<u8>> {
    Seq::new(40, |i: int| Seq::new(200, |j: int| buf[i * 200 + j]))
}

/// Reshapes a flat saturation buffer into the fixed 40-row, 200-column
/// grid.  Any length other than 8000 is a geometry mismatch.
pub fn de_flatten(saturated: &Vec<u8>) -> (r: Result<Vec<Vec<u8>>, CaptchaError>)
    ensures
        r is Ok <==> saturated@.len() == 8000,
        r matches Ok(g) ==> rows_view(g@) == grid_of(saturated@),
        r matches Err(e) ==> e == CaptchaError::ShapeError,
{
    if saturated.len() != 8000 {
        return Err(CaptchaError::ShapeError);
    }
    let mut grid: Vec<Vec<u8>> = Vec::new();
    for i in 0..40usize
        invariant
            saturated@.len() == 8000,
            grid@.len() == i,
            forall|ii: int|
                0 <= ii < i ==> #[trigger] grid@[ii]@ =~= grid_of(saturated@)[ii],
    {
        let mut row: Vec<u8> = Vec::new();
        for j in 0..200usize
            invariant
                saturated@.len() == 8000,
                i < 40,
                row@.len() == j,
                forall|jj: int|
                    0 <= jj < j ==> #[trigger] row@[jj] == saturated@[i * 200 + jj],
        {
            row.push(saturated[i * 200 + j]);
        }
        proof {
            assert(row@ =~= grid_of(saturated@)[i as int]);
        }
        grid.push(row);
    }
    proof {
        assert(rows_view(grid@) =~~= grid_of(saturated@));
    }
    Ok(grid)
}

} // verus!
