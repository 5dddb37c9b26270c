//! The row-solidity classifier: decides whether one image row is a single
//! uniform color within a per-channel tolerance.

use vstd::prelude::*;

use crate::imagebuf::RgbImage;
use crate::imagebuf::pixel_rows;

verus! {

/// Pixel `q` lies within tolerance `tau` of the reference pixel `p` when
/// each of its three channels deviates from `p`'s by at most `tau`.
pub open spec fn px_within(p: (u8, u8, u8), q: (u8, u8, u8), tau: u8) -> bool {
    &&& p.0 - tau <= q.0 <= p.0 + tau
    &&& p.1 - tau <= q.1 <= p.1 + tau
    &&& p.2 - tau <= q.2 <= p.2 + tau
}

/// A row is solid when every pixel lies within `tau` of its first pixel on
/// all three channels.
pub open spec fn row_solid(row: Seq<(u8, u8, u8)>, tau: u8) -> bool {
    forall|j: int| 1 <= j < row.len() ==> px_within(row[0], #[trigger] row[j], tau)
}

/// Decides whether row `x` of the image is solid: true exactly when every
/// pixel of the row stays within `color_threshold` of the row's leftmost
/// pixel on all three channels.
pub fn check_row_solid(img: &RgbImage, x: u32, width: u32, color_threshold: u8) -> (solid: bool)
    requires
        x < pixel_rows(*img).len(),
        pixel_rows(*img)[x as int].len() == width as int,
        width >= 1,
    ensures
        solid == row_solid(pixel_rows(*img)[x as int], color_threshold),
{
    let ghost row = pixel_rows(*img)[x as int];
    let first_px = img.pixel_at(0, x);
    let mut current_pos: u32 = 1;
    while current_pos < width
        invariant
            1 <= current_pos <= width,
            x < pixel_rows(*img).len(),
            pixel_rows(*img)[x as int] == row,
            row.len() == width as int,
            first_px == row[0],
            forall|j: int|
                1 <= j < current_pos as int ==> px_within(first_px, #[trigger] row[j], color_threshold),
        decreases width - current_pos,
    {
        let current_px = img.pixel_at(current_pos, x);
        let tau = color_threshold as i32;
        let out_r = (current_px.0 as i32) > (first_px.0 as i32) + tau || (current_px.0 as i32) < (
        first_px.0 as i32) - tau;
        let out_g = (current_px.1 as i32) > (first_px.1 as i32) + tau || (current_px.1 as i32) < (
        first_px.1 as i32) - tau;
        let out_b = (current_px.2 as i32) > (first_px.2 as i32) + tau || (current_px.2 as i32) < (
        first_px.2 as i32) - tau;
        if out_r || out_g || out_b {
            assert(!px_within(row[0], row[current_pos as int], color_threshold));
            return false;
        }
        current_pos = current_pos + 1;
    }
    true
}

/// Raising the tolerance never un-solidifies a row: the set of rows
/// classified solid is monotone in the threshold.
pub proof fn lemma_row_solid_tau_monotone(row: Seq<(u8, u8, u8)>, t1: u8, t2: u8)
    requires
        t1 <= t2,
        row_solid(row, t1),
    ensures
        row_solid(row, t2),
{
    assert forall|j: int| 1 <= j < row.len() implies px_within(row[0], #[trigger] row[j], t2) by {
        assert(px_within(row[0], row[j], t1));
    }
}

} // verus!
