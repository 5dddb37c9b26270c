//! The split planner: walks the image top to bottom, cutting at solid rows
//! or, failing that, before a page would exceed the maximum height.

use vstd::prelude::*;

use crate::imagebuf::RgbImage;
use crate::imagebuf::pixel_rows;
use crate::solidity::check_row_solid;
use crate::solidity::row_solid;

verus! {

/// The fixed scan step, in rows: candidate rows are tested at this interval
/// rather than one by one, trading detection precision for scan speed.
pub const CHECK_STEP: u32 = 40;

/// The rows still ahead of the cursor, clamped at zero once the cursor has
/// passed the bottom of the image; the scan's termination measure.
pub open spec fn rows_ahead(height: int, x: int) -> int {
    if height - x >= 0 {
        height - x
    } else {
        0
    }
}

/// The cut plan produced from cursor position `x` with `cur` rows
/// accumulated since the previous boundary: cut where the sampled row is
/// solid, or where another step would let the page exceed `max_height`;
/// otherwise step ahead. A final boundary at `height` always closes the plan.
pub open spec fn plan_rec(
    rows: Seq<Seq<(u8, u8, u8)>>,
    tau: u8,
    height: int,
    min_height: int,
    max_height: int,
    x: int,
    cur: int,
) -> Seq<int>
    decreases rows_ahead(height, x),
    when 0 < min_height
{
    if x >= height {
        seq![height]
    } else if row_solid(rows[x], tau) || cur + CHECK_STEP > max_height {
        seq![x] + plan_rec(rows, tau, height, min_height, max_height, x + min_height, min_height)
    } else {
        plan_rec(
            rows,
            tau,
            height,
            min_height,
            max_height,
            x + CHECK_STEP,
            cur + CHECK_STEP,
        )
    }
}

/// Well-formedness of a cut plan whose previous boundary is `lo`: at least
/// one boundary, the last one at `height`, strictly increasing, every
/// earlier boundary inside the image, and every gap between consecutive
/// boundaries other than the final gap between `min_height` and
/// `max_height` rows, counting the gap from `lo` to the first boundary.
pub open spec fn plan_shape(p: Seq<int>, height: int, min_height: int, max_height: int, lo: int) -> bool {
    &&& p.len() >= 1
    &&& p.last() == height
    &&& forall|i: int| 0 <= i < p.len() - 1 ==> #[trigger] p[i] < height
    &&& forall|i: int, j: int| 0 <= i < j < p.len() ==> p[i] < p[j]
    &&& p.len() >= 2 ==> min_height <= p[0] - lo <= max_height
    &&& forall|i: int| 1 <= i < p.len() - 1 ==> min_height <= (#[trigger] p[i]) - p[i - 1] <= max_height
}

/// Every plan the planner can produce is well formed: it ends at `height`,
/// rises strictly, and spaces its non-final boundaries by at least
/// `min_height` and at most `max_height` rows from the boundary before.
pub proof fn lemma_plan_rec_shape(
    rows: Seq<Seq<(u8, u8, u8)>>,
    tau: u8,
    height: int,
    min_height: int,
    max_height: int,
    x: int,
    cur: int,
)
    requires
        0 < min_height <= max_height,
        min_height <= cur <= max_height,
    ensures
        plan_shape(
            plan_rec(rows, tau, height, min_height, max_height, x, cur),
            height,
            min_height,
            max_height,
            x - cur,
        ),
    decreases rows_ahead(height, x),
{
    let p = plan_rec(rows, tau, height, min_height, max_height, x, cur);
    if x >= height {
        assert(p == seq![height]);
    } else if row_solid(rows[x], tau) || cur + CHECK_STEP > max_height {
        let rest = plan_rec(rows, tau, height, min_height, max_height, x + min_height, min_height);
        lemma_plan_rec_shape(rows, tau, height, min_height, max_height, x + min_height, min_height);
        assert(p == seq![x] + rest);
        assert(p[0] == x);
        assert(forall|i: int| 0 <= i < rest.len() ==> p[i + 1] == #[trigger] rest[i]);
        assert(p.last() == rest.last());
        assert forall|i: int, j: int| 0 <= i < j < p.len() implies p[i] < p[j] by {
            if i == 0 {
                if rest.len() >= 2 && j < p.len() - 1 {
                    assert(rest[0] >= x + min_height);
                    if j - 1 > 0 {
                        assert(rest[0] < rest[j - 1]);
                    }
                } else {
                    assert(j == p.len() - 1 || rest.len() < 2);
                }
            } else {
                assert(rest[i - 1] < rest[j - 1]);
            }
        }
        assert forall|i: int| 1 <= i < p.len() - 1 implies min_height <= (#[trigger] p[i]) - p[i - 1]
            <= max_height by {
            if i == 1 {
                assert(rest.len() >= 2);
                assert(rest[0] - x >= min_height && rest[0] - x <= max_height);
            } else {
                assert(rest[i - 1] - rest[i - 2] >= min_height && rest[i - 1] - rest[i - 2]
                    <= max_height);
            }
        }
    } else {
        lemma_plan_rec_shape(
            rows,
            tau,
            height,
            min_height,
            max_height,
            x + CHECK_STEP,
            cur + CHECK_STEP,
        );
    }
}

/// The boundary rows of a plan, as unbounded integers.
pub open spec fn as_ints(s: Seq<u32>) -> Seq<int> {
    s.map_values(|c: u32| c as int)
}

/// The plan of the whole image for the given parameters: the scan starts at
/// row `min_height` with `min_height` rows already accumulated.
pub open spec fn full_plan(
    rows: Seq<Seq<(u8, u8, u8)>>,
    tau: u8,
    height: int,
    min_height: int,
    max_height: int,
) -> Seq<int> {
    plan_rec(rows, tau, height, min_height, max_height, min_height, min_height)
}

/// Walks the image from top to bottom and returns the cut boundaries: the
/// rows where a page ends, strictly increasing and closed by `height`.
pub fn find_split_pos(
    width: u32,
    height: u32,
    color_threshold: u8,
    min_height: u32,
    max_height: u32,
    img: &RgbImage,
) -> (cut_rows: Vec<u32>)
    requires
        0 < min_height <= max_height,
        pixel_rows(*img).len() == height as int,
        forall|y: int| 0 <= y < height as int ==> (#[trigger] pixel_rows(*img)[y]).len() == width as int,
        height > 0 ==> width >= 1,
    ensures
        as_ints(cut_rows@) == full_plan(
            pixel_rows(*img),
            color_threshold,
            height as int,
            min_height as int,
            max_height as int,
        ),
        plan_shape(as_ints(cut_rows@), height as int, min_height as int, max_height as int, 0),
{
    let ghost rows = pixel_rows(*img);
    let ghost full = full_plan(
        rows,
        color_threshold,
        height as int,
        min_height as int,
        max_height as int,
    );
    let mut x: u64 = min_height as u64;
    let mut current_height: u64 = min_height as u64;
    let mut cut_rows: Vec<u32> = Vec::new();

    while x < height as u64
        invariant
            0 < min_height <= max_height,
            min_height as int <= current_height as int <= max_height as int,
            x <= u32::MAX as u64 + u32::MAX as u64,
            pixel_rows(*img) == rows,
            rows.len() == height as int,
            forall|y: int| 0 <= y < height as int ==> (#[trigger] rows[y]).len() == width as int,
            height > 0 ==> width >= 1,
            as_ints(cut_rows@) + plan_rec(
                rows,
                color_threshold,
                height as int,
                min_height as int,
                max_height as int,
                x as int,
                current_height as int,
            ) == full,
        decreases rows_ahead(height as int, x as int),
    {
        let row = x as u32;
        let is_row_solid = check_row_solid(img, row, width, color_threshold);
        let ghost before = cut_rows@;
        if is_row_solid {
            cut_rows.push(row);
            x = x + min_height as u64;
            current_height = min_height as u64;
        } else if current_height + CHECK_STEP as u64 > max_height as u64 {
            cut_rows.push(row);
            x = x + min_height as u64;
            current_height = min_height as u64;
        } else {
            x = x + CHECK_STEP as u64;
            current_height = current_height + CHECK_STEP as u64;
        }
        proof {
            if cut_rows@ != before {
                assert(as_ints(cut_rows@) =~= as_ints(before).push(row as int));
                assert(as_ints(before).push(row as int) + plan_rec(
                    rows,
                    color_threshold,
                    height as int,
                    min_height as int,
                    max_height as int,
                    x as int,
                    current_height as int,
                ) =~= as_ints(before) + (seq![row as int] + plan_rec(
                    rows,
                    color_threshold,
                    height as int,
                    min_height as int,
                    max_height as int,
                    x as int,
                    current_height as int,
                )));
            }
        }
    }
    cut_rows.push(height);
    proof {
        assert(as_ints(cut_rows@) =~= as_ints(cut_rows@.drop_last()).push(height as int));
        assert(as_ints(cut_rows@.drop_last()) + seq![height as int] =~= as_ints(cut_rows@));
        lemma_plan_rec_shape(
            rows,
            color_threshold,
            height as int,
            min_height as int,
            max_height as int,
            min_height as int,
            min_height as int,
        );
    }
    cut_rows
}

/// Computes the cut plan of an image: boundaries at sampled solid rows, a
/// forced boundary where a page would otherwise exceed `max_height`, and a
/// final boundary at the image's height. Returns `None` exactly when the
/// parameters are invalid (`min_height` zero or above `max_height`) or the
/// image has rows but no columns.
pub fn plan(img: &RgbImage, color_threshold: u8, min_height: u32, max_height: u32) -> (r: Option<
    Vec<u32>,
>)
    ensures
        r is Some <==> (0 < min_height <= max_height && (pixel_rows(*img).len() == 0 || pixel_rows(
            *img,
        )[0].len() >= 1)),
        r matches Some(cut_rows) ==> as_ints(cut_rows@) == full_plan(
            pixel_rows(*img),
            color_threshold,
            pixel_rows(*img).len() as int,
            min_height as int,
            max_height as int,
        ),
        r matches Some(cut_rows) ==> plan_shape(
            as_ints(cut_rows@),
            pixel_rows(*img).len() as int,
            min_height as int,
            max_height as int,
            0,
        ),
{
    if min_height == 0 || min_height > max_height {
        return None;
    }
    let (width, height) = img.dims();
    if height > 0 && width == 0 {
        return None;
    }
    Some(find_split_pos(width, height, color_threshold, min_height, max_height, img))
}

/// Determinism: the cut plan is a function of the pixel grid and the
/// parameters alone; two plans taken from equal inputs are equal.
pub proof fn lemma_plan_deterministic(
    rows: Seq<Seq<(u8, u8, u8)>>,
    tau: u8,
    height: int,
    min_height: int,
    max_height: int,
    p1: Seq<int>,
    p2: Seq<int>,
)
    requires
        p1 == full_plan(rows, tau, height, min_height, max_height),
        p2 == full_plan(rows, tau, height, min_height, max_height),
    ensures
        p1 == p2,
{
}

} // verus!
