use pagecut::imagebuf::RgbImage;
use pagecut::planner::find_split_pos;
use pagecut::planner::plan;
use pagecut::solidity::check_row_solid;

/// An image filled with `bg`, except that every row in `gray_rows` is a
/// single uniform color. Rows not listed alternate two far-apart colors
/// across their width, so they are never solid for small thresholds.
fn image_with_uniform_rows(width: u32, height: u32, gray_rows: &[u32]) -> RgbImage {
    let mut data: Vec<u8> = Vec::with_capacity((3 * width * height) as usize);
    for y in 0..height {
        let uniform = gray_rows.contains(&y);
        for x in 0..width {
            let v = if uniform {
                128
            } else if x % 2 == 0 {
                0
            } else {
                255
            };
            data.push(v);
            data.push(v);
            data.push(v);
        }
    }
    RgbImage::from_raw(width, height, data)
}

#[test]
fn scenario_solid_row_cut() {
    // A uniform gray row at a sampled position (600 + 2 * 40) is found and
    // becomes the only real cut; the plan is closed at the image height.
    let img = image_with_uniform_rows(10, 1000, &[680]);
    let cuts = plan(&img, 2, 600, 7000).unwrap();
    assert_eq!(cuts, vec![680, 1000]);
}

#[test]
fn solid_row_between_samples_is_missed() {
    // Rows are sampled every 40 rows starting at min_height, so a solid row
    // at 650 falls between the samples 640 and 680 and is never tested.
    let img = image_with_uniform_rows(10, 1000, &[650]);
    let cuts = plan(&img, 2, 600, 7000).unwrap();
    assert_eq!(cuts, vec![1000]);
}

#[test]
fn scenario_no_solid_row_forces_cut() {
    // No row is ever solid: a forced cut lands at 7000, where one more scan
    // step would let the page exceed max_height, and the plan ends at 8000.
    let img = image_with_uniform_rows(2, 8000, &[]);
    let cuts = plan(&img, 2, 600, 7000).unwrap();
    assert_eq!(cuts, vec![7000, 8000]);
    assert!(cuts[0] <= 7000);
    assert_eq!(*cuts.last().unwrap(), 8000);
}

#[test]
fn scenario_image_shorter_than_min_height() {
    // The cursor starts at min_height >= height, so the loop never runs and
    // the single region spans the whole image.
    let img = image_with_uniform_rows(10, 500, &[]);
    let cuts = plan(&img, 2, 600, 7000).unwrap();
    assert_eq!(cuts, vec![500]);
}

#[test]
fn scenario_width_one_cuts_every_min_height() {
    // With a single pixel per row every row is trivially solid, so a cut
    // lands at every min_height-th sampled row.
    let img = image_with_uniform_rows(1, 2000, &[]);
    let cuts = plan(&img, 2, 600, 7000).unwrap();
    assert_eq!(cuts, vec![600, 1200, 1800, 2000]);
}

#[test]
fn plan_is_deterministic() {
    let img = image_with_uniform_rows(10, 1000, &[680]);
    let first = plan(&img, 2, 600, 7000).unwrap();
    let second = plan(&img, 2, 600, 7000).unwrap();
    assert_eq!(first, second);
}

#[test]
fn plan_rejects_bad_parameters() {
    let img = image_with_uniform_rows(10, 100, &[]);
    assert!(plan(&img, 2, 0, 7000).is_none());
    assert!(plan(&img, 2, 700, 600).is_none());
    assert!(plan(&img, 2, 600, 7000).is_some());
}

#[test]
fn plan_rejects_zero_width_rows() {
    let img = RgbImage::from_raw(0, 4, Vec::new());
    assert!(plan(&img, 2, 600, 7000).is_none());
}

#[test]
fn plan_of_empty_image_is_single_zero_boundary() {
    let img = RgbImage::from_raw(0, 0, Vec::new());
    let cuts = plan(&img, 2, 600, 7000).unwrap();
    assert_eq!(cuts, vec![0]);
}

#[test]
fn find_split_pos_matches_plan() {
    let img = image_with_uniform_rows(10, 1000, &[680]);
    let cuts = find_split_pos(10, 1000, 2, 600, 7000, &img);
    assert_eq!(cuts, vec![680, 1000]);
}

#[test]
fn solid_row_within_threshold() {
    // Channels drift by at most 2 from the leftmost pixel.
    let mut data: Vec<u8> = Vec::new();
    for x in 0..6u32 {
        let v = 100 + (x % 3) as u8;
        data.push(v);
        data.push(v);
        data.push(v);
    }
    let img = RgbImage::from_raw(6, 1, data);
    assert!(check_row_solid(&img, 0, 6, 2));
    assert!(!check_row_solid(&img, 0, 6, 1));
}

#[test]
fn row_with_one_deviant_channel_is_not_solid() {
    // Only the green channel of one pixel steps out of tolerance.
    let mut data: Vec<u8> = vec![10, 10, 10, 10, 13, 10, 10, 10, 10];
    let img = RgbImage::from_raw(3, 1, std::mem::take(&mut data));
    assert!(!check_row_solid(&img, 0, 3, 2));
    assert!(check_row_solid(&img, 0, 3, 3));
}

#[test]
fn solidity_at_channel_extremes() {
    // Reference at 0 against a 255 pixel must fail without underflowing.
    let data: Vec<u8> = vec![0, 0, 0, 255, 255, 255];
    let img = RgbImage::from_raw(2, 1, data);
    assert!(!check_row_solid(&img, 0, 2, 2));
    assert!(check_row_solid(&img, 0, 2, 255));
}

#[test]
fn single_pixel_row_is_always_solid() {
    let data: Vec<u8> = vec![17, 200, 3];
    let img = RgbImage::from_raw(1, 1, data);
    assert!(check_row_solid(&img, 0, 1, 0));
}

#[test]
fn raising_threshold_keeps_rows_solid() {
    // Rows solid at a threshold stay solid at every higher threshold.
    let mut data: Vec<u8> = Vec::new();
    for x in 0..4u32 {
        let v = 50 + 3 * (x % 2) as u8;
        data.push(v);
        data.push(v);
        data.push(v);
    }
    let img = RgbImage::from_raw(4, 1, data);
    assert!(!check_row_solid(&img, 0, 4, 2));
    assert!(check_row_solid(&img, 0, 4, 3));
    assert!(check_row_solid(&img, 0, 4, 4));
    assert!(check_row_solid(&img, 0, 4, 255));
}
