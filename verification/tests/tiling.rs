use strip_tiler::CropBounds;
use strip_tiler::CropInfo;

fn reference_bounds() -> CropBounds {
    CropBounds::new(1000, 500, 200, 40, 40, 80)
}

#[test]
fn constructor_derives_virtual_height() {
    let b = reference_bounds();
    assert_eq!(b.image_width, 1000);
    assert_eq!(b.image_height, 500);
    assert_eq!(b.virtual_width, 200);
    assert_eq!(b.virtual_height, 100);
    assert_eq!(b.paper_width_px, 40);
    assert_eq!(b.printable_width_px, 40);
    assert_eq!(b.max_strip_len_px, 80);
}

#[test]
fn constructor_floors_virtual_height() {
    let b = CropBounds::new(3, 2, 7, 10, 10, 4);
    assert_eq!(b.virtual_height, 4);
}

#[test]
fn first_descriptor_of_reference_scenario() {
    let mut it = reference_bounds().into_iter();
    let first = it.next().expect("first tile");
    assert_eq!(first.x, 0);
    assert_eq!(first.y, 0);
    assert_eq!(first.width, 400);
    assert_eq!(first.height, 200);
    assert_eq!(first.upscale_width, 80);
    assert_eq!(first.upscale_height, 40);
    assert_eq!(first.whitespace_height, None);
    assert!(!first.is_strip_end);
}

#[test]
fn third_descriptor_ends_first_row() {
    let mut it = reference_bounds().into_iter();
    it.next().expect("first tile");
    let second = it.next().expect("second tile");
    assert_eq!(second.x, 400);
    assert_eq!(second.width, 400);
    assert_eq!(second.upscale_width, 80);
    assert!(!second.is_strip_end);
    let third = it.next().expect("third tile");
    assert_eq!(third.x, 800);
    assert_eq!(third.y, 0);
    assert_eq!(third.width, 200);
    assert_eq!(third.upscale_width, 40);
    assert!(third.is_strip_end);
    let fourth = it.next().expect("fourth tile starts the next row");
    assert_eq!(fourth.x, 0);
    assert_eq!(fourth.y, 200);
    assert!(!fourth.is_strip_end);
}

#[test]
fn strip_end_exactly_once_per_row() {
    let mut it = reference_bounds().into_iter();
    let row: Vec<CropInfo> = (0..3).map(|_| it.next().expect("tile")).collect();
    let ends: Vec<bool> = row.iter().map(|t| t.is_strip_end).collect();
    assert_eq!(ends, vec![false, false, true]);
}

#[test]
fn row_end_meets_right_edge_exactly() {
    let mut it = reference_bounds().into_iter();
    for _ in 0..2 {
        let a = it.next().expect("tile");
        let b = it.next().expect("tile");
        let last = it.next().expect("row-ending tile");
        assert!(!a.is_strip_end);
        assert!(!b.is_strip_end);
        assert!(last.is_strip_end);
        assert_eq!(last.x + last.width, 1000);
    }
}

#[test]
fn whitespace_present_iff_bottom_clipped() {
    let mut it = reference_bounds().into_iter();
    // Rows start at virtual rows 0 and 40; their tiles map to source rows
    // 0 and 200 with nominal height 200, so neither is clipped.
    for _ in 0..6 {
        let tile = it.next().expect("tile");
        assert_eq!(tile.whitespace_height, None);
    }
    // The row at virtual row 80 maps to source row 400; its nominal tile
    // would end at source row 600, past the 500-row image: every tile of it
    // is clipped to 100 rows and carries the nominal 200 as the indicator.
    for _ in 0..3 {
        let tile = it.next().expect("tile");
        assert_eq!(tile.y, 400);
        assert_eq!(tile.height, 100);
        assert_eq!(tile.whitespace_height, Some(200));
    }
}

#[test]
fn traversal_terminates_with_degenerate_last_row() {
    // virtual_height = 100 * 100 / 100 = 100; rows start at virtual rows
    // 0, 50 and 100. The last row maps to source row 100 exactly, the bottom
    // edge: its tiles have height 0 and the padding indicator, and the cut
    // after it ends the traversal.
    let b = CropBounds::new(100, 100, 100, 50, 50, 50);
    assert_eq!(b.virtual_height, 100);
    let mut it = b.into_iter();
    let mut tiles: Vec<CropInfo> = Vec::new();
    while let Some(tile) = it.next() {
        tiles.push(tile);
        assert!(tiles.len() <= 100, "traversal must stay finite");
    }
    assert_eq!(tiles.len(), 6);
    for tile in &tiles[0..4] {
        assert_eq!(tile.height, 50);
        assert_eq!(tile.whitespace_height, None);
        assert!(tile.width >= 1);
    }
    for tile in &tiles[4..6] {
        assert_eq!(tile.y, 100);
        assert_eq!(tile.height, 0);
        assert_eq!(tile.whitespace_height, Some(50));
    }
    assert!(tiles[5].is_strip_end);
    assert!(it.next().is_none());
    assert!(it.next().is_none());
}

#[test]
fn single_tile_rows_clamp_both_edges() {
    // One strip of 60 virtual px covers the whole 50 px wide canvas: every
    // row is a single tile, clamped from nominal width 120 to the full 100
    // source columns, resampled to the remaining 50 virtual px, and an
    // immediate strip end.
    let b = CropBounds::new(100, 100, 50, 30, 30, 60);
    assert_eq!(b.virtual_height, 50);
    let mut it = b.into_iter();
    let first = it.next().expect("first tile");
    assert_eq!(first.x, 0);
    assert_eq!(first.width, 100);
    assert_eq!(first.height, 60);
    assert_eq!(first.upscale_width, 50);
    assert_eq!(first.whitespace_height, None);
    assert!(first.is_strip_end);
    let second = it.next().expect("second tile");
    assert_eq!(second.y, 60);
    assert_eq!(second.height, 40);
    assert_eq!(second.whitespace_height, Some(60));
    assert!(second.is_strip_end);
}

#[test]
fn upscale_width_full_except_last_of_row() {
    // 7 does not divide 30: five tiles per row, the last 2 virtual px wide.
    let b = CropBounds::new(60, 10, 30, 3, 3, 7);
    let mut it = b.into_iter();
    let mut widths: Vec<u32> = Vec::new();
    loop {
        let tile = it.next().expect("tile");
        widths.push(tile.upscale_width);
        if tile.is_strip_end {
            break;
        }
    }
    assert_eq!(widths, vec![7, 7, 7, 7, 2]);
}
