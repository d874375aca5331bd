use groupic::layout::{ceil_sqrt, compute_layout, div_ceil_u32, tile_offset};

#[test]
fn ceil_sqrt_values() {
    assert_eq!(ceil_sqrt(0), 0);
    assert_eq!(ceil_sqrt(1), 1);
    assert_eq!(ceil_sqrt(2), 2);
    assert_eq!(ceil_sqrt(16), 4);
    assert_eq!(ceil_sqrt(17), 5);
    assert_eq!(ceil_sqrt(99), 10);
    assert_eq!(ceil_sqrt(u32::MAX), 65536);
}

#[test]
fn div_ceil_values() {
    assert_eq!(div_ceil_u32(0, 5), 0);
    assert_eq!(div_ceil_u32(1, 5), 1);
    assert_eq!(div_ceil_u32(5, 5), 1);
    assert_eq!(div_ceil_u32(6, 5), 2);
    assert_eq!(div_ceil_u32(u32::MAX, 1), u32::MAX);
}

#[test]
fn auto_column_default() {
    // seventeen items: ceil(sqrt(17)) = 5, no narrower than 5 columns
    let plan = compute_layout(17, None, 64, 128);
    assert_eq!(plan.row_width, 5);
    assert_eq!(plan.row_count, 4);
    assert_eq!(plan.canvas_width, 640);
    assert_eq!(plan.canvas_height, 64 + 128 * 4);
}

#[test]
fn auto_column_never_narrower_than_five() {
    let plan = compute_layout(3, None, 64, 128);
    assert_eq!(plan.row_width, 5);
    let plan = compute_layout(0, None, 64, 128);
    assert_eq!(plan.row_width, 5);
    let plan = compute_layout(100, None, 64, 128);
    assert_eq!(plan.row_width, 10);
}

#[test]
fn layout_formulas_over_a_range() {
    for item_count in 0..=500u32 {
        for row_width in [1u32, 2, 5, 17, 50] {
            let plan = compute_layout(item_count, Some(row_width), 64, 128);
            let expected_rows = item_count.div_ceil(row_width);
            assert_eq!(plan.row_count, expected_rows);
            assert_eq!(plan.canvas_width, 128 * row_width);
            assert_eq!(plan.canvas_height, 64 + 128 * expected_rows);
        }
    }
}

#[test]
fn grid_scenario() {
    // seven tiles, five per row, a 64-pixel header band
    let plan = compute_layout(7, Some(5), 64, 128);
    assert_eq!(plan.canvas_width, 640);
    assert_eq!(plan.canvas_height, 320);
    assert_eq!(tile_offset(&plan, 0), (0, 64));
    assert_eq!(tile_offset(&plan, 5), (0, 192));
    assert_eq!(tile_offset(&plan, 6), (128, 192));
}

#[test]
fn placements_do_not_overlap() {
    let plan = compute_layout(23, Some(5), 64, 128);
    let mut rects: Vec<(u32, u32)> = Vec::new();
    for i in 0..23u32 {
        rects.push(tile_offset(&plan, i));
    }
    for i in 0..rects.len() {
        for j in 0..rects.len() {
            if i != j {
                let (xi, yi) = rects[i];
                let (xj, yj) = rects[j];
                let disjoint = xi + 128 <= xj || xj + 128 <= xi || yi + 128 <= yj || yj + 128 <= yi;
                assert!(disjoint, "items {} and {} overlap", i, j);
            }
        }
    }
}

#[test]
fn zero_items_yield_header_only_canvas() {
    let plan = compute_layout(0, Some(4), 64, 128);
    assert_eq!(plan.row_count, 0);
    assert_eq!(plan.canvas_width, 512);
    assert_eq!(plan.canvas_height, 64);
}
