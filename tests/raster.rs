use raytr::raster::scanline_order;

#[test]
fn two_by_two_starts_at_top_left() {
    assert_eq!(scanline_order(2, 2), vec![(0, 1), (1, 1), (0, 0), (1, 0)]);
}

#[test]
fn rows_go_down_and_columns_go_right() {
    let order = scanline_order(3, 2);
    assert_eq!(order, vec![(0, 1), (1, 1), (2, 1), (0, 0), (1, 0), (2, 0)]);
    for (k, &(i, j)) in order.iter().enumerate() {
        assert_eq!(i as usize, k % 3);
        assert_eq!(j as usize, 2 - 1 - k / 3);
    }
}

#[test]
fn single_column_image() {
    assert_eq!(scanline_order(1, 3), vec![(0, 2), (0, 1), (0, 0)]);
}

#[test]
fn empty_image_has_no_pixels() {
    assert!(scanline_order(0, 4).is_empty());
    assert!(scanline_order(4, 0).is_empty());
}
