use git_utils::ViewportGeometry;

#[test]
fn usable_height_is_clamped_to_desired() {
    let g = ViewportGeometry::new(80, 24, 6, 10);
    assert_eq!(g.usable_height(), 6);
    assert_eq!(g.visible_rows(), 5);
    let g = ViewportGeometry::new(80, 4, 11, 0);
    assert_eq!(g.usable_height(), 4);
    assert_eq!(g.visible_rows(), 3);
}

#[test]
fn resize_changes_the_live_height() {
    let mut g = ViewportGeometry::new(80, 24, 30, 2);
    assert_eq!(g.usable_height(), 24);
    g.resize(100, 12);
    assert_eq!(g.usable_height(), 12);
    assert_eq!(g.terminal_width, 100);
    assert_eq!(g.start_row, 2);
    g.resize(100, 0);
    assert_eq!(g.visible_rows(), 0);
}

#[test]
fn rows_to_reserve() {
    assert_eq!(ViewportGeometry::reserved_rows(24, 5), 5);
    assert_eq!(ViewportGeometry::reserved_rows(3, 5), 3);
    assert_eq!(ViewportGeometry::lines_to_open(24, 5), 4);
    assert_eq!(ViewportGeometry::lines_to_open(0, 5), 0);
}
