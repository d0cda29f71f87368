use cosmetics::raster::{raise_coverage, visible_span};

#[test]
fn span_fully_inside() {
    assert_eq!(visible_span(2, 3, 10), (0, 3));
}

#[test]
fn span_clipped_left_and_right() {
    assert_eq!(visible_span(-2, 5, 10), (2, 5));
    assert_eq!(visible_span(8, 5, 10), (0, 2));
    assert_eq!(visible_span(-2, 10, 4), (2, 6));
}

#[test]
fn span_entirely_outside() {
    let (lo, hi) = visible_span(-10, 5, 10);
    assert_eq!(lo, hi);
    let (lo, hi) = visible_span(12, 5, 10);
    assert_eq!(lo, hi);
    let (lo, hi) = visible_span(0, 5, 0);
    assert_eq!(lo, hi);
}

#[test]
fn coverage_raised_where_lower() {
    let mut plane = vec![0u8, 50, 200, 0, 0, 0];
    raise_coverage(&mut plane, 3, 2, 1, 0, 2, 2, 100);
    assert_eq!(plane, vec![0, 100, 200, 0, 100, 100]);
}

#[test]
fn coverage_clipped_at_edges() {
    let mut plane = vec![0u8; 9];
    raise_coverage(&mut plane, 3, 3, -1, 2, 3, 4, 7);
    assert_eq!(plane, vec![0, 0, 0, 0, 0, 0, 7, 7, 0]);
}

#[test]
fn coverage_untouched_outside_plane() {
    let mut plane = vec![5u8; 4];
    raise_coverage(&mut plane, 2, 2, 5, 5, 3, 3, 255);
    assert_eq!(plane, vec![5; 4]);
}
