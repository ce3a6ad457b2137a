use clippy_lints::matches::{overlapping, SpannedRange};
use clippy_lints::span::Span;

fn range(lo: i128, hi: i128, at: usize) -> SpannedRange<i128> {
    SpannedRange { span: Span::new(at, at + 1), node: (lo, hi) }
}

#[test]
fn overlapping_ranges_are_reported() {
    let ranges = vec![range(1, 10, 0), range(5, 15, 10)];
    let found = overlapping(&ranges);
    assert_eq!(found, Some((&ranges[0], &ranges[1])));
}

#[test]
fn disjoint_ranges_are_not_reported() {
    let ranges = vec![range(1, 5, 0), range(6, 10, 10)];
    assert_eq!(overlapping(&ranges), None);
}

#[test]
fn ranges_sharing_a_boundary_overlap() {
    let ranges = vec![range(1, 5, 0), range(5, 10, 10)];
    let found = overlapping(&ranges);
    assert_eq!(found, Some((&ranges[0], &ranges[1])));
}
