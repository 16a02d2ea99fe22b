use backend::fs::download::{partial_bounds, RequestedRange, PARTIAL_MAX_SIZE};

#[test]
fn range_header_with_both_ends() {
    assert_eq!(
        RequestedRange::from_header(Some("bytes=10-20")),
        Some(RequestedRange { start: 10, end: Some(20) })
    );
}

#[test]
fn range_header_without_end() {
    assert_eq!(
        RequestedRange::from_header(Some("bytes=500-")),
        Some(RequestedRange { start: 500, end: None })
    );
}

#[test]
fn range_header_refusals() {
    assert_eq!(RequestedRange::from_header(None), None);
    assert_eq!(RequestedRange::from_header(Some("items=1-2")), None);
    assert_eq!(RequestedRange::from_header(Some("bytes=20-10")), None);
    assert_eq!(RequestedRange::from_header(Some("bytes=-10")), None);
    // a start beyond u64 does not parse
    assert_eq!(RequestedRange::from_header(Some("bytes=99999999999999999999-")), None);
}

#[test]
fn range_header_end_that_does_not_parse_is_dropped() {
    assert_eq!(
        RequestedRange::from_header(Some("bytes=5-99999999999999999999")),
        Some(RequestedRange { start: 5, end: None })
    );
}

#[test]
fn range_header_first_match_inside_text() {
    assert_eq!(
        RequestedRange::from_header(Some("x bytes=3-4, bytes=7-8")),
        Some(RequestedRange { start: 3, end: Some(4) })
    );
}

#[test]
fn range_from_groups_directly() {
    let groups = vec![Some("bytes=1-2".to_string()), Some("1".to_string()), Some("2".to_string())];
    assert_eq!(RequestedRange::from_groups(&groups), Some(RequestedRange { start: 1, end: Some(2) }));
    let no_end = vec![Some("bytes=7-".to_string()), Some("7".to_string()), None];
    assert_eq!(RequestedRange::from_groups(&no_end), Some(RequestedRange { start: 7, end: None }));
    assert_eq!(RequestedRange::from_groups(&vec![]), None);
}

#[test]
fn partial_bounds_cases() {
    let r = RequestedRange { start: 10, end: Some(20) };
    assert_eq!(partial_bounds(&r, 100), Some((10, 20)));
    assert_eq!(partial_bounds(&r, 15), Some((10, 14)));
    assert_eq!(partial_bounds(&r, 10), None);
    let open = RequestedRange { start: 0, end: None };
    assert_eq!(partial_bounds(&open, 10 * PARTIAL_MAX_SIZE), Some((0, PARTIAL_MAX_SIZE - 1)));
    assert_eq!(partial_bounds(&open, 5), Some((0, 4)));
}
