use backend::fs::partial_file::{
    account_read, body_size, completed_offset, content_range, map_seek, partial_range,
    plan_partial_read, ReadPlan, SeekTarget,
};

#[test]
fn partial_range_is_limited_by_the_file() {
    assert_eq!(partial_range(10, 19, 100), (10, 20));
    assert_eq!(partial_range(90, 199, 100), (90, 100));
    assert_eq!(partial_range(0, 0, 1), (0, 1));
}

#[test]
fn content_range_header_text() {
    assert_eq!(content_range(0, 1048575, 5000000), "bytes 0-1048575/5000000");
    assert_eq!(content_range(7, 7, 8), "bytes 7-7/8");
}

#[test]
fn body_size_counts_both_ends() {
    assert_eq!(body_size(10, 19), 10);
    assert_eq!(body_size(5, 5), 1);
}

#[test]
fn read_plans() {
    assert_eq!(plan_partial_read(0, 9, 10, 100), ReadPlan::Finished);
    assert_eq!(plan_partial_read(0, 9, 4, 100), ReadPlan::Limited(6));
    assert_eq!(plan_partial_read(0, 9, 4, 6), ReadPlan::Direct);
    assert_eq!(plan_partial_read(0, 9, 0, 3), ReadPlan::Direct);
}

#[test]
fn read_accounting() {
    assert_eq!(account_read(4, true, 100, 6), 10);
    assert_eq!(account_read(4, false, 2, 5), 7);
}

#[test]
fn seeks_inside_the_part() {
    assert_eq!(map_seek(SeekTarget::Start(3), 10, 19, 100), SeekTarget::Start(13));
    assert_eq!(map_seek(SeekTarget::End(-2), 10, 19, 100), SeekTarget::End(-82));
    assert_eq!(map_seek(SeekTarget::Current(5), 10, 19, 100), SeekTarget::Current(5));
    assert_eq!(completed_offset(13, 10), 3);
}

#[test]
fn reads_of_a_part_stay_within_it() {
    // a part of 10 bytes read through buffers of various sizes, some already holding bytes
    let (start, end) = (100u64, 109u64);
    let mut bytes_read = 0u64;
    let mut appended = 0u64;
    for (room, held) in [(4usize, 0usize), (3, 2), (50, 1), (8, 0), (8, 0)] {
        let got = match plan_partial_read(start, end, bytes_read, room) {
            ReadPlan::Finished => 0,
            ReadPlan::Limited(m) => m,
            ReadPlan::Direct => room,
        };
        appended += got as u64;
        let limited = matches!(plan_partial_read(start, end, bytes_read, room), ReadPlan::Limited(_));
        if !matches!(plan_partial_read(start, end, bytes_read, room), ReadPlan::Finished) {
            bytes_read = account_read(bytes_read, limited, held, held + got);
        }
        assert!(appended <= 10);
    }
    assert_eq!(plan_partial_read(start, end, bytes_read, 8), ReadPlan::Finished);
}
