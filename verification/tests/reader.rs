use minivector::reader::{read_chunk_cap, take_complete_records};
use minivector::timing::{fps_of_delta, frame_delay_micros};

#[test]
fn split_keeps_whole_records_and_withholds_the_tail() {
    let bytes: Vec<u8> = (0..12u8).collect();
    let (records, left_over) = take_complete_records(&bytes);
    assert_eq!(records, (0..10u8).collect::<Vec<u8>>());
    assert_eq!(left_over, vec![10, 11]);
}

#[test]
fn split_of_exact_multiple_leaves_nothing_over() {
    let bytes = vec![9u8; 15];
    let (records, left_over) = take_complete_records(&bytes);
    assert_eq!(records.len(), 15);
    assert!(left_over.is_empty());
}

#[test]
fn split_of_short_read_withholds_everything() {
    let (records, left_over) = take_complete_records(&[1, 2, 3]);
    assert!(records.is_empty());
    assert_eq!(left_over, vec![1, 2, 3]);
}

#[test]
fn read_cap_covers_a_frame_of_instructions_with_a_floor() {
    assert_eq!(read_chunk_cap(500), 2500);
    assert_eq!(read_chunk_cap(0), 1024);
    assert_eq!(read_chunk_cap(100), 1024);
    assert_eq!(read_chunk_cap(205), 1025);
}

#[test]
fn frame_delay_is_the_remainder_of_the_period() {
    // 30 fps: a 33333 microsecond period.
    assert_eq!(frame_delay_micros(10000, 30), 23333);
    assert_eq!(frame_delay_micros(33333, 30), 0);
    assert_eq!(frame_delay_micros(50000, 30), 0);
    assert_eq!(frame_delay_micros(0, 60), 16666);
}

#[test]
fn fps_rounds_to_the_nearest_rate() {
    assert_eq!(fps_of_delta(33333), 30);
    assert_eq!(fps_of_delta(16666), 60);
    assert_eq!(fps_of_delta(1_000_000), 1);
    assert_eq!(fps_of_delta(0), u32::MAX);
}
