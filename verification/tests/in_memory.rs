use unhexo::memory::{next_diff, prev_diff, range_diff, MemoryFile};
use unhexo::protocol::{Action, Reply};

fn patterned(len: usize) -> Vec<u8> {
    let mut bytes = Vec::with_capacity(len);
    for i in 0..len {
        bytes.push((i % 251) as u8 + 1);
    }
    bytes
}

#[test]
fn range_diff_finds_the_one_changed_byte() {
    let left = [0x01u8, 0x02, 0x03];
    let right = [0x01u8, 0x09, 0x03];
    assert_eq!(range_diff(&left, &right, 0, 3), vec![1]);
}

#[test]
fn range_diff_counts_the_byte_past_the_shorter_file() {
    let left = [0x01u8, 0x02];
    let right = [0x01u8, 0x02, 0x03];
    assert_eq!(range_diff(&left, &right, 0, 3), vec![2]);
    assert_eq!(range_diff(&right, &left, 0, 3), vec![2]);
}

#[test]
fn next_diff_sees_the_byte_past_the_shorter_file_when_it_is_not_zero() {
    let left = [0x01u8, 0x02];
    let right = [0x01u8, 0x02, 0x03];
    assert_eq!(next_diff(&left, &right, 0), Some(2));
    assert_eq!(next_diff(&right, &left, 0), Some(2));
}

#[test]
fn range_and_next_disagree_on_a_zero_past_the_end() {
    let left = [0x01u8, 0x02];
    let right = [0x01u8, 0x02, 0x00];
    assert_eq!(range_diff(&left, &right, 0, 3), vec![2]);
    assert_eq!(next_diff(&left, &right, 0), None);
    assert_eq!(next_diff(&left, &right, 2), None);
    assert_eq!(prev_diff(&left, &right, 3), None);
}

#[test]
fn range_and_next_disagree_on_zeros_before_a_later_byte() {
    let left = [0x07u8];
    let right = [0x07u8, 0x00, 0x00, 0x05, 0x00];
    assert_eq!(range_diff(&left, &right, 0, 10), vec![1, 2, 3, 4]);
    assert_eq!(next_diff(&left, &right, 0), Some(3));
    assert_eq!(next_diff(&left, &right, 4), None);
    assert_eq!(prev_diff(&left, &right, 5), Some(3));
    assert_eq!(prev_diff(&left, &right, 3), None);
}

#[test]
fn prev_diff_from_zero_is_none() {
    assert_eq!(prev_diff(&[], &[], 0), None);
    assert_eq!(prev_diff(&[1, 2, 3], &[4, 5, 6], 0), None);
    assert_eq!(prev_diff(&[1], &[], 0), None);
    assert_eq!(prev_diff(&patterned(9000), &[], 0), None);
}

#[test]
fn range_diff_of_an_empty_range_is_empty() {
    assert_eq!(range_diff(&[1, 2, 3], &[4, 5, 6], 0, 0), Vec::<u64>::new());
    assert_eq!(range_diff(&[1, 2, 3], &[4, 5, 6], 2, 0), Vec::<u64>::new());
    assert_eq!(range_diff(&[1, 2, 3], &[4, 5, 6], u64::MAX, 0), Vec::<u64>::new());
}

#[test]
fn range_diff_of_equal_files_is_empty() {
    let bytes = patterned(10_000);
    assert_eq!(range_diff(&bytes, &bytes, 0, 10_000), Vec::<u64>::new());
    assert_eq!(range_diff(&bytes, &bytes, 0, 20_000), Vec::<u64>::new());
}

#[test]
fn range_diff_keeps_to_its_range() {
    let left = [1u8, 2, 3, 4, 5, 6];
    let right = [9u8, 2, 9, 4, 9, 9];
    assert_eq!(range_diff(&left, &right, 0, 6), vec![0, 2, 4, 5]);
    assert_eq!(range_diff(&left, &right, 1, 3), vec![2]);
    assert_eq!(range_diff(&left, &right, 2, 3), vec![2, 4]);
    assert_eq!(range_diff(&left, &right, 5, 1), vec![5]);
    assert_eq!(range_diff(&left, &right, 3, 1), Vec::<u64>::new());
}

#[test]
fn range_diff_past_the_end_of_both_is_empty() {
    let left = [1u8, 2, 3];
    let right = [1u8, 2, 4];
    assert_eq!(range_diff(&left, &right, 3, 100), Vec::<u64>::new());
    assert_eq!(range_diff(&left, &right, 1_000_000, 5000), Vec::<u64>::new());
    assert_eq!(range_diff(&left, &right, 2, 100), vec![2]);
    assert_eq!(range_diff(&left, &right, u64::MAX - 10, 10), Vec::<u64>::new());
}

#[test]
fn range_diff_against_an_empty_file_lists_every_offset() {
    let left = [5u8, 0, 0, 5];
    assert_eq!(range_diff(&left, &[], 0, 4), vec![0, 1, 2, 3]);
    assert_eq!(range_diff(&[], &left, 1, 2), vec![1, 2]);
    assert_eq!(range_diff(&[], &left, 0, 9), vec![0, 1, 2, 3]);
    assert_eq!(range_diff(&[], &[], 0, 9), Vec::<u64>::new());
}

#[test]
fn range_diff_crosses_windows() {
    let left = patterned(10_000);
    let mut right = left.clone();
    right[0] ^= 0xff;
    right[4095] ^= 0xff;
    right[4096] ^= 0xff;
    right[8191] ^= 0xff;
    right[8192] ^= 0xff;
    right[9999] ^= 0xff;
    assert_eq!(
        range_diff(&left, &right, 0, 10_000),
        vec![0, 4095, 4096, 8191, 8192, 9999]
    );
    assert_eq!(range_diff(&left, &right, 1, 4095), vec![4095]);
    assert_eq!(range_diff(&left, &right, 4000, 200), vec![4095, 4096]);
    assert_eq!(range_diff(&left, &right, 4096, 4096), vec![4096, 8191]);
    assert_eq!(range_diff(&left, &right, 8192, 5000), vec![8192, 9999]);
}

#[test]
fn range_diff_counts_a_long_tail_past_the_shorter_file() {
    let left = patterned(5000);
    let right = patterned(4090);
    let expected: Vec<u64> = (4090..5000).collect();
    assert_eq!(range_diff(&left, &right, 0, 6000), expected);
    assert_eq!(range_diff(&right, &left, 0, 6000), expected);
    let part: Vec<u64> = (4090..4100).collect();
    assert_eq!(range_diff(&left, &right, 4000, 100), part);
}

#[test]
fn next_diff_starts_at_its_offset() {
    let left = [1u8, 2, 3, 4, 5, 6];
    let right = [9u8, 2, 9, 4, 9, 9];
    assert_eq!(next_diff(&left, &right, 0), Some(0));
    assert_eq!(next_diff(&left, &right, 1), Some(2));
    assert_eq!(next_diff(&left, &right, 2), Some(2));
    assert_eq!(next_diff(&left, &right, 3), Some(4));
    assert_eq!(next_diff(&left, &right, 5), Some(5));
    assert_eq!(next_diff(&left, &right, 6), None);
    assert_eq!(next_diff(&left, &right, 7), None);
    assert_eq!(next_diff(&left, &right, u64::MAX), None);
}

#[test]
fn next_diff_of_equal_files_is_none() {
    let bytes = patterned(9000);
    assert_eq!(next_diff(&bytes, &bytes, 0), None);
    assert_eq!(next_diff(&bytes, &bytes, 4096), None);
    assert_eq!(next_diff(&[], &[], 0), None);
}

#[test]
fn next_diff_crosses_windows() {
    let left = patterned(20_000);
    let mut right = left.clone();
    right[12_345] ^= 1;
    right[19_999] ^= 1;
    assert_eq!(next_diff(&left, &right, 0), Some(12_345));
    assert_eq!(next_diff(&left, &right, 100), Some(12_345));
    assert_eq!(next_diff(&left, &right, 12_345), Some(12_345));
    assert_eq!(next_diff(&left, &right, 12_346), Some(19_999));
    assert_eq!(next_diff(&left, &right, 20_000), None);
}

#[test]
fn next_diff_reads_on_past_the_shorter_file() {
    let mut left = patterned(3000);
    left.extend(std::iter::repeat(0u8).take(7000));
    let right = patterned(3000);
    assert_eq!(next_diff(&left, &right, 0), None);
    left[9999] = 1;
    assert_eq!(next_diff(&left, &right, 0), Some(9999));
    assert_eq!(next_diff(&right, &left, 0), Some(9999));
    assert_eq!(next_diff(&right, &left, 5000), Some(9999));
}

#[test]
fn prev_diff_ends_before_its_offset() {
    let left = [1u8, 2, 3, 4, 5, 6];
    let right = [9u8, 2, 9, 4, 9, 9];
    assert_eq!(prev_diff(&left, &right, 6), Some(5));
    assert_eq!(prev_diff(&left, &right, 5), Some(4));
    assert_eq!(prev_diff(&left, &right, 4), Some(2));
    assert_eq!(prev_diff(&left, &right, 3), Some(2));
    assert_eq!(prev_diff(&left, &right, 2), Some(0));
    assert_eq!(prev_diff(&left, &right, 1), Some(0));
    assert_eq!(prev_diff(&left, &right, 100), Some(5));
    assert_eq!(prev_diff(&left, &right, 100_000), Some(5));
}

#[test]
fn prev_diff_of_equal_files_is_none() {
    let bytes = patterned(9000);
    assert_eq!(prev_diff(&bytes, &bytes, 9000), None);
    assert_eq!(prev_diff(&bytes, &bytes, 20_000), None);
    assert_eq!(prev_diff(&bytes, &bytes, 1), None);
}

#[test]
fn prev_diff_crosses_windows() {
    let left = patterned(20_000);
    let mut right = left.clone();
    right[3] ^= 1;
    right[12_345] ^= 1;
    assert_eq!(prev_diff(&left, &right, 20_000), Some(12_345));
    assert_eq!(prev_diff(&left, &right, 12_346), Some(12_345));
    assert_eq!(prev_diff(&left, &right, 12_345), Some(3));
    assert_eq!(prev_diff(&left, &right, 4), Some(3));
    assert_eq!(prev_diff(&left, &right, 3), None);
}

#[test]
fn prev_diff_pads_the_shorter_file() {
    let left = [1u8, 2];
    let right = [1u8, 2, 0, 7, 0];
    assert_eq!(prev_diff(&left, &right, 5), Some(3));
    assert_eq!(prev_diff(&left, &right, 4), Some(3));
    assert_eq!(prev_diff(&left, &right, 3), None);
    assert_eq!(prev_diff(&right, &left, 50), Some(3));
}

#[test]
fn memory_file_reads_at_its_cursor() {
    let bytes = [10u8, 11, 12, 13, 14];
    let mut file = MemoryFile::new(&bytes);
    assert_eq!(file.cursor, 0);
    assert_eq!(file.serve(Action::Read(2)), Reply::Bytes(vec![10, 11]));
    assert_eq!(file.cursor, 2);
    assert_eq!(file.serve(Action::Read(0)), Reply::Bytes(vec![]));
    assert_eq!(file.cursor, 2);
    assert_eq!(file.serve(Action::Read(10)), Reply::Bytes(vec![12, 13, 14]));
    assert_eq!(file.cursor, 5);
    assert_eq!(file.serve(Action::Read(10)), Reply::Bytes(vec![]));
    assert_eq!(file.cursor, 5);
}

#[test]
fn memory_file_seeks_anywhere() {
    let bytes = [10u8, 11, 12, 13, 14];
    let mut file = MemoryFile::new(&bytes);
    assert_eq!(file.serve(Action::Seek(3)), Reply::Sought);
    assert_eq!(file.cursor, 3);
    assert_eq!(file.serve(Action::Read(1)), Reply::Bytes(vec![13]));
    assert_eq!(file.serve(Action::Seek(5)), Reply::Sought);
    assert_eq!(file.serve(Action::Read(1)), Reply::Bytes(vec![]));
    assert_eq!(file.serve(Action::Seek(u64::MAX)), Reply::Sought);
    assert_eq!(file.cursor, u64::MAX);
    assert_eq!(file.serve(Action::Read(usize::MAX)), Reply::Bytes(vec![]));
    assert_eq!(file.cursor, u64::MAX);
    assert_eq!(file.serve(Action::Seek(0)), Reply::Sought);
    assert_eq!(file.serve(Action::Read(usize::MAX)), Reply::Bytes(vec![10, 11, 12, 13, 14]));
}
