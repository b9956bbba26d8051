use unhexo::policy::{
    append_extra_diffs, find_first_zero_fill_diff, find_last_zero_fill_diff, longer_of,
    shorter_of, window_len, zero_filled_at, WINDOW,
};

#[test]
fn window_is_4096_bytes() {
    assert_eq!(WINDOW, 4096);
}

#[test]
fn window_len_is_the_rest_up_to_one_window() {
    assert_eq!(window_len(0), 0);
    assert_eq!(window_len(1), 1);
    assert_eq!(window_len(100), 100);
    assert_eq!(window_len(4095), 4095);
    assert_eq!(window_len(4096), 4096);
    assert_eq!(window_len(4097), 4096);
    assert_eq!(window_len(u64::MAX), 4096);
}

#[test]
fn longer_and_shorter_pick_by_length() {
    assert_eq!(longer_of(3, 7), 7);
    assert_eq!(longer_of(7, 3), 7);
    assert_eq!(longer_of(5, 5), 5);
    assert_eq!(shorter_of(3, 7), 3);
    assert_eq!(shorter_of(7, 3), 3);
    assert_eq!(shorter_of(0, 0), 0);
}

#[test]
fn zero_filled_at_pads_past_the_end() {
    let bytes = [7u8, 8, 9];
    assert_eq!(zero_filled_at(&bytes, 0), 7);
    assert_eq!(zero_filled_at(&bytes, 2), 9);
    assert_eq!(zero_filled_at(&bytes, 3), 0);
    assert_eq!(zero_filled_at(&bytes, 1000), 0);
    assert_eq!(zero_filled_at(&[], 0), 0);
}

#[test]
fn append_extra_diffs_compares_the_common_part() {
    let mut found = Vec::new();
    append_extra_diffs(&[1, 2, 3, 4], &[1, 9, 3, 8], 100, &mut found);
    assert_eq!(found, vec![101, 103]);
}

#[test]
fn append_extra_diffs_counts_every_extra_byte() {
    let mut found = Vec::new();
    append_extra_diffs(&[1, 2], &[1, 2, 0, 0, 5], 10, &mut found);
    assert_eq!(found, vec![12, 13, 14]);

    let mut found = Vec::new();
    append_extra_diffs(&[9, 2, 0], &[1], 0, &mut found);
    assert_eq!(found, vec![0, 1, 2]);
}

#[test]
fn append_extra_diffs_keeps_what_was_found_before() {
    let mut found = vec![3, 5];
    append_extra_diffs(&[0, 1], &[1, 1], 8, &mut found);
    assert_eq!(found, vec![3, 5, 8]);
    append_extra_diffs(&[], &[], 10, &mut found);
    assert_eq!(found, vec![3, 5, 8]);
    append_extra_diffs(&[4, 4], &[4, 4], 10, &mut found);
    assert_eq!(found, vec![3, 5, 8]);
}

#[test]
fn append_extra_diffs_reaches_the_last_offset() {
    let mut found = Vec::new();
    append_extra_diffs(&[1, 2], &[1], u64::MAX - 1, &mut found);
    assert_eq!(found, vec![u64::MAX]);
}

#[test]
fn first_zero_fill_diff_is_the_lowest() {
    assert_eq!(find_first_zero_fill_diff(&[1, 2, 3, 4], &[1, 9, 3, 8]), Some(1));
    assert_eq!(find_first_zero_fill_diff(&[1, 2, 3], &[1, 2, 3]), None);
    assert_eq!(find_first_zero_fill_diff(&[], &[]), None);
    assert_eq!(find_first_zero_fill_diff(&[5], &[6]), Some(0));
}

#[test]
fn first_zero_fill_diff_pads_the_shorter_window() {
    assert_eq!(find_first_zero_fill_diff(&[1, 2], &[1, 2, 0, 0]), None);
    assert_eq!(find_first_zero_fill_diff(&[1, 2], &[1, 2, 0, 7]), Some(3));
    assert_eq!(find_first_zero_fill_diff(&[1, 2, 0, 7, 9], &[1, 2]), Some(3));
    assert_eq!(find_first_zero_fill_diff(&[], &[0, 0, 0]), None);
    assert_eq!(find_first_zero_fill_diff(&[], &[0, 0, 1]), Some(2));
}

#[test]
fn last_zero_fill_diff_is_the_highest() {
    assert_eq!(find_last_zero_fill_diff(&[1, 2, 3, 4], &[1, 9, 3, 8]), Some(3));
    assert_eq!(find_last_zero_fill_diff(&[1, 2, 3, 4], &[1, 9, 3, 4]), Some(1));
    assert_eq!(find_last_zero_fill_diff(&[1, 2, 3], &[1, 2, 3]), None);
    assert_eq!(find_last_zero_fill_diff(&[], &[]), None);
    assert_eq!(find_last_zero_fill_diff(&[5], &[6]), Some(0));
}

#[test]
fn last_zero_fill_diff_pads_the_shorter_window() {
    assert_eq!(find_last_zero_fill_diff(&[1, 2], &[1, 2, 0, 0]), None);
    assert_eq!(find_last_zero_fill_diff(&[1, 2], &[1, 2, 7, 0]), Some(2));
    assert_eq!(find_last_zero_fill_diff(&[3, 2, 0, 0], &[1, 2]), Some(0));
    assert_eq!(find_last_zero_fill_diff(&[0, 0, 1], &[]), Some(2));
}
