use text_column::column::{grow_len, CharColumn, TextColumn, WCharColumn};
use text_column::indicator::Indicator;

#[test]
fn new_column_reads_as_empty_values() {
    let col: CharColumn = TextColumn::new(3, 5);
    assert_eq!(col.max_len(), 5);
    assert_eq!(col.capacity(), 3);
    for row in 0..3 {
        assert_eq!(col.indicator_at(row), Indicator::Length(0));
        assert_eq!(col.content_length_at(row), Some(0));
        assert_eq!(col.value_at(row), Some(&b""[..]));
    }
}

#[test]
fn set_value_roundtrip() {
    let mut col: CharColumn = TextColumn::new(2, 5);
    col.set_value(0, Some(b"Hello"));
    assert_eq!(col.value_at(0), Some(&b"Hello"[..]));
    assert_eq!(col.content_length_at(0), Some(5));
    assert_eq!(col.indicator_at(0), Indicator::Length(5));
    // the other row is untouched
    assert_eq!(col.value_at(1), Some(&b""[..]));
}

#[test]
fn set_value_null_clears_row() {
    let mut col: CharColumn = TextColumn::new(2, 5);
    col.set_value(0, Some(b"abc"));
    col.set_value(0, None);
    assert_eq!(col.value_at(0), None);
    assert_eq!(col.content_length_at(0), None);
    assert_eq!(col.indicator_at(0), Indicator::Null);
}

#[test]
fn wide_column_counts_bytes_in_indicator() {
    let mut col: WCharColumn = TextColumn::new(2, 4);
    let hi: [u16; 2] = [104, 105];
    col.set_value(1, Some(&hi));
    assert_eq!(col.value_at(1), Some(&hi[..]));
    assert_eq!(col.content_length_at(1), Some(2));
    // the indicator carries the length in bytes: two code units of two bytes
    assert_eq!(col.indicator_at(1), Indicator::Length(4));
}

#[test]
fn append_within_capacity_keeps_max_len() {
    let mut col: CharColumn = TextColumn::new(2, 5);
    col.append(0, Some(b"Hi"));
    assert_eq!(col.max_len(), 5);
    assert_eq!(col.value_at(0), Some(&b"Hi"[..]));
    assert_eq!(col.content_length_at(0), Some(2));
}

#[test]
fn append_grows_and_preserves_earlier_rows() {
    let mut col: CharColumn = TextColumn::new(3, 1);
    col.append(0, Some(b"Hi"));
    assert!(col.max_len() >= 2);
    col.append(1, Some(b"Hello"));
    assert!(col.max_len() >= 5);
    col.append(2, None);
    assert_eq!(col.value_at(0), Some(&b"Hi"[..]));
    assert_eq!(col.value_at(1), Some(&b"Hello"[..]));
    assert_eq!(col.value_at(2), None);
}

#[test]
fn growth_policy_adds_one_fifth() {
    assert_eq!(grow_len(0), 0);
    assert_eq!(grow_len(2), 2);
    assert_eq!(grow_len(5), 6);
    assert_eq!(grow_len(10), 12);
    assert!(grow_len(13) >= 13);
}

#[test]
fn resize_preserves_populated_prefix() {
    let mut col: CharColumn = TextColumn::new(3, 5);
    col.set_value(0, Some(b"abc"));
    col.set_value(1, Some(b"de"));
    col.resize_max_str(8, 2);
    assert_eq!(col.max_len(), 8);
    assert_eq!(col.value_at(0), Some(&b"abc"[..]));
    assert_eq!(col.value_at(1), Some(&b"de"[..]));
    // indicators are never rewritten by a resize
    assert_eq!(col.indicator_at(0), Indicator::Length(3));
}

#[test]
fn resize_shrink_truncates_content() {
    let mut col: CharColumn = TextColumn::new(1, 5);
    col.set_value(0, Some(b"Hello"));
    col.resize_max_str(2, 1);
    // the indicator still reports five bytes; the buffer holds two
    assert_eq!(col.indicator_at(0), Indicator::Length(5));
    assert_eq!(col.content_length_at(0), Some(2));
    assert_eq!(col.value_at(0), Some(&b"He"[..]));
}

#[test]
fn truncation_detection_clamps_content_length() {
    // an indicator reporting more bytes than the committed capacity marks a
    // truncated row: content length is clamped, the indicator is not
    let values = vec![0u8; 6];
    let indicators = vec![10isize];
    let col: CharColumn = TextColumn::from_raw_parts(5, values, indicators).unwrap();
    assert_eq!(col.indicator_at(0), Indicator::Length(10));
    assert_eq!(col.content_length_at(0), Some(5));
    assert_eq!(col.value_at(0).unwrap().len(), 5);
}

#[test]
fn no_total_reads_as_full_capacity() {
    let values = vec![7u8; 6];
    let indicators = vec![-4isize];
    let col: CharColumn = TextColumn::from_raw_parts(5, values, indicators).unwrap();
    assert_eq!(col.indicator_at(0), Indicator::NoTotal);
    assert_eq!(col.content_length_at(0), Some(5));
    assert_eq!(col.value_at(0), Some(&[7u8, 7, 7, 7, 7][..]));
}

#[test]
fn set_max_len_clears_all_rows_to_null() {
    let mut col: CharColumn = TextColumn::new(3, 5);
    col.set_value(0, Some(b"abc"));
    col.set_value(1, Some(b"defgh"));
    col.set_value(2, Some(b"i"));
    col.set_max_len(7);
    assert_eq!(col.max_len(), 7);
    for row in 0..3 {
        assert_eq!(col.value_at(row), None);
        assert_eq!(col.content_length_at(row), None);
    }
}

#[test]
fn fill_null_clears_a_range() {
    let mut col: CharColumn = TextColumn::new(3, 4);
    col.set_value(0, Some(b"aa"));
    col.set_value(1, Some(b"bb"));
    col.set_value(2, Some(b"cc"));
    col.fill_null(1, 3);
    assert_eq!(col.value_at(0), Some(&b"aa"[..]));
    assert_eq!(col.value_at(1), None);
    assert_eq!(col.value_at(2), None);
}

#[test]
fn set_mut_gives_in_place_access() {
    let mut col: CharColumn = TextColumn::new(2, 6);
    col.set_value(0, Some(b"xxxxxx"));
    let slot = col.set_mut(0, 2);
    assert_eq!(slot.len(), 2);
    slot.copy_from_slice(b"hi");
    assert_eq!(col.value_at(0), Some(&b"hi"[..]));
    assert_eq!(col.content_length_at(0), Some(2));
    // the terminator was written behind the reserved range
    assert_eq!(col.raw_value_buffer(1)[2], 0);
}

#[test]
fn raw_value_buffer_has_one_stride_per_row() {
    let mut col: CharColumn = TextColumn::new(2, 3);
    col.set_value(0, Some(b"AB"));
    let buf = col.raw_value_buffer(2);
    assert_eq!(buf.len(), (3 + 1) * 2);
    assert_eq!(&buf[0..2], b"AB");
    assert_eq!(buf[2], 0);
}

#[test]
fn try_new_reports_pathological_sizes() {
    let r = TextColumn::<u8>::try_new(usize::MAX, usize::MAX);
    let e = r.unwrap_err();
    assert_eq!(e.num_elements, usize::MAX);
    assert_eq!(e.element_size, usize::MAX);

    let r = TextColumn::<u16>::try_new(3, usize::MAX);
    let e = r.unwrap_err();
    assert_eq!(e.num_elements, 3);
    assert_eq!(e.element_size, usize::MAX);

    let r = TextColumn::<u8>::try_new(usize::MAX, 1);
    let e = r.unwrap_err();
    assert_eq!(e.num_elements, usize::MAX);
    assert_eq!(e.element_size, 2);
}

#[test]
fn try_new_accepts_ordinary_sizes() {
    let col = TextColumn::<u8>::try_new(2, 5).unwrap();
    assert_eq!(col.max_len(), 5);
    assert_eq!(col.capacity(), 2);
    assert_eq!(col.value_at(1), Some(&b""[..]));
}

#[test]
fn indicator_classification() {
    assert_eq!(Indicator::from_isize(-1), Indicator::Null);
    assert_eq!(Indicator::from_isize(-4), Indicator::NoTotal);
    assert_eq!(Indicator::from_isize(0), Indicator::Length(0));
    assert_eq!(Indicator::from_isize(7), Indicator::Length(7));
}

#[test]
fn raw_parts_roundtrip() {
    let mut col: CharColumn = TextColumn::new(2, 3);
    col.set_value(0, Some(b"ok"));
    col.set_value(1, None);
    let (max_len, values, indicators) = col.into_raw_parts();
    assert_eq!(max_len, 3);
    assert_eq!(values.len(), 8);
    assert_eq!(indicators, vec![2, -1]);
    let col = TextColumn::<u8>::from_raw_parts(max_len, values, indicators).unwrap();
    assert_eq!(col.value_at(0), Some(&b"ok"[..]));
    assert_eq!(col.value_at(1), None);
}

#[test]
fn raw_parts_rejects_malformed_buffers() {
    // wrong storage length for the stride
    assert!(TextColumn::<u8>::from_raw_parts(3, vec![0u8; 7], vec![0isize; 2]).is_none());
    // a negative indicator word that is neither sentinel
    assert!(TextColumn::<u8>::from_raw_parts(3, vec![0u8; 8], vec![0, -2]).is_none());
}

#[test]
fn wide_append_grows_by_code_units() {
    let mut col: WCharColumn = TextColumn::new(2, 1);
    let abc: [u16; 3] = [97, 98, 99];
    col.append(0, Some(&abc));
    assert!(col.max_len() >= 3);
    assert_eq!(col.value_at(0), Some(&abc[..]));
    // the indicator carries bytes: three code units of two bytes
    assert_eq!(col.indicator_at(0), Indicator::Length(6));
}

#[test]
fn set_mut_with_zero_length_marks_an_empty_value() {
    let mut col: CharColumn = TextColumn::new(1, 4);
    col.set_value(0, Some(b"abcd"));
    let slot = col.set_mut(0, 0);
    assert!(slot.is_empty());
    assert_eq!(col.value_at(0), Some(&b""[..]));
    assert_eq!(col.content_length_at(0), Some(0));
}

#[test]
fn from_raw_parts_rejects_unaddressable_max_len() {
    assert!(TextColumn::<u8>::from_raw_parts(usize::MAX, vec![], vec![]).is_none());
}

#[test]
fn zero_sized_columns_work() {
    let col: CharColumn = TextColumn::new(0, 3);
    assert_eq!(col.capacity(), 0);
    assert_eq!(col.raw_value_buffer(0).len(), 0);
    let mut col: CharColumn = TextColumn::new(2, 0);
    assert_eq!(col.max_len(), 0);
    col.set_value(0, Some(b""));
    assert_eq!(col.value_at(0), Some(&b""[..]));
}
