use text_column::column::{CharColumn, TextColumn};
use text_column::view::TextColumnView;

#[test]
fn view_bounds_iteration_to_valid_rows() {
    let mut col: CharColumn = TextColumn::new(5, 4);
    col.set_value(0, Some(b"one"));
    col.set_value(1, None);
    col.set_value(2, Some(b"thre"));
    col.set_value(3, Some(b"four"));
    col.set_value(4, Some(b"five"));
    // only the first two rows were valid in the last row group
    let view = TextColumnView::new(&col, 2);
    assert_eq!(view.len(), 2);
    assert!(!view.is_empty());
    let mut it = view.iter();
    assert_eq!(it.remaining(), 2);
    assert_eq!(it.next_impl(), Some(Some(&b"one"[..])));
    assert_eq!(it.remaining(), 1);
    assert_eq!(it.next_impl(), Some(None));
    assert_eq!(it.remaining(), 0);
    assert_eq!(it.next_impl(), None);
    assert_eq!(it.next_impl(), None);
}

#[test]
fn view_reads_match_the_column() {
    let mut col: CharColumn = TextColumn::new(3, 4);
    col.set_value(0, Some(b"ab"));
    col.set_value(1, None);
    let view = TextColumnView::new(&col, 2);
    assert_eq!(view.get(0), Some(&b"ab"[..]));
    assert_eq!(view.get(1), None);
    assert_eq!(view.content_length_at(0), Some(2));
    assert_eq!(view.content_length_at(1), None);
    assert_eq!(view.max_len(), 4);
    let buf = view.raw_value_buffer();
    assert_eq!(buf.len(), (4 + 1) * 2);
    assert_eq!(&buf[0..2], b"ab");
}

#[test]
fn empty_view_yields_nothing() {
    let col: CharColumn = TextColumn::new(3, 4);
    let view = TextColumnView::new(&col, 0);
    assert!(view.is_empty());
    let mut it = view.iter();
    assert_eq!(it.next_impl(), None);
}

#[test]
fn writer_fills_only_up_to_its_bound() {
    let col: CharColumn = TextColumn::new(3, 4);
    let mut writer = col.writer_n(2);
    let items: [Option<&[u8]>; 3] = [Some(b"ab"), None, Some(b"cd")];
    writer.write(&items);
    let col = writer.into_column();
    assert_eq!(col.value_at(0), Some(&b"ab"[..]));
    assert_eq!(col.value_at(1), None);
    // the third item was beyond the bound and was ignored
    assert_eq!(col.value_at(2), Some(&b""[..]));
}

#[test]
fn writer_with_fewer_items_leaves_rows_alone() {
    let mut col: CharColumn = TextColumn::new(3, 4);
    col.set_value(2, Some(b"keep"));
    let mut writer = col.writer_n(3);
    let items: [Option<&[u8]>; 1] = [Some(b"x")];
    writer.write(&items);
    let col = writer.into_column();
    assert_eq!(col.value_at(0), Some(&b"x"[..]));
    assert_eq!(col.value_at(2), Some(&b"keep"[..]));
}

#[test]
fn writer_passthroughs_match_the_column_operations() {
    let col: CharColumn = TextColumn::new(3, 1);
    let mut writer = col.writer_n(3);
    assert_eq!(writer.max_len(), 1);
    writer.append(0, Some(b"Hi"));
    assert!(writer.max_len() >= 2);
    writer.set_value(1, Some(b"a"));
    writer.append(2, None);
    let col = writer.into_column();
    assert_eq!(col.value_at(0), Some(&b"Hi"[..]));
    assert_eq!(col.value_at(1), Some(&b"a"[..]));
    assert_eq!(col.value_at(2), None);
}

#[test]
fn writer_set_max_len_discards_content() {
    let col: CharColumn = TextColumn::new(2, 4);
    let mut writer = col.writer_n(2);
    writer.set_value(0, Some(b"abcd"));
    writer.set_max_len(6);
    assert_eq!(writer.max_len(), 6);
    let col = writer.into_column();
    assert_eq!(col.value_at(0), None);
    assert_eq!(col.value_at(1), None);
}

#[test]
fn writer_resize_keeps_counted_rows() {
    let col: CharColumn = TextColumn::new(2, 4);
    let mut writer = col.writer_n(2);
    writer.set_value(0, Some(b"ab"));
    writer.resize_max_str(8, 1);
    let col = writer.into_column();
    assert_eq!(col.max_len(), 8);
    assert_eq!(col.value_at(0), Some(&b"ab"[..]));
}

#[test]
fn writer_set_mut_writes_in_place() {
    let col: CharColumn = TextColumn::new(1, 8);
    let mut writer = col.writer_n(1);
    let slot = writer.set_mut(0, 3);
    slot.copy_from_slice(b"abc");
    let col = writer.into_column();
    assert_eq!(col.value_at(0), Some(&b"abc"[..]));
}
