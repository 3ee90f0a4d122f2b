//! Tests for the replacement engine: byte exactness, disjointness, and the
//! end-to-end scenario from reviewed items to patched bytes.

use repgrep::criteria::ReplacementCriteria;
use repgrep::item::Item;
use repgrep::message::ByteRange;
use repgrep::protocol::parse_message;
use repgrep::replace::{patch_file, OverlapError};

fn br(start: usize, end: usize) -> ByteRange {
    ByteRange { start, end }
}

#[test]
fn patch_replaces_disjoint_ranges_byte_exactly() {
    let original = b"0123456789";
    let spans = vec![br(2, 4), br(7, 8)];
    let out = patch_file(original, &spans, b"XYZ").unwrap();
    assert_eq!(out, b"01XYZ456XYZ89".to_vec());
}

#[test]
fn patch_with_empty_replacement_deletes_ranges() {
    let original = b"hello world";
    let spans = vec![br(5, 6)];
    let out = patch_file(original, &spans, b"").unwrap();
    assert_eq!(out, b"helloworld".to_vec());
}

#[test]
fn patch_sorts_spans_before_applying() {
    let original = b"abcdef";
    let spans = vec![br(4, 5), br(0, 1)];
    let out = patch_file(original, &spans, b"_").unwrap();
    assert_eq!(out, b"_bcd_f".to_vec());
}

#[test]
fn patch_rejects_intersecting_ranges() {
    let original = b"0123456789";
    let spans = vec![br(2, 5), br(4, 7)];
    assert_eq!(patch_file(original, &spans, b"X"), Err(OverlapError));
    // equal, non-empty ranges intersect too
    let spans = vec![br(2, 5), br(2, 5)];
    assert_eq!(patch_file(original, &spans, b"X"), Err(OverlapError));
}

#[test]
fn patch_rejects_out_of_bounds_ranges() {
    let original = b"0123";
    let spans = vec![br(2, 9)];
    assert_eq!(patch_file(original, &spans, b"X"), Err(OverlapError));
}

#[test]
fn patch_accepts_touching_ranges() {
    let original = b"0123456789";
    let spans = vec![br(2, 4), br(4, 6)];
    let out = patch_file(original, &spans, b"-").unwrap();
    assert_eq!(out, b"01--6789".to_vec());
}

#[test]
fn replace_one_of_two_matches_at_offset() {
    // a line at byte 100 of its file reads "foo bar foo\n"; the second
    // match is deselected and the replacement is "baz": only the bytes at
    // offset 100..103 change
    let raw = r#"{"type":"match","data":{"path":{"text":"demo.txt"},"lines":{"text":"foo bar foo\n"},"line_number":1,"absolute_offset":100,"submatches":[{"match":{"text":"foo"},"start":0,"end":3},{"match":{"text":"foo"},"start":8,"end":11}]}}"#;
    let mut item = Item::new(parse_message(raw.as_bytes()).unwrap());
    item.set_should_replace(1, false);

    let criteria = ReplacementCriteria::new(vec![item], String::from("baz"));
    let paths = criteria.paths();
    assert_eq!(paths, vec![b"demo.txt".to_vec()]);

    let spans = criteria.spans_for_path(&paths[0]).unwrap();
    assert_eq!(spans, vec![br(100, 103)]);

    let mut original = vec![b'#'; 100];
    original.extend_from_slice(b"foo bar foo\n");
    original.extend_from_slice(b"tail");
    let out = patch_file(&original, &spans, b"baz").unwrap();

    let mut expected = vec![b'#'; 100];
    expected.extend_from_slice(b"baz bar foo\n");
    expected.extend_from_slice(b"tail");
    assert_eq!(out, expected);
    assert_eq!(&out[100..112], b"baz bar foo\n");
}

#[test]
fn criteria_group_spans_by_path_in_order() {
    let m1 = r#"{"type":"match","data":{"path":{"text":"a.txt"},"lines":{"text":"xx\n"},"line_number":1,"absolute_offset":0,"submatches":[{"match":{"text":"x"},"start":0,"end":1}]}}"#;
    let m2 = r#"{"type":"match","data":{"path":{"text":"b.txt"},"lines":{"text":"yy\n"},"line_number":1,"absolute_offset":0,"submatches":[{"match":{"text":"y"},"start":1,"end":2}]}}"#;
    let m3 = r#"{"type":"match","data":{"path":{"text":"a.txt"},"lines":{"text":"zz\n"},"line_number":2,"absolute_offset":3,"submatches":[{"match":{"text":"z"},"start":0,"end":1}]}}"#;
    let items: Vec<Item> = [m1, m2, m3]
        .iter()
        .map(|raw| Item::new(parse_message(raw.as_bytes()).unwrap()))
        .collect();
    let criteria = ReplacementCriteria::new(items, String::from("w"));
    let paths = criteria.paths();
    assert_eq!(paths, vec![b"a.txt".to_vec(), b"b.txt".to_vec()]);
    assert_eq!(
        criteria.spans_for_path(&paths[0]).unwrap(),
        vec![br(0, 1), br(3, 4)]
    );
    assert_eq!(criteria.spans_for_path(&paths[1]).unwrap(), vec![br(1, 2)]);
}

#[test]
fn deselected_items_contribute_no_paths() {
    let raw = r#"{"type":"match","data":{"path":{"text":"a.txt"},"lines":{"text":"xx\n"},"line_number":1,"absolute_offset":0,"submatches":[{"match":{"text":"x"},"start":0,"end":1}]}}"#;
    let mut item = Item::new(parse_message(raw.as_bytes()).unwrap());
    item.set_should_replace_all(false);
    let criteria = ReplacementCriteria::new(vec![item], String::from("w"));
    assert_eq!(criteria.paths(), Vec::<Vec<u8>>::new());
}

#[test]
fn set_encoding_records_override() {
    let criteria_items: Vec<Item> = Vec::new();
    let mut criteria = ReplacementCriteria::new(criteria_items, String::from("w"));
    assert!(criteria.encoding.is_none());
    criteria.set_encoding("latin1");
    assert_eq!(criteria.encoding.as_deref(), Some("latin1"));
}

#[test]
fn patch_with_no_spans_is_identity() {
    let original = b"unchanged content";
    let spans: Vec<ByteRange> = Vec::new();
    let out = patch_file(original, &spans, b"XYZ").unwrap();
    assert_eq!(out, original.to_vec());
}
