//! Tests for the result model: kinds, selection flags, offsets, paths, and
//! the display segmentation.

use repgrep::item::{Item, SpanRole, SubItem};
use repgrep::message::{RgMessageKind, SubMatch};
use repgrep::protocol::parse_message;
use std::path::PathBuf;

pub const RG_JSON_BEGIN: &str = r#"{"type":"begin","data":{"path":{"text":"src/model/item.rs"}}}"#;
pub const RG_JSON_MATCH: &str = r#"{"type":"match","data":{"path":{"text":"src/model/item.rs"},"lines":{"text":"    Item::new(rg_msg)\n"},"line_number":197,"absolute_offset":5522,"submatches":[{"match":{"text":"Item"},"start":4,"end":8},{"match":{"text":"rg_msg"},"start":14,"end":20}]}}"#;
pub const RG_JSON_CONTEXT: &str = r#"{"type":"context","data":{"path":{"text":"src/model/item.rs"},"lines":{"text":"  }\n"},"line_number":198}}"#;
pub const RG_JSON_END: &str = r#"{"type":"end","data":{"path":{"text":"src/model/item.rs"},"binary_offset":null,"stats":{"elapsed":{"secs":0,"nanos":97924,"human":"0.000098s"},"searches":1,"searches_with_match":1,"bytes_searched":5956,"bytes_printed":674,"matched_lines":2,"matches":2}}}"#;
pub const RG_JSON_SUMMARY: &str = r#"{"type":"summary","data":{"elapsed_total":{"secs":0,"nanos":13911027,"human":"0.013911s"},"stats":{"elapsed":{"secs":0,"nanos":97924,"human":"0.000098s"},"searches":1,"searches_with_match":1,"bytes_searched":5956,"bytes_printed":674,"matched_lines":2,"matches":2}}}"#;

pub const RG_B64_JSON_BEGIN: &str =
    r#"{"type":"begin","data":{"path":{"base64":"Li9hL2ZvgG8="}}}"#;
pub const RG_B64_JSON_MATCH: &str = r#"{"type":"match","data":{"path":{"base64":"Li9hL2ZvgG8="},"lines":{"base64":"ICAgIIBJdGVtOjqAbmV3KHJnX21zZykK"},"line_number":197,"absolute_offset":5522,"submatches":[{"match":{"text":"Item"},"start":5,"end":9},{"match":{"text":"rg_msg"},"start":16,"end":22}]}}"#;
pub const RG_B64_JSON_CONTEXT: &str = r#"{"type":"context","data":{"path":{"base64":"Li9hL2ZvgG8="},"lines":{"base64":"ICCAfQo="},"line_number":198}}"#;
pub const RG_B64_JSON_END: &str = r#"{"type":"end","data":{"path":{"base64":"Li9hL2ZvgG8="},"binary_offset":null,"stats":{"elapsed":{"secs":0,"nanos":97924,"human":"0.000098s"},"searches":1,"searches_with_match":1,"bytes_searched":5956,"bytes_printed":674,"matched_lines":2,"matches":2}}}"#;

pub fn new_item(raw_json: &str) -> Item {
    Item::new(parse_message(raw_json.as_bytes()).expect("record must parse"))
}

fn spans_of(item: &Item, replacement: Option<&Vec<u8>>) -> Vec<(Vec<u8>, SpanRole)> {
    item.to_spans(replacement)
        .into_iter()
        .map(|sp| (sp.text, sp.role))
        .collect()
}

fn seg(text: &[u8], role: SpanRole) -> (Vec<u8>, SpanRole) {
    (text.to_vec(), role)
}

#[test]
fn item_kind_matches_rg_message_kind() {
    assert_eq!(new_item(RG_JSON_BEGIN).kind, RgMessageKind::Begin);
    assert_eq!(new_item(RG_JSON_MATCH).kind, RgMessageKind::Match);
    assert_eq!(new_item(RG_JSON_CONTEXT).kind, RgMessageKind::Context);
    assert_eq!(new_item(RG_JSON_END).kind, RgMessageKind::End);
    assert_eq!(new_item(RG_JSON_SUMMARY).kind, RgMessageKind::Summary);
}

#[test]
fn only_match_and_begin_are_selectable() {
    assert_eq!(new_item(RG_JSON_BEGIN).is_selectable(), true);
    assert_eq!(new_item(RG_JSON_MATCH).is_selectable(), true);
    assert_eq!(new_item(RG_JSON_CONTEXT).is_selectable(), false);
    assert_eq!(new_item(RG_JSON_END).is_selectable(), false);
    assert_eq!(new_item(RG_JSON_SUMMARY).is_selectable(), false);
}

#[test]
fn match_count() {
    assert_eq!(new_item(RG_JSON_BEGIN).sub_items().len(), 0);
    assert_eq!(new_item(RG_JSON_MATCH).sub_items().len(), 2);
    assert_eq!(new_item(RG_JSON_CONTEXT).sub_items().len(), 0);
    assert_eq!(new_item(RG_JSON_END).sub_items().len(), 0);
    assert_eq!(new_item(RG_JSON_SUMMARY).sub_items().len(), 0);
}

#[test]
fn sub_items() {
    assert_eq!(new_item(RG_JSON_BEGIN).sub_items(), &[]);
    assert_eq!(
        new_item(RG_JSON_MATCH).sub_items(),
        &[
            SubItem::new(SubMatch::new_text("Item", 4, 8)),
            SubItem::new(SubMatch::new_text("rg_msg", 14, 20)),
        ]
    );
    assert_eq!(new_item(RG_JSON_CONTEXT).sub_items(), &[]);
    assert_eq!(new_item(RG_JSON_END).sub_items(), &[]);
    assert_eq!(new_item(RG_JSON_SUMMARY).sub_items(), &[]);
}

#[test]
fn offset() {
    assert_eq!(new_item(RG_JSON_BEGIN).offset(), None);
    assert_eq!(new_item(RG_JSON_MATCH).offset(), Some(5522));
    assert_eq!(new_item(RG_JSON_CONTEXT).offset(), None);
    assert_eq!(new_item(RG_JSON_END).offset(), None);
    assert_eq!(new_item(RG_JSON_SUMMARY).offset(), None);
}

#[test]
fn binary_offset() {
    let item = new_item(
        r#"{"type":"end","data":{"path":{"text":"src/model/item.rs"},"binary_offset":1234,"stats":{"elapsed":{"secs":0,"nanos":97924,"human":"0.000098s"},"searches":1,"searches_with_match":1,"bytes_searched":5956,"bytes_printed":674,"matched_lines":2,"matches":2}}}"#,
    );
    assert_eq!(item.offset(), Some(1234));
}

#[test]
fn path_with_text() {
    let path = PathBuf::from("src/model/item.rs");
    assert_eq!(new_item(RG_JSON_BEGIN).path_buf().as_ref(), Some(&path));
    assert_eq!(new_item(RG_JSON_MATCH).path_buf().as_ref(), Some(&path));
    assert_eq!(new_item(RG_JSON_CONTEXT).path_buf().as_ref(), Some(&path));
    assert_eq!(new_item(RG_JSON_END).path_buf().as_ref(), Some(&path));
    assert_eq!(new_item(RG_JSON_SUMMARY).path_buf().as_ref(), None);
}

#[test]
fn path_with_base64() {
    // the path bytes hold a lone continuation byte, invalid in UTF-8; the
    // exact original bytes survive the base64 round trip, and on platforms
    // whose paths admit arbitrary bytes the surrounding program builds the
    // path value straight from them (the verified core builds path values
    // from text alone)
    let expected = [0x2e, 0x2f, 0x61, 0x2f, 0x66, 0x6f, 0x80, 0x6f];
    for raw in [RG_B64_JSON_BEGIN, RG_B64_JSON_MATCH, RG_B64_JSON_CONTEXT, RG_B64_JSON_END] {
        let item = new_item(raw);
        assert_eq!(item.path().unwrap().to_vec(), expected.to_vec());
    }
    assert_eq!(new_item(RG_JSON_SUMMARY).path().map(|p| p.to_vec()), None);
}

#[test]
fn to_span_with_text() {
    assert_eq!(
        spans_of(&new_item(RG_JSON_BEGIN), None),
        vec![seg(b"src/model/item.rs", SpanRole::Plain)]
    );
    assert_eq!(
        spans_of(&new_item(RG_JSON_MATCH), None),
        vec![
            seg(b"197:", SpanRole::LineNumber),
            seg(b"    ", SpanRole::Plain),
            seg(b"Item", SpanRole::MatchedKept),
            seg(b"::new(", SpanRole::Plain),
            seg(b"rg_msg", SpanRole::MatchedKept),
            seg(b")\n", SpanRole::Plain),
        ]
    );
    assert_eq!(
        spans_of(&new_item(RG_JSON_CONTEXT), None),
        vec![
            seg(b"198:", SpanRole::LineNumber),
            seg(b"  }\n", SpanRole::Plain),
        ]
    );
    assert_eq!(
        spans_of(&new_item(RG_JSON_END), None),
        vec![seg(b"", SpanRole::Plain)]
    );
    assert_eq!(
        spans_of(&new_item(RG_JSON_SUMMARY), None),
        vec![seg(b"Search duration: 0.013911s", SpanRole::Plain)]
    );
}

#[test]
fn to_span_with_text_replacement() {
    let replacement: Vec<u8> = b"foobar".to_vec();
    assert_eq!(
        spans_of(&new_item(RG_JSON_BEGIN), Some(&replacement)),
        vec![seg(b"src/model/item.rs", SpanRole::Plain)]
    );
    assert_eq!(
        spans_of(&new_item(RG_JSON_MATCH), Some(&replacement)),
        vec![
            seg(b"197:", SpanRole::LineNumber),
            seg(b"    ", SpanRole::Plain),
            seg(b"Item", SpanRole::MatchedKept),
            seg(b"foobar", SpanRole::ReplacementPreview),
            seg(b"::new(", SpanRole::Plain),
            seg(b"rg_msg", SpanRole::MatchedKept),
            seg(b"foobar", SpanRole::ReplacementPreview),
            seg(b")\n", SpanRole::Plain),
        ]
    );
    assert_eq!(
        spans_of(&new_item(RG_JSON_CONTEXT), Some(&replacement)),
        vec![
            seg(b"198:", SpanRole::LineNumber),
            seg(b"  }\n", SpanRole::Plain),
        ]
    );
    assert_eq!(
        spans_of(&new_item(RG_JSON_END), Some(&replacement)),
        vec![seg(b"", SpanRole::Plain)]
    );
    assert_eq!(
        spans_of(&new_item(RG_JSON_SUMMARY), Some(&replacement)),
        vec![seg(b"Search duration: 0.013911s", SpanRole::Plain)]
    );
}

#[test]
fn to_span_with_deselected_submatch() {
    let replacement: Vec<u8> = b"foobar".to_vec();
    let mut item = new_item(RG_JSON_MATCH);
    item.set_should_replace(1, false);
    assert_eq!(
        spans_of(&item, Some(&replacement)),
        vec![
            seg(b"197:", SpanRole::LineNumber),
            seg(b"    ", SpanRole::Plain),
            seg(b"Item", SpanRole::MatchedKept),
            seg(b"foobar", SpanRole::ReplacementPreview),
            seg(b"::new(", SpanRole::Plain),
            seg(b"rg_msg", SpanRole::MatchedDropped),
            seg(b")\n", SpanRole::Plain),
        ]
    );
}

#[test]
fn to_span_with_base64_lossy() {
    // raw bytes come through the segmentation untouched; only a display
    // layer would render them lossily
    assert_eq!(
        spans_of(&new_item(RG_B64_JSON_BEGIN), None),
        vec![seg(&[0x2e, 0x2f, 0x61, 0x2f, 0x66, 0x6f, 0x80, 0x6f], SpanRole::Plain)]
    );
    assert_eq!(
        spans_of(&new_item(RG_B64_JSON_END), None),
        vec![seg(b"", SpanRole::Plain)]
    );
    assert_eq!(
        spans_of(&new_item(RG_B64_JSON_MATCH), None),
        vec![
            seg(b"197:", SpanRole::LineNumber),
            seg(b"    \x80", SpanRole::Plain),
            seg(b"Item", SpanRole::MatchedKept),
            seg(b"::\x80new(", SpanRole::Plain),
            seg(b"rg_msg", SpanRole::MatchedKept),
            seg(b")\n", SpanRole::Plain),
        ]
    );
    assert_eq!(
        spans_of(&new_item(RG_B64_JSON_CONTEXT), None),
        vec![
            seg(b"198:", SpanRole::LineNumber),
            seg(b"  \x80}\n", SpanRole::Plain),
        ]
    );
}

#[test]
fn to_span_with_base64_lossy_replacement() {
    let replacement: Vec<u8> = b"foobar".to_vec();
    assert_eq!(
        spans_of(&new_item(RG_B64_JSON_BEGIN), Some(&replacement)),
        vec![seg(&[0x2e, 0x2f, 0x61, 0x2f, 0x66, 0x6f, 0x80, 0x6f], SpanRole::Plain)]
    );
    assert_eq!(
        spans_of(&new_item(RG_B64_JSON_MATCH), Some(&replacement)),
        vec![
            seg(b"197:", SpanRole::LineNumber),
            seg(b"    \x80", SpanRole::Plain),
            seg(b"Item", SpanRole::MatchedKept),
            seg(b"foobar", SpanRole::ReplacementPreview),
            seg(b"::\x80new(", SpanRole::Plain),
            seg(b"rg_msg", SpanRole::MatchedKept),
            seg(b"foobar", SpanRole::ReplacementPreview),
            seg(b")\n", SpanRole::Plain),
        ]
    );
    assert_eq!(
        spans_of(&new_item(RG_B64_JSON_CONTEXT), Some(&replacement)),
        vec![
            seg(b"198:", SpanRole::LineNumber),
            seg(b"  \x80}\n", SpanRole::Plain),
        ]
    );
}

#[test]
fn lossy_text_replaces_invalid_sequences() {
    let item = new_item(RG_B64_JSON_BEGIN);
    assert_eq!(item.path().unwrap().lossy_utf8(), "./a/fo\u{fffd}o");
}

#[test]
fn toggle_flags() {
    let mut item = new_item(RG_JSON_MATCH);
    assert!(item.get_should_replace_all());
    assert_eq!(item.replace_count(), 2);
    item.set_should_replace(0, false);
    assert_eq!(item.get_should_replace(0), false);
    assert_eq!(item.get_should_replace(1), true);
    assert_eq!(item.replace_count(), 1);
    assert!(!item.get_should_replace_all());
    item.set_should_replace_all(true);
    assert!(item.get_should_replace_all());
    assert_eq!(item.replace_count(), 2);
}

#[test]
fn toggle_all_round_trip_restores_default() {
    // toggling everything on, off, then on again equals the fresh default
    let mut item = new_item(RG_JSON_MATCH);
    let fresh = new_item(RG_JSON_MATCH);
    item.set_should_replace_all(true);
    item.set_should_replace_all(false);
    item.set_should_replace_all(true);
    assert!(item.get_should_replace_all());
    assert_eq!(item.sub_items(), fresh.sub_items());
}

#[test]
fn line_numbers() {
    assert_eq!(new_item(RG_JSON_MATCH).line_number(), Some(197));
    assert_eq!(new_item(RG_JSON_CONTEXT).line_number(), Some(198));
    assert_eq!(new_item(RG_JSON_BEGIN).line_number(), None);
}
