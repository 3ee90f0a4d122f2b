//! Tests for the record protocol: eager, total ingestion of the engine's
//! line-delimited output.

use repgrep::message::RgMessage;
use repgrep::protocol::{parse_message, parse_messages};

const BEGIN: &str = r#"{"type":"begin","data":{"path":{"text":"a.txt"}}}"#;
const MATCH: &str = r#"{"type":"match","data":{"path":{"text":"a.txt"},"lines":{"text":"foo\n"},"line_number":1,"absolute_offset":0,"submatches":[{"match":{"text":"foo"},"start":0,"end":3}]}}"#;
const END: &str = r#"{"type":"end","data":{"path":{"text":"a.txt"},"binary_offset":null,"stats":{"elapsed":{"secs":0,"nanos":1,"human":"0s"},"searches":1,"searches_with_match":1,"bytes_searched":4,"bytes_printed":4,"matched_lines":1,"matches":1}}}"#;
const SUMMARY: &str = r#"{"type":"summary","data":{"elapsed_total":{"secs":1,"nanos":500,"human":"1.0s"},"stats":{"elapsed":{"secs":0,"nanos":1,"human":"0s"},"searches":1,"searches_with_match":1,"bytes_searched":4,"bytes_printed":4,"matched_lines":1,"matches":1}}}"#;

fn lines(raws: &[&str]) -> Vec<Vec<u8>> {
    raws.iter().map(|r| r.as_bytes().to_vec()).collect()
}

#[test]
fn parses_a_full_stream_in_order() {
    let msgs = parse_messages(&lines(&[BEGIN, MATCH, END, SUMMARY])).unwrap();
    assert_eq!(msgs.len(), 4);
    assert!(matches!(msgs[0], RgMessage::Begin { .. }));
    assert!(matches!(msgs[1], RgMessage::Match { .. }));
    assert!(matches!(msgs[2], RgMessage::End { .. }));
    assert!(matches!(msgs[3], RgMessage::Summary { .. }));
}

#[test]
fn match_fields_are_decoded() {
    match parse_message(MATCH.as_bytes()).unwrap() {
        RgMessage::Match { path, lines, line_number, absolute_offset, submatches } => {
            assert_eq!(path.to_vec(), b"a.txt".to_vec());
            assert_eq!(lines.to_vec(), b"foo\n".to_vec());
            assert_eq!(line_number, Some(1));
            assert_eq!(absolute_offset, 0);
            assert_eq!(submatches.len(), 1);
            assert_eq!(submatches[0].text.to_vec(), b"foo".to_vec());
            assert_eq!(submatches[0].range.start, 0);
            assert_eq!(submatches[0].range.end, 3);
        },
        _ => panic!("expected a match record"),
    }
}

#[test]
fn summary_duration_is_decoded() {
    match parse_message(SUMMARY.as_bytes()).unwrap() {
        RgMessage::Summary { elapsed_total, stats } => {
            assert_eq!(elapsed_total.secs, 1);
            assert_eq!(elapsed_total.nanos, 500);
            assert_eq!(elapsed_total.human.to_vec(), b"1.0s".to_vec());
            assert_eq!(stats.matches, 1);
            assert_eq!(stats.bytes_searched, 4);
        },
        _ => panic!("expected a summary record"),
    }
}

#[test]
fn invalid_third_line_fails_whole_ingestion() {
    // line 3 does not follow the schema: the error names line 3 and no
    // records at all are produced
    let bad = r#"{"type":"frobnicate","data":{}}"#;
    let err = parse_messages(&lines(&[BEGIN, MATCH, bad, SUMMARY])).unwrap_err();
    assert_eq!(err.line_number, 3);
    // the cause carries the offending line's display text
    assert_eq!(err.cause, bad);
}

#[test]
fn malformed_base64_payload_fails_its_record() {
    let bad = r#"{"type":"begin","data":{"path":{"base64":"!!!"}}}"#;
    assert!(parse_message(bad.as_bytes()).is_none());
    let err = parse_messages(&lines(&[BEGIN, bad])).unwrap_err();
    assert_eq!(err.line_number, 2);
}

#[test]
fn string_escapes_are_decoded() {
    let raw = r#"{"type":"begin","data":{"path":{"text":"a\tb\\c\u0041é"}}}"#;
    match parse_message(raw.as_bytes()).unwrap() {
        RgMessage::Begin { path } => {
            assert_eq!(path.to_vec(), "a\tb\\cA\u{e9}".as_bytes().to_vec());
        },
        _ => panic!("expected a begin record"),
    }
}

#[test]
fn surrogate_escapes_are_rejected() {
    let raw = r#"{"type":"begin","data":{"path":{"text":"\ud800"}}}"#;
    assert!(parse_message(raw.as_bytes()).is_none());
}

#[test]
fn oversized_offsets_are_rejected() {
    let raw = r#"{"type":"match","data":{"path":{"text":"a"},"lines":{"text":"x"},"line_number":1,"absolute_offset":99999999999999999999999999,"submatches":[]}}"#;
    assert!(parse_message(raw.as_bytes()).is_none());
}

#[test]
fn trailing_garbage_is_rejected() {
    let raw = format!("{} ", BEGIN);
    assert!(parse_message(raw.as_bytes()).is_none());
}

#[test]
fn empty_submatch_list_parses() {
    let raw = r#"{"type":"match","data":{"path":{"text":"a"},"lines":{"text":"x"},"line_number":null,"absolute_offset":7,"submatches":[]}}"#;
    match parse_message(raw.as_bytes()).unwrap() {
        RgMessage::Match { line_number, absolute_offset, submatches, .. } => {
            assert_eq!(line_number, None);
            assert_eq!(absolute_offset, 7);
            assert!(submatches.is_empty());
        },
        _ => panic!("expected a match record"),
    }
}
