//! Tests for the selection session state machine.

use repgrep::item::Item;
use repgrep::protocol::parse_message;
use repgrep::session::{
    NothingSelectedError, SelectionSession, SessionEvent, SessionPhase,
};

const BEGIN: &str = r#"{"type":"begin","data":{"path":{"text":"a.txt"}}}"#;
const MATCH: &str = r#"{"type":"match","data":{"path":{"text":"a.txt"},"lines":{"text":"foo bar foo\n"},"line_number":1,"absolute_offset":0,"submatches":[{"match":{"text":"foo"},"start":0,"end":3},{"match":{"text":"foo"},"start":8,"end":11}]}}"#;
const CONTEXT: &str = r#"{"type":"context","data":{"path":{"text":"a.txt"},"lines":{"text":"ctx\n"},"line_number":2}}"#;
const END: &str = r#"{"type":"end","data":{"path":{"text":"a.txt"},"binary_offset":null,"stats":{"elapsed":{"secs":0,"nanos":1,"human":"0s"},"searches":1,"searches_with_match":1,"bytes_searched":1,"bytes_printed":1,"matched_lines":1,"matches":1}}}"#;

fn items() -> Vec<Item> {
    [BEGIN, MATCH, CONTEXT, END]
        .iter()
        .map(|raw| Item::new(parse_message(raw.as_bytes()).unwrap()))
        .collect()
}

#[test]
fn navigation_skips_unselectable_items() {
    let mut s = SelectionSession::new(items());
    // starts on the first selectable item (the begin line)
    let mut cur = s.current_item().unwrap();
    assert!(cur.is_selectable());
    // next lands on the match; context and end are never stops
    s.transition(SessionEvent::NextItem).unwrap();
    cur = s.current_item().unwrap();
    assert_eq!(cur.offset(), Some(0));
    // at the last selectable item, next saturates
    s.transition(SessionEvent::NextItem).unwrap();
    assert_eq!(s.current_item().unwrap().offset(), Some(0));
    // and prev returns to the begin line
    s.transition(SessionEvent::PrevItem).unwrap();
    assert!(s.current_item().unwrap().is_selectable());
}

#[test]
fn submatch_focus_saturates_at_both_ends() {
    let mut s = SelectionSession::new(items());
    s.transition(SessionEvent::NextItem).unwrap();
    assert_eq!(s.focus(), 0);
    // the match item has two submatches: forward saturates at the last
    s.transition(SessionEvent::NextSubmatch).unwrap();
    assert_eq!(s.focus(), 1);
    s.transition(SessionEvent::NextSubmatch).unwrap();
    assert_eq!(s.focus(), 1);
    // backward saturates at the first
    s.transition(SessionEvent::PrevSubmatch).unwrap();
    assert_eq!(s.focus(), 0);
    s.transition(SessionEvent::PrevSubmatch).unwrap();
    assert_eq!(s.focus(), 0);
}

#[test]
fn toggling_current_item_flips_flags() {
    let mut s = SelectionSession::new(items());
    s.transition(SessionEvent::NextItem).unwrap();
    s.transition(SessionEvent::NextSubmatch).unwrap();
    s.transition(SessionEvent::ToggleCurrent).unwrap();
    let cur = s.current_item().unwrap();
    assert_eq!(cur.get_should_replace(0), true);
    assert_eq!(cur.get_should_replace(1), false);
}

#[test]
fn confirm_accept_produces_items() {
    let mut s = SelectionSession::new(items());
    assert_eq!(s.phase(), SessionPhase::Browsing);
    s.transition(SessionEvent::RequestConfirm).unwrap();
    assert_eq!(s.phase(), SessionPhase::Confirming);
    s.transition(SessionEvent::Accept).unwrap();
    assert_eq!(s.phase(), SessionPhase::Accepted);
    let items = s.into_items();
    assert_eq!(items.len(), 4);
}

#[test]
fn confirm_with_nothing_selected_is_refused() {
    let mut s = SelectionSession::new(items());
    s.transition(SessionEvent::NextItem).unwrap();
    s.transition(SessionEvent::ToggleAllCurrent).unwrap();
    assert_eq!(
        s.transition(SessionEvent::RequestConfirm),
        Err(NothingSelectedError)
    );
    // still browsing; re-select and confirm goes through
    assert_eq!(s.phase(), SessionPhase::Browsing);
    s.transition(SessionEvent::ToggleAllCurrent).unwrap();
    s.transition(SessionEvent::RequestConfirm).unwrap();
    assert_eq!(s.phase(), SessionPhase::Confirming);
}

#[test]
fn cancel_from_confirming_returns_to_browsing() {
    let mut s = SelectionSession::new(items());
    s.transition(SessionEvent::RequestConfirm).unwrap();
    s.transition(SessionEvent::Cancel).unwrap();
    assert_eq!(s.phase(), SessionPhase::Browsing);
}

#[test]
fn cancellation_leaves_everything_untouched() {
    // drive the session through navigation, toggles and a confirm, then
    // cancel twice: the outcome is Cancelled, no request exists, and the
    // reviewed records are unchanged
    let mut s = SelectionSession::new(items());
    s.transition(SessionEvent::NextItem).unwrap();
    s.transition(SessionEvent::ToggleCurrent).unwrap();
    s.transition(SessionEvent::ToggleCurrent).unwrap();
    s.transition(SessionEvent::RequestConfirm).unwrap();
    s.transition(SessionEvent::Cancel).unwrap();
    assert_eq!(s.phase(), SessionPhase::Browsing);
    s.transition(SessionEvent::Cancel).unwrap();
    assert_eq!(s.phase(), SessionPhase::Cancelled);
    // terminal: further events change nothing
    s.transition(SessionEvent::NextItem).unwrap();
    assert_eq!(s.phase(), SessionPhase::Cancelled);
    // the cursor sits on the match item; its state equals a fresh one's
    let cur = s.current_item().unwrap();
    assert_eq!(cur.sub_items(), Item::new(parse_message(MATCH.as_bytes()).unwrap()).sub_items());
}

#[test]
fn toggle_all_is_idempotent_across_the_session() {
    let mut s = SelectionSession::new(items());
    s.transition(SessionEvent::NextItem).unwrap();
    s.transition(SessionEvent::ToggleAllCurrent).unwrap();
    s.transition(SessionEvent::ToggleAllCurrent).unwrap();
    let cur = s.current_item().unwrap();
    assert!(cur.get_should_replace_all());
    assert_eq!(cur.replace_count(), 2);
}
