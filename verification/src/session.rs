//! The interactive review session: an explicit finite state machine.
//!
//! The session owns the item list and all selection flags exclusively.  It
//! browses the selectable items, toggles submatch flags, and on confirmation
//! hands out a replacement request.  No transition ever mutates a wrapped
//! record, and a request exists only once the `Accepted` phase is reached —
//! so cancelling at any point leaves every file untouched, because nothing
//! to write was ever produced.

use crate::item::{count_selected, all_set, Item, SubItem};
use crate::message::RgMessageKind;
use vstd::prelude::*;

verus! {

/// Confirmation was requested while no submatch anywhere is selected.
#[derive(Clone, Copy, Debug, PartialEq, Eq, Structural)]
pub struct NothingSelectedError;

/// A discrete input event driving the session.
#[derive(Clone, Copy, Debug, PartialEq, Eq, Structural)]
pub enum SessionEvent {
    NextItem,
    PrevItem,
    NextSubmatch,
    PrevSubmatch,
    ToggleCurrent,
    ToggleAllCurrent,
    RequestConfirm,
    Accept,
    Cancel,
}

/// Where the session stands.  `Accepted` and `Cancelled` are terminal.
#[derive(Clone, Copy, Debug, PartialEq, Eq, Structural)]
pub enum SessionPhase {
    Browsing,
    Confirming,
    Accepted,
    Cancelled,
}

/// An item is a navigation stop-point only if it is `Begin` or `Match`.
pub open spec fn selectable(it: Item) -> bool {
    it.spec_kind() == RgMessageKind::Begin || it.spec_kind() == RgMessageKind::Match
}

/// The first selectable index strictly after `c`, if any.
pub open spec fn sel_after(items: Seq<Item>, c: int) -> Option<int>
    decreases items.len() - c,
{
    if c + 1 >= items.len() {
        None
    } else if selectable(items[c + 1]) {
        Some(c + 1)
    } else {
        sel_after(items, c + 1)
    }
}

/// The last selectable index strictly before `c`, if any.
pub open spec fn sel_before(items: Seq<Item>, c: int) -> Option<int>
    decreases c,
{
    if c <= 0 {
        None
    } else if selectable(items[c - 1]) {
        Some(c - 1)
    } else {
        sel_before(items, c - 1)
    }
}

/// How many submatches are selected across all items.
pub open spec fn total_selected(items: Seq<Item>) -> nat
    decreases items.len(),
{
    if items.len() == 0 {
        0nat
    } else {
        total_selected(items.drop_last()) + count_selected(items.last().subs())
    }
}

/// The records of two item sequences agree element for element (selection
/// flags are free to differ).
pub open spec fn same_messages(a: Seq<Item>, b: Seq<Item>) -> bool {
    a.len() == b.len() && forall|i: int|
        0 <= i < a.len() ==> #[trigger] a[i].message() == b[i].message()
}

/// The interactive state machine over the reviewable items.
pub struct SelectionSession {
    items: Vec<Item>,
    cursor: usize,
    focus: usize,
    phase: SessionPhase,
}

impl SelectionSession {
    /// The reviewed items.
    pub closed spec fn spec_items(&self) -> Seq<Item> {
        self.items@
    }

    /// The index of the item the cursor stands on.
    pub closed spec fn spec_cursor(&self) -> int {
        self.cursor as int
    }

    /// The index of the focused submatch within the current item.
    pub closed spec fn spec_focus(&self) -> int {
        self.focus as int
    }

    /// The phase the machine is in.
    pub closed spec fn spec_phase(&self) -> SessionPhase {
        self.phase
    }

    /// Internal consistency: items well formed, cursor and focus in range.
    pub open spec fn inv(&self) -> bool {
        &&& forall|i: int| 0 <= i < self.spec_items().len() ==> (#[trigger] self.spec_items()[i]).wf()
        &&& self.spec_items().len() == 0 ==> self.spec_cursor() == 0
        &&& self.spec_items().len() > 0 ==> self.spec_cursor() < self.spec_items().len()
        &&& self.spec_focus() == 0 || (self.spec_cursor() < self.spec_items().len()
            && self.spec_focus() < self.spec_items()[self.spec_cursor()].subs().len())
    }

    /// Starts browsing with the cursor on the first selectable item (or on
    /// the first item when none is selectable).
    pub fn new(items: Vec<Item>) -> (r: SelectionSession)
        requires
            forall|i: int| 0 <= i < items@.len() ==> (#[trigger] items@[i]).wf(),
        ensures
            r.inv(),
            r.spec_items() == items@,
            r.spec_phase() == SessionPhase::Browsing,
            r.spec_focus() == 0,
            r.spec_cursor() == if items@.len() > 0 && selectable(items@[0]) {
                0int
            } else {
                match sel_after(items@, 0) {
                    Some(i) => i,
                    None => 0int,
                }
            },
    {
        let mut cursor: usize = 0;
        if items.len() > 0 && !items[0].is_selectable() {
            cursor = match scan_next(&items, 0) {
                Some(i) => i,
                None => 0,
            };
        }
        SelectionSession { items, cursor, focus: 0, phase: SessionPhase::Browsing }
    }

    /// Feeds one event to the machine.  Every transition leaves each item's
    /// record untouched; only flags, the cursor, the focus and the phase
    /// move.  `RequestConfirm` is refused — and nothing changes — exactly
    /// when no submatch at all is selected.
    pub fn transition(&mut self, ev: SessionEvent) -> (r: Result<(), NothingSelectedError>)
        requires
            old(self).inv(),
        ensures
            final(self).inv(),
            same_messages(final(self).spec_items(), old(self).spec_items()),
            r is Err <==> (ev == SessionEvent::RequestConfirm && old(self).spec_phase()
                == SessionPhase::Browsing && total_selected(old(self).spec_items()) == 0),
            old(self).spec_phase() != SessionPhase::Browsing && old(self).spec_phase()
                != SessionPhase::Confirming ==> *final(self) == *old(self),
            final(self).spec_phase() == spec_next_phase(
                old(self).spec_phase(),
                ev,
                total_selected(old(self).spec_items()) > 0,
            ),
            ev != SessionEvent::ToggleCurrent && ev != SessionEvent::ToggleAllCurrent
                ==> final(self).spec_items() == old(self).spec_items(),
            ev == SessionEvent::NextItem && old(self).spec_phase() == SessionPhase::Browsing
                ==> final(self).spec_cursor()
                == (match sel_after(old(self).spec_items(), old(self).spec_cursor()) {
                Some(i) => i,
                None => old(self).spec_cursor(),
            }) && final(self).spec_focus() == 0,
            ev == SessionEvent::PrevItem && old(self).spec_phase() == SessionPhase::Browsing
                ==> final(self).spec_cursor()
                == (match sel_before(old(self).spec_items(), old(self).spec_cursor()) {
                Some(i) => i,
                None => old(self).spec_cursor(),
            }) && final(self).spec_focus() == 0,
            ev == SessionEvent::NextSubmatch && old(self).spec_phase() == SessionPhase::Browsing
                ==> final(self).spec_cursor() == old(self).spec_cursor() && final(self).spec_focus()
                == (if old(self).spec_cursor() < old(self).spec_items().len() && old(
                self,
            ).spec_focus() + 1 < old(self).spec_items()[old(self).spec_cursor()].subs().len() {
                old(self).spec_focus() + 1
            } else {
                old(self).spec_focus()
            }),
            ev == SessionEvent::PrevSubmatch && old(self).spec_phase() == SessionPhase::Browsing
                ==> final(self).spec_cursor() == old(self).spec_cursor() && final(self).spec_focus()
                == (if old(self).spec_focus() > 0 {
                old(self).spec_focus() - 1
            } else {
                0int
            }),
            ev == SessionEvent::ToggleCurrent && old(self).spec_phase() == SessionPhase::Browsing
                ==> spec_toggled_current(*old(self), *final(self)),
            ev == SessionEvent::ToggleAllCurrent && old(self).spec_phase() == SessionPhase::Browsing
                ==> spec_toggled_all_current(*old(self), *final(self)),
    {
        match self.phase {
            SessionPhase::Browsing => self.transition_browsing(ev),
            SessionPhase::Confirming => {
                match ev {
                    SessionEvent::Accept => {
                        self.phase = SessionPhase::Accepted;
                    },
                    SessionEvent::Cancel => {
                        self.phase = SessionPhase::Browsing;
                    },
                    _ => {},
                }
                Ok(())
            },
            _ => Ok(()),
        }
    }

    /// One browsing-phase step.
    fn transition_browsing(&mut self, ev: SessionEvent) -> (r: Result<(), NothingSelectedError>)
        requires
            old(self).inv(),
            old(self).spec_phase() == SessionPhase::Browsing,
        ensures
            final(self).inv(),
            same_messages(final(self).spec_items(), old(self).spec_items()),
            r is Err <==> (ev == SessionEvent::RequestConfirm && total_selected(
                old(self).spec_items(),
            ) == 0),
            final(self).spec_phase() == spec_next_phase(
                SessionPhase::Browsing,
                ev,
                total_selected(old(self).spec_items()) > 0,
            ),
            ev != SessionEvent::ToggleCurrent && ev != SessionEvent::ToggleAllCurrent
                ==> final(self).spec_items() == old(self).spec_items(),
            ev == SessionEvent::NextItem ==> final(self).spec_cursor()
                == (match sel_after(old(self).spec_items(), old(self).spec_cursor()) {
                Some(i) => i,
                None => old(self).spec_cursor(),
            }) && final(self).spec_focus() == 0,
            ev == SessionEvent::PrevItem ==> final(self).spec_cursor()
                == (match sel_before(old(self).spec_items(), old(self).spec_cursor()) {
                Some(i) => i,
                None => old(self).spec_cursor(),
            }) && final(self).spec_focus() == 0,
            ev == SessionEvent::NextSubmatch ==> final(self).spec_cursor() == old(
                self,
            ).spec_cursor() && final(self).spec_focus() == (if old(self).spec_cursor() < old(
                self,
            ).spec_items().len() && old(self).spec_focus() + 1 < old(self).spec_items()[old(
                self,
            ).spec_cursor()].subs().len() {
                old(self).spec_focus() + 1
            } else {
                old(self).spec_focus()
            }),
            ev == SessionEvent::PrevSubmatch ==> final(self).spec_cursor() == old(
                self,
            ).spec_cursor() && final(self).spec_focus() == (if old(self).spec_focus() > 0 {
                old(self).spec_focus() - 1
            } else {
                0int
            }),
            ev == SessionEvent::ToggleCurrent ==> spec_toggled_current(*old(self), *final(self)),
            ev == SessionEvent::ToggleAllCurrent ==> spec_toggled_all_current(
                *old(self),
                *final(self),
            ),
    {
        match ev {
            SessionEvent::NextItem => {
                match scan_next(&self.items, self.cursor) {
                    Some(i) => {
                        self.cursor = i;
                    },
                    None => {},
                }
                self.focus = 0;
                Ok(())
            },
            SessionEvent::PrevItem => {
                match scan_prev(&self.items, self.cursor) {
                    Some(i) => {
                        self.cursor = i;
                    },
                    None => {},
                }
                self.focus = 0;
                Ok(())
            },
            SessionEvent::NextSubmatch => {
                if self.cursor < self.items.len() {
                    let n = self.items[self.cursor].sub_items().len();
                    if self.focus + 1 < n {
                        self.focus = self.focus + 1;
                    }
                }
                Ok(())
            },
            SessionEvent::PrevSubmatch => {
                if self.focus > 0 {
                    self.focus = self.focus - 1;
                }
                Ok(())
            },
            SessionEvent::ToggleCurrent => {
                if self.cursor < self.items.len() {
                    let n = self.items[self.cursor].sub_items().len();
                    if self.focus < n {
                        let cur = self.items[self.cursor].get_should_replace(self.focus);
                        let it = &mut self.items[self.cursor];
                        it.set_should_replace(self.focus, !cur);
                    }
                }
                Ok(())
            },
            SessionEvent::ToggleAllCurrent => {
                if self.cursor < self.items.len() {
                    let all = self.items[self.cursor].get_should_replace_all();
                    let it = &mut self.items[self.cursor];
                    it.set_should_replace_all(!all);
                }
                Ok(())
            },
            SessionEvent::RequestConfirm => {
                if self.any_selected() {
                    self.phase = SessionPhase::Confirming;
                    Ok(())
                } else {
                    Err(NothingSelectedError)
                }
            },
            SessionEvent::Accept => Ok(()),
            SessionEvent::Cancel => {
                self.phase = SessionPhase::Cancelled;
                Ok(())
            },
        }
    }

    /// Whether any submatch across all items is selected.
    pub fn any_selected(&self) -> (r: bool)
        ensures
            r == (total_selected(self.spec_items()) > 0),
    {
        let mut i: usize = 0;
        let mut n: bool = false;
        proof {
            assert(self.spec_items().take(0) =~= Seq::<Item>::empty());
        }
        while i < self.items.len()
            invariant
                i <= self.spec_items().len(),
                n == (total_selected(self.spec_items().take(i as int)) > 0),
            decreases self.spec_items().len() - i,
        {
            proof {
                assert(self.spec_items().take(i + 1).drop_last() =~= self.spec_items().take(
                    i as int,
                ));
                assert(self.spec_items().take(i + 1).last() == self.spec_items()[i as int]);
            }
            if self.items[i].replace_count() > 0 {
                n = true;
            }
            i = i + 1;
        }
        proof {
            assert(self.spec_items().take(self.spec_items().len() as int) =~= self.spec_items());
        }
        n
    }

    /// The index of the item the cursor stands on.
    pub fn cursor(&self) -> (r: usize)
        ensures
            r == self.spec_cursor(),
    {
        self.cursor
    }

    /// The index of the focused submatch within the current item.
    pub fn focus(&self) -> (r: usize)
        ensures
            r == self.spec_focus(),
    {
        self.focus
    }

    /// Where the machine stands.
    pub fn phase(&self) -> (r: SessionPhase)
        ensures
            r == self.spec_phase(),
    {
        self.phase
    }

    /// Hands the items out for request building.  Only an accepted session
    /// gives its items up, so no replacement request can exist unless the
    /// user confirmed and accepted: cancelling produces nothing to write.
    pub fn into_items(self) -> (r: Vec<Item>)
        requires
            self.spec_phase() == SessionPhase::Accepted,
        ensures
            r@ == self.spec_items(),
    {
        self.items
    }

    /// The current item, if there is one.
    pub fn current_item(&self) -> (r: Option<&Item>)
        requires
            self.inv(),
        ensures
            match r {
                Some(it) => self.spec_items().len() > 0 && *it == self.spec_items()[self.spec_cursor()],
                None => self.spec_items().len() == 0,
            },
    {
        if self.items.len() > 0 {
            Some(&self.items[self.cursor])
        } else {
            None
        }
    }
}

/// The phase after one event, given whether anything is selected.
pub open spec fn spec_next_phase(p: SessionPhase, ev: SessionEvent, any: bool) -> SessionPhase {
    match p {
        SessionPhase::Browsing => match ev {
            SessionEvent::RequestConfirm => if any {
                SessionPhase::Confirming
            } else {
                SessionPhase::Browsing
            },
            SessionEvent::Cancel => SessionPhase::Cancelled,
            _ => SessionPhase::Browsing,
        },
        SessionPhase::Confirming => match ev {
            SessionEvent::Accept => SessionPhase::Accepted,
            SessionEvent::Cancel => SessionPhase::Browsing,
            _ => SessionPhase::Confirming,
        },
        _ => p,
    }
}

/// The focused submatch flag of the current item was flipped (when there is
/// one); everything else is unchanged.
pub open spec fn spec_toggled_current(pre: SelectionSession, post: SelectionSession) -> bool {
    let items = pre.spec_items();
    let c = pre.spec_cursor();
    let f = pre.spec_focus();
    &&& post.spec_cursor() == c
    &&& post.spec_focus() == f
    &&& if c < items.len() && f < items[c].subs().len() {
        &&& post.spec_items().len() == items.len()
        &&& (forall|j: int| 0 <= j < items.len() && j != c ==> post.spec_items()[j] == items[j])
        &&& post.spec_items()[c].subs() == items[c].subs().update(
            f,
            SubItem {
                should_replace: !items[c].subs()[f].should_replace,
                ..items[c].subs()[f]
            },
        )
        &&& post.spec_items()[c].message() == items[c].message()
    } else {
        post.spec_items() == items
    }
}

/// Every submatch flag of the current item was set to the complement of
/// "all were selected"; everything else is unchanged.
pub open spec fn spec_toggled_all_current(pre: SelectionSession, post: SelectionSession) -> bool {
    let items = pre.spec_items();
    let c = pre.spec_cursor();
    &&& post.spec_cursor() == c
    &&& post.spec_focus() == pre.spec_focus()
    &&& if c < items.len() {
        &&& post.spec_items().len() == items.len()
        &&& (forall|j: int| 0 <= j < items.len() && j != c ==> post.spec_items()[j] == items[j])
        &&& post.spec_items()[c].subs() == all_set(
            items[c].subs(),
            !crate::item::all_selected(items[c].subs()),
        )
        &&& post.spec_items()[c].message() == items[c].message()
    } else {
        post.spec_items() == items
    }
}

/// The `Accepted` phase is reached only by accepting from confirmation:
/// no cancellation, navigation or toggle can produce it, so a session that
/// was cancelled never gives its items up for a replacement request.
pub proof fn lemma_accepted_only_by_accept(p: SessionPhase, ev: SessionEvent, any: bool)
    ensures
        spec_next_phase(p, ev, any) == SessionPhase::Accepted ==> (p == SessionPhase::Accepted || (
        p == SessionPhase::Confirming && ev == SessionEvent::Accept)),
{
}

/// Skipping unselectable items does not change what comes next.
proof fn lemma_sel_after_skip(items: Seq<Item>, c: int, i: int)
    requires
        c < i <= items.len(),
        forall|k: int| c < k < i ==> !selectable(#[trigger] items[k]),
    ensures
        sel_after(items, c) == sel_after(items, i - 1),
    decreases i - c,
{
    if i - 1 > c {
        lemma_sel_after_skip(items, c, i - 1);
    }
}

/// Skipping unselectable items does not change what came before.
proof fn lemma_sel_before_skip(items: Seq<Item>, c: int, i: int)
    requires
        0 <= i <= c,
        forall|k: int| i <= k < c ==> !selectable(#[trigger] items[k]),
    ensures
        sel_before(items, c) == sel_before(items, i),
    decreases c - i,
{
    if i < c {
        lemma_sel_before_skip(items, c, i + 1);
    }
}

/// The next selectable index strictly after `cursor`.
fn scan_next(items: &Vec<Item>, cursor: usize) -> (r: Option<usize>)
    requires
        cursor <= items@.len(),
    ensures
        match r {
            Some(i) => sel_after(items@, cursor as int) == Some(i as int) && i < items@.len(),
            None => sel_after(items@, cursor as int) is None,
        },
{
    let mut i: usize = cursor;
    while items.len() - i > 1
        invariant
            cursor <= i,
            i <= items@.len(),
            cursor < i ==> i < items@.len(),
            forall|k: int| cursor < k <= i ==> !selectable(#[trigger] items@[k]),
        decreases items@.len() - i,
    {
        if items[i + 1].is_selectable() {
            proof {
                lemma_sel_after_skip(items@, cursor as int, i + 1);
            }
            return Some(i + 1);
        }
        i = i + 1;
    }
    proof {
        if cursor < i {
            lemma_sel_after_skip(items@, cursor as int, i as int + 1);
        }
    }
    None
}

/// The last selectable index strictly before `cursor`.
fn scan_prev(items: &Vec<Item>, cursor: usize) -> (r: Option<usize>)
    requires
        cursor <= items@.len(),
    ensures
        match r {
            Some(i) => sel_before(items@, cursor as int) == Some(i as int) && i < cursor,
            None => sel_before(items@, cursor as int) is None,
        },
{
    let mut i: usize = cursor;
    while i > 0
        invariant
            i <= cursor <= items@.len(),
            forall|k: int| i <= k < cursor ==> !selectable(#[trigger] items@[k]),
        decreases i,
    {
        if items[i - 1].is_selectable() {
            proof {
                lemma_sel_before_skip(items@, cursor as int, i as int);
            }
            return Some(i - 1);
        }
        i = i - 1;
    }
    proof {
        lemma_sel_before_skip(items@, cursor as int, 0);
    }
    None
}

} // verus!
