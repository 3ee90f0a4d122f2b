//! Reviewable, toggleable units derived from records.
//!
//! An `Item` wraps one record and carries a derived kind tag plus one
//! `SubItem` per submatch of a `Match` record.  Toggling a selection flag
//! never mutates the wrapped record or its submatches.

use crate::data::{clone_bytes, pathbuf_of, ArbitraryData};
use crate::message::{kind_of, path_of, RgMessage, RgMessageKind, RgMessageV, SubMatch};
use std::path::PathBuf;
use vstd::prelude::*;
use vstd::utf8::{decode_utf8, valid_utf8};

verus! {

/// Session-local selection state layered over one immutable submatch.
#[derive(Debug, Clone, PartialEq, Eq)]
pub struct SubItem {
    pub sub_match: SubMatch,
    pub should_replace: bool,
}

impl SubItem {
    /// Wraps a submatch; selected for replacement by default.
    pub fn new(sub_match: SubMatch) -> (r: SubItem)
        ensures
            r.sub_match == sub_match,
            r.should_replace,
    {
        SubItem { sub_match, should_replace: true }
    }
}

/// The sequence with every selection flag set to `v`; submatches untouched.
pub open spec fn all_set(s: Seq<SubItem>, v: bool) -> Seq<SubItem> {
    s.map_values(|si: SubItem| SubItem { should_replace: v, ..si })
}

/// Whether every submatch in the sequence is selected.
pub open spec fn all_selected(s: Seq<SubItem>) -> bool {
    forall|i: int| 0 <= i < s.len() ==> s[i].should_replace
}

/// How many submatches in the sequence are selected.
pub open spec fn count_selected(s: Seq<SubItem>) -> nat
    decreases s.len(),
{
    if s.len() == 0 {
        0nat
    } else {
        count_selected(s.drop_last()) + if s.last().should_replace {
            1nat
        } else {
            0nat
        }
    }
}

/// One reviewable unit: a record, its kind tag, and the per-submatch
/// selection flags derived from it.
#[derive(Debug, Clone)]
pub struct Item {
    pub kind: RgMessageKind,
    rg_message: RgMessage,
    sub_items: Vec<SubItem>,
}

impl Item {
    /// The kind tag.
    pub closed spec fn spec_kind(&self) -> RgMessageKind {
        self.kind
    }

    /// The wrapped record.
    pub closed spec fn message(&self) -> RgMessage {
        self.rg_message
    }

    /// The selection states, in submatch order.
    pub closed spec fn subs(&self) -> Seq<SubItem> {
        self.sub_items@
    }

    /// The kind tag agrees with the record, and the selection states mirror
    /// the record's submatches one for one.
    pub open spec fn wf(&self) -> bool {
        &&& self.spec_kind() == kind_of(self.message()@)
        &&& match self.message()@ {
            RgMessageV::Match { submatches, .. } => {
                &&& self.subs().len() == submatches.len()
                &&& forall|i: int|
                    0 <= i < submatches.len() ==> self.subs()[i].sub_match@ == submatches[i]
            },
            _ => self.subs().len() == 0,
        }
    }

    /// Classifies the record and derives one selection flag per submatch,
    /// each defaulting to selected.
    pub fn new(rg_message: RgMessage) -> (r: Item)
        ensures
            r.wf(),
            r.message() == rg_message,
            all_selected(r.subs()),
    {
        let kind = match &rg_message {
            RgMessage::Begin { .. } => RgMessageKind::Begin,
            RgMessage::End { .. } => RgMessageKind::End,
            RgMessage::Match { .. } => RgMessageKind::Match,
            RgMessage::Context { .. } => RgMessageKind::Context,
            RgMessage::Summary { .. } => RgMessageKind::Summary,
        };
        let mut sub_items: Vec<SubItem> = Vec::new();
        match &rg_message {
            RgMessage::Match { submatches, .. } => {
                let mut i: usize = 0;
                while i < submatches.len()
                    invariant
                        i <= submatches.len(),
                        sub_items@.len() == i,
                        forall|j: int|
                            0 <= j < i ==> sub_items@[j].sub_match@ == submatches@[j]@
                                && sub_items@[j].should_replace,
                    decreases submatches.len() - i,
                {
                    sub_items.push(SubItem::new(submatches[i].duplicate()));
                    i = i + 1;
                }
            },
            _ => {},
        }
        let r = Item { kind, rg_message, sub_items };
        proof {
            if r.message()@ is Match {
                assert(match r.message()@ {
                    RgMessageV::Match { submatches, .. } => forall|i: int|
                        0 <= i < submatches.len() ==> r.subs()[i].sub_match@ == submatches[i],
                    _ => true,
                });
            }
        }
        r
    }

    /// The selection flag of submatch `idx`.
    pub fn get_should_replace(&self, idx: usize) -> (r: bool)
        requires
            idx < self.subs().len(),
        ensures
            r == self.subs()[idx as int].should_replace,
    {
        self.sub_items[idx].should_replace
    }

    /// Sets the selection flag of submatch `idx`; the record and every
    /// submatch are untouched.
    pub fn set_should_replace(&mut self, idx: usize, should_replace: bool)
        requires
            idx < old(self).subs().len(),
        ensures
            final(self).subs() == old(self).subs().update(
                idx as int,
                SubItem { should_replace, ..old(self).subs()[idx as int] },
            ),
            final(self).message() == old(self).message(),
            final(self).spec_kind() == old(self).spec_kind(),
            old(self).wf() ==> final(self).wf(),
    {
        self.sub_items[idx].should_replace = should_replace;
    }

    /// Whether every submatch of this item is selected.
    pub fn get_should_replace_all(&self) -> (r: bool)
        ensures
            r == all_selected(self.subs()),
    {
        let mut i: usize = 0;
        while i < self.sub_items.len()
            invariant
                i <= self.subs().len(),
                forall|j: int| 0 <= j < i ==> self.subs()[j].should_replace,
            decreases self.subs().len() - i,
        {
            if !self.sub_items[i].should_replace {
                return false;
            }
            i = i + 1;
        }
        true
    }

    /// Sets every selection flag of this item to `should_replace`; the
    /// record and every submatch are untouched.
    pub fn set_should_replace_all(&mut self, should_replace: bool)
        ensures
            final(self).subs() == all_set(old(self).subs(), should_replace),
            final(self).message() == old(self).message(),
            final(self).spec_kind() == old(self).spec_kind(),
            old(self).wf() ==> final(self).wf(),
    {
        let mut i: usize = 0;
        while i < self.sub_items.len()
            invariant
                i <= self.sub_items@.len(),
                self.sub_items@.len() == old(self).subs().len(),
                self.rg_message == old(self).message(),
                self.kind == old(self).spec_kind(),
                forall|j: int|
                    0 <= j < i ==> self.sub_items@[j] == (SubItem {
                        should_replace,
                        ..old(self).subs()[j]
                    }),
                forall|j: int| i <= j < self.sub_items@.len() ==> self.sub_items@[j] == old(
                    self,
                ).subs()[j],
            decreases self.sub_items@.len() - i,
        {
            self.sub_items[i].should_replace = should_replace;
            i = i + 1;
        }
        proof {
            assert(self.sub_items@ =~= all_set(old(self).subs(), should_replace));
        }
    }

    /// The derived kind tag.
    pub fn kind_tag(&self) -> (r: RgMessageKind)
        ensures
            r == self.spec_kind(),
    {
        self.kind
    }

    /// True only for `Begin` and `Match` items: the navigation stop-points.
    pub fn is_selectable(&self) -> (r: bool)
        ensures
            r == (self.spec_kind() == RgMessageKind::Begin || self.spec_kind() == RgMessageKind::Match),
    {
        matches!(self.kind, RgMessageKind::Begin | RgMessageKind::Match)
    }

    /// The line number of a `Match` or `Context` record.
    pub fn line_number(&self) -> (r: Option<usize>)
        ensures
            r == match self.message()@ {
                RgMessageV::Match { line_number, .. } => line_number,
                RgMessageV::Context { line_number, .. } => line_number,
                _ => None::<usize>,
            },
    {
        match &self.rg_message {
            RgMessage::Context { line_number, .. } => *line_number,
            RgMessage::Match { line_number, .. } => *line_number,
            _ => None,
        }
    }

    /// The byte offset a record carries: a `Match`'s absolute offset within
    /// its file, or an `End`'s binary-data offset if any.
    pub fn offset(&self) -> (r: Option<usize>)
        ensures
            r == match self.message()@ {
                RgMessageV::End { binary_offset, .. } => binary_offset,
                RgMessageV::Match { absolute_offset, .. } => Some(absolute_offset),
                _ => None::<usize>,
            },
    {
        match &self.rg_message {
            RgMessage::End { binary_offset, .. } => *binary_offset,
            RgMessage::Match { absolute_offset, .. } => Some(*absolute_offset),
            _ => None,
        }
    }

    /// How many submatches of this item are selected.
    pub fn replace_count(&self) -> (r: usize)
        ensures
            r == count_selected(self.subs()),
    {
        let mut i: usize = 0;
        let mut n: usize = 0;
        while i < self.sub_items.len()
            invariant
                i <= self.subs().len(),
                n == count_selected(self.subs().take(i as int)),
                n <= i,
            decreases self.subs().len() - i,
        {
            proof {
                assert(self.subs().take(i + 1).drop_last() =~= self.subs().take(i as int));
                assert(self.subs().take(i + 1).last() == self.subs()[i as int]);
            }
            if self.sub_items[i].should_replace {
                n = n + 1;
            }
            i = i + 1;
        }
        proof {
            assert(self.subs().take(self.subs().len() as int) =~= self.subs());
        }
        n
    }

    /// The selection states, borrowed in submatch order.
    pub fn sub_items(&self) -> (r: &[SubItem])
        ensures
            r@ == self.subs(),
    {
        self.sub_items.as_slice()
    }

    /// The path the record names, for every kind but `Summary`.
    pub fn path(&self) -> (r: Option<&ArbitraryData>)
        ensures
            match r {
                Some(p) => path_of(self.message()@) == Some(p@),
                None => path_of(self.message()@) is None,
            },
    {
        self.rg_message.path_ref()
    }

    /// A platform path value built from the record's path bytes read as
    /// text; `None` for `Summary` records and for path bytes that are not
    /// valid UTF-8.  On platforms whose paths admit arbitrary bytes, the
    /// surrounding program builds the path value directly from
    /// [`Self::path`]'s byte-exact payload instead.
    pub fn path_buf(&self) -> (r: Option<PathBuf>)
        ensures
            r is Some <==> (path_of(self.message()@) is Some && valid_utf8(
                path_of(self.message()@).unwrap(),
            )),
            match r {
                Some(p) => p == pathbuf_of(decode_utf8(path_of(self.message()@).unwrap())),
                None => true,
            },
    {
        match self.path() {
            Some(data) => match data.to_path_buf() {
                Ok(p) => Some(p),
                Err(_) => None,
            },
            None => None,
        }
    }
}

/// The role of one display segment.
#[derive(Clone, Copy, Debug, PartialEq, Eq, Structural)]
pub enum SpanRole {
    /// Line content outside any submatch.
    Plain,
    /// A submatch that is selected for replacement.
    MatchedKept,
    /// A submatch that was deselected.
    MatchedDropped,
    /// The replacement text, previewed after a kept submatch.
    ReplacementPreview,
    /// A rendered line number.
    LineNumber,
}

/// One display segment: a run of bytes and the role it plays.  Mapping
/// roles to colours and attributes is the presentation layer's business.
#[derive(Debug, Clone)]
pub struct DisplaySpan {
    pub text: Vec<u8>,
    pub role: SpanRole,
}

/// Ghost image of a [`DisplaySpan`].
pub struct DisplaySpanV {
    pub text: Seq<u8>,
    pub role: SpanRole,
}

impl View for DisplaySpan {
    type V = DisplaySpanV;

    open spec fn view(&self) -> DisplaySpanV {
        DisplaySpanV { text: self.text@, role: self.role }
    }
}

/// The label shown before a summary record's elapsed time.
pub const SUMMARY_LABEL: [u8; 17] = [83, 101, 97, 114, 99, 104, 32, 100, 117, 114, 97, 116, 105, 111, 110, 58, 32];

/// A plain segment over the given bytes.
pub open spec fn plain(text: Seq<u8>) -> DisplaySpanV {
    DisplaySpanV { text, role: SpanRole::Plain }
}

/// The decimal digits of `n`.
pub open spec fn dec_rep(n: int) -> Seq<u8>
    decreases n,
{
    if n < 10 {
        seq![(48 + n) as u8]
    } else {
        dec_rep(n / 10).push((48 + n % 10) as u8)
    }
}

/// The line-number prefix segment, when there is a line number: the decimal
/// digits followed by a colon.
pub open spec fn ln_prefix(line_number: Option<usize>) -> Seq<DisplaySpanV> {
    match line_number {
        Some(n) => seq![
            DisplaySpanV { text: dec_rep(n as int).push(58), role: SpanRole::LineNumber },
        ],
        None => Seq::empty(),
    }
}

/// The submatch ranges are ascending, pairwise disjoint, and within the
/// line's byte content — the protocol invariant the engine guarantees.
pub open spec fn sub_ranges_wf(subs: Seq<SubItem>, len: int) -> bool {
    &&& forall|i: int| #![trigger subs[i]]
        0 <= i < subs.len() ==> subs[i].sub_match@.start <= subs[i].sub_match@.end <= len
    &&& forall|i: int| #![trigger subs[i]]
        0 <= i < subs.len() - 1 ==> subs[i].sub_match@.end <= subs[i + 1].sub_match@.start
}

/// The display segments of a match line from `cursor` on: for each submatch
/// in ascending range order, the leading gap (if non-empty), the matched
/// bytes (kept or dropped by its flag), then — when a replacement is
/// supplied and the submatch is kept — a replacement preview; after the
/// last submatch, the trailing rest of the line (if non-empty).
pub open spec fn spec_match_spans(
    subs: Seq<SubItem>,
    lines: Seq<u8>,
    repl: Option<Seq<u8>>,
    cursor: int,
) -> Seq<DisplaySpanV>
    decreases subs.len(),
{
    if subs.len() == 0 {
        if cursor < lines.len() {
            seq![plain(lines.subrange(cursor, lines.len() as int))]
        } else {
            Seq::empty()
        }
    } else {
        let sm = subs[0];
        let lead: Seq<DisplaySpanV> = if cursor < sm.sub_match@.start {
            seq![plain(lines.subrange(cursor, sm.sub_match@.start))]
        } else {
            Seq::empty()
        };
        let matched = seq![
            DisplaySpanV {
                text: lines.subrange(sm.sub_match@.start, sm.sub_match@.end),
                role: if sm.should_replace {
                    SpanRole::MatchedKept
                } else {
                    SpanRole::MatchedDropped
                },
            },
        ];
        let preview: Seq<DisplaySpanV> = if sm.should_replace && repl is Some {
            seq![DisplaySpanV { text: repl.unwrap(), role: SpanRole::ReplacementPreview }]
        } else {
            Seq::empty()
        };
        lead + matched + preview + spec_match_spans(subs.drop_first(), lines, repl, sm.sub_match@.end)
    }
}

/// The display segments of one item: concatenating the non-inserted
/// segments of a `Match` item gives back exactly the line's bytes.
pub open spec fn spec_item_spans(it: Item, repl: Option<Seq<u8>>) -> Seq<DisplaySpanV> {
    match it.message()@ {
        RgMessageV::Begin { path } => seq![plain(path)],
        RgMessageV::Context { lines, line_number, .. } => ln_prefix(line_number).push(
            plain(lines),
        ),
        RgMessageV::Match { lines, line_number, .. } => ln_prefix(line_number)
            + spec_match_spans(it.subs(), lines, repl, 0),
        RgMessageV::End { .. } => seq![plain(Seq::empty())],
        RgMessageV::Summary { elapsed_total, .. } => seq![
            plain(SUMMARY_LABEL@ + elapsed_total.human),
        ],
    }
}

/// An owned copy of `src[from..to]`.
fn slice_range(src: &[u8], from: usize, to: usize) -> (r: Vec<u8>)
    requires
        from <= to <= src@.len(),
    ensures
        r@ == src@.subrange(from as int, to as int),
{
    let mut r: Vec<u8> = Vec::new();
    let mut k: usize = from;
    while k < to
        invariant
            from <= k <= to <= src@.len(),
            r@ =~= src@.subrange(from as int, k as int),
        decreases to - k,
    {
        r.push(src[k]);
        proof {
            assert(src@.subrange(from as int, k + 1) =~= src@.subrange(from as int, k as int).push(
                src@[k as int],
            ));
        }
        k = k + 1;
    }
    r
}


/// The display segments of a match line's content, in ascending submatch
/// range order.
#[verifier::loop_isolation(false)]
#[verifier::rlimit(100)]
fn match_segments(subs: &Vec<SubItem>, lb: &[u8], replacement: Option<&Vec<u8>>) -> (r: Vec<
    DisplaySpan,
>)
    requires
        sub_ranges_wf(subs@, lb@.len() as int),
    ensures
        r@.map_values(|sp: DisplaySpan| sp@) == spec_match_spans(
            subs@,
            lb@,
            match replacement {
                Some(v) => Some(v@),
                None => None,
            },
            0,
        ),
{
    let ghost replv: Option<Seq<u8>> = match replacement {
        Some(v) => Some(v@),
        None => None,
    };
    let ghost lseq = lb@;
    let mut out: Vec<DisplaySpan> = Vec::new();
    let mut cursor: usize = 0;
    let mut k: usize = 0;
    proof {
        assert(subs@.skip(0) =~= subs@);
        assert(out@.map_values(|sp: DisplaySpan| sp@) =~= Seq::<DisplaySpanV>::empty());
    }
    while k < subs.len()
        invariant
            k <= subs@.len(),
            k < subs@.len() ==> cursor <= subs@[k as int].sub_match@.start,
            k == subs@.len() ==> cursor <= lseq.len(),
            spec_match_spans(subs@, lseq, replv, 0) == out@.map_values(|sp: DisplaySpan| sp@)
                + spec_match_spans(subs@.skip(k as int), lseq, replv, cursor as int),
        decreases subs@.len() - k,
    {
        proof {
            assert(subs@.skip(k as int)[0] == subs@[k as int]);
            assert(subs@.skip(k as int).drop_first() =~= subs@.skip(k + 1));
            if k + 1 < subs@.len() {
                assert(subs@[k as int].sub_match@.end <= subs@[k + 1].sub_match@.start);
            }
        }
        let si = &subs[k];
        let st = si.sub_match.range.start;
        let en = si.sub_match.range.end;
        if cursor < st {
            out.push(DisplaySpan { text: slice_range(lb, cursor, st), role: SpanRole::Plain });
        }
        out.push(
            DisplaySpan {
                text: slice_range(lb, st, en),
                role: if si.should_replace {
                    SpanRole::MatchedKept
                } else {
                    SpanRole::MatchedDropped
                },
            },
        );
        if si.should_replace {
            match replacement {
                Some(rv) => {
                    out.push(
                        DisplaySpan { text: clone_bytes(rv), role: SpanRole::ReplacementPreview },
                    );
                },
                None => {},
            }
        }
        proof {
            assert(spec_match_spans(subs@, lseq, replv, 0) =~= out@.map_values(
                |sp: DisplaySpan| sp@,
            ) + spec_match_spans(subs@.skip(k + 1), lseq, replv, en as int));
        }
        cursor = en;
        k = k + 1;
    }
    if cursor < lb.len() {
        out.push(DisplaySpan { text: slice_range(lb, cursor, lb.len()), role: SpanRole::Plain });
    }
    proof {
        assert(subs@.skip(subs@.len() as int).len() == 0);
        assert(out@.map_values(|sp: DisplaySpan| sp@) =~= spec_match_spans(subs@, lseq, replv, 0));
    }
    out
}

/// The decimal digits of `n`, as bytes.
fn usize_to_dec(n: usize) -> (r: Vec<u8>)
    ensures
        r@ == dec_rep(n as int),
    decreases n,
{
    if n < 10 {
        let mut v: Vec<u8> = Vec::new();
        v.push(48 + (n as u8));
        proof {
            assert(v@ =~= dec_rep(n as int));
        }
        v
    } else {
        let mut v = usize_to_dec(n / 10);
        v.push(48 + ((n % 10) as u8));
        proof {
            assert(v@ =~= dec_rep(n as int));
        }
        v
    }
}

impl Item {
    /// Whether the submatch ranges obey the protocol invariant the
    /// segmentation relies on: ascending, pairwise disjoint, within the
    /// line's byte content.  A boundary that cannot reason about the
    /// engine's guarantee checks here before asking for segments.
    #[verifier::loop_isolation(false)]
    pub fn ranges_ok(&self) -> (r: bool)
        ensures
            r == match self.message()@ {
                RgMessageV::Match { lines, .. } => sub_ranges_wf(self.subs(), lines.len() as int),
                _ => true,
            },
    {
        match &self.rg_message {
            RgMessage::Match { lines, .. } => {
                let len = lines.as_slice().len();
                let mut i: usize = 0;
                while i < self.sub_items.len()
                    invariant
                        i <= self.subs().len(),
                        len == lines@.len(),
                        forall|j: int| #![trigger self.subs()[j]]
                            0 <= j < i ==> self.subs()[j].sub_match@.start
                                <= self.subs()[j].sub_match@.end <= len,
                        forall|j: int| #![trigger self.subs()[j]]
                            0 <= j < i - 1 ==> self.subs()[j].sub_match@.end <= self.subs()[j
                                + 1].sub_match@.start,
                    decreases self.subs().len() - i,
                {
                    let rg = self.sub_items[i].sub_match.range;
                    if !(rg.start <= rg.end && rg.end <= len) {
                        return false;
                    }
                    if i > 0 {
                        let prev = self.sub_items[i - 1].sub_match.range;
                        if prev.end > rg.start {
                            return false;
                        }
                    }
                    i = i + 1;
                }
                true
            },
            _ => true,
        }
    }

    /// The ordered display segments of this item, previewing `replacement`
    /// after each kept submatch when one is supplied.  All styling belongs
    /// to the presentation layer.
    #[verifier::loop_isolation(false)]
    #[verifier::rlimit(100)]
    pub fn to_spans(&self, replacement: Option<&Vec<u8>>) -> (r: Vec<DisplaySpan>)
        requires
            self.wf(),
            match self.message()@ {
                RgMessageV::Match { lines, .. } => sub_ranges_wf(self.subs(), lines.len() as int),
                _ => true,
            },
        ensures
            r@.map_values(|sp: DisplaySpan| sp@) == spec_item_spans(
                *self,
                match replacement {
                    Some(v) => Some(v@),
                    None => None,
                },
            ),
    {
        let ghost replv: Option<Seq<u8>> = match replacement {
            Some(v) => Some(v@),
            None => None,
        };
        let mut out: Vec<DisplaySpan> = Vec::new();
        match &self.rg_message {
            RgMessage::Begin { path } => {
                out.push(DisplaySpan { text: path.to_vec(), role: SpanRole::Plain });
                proof {
                    assert(out@.map_values(|sp: DisplaySpan| sp@) =~= spec_item_spans(
                        *self,
                        replv,
                    ));
                }
            },
            RgMessage::Context { lines, line_number, .. } => {
                match line_number {
                    Some(n) => {
                        let mut digits = usize_to_dec(*n);
                        digits.push(58);
                        out.push(DisplaySpan { text: digits, role: SpanRole::LineNumber });
                    },
                    None => {},
                }
                out.push(DisplaySpan { text: lines.to_vec(), role: SpanRole::Plain });
                proof {
                    assert(out@.map_values(|sp: DisplaySpan| sp@) =~= spec_item_spans(
                        *self,
                        replv,
                    ));
                }
            },
            RgMessage::End { .. } => {
                out.push(DisplaySpan { text: Vec::new(), role: SpanRole::Plain });
                proof {
                    assert(out@[0]@.text =~= Seq::<u8>::empty());
                    assert(out@.map_values(|sp: DisplaySpan| sp@) =~= spec_item_spans(
                        *self,
                        replv,
                    ));
                }
            },
            RgMessage::Summary { elapsed_total, .. } => {
                let mut text = slice_range(SUMMARY_LABEL.as_slice(), 0, 17);
                let mut human = elapsed_total.human.to_vec();
                proof {
                    assert(SUMMARY_LABEL@.subrange(0, 17) =~= SUMMARY_LABEL@);
                }
                text.append(&mut human);
                out.push(DisplaySpan { text, role: SpanRole::Plain });
                proof {
                    assert(out@[0]@.text =~= SUMMARY_LABEL@ + elapsed_total.human@);
                    assert(out@.map_values(|sp: DisplaySpan| sp@) =~= spec_item_spans(
                        *self,
                        replv,
                    ));
                }
            },
            RgMessage::Match { lines, line_number, .. } => {
                match line_number {
                    Some(n) => {
                        let mut digits = usize_to_dec(*n);
                        digits.push(58);
                        out.push(DisplaySpan { text: digits, role: SpanRole::LineNumber });
                    },
                    None => {},
                }
                let mut rest = match_segments(&self.sub_items, lines.as_slice(), replacement);
                proof {
                    assert(out@.map_values(|sp: DisplaySpan| sp@) =~= ln_prefix(*line_number));
                }
                let ghost pre = out@;
                let ghost restv = rest@;
                out.append(&mut rest);
                proof {
                    assert(out@.map_values(|sp: DisplaySpan| sp@) =~= pre.map_values(
                        |sp: DisplaySpan| sp@,
                    ) + restv.map_values(|sp: DisplaySpan| sp@));
                    assert(out@.map_values(|sp: DisplaySpan| sp@) =~= spec_item_spans(
                        *self,
                        replv,
                    ));
                }
            },
        }
        out
    }
}

/// Toggling everything on, then off, then on again lands every flag back on
/// `true` — exactly the state a freshly built item starts in.
pub proof fn lemma_toggle_all_idempotent(s: Seq<SubItem>)
    ensures
        all_set(all_set(all_set(s, true), false), true) == all_set(s, true),
        all_selected(s) ==> all_set(s, true) == s,
{
    assert(all_set(all_set(all_set(s, true), false), true) =~= all_set(s, true));
    if all_selected(s) {
        assert(all_set(s, true) =~= s);
    }
}

} // verus!
