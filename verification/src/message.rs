//! Typed records of the search engine's structured output stream.
//!
//! One record arrives per line; each is one of five kinds.  A record is
//! immutable once parsed: it is owned exclusively by the `Item` that wraps
//! it and never mutated afterwards.

use crate::data::ArbitraryData;
use vstd::prelude::*;

verus! {

/// A half-open byte range, relative to the byte content of the line a
/// submatch was found in (not to the file).
#[derive(Clone, Copy, Debug, PartialEq, Eq, Structural)]
pub struct ByteRange {
    pub start: usize,
    pub end: usize,
}

/// One matched span within a line: its text and its range in the line.
#[derive(Debug, Clone, PartialEq, Eq)]
pub struct SubMatch {
    pub text: ArbitraryData,
    pub range: ByteRange,
}

/// Ghost image of a [`SubMatch`]: raw bytes of the matched text and the
/// line-relative range.
pub struct SubMatchV {
    pub text: Seq<u8>,
    pub start: int,
    pub end: int,
}

impl View for SubMatch {
    type V = SubMatchV;

    open spec fn view(&self) -> SubMatchV {
        SubMatchV { text: self.text@, start: self.range.start as int, end: self.range.end as int }
    }
}

impl SubMatch {
    /// Builds a submatch over verified text.
    pub fn new_text(s: &str, start: usize, end: usize) -> (r: SubMatch)
        ensures
            r@.text == vstd::utf8::encode_utf8(s@),
            r@.start == start,
            r@.end == end,
            r.text.is_text(),
    {
        SubMatch {
            text: ArbitraryData::from_text(s.to_owned()),
            range: ByteRange { start, end },
        }
    }

    /// An owned copy with the same ghost image.
    pub fn duplicate(&self) -> (r: SubMatch)
        ensures
            r@ == self@,
            r.text.is_text() == self.text.is_text(),
    {
        SubMatch { text: self.text.duplicate(), range: self.range }
    }
}

/// Wall-clock duration as the engine reports it: seconds, nanoseconds, and a
/// human-readable rendering.
#[derive(Debug, Clone)]
pub struct SearchDuration {
    pub secs: usize,
    pub nanos: usize,
    pub human: ArbitraryData,
}

/// Ghost image of a [`SearchDuration`].
pub struct SearchDurationV {
    pub secs: usize,
    pub nanos: usize,
    pub human: Seq<u8>,
}

impl View for SearchDuration {
    type V = SearchDurationV;

    open spec fn view(&self) -> SearchDurationV {
        SearchDurationV { secs: self.secs, nanos: self.nanos, human: self.human@ }
    }
}

/// Search statistics attached to `End` and `Summary` records.
#[derive(Debug, Clone)]
pub struct Stats {
    pub elapsed: SearchDuration,
    pub searches: usize,
    pub searches_with_match: usize,
    pub bytes_searched: usize,
    pub bytes_printed: usize,
    pub matched_lines: usize,
    pub matches: usize,
}

/// Ghost image of a [`Stats`].
pub struct StatsV {
    pub elapsed: SearchDurationV,
    pub searches: usize,
    pub searches_with_match: usize,
    pub bytes_searched: usize,
    pub bytes_printed: usize,
    pub matched_lines: usize,
    pub matches: usize,
}

impl View for Stats {
    type V = StatsV;

    open spec fn view(&self) -> StatsV {
        StatsV {
            elapsed: self.elapsed@,
            searches: self.searches,
            searches_with_match: self.searches_with_match,
            bytes_searched: self.bytes_searched,
            bytes_printed: self.bytes_printed,
            matched_lines: self.matched_lines,
            matches: self.matches,
        }
    }
}

/// One structured record from the engine's output stream.
#[derive(Debug, Clone)]
pub enum RgMessage {
    Begin { path: ArbitraryData },
    End { path: ArbitraryData, binary_offset: Option<usize>, stats: Stats },
    Match {
        path: ArbitraryData,
        lines: ArbitraryData,
        line_number: Option<usize>,
        absolute_offset: usize,
        submatches: Vec<SubMatch>,
    },
    Context { path: ArbitraryData, lines: ArbitraryData, line_number: Option<usize> },
    Summary { elapsed_total: SearchDuration, stats: Stats },
}

/// Ghost image of an [`RgMessage`].
pub enum RgMessageV {
    Begin { path: Seq<u8> },
    End { path: Seq<u8>, binary_offset: Option<usize>, stats: StatsV },
    Match {
        path: Seq<u8>,
        lines: Seq<u8>,
        line_number: Option<usize>,
        absolute_offset: usize,
        submatches: Seq<SubMatchV>,
    },
    Context { path: Seq<u8>, lines: Seq<u8>, line_number: Option<usize> },
    Summary { elapsed_total: SearchDurationV, stats: StatsV },
}

impl View for RgMessage {
    type V = RgMessageV;

    open spec fn view(&self) -> RgMessageV {
        match self {
            RgMessage::Begin { path } => RgMessageV::Begin { path: path@ },
            RgMessage::End { path, binary_offset, stats } => RgMessageV::End {
                path: path@,
                binary_offset: *binary_offset,
                stats: stats@,
            },
            RgMessage::Match { path, lines, line_number, absolute_offset, submatches } => {
                RgMessageV::Match {
                    path: path@,
                    lines: lines@,
                    line_number: *line_number,
                    absolute_offset: *absolute_offset,
                    submatches: submatches@.map_values(|sm: SubMatch| sm@),
                }
            },
            RgMessage::Context { path, lines, line_number } => RgMessageV::Context {
                path: path@,
                lines: lines@,
                line_number: *line_number,
            },
            RgMessage::Summary { elapsed_total, stats } => RgMessageV::Summary {
                elapsed_total: elapsed_total@,
                stats: stats@,
            },
        }
    }
}

/// The kind tag derived from a record's variant.
#[derive(Clone, Copy, Debug, PartialEq, Eq, Structural)]
pub enum RgMessageKind {
    Begin,
    End,
    Match,
    Context,
    Summary,
}

/// The kind of a record's ghost image.
pub open spec fn kind_of(m: RgMessageV) -> RgMessageKind {
    match m {
        RgMessageV::Begin { .. } => RgMessageKind::Begin,
        RgMessageV::End { .. } => RgMessageKind::End,
        RgMessageV::Match { .. } => RgMessageKind::Match,
        RgMessageV::Context { .. } => RgMessageKind::Context,
        RgMessageV::Summary { .. } => RgMessageKind::Summary,
    }
}

/// The path a record names, if its kind carries one (all but `Summary`).
pub open spec fn path_of(m: RgMessageV) -> Option<Seq<u8>> {
    match m {
        RgMessageV::Begin { path } => Some(path),
        RgMessageV::End { path, .. } => Some(path),
        RgMessageV::Match { path, .. } => Some(path),
        RgMessageV::Context { path, .. } => Some(path),
        RgMessageV::Summary { .. } => None,
    }
}

impl RgMessage {
    /// The path field, borrowed, for the kinds that carry one.
    pub fn path_ref(&self) -> (r: Option<&ArbitraryData>)
        ensures
            match r {
                Some(p) => path_of(self@) == Some(p@),
                None => path_of(self@) is None,
            },
    {
        match self {
            RgMessage::Begin { path } => Some(path),
            RgMessage::End { path, .. } => Some(path),
            RgMessage::Match { path, .. } => Some(path),
            RgMessage::Context { path, .. } => Some(path),
            RgMessage::Summary { .. } => None,
        }
    }
}

} // verus!
