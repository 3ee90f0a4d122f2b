//! The replacement request: what to rewrite, built once at confirmation.
//!
//! A request maps each file path (as raw bytes) to the ordered file-global
//! spans of the accepted submatches of that file's `Match` items, and
//! carries the replacement text plus an optional encoding override.  It is
//! consumed by the patching step and then discarded.

use crate::data::bytes_eq;
use crate::item::{count_selected, Item, SubItem};
use crate::message::{path_of, ByteRange, RgMessageKind, RgMessageV};
use crate::replace::OverlapError;
use vstd::prelude::*;

verus! {

/// The file-global spans (as unbounded integers) of the selected submatches
/// in `subs`, for a line that starts at byte `off` of its file.
pub open spec fn sub_gspans(subs: Seq<SubItem>, off: int) -> Seq<(int, int)>
    decreases subs.len(),
{
    if subs.len() == 0 {
        Seq::empty()
    } else {
        sub_gspans(subs.drop_last(), off) + if subs.last().should_replace {
            seq![(off + subs.last().sub_match@.start, off + subs.last().sub_match@.end)]
        } else {
            Seq::empty()
        }
    }
}

/// Every selected span of `subs` stays within the address space.
pub open spec fn sub_gspans_fit(subs: Seq<SubItem>, off: int) -> bool
    decreases subs.len(),
{
    if subs.len() == 0 {
        true
    } else {
        sub_gspans_fit(subs.drop_last(), off) && (subs.last().should_replace ==> off
            + subs.last().sub_match@.start <= usize::MAX && off + subs.last().sub_match@.end
            <= usize::MAX)
    }
}

/// Whether an item contributes spans to the file at path `p`.
pub open spec fn item_for_path(it: Item, p: Seq<u8>) -> bool {
    it.spec_kind() == RgMessageKind::Match && path_of(it.message()@) == Some(p)
}

/// The absolute byte offset of a `Match` item's line within its file.
pub open spec fn item_off(it: Item) -> int {
    match it.message()@ {
        RgMessageV::Match { absolute_offset, .. } => absolute_offset as int,
        _ => 0,
    }
}

/// The ordered file-global spans of all accepted submatches for path `p`,
/// across the items in order.
pub open spec fn spec_gspans(items: Seq<Item>, p: Seq<u8>) -> Seq<(int, int)>
    decreases items.len(),
{
    if items.len() == 0 {
        Seq::empty()
    } else {
        spec_gspans(items.drop_last(), p) + if item_for_path(items.last(), p) {
            sub_gspans(items.last().subs(), item_off(items.last()))
        } else {
            Seq::empty()
        }
    }
}

/// Every accepted span for path `p` stays within the address space.
pub open spec fn gspans_fit(items: Seq<Item>, p: Seq<u8>) -> bool
    decreases items.len(),
{
    if items.len() == 0 {
        true
    } else {
        gspans_fit(items.drop_last(), p) && (item_for_path(items.last(), p)
            ==> sub_gspans_fit(items.last().subs(), item_off(items.last())))
    }
}

/// The distinct paths of the `Match` items with at least one accepted
/// submatch, in first-appearance order.
pub open spec fn spec_paths(items: Seq<Item>) -> Seq<Seq<u8>>
    decreases items.len(),
{
    if items.len() == 0 {
        Seq::empty()
    } else {
        let rest = spec_paths(items.drop_last());
        let last = items.last();
        if last.spec_kind() == RgMessageKind::Match && path_of(last.message()@) is Some
            && count_selected(last.subs()) > 0 && !rest.contains(
            path_of(last.message()@).unwrap(),
        ) {
            rest.push(path_of(last.message()@).unwrap())
        } else {
            rest
        }
    }
}

/// The finalized request: the reviewed items, the replacement text, and an
/// optional encoding override for patch time.
#[derive(Debug)]
pub struct ReplacementCriteria {
    pub items: Vec<Item>,
    pub text: String,
    pub encoding: Option<String>,
}

impl ReplacementCriteria {
    /// Every item is internally consistent.
    pub open spec fn wf(&self) -> bool {
        forall|i: int| 0 <= i < self.items@.len() ==> (#[trigger] self.items@[i]).wf()
    }

    /// Wraps the reviewed items and the replacement text; no override yet.
    pub fn new(items: Vec<Item>, text: String) -> (r: ReplacementCriteria)
        ensures
            r.items@ == items@,
            r.text == text,
            r.encoding is None,
    {
        ReplacementCriteria { items, text, encoding: None }
    }

    /// Records an encoding override to use when encoding the replacement.
    pub fn set_encoding(&mut self, encoding: &str)
        ensures
            final(self).items@ == old(self).items@,
            final(self).text == old(self).text,
            match final(self).encoding {
                Some(e) => e@ == encoding@,
                None => false,
            },
    {
        self.encoding = Some(encoding.to_owned());
    }

    /// The distinct file paths (raw bytes) that have accepted submatches,
    /// in first-appearance order.
    pub fn paths(&self) -> (r: Vec<Vec<u8>>)
        ensures
            r@.map_values(|v: Vec<u8>| v@) == spec_paths(self.items@),
    {
        let mut out: Vec<Vec<u8>> = Vec::new();
        let mut i: usize = 0;
        proof {
            assert(self.items@.take(0) =~= Seq::<Item>::empty());
            assert(out@.map_values(|v: Vec<u8>| v@) =~= spec_paths(self.items@.take(0)));
        }
        while i < self.items.len()
            invariant
                i <= self.items@.len(),
                out@.map_values(|v: Vec<u8>| v@) == spec_paths(self.items@.take(i as int)),
            decreases self.items@.len() - i,
        {
            let ghost pre = out@;
            proof {
                assert(self.items@.take(i + 1).drop_last() =~= self.items@.take(i as int));
                assert(self.items@.take(i + 1).last() == self.items@[i as int]);
            }
            let it = &self.items[i];
            if matches!(it.kind_tag(), RgMessageKind::Match) && it.replace_count() > 0 {
                match it.path() {
                    Some(p) => {
                        let pb = p.to_vec();
                        if !contains_bytes(&out, &pb) {
                            out.push(pb);
                            proof {
                                assert(out@.map_values(|v: Vec<u8>| v@) =~= pre.map_values(
                                    |v: Vec<u8>| v@,
                                ).push(p@));
                            }
                        }
                    },
                    None => {},
                }
            }
            i = i + 1;
        }
        proof {
            assert(self.items@.take(self.items@.len() as int) =~= self.items@);
        }
        out
    }

    /// The ordered file-global spans of the accepted submatches for one
    /// path: each is the item's absolute offset plus the submatch's
    /// line-relative range.  Fails — before any patching — when such a span
    /// leaves the address space: it could not lie within any real file.
    pub fn spans_for_path(&self, path: &[u8]) -> (r: Result<Vec<ByteRange>, OverlapError>)
        requires
            self.wf(),
        ensures
            r is Ok <==> gspans_fit(self.items@, path@),
            match r {
                Ok(v) => v@.map_values(|b: ByteRange| (b.start as int, b.end as int))
                    == spec_gspans(self.items@, path@),
                Err(_) => true,
            },
    {
        let mut out: Vec<ByteRange> = Vec::new();
        let mut fits: bool = true;
        let mut i: usize = 0;
        proof {
            assert(self.items@.take(0) =~= Seq::<Item>::empty());
            assert(out@.map_values(|b: ByteRange| (b.start as int, b.end as int)) =~= spec_gspans(
                self.items@.take(0),
                path@,
            ));
        }
        while i < self.items.len()
            invariant
                self.wf(),
                i <= self.items@.len(),
                fits == gspans_fit(self.items@.take(i as int), path@),
                fits ==> out@.map_values(|b: ByteRange| (b.start as int, b.end as int))
                    == spec_gspans(self.items@.take(i as int), path@),
            decreases self.items@.len() - i,
        {
            proof {
                assert(self.items@.take(i + 1).drop_last() =~= self.items@.take(i as int));
                assert(self.items@.take(i + 1).last() == self.items@[i as int]);
                assert(self.items@[i as int].wf());
            }
            let it = &self.items[i];
            let is_for_path: bool = match it.path() {
                Some(p) => matches!(it.kind_tag(), RgMessageKind::Match) && bytes_eq(
                    p.as_slice(),
                    path,
                ),
                None => false,
            };
            if is_for_path {
                let off = match it.offset() {
                    Some(o) => o,
                    None => 0,
                };
                let subs = it.sub_items();
                let mut j: usize = 0;
                let mut itemfit: bool = true;
                proof {
                    assert(subs@.take(0) =~= Seq::<SubItem>::empty());
                    assert(sub_gspans(subs@.take(0), off as int) =~= Seq::<(int, int)>::empty());
                }
                let ghost pre = out@;
                while j < subs.len()
                    invariant
                        j <= subs@.len(),
                        itemfit == sub_gspans_fit(subs@.take(j as int), off as int),
                        itemfit ==> out@.map_values(|b: ByteRange| (b.start as int, b.end as int))
                            =~= pre.map_values(|b: ByteRange| (b.start as int, b.end as int))
                            + sub_gspans(subs@.take(j as int), off as int),
                    decreases subs@.len() - j,
                {
                    proof {
                        assert(subs@.take(j + 1).drop_last() =~= subs@.take(j as int));
                        assert(subs@.take(j + 1).last() == subs@[j as int]);
                    }
                    let ghost mid = out@;
                    if subs[j].should_replace {
                        let st = off.checked_add(subs[j].sub_match.range.start);
                        let en = off.checked_add(subs[j].sub_match.range.end);
                        match (st, en) {
                            (Some(st), Some(en)) => {
                                if itemfit {
                                    out.push(ByteRange { start: st, end: en });
                                    proof {
                                        assert(out@.map_values(
                                            |b: ByteRange| (b.start as int, b.end as int),
                                        ) =~= mid.map_values(
                                            |b: ByteRange| (b.start as int, b.end as int),
                                        ).push((st as int, en as int)));
                                    }
                                }
                            },
                            _ => {
                                itemfit = false;
                            },
                        }
                    }
                    j = j + 1;
                }
                proof {
                    assert(subs@.take(subs@.len() as int) =~= subs@);
                }
                if !itemfit {
                    fits = false;
                }
            }
            i = i + 1;
        }
        proof {
            assert(self.items@.take(self.items@.len() as int) =~= self.items@);
        }
        if fits {
            Ok(out)
        } else {
            Err(OverlapError)
        }
    }
}

/// Whether `needle` occurs, byte for byte, among the collected paths.
fn contains_bytes(hay: &Vec<Vec<u8>>, needle: &Vec<u8>) -> (r: bool)
    ensures
        r == hay@.map_values(|v: Vec<u8>| v@).contains(needle@),
{
    let mut i: usize = 0;
    while i < hay.len()
        invariant
            i <= hay@.len(),
            forall|j: int| 0 <= j < i ==> hay@[j]@ != needle@,
        decreases hay@.len() - i,
    {
        if bytes_eq(hay[i].as_slice(), needle.as_slice()) {
            proof {
                assert(hay@.map_values(|v: Vec<u8>| v@)[i as int] == needle@);
            }
            return true;
        }
        i = i + 1;
    }
    proof {
        let m = hay@.map_values(|v: Vec<u8>| v@);
        assert forall|j: int| 0 <= j < m.len() implies #[trigger] m[j] != needle@ by {
            assert(m[j] == hay@[j]@);
        }
    }
    false
}

} // verus!
