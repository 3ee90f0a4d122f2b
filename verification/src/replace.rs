//! Byte-exact patching of one file's content.
//!
//! Given a file's original bytes, the accepted file-global spans, and the
//! already-encoded replacement bytes, the patcher sorts the spans, verifies
//! pairwise disjointness (a defensive re-check of an upstream invariant),
//! and builds the rewritten content: every byte outside the accepted spans
//! is copied verbatim, in order, and every accepted span is replaced by the
//! encoded replacement.  Nothing is ever written from here; a caller writes
//! the returned buffer atomically or nothing at all.

use crate::message::ByteRange;
use vstd::multiset::Multiset;
use vstd::prelude::*;

verus! {

/// The accepted spans for one file are not pairwise disjoint (or lie outside
/// the file): the file is left untouched.
#[derive(Clone, Copy, Debug, PartialEq, Eq, Structural)]
pub struct OverlapError;

/// The replacement text has no representation in the file's target codec.
#[derive(Clone, Copy, Debug, PartialEq, Eq, Structural)]
pub struct EncodeError;

/// The file could not be read, or its rewritten content could not be
/// committed.
#[derive(Clone, Copy, Debug, PartialEq, Eq, Structural)]
pub struct FileAccessError;

/// Why one file of a batch was left untouched.  A failure is recorded
/// against its file alone: it never stops the remaining files.
#[derive(Clone, Copy, Debug, PartialEq, Eq, Structural)]
pub enum FileFailure {
    Access(FileAccessError),
    Encode(EncodeError),
    Overlap(OverlapError),
}

/// Lexicographic order on spans: by start, then by end.
pub open spec fn span_le(a: ByteRange, b: ByteRange) -> bool {
    a.start < b.start || (a.start == b.start && a.end <= b.end)
}

/// Consecutive elements are in [`span_le`] order.
pub open spec fn spans_sorted(s: Seq<ByteRange>) -> bool {
    forall|i: int| #![trigger s[i]] 0 <= i < s.len() - 1 ==> span_le(s[i], s[i + 1])
}

/// Every span is well formed and lies within a content of length `len`.
pub open spec fn spans_bounded(s: Seq<ByteRange>, len: int) -> bool {
    forall|i: int| #![trigger s[i]] 0 <= i < s.len() ==> s[i].start <= s[i].end <= len
}

/// Each span ends before the next begins.
pub open spec fn spans_chained(s: Seq<ByteRange>) -> bool {
    forall|i: int| #![trigger s[i]] 0 <= i < s.len() - 1 ==> s[i].end <= s[i + 1].start
}

/// A sorted span sequence is acceptable for patching content of length
/// `len`: in bounds and pairwise disjoint along the chain.
pub open spec fn spans_ok(s: Seq<ByteRange>, len: int) -> bool {
    spans_bounded(s, len) && spans_chained(s)
}

/// Two spans intersect: some byte position lies inside both.
pub open spec fn spans_overlap(a: ByteRange, b: ByteRange) -> bool {
    !(a.end <= b.start || b.end <= a.start)
}

/// Stable insertion of `x` into a sorted span sequence: after every element
/// that is `span_le` it.
pub open spec fn spec_insert(s: Seq<ByteRange>, x: ByteRange) -> Seq<ByteRange>
    decreases s.len(),
{
    if s.len() == 0 {
        seq![x]
    } else if span_le(s.last(), x) {
        s.push(x)
    } else {
        spec_insert(s.drop_last(), x).push(s.last())
    }
}

/// Insertion sort of a span sequence, from the left.
pub open spec fn spec_insort(s: Seq<ByteRange>) -> Seq<ByteRange>
    decreases s.len(),
{
    if s.len() == 0 {
        Seq::empty()
    } else {
        spec_insert(spec_insort(s.drop_last()), s.last())
    }
}

/// The patched content from `cursor` on: the gap up to each span copied
/// verbatim, the span replaced by `repl`, and the tail after the last span
/// copied verbatim.
pub open spec fn spec_patch_from(
    orig: Seq<u8>,
    spans: Seq<ByteRange>,
    repl: Seq<u8>,
    cursor: int,
) -> Seq<u8>
    decreases spans.len(),
{
    if spans.len() == 0 {
        orig.subrange(cursor, orig.len() as int)
    } else {
        orig.subrange(cursor, spans[0].start as int) + repl + spec_patch_from(
            orig,
            spans.drop_first(),
            repl,
            spans[0].end as int,
        )
    }
}

/// The whole patched content: the concatenation of the segments of `orig`
/// between the sorted disjoint spans, with each span replaced by `repl` —
/// every byte outside the spans appears unchanged and in original order.
pub open spec fn spec_patched(orig: Seq<u8>, spans: Seq<ByteRange>, repl: Seq<u8>) -> Seq<u8> {
    spec_patch_from(orig, spans, repl, 0)
}

proof fn lemma_insert_multiset(s: Seq<ByteRange>, x: ByteRange)
    ensures
        spec_insert(s, x).to_multiset() == s.to_multiset().insert(x),
        spec_insert(s, x).len() == s.len() + 1,
    decreases s.len(),
{
    broadcast use vstd::seq_lib::group_to_multiset_ensures;

    if s.len() == 0 {
        assert(seq![x] =~= Seq::<ByteRange>::empty().push(x));
        assert(Seq::<ByteRange>::empty().push(x).to_multiset() =~= Multiset::<
            ByteRange,
        >::empty().insert(x));
        assert(s.to_multiset() =~= Multiset::<ByteRange>::empty());
    } else if span_le(s.last(), x) {
        assert(s.push(x).to_multiset() =~= s.to_multiset().insert(x));
    } else {
        lemma_insert_multiset(s.drop_last(), x);
        let t = spec_insert(s.drop_last(), x);
        assert(t.push(s.last()).to_multiset() =~= t.to_multiset().insert(s.last()));
        assert(s.drop_last().push(s.last()) =~= s);
        assert(s.drop_last().push(s.last()).to_multiset() =~= s.drop_last().to_multiset().insert(
            s.last(),
        ));
        assert(t.to_multiset().insert(s.last()) =~= s.drop_last().to_multiset().insert(x).insert(
            s.last(),
        ));
        assert(s.drop_last().to_multiset().insert(x).insert(s.last())
            =~= s.drop_last().to_multiset().insert(s.last()).insert(x));
    }
}

proof fn lemma_insert_last(s: Seq<ByteRange>, x: ByteRange)
    ensures
        spec_insert(s, x).len() == s.len() + 1,
        spec_insert(s, x).last() == if s.len() > 0 && !span_le(s.last(), x) {
            s.last()
        } else {
            x
        },
    decreases s.len(),
{
    if s.len() > 0 && !span_le(s.last(), x) {
        lemma_insert_last(s.drop_last(), x);
    }
}

proof fn lemma_insert_sorted(s: Seq<ByteRange>, x: ByteRange)
    requires
        spans_sorted(s),
    ensures
        spans_sorted(spec_insert(s, x)),
    decreases s.len(),
{
    if s.len() == 0 {
    } else if span_le(s.last(), x) {
        assert(spans_sorted(s.push(x)));
    } else {
        assert(spans_sorted(s.drop_last()));
        lemma_insert_sorted(s.drop_last(), x);
        lemma_insert_last(s.drop_last(), x);
        let t = spec_insert(s.drop_last(), x);
        // the last element of t is span_le s.last(): it is either x (with
        // !span_le(s.last(), x), so span_le(x, s.last())) or s's second-last.
        assert(spans_sorted(t.push(s.last())));
    }
}

proof fn lemma_insort_props(s: Seq<ByteRange>)
    ensures
        spans_sorted(spec_insort(s)),
        spec_insort(s).to_multiset() == s.to_multiset(),
        spec_insort(s).len() == s.len(),
    decreases s.len(),
{
    broadcast use vstd::seq_lib::group_to_multiset_ensures;

    if s.len() > 0 {
        lemma_insort_props(s.drop_last());
        lemma_insert_sorted(spec_insort(s.drop_last()), s.last());
        lemma_insert_multiset(spec_insort(s.drop_last()), s.last());
        assert(s.drop_last().push(s.last()) =~= s);
        assert(s.drop_last().push(s.last()).to_multiset() =~= s.drop_last().to_multiset().insert(
            s.last(),
        ));
    }
}

/// In a sorted, bounded, chained sequence every earlier span ends before
/// every later span starts.
proof fn lemma_chain_pairwise(s: Seq<ByteRange>, len: int, i: int, j: int)
    requires
        spans_bounded(s, len),
        spans_chained(s),
        0 <= i < j < s.len(),
    ensures
        s[i].end <= s[j].start,
    decreases j - i,
{
    if j > i + 1 {
        lemma_chain_pairwise(s, len, i, j - 1);
    }
}

/// A value counted in a sequence's multiset occurs at some index.
proof fn lemma_multiset_index(s: Seq<ByteRange>, x: ByteRange) -> (i: int)
    requires
        s.to_multiset().count(x) > 0,
    ensures
        0 <= i < s.len() && s[i] == x,
{
    broadcast use vstd::seq_lib::group_to_multiset_ensures;

    assert(s.contains(x));
    choose|i: int| 0 <= i < s.len() && s[i] == x
}

/// Accepted spans among which any two intersect — at whatever positions,
/// equal or not — are rejected: no sorted arrangement of them is
/// acceptable.
pub proof fn lemma_overlapping_spans_rejected(s: Seq<ByteRange>, len: int, a: int, b: int)
    requires
        0 <= a < b < s.len(),
        spans_overlap(s[a], s[b]),
    ensures
        !spans_ok(spec_insort(s), len),
{
    broadcast use vstd::seq_lib::group_to_multiset_ensures;

    let ss = spec_insort(s);
    lemma_insort_props(s);
    if spans_ok(ss, len) {
        if s[a] == s[b] {
            // the value occurs twice, so it occurs at two indices of ss;
            // chaining then forces it to be empty, but an empty span
            // intersects nothing.
            let v = s[a];
            assert(s.remove(a).to_multiset() =~= s.to_multiset().remove(s[a]));
            assert(s.remove(a)[b - 1] == v);
            assert(s.remove(a).contains(v));
            assert(s.remove(a).to_multiset().count(v) > 0);
            assert(s.to_multiset().count(v) >= 2);
            assert(ss.to_multiset().count(v) >= 2);
            let i = lemma_multiset_index(ss, v);
            assert(ss.remove(i).to_multiset() =~= ss.to_multiset().remove(v));
            let j0 = lemma_multiset_index(ss.remove(i), v);
            let j = if j0 < i {
                j0
            } else {
                j0 + 1
            };
            assert(ss[j] == v);
            if i < j {
                lemma_chain_pairwise(ss, len, i, j);
            } else {
                lemma_chain_pairwise(ss, len, j, i);
            }
            assert(v.end <= v.start);
            assert(!spans_overlap(v, v));
        } else {
            let i = lemma_multiset_index(ss, s[a]);
            let j = lemma_multiset_index(ss, s[b]);
            assert(i != j);
            if i < j {
                lemma_chain_pairwise(ss, len, i, j);
            } else {
                lemma_chain_pairwise(ss, len, j, i);
            }
            assert(!spans_overlap(s[a], s[b]));
        }
    }
}

/// Stable insertion of one span into a sorted vector.
#[verifier::loop_isolation(false)]
#[verifier::rlimit(60)]
fn insert_span(v: &mut Vec<ByteRange>, x: ByteRange)
    ensures
        final(v)@ == spec_insert(old(v)@, x),
{
    v.push(x);
    let ghost orig = old(v)@;
    let mut j: usize = v.len() - 1;
    proof {
        assert(orig.take(j as int) =~= orig);
        assert(orig.skip(j as int) =~= Seq::<ByteRange>::empty());
        assert(v@ =~= orig.take(j as int).push(x) + orig.skip(j as int));
        assert(spec_insert(orig.take(j as int), x) + orig.skip(j as int) =~= spec_insert(orig, x));
    }
    loop
        invariant
            j < v@.len(),
            v@.len() == orig.len() + 1,
            v@[j as int] == x,
            v@ == orig.take(j as int).push(x) + orig.skip(j as int),
            spec_insert(orig, x) == spec_insert(orig.take(j as int), x) + orig.skip(j as int),
        decreases j,
    {
        if j == 0 {
            proof {
                assert(orig.take(0) =~= Seq::<ByteRange>::empty());
                assert(spec_insert(orig.take(0int), x) =~= seq![x]);
                assert(v@ =~= spec_insert(orig, x));
            }
            return ;
        }
        let prev = v[j - 1];
        if prev.start < x.start || (prev.start == x.start && prev.end <= x.end) {
            proof {
                assert(orig.take(j as int).last() == prev);
                assert(span_le(prev, x));
                assert(spec_insert(orig.take(j as int), x) == orig.take(j as int).push(x));
                assert(v@ =~= spec_insert(orig, x));
            }
            return ;
        }
        v[j - 1] = x;
        v[j] = prev;
        proof {
            assert(orig.take(j as int).last() == prev);
            assert(orig.take(j as int).drop_last() =~= orig.take(j - 1));
            assert(spec_insert(orig.take(j as int), x) == spec_insert(orig.take(j - 1), x).push(
                prev,
            ));
            assert(spec_insert(orig.take(j - 1), x).push(prev) + orig.skip(j as int)
                =~= spec_insert(orig.take(j - 1), x) + orig.skip(j - 1));
            assert(v@ =~= orig.take(j - 1).push(x) + orig.skip(j - 1));
        }
        j = j - 1;
    }
}

/// The spans sorted ascending by start (then end): an insertion sort.
#[verifier::rlimit(60)]
pub fn sort_spans(spans: &Vec<ByteRange>) -> (r: Vec<ByteRange>)
    ensures
        r@ == spec_insort(spans@),
        spans_sorted(r@),
        r@.to_multiset() == spans@.to_multiset(),
{
    let mut out: Vec<ByteRange> = Vec::new();
    let mut i: usize = 0;
    proof {
        assert(spans@.take(0) =~= Seq::<ByteRange>::empty());
    }
    while i < spans.len()
        invariant
            i <= spans@.len(),
            out@ == spec_insort(spans@.take(i as int)),
        decreases spans@.len() - i,
    {
        insert_span(&mut out, spans[i]);
        proof {
            assert(spans@.take(i + 1).drop_last() =~= spans@.take(i as int));
            assert(spans@.take(i + 1).last() == spans@[i as int]);
        }
        i = i + 1;
    }
    proof {
        assert(spans@.take(spans@.len() as int) =~= spans@);
        lemma_insort_props(spans@);
    }
    out
}

/// Whether a sorted span sequence is in bounds and pairwise disjoint.
#[verifier::rlimit(60)]
pub fn check_spans(spans: &Vec<ByteRange>, len: usize) -> (r: bool)
    ensures
        r == spans_ok(spans@, len as int),
{
    let mut i: usize = 0;
    while i < spans.len()
        invariant
            i <= spans@.len(),
            forall|k: int| #![trigger spans@[k]] 0 <= k < i ==> spans@[k].start <= spans@[k].end
                <= len,
            forall|k: int| 0 <= k < i - 1 ==> spans@[k].end <= spans@[k + 1].start,
        decreases spans@.len() - i,
    {
        let sp = spans[i];
        if !(sp.start <= sp.end && sp.end <= len) {
            return false;
        }
        if i > 0 {
            if spans[i - 1].end > sp.start {
                return false;
            }
        }
        i = i + 1;
    }
    true
}

/// Appends `src[from..to]` to `out`.
#[verifier::rlimit(60)]
fn append_range(out: &mut Vec<u8>, src: &[u8], from: usize, to: usize)
    requires
        from <= to <= src@.len(),
    ensures
        final(out)@ == old(out)@ + src@.subrange(from as int, to as int),
{
    let mut k: usize = from;
    proof {
        assert(old(out)@ + src@.subrange(from as int, from as int) =~= old(out)@);
    }
    while k < to
        invariant
            from <= k <= to <= src@.len(),
            out@ == old(out)@ + src@.subrange(from as int, k as int),
        decreases to - k,
    {
        out.push(src[k]);
        proof {
            assert(old(out)@ + src@.subrange(from as int, k + 1) =~= (old(out)@ + src@.subrange(
                from as int,
                k as int,
            )).push(src@[k as int]));
        }
        k = k + 1;
    }
}

/// Builds the rewritten content for sorted, acceptable spans.
#[verifier::rlimit(60)]
pub fn build_patched(original: &[u8], spans: &Vec<ByteRange>, replacement: &[u8]) -> (out: Vec<u8>)
    requires
        spans_ok(spans@, original@.len() as int),
    ensures
        out@ == spec_patched(original@, spans@, replacement@),
{
    let mut out: Vec<u8> = Vec::new();
    let mut cursor: usize = 0;
    let mut k: usize = 0;
    proof {
        assert(spans@.skip(0) =~= spans@);
    }
    while k < spans.len()
        invariant
            k <= spans@.len(),
            spans_ok(spans@, original@.len() as int),
            cursor <= original@.len(),
            k < spans@.len() ==> cursor <= spans@[k as int].start,
            spec_patched(original@, spans@, replacement@) == out@ + spec_patch_from(
                original@,
                spans@.skip(k as int),
                replacement@,
                cursor as int,
            ),
        decreases spans@.len() - k,
    {
        let sp = spans[k];
        proof {
            assert(spans@.skip(k as int)[0] == spans@[k as int]);
            assert(spans@.skip(k as int).drop_first() =~= spans@.skip(k + 1));
            if k + 1 < spans@.len() {
                assert(spans@[k as int].end <= spans@[k + 1].start);
            }
        }
        append_range(&mut out, original, cursor, sp.start);
        append_range_all(&mut out, replacement);
        cursor = sp.end;
        proof {
            assert(out@ + spec_patch_from(original@, spans@.skip(k + 1), replacement@, cursor as int)
                =~= spec_patched(original@, spans@, replacement@));
        }
        k = k + 1;
    }
    append_range(&mut out, original, cursor, original.len());
    proof {
        assert(spans@.skip(spans@.len() as int).len() == 0);
        assert(out@ =~= spec_patched(original@, spans@, replacement@));
    }
    out
}

/// Appends all of `src` to `out`.
fn append_range_all(out: &mut Vec<u8>, src: &[u8])
    ensures
        final(out)@ == old(out)@ + src@,
{
    append_range(out, src, 0, src.len());
    proof {
        assert(src@.subrange(0, src@.len() as int) =~= src@);
    }
}

/// Patches one file's content: sorts the accepted spans, verifies pairwise
/// disjointness and bounds, and either returns the fully rewritten buffer or
/// fails with [`OverlapError`] having produced nothing.  The segments of the
/// original outside the spans appear in the result verbatim and in order.
pub fn patch_file(original: &[u8], spans: &Vec<ByteRange>, replacement: &[u8]) -> (r: Result<
    Vec<u8>,
    OverlapError,
>)
    ensures
        match r {
            Ok(out) => spans_ok(spec_insort(spans@), original@.len() as int) && out@
                == spec_patched(original@, spec_insort(spans@), replacement@),
            Err(_) => !spans_ok(spec_insort(spans@), original@.len() as int),
        },
{
    let sorted = sort_spans(spans);
    if !check_spans(&sorted, original.len()) {
        return Err(OverlapError);
    }
    Ok(build_patched(original, &sorted, replacement))
}

/// Where a byte of the original that lies outside every span lands in the
/// patched output: shifted by the replacements inserted before it.
proof fn lemma_patch_from_point(
    orig: Seq<u8>,
    spans: Seq<ByteRange>,
    repl: Seq<u8>,
    cursor: int,
    k: int,
) -> (p: int)
    requires
        spans_bounded(spans, orig.len() as int),
        spans_chained(spans),
        0 <= cursor <= orig.len(),
        spans.len() > 0 ==> cursor <= spans[0].start,
        cursor <= k < orig.len(),
        forall|i: int| 0 <= i < spans.len() ==> !((#[trigger] spans[i]).start <= k < spans[i].end),
    ensures
        0 <= p < spec_patch_from(orig, spans, repl, cursor).len(),
        spec_patch_from(orig, spans, repl, cursor)[p] == orig[k],
    decreases spans.len(),
{
    if spans.len() == 0 {
        k - cursor
    } else if k < spans[0].start {
        k - cursor
    } else {
        assert(!(spans[0].start <= k < spans[0].end));
        assert(k >= spans[0].end);
        assert(forall|i: int|
            0 <= i < spans.drop_first().len() ==> (#[trigger] spans.drop_first()[i])
                == spans[i + 1]);
        let p_rec = lemma_patch_from_point(orig, spans.drop_first(), repl, spans[0].end as int, k);
        (spans[0].start - cursor) + repl.len() + p_rec
    }
}

/// Byte exactness, read pointwise: in an accepted patch, every byte of the
/// original that lies outside all the (sorted, disjoint, in-bounds) spans
/// appears unchanged somewhere in the output.
pub proof fn lemma_patched_keeps_outside_bytes(
    orig: Seq<u8>,
    spans: Seq<ByteRange>,
    repl: Seq<u8>,
    k: int,
)
    requires
        spans_ok(spans, orig.len() as int),
        0 <= k < orig.len(),
        forall|i: int| 0 <= i < spans.len() ==> !((#[trigger] spans[i]).start <= k < spans[i].end),
    ensures
        exists|p: int|
            0 <= p < spec_patched(orig, spans, repl).len() && spec_patched(orig, spans, repl)[p]
                == orig[k],
{
    let p = lemma_patch_from_point(orig, spans, repl, 0, k);
    assert(0 <= p < spec_patched(orig, spans, repl).len() && spec_patched(orig, spans, repl)[p]
        == orig[k]);
}

} // verus!
