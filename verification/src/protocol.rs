//! Parser for the engine's line-delimited structured records.
//!
//! Each line holds one record in the compact form the engine emits: fixed
//! field order, no whitespace between tokens, strings with the usual JSON
//! escapes (`\uXXXX` limited to non-surrogate code points).  Parsing is
//! eager and total: every line must decode into a valid record or the whole
//! ingestion fails, carrying the 1-based number of the first bad line — no
//! partial result exists.
//!
//! Every executable parser below agrees exactly with its spec-level twin,
//! so acceptance and rejection are both pinned down.

use crate::base64::spec_decode;
use crate::data::{lossy_of, ArbitraryData};
use crate::message::{
    RgMessage, RgMessageV, SearchDuration, SearchDurationV, Stats, StatsV, SubMatch, SubMatchV,
    ByteRange,
};
use vstd::prelude::*;

verus! {

/// A line did not decode into a valid record; ingestion stops.  Carries the
/// 1-based number of the offending line and its lossy text for reporting.
#[derive(Debug)]
pub struct ProtocolError {
    pub line_number: usize,
    pub cause: String,
}

/// The record fragment `{"type":"begin","data":{"path":` as bytes.
pub const A_BEGIN: [u8; 31] = [123, 34, 116, 121, 112, 101, 34, 58, 34, 98, 101, 103, 105, 110, 34, 44, 34, 100, 97, 116, 97, 34, 58, 123, 34, 112, 97, 116, 104, 34, 58];

/// The record fragment `{"type":"match","data":{"path":` as bytes.
pub const A_MATCH: [u8; 31] = [123, 34, 116, 121, 112, 101, 34, 58, 34, 109, 97, 116, 99, 104, 34, 44, 34, 100, 97, 116, 97, 34, 58, 123, 34, 112, 97, 116, 104, 34, 58];

/// The record fragment `{"type":"context","data":{"path":` as bytes.
pub const A_CONTEXT: [u8; 33] = [123, 34, 116, 121, 112, 101, 34, 58, 34, 99, 111, 110, 116, 101, 120, 116, 34, 44, 34, 100, 97, 116, 97, 34, 58, 123, 34, 112, 97, 116, 104, 34, 58];

/// The record fragment `{"type":"end","data":{"path":` as bytes.
pub const A_END: [u8; 29] = [123, 34, 116, 121, 112, 101, 34, 58, 34, 101, 110, 100, 34, 44, 34, 100, 97, 116, 97, 34, 58, 123, 34, 112, 97, 116, 104, 34, 58];

/// The record fragment `{"type":"summary","data":{"elapsed_total":` as bytes.
pub const A_SUMMARY: [u8; 42] = [123, 34, 116, 121, 112, 101, 34, 58, 34, 115, 117, 109, 109, 97, 114, 121, 34, 44, 34, 100, 97, 116, 97, 34, 58, 123, 34, 101, 108, 97, 112, 115, 101, 100, 95, 116, 111, 116, 97, 108, 34, 58];

/// The record fragment `,"lines":` as bytes.
pub const F_LINES: [u8; 9] = [44, 34, 108, 105, 110, 101, 115, 34, 58];

/// The record fragment `,"line_number":` as bytes.
pub const F_LINE_NUMBER: [u8; 15] = [44, 34, 108, 105, 110, 101, 95, 110, 117, 109, 98, 101, 114, 34, 58];

/// The record fragment `,"absolute_offset":` as bytes.
pub const F_ABS: [u8; 19] = [44, 34, 97, 98, 115, 111, 108, 117, 116, 101, 95, 111, 102, 102, 115, 101, 116, 34, 58];

/// The record fragment `,"submatches":[` as bytes.
pub const F_SUBS: [u8; 15] = [44, 34, 115, 117, 98, 109, 97, 116, 99, 104, 101, 115, 34, 58, 91];

/// The record fragment `{"match":` as bytes.
pub const SM_OPEN: [u8; 9] = [123, 34, 109, 97, 116, 99, 104, 34, 58];

/// The record fragment `,"start":` as bytes.
pub const F_START: [u8; 9] = [44, 34, 115, 116, 97, 114, 116, 34, 58];

/// The record fragment `,"end":` as bytes.
pub const F_END: [u8; 7] = [44, 34, 101, 110, 100, 34, 58];

/// The record fragment `,"binary_offset":` as bytes.
pub const F_BINOFF: [u8; 17] = [44, 34, 98, 105, 110, 97, 114, 121, 95, 111, 102, 102, 115, 101, 116, 34, 58];

/// The record fragment `,"stats":` as bytes.
pub const F_STATS: [u8; 9] = [44, 34, 115, 116, 97, 116, 115, 34, 58];

/// The record fragment `{"secs":` as bytes.
pub const D_OPEN: [u8; 8] = [123, 34, 115, 101, 99, 115, 34, 58];

/// The record fragment `,"nanos":` as bytes.
pub const D_NANOS: [u8; 9] = [44, 34, 110, 97, 110, 111, 115, 34, 58];

/// The record fragment `,"human":` as bytes.
pub const D_HUMAN: [u8; 9] = [44, 34, 104, 117, 109, 97, 110, 34, 58];

/// The record fragment `{"elapsed":` as bytes.
pub const ST_OPEN: [u8; 11] = [123, 34, 101, 108, 97, 112, 115, 101, 100, 34, 58];

/// The record fragment `,"searches":` as bytes.
pub const ST_SEARCHES: [u8; 12] = [44, 34, 115, 101, 97, 114, 99, 104, 101, 115, 34, 58];

/// The record fragment `,"searches_with_match":` as bytes.
pub const ST_SWM: [u8; 23] = [44, 34, 115, 101, 97, 114, 99, 104, 101, 115, 95, 119, 105, 116, 104, 95, 109, 97, 116, 99, 104, 34, 58];

/// The record fragment `,"bytes_searched":` as bytes.
pub const ST_BS: [u8; 18] = [44, 34, 98, 121, 116, 101, 115, 95, 115, 101, 97, 114, 99, 104, 101, 100, 34, 58];

/// The record fragment `,"bytes_printed":` as bytes.
pub const ST_BP: [u8; 17] = [44, 34, 98, 121, 116, 101, 115, 95, 112, 114, 105, 110, 116, 101, 100, 34, 58];

/// The record fragment `,"matched_lines":` as bytes.
pub const ST_ML: [u8; 17] = [44, 34, 109, 97, 116, 99, 104, 101, 100, 95, 108, 105, 110, 101, 115, 34, 58];

/// The record fragment `,"matches":` as bytes.
pub const ST_M: [u8; 11] = [44, 34, 109, 97, 116, 99, 104, 101, 115, 34, 58];

/// The record fragment `{"text":` as bytes.
pub const T_TEXT: [u8; 8] = [123, 34, 116, 101, 120, 116, 34, 58];

/// The record fragment `{"base64":` as bytes.
pub const T_B64: [u8; 10] = [123, 34, 98, 97, 115, 101, 54, 52, 34, 58];

/// The record fragment `null` as bytes.
pub const NULL_LIT: [u8; 4] = [110, 117, 108, 108];

/// The record fragment `}}` as bytes.
pub const CLOSE2: [u8; 2] = [125, 125];

/// The record fragment `}` as bytes.
pub const CLOSE1: [u8; 1] = [125];

/// The record fragment `,` as bytes.
pub const COMMA: [u8; 1] = [44];

/// The record fragment `]` as bytes.
pub const RBRACK: [u8; 1] = [93];

/// A literal fragment at position `i`: the position just past it, or `None`.
pub open spec fn sp_lit(s: Seq<u8>, i: int, lit: Seq<u8>) -> Option<int> {
    if 0 <= i && i + lit.len() <= s.len() && s.subrange(i, i + lit.len() as int) == lit {
        Some(i + lit.len() as int)
    } else {
        None
    }
}

/// Executable twin of [`sp_lit`].
#[verifier::loop_isolation(false)]
fn p_lit(s: &[u8], i: usize, lit: &[u8]) -> (r: Option<usize>)
    ensures
        match r {
            Some(j) => sp_lit(s@, i as int, lit@) == Some(j as int),
            None => sp_lit(s@, i as int, lit@) is None,
        },
{
    if i > s.len() || lit.len() > s.len() - i {
        return None;
    }
    let mut k: usize = 0;
    while k < lit.len()
        invariant
            i + lit@.len() <= s@.len(),
            k <= lit@.len(),
            forall|t: int| 0 <= t < k ==> s@[i + t] == lit@[t],
        decreases lit@.len() - k,
    {
        proof {
            assert(i + k < s@.len());
        }
        if s[i + k] != lit[k] {
            proof {
                assert(s@.subrange(i as int, i + lit@.len())[k as int] == s@[i + k]);
            }
            return None;
        }
        k = k + 1;
    }
    proof {
        assert(s@.subrange(i as int, i + lit@.len()) =~= lit@);
    }
    Some(i + lit.len())
}

/// Whether `c` is an ASCII decimal digit.
pub open spec fn is_digit(c: u8) -> bool {
    48 <= c <= 57
}

/// Digits from position `i` folded onto `acc`; fails past `usize::MAX`.
pub open spec fn sp_uint_loop(s: Seq<u8>, i: int, acc: int) -> Option<(int, int)>
    decreases s.len() - i,
{
    if 0 <= i < s.len() && is_digit(s[i]) {
        let acc2 = acc * 10 + (s[i] - 48);
        if acc2 > usize::MAX {
            None
        } else {
            sp_uint_loop(s, i + 1, acc2)
        }
    } else {
        Some((acc, i))
    }
}

/// An unsigned JSON integer at position `i`: no leading zeros, no sign, must
/// fit in `usize`.
pub open spec fn sp_uint(s: Seq<u8>, i: int) -> Option<(int, int)> {
    if 0 <= i < s.len() && is_digit(s[i]) {
        if s[i] == 48 {
            if i + 1 < s.len() && is_digit(s[i + 1]) {
                None
            } else {
                Some((0, i + 1))
            }
        } else {
            sp_uint_loop(s, i, 0)
        }
    } else {
        None
    }
}

/// Executable twin of [`sp_uint`].
#[verifier::loop_isolation(false)]
fn p_uint(s: &[u8], i: usize) -> (r: Option<(usize, usize)>)
    ensures
        match r {
            Some((v, j)) => sp_uint(s@, i as int) == Some((v as int, j as int)),
            None => sp_uint(s@, i as int) is None,
        },
{
    if i >= s.len() || !(48 <= s[i] && s[i] <= 57) {
        return None;
    }
    if s[i] == 48 {
        if i + 1 < s.len() && 48 <= s[i + 1] && s[i + 1] <= 57 {
            return None;
        }
        return Some((0, i + 1));
    }
    let mut acc: usize = 0;
    let mut j: usize = i;
    while j < s.len() && 48 <= s[j] && s[j] <= 57
        invariant
            i <= j <= s@.len(),
            sp_uint_loop(s@, i as int, 0) == sp_uint_loop(s@, j as int, acc as int),
        decreases s@.len() - j,
    {
        let d = s[j] - 48;
        acc = match acc.checked_mul(10) {
            Some(x) => match x.checked_add(d as usize) {
                Some(y) => y,
                None => {
                    proof {
                        assert(sp_uint_loop(s@, j as int, acc as int) is None);
                    }
                    return None;
                },
            },
            None => {
                proof {
                    assert(acc * 10 + d >= acc * 10 > usize::MAX);
                    assert(sp_uint_loop(s@, j as int, acc as int) is None);
                }
                return None;
            },
        };
        j = j + 1;
    }
    Some((acc, j))
}

/// `null` or an unsigned integer: an optional count.
pub open spec fn sp_opt_uint(s: Seq<u8>, i: int) -> Option<(Option<usize>, int)> {
    match sp_lit(s, i, NULL_LIT@) {
        Some(j) => Some((None, j)),
        None => match sp_uint(s, i) {
            Some((v, j)) => Some((Some(v as usize), j)),
            None => None,
        },
    }
}

/// Executable twin of [`sp_opt_uint`].
fn p_opt_uint(s: &[u8], i: usize) -> (r: Option<(Option<usize>, usize)>)
    ensures
        match r {
            Some((v, j)) => sp_opt_uint(s@, i as int) == Some((v, j as int)),
            None => sp_opt_uint(s@, i as int) is None,
        },
{
    match p_lit(s, i, &NULL_LIT) {
        Some(j) => Some((None, j)),
        None => match p_uint(s, i) {
            Some((v, j)) => Some((Some(v), j)),
            None => None,
        },
    }
}

/// The byte value of a one-character escape (`\"` `\\` `\/` `\b` `\f`
/// `\n` `\r` `\t`), if `c` is one.
pub open spec fn esc_val(c: u8) -> Option<u8> {
    if c == 34 {
        Some(34u8)
    } else if c == 92 {
        Some(92u8)
    } else if c == 47 {
        Some(47u8)
    } else if c == 98 {
        Some(8u8)
    } else if c == 102 {
        Some(12u8)
    } else if c == 110 {
        Some(10u8)
    } else if c == 114 {
        Some(13u8)
    } else if c == 116 {
        Some(9u8)
    } else {
        None
    }
}

/// The value of a hexadecimal digit, if `c` is one.
pub open spec fn hex_val(c: u8) -> Option<u8> {
    if 48 <= c && c <= 57 {
        Some((c - 48) as u8)
    } else if 97 <= c && c <= 102 {
        Some((c - 87) as u8)
    } else if 65 <= c && c <= 70 {
        Some((c - 55) as u8)
    } else {
        None
    }
}

/// The UTF-8 bytes of a scalar below 0x10000 (one to three bytes).
pub open spec fn utf8_of_scalar(code: int) -> Seq<u8> {
    if code < 0x80 {
        seq![code as u8]
    } else if code < 0x800 {
        seq![(0xC0 + code / 64) as u8, (0x80 + code % 64) as u8]
    } else {
        seq![
            (0xE0 + code / 4096) as u8,
            (0x80 + (code / 64) % 64) as u8,
            (0x80 + code % 64) as u8,
        ]
    }
}

/// The decoded content of a string body from position `i` up to its closing
/// quote, and the position just past that quote.  `None` on an unterminated
/// string, a bad escape, a surrogate `\uXXXX`, or a raw control byte.
pub open spec fn sp_strbody(s: Seq<u8>, i: int) -> Option<(Seq<u8>, int)>
    decreases s.len() - i,
{
    if !(0 <= i < s.len()) {
        None
    } else if s[i] == 34 {
        Some((Seq::empty(), i + 1))
    } else if s[i] == 92 {
        if i + 1 >= s.len() {
            None
        } else if s[i + 1] == 117 {
            if i + 6 > s.len() {
                None
            } else {
                match (hex_val(s[i + 2]), hex_val(s[i + 3]), hex_val(s[i + 4]), hex_val(s[i + 5])) {
                    (Some(h0), Some(h1), Some(h2), Some(h3)) => {
                        let code = h0 * 4096 + h1 * 256 + h2 * 16 + h3;
                        if 0xD800 <= code < 0xE000 {
                            None
                        } else {
                            match sp_strbody(s, i + 6) {
                                Some((rest, e)) => Some((utf8_of_scalar(code as int) + rest, e)),
                                None => None,
                            }
                        }
                    },
                    _ => None,
                }
            }
        } else {
            match esc_val(s[i + 1]) {
                Some(v) => match sp_strbody(s, i + 2) {
                    Some((rest, e)) => Some((seq![v] + rest, e)),
                    None => None,
                },
                None => None,
            }
        }
    } else if s[i] < 32 {
        None
    } else {
        match sp_strbody(s, i + 1) {
            Some((rest, e)) => Some((seq![s[i]] + rest, e)),
            None => None,
        }
    }
}

/// A quoted string at position `i`: its decoded bytes and the position just
/// past the closing quote.
pub open spec fn sp_string(s: Seq<u8>, i: int) -> Option<(Seq<u8>, int)> {
    if 0 <= i < s.len() && s[i] == 34 {
        sp_strbody(s, i + 1)
    } else {
        None
    }
}

/// Executable twin of [`esc_val`].
fn p_esc(c: u8) -> (r: Option<u8>)
    ensures
        r == esc_val(c),
{
    if c == 34 {
        Some(34)
    } else if c == 92 {
        Some(92)
    } else if c == 47 {
        Some(47)
    } else if c == 98 {
        Some(8)
    } else if c == 102 {
        Some(12)
    } else if c == 110 {
        Some(10)
    } else if c == 114 {
        Some(13)
    } else if c == 116 {
        Some(9)
    } else {
        None
    }
}

/// Executable twin of [`hex_val`].
fn p_hex(c: u8) -> (r: Option<u8>)
    ensures
        r == hex_val(c),
{
    if 48 <= c && c <= 57 {
        Some(c - 48)
    } else if 97 <= c && c <= 102 {
        Some(c - 87)
    } else if 65 <= c && c <= 70 {
        Some(c - 55)
    } else {
        None
    }
}

/// Executable twin of [`sp_string`].
#[verifier::loop_isolation(false)]
#[verifier::rlimit(80)]
fn p_string(s: &[u8], i: usize) -> (r: Option<(Vec<u8>, usize)>)
    ensures
        match r {
            Some(v) => sp_string(s@, i as int) == Some((v.0@, v.1 as int)),
            None => sp_string(s@, i as int) is None,
        },
{
    if i >= s.len() || s[i] != 34 {
        return None;
    }
    let mut out: Vec<u8> = Vec::new();
    let mut j: usize = i + 1;
    proof {
        if sp_strbody(s@, j as int) is Some {
            let (rest, e) = sp_strbody(s@, j as int).unwrap();
            assert(out@ + rest =~= rest);
        }
    }
    loop
        invariant
            i + 1 <= j <= s@.len() + 1,
            match sp_strbody(s@, j as int) {
                Some(p) => sp_strbody(s@, i + 1) == Some((out@ + p.0, p.1)),
                None => sp_strbody(s@, i + 1) is None,
            },
        decreases s@.len() + 1 - j,
    {
        if j >= s.len() {
            return None;
        }
        let c = s[j];
        if c == 34 {
            proof {
                let (rest, e) = sp_strbody(s@, j as int).unwrap();
                assert(out@ + rest =~= out@);
            }
            return Some((out, j + 1));
        }
        if c == 92 {
            if j + 1 >= s.len() {
                return None;
            }
            let e = s[j + 1];
            if e == 117 {
                if s.len() - j < 6 {
                    return None;
                }
                let h0 = match p_hex(s[j + 2]) {
                    Some(h) => h,
                    None => {
                        return None;
                    },
                };
                let h1 = match p_hex(s[j + 3]) {
                    Some(h) => h,
                    None => {
                        return None;
                    },
                };
                let h2 = match p_hex(s[j + 4]) {
                    Some(h) => h,
                    None => {
                        return None;
                    },
                };
                let h3 = match p_hex(s[j + 5]) {
                    Some(h) => h,
                    None => {
                        return None;
                    },
                };
                let code: usize = (h0 as usize) * 4096 + (h1 as usize) * 256 + (h2 as usize) * 16
                    + (h3 as usize);
                if 0xD800 <= code && code < 0xE000 {
                    return None;
                }
                let ghost prev = out@;
                if code < 0x80 {
                    out.push(code as u8);
                } else if code < 0x800 {
                    out.push((0xC0 + code / 64) as u8);
                    out.push((0x80 + code % 64) as u8);
                } else {
                    out.push((0xE0 + code / 4096) as u8);
                    out.push((0x80 + (code / 64) % 64) as u8);
                    out.push((0x80 + code % 64) as u8);
                }
                proof {
                    assert(out@ =~= prev + utf8_of_scalar(code as int));
                    if sp_strbody(s@, j + 6) is Some {
                        let (rest, en) = sp_strbody(s@, j + 6).unwrap();
                        assert(out@ + rest =~= prev + (utf8_of_scalar(code as int) + rest));
                    }
                }
                j = j + 6;
            } else {
                let v = match p_esc(e) {
                    Some(v) => v,
                    None => {
                        return None;
                    },
                };
                let ghost prev = out@;
                out.push(v);
                proof {
                    if sp_strbody(s@, j + 2) is Some {
                        let (rest, en) = sp_strbody(s@, j + 2).unwrap();
                        assert(out@ + rest =~= prev + (seq![v] + rest));
                    }
                }
                j = j + 2;
            }
        } else if c < 32 {
            return None;
        } else {
            let ghost prev = out@;
            out.push(c);
            proof {
                if sp_strbody(s@, j + 1) is Some {
                    let (rest, en) = sp_strbody(s@, j + 1).unwrap();
                    assert(out@ + rest =~= prev + (seq![c] + rest));
                }
            }
            j = j + 1;
        }
    }
}

/// An arbitrary payload object: `{"text":<string>}` carrying the decoded
/// string bytes, or `{"base64":<string>}` carrying the base64-decoded blob.
/// Malformed base64 fails the whole record.
pub open spec fn sp_arb(s: Seq<u8>, i: int) -> Option<(Seq<u8>, int)> {
    match sp_lit(s, i, T_TEXT@) {
        Some(j) => match sp_string(s, j) {
            Some(p) => match sp_lit(s, p.1, CLOSE1@) {
                Some(j3) => Some((p.0, j3)),
                None => None,
            },
            None => None,
        },
        None => match sp_lit(s, i, T_B64@) {
            Some(j) => match sp_string(s, j) {
                Some(p) => match spec_decode(p.0) {
                    Some(bytes) => match sp_lit(s, p.1, CLOSE1@) {
                        Some(j3) => Some((bytes, j3)),
                        None => None,
                    },
                    None => None,
                },
                None => None,
            },
            None => None,
        },
    }
}

/// Executable twin of [`sp_arb`]; text payloads keep the text
/// representation, base64 payloads the opaque one.
fn p_arb(s: &[u8], i: usize) -> (r: Option<(ArbitraryData, usize)>)
    ensures
        match r {
            Some(v) => sp_arb(s@, i as int) == Some((v.0@, v.1 as int)),
            None => sp_arb(s@, i as int) is None,
        },
{
    match p_lit(s, i, &T_TEXT) {
        Some(j) => {
            let (content, j2) = match p_string(s, j) {
                Some(p) => p,
                None => {
                    return None;
                },
            };
            match p_lit(s, j2, &CLOSE1) {
                Some(j3) => Some((ArbitraryData::from_text_bytes(content), j3)),
                None => None,
            }
        },
        None => {
            let j = match p_lit(s, i, &T_B64) {
                Some(j) => j,
                None => {
                    return None;
                },
            };
            let (content, j2) = match p_string(s, j) {
                Some(p) => p,
                None => {
                    return None;
                },
            };
            let d = match ArbitraryData::from_base64(content.as_slice()) {
                Ok(d) => d,
                Err(_) => {
                    return None;
                },
            };
            match p_lit(s, j2, &CLOSE1) {
                Some(j3) => Some((d, j3)),
                None => None,
            }
        },
    }
}

/// A duration object: `{"secs":<uint>,"nanos":<uint>,"human":<string>}`.
pub open spec fn sp_duration(s: Seq<u8>, i: int) -> Option<(SearchDurationV, int)> {
    match sp_lit(s, i, D_OPEN@) {
        Some(j) => match sp_uint(s, j) {
            Some((secs, j2)) => match sp_lit(s, j2, D_NANOS@) {
                Some(j3) => match sp_uint(s, j3) {
                    Some((nanos, j4)) => match sp_lit(s, j4, D_HUMAN@) {
                        Some(j5) => match sp_string(s, j5) {
                            Some(p) => match sp_lit(s, p.1, CLOSE1@) {
                                Some(j7) => Some(
                                    (
                                        SearchDurationV {
                                            secs: secs as usize,
                                            nanos: nanos as usize,
                                            human: p.0,
                                        },
                                        j7,
                                    ),
                                ),
                                None => None,
                            },
                            None => None,
                        },
                        None => None,
                    },
                    None => None,
                },
                None => None,
            },
            None => None,
        },
        None => None,
    }
}

/// Executable twin of [`sp_duration`].
fn p_duration(s: &[u8], i: usize) -> (r: Option<(SearchDuration, usize)>)
    ensures
        match r {
            Some(v) => sp_duration(s@, i as int) == Some((v.0@, v.1 as int)),
            None => sp_duration(s@, i as int) is None,
        },
{
    let j = match p_lit(s, i, &D_OPEN) {
        Some(j) => j,
        None => {
            return None;
        },
    };
    let (secs, j2) = match p_uint(s, j) {
        Some(p) => p,
        None => {
            return None;
        },
    };
    let j3 = match p_lit(s, j2, &D_NANOS) {
        Some(j3) => j3,
        None => {
            return None;
        },
    };
    let (nanos, j4) = match p_uint(s, j3) {
        Some(p) => p,
        None => {
            return None;
        },
    };
    let j5 = match p_lit(s, j4, &D_HUMAN) {
        Some(j5) => j5,
        None => {
            return None;
        },
    };
    let (human, j6) = match p_string(s, j5) {
        Some(p) => p,
        None => {
            return None;
        },
    };
    match p_lit(s, j6, &CLOSE1) {
        Some(j7) => Some(
            (
                SearchDuration { secs, nanos, human: ArbitraryData::from_text_bytes(human) },
                j7,
            ),
        ),
        None => None,
    }
}

/// A statistics object, in the engine's field order.
pub open spec fn sp_stats(s: Seq<u8>, i: int) -> Option<(StatsV, int)> {
    match sp_lit(s, i, ST_OPEN@) {
        Some(j) => match sp_duration(s, j) {
            Some((elapsed, j1)) => match sp_field_uint(s, j1, ST_SEARCHES@) {
                Some((searches, j2)) => match sp_field_uint(s, j2, ST_SWM@) {
                    Some((swm, j3)) => match sp_field_uint(s, j3, ST_BS@) {
                        Some((bs, j4)) => match sp_field_uint(s, j4, ST_BP@) {
                            Some((bp, j5)) => match sp_field_uint(s, j5, ST_ML@) {
                                Some((ml, j6)) => match sp_field_uint(s, j6, ST_M@) {
                                    Some((m, j7)) => match sp_lit(s, j7, CLOSE1@) {
                                        Some(j8) => Some(
                                            (
                                                StatsV {
                                                    elapsed,
                                                    searches: searches as usize,
                                                    searches_with_match: swm as usize,
                                                    bytes_searched: bs as usize,
                                                    bytes_printed: bp as usize,
                                                    matched_lines: ml as usize,
                                                    matches: m as usize,
                                                },
                                                j8,
                                            ),
                                        ),
                                        None => None,
                                    },
                                    None => None,
                                },
                                None => None,
                            },
                            None => None,
                        },
                        None => None,
                    },
                    None => None,
                },
                None => None,
            },
            None => None,
        },
        None => None,
    }
}

/// A key fragment followed by an unsigned integer.
pub open spec fn sp_field_uint(s: Seq<u8>, i: int, key: Seq<u8>) -> Option<(int, int)> {
    match sp_lit(s, i, key) {
        Some(j) => sp_uint(s, j),
        None => None,
    }
}

/// Executable twin of [`sp_field_uint`].
fn p_field_uint(s: &[u8], i: usize, key: &[u8]) -> (r: Option<(usize, usize)>)
    ensures
        match r {
            Some(v) => sp_field_uint(s@, i as int, key@) == Some((v.0 as int, v.1 as int)),
            None => sp_field_uint(s@, i as int, key@) is None,
        },
{
    match p_lit(s, i, key) {
        Some(j) => p_uint(s, j),
        None => None,
    }
}

/// Executable twin of [`sp_stats`].
fn p_stats(s: &[u8], i: usize) -> (r: Option<(Stats, usize)>)
    ensures
        match r {
            Some(v) => sp_stats(s@, i as int) == Some((v.0@, v.1 as int)),
            None => sp_stats(s@, i as int) is None,
        },
{
    let j = match p_lit(s, i, &ST_OPEN) {
        Some(j) => j,
        None => {
            return None;
        },
    };
    let (elapsed, j1) = match p_duration(s, j) {
        Some(p) => p,
        None => {
            return None;
        },
    };
    let (searches, j2) = match p_field_uint(s, j1, &ST_SEARCHES) {
        Some(p) => p,
        None => {
            return None;
        },
    };
    let (swm, j3) = match p_field_uint(s, j2, &ST_SWM) {
        Some(p) => p,
        None => {
            return None;
        },
    };
    let (bs, j4) = match p_field_uint(s, j3, &ST_BS) {
        Some(p) => p,
        None => {
            return None;
        },
    };
    let (bp, j5) = match p_field_uint(s, j4, &ST_BP) {
        Some(p) => p,
        None => {
            return None;
        },
    };
    let (ml, j6) = match p_field_uint(s, j5, &ST_ML) {
        Some(p) => p,
        None => {
            return None;
        },
    };
    let (m, j7) = match p_field_uint(s, j6, &ST_M) {
        Some(p) => p,
        None => {
            return None;
        },
    };
    match p_lit(s, j7, &CLOSE1) {
        Some(j8) => Some(
            (
                Stats {
                    elapsed,
                    searches,
                    searches_with_match: swm,
                    bytes_searched: bs,
                    bytes_printed: bp,
                    matched_lines: ml,
                    matches: m,
                },
                j8,
            ),
        ),
        None => None,
    }
}

/// One submatch object:
/// `{"match":<payload>,"start":<uint>,"end":<uint>}`.
pub open spec fn sp_submatch(s: Seq<u8>, i: int) -> Option<(SubMatchV, int)> {
    match sp_lit(s, i, SM_OPEN@) {
        Some(j) => match sp_arb(s, j) {
            Some((text, j1)) => match sp_field_uint(s, j1, F_START@) {
                Some((start, j2)) => match sp_field_uint(s, j2, F_END@) {
                    Some((end, j3)) => match sp_lit(s, j3, CLOSE1@) {
                        Some(j4) => Some((SubMatchV { text, start, end }, j4)),
                        None => None,
                    },
                    None => None,
                },
                None => None,
            },
            None => None,
        },
        None => None,
    }
}

/// Executable twin of [`sp_submatch`].
fn p_submatch(s: &[u8], i: usize) -> (r: Option<(SubMatch, usize)>)
    ensures
        match r {
            Some(v) => sp_submatch(s@, i as int) == Some((v.0@, v.1 as int)),
            None => sp_submatch(s@, i as int) is None,
        },
{
    let j = match p_lit(s, i, &SM_OPEN) {
        Some(j) => j,
        None => {
            return None;
        },
    };
    let (text, j1) = match p_arb(s, j) {
        Some(p) => p,
        None => {
            return None;
        },
    };
    let (start, j2) = match p_field_uint(s, j1, &F_START) {
        Some(p) => p,
        None => {
            return None;
        },
    };
    let (end, j3) = match p_field_uint(s, j2, &F_END) {
        Some(p) => p,
        None => {
            return None;
        },
    };
    match p_lit(s, j3, &CLOSE1) {
        Some(j4) => Some((SubMatch { text, range: ByteRange { start, end } }, j4)),
        None => None,
    }
}

/// A parsed string body ends past where it began.
proof fn lemma_strbody_adv(s: Seq<u8>, i: int)
    ensures
        match sp_strbody(s, i) {
            Some(p) => p.1 > i,
            None => true,
        },
    decreases s.len() - i,
{
    if 0 <= i < s.len() {
        if s[i] == 92 {
            if i + 1 < s.len() {
                if s[i + 1] == 117 {
                    if i + 6 <= s.len() {
                        lemma_strbody_adv(s, i + 6);
                    }
                } else {
                    lemma_strbody_adv(s, i + 2);
                }
            }
        } else if s[i] != 34 {
            lemma_strbody_adv(s, i + 1);
        }
    }
}

/// A parsed integer ends at or past where it began.
proof fn lemma_uint_loop_adv(s: Seq<u8>, i: int, acc: int)
    ensures
        match sp_uint_loop(s, i, acc) {
            Some(p) => p.1 >= i,
            None => true,
        },
    decreases s.len() - i,
{
    if 0 <= i < s.len() && is_digit(s[i]) {
        let acc2 = acc * 10 + (s[i] - 48);
        if acc2 <= usize::MAX {
            lemma_uint_loop_adv(s, i + 1, acc2);
        }
    }
}

/// A parsed submatch object ends past where it began.
proof fn lemma_submatch_adv(s: Seq<u8>, i: int)
    ensures
        match sp_submatch(s, i) {
            Some(p) => p.1 > i,
            None => true,
        },
{
    if sp_submatch(s, i) is Some {
        let j = sp_lit(s, i, SM_OPEN@).unwrap();
        lemma_strbody_adv(s, j + T_TEXT@.len() as int + 1);
        lemma_strbody_adv(s, j + T_B64@.len() as int + 1);
        let p1 = sp_arb(s, j).unwrap();
        lemma_uint_loop_adv(s, p1.1 + F_START@.len() as int, 0);
        let p2 = sp_field_uint(s, p1.1, F_START@).unwrap();
        lemma_uint_loop_adv(s, p2.1 + F_END@.len() as int, 0);
    }
}

/// A non-empty submatch list from position `i`: one or more submatch
/// objects separated by commas, closed by `]`.  The fuel only bounds the
/// recursion; any fuel at least the remaining length gives the same answer.
pub open spec fn sp_sm_list(s: Seq<u8>, i: int, fuel: nat) -> Option<(Seq<SubMatchV>, int)>
    decreases fuel,
{
    if fuel == 0 {
        None
    } else {
        match sp_submatch(s, i) {
            Some((sm, j)) => match sp_lit(s, j, COMMA@) {
                Some(j2) => match sp_sm_list(s, j2, (fuel - 1) as nat) {
                    Some((rest, e)) => Some((seq![sm] + rest, e)),
                    None => None,
                },
                None => match sp_lit(s, j, RBRACK@) {
                    Some(j2) => Some((seq![sm], j2)),
                    None => None,
                },
            },
            None => None,
        }
    }
}

/// [`sp_sm_list`] does not depend on the fuel, once the fuel covers the
/// remaining input.
proof fn lemma_sm_list_fuel(s: Seq<u8>, i: int, f1: nat, f2: nat)
    requires
        f1 >= s.len() - i,
        f2 >= s.len() - i,
    ensures
        sp_sm_list(s, i, f1) == sp_sm_list(s, i, f2),
    decreases f1 + f2,
{
    lemma_submatch_adv(s, i);
    if f1 == 0 || f2 == 0 {
        // the remaining input is empty, so no submatch can be parsed and
        // both sides are None
        if sp_submatch(s, i) is Some {
            assert(sp_lit(s, i, SM_OPEN@) is Some);
            assert(i + SM_OPEN@.len() <= s.len());
            assert(false);
        }
    } else {
        match sp_submatch(s, i) {
            Some((sm, j)) => {
                match sp_lit(s, j, COMMA@) {
                    Some(j2) => {
                        lemma_sm_list_fuel(s, j2, (f1 - 1) as nat, (f2 - 1) as nat);
                    },
                    None => {},
                }
            },
            None => {},
        }
    }
}

/// The submatch array content after `[`: empty, or a comma-separated list;
/// consumes the closing `]`.
pub open spec fn sp_submatches(s: Seq<u8>, i: int) -> Option<(Seq<SubMatchV>, int)> {
    match sp_lit(s, i, RBRACK@) {
        Some(j) => Some((Seq::empty(), j)),
        None => sp_sm_list(s, i, s.len() as nat),
    }
}

/// The ghost images of a vector of submatches.
pub open spec fn smv(v: Seq<SubMatch>) -> Seq<SubMatchV> {
    v.map_values(|sm: SubMatch| sm@)
}

/// Executable twin of [`sp_submatches`].
#[verifier::loop_isolation(false)]
#[verifier::rlimit(80)]
fn p_submatches(s: &[u8], i: usize) -> (r: Option<(Vec<SubMatch>, usize)>)
    ensures
        match r {
            Some(v) => sp_submatches(s@, i as int) == Some((smv(v.0@), v.1 as int)),
            None => sp_submatches(s@, i as int) is None,
        },
{
    match p_lit(s, i, &RBRACK) {
        Some(j) => {
            let out: Vec<SubMatch> = Vec::new();
            proof {
                assert(smv(out@) =~= Seq::<SubMatchV>::empty());
            }
            return Some((out, j));
        },
        None => {},
    }
    let mut out: Vec<SubMatch> = Vec::new();
    let mut j: usize = i;
    proof {
        if s@.len() < i {
            lemma_submatch_adv(s@, i as int);
            if sp_submatch(s@, i as int) is Some {
                assert(sp_lit(s@, i as int, SM_OPEN@) is Some);
                assert(false);
            }
        }
        lemma_sm_list_fuel(s@, i as int, s@.len() as nat, (if s@.len() >= i { s@.len() - i } else { 0 }) as nat);
        if sp_sm_list(s@, j as int, (if s@.len() >= j { s@.len() - j } else { 0 }) as nat) is Some {
            let pr = sp_sm_list(s@, j as int, (if s@.len() >= j { s@.len() - j } else { 0 }) as nat).unwrap();
            assert(smv(out@) + pr.0 =~= pr.0);
        }
    }
    loop
        invariant
            i <= j,
            match sp_sm_list(s@, j as int, (if s@.len() >= j { s@.len() - j } else { 0 }) as nat) {
                Some(pr) => sp_sm_list(s@, i as int, s@.len() as nat) == Some(
                    (smv(out@) + pr.0, pr.1),
                ),
                None => sp_sm_list(s@, i as int, s@.len() as nat) is None,
            },
        decreases s@.len() + 1 - j,
    {
        let ghost fuel_here = (if s@.len() >= j { s@.len() - j } else { 0 }) as nat;
        proof {
            lemma_submatch_adv(s@, j as int);
            if fuel_here == 0 && sp_submatch(s@, j as int) is Some {
                assert(sp_lit(s@, j as int, SM_OPEN@) is Some);
                assert(false);
            }
        }
        let (sm, j1) = match p_submatch(s, j) {
            Some(p) => p,
            None => {
                return None;
            },
        };
        let ghost prev = out@;
        match p_lit(s, j1, &COMMA) {
            Some(j2) => {
                out.push(sm);
                proof {
                    let ghost fuel_next = (if s@.len() >= j2 { s@.len() - j2 } else { 0 }) as nat;
                    lemma_sm_list_fuel(s@, j2 as int, (fuel_here - 1) as nat, fuel_next);
                    assert(smv(out@) =~= smv(prev).push(sm@));
                    if sp_sm_list(s@, j2 as int, fuel_next) is Some {
                        let pr = sp_sm_list(s@, j2 as int, fuel_next).unwrap();
                        assert(smv(out@) + pr.0 =~= smv(prev) + (seq![sm@] + pr.0));
                    }
                }
                j = j2;
            },
            None => {
                match p_lit(s, j1, &RBRACK) {
                    Some(j2) => {
                        out.push(sm);
                        proof {
                            assert(smv(out@) =~= smv(prev).push(sm@));
                            assert(smv(out@) =~= smv(prev) + seq![sm@]);
                        }
                        return Some((out, j2));
                    },
                    None => {
                        return None;
                    },
                }
            },
        }
    }
}

/// One whole record line.  Exactly one of the five kinds, in the engine's
/// emitted field order, consuming the entire line.
#[verifier::opaque]
pub open spec fn sp_message(s: Seq<u8>) -> Option<RgMessageV> {
    if sp_lit(s, 0, A_BEGIN@) is Some {
        let j = sp_lit(s, 0, A_BEGIN@).unwrap();
        match sp_arb(s, j) {
            Some((path, j1)) => if sp_lit(s, j1, CLOSE2@) == Some(s.len() as int) {
                Some(RgMessageV::Begin { path })
            } else {
                None
            },
            None => None,
        }
    } else if sp_lit(s, 0, A_MATCH@) is Some {
        let j = sp_lit(s, 0, A_MATCH@).unwrap();
        match sp_arb(s, j) {
            Some((path, j1)) => match sp_lit(s, j1, F_LINES@) {
                Some(j2) => match sp_arb(s, j2) {
                    Some((lines, j3)) => match sp_lit(s, j3, F_LINE_NUMBER@) {
                        Some(j4) => match sp_opt_uint(s, j4) {
                            Some((line_number, j5)) => match sp_lit(s, j5, F_ABS@) {
                                Some(j6) => match sp_uint(s, j6) {
                                    Some((off, j7)) => match sp_lit(s, j7, F_SUBS@) {
                                        Some(j8) => match sp_submatches(s, j8) {
                                            Some((submatches, j9)) => if sp_lit(s, j9, CLOSE2@)
                                                == Some(s.len() as int) {
                                                Some(
                                                    RgMessageV::Match {
                                                        path,
                                                        lines,
                                                        line_number,
                                                        absolute_offset: off as usize,
                                                        submatches,
                                                    },
                                                )
                                            } else {
                                                None
                                            },
                                            None => None,
                                        },
                                        None => None,
                                    },
                                    None => None,
                                },
                                None => None,
                            },
                            None => None,
                        },
                        None => None,
                    },
                    None => None,
                },
                None => None,
            },
            None => None,
        }
    } else if sp_lit(s, 0, A_CONTEXT@) is Some {
        let j = sp_lit(s, 0, A_CONTEXT@).unwrap();
        match sp_arb(s, j) {
            Some((path, j1)) => match sp_lit(s, j1, F_LINES@) {
                Some(j2) => match sp_arb(s, j2) {
                    Some((lines, j3)) => match sp_lit(s, j3, F_LINE_NUMBER@) {
                        Some(j4) => match sp_opt_uint(s, j4) {
                            Some((line_number, j5)) => if sp_lit(s, j5, CLOSE2@) == Some(
                                s.len() as int,
                            ) {
                                Some(RgMessageV::Context { path, lines, line_number })
                            } else {
                                None
                            },
                            None => None,
                        },
                        None => None,
                    },
                    None => None,
                },
                None => None,
            },
            None => None,
        }
    } else if sp_lit(s, 0, A_END@) is Some {
        let j = sp_lit(s, 0, A_END@).unwrap();
        match sp_arb(s, j) {
            Some((path, j1)) => match sp_lit(s, j1, F_BINOFF@) {
                Some(j2) => match sp_opt_uint(s, j2) {
                    Some((binary_offset, j3)) => match sp_lit(s, j3, F_STATS@) {
                        Some(j4) => match sp_stats(s, j4) {
                            Some((stats, j5)) => if sp_lit(s, j5, CLOSE2@) == Some(
                                s.len() as int,
                            ) {
                                Some(RgMessageV::End { path, binary_offset, stats })
                            } else {
                                None
                            },
                            None => None,
                        },
                        None => None,
                    },
                    None => None,
                },
                None => None,
            },
            None => None,
        }
    } else if sp_lit(s, 0, A_SUMMARY@) is Some {
        let j = sp_lit(s, 0, A_SUMMARY@).unwrap();
        match sp_duration(s, j) {
            Some((elapsed_total, j1)) => match sp_lit(s, j1, F_STATS@) {
                Some(j2) => match sp_stats(s, j2) {
                    Some((stats, j3)) => if sp_lit(s, j3, CLOSE2@) == Some(s.len() as int) {
                        Some(RgMessageV::Summary { elapsed_total, stats })
                    } else {
                        None
                    },
                    None => None,
                },
                None => None,
            },
            None => None,
        }
    } else {
        None
    }
}

/// Parses one record line; agrees exactly with [`sp_message`], so a line is
/// rejected precisely when no record of the schema matches it whole.
#[verifier::rlimit(80)]
pub fn parse_message(s: &[u8]) -> (r: Option<RgMessage>)
    ensures
        match r {
            Some(m) => sp_message(s@) == Some(m@),
            None => sp_message(s@) is None,
        },
{
    proof {
        reveal(sp_message);
    }
    if let Some(j) = p_lit(s, 0, &A_BEGIN) {
        let (path, j1) = match p_arb(s, j) {
            Some(p) => p,
            None => {
                return None;
            },
        };
        match p_lit(s, j1, &CLOSE2) {
            Some(e) if e == s.len() => Some(RgMessage::Begin { path }),
            _ => None,
        }
    } else if let Some(j) = p_lit(s, 0, &A_MATCH) {
        let (path, j1) = match p_arb(s, j) {
            Some(p) => p,
            None => {
                return None;
            },
        };
        let j2 = match p_lit(s, j1, &F_LINES) {
            Some(x) => x,
            None => {
                return None;
            },
        };
        let (lines, j3) = match p_arb(s, j2) {
            Some(p) => p,
            None => {
                return None;
            },
        };
        let j4 = match p_lit(s, j3, &F_LINE_NUMBER) {
            Some(x) => x,
            None => {
                return None;
            },
        };
        let (line_number, j5) = match p_opt_uint(s, j4) {
            Some(p) => p,
            None => {
                return None;
            },
        };
        let j6 = match p_lit(s, j5, &F_ABS) {
            Some(x) => x,
            None => {
                return None;
            },
        };
        let (off, j7) = match p_uint(s, j6) {
            Some(p) => p,
            None => {
                return None;
            },
        };
        let j8 = match p_lit(s, j7, &F_SUBS) {
            Some(x) => x,
            None => {
                return None;
            },
        };
        let (submatches, j9) = match p_submatches(s, j8) {
            Some(p) => p,
            None => {
                return None;
            },
        };
        match p_lit(s, j9, &CLOSE2) {
            Some(e) if e == s.len() => Some(
                RgMessage::Match { path, lines, line_number, absolute_offset: off, submatches },
            ),
            _ => None,
        }
    } else if let Some(j) = p_lit(s, 0, &A_CONTEXT) {
        let (path, j1) = match p_arb(s, j) {
            Some(p) => p,
            None => {
                return None;
            },
        };
        let j2 = match p_lit(s, j1, &F_LINES) {
            Some(x) => x,
            None => {
                return None;
            },
        };
        let (lines, j3) = match p_arb(s, j2) {
            Some(p) => p,
            None => {
                return None;
            },
        };
        let j4 = match p_lit(s, j3, &F_LINE_NUMBER) {
            Some(x) => x,
            None => {
                return None;
            },
        };
        let (line_number, j5) = match p_opt_uint(s, j4) {
            Some(p) => p,
            None => {
                return None;
            },
        };
        match p_lit(s, j5, &CLOSE2) {
            Some(e) if e == s.len() => Some(RgMessage::Context { path, lines, line_number }),
            _ => None,
        }
    } else if let Some(j) = p_lit(s, 0, &A_END) {
        let (path, j1) = match p_arb(s, j) {
            Some(p) => p,
            None => {
                return None;
            },
        };
        let j2 = match p_lit(s, j1, &F_BINOFF) {
            Some(x) => x,
            None => {
                return None;
            },
        };
        let (binary_offset, j3) = match p_opt_uint(s, j2) {
            Some(p) => p,
            None => {
                return None;
            },
        };
        let j4 = match p_lit(s, j3, &F_STATS) {
            Some(x) => x,
            None => {
                return None;
            },
        };
        let (stats, j5) = match p_stats(s, j4) {
            Some(p) => p,
            None => {
                return None;
            },
        };
        match p_lit(s, j5, &CLOSE2) {
            Some(e) if e == s.len() => Some(RgMessage::End { path, binary_offset, stats }),
            _ => None,
        }
    } else if let Some(j) = p_lit(s, 0, &A_SUMMARY) {
        let (elapsed_total, j1) = match p_duration(s, j) {
            Some(p) => p,
            None => {
                return None;
            },
        };
        let j2 = match p_lit(s, j1, &F_STATS) {
            Some(x) => x,
            None => {
                return None;
            },
        };
        let (stats, j3) = match p_stats(s, j2) {
            Some(p) => p,
            None => {
                return None;
            },
        };
        match p_lit(s, j3, &CLOSE2) {
            Some(e) if e == s.len() => Some(RgMessage::Summary { elapsed_total, stats }),
            _ => None,
        }
    } else {
        None
    }
}

/// Eagerly parses a whole stream, one record per line.  Either every line
/// decodes — yielding exactly one record per line, in input order — or the
/// whole ingestion fails with the 1-based number of the first bad line and
/// no partial result.
#[verifier::rlimit(100)]
pub fn parse_messages(lines: &Vec<Vec<u8>>) -> (r: Result<Vec<RgMessage>, ProtocolError>)
    ensures
        match r {
            Ok(msgs) => msgs@.len() == lines@.len() && forall|k: int|
                0 <= k < lines@.len() ==> sp_message(lines@[k]@) == Some(#[trigger] msgs@[k]@),
            Err(e) => 1 <= e.line_number <= lines@.len() && sp_message(
                lines@[e.line_number - 1]@,
            ) is None && e.cause@ == lossy_of(lines@[e.line_number - 1]@) && forall|k: int|
                0 <= k < e.line_number - 1 ==> sp_message(#[trigger] lines@[k]@) is Some,
        },
{
    let mut msgs: Vec<RgMessage> = Vec::new();
    let mut k: usize = 0;
    while k < lines.len()
        invariant
            k <= lines@.len(),
            msgs@.len() == k,
            forall|t: int| 0 <= t < k ==> sp_message(lines@[t]@) == Some(#[trigger] msgs@[t]@),
        decreases lines@.len() - k,
    {
        match parse_message(lines[k].as_slice()) {
            Some(m) => {
                msgs.push(m);
            },
            None => {
                proof {
                    assert forall|t: int| 0 <= t < k implies sp_message(
                        #[trigger] lines@[t]@,
                    ) is Some by {
                        assert(sp_message(lines@[t]@) == Some(msgs@[t]@));
                    }
                }
                let cause = ArbitraryData::Bytes(crate::data::clone_bytes(&lines[k])).lossy_utf8();
                return Err(ProtocolError { line_number: k + 1, cause });
            },
        }
        k = k + 1;
    }
    Ok(msgs)
}

} // verus!
