//! Standard base64 (padded alphabet `A-Z a-z 0-9 + /`, trailing `=`).
//!
//! The search engine ships any value that is not valid text as a base64
//! string.  Decoding is done here, in verified code, against a spec-level
//! description of the encoding; the round trip through the canonical
//! encoding is proved below.

use vstd::prelude::*;

verus! {

/// The alphabet value of sextet `n` (meaningful for `n < 64`).
pub open spec fn enc_char(n: u8) -> u8 {
    if n < 26 {
        (n + 65) as u8  // 'A'..='Z'
    } else if n < 52 {
        (n + 71) as u8  // 'a'..='z'
    } else if n < 62 {
        (n - 4) as u8  // '0'..='9'
    } else if n == 62 {
        43u8  // '+'
    } else {
        47u8  // '/'
    }
}

/// The sextet of alphabet byte `c`, or `None` when `c` is not in the alphabet.
pub open spec fn dec_char(c: u8) -> Option<u8> {
    if 65 <= c && c <= 90 {
        Some((c - 65) as u8)
    } else if 97 <= c && c <= 122 {
        Some((c - 71) as u8)
    } else if 48 <= c && c <= 57 {
        Some((c + 4) as u8)
    } else if c == 43 {
        Some(62u8)
    } else if c == 47 {
        Some(63u8)
    } else {
        None
    }
}

/// Canonical padded encoding of a byte sequence.
pub open spec fn spec_encode(s: Seq<u8>) -> Seq<u8>
    decreases s.len(),
{
    if s.len() == 0 {
        Seq::empty()
    } else if s.len() == 1 {
        let b0 = s[0];
        seq![enc_char(b0 >> 2), enc_char((b0 & 3) << 4), 61u8, 61u8]
    } else if s.len() == 2 {
        let b0 = s[0];
        let b1 = s[1];
        seq![
            enc_char(b0 >> 2),
            enc_char(((b0 & 3) << 4) | (b1 >> 4)),
            enc_char((b1 & 15) << 2),
            61u8,
        ]
    } else {
        let b0 = s[0];
        let b1 = s[1];
        let b2 = s[2];
        seq![
            enc_char(b0 >> 2),
            enc_char(((b0 & 3) << 4) | (b1 >> 4)),
            enc_char(((b1 & 15) << 2) | (b2 >> 6)),
            enc_char(b2 & 63),
        ] + spec_encode(s.skip(3))
    }
}

/// Decoding of one final quantum of four bytes, honouring `=` padding and
/// insisting (as the engine's encoder guarantees) that unused trailing bits
/// are zero.
pub open spec fn spec_decode_last(c0: u8, c1: u8, c2: u8, c3: u8) -> Option<Seq<u8>> {
    match (dec_char(c0), dec_char(c1)) {
        (Some(d0), Some(d1)) => {
            if c2 == 61 && c3 == 61 {
                if d1 & 15 == 0 {
                    Some(seq![(d0 << 2) | (d1 >> 4)])
                } else {
                    None
                }
            } else if c3 == 61 {
                match dec_char(c2) {
                    Some(d2) => {
                        if d2 & 3 == 0 {
                            Some(seq![(d0 << 2) | (d1 >> 4), ((d1 & 15) << 4) | (d2 >> 2)])
                        } else {
                            None
                        }
                    },
                    None => None,
                }
            } else {
                match (dec_char(c2), dec_char(c3)) {
                    (Some(d2), Some(d3)) => Some(
                        seq![
                            (d0 << 2) | (d1 >> 4),
                            ((d1 & 15) << 4) | (d2 >> 2),
                            ((d2 & 3) << 6) | d3,
                        ],
                    ),
                    _ => None,
                }
            }
        },
        _ => None,
    }
}

/// Decoding of a whole padded base64 sequence: groups of four bytes, with
/// `=` admitted only in the final group.  `None` exactly on malformed input.
pub open spec fn spec_decode(s: Seq<u8>) -> Option<Seq<u8>>
    decreases s.len(),
{
    if s.len() == 0 {
        Some(Seq::empty())
    } else if s.len() == 4 {
        spec_decode_last(s[0], s[1], s[2], s[3])
    } else if s.len() > 4 {
        match (dec_char(s[0]), dec_char(s[1]), dec_char(s[2]), dec_char(s[3])) {
            (Some(d0), Some(d1), Some(d2), Some(d3)) => match spec_decode(s.skip(4)) {
                Some(rest) => Some(
                    seq![
                        (d0 << 2) | (d1 >> 4),
                        ((d1 & 15) << 4) | (d2 >> 2),
                        ((d2 & 3) << 6) | d3,
                    ] + rest,
                ),
                None => None,
            },
            _ => None,
        }
    } else {
        None
    }
}

/// Decoding a character of the alphabet gives back the sextet it encodes.
proof fn lemma_dec_enc(n: u8)
    requires
        n < 64,
    ensures
        dec_char(enc_char(n)) == Some(n),
{
}

/// The canonical encoding of any byte sequence decodes, and decodes to that
/// same sequence — for every byte sequence, valid text or not.
pub proof fn lemma_decode_encode(s: Seq<u8>)
    ensures
        spec_decode(spec_encode(s)) == Some(s),
    decreases s.len(),
{
    if s.len() == 0 {
        assert(spec_encode(s) =~= Seq::<u8>::empty());
        assert(spec_decode(spec_encode(s)) =~= Some(s));
    } else if s.len() == 1 {
        let b0 = s[0];
        assert(b0 >> 2 < 64 && (b0 & 3) << 4 < 64) by (bit_vector);
        lemma_dec_enc(b0 >> 2);
        lemma_dec_enc((b0 & 3) << 4);
        assert(((b0 & 3) << 4) & 15 == 0) by (bit_vector);
        assert(((b0 >> 2) << 2) | ((((b0 & 3) << 4)) >> 4) == b0) by (bit_vector);
        assert(spec_decode(spec_encode(s)).unwrap() =~= s);
    } else if s.len() == 2 {
        let b0 = s[0];
        let b1 = s[1];
        assert(b0 >> 2 < 64 && ((b0 & 3) << 4) | (b1 >> 4) < 64 && (b1 & 15) << 2 < 64)
            by (bit_vector);
        lemma_dec_enc(b0 >> 2);
        lemma_dec_enc(((b0 & 3) << 4) | (b1 >> 4));
        lemma_dec_enc((b1 & 15) << 2);
        assert(((b1 & 15) << 2) & 3 == 0) by (bit_vector);
        assert(((b0 >> 2) << 2) | ((((b0 & 3) << 4) | (b1 >> 4)) >> 4) == b0) by (bit_vector);
        assert((((((b0 & 3) << 4) | (b1 >> 4)) & 15) << 4) | (((b1 & 15) << 2) >> 2) == b1)
            by (bit_vector);
        assert(spec_decode(spec_encode(s)).unwrap() =~= s);
    } else {
        let b0 = s[0];
        let b1 = s[1];
        let b2 = s[2];
        let d0 = b0 >> 2;
        let d1 = ((b0 & 3) << 4) | (b1 >> 4);
        let d2 = ((b1 & 15) << 2) | (b2 >> 6);
        let d3 = b2 & 63;
        assert(d0 < 64 && d1 < 64 && d2 < 64 && d3 < 64) by (bit_vector)
            requires
                d0 == b0 >> 2 && d1 == ((b0 & 3) << 4) | (b1 >> 4) && d2 == ((b1 & 15) << 2) | (b2
                    >> 6) && d3 == b2 & 63,
        ;
        lemma_dec_enc(d0);
        lemma_dec_enc(d1);
        lemma_dec_enc(d2);
        lemma_dec_enc(d3);
        assert((d0 << 2) | (d1 >> 4) == b0 && ((d1 & 15) << 4) | (d2 >> 2) == b1 && ((d2 & 3) << 6)
            | d3 == b2) by (bit_vector)
            requires
                d0 == b0 >> 2 && d1 == ((b0 & 3) << 4) | (b1 >> 4) && d2 == ((b1 & 15) << 2) | (b2
                    >> 6) && d3 == b2 & 63,
        ;
        lemma_decode_encode(s.skip(3));
        let e = spec_encode(s);
        let tail = spec_encode(s.skip(3));
        assert(e.len() == 4 + tail.len());
        assert(e.skip(4) =~= tail);
        if s.skip(3).len() == 0 {
            assert(e.len() == 4);
            assert(dec_char(e[2]).is_some() && e[3] != 61);
            assert(spec_decode_last(e[0], e[1], e[2], e[3]).unwrap() =~= s);
        } else {
            assert(e.len() > 4);
            assert(spec_decode(e).unwrap() =~= seq![b0, b1, b2] + s.skip(3));
            assert(seq![b0, b1, b2] + s.skip(3) =~= s);
        }
    }
}

/// Executable decoder; agrees exactly with [`spec_decode`], so it accepts
/// precisely the well-formed padded inputs and returns the decoded bytes.
pub fn decode(s: &[u8]) -> (r: Option<Vec<u8>>)
    ensures
        match r {
            Some(out) => spec_decode(s@) == Some(out@),
            None => spec_decode(s@) is None,
        },
{
    if s.len() % 4 != 0 {
        proof {
            lemma_decode_len_mod(s@);
        }
        return None;
    }
    let mut out: Vec<u8> = Vec::new();
    let mut i: usize = 0;
    proof {
        assert(s@.skip(0) =~= s@);
        if spec_decode(s@) is Some {
            assert(out@ + spec_decode(s@).unwrap() =~= spec_decode(s@).unwrap());
        }
    }
    while i + 4 < s.len()
        invariant
            i % 4 == 0,
            s.len() % 4 == 0,
            i + 4 <= s.len() || i == s.len(),
            i == s.len() ==> s.len() == 0,
            match spec_decode(s@.skip(i as int)) {
                Some(rest) => spec_decode(s@) == Some(out@ + rest),
                None => spec_decode(s@) is None,
            },
        decreases s.len() - i,
    {
        let d0 = match dec_char_exec(s[i]) {
            Some(d) => d,
            None => {
                return None;
            },
        };
        let d1 = match dec_char_exec(s[i + 1]) {
            Some(d) => d,
            None => {
                return None;
            },
        };
        let d2 = match dec_char_exec(s[i + 2]) {
            Some(d) => d,
            None => {
                return None;
            },
        };
        let d3 = match dec_char_exec(s[i + 3]) {
            Some(d) => d,
            None => {
                return None;
            },
        };
        proof {
            assert(s@.skip(i as int).len() > 4);
            assert(s@.skip(i as int)[0] == s@[i as int]);
            assert(s@.skip(i as int)[1] == s@[i as int + 1]);
            assert(s@.skip(i as int)[2] == s@[i as int + 2]);
            assert(s@.skip(i as int)[3] == s@[i as int + 3]);
            assert(s@.skip(i as int).skip(4) =~= s@.skip(i as int + 4));
        }
        out.push((d0 << 2) | (d1 >> 4));
        out.push(((d1 & 15) << 4) | (d2 >> 2));
        out.push(((d2 & 3) << 6) | d3);
        i = i + 4;
    }
    if i == s.len() {
        proof {
            assert(s@.skip(i as int) =~= Seq::<u8>::empty());
            assert(out@ + Seq::<u8>::empty() =~= out@);
        }
        return Some(out);
    }
    proof {
        assert(s@.skip(i as int).len() == 4);
        assert(s@.skip(i as int)[0] == s@[i as int]);
        assert(s@.skip(i as int)[1] == s@[i as int + 1]);
        assert(s@.skip(i as int)[2] == s@[i as int + 2]);
        assert(s@.skip(i as int)[3] == s@[i as int + 3]);
    }
    let c0 = s[i];
    let c1 = s[i + 1];
    let c2 = s[i + 2];
    let c3 = s[i + 3];
    let d0 = match dec_char_exec(c0) {
        Some(d) => d,
        None => {
            return None;
        },
    };
    let d1 = match dec_char_exec(c1) {
        Some(d) => d,
        None => {
            return None;
        },
    };
    if c2 == 61 && c3 == 61 {
        if d1 & 15 != 0 {
            return None;
        }
        out.push((d0 << 2) | (d1 >> 4));
    } else if c3 == 61 {
        let d2 = match dec_char_exec(c2) {
            Some(d) => d,
            None => {
                return None;
            },
        };
        if d2 & 3 != 0 {
            return None;
        }
        out.push((d0 << 2) | (d1 >> 4));
        out.push(((d1 & 15) << 4) | (d2 >> 2));
    } else {
        let d2 = match dec_char_exec(c2) {
            Some(d) => d,
            None => {
                return None;
            },
        };
        let d3 = match dec_char_exec(c3) {
            Some(d) => d,
            None => {
                return None;
            },
        };
        proof {
            assert(dec_char(c2) == Some(d2) ==> c2 != 61);
        }
        out.push((d0 << 2) | (d1 >> 4));
        out.push(((d1 & 15) << 4) | (d2 >> 2));
        out.push(((d2 & 3) << 6) | d3);
    }
    Some(out)
}

/// A sequence whose length is not a multiple of four never decodes.
proof fn lemma_decode_len_mod(s: Seq<u8>)
    requires
        s.len() % 4 != 0,
    ensures
        spec_decode(s) is None,
    decreases s.len(),
{
    if s.len() > 4 {
        if dec_char(s[0]).is_some() && dec_char(s[1]).is_some() && dec_char(s[2]).is_some()
            && dec_char(s[3]).is_some() {
            lemma_decode_len_mod(s.skip(4));
        }
    }
}

/// Executable twin of [`dec_char`].
fn dec_char_exec(c: u8) -> (r: Option<u8>)
    ensures
        r == dec_char(c),
{
    if 65 <= c && c <= 90 {
        Some(c - 65)
    } else if 97 <= c && c <= 122 {
        Some(c - 71)
    } else if 48 <= c && c <= 57 {
        Some(c + 4)
    } else if c == 43 {
        Some(62u8)
    } else if c == 47 {
        Some(63u8)
    } else {
        None
    }
}

} // verus!
