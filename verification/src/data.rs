//! Dual-representation byte container for values that are semantically byte
//! sequences (paths, line content) but may not be valid text.
//!
//! A value is carried either as verified text or as an opaque byte blob
//! decoded from base64.  Whatever the representation, the exact raw bytes
//! are recoverable; a lossy text form exists for presentation only and is
//! never used for writing or comparison.

use crate::base64::spec_decode;
use std::path::PathBuf;
use vstd::prelude::*;
use vstd::string::StrSliceExecFns;
use vstd::utf8::{decode_utf8, encode_utf8, valid_utf8};

verus! {

/// The base64 representation of a payload was malformed.
#[derive(Clone, Copy, Debug, PartialEq, Eq, Structural)]
pub struct DecodeError;

/// The raw bytes of a payload are not valid text, so no path value can be
/// built from them.
#[derive(Clone, Copy, Debug, PartialEq, Eq, Structural)]
pub struct InvalidPathError;

#[verifier::external_type_specification]
#[verifier::external_body]
pub struct ExPathBuf(PathBuf);

/// What `String::from_utf8_lossy` returns for the given bytes; the result is
/// a function of the bytes alone.
pub uninterp spec fn lossy_of(b: Seq<u8>) -> Seq<char>;

/// The path value `PathBuf::from` builds for the given text; a function of
/// the text alone.
pub uninterp spec fn pathbuf_of(s: Seq<char>) -> PathBuf;

/// A byte sequence carried either as verified text or as an opaque blob.
/// Immutable once constructed; its view is the raw byte sequence.
#[derive(Debug, Clone)]
pub enum ArbitraryData {
    Text(Vec<u8>),
    Bytes(Vec<u8>),
}

impl View for ArbitraryData {
    type V = Seq<u8>;

    open spec fn view(&self) -> Seq<u8> {
        match self {
            ArbitraryData::Text(b) => b@,
            ArbitraryData::Bytes(b) => b@,
        }
    }
}

impl ArbitraryData {
    /// Whether the value was constructed from verified text.
    pub open spec fn is_text(&self) -> bool {
        self is Text
    }

    /// Wraps already-valid text; the raw bytes are its UTF-8 encoding.
    pub fn from_text(s: String) -> (r: ArbitraryData)
        ensures
            r@ == encode_utf8(s@),
            r.is_text(),
    {
        ArbitraryData::Text(s.as_str().as_bytes_vec())
    }

    /// Wraps text already held as its UTF-8 bytes.
    pub fn from_text_bytes(b: Vec<u8>) -> (r: ArbitraryData)
        ensures
            r@ == b@,
            r.is_text(),
    {
        ArbitraryData::Text(b)
    }

    /// Decodes an opaque blob from its base64 form; fails exactly when the
    /// base64 itself is malformed (the decoded bytes need not be text).
    pub fn from_base64(b: &[u8]) -> (r: Result<ArbitraryData, DecodeError>)
        ensures
            match r {
                Ok(d) => spec_decode(b@) == Some(d@) && !d.is_text(),
                Err(_) => spec_decode(b@) is None,
            },
    {
        match crate::base64::decode(b) {
            Some(v) => Ok(ArbitraryData::Bytes(v)),
            None => Err(DecodeError),
        }
    }

    /// An owned copy: same raw bytes, same representation.
    pub fn duplicate(&self) -> (r: ArbitraryData)
        ensures
            r@ == self@,
            r.is_text() == self.is_text(),
    {
        match self {
            ArbitraryData::Text(b) => ArbitraryData::Text(clone_bytes(b)),
            ArbitraryData::Bytes(b) => ArbitraryData::Bytes(clone_bytes(b)),
        }
    }

    /// The exact raw byte sequence; total.
    pub fn to_vec(&self) -> (r: Vec<u8>)
        ensures
            r@ == self@,
    {
        match self {
            ArbitraryData::Text(b) => clone_bytes(b),
            ArbitraryData::Bytes(b) => clone_bytes(b),
        }
    }

    /// The raw bytes, borrowed.
    pub fn as_slice(&self) -> (r: &[u8])
        ensures
            r@ == self@,
    {
        match self {
            ArbitraryData::Text(b) => b.as_slice(),
            ArbitraryData::Bytes(b) => b.as_slice(),
        }
    }

    /// Best-effort display text; on valid UTF-8 it is exactly the decoded
    /// text, otherwise invalid sequences appear as placeholder characters.
    /// One-directional: never fed back into the model or the patcher.
    pub fn lossy_utf8(&self) -> (r: String)
        ensures
            r@ == lossy_of(self@),
            valid_utf8(self@) ==> r@ == decode_utf8(self@),
    {
        utf8_lossy(self.as_slice())
    }

    /// Rebuilds a platform path value from the raw bytes read as text.
    /// The verified core builds path values from text alone, so this fails
    /// exactly when the bytes are not valid UTF-8; on platforms whose paths
    /// admit arbitrary bytes, the surrounding program builds the path value
    /// directly from [`Self::to_vec`]'s byte-exact result instead.
    pub fn to_path_buf(&self) -> (r: Result<PathBuf, InvalidPathError>)
        ensures
            r is Ok <==> valid_utf8(self@),
            match r {
                Ok(p) => p == pathbuf_of(decode_utf8(self@)),
                Err(_) => true,
            },
    {
        match utf8_from_bytes(self.as_slice()) {
            Some(s) => Ok(path_from_str(s)),
            None => Err(InvalidPathError),
        }
    }
}

impl PartialEq for ArbitraryData {
    /// Equality is over raw bytes, never over the lossy text.
    fn eq(&self, other: &ArbitraryData) -> (r: bool) {
        bytes_eq(self.as_slice(), other.as_slice())
    }
}

impl Eq for ArbitraryData {

}

impl vstd::std_specs::cmp::PartialEqSpecImpl for ArbitraryData {
    open spec fn obeys_eq_spec() -> bool {
        true
    }

    open spec fn eq_spec(&self, other: &ArbitraryData) -> bool {
        self@ == other@
    }
}

/// Byte-for-byte comparison of two slices.
pub fn bytes_eq(a: &[u8], b: &[u8]) -> (r: bool)
    ensures
        r == (a@ == b@),
{
    if a.len() != b.len() {
        return false;
    }
    let mut i: usize = 0;
    while i < a.len()
        invariant
            a@.len() == b@.len(),
            i <= a@.len(),
            forall|j: int| 0 <= j < i ==> a@[j] == b@[j],
        decreases a@.len() - i,
    {
        if a[i] != b[i] {
            return false;
        }
        i = i + 1;
    }
    proof {
        assert(a@ =~= b@);
    }
    true
}

/// An owned copy of a byte vector.
pub fn clone_bytes(v: &Vec<u8>) -> (r: Vec<u8>)
    ensures
        r@ == v@,
{
    let mut r: Vec<u8> = Vec::new();
    let mut i: usize = 0;
    while i < v.len()
        invariant
            i <= v@.len(),
            r@ =~= v@.take(i as int),
        decreases v@.len() - i,
    {
        r.push(v[i]);
        proof {
            assert(r@ =~= v@.take(i + 1));
        }
        i = i + 1;
    }
    proof {
        assert(v@.take(v@.len() as int) =~= v@);
    }
    r
}

/// Relies on std's `String::from_utf8_lossy`: the result depends on the
/// bytes alone, and valid UTF-8 comes back as exactly the decoded text.
#[verifier::external_body]
fn utf8_lossy(v: &[u8]) -> (r: String)
    ensures
        r@ == lossy_of(v@),
        valid_utf8(v@) ==> r@ == decode_utf8(v@),
{
    String::from_utf8_lossy(v).into_owned()
}

/// Relies on std's `str::from_utf8`: it succeeds exactly on valid UTF-8 and
/// returns a view of the same bytes.
#[verifier::external_body]
fn utf8_from_bytes(v: &[u8]) -> (r: Option<&str>)
    ensures
        match r {
            Some(s) => valid_utf8(v@) && s@ == decode_utf8(v@),
            None => !valid_utf8(v@),
        },
{
    core::str::from_utf8(v).ok()
}

/// Relies on `PathBuf`'s `From<&str>` conversion: the result depends on the
/// text alone.
#[verifier::external_body]
fn path_from_str(s: &str) -> (r: PathBuf)
    ensures
        r == pathbuf_of(s@),
{
    PathBuf::from(s)
}

} // verus!
