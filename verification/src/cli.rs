//! The search arguments the tool consumes itself.
//!
//! Most command-line flags are forwarded verbatim to the search engine by
//! the surrounding program; the core keeps only what its own rules read:
//! the patterns, the paths, the encoding override applied at patch time,
//! and the "unrestricted" repeat flag, which is capped because the feature
//! a third repetition would unlock is unsupported.

use vstd::prelude::*;

verus! {

/// The highest accepted count of the "unrestricted" repeat flag.
pub const MAX_UNRESTRICTED: usize = 2;

/// No positional pattern and no pattern flags were given.
#[derive(Clone, Copy, Debug, PartialEq, Eq, Structural)]
pub struct NoPatternError;

/// The locally consumed search arguments.
#[derive(Debug)]
pub struct Args {
    /// The positional pattern, unless patterns came through flags.
    pub pattern: Option<String>,
    /// The paths in which to search.
    pub paths: Vec<String>,
    /// Patterns given through the repeatable pattern flag.
    pub patterns: Vec<String>,
    /// The encoding override applied at patch time.
    pub encoding: Option<String>,
    /// How many times the "unrestricted" flag was repeated.
    pub unrestricted: usize,
}

impl Args {
    /// The patterns the engine is asked to search: the positional pattern
    /// if one is set, else the flag-supplied ones.
    pub fn rg_patterns(&self) -> (r: Vec<&str>)
        ensures
            match self.pattern {
                Some(p) => r@.len() == 1 && r@[0]@ == p@,
                None => r@.len() == self.patterns@.len() && forall|i: int|
                    0 <= i < r@.len() ==> r@[i]@ == self.patterns@[i]@,
            },
    {
        match &self.pattern {
            Some(p) => {
                let mut v: Vec<&str> = Vec::new();
                v.push(p.as_str());
                v
            },
            None => {
                let mut v: Vec<&str> = Vec::new();
                let mut i: usize = 0;
                while i < self.patterns.len()
                    invariant
                        i <= self.patterns@.len(),
                        v@.len() == i,
                        forall|j: int| 0 <= j < i ==> v@[j]@ == self.patterns@[j]@,
                    decreases self.patterns@.len() - i,
                {
                    v.push(self.patterns[i].as_str());
                    i = i + 1;
                }
                v
            },
        }
    }
}

/// The decisions taken after argument parsing, on plain values.
///
/// Rejects a call with no pattern at all; reads a positional pattern as one
/// more path when patterns also came through flags; and clamps the
/// "unrestricted" repeat count to [`MAX_UNRESTRICTED`].
pub fn normalize_arguments(args: Args) -> (r: Result<Args, NoPatternError>)
    ensures
        r is Err <==> (args.pattern is None && args.patterns@.len() == 0),
        match r {
            Ok(a) => {
                &&& if args.pattern is Some && args.patterns@.len() > 0 {
                    a.pattern is None && a.paths@ == args.paths@.push(args.pattern.unwrap())
                } else {
                    a.pattern == args.pattern && a.paths@ == args.paths@
                }
                &&& a.patterns@ == args.patterns@
                &&& a.encoding == args.encoding
                &&& a.unrestricted == if args.unrestricted > MAX_UNRESTRICTED {
                    MAX_UNRESTRICTED as int
                } else {
                    args.unrestricted as int
                }
            },
            Err(_) => true,
        },
{
    let mut args = args;
    if args.pattern.is_none() && args.patterns.len() == 0 {
        return Err(NoPatternError);
    }
    if args.pattern.is_some() && args.patterns.len() > 0 {
        let p = args.pattern;
        args.pattern = None;
        match p {
            Some(p) => args.paths.push(p),
            None => {},
        }
    }
    if args.unrestricted > MAX_UNRESTRICTED {
        args.unrestricted = MAX_UNRESTRICTED;
    }
    Ok(args)
}

} // verus!
