//! A minimal regular-expression engine: a compiler from pattern text to a
//! sequence of pattern elements, and a matcher that tests whether the
//! compiled pattern occurs (anchored or unanchored) in one line of input.
//!
//! Supported syntax: literals, `.`, `\d`, `\w`, `[...]`, `[^...]`, `^`, `$`,
//! and the quantifiers `+`, `*`, `?` applied to the single preceding element.
//! Quantifiers are greedy and do not backtrack: once a repetition has
//! consumed as much as it can, it never gives characters back to let a later
//! element match.
use vstd::prelude::*;

pub mod compile;
pub mod laws;
pub mod matcher;
pub mod pattern;

pub use compile::Cursor;
pub use pattern::{CompileError, Regex, RegexClass, RegexElement};

use crate::compile::spec_compile;
use crate::matcher::spec_matches;

verus! {

/// Compiles `pattern` and tests whether it occurs in `input_line`:
/// `Ok(matched)`, or the error for a malformed pattern.
pub fn match_pattern(input_line: &str, pattern: &str) -> (r: Result<bool, CompileError>)
    ensures
        (match spec_compile(pattern@) {
            Ok(elems) => r == Ok::<bool, CompileError>(spec_matches(elems, input_line@)),
            Err(e) => r == Err::<bool, CompileError>(e),
        }),
{
    match Regex::compile(pattern) {
        Ok(re) => Ok(re.matches(input_line)),
        Err(e) => Err(e),
    }
}

} // verus!

