//! The two kinds of matcher: on request headers and on the JSON body.

use vstd::prelude::*;

pub mod headers;
pub mod json;

verus! {

/// Why a request could not be held against the rules.
#[derive(Debug, Clone, Copy, PartialEq, Eq, Structural)]
pub enum MatchError {
    /// A header that a matcher asks for is present, and its value is not text.
    UndecodableHeader,
}

} // verus!
