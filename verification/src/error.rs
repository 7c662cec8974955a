//! The failures that a grammar reports.

use vstd::prelude::*;

verus! {

/// Why a production did not parse. A failure is an ordinary value: the caller
/// may rewind and try a sibling production.
#[derive(Clone, Copy, Debug, PartialEq, Eq, Structural, Hash)]
pub enum ParseFailure {
    /// The expected token or identifier is absent.
    Grammar,
    /// The tokens were read but the value they describe is not allowed.
    Unspecified,
    /// A character cannot start a cell of a template-area row.
    Tokenization,
}

} // verus!
