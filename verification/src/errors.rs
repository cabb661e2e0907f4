//! Fatal parse errors. Either one aborts the whole conversion: no output is
//! produced once a block fails to parse.

use vstd::prelude::*;

verus! {

/// A fatal condition met while parsing a block.
#[derive(Clone, Copy, Debug, PartialEq, Eq, Structural)]
pub enum ParseError {
    /// A required key (`name`, `url`, `python_version`) is absent from a
    /// block.
    MissingField,
    /// A non-blank line inside a source or settings block has no
    /// `key = value` shape.
    MalformedLine,
}

} // verus!
