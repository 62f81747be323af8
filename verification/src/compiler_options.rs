//! Options that control parsing.

use vstd::prelude::*;
use std::rc::Rc;

verus! {

/// Defines compiler options used within the parser.
/// This structure is empty in the present.
pub struct CompilerOptions {}

impl CompilerOptions {
    pub fn new() -> (r: Rc<Self>)
        ensures
            *r == (CompilerOptions {}),
    {
        Rc::new(Self {})
    }

    pub fn default() -> (r: Rc<Self>)
        ensures
            *r == (CompilerOptions {}),
    {
        Rc::new(Self {})
    }
}

/// Indicates a fatal syntax error that leads parsing
/// to finish without a resulting node.
///
/// This ActionScript 3 parser is intolerant in general,
/// thus resulting in a `ParserFailure` for almost any syntax error.
#[derive(Clone, Copy, Debug, PartialEq, Eq, Structural)]
pub struct ParserFailure;

} // verus!
