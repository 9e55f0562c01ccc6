//! Separators between the items of a token list.

use vstd::prelude::*;

verus! {

/// The token that separates the items of a list.
#[derive(Debug, Clone, Copy, PartialEq, Eq)]
pub enum Seperator {
    /// `,`
    Comma,
    /// `|`
    Pipe,
    /// `;`
    Semi,
}

/// The character of each separator's token.
pub open spec fn separator_char(sep: Seperator) -> char {
    match sep {
        Seperator::Comma => ',',
        Seperator::Pipe => '|',
        Seperator::Semi => ';',
    }
}

impl Seperator {
    /// The character of the separator's token.
    pub fn symbol(&self) -> (r: char)
        ensures
            r == separator_char(*self),
    {
        match self {
            Seperator::Comma => ',',
            Seperator::Pipe => '|',
            Seperator::Semi => ';',
        }
    }
}

} // verus!
