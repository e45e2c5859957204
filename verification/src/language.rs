//! Pieces of the language that the syntax tree and the checked tree share.

use crate::source::number::Number;
use vstd::prelude::*;
use vstd::string::*;

verus! {

/// A constant value written in a program.
#[derive(Debug, PartialEq, Eq)]
pub enum Constant {
    /// `true` or `false`.
    Boolean(bool),
    /// A number, as it is written.
    Number(Number),
}

/// An operator that joins two conditions and may leave the second one unevaluated.
#[derive(Clone, Copy, Debug, PartialEq, Eq, Structural)]
pub enum LogicalOperator {
    /// `&&`
    And,
    /// `||`
    Or,
}

/// An operator that stands in front of its operand.
#[derive(Clone, Copy, Debug, PartialEq, Eq, Structural)]
pub enum PrefixOperator {
    /// `!`
    Not,
    /// `-`
    Negative,
    /// `+`
    Positive,
}

impl Clone for Constant {
    fn clone(&self) -> (copy: Constant)
        ensures
            copy == *self,
    {
        match self {
            Constant::Boolean(value) => Constant::Boolean(*value),
            Constant::Number(number) => Constant::Number(number.clone()),
        }
    }
}

impl Constant {
    /// The constant as it is written in source text.
    pub open spec fn text(&self) -> Seq<char> {
        match self {
            Constant::Boolean(true) => "true"@,
            Constant::Boolean(false) => "false"@,
            Constant::Number(number) => number@,
        }
    }

    /// Writes the constant as it is written in source text.
    pub fn print(&self) -> (text: String)
        ensures
            text@ == self.text(),
    {
        match self {
            Constant::Boolean(true) => String::from_str("true"),
            Constant::Boolean(false) => String::from_str("false"),
            Constant::Number(number) => String::from_str(number.as_str()),
        }
    }
}

} // verus!
