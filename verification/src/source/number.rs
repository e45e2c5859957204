//! Number literals.

use vstd::prelude::*;
use vstd::string::*;

verus! {

/// A number literal, kept as it is written in source text.
#[derive(Debug, PartialEq, Eq, Hash)]
pub struct Number {
    raw: String,
}

impl View for Number {
    type V = Seq<char>;

    closed spec fn view(&self) -> Seq<char> {
        self.raw@
    }
}

impl Clone for Number {
    fn clone(&self) -> (copy: Number)
        ensures
            copy == *self,
    {
        Number { raw: self.raw.clone() }
    }
}

impl Number {
    /// The number that is written as `raw`.
    pub fn new(raw: String) -> (number: Number)
        ensures
            number@ == raw@,
    {
        Number { raw }
    }

    /// The number as it is written in source text.
    pub fn as_str(&self) -> (raw: &str)
        ensures
            raw@ == self@,
    {
        self.raw.as_str()
    }
}

} // verus!
