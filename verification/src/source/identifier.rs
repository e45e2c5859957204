//! Names and the words reserved by the language.

use vstd::prelude::*;
use vstd::string::*;

verus! {

/// A word that the language reserves: it can never be used as a name.
#[derive(Clone, Copy, Debug, PartialEq, Eq, Hash, Structural)]
pub enum Keyword {
    /// `true`
    True,
    /// `false`
    False,
    /// `let`
    Let,
    /// `if`
    If,
    /// `else`
    Else,
    /// `do`
    Do,
}

impl Keyword {
    /// The keyword as it is written in source text.
    pub open spec fn text(self) -> Seq<char> {
        match self {
            Keyword::True => seq!['t', 'r', 'u', 'e'],
            Keyword::False => seq!['f', 'a', 'l', 's', 'e'],
            Keyword::Let => seq!['l', 'e', 't'],
            Keyword::If => seq!['i', 'f'],
            Keyword::Else => seq!['e', 'l', 's', 'e'],
            Keyword::Do => seq!['d', 'o'],
        }
    }

    /// The keyword that is written as `word`, if there is one.
    pub open spec fn spec_from_chars(word: Seq<char>) -> Option<Keyword> {
        if word == Keyword::True.text() {
            Some(Keyword::True)
        } else if word == Keyword::False.text() {
            Some(Keyword::False)
        } else if word == Keyword::Let.text() {
            Some(Keyword::Let)
        } else if word == Keyword::If.text() {
            Some(Keyword::If)
        } else if word == Keyword::Else.text() {
            Some(Keyword::Else)
        } else if word == Keyword::Do.text() {
            Some(Keyword::Do)
        } else {
            None
        }
    }

    /// Each keyword is found again from the way it is written.
    pub proof fn lemma_text_round_trip(self)
        ensures
            Keyword::spec_from_chars(self.text()) == Some(self),
    {
        assert(Keyword::True.text().len() == 4 && Keyword::True.text()[0] == 't');
        assert(Keyword::False.text().len() == 5);
        assert(Keyword::Let.text().len() == 3);
        assert(Keyword::If.text().len() == 2 && Keyword::If.text()[0] == 'i');
        assert(Keyword::Else.text().len() == 4 && Keyword::Else.text()[0] == 'e');
        assert(Keyword::Do.text().len() == 2 && Keyword::Do.text()[0] == 'd');
    }

    /// The keyword as it is written in source text.
    pub fn as_str(&self) -> (text: &'static str)
        ensures
            text@ == self.text(),
    {
        proof {
            reveal_strlit("true");
            reveal_strlit("false");
            reveal_strlit("let");
            reveal_strlit("if");
            reveal_strlit("else");
            reveal_strlit("do");
        }
        match self {
            Keyword::True => {
                assert("true"@ =~= Keyword::True.text());
                "true"
            },
            Keyword::False => {
                assert("false"@ =~= Keyword::False.text());
                "false"
            },
            Keyword::Let => {
                assert("let"@ =~= Keyword::Let.text());
                "let"
            },
            Keyword::If => {
                assert("if"@ =~= Keyword::If.text());
                "if"
            },
            Keyword::Else => {
                assert("else"@ =~= Keyword::Else.text());
                "else"
            },
            Keyword::Do => {
                assert("do"@ =~= Keyword::Do.text());
                "do"
            },
        }
    }

    /// Finds the keyword that is written as `word`, if there is one.
    pub fn from_chars(word: &Vec<char>) -> (keyword: Option<Keyword>)
        ensures
            keyword == Keyword::spec_from_chars(word@),
    {
        let n = word.len();
        if n == 4 && word[0] == 't' && word[1] == 'r' && word[2] == 'u' && word[3] == 'e' {
            assert(word@ =~= Keyword::True.text());
            Some(Keyword::True)
        } else if n == 5 && word[0] == 'f' && word[1] == 'a' && word[2] == 'l' && word[3] == 's'
            && word[4] == 'e' {
            assert(word@ =~= Keyword::False.text());
            Some(Keyword::False)
        } else if n == 3 && word[0] == 'l' && word[1] == 'e' && word[2] == 't' {
            assert(word@ =~= Keyword::Let.text());
            Some(Keyword::Let)
        } else if n == 2 && word[0] == 'i' && word[1] == 'f' {
            assert(word@ =~= Keyword::If.text());
            Some(Keyword::If)
        } else if n == 4 && word[0] == 'e' && word[1] == 'l' && word[2] == 's' && word[3] == 'e' {
            assert(word@ =~= Keyword::Else.text());
            Some(Keyword::Else)
        } else if n == 2 && word[0] == 'd' && word[1] == 'o' {
            assert(word@ =~= Keyword::Do.text());
            Some(Keyword::Do)
        } else {
            assert(Keyword::True.text().len() == 4 && Keyword::True.text()[0] == 't'
                && Keyword::True.text()[1] == 'r' && Keyword::True.text()[2] == 'u'
                && Keyword::True.text()[3] == 'e');
            assert(Keyword::False.text().len() == 5 && Keyword::False.text()[0] == 'f'
                && Keyword::False.text()[1] == 'a' && Keyword::False.text()[2] == 'l'
                && Keyword::False.text()[3] == 's' && Keyword::False.text()[4] == 'e');
            assert(Keyword::Let.text().len() == 3 && Keyword::Let.text()[0] == 'l'
                && Keyword::Let.text()[1] == 'e' && Keyword::Let.text()[2] == 't');
            assert(Keyword::If.text().len() == 2 && Keyword::If.text()[0] == 'i'
                && Keyword::If.text()[1] == 'f');
            assert(Keyword::Else.text().len() == 4 && Keyword::Else.text()[0] == 'e'
                && Keyword::Else.text()[1] == 'l' && Keyword::Else.text()[2] == 's'
                && Keyword::Else.text()[3] == 'e');
            assert(Keyword::Do.text().len() == 2 && Keyword::Do.text()[0] == 'd'
                && Keyword::Do.text()[1] == 'o');
            None
        }
    }
}

/// A word that is reserved only where the grammar expects it, and is a name elsewhere.
#[derive(Clone, Copy, Debug, PartialEq, Eq, Hash, Structural)]
pub enum IdentifierKeyword {
    /// `base`
    Base,
}

impl IdentifierKeyword {
    /// The word as it is written in source text.
    pub open spec fn text(self) -> Seq<char> {
        "base"@
    }

    /// The word as it is written in source text.
    pub fn as_str(&self) -> (text: &'static str)
        ensures
            text@ == self.text(),
    {
        "base"
    }
}

/// A name in a program.
#[derive(Debug, PartialEq, Eq, Hash)]
pub struct Identifier {
    text: String,
}

impl View for Identifier {
    type V = Seq<char>;

    closed spec fn view(&self) -> Seq<char> {
        self.text@
    }
}

impl Clone for Identifier {
    fn clone(&self) -> (copy: Identifier)
        ensures
            copy == *self,
    {
        Identifier { text: self.text.clone() }
    }
}

impl Identifier {
    /// The name that is written as `text`.
    pub fn new(text: String) -> (identifier: Identifier)
        ensures
            identifier@ == text@,
    {
        Identifier { text }
    }

    /// The name as it is written in source text.
    pub fn as_str(&self) -> (text: &str)
        ensures
            text@ == self@,
    {
        self.text.as_str()
    }
}

} // verus!
