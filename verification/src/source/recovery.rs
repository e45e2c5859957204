//! The glyphs at which the parser stops skipping tokens when it recovers from an error.

use super::identifier::Keyword;
use super::token::Glyph;
use std::collections::HashMap;
use vstd::multiset::*;
use vstd::prelude::*;

verus! {

broadcast use vstd::std_specs::hash::group_hash_axioms;

/// The glyph that the code `code` stands for, if it stands for one.
pub open spec fn glyph_of_code(code: u64) -> Option<Glyph> {
    if code == 0 {
        Some(Glyph::BraceLeft)
    } else if code == 1 {
        Some(Glyph::BraceRight)
    } else if code == 2 {
        Some(Glyph::Comma)
    } else if code == 3 {
        Some(Glyph::Dot)
    } else if code == 4 {
        Some(Glyph::Equals)
    } else if code == 5 {
        Some(Glyph::ParenLeft)
    } else if code == 6 {
        Some(Glyph::ParenRight)
    } else if code == 7 {
        Some(Glyph::Semicolon)
    } else if code == 8 {
        Some(Glyph::Underscore)
    } else if code == 9 {
        Some(Glyph::Keyword(Keyword::True))
    } else if code == 10 {
        Some(Glyph::Keyword(Keyword::False))
    } else if code == 11 {
        Some(Glyph::Keyword(Keyword::Let))
    } else if code == 12 {
        Some(Glyph::Keyword(Keyword::If))
    } else if code == 13 {
        Some(Glyph::Keyword(Keyword::Else))
    } else if code == 14 {
        Some(Glyph::Keyword(Keyword::Do))
    } else {
        None
    }
}

/// The glyphs at which the parser recovers, each with the number of scopes that are open for
/// it. Scopes nest, and one glyph may be put in scope several times: it stays a place to
/// recover at until every scope that was opened for it is closed again.
pub struct RecoverySet {
    counts: HashMap<u64, u64>,
    scopes: Ghost<Multiset<Glyph>>,
}

impl View for RecoverySet {
    type V = Multiset<Glyph>;

    /// The glyphs in scope: each as often as a scope is open for it.
    closed spec fn view(&self) -> Multiset<Glyph> {
        self.scopes@
    }
}

impl RecoverySet {
    /// The counts that the set keeps are those of the open scopes, and a glyph without an
    /// open scope has no count.
    pub closed spec fn wf(&self) -> bool {
        &&& forall|glyph: Glyph|
            self.counts@.contains_key(#[trigger] glyph.spec_code()) <==> self.scopes@.count(glyph)
                > 0
        &&& forall|glyph: Glyph|
            self.counts@.contains_key(#[trigger] glyph.spec_code()) ==> self.counts@[glyph.spec_code()]
                == self.scopes@.count(glyph)
        &&& forall|code: u64| #[trigger]
            self.counts@.contains_key(code) ==> glyph_of_code(code) is Some
    }

    /// A set without a scope.
    pub fn new() -> (set: RecoverySet)
        ensures
            set.wf(),
            set@ == Multiset::<Glyph>::empty(),
    {
        RecoverySet { counts: HashMap::new(), scopes: Ghost(Multiset::empty()) }
    }

    /// Is a scope open for `glyph`?
    pub fn contains(&self, glyph: Glyph) -> (contains: bool)
        requires
            self.wf(),
        ensures
            contains == (self@.count(glyph) > 0),
    {
        let code = glyph.code();
        self.counts.contains_key(&code)
    }

    /// Is no scope open?
    pub fn is_empty(&self) -> (empty: bool)
        requires
            self.wf(),
        ensures
            empty == (self@.len() == 0),
            empty == (self@ == Multiset::<Glyph>::empty()),
    {
        let empty = self.counts.len() == 0;
        proof {
            if self@.len() == 0 {
                assert forall|code: u64| !self.counts@.contains_key(code) by {
                    if self.counts@.contains_key(code) {
                        let glyph = glyph_of_code(code)->0;
                        assert(glyph.spec_code() == code);
                        assert(self.scopes@.count(glyph) <= self.scopes@.len());
                    }
                }
                assert(self.counts@.dom() =~= Set::<u64>::empty());
                assert(self@ =~= Multiset::<Glyph>::empty());
            }
            if empty {
                assert(self.counts@.dom().len() == 0);
                assert forall|glyph: Glyph| self.scopes@.count(glyph) == 0 by {
                    if self.scopes@.count(glyph) > 0 {
                        assert(self.counts@.dom().contains(glyph.spec_code()));
                    }
                }
                assert(self@ =~= Multiset::<Glyph>::empty());
            }
        }
        empty
    }

    /// Opens a scope for `glyph`.
    pub fn enter(&mut self, glyph: Glyph)
        requires
            old(self).wf(),
            old(self)@.len() < u64::MAX,
        ensures
            final(self).wf(),
            final(self)@ == old(self)@.insert(glyph),
            final(self)@.len() == old(self)@.len() + 1,
    {
        let code = glyph.code();
        let count: u64 = match self.counts.get(&code) {
            Some(count) => *count,
            None => 0,
        };
        assert(count == self.scopes@.count(glyph));
        assert(self.scopes@.count(glyph) <= self.scopes@.len());
        self.counts.insert(code, count + 1);
        self.scopes = Ghost(self.scopes@.insert(glyph));
        proof {
            assert forall|other: Glyph|
                self.counts@.contains_key(#[trigger] other.spec_code()) <==> self.scopes@.count(
                    other,
                ) > 0 by {
                if other.spec_code() == code {
                    other.lemma_code_injective(glyph);
                }
            }
            assert forall|other: Glyph|
                self.counts@.contains_key(
                    #[trigger] other.spec_code(),
                ) implies self.counts@[other.spec_code()] == self.scopes@.count(other) by {
                if other.spec_code() == code {
                    other.lemma_code_injective(glyph);
                }
            }
        }
    }

    /// Closes a scope for `glyph`. Where none is open nothing changes.
    pub fn leave(&mut self, glyph: Glyph)
        requires
            old(self).wf(),
        ensures
            final(self).wf(),
            final(self)@ == old(self)@.remove(glyph),
            old(self)@.count(glyph) > 0 ==> final(self)@.len() == old(self)@.len() - 1,
    {
        let code = glyph.code();
        let count: u64 = match self.counts.get(&code) {
            Some(count) => *count,
            None => 0,
        };
        assert(count == self.scopes@.count(glyph));
        if count > 1 {
            self.counts.insert(code, count - 1);
        } else if count == 1 {
            self.counts.remove(&code);
        }
        self.scopes = Ghost(self.scopes@.remove(glyph));
        proof {
            assert forall|other: Glyph|
                self.counts@.contains_key(#[trigger] other.spec_code()) <==> self.scopes@.count(
                    other,
                ) > 0 by {
                if other.spec_code() == code {
                    other.lemma_code_injective(glyph);
                }
            }
            assert forall|other: Glyph|
                self.counts@.contains_key(
                    #[trigger] other.spec_code(),
                ) implies self.counts@[other.spec_code()] == self.scopes@.count(other) by {
                if other.spec_code() == code {
                    other.lemma_code_injective(glyph);
                }
            }
            if old(self)@.count(glyph) > 0 {
                assert(Multiset::singleton(glyph).subset_of(old(self)@)) by {
                    assert forall|other: Glyph|
                        Multiset::singleton(glyph).count(other) <= old(self)@.count(other) by {
                        if other != glyph {
                        }
                    }
                }
            }
        }
    }
}

} // verus!
