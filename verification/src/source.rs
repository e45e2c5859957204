//! Parsing, printing, and traversing Brite source code.

pub mod ast;
pub mod document;
pub mod identifier;
pub mod lexer;
pub mod number;
pub mod parser;
pub mod recovery;
pub mod token;

pub use self::ast::Module;
pub use self::document::{Document, DocumentChars, Position, Range};
pub use self::token::{Glyph, Token, TokenRange};

use self::document::{lemma_utf8_len_is_encoded_len, utf8_len};
use self::lexer::{complete, covers, lemma_lex_from, lex, Lexer};
use self::parser::Parser;
use self::token::token_views;
use crate::diagnostics::DiagnosticsCollection;
use vstd::prelude::*;

verus! {

/// The tokens of a document cover it: they form a complete stream, and their full ranges
/// lie end to end from the start of the document to its end, with no gap and no overlap.
pub proof fn lemma_tokens_cover_document(text: Seq<char>)
    ensures
        complete(lex(text)),
        covers(lex(text), 0, utf8_len(text)),
        lex(text).len() <= text.len() + 1,
{
    lemma_lex_from(text, 0);
}

/// A tree that was parsed from a document gives back the tokens of the document: the tokens
/// that the tree is made into are those that the lexer reads from the document.
pub proof fn lemma_round_trip(
    document: &Document,
    module: Module,
    from_module: Seq<Token>,
    from_lexer: Seq<Token>,
)
    requires
        module.tokens() == lex(document@),
        token_views(from_module) == module.tokens(),
        token_views(from_lexer) == lex(document@),
    ensures
        token_views(from_module) == token_views(from_lexer),
        from_module.len() == from_lexer.len(),
        forall|i: int| 0 <= i < from_module.len() ==> from_module[i]@ == from_lexer[i]@,
{
    assert(from_module.len() == token_views(from_module).len());
    assert(from_lexer.len() == token_views(from_lexer).len());
    assert forall|i: int| 0 <= i < from_module.len() implies from_module[i]@ == from_lexer[i]@ by {
        assert(token_views(from_module)[i] == from_module[i]@);
        assert(token_views(from_lexer)[i] == from_lexer[i]@);
    }
}

/// Parses a Brite source document into an Abstract Syntax Tree (AST). We can handle any source
/// text thrown at this function. Only correct Brite code can be executed, though.
///
/// The tree holds every token of the document, in the order of the document; it follows the
/// grammar, with an error node wherever the document does not; and one diagnostic is
/// reported for each error node, in the order of the document.
pub fn parse(document: &Document) -> (result: (DiagnosticsCollection, Module))
    ensures
        result.1.tokens() == lex(document@),
        result.1.parses(document, lex(document@)),
        complete(lex(document@)),
        covers(lex(document@), 0, document.bytes().len()),
        result.0@ == result.1.diagnostics(),
        result.1.wf(),
{
    proof {
        lemma_tokens_cover_document(document@);
        lemma_utf8_len_is_encoded_len(document@);
    }
    // Create the lexer out of document characters.
    let lexer = Lexer::new(document);
    // Parse our module using the lexer.
    Parser::parse(lexer)
}

} // verus!
