//! The token model: a closed set of token kinds, each carrying the literal
//! source text (lexeme) it was scanned from.

use vstd::prelude::*;

verus! {

/// The closed set of token kinds the lexer can produce.
///
/// `UNDEFINED` carries an unrecognized character; it is the only lexical
/// error signal, and the lexer itself does not treat it as fatal — the
/// parser decides what to do with it.
#[derive(Clone, Copy, Debug, PartialEq, Eq, Structural)]
pub enum TokenType {
    IDENT,
    NUMBER,
    PLUS,
    MINUS,
    ASTERISK,
    SLASH,
    PERCENT,
    HASH,
    DOLLAR,
    COLON,
    COMMA,
    ASSIGN,
    LPAREN,
    RPAREN,
    LBRACE,
    RBRACE,
    SEMICOLON,
    EOF,
    UNDEFINED,
}

/// The mathematical image of a token: its kind and the text it captured.
pub struct SpecToken {
    pub kind: TokenType,
    pub lexeme: Seq<char>,
}

/// A token: a kind together with the literal source text it was scanned from.
#[derive(Debug)]
pub struct Token {
    pub tokentype: TokenType,
    pub literal: String,
}

impl View for Token {
    type V = SpecToken;

    open spec fn view(&self) -> SpecToken {
        SpecToken { kind: self.tokentype, lexeme: self.literal@ }
    }
}

impl Token {
    pub fn new(tokentype: TokenType, literal: String) -> (t: Token)
        ensures
            t.tokentype == tokentype,
            t.literal == literal,
    {
        Token { tokentype, literal }
    }

    /// An owned copy equal to this token.
    pub fn duplicate(&self) -> (t: Token)
        ensures
            t == *self,
    {
        Token { tokentype: self.tokentype, literal: self.literal.clone() }
    }
}

} // verus!
