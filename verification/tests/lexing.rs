use kangaroo::lexer::{nexttoken, tokenize};
use kangaroo::token::TokenType;

#[test]
fn digits_yield_one_number_token() {
    let toks = tokenize("12345");
    assert_eq!(toks.len(), 2);
    assert_eq!(toks[0].tokentype, TokenType::NUMBER);
    assert_eq!(toks[0].literal, "12345");
    assert_eq!(toks[1].tokentype, TokenType::EOF);
}

#[test]
fn number_with_fraction() {
    let toks = tokenize("12.5");
    assert_eq!(toks[0].tokentype, TokenType::NUMBER);
    assert_eq!(toks[0].literal, "12.5");
    assert_eq!(toks[1].tokentype, TokenType::EOF);
    assert_eq!(toks.len(), 2);
}

#[test]
fn number_with_trailing_separator_is_accepted() {
    let toks = tokenize("12.");
    assert_eq!(toks[0].tokentype, TokenType::NUMBER);
    assert_eq!(toks[0].literal, "12.");
    assert_eq!(toks[1].tokentype, TokenType::EOF);
    assert_eq!(toks.len(), 2);
}

#[test]
fn number_with_two_separators_splits() {
    // only one separator is consumed; the second opens a new token
    let toks = tokenize("1.2.3");
    assert_eq!(toks[0].tokentype, TokenType::NUMBER);
    assert_eq!(toks[0].literal, "1.2");
    assert_eq!(toks[1].tokentype, TokenType::UNDEFINED);
    assert_eq!(toks[1].literal, ".");
    assert_eq!(toks[2].tokentype, TokenType::NUMBER);
    assert_eq!(toks[2].literal, "3");
    assert_eq!(toks[3].tokentype, TokenType::EOF);
}

#[test]
fn identifier_with_digits_and_underscore() {
    let toks = tokenize("foo_1");
    assert_eq!(toks[0].tokentype, TokenType::IDENT);
    assert_eq!(toks[0].literal, "foo_1");
    assert_eq!(toks[1].tokentype, TokenType::EOF);
    assert_eq!(toks.len(), 2);
}

#[test]
fn identifier_opened_by_underscore() {
    let toks = tokenize("_x9");
    assert_eq!(toks[0].tokentype, TokenType::IDENT);
    assert_eq!(toks[0].literal, "_x9");
    assert_eq!(toks[1].tokentype, TokenType::EOF);
    assert_eq!(toks.len(), 2);
}

#[test]
fn empty_input_yields_exactly_one_eof() {
    let toks = tokenize("");
    assert_eq!(toks.len(), 1);
    assert_eq!(toks[0].tokentype, TokenType::EOF);
}

#[test]
fn eof_is_idempotent_at_end_of_stream() {
    let (t1, p1) = nexttoken("", 0);
    assert_eq!(t1.tokentype, TokenType::EOF);
    assert_eq!(p1, 0);
    let (t2, p2) = nexttoken("", p1);
    assert_eq!(t2.tokentype, TokenType::EOF);
    assert_eq!(p2, 0);
}

#[test]
fn punctuation_kinds() {
    let toks = tokenize("+ - * / % # $ : , = ( ) { } ;");
    let kinds: Vec<TokenType> = toks.iter().map(|t| t.tokentype).collect();
    assert_eq!(
        kinds,
        vec![
            TokenType::PLUS,
            TokenType::MINUS,
            TokenType::ASTERISK,
            TokenType::SLASH,
            TokenType::PERCENT,
            TokenType::HASH,
            TokenType::DOLLAR,
            TokenType::COLON,
            TokenType::COMMA,
            TokenType::ASSIGN,
            TokenType::LPAREN,
            TokenType::RPAREN,
            TokenType::LBRACE,
            TokenType::RBRACE,
            TokenType::SEMICOLON,
            TokenType::EOF,
        ]
    );
}

#[test]
fn double_slash_yields_semicolon_then_slash() {
    // `//` is an implicit statement terminator, not a comment: the first
    // slash becomes a SEMICOLON token with lexeme `;`, and only that slash
    // is consumed, so the second one is scanned again on its own.
    let toks = tokenize("//");
    assert_eq!(toks[0].tokentype, TokenType::SEMICOLON);
    assert_eq!(toks[0].literal, ";");
    assert_eq!(toks[1].tokentype, TokenType::SLASH);
    assert_eq!(toks[1].literal, "/");
    assert_eq!(toks[2].tokentype, TokenType::EOF);
    assert_eq!(toks.len(), 3);
}

#[test]
fn double_slash_does_not_strip_the_rest_of_the_line() {
    let toks = tokenize("a//b");
    assert_eq!(toks[0].tokentype, TokenType::IDENT);
    assert_eq!(toks[0].literal, "a");
    assert_eq!(toks[1].tokentype, TokenType::SEMICOLON);
    assert_eq!(toks[2].tokentype, TokenType::SLASH);
    assert_eq!(toks[3].tokentype, TokenType::IDENT);
    assert_eq!(toks[3].literal, "b");
    assert_eq!(toks[4].tokentype, TokenType::EOF);
}

#[test]
fn unrecognized_character_yields_undefined() {
    let toks = tokenize("?");
    assert_eq!(toks[0].tokentype, TokenType::UNDEFINED);
    assert_eq!(toks[0].literal, "?");
    assert_eq!(toks[1].tokentype, TokenType::EOF);
}

#[test]
fn at_sign_is_ordinary_input() {
    // exhaustion of input is signalled by position, not by a reserved
    // sentinel character, so `@` is scanned like any other stray character
    let toks = tokenize("@");
    assert_eq!(toks[0].tokentype, TokenType::UNDEFINED);
    assert_eq!(toks[0].literal, "@");
    assert_eq!(toks[1].tokentype, TokenType::EOF);
    assert_eq!(toks.len(), 2);
}

#[test]
fn whitespace_is_skipped_before_tokens() {
    let toks = tokenize("  \t\n  foo   42  ");
    assert_eq!(toks[0].tokentype, TokenType::IDENT);
    assert_eq!(toks[0].literal, "foo");
    assert_eq!(toks[1].tokentype, TokenType::NUMBER);
    assert_eq!(toks[1].literal, "42");
    assert_eq!(toks[2].tokentype, TokenType::EOF);
}

#[test]
fn non_ascii_characters_are_single_undefined_tokens() {
    let toks = tokenize("é");
    assert_eq!(toks[0].tokentype, TokenType::UNDEFINED);
    assert_eq!(toks[0].literal, "é");
    assert_eq!(toks[1].tokentype, TokenType::EOF);
}

#[test]
fn nexttoken_scans_on_demand() {
    let src = "# a";
    let (t0, p0) = nexttoken(src, 0);
    assert_eq!(t0.tokentype, TokenType::HASH);
    assert_eq!(t0.literal, "#");
    let (t1, p1) = nexttoken(src, p0);
    assert_eq!(t1.tokentype, TokenType::IDENT);
    assert_eq!(t1.literal, "a");
    let (t2, _) = nexttoken(src, p1);
    assert_eq!(t2.tokentype, TokenType::EOF);
}
