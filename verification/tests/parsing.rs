use kangaroo::node::{Block, Statement};
use kangaroo::parser::{parse, ParseError, Parser};
use kangaroo::token::TokenType;

fn parse_ok(text: &str) -> Block {
    parse(text.to_owned()).unwrap()
}

#[test]
fn one_band_with_number_value() {
    let block = parse_ok("# name = 1;");
    assert_eq!(block.stmts.len(), 1);
    let Statement::Band(band) = &block.stmts[0];
    assert_eq!(band.name.value, "name");
    assert_eq!(band.name.literal.tokentype, TokenType::IDENT);
    assert_eq!(band.name.literal.literal, "name");
    assert_eq!(band.hash_sign.tokentype, TokenType::HASH);
    assert_eq!(band.hash_sign.literal, "#");
    assert!(band.args.is_empty());
}

#[test]
fn argument_list_and_value_are_scanned_and_discarded() {
    // the tokens between the name and `=`, and between `=` and `;`, are
    // consumed without being structurally parsed: args stays empty and the
    // value stays the placeholder
    let block = parse_ok("# f(a,b) = a+b;");
    assert_eq!(block.stmts.len(), 1);
    let Statement::Band(band) = &block.stmts[0];
    assert_eq!(band.name.value, "f");
    assert!(band.args.is_empty());
}

#[test]
fn statement_without_hash_fails() {
    assert_eq!(parse("name = 1;".to_owned()).err(), Some(ParseError::MissingHash));
}

#[test]
fn band_without_assign_fails() {
    assert_eq!(parse("# name 1;".to_owned()).err(), Some(ParseError::MissingAssign));
}

#[test]
fn band_without_semicolon_fails() {
    assert_eq!(parse("# name = 1".to_owned()).err(), Some(ParseError::MissingSemicolon));
}

#[test]
fn hash_without_identifier_fails() {
    assert_eq!(parse("# 1 = 2;".to_owned()).err(), Some(ParseError::MissingIdentifier));
}

#[test]
fn hash_at_end_of_input_fails() {
    assert_eq!(parse("#".to_owned()).err(), Some(ParseError::MissingIdentifier));
}

#[test]
fn empty_input_is_an_empty_block() {
    let block = parse_ok("");
    assert_eq!(block.stmts.len(), 0);
}

#[test]
fn whitespace_only_input_is_an_empty_block() {
    let block = parse_ok("   \t  \n ");
    assert_eq!(block.stmts.len(), 0);
}

#[test]
fn several_bands_keep_source_order() {
    let block = parse_ok("# a = 1; # b = 2; # c = 3;");
    assert_eq!(block.stmts.len(), 3);
    let names: Vec<&str> = block
        .stmts
        .iter()
        .map(|st| {
            let Statement::Band(band) = st;
            band.name.value.as_str()
        })
        .collect();
    assert_eq!(names, vec!["a", "b", "c"]);
}

#[test]
fn first_error_aborts_the_whole_block() {
    // the first statement parses, but the failure on the second discards it
    assert_eq!(parse("# a = 1; b = 2;".to_owned()).err(), Some(ParseError::MissingHash));
}

#[test]
fn tokens_before_assign_are_discarded() {
    let block = parse_ok("# a b c , : = 1;");
    assert_eq!(block.stmts.len(), 1);
    let Statement::Band(band) = &block.stmts[0];
    assert_eq!(band.name.value, "a");
}

#[test]
fn empty_value_is_accepted() {
    let block = parse_ok("# a = ;");
    assert_eq!(block.stmts.len(), 1);
}

#[test]
fn semicolon_before_assign_fails() {
    assert_eq!(parse("# a ; = 1;".to_owned()).err(), Some(ParseError::MissingAssign));
}

#[test]
fn undefined_token_at_statement_start_fails_with_missing_hash() {
    assert_eq!(parse("? a = 1;".to_owned()).err(), Some(ParseError::MissingHash));
}

#[test]
fn undefined_tokens_inside_a_band_are_discarded() {
    let block = parse_ok("# a ? = ? 1;");
    assert_eq!(block.stmts.len(), 1);
}

#[test]
fn double_slash_terminates_a_statement() {
    // `//` yields a SEMICOLON token, so it closes the band; the second
    // slash is scanned again on its own and opens the next statement,
    // which then fails for want of a `#`
    assert_eq!(parse("# a = 1//".to_owned()).err(), Some(ParseError::MissingHash));
}

#[test]
fn lookahead_window_holds_the_first_two_tokens() {
    let p = Parser::from("# name = 1;");
    assert_eq!(p.curtoken.tokentype, TokenType::HASH);
    assert_eq!(p.peektoken.tokentype, TokenType::IDENT);
    assert_eq!(p.peektoken.literal, "name");
}

#[test]
fn advance_slides_the_window_one_token() {
    let mut p = Parser::from("# name = 1;");
    p.advance();
    assert_eq!(p.curtoken.tokentype, TokenType::IDENT);
    assert_eq!(p.curtoken.literal, "name");
    assert_eq!(p.peektoken.tokentype, TokenType::ASSIGN);
}
