use kangaroo::node::{Block, Expression, Identifier, Statement};
use kangaroo::parser::{parse, ParseError};
use kangaroo::producer::run;
use kangaroo::token::{Token, TokenType};

#[test]
fn empty_block_rendering() {
    let block = Block::new();
    assert_eq!(block.render(), "start>( ) ");
}

#[test]
fn parsed_band_rendering() {
    let block = parse("# name = 1;".to_owned()).unwrap();
    assert_eq!(block.render(), "start>( ( # name () =  ), ) ");
}

#[test]
fn several_bands_render_in_source_order() {
    let block = parse("# a = 1; # b = 2;".to_owned()).unwrap();
    assert_eq!(block.render(), "start>( ( # a () =  ), ( # b () =  ), ) ");
}

#[test]
fn identifier_renders_as_its_text() {
    let id = Identifier {
        literal: Token::new(TokenType::IDENT, "abc".to_owned()),
        value: "abc".to_owned(),
    };
    assert_eq!(id.render(), "abc");
}

#[test]
fn placeholder_expression_renders_empty() {
    assert_eq!(Expression {}.render(), "");
}

#[test]
fn statement_renders_as_its_band() {
    let block = parse("# solo = 0;".to_owned()).unwrap();
    let Statement::Band(_) = &block.stmts[0];
    assert_eq!(block.stmts[0].render(), "( # solo () =  )");
}

#[test]
fn rendering_is_lossy_and_does_not_round_trip() {
    // the rendering is a debugging form, not source text: the argument
    // list and value were discarded during the parse, and the rendered
    // prefix opens with an identifier, so re-parsing the rendering is not
    // expected to succeed, let alone round-trip
    let block = parse("# name = 1;".to_owned()).unwrap();
    let rendered = block.render();
    assert_eq!(parse(rendered).err(), Some(ParseError::MissingHash));
}

#[test]
fn run_renders_a_parsed_line() {
    assert_eq!(run("# a = 1;".to_owned()), Ok("start>( ( # a () =  ), ) ".to_owned()));
}

#[test]
fn run_reports_the_parse_error() {
    assert_eq!(run("a = 1;".to_owned()), Err(ParseError::MissingHash));
}
