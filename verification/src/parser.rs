//! The parser: a two-token lookahead window over the lexer's output drives a
//! recursive descent that builds a [`Block`] from one input unit.
//!
//! Per statement the parser moves through
//! `Start -> AwaitIdent -> ScanToAssign -> ScanToSemicolon -> Done`:
//! a `#` marker, then an identifier, then a scan that consumes and discards
//! tokens up to `=`, then one up to `;`. Any required token missing before
//! the next expected marker aborts the whole block parse with a
//! [`ParseError`]; partial results are discarded.
//!
//! What parsing returns, success and every error alike, is stated exactly by
//! [`spec_parse`], and the executable parser is proved to agree with it.

use vstd::prelude::*;

use crate::lexer::{
    lemma_next_token_bounds, lemma_skip_space_bounds, nexttoken, spec_next_token, spec_skip_space,
};
use crate::node::{Band, Block, Expression, Identifier, Statement};
use crate::token::{SpecToken, Token, TokenType};

verus! {

/// The structured parse errors. Each aborts the in-progress block parse
/// entirely: no partial block, no multi-error collection.
#[derive(Clone, Copy, Debug, PartialEq, Eq, Structural)]
pub enum ParseError {
    /// The statement did not begin with `#`.
    MissingHash,
    /// The token after `#` is not an identifier.
    MissingIdentifier,
    /// No `=` was found before `;` or the end of input in the declaration
    /// head.
    MissingAssign,
    /// No `;` was found before the end of input in the declaration body.
    MissingSemicolon,
}

/// The mathematical image of one parsed band: the `#` marker token and the
/// name token. The argument list and the value expression are scanned and
/// discarded, so they carry no content.
pub struct SpecBand {
    pub hash: SpecToken,
    pub name: SpecToken,
}

/// The position from which the first token of kind `ASSIGN`, `SEMICOLON` or
/// `EOF` at or after position `i` is scanned.
pub open spec fn spec_scan_to_assign(s: Seq<char>, i: nat) -> nat
    decreases s.len() + 1 - i,
        via spec_scan_to_assign_decreases
{
    let (t, j) = spec_next_token(s, i);
    if t.kind == TokenType::ASSIGN || t.kind == TokenType::SEMICOLON || t.kind == TokenType::EOF {
        i
    } else {
        spec_scan_to_assign(s, j)
    }
}

#[via_fn]
proof fn spec_scan_to_assign_decreases(s: Seq<char>, i: nat) {
    lemma_next_token_bounds(s, i);
}

/// The position from which the first token of kind `SEMICOLON` or `EOF` at
/// or after position `i` is scanned.
pub open spec fn spec_scan_to_semicolon(s: Seq<char>, i: nat) -> nat
    decreases s.len() + 1 - i,
        via spec_scan_to_semicolon_decreases
{
    let (t, j) = spec_next_token(s, i);
    if t.kind == TokenType::SEMICOLON || t.kind == TokenType::EOF {
        i
    } else {
        spec_scan_to_semicolon(s, j)
    }
}

#[via_fn]
proof fn spec_scan_to_semicolon_decreases(s: Seq<char>, i: nat) {
    lemma_next_token_bounds(s, i);
}

pub proof fn lemma_scan_to_assign_bounds(s: Seq<char>, i: nat)
    ensures
        i <= spec_scan_to_assign(s, i),
        i <= s.len() ==> spec_scan_to_assign(s, i) <= s.len(),
    decreases s.len() + 1 - i,
{
    lemma_next_token_bounds(s, i);
    let (t, j) = spec_next_token(s, i);
    if !(t.kind == TokenType::ASSIGN || t.kind == TokenType::SEMICOLON || t.kind
        == TokenType::EOF) {
        lemma_scan_to_assign_bounds(s, j);
    }
}

pub proof fn lemma_scan_to_semicolon_bounds(s: Seq<char>, i: nat)
    ensures
        i <= spec_scan_to_semicolon(s, i),
        i <= s.len() ==> spec_scan_to_semicolon(s, i) <= s.len(),
    decreases s.len() + 1 - i,
{
    lemma_next_token_bounds(s, i);
    let (t, j) = spec_next_token(s, i);
    if !(t.kind == TokenType::SEMICOLON || t.kind == TokenType::EOF) {
        lemma_scan_to_semicolon_bounds(s, j);
    }
}

/// What parsing one band whose `#` marker is scanned from position `p`
/// returns: the band and the position just past its terminating `;`, or the
/// structured error, exactly one of the two for every input.
pub open spec fn spec_parse_band_from(s: Seq<char>, p: nat) -> Result<
    (SpecBand, nat),
    ParseError,
> {
    let (hash_t, p1) = spec_next_token(s, p);
    let (name_t, _p2) = spec_next_token(s, p1);
    if name_t.kind != TokenType::IDENT {
        Err(ParseError::MissingIdentifier)
    } else {
        let q = spec_scan_to_assign(s, p1);
        if spec_next_token(s, q).0.kind != TokenType::ASSIGN {
            Err(ParseError::MissingAssign)
        } else {
            let r = spec_scan_to_semicolon(s, q);
            if spec_next_token(s, r).0.kind != TokenType::SEMICOLON {
                Err(ParseError::MissingSemicolon)
            } else {
                Ok((SpecBand { hash: hash_t, name: name_t }, spec_next_token(s, r).1))
            }
        }
    }
}

/// What parsing one statement scanned from position `p` returns: dispatch
/// solely on the kind of the token there.
pub open spec fn spec_parse_stmt_from(s: Seq<char>, p: nat) -> Result<
    (SpecBand, nat),
    ParseError,
> {
    if spec_next_token(s, p).0.kind == TokenType::HASH {
        spec_parse_band_from(s, p)
    } else {
        Err(ParseError::MissingHash)
    }
}

/// A successfully parsed statement always moves the scan strictly forward
/// and never past the end of input.
pub proof fn lemma_parse_stmt_advances(s: Seq<char>, p: nat)
    ensures
        spec_parse_stmt_from(s, p) matches Ok(pair) ==> p < pair.1 && pair.1 <= s.len(),
{
    lemma_next_token_bounds(s, p);
    let p1 = spec_next_token(s, p).1;
    lemma_scan_to_assign_bounds(s, p1);
    let q = spec_scan_to_assign(s, p1);
    lemma_scan_to_semicolon_bounds(s, q);
    let r = spec_scan_to_semicolon(s, q);
    lemma_next_token_bounds(s, r);
}

/// What parsing a block from position `p` returns: the bands of its
/// statements in source order, up to the `EOF` token, or the first error,
/// which discards everything.
pub open spec fn spec_parse_block_from(s: Seq<char>, p: nat) -> Result<Seq<SpecBand>, ParseError>
    decreases s.len() + 1 - p,
        via spec_parse_block_from_decreases
{
    if spec_next_token(s, p).0.kind == TokenType::EOF {
        Ok(Seq::empty())
    } else {
        match spec_parse_stmt_from(s, p) {
            Err(e) => Err(e),
            Ok(pair) => match spec_parse_block_from(s, pair.1) {
                Err(e) => Err(e),
                Ok(rest) => Ok(seq![pair.0] + rest),
            },
        }
    }
}

#[via_fn]
proof fn spec_parse_block_from_decreases(s: Seq<char>, p: nat) {
    lemma_parse_stmt_advances(s, p);
}

/// What parsing a whole input unit returns.
pub open spec fn spec_parse(s: Seq<char>) -> Result<Seq<SpecBand>, ParseError> {
    spec_parse_block_from(s, 0)
}

/// The data-model invariant of a parsed band: every band a successful parse
/// yields carries a `#` marker token (kind `HASH`, lexeme `#`) and a name
/// token of kind `IDENT`.
pub proof fn lemma_parse_bands_wf(s: Seq<char>, p: nat)
    ensures
        spec_parse_block_from(s, p) matches Ok(sbs) ==> forall|i: int|
            0 <= i < sbs.len() ==> ((#[trigger] sbs[i]).hash.kind == TokenType::HASH
                && sbs[i].hash.lexeme == seq!['#'] && sbs[i].name.kind == TokenType::IDENT),
    decreases s.len() + 1 - p,
{
    if spec_next_token(s, p).0.kind != TokenType::EOF {
        match spec_parse_stmt_from(s, p) {
            Err(_) => {},
            Ok(pair) => {
                lemma_parse_stmt_advances(s, p);
                lemma_parse_bands_wf(s, pair.1);
                lemma_skip_space_bounds(s, p);
                let j = spec_skip_space(s, p);
                assert(s[j as int] == '#');
                assert(pair.0.hash.lexeme =~= seq!['#']);
                match spec_parse_block_from(s, pair.1) {
                    Err(_) => {},
                    Ok(rest) => {
                        let sbs = seq![pair.0] + rest;
                        assert forall|i: int| 0 <= i < sbs.len() implies ((#[trigger] sbs[i]).hash.kind
                            == TokenType::HASH && sbs[i].hash.lexeme == seq!['#']
                            && sbs[i].name.kind == TokenType::IDENT) by {
                            if i > 0 {
                                assert(sbs[i] == rest[i - 1]);
                            }
                        }
                    },
                }
            },
        }
    }
}

/// An identifier node carries a token and copies its lexeme as its value.
pub open spec fn spec_ident_matches(id: Identifier, t: SpecToken) -> bool {
    &&& id.literal@ == t
    &&& id.value@ == t.lexeme
}

/// A band node carries the marker and name the parse found; its argument
/// list is empty and its value the placeholder.
pub open spec fn spec_band_matches(b: Band, sb: SpecBand) -> bool {
    &&& b.hash_sign@ == sb.hash
    &&& spec_ident_matches(b.name, sb.name)
    &&& b.args@.len() == 0
}

pub open spec fn spec_stmt_matches(st: Statement, sb: SpecBand) -> bool {
    match st {
        Statement::Band(b) => spec_band_matches(b, sb),
    }
}

/// A block node holds one statement per parsed band, in source order.
pub open spec fn spec_block_matches(b: Block, sbs: Seq<SpecBand>) -> bool {
    &&& b.stmts@.len() == sbs.len()
    &&& forall|i: int|
        0 <= i < sbs.len() ==> #[trigger] spec_stmt_matches(b.stmts@[i], sbs[i])
}

/// The recursive-descent parser: a lookahead window of `curtoken` and
/// `peektoken` over the lexer, advanced together by pulling one new token
/// per step. `cpos` is the ghost character position from which `curtoken`
/// was scanned; it ties the window to the input text.
pub struct Parser<'a> {
    pub src: &'a str,
    pub pos: usize,
    pub curtoken: Token,
    pub peektoken: Token,
    pub cpos: Ghost<nat>,
}

impl<'a> Parser<'a> {
    /// The position from which `peektoken` was scanned.
    pub open spec fn ppos(self) -> nat {
        spec_next_token(self.src@, self.cpos@).1
    }

    /// The lookahead window is well formed: `curtoken` and `peektoken` are
    /// the two tokens scanned from `cpos`, and `pos` stands just past the
    /// second.
    pub open spec fn wf(self) -> bool {
        &&& self.cpos@ <= self.src@.len()
        &&& self.curtoken@ == spec_next_token(self.src@, self.cpos@).0
        &&& self.peektoken@ == spec_next_token(self.src@, self.ppos()).0
        &&& self.pos as nat == spec_next_token(self.src@, self.ppos()).1
        &&& self.pos as nat <= self.src@.len()
    }

    /// A parser over `src`, its lookahead window filled with the first two
    /// tokens.
    pub fn from(src: &'a str) -> (p: Parser<'a>)
        ensures
            p.wf(),
            p.src@ == src@,
            p.cpos@ == 0,
    {
        let (t0, p0) = nexttoken(src, 0);
        let (t1, p1) = nexttoken(src, p0);
        Parser { src, pos: p1, curtoken: t0, peektoken: t1, cpos: Ghost(0) }
    }

    /// Slides the window one token forward: `curtoken` takes `peektoken`,
    /// and `peektoken` takes the next token the lexer yields.
    pub fn advance(&mut self)
        requires
            old(self).wf(),
        ensures
            final(self).wf(),
            final(self).src == old(self).src,
            final(self).cpos@ == old(self).ppos(),
            final(self).curtoken == old(self).peektoken,
    {
        proof {
            lemma_next_token_bounds(self.src@, self.cpos@);
        }
        let ghost newcpos = self.ppos();
        let t = self.peektoken.duplicate();
        self.curtoken = t;
        let (nt, np) = nexttoken(self.src, self.pos);
        self.peektoken = nt;
        self.pos = np;
        self.cpos = Ghost(newcpos);
    }

    /// Wraps the current token into an identifier node, copying its lexeme
    /// as the node's value.
    pub fn parse_ident(&self) -> (id: Identifier)
        ensures
            spec_ident_matches(id, self.curtoken@),
    {
        Identifier { literal: self.curtoken.duplicate(), value: self.curtoken.literal.clone() }
    }

    /// Parses one band whose `#` marker is the current token: captures the
    /// marker, requires an identifier in the lookahead, then scans forward
    /// discarding tokens up to `=`, then up to `;`. On success the current
    /// token is the terminating `;`.
    pub fn parse_band(&mut self) -> (r: Result<Statement, ParseError>)
        requires
            old(self).wf(),
            old(self).curtoken@.kind == TokenType::HASH,
        ensures
            final(self).wf(),
            final(self).src == old(self).src,
            match r {
                Ok(st) => match spec_parse_band_from(old(self).src@, old(self).cpos@) {
                    Ok(pair) => spec_stmt_matches(st, pair.0) && final(self).ppos() == pair.1,
                    Err(_) => false,
                },
                Err(e) => spec_parse_band_from(old(self).src@, old(self).cpos@) == Err::<
                    (SpecBand, nat),
                    ParseError,
                >(e),
            },
    {
        let ghost s = self.src@;
        let ghost srcref = self.src;
        let ghost p = self.cpos@;
        let hash_sign = self.curtoken.duplicate();
        if !matches!(self.peektoken.tokentype, TokenType::IDENT) {
            return Err(ParseError::MissingIdentifier);
        }
        self.advance();
        let name = self.parse_ident();
        let ghost p1 = self.cpos@;
        loop
            invariant
                self.wf(),
                self.src == srcref,
                self.src@ == s,
                p1 == spec_next_token(s, p).1,
                spec_next_token(s, p1).0.kind == TokenType::IDENT,
                spec_scan_to_assign(s, p1) == spec_scan_to_assign(s, self.cpos@),
            ensures
                self.wf(),
                self.src == srcref,
                self.src@ == s,
                self.cpos@ == spec_scan_to_assign(s, p1),
                (self.curtoken@.kind == TokenType::ASSIGN || self.curtoken@.kind
                    == TokenType::SEMICOLON || self.curtoken@.kind == TokenType::EOF),
            decreases s.len() - self.cpos@,
        {
            proof {
                lemma_next_token_bounds(s, self.cpos@);
            }
            match self.curtoken.tokentype {
                TokenType::ASSIGN => break,
                TokenType::SEMICOLON => break,
                TokenType::EOF => break,
                _ => self.advance(),
            }
        }
        if !matches!(self.curtoken.tokentype, TokenType::ASSIGN) {
            return Err(ParseError::MissingAssign);
        }
        let ghost q = self.cpos@;
        loop
            invariant
                self.wf(),
                self.src == srcref,
                self.src@ == s,
                p1 == spec_next_token(s, p).1,
                spec_next_token(s, p1).0.kind == TokenType::IDENT,
                q == spec_scan_to_assign(s, p1),
                spec_next_token(s, q).0.kind == TokenType::ASSIGN,
                spec_scan_to_semicolon(s, q) == spec_scan_to_semicolon(s, self.cpos@),
            ensures
                self.wf(),
                self.src == srcref,
                self.src@ == s,
                self.cpos@ == spec_scan_to_semicolon(s, q),
                (self.curtoken@.kind == TokenType::SEMICOLON || self.curtoken@.kind
                    == TokenType::EOF),
            decreases s.len() - self.cpos@,
        {
            proof {
                lemma_next_token_bounds(s, self.cpos@);
            }
            match self.curtoken.tokentype {
                TokenType::SEMICOLON => break,
                TokenType::EOF => break,
                _ => self.advance(),
            }
        }
        if !matches!(self.curtoken.tokentype, TokenType::SEMICOLON) {
            return Err(ParseError::MissingSemicolon);
        }
        let band = Band { hash_sign, name, args: Vec::new(), value: Expression {} };
        Ok(Statement::Band(band))
    }

    /// Parses one statement, dispatching solely on the kind of the current
    /// token: `#` opens a band; anything else is `MissingHash`.
    pub fn parse_stmt(&mut self) -> (r: Result<Statement, ParseError>)
        requires
            old(self).wf(),
        ensures
            final(self).wf(),
            final(self).src == old(self).src,
            match r {
                Ok(st) => match spec_parse_stmt_from(old(self).src@, old(self).cpos@) {
                    Ok(pair) => spec_stmt_matches(st, pair.0) && final(self).ppos() == pair.1,
                    Err(_) => false,
                },
                Err(e) => spec_parse_stmt_from(old(self).src@, old(self).cpos@) == Err::<
                    (SpecBand, nat),
                    ParseError,
                >(e),
            },
    {
        match self.curtoken.tokentype {
            TokenType::HASH => self.parse_band(),
            _ => Err(ParseError::MissingHash),
        }
    }

    /// Parses statements into a block until the current token is `EOF`. The
    /// first failure aborts the whole parse and discards all partial
    /// results.
    pub fn parse_block(&mut self) -> (r: Result<Block, ParseError>)
        requires
            old(self).wf(),
        ensures
            match r {
                Ok(b) => match spec_parse_block_from(old(self).src@, old(self).cpos@) {
                    Ok(sbs) => spec_block_matches(b, sbs),
                    Err(_) => false,
                },
                Err(e) => spec_parse_block_from(old(self).src@, old(self).cpos@) == Err::<
                    Seq<SpecBand>,
                    ParseError,
                >(e),
            },
    {
        let ghost s = self.src@;
        let ghost p0 = self.cpos@;
        let mut program = Block::new();
        let ghost acc: Seq<SpecBand> = Seq::empty();
        loop
            invariant_except_break
                self.wf(),
                self.src@ == s,
                s == old(self).src@,
                p0 == old(self).cpos@,
                spec_block_matches(program, acc),
                match spec_parse_block_from(s, self.cpos@) {
                    Ok(rest) => spec_parse_block_from(s, p0) == Ok::<Seq<SpecBand>, ParseError>(
                        acc + rest,
                    ),
                    Err(e) => spec_parse_block_from(s, p0) == Err::<Seq<SpecBand>, ParseError>(e),
                },
            ensures
                match spec_parse_block_from(s, p0) {
                    Ok(sbs) => spec_block_matches(program, sbs),
                    Err(_) => false,
                },
            decreases s.len() + 1 - self.cpos@,
        {
            if matches!(self.curtoken.tokentype, TokenType::EOF) {
                proof {
                    assert(spec_parse_block_from(s, self.cpos@) == Ok::<
                        Seq<SpecBand>,
                        ParseError,
                    >(Seq::empty()));
                    assert(acc + Seq::<SpecBand>::empty() =~= acc);
                }
                break;
            }
            let ghost prev = self.cpos@;
            let stmt = match self.parse_stmt() {
                Ok(st) => st,
                Err(e) => return Err(e),
            };
            let ghost pair = spec_parse_stmt_from(s, prev)->Ok_0;
            program.stmts.push(stmt);
            self.advance();
            proof {
                lemma_parse_stmt_advances(s, prev);
                let oldacc = acc;
                acc = acc.push(pair.0);
                assert(spec_block_matches(program, acc));
                match spec_parse_block_from(s, pair.1) {
                    Ok(rest) => {
                        assert(spec_parse_block_from(s, prev) == Ok::<Seq<SpecBand>, ParseError>(
                            seq![pair.0] + rest,
                        ));
                        assert(oldacc + (seq![pair.0] + rest) =~= acc + rest);
                    },
                    Err(_) => {},
                }
            }
        }
        Ok(program)
    }
}

/// Parses one input unit into a block, or reports the first structural
/// error. This is the core entry point: success and every error are pinned,
/// for every input, by [`spec_parse`].
pub fn parse(sentence: String) -> (r: Result<Block, ParseError>)
    ensures
        match r {
            Ok(b) => match spec_parse(sentence@) {
                Ok(sbs) => spec_block_matches(b, sbs),
                Err(_) => false,
            },
            Err(e) => spec_parse(sentence@) == Err::<Seq<SpecBand>, ParseError>(e),
        },
{
    let mut p = Parser::from(sentence.as_str());
    p.parse_block()
}

} // verus!
