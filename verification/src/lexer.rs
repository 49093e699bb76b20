//! The lexer: scans a character sequence and yields one token at a time on
//! demand.
//!
//! Scanning rules:
//! - all white space before a token is skipped;
//! - an identifier starts with an ASCII letter or `_` and continues through
//!   letters, digits and `_`;
//! - a number starts with a digit, consumes digits, then at most one `.`,
//!   then any further digits (a lone trailing `.` is a legal lexeme);
//! - `+ - * % # $ : , = ( ) { } ;` are single-character tokens;
//! - `/` followed by another `/` yields a `SEMICOLON` token (an implicit
//!   statement terminator) consuming only the first `/`; alone it is `SLASH`;
//! - the end of input yields an `EOF` token, repeatedly;
//! - any other character yields an `UNDEFINED` token carrying it.
//!
//! Every scanning rule is stated by the spec functions below, and the
//! executable scanner is proved to follow them exactly.

use vstd::prelude::*;

use crate::token::{SpecToken, Token, TokenType};

verus! {

/// The characters skipped between tokens: the Unicode white space set.
pub open spec fn spec_is_space(c: char) -> bool {
    let n = c as u32;
    ||| n == 0x09
    ||| n == 0x0A
    ||| n == 0x0B
    ||| n == 0x0C
    ||| n == 0x0D
    ||| n == 0x20
    ||| n == 0x85
    ||| n == 0xA0
    ||| n == 0x1680
    ||| (0x2000 <= n && n <= 0x200A)
    ||| n == 0x2028
    ||| n == 0x2029
    ||| n == 0x202F
    ||| n == 0x205F
    ||| n == 0x3000
}

/// A decimal digit.
pub open spec fn spec_is_digit(c: char) -> bool {
    '0' <= c && c <= '9'
}

/// A character that may open an identifier: an ASCII letter or `_`.
pub open spec fn spec_is_ident_start(c: char) -> bool {
    ('a' <= c && c <= 'z') || ('A' <= c && c <= 'Z') || c == '_'
}

/// A character that may continue an identifier: a letter, digit or `_`.
pub open spec fn spec_is_ident_cont(c: char) -> bool {
    spec_is_ident_start(c) || spec_is_digit(c)
}

pub fn is_space(c: char) -> (r: bool)
    ensures
        r == spec_is_space(c),
{
    let n = c as u32;
    n == 0x09 || n == 0x0A || n == 0x0B || n == 0x0C || n == 0x0D || n == 0x20 || n == 0x85
        || n == 0xA0 || n == 0x1680 || (0x2000 <= n && n <= 0x200A) || n == 0x2028 || n == 0x2029
        || n == 0x202F || n == 0x205F || n == 0x3000
}

pub fn is_digit(c: char) -> (r: bool)
    ensures
        r == spec_is_digit(c),
{
    '0' <= c && c <= '9'
}

pub fn is_ident_start(c: char) -> (r: bool)
    ensures
        r == spec_is_ident_start(c),
{
    ('a' <= c && c <= 'z') || ('A' <= c && c <= 'Z') || c == '_'
}

pub fn is_ident_cont(c: char) -> (r: bool)
    ensures
        r == spec_is_ident_cont(c),
{
    is_ident_start(c) || is_digit(c)
}

/// The first position at or after `i` that does not hold white space.
pub open spec fn spec_skip_space(s: Seq<char>, i: nat) -> nat
    decreases s.len() - i,
{
    if i < s.len() && spec_is_space(s[i as int]) {
        spec_skip_space(s, (i + 1) as nat)
    } else {
        i
    }
}

/// The first position at or after `i` that does not hold a digit.
pub open spec fn spec_digits_end(s: Seq<char>, i: nat) -> nat
    decreases s.len() - i,
{
    if i < s.len() && spec_is_digit(s[i as int]) {
        spec_digits_end(s, (i + 1) as nat)
    } else {
        i
    }
}

/// The first position at or after `i` that cannot continue an identifier.
pub open spec fn spec_ident_end(s: Seq<char>, i: nat) -> nat
    decreases s.len() - i,
{
    if i < s.len() && spec_is_ident_cont(s[i as int]) {
        spec_ident_end(s, (i + 1) as nat)
    } else {
        i
    }
}

/// Where a number whose first digit stands at `i` ends: digits, at most one
/// `.`, then any further digits.
pub open spec fn spec_number_end(s: Seq<char>, i: nat) -> nat {
    let d = spec_digits_end(s, (i + 1) as nat);
    if d < s.len() && s[d as int] == '.' {
        spec_digits_end(s, (d + 1) as nat)
    } else {
        d
    }
}

/// Where the token that starts at position `j` ends. `j` must hold a
/// non-space character; every token not opened by a letter, `_` or a digit
/// spans exactly one character.
pub open spec fn spec_token_end(s: Seq<char>, j: nat) -> nat {
    let c = s[j as int];
    if spec_is_ident_start(c) {
        spec_ident_end(s, (j + 1) as nat)
    } else if spec_is_digit(c) {
        spec_number_end(s, j)
    } else {
        (j + 1) as nat
    }
}

/// The kind of the token that starts at position `j` (`j` non-space, within
/// the input).
pub open spec fn spec_kind_at(s: Seq<char>, j: nat) -> TokenType {
    let c = s[j as int];
    if spec_is_ident_start(c) {
        TokenType::IDENT
    } else if spec_is_digit(c) {
        TokenType::NUMBER
    } else if c == '+' {
        TokenType::PLUS
    } else if c == '-' {
        TokenType::MINUS
    } else if c == '*' {
        TokenType::ASTERISK
    } else if c == '/' {
        if j + 1 < s.len() && s[j + 1 as int] == '/' {
            TokenType::SEMICOLON
        } else {
            TokenType::SLASH
        }
    } else if c == '%' {
        TokenType::PERCENT
    } else if c == '#' {
        TokenType::HASH
    } else if c == '$' {
        TokenType::DOLLAR
    } else if c == ':' {
        TokenType::COLON
    } else if c == ',' {
        TokenType::COMMA
    } else if c == '=' {
        TokenType::ASSIGN
    } else if c == '(' {
        TokenType::LPAREN
    } else if c == ')' {
        TokenType::RPAREN
    } else if c == '{' {
        TokenType::LBRACE
    } else if c == '}' {
        TokenType::RBRACE
    } else if c == ';' {
        TokenType::SEMICOLON
    } else {
        TokenType::UNDEFINED
    }
}

/// The lexeme of the token that starts at position `j`: the span it covers,
/// except that `//` yields the lexeme `;` of the statement terminator it
/// stands for.
pub open spec fn spec_lexeme_at(s: Seq<char>, j: nat) -> Seq<char> {
    if s[j as int] == '/' && j + 1 < s.len() && s[j + 1 as int] == '/' {
        seq![';']
    } else {
        s.subrange(j as int, spec_token_end(s, j) as int)
    }
}

/// The token reported at the end of input. Its lexeme is empty: exhaustion
/// of input is signalled by position, not by a reserved sentinel character,
/// so the full character range is safe in source text.
pub open spec fn spec_eof_token() -> SpecToken {
    SpecToken { kind: TokenType::EOF, lexeme: Seq::empty() }
}

/// The next token scanned from position `i`, and the position just past it.
/// At or past the end of input the token is `EOF` and the position does not
/// move, so the lexer is idempotent at end-of-stream.
pub open spec fn spec_next_token(s: Seq<char>, i: nat) -> (SpecToken, nat) {
    let j = spec_skip_space(s, i);
    if j >= s.len() {
        (spec_eof_token(), j)
    } else {
        (SpecToken { kind: spec_kind_at(s, j), lexeme: spec_lexeme_at(s, j) }, spec_token_end(s, j))
    }
}

pub proof fn lemma_skip_space_bounds(s: Seq<char>, i: nat)
    ensures
        i <= spec_skip_space(s, i),
        i <= s.len() ==> spec_skip_space(s, i) <= s.len(),
    decreases s.len() - i,
{
    if i < s.len() && spec_is_space(s[i as int]) {
        lemma_skip_space_bounds(s, (i + 1) as nat);
    }
}

pub proof fn lemma_digits_end_bounds(s: Seq<char>, i: nat)
    ensures
        i <= spec_digits_end(s, i),
        i <= s.len() ==> spec_digits_end(s, i) <= s.len(),
    decreases s.len() - i,
{
    if i < s.len() && spec_is_digit(s[i as int]) {
        lemma_digits_end_bounds(s, (i + 1) as nat);
    }
}

pub proof fn lemma_ident_end_bounds(s: Seq<char>, i: nat)
    ensures
        i <= spec_ident_end(s, i),
        i <= s.len() ==> spec_ident_end(s, i) <= s.len(),
    decreases s.len() - i,
{
    if i < s.len() && spec_is_ident_cont(s[i as int]) {
        lemma_ident_end_bounds(s, (i + 1) as nat);
    }
}

/// Scanning one token never steps back, never leaves the input, and moves
/// strictly forward unless the input is exhausted.
pub proof fn lemma_next_token_bounds(s: Seq<char>, i: nat)
    ensures
        i <= spec_next_token(s, i).1,
        i <= s.len() ==> spec_next_token(s, i).1 <= s.len(),
        spec_next_token(s, i).0.kind != TokenType::EOF ==> i < spec_next_token(s, i).1
            && spec_next_token(s, i).1 <= s.len(),
{
    lemma_skip_space_bounds(s, i);
    let j = spec_skip_space(s, i);
    if j < s.len() {
        let c = s[j as int];
        if spec_is_ident_start(c) {
            lemma_ident_end_bounds(s, (j + 1) as nat);
        } else if spec_is_digit(c) {
            lemma_digits_end_bounds(s, (j + 1) as nat);
            let d = spec_digits_end(s, (j + 1) as nat);
            if d < s.len() && s[d as int] == '.' {
                lemma_digits_end_bounds(s, (d + 1) as nat);
            }
        }
    }
}

/// The full token stream scanned from position `i`: every token up to and
/// including the first `EOF`.
pub open spec fn spec_tokens_from(s: Seq<char>, i: nat) -> Seq<SpecToken>
    decreases s.len() + 1 - i,
        via spec_tokens_from_decreases
{
    let (t, j) = spec_next_token(s, i);
    if t.kind == TokenType::EOF {
        seq![t]
    } else {
        seq![t] + spec_tokens_from(s, j)
    }
}

#[via_fn]
proof fn spec_tokens_from_decreases(s: Seq<char>, i: nat) {
    lemma_next_token_bounds(s, i);
}

/// The token stream of a whole input: tokenizing yields exactly these
/// tokens, ending with a single `EOF`.
pub open spec fn spec_tokens(s: Seq<char>) -> Seq<SpecToken> {
    spec_tokens_from(s, 0)
}

/// Scans the whole input into its token stream, `EOF` token included.
pub fn tokenize(src: &str) -> (toks: Vec<Token>)
    ensures
        toks@.map_values(|t: Token| t@) == spec_tokens(src@),
{
    let mut toks: Vec<Token> = Vec::new();
    let mut pos: usize = 0;
    loop
        invariant_except_break
            spec_tokens(src@) == toks@.map_values(|t: Token| t@) + spec_tokens_from(
                src@,
                pos as nat,
            ),
        invariant
            pos as nat <= src@.len(),
        ensures
            toks@.map_values(|t: Token| t@) == spec_tokens(src@),
        decreases src@.len() - pos,
    {
        proof {
            lemma_next_token_bounds(src@, pos as nat);
        }
        let (t, next) = nexttoken(src, pos);
        let done = matches!(t.tokentype, TokenType::EOF);
        let ghost old_toks = toks@;
        toks.push(t);
        proof {
            assert(toks@.map_values(|t: Token| t@) =~= old_toks.map_values(|t: Token| t@)
                + seq![toks@.last()@]);
            if done {
                assert(spec_tokens(src@) =~= toks@.map_values(|t: Token| t@));
            } else {
                assert(spec_tokens(src@) =~= toks@.map_values(|t: Token| t@)
                    + spec_tokens_from(src@, next as nat));
            }
        }
        if done {
            break;
        }
        pos = next;
    }
    toks
}

proof fn lemma_digits_end_all(s: Seq<char>, i: nat)
    requires
        i <= s.len(),
        forall|k: int| i <= k < s.len() ==> spec_is_digit(#[trigger] s[k]),
    ensures
        spec_digits_end(s, i) == s.len(),
    decreases s.len() - i,
{
    if i < s.len() {
        lemma_digits_end_all(s, (i + 1) as nat);
    }
}

/// Tokenizing any non-empty sequence of decimal digits yields one NUMBER
/// token whose lexeme is that very sequence, then `EOF`.
pub proof fn lemma_tokenize_digits(s: Seq<char>)
    requires
        s.len() > 0,
        forall|k: int| 0 <= k < s.len() ==> spec_is_digit(#[trigger] s[k]),
    ensures
        spec_tokens(s) == seq![
            SpecToken { kind: TokenType::NUMBER, lexeme: s },
            spec_eof_token(),
        ],
{
    assert(!spec_is_space(s[0]));
    assert(spec_skip_space(s, 0) == 0);
    lemma_digits_end_all(s, 1);
    assert(spec_number_end(s, 0) == s.len());
    assert(spec_lexeme_at(s, 0) =~= s);
    assert(spec_skip_space(s, s.len()) == s.len());
    assert(spec_tokens_from(s, s.len()) =~= seq![spec_eof_token()]);
    assert(spec_tokens(s) =~= seq![
        SpecToken { kind: TokenType::NUMBER, lexeme: s },
        spec_eof_token(),
    ]);
}

/// Tokenizing the empty input yields exactly one `EOF` token and no others.
pub proof fn lemma_tokenize_empty()
    ensures
        spec_tokens(Seq::<char>::empty()) == seq![spec_eof_token()],
{
    assert(spec_tokens(Seq::<char>::empty()) =~= seq![spec_eof_token()]);
}

/// At the end of the stream the lexer stands still: once a scan yields
/// `EOF`, every further scan from the position it reports yields `EOF` at
/// that same position.
pub proof fn lemma_eof_idempotent(s: Seq<char>, i: nat)
    ensures
        spec_next_token(s, i).0.kind == TokenType::EOF ==> spec_next_token(
            s,
            spec_next_token(s, i).1,
        ) == (spec_eof_token(), spec_next_token(s, i).1),
{
}

/// Every token stream ends with an `EOF` token, and holds no `EOF` before
/// its last token: end of input is reported exactly once.
pub proof fn lemma_tokens_end_with_eof(s: Seq<char>, i: nat)
    ensures
        spec_tokens_from(s, i).len() >= 1,
        spec_tokens_from(s, i).last().kind == TokenType::EOF,
        forall|k: int|
            0 <= k < spec_tokens_from(s, i).len() - 1 ==> (#[trigger] spec_tokens_from(s, i)[k]).kind
                != TokenType::EOF,
    decreases s.len() + 1 - i,
{
    lemma_next_token_bounds(s, i);
    let (t, j) = spec_next_token(s, i);
    if t.kind != TokenType::EOF {
        lemma_tokens_end_with_eof(s, j);
        let toks = spec_tokens_from(s, i);
        let rest = spec_tokens_from(s, j);
        assert forall|k: int| 0 <= k < toks.len() - 1 implies (#[trigger] toks[k]).kind
            != TokenType::EOF by {
            if k > 0 {
                assert(toks[k] == rest[k - 1]);
            }
        }
    }
}

impl Token {
    /// Scans the identifier that opens at `start` (a letter or `_`) and
    /// returns its token and the position just past it.
    pub fn ident(src: &str, start: usize) -> (r: (Token, usize))
        requires
            start < src@.len(),
            spec_is_ident_start(src@[start as int]),
        ensures
            r.0@.kind == TokenType::IDENT,
            r.0@.lexeme == src@.subrange(start as int, r.1 as int),
            r.1 as nat == spec_ident_end(src@, (start + 1) as nat),
    {
        let len = src.unicode_len();
        let mut j = start + 1;
        loop
            invariant
                start < j <= len,
                len == src@.len(),
                spec_ident_end(src@, (start + 1) as nat) == spec_ident_end(src@, j as nat),
            ensures
                j <= len,
                j as nat == spec_ident_end(src@, (start + 1) as nat),
            decreases len - j,
        {
            if j >= len {
                break;
            }
            if !is_ident_cont(src.get_char(j)) {
                break;
            }
            j = j + 1;
        }
        let lexeme = src.substring_char(start, j).to_owned();
        (Token::new(TokenType::IDENT, lexeme), j)
    }

    /// Scans the number that opens at `start` (a digit): digits, at most one
    /// `.`, then any further digits. A lone trailing `.` is accepted, not an
    /// error.
    pub fn number(src: &str, start: usize) -> (r: (Token, usize))
        requires
            start < src@.len(),
            spec_is_digit(src@[start as int]),
        ensures
            r.0@.kind == TokenType::NUMBER,
            r.0@.lexeme == src@.subrange(start as int, r.1 as int),
            r.1 as nat == spec_number_end(src@, start as nat),
    {
        let len = src.unicode_len();
        let mut j = start + 1;
        loop
            invariant
                start < j <= len,
                len == src@.len(),
                spec_digits_end(src@, (start + 1) as nat) == spec_digits_end(src@, j as nat),
            ensures
                j <= len,
                j as nat == spec_digits_end(src@, (start + 1) as nat),
            decreases len - j,
        {
            if j >= len {
                break;
            }
            if !is_digit(src.get_char(j)) {
                break;
            }
            j = j + 1;
        }
        if j < len && src.get_char(j) == '.' {
            j = j + 1;
            loop
                invariant
                    start < j <= len,
                    len == src@.len(),
                    spec_number_end(src@, start as nat) == spec_digits_end(src@, j as nat),
                ensures
                    j <= len,
                    j as nat == spec_number_end(src@, start as nat),
                decreases len - j,
            {
                if j >= len {
                    break;
                }
                if !is_digit(src.get_char(j)) {
                    break;
                }
                j = j + 1;
            }
        }
        let lexeme = src.substring_char(start, j).to_owned();
        (Token::new(TokenType::NUMBER, lexeme), j)
    }
}

/// Scans the next token from character position `pos`: skips white space,
/// then produces the token that opens there, together with the position just
/// past it. At the end of input it yields `EOF`, as often as it is asked.
pub fn nexttoken(src: &str, pos: usize) -> (r: (Token, usize))
    requires
        pos as nat <= src@.len(),
    ensures
        r.0@ == spec_next_token(src@, pos as nat).0,
        r.1 as nat == spec_next_token(src@, pos as nat).1,
        r.1 as nat <= src@.len(),
{
    proof {
        lemma_next_token_bounds(src@, pos as nat);
    }
    let len = src.unicode_len();
    let mut i = pos;
    loop
        invariant
            pos <= i <= len,
            len == src@.len(),
            spec_skip_space(src@, pos as nat) == spec_skip_space(src@, i as nat),
        ensures
            i <= len,
            i as nat == spec_skip_space(src@, pos as nat),
        decreases len - i,
    {
        if i >= len {
            break;
        }
        if !is_space(src.get_char(i)) {
            break;
        }
        i = i + 1;
    }
    if i >= len {
        return (Token::new(TokenType::EOF, String::new()), i);
    }
    let c = src.get_char(i);
    if is_ident_start(c) {
        return Token::ident(src, i);
    }
    if is_digit(c) {
        return Token::number(src, i);
    }
    if c == '/' {
        if i + 1 < len && src.get_char(i + 1) == '/' {
            let lexeme = String::from_str(";");
            proof {
                reveal_strlit(";");
                assert(lexeme@ =~= seq![';']);
            }
            return (Token::new(TokenType::SEMICOLON, lexeme), i + 1);
        }
        let lexeme = src.substring_char(i, i + 1).to_owned();
        return (Token::new(TokenType::SLASH, lexeme), i + 1);
    }
    let kind = if c == '+' {
        TokenType::PLUS
    } else if c == '-' {
        TokenType::MINUS
    } else if c == '*' {
        TokenType::ASTERISK
    } else if c == '%' {
        TokenType::PERCENT
    } else if c == '#' {
        TokenType::HASH
    } else if c == '$' {
        TokenType::DOLLAR
    } else if c == ':' {
        TokenType::COLON
    } else if c == ',' {
        TokenType::COMMA
    } else if c == '=' {
        TokenType::ASSIGN
    } else if c == '(' {
        TokenType::LPAREN
    } else if c == ')' {
        TokenType::RPAREN
    } else if c == '{' {
        TokenType::LBRACE
    } else if c == '}' {
        TokenType::RBRACE
    } else if c == ';' {
        TokenType::SEMICOLON
    } else {
        TokenType::UNDEFINED
    };
    let lexeme = src.substring_char(i, i + 1).to_owned();
    (Token::new(kind, lexeme), i + 1)
}

} // verus!
