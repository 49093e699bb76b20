//! The AST node model: a `Block` owns an ordered sequence of statements, a
//! `Band` statement owns its name, argument identifiers and value
//! expression, and every node carries a deterministic text rendering used
//! for debugging and inspection.
//!
//! The rendering is reproducible from the AST alone and is stated exactly by
//! the spec functions below; it is a debugging form, not source text, so
//! re-parsing a rendering is not expected to round-trip.

use vstd::prelude::*;

use crate::token::Token;

verus! {

/// An identifier leaf node. `value` always equals the lexeme of `literal`.
pub struct Identifier {
    pub literal: Token,
    pub value: String,
}

/// The placeholder expression node: the value of a band is scanned and
/// discarded, not structurally parsed, so this node is empty and renders as
/// the empty string.
pub struct Expression {}

/// A named, parameterized binding declaration:
/// `# <name> ( <args> ) = <value> ;`. The marker is always a `HASH` token
/// and the name always wraps a successfully parsed `IDENT` token. The
/// argument list and the value expression are scanned and discarded by the
/// parser, so `args` is always empty and `value` a placeholder.
pub struct Band {
    pub hash_sign: Token,
    pub name: Identifier,
    pub args: Vec<Identifier>,
    pub value: Expression,
}

/// The closed set of statement forms. A band is the only one.
pub enum Statement {
    Band(Band),
}

/// An ordered sequence of statements, in source order, produced by one
/// parse invocation.
pub struct Block {
    pub stmts: Vec<Statement>,
}

/// What an identifier renders as: its literal text.
pub open spec fn spec_render_identifier(id: Identifier) -> Seq<char> {
    id.value@
}

/// What the placeholder expression renders as: the empty string.
pub open spec fn spec_render_expression(e: Expression) -> Seq<char> {
    Seq::empty()
}

/// What an argument list renders as: each identifier wrapped in single
/// spaces.
pub open spec fn spec_render_args(args: Seq<Identifier>) -> Seq<char>
    decreases args.len(),
{
    if args.len() == 0 {
        Seq::empty()
    } else {
        spec_render_args(args.drop_last()) + " "@ + spec_render_identifier(args.last()) + " "@
    }
}

/// What a band renders as: its marker, name, parenthesized arguments and
/// value, wrapped in parentheses.
pub open spec fn spec_render_band(b: Band) -> Seq<char> {
    "( # "@ + b.name.value@ + " ("@ + spec_render_args(b.args@) + ") = "@ + spec_render_expression(
        b.value,
    ) + " )"@
}

/// What a statement renders as.
pub open spec fn spec_render_stmt(st: Statement) -> Seq<char> {
    match st {
        Statement::Band(b) => spec_render_band(b),
    }
}

/// What a statement sequence renders as: each statement followed by a comma
/// separator.
pub open spec fn spec_render_stmts(sts: Seq<Statement>) -> Seq<char>
    decreases sts.len(),
{
    if sts.len() == 0 {
        Seq::empty()
    } else {
        spec_render_stmts(sts.drop_last()) + spec_render_stmt(sts.last()) + ", "@
    }
}

/// What a block renders as: its statements, comma-separated, wrapped in a
/// fixed prefix and suffix.
pub open spec fn spec_render_block(b: Block) -> Seq<char> {
    "start>( "@ + spec_render_stmts(b.stmts@) + ") "@
}

impl Identifier {
    pub fn render(&self) -> (s: String)
        ensures
            s@ == spec_render_identifier(*self),
    {
        self.value.clone()
    }
}

impl Expression {
    pub fn render(&self) -> (s: String)
        ensures
            s@ == spec_render_expression(*self),
    {
        String::new()
    }
}

impl Band {
    pub fn render(&self) -> (s: String)
        ensures
            s@ == spec_render_band(*self),
    {
        let mut s = String::from_str("( # ");
        s.append(self.name.value.as_str());
        s.append(" (");
        let mut k: usize = 0;
        while k < self.args.len()
            invariant
                k <= self.args@.len(),
                s@ == "( # "@ + self.name.value@ + " ("@ + spec_render_args(
                    self.args@.take(k as int),
                ),
            decreases self.args@.len() - k,
        {
            let ghost prefix = self.args@.take(k as int);
            s.append(" ");
            let rendered = self.args[k].render();
            s.append(rendered.as_str());
            s.append(" ");
            k = k + 1;
            proof {
                assert(self.args@.take(k as int).drop_last() =~= prefix);
                assert(s@ =~= "( # "@ + self.name.value@ + " ("@ + spec_render_args(
                    self.args@.take(k as int),
                ));
            }
        }
        proof {
            assert(self.args@.take(self.args@.len() as int) =~= self.args@);
        }
        s.append(") = ");
        let rendered = self.value.render();
        s.append(rendered.as_str());
        s.append(" )");
        proof {
            assert(s@ =~= spec_render_band(*self));
        }
        s
    }
}

impl Statement {
    pub fn render(&self) -> (s: String)
        ensures
            s@ == spec_render_stmt(*self),
    {
        match self {
            Statement::Band(b) => b.render(),
        }
    }
}

impl Block {
    /// An empty block, ready to collect statements.
    pub fn new() -> (b: Block)
        ensures
            b.stmts@ == Seq::<Statement>::empty(),
    {
        Block { stmts: Vec::new() }
    }

    pub fn render(&self) -> (s: String)
        ensures
            s@ == spec_render_block(*self),
    {
        let mut s = String::from_str("start>( ");
        let mut k: usize = 0;
        while k < self.stmts.len()
            invariant
                k <= self.stmts@.len(),
                s@ == "start>( "@ + spec_render_stmts(self.stmts@.take(k as int)),
            decreases self.stmts@.len() - k,
        {
            let ghost prefix = self.stmts@.take(k as int);
            let rendered = self.stmts[k].render();
            s.append(rendered.as_str());
            s.append(", ");
            k = k + 1;
            proof {
                assert(self.stmts@.take(k as int).drop_last() =~= prefix);
                assert(s@ =~= "start>( "@ + spec_render_stmts(self.stmts@.take(k as int)));
            }
        }
        proof {
            assert(self.stmts@.take(self.stmts@.len() as int) =~= self.stmts@);
        }
        s.append(") ");
        proof {
            assert(s@ =~= spec_render_block(*self));
        }
        s
    }
}

} // verus!
