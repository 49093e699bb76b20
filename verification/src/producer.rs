//! The per-line driver of the front end: parses one input unit and renders
//! the resulting block to its deterministic text form, or reports the first
//! structural error.

use vstd::prelude::*;

use crate::node::{
    spec_render_args, spec_render_band, spec_render_block, spec_render_stmts, Block, Statement,
};
use crate::parser::{
    parse, spec_block_matches, spec_parse, spec_stmt_matches, ParseError, SpecBand,
};

verus! {

/// What one parsed band renders as, in terms of the parse alone: its
/// argument list is empty and its value the placeholder, so only the name's
/// lexeme appears.
pub open spec fn spec_render_of_band(sb: SpecBand) -> Seq<char> {
    "( # "@ + sb.name.lexeme + " ("@ + ") = "@ + " )"@
}

/// What a sequence of parsed bands renders as: each band followed by a
/// comma separator.
pub open spec fn spec_render_of_bands(sbs: Seq<SpecBand>) -> Seq<char>
    decreases sbs.len(),
{
    if sbs.len() == 0 {
        Seq::empty()
    } else {
        spec_render_of_bands(sbs.drop_last()) + spec_render_of_band(sbs.last()) + ", "@
    }
}

/// What a successful parse renders as.
pub open spec fn spec_render_of_parse(sbs: Seq<SpecBand>) -> Seq<char> {
    "start>( "@ + spec_render_of_bands(sbs) + ") "@
}

proof fn lemma_render_stmts_of_bands(sts: Seq<Statement>, sbs: Seq<SpecBand>)
    requires
        sts.len() == sbs.len(),
        forall|i: int| 0 <= i < sbs.len() ==> #[trigger] spec_stmt_matches(sts[i], sbs[i]),
    ensures
        spec_render_stmts(sts) == spec_render_of_bands(sbs),
    decreases sbs.len(),
{
    if sbs.len() > 0 {
        lemma_render_stmts_of_bands(sts.drop_last(), sbs.drop_last());
        assert(spec_stmt_matches(sts[sts.len() - 1], sbs[sbs.len() - 1]));
        match sts.last() {
            Statement::Band(b) => {
                assert(spec_render_args(b.args@) =~= Seq::<char>::empty());
                assert(spec_render_band(b) =~= spec_render_of_band(sbs.last()));
            },
        }
        assert(spec_render_stmts(sts) =~= spec_render_of_bands(sbs));
    }
}

/// The rendering of a block is fixed by the parse that built it: a block
/// that matches a sequence of parsed bands renders exactly as that sequence.
pub proof fn lemma_render_of_parse(b: Block, sbs: Seq<SpecBand>)
    requires
        spec_block_matches(b, sbs),
    ensures
        spec_render_block(b) == spec_render_of_parse(sbs),
{
    lemma_render_stmts_of_bands(b.stmts@, sbs);
}

/// Parses one line and renders the block it yields. Success and failure,
/// and the exact text returned, are pinned by [`spec_parse`] and
/// [`spec_render_of_parse`] for every input.
pub fn run(line: String) -> (r: Result<String, ParseError>)
    ensures
        match r {
            Ok(text) => match spec_parse(line@) {
                Ok(sbs) => text@ == spec_render_of_parse(sbs),
                Err(_) => false,
            },
            Err(e) => spec_parse(line@) == Err::<Seq<SpecBand>, ParseError>(e),
        },
{
    let ghost input = line@;
    match parse(line) {
        Ok(block) => {
            proof {
                lemma_render_of_parse(block, spec_parse(input)->Ok_0);
            }
            Ok(block.render())
        },
        Err(e) => Err(e),
    }
}

} // verus!
