//! The whole pipeline: source text to tree, with the two failure modes
//! joined, and the determinism law that makes serialized output comparable
//! across runs and implementations.

use vstd::prelude::*;

use crate::ast::AstNode;
use crate::ast::SpecNode;
use crate::ast::wf_node;
use crate::lexer::LexError;
use crate::lexer::LexErrorModel;
use crate::lexer::lemma_tokenize_wf;
use crate::lexer::spec_tokenize;
use crate::lexer::tokenize;
use crate::parser::ParseError;
use crate::parser::ParseErrorModel;
use crate::parser::Parser;
use crate::parser::lemma_parse_program_wf;
use crate::parser::spec_parse_program;
use crate::serialize::spec_serialize;
use crate::token::TokenModel;

verus! {

/// A failure of either pipeline stage: the scan or the parse.
#[derive(Clone, Copy, PartialEq, Eq, Structural, Debug)]
pub enum SourceError {
    Lex(LexError),
    Parse(ParseError),
}

/// The mathematical model of a [`SourceError`].
pub enum SourceErrorModel {
    Lex(LexErrorModel),
    Parse(ParseErrorModel),
}

impl View for SourceError {
    type V = SourceErrorModel;

    open spec fn view(&self) -> SourceErrorModel {
        match *self {
            SourceError::Lex(e) => SourceErrorModel::Lex(e@),
            SourceError::Parse(e) => SourceErrorModel::Parse(e@),
        }
    }
}

/// What the whole pipeline yields on a source text: the program tree when
/// the text scans and parses, otherwise the first failure.
pub open spec fn spec_parse_source(s: Seq<char>) -> Result<SpecNode, SourceErrorModel> {
    match spec_tokenize(s) {
        Err(e) => Err(SourceErrorModel::Lex(e)),
        Ok(toks) => match spec_parse_program(toks, 0) {
            Err(e) => Err(SourceErrorModel::Parse(e)),
            Ok(node) => Ok(node),
        },
    }
}

/// Scans and parses a source text in one step: the program tree, or the
/// first failure of either stage. The result is exactly
/// [`spec_parse_source`] of the input.
pub fn parse_source(input: &str) -> (r: Result<AstNode, SourceError>)
    requires
        input@.len() < usize::MAX,
    ensures
        match r {
            Ok(node) => spec_parse_source(input@) == Ok::<SpecNode, SourceErrorModel>(node@),
            Err(e) => spec_parse_source(input@) == Err::<SpecNode, SourceErrorModel>(e@),
        },
{
    let tokens = match tokenize(input) {
        Ok(t) => t,
        Err(e) => {
            return Err(SourceError::Lex(e));
        },
    };
    proof {
        lemma_tokenize_wf(input@);
    }
    let mut parser = Parser::new(tokens);
    match parser.parse_program() {
        Ok(node) => Ok(node),
        Err(e) => Err(SourceError::Parse(e)),
    }
}

/// Determinism of the pipeline: every stage is a mathematical function of
/// the source text alone, so two runs over the same characters scan to the
/// same tokens, parse to the same tree, and serialize to identical text.
pub proof fn lemma_pipeline_deterministic(
    s: Seq<char>,
    toks1: Seq<TokenModel>,
    toks2: Seq<TokenModel>,
    n1: SpecNode,
    n2: SpecNode,
)
    requires
        spec_tokenize(s) == Ok::<Seq<TokenModel>, LexErrorModel>(toks1),
        spec_tokenize(s) == Ok::<Seq<TokenModel>, LexErrorModel>(toks2),
        spec_parse_program(toks1, 0) == Ok::<SpecNode, ParseErrorModel>(n1),
        spec_parse_program(toks2, 0) == Ok::<SpecNode, ParseErrorModel>(n2),
    ensures
        toks1 == toks2,
        n1 == n2,
        spec_serialize(n1) == spec_serialize(n2),
{
}


/// Structural soundness of the pipeline: whenever a source text scans and
/// parses, the resulting tree is well-formed — the root is a program over
/// one statement block, every block holds at least one statement, and every
/// expression carries an operator exactly when it carries a right-hand
/// side. No partially built tree ever escapes.
pub proof fn lemma_parse_source_wf(s: Seq<char>)
    requires
        spec_parse_source(s) is Ok,
    ensures
        spec_parse_source(s)->Ok_0 is Program,
        wf_node(spec_parse_source(s)->Ok_0),
{
    if spec_tokenize(s) is Ok {
        lemma_parse_program_wf(spec_tokenize(s)->Ok_0, 0);
    }
}

} // verus!
