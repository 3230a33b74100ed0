//! The compilation pipeline: text to tokens to syntax tree to scene tree to
//! generated text, short-circuiting on the first error of any stage.

use vstd::prelude::*;

use crate::ast::GemFile;
use crate::ast::GemFileView;
use crate::ast::GemDeclView;
use crate::ast::LogicFile;
use crate::ast::LogicFileView;
use crate::ast::PropertyView;
use crate::codegen::spec_generate;
use crate::codegen::RustCodegen;
use crate::error::spec_lex_error_text;
use crate::ir::scene_wf;
use crate::ir::SceneIR;
use crate::ir::SceneView;
use crate::lexer::spec_lex;
use crate::lexer::spec_next_token;
use crate::lexer::spec_tokenize;
use crate::lexer::LexStep;
use crate::lexer::Lexer;
use crate::parser::spec_parse_gem_body;
use crate::parser::spec_parse_gem_decl;
use crate::parser::spec_parse_logic;
use crate::parser::spec_parse_property;
use crate::parser::spec_parse_scene;
use crate::parser::Parser;
use crate::token::Token;
use crate::token::TokenView;
use crate::transformer::decl_count;
use crate::transformer::decls_count;
use crate::transformer::spec_transform;
use crate::transformer::Transformer;

verus! {

broadcast use vstd::std_specs::vec::group_vec_axioms, vstd::seq::group_seq_axioms;

/// Everything one compilation produces: the syntax tree, the lowered scene,
/// and the generated text.
#[derive(Debug)]
pub struct SceneCompileResult {
    pub ast: GemFile,
    pub ir: SceneIR,
    pub generated: String,
}

/// The whole pipeline as one function of the source text.
pub open spec fn spec_compile_scene(s: Seq<char>) -> Result<
    (GemFileView, SceneView, Seq<char>),
    Seq<char>,
> {
    match spec_tokenize(s) {
        Err(e) => Err(spec_lex_error_text(e.0, e.1 as nat, e.2 as nat)),
        Ok(toks) => match spec_parse_scene(toks) {
            Err(m) => Err(m),
            Ok(f) => {
                let ir = spec_transform(f);
                Ok((f, ir, spec_generate(ir)))
            },
        },
    }
}

// ---------------------------------------------------------------------------
// Size bounds: tokens never outnumber characters, declarations never
// outnumber tokens, so the id space suffices for any text the machine can
// hold.
// ---------------------------------------------------------------------------

proof fn lemma_lex_count(s: Seq<char>, pos: int, line: int, col: int)
    requires
        0 <= pos <= s.len(),
    ensures
        spec_lex(s, pos, line, col) matches Ok(toks) ==> toks.len() <= s.len() - pos,
    decreases s.len() - pos,
{
    crate::lexer::lemma_next_token_advances(s, pos, line, col);
    match spec_next_token(s, pos, line, col) {
        LexStep::Tok(t, p, l, c) => {
            if pos < p <= s.len() {
                lemma_lex_count(s, p, l, c);
            }
        },
        _ => (),
    }
}

proof fn lemma_decls_count_push(ds: Seq<GemDeclView>, d: GemDeclView, i: int)
    requires
        0 <= i <= ds.len(),
    ensures
        decls_count(ds.push(d), i) == decls_count(ds, i) + decl_count(d),
    decreases ds.len() - i,
{
    if i == ds.len() {
        assert(ds.push(d)[i] == d);
        assert(decls_count(ds.push(d), i + 1) == 0);
    } else {
        assert(ds.push(d)[i] == ds[i]);
        lemma_decls_count_push(ds, d, i + 1);
    }
}

proof fn lemma_parse_decl_count(toks: Seq<TokenView>, pos: int)
    requires
        0 <= pos <= toks.len(),
    ensures
        spec_parse_gem_decl(toks, pos) matches Ok(dp) ==> decl_count(dp.0) <= dp.1 - pos && pos
            < dp.1 <= toks.len(),
    decreases toks.len() - pos, 0int,
{
    if let Ok(dp) = spec_parse_gem_decl(toks, pos) {
        let p = crate::parser::spec_skip_docs(toks, pos);
        lemma_parse_body_count(toks, p + 4, Seq::empty(), Seq::empty());
    }
}

proof fn lemma_parse_body_count(
    toks: Seq<TokenView>,
    pos: int,
    props: Seq<PropertyView>,
    children: Seq<GemDeclView>,
)
    requires
        0 <= pos <= toks.len(),
    ensures
        spec_parse_gem_body(toks, pos, props, children) matches Ok(res) ==> decls_count(res.1, 0)
            <= decls_count(children, 0) + (res.2 - pos) && pos <= res.2 <= toks.len(),
    decreases toks.len() - pos, 1int,
{
    if !(0 <= pos < toks.len()) {
        return ;
    }
    let t = toks[pos];
    if t == TokenView::RBrace {
    } else if crate::parser::is_upper_ident_tok(t) {
        if let Ok((d, p2)) = spec_parse_gem_decl(toks, pos) {
            lemma_parse_decl_count(toks, pos);
            if pos < p2 <= toks.len() {
                lemma_decls_count_push(children, d, 0);
                lemma_parse_body_count(toks, p2, props, children.push(d));
            }
        }
    } else if crate::parser::is_lower_ident_tok(t) {
        if let Ok((pr, p2)) = spec_parse_property(toks, pos) {
            lemma_parse_property_extent(toks, pos);
            if pos < p2 <= toks.len() {
                lemma_parse_body_count(toks, p2, props.push(pr), children);
            }
        }
    } else if t == TokenView::Hash {
        lemma_parse_directive_extent(toks, pos);
        if let Ok((segs, p2)) = crate::parser::spec_parse_directive(toks, pos) {
            if pos < p2 <= toks.len() {
                let pr = PropertyView {
                    key: "link"@,
                    value: crate::ast::ValueView::Directive(segs),
                };
                lemma_parse_body_count(toks, p2, props.push(pr), children);
            }
        }
    } else if crate::parser::is_doc_tok(t) {
        lemma_parse_body_count(toks, pos + 1, props, children);
    }
}

proof fn lemma_parse_property_extent(toks: Seq<TokenView>, pos: int)
    requires
        0 <= pos <= toks.len(),
    ensures
        spec_parse_property(toks, pos) matches Ok(r) ==> pos < r.1 <= toks.len(),
    decreases toks.len() - pos, 0int,
{
    if let Ok(r) = spec_parse_property(toks, pos) {
        lemma_parse_value_extent(toks, pos + 2);
    }
}

proof fn lemma_parse_value_extent(toks: Seq<TokenView>, pos: int)
    requires
        0 <= pos,
    ensures
        crate::parser::spec_parse_value(toks, pos) matches Ok(r) ==> pos < r.1 <= toks.len(),
    decreases toks.len() - pos, 1int,
{
    match crate::parser::cur_tok(toks, pos) {
        Some(TokenView::LParen) => {
            lemma_parse_value_list_extent(toks, pos + 1, Seq::empty());
        },
        Some(TokenView::Hash) => {
            lemma_parse_directive_extent(toks, pos);
        },
        _ => (),
    }
}

proof fn lemma_parse_value_list_extent(toks: Seq<TokenView>, pos: int, acc: Seq<crate::ast::ValueView>)
    requires
        0 <= pos,
    ensures
        crate::parser::spec_parse_value_list(toks, pos, acc) matches Ok(r) ==> pos <= r.1
            <= toks.len(),
    decreases toks.len() - pos, 2int,
{
    if crate::parser::cur_tok(toks, pos) == Some(TokenView::RParen) {
    } else {
        lemma_parse_value_extent(toks, pos);
        if let Ok((v, p2)) = crate::parser::spec_parse_value(toks, pos) {
            if crate::parser::cur_tok(toks, p2) == Some(TokenView::Comma) {
                if pos < p2 + 1 <= toks.len() {
                    lemma_parse_value_list_extent(toks, p2 + 1, acc.push(v));
                }
            }
        }
    }
}

proof fn lemma_parse_directive_extent(toks: Seq<TokenView>, pos: int)
    requires
        0 <= pos,
    ensures
        crate::parser::spec_parse_directive(toks, pos) matches Ok(r) ==> pos < r.1 <= toks.len(),
    decreases toks.len() - pos, 0int,
{
    if crate::parser::cur_tok(toks, pos) == Some(TokenView::Hash) {
        lemma_dir_segs_extent(toks, pos + 1, Seq::empty());
    }
}

proof fn lemma_dir_segs_extent(toks: Seq<TokenView>, pos: int, acc: Seq<Seq<char>>)
    requires
        0 <= pos <= toks.len(),
    ensures
        crate::parser::spec_dir_segs(toks, pos, acc) matches Ok(r) ==> pos <= r.1 <= toks.len(),
    decreases toks.len() - pos, 0int,
{
    match crate::parser::cur_tok(toks, pos) {
        Some(TokenView::Ident(seg)) => {
            if crate::parser::cur_tok(toks, pos + 1) == Some(TokenView::Colon) {
                lemma_dir_segs_extent(toks, pos + 2, acc.push(seg));
            }
        },
        _ => (),
    }
}

// ---------------------------------------------------------------------------
// The pipeline stages
// ---------------------------------------------------------------------------

/// Tokenize source text, rendering a lexing failure as one line of text.
pub fn lex_source(content: &str) -> (r: Result<Vec<Token>, String>)
    requires
        2 * content@.len() + 2 <= usize::MAX as int,
    ensures
        match r {
            Ok(toks) => spec_tokenize(content@) == Ok::<Seq<TokenView>, (Seq<char>, int, int)>(
                toks.deep_view(),
            ),
            Err(m) => spec_tokenize(content@) matches Err(e) && m@ == spec_lex_error_text(
                e.0,
                e.1 as nat,
                e.2 as nat,
            ),
        },
{
    let mut lexer = Lexer::new(String::from_str(content));
    match lexer.tokenize() {
        Ok(toks) => Ok(toks),
        Err(e) => Err(e.describe()),
    }
}

/// Parse a scene file from tokens, surfacing the parse error's message.
pub fn parse_scene(tokens: Vec<Token>) -> (r: Result<GemFile, String>)
    ensures
        match r {
            Ok(f) => spec_parse_scene(tokens.deep_view()) == Ok::<GemFileView, Seq<char>>(f@),
            Err(m) => spec_parse_scene(tokens.deep_view()) matches Err(e) && m@ == e,
        },
{
    let mut parser = Parser::new(tokens);
    match parser.parse_scene() {
        Ok(f) => Ok(f),
        Err(e) => Err(e.message),
    }
}

/// Parse a logic file from tokens, surfacing the parse error's message.
pub fn parse_logic(tokens: Vec<Token>) -> (r: Result<LogicFile, String>)
    ensures
        match r {
            Ok(l) => spec_parse_logic(tokens.deep_view(), 0) == Ok::<LogicFileView, Seq<char>>(l@),
            Err(m) => spec_parse_logic(tokens.deep_view(), 0) matches Err(e) && m@ == e,
        },
{
    let mut parser = Parser::new(tokens);
    match parser.parse_logic() {
        Ok(l) => Ok(l),
        Err(e) => Err(e.message),
    }
}

/// Compile scene text end to end: lex, parse, lower, and generate. The
/// caller persists the generated text.
pub fn compile_scene(content: &str) -> (r: Result<SceneCompileResult, String>)
    requires
        2 * content@.len() + 2 <= usize::MAX as int,
        content@.len() < 0xffff_fffe,
    ensures
        match r {
            Ok(res) => spec_compile_scene(content@) == Ok::<
                (GemFileView, SceneView, Seq<char>),
                Seq<char>,
            >((res.ast@, res.ir@, res.generated@)) && scene_wf(res.ir@),
            Err(m) => spec_compile_scene(content@) matches Err(e) && m@ == e,
        },
{
    let tokens = match lex_source(content) {
        Ok(t) => t,
        Err(m) => {
            return Err(m);
        },
    };
    let ghost toks = tokens.deep_view();
    proof {
        lemma_lex_count(content@, 0, 1, 1);
        lemma_parse_decl_count(toks, 0);
    }
    let ast = match parse_scene(tokens) {
        Ok(f) => f,
        Err(m) => {
            return Err(m);
        },
    };
    let transformer = Transformer::new();
    proof {
        assert(transformer@ =~= (SceneView { nodes: Seq::empty(), root: None, next: 0 }));
    }
    let ir = match transformer.transform(&ast) {
        Ok(ir) => ir,
        Err(m) => {
            proof {
                assert(false);
            }
            return Err(m);
        },
    };
    let codegen = RustCodegen::new();
    let generated = codegen.generate(&ir);
    Ok(SceneCompileResult { ast, ir, generated })
}

} // verus!
