//! Recursive-descent parser for the scene and logic grammars.
//!
//! Each executable entry point is proved equal to a spec-level parser over
//! the token sequence, so the grammar below is the contract. Identifier case
//! (which tells a child declaration from a property key) is decided on the
//! first character as an ASCII letter class; the lexer only ever produces
//! identifiers led by an ASCII letter or underscore.

use vstd::prelude::*;

use crate::ast::decl_view;
use crate::ast::decls_view;
use crate::ast::events_view;
use crate::ast::expr_view;
use crate::ast::exprs_view;
use crate::ast::functions_view;
use crate::ast::lemma_decls_view_push;
use crate::ast::lemma_events_view_push;
use crate::ast::lemma_exprs_view_push;
use crate::ast::lemma_functions_view_push;
use crate::ast::lemma_properties_view_push;
use crate::ast::lemma_stmts_view_push;
use crate::ast::lemma_strings_view_push;
use crate::ast::lemma_values_view_push;
use crate::ast::properties_view;
use crate::ast::stmts_view;
use crate::ast::strings_view;
use crate::ast::values_view;
use crate::ast::Block;
use crate::ast::BlockView;
use crate::ast::BinOp;
use crate::ast::Event;
use crate::ast::EventView;
use crate::ast::Expr;
use crate::ast::ExprView;
use crate::ast::FunctionDecl;
use crate::ast::FunctionDeclView;
use crate::ast::GemDecl;
use crate::ast::GemDeclView;
use crate::ast::GemFile;
use crate::ast::GemFileView;
use crate::ast::LogicFile;
use crate::ast::LogicFileView;
use crate::ast::Property;
use crate::ast::PropertyView;
use crate::ast::Stmt;
use crate::ast::StmtView;
use crate::ast::UnOp;
use crate::ast::Value;
use crate::ast::ValueView;
use crate::text::is_lower_char;
use crate::text::is_upper_char;
use crate::token::spec_token_text;
use crate::token::Token;
use crate::token::TokenView;

verus! {

broadcast use vstd::std_specs::vec::group_vec_axioms, vstd::seq::group_seq_axioms;

/// A parsing failure: a descriptive message naming the offending token
/// where one applies.
#[derive(Debug)]
pub struct ParseError {
    pub message: String,
}

impl ParseError {
    /// Render this error as one line of text.
    pub fn describe(&self) -> (r: String)
        ensures
            r@ == "ParseError: "@ + self.message@,
    {
        let mut r = String::new();
        r.append("ParseError: ");
        r.append(self.message.as_str());
        r
    }
}

// ---------------------------------------------------------------------------
// Token helpers
// ---------------------------------------------------------------------------

/// The token at `pos`, if any.
pub open spec fn cur_tok(toks: Seq<TokenView>, pos: int) -> Option<TokenView> {
    if 0 <= pos < toks.len() {
        Some(toks[pos])
    } else {
        None
    }
}

/// How an optional token shows inside an error message.
pub open spec fn opt_token_text(o: Option<TokenView>) -> Seq<char> {
    match o {
        Some(t) => "Some("@ + spec_token_text(t) + ")"@,
        None => "None"@,
    }
}

/// The expected-token mismatch message.
pub open spec fn msg_expected(expected: TokenView, toks: Seq<TokenView>, pos: int) -> Seq<char> {
    "Expected "@ + spec_token_text(expected) + ", got "@ + opt_token_text(cur_tok(toks, pos))
}

/// An identifier led by a capital letter: starts a child declaration.
pub open spec fn is_upper_ident_tok(t: TokenView) -> bool {
    match t {
        TokenView::Ident(n) => n.len() > 0 && is_upper_char(n[0]),
        _ => false,
    }
}

/// An identifier led by a small letter or underscore: starts a property.
pub open spec fn is_lower_ident_tok(t: TokenView) -> bool {
    match t {
        TokenView::Ident(n) => n.len() > 0 && (is_lower_char(n[0]) || n[0] == '_'),
        _ => false,
    }
}

pub open spec fn is_doc_tok(t: TokenView) -> bool {
    t matches TokenView::DocComment(_)
}

/// The position after any run of doc-comment tokens.
pub open spec fn spec_skip_docs(toks: Seq<TokenView>, pos: int) -> int
    decreases toks.len() - pos,
{
    if 0 <= pos < toks.len() && is_doc_tok(toks[pos]) {
        spec_skip_docs(toks, pos + 1)
    } else {
        pos
    }
}

// ---------------------------------------------------------------------------
// The scene grammar, as spec functions
// ---------------------------------------------------------------------------
//
// Every function takes the token sequence and a position and yields the
// parsed model with the position after it, or the error message. A guard of
// the form `pos < p` on positions returned by a sub-parse is there for
// termination; the executable parser shows each such guard holds.

/// Parse `Name : Type { ... }`, skipping leading doc comments.
pub open spec fn spec_parse_gem_decl(toks: Seq<TokenView>, pos: int) -> Result<
    (GemDeclView, int),
    Seq<char>,
>
    decreases toks.len() - pos, 0int,
{
    let p = spec_skip_docs(toks, pos);
    if !(pos <= p) {
        Err("Expected Gem name (Uppercase identifier)"@)
    } else {
        match cur_tok(toks, p) {
            Some(TokenView::Ident(name)) => if name.len() > 0 && is_upper_char(name[0]) {
                if cur_tok(toks, p + 1) != Some(TokenView::Colon) {
                    Err(msg_expected(TokenView::Colon, toks, p + 1))
                } else {
                    match cur_tok(toks, p + 2) {
                        Some(TokenView::Ident(ty)) => {
                            if cur_tok(toks, p + 3) != Some(TokenView::LBrace) {
                                Err(msg_expected(TokenView::LBrace, toks, p + 3))
                            } else {
                                match spec_parse_gem_body(toks, p + 4, Seq::empty(), Seq::empty()) {
                                    Ok((props, children, p2)) => {
                                        if cur_tok(toks, p2) != Some(TokenView::RBrace) {
                                            Err(msg_expected(TokenView::RBrace, toks, p2))
                                        } else {
                                            Ok(
                                                (
                                                    GemDeclView {
                                                        name,
                                                        gem_type: ty,
                                                        properties: props,
                                                        children,
                                                    },
                                                    p2 + 1,
                                                ),
                                            )
                                        }
                                    },
                                    Err(e) => Err(e),
                                }
                            }
                        },
                        _ => Err("Expected Gem type"@),
                    }
                }
            } else {
                Err("Expected Gem name (Uppercase identifier)"@)
            },
            _ => Err("Expected Gem name (Uppercase identifier)"@),
        }
    }
}

/// Parse the inside of a declaration's braces: child declarations,
/// properties, bare directives auto-named `link`, and skipped doc comments,
/// until a closing brace or the end of input.
pub open spec fn spec_parse_gem_body(
    toks: Seq<TokenView>,
    pos: int,
    props: Seq<PropertyView>,
    children: Seq<GemDeclView>,
) -> Result<(Seq<PropertyView>, Seq<GemDeclView>, int), Seq<char>>
    decreases toks.len() - pos, 1int,
{
    if !(0 <= pos < toks.len()) {
        Ok((props, children, pos))
    } else {
        let t = toks[pos];
        if t == TokenView::RBrace {
            Ok((props, children, pos))
        } else if is_upper_ident_tok(t) {
            match spec_parse_gem_decl(toks, pos) {
                Ok((d, p2)) => if pos < p2 <= toks.len() {
                    spec_parse_gem_body(toks, p2, props, children.push(d))
                } else {
                    Ok((props, children.push(d), p2))
                },
                Err(e) => Err(e),
            }
        } else if is_lower_ident_tok(t) {
            match spec_parse_property(toks, pos) {
                Ok((pr, p2)) => if pos < p2 <= toks.len() {
                    spec_parse_gem_body(toks, p2, props.push(pr), children)
                } else {
                    Ok((props.push(pr), children, p2))
                },
                Err(e) => Err(e),
            }
        } else if t == TokenView::Hash {
            match spec_parse_directive(toks, pos) {
                Ok((segs, p2)) => {
                    let pr = PropertyView { key: "link"@, value: ValueView::Directive(segs) };
                    if pos < p2 <= toks.len() {
                        spec_parse_gem_body(toks, p2, props.push(pr), children)
                    } else {
                        Ok((props.push(pr), children, p2))
                    }
                },
                Err(e) => Err(e),
            }
        } else if is_doc_tok(t) {
            spec_parse_gem_body(toks, pos + 1, props, children)
        } else {
            Err("Unexpected token in Gem body: "@ + spec_token_text(t))
        }
    }
}

/// Parse `key : value`.
pub open spec fn spec_parse_property(toks: Seq<TokenView>, pos: int) -> Result<
    (PropertyView, int),
    Seq<char>,
>
    decreases toks.len() - pos, 0int,
{
    match cur_tok(toks, pos) {
        Some(TokenView::Ident(key)) => {
            if cur_tok(toks, pos + 1) != Some(TokenView::Colon) {
                Err(msg_expected(TokenView::Colon, toks, pos + 1))
            } else {
                match spec_parse_value(toks, pos + 2) {
                    Ok((v, p2)) => Ok((PropertyView { key, value: v }, p2)),
                    Err(e) => Err(e),
                }
            }
        },
        _ => Err("Expected property key"@),
    }
}

/// Parse a property value: a literal, a parenthesized tuple, a directive,
/// or a bare identifier.
pub open spec fn spec_parse_value(toks: Seq<TokenView>, pos: int) -> Result<
    (ValueView, int),
    Seq<char>,
>
    decreases toks.len() - pos, 1int,
{
    match cur_tok(toks, pos) {
        Some(TokenView::Integer(i)) => Ok((ValueView::Integer(i), pos + 1)),
        Some(TokenView::Float(f)) => Ok((ValueView::Number(f), pos + 1)),
        Some(TokenView::String(s)) => Ok((ValueView::String(s), pos + 1)),
        Some(TokenView::Bool(b)) => Ok((ValueView::Bool(b), pos + 1)),
        Some(TokenView::LParen) => {
            match spec_parse_value_list(toks, pos + 1, Seq::empty()) {
                Ok((elems, p2)) => {
                    if cur_tok(toks, p2) != Some(TokenView::RParen) {
                        Err(msg_expected(TokenView::RParen, toks, p2))
                    } else {
                        Ok((ValueView::Tuple(elems), p2 + 1))
                    }
                },
                Err(e) => Err(e),
            }
        },
        Some(TokenView::Hash) => {
            match spec_parse_directive(toks, pos) {
                Ok((segs, p2)) => Ok((ValueView::Directive(segs), p2)),
                Err(e) => Err(e),
            }
        },
        Some(TokenView::Ident(id)) => Ok((ValueView::Ident(id), pos + 1)),
        _ => Err("Expected value, got "@ + opt_token_text(cur_tok(toks, pos))),
    }
}

/// Parse comma-separated values until a closing parenthesis; the caller
/// checks the parenthesis itself.
pub open spec fn spec_parse_value_list(
    toks: Seq<TokenView>,
    pos: int,
    acc: Seq<ValueView>,
) -> Result<(Seq<ValueView>, int), Seq<char>>
    decreases toks.len() - pos, 2int,
{
    if cur_tok(toks, pos) == Some(TokenView::RParen) {
        Ok((acc, pos))
    } else {
        match spec_parse_value(toks, pos) {
            Ok((v, p2)) => {
                if cur_tok(toks, p2) == Some(TokenView::Comma) {
                    if pos < p2 + 1 <= toks.len() {
                        spec_parse_value_list(toks, p2 + 1, acc.push(v))
                    } else {
                        Ok((acc.push(v), p2))
                    }
                } else {
                    Ok((acc.push(v), p2))
                }
            },
            Err(e) => Err(e),
        }
    }
}

/// Parse `# seg (: seg)*`: at least one segment, or the empty-directive
/// error.
pub open spec fn spec_parse_directive(toks: Seq<TokenView>, pos: int) -> Result<
    (Seq<Seq<char>>, int),
    Seq<char>,
>
    decreases toks.len() - pos, 0int,
{
    if cur_tok(toks, pos) != Some(TokenView::Hash) {
        Err(msg_expected(TokenView::Hash, toks, pos))
    } else {
        match spec_dir_segs(toks, pos + 1, Seq::empty()) {
            Ok((segs, p2)) => if segs.len() == 0 {
                Err("Empty directive"@)
            } else {
                Ok((segs, p2))
            },
            Err(e) => Err(e),
        }
    }
}

/// Collect directive segments separated by colons.
pub open spec fn spec_dir_segs(toks: Seq<TokenView>, pos: int, acc: Seq<Seq<char>>) -> Result<
    (Seq<Seq<char>>, int),
    Seq<char>,
>
    decreases toks.len() - pos, 0int,
{
    match cur_tok(toks, pos) {
        Some(TokenView::Ident(seg)) => {
            if cur_tok(toks, pos + 1) == Some(TokenView::Colon) {
                spec_dir_segs(toks, pos + 2, acc.push(seg))
            } else {
                Ok((acc.push(seg), pos + 1))
            }
        },
        _ => Ok((acc, pos)),
    }
}

/// Parse a scene file starting at `pos`: exactly one declaration, with any
/// token left over afterwards an error.
pub open spec fn spec_parse_scene_at(toks: Seq<TokenView>, pos: int) -> Result<
    GemFileView,
    Seq<char>,
> {
    match spec_parse_gem_decl(toks, pos) {
        Ok((d, p)) => if p < toks.len() {
            Err("Unexpected token after root declaration: "@ + spec_token_text(toks[p]))
        } else {
            Ok(GemFileView { root: d })
        },
        Err(e) => Err(e),
    }
}

/// Parse a whole scene file: exactly one top-level declaration and nothing
/// after it.
pub open spec fn spec_parse_scene(toks: Seq<TokenView>) -> Result<GemFileView, Seq<char>> {
    spec_parse_scene_at(toks, 0)
}

// ---------------------------------------------------------------------------
// The logic grammar, as spec functions
// ---------------------------------------------------------------------------

/// The reserved event-handler name prefix.
pub open spec fn spec_starts_on(n: Seq<char>) -> bool {
    n.len() >= 3 && n[0] == 'o' && n[1] == 'n' && n[2] == '_'
}

/// Skip leading doc comments, keeping the last one seen.
pub open spec fn spec_lead_docs(toks: Seq<TokenView>, pos: int, doc: Option<Seq<char>>) -> (
    int,
    Option<Seq<char>>,
)
    decreases toks.len() - pos,
{
    match cur_tok(toks, pos) {
        Some(TokenView::DocComment(c)) => spec_lead_docs(toks, pos + 1, Some(c)),
        _ => (pos, doc),
    }
}

/// Parse a whole logic file: optional doc comments, the `extend` header, an
/// optional doc comment after it, then the declarations.
pub open spec fn spec_parse_logic(toks: Seq<TokenView>, pos: int) -> Result<
    LogicFileView,
    Seq<char>,
> {
    let (p, doc0) = spec_lead_docs(toks, pos, None);
    if !(pos <= p) {
        Err("Expected Extend, got None"@)
    } else if cur_tok(toks, p) != Some(TokenView::Extend) {
        Err(msg_expected(TokenView::Extend, toks, p))
    } else {
        match cur_tok(toks, p + 1) {
            Some(TokenView::Ident(ty)) => {
                let after = match cur_tok(toks, p + 2) {
                    Some(TokenView::DocComment(c)) => (p + 3, Some(c)),
                    _ => (p + 2, doc0),
                };
                match spec_logic_items(toks, after.0, Seq::empty(), Seq::empty()) {
                    Ok((evs, fns, _pend)) => Ok(
                        LogicFileView {
                            extend_type: ty,
                            doc_comment: after.1,
                            events: evs,
                            functions: fns,
                        },
                    ),
                    Err(e) => Err(e),
                }
            },
            _ => Err("Expected Gem type after 'extend'"@),
        }
    }
}

/// Parse the declarations of a logic file: `fn` items, sorted into event
/// handlers and functions by the reserved name prefix; doc comments are
/// skipped.
pub open spec fn spec_logic_items(
    toks: Seq<TokenView>,
    pos: int,
    events: Seq<EventView>,
    functions: Seq<FunctionDeclView>,
) -> Result<(Seq<EventView>, Seq<FunctionDeclView>, int), Seq<char>>
    decreases toks.len() - pos, 1int,
{
    if !(0 <= pos < toks.len()) {
        Ok((events, functions, pos))
    } else {
        match toks[pos] {
            TokenView::DocComment(_) => spec_logic_items(toks, pos + 1, events, functions),
            TokenView::Fn => {
                match cur_tok(toks, pos + 1) {
                    Some(TokenView::Ident(name)) => if spec_starts_on(name) {
                        match spec_parse_event(toks, pos + 1) {
                            Ok((ev, p2)) => if pos < p2 <= toks.len() {
                                spec_logic_items(toks, p2, events.push(ev), functions)
                            } else {
                                Ok((events.push(ev), functions, p2))
                            },
                            Err(e) => Err(e),
                        }
                    } else {
                        match spec_parse_function(toks, pos + 1) {
                            Ok((f, p2)) => if pos < p2 <= toks.len() {
                                spec_logic_items(toks, p2, events, functions.push(f))
                            } else {
                                Ok((events, functions.push(f), p2))
                            },
                            Err(e) => Err(e),
                        }
                    },
                    _ => Err("Expected function or event name after 'fn'"@),
                }
            },
            t => Err("Unexpected token in logic file: "@ + spec_token_text(t)),
        }
    }
}

/// Parse an event handler after `fn`: its name, an optional parameter list,
/// and its body.
pub open spec fn spec_parse_event(toks: Seq<TokenView>, pos: int) -> Result<
    (EventView, int),
    Seq<char>,
>
    decreases toks.len() - pos, 2int,
{
    match cur_tok(toks, pos) {
        Some(TokenView::Ident(name)) => {
            if cur_tok(toks, pos + 1) == Some(TokenView::LParen) {
                match spec_parse_param_list(toks, pos + 1) {
                    Ok((params, p2)) => if pos < p2 <= toks.len() {
                        match spec_parse_block(toks, p2) {
                            Ok((b, p3)) => Ok((EventView { name, params, body: b }, p3)),
                            Err(e) => Err(e),
                        }
                    } else {
                        Err(""@)
                    },
                    Err(e) => Err(e),
                }
            } else {
                match spec_parse_block(toks, pos + 1) {
                    Ok((b, p3)) => Ok(
                        (EventView { name, params: Seq::empty(), body: b }, p3),
                    ),
                    Err(e) => Err(e),
                }
            }
        },
        _ => Err("Expected event name"@),
    }
}

/// Parse a plain function after `fn`: its name, parameter list, and body.
pub open spec fn spec_parse_function(toks: Seq<TokenView>, pos: int) -> Result<
    (FunctionDeclView, int),
    Seq<char>,
>
    decreases toks.len() - pos, 2int,
{
    match cur_tok(toks, pos) {
        Some(TokenView::Ident(name)) => {
            match spec_parse_param_list(toks, pos + 1) {
                Ok((params, p2)) => if pos < p2 <= toks.len() {
                    match spec_parse_block(toks, p2) {
                        Ok((b, p3)) => Ok((FunctionDeclView { name, params, body: b }, p3)),
                        Err(e) => Err(e),
                    }
                } else {
                    Err(""@)
                },
                Err(e) => Err(e),
            }
        },
        _ => Err("Expected function name"@),
    }
}

/// Parse a parenthesized, comma-separated parameter list.
pub open spec fn spec_parse_param_list(toks: Seq<TokenView>, pos: int) -> Result<
    (Seq<Seq<char>>, int),
    Seq<char>,
>
    decreases toks.len() - pos, 1int,
{
    if cur_tok(toks, pos) != Some(TokenView::LParen) {
        Err(msg_expected(TokenView::LParen, toks, pos))
    } else {
        match spec_params(toks, pos + 1, Seq::empty()) {
            Ok((ps, p2)) => if cur_tok(toks, p2) != Some(TokenView::RParen) {
                Err(msg_expected(TokenView::RParen, toks, p2))
            } else {
                Ok((ps, p2 + 1))
            },
            Err(e) => Err(e),
        }
    }
}

/// Collect parameter names up to the closing parenthesis.
pub open spec fn spec_params(toks: Seq<TokenView>, pos: int, acc: Seq<Seq<char>>) -> Result<
    (Seq<Seq<char>>, int),
    Seq<char>,
>
    decreases toks.len() - pos, 0int,
{
    if cur_tok(toks, pos) == Some(TokenView::RParen) {
        Ok((acc, pos))
    } else {
        match cur_tok(toks, pos) {
            Some(TokenView::Ident(p)) => {
                if cur_tok(toks, pos + 1) == Some(TokenView::Comma) {
                    spec_params(toks, pos + 2, acc.push(p))
                } else {
                    Ok((acc.push(p), pos + 1))
                }
            },
            _ => Err("Expected parameter name"@),
        }
    }
}

/// Parse a braced statement list.
pub open spec fn spec_parse_block(toks: Seq<TokenView>, pos: int) -> Result<
    (BlockView, int),
    Seq<char>,
>
    decreases toks.len() - pos, 0int,
{
    if cur_tok(toks, pos) != Some(TokenView::LBrace) {
        Err(msg_expected(TokenView::LBrace, toks, pos))
    } else {
        match spec_block_stmts(toks, pos + 1, Seq::empty()) {
            Ok((ss, p2)) => if cur_tok(toks, p2) != Some(TokenView::RBrace) {
                Err(msg_expected(TokenView::RBrace, toks, p2))
            } else {
                Ok((BlockView { statements: ss }, p2 + 1))
            },
            Err(e) => Err(e),
        }
    }
}

/// Collect statements until a closing brace or the end of input.
pub open spec fn spec_block_stmts(toks: Seq<TokenView>, pos: int, acc: Seq<StmtView>) -> Result<
    (Seq<StmtView>, int),
    Seq<char>,
>
    decreases toks.len() - pos, 20int,
{
    if !(0 <= pos < toks.len()) {
        Ok((acc, pos))
    } else if toks[pos] == TokenView::RBrace {
        Ok((acc, pos))
    } else {
        match spec_parse_statement(toks, pos) {
            Ok((st, p2)) => if pos < p2 <= toks.len() {
                spec_block_stmts(toks, p2, acc.push(st))
            } else {
                Ok((acc.push(st), p2))
            },
            Err(e) => Err(e),
        }
    }
}

/// Parse one statement: an assignment, a spawn, or an expression statement.
pub open spec fn spec_parse_statement(toks: Seq<TokenView>, pos: int) -> Result<
    (StmtView, int),
    Seq<char>,
>
    decreases toks.len() - pos, 19int,
{
    match cur_tok(toks, pos) {
        Some(TokenView::Ident(name)) => {
            if cur_tok(toks, pos + 1) == Some(TokenView::Eq) {
                match spec_parse_expression(toks, pos + 2) {
                    Ok((v, p2)) => Ok((StmtView::Assignment { target: name, value: v }, p2)),
                    Err(e) => Err(e),
                }
            } else {
                match spec_call_or_property(toks, pos + 1, name) {
                    Ok((e2, p2)) => Ok((StmtView::ExprStmt(e2), p2)),
                    Err(e) => Err(e),
                }
            }
        },
        Some(TokenView::Spawn) => spec_parse_spawn(toks, pos + 1),
        _ => match spec_parse_expression(toks, pos) {
            Ok((e2, p2)) => Ok((StmtView::ExprStmt(e2), p2)),
            Err(e) => Err(e),
        },
    }
}

/// Parse `Type { property* }` after `spawn`.
pub open spec fn spec_parse_spawn(toks: Seq<TokenView>, pos: int) -> Result<
    (StmtView, int),
    Seq<char>,
>
    decreases toks.len() - pos, 2int,
{
    match cur_tok(toks, pos) {
        Some(TokenView::Ident(ty)) => {
            if cur_tok(toks, pos + 1) != Some(TokenView::LBrace) {
                Err(msg_expected(TokenView::LBrace, toks, pos + 1))
            } else {
                match spec_spawn_props(toks, pos + 2, Seq::empty()) {
                    Ok((ps, p2)) => if cur_tok(toks, p2) != Some(TokenView::RBrace) {
                        Err(msg_expected(TokenView::RBrace, toks, p2))
                    } else {
                        Ok((StmtView::Spawn { gem_type: ty, properties: ps }, p2 + 1))
                    },
                    Err(e) => Err(e),
                }
            }
        },
        _ => Err("Expected Gem type after 'spawn'"@),
    }
}

/// Collect spawned properties until a closing brace or the end of input.
pub open spec fn spec_spawn_props(toks: Seq<TokenView>, pos: int, acc: Seq<PropertyView>) -> Result<
    (Seq<PropertyView>, int),
    Seq<char>,
>
    decreases toks.len() - pos, 1int,
{
    if !(0 <= pos < toks.len()) {
        Ok((acc, pos))
    } else if toks[pos] == TokenView::RBrace {
        Ok((acc, pos))
    } else {
        match spec_parse_property(toks, pos) {
            Ok((pr, p2)) => if pos < p2 <= toks.len() {
                spec_spawn_props(toks, p2, acc.push(pr))
            } else {
                Ok((acc.push(pr), p2))
            },
            Err(e) => Err(e),
        }
    }
}

// ---------------------------------------------------------------------------
// The expression grammar: precedence climbing, loosest to tightest.
// ---------------------------------------------------------------------------

pub open spec fn spec_parse_expression(toks: Seq<TokenView>, pos: int) -> Result<
    (ExprView, int),
    Seq<char>,
>
    decreases toks.len() - pos, 17int,
{
    spec_parse_or(toks, pos)
}

pub open spec fn spec_parse_or(toks: Seq<TokenView>, pos: int) -> Result<(ExprView, int), Seq<char>>
    decreases toks.len() - pos, 16int,
{
    match spec_parse_and(toks, pos) {
        Ok((l, p)) => if pos <= p <= toks.len() {
            spec_or_rest(toks, p, l)
        } else {
            Ok((l, p))
        },
        Err(e) => Err(e),
    }
}

pub open spec fn spec_or_rest(toks: Seq<TokenView>, pos: int, left: ExprView) -> Result<
    (ExprView, int),
    Seq<char>,
>
    decreases toks.len() - pos, 15int,
{
    if cur_tok(toks, pos) == Some(TokenView::Or) {
        match spec_parse_and(toks, pos + 1) {
            Ok((r2, p2)) => {
                let combined = ExprView::BinaryOp {
                    op: BinOp::Or,
                    left: Box::new(left),
                    right: Box::new(r2),
                };
                if pos < p2 <= toks.len() {
                    spec_or_rest(toks, p2, combined)
                } else {
                    Ok((combined, p2))
                }
            },
            Err(e) => Err(e),
        }
    } else {
        Ok((left, pos))
    }
}

pub open spec fn spec_parse_and(toks: Seq<TokenView>, pos: int) -> Result<
    (ExprView, int),
    Seq<char>,
>
    decreases toks.len() - pos, 14int,
{
    match spec_parse_eq(toks, pos) {
        Ok((l, p)) => if pos <= p <= toks.len() {
            spec_and_rest(toks, p, l)
        } else {
            Ok((l, p))
        },
        Err(e) => Err(e),
    }
}

pub open spec fn spec_and_rest(toks: Seq<TokenView>, pos: int, left: ExprView) -> Result<
    (ExprView, int),
    Seq<char>,
>
    decreases toks.len() - pos, 13int,
{
    if cur_tok(toks, pos) == Some(TokenView::And) {
        match spec_parse_eq(toks, pos + 1) {
            Ok((r2, p2)) => {
                let combined = ExprView::BinaryOp {
                    op: BinOp::And,
                    left: Box::new(left),
                    right: Box::new(r2),
                };
                if pos < p2 <= toks.len() {
                    spec_and_rest(toks, p2, combined)
                } else {
                    Ok((combined, p2))
                }
            },
            Err(e) => Err(e),
        }
    } else {
        Ok((left, pos))
    }
}

/// The equality operator at `pos`, if any.
pub open spec fn spec_eq_op(toks: Seq<TokenView>, pos: int) -> Option<BinOp> {
    match cur_tok(toks, pos) {
        Some(TokenView::EqEq) => Some(BinOp::Eq),
        Some(TokenView::NotEq) => Some(BinOp::NotEq),
        _ => None,
    }
}

pub open spec fn spec_parse_eq(toks: Seq<TokenView>, pos: int) -> Result<(ExprView, int), Seq<char>>
    decreases toks.len() - pos, 12int,
{
    match spec_parse_cmp(toks, pos) {
        Ok((l, p)) => if pos <= p <= toks.len() {
            spec_eq_rest(toks, p, l)
        } else {
            Ok((l, p))
        },
        Err(e) => Err(e),
    }
}

pub open spec fn spec_eq_rest(toks: Seq<TokenView>, pos: int, left: ExprView) -> Result<
    (ExprView, int),
    Seq<char>,
>
    decreases toks.len() - pos, 11int,
{
    match spec_eq_op(toks, pos) {
        Some(op) => match spec_parse_cmp(toks, pos + 1) {
            Ok((r2, p2)) => {
                let combined = ExprView::BinaryOp {
                    op,
                    left: Box::new(left),
                    right: Box::new(r2),
                };
                if pos < p2 <= toks.len() {
                    spec_eq_rest(toks, p2, combined)
                } else {
                    Ok((combined, p2))
                }
            },
            Err(e) => Err(e),
        },
        None => Ok((left, pos)),
    }
}

/// The relational operator at `pos`, if any.
pub open spec fn spec_cmp_op(toks: Seq<TokenView>, pos: int) -> Option<BinOp> {
    match cur_tok(toks, pos) {
        Some(TokenView::Less) => Some(BinOp::Less),
        Some(TokenView::Greater) => Some(BinOp::Greater),
        Some(TokenView::LessEq) => Some(BinOp::LessEq),
        Some(TokenView::GreaterEq) => Some(BinOp::GreaterEq),
        _ => None,
    }
}

pub open spec fn spec_parse_cmp(toks: Seq<TokenView>, pos: int) -> Result<
    (ExprView, int),
    Seq<char>,
>
    decreases toks.len() - pos, 10int,
{
    match spec_parse_add(toks, pos) {
        Ok((l, p)) => if pos <= p <= toks.len() {
            spec_cmp_rest(toks, p, l)
        } else {
            Ok((l, p))
        },
        Err(e) => Err(e),
    }
}

pub open spec fn spec_cmp_rest(toks: Seq<TokenView>, pos: int, left: ExprView) -> Result<
    (ExprView, int),
    Seq<char>,
>
    decreases toks.len() - pos, 9int,
{
    match spec_cmp_op(toks, pos) {
        Some(op) => match spec_parse_add(toks, pos + 1) {
            Ok((r2, p2)) => {
                let combined = ExprView::BinaryOp {
                    op,
                    left: Box::new(left),
                    right: Box::new(r2),
                };
                if pos < p2 <= toks.len() {
                    spec_cmp_rest(toks, p2, combined)
                } else {
                    Ok((combined, p2))
                }
            },
            Err(e) => Err(e),
        },
        None => Ok((left, pos)),
    }
}

/// The additive operator at `pos`, if any.
pub open spec fn spec_add_op(toks: Seq<TokenView>, pos: int) -> Option<BinOp> {
    match cur_tok(toks, pos) {
        Some(TokenView::Plus) => Some(BinOp::Add),
        Some(TokenView::Minus) => Some(BinOp::Sub),
        _ => None,
    }
}

pub open spec fn spec_parse_add(toks: Seq<TokenView>, pos: int) -> Result<
    (ExprView, int),
    Seq<char>,
>
    decreases toks.len() - pos, 8int,
{
    match spec_parse_mul(toks, pos) {
        Ok((l, p)) => if pos <= p <= toks.len() {
            spec_add_rest(toks, p, l)
        } else {
            Ok((l, p))
        },
        Err(e) => Err(e),
    }
}

pub open spec fn spec_add_rest(toks: Seq<TokenView>, pos: int, left: ExprView) -> Result<
    (ExprView, int),
    Seq<char>,
>
    decreases toks.len() - pos, 7int,
{
    match spec_add_op(toks, pos) {
        Some(op) => match spec_parse_mul(toks, pos + 1) {
            Ok((r2, p2)) => {
                let combined = ExprView::BinaryOp {
                    op,
                    left: Box::new(left),
                    right: Box::new(r2),
                };
                if pos < p2 <= toks.len() {
                    spec_add_rest(toks, p2, combined)
                } else {
                    Ok((combined, p2))
                }
            },
            Err(e) => Err(e),
        },
        None => Ok((left, pos)),
    }
}

/// The multiplicative operator at `pos`, if any.
pub open spec fn spec_mul_op(toks: Seq<TokenView>, pos: int) -> Option<BinOp> {
    match cur_tok(toks, pos) {
        Some(TokenView::Multiply) => Some(BinOp::Mul),
        Some(TokenView::Divide) => Some(BinOp::Div),
        _ => None,
    }
}

pub open spec fn spec_parse_mul(toks: Seq<TokenView>, pos: int) -> Result<
    (ExprView, int),
    Seq<char>,
>
    decreases toks.len() - pos, 6int,
{
    match spec_parse_unary(toks, pos) {
        Ok((l, p)) => if pos <= p <= toks.len() {
            spec_mul_rest(toks, p, l)
        } else {
            Ok((l, p))
        },
        Err(e) => Err(e),
    }
}

pub open spec fn spec_mul_rest(toks: Seq<TokenView>, pos: int, left: ExprView) -> Result<
    (ExprView, int),
    Seq<char>,
>
    decreases toks.len() - pos, 5int,
{
    match spec_mul_op(toks, pos) {
        Some(op) => match spec_parse_unary(toks, pos + 1) {
            Ok((r2, p2)) => {
                let combined = ExprView::BinaryOp {
                    op,
                    left: Box::new(left),
                    right: Box::new(r2),
                };
                if pos < p2 <= toks.len() {
                    spec_mul_rest(toks, p2, combined)
                } else {
                    Ok((combined, p2))
                }
            },
            Err(e) => Err(e),
        },
        None => Ok((left, pos)),
    }
}

pub open spec fn spec_parse_unary(toks: Seq<TokenView>, pos: int) -> Result<
    (ExprView, int),
    Seq<char>,
>
    decreases toks.len() - pos, 4int,
{
    match cur_tok(toks, pos) {
        Some(TokenView::Not) => match spec_parse_unary(toks, pos + 1) {
            Ok((e, p)) => Ok((ExprView::UnaryOp { op: UnOp::Not, expr: Box::new(e) }, p)),
            Err(e) => Err(e),
        },
        Some(TokenView::Minus) => match spec_parse_unary(toks, pos + 1) {
            Ok((e, p)) => Ok((ExprView::UnaryOp { op: UnOp::Minus, expr: Box::new(e) }, p)),
            Err(e) => Err(e),
        },
        _ => spec_parse_primary(toks, pos),
    }
}

/// Parse a primary expression: a literal, a parenthesized tuple, a
/// directive, or an identifier possibly followed by a call or a property
/// access chain.
pub open spec fn spec_parse_primary(toks: Seq<TokenView>, pos: int) -> Result<
    (ExprView, int),
    Seq<char>,
>
    decreases toks.len() - pos, 2int,
{
    match cur_tok(toks, pos) {
        Some(TokenView::Integer(i)) => Ok((ExprView::Integer(i), pos + 1)),
        Some(TokenView::Float(f)) => Ok((ExprView::Number(f), pos + 1)),
        Some(TokenView::String(s)) => Ok((ExprView::String(s), pos + 1)),
        Some(TokenView::Bool(b)) => Ok((ExprView::Bool(b), pos + 1)),
        Some(TokenView::LParen) => {
            match spec_expr_list(toks, pos + 1, Seq::empty()) {
                Ok((es, p2)) => {
                    if cur_tok(toks, p2) != Some(TokenView::RParen) {
                        Err(msg_expected(TokenView::RParen, toks, p2))
                    } else {
                        Ok((ExprView::Tuple(es), p2 + 1))
                    }
                },
                Err(e) => Err(e),
            }
        },
        Some(TokenView::Hash) => {
            match spec_parse_directive(toks, pos) {
                Ok((segs, p2)) => Ok((ExprView::Directive(segs), p2)),
                Err(e) => Err(e),
            }
        },
        Some(TokenView::Ident(name)) => spec_call_or_property(toks, pos + 1, name),
        _ => Err("Unexpected token in expression: "@ + opt_token_text(cur_tok(toks, pos))),
    }
}

/// Collect comma-separated expressions up to a closing parenthesis.
pub open spec fn spec_expr_list(toks: Seq<TokenView>, pos: int, acc: Seq<ExprView>) -> Result<
    (Seq<ExprView>, int),
    Seq<char>,
>
    decreases toks.len() - pos, 18int,
{
    if cur_tok(toks, pos) == Some(TokenView::RParen) {
        Ok((acc, pos))
    } else {
        match spec_parse_expression(toks, pos) {
            Ok((e, p2)) => {
                if cur_tok(toks, p2) == Some(TokenView::Comma) {
                    if pos < p2 + 1 <= toks.len() {
                        spec_expr_list(toks, p2 + 1, acc.push(e))
                    } else {
                        Ok((acc.push(e), p2))
                    }
                } else {
                    Ok((acc.push(e), p2))
                }
            },
            Err(e) => Err(e),
        }
    }
}

/// After an identifier: a call if a parenthesis follows directly, else a
/// property access chain if a dot follows, else the bare identifier.
pub open spec fn spec_call_or_property(toks: Seq<TokenView>, pos: int, name: Seq<char>) -> Result<
    (ExprView, int),
    Seq<char>,
>
    decreases toks.len() - pos, 0int,
{
    if cur_tok(toks, pos) == Some(TokenView::LParen) {
        match spec_expr_list(toks, pos + 1, Seq::empty()) {
            Ok((args, p2)) => {
                if cur_tok(toks, p2) != Some(TokenView::RParen) {
                    Err(msg_expected(TokenView::RParen, toks, p2))
                } else {
                    Ok((ExprView::Call { name, args }, p2 + 1))
                }
            },
            Err(e) => Err(e),
        }
    } else if cur_tok(toks, pos) == Some(TokenView::Dot) {
        match cur_tok(toks, pos + 1) {
            Some(TokenView::Ident(prop)) => spec_prop_chain(
                toks,
                pos + 2,
                ExprView::PropertyAccess {
                    object: Box::new(ExprView::Ident(name)),
                    property: prop,
                },
            ),
            _ => Err("Expected property name after '.'"@),
        }
    } else {
        Ok((ExprView::Ident(name), pos))
    }
}

/// Extend a property access chain left-associatively while dots follow.
pub open spec fn spec_prop_chain(toks: Seq<TokenView>, pos: int, obj: ExprView) -> Result<
    (ExprView, int),
    Seq<char>,
>
    decreases toks.len() - pos, 0int,
{
    if cur_tok(toks, pos) == Some(TokenView::Dot) {
        match cur_tok(toks, pos + 1) {
            Some(TokenView::Ident(prop)) => spec_prop_chain(
                toks,
                pos + 2,
                ExprView::PropertyAccess { object: Box::new(obj), property: prop },
            ),
            _ => Err("Expected property name after '.'"@),
        }
    } else {
        Ok((obj, pos))
    }
}

// ---------------------------------------------------------------------------
// Precedence laws
// ---------------------------------------------------------------------------

/// A product binds tighter than a sum: for any identifiers, `a + b * c`
/// parses with the product nested on the right of the sum, never the
/// reverse grouping.
#[verifier::rlimit(60)]
pub proof fn lemma_product_binds_tighter(a: Seq<char>, b: Seq<char>, c: Seq<char>)
    ensures
        spec_parse_expression(
            seq![
                TokenView::Ident(a),
                TokenView::Plus,
                TokenView::Ident(b),
                TokenView::Multiply,
                TokenView::Ident(c),
            ],
            0,
        ) == Ok::<(ExprView, int), Seq<char>>(
            (
                ExprView::BinaryOp {
                    op: BinOp::Add,
                    left: Box::new(ExprView::Ident(a)),
                    right: Box::new(
                        ExprView::BinaryOp {
                            op: BinOp::Mul,
                            left: Box::new(ExprView::Ident(b)),
                            right: Box::new(ExprView::Ident(c)),
                        },
                    ),
                },
                5,
            ),
        ),
{
    reveal_with_fuel(spec_parse_primary, 4);
    reveal_with_fuel(spec_call_or_property, 4);
    reveal_with_fuel(spec_parse_unary, 4);
    reveal_with_fuel(spec_parse_mul, 4);
    reveal_with_fuel(spec_mul_rest, 4);
    reveal_with_fuel(spec_parse_add, 3);
    reveal_with_fuel(spec_add_rest, 3);
    let toks = seq![
        TokenView::Ident(a),
        TokenView::Plus,
        TokenView::Ident(b),
        TokenView::Multiply,
        TokenView::Ident(c),
    ];
    let ea = ExprView::Ident(a);
    let eb = ExprView::Ident(b);
    let ec = ExprView::Ident(c);
    let bc = ExprView::BinaryOp { op: BinOp::Mul, left: Box::new(eb), right: Box::new(ec) };
    let abc = ExprView::BinaryOp { op: BinOp::Add, left: Box::new(ea), right: Box::new(bc) };
    assert(toks.len() == 5);
    assert(spec_call_or_property(toks, 1, a) == Ok::<(ExprView, int), Seq<char>>((ea, 1)));
    assert(spec_parse_unary(toks, 0) == Ok::<(ExprView, int), Seq<char>>((ea, 1)));
    assert(spec_call_or_property(toks, 3, b) == Ok::<(ExprView, int), Seq<char>>((eb, 3)));
    assert(spec_parse_unary(toks, 2) == Ok::<(ExprView, int), Seq<char>>((eb, 3)));
    assert(spec_call_or_property(toks, 5, c) == Ok::<(ExprView, int), Seq<char>>((ec, 5)));
    assert(spec_parse_unary(toks, 4) == Ok::<(ExprView, int), Seq<char>>((ec, 5)));
    assert(spec_mul_rest(toks, 5, ec) == Ok::<(ExprView, int), Seq<char>>((ec, 5)));
    assert(spec_parse_mul(toks, 4) == Ok::<(ExprView, int), Seq<char>>((ec, 5)));
    assert(spec_mul_rest(toks, 3, eb) == Ok::<(ExprView, int), Seq<char>>((bc, 5)));
    assert(spec_parse_mul(toks, 2) == Ok::<(ExprView, int), Seq<char>>((bc, 5)));
    assert(spec_mul_rest(toks, 1, ea) == Ok::<(ExprView, int), Seq<char>>((ea, 1)));
    assert(spec_parse_mul(toks, 0) == Ok::<(ExprView, int), Seq<char>>((ea, 1)));
    assert(spec_add_rest(toks, 5, abc) == Ok::<(ExprView, int), Seq<char>>((abc, 5)));
    assert(spec_add_rest(toks, 1, ea) == Ok::<(ExprView, int), Seq<char>>((abc, 5)));
    assert(spec_parse_add(toks, 0) == Ok::<(ExprView, int), Seq<char>>((abc, 5)));
    assert(spec_cmp_rest(toks, 5, abc) == Ok::<(ExprView, int), Seq<char>>((abc, 5)));
    assert(spec_parse_cmp(toks, 0) == Ok::<(ExprView, int), Seq<char>>((abc, 5)));
    assert(spec_eq_rest(toks, 5, abc) == Ok::<(ExprView, int), Seq<char>>((abc, 5)));
    assert(spec_parse_eq(toks, 0) == Ok::<(ExprView, int), Seq<char>>((abc, 5)));
    assert(spec_and_rest(toks, 5, abc) == Ok::<(ExprView, int), Seq<char>>((abc, 5)));
    assert(spec_parse_and(toks, 0) == Ok::<(ExprView, int), Seq<char>>((abc, 5)));
    assert(spec_or_rest(toks, 5, abc) == Ok::<(ExprView, int), Seq<char>>((abc, 5)));
    assert(spec_parse_or(toks, 0) == Ok::<(ExprView, int), Seq<char>>((abc, 5)));
}

/// An equality binds tighter than a conjunction: for any identifiers,
/// `a == b && c` parses with the comparison nested on the left of the
/// conjunction.
#[verifier::rlimit(60)]
pub proof fn lemma_equality_binds_tighter(a: Seq<char>, b: Seq<char>, c: Seq<char>)
    ensures
        spec_parse_expression(
            seq![
                TokenView::Ident(a),
                TokenView::EqEq,
                TokenView::Ident(b),
                TokenView::And,
                TokenView::Ident(c),
            ],
            0,
        ) == Ok::<(ExprView, int), Seq<char>>(
            (
                ExprView::BinaryOp {
                    op: BinOp::And,
                    left: Box::new(
                        ExprView::BinaryOp {
                            op: BinOp::Eq,
                            left: Box::new(ExprView::Ident(a)),
                            right: Box::new(ExprView::Ident(b)),
                        },
                    ),
                    right: Box::new(ExprView::Ident(c)),
                },
                5,
            ),
        ),
{
    reveal_with_fuel(spec_parse_primary, 4);
    reveal_with_fuel(spec_call_or_property, 4);
    reveal_with_fuel(spec_parse_unary, 4);
    reveal_with_fuel(spec_parse_mul, 4);
    reveal_with_fuel(spec_mul_rest, 4);
    reveal_with_fuel(spec_parse_add, 4);
    reveal_with_fuel(spec_add_rest, 4);
    reveal_with_fuel(spec_parse_cmp, 4);
    reveal_with_fuel(spec_cmp_rest, 4);
    reveal_with_fuel(spec_parse_eq, 3);
    reveal_with_fuel(spec_eq_rest, 3);
    let toks = seq![
        TokenView::Ident(a),
        TokenView::EqEq,
        TokenView::Ident(b),
        TokenView::And,
        TokenView::Ident(c),
    ];
    let ea = ExprView::Ident(a);
    let eb = ExprView::Ident(b);
    let ec = ExprView::Ident(c);
    let ab = ExprView::BinaryOp { op: BinOp::Eq, left: Box::new(ea), right: Box::new(eb) };
    let abc = ExprView::BinaryOp { op: BinOp::And, left: Box::new(ab), right: Box::new(ec) };
    assert(toks.len() == 5);
    assert(spec_call_or_property(toks, 1, a) == Ok::<(ExprView, int), Seq<char>>((ea, 1)));
    assert(spec_parse_unary(toks, 0) == Ok::<(ExprView, int), Seq<char>>((ea, 1)));
    assert(spec_call_or_property(toks, 3, b) == Ok::<(ExprView, int), Seq<char>>((eb, 3)));
    assert(spec_parse_unary(toks, 2) == Ok::<(ExprView, int), Seq<char>>((eb, 3)));
    assert(spec_call_or_property(toks, 5, c) == Ok::<(ExprView, int), Seq<char>>((ec, 5)));
    assert(spec_parse_unary(toks, 4) == Ok::<(ExprView, int), Seq<char>>((ec, 5)));
    assert(spec_mul_rest(toks, 1, ea) == Ok::<(ExprView, int), Seq<char>>((ea, 1)));
    assert(spec_parse_mul(toks, 0) == Ok::<(ExprView, int), Seq<char>>((ea, 1)));
    assert(spec_add_rest(toks, 1, ea) == Ok::<(ExprView, int), Seq<char>>((ea, 1)));
    assert(spec_parse_add(toks, 0) == Ok::<(ExprView, int), Seq<char>>((ea, 1)));
    assert(spec_cmp_rest(toks, 1, ea) == Ok::<(ExprView, int), Seq<char>>((ea, 1)));
    assert(spec_parse_cmp(toks, 0) == Ok::<(ExprView, int), Seq<char>>((ea, 1)));
    assert(spec_mul_rest(toks, 3, eb) == Ok::<(ExprView, int), Seq<char>>((eb, 3)));
    assert(spec_parse_mul(toks, 2) == Ok::<(ExprView, int), Seq<char>>((eb, 3)));
    assert(spec_add_rest(toks, 3, eb) == Ok::<(ExprView, int), Seq<char>>((eb, 3)));
    assert(spec_parse_add(toks, 2) == Ok::<(ExprView, int), Seq<char>>((eb, 3)));
    assert(spec_cmp_rest(toks, 3, eb) == Ok::<(ExprView, int), Seq<char>>((eb, 3)));
    assert(spec_parse_cmp(toks, 2) == Ok::<(ExprView, int), Seq<char>>((eb, 3)));
    assert(spec_eq_rest(toks, 3, ab) == Ok::<(ExprView, int), Seq<char>>((ab, 3)));
    assert(spec_eq_rest(toks, 1, ea) == Ok::<(ExprView, int), Seq<char>>((ab, 3)));
    assert(spec_parse_eq(toks, 0) == Ok::<(ExprView, int), Seq<char>>((ab, 3)));
    assert(spec_mul_rest(toks, 5, ec) == Ok::<(ExprView, int), Seq<char>>((ec, 5)));
    assert(spec_parse_mul(toks, 4) == Ok::<(ExprView, int), Seq<char>>((ec, 5)));
    assert(spec_add_rest(toks, 5, ec) == Ok::<(ExprView, int), Seq<char>>((ec, 5)));
    assert(spec_parse_add(toks, 4) == Ok::<(ExprView, int), Seq<char>>((ec, 5)));
    assert(spec_cmp_rest(toks, 5, ec) == Ok::<(ExprView, int), Seq<char>>((ec, 5)));
    assert(spec_parse_cmp(toks, 4) == Ok::<(ExprView, int), Seq<char>>((ec, 5)));
    assert(spec_eq_rest(toks, 5, ec) == Ok::<(ExprView, int), Seq<char>>((ec, 5)));
    assert(spec_parse_eq(toks, 4) == Ok::<(ExprView, int), Seq<char>>((ec, 5)));
    assert(spec_and_rest(toks, 5, abc) == Ok::<(ExprView, int), Seq<char>>((abc, 5)));
    assert(spec_and_rest(toks, 3, ab) == Ok::<(ExprView, int), Seq<char>>((abc, 5)));
    assert(spec_parse_and(toks, 0) == Ok::<(ExprView, int), Seq<char>>((abc, 5)));
    assert(spec_or_rest(toks, 5, abc) == Ok::<(ExprView, int), Seq<char>>((abc, 5)));
    assert(spec_parse_or(toks, 0) == Ok::<(ExprView, int), Seq<char>>((abc, 5)));
}

// ---------------------------------------------------------------------------
// The parser
// ---------------------------------------------------------------------------

/// A token-kind check: the unit tokens the parser passes to `expect`.
pub open spec fn is_expectable(t: TokenView) -> bool {
    t == TokenView::Colon || t == TokenView::LBrace || t == TokenView::RBrace
        || t == TokenView::LParen || t == TokenView::RParen || t == TokenView::Hash
        || t == TokenView::Extend
}

fn unit_token_eq(a: &Token, b: &Token) -> (r: bool)
    requires
        is_expectable(b@),
    ensures
        r == (a@ == b@),
{
    match b {
        Token::Colon => matches!(a, Token::Colon),
        Token::LBrace => matches!(a, Token::LBrace),
        Token::RBrace => matches!(a, Token::RBrace),
        Token::LParen => matches!(a, Token::LParen),
        Token::RParen => matches!(a, Token::RParen),
        Token::Hash => matches!(a, Token::Hash),
        Token::Extend => matches!(a, Token::Extend),
        _ => false,
    }
}

fn ident_starts_upper(s: &str) -> (r: bool)
    ensures
        r == (s@.len() > 0 && is_upper_char(s@[0])),
{
    if s.unicode_len() == 0 {
        false
    } else {
        crate::text::is_ascii_upper_char(s.get_char(0))
    }
}

fn ident_starts_on(s: &str) -> (r: bool)
    ensures
        r == spec_starts_on(s@),
{
    if s.unicode_len() < 3 {
        false
    } else {
        s.get_char(0) == 'o' && s.get_char(1) == 'n' && s.get_char(2) == '_'
    }
}

fn ident_starts_lower(s: &str) -> (r: bool)
    ensures
        r == (s@.len() > 0 && (is_lower_char(s@[0]) || s@[0] == '_')),
{
    if s.unicode_len() == 0 {
        false
    } else {
        let c = s.get_char(0);
        crate::text::is_ascii_lower_char(c) || c == '_'
    }
}

/// A recursive-descent parser over one token vector.
pub struct Parser {
    tokens: Vec<Token>,
    position: usize,
}

impl Parser {
    /// The tokens being parsed, as their models.
    pub closed spec fn toks(&self) -> Seq<TokenView> {
        self.tokens.deep_view()
    }

    /// The current position in the token vector.
    pub closed spec fn pos(&self) -> int {
        self.position as int
    }

    /// The position is inside the token vector.
    pub closed spec fn wf(&self) -> bool {
        self.position <= self.tokens@.len()
    }

    /// Start a parser at the beginning of `tokens`.
    pub fn new(tokens: Vec<Token>) -> (r: Parser)
        ensures
            r.wf(),
            r.toks() == tokens.deep_view(),
            r.pos() == 0,
    {
        Parser { tokens, position: 0 }
    }

    /// The mismatch message for `expect`.
    fn expected_message(&self, expected: &Token) -> (r: String)
        requires
            self.wf(),
        ensures
            r@ == msg_expected(expected@, self.toks(), self.pos()),
    {
        let mut m = String::new();
        m.append("Expected ");
        m.append(expected.describe().as_str());
        m.append(", got ");
        if self.position < self.tokens.len() {
            m.append("Some(");
            m.append(self.tokens[self.position].describe().as_str());
            m.append(")");
        } else {
            m.append("None");
        }
        m
    }

    /// Consume the expected token or fail with the mismatch message.
    fn expect(&mut self, expected: Token) -> (r: Result<(), ParseError>)
        requires
            old(self).wf(),
            is_expectable(expected@),
        ensures
            final(self).wf(),
            final(self).toks() == old(self).toks(),
            match r {
                Ok(()) => cur_tok(old(self).toks(), old(self).pos()) == Some(expected@)
                    && final(self).pos() == old(self).pos() + 1,
                Err(e) => cur_tok(old(self).toks(), old(self).pos()) != Some(expected@)
                    && e.message@ == msg_expected(expected@, old(self).toks(), old(self).pos())
                    && final(self).pos() == old(self).pos(),
            },
    {
        if self.position < self.tokens.len() && unit_token_eq(&self.tokens[self.position], &expected) {
            self.position += 1;
            Ok(())
        } else {
            Err(ParseError { message: self.expected_message(&expected) })
        }
    }

    /// Does this token hold an identifier led by a capital letter?
    fn is_uppercase_ident(&self, token: &Token) -> (r: bool)
        ensures
            r == is_upper_ident_tok(token@),
    {
        match token {
            Token::Ident(name) => ident_starts_upper(name.as_str()),
            _ => false,
        }
    }

    /// Does this token hold an identifier led by a small letter or
    /// underscore?
    fn is_lowercase_ident(&self, token: &Token) -> (r: bool)
        ensures
            r == is_lower_ident_tok(token@),
    {
        match token {
            Token::Ident(name) => ident_starts_lower(name.as_str()),
            _ => false,
        }
    }

    /// Parse a scene file: expect one root declaration and then the end of
    /// the token stream.
    pub fn parse_scene(&mut self) -> (r: Result<GemFile, ParseError>)
        requires
            old(self).wf(),
        ensures
            final(self).wf(),
            final(self).toks() == old(self).toks(),
            match r {
                Ok(f) => spec_parse_scene_at(old(self).toks(), old(self).pos()) == Ok::<
                    GemFileView,
                    Seq<char>,
                >(f@),
                Err(e) => spec_parse_scene_at(old(self).toks(), old(self).pos()) matches Err(m)
                    && e.message@ == m,
            },
    {
        match self.parse_gem_decl() {
            Ok(root) => {
                if self.position < self.tokens.len() {
                    let mut message = String::new();
                    message.append("Unexpected token after root declaration: ");
                    message.append(self.tokens[self.position].describe().as_str());
                    Err(ParseError { message })
                } else {
                    Ok(GemFile { root })
                }
            },
            Err(e) => Err(e),
        }
    }

    /// Parse `Name : Type { ... }`.
    fn parse_gem_decl(&mut self) -> (r: Result<GemDecl, ParseError>)
        requires
            old(self).wf(),
        ensures
            final(self).wf(),
            final(self).toks() == old(self).toks(),
            old(self).pos() <= final(self).pos(),
            match r {
                Ok(d) => spec_parse_gem_decl(old(self).toks(), old(self).pos()) == Ok::<
                    (GemDeclView, int),
                    Seq<char>,
                >((d@, final(self).pos())) && old(self).pos() < final(self).pos(),
                Err(e) => spec_parse_gem_decl(old(self).toks(), old(self).pos()) matches Err(m)
                    && e.message@ == m,
            },
        decreases old(self).toks().len() - old(self).pos(), 0int,
    {
        while self.position < self.tokens.len() && matches!(
            &self.tokens[self.position],
            Token::DocComment(_),
        )
            invariant
                self.wf(),
                self.toks() == old(self).toks(),
                old(self).pos() <= self.pos(),
                spec_skip_docs(self.toks(), old(self).pos()) == spec_skip_docs(
                    self.toks(),
                    self.pos(),
                ),
            decreases self.toks().len() - self.pos(),
        {
            self.position += 1;
        }
        proof {
            assert(self.pos() == spec_skip_docs(self.toks(), old(self).pos()));
        }
        if !(self.position < self.tokens.len()) {
            return Err(
                ParseError {
                    message: String::from_str("Expected Gem name (Uppercase identifier)"),
                },
            );
        }
        let name: String = match &self.tokens[self.position] {
            Token::Ident(n) => {
                if ident_starts_upper(n.as_str()) {
                    n.clone()
                } else {
                    return Err(
                        ParseError {
                            message: String::from_str("Expected Gem name (Uppercase identifier)"),
                        },
                    );
                }
            },
            _ => {
                return Err(
                    ParseError {
                        message: String::from_str("Expected Gem name (Uppercase identifier)"),
                    },
                );
            },
        };
        self.position += 1;
        match self.expect(Token::Colon) {
            Ok(()) => (),
            Err(e) => {
                return Err(e);
            },
        }
        if !(self.position < self.tokens.len()) {
            return Err(ParseError { message: String::from_str("Expected Gem type") });
        }
        let gem_type: String = match &self.tokens[self.position] {
            Token::Ident(t) => t.clone(),
            _ => {
                return Err(ParseError { message: String::from_str("Expected Gem type") });
            },
        };
        self.position += 1;
        match self.expect(Token::LBrace) {
            Ok(()) => (),
            Err(e) => {
                return Err(e);
            },
        }
        let props: Vec<Property> = Vec::new();
        let children: Vec<GemDecl> = Vec::new();
        match self.parse_gem_body(props, children) {
            Ok((properties, children)) => {
                match self.expect(Token::RBrace) {
                    Ok(()) => Ok(GemDecl { name, gem_type, properties, children }),
                    Err(e) => Err(e),
                }
            },
            Err(e) => Err(e),
        }
    }

    /// Parse the body of a declaration, accumulating properties and child
    /// declarations until the closing brace or the end of input.
    fn parse_gem_body(&mut self, props: Vec<Property>, children: Vec<GemDecl>) -> (r: Result<
        (Vec<Property>, Vec<GemDecl>),
        ParseError,
    >)
        requires
            old(self).wf(),
        ensures
            final(self).wf(),
            final(self).toks() == old(self).toks(),
            old(self).pos() <= final(self).pos(),
            match r {
                Ok(pc) => spec_parse_gem_body(
                    old(self).toks(),
                    old(self).pos(),
                    properties_view(props@),
                    decls_view(children@),
                ) == Ok::<(Seq<PropertyView>, Seq<GemDeclView>, int), Seq<char>>(
                    (properties_view(pc.0@), decls_view(pc.1@), final(self).pos()),
                ),
                Err(e) => spec_parse_gem_body(
                    old(self).toks(),
                    old(self).pos(),
                    properties_view(props@),
                    decls_view(children@),
                ) matches Err(m) && e.message@ == m,
            },
        decreases old(self).toks().len() - old(self).pos(), 1int,
    {
        if !(self.position < self.tokens.len()) {
            return Ok((props, children));
        }
        let (is_rbrace, is_upper, is_lower, is_hash, is_doc) = {
            let t = &self.tokens[self.position];
            (
                matches!(t, Token::RBrace),
                self.is_uppercase_ident(t),
                self.is_lowercase_ident(t),
                matches!(t, Token::Hash),
                matches!(t, Token::DocComment(_)),
            )
        };
        if is_rbrace {
            Ok((props, children))
        } else if is_upper {
            match self.parse_gem_decl() {
                Ok(d) => {
                    let mut children = children;
                    let ghost c0 = children@;
                    let ghost dv = decl_view(d);
                    children.push(d);
                    proof {
                        lemma_decls_view_push(c0, children@.last());
                    }
                    self.parse_gem_body(props, children)
                },
                Err(e) => Err(e),
            }
        } else if is_lower {
            match self.parse_property() {
                Ok(p) => {
                    let mut props = props;
                    let ghost p0 = props@;
                    props.push(p);
                    proof {
                        lemma_properties_view_push(p0, props@.last());
                    }
                    self.parse_gem_body(props, children)
                },
                Err(e) => Err(e),
            }
        } else if is_hash {
            match self.parse_directive() {
                Ok(segs) => {
                    let mut props = props;
                    let ghost p0 = props@;
                    props.push(
                        Property { key: String::from_str("link"), value: Value::Directive(segs) },
                    );
                    proof {
                        lemma_properties_view_push(p0, props@.last());
                    }
                    self.parse_gem_body(props, children)
                },
                Err(e) => Err(e),
            }
        } else if is_doc {
            self.position += 1;
            self.parse_gem_body(props, children)
        } else {
            let mut message = String::new();
            message.append("Unexpected token in Gem body: ");
            message.append(self.tokens[self.position].describe().as_str());
            Err(ParseError { message })
        }
    }

    /// Parse `key : value`.
    fn parse_property(&mut self) -> (r: Result<Property, ParseError>)
        requires
            old(self).wf(),
        ensures
            final(self).wf(),
            final(self).toks() == old(self).toks(),
            old(self).pos() <= final(self).pos(),
            match r {
                Ok(p) => spec_parse_property(old(self).toks(), old(self).pos()) == Ok::<
                    (PropertyView, int),
                    Seq<char>,
                >((p@, final(self).pos())) && old(self).pos() < final(self).pos(),
                Err(e) => spec_parse_property(old(self).toks(), old(self).pos()) matches Err(m)
                    && e.message@ == m,
            },
        decreases old(self).toks().len() - old(self).pos(), 0int,
    {
        if !(self.position < self.tokens.len()) {
            return Err(ParseError { message: String::from_str("Expected property key") });
        }
        let key: String = match &self.tokens[self.position] {
            Token::Ident(k) => k.clone(),
            _ => {
                return Err(ParseError { message: String::from_str("Expected property key") });
            },
        };
        self.position += 1;
        match self.expect(Token::Colon) {
            Ok(()) => (),
            Err(e) => {
                return Err(e);
            },
        }
        match self.parse_value() {
            Ok(value) => Ok(Property { key, value }),
            Err(e) => Err(e),
        }
    }

    /// Parse a property value.
    fn parse_value(&mut self) -> (r: Result<Value, ParseError>)
        requires
            old(self).wf(),
        ensures
            final(self).wf(),
            final(self).toks() == old(self).toks(),
            old(self).pos() <= final(self).pos(),
            match r {
                Ok(v) => spec_parse_value(old(self).toks(), old(self).pos()) == Ok::<
                    (ValueView, int),
                    Seq<char>,
                >((v@, final(self).pos())) && old(self).pos() < final(self).pos()
                    && final(self).pos() <= final(self).toks().len(),
                Err(e) => spec_parse_value(old(self).toks(), old(self).pos()) matches Err(m)
                    && e.message@ == m,
            },
        decreases old(self).toks().len() - old(self).pos(), 1int,
    {
        if !(self.position < self.tokens.len()) {
            let mut message = String::new();
            message.append("Expected value, got ");
            message.append("None");
            return Err(ParseError { message });
        }
        let tok_kind = &self.tokens[self.position];
        match tok_kind {
            Token::Integer(i) => {
                let v = Value::Integer(*i);
                self.position += 1;
                Ok(v)
            },
            Token::Float(f) => {
                let v = Value::Number(f.clone());
                self.position += 1;
                Ok(v)
            },
            Token::String(s) => {
                let v = Value::String(s.clone());
                self.position += 1;
                Ok(v)
            },
            Token::Bool(b) => {
                let v = Value::Bool(*b);
                self.position += 1;
                Ok(v)
            },
            Token::LParen => {
                self.position += 1;
                let acc: Vec<Value> = Vec::new();
                match self.parse_value_list(acc) {
                    Ok(elements) => {
                        match self.expect(Token::RParen) {
                            Ok(()) => Ok(Value::Tuple(elements)),
                            Err(e) => Err(e),
                        }
                    },
                    Err(e) => Err(e),
                }
            },
            Token::Hash => {
                match self.parse_directive() {
                    Ok(segs) => Ok(Value::Directive(segs)),
                    Err(e) => Err(e),
                }
            },
            Token::Ident(id) => {
                let v = Value::Ident(id.clone());
                self.position += 1;
                Ok(v)
            },
            _ => {
                let mut message = String::new();
                message.append("Expected value, got ");
                message.append("Some(");
                message.append(self.tokens[self.position].describe().as_str());
                message.append(")");
                Err(ParseError { message })
            },
        }
    }

    /// Parse comma-separated values up to a closing parenthesis.
    fn parse_value_list(&mut self, acc: Vec<Value>) -> (r: Result<Vec<Value>, ParseError>)
        requires
            old(self).wf(),
        ensures
            final(self).wf(),
            final(self).toks() == old(self).toks(),
            old(self).pos() <= final(self).pos(),
            match r {
                Ok(vs) => spec_parse_value_list(
                    old(self).toks(),
                    old(self).pos(),
                    values_view(acc@),
                ) == Ok::<(Seq<ValueView>, int), Seq<char>>(
                    (values_view(vs@), final(self).pos()),
                ),
                Err(e) => spec_parse_value_list(old(self).toks(), old(self).pos(), values_view(acc@))
                    matches Err(m) && e.message@ == m,
            },
        decreases old(self).toks().len() - old(self).pos(), 2int,
    {
        if self.position < self.tokens.len() && matches!(&self.tokens[self.position], Token::RParen) {
            return Ok(acc);
        }
        match self.parse_value() {
            Ok(v) => {
                let mut acc = acc;
                let ghost a0 = acc@;
                acc.push(v);
                proof {
                    lemma_values_view_push(a0, acc@.last());
                }
                if self.position < self.tokens.len() && matches!(
                    &self.tokens[self.position],
                    Token::Comma,
                ) {
                    self.position += 1;
                    self.parse_value_list(acc)
                } else {
                    Ok(acc)
                }
            },
            Err(e) => Err(e),
        }
    }

    /// Parse a directive: `#` then colon-separated segments.
    fn parse_directive(&mut self) -> (r: Result<Vec<String>, ParseError>)
        requires
            old(self).wf(),
        ensures
            final(self).wf(),
            final(self).toks() == old(self).toks(),
            old(self).pos() <= final(self).pos(),
            match r {
                Ok(segs) => spec_parse_directive(old(self).toks(), old(self).pos()) == Ok::<
                    (Seq<Seq<char>>, int),
                    Seq<char>,
                >((strings_view(segs@), final(self).pos())) && old(self).pos() < final(self).pos(),
                Err(e) => spec_parse_directive(old(self).toks(), old(self).pos()) matches Err(m)
                    && e.message@ == m,
            },
        decreases old(self).toks().len() - old(self).pos(), 0int,
    {
        match self.expect(Token::Hash) {
            Ok(()) => (),
            Err(e) => {
                return Err(e);
            },
        }
        let acc: Vec<String> = Vec::new();
        proof {
            assert(strings_view(acc@) =~= Seq::<Seq<char>>::empty());
        }
        match self.parse_dir_segs(acc) {
            Ok(segs) => {
                if segs.len() == 0 {
                    Err(ParseError { message: String::from_str("Empty directive") })
                } else {
                    Ok(segs)
                }
            },
            Err(e) => Err(e),
        }
    }

    /// Parse a logic file: the `extend` header then its declarations.
    #[verifier::rlimit(60)]
    pub fn parse_logic(&mut self) -> (r: Result<LogicFile, ParseError>)
        requires
            old(self).wf(),
        ensures
            final(self).wf(),
            final(self).toks() == old(self).toks(),
            match r {
                Ok(l) => spec_parse_logic(old(self).toks(), old(self).pos()) == Ok::<
                    LogicFileView,
                    Seq<char>,
                >(l@),
                Err(e) => spec_parse_logic(old(self).toks(), old(self).pos()) matches Err(m)
                    && e.message@ == m,
            },
    {
        let mut doc_comment: Option<String> = None;
        loop
            invariant
                self.wf(),
                self.toks() == old(self).toks(),
                old(self).pos() <= self.pos(),
                spec_lead_docs(self.toks(), old(self).pos(), None) == spec_lead_docs(
                    self.toks(),
                    self.pos(),
                    match doc_comment {
                        Some(s) => Some(s@),
                        None => None,
                    },
                ),
            ensures
                self.wf(),
                self.toks() == old(self).toks(),
                old(self).pos() <= self.pos(),
                spec_lead_docs(self.toks(), old(self).pos(), None) == (
                    self.pos(),
                    match doc_comment {
                        Some(s) => Some(s@),
                        None => None::<Seq<char>>,
                    },
                ),
            decreases self.toks().len() - self.pos(),
        {
            if !(self.position < self.tokens.len()) {
                break;
            }
            let c_opt: Option<String> = match &self.tokens[self.position] {
                Token::DocComment(c) => Some(c.clone()),
                _ => None,
            };
            match c_opt {
                Some(c) => {
                    doc_comment = Some(c);
                    self.position += 1;
                },
                None => {
                    break;
                },
            }
        }
        proof {
            assert(spec_lead_docs(self.toks(), old(self).pos(), None) == (
                self.pos(),
                match doc_comment {
                    Some(s) => Some(s@),
                    None => None::<Seq<char>>,
                },
            ));
        }
        match self.expect(Token::Extend) {
            Ok(()) => (),
            Err(e) => {
                return Err(e);
            },
        }
        if !(self.position < self.tokens.len()) {
            return Err(ParseError { message: String::from_str("Expected Gem type after 'extend'") });
        }
        let extend_type: String = match &self.tokens[self.position] {
            Token::Ident(t) => t.clone(),
            _ => {
                return Err(
                    ParseError { message: String::from_str("Expected Gem type after 'extend'") },
                );
            },
        };
        self.position += 1;
        if self.position < self.tokens.len() {
            let c_opt: Option<String> = match &self.tokens[self.position] {
                Token::DocComment(c) => Some(c.clone()),
                _ => None,
            };
            match c_opt {
                Some(c) => {
                    doc_comment = Some(c);
                    self.position += 1;
                },
                None => (),
            }
        }
        let events: Vec<Event> = Vec::new();
        let functions: Vec<FunctionDecl> = Vec::new();
        match self.parse_logic_items(events, functions) {
            Ok((events, functions)) => Ok(
                LogicFile { extend_type, doc_comment, events, functions },
            ),
            Err(e) => Err(e),
        }
    }

    /// Parse the `fn` declarations of a logic file, sorting event handlers
    /// from plain functions by the reserved name prefix.
    fn parse_logic_items(&mut self, events: Vec<Event>, functions: Vec<FunctionDecl>) -> (r: Result<
        (Vec<Event>, Vec<FunctionDecl>),
        ParseError,
    >)
        requires
            old(self).wf(),
        ensures
            final(self).wf(),
            final(self).toks() == old(self).toks(),
            old(self).pos() <= final(self).pos(),
            match r {
                Ok(ef) => spec_logic_items(
                    old(self).toks(),
                    old(self).pos(),
                    events_view(events@),
                    functions_view(functions@),
                ) == Ok::<(Seq<EventView>, Seq<FunctionDeclView>, int), Seq<char>>(
                    (events_view(ef.0@), functions_view(ef.1@), final(self).pos()),
                ),
                Err(e) => spec_logic_items(
                    old(self).toks(),
                    old(self).pos(),
                    events_view(events@),
                    functions_view(functions@),
                ) matches Err(m) && e.message@ == m,
            },
        decreases old(self).toks().len() - old(self).pos(), 1int,
    {
        if !(self.position < self.tokens.len()) {
            return Ok((events, functions));
        }
        if matches!(&self.tokens[self.position], Token::DocComment(_)) {
            self.position += 1;
            return self.parse_logic_items(events, functions);
        }
        if matches!(&self.tokens[self.position], Token::Fn) {
            if self.position + 1 < self.tokens.len() {
                let name_kind: Option<bool> = match &self.tokens[self.position + 1] {
                    Token::Ident(n) => Some(ident_starts_on(n.as_str())),
                    _ => None,
                };
                match name_kind {
                    Some(true) => {
                        self.position += 1;
                        match self.parse_event_handler() {
                            Ok(ev) => {
                                let mut events = events;
                                let ghost e0 = events@;
                                events.push(ev);
                                proof {
                                    lemma_events_view_push(e0, events@.last());
                                }
                                self.parse_logic_items(events, functions)
                            },
                            Err(e) => Err(e),
                        }
                    },
                    Some(false) => {
                        self.position += 1;
                        match self.parse_function() {
                            Ok(f) => {
                                let mut functions = functions;
                                let ghost f0 = functions@;
                                functions.push(f);
                                proof {
                                    lemma_functions_view_push(f0, functions@.last());
                                }
                                self.parse_logic_items(events, functions)
                            },
                            Err(e) => Err(e),
                        }
                    },
                    None => Err(
                        ParseError {
                            message: String::from_str("Expected function or event name after 'fn'"),
                        },
                    ),
                }
            } else {
                Err(
                    ParseError {
                        message: String::from_str("Expected function or event name after 'fn'"),
                    },
                )
            }
        } else {
            let mut message = String::new();
            message.append("Unexpected token in logic file: ");
            message.append(self.tokens[self.position].describe().as_str());
            Err(ParseError { message })
        }
    }

    /// Parse an event handler after `fn`.
    fn parse_event_handler(&mut self) -> (r: Result<Event, ParseError>)
        requires
            old(self).wf(),
        ensures
            final(self).wf(),
            final(self).toks() == old(self).toks(),
            old(self).pos() <= final(self).pos(),
            match r {
                Ok(ev) => spec_parse_event(old(self).toks(), old(self).pos()) == Ok::<
                    (EventView, int),
                    Seq<char>,
                >((ev@, final(self).pos())) && old(self).pos() < final(self).pos(),
                Err(e) => spec_parse_event(old(self).toks(), old(self).pos()) matches Err(m)
                    && e.message@ == m,
            },
        decreases old(self).toks().len() - old(self).pos(), 2int,
    {
        if !(self.position < self.tokens.len()) {
            return Err(ParseError { message: String::from_str("Expected event name") });
        }
        let name: String = match &self.tokens[self.position] {
            Token::Ident(n) => n.clone(),
            _ => {
                return Err(ParseError { message: String::from_str("Expected event name") });
            },
        };
        self.position += 1;
        let params: Vec<String> = if self.position < self.tokens.len() && matches!(
            &self.tokens[self.position],
            Token::LParen,
        ) {
            match self.parse_param_list() {
                Ok(ps) => ps,
                Err(e) => {
                    return Err(e);
                },
            }
        } else {
            let empty: Vec<String> = Vec::new();
            proof {
                assert(strings_view(empty@) =~= Seq::<Seq<char>>::empty());
            }
            empty
        };
        match self.parse_block() {
            Ok(body) => Ok(Event { name, params, body }),
            Err(e) => Err(e),
        }
    }

    /// Parse a plain function after `fn`.
    fn parse_function(&mut self) -> (r: Result<FunctionDecl, ParseError>)
        requires
            old(self).wf(),
        ensures
            final(self).wf(),
            final(self).toks() == old(self).toks(),
            old(self).pos() <= final(self).pos(),
            match r {
                Ok(f) => spec_parse_function(old(self).toks(), old(self).pos()) == Ok::<
                    (FunctionDeclView, int),
                    Seq<char>,
                >((f@, final(self).pos())) && old(self).pos() < final(self).pos(),
                Err(e) => spec_parse_function(old(self).toks(), old(self).pos()) matches Err(m)
                    && e.message@ == m,
            },
        decreases old(self).toks().len() - old(self).pos(), 2int,
    {
        if !(self.position < self.tokens.len()) {
            return Err(ParseError { message: String::from_str("Expected function name") });
        }
        let name: String = match &self.tokens[self.position] {
            Token::Ident(n) => n.clone(),
            _ => {
                return Err(ParseError { message: String::from_str("Expected function name") });
            },
        };
        self.position += 1;
        let params = match self.parse_param_list() {
            Ok(ps) => ps,
            Err(e) => {
                return Err(e);
            },
        };
        match self.parse_block() {
            Ok(body) => Ok(FunctionDecl { name, params, body }),
            Err(e) => Err(e),
        }
    }

    /// Parse a parenthesized, comma-separated parameter list.
    fn parse_param_list(&mut self) -> (r: Result<Vec<String>, ParseError>)
        requires
            old(self).wf(),
        ensures
            final(self).wf(),
            final(self).toks() == old(self).toks(),
            old(self).pos() <= final(self).pos(),
            match r {
                Ok(ps) => spec_parse_param_list(old(self).toks(), old(self).pos()) == Ok::<
                    (Seq<Seq<char>>, int),
                    Seq<char>,
                >((strings_view(ps@), final(self).pos())) && old(self).pos() < final(self).pos(),
                Err(e) => spec_parse_param_list(old(self).toks(), old(self).pos()) matches Err(m)
                    && e.message@ == m,
            },
        decreases old(self).toks().len() - old(self).pos(), 1int,
    {
        match self.expect(Token::LParen) {
            Ok(()) => (),
            Err(e) => {
                return Err(e);
            },
        }
        let acc: Vec<String> = Vec::new();
        proof {
            assert(strings_view(acc@) =~= Seq::<Seq<char>>::empty());
        }
        match self.parse_params(acc) {
            Ok(ps) => {
                match self.expect(Token::RParen) {
                    Ok(()) => Ok(ps),
                    Err(e) => Err(e),
                }
            },
            Err(e) => Err(e),
        }
    }

    /// Collect parameter names up to the closing parenthesis.
    fn parse_params(&mut self, acc: Vec<String>) -> (r: Result<Vec<String>, ParseError>)
        requires
            old(self).wf(),
        ensures
            final(self).wf(),
            final(self).toks() == old(self).toks(),
            old(self).pos() <= final(self).pos(),
            match r {
                Ok(ps) => spec_params(old(self).toks(), old(self).pos(), strings_view(acc@)) == Ok::<
                    (Seq<Seq<char>>, int),
                    Seq<char>,
                >((strings_view(ps@), final(self).pos())),
                Err(e) => spec_params(old(self).toks(), old(self).pos(), strings_view(acc@))
                    matches Err(m) && e.message@ == m,
            },
        decreases old(self).toks().len() - old(self).pos(), 0int,
    {
        if self.position < self.tokens.len() && matches!(&self.tokens[self.position], Token::RParen) {
            return Ok(acc);
        }
        if !(self.position < self.tokens.len()) {
            return Err(ParseError { message: String::from_str("Expected parameter name") });
        }
        let p: String = match &self.tokens[self.position] {
            Token::Ident(n) => n.clone(),
            _ => {
                return Err(ParseError { message: String::from_str("Expected parameter name") });
            },
        };
        let mut acc = acc;
        let ghost a0 = acc@;
        acc.push(p);
        proof {
            lemma_strings_view_push(a0, acc@.last());
        }
        self.position += 1;
        if self.position < self.tokens.len() && matches!(&self.tokens[self.position], Token::Comma) {
            self.position += 1;
            self.parse_params(acc)
        } else {
            Ok(acc)
        }
    }

    /// Parse a braced statement list.
    fn parse_block(&mut self) -> (r: Result<Block, ParseError>)
        requires
            old(self).wf(),
        ensures
            final(self).wf(),
            final(self).toks() == old(self).toks(),
            old(self).pos() <= final(self).pos(),
            match r {
                Ok(b) => spec_parse_block(old(self).toks(), old(self).pos()) == Ok::<
                    (BlockView, int),
                    Seq<char>,
                >((b@, final(self).pos())) && old(self).pos() < final(self).pos(),
                Err(e) => spec_parse_block(old(self).toks(), old(self).pos()) matches Err(m)
                    && e.message@ == m,
            },
        decreases old(self).toks().len() - old(self).pos(), 0int,
    {
        match self.expect(Token::LBrace) {
            Ok(()) => (),
            Err(e) => {
                return Err(e);
            },
        }
        let acc: Vec<Stmt> = Vec::new();
        match self.parse_block_stmts(acc) {
            Ok(statements) => {
                match self.expect(Token::RBrace) {
                    Ok(()) => Ok(Block { statements }),
                    Err(e) => Err(e),
                }
            },
            Err(e) => Err(e),
        }
    }

    /// Collect statements until a closing brace or the end of input.
    fn parse_block_stmts(&mut self, acc: Vec<Stmt>) -> (r: Result<Vec<Stmt>, ParseError>)
        requires
            old(self).wf(),
        ensures
            final(self).wf(),
            final(self).toks() == old(self).toks(),
            old(self).pos() <= final(self).pos(),
            match r {
                Ok(ss) => spec_block_stmts(old(self).toks(), old(self).pos(), stmts_view(acc@))
                    == Ok::<(Seq<StmtView>, int), Seq<char>>(
                    (stmts_view(ss@), final(self).pos()),
                ),
                Err(e) => spec_block_stmts(old(self).toks(), old(self).pos(), stmts_view(acc@))
                    matches Err(m) && e.message@ == m,
            },
        decreases old(self).toks().len() - old(self).pos(), 20int,
    {
        if !(self.position < self.tokens.len()) {
            return Ok(acc);
        }
        if matches!(&self.tokens[self.position], Token::RBrace) {
            return Ok(acc);
        }
        match self.parse_statement() {
            Ok(st) => {
                let mut acc = acc;
                let ghost a0 = acc@;
                acc.push(st);
                proof {
                    lemma_stmts_view_push(a0, acc@.last());
                }
                self.parse_block_stmts(acc)
            },
            Err(e) => Err(e),
        }
    }

    /// Parse one statement.
    #[verifier::rlimit(60)]
    fn parse_statement(&mut self) -> (r: Result<Stmt, ParseError>)
        requires
            old(self).wf(),
        ensures
            final(self).wf(),
            final(self).toks() == old(self).toks(),
            old(self).pos() <= final(self).pos(),
            match r {
                Ok(st) => spec_parse_statement(old(self).toks(), old(self).pos()) == Ok::<
                    (StmtView, int),
                    Seq<char>,
                >((st@, final(self).pos())) && old(self).pos() < final(self).pos(),
                Err(e) => spec_parse_statement(old(self).toks(), old(self).pos()) matches Err(m)
                    && e.message@ == m,
            },
        decreases old(self).toks().len() - old(self).pos(), 19int,
    {
        if self.position < self.tokens.len() {
            let name_opt: Option<String> = match &self.tokens[self.position] {
                Token::Ident(n) => Some(n.clone()),
                _ => None,
            };
            match name_opt {
                Some(target) => {
                    if self.position + 1 < self.tokens.len() && matches!(
                        &self.tokens[self.position + 1],
                        Token::Eq,
                    ) {
                        self.position += 2;
                        return match self.parse_expression() {
                            Ok(value) => Ok(Stmt::Assignment { target, value }),
                            Err(e) => Err(e),
                        };
                    }
                    self.position += 1;
                    return match self.parse_call_or_property(target) {
                        Ok(e2) => Ok(Stmt::ExprStmt(e2)),
                        Err(e) => Err(e),
                    };
                },
                None => (),
            }
            if matches!(&self.tokens[self.position], Token::Spawn) {
                self.position += 1;
                return self.parse_spawn();
            }
        }
        match self.parse_expression() {
            Ok(e2) => Ok(Stmt::ExprStmt(e2)),
            Err(e) => Err(e),
        }
    }

    /// Parse `Type { property* }` after `spawn`.
    fn parse_spawn(&mut self) -> (r: Result<Stmt, ParseError>)
        requires
            old(self).wf(),
        ensures
            final(self).wf(),
            final(self).toks() == old(self).toks(),
            old(self).pos() <= final(self).pos(),
            match r {
                Ok(st) => spec_parse_spawn(old(self).toks(), old(self).pos()) == Ok::<
                    (StmtView, int),
                    Seq<char>,
                >((st@, final(self).pos())) && old(self).pos() < final(self).pos(),
                Err(e) => spec_parse_spawn(old(self).toks(), old(self).pos()) matches Err(m)
                    && e.message@ == m,
            },
        decreases old(self).toks().len() - old(self).pos(), 2int,
    {
        if !(self.position < self.tokens.len()) {
            return Err(ParseError { message: String::from_str("Expected Gem type after 'spawn'") });
        }
        let gem_type: String = match &self.tokens[self.position] {
            Token::Ident(t) => t.clone(),
            _ => {
                return Err(
                    ParseError { message: String::from_str("Expected Gem type after 'spawn'") },
                );
            },
        };
        self.position += 1;
        match self.expect(Token::LBrace) {
            Ok(()) => (),
            Err(e) => {
                return Err(e);
            },
        }
        let acc: Vec<Property> = Vec::new();
        match self.parse_spawn_props(acc) {
            Ok(properties) => {
                match self.expect(Token::RBrace) {
                    Ok(()) => Ok(Stmt::Spawn { gem_type, properties }),
                    Err(e) => Err(e),
                }
            },
            Err(e) => Err(e),
        }
    }

    /// Collect spawned properties until a closing brace or the end of input.
    fn parse_spawn_props(&mut self, acc: Vec<Property>) -> (r: Result<Vec<Property>, ParseError>)
        requires
            old(self).wf(),
        ensures
            final(self).wf(),
            final(self).toks() == old(self).toks(),
            old(self).pos() <= final(self).pos(),
            match r {
                Ok(ps) => spec_spawn_props(old(self).toks(), old(self).pos(), properties_view(acc@))
                    == Ok::<(Seq<PropertyView>, int), Seq<char>>(
                    (properties_view(ps@), final(self).pos()),
                ),
                Err(e) => spec_spawn_props(old(self).toks(), old(self).pos(), properties_view(acc@))
                    matches Err(m) && e.message@ == m,
            },
        decreases old(self).toks().len() - old(self).pos(), 1int,
    {
        if !(self.position < self.tokens.len()) {
            return Ok(acc);
        }
        if matches!(&self.tokens[self.position], Token::RBrace) {
            return Ok(acc);
        }
        match self.parse_property() {
            Ok(p) => {
                let mut acc = acc;
                let ghost a0 = acc@;
                acc.push(p);
                proof {
                    lemma_properties_view_push(a0, acc@.last());
                }
                self.parse_spawn_props(acc)
            },
            Err(e) => Err(e),
        }
    }

    /// Parse an expression.
    fn parse_expression(&mut self) -> (r: Result<Expr, ParseError>)
        requires
            old(self).wf(),
        ensures
            final(self).wf(),
            final(self).toks() == old(self).toks(),
            old(self).pos() <= final(self).pos(),
            match r {
                Ok(e2) => spec_parse_expression(old(self).toks(), old(self).pos()) == Ok::<
                    (ExprView, int),
                    Seq<char>,
                >((e2@, final(self).pos())) && old(self).pos() < final(self).pos(),
                Err(e) => spec_parse_expression(old(self).toks(), old(self).pos()) matches Err(m)
                    && e.message@ == m,
            },
        decreases old(self).toks().len() - old(self).pos(), 17int,
    {
        self.parse_logical_or()
    }

    fn parse_logical_or(&mut self) -> (r: Result<Expr, ParseError>)
        requires
            old(self).wf(),
        ensures
            final(self).wf(),
            final(self).toks() == old(self).toks(),
            old(self).pos() <= final(self).pos(),
            match r {
                Ok(e2) => spec_parse_or(old(self).toks(), old(self).pos()) == Ok::<
                    (ExprView, int),
                    Seq<char>,
                >((e2@, final(self).pos())) && old(self).pos() < final(self).pos(),
                Err(e) => spec_parse_or(old(self).toks(), old(self).pos()) matches Err(m)
                    && e.message@ == m,
            },
        decreases old(self).toks().len() - old(self).pos(), 16int,
    {
        match self.parse_logical_and() {
            Ok(left) => self.parse_or_rest(left),
            Err(e) => Err(e),
        }
    }

    fn parse_or_rest(&mut self, left: Expr) -> (r: Result<Expr, ParseError>)
        requires
            old(self).wf(),
        ensures
            final(self).wf(),
            final(self).toks() == old(self).toks(),
            old(self).pos() <= final(self).pos(),
            match r {
                Ok(e2) => spec_or_rest(old(self).toks(), old(self).pos(), expr_view(left)) == Ok::<
                    (ExprView, int),
                    Seq<char>,
                >((e2@, final(self).pos())),
                Err(e) => spec_or_rest(old(self).toks(), old(self).pos(), expr_view(left))
                    matches Err(m) && e.message@ == m,
            },
        decreases old(self).toks().len() - old(self).pos(), 15int,
    {
        if self.position < self.tokens.len() && matches!(&self.tokens[self.position], Token::Or) {
            self.position += 1;
            match self.parse_logical_and() {
                Ok(right) => {
                    let combined = Expr::BinaryOp {
                        op: BinOp::Or,
                        left: Box::new(left),
                        right: Box::new(right),
                    };
                    self.parse_or_rest(combined)
                },
                Err(e) => Err(e),
            }
        } else {
            Ok(left)
        }
    }

    fn parse_logical_and(&mut self) -> (r: Result<Expr, ParseError>)
        requires
            old(self).wf(),
        ensures
            final(self).wf(),
            final(self).toks() == old(self).toks(),
            old(self).pos() <= final(self).pos(),
            match r {
                Ok(e2) => spec_parse_and(old(self).toks(), old(self).pos()) == Ok::<
                    (ExprView, int),
                    Seq<char>,
                >((e2@, final(self).pos())) && old(self).pos() < final(self).pos(),
                Err(e) => spec_parse_and(old(self).toks(), old(self).pos()) matches Err(m)
                    && e.message@ == m,
            },
        decreases old(self).toks().len() - old(self).pos(), 14int,
    {
        match self.parse_equality() {
            Ok(left) => self.parse_and_rest(left),
            Err(e) => Err(e),
        }
    }

    fn parse_and_rest(&mut self, left: Expr) -> (r: Result<Expr, ParseError>)
        requires
            old(self).wf(),
        ensures
            final(self).wf(),
            final(self).toks() == old(self).toks(),
            old(self).pos() <= final(self).pos(),
            match r {
                Ok(e2) => spec_and_rest(old(self).toks(), old(self).pos(), expr_view(left)) == Ok::<
                    (ExprView, int),
                    Seq<char>,
                >((e2@, final(self).pos())),
                Err(e) => spec_and_rest(old(self).toks(), old(self).pos(), expr_view(left))
                    matches Err(m) && e.message@ == m,
            },
        decreases old(self).toks().len() - old(self).pos(), 13int,
    {
        if self.position < self.tokens.len() && matches!(&self.tokens[self.position], Token::And) {
            self.position += 1;
            match self.parse_equality() {
                Ok(right) => {
                    let combined = Expr::BinaryOp {
                        op: BinOp::And,
                        left: Box::new(left),
                        right: Box::new(right),
                    };
                    self.parse_and_rest(combined)
                },
                Err(e) => Err(e),
            }
        } else {
            Ok(left)
        }
    }

    fn parse_equality(&mut self) -> (r: Result<Expr, ParseError>)
        requires
            old(self).wf(),
        ensures
            final(self).wf(),
            final(self).toks() == old(self).toks(),
            old(self).pos() <= final(self).pos(),
            match r {
                Ok(e2) => spec_parse_eq(old(self).toks(), old(self).pos()) == Ok::<
                    (ExprView, int),
                    Seq<char>,
                >((e2@, final(self).pos())) && old(self).pos() < final(self).pos(),
                Err(e) => spec_parse_eq(old(self).toks(), old(self).pos()) matches Err(m)
                    && e.message@ == m,
            },
        decreases old(self).toks().len() - old(self).pos(), 12int,
    {
        match self.parse_comparison() {
            Ok(left) => self.parse_eq_rest(left),
            Err(e) => Err(e),
        }
    }

    fn parse_eq_rest(&mut self, left: Expr) -> (r: Result<Expr, ParseError>)
        requires
            old(self).wf(),
        ensures
            final(self).wf(),
            final(self).toks() == old(self).toks(),
            old(self).pos() <= final(self).pos(),
            match r {
                Ok(e2) => spec_eq_rest(old(self).toks(), old(self).pos(), expr_view(left)) == Ok::<
                    (ExprView, int),
                    Seq<char>,
                >((e2@, final(self).pos())),
                Err(e) => spec_eq_rest(old(self).toks(), old(self).pos(), expr_view(left))
                    matches Err(m) && e.message@ == m,
            },
        decreases old(self).toks().len() - old(self).pos(), 11int,
    {
        let op_opt: Option<BinOp> = if self.position < self.tokens.len() {
            match &self.tokens[self.position] {
                Token::EqEq => Some(BinOp::Eq),
                Token::NotEq => Some(BinOp::NotEq),
                _ => None,
            }
        } else {
            None
        };
        match op_opt {
            Some(op) => {
                self.position += 1;
                match self.parse_comparison() {
                    Ok(right) => {
                        let combined = Expr::BinaryOp {
                            op,
                            left: Box::new(left),
                            right: Box::new(right),
                        };
                        self.parse_eq_rest(combined)
                    },
                    Err(e) => Err(e),
                }
            },
            None => Ok(left),
        }
    }

    fn parse_comparison(&mut self) -> (r: Result<Expr, ParseError>)
        requires
            old(self).wf(),
        ensures
            final(self).wf(),
            final(self).toks() == old(self).toks(),
            old(self).pos() <= final(self).pos(),
            match r {
                Ok(e2) => spec_parse_cmp(old(self).toks(), old(self).pos()) == Ok::<
                    (ExprView, int),
                    Seq<char>,
                >((e2@, final(self).pos())) && old(self).pos() < final(self).pos(),
                Err(e) => spec_parse_cmp(old(self).toks(), old(self).pos()) matches Err(m)
                    && e.message@ == m,
            },
        decreases old(self).toks().len() - old(self).pos(), 10int,
    {
        match self.parse_additive() {
            Ok(left) => self.parse_cmp_rest(left),
            Err(e) => Err(e),
        }
    }

    fn parse_cmp_rest(&mut self, left: Expr) -> (r: Result<Expr, ParseError>)
        requires
            old(self).wf(),
        ensures
            final(self).wf(),
            final(self).toks() == old(self).toks(),
            old(self).pos() <= final(self).pos(),
            match r {
                Ok(e2) => spec_cmp_rest(old(self).toks(), old(self).pos(), expr_view(left)) == Ok::<
                    (ExprView, int),
                    Seq<char>,
                >((e2@, final(self).pos())),
                Err(e) => spec_cmp_rest(old(self).toks(), old(self).pos(), expr_view(left))
                    matches Err(m) && e.message@ == m,
            },
        decreases old(self).toks().len() - old(self).pos(), 9int,
    {
        let op_opt: Option<BinOp> = if self.position < self.tokens.len() {
            match &self.tokens[self.position] {
                Token::Less => Some(BinOp::Less),
                Token::Greater => Some(BinOp::Greater),
                Token::LessEq => Some(BinOp::LessEq),
                Token::GreaterEq => Some(BinOp::GreaterEq),
                _ => None,
            }
        } else {
            None
        };
        match op_opt {
            Some(op) => {
                self.position += 1;
                match self.parse_additive() {
                    Ok(right) => {
                        let combined = Expr::BinaryOp {
                            op,
                            left: Box::new(left),
                            right: Box::new(right),
                        };
                        self.parse_cmp_rest(combined)
                    },
                    Err(e) => Err(e),
                }
            },
            None => Ok(left),
        }
    }

    fn parse_additive(&mut self) -> (r: Result<Expr, ParseError>)
        requires
            old(self).wf(),
        ensures
            final(self).wf(),
            final(self).toks() == old(self).toks(),
            old(self).pos() <= final(self).pos(),
            match r {
                Ok(e2) => spec_parse_add(old(self).toks(), old(self).pos()) == Ok::<
                    (ExprView, int),
                    Seq<char>,
                >((e2@, final(self).pos())) && old(self).pos() < final(self).pos(),
                Err(e) => spec_parse_add(old(self).toks(), old(self).pos()) matches Err(m)
                    && e.message@ == m,
            },
        decreases old(self).toks().len() - old(self).pos(), 8int,
    {
        match self.parse_multiplicative() {
            Ok(left) => self.parse_add_rest(left),
            Err(e) => Err(e),
        }
    }

    fn parse_add_rest(&mut self, left: Expr) -> (r: Result<Expr, ParseError>)
        requires
            old(self).wf(),
        ensures
            final(self).wf(),
            final(self).toks() == old(self).toks(),
            old(self).pos() <= final(self).pos(),
            match r {
                Ok(e2) => spec_add_rest(old(self).toks(), old(self).pos(), expr_view(left)) == Ok::<
                    (ExprView, int),
                    Seq<char>,
                >((e2@, final(self).pos())),
                Err(e) => spec_add_rest(old(self).toks(), old(self).pos(), expr_view(left))
                    matches Err(m) && e.message@ == m,
            },
        decreases old(self).toks().len() - old(self).pos(), 7int,
    {
        let op_opt: Option<BinOp> = if self.position < self.tokens.len() {
            match &self.tokens[self.position] {
                Token::Plus => Some(BinOp::Add),
                Token::Minus => Some(BinOp::Sub),
                _ => None,
            }
        } else {
            None
        };
        match op_opt {
            Some(op) => {
                self.position += 1;
                match self.parse_multiplicative() {
                    Ok(right) => {
                        let combined = Expr::BinaryOp {
                            op,
                            left: Box::new(left),
                            right: Box::new(right),
                        };
                        self.parse_add_rest(combined)
                    },
                    Err(e) => Err(e),
                }
            },
            None => Ok(left),
        }
    }

    fn parse_multiplicative(&mut self) -> (r: Result<Expr, ParseError>)
        requires
            old(self).wf(),
        ensures
            final(self).wf(),
            final(self).toks() == old(self).toks(),
            old(self).pos() <= final(self).pos(),
            match r {
                Ok(e2) => spec_parse_mul(old(self).toks(), old(self).pos()) == Ok::<
                    (ExprView, int),
                    Seq<char>,
                >((e2@, final(self).pos())) && old(self).pos() < final(self).pos(),
                Err(e) => spec_parse_mul(old(self).toks(), old(self).pos()) matches Err(m)
                    && e.message@ == m,
            },
        decreases old(self).toks().len() - old(self).pos(), 6int,
    {
        match self.parse_unary() {
            Ok(left) => self.parse_mul_rest(left),
            Err(e) => Err(e),
        }
    }

    fn parse_mul_rest(&mut self, left: Expr) -> (r: Result<Expr, ParseError>)
        requires
            old(self).wf(),
        ensures
            final(self).wf(),
            final(self).toks() == old(self).toks(),
            old(self).pos() <= final(self).pos(),
            match r {
                Ok(e2) => spec_mul_rest(old(self).toks(), old(self).pos(), expr_view(left)) == Ok::<
                    (ExprView, int),
                    Seq<char>,
                >((e2@, final(self).pos())),
                Err(e) => spec_mul_rest(old(self).toks(), old(self).pos(), expr_view(left))
                    matches Err(m) && e.message@ == m,
            },
        decreases old(self).toks().len() - old(self).pos(), 5int,
    {
        let op_opt: Option<BinOp> = if self.position < self.tokens.len() {
            match &self.tokens[self.position] {
                Token::Multiply => Some(BinOp::Mul),
                Token::Divide => Some(BinOp::Div),
                _ => None,
            }
        } else {
            None
        };
        match op_opt {
            Some(op) => {
                self.position += 1;
                match self.parse_unary() {
                    Ok(right) => {
                        let combined = Expr::BinaryOp {
                            op,
                            left: Box::new(left),
                            right: Box::new(right),
                        };
                        self.parse_mul_rest(combined)
                    },
                    Err(e) => Err(e),
                }
            },
            None => Ok(left),
        }
    }

    fn parse_unary(&mut self) -> (r: Result<Expr, ParseError>)
        requires
            old(self).wf(),
        ensures
            final(self).wf(),
            final(self).toks() == old(self).toks(),
            old(self).pos() <= final(self).pos(),
            match r {
                Ok(e2) => spec_parse_unary(old(self).toks(), old(self).pos()) == Ok::<
                    (ExprView, int),
                    Seq<char>,
                >((e2@, final(self).pos())) && old(self).pos() < final(self).pos(),
                Err(e) => spec_parse_unary(old(self).toks(), old(self).pos()) matches Err(m)
                    && e.message@ == m,
            },
        decreases old(self).toks().len() - old(self).pos(), 4int,
    {
        if self.position < self.tokens.len() && matches!(&self.tokens[self.position], Token::Not) {
            self.position += 1;
            return match self.parse_unary() {
                Ok(e2) => Ok(Expr::UnaryOp { op: UnOp::Not, expr: Box::new(e2) }),
                Err(e) => Err(e),
            };
        }
        if self.position < self.tokens.len() && matches!(&self.tokens[self.position], Token::Minus) {
            self.position += 1;
            return match self.parse_unary() {
                Ok(e2) => Ok(Expr::UnaryOp { op: UnOp::Minus, expr: Box::new(e2) }),
                Err(e) => Err(e),
            };
        }
        self.parse_primary()
    }

    /// Parse a primary expression.
    fn parse_primary(&mut self) -> (r: Result<Expr, ParseError>)
        requires
            old(self).wf(),
        ensures
            final(self).wf(),
            final(self).toks() == old(self).toks(),
            old(self).pos() <= final(self).pos(),
            match r {
                Ok(e2) => spec_parse_primary(old(self).toks(), old(self).pos()) == Ok::<
                    (ExprView, int),
                    Seq<char>,
                >((e2@, final(self).pos())) && old(self).pos() < final(self).pos(),
                Err(e) => spec_parse_primary(old(self).toks(), old(self).pos()) matches Err(m)
                    && e.message@ == m,
            },
        decreases old(self).toks().len() - old(self).pos(), 2int,
    {
        if !(self.position < self.tokens.len()) {
            let mut message = String::new();
            message.append("Unexpected token in expression: ");
            message.append("None");
            return Err(ParseError { message });
        }
        let tok = &self.tokens[self.position];
        match tok {
            Token::Integer(i) => {
                let e2 = Expr::Integer(*i);
                self.position += 1;
                Ok(e2)
            },
            Token::Float(f) => {
                let e2 = Expr::Number(f.clone());
                self.position += 1;
                Ok(e2)
            },
            Token::String(s) => {
                let e2 = Expr::String(s.clone());
                self.position += 1;
                Ok(e2)
            },
            Token::Bool(b) => {
                let e2 = Expr::Bool(*b);
                self.position += 1;
                Ok(e2)
            },
            Token::LParen => {
                self.position += 1;
                let acc: Vec<Expr> = Vec::new();
                match self.parse_expr_list(acc) {
                    Ok(elements) => {
                        match self.expect(Token::RParen) {
                            Ok(()) => Ok(Expr::Tuple(elements)),
                            Err(e) => Err(e),
                        }
                    },
                    Err(e) => Err(e),
                }
            },
            Token::Hash => {
                match self.parse_directive() {
                    Ok(segs) => Ok(Expr::Directive(segs)),
                    Err(e) => Err(e),
                }
            },
            Token::Ident(name) => {
                let name = name.clone();
                self.position += 1;
                self.parse_call_or_property(name)
            },
            _ => {
                let mut message = String::new();
                message.append("Unexpected token in expression: ");
                message.append("Some(");
                message.append(self.tokens[self.position].describe().as_str());
                message.append(")");
                Err(ParseError { message })
            },
        }
    }

    /// Collect comma-separated expressions up to a closing parenthesis.
    fn parse_expr_list(&mut self, acc: Vec<Expr>) -> (r: Result<Vec<Expr>, ParseError>)
        requires
            old(self).wf(),
        ensures
            final(self).wf(),
            final(self).toks() == old(self).toks(),
            old(self).pos() <= final(self).pos(),
            match r {
                Ok(es) => spec_expr_list(old(self).toks(), old(self).pos(), exprs_view(acc@))
                    == Ok::<(Seq<ExprView>, int), Seq<char>>(
                    (exprs_view(es@), final(self).pos()),
                ),
                Err(e) => spec_expr_list(old(self).toks(), old(self).pos(), exprs_view(acc@))
                    matches Err(m) && e.message@ == m,
            },
        decreases old(self).toks().len() - old(self).pos(), 18int,
    {
        if self.position < self.tokens.len() && matches!(&self.tokens[self.position], Token::RParen) {
            return Ok(acc);
        }
        match self.parse_expression() {
            Ok(e2) => {
                let mut acc = acc;
                let ghost a0 = acc@;
                acc.push(e2);
                proof {
                    lemma_exprs_view_push(a0, acc@.last());
                }
                if self.position < self.tokens.len() && matches!(
                    &self.tokens[self.position],
                    Token::Comma,
                ) {
                    self.position += 1;
                    self.parse_expr_list(acc)
                } else {
                    Ok(acc)
                }
            },
            Err(e) => Err(e),
        }
    }

    /// After an identifier: a call, a property access chain, or the bare
    /// identifier.
    #[verifier::rlimit(100)]
    fn parse_call_or_property(&mut self, name: String) -> (r: Result<Expr, ParseError>)
        requires
            old(self).wf(),
        ensures
            final(self).wf(),
            final(self).toks() == old(self).toks(),
            old(self).pos() <= final(self).pos(),
            match r {
                Ok(e2) => spec_call_or_property(old(self).toks(), old(self).pos(), name@) == Ok::<
                    (ExprView, int),
                    Seq<char>,
                >((e2@, final(self).pos())),
                Err(e) => spec_call_or_property(old(self).toks(), old(self).pos(), name@)
                    matches Err(m) && e.message@ == m,
            },
        decreases old(self).toks().len() - old(self).pos(), 0int,
    {
        proof {
            reveal_with_fuel(expr_view, 3);
            if self.position < self.tokens.len() {
                crate::token::lemma_token_view_variant(self.tokens@[self.pos()]);
                assert(self.toks()[self.pos()] == self.tokens@[self.pos()]@);
            }
            if self.position + 1 < self.tokens.len() {
                crate::token::lemma_token_view_variant(self.tokens@[self.pos() + 1]);
                assert(self.toks()[self.pos() + 1] == self.tokens@[self.pos() + 1]@);
            }
        }
        if self.position < self.tokens.len() && matches!(&self.tokens[self.position], Token::LParen) {
            self.position += 1;
            let acc: Vec<Expr> = Vec::new();
            match self.parse_expr_list(acc) {
                Ok(args) => {
                    match self.expect(Token::RParen) {
                        Ok(()) => Ok(Expr::Call { name, args }),
                        Err(e) => Err(e),
                    }
                },
                Err(e) => Err(e),
            }
        } else if self.position < self.tokens.len() && matches!(
            &self.tokens[self.position],
            Token::Dot,
        ) {
            if self.position + 1 < self.tokens.len() {
                let prop_opt: Option<String> = match &self.tokens[self.position + 1] {
                    Token::Ident(p) => Some(p.clone()),
                    _ => None,
                };
                match prop_opt {
                    Some(property) => {
                        self.position += 2;
                        self.parse_prop_chain(
                            Expr::PropertyAccess {
                                object: Box::new(Expr::Ident(name)),
                                property,
                            },
                        )
                    },
                    None => Err(
                        ParseError {
                            message: String::from_str("Expected property name after '.'"),
                        },
                    ),
                }
            } else {
                Err(ParseError { message: String::from_str("Expected property name after '.'") })
            }
        } else {
            Ok(Expr::Ident(name))
        }
    }

    /// Extend a property access chain while dots follow.
    fn parse_prop_chain(&mut self, obj: Expr) -> (r: Result<Expr, ParseError>)
        requires
            old(self).wf(),
        ensures
            final(self).wf(),
            final(self).toks() == old(self).toks(),
            old(self).pos() <= final(self).pos(),
            match r {
                Ok(e2) => spec_prop_chain(old(self).toks(), old(self).pos(), expr_view(obj)) == Ok::<
                    (ExprView, int),
                    Seq<char>,
                >((e2@, final(self).pos())),
                Err(e) => spec_prop_chain(old(self).toks(), old(self).pos(), expr_view(obj))
                    matches Err(m) && e.message@ == m,
            },
        decreases old(self).toks().len() - old(self).pos(), 0int,
    {
        proof {
            if self.position < self.tokens.len() {
                crate::token::lemma_token_view_variant(self.tokens@[self.pos()]);
                assert(self.toks()[self.pos()] == self.tokens@[self.pos()]@);
            }
            if self.position + 1 < self.tokens.len() {
                crate::token::lemma_token_view_variant(self.tokens@[self.pos() + 1]);
                assert(self.toks()[self.pos() + 1] == self.tokens@[self.pos() + 1]@);
            }
        }
        if self.position < self.tokens.len() && matches!(&self.tokens[self.position], Token::Dot) {
            if self.position + 1 < self.tokens.len() {
                let prop_opt: Option<String> = match &self.tokens[self.position + 1] {
                    Token::Ident(p) => Some(p.clone()),
                    _ => None,
                };
                match prop_opt {
                    Some(property) => {
                        self.position += 2;
                        self.parse_prop_chain(
                            Expr::PropertyAccess { object: Box::new(obj), property },
                        )
                    },
                    None => Err(
                        ParseError {
                            message: String::from_str("Expected property name after '.'"),
                        },
                    ),
                }
            } else {
                Err(ParseError { message: String::from_str("Expected property name after '.'") })
            }
        } else {
            Ok(obj)
        }
    }

    /// Collect directive segments separated by colons.
    fn parse_dir_segs(&mut self, acc: Vec<String>) -> (r: Result<Vec<String>, ParseError>)
        requires
            old(self).wf(),
        ensures
            final(self).wf(),
            final(self).toks() == old(self).toks(),
            old(self).pos() <= final(self).pos(),
            r matches Ok(segs) && spec_dir_segs(old(self).toks(), old(self).pos(), strings_view(acc@))
                == Ok::<(Seq<Seq<char>>, int), Seq<char>>(
                (strings_view(segs@), final(self).pos()),
            ),
        decreases old(self).toks().len() - old(self).pos(), 0int,
    {
        if !(self.position < self.tokens.len()) {
            return Ok(acc);
        }
        let seg: String = match &self.tokens[self.position] {
            Token::Ident(s) => s.clone(),
            _ => {
                return Ok(acc);
            },
        };
        let mut acc = acc;
        let ghost acc0 = acc@;
        acc.push(seg);
        proof {
            lemma_strings_view_push(acc0, acc@.last());
        }
        self.position += 1;
        if self.position < self.tokens.len() && matches!(&self.tokens[self.position], Token::Colon) {
            self.position += 1;
            self.parse_dir_segs(acc)
        } else {
            Ok(acc)
        }
    }
}

} // verus!
