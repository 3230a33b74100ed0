//! Abstract syntax for scene files and logic scripts, with the spec-level
//! models the parser contracts are stated over.

use vstd::prelude::*;

verus! {

broadcast use vstd::std_specs::vec::group_vec_axioms, vstd::seq::group_seq_axioms;

// ---------------------------------------------------------------------------
// Scene syntax
// ---------------------------------------------------------------------------

/// A whole scene file: exactly one root declaration.
#[derive(Debug, PartialEq)]
pub struct GemFile {
    pub root: GemDecl,
}

/// One node declaration: `Name : Type { properties and children }`.
/// Sibling order is meaningful and is kept as written.
#[derive(Debug, PartialEq)]
pub struct GemDecl {
    pub name: String,
    pub gem_type: String,
    pub properties: Vec<Property>,
    pub children: Vec<GemDecl>,
}

/// One `key : value` pair.
#[derive(Debug, PartialEq)]
pub struct Property {
    pub key: String,
    pub value: Value,
}

/// A property value. A numeric literal with a decimal point keeps its
/// source text.
#[derive(Debug, PartialEq)]
pub enum Value {
    Number(String),
    Integer(i64),
    String(String),
    Bool(bool),
    Tuple(Vec<Value>),
    Directive(Vec<String>),
    Ident(String),
}

// ---------------------------------------------------------------------------
// Logic syntax
// ---------------------------------------------------------------------------

/// A whole logic file: the extended type, an optional doc comment, and the
/// event handlers and plain functions in declaration order.
#[derive(Debug, PartialEq)]
pub struct LogicFile {
    pub extend_type: String,
    pub doc_comment: Option<String>,
    pub events: Vec<Event>,
    pub functions: Vec<FunctionDecl>,
}

/// An event handler: a declaration whose name carries the reserved prefix.
#[derive(Debug, PartialEq)]
pub struct Event {
    pub name: String,
    pub params: Vec<String>,
    pub body: Block,
}

/// A plain function declaration.
#[derive(Debug, PartialEq)]
pub struct FunctionDecl {
    pub name: String,
    pub params: Vec<String>,
    pub body: Block,
}

/// A braced statement list.
#[derive(Debug, PartialEq)]
pub struct Block {
    pub statements: Vec<Stmt>,
}

/// A statement.
#[derive(Debug, PartialEq)]
pub enum Stmt {
    Assignment { target: String, value: Expr },
    If { condition: Expr, then_block: Block, else_block: Option<Block> },
    Call { name: String, args: Vec<Expr> },
    Spawn { gem_type: String, properties: Vec<Property> },
    ExprStmt(Expr),
}

/// An expression. A numeric literal with a decimal point keeps its source
/// text.
#[derive(Debug, PartialEq)]
pub enum Expr {
    Number(String),
    Integer(i64),
    String(String),
    Bool(bool),
    Ident(String),
    Tuple(Vec<Expr>),
    Directive(Vec<String>),
    Call { name: String, args: Vec<Expr> },
    BinaryOp { op: BinOp, left: Box<Expr>, right: Box<Expr> },
    UnaryOp { op: UnOp, expr: Box<Expr> },
    PropertyAccess { object: Box<Expr>, property: String },
}

/// The binary operators, loosest-binding last in each precedence tier.
#[derive(Debug, Clone, Copy, PartialEq, Eq, Structural)]
pub enum BinOp {
    Add,
    Sub,
    Mul,
    Div,
    And,
    Or,
    Eq,
    NotEq,
    Less,
    Greater,
    LessEq,
    GreaterEq,
}

/// The unary operators.
#[derive(Debug, Clone, Copy, PartialEq, Eq, Structural)]
pub enum UnOp {
    Not,
    Minus,
}

// ---------------------------------------------------------------------------
// Spec-level models
// ---------------------------------------------------------------------------

pub struct GemFileView {
    pub root: GemDeclView,
}

pub struct GemDeclView {
    pub name: Seq<char>,
    pub gem_type: Seq<char>,
    pub properties: Seq<PropertyView>,
    pub children: Seq<GemDeclView>,
}

pub struct PropertyView {
    pub key: Seq<char>,
    pub value: ValueView,
}

pub enum ValueView {
    Number(Seq<char>),
    Integer(i64),
    String(Seq<char>),
    Bool(bool),
    Tuple(Seq<ValueView>),
    Directive(Seq<Seq<char>>),
    Ident(Seq<char>),
}

pub struct LogicFileView {
    pub extend_type: Seq<char>,
    pub doc_comment: Option<Seq<char>>,
    pub events: Seq<EventView>,
    pub functions: Seq<FunctionDeclView>,
}

pub struct EventView {
    pub name: Seq<char>,
    pub params: Seq<Seq<char>>,
    pub body: BlockView,
}

pub struct FunctionDeclView {
    pub name: Seq<char>,
    pub params: Seq<Seq<char>>,
    pub body: BlockView,
}

pub struct BlockView {
    pub statements: Seq<StmtView>,
}

pub enum StmtView {
    Assignment { target: Seq<char>, value: ExprView },
    If { condition: ExprView, then_block: BlockView, else_block: Option<BlockView> },
    Call { name: Seq<char>, args: Seq<ExprView> },
    Spawn { gem_type: Seq<char>, properties: Seq<PropertyView> },
    ExprStmt(ExprView),
}

pub enum ExprView {
    Number(Seq<char>),
    Integer(i64),
    String(Seq<char>),
    Bool(bool),
    Ident(Seq<char>),
    Tuple(Seq<ExprView>),
    Directive(Seq<Seq<char>>),
    Call { name: Seq<char>, args: Seq<ExprView> },
    BinaryOp { op: BinOp, left: Box<ExprView>, right: Box<ExprView> },
    UnaryOp { op: UnOp, expr: Box<ExprView> },
    PropertyAccess { object: Box<ExprView>, property: Seq<char> },
}

// ---------------------------------------------------------------------------
// View functions
// ---------------------------------------------------------------------------

pub open spec fn strings_view(ss: Seq<String>) -> Seq<Seq<char>> {
    Seq::new(ss.len(), |i: int| ss[i]@)
}

pub open spec fn value_view(v: Value) -> ValueView
    decreases v,
{
    match v {
        Value::Number(s) => ValueView::Number(s@),
        Value::Integer(i) => ValueView::Integer(i),
        Value::String(s) => ValueView::String(s@),
        Value::Bool(b) => ValueView::Bool(b),
        Value::Tuple(vs) => ValueView::Tuple(values_view(vs@)),
        Value::Directive(segs) => ValueView::Directive(strings_view(segs@)),
        Value::Ident(s) => ValueView::Ident(s@),
    }
}

pub open spec fn values_view(vs: Seq<Value>) -> Seq<ValueView>
    decreases vs,
{
    if vs.len() == 0 {
        Seq::empty()
    } else {
        values_view(vs.drop_last()).push(value_view(vs.last()))
    }
}

pub open spec fn property_view(p: Property) -> PropertyView
    decreases p,
{
    PropertyView { key: p.key@, value: value_view(p.value) }
}

pub open spec fn properties_view(ps: Seq<Property>) -> Seq<PropertyView>
    decreases ps,
{
    if ps.len() == 0 {
        Seq::empty()
    } else {
        properties_view(ps.drop_last()).push(property_view(ps.last()))
    }
}

pub open spec fn decl_view(d: GemDecl) -> GemDeclView
    decreases d,
{
    GemDeclView {
        name: d.name@,
        gem_type: d.gem_type@,
        properties: properties_view(d.properties@),
        children: decls_view(d.children@),
    }
}

pub open spec fn decls_view(ds: Seq<GemDecl>) -> Seq<GemDeclView>
    decreases ds,
{
    if ds.len() == 0 {
        Seq::empty()
    } else {
        decls_view(ds.drop_last()).push(decl_view(ds.last()))
    }
}

pub open spec fn expr_view(e: Expr) -> ExprView
    decreases e,
{
    match e {
        Expr::Number(s) => ExprView::Number(s@),
        Expr::Integer(i) => ExprView::Integer(i),
        Expr::String(s) => ExprView::String(s@),
        Expr::Bool(b) => ExprView::Bool(b),
        Expr::Ident(s) => ExprView::Ident(s@),
        Expr::Tuple(es) => ExprView::Tuple(exprs_view(es@)),
        Expr::Directive(segs) => ExprView::Directive(strings_view(segs@)),
        Expr::Call { name, args } => ExprView::Call { name: name@, args: exprs_view(args@) },
        Expr::BinaryOp { op, left, right } => ExprView::BinaryOp {
            op,
            left: Box::new(expr_view(*left)),
            right: Box::new(expr_view(*right)),
        },
        Expr::UnaryOp { op, expr } => ExprView::UnaryOp { op, expr: Box::new(expr_view(*expr)) },
        Expr::PropertyAccess { object, property } => ExprView::PropertyAccess {
            object: Box::new(expr_view(*object)),
            property: property@,
        },
    }
}

pub open spec fn exprs_view(es: Seq<Expr>) -> Seq<ExprView>
    decreases es,
{
    if es.len() == 0 {
        Seq::empty()
    } else {
        exprs_view(es.drop_last()).push(expr_view(es.last()))
    }
}

pub open spec fn stmt_view(s: Stmt) -> StmtView
    decreases s,
{
    match s {
        Stmt::Assignment { target, value } => StmtView::Assignment {
            target: target@,
            value: expr_view(value),
        },
        Stmt::If { condition, then_block, else_block } => StmtView::If {
            condition: expr_view(condition),
            then_block: block_view(then_block),
            else_block: match else_block {
                Some(b) => Some(block_view(b)),
                None => None,
            },
        },
        Stmt::Call { name, args } => StmtView::Call { name: name@, args: exprs_view(args@) },
        Stmt::Spawn { gem_type, properties } => StmtView::Spawn {
            gem_type: gem_type@,
            properties: properties_view(properties@),
        },
        Stmt::ExprStmt(e) => StmtView::ExprStmt(expr_view(e)),
    }
}

pub open spec fn stmts_view(ss: Seq<Stmt>) -> Seq<StmtView>
    decreases ss,
{
    if ss.len() == 0 {
        Seq::empty()
    } else {
        stmts_view(ss.drop_last()).push(stmt_view(ss.last()))
    }
}

pub open spec fn block_view(b: Block) -> BlockView
    decreases b,
{
    BlockView { statements: stmts_view(b.statements@) }
}

pub open spec fn event_view(e: Event) -> EventView
    decreases e,
{
    EventView { name: e.name@, params: strings_view(e.params@), body: block_view(e.body) }
}

pub open spec fn events_view(es: Seq<Event>) -> Seq<EventView>
    decreases es,
{
    if es.len() == 0 {
        Seq::empty()
    } else {
        events_view(es.drop_last()).push(event_view(es.last()))
    }
}

pub open spec fn function_view(f: FunctionDecl) -> FunctionDeclView
    decreases f,
{
    FunctionDeclView { name: f.name@, params: strings_view(f.params@), body: block_view(f.body) }
}

pub open spec fn functions_view(fs: Seq<FunctionDecl>) -> Seq<FunctionDeclView>
    decreases fs,
{
    if fs.len() == 0 {
        Seq::empty()
    } else {
        functions_view(fs.drop_last()).push(function_view(fs.last()))
    }
}

pub open spec fn logic_view(l: LogicFile) -> LogicFileView
    decreases l,
{
    LogicFileView {
        extend_type: l.extend_type@,
        doc_comment: match l.doc_comment {
            Some(s) => Some(s@),
            None => None,
        },
        events: events_view(l.events@),
        functions: functions_view(l.functions@),
    }
}

pub open spec fn file_view(f: GemFile) -> GemFileView
    decreases f,
{
    GemFileView { root: decl_view(f.root) }
}

// ---------------------------------------------------------------------------
// View lemmas
// ---------------------------------------------------------------------------

pub proof fn lemma_strings_view_push(ss: Seq<String>, s: String)
    ensures
        strings_view(ss.push(s)) == strings_view(ss).push(s@),
{
    assert(strings_view(ss.push(s)) =~= strings_view(ss).push(s@));
}

pub proof fn lemma_values_view_push(vs: Seq<Value>, v: Value)
    ensures
        values_view(vs.push(v)) == values_view(vs).push(value_view(v)),
{
    assert(vs.push(v).drop_last() =~= vs);
    assert(vs.push(v).last() == v);
}

pub proof fn lemma_properties_view_push(ps: Seq<Property>, p: Property)
    ensures
        properties_view(ps.push(p)) == properties_view(ps).push(property_view(p)),
{
    assert(ps.push(p).drop_last() =~= ps);
    assert(ps.push(p).last() == p);
}

pub proof fn lemma_decls_view_push(ds: Seq<GemDecl>, d: GemDecl)
    ensures
        decls_view(ds.push(d)) == decls_view(ds).push(decl_view(d)),
{
    assert(ds.push(d).drop_last() =~= ds);
    assert(ds.push(d).last() == d);
}

pub proof fn lemma_exprs_view_push(es: Seq<Expr>, e: Expr)
    ensures
        exprs_view(es.push(e)) == exprs_view(es).push(expr_view(e)),
{
    assert(es.push(e).drop_last() =~= es);
    assert(es.push(e).last() == e);
}

pub proof fn lemma_stmts_view_push(ss: Seq<Stmt>, s: Stmt)
    ensures
        stmts_view(ss.push(s)) == stmts_view(ss).push(stmt_view(s)),
{
    assert(ss.push(s).drop_last() =~= ss);
    assert(ss.push(s).last() == s);
}

pub proof fn lemma_events_view_push(es: Seq<Event>, e: Event)
    ensures
        events_view(es.push(e)) == events_view(es).push(event_view(e)),
{
    assert(es.push(e).drop_last() =~= es);
    assert(es.push(e).last() == e);
}

pub proof fn lemma_functions_view_push(fs: Seq<FunctionDecl>, f: FunctionDecl)
    ensures
        functions_view(fs.push(f)) == functions_view(fs).push(function_view(f)),
{
    assert(fs.push(f).drop_last() =~= fs);
    assert(fs.push(f).last() == f);
}

pub proof fn lemma_values_view_index(vs: Seq<Value>, i: int)
    requires
        0 <= i < vs.len(),
    ensures
        values_view(vs).len() == vs.len(),
        values_view(vs)[i] == value_view(vs[i]),
    decreases vs.len(),
{
    lemma_values_view_len(vs);
    if i < vs.len() - 1 {
        lemma_values_view_index(vs.drop_last(), i);
    }
}

pub proof fn lemma_values_view_len(vs: Seq<Value>)
    ensures
        values_view(vs).len() == vs.len(),
    decreases vs.len(),
{
    if vs.len() > 0 {
        lemma_values_view_len(vs.drop_last());
    }
}

pub proof fn lemma_properties_view_len(ps: Seq<Property>)
    ensures
        properties_view(ps).len() == ps.len(),
    decreases ps.len(),
{
    if ps.len() > 0 {
        lemma_properties_view_len(ps.drop_last());
    }
}

pub proof fn lemma_properties_view_index(ps: Seq<Property>, i: int)
    requires
        0 <= i < ps.len(),
    ensures
        properties_view(ps).len() == ps.len(),
        properties_view(ps)[i] == property_view(ps[i]),
    decreases ps.len(),
{
    lemma_properties_view_len(ps);
    if i < ps.len() - 1 {
        lemma_properties_view_index(ps.drop_last(), i);
    }
}

pub proof fn lemma_decls_view_len(ds: Seq<GemDecl>)
    ensures
        decls_view(ds).len() == ds.len(),
    decreases ds.len(),
{
    if ds.len() > 0 {
        lemma_decls_view_len(ds.drop_last());
    }
}

pub proof fn lemma_decls_view_index(ds: Seq<GemDecl>, i: int)
    requires
        0 <= i < ds.len(),
    ensures
        decls_view(ds).len() == ds.len(),
        decls_view(ds)[i] == decl_view(ds[i]),
    decreases ds.len(),
{
    lemma_decls_view_len(ds);
    if i < ds.len() - 1 {
        lemma_decls_view_index(ds.drop_last(), i);
    }
}

impl View for GemFile {
    type V = GemFileView;

    open spec fn view(&self) -> GemFileView {
        file_view(*self)
    }
}

impl View for GemDecl {
    type V = GemDeclView;

    open spec fn view(&self) -> GemDeclView {
        decl_view(*self)
    }
}

impl View for Property {
    type V = PropertyView;

    open spec fn view(&self) -> PropertyView {
        property_view(*self)
    }
}

impl View for Value {
    type V = ValueView;

    open spec fn view(&self) -> ValueView {
        value_view(*self)
    }
}

impl View for LogicFile {
    type V = LogicFileView;

    open spec fn view(&self) -> LogicFileView {
        logic_view(*self)
    }
}

impl View for Event {
    type V = EventView;

    open spec fn view(&self) -> EventView {
        event_view(*self)
    }
}

impl View for FunctionDecl {
    type V = FunctionDeclView;

    open spec fn view(&self) -> FunctionDeclView {
        function_view(*self)
    }
}

impl View for Block {
    type V = BlockView;

    open spec fn view(&self) -> BlockView {
        block_view(*self)
    }
}

impl View for Stmt {
    type V = StmtView;

    open spec fn view(&self) -> StmtView {
        stmt_view(*self)
    }
}

impl View for Expr {
    type V = ExprView;

    open spec fn view(&self) -> ExprView {
        expr_view(*self)
    }
}

} // verus!
