use vstd::prelude::*;
use crate::ast::GenericSyntax;
use crate::ast::ty::{Type, TypeV, type_view, types_view};
use crate::common::operator::Operator;
use crate::common::sourcemap::SourceMap;

verus! {

/// The value of a literal as written in a program.
#[derive(Debug)]
pub enum LiteralValue {
    Integer(u128),
    /// A floating literal, as written.
    Float(String),
    Bool(bool),
    Char(char),
    String(String),
    CString(String),
}

pub struct BinaryOperation {
    pub op: Operator,
    pub lhs: ExprSyntax,
    pub rhs: ExprSyntax,
}

pub struct IndexOperation {
    pub operand: ExprSyntax,
    pub index: ExprSyntax,
}

pub struct UnaryOperation {
    pub op: Operator,
    pub operand: ExprSyntax,
}

pub struct CallOperation {
    pub caller: ExprSyntax,
    pub arguments: Vec<ExprSyntax>,
}

pub struct CastOperation {
    pub expr: ExprSyntax,
    pub ty: Type,
}

pub struct MemberAccessOperation {
    pub object: ExprSyntax,
    pub member: String,
}

pub struct GenericCallOperation {
    pub callee: ExprSyntax,
    pub type_args: Vec<Type>,
    /// The name of the method after the type arguments, in
    /// `Type.<T>.method(...)`.
    pub member: Option<String>,
    pub arguments: Vec<ExprSyntax>,
}

/// A variable declaration: `[public] name : type [= value]`.
pub struct VarDecl {
    pub name: String,
    pub ty: Type,
    pub value: Option<ExprSyntax>,
    pub public: bool,
}

pub type VarDeclSyntax = GenericSyntax<VarDecl>;

/// A statement of a block.
pub enum Statement {
    VariableDeclaration(VarDecl),
    Expression(Expr),
}

pub type BlockSyntax = GenericSyntax<Vec<Statement>>;

/// `lambda(params...) = RetType { body }`.
pub struct LambdaExpr {
    pub parameters: Vec<VarDeclSyntax>,
    pub ret_ty: Option<Type>,
    pub body: BlockSyntax,
}

/// An expression of a program.
pub enum Expr {
    Identifier(String),
    Literal(LiteralValue),
    NullPtr,
    Lambda(Box<LambdaExpr>),
    Tuple(Vec<ExprSyntax>),
    Array(Vec<ExprSyntax>),
    Index(Box<IndexOperation>),
    BinaryOp(Box<BinaryOperation>),
    UnaryOp(Box<UnaryOperation>),
    CallOp(Box<CallOperation>),
    CastOp(Box<CastOperation>),
    MemberAccess(Box<MemberAccessOperation>),
    GenericCall(Box<GenericCallOperation>),
}

pub type ExprSyntax = GenericSyntax<Expr>;

/// An expression as plain values, lists as sequences.
pub enum ExprV {
    Identifier(String),
    Literal(LiteralValue),
    NullPtr,
    Lambda(Seq<VarDeclV>, Option<TypeV>, Seq<StatementV>, SourceMap),
    Tuple(Seq<SynV>),
    Array(Seq<SynV>),
    Index(Box<SynV>, Box<SynV>),
    Binary(Operator, Box<SynV>, Box<SynV>),
    Unary(Operator, Box<SynV>),
    Call(Box<SynV>, Seq<SynV>),
    Cast(Box<SynV>, TypeV),
    Member(Box<SynV>, String),
    GenericCall(Box<SynV>, Seq<TypeV>, Option<String>, Seq<SynV>),
}

/// An expression with its span, as plain values.
pub struct SynV {
    pub data: ExprV,
    pub smap: SourceMap,
}

/// A variable declaration with its span, as plain values.
pub struct VarDeclV {
    pub name: String,
    pub ty: TypeV,
    pub value: Option<SynV>,
    pub public: bool,
    pub smap: SourceMap,
}

pub enum StatementV {
    VariableDeclaration(String, TypeV, Option<SynV>, bool),
    Expression(ExprV),
}

pub open spec fn exprs_view(es: Seq<ExprSyntax>) -> Seq<SynV>
    decreases es,
{
    if es.len() == 0 {
        Seq::empty()
    } else {
        exprs_view(es.drop_last()).push(expr_view(es.last()))
    }
}

pub open spec fn opt_expr_view(e: Option<ExprSyntax>) -> Option<SynV>
    decreases e,
{
    match e {
        Some(x) => Some(expr_view(x)),
        None => None,
    }
}

pub open spec fn vardecl_view(v: VarDeclSyntax) -> VarDeclV
    decreases v,
{
    VarDeclV {
        name: v.data.name,
        ty: type_view(v.data.ty),
        value: opt_expr_view(v.data.value),
        public: v.data.public,
        smap: v.smap,
    }
}

pub open spec fn vardecls_view(vs: Seq<VarDeclSyntax>) -> Seq<VarDeclV>
    decreases vs,
{
    if vs.len() == 0 {
        Seq::empty()
    } else {
        vardecls_view(vs.drop_last()).push(vardecl_view(vs.last()))
    }
}

pub open spec fn statement_view(s: Statement) -> StatementV
    decreases s,
{
    match s {
        Statement::VariableDeclaration(v) => StatementV::VariableDeclaration(
            v.name,
            type_view(v.ty),
            opt_expr_view(v.value),
            v.public,
        ),
        Statement::Expression(e) => StatementV::Expression(data_view(e)),
    }
}

pub open spec fn statements_view(ss: Seq<Statement>) -> Seq<StatementV>
    decreases ss,
{
    if ss.len() == 0 {
        Seq::empty()
    } else {
        statements_view(ss.drop_last()).push(statement_view(ss.last()))
    }
}

pub open spec fn opt_type_view(t: Option<Type>) -> Option<TypeV> {
    match t {
        Some(x) => Some(type_view(x)),
        None => None,
    }
}

/// The expression as plain values.
pub open spec fn data_view(e: Expr) -> ExprV
    decreases e,
{
    match e {
        Expr::Identifier(s) => ExprV::Identifier(s),
        Expr::Literal(l) => ExprV::Literal(l),
        Expr::NullPtr => ExprV::NullPtr,
        Expr::Lambda(l) => ExprV::Lambda(
            vardecls_view(l.parameters@),
            opt_type_view(l.ret_ty),
            statements_view(l.body.data@),
            l.body.smap,
        ),
        Expr::Tuple(v) => ExprV::Tuple(exprs_view(v@)),
        Expr::Array(v) => ExprV::Array(exprs_view(v@)),
        Expr::Index(op) => ExprV::Index(Box::new(expr_view(op.operand)), Box::new(expr_view(op.index))),
        Expr::BinaryOp(op) => ExprV::Binary(op.op, Box::new(expr_view(op.lhs)), Box::new(expr_view(op.rhs))),
        Expr::UnaryOp(op) => ExprV::Unary(op.op, Box::new(expr_view(op.operand))),
        Expr::CallOp(op) => ExprV::Call(Box::new(expr_view(op.caller)), exprs_view(op.arguments@)),
        Expr::CastOp(op) => ExprV::Cast(Box::new(expr_view(op.expr)), type_view(op.ty)),
        Expr::MemberAccess(op) => ExprV::Member(Box::new(expr_view(op.object)), op.member),
        Expr::GenericCall(op) => ExprV::GenericCall(
            Box::new(expr_view(op.callee)),
            types_view(op.type_args@),
            op.member,
            exprs_view(op.arguments@),
        ),
    }
}

/// The expression and its span as plain values.
pub open spec fn expr_view(e: ExprSyntax) -> SynV
    decreases e,
{
    SynV { data: data_view(e.data), smap: e.smap }
}

pub proof fn lemma_exprs_view(es: Seq<ExprSyntax>)
    ensures
        exprs_view(es).len() == es.len(),
        forall|i: int| 0 <= i < es.len() ==> #[trigger] exprs_view(es)[i] == expr_view(es[i]),
    decreases es.len(),
{
    if es.len() > 0 {
        lemma_exprs_view(es.drop_last());
    }
}

pub proof fn lemma_exprs_view_push(es: Seq<ExprSyntax>, e: ExprSyntax)
    ensures
        exprs_view(es.push(e)) == exprs_view(es).push(expr_view(e)),
{
    assert(es.push(e).drop_last() =~= es);
}

pub proof fn lemma_vardecls_view_push(vs: Seq<VarDeclSyntax>, v: VarDeclSyntax)
    ensures
        vardecls_view(vs.push(v)) == vardecls_view(vs).push(vardecl_view(v)),
{
    assert(vs.push(v).drop_last() =~= vs);
}

pub proof fn lemma_statements_view_push(ss: Seq<Statement>, s: Statement)
    ensures
        statements_view(ss.push(s)) == statements_view(ss).push(statement_view(s)),
{
    assert(ss.push(s).drop_last() =~= ss);
}

} // verus!
