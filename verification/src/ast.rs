//! The syntax tree of `.theoria` source files.
//!
//! Every node records the source range it was built from. Each type has
//! an abstract value (`...V`) in which strings are character sequences and
//! vectors are sequences; the parser is specified over those.

use vstd::prelude::*;
use crate::syntax::Span;

verus! {

/// One segment of a dotted path.
#[derive(Debug, PartialEq)]
pub struct PathSegment {
    /// The segment text.
    pub text: String,
    /// Its source range.
    pub span: Span,
}

/// A dotted path `A.B.C`.
#[derive(Debug, PartialEq)]
pub struct Path {
    /// The segments, in order.
    pub segments: Vec<PathSegment>,
    /// The source range of the whole path.
    pub span: Span,
}

/// A `Module` declaration.
#[derive(Debug, PartialEq)]
pub struct ModuleDecl {
    /// The module path.
    pub path: Path,
    /// The source range.
    pub span: Span,
}

/// A name in an import list.
#[derive(Debug, PartialEq)]
pub struct ImportName {
    /// The imported name.
    pub text: String,
    /// Its source range.
    pub span: Span,
}

/// An `Import` declaration, optionally with a list of names.
#[derive(Debug, PartialEq)]
pub struct ImportDecl {
    /// The imported module.
    pub path: Path,
    /// The imported names, if listed.
    pub names: Option<Vec<ImportName>>,
    /// The source range.
    pub span: Span,
}

/// A `name : type` parameter.
#[derive(Debug, PartialEq)]
pub struct Param {
    /// The parameter name.
    pub name: String,
    /// The range of the name.
    pub name_span: Span,
    /// The annotated type.
    pub ty: Expr,
    /// The range of the whole parameter.
    pub span: Span,
}

/// An annotated parameter `(name : type)` of a λ.
#[derive(Debug, PartialEq)]
pub struct LamParam {
    /// The parameter name.
    pub name: String,
    /// The range of the name.
    pub name_span: Span,
    /// The annotated type.
    pub ty: Expr,
    /// The range from the name to the closing parenthesis.
    pub span: Span,
}

/// An `if cond then a else b` expression.
#[derive(Debug, PartialEq)]
pub struct IfExpr {
    /// The condition.
    pub cond: Box<Expr>,
    /// The `then` branch.
    pub then_branch: Box<Expr>,
    /// The `else` branch.
    pub else_branch: Box<Expr>,
    /// The source range.
    pub span: Span,
}

/// A `match` expression.
#[derive(Debug, PartialEq)]
pub struct MatchExpr {
    /// The scrutinee.
    pub scrutinee: Box<Expr>,
    /// The arms, in order.
    pub arms: Vec<MatchArm>,
    /// The source range.
    pub span: Span,
}

/// A `case pattern => body` arm.
#[derive(Debug, PartialEq)]
pub struct MatchArm {
    /// The pattern.
    pub pattern: Pattern,
    /// The body.
    pub body: Expr,
    /// The source range.
    pub span: Span,
}

/// A `Function` definition.
#[derive(Debug, PartialEq)]
pub struct FunctionDef {
    /// The function name.
    pub name: String,
    /// The range of the name.
    pub name_span: Span,
    /// The parameters.
    pub params: Vec<Param>,
    /// The return type, if given.
    pub return_ty: Option<Expr>,
    /// The body: `let`s, then one `return`.
    pub body: Vec<Stmt>,
    /// The source range.
    pub span: Span,
}

/// A `name : type` field of a structure.
#[derive(Debug, PartialEq)]
pub struct FieldDef {
    /// The field name.
    pub name: String,
    /// The range of the name.
    pub name_span: Span,
    /// The field type.
    pub ty: Expr,
    /// The range up to the end of the line.
    pub span: Span,
}

/// A `Structure` definition.
#[derive(Debug, PartialEq)]
pub struct StructureDef {
    /// The structure name.
    pub name: String,
    /// The range of the name.
    pub name_span: Span,
    /// The parameters.
    pub params: Vec<Param>,
    /// The fields, at least one.
    pub fields: Vec<FieldDef>,
    /// The source range.
    pub span: Span,
}

/// A `name : proposition` hypothesis of a theorem.
#[derive(Debug, PartialEq)]
pub struct Hypothesis {
    /// The hypothesis name.
    pub name: String,
    /// The range of the name.
    pub name_span: Span,
    /// The proposition.
    pub ty: Expr,
    /// The range up to the end of the line.
    pub span: Span,
}

/// A numbered proof step.
#[derive(Debug, PartialEq)]
pub struct ProofStep {
    /// The step number.
    pub number: u32,
    /// The range of the number.
    pub number_span: Span,
    /// What the step does.
    pub kind: ProofStepKind,
    /// The bracketed justification text, trimmed, if any.
    pub justification: Option<String>,
    /// The range up to the end of the line.
    pub span: Span,
}

/// A `Theorem` definition.
#[derive(Debug, PartialEq)]
pub struct TheoremDef {
    /// The theorem name.
    pub name: String,
    /// The range of the name.
    pub name_span: Span,
    /// The `Given` bindings.
    pub given: Vec<Param>,
    /// The `Assume` hypotheses.
    pub hypotheses: Vec<Hypothesis>,
    /// The goal.
    pub show: Expr,
    /// The proof.
    pub proof: ProofBlock,
    /// The source range.
    pub span: Span,
}

/// A parsed source file.
#[derive(Debug, PartialEq)]
pub struct Module {
    /// The `Module` declaration, if any.
    pub decl: Option<ModuleDecl>,
    /// The imports, in order.
    pub imports: Vec<ImportDecl>,
    /// The structures, in order.
    pub structures: Vec<StructureDef>,
    /// The functions, in order.
    pub functions: Vec<FunctionDef>,
    /// The theorems, in order.
    pub theorems: Vec<TheoremDef>,
    /// The range of the whole source.
    pub span: Span,
}

/// A binary operator.
#[derive(Clone, Copy, Debug, PartialEq, Eq, Hash, Structural)]
pub enum BinOp {
    /// `->`
    Arrow,
    /// `==`
    Eq,
    /// `!=`
    Ne,
    /// `<`
    Lt,
    /// `<=`
    Le,
    /// `>`
    Gt,
    /// `>=`
    Ge,
    /// `+`
    Add,
    /// `-`
    Sub,
    /// `*`
    Mul,
    /// `/`
    Div,
    /// `^`
    Pow,
}

/// A unary operator.
#[derive(Clone, Copy, Debug, PartialEq, Eq, Hash, Structural)]
pub enum UnOp {
    /// `-`
    Neg,
}

/// An expression.
#[derive(Debug, PartialEq)]
pub enum Expr {
    /// An identifier.
    Ident {
        /// See the variant.
        text: String,
        /// See the variant.
        span: Span,
    },
    /// A natural number literal.
    Nat {
        /// See the variant.
        value: u64,
        /// See the variant.
        span: Span,
    },
    /// A decimal literal with a fraction or an exponent, kept as its text.
    Float {
        /// See the variant.
        text: String,
        /// See the variant.
        span: Span,
    },
    /// A string literal, escapes resolved.
    Str {
        /// See the variant.
        value: String,
        /// See the variant.
        span: Span,
    },
    /// A field access `obj.field`.
    Field {
        /// See the variant.
        obj: Box<Expr>,
        /// See the variant.
        field: String,
        /// See the variant.
        field_span: Span,
        /// See the variant.
        span: Span,
    },
    /// An index `obj[index]`.
    Index {
        /// See the variant.
        obj: Box<Expr>,
        /// See the variant.
        index: Box<Expr>,
        /// See the variant.
        span: Span,
    },
    /// A call `func(args)`.
    Call {
        /// See the variant.
        func: Box<Expr>,
        /// See the variant.
        args: Vec<Expr>,
        /// See the variant.
        span: Span,
    },
    /// A binary operation.
    BinOp {
        /// See the variant.
        lhs: Box<Expr>,
        /// See the variant.
        op: BinOp,
        /// See the variant.
        rhs: Box<Expr>,
        /// See the variant.
        span: Span,
    },
    /// A unary operation.
    UnOp {
        /// See the variant.
        op: UnOp,
        /// See the variant.
        operand: Box<Expr>,
        /// See the variant.
        span: Span,
    },
    /// A parenthesised expression.
    Paren {
        /// See the variant.
        inner: Box<Expr>,
        /// See the variant.
        span: Span,
    },
    /// A λ-abstraction.
    Lam {
        /// See the variant.
        params: Vec<LamParam>,
        /// See the variant.
        body: Box<Expr>,
        /// See the variant.
        span: Span,
    },
    /// An `if` expression.
    If(IfExpr),
    /// A `match` expression.
    Match(MatchExpr),
}

/// A flat `case` pattern.
#[derive(Debug, PartialEq)]
pub enum Pattern {
    /// `_`.
    Wildcard(Span),
    /// A variable binding.
    Var {
        /// See the variant.
        name: String,
        /// See the variant.
        name_span: Span,
    },
    /// A constructor with argument patterns.
    Constructor {
        /// See the variant.
        name: String,
        /// See the variant.
        name_span: Span,
        /// See the variant.
        args: Vec<PatternArg>,
        /// See the variant.
        span: Span,
    },
}

/// An argument of a constructor pattern.
#[derive(Debug, PartialEq)]
pub enum PatternArg {
    /// `_`.
    Wildcard(Span),
    /// A variable binding.
    Var {
        /// See the variant.
        name: String,
        /// See the variant.
        name_span: Span,
    },
}

/// A statement of a function body.
#[derive(Debug, PartialEq)]
pub enum Stmt {
    /// `return value`.
    Return {
        /// See the variant.
        value: Expr,
        /// See the variant.
        span: Span,
    },
    /// `let name : ty = value`.
    Let {
        /// See the variant.
        name: String,
        /// See the variant.
        name_span: Span,
        /// See the variant.
        ty: Expr,
        /// See the variant.
        value: Expr,
        /// See the variant.
        span: Span,
    },
}

/// What a proof step does.
#[derive(Debug, PartialEq)]
pub enum ProofStepKind {
    /// `Let name [: ty] = value`.
    Let {
        /// See the variant.
        name: String,
        /// See the variant.
        name_span: Span,
        /// See the variant.
        ty: Option<Expr>,
        /// See the variant.
        value: Expr,
    },
    /// `Have name : ty = proof`.
    Have {
        /// See the variant.
        name: String,
        /// See the variant.
        name_span: Span,
        /// See the variant.
        ty: Expr,
        /// See the variant.
        proof: Expr,
    },
    /// `Exact term`.
    Exact {
        /// See the variant.
        term: Expr,
    },
    /// `From name`.
    From {
        /// See the variant.
        name: String,
        /// See the variant.
        name_span: Span,
    },
}

/// The proof of a theorem.
#[derive(Debug, PartialEq)]
pub enum ProofBlock {
    /// A single proof term.
    Term(Expr),
    /// Numbered steps.
    Steps(Vec<ProofStep>),
}

/// The abstract value of a [`PathSegment`].
pub struct PathSegmentV {
    /// See [`PathSegment::text`].
    pub text: Seq<char>,
    /// See [`PathSegment::span`].
    pub span: Span,
}

/// The abstract value of a [`Path`].
pub struct PathV {
    /// See [`Path::segments`].
    pub segments: Seq<PathSegmentV>,
    /// See [`Path::span`].
    pub span: Span,
}

/// The abstract value of a [`ModuleDecl`].
pub struct ModuleDeclV {
    /// See [`ModuleDecl::path`].
    pub path: PathV,
    /// See [`ModuleDecl::span`].
    pub span: Span,
}

/// The abstract value of a [`ImportName`].
pub struct ImportNameV {
    /// See [`ImportName::text`].
    pub text: Seq<char>,
    /// See [`ImportName::span`].
    pub span: Span,
}

/// The abstract value of a [`ImportDecl`].
pub struct ImportDeclV {
    /// See [`ImportDecl::path`].
    pub path: PathV,
    /// See [`ImportDecl::names`].
    pub names: Option<Seq<ImportNameV>>,
    /// See [`ImportDecl::span`].
    pub span: Span,
}

/// The abstract value of a [`Param`].
pub struct ParamV {
    /// See [`Param::name`].
    pub name: Seq<char>,
    /// See [`Param::name_span`].
    pub name_span: Span,
    /// See [`Param::ty`].
    pub ty: ExprV,
    /// See [`Param::span`].
    pub span: Span,
}

/// The abstract value of a [`LamParam`].
pub struct LamParamV {
    /// See [`LamParam::name`].
    pub name: Seq<char>,
    /// See [`LamParam::name_span`].
    pub name_span: Span,
    /// See [`LamParam::ty`].
    pub ty: ExprV,
    /// See [`LamParam::span`].
    pub span: Span,
}

/// The abstract value of a [`IfExpr`].
pub struct IfExprV {
    /// See [`IfExpr::cond`].
    pub cond: Box<ExprV>,
    /// See [`IfExpr::then_branch`].
    pub then_branch: Box<ExprV>,
    /// See [`IfExpr::else_branch`].
    pub else_branch: Box<ExprV>,
    /// See [`IfExpr::span`].
    pub span: Span,
}

/// The abstract value of a [`MatchExpr`].
pub struct MatchExprV {
    /// See [`MatchExpr::scrutinee`].
    pub scrutinee: Box<ExprV>,
    /// See [`MatchExpr::arms`].
    pub arms: Seq<MatchArmV>,
    /// See [`MatchExpr::span`].
    pub span: Span,
}

/// The abstract value of a [`MatchArm`].
pub struct MatchArmV {
    /// See [`MatchArm::pattern`].
    pub pattern: PatternV,
    /// See [`MatchArm::body`].
    pub body: ExprV,
    /// See [`MatchArm::span`].
    pub span: Span,
}

/// The abstract value of a [`FunctionDef`].
pub struct FunctionDefV {
    /// See [`FunctionDef::name`].
    pub name: Seq<char>,
    /// See [`FunctionDef::name_span`].
    pub name_span: Span,
    /// See [`FunctionDef::params`].
    pub params: Seq<ParamV>,
    /// See [`FunctionDef::return_ty`].
    pub return_ty: Option<ExprV>,
    /// See [`FunctionDef::body`].
    pub body: Seq<StmtV>,
    /// See [`FunctionDef::span`].
    pub span: Span,
}

/// The abstract value of a [`FieldDef`].
pub struct FieldDefV {
    /// See [`FieldDef::name`].
    pub name: Seq<char>,
    /// See [`FieldDef::name_span`].
    pub name_span: Span,
    /// See [`FieldDef::ty`].
    pub ty: ExprV,
    /// See [`FieldDef::span`].
    pub span: Span,
}

/// The abstract value of a [`StructureDef`].
pub struct StructureDefV {
    /// See [`StructureDef::name`].
    pub name: Seq<char>,
    /// See [`StructureDef::name_span`].
    pub name_span: Span,
    /// See [`StructureDef::params`].
    pub params: Seq<ParamV>,
    /// See [`StructureDef::fields`].
    pub fields: Seq<FieldDefV>,
    /// See [`StructureDef::span`].
    pub span: Span,
}

/// The abstract value of a [`Hypothesis`].
pub struct HypothesisV {
    /// See [`Hypothesis::name`].
    pub name: Seq<char>,
    /// See [`Hypothesis::name_span`].
    pub name_span: Span,
    /// See [`Hypothesis::ty`].
    pub ty: ExprV,
    /// See [`Hypothesis::span`].
    pub span: Span,
}

/// The abstract value of a [`ProofStep`].
pub struct ProofStepV {
    /// See [`ProofStep::number`].
    pub number: u32,
    /// See [`ProofStep::number_span`].
    pub number_span: Span,
    /// See [`ProofStep::kind`].
    pub kind: ProofStepKindV,
    /// See [`ProofStep::justification`].
    pub justification: Option<Seq<char>>,
    /// See [`ProofStep::span`].
    pub span: Span,
}

/// The abstract value of a [`TheoremDef`].
pub struct TheoremDefV {
    /// See [`TheoremDef::name`].
    pub name: Seq<char>,
    /// See [`TheoremDef::name_span`].
    pub name_span: Span,
    /// See [`TheoremDef::given`].
    pub given: Seq<ParamV>,
    /// See [`TheoremDef::hypotheses`].
    pub hypotheses: Seq<HypothesisV>,
    /// See [`TheoremDef::show`].
    pub show: ExprV,
    /// See [`TheoremDef::proof`].
    pub proof: ProofBlockV,
    /// See [`TheoremDef::span`].
    pub span: Span,
}

/// The abstract value of a [`Module`].
pub struct ModuleV {
    /// See [`Module::decl`].
    pub decl: Option<ModuleDeclV>,
    /// See [`Module::imports`].
    pub imports: Seq<ImportDeclV>,
    /// See [`Module::structures`].
    pub structures: Seq<StructureDefV>,
    /// See [`Module::functions`].
    pub functions: Seq<FunctionDefV>,
    /// See [`Module::theorems`].
    pub theorems: Seq<TheoremDefV>,
    /// See [`Module::span`].
    pub span: Span,
}

/// The abstract value of a [`Expr`].
pub enum ExprV {
    /// See [`Expr::Ident`].
    Ident {
        /// See the variant.
        text: Seq<char>,
        /// See the variant.
        span: Span,
    },
    /// See [`Expr::Nat`].
    Nat {
        /// See the variant.
        value: u64,
        /// See the variant.
        span: Span,
    },
    /// See [`Expr::Float`].
    Float {
        /// See the variant.
        text: Seq<char>,
        /// See the variant.
        span: Span,
    },
    /// See [`Expr::Str`].
    Str {
        /// See the variant.
        value: Seq<char>,
        /// See the variant.
        span: Span,
    },
    /// See [`Expr::Field`].
    Field {
        /// See the variant.
        obj: Box<ExprV>,
        /// See the variant.
        field: Seq<char>,
        /// See the variant.
        field_span: Span,
        /// See the variant.
        span: Span,
    },
    /// See [`Expr::Index`].
    Index {
        /// See the variant.
        obj: Box<ExprV>,
        /// See the variant.
        index: Box<ExprV>,
        /// See the variant.
        span: Span,
    },
    /// See [`Expr::Call`].
    Call {
        /// See the variant.
        func: Box<ExprV>,
        /// See the variant.
        args: Seq<ExprV>,
        /// See the variant.
        span: Span,
    },
    /// See [`Expr::BinOp`].
    BinOp {
        /// See the variant.
        lhs: Box<ExprV>,
        /// See the variant.
        op: BinOp,
        /// See the variant.
        rhs: Box<ExprV>,
        /// See the variant.
        span: Span,
    },
    /// See [`Expr::UnOp`].
    UnOp {
        /// See the variant.
        op: UnOp,
        /// See the variant.
        operand: Box<ExprV>,
        /// See the variant.
        span: Span,
    },
    /// See [`Expr::Paren`].
    Paren {
        /// See the variant.
        inner: Box<ExprV>,
        /// See the variant.
        span: Span,
    },
    /// See [`Expr::Lam`].
    Lam {
        /// See the variant.
        params: Seq<LamParamV>,
        /// See the variant.
        body: Box<ExprV>,
        /// See the variant.
        span: Span,
    },
    /// See [`Expr::If`].
    If(IfExprV),
    /// See [`Expr::Match`].
    Match(MatchExprV),
}

/// The abstract value of a [`Pattern`].
pub enum PatternV {
    /// See [`Pattern::Wildcard`].
    Wildcard(Span),
    /// See [`Pattern::Var`].
    Var {
        /// See the variant.
        name: Seq<char>,
        /// See the variant.
        name_span: Span,
    },
    /// See [`Pattern::Constructor`].
    Constructor {
        /// See the variant.
        name: Seq<char>,
        /// See the variant.
        name_span: Span,
        /// See the variant.
        args: Seq<PatternArgV>,
        /// See the variant.
        span: Span,
    },
}

/// The abstract value of a [`PatternArg`].
pub enum PatternArgV {
    /// See [`PatternArg::Wildcard`].
    Wildcard(Span),
    /// See [`PatternArg::Var`].
    Var {
        /// See the variant.
        name: Seq<char>,
        /// See the variant.
        name_span: Span,
    },
}

/// The abstract value of a [`Stmt`].
pub enum StmtV {
    /// See [`Stmt::Return`].
    Return {
        /// See the variant.
        value: ExprV,
        /// See the variant.
        span: Span,
    },
    /// See [`Stmt::Let`].
    Let {
        /// See the variant.
        name: Seq<char>,
        /// See the variant.
        name_span: Span,
        /// See the variant.
        ty: ExprV,
        /// See the variant.
        value: ExprV,
        /// See the variant.
        span: Span,
    },
}

/// The abstract value of a [`ProofStepKind`].
pub enum ProofStepKindV {
    /// See [`ProofStepKind::Let`].
    Let {
        /// See the variant.
        name: Seq<char>,
        /// See the variant.
        name_span: Span,
        /// See the variant.
        ty: Option<ExprV>,
        /// See the variant.
        value: ExprV,
    },
    /// See [`ProofStepKind::Have`].
    Have {
        /// See the variant.
        name: Seq<char>,
        /// See the variant.
        name_span: Span,
        /// See the variant.
        ty: ExprV,
        /// See the variant.
        proof: ExprV,
    },
    /// See [`ProofStepKind::Exact`].
    Exact {
        /// See the variant.
        term: ExprV,
    },
    /// See [`ProofStepKind::From`].
    From {
        /// See the variant.
        name: Seq<char>,
        /// See the variant.
        name_span: Span,
    },
}

/// The abstract value of a [`ProofBlock`].
pub enum ProofBlockV {
    /// See [`ProofBlock::Term`].
    Term(ExprV),
    /// See [`ProofBlock::Steps`].
    Steps(Seq<ProofStepV>),
}

/// The abstract value of `x`.
pub open spec fn path_segment_view(x: PathSegment) -> PathSegmentV
    decreases x,
{
    PathSegmentV { text: x.text@, span: x.span }
}

/// The abstract value of `x`.
pub open spec fn path_view(x: Path) -> PathV
    decreases x,
{
    PathV { segments: path_segment_seq_view(x.segments@), span: x.span }
}

/// The abstract value of `x`.
pub open spec fn module_decl_view(x: ModuleDecl) -> ModuleDeclV
    decreases x,
{
    ModuleDeclV { path: path_view(x.path), span: x.span }
}

/// The abstract value of `x`.
pub open spec fn import_name_view(x: ImportName) -> ImportNameV
    decreases x,
{
    ImportNameV { text: x.text@, span: x.span }
}

/// The abstract value of `x`.
pub open spec fn import_decl_view(x: ImportDecl) -> ImportDeclV
    decreases x,
{
    ImportDeclV { path: path_view(x.path), names: match x.names { Some(x) => Some(import_name_seq_view(x@)), None => None }, span: x.span }
}

/// The abstract value of `x`.
pub open spec fn param_view(x: Param) -> ParamV
    decreases x,
{
    ParamV { name: x.name@, name_span: x.name_span, ty: expr_view(x.ty), span: x.span }
}

/// The abstract value of `x`.
pub open spec fn lam_param_view(x: LamParam) -> LamParamV
    decreases x,
{
    LamParamV { name: x.name@, name_span: x.name_span, ty: expr_view(x.ty), span: x.span }
}

/// The abstract value of `x`.
pub open spec fn if_expr_view(x: IfExpr) -> IfExprV
    decreases x,
{
    IfExprV { cond: Box::new(expr_view(*x.cond)), then_branch: Box::new(expr_view(*x.then_branch)), else_branch: Box::new(expr_view(*x.else_branch)), span: x.span }
}

/// The abstract value of `x`.
pub open spec fn match_expr_view(x: MatchExpr) -> MatchExprV
    decreases x,
{
    MatchExprV { scrutinee: Box::new(expr_view(*x.scrutinee)), arms: match_arm_seq_view(x.arms@), span: x.span }
}

/// The abstract value of `x`.
pub open spec fn match_arm_view(x: MatchArm) -> MatchArmV
    decreases x,
{
    MatchArmV { pattern: pattern_view(x.pattern), body: expr_view(x.body), span: x.span }
}

/// The abstract value of `x`.
pub open spec fn function_def_view(x: FunctionDef) -> FunctionDefV
    decreases x,
{
    FunctionDefV { name: x.name@, name_span: x.name_span, params: param_seq_view(x.params@), return_ty: match x.return_ty { Some(x) => Some(expr_view(x)), None => None }, body: stmt_seq_view(x.body@), span: x.span }
}

/// The abstract value of `x`.
pub open spec fn field_def_view(x: FieldDef) -> FieldDefV
    decreases x,
{
    FieldDefV { name: x.name@, name_span: x.name_span, ty: expr_view(x.ty), span: x.span }
}

/// The abstract value of `x`.
pub open spec fn structure_def_view(x: StructureDef) -> StructureDefV
    decreases x,
{
    StructureDefV { name: x.name@, name_span: x.name_span, params: param_seq_view(x.params@), fields: field_def_seq_view(x.fields@), span: x.span }
}

/// The abstract value of `x`.
pub open spec fn hypothesis_view(x: Hypothesis) -> HypothesisV
    decreases x,
{
    HypothesisV { name: x.name@, name_span: x.name_span, ty: expr_view(x.ty), span: x.span }
}

/// The abstract value of `x`.
pub open spec fn proof_step_view(x: ProofStep) -> ProofStepV
    decreases x,
{
    ProofStepV { number: x.number, number_span: x.number_span, kind: proof_step_kind_view(x.kind), justification: match x.justification { Some(x) => Some(x@), None => None }, span: x.span }
}

/// The abstract value of `x`.
pub open spec fn theorem_def_view(x: TheoremDef) -> TheoremDefV
    decreases x,
{
    TheoremDefV { name: x.name@, name_span: x.name_span, given: param_seq_view(x.given@), hypotheses: hypothesis_seq_view(x.hypotheses@), show: expr_view(x.show), proof: proof_block_view(x.proof), span: x.span }
}

/// The abstract value of `x`.
pub open spec fn module_view(x: Module) -> ModuleV
    decreases x,
{
    ModuleV { decl: match x.decl { Some(x) => Some(module_decl_view(x)), None => None }, imports: import_decl_seq_view(x.imports@), structures: structure_def_seq_view(x.structures@), functions: function_def_seq_view(x.functions@), theorems: theorem_def_seq_view(x.theorems@), span: x.span }
}

/// The abstract value of `x`.
pub open spec fn expr_view(x: Expr) -> ExprV
    decreases x,
{
    match x {
        Expr::Ident { text, span } => ExprV::Ident { text: text@, span: span },
        Expr::Nat { value, span } => ExprV::Nat { value: value, span: span },
        Expr::Float { text, span } => ExprV::Float { text: text@, span: span },
        Expr::Str { value, span } => ExprV::Str { value: value@, span: span },
        Expr::Field { obj, field, field_span, span } => ExprV::Field { obj: Box::new(expr_view(*obj)), field: field@, field_span: field_span, span: span },
        Expr::Index { obj, index, span } => ExprV::Index { obj: Box::new(expr_view(*obj)), index: Box::new(expr_view(*index)), span: span },
        Expr::Call { func, args, span } => ExprV::Call { func: Box::new(expr_view(*func)), args: expr_seq_view(args@), span: span },
        Expr::BinOp { lhs, op, rhs, span } => ExprV::BinOp { lhs: Box::new(expr_view(*lhs)), op: op, rhs: Box::new(expr_view(*rhs)), span: span },
        Expr::UnOp { op, operand, span } => ExprV::UnOp { op: op, operand: Box::new(expr_view(*operand)), span: span },
        Expr::Paren { inner, span } => ExprV::Paren { inner: Box::new(expr_view(*inner)), span: span },
        Expr::Lam { params, body, span } => ExprV::Lam { params: lam_param_seq_view(params@), body: Box::new(expr_view(*body)), span: span },
        Expr::If(a) => ExprV::If(if_expr_view(a)),
        Expr::Match(a) => ExprV::Match(match_expr_view(a)),
    }
}

/// The abstract value of `x`.
pub open spec fn pattern_view(x: Pattern) -> PatternV
    decreases x,
{
    match x {
        Pattern::Wildcard(a) => PatternV::Wildcard(a),
        Pattern::Var { name, name_span } => PatternV::Var { name: name@, name_span: name_span },
        Pattern::Constructor { name, name_span, args, span } => PatternV::Constructor { name: name@, name_span: name_span, args: pattern_arg_seq_view(args@), span: span },
    }
}

/// The abstract value of `x`.
pub open spec fn pattern_arg_view(x: PatternArg) -> PatternArgV
    decreases x,
{
    match x {
        PatternArg::Wildcard(a) => PatternArgV::Wildcard(a),
        PatternArg::Var { name, name_span } => PatternArgV::Var { name: name@, name_span: name_span },
    }
}

/// The abstract value of `x`.
pub open spec fn stmt_view(x: Stmt) -> StmtV
    decreases x,
{
    match x {
        Stmt::Return { value, span } => StmtV::Return { value: expr_view(value), span: span },
        Stmt::Let { name, name_span, ty, value, span } => StmtV::Let { name: name@, name_span: name_span, ty: expr_view(ty), value: expr_view(value), span: span },
    }
}

/// The abstract value of `x`.
pub open spec fn proof_step_kind_view(x: ProofStepKind) -> ProofStepKindV
    decreases x,
{
    match x {
        ProofStepKind::Let { name, name_span, ty, value } => ProofStepKindV::Let { name: name@, name_span: name_span, ty: match ty { Some(x) => Some(expr_view(x)), None => None }, value: expr_view(value) },
        ProofStepKind::Have { name, name_span, ty, proof } => ProofStepKindV::Have { name: name@, name_span: name_span, ty: expr_view(ty), proof: expr_view(proof) },
        ProofStepKind::Exact { term } => ProofStepKindV::Exact { term: expr_view(term) },
        ProofStepKind::From { name, name_span } => ProofStepKindV::From { name: name@, name_span: name_span },
    }
}

/// The abstract value of `x`.
pub open spec fn proof_block_view(x: ProofBlock) -> ProofBlockV
    decreases x,
{
    match x {
        ProofBlock::Term(a) => ProofBlockV::Term(expr_view(a)),
        ProofBlock::Steps(a) => ProofBlockV::Steps(proof_step_seq_view(a@)),
    }
}

/// The abstract values of `s`.
pub open spec fn expr_seq_view(s: Seq<Expr>) -> Seq<ExprV>
    decreases s,
{
    if s.len() == 0 {
        Seq::empty()
    } else {
        expr_seq_view(s.subrange(0, s.len() - 1)).push(expr_view(s[s.len() - 1]))
    }
}

/// The abstract values of `s`.
pub open spec fn field_def_seq_view(s: Seq<FieldDef>) -> Seq<FieldDefV>
    decreases s,
{
    if s.len() == 0 {
        Seq::empty()
    } else {
        field_def_seq_view(s.subrange(0, s.len() - 1)).push(field_def_view(s[s.len() - 1]))
    }
}

/// The abstract values of `s`.
pub open spec fn function_def_seq_view(s: Seq<FunctionDef>) -> Seq<FunctionDefV>
    decreases s,
{
    if s.len() == 0 {
        Seq::empty()
    } else {
        function_def_seq_view(s.subrange(0, s.len() - 1)).push(function_def_view(s[s.len() - 1]))
    }
}

/// The abstract values of `s`.
pub open spec fn hypothesis_seq_view(s: Seq<Hypothesis>) -> Seq<HypothesisV>
    decreases s,
{
    if s.len() == 0 {
        Seq::empty()
    } else {
        hypothesis_seq_view(s.subrange(0, s.len() - 1)).push(hypothesis_view(s[s.len() - 1]))
    }
}

/// The abstract values of `s`.
pub open spec fn import_decl_seq_view(s: Seq<ImportDecl>) -> Seq<ImportDeclV>
    decreases s,
{
    if s.len() == 0 {
        Seq::empty()
    } else {
        import_decl_seq_view(s.subrange(0, s.len() - 1)).push(import_decl_view(s[s.len() - 1]))
    }
}

/// The abstract values of `s`.
pub open spec fn import_name_seq_view(s: Seq<ImportName>) -> Seq<ImportNameV>
    decreases s,
{
    if s.len() == 0 {
        Seq::empty()
    } else {
        import_name_seq_view(s.subrange(0, s.len() - 1)).push(import_name_view(s[s.len() - 1]))
    }
}

/// The abstract values of `s`.
pub open spec fn lam_param_seq_view(s: Seq<LamParam>) -> Seq<LamParamV>
    decreases s,
{
    if s.len() == 0 {
        Seq::empty()
    } else {
        lam_param_seq_view(s.subrange(0, s.len() - 1)).push(lam_param_view(s[s.len() - 1]))
    }
}

/// The abstract values of `s`.
pub open spec fn match_arm_seq_view(s: Seq<MatchArm>) -> Seq<MatchArmV>
    decreases s,
{
    if s.len() == 0 {
        Seq::empty()
    } else {
        match_arm_seq_view(s.subrange(0, s.len() - 1)).push(match_arm_view(s[s.len() - 1]))
    }
}

/// The abstract values of `s`.
pub open spec fn param_seq_view(s: Seq<Param>) -> Seq<ParamV>
    decreases s,
{
    if s.len() == 0 {
        Seq::empty()
    } else {
        param_seq_view(s.subrange(0, s.len() - 1)).push(param_view(s[s.len() - 1]))
    }
}

/// The abstract values of `s`.
pub open spec fn path_segment_seq_view(s: Seq<PathSegment>) -> Seq<PathSegmentV>
    decreases s,
{
    if s.len() == 0 {
        Seq::empty()
    } else {
        path_segment_seq_view(s.subrange(0, s.len() - 1)).push(path_segment_view(s[s.len() - 1]))
    }
}

/// The abstract values of `s`.
pub open spec fn pattern_arg_seq_view(s: Seq<PatternArg>) -> Seq<PatternArgV>
    decreases s,
{
    if s.len() == 0 {
        Seq::empty()
    } else {
        pattern_arg_seq_view(s.subrange(0, s.len() - 1)).push(pattern_arg_view(s[s.len() - 1]))
    }
}

/// The abstract values of `s`.
pub open spec fn proof_step_seq_view(s: Seq<ProofStep>) -> Seq<ProofStepV>
    decreases s,
{
    if s.len() == 0 {
        Seq::empty()
    } else {
        proof_step_seq_view(s.subrange(0, s.len() - 1)).push(proof_step_view(s[s.len() - 1]))
    }
}

/// The abstract values of `s`.
pub open spec fn stmt_seq_view(s: Seq<Stmt>) -> Seq<StmtV>
    decreases s,
{
    if s.len() == 0 {
        Seq::empty()
    } else {
        stmt_seq_view(s.subrange(0, s.len() - 1)).push(stmt_view(s[s.len() - 1]))
    }
}

/// The abstract values of `s`.
pub open spec fn structure_def_seq_view(s: Seq<StructureDef>) -> Seq<StructureDefV>
    decreases s,
{
    if s.len() == 0 {
        Seq::empty()
    } else {
        structure_def_seq_view(s.subrange(0, s.len() - 1)).push(structure_def_view(s[s.len() - 1]))
    }
}

/// The abstract values of `s`.
pub open spec fn theorem_def_seq_view(s: Seq<TheoremDef>) -> Seq<TheoremDefV>
    decreases s,
{
    if s.len() == 0 {
        Seq::empty()
    } else {
        theorem_def_seq_view(s.subrange(0, s.len() - 1)).push(theorem_def_view(s[s.len() - 1]))
    }
}

} // verus!
