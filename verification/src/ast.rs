//! The part of the Hale/Aperio syntax tree that the topic desugaring
//! passes walk: top-level declarations, locus members, bus members,
//! statements and expressions.
//!
//! Every node carries the source `Span` it was parsed from. Names are
//! plain `String`s.
use vstd::prelude::*;

verus! {

/// Byte range of a node in its source file.
#[derive(Debug, Clone, Copy, PartialEq, Eq)]
pub struct Span {
    pub start: usize,
    pub end: usize,
}

/// An identifier together with where it was written.
#[derive(Debug, PartialEq, Eq)]
pub struct Ident {
    pub name: String,
    pub span: Span,
}

/// A (named) type expression such as `Int` or `Player`.
#[derive(Debug, PartialEq, Eq)]
pub struct TypeExpr {
    pub name: String,
    pub span: Span,
}

#[derive(Debug, PartialEq, Eq)]
pub enum Literal {
    Int(i64),
    Bool(bool),
    String(String),
    Unit,
}

#[derive(Debug, PartialEq, Eq)]
pub enum Expr {
    Ident(Ident),
    Literal(Literal, Span),
    KwSelf(Span),
    Field { receiver: Box<Expr>, name: Ident, span: Span },
    Call { callee: Box<Expr>, args: Vec<Expr>, span: Span },
    Binary { op: String, lhs: Box<Expr>, rhs: Box<Expr>, span: Span },
    Block(Block),
    If(Box<IfStmt>),
    Match(Box<MatchStmt>),
}

#[derive(Debug, PartialEq, Eq)]
pub struct Block {
    pub stmts: Vec<Stmt>,
    pub tail: Option<Box<Expr>>,
    pub span: Span,
}

#[derive(Debug, PartialEq, Eq)]
pub enum Stmt {
    Let { name: Ident, value: Expr, span: Span },
    Assign { target: Expr, value: Expr, span: Span },
    /// `subject <- value`
    Send { subject: Expr, value: Expr, span: Span },
    If(IfStmt),
    Match(MatchStmt),
    For { var: Ident, iter: Expr, body: Block, span: Span },
    While { cond: Expr, body: Block, span: Span },
    Block(Block),
    Expr(Expr),
    Return(Option<Expr>, Span),
}

#[derive(Debug, PartialEq, Eq)]
pub struct IfStmt {
    pub cond: Expr,
    pub then_block: Block,
    pub else_block: Option<Box<ElseBranch>>,
    pub span: Span,
}

#[derive(Debug, PartialEq, Eq)]
pub enum ElseBranch {
    Else(Block),
    ElseIf(IfStmt),
}

#[derive(Debug, PartialEq, Eq)]
pub struct MatchStmt {
    pub scrutinee: Expr,
    pub arms: Vec<MatchArm>,
    pub span: Span,
}

#[derive(Debug, PartialEq, Eq)]
pub struct MatchArm {
    pub pattern: Expr,
    pub body: MatchArmBody,
    pub span: Span,
}

#[derive(Debug, PartialEq, Eq)]
pub enum MatchArmBody {
    Block(Block),
    Expr(Expr),
}

/// A parameter or a field: `name: ty`.
#[derive(Debug, PartialEq, Eq)]
pub struct Param {
    pub name: Ident,
    pub ty: TypeExpr,
}

#[derive(Debug, PartialEq, Eq)]
pub struct FnDecl {
    pub name: Ident,
    pub params: Vec<Param>,
    pub ret: Option<TypeExpr>,
    pub body: Block,
    pub span: Span,
}

/// `topic Name { payload: T; parent: P; subject: "s"; }`
#[derive(Debug, PartialEq, Eq)]
pub struct TopicDecl {
    pub name: Ident,
    pub payload: TypeExpr,
    pub parent: Option<Ident>,
    pub subject: Option<String>,
    pub span: Span,
}

#[derive(Debug, PartialEq, Eq)]
pub struct TypeDecl {
    pub name: Ident,
    pub fields: Vec<Param>,
    pub span: Span,
}

#[derive(Debug, PartialEq, Eq)]
pub struct ModuleDecl {
    pub name: Ident,
    pub items: Vec<TopDecl>,
    pub span: Span,
}

#[derive(Debug, PartialEq, Eq)]
pub struct LocusDecl {
    pub name: Ident,
    pub members: Vec<LocusMember>,
    pub span: Span,
}

#[derive(Debug, PartialEq, Eq)]
pub enum TopDecl {
    Topic(TopicDecl),
    Type(TypeDecl),
    Fn(FnDecl),
    Locus(LocusDecl),
    Module(ModuleDecl),
}

#[derive(Debug, PartialEq, Eq)]
pub enum LocusMember {
    Field(Param),
    Bus(BusBlock),
    Bindings(BindingsBlock),
    Lifecycle(LifecycleDecl),
    Mode(ModeDecl),
    Fn(FnDecl),
    Failure(FailureDecl),
}

#[derive(Debug, PartialEq, Eq)]
pub struct BusBlock {
    pub members: Vec<BusMember>,
    pub span: Span,
}

#[derive(Debug, PartialEq, Eq)]
pub enum BusMember {
    /// `subscribe <subject> [: ty] as handler;`
    Subscribe { subject: BusSubject, ty: Option<TypeExpr>, handler: Ident, span: Span },
    /// `publish <subject> [: ty];`
    Publish { subject: BusSubject, ty: Option<TypeExpr>, span: Span },
}

#[derive(Debug, PartialEq, Eq)]
pub enum BusSubject {
    /// A reference to a declared topic by name.
    Topic(Ident),
    /// A literal wire subject.
    Literal { subject: String, span: Span },
}

#[derive(Debug, PartialEq, Eq)]
pub struct BindingsBlock {
    pub entries: Vec<BindingEntry>,
    pub span: Span,
}

/// `Topic: transport;` inside a `bindings { .. }` block.
#[derive(Debug, PartialEq, Eq)]
pub struct BindingEntry {
    pub topic: Ident,
    pub target: Ident,
    pub span: Span,
}

#[derive(Debug, PartialEq, Eq)]
pub struct LifecycleDecl {
    pub name: Ident,
    pub body: Block,
    pub span: Span,
}

#[derive(Debug, PartialEq, Eq)]
pub struct ModeDecl {
    pub name: Ident,
    pub body: Block,
    pub span: Span,
}

#[derive(Debug, PartialEq, Eq)]
pub struct FailureDecl {
    pub param: Ident,
    pub body: Block,
    pub span: Span,
}

#[derive(Debug, PartialEq, Eq)]
pub struct Program {
    pub items: Vec<TopDecl>,
}

} // verus!
