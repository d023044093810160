//! The mathematical model of the syntax tree: each node of `ast` viewed as
//! a value whose names are `Seq<char>` and whose lists are `Seq`s, so that
//! two trees are equal exactly when they have the same shape and contents.
use vstd::prelude::*;
use vstd::pervasive::arbitrary;
use crate::ast::{
    BindingEntry, BindingsBlock, Block, BusBlock, BusMember, BusSubject, ElseBranch, Expr, FailureDecl,
    FnDecl, Ident, IfStmt, LifecycleDecl, Literal, LocusDecl, LocusMember, MatchArm, MatchArmBody,
    MatchStmt, ModeDecl, ModuleDecl, Param, Program, Span, Stmt, TopDecl, TopicDecl, TypeDecl, TypeExpr,
};

verus! {

pub struct SpecIdent {
    pub name: Seq<char>,
    pub span: Span,
}

pub struct SpecTypeExpr {
    pub name: Seq<char>,
    pub span: Span,
}

pub enum SpecLiteral {
    Int(i64),
    Bool(bool),
    String(Seq<char>),
    Unit,
}

pub enum SpecExpr {
    Ident(SpecIdent),
    Literal(SpecLiteral, Span),
    KwSelf(Span),
    Field { receiver: Box<SpecExpr>, name: SpecIdent, span: Span },
    Call { callee: Box<SpecExpr>, args: Seq<SpecExpr>, span: Span },
    Binary { op: Seq<char>, lhs: Box<SpecExpr>, rhs: Box<SpecExpr>, span: Span },
    Block(SpecBlock),
    If(Box<SpecIfStmt>),
    Match(Box<SpecMatchStmt>),
}

pub struct SpecBlock {
    pub stmts: Seq<SpecStmt>,
    pub tail: Option<Box<SpecExpr>>,
    pub span: Span,
}

pub enum SpecStmt {
    Let { name: SpecIdent, value: SpecExpr, span: Span },
    Assign { target: SpecExpr, value: SpecExpr, span: Span },
    Send { subject: SpecExpr, value: SpecExpr, span: Span },
    If(SpecIfStmt),
    Match(SpecMatchStmt),
    For { var: SpecIdent, iter: SpecExpr, body: SpecBlock, span: Span },
    While { cond: SpecExpr, body: SpecBlock, span: Span },
    Block(SpecBlock),
    Expr(SpecExpr),
    Return(Option<SpecExpr>, Span),
}

pub struct SpecIfStmt {
    pub cond: SpecExpr,
    pub then_block: SpecBlock,
    pub else_block: Option<Box<SpecElseBranch>>,
    pub span: Span,
}

pub enum SpecElseBranch {
    Else(SpecBlock),
    ElseIf(SpecIfStmt),
}

pub struct SpecMatchStmt {
    pub scrutinee: SpecExpr,
    pub arms: Seq<SpecMatchArm>,
    pub span: Span,
}

pub struct SpecMatchArm {
    pub pattern: SpecExpr,
    pub body: SpecMatchArmBody,
    pub span: Span,
}

pub enum SpecMatchArmBody {
    Block(SpecBlock),
    Expr(SpecExpr),
}

pub struct SpecParam {
    pub name: SpecIdent,
    pub ty: SpecTypeExpr,
}

pub struct SpecFnDecl {
    pub name: SpecIdent,
    pub params: Seq<SpecParam>,
    pub ret: Option<SpecTypeExpr>,
    pub body: SpecBlock,
    pub span: Span,
}

pub struct SpecTopicDecl {
    pub name: SpecIdent,
    pub payload: SpecTypeExpr,
    pub parent: Option<SpecIdent>,
    pub subject: Option<Seq<char>>,
    pub span: Span,
}

pub struct SpecTypeDecl {
    pub name: SpecIdent,
    pub fields: Seq<SpecParam>,
    pub span: Span,
}

pub struct SpecModuleDecl {
    pub name: SpecIdent,
    pub items: Seq<SpecTopDecl>,
    pub span: Span,
}

pub struct SpecLocusDecl {
    pub name: SpecIdent,
    pub members: Seq<SpecLocusMember>,
    pub span: Span,
}

pub enum SpecTopDecl {
    Topic(SpecTopicDecl),
    Type(SpecTypeDecl),
    Fn(SpecFnDecl),
    Locus(SpecLocusDecl),
    Module(SpecModuleDecl),
}

pub enum SpecLocusMember {
    Field(SpecParam),
    Bus(SpecBusBlock),
    Bindings(SpecBindingsBlock),
    Lifecycle(SpecLifecycleDecl),
    Mode(SpecModeDecl),
    Fn(SpecFnDecl),
    Failure(SpecFailureDecl),
}

pub struct SpecBusBlock {
    pub members: Seq<SpecBusMember>,
    pub span: Span,
}

pub enum SpecBusMember {
    Subscribe { subject: SpecBusSubject, ty: Option<SpecTypeExpr>, handler: SpecIdent, span: Span },
    Publish { subject: SpecBusSubject, ty: Option<SpecTypeExpr>, span: Span },
}

pub enum SpecBusSubject {
    Topic(SpecIdent),
    Literal { subject: Seq<char>, span: Span },
}

pub struct SpecBindingsBlock {
    pub entries: Seq<SpecBindingEntry>,
    pub span: Span,
}

pub struct SpecBindingEntry {
    pub topic: SpecIdent,
    pub target: SpecIdent,
    pub span: Span,
}

pub struct SpecLifecycleDecl {
    pub name: SpecIdent,
    pub body: SpecBlock,
    pub span: Span,
}

pub struct SpecModeDecl {
    pub name: SpecIdent,
    pub body: SpecBlock,
    pub span: Span,
}

pub struct SpecFailureDecl {
    pub param: SpecIdent,
    pub body: SpecBlock,
    pub span: Span,
}

pub struct SpecProgram {
    pub items: Seq<SpecTopDecl>,
}

// ---------------------------------------------------------------
// Views of the leaf nodes.
// ---------------------------------------------------------------

impl View for Ident {
    type V = SpecIdent;

    open spec fn view(&self) -> SpecIdent {
        SpecIdent { name: self.name@, span: self.span }
    }
}

impl View for TypeExpr {
    type V = SpecTypeExpr;

    open spec fn view(&self) -> SpecTypeExpr {
        SpecTypeExpr { name: self.name@, span: self.span }
    }
}

pub open spec fn opt_type_view(t: Option<TypeExpr>) -> Option<SpecTypeExpr> {
    match t {
        Some(t) => Some(t@),
        None => None,
    }
}

impl View for Literal {
    type V = SpecLiteral;

    open spec fn view(&self) -> SpecLiteral {
        match self {
            Literal::Int(i) => SpecLiteral::Int(*i),
            Literal::Bool(b) => SpecLiteral::Bool(*b),
            Literal::String(s) => SpecLiteral::String(s@),
            Literal::Unit => SpecLiteral::Unit,
        }
    }
}

impl View for Param {
    type V = SpecParam;

    open spec fn view(&self) -> SpecParam {
        SpecParam { name: self.name@, ty: self.ty@ }
    }
}

pub open spec fn params_view(ps: Seq<Param>) -> Seq<SpecParam> {
    ps.map_values(|p: Param| p@)
}

// ---------------------------------------------------------------
// Views of statements and expressions.
// ---------------------------------------------------------------

pub open spec fn expr_view(e: Expr) -> SpecExpr
    decreases e,
{
    match e {
        Expr::Ident(i) => SpecExpr::Ident(i@),
        Expr::Literal(l, sp) => SpecExpr::Literal(l@, sp),
        Expr::KwSelf(sp) => SpecExpr::KwSelf(sp),
        Expr::Field { receiver, name, span } => SpecExpr::Field {
            receiver: Box::new(expr_view(*receiver)),
            name: name@,
            span,
        },
        Expr::Call { callee, args, span } => SpecExpr::Call {
            callee: Box::new(expr_view(*callee)),
            args: Seq::new(
                args@.len(),
                |k: int|
                    if 0 <= k < args@.len() {
                        expr_view(args@[k])
                    } else {
                        arbitrary()
                    },
            ),
            span,
        },
        Expr::Binary { op, lhs, rhs, span } => SpecExpr::Binary {
            op: op@,
            lhs: Box::new(expr_view(*lhs)),
            rhs: Box::new(expr_view(*rhs)),
            span,
        },
        Expr::Block(b) => SpecExpr::Block(block_view(b)),
        Expr::If(i) => SpecExpr::If(Box::new(if_view(*i))),
        Expr::Match(m) => SpecExpr::Match(Box::new(match_view(*m))),
    }
}

pub open spec fn block_view(b: Block) -> SpecBlock
    decreases b,
{
    SpecBlock {
        stmts: Seq::new(
            b.stmts@.len(),
            |k: int|
                if 0 <= k < b.stmts@.len() {
                    stmt_view(b.stmts@[k])
                } else {
                    arbitrary()
                },
        ),
        tail: match b.tail {
            Some(t) => Some(Box::new(expr_view(*t))),
            None => None,
        },
        span: b.span,
    }
}

pub open spec fn stmt_view(s: Stmt) -> SpecStmt
    decreases s,
{
    match s {
        Stmt::Let { name, value, span } => SpecStmt::Let { name: name@, value: expr_view(value), span },
        Stmt::Assign { target, value, span } => SpecStmt::Assign {
            target: expr_view(target),
            value: expr_view(value),
            span,
        },
        Stmt::Send { subject, value, span } => SpecStmt::Send {
            subject: expr_view(subject),
            value: expr_view(value),
            span,
        },
        Stmt::If(i) => SpecStmt::If(if_view(i)),
        Stmt::Match(m) => SpecStmt::Match(match_view(m)),
        Stmt::For { var, iter, body, span } => SpecStmt::For {
            var: var@,
            iter: expr_view(iter),
            body: block_view(body),
            span,
        },
        Stmt::While { cond, body, span } => SpecStmt::While {
            cond: expr_view(cond),
            body: block_view(body),
            span,
        },
        Stmt::Block(b) => SpecStmt::Block(block_view(b)),
        Stmt::Expr(e) => SpecStmt::Expr(expr_view(e)),
        Stmt::Return(e, sp) => SpecStmt::Return(
            match e {
                Some(x) => Some(expr_view(x)),
                None => None,
            },
            sp,
        ),
    }
}

pub open spec fn if_view(i: IfStmt) -> SpecIfStmt
    decreases i,
{
    SpecIfStmt {
        cond: expr_view(i.cond),
        then_block: block_view(i.then_block),
        else_block: match i.else_block {
            Some(eb) => Some(Box::new(else_view(*eb))),
            None => None,
        },
        span: i.span,
    }
}

pub open spec fn else_view(eb: ElseBranch) -> SpecElseBranch
    decreases eb,
{
    match eb {
        ElseBranch::Else(b) => SpecElseBranch::Else(block_view(b)),
        ElseBranch::ElseIf(i) => SpecElseBranch::ElseIf(if_view(i)),
    }
}

pub open spec fn match_view(m: MatchStmt) -> SpecMatchStmt
    decreases m,
{
    SpecMatchStmt {
        scrutinee: expr_view(m.scrutinee),
        arms: Seq::new(
            m.arms@.len(),
            |k: int|
                if 0 <= k < m.arms@.len() {
                    arm_view(m.arms@[k])
                } else {
                    arbitrary()
                },
        ),
        span: m.span,
    }
}

pub open spec fn arm_view(a: MatchArm) -> SpecMatchArm
    decreases a,
{
    SpecMatchArm {
        pattern: expr_view(a.pattern),
        body: match a.body {
            MatchArmBody::Block(b) => SpecMatchArmBody::Block(block_view(b)),
            MatchArmBody::Expr(e) => SpecMatchArmBody::Expr(expr_view(e)),
        },
        span: a.span,
    }
}

impl View for Expr {
    type V = SpecExpr;

    open spec fn view(&self) -> SpecExpr {
        expr_view(*self)
    }
}

impl View for Block {
    type V = SpecBlock;

    open spec fn view(&self) -> SpecBlock {
        block_view(*self)
    }
}

impl View for Stmt {
    type V = SpecStmt;

    open spec fn view(&self) -> SpecStmt {
        stmt_view(*self)
    }
}

impl View for IfStmt {
    type V = SpecIfStmt;

    open spec fn view(&self) -> SpecIfStmt {
        if_view(*self)
    }
}

impl View for ElseBranch {
    type V = SpecElseBranch;

    open spec fn view(&self) -> SpecElseBranch {
        else_view(*self)
    }
}

impl View for MatchStmt {
    type V = SpecMatchStmt;

    open spec fn view(&self) -> SpecMatchStmt {
        match_view(*self)
    }
}

impl View for MatchArm {
    type V = SpecMatchArm;

    open spec fn view(&self) -> SpecMatchArm {
        arm_view(*self)
    }
}

// ---------------------------------------------------------------
// Views of declarations.
// ---------------------------------------------------------------

impl View for FnDecl {
    type V = SpecFnDecl;

    open spec fn view(&self) -> SpecFnDecl {
        SpecFnDecl {
            name: self.name@,
            params: params_view(self.params@),
            ret: opt_type_view(self.ret),
            body: self.body@,
            span: self.span,
        }
    }
}

impl View for TopicDecl {
    type V = SpecTopicDecl;

    open spec fn view(&self) -> SpecTopicDecl {
        SpecTopicDecl {
            name: self.name@,
            payload: self.payload@,
            parent: match self.parent {
                Some(p) => Some(p@),
                None => None,
            },
            subject: match self.subject {
                Some(s) => Some(s@),
                None => None,
            },
            span: self.span,
        }
    }
}

impl View for TypeDecl {
    type V = SpecTypeDecl;

    open spec fn view(&self) -> SpecTypeDecl {
        SpecTypeDecl { name: self.name@, fields: params_view(self.fields@), span: self.span }
    }
}

impl View for BusSubject {
    type V = SpecBusSubject;

    open spec fn view(&self) -> SpecBusSubject {
        match self {
            BusSubject::Topic(i) => SpecBusSubject::Topic(i@),
            BusSubject::Literal { subject, span } => SpecBusSubject::Literal {
                subject: subject@,
                span: *span,
            },
        }
    }
}

impl View for BusMember {
    type V = SpecBusMember;

    open spec fn view(&self) -> SpecBusMember {
        match self {
            BusMember::Subscribe { subject, ty, handler, span } => SpecBusMember::Subscribe {
                subject: subject@,
                ty: opt_type_view(*ty),
                handler: handler@,
                span: *span,
            },
            BusMember::Publish { subject, ty, span } => SpecBusMember::Publish {
                subject: subject@,
                ty: opt_type_view(*ty),
                span: *span,
            },
        }
    }
}

impl View for BusBlock {
    type V = SpecBusBlock;

    open spec fn view(&self) -> SpecBusBlock {
        SpecBusBlock { members: self.members@.map_values(|m: BusMember| m@), span: self.span }
    }
}

impl View for BindingEntry {
    type V = SpecBindingEntry;

    open spec fn view(&self) -> SpecBindingEntry {
        SpecBindingEntry { topic: self.topic@, target: self.target@, span: self.span }
    }
}

impl View for BindingsBlock {
    type V = SpecBindingsBlock;

    open spec fn view(&self) -> SpecBindingsBlock {
        SpecBindingsBlock {
            entries: self.entries@.map_values(|e: BindingEntry| e@),
            span: self.span,
        }
    }
}

impl View for LifecycleDecl {
    type V = SpecLifecycleDecl;

    open spec fn view(&self) -> SpecLifecycleDecl {
        SpecLifecycleDecl { name: self.name@, body: self.body@, span: self.span }
    }
}

impl View for ModeDecl {
    type V = SpecModeDecl;

    open spec fn view(&self) -> SpecModeDecl {
        SpecModeDecl { name: self.name@, body: self.body@, span: self.span }
    }
}

impl View for FailureDecl {
    type V = SpecFailureDecl;

    open spec fn view(&self) -> SpecFailureDecl {
        SpecFailureDecl { param: self.param@, body: self.body@, span: self.span }
    }
}

impl View for LocusMember {
    type V = SpecLocusMember;

    open spec fn view(&self) -> SpecLocusMember {
        match self {
            LocusMember::Field(p) => SpecLocusMember::Field(p@),
            LocusMember::Bus(b) => SpecLocusMember::Bus(b@),
            LocusMember::Bindings(b) => SpecLocusMember::Bindings(b@),
            LocusMember::Lifecycle(l) => SpecLocusMember::Lifecycle(l@),
            LocusMember::Mode(m) => SpecLocusMember::Mode(m@),
            LocusMember::Fn(f) => SpecLocusMember::Fn(f@),
            LocusMember::Failure(f) => SpecLocusMember::Failure(f@),
        }
    }
}

impl View for LocusDecl {
    type V = SpecLocusDecl;

    open spec fn view(&self) -> SpecLocusDecl {
        SpecLocusDecl {
            name: self.name@,
            members: self.members@.map_values(|m: LocusMember| m@),
            span: self.span,
        }
    }
}

pub open spec fn top_view(d: TopDecl) -> SpecTopDecl
    decreases d,
{
    match d {
        TopDecl::Topic(t) => SpecTopDecl::Topic(t@),
        TopDecl::Type(t) => SpecTopDecl::Type(t@),
        TopDecl::Fn(f) => SpecTopDecl::Fn(f@),
        TopDecl::Locus(l) => SpecTopDecl::Locus(l@),
        TopDecl::Module(m) => SpecTopDecl::Module(module_view(m)),
    }
}

pub open spec fn module_view(m: ModuleDecl) -> SpecModuleDecl
    decreases m,
{
    SpecModuleDecl {
        name: m.name@,
        items: Seq::new(
            m.items@.len(),
            |k: int|
                if 0 <= k < m.items@.len() {
                    top_view(m.items@[k])
                } else {
                    arbitrary()
                },
        ),
        span: m.span,
    }
}

/// The view of a list of top-level declarations, element by element.
pub open spec fn items_view(items: Seq<TopDecl>) -> Seq<SpecTopDecl> {
    items.map_values(|d: TopDecl| top_view(d))
}

impl View for TopDecl {
    type V = SpecTopDecl;

    open spec fn view(&self) -> SpecTopDecl {
        top_view(*self)
    }
}

impl View for ModuleDecl {
    type V = SpecModuleDecl;

    open spec fn view(&self) -> SpecModuleDecl {
        module_view(*self)
    }
}

impl View for Program {
    type V = SpecProgram;

    open spec fn view(&self) -> SpecProgram {
        SpecProgram { items: items_view(self.items@) }
    }
}

} // verus!
