//! Topic-reference desugaring.
//!
//! After parsing, the tree carries `BusSubject::Topic(name)` and type-less
//! `Subscribe { ty: None }` / `Publish { ty: None }` for topic-ref forms
//! (`subscribe Foo as h;`), plus `Stmt::Send { subject: Expr::Ident("Foo"), .. }`
//! for topic-ref sends (`Foo <- expr`). Later stages work against literal
//! subjects; this pass rewrites the tree so they never see topics:
//!
//!   - `BusSubject::Topic(i)` becomes `BusSubject::Literal { subject:
//!     <wire_subject>, span: i.span }`, and a missing `ty` is filled with the
//!     topic's payload type. An unknown topic keeps its name as the literal.
//!   - `Stmt::Send { subject: Expr::Ident("Foo"), .. }` where `Foo` names a
//!     topic gets the subject `Expr::Literal(String(<wire_subject>), span)`.
use vstd::prelude::*;
use vstd::pervasive::arbitrary;
use crate::ast::{
    Block, BusMember, BusSubject, ElseBranch, Expr, IfStmt, Literal, LocusDecl, LocusMember,
    MatchArmBody, MatchStmt, Program, Span, Stmt, TopDecl, TypeExpr,
};
use crate::model::{
    arm_view, block_view, else_view, expr_view, if_view, items_view, match_view, module_view,
    opt_type_view, stmt_view, top_view, SpecBlock, SpecBusBlock, SpecBusMember, SpecBusSubject,
    SpecElseBranch, SpecExpr, SpecFailureDecl, SpecFnDecl, SpecIdent, SpecIfStmt, SpecLifecycleDecl,
    SpecLiteral, SpecLocusDecl, SpecLocusMember, SpecMatchArm, SpecMatchArmBody, SpecMatchStmt,
    SpecModeDecl, SpecModuleDecl, SpecProgram, SpecStmt, SpecTopDecl, SpecTypeExpr,
};
use crate::strmap::StrMap;
use crate::topic_table::{collect_topics, topic_table, TopicEntry, TopicMap};

verus! {

// ---------------------------------------------------------------
// What the pass computes.
// ---------------------------------------------------------------

/// A bus subject after desugaring, with the `ty` slot beside it.
pub open spec fn rw_subject_ty(
    subject: SpecBusSubject,
    ty: Option<SpecTypeExpr>,
    t: TopicMap,
) -> (SpecBusSubject, Option<SpecTypeExpr>) {
    match subject {
        SpecBusSubject::Topic(id) => if t.contains_key(id.name) {
            (
                SpecBusSubject::Literal { subject: t[id.name].wire_subject, span: id.span },
                match ty {
                    Some(x) => Some(x),
                    None => Some(t[id.name].payload),
                },
            )
        } else {
            (SpecBusSubject::Literal { subject: id.name, span: id.span }, ty)
        },
        _ => (subject, ty),
    }
}

pub open spec fn rw_bus_member(bm: SpecBusMember, t: TopicMap) -> SpecBusMember {
    match bm {
        SpecBusMember::Subscribe { subject, ty, handler, span } => {
            let (s, y) = rw_subject_ty(subject, ty, t);
            SpecBusMember::Subscribe { subject: s, ty: y, handler, span }
        },
        SpecBusMember::Publish { subject, ty, span } => {
            let (s, y) = rw_subject_ty(subject, ty, t);
            SpecBusMember::Publish { subject: s, ty: y, span }
        },
    }
}

/// The subject of a send after desugaring.
pub open spec fn rw_send_subject(subject: SpecExpr, t: TopicMap) -> SpecExpr {
    match subject {
        SpecExpr::Ident(id) => if t.contains_key(id.name) {
            SpecExpr::Literal(SpecLiteral::String(t[id.name].wire_subject), id.span)
        } else {
            subject
        },
        _ => subject,
    }
}

pub open spec fn rw_expr(e: SpecExpr, t: TopicMap) -> SpecExpr
    decreases e,
{
    match e {
        SpecExpr::Block(b) => SpecExpr::Block(rw_block(b, t)),
        SpecExpr::If(i) => SpecExpr::If(Box::new(rw_if(*i, t))),
        SpecExpr::Match(m) => SpecExpr::Match(Box::new(rw_match(*m, t))),
        _ => e,
    }
}

pub open spec fn rw_block(b: SpecBlock, t: TopicMap) -> SpecBlock
    decreases b,
{
    SpecBlock {
        stmts: Seq::new(
            b.stmts.len(),
            |k: int|
                if 0 <= k < b.stmts.len() {
                    rw_stmt(b.stmts[k], t)
                } else {
                    arbitrary()
                },
        ),
        tail: match b.tail {
            Some(x) => Some(Box::new(rw_expr(*x, t))),
            None => None,
        },
        span: b.span,
    }
}

pub open spec fn rw_stmt(s: SpecStmt, t: TopicMap) -> SpecStmt
    decreases s,
{
    match s {
        SpecStmt::Send { subject, value, span } => SpecStmt::Send {
            subject: rw_send_subject(subject, t),
            value,
            span,
        },
        SpecStmt::If(i) => SpecStmt::If(rw_if(i, t)),
        SpecStmt::Match(m) => SpecStmt::Match(rw_match(m, t)),
        SpecStmt::For { var, iter, body, span } => SpecStmt::For {
            var,
            iter,
            body: rw_block(body, t),
            span,
        },
        SpecStmt::While { cond, body, span } => SpecStmt::While { cond, body: rw_block(body, t), span },
        SpecStmt::Block(b) => SpecStmt::Block(rw_block(b, t)),
        SpecStmt::Expr(e) => SpecStmt::Expr(rw_expr(e, t)),
        _ => s,
    }
}

pub open spec fn rw_if(i: SpecIfStmt, t: TopicMap) -> SpecIfStmt
    decreases i,
{
    SpecIfStmt {
        cond: i.cond,
        then_block: rw_block(i.then_block, t),
        else_block: match i.else_block {
            Some(eb) => Some(Box::new(rw_else(*eb, t))),
            None => None,
        },
        span: i.span,
    }
}

pub open spec fn rw_else(eb: SpecElseBranch, t: TopicMap) -> SpecElseBranch
    decreases eb,
{
    match eb {
        SpecElseBranch::Else(b) => SpecElseBranch::Else(rw_block(b, t)),
        SpecElseBranch::ElseIf(i) => SpecElseBranch::ElseIf(rw_if(i, t)),
    }
}

pub open spec fn rw_match(m: SpecMatchStmt, t: TopicMap) -> SpecMatchStmt
    decreases m,
{
    SpecMatchStmt {
        scrutinee: m.scrutinee,
        arms: Seq::new(
            m.arms.len(),
            |k: int|
                if 0 <= k < m.arms.len() {
                    rw_arm(m.arms[k], t)
                } else {
                    arbitrary()
                },
        ),
        span: m.span,
    }
}

pub open spec fn rw_arm(a: SpecMatchArm, t: TopicMap) -> SpecMatchArm
    decreases a,
{
    SpecMatchArm {
        pattern: a.pattern,
        body: match a.body {
            SpecMatchArmBody::Block(b) => SpecMatchArmBody::Block(rw_block(b, t)),
            SpecMatchArmBody::Expr(e) => SpecMatchArmBody::Expr(rw_expr(e, t)),
        },
        span: a.span,
    }
}

pub open spec fn rw_fn(f: SpecFnDecl, t: TopicMap) -> SpecFnDecl {
    SpecFnDecl { name: f.name, params: f.params, ret: f.ret, body: rw_block(f.body, t), span: f.span }
}

/// Bus blocks get their topic references resolved; lifecycle, mode,
/// method and `on_failure` bodies get their sends rewritten; other members
/// are untouched.
pub open spec fn rw_member(m: SpecLocusMember, t: TopicMap) -> SpecLocusMember {
    match m {
        SpecLocusMember::Bus(bb) => SpecLocusMember::Bus(
            SpecBusBlock {
                members: bb.members.map_values(|x: SpecBusMember| rw_bus_member(x, t)),
                span: bb.span,
            },
        ),
        SpecLocusMember::Lifecycle(lc) => SpecLocusMember::Lifecycle(
            SpecLifecycleDecl { name: lc.name, body: rw_block(lc.body, t), span: lc.span },
        ),
        SpecLocusMember::Mode(md) => SpecLocusMember::Mode(
            SpecModeDecl { name: md.name, body: rw_block(md.body, t), span: md.span },
        ),
        SpecLocusMember::Fn(fd) => SpecLocusMember::Fn(rw_fn(fd, t)),
        SpecLocusMember::Failure(f) => SpecLocusMember::Failure(
            SpecFailureDecl { param: f.param, body: rw_block(f.body, t), span: f.span },
        ),
        _ => m,
    }
}

pub open spec fn rw_locus(l: SpecLocusDecl, t: TopicMap) -> SpecLocusDecl {
    SpecLocusDecl {
        name: l.name,
        members: l.members.map_values(|m: SpecLocusMember| rw_member(m, t)),
        span: l.span,
    }
}

pub open spec fn rw_items(items: Seq<SpecTopDecl>, t: TopicMap) -> Seq<SpecTopDecl>
    decreases items,
{
    Seq::new(
        items.len(),
        |k: int|
            if 0 <= k < items.len() {
                rw_item(items[k], t)
            } else {
                arbitrary()
            },
    )
}

pub open spec fn rw_item(d: SpecTopDecl, t: TopicMap) -> SpecTopDecl
    decreases d,
{
    match d {
        SpecTopDecl::Locus(l) => SpecTopDecl::Locus(rw_locus(l, t)),
        SpecTopDecl::Fn(f) => SpecTopDecl::Fn(rw_fn(f, t)),
        SpecTopDecl::Module(m) => SpecTopDecl::Module(
            SpecModuleDecl { name: m.name, items: rw_items(m.items, t), span: m.span },
        ),
        _ => d,
    }
}

/// The program after topic desugaring.
pub open spec fn spec_desugar_topics(p: SpecProgram) -> SpecProgram {
    SpecProgram { items: rw_items(p.items, topic_table(p.items)) }
}

// ---------------------------------------------------------------
// The pass.
// ---------------------------------------------------------------

/// Walk `program` and rewrite topic references into literal forms in
/// place. Runs after type checking and before code generation or
/// interpretation.
pub fn desugar_topics(program: &mut Program)
    ensures
        final(program)@ == spec_desugar_topics(old(program)@),
{
    let topics = collect_topics(&program.items);
    rewrite_items(&mut program.items, &topics);
}

fn rewrite_items(items: &mut Vec<TopDecl>, topics: &StrMap<TopicEntry>)
    ensures
        items_view(final(items)@) == rw_items(items_view(old(items)@), topics@),
    decreases *old(items),
{
    let ghost ov = old(items)@;
    let ghost ovec = *old(items);
    let n = items.len();
    let mut i: usize = 0;
    while i < n
        invariant
            items@.len() == n,
            ov.len() == n,
            ovec@ == ov,
            ovec == *old(items),
            i <= n,
            forall|j: int| 0 <= j < i ==> top_view(#[trigger] items@[j]) == rw_item(top_view(ov[j]), topics@),
            forall|j: int| i <= j < n ==> #[trigger] items@[j] == ov[j],
        decreases n - i,
    {
        match &mut items[i] {
            TopDecl::Locus(l) => rewrite_locus(l, topics),
            TopDecl::Fn(f) => rewrite_block(&mut f.body, topics),
            TopDecl::Module(m) => {
                proof {
                    assert(decreases_to!(ovec => ovec@));
                    assert(decreases_to!(ovec@ => ovec@[i as int]));
                    assert(decreases_to!(ovec@[i as int] => ovec@[i as int]->Module_0));
                    assert(decreases_to!(ovec@[i as int]->Module_0 => ovec@[i as int]->Module_0.items));
                }
                let ghost om = *m;
                rewrite_items(&mut m.items, topics);
                proof {
                    assert(module_view(*m).items =~= items_view(m.items@));
                    assert(module_view(om).items =~= items_view(om.items@));
                }
            },
            _ => {},
        }
        i = i + 1;
    }
    proof {
        assert(items_view(items@) =~= rw_items(items_view(ov), topics@));
    }
}

fn rewrite_locus(l: &mut LocusDecl, topics: &StrMap<TopicEntry>)
    ensures
        final(l)@ == rw_locus(old(l)@, topics@),
{
    let ghost ov = l.members@;
    let n = l.members.len();
    let mut i: usize = 0;
    while i < n
        invariant
            l.members@.len() == n,
            ov.len() == n,
            l.name == old(l).name,
            l.span == old(l).span,
            ov == old(l).members@,
            i <= n,
            forall|j: int| 0 <= j < i ==> (#[trigger] l.members@[j])@ == rw_member(ov[j]@, topics@),
            forall|j: int| i <= j < n ==> #[trigger] l.members@[j] == ov[j],
        decreases n - i,
    {
        match &mut l.members[i] {
            LocusMember::Bus(bb) => {
                let ghost obb = *bb;
                let ghost obv = bb.members@;
                let m = bb.members.len();
                let mut k: usize = 0;
                while k < m
                    invariant
                        bb.members@.len() == m,
                        obv.len() == m,
                        k <= m,
                        bb.span == obb.span,
                        obv == obb.members@,
                        forall|j: int| 0 <= j < k ==> (#[trigger] bb.members@[j])@ == rw_bus_member(obv[j]@, topics@),
                        forall|j: int| k <= j < m ==> #[trigger] bb.members@[j] == obv[j],
                    decreases m - k,
                {
                    rewrite_bus_member(&mut bb.members[k], topics);
                    k = k + 1;
                }
                proof {
                    assert(bb.members@.map_values(|x: BusMember| x@) =~= obv.map_values(|x: BusMember| x@).map_values(
                        |x: SpecBusMember| rw_bus_member(x, topics@),
                    ));
                }
            },
            LocusMember::Lifecycle(lc) => rewrite_block(&mut lc.body, topics),
            LocusMember::Mode(md) => rewrite_block(&mut md.body, topics),
            LocusMember::Fn(fd) => rewrite_block(&mut fd.body, topics),
            LocusMember::Failure(f) => rewrite_block(&mut f.body, topics),
            _ => {},
        }
        i = i + 1;
    }
    proof {
        assert(l.members@.map_values(|m: LocusMember| m@) =~= ov.map_values(|m: LocusMember| m@).map_values(
            |m: SpecLocusMember| rw_member(m, topics@),
        ));
    }
}

/// Resolves a topic reference in a bus member's subject and fills its
/// `ty` slot from the topic's payload when the slot is empty.
fn rewrite_topic_ref(subject: &mut BusSubject, ty: &mut Option<TypeExpr>, topics: &StrMap<TopicEntry>)
    ensures
        (final(subject)@, opt_type_view(*final(ty))) == rw_subject_ty(
            old(subject)@,
            opt_type_view(*old(ty)),
            topics@,
        ),
{
    let (name, span) = match subject {
        BusSubject::Topic(ident) => (ident.name.clone(), ident.span),
        _ => {
            return ;
        },
    };
    match topics.get(&name) {
        Some(entry) => {
            if ty.is_none() {
                *ty = Some(entry.payload.duplicate());
            }
            *subject = BusSubject::Literal { subject: entry.wire_subject.clone(), span };
        },
        None => {
            // An unresolved topic reference keeps its name, so that a later
            // "unknown subject" error has something to cite.
            *subject = BusSubject::Literal { subject: name, span };
        },
    }
}

fn rewrite_bus_member(bm: &mut BusMember, topics: &StrMap<TopicEntry>)
    ensures
        final(bm)@ == rw_bus_member(old(bm)@, topics@),
{
    match bm {
        BusMember::Subscribe { subject, ty, .. } => rewrite_topic_ref(subject, ty, topics),
        BusMember::Publish { subject, ty, .. } => rewrite_topic_ref(subject, ty, topics),
    }
}

fn rewrite_block(b: &mut Block, topics: &StrMap<TopicEntry>)
    ensures
        block_view(*final(b)) == rw_block(block_view(*old(b)), topics@),
    decreases *old(b),
{
    let ghost ob = *b;
    let ghost ov = b.stmts@;
    let n = b.stmts.len();
    let mut i: usize = 0;
    while i < n
        invariant
            b.stmts@.len() == n,
            ov.len() == n,
            ob == *old(b),
            ov == ob.stmts@,
            b.tail == ob.tail,
            b.span == ob.span,
            i <= n,
            forall|j: int| 0 <= j < i ==> stmt_view(#[trigger] b.stmts@[j]) == rw_stmt(stmt_view(ov[j]), topics@),
            forall|j: int| i <= j < n ==> #[trigger] b.stmts@[j] == ov[j],
        decreases n - i,
    {
        proof {
            assert(decreases_to!(ob => ob.stmts));
            assert(decreases_to!(ob.stmts => ob.stmts@));
            assert(decreases_to!(ob.stmts@ => ob.stmts@[i as int]));
        }
        rewrite_stmt(&mut b.stmts[i], topics);
        i = i + 1;
    }
    if let Some(tail) = &mut b.tail {
        rewrite_expr(tail, topics);
    }
    proof {
        assert(block_view(*b).stmts =~= rw_block(block_view(ob), topics@).stmts);
    }
}

fn rewrite_stmt(s: &mut Stmt, topics: &StrMap<TopicEntry>)
    ensures
        stmt_view(*final(s)) == rw_stmt(stmt_view(*old(s)), topics@),
    decreases *old(s),
{
    match s {
        Stmt::Send { subject, .. } => {
            // `Foo <- value` becomes `"<wire_subject>" <- value` when `Foo`
            // is a declared topic.
            let found = match subject {
                Expr::Ident(id) => match topics.get(&id.name) {
                    Some(entry) => Some((entry.wire_subject.clone(), id.span)),
                    None => None,
                },
                _ => None,
            };
            if let Some((wire, span)) = found {
                *subject = Expr::Literal(Literal::String(wire), span);
            }
        },
        Stmt::If(if_stmt) => rewrite_if(if_stmt, topics),
        Stmt::Match(m) => rewrite_match(m, topics),
        Stmt::For { body, .. } => rewrite_block(body, topics),
        Stmt::While { body, .. } => rewrite_block(body, topics),
        Stmt::Block(b) => rewrite_block(b, topics),
        Stmt::Expr(e) => rewrite_expr(e, topics),
        _ => {},
    }
}

fn rewrite_if(if_stmt: &mut IfStmt, topics: &StrMap<TopicEntry>)
    ensures
        if_view(*final(if_stmt)) == rw_if(if_view(*old(if_stmt)), topics@),
    decreases *old(if_stmt),
{
    rewrite_block(&mut if_stmt.then_block, topics);
    if let Some(else_branch) = &mut if_stmt.else_block {
        rewrite_else_branch(else_branch, topics);
    }
}

fn rewrite_else_branch(eb: &mut ElseBranch, topics: &StrMap<TopicEntry>)
    ensures
        else_view(*final(eb)) == rw_else(else_view(*old(eb)), topics@),
    decreases *old(eb),
{
    match eb {
        ElseBranch::Else(b) => rewrite_block(b, topics),
        ElseBranch::ElseIf(if_stmt) => rewrite_if(if_stmt, topics),
    }
}

fn rewrite_match(m: &mut MatchStmt, topics: &StrMap<TopicEntry>)
    ensures
        match_view(*final(m)) == rw_match(match_view(*old(m)), topics@),
    decreases *old(m),
{
    let ghost om = *m;
    let ghost ov = m.arms@;
    let n = m.arms.len();
    let mut i: usize = 0;
    while i < n
        invariant
            m.arms@.len() == n,
            ov.len() == n,
            om == *old(m),
            ov == om.arms@,
            m.scrutinee == om.scrutinee,
            m.span == om.span,
            i <= n,
            forall|j: int| 0 <= j < i ==> arm_view(#[trigger] m.arms@[j]) == rw_arm(arm_view(ov[j]), topics@),
            forall|j: int| i <= j < n ==> #[trigger] m.arms@[j] == ov[j],
        decreases n - i,
    {
        proof {
            assert(decreases_to!(om => om.arms));
            assert(decreases_to!(om.arms => om.arms@));
            assert(decreases_to!(om.arms@ => om.arms@[i as int]));
            assert(decreases_to!(om.arms@[i as int] => om.arms@[i as int].body));
        }
        let arm = &mut m.arms[i];
        match &mut arm.body {
            MatchArmBody::Block(b) => rewrite_block(b, topics),
            MatchArmBody::Expr(e) => rewrite_expr(e, topics),
        }
        i = i + 1;
    }
    proof {
        assert(match_view(*m).arms =~= rw_match(match_view(om), topics@).arms);
    }
}

fn rewrite_expr(e: &mut Expr, topics: &StrMap<TopicEntry>)
    ensures
        expr_view(*final(e)) == rw_expr(expr_view(*old(e)), topics@),
    decreases *old(e),
{
    match e {
        Expr::Block(b) => rewrite_block(b, topics),
        Expr::If(if_stmt) => rewrite_if(if_stmt, topics),
        Expr::Match(m) => rewrite_match(m, topics),
        _ => {},
    }
}

// ---------------------------------------------------------------
// Laws.
// ---------------------------------------------------------------

proof fn lemma_rw_expr_idem(e: SpecExpr, t: TopicMap)
    ensures
        rw_expr(rw_expr(e, t), t) == rw_expr(e, t),
    decreases e,
{
    match e {
        SpecExpr::Block(b) => lemma_rw_block_idem(b, t),
        SpecExpr::If(i) => lemma_rw_if_idem(*i, t),
        SpecExpr::Match(m) => lemma_rw_match_idem(*m, t),
        _ => {},
    }
}

proof fn lemma_rw_block_idem(b: SpecBlock, t: TopicMap)
    ensures
        rw_block(rw_block(b, t), t) == rw_block(b, t),
    decreases b,
{
    let once = rw_block(b, t);
    assert forall|k: int| 0 <= k < b.stmts.len() implies rw_stmt(#[trigger] once.stmts[k], t)
        == once.stmts[k] by {
        lemma_rw_stmt_idem(b.stmts[k], t);
    }
    assert(rw_block(once, t).stmts =~= once.stmts);
    if let Some(x) = b.tail {
        lemma_rw_expr_idem(*x, t);
    }
}

proof fn lemma_rw_stmt_idem(s: SpecStmt, t: TopicMap)
    ensures
        rw_stmt(rw_stmt(s, t), t) == rw_stmt(s, t),
    decreases s,
{
    match s {
        SpecStmt::If(i) => lemma_rw_if_idem(i, t),
        SpecStmt::Match(m) => lemma_rw_match_idem(m, t),
        SpecStmt::For { body, .. } => lemma_rw_block_idem(body, t),
        SpecStmt::While { body, .. } => lemma_rw_block_idem(body, t),
        SpecStmt::Block(b) => lemma_rw_block_idem(b, t),
        SpecStmt::Expr(e) => lemma_rw_expr_idem(e, t),
        _ => {},
    }
}

proof fn lemma_rw_if_idem(i: SpecIfStmt, t: TopicMap)
    ensures
        rw_if(rw_if(i, t), t) == rw_if(i, t),
    decreases i,
{
    lemma_rw_block_idem(i.then_block, t);
    if let Some(eb) = i.else_block {
        lemma_rw_else_idem(*eb, t);
    }
}

proof fn lemma_rw_else_idem(eb: SpecElseBranch, t: TopicMap)
    ensures
        rw_else(rw_else(eb, t), t) == rw_else(eb, t),
    decreases eb,
{
    match eb {
        SpecElseBranch::Else(b) => lemma_rw_block_idem(b, t),
        SpecElseBranch::ElseIf(i) => lemma_rw_if_idem(i, t),
    }
}

proof fn lemma_rw_match_idem(m: SpecMatchStmt, t: TopicMap)
    ensures
        rw_match(rw_match(m, t), t) == rw_match(m, t),
    decreases m,
{
    let once = rw_match(m, t);
    assert forall|k: int| 0 <= k < m.arms.len() implies rw_arm(#[trigger] once.arms[k], t)
        == once.arms[k] by {
        let a = m.arms[k];
        match a.body {
            SpecMatchArmBody::Block(b) => lemma_rw_block_idem(b, t),
            SpecMatchArmBody::Expr(e) => lemma_rw_expr_idem(e, t),
        }
    }
    assert(rw_match(once, t).arms =~= once.arms);
}

proof fn lemma_rw_member_idem(m: SpecLocusMember, t: TopicMap)
    ensures
        rw_member(rw_member(m, t), t) == rw_member(m, t),
{
    match m {
        SpecLocusMember::Bus(bb) => {
            let once = bb.members.map_values(|x: SpecBusMember| rw_bus_member(x, t));
            assert(once.map_values(|x: SpecBusMember| rw_bus_member(x, t)) =~= once);
        },
        SpecLocusMember::Lifecycle(lc) => lemma_rw_block_idem(lc.body, t),
        SpecLocusMember::Mode(md) => lemma_rw_block_idem(md.body, t),
        SpecLocusMember::Fn(fd) => lemma_rw_block_idem(fd.body, t),
        SpecLocusMember::Failure(f) => lemma_rw_block_idem(f.body, t),
        _ => {},
    }
}

proof fn lemma_rw_items_idem(items: Seq<SpecTopDecl>, t: TopicMap)
    ensures
        rw_items(rw_items(items, t), t) == rw_items(items, t),
    decreases items,
{
    let once = rw_items(items, t);
    assert forall|k: int| 0 <= k < items.len() implies rw_item(#[trigger] once[k], t) == once[k] by {
        lemma_rw_item_idem(items[k], t);
    }
    assert(rw_items(once, t) =~= once);
}

proof fn lemma_rw_item_idem(d: SpecTopDecl, t: TopicMap)
    ensures
        rw_item(rw_item(d, t), t) == rw_item(d, t),
    decreases d,
{
    match d {
        SpecTopDecl::Locus(l) => {
            let once = l.members.map_values(|m: SpecLocusMember| rw_member(m, t));
            assert forall|k: int| 0 <= k < once.len() implies rw_member(#[trigger] once[k], t)
                == once[k] by {
                lemma_rw_member_idem(l.members[k], t);
            }
            assert(once.map_values(|m: SpecLocusMember| rw_member(m, t)) =~= once);
        },
        SpecTopDecl::Fn(f) => lemma_rw_block_idem(f.body, t),
        SpecTopDecl::Module(m) => lemma_rw_items_idem(m.items, t),
        _ => {},
    }
}

proof fn lemma_gather_rw_items(items: Seq<SpecTopDecl>, t: TopicMap, acc: crate::topic_table::RawMap)
    ensures
        crate::topic_table::gather_items(rw_items(items, t), acc) == crate::topic_table::gather_items(items, acc),
    decreases items,
{
    if items.len() > 0 {
        let r = rw_items(items, t);
        assert(r.drop_last() =~= rw_items(items.drop_last(), t));
        lemma_gather_rw_items(items.drop_last(), t, acc);
        lemma_gather_rw_item(
            items[items.len() - 1],
            t,
            crate::topic_table::gather_items(items.drop_last(), acc),
        );
    }
}

proof fn lemma_gather_rw_item(d: SpecTopDecl, t: TopicMap, acc: crate::topic_table::RawMap)
    ensures
        crate::topic_table::gather_item(rw_item(d, t), acc) == crate::topic_table::gather_item(d, acc),
    decreases d,
{
    if let SpecTopDecl::Module(m) = d {
        lemma_gather_rw_items(m.items, t, acc);
    }
}

/// Topic desugaring leaves topic declarations alone: the rewritten program
/// declares the same topics, with the same payloads and wire subjects.
pub proof fn law_desugar_topics_keeps_topic_table(p: SpecProgram)
    ensures
        topic_table(spec_desugar_topics(p).items) == topic_table(p.items),
{
    lemma_gather_rw_items(p.items, topic_table(p.items), Map::empty());
    assert(topic_table(spec_desugar_topics(p).items) =~= topic_table(p.items));
}

/// Topic desugaring is idempotent: running it on its own output changes
/// nothing.
pub proof fn law_desugar_topics_idempotent(p: SpecProgram)
    ensures
        spec_desugar_topics(spec_desugar_topics(p)) == spec_desugar_topics(p),
{
    law_desugar_topics_keeps_topic_table(p);
    lemma_rw_items_idem(p.items, topic_table(p.items));
}

/// No bus member of locus `l` refers to a topic by name.
pub open spec fn locus_bus_subjects_literal(l: SpecLocusDecl) -> bool {
    forall|i: int, j: int|
        0 <= i < l.members.len() && l.members[i] is Bus && 0 <= j < l.members[i]->Bus_0.members.len()
            ==> match #[trigger] l.members[i]->Bus_0.members[j] {
            SpecBusMember::Subscribe { subject, .. } => subject is Literal,
            SpecBusMember::Publish { subject, .. } => subject is Literal,
        }
}

pub open spec fn item_bus_subjects_literal(d: SpecTopDecl) -> bool
    decreases d,
{
    match d {
        SpecTopDecl::Locus(l) => locus_bus_subjects_literal(l),
        SpecTopDecl::Module(m) => bus_subjects_literal(m.items),
        _ => true,
    }
}

/// No bus member of any locus (at top level or in a module) refers to a
/// topic by name.
pub open spec fn bus_subjects_literal(items: Seq<SpecTopDecl>) -> bool
    decreases items,
{
    if items.len() == 0 {
        true
    } else {
        bus_subjects_literal(items.drop_last()) && item_bus_subjects_literal(items[items.len() - 1])
    }
}

proof fn lemma_rw_items_literal(items: Seq<SpecTopDecl>, t: TopicMap)
    ensures
        bus_subjects_literal(rw_items(items, t)),
    decreases items,
{
    if items.len() > 0 {
        let r = rw_items(items, t);
        assert(r.drop_last() =~= rw_items(items.drop_last(), t));
        lemma_rw_items_literal(items.drop_last(), t);
        lemma_rw_item_literal(items[items.len() - 1], t);
    }
}

proof fn lemma_rw_item_literal(d: SpecTopDecl, t: TopicMap)
    ensures
        item_bus_subjects_literal(rw_item(d, t)),
    decreases d,
{
    match d {
        SpecTopDecl::Module(m) => lemma_rw_items_literal(m.items, t),
        SpecTopDecl::Locus(l) => {
            let rl = rw_locus(l, t);
            assert forall|i: int, j: int|
                0 <= i < rl.members.len() && rl.members[i] is Bus && 0 <= j
                    < rl.members[i]->Bus_0.members.len() implies match #[trigger] rl.members[i]->Bus_0.members[j] {
                    SpecBusMember::Subscribe { subject, .. } => subject is Literal,
                    SpecBusMember::Publish { subject, .. } => subject is Literal,
                } by {
                assert(rl.members[i] == rw_member(l.members[i], t));
            }
        },
        _ => {},
    }
}

/// After topic desugaring, every subject in every locus's bus block is a
/// literal subject: later stages never see a topic reference there.
pub proof fn law_desugar_topics_leaves_literal_subjects(p: SpecProgram)
    ensures
        bus_subjects_literal(spec_desugar_topics(p).items),
{
    lemma_rw_items_literal(p.items, topic_table(p.items));
}

/// A send subject that does not name a declared topic.
pub open spec fn send_subject_resolved(subject: SpecExpr, t: TopicMap) -> bool {
    !(subject is Ident && t.contains_key(subject->Ident_0.name))
}

pub open spec fn resolved_by(t: TopicMap) -> spec_fn(SpecExpr) -> bool {
    |subject: SpecExpr| send_subject_resolved(subject, t)
}

// Every send reachable from a node through blocks, branches, arms and loop
// bodies has a subject satisfying `ok`.

pub open spec fn expr_sends_ok(e: SpecExpr, ok: spec_fn(SpecExpr) -> bool) -> bool
    decreases e,
{
    match e {
        SpecExpr::Block(b) => block_sends_ok(b, ok),
        SpecExpr::If(i) => if_sends_ok(*i, ok),
        SpecExpr::Match(m) => match_sends_ok(*m, ok),
        _ => true,
    }
}

pub open spec fn block_sends_ok(b: SpecBlock, ok: spec_fn(SpecExpr) -> bool) -> bool
    decreases b,
{
    &&& stmts_sends_ok(b.stmts, ok)
    &&& match b.tail {
        Some(x) => expr_sends_ok(*x, ok),
        None => true,
    }
}

pub open spec fn stmts_sends_ok(ss: Seq<SpecStmt>, ok: spec_fn(SpecExpr) -> bool) -> bool
    decreases ss,
{
    if ss.len() == 0 {
        true
    } else {
        stmts_sends_ok(ss.drop_last(), ok) && stmt_sends_ok(ss[ss.len() - 1], ok)
    }
}

pub open spec fn stmt_sends_ok(s: SpecStmt, ok: spec_fn(SpecExpr) -> bool) -> bool
    decreases s,
{
    match s {
        SpecStmt::Send { subject, .. } => ok(subject),
        SpecStmt::If(i) => if_sends_ok(i, ok),
        SpecStmt::Match(m) => match_sends_ok(m, ok),
        SpecStmt::For { body, .. } => block_sends_ok(body, ok),
        SpecStmt::While { body, .. } => block_sends_ok(body, ok),
        SpecStmt::Block(b) => block_sends_ok(b, ok),
        SpecStmt::Expr(e) => expr_sends_ok(e, ok),
        _ => true,
    }
}

pub open spec fn if_sends_ok(i: SpecIfStmt, ok: spec_fn(SpecExpr) -> bool) -> bool
    decreases i,
{
    &&& block_sends_ok(i.then_block, ok)
    &&& match i.else_block {
        Some(eb) => else_sends_ok(*eb, ok),
        None => true,
    }
}

pub open spec fn else_sends_ok(eb: SpecElseBranch, ok: spec_fn(SpecExpr) -> bool) -> bool
    decreases eb,
{
    match eb {
        SpecElseBranch::Else(b) => block_sends_ok(b, ok),
        SpecElseBranch::ElseIf(i) => if_sends_ok(i, ok),
    }
}

pub open spec fn match_sends_ok(m: SpecMatchStmt, ok: spec_fn(SpecExpr) -> bool) -> bool
    decreases m,
{
    arms_sends_ok(m.arms, ok)
}

pub open spec fn arms_sends_ok(arms: Seq<SpecMatchArm>, ok: spec_fn(SpecExpr) -> bool) -> bool
    decreases arms,
{
    if arms.len() == 0 {
        true
    } else {
        arms_sends_ok(arms.drop_last(), ok) && match arms[arms.len() - 1].body {
            SpecMatchArmBody::Block(b) => block_sends_ok(b, ok),
            SpecMatchArmBody::Expr(e) => expr_sends_ok(e, ok),
        }
    }
}

pub open spec fn member_sends_resolved(m: SpecLocusMember, t: TopicMap) -> bool {
    match m {
        SpecLocusMember::Lifecycle(lc) => block_sends_ok(lc.body, resolved_by(t)),
        SpecLocusMember::Mode(md) => block_sends_ok(md.body, resolved_by(t)),
        SpecLocusMember::Fn(fd) => block_sends_ok(fd.body, resolved_by(t)),
        SpecLocusMember::Failure(f) => block_sends_ok(f.body, resolved_by(t)),
        _ => true,
    }
}

pub open spec fn item_sends_resolved(d: SpecTopDecl, t: TopicMap) -> bool
    decreases d,
{
    match d {
        SpecTopDecl::Locus(l) => forall|k: int|
            0 <= k < l.members.len() ==> #[trigger] member_sends_resolved(l.members[k], t),
        SpecTopDecl::Fn(f) => block_sends_ok(f.body, resolved_by(t)),
        SpecTopDecl::Module(m) => items_sends_resolved(m.items, t),
        _ => true,
    }
}

/// No send in a body that topic desugaring walks (top-level functions, and
/// the lifecycle, mode, method and `on_failure` bodies of loci, through
/// modules) has a subject that names a topic of `t`.
pub open spec fn items_sends_resolved(items: Seq<SpecTopDecl>, t: TopicMap) -> bool
    decreases items,
{
    if items.len() == 0 {
        true
    } else {
        items_sends_resolved(items.drop_last(), t) && item_sends_resolved(items[items.len() - 1], t)
    }
}

proof fn lemma_rw_expr_resolved(e: SpecExpr, t: TopicMap)
    ensures
        expr_sends_ok(rw_expr(e, t), resolved_by(t)),
    decreases e,
{
    match e {
        SpecExpr::Block(b) => lemma_rw_block_resolved(b, t),
        SpecExpr::If(i) => lemma_rw_if_resolved(*i, t),
        SpecExpr::Match(m) => lemma_rw_match_resolved(*m, t),
        _ => {},
    }
}

proof fn lemma_rw_stmts_resolved(ss: Seq<SpecStmt>, t: TopicMap)
    ensures
        stmts_sends_ok(
            Seq::new(
                ss.len(),
                |k: int|
                    if 0 <= k < ss.len() {
                        rw_stmt(ss[k], t)
                    } else {
                        arbitrary()
                    },
            ),
            resolved_by(t),
        ),
    decreases ss,
{
    let r = Seq::new(
        ss.len(),
        |k: int|
            if 0 <= k < ss.len() {
                rw_stmt(ss[k], t)
            } else {
                arbitrary()
            },
    );
    if ss.len() > 0 {
        let d = ss.drop_last();
        assert(r.drop_last() =~= Seq::new(
            d.len(),
            |k: int|
                if 0 <= k < d.len() {
                    rw_stmt(d[k], t)
                } else {
                    arbitrary()
                },
        ));
        lemma_rw_stmts_resolved(d, t);
        lemma_rw_stmt_resolved(ss[ss.len() - 1], t);
    }
}

proof fn lemma_rw_block_resolved(b: SpecBlock, t: TopicMap)
    ensures
        block_sends_ok(rw_block(b, t), resolved_by(t)),
    decreases b,
{
    lemma_rw_stmts_resolved(b.stmts, t);
    assert(rw_block(b, t).stmts =~= Seq::new(
        b.stmts.len(),
        |k: int|
            if 0 <= k < b.stmts.len() {
                rw_stmt(b.stmts[k], t)
            } else {
                arbitrary()
            },
    ));
    if let Some(x) = b.tail {
        lemma_rw_expr_resolved(*x, t);
    }
}

proof fn lemma_rw_stmt_resolved(s: SpecStmt, t: TopicMap)
    ensures
        stmt_sends_ok(rw_stmt(s, t), resolved_by(t)),
    decreases s,
{
    match s {
        SpecStmt::If(i) => lemma_rw_if_resolved(i, t),
        SpecStmt::Match(m) => lemma_rw_match_resolved(m, t),
        SpecStmt::For { body, .. } => lemma_rw_block_resolved(body, t),
        SpecStmt::While { body, .. } => lemma_rw_block_resolved(body, t),
        SpecStmt::Block(b) => lemma_rw_block_resolved(b, t),
        SpecStmt::Expr(e) => lemma_rw_expr_resolved(e, t),
        _ => {},
    }
}

proof fn lemma_rw_if_resolved(i: SpecIfStmt, t: TopicMap)
    ensures
        if_sends_ok(rw_if(i, t), resolved_by(t)),
    decreases i,
{
    lemma_rw_block_resolved(i.then_block, t);
    if let Some(eb) = i.else_block {
        lemma_rw_else_resolved(*eb, t);
    }
}

proof fn lemma_rw_else_resolved(eb: SpecElseBranch, t: TopicMap)
    ensures
        else_sends_ok(rw_else(eb, t), resolved_by(t)),
    decreases eb,
{
    match eb {
        SpecElseBranch::Else(b) => lemma_rw_block_resolved(b, t),
        SpecElseBranch::ElseIf(i) => lemma_rw_if_resolved(i, t),
    }
}

proof fn lemma_rw_arms_resolved(arms: Seq<SpecMatchArm>, t: TopicMap)
    ensures
        arms_sends_ok(
            Seq::new(
                arms.len(),
                |k: int|
                    if 0 <= k < arms.len() {
                        rw_arm(arms[k], t)
                    } else {
                        arbitrary()
                    },
            ),
            resolved_by(t),
        ),
    decreases arms,
{
    let r = Seq::new(
        arms.len(),
        |k: int|
            if 0 <= k < arms.len() {
                rw_arm(arms[k], t)
            } else {
                arbitrary()
            },
    );
    if arms.len() > 0 {
        let d = arms.drop_last();
        assert(r.drop_last() =~= Seq::new(
            d.len(),
            |k: int|
                if 0 <= k < d.len() {
                    rw_arm(d[k], t)
                } else {
                    arbitrary()
                },
        ));
        lemma_rw_arms_resolved(d, t);
        let a = arms[arms.len() - 1];
        match a.body {
            SpecMatchArmBody::Block(b) => lemma_rw_block_resolved(b, t),
            SpecMatchArmBody::Expr(e) => lemma_rw_expr_resolved(e, t),
        }
    }
}

proof fn lemma_rw_match_resolved(m: SpecMatchStmt, t: TopicMap)
    ensures
        match_sends_ok(rw_match(m, t), resolved_by(t)),
    decreases m,
{
    lemma_rw_arms_resolved(m.arms, t);
    assert(rw_match(m, t).arms =~= Seq::new(
        m.arms.len(),
        |k: int|
            if 0 <= k < m.arms.len() {
                rw_arm(m.arms[k], t)
            } else {
                arbitrary()
            },
    ));
}

proof fn lemma_rw_items_resolved(items: Seq<SpecTopDecl>, t: TopicMap)
    ensures
        items_sends_resolved(rw_items(items, t), t),
    decreases items,
{
    if items.len() > 0 {
        let r = rw_items(items, t);
        assert(r.drop_last() =~= rw_items(items.drop_last(), t));
        lemma_rw_items_resolved(items.drop_last(), t);
        lemma_rw_item_resolved(items[items.len() - 1], t);
    }
}

proof fn lemma_rw_item_resolved(d: SpecTopDecl, t: TopicMap)
    ensures
        item_sends_resolved(rw_item(d, t), t),
    decreases d,
{
    match d {
        SpecTopDecl::Module(m) => lemma_rw_items_resolved(m.items, t),
        SpecTopDecl::Fn(f) => lemma_rw_block_resolved(f.body, t),
        SpecTopDecl::Locus(l) => {
            let rl = rw_locus(l, t);
            assert forall|k: int| 0 <= k < rl.members.len() implies #[trigger] member_sends_resolved(
                rl.members[k],
                t,
            ) by {
                match l.members[k] {
                    SpecLocusMember::Lifecycle(lc) => lemma_rw_block_resolved(lc.body, t),
                    SpecLocusMember::Mode(md) => lemma_rw_block_resolved(md.body, t),
                    SpecLocusMember::Fn(fd) => lemma_rw_block_resolved(fd.body, t),
                    SpecLocusMember::Failure(f) => lemma_rw_block_resolved(f.body, t),
                    _ => {},
                }
            }
        },
        _ => {},
    }
}

/// After topic desugaring, no send in a body the pass walks names a topic
/// of the resulting program: those sends carry literal subjects.
pub proof fn law_desugar_topics_resolves_sends(p: SpecProgram)
    ensures
        items_sends_resolved(
            spec_desugar_topics(p).items,
            topic_table(spec_desugar_topics(p).items),
        ),
{
    law_desugar_topics_keeps_topic_table(p);
    lemma_rw_items_resolved(p.items, topic_table(p.items));
}

/// A subscribe, a publish and a send that name a declared topic all come
/// out with that topic's wire subject as a literal, at the reference's
/// span; a bus entry without a type takes the topic's payload type.
pub proof fn law_topic_references_become_wire_subjects(
    id: SpecIdent,
    ty: Option<SpecTypeExpr>,
    handler: SpecIdent,
    span: Span,
    t: TopicMap,
)
    requires
        t.contains_key(id.name),
    ensures
        ({
            let lit = SpecBusSubject::Literal { subject: t[id.name].wire_subject, span: id.span };
            let filled = if ty is None {
                Some(t[id.name].payload)
            } else {
                ty
            };
            &&& rw_bus_member(
                SpecBusMember::Subscribe { subject: SpecBusSubject::Topic(id), ty, handler, span },
                t,
            ) == SpecBusMember::Subscribe { subject: lit, ty: filled, handler, span }
            &&& rw_bus_member(SpecBusMember::Publish { subject: SpecBusSubject::Topic(id), ty, span }, t)
                == SpecBusMember::Publish { subject: lit, ty: filled, span }
            &&& rw_send_subject(SpecExpr::Ident(id), t) == SpecExpr::Literal(
                SpecLiteral::String(t[id.name].wire_subject),
                id.span,
            )
        }),
{
}

/// A bus entry that names an undeclared topic keeps the name as its
/// literal subject and its type as written; a send on an undeclared name
/// is left as it is.
pub proof fn law_unknown_topic_references_keep_their_names(
    id: SpecIdent,
    ty: Option<SpecTypeExpr>,
    handler: SpecIdent,
    span: Span,
    t: TopicMap,
)
    requires
        !t.contains_key(id.name),
    ensures
        ({
            let lit = SpecBusSubject::Literal { subject: id.name, span: id.span };
            &&& rw_bus_member(
                SpecBusMember::Subscribe { subject: SpecBusSubject::Topic(id), ty, handler, span },
                t,
            ) == SpecBusMember::Subscribe { subject: lit, ty, handler, span }
            &&& rw_bus_member(SpecBusMember::Publish { subject: SpecBusSubject::Topic(id), ty, span }, t)
                == SpecBusMember::Publish { subject: lit, ty, span }
            &&& rw_send_subject(SpecExpr::Ident(id), t) == SpecExpr::Ident(id)
        }),
{
}

} // verus!
