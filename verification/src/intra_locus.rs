//! Closed-world topology optimization: intra-locus direct calls.
//!
//! A topic is intra-locus optimizable when all of:
//!   - no `bindings { Topic: .. }` entry references it,
//!   - exactly one locus publishes it,
//!   - exactly one locus subscribes to it,
//!   - the publisher and the subscriber are the same locus type.
//!
//! Then every send on that topic happens inside an instance of the locus
//! that hosts the handler, and the publish/queue/dispatch path amounts to
//! `self.handler(payload)`. The send is rewritten to that direct call. The
//! publish and subscribe entries stay in place.
//!
//! This runs before `desugar_topics`, while sends still name their topic.
use vstd::prelude::*;
use vstd::pervasive::arbitrary;
use crate::ast::{
    Block, BusMember, BusSubject, ElseBranch, Expr, Ident, IfStmt, LocusDecl,
    LocusMember, MatchArmBody, MatchStmt, ModuleDecl, Program, Span, Stmt, TopDecl,
};
use crate::model::{
    arm_view, block_view, expr_view, if_view, items_view, match_view, module_view,
    stmt_view, top_view, SpecBlock, SpecBusMember, SpecBusSubject, SpecElseBranch, SpecExpr,
    SpecFailureDecl, SpecFnDecl, SpecIdent, SpecIfStmt, SpecLifecycleDecl, SpecLocusDecl,
    SpecLocusMember, SpecMatchArm, SpecMatchArmBody, SpecMatchStmt, SpecModeDecl, SpecModuleDecl,
    SpecProgram, SpecStmt, SpecTopDecl,
};
use crate::desugar::{
    arms_sends_ok, block_sends_ok, bus_subjects_literal, else_sends_ok, expr_sends_ok, if_sends_ok,
    item_bus_subjects_literal, law_desugar_topics_leaves_literal_subjects, match_sends_ok,
    spec_desugar_topics, stmt_sends_ok, stmts_sends_ok,
};
use crate::strmap::{lemma_entries_map_at, lemma_entries_map_dom, lookup_seq, no_empty_lists, StrMap};
use crate::topic_table::{contains_name, names_view};

verus! {

/// Topic name to (publishing locus, handler name).
pub type EligibleMap = Map<Seq<char>, (Seq<char>, Seq<char>)>;

// ---------------------------------------------------------------
// The topology of a program.
// ---------------------------------------------------------------

pub open spec fn member_bindings(m: SpecLocusMember) -> Seq<Seq<char>> {
    match m {
        SpecLocusMember::Bindings(bb) => bb.entries.map_values(|e: crate::model::SpecBindingEntry| e.topic.name),
        _ => Seq::empty(),
    }
}

pub open spec fn members_bindings(ms: Seq<SpecLocusMember>) -> Seq<Seq<char>>
    decreases ms.len(),
{
    if ms.len() == 0 {
        Seq::empty()
    } else {
        members_bindings(ms.drop_last()) + member_bindings(ms.last())
    }
}

/// Topics named by a binding entry of some locus, in program order.
pub open spec fn items_bindings(items: Seq<SpecTopDecl>) -> Seq<Seq<char>>
    decreases items,
{
    if items.len() == 0 {
        Seq::empty()
    } else {
        items_bindings(items.drop_last()) + item_bindings(items[items.len() - 1])
    }
}

pub open spec fn item_bindings(d: SpecTopDecl) -> Seq<Seq<char>>
    decreases d,
{
    match d {
        SpecTopDecl::Locus(l) => members_bindings(l.members),
        SpecTopDecl::Module(m) => items_bindings(m.items),
        _ => Seq::empty(),
    }
}

/// Publishing loci of `topic` among bus members of locus `locus`.
pub open spec fn bus_pubs(bms: Seq<SpecBusMember>, topic: Seq<char>, locus: Seq<char>) -> Seq<Seq<char>>
    decreases bms.len(),
{
    if bms.len() == 0 {
        Seq::empty()
    } else {
        bus_pubs(bms.drop_last(), topic, locus) + match bms.last() {
            SpecBusMember::Publish { subject: SpecBusSubject::Topic(id), .. } => if id.name == topic {
                seq![locus]
            } else {
                Seq::empty()
            },
            _ => Seq::empty(),
        }
    }
}

/// Subscribing (locus, handler) pairs of `topic` among bus members of `locus`.
pub open spec fn bus_subs(bms: Seq<SpecBusMember>, topic: Seq<char>, locus: Seq<char>) -> Seq<(Seq<char>, Seq<char>)>
    decreases bms.len(),
{
    if bms.len() == 0 {
        Seq::empty()
    } else {
        bus_subs(bms.drop_last(), topic, locus) + match bms.last() {
            SpecBusMember::Subscribe { subject: SpecBusSubject::Topic(id), handler, .. } => if id.name
                == topic {
                seq![(locus, handler.name)]
            } else {
                Seq::empty()
            },
            _ => Seq::empty(),
        }
    }
}

pub open spec fn members_pubs(ms: Seq<SpecLocusMember>, topic: Seq<char>, locus: Seq<char>) -> Seq<Seq<char>>
    decreases ms.len(),
{
    if ms.len() == 0 {
        Seq::empty()
    } else {
        members_pubs(ms.drop_last(), topic, locus) + match ms.last() {
            SpecLocusMember::Bus(bb) => bus_pubs(bb.members, topic, locus),
            _ => Seq::empty(),
        }
    }
}

pub open spec fn members_subs(ms: Seq<SpecLocusMember>, topic: Seq<char>, locus: Seq<char>) -> Seq<(Seq<char>, Seq<char>)>
    decreases ms.len(),
{
    if ms.len() == 0 {
        Seq::empty()
    } else {
        members_subs(ms.drop_last(), topic, locus) + match ms.last() {
            SpecLocusMember::Bus(bb) => bus_subs(bb.members, topic, locus),
            _ => Seq::empty(),
        }
    }
}

/// Every locus that publishes `topic`, once per publish entry, in program order.
pub open spec fn items_pubs(items: Seq<SpecTopDecl>, topic: Seq<char>) -> Seq<Seq<char>>
    decreases items,
{
    if items.len() == 0 {
        Seq::empty()
    } else {
        items_pubs(items.drop_last(), topic) + item_pubs(items[items.len() - 1], topic)
    }
}

pub open spec fn item_pubs(d: SpecTopDecl, topic: Seq<char>) -> Seq<Seq<char>>
    decreases d,
{
    match d {
        SpecTopDecl::Locus(l) => members_pubs(l.members, topic, l.name.name),
        SpecTopDecl::Module(m) => items_pubs(m.items, topic),
        _ => Seq::empty(),
    }
}

/// Every (locus, handler) that subscribes to `topic`, in program order.
pub open spec fn items_subs(items: Seq<SpecTopDecl>, topic: Seq<char>) -> Seq<(Seq<char>, Seq<char>)>
    decreases items,
{
    if items.len() == 0 {
        Seq::empty()
    } else {
        items_subs(items.drop_last(), topic) + item_subs(items[items.len() - 1], topic)
    }
}

pub open spec fn item_subs(d: SpecTopDecl, topic: Seq<char>) -> Seq<(Seq<char>, Seq<char>)>
    decreases d,
{
    match d {
        SpecTopDecl::Locus(l) => members_subs(l.members, topic, l.name.name),
        SpecTopDecl::Module(m) => items_subs(m.items, topic),
        _ => Seq::empty(),
    }
}

/// The (locus, handler) that a send on `topic` is rewritten to call, when
/// `topic` is intra-locus optimizable.
pub open spec fn eligible_for(items: Seq<SpecTopDecl>, topic: Seq<char>) -> Option<(Seq<char>, Seq<char>)> {
    let pubs = items_pubs(items, topic);
    let subs = items_subs(items, topic);
    if !items_bindings(items).contains(topic) && pubs.len() == 1 && subs.len() == 1 && subs[0].0
        == pubs[0] {
        Some((pubs[0], subs[0].1))
    } else {
        None
    }
}

pub open spec fn eligible_map(items: Seq<SpecTopDecl>) -> EligibleMap {
    Map::new(
        |t: Seq<char>| eligible_for(items, t) is Some,
        |t: Seq<char>| eligible_for(items, t)->Some_0,
    )
}

// ---------------------------------------------------------------
// The rewrite.
// ---------------------------------------------------------------

/// `self.handler(value)` as a statement, every node at `span`.
pub open spec fn direct_call(handler: Seq<char>, value: SpecExpr, span: Span) -> SpecStmt {
    SpecStmt::Expr(
        SpecExpr::Call {
            callee: Box::new(
                SpecExpr::Field {
                    receiver: Box::new(SpecExpr::KwSelf(span)),
                    name: SpecIdent { name: handler, span },
                    span,
                },
            ),
            args: seq![value],
            span,
        },
    )
}

pub open spec fn ix_expr(e: SpecExpr, locus: Seq<char>, el: EligibleMap) -> SpecExpr
    decreases e,
{
    match e {
        SpecExpr::Block(b) => SpecExpr::Block(ix_block(b, locus, el)),
        SpecExpr::If(i) => SpecExpr::If(Box::new(ix_if(*i, locus, el))),
        SpecExpr::Match(m) => SpecExpr::Match(Box::new(ix_match(*m, locus, el))),
        _ => e,
    }
}

pub open spec fn ix_block(b: SpecBlock, locus: Seq<char>, el: EligibleMap) -> SpecBlock
    decreases b,
{
    SpecBlock {
        stmts: Seq::new(
            b.stmts.len(),
            |k: int|
                if 0 <= k < b.stmts.len() {
                    ix_stmt(b.stmts[k], locus, el)
                } else {
                    arbitrary()
                },
        ),
        tail: match b.tail {
            Some(x) => Some(Box::new(ix_expr(*x, locus, el))),
            None => None,
        },
        span: b.span,
    }
}

pub open spec fn ix_stmt(s: SpecStmt, locus: Seq<char>, el: EligibleMap) -> SpecStmt
    decreases s,
{
    match s {
        SpecStmt::Send { subject, value, span } => match subject {
            SpecExpr::Ident(id) => if el.contains_key(id.name) && el[id.name].0 == locus {
                direct_call(el[id.name].1, value, span)
            } else {
                s
            },
            _ => s,
        },
        SpecStmt::If(i) => SpecStmt::If(ix_if(i, locus, el)),
        SpecStmt::Match(m) => SpecStmt::Match(ix_match(m, locus, el)),
        SpecStmt::For { var, iter, body, span } => SpecStmt::For {
            var,
            iter,
            body: ix_block(body, locus, el),
            span,
        },
        SpecStmt::While { cond, body, span } => SpecStmt::While {
            cond,
            body: ix_block(body, locus, el),
            span,
        },
        SpecStmt::Block(b) => SpecStmt::Block(ix_block(b, locus, el)),
        SpecStmt::Expr(e) => SpecStmt::Expr(ix_expr(e, locus, el)),
        _ => s,
    }
}

pub open spec fn ix_if(i: SpecIfStmt, locus: Seq<char>, el: EligibleMap) -> SpecIfStmt
    decreases i,
{
    SpecIfStmt {
        cond: i.cond,
        then_block: ix_block(i.then_block, locus, el),
        else_block: match i.else_block {
            Some(eb) => Some(Box::new(ix_else(*eb, locus, el))),
            None => None,
        },
        span: i.span,
    }
}

pub open spec fn ix_else(eb: SpecElseBranch, locus: Seq<char>, el: EligibleMap) -> SpecElseBranch
    decreases eb,
{
    match eb {
        SpecElseBranch::Else(b) => SpecElseBranch::Else(ix_block(b, locus, el)),
        SpecElseBranch::ElseIf(i) => SpecElseBranch::ElseIf(ix_if(i, locus, el)),
    }
}

pub open spec fn ix_match(m: SpecMatchStmt, locus: Seq<char>, el: EligibleMap) -> SpecMatchStmt
    decreases m,
{
    SpecMatchStmt {
        scrutinee: m.scrutinee,
        arms: Seq::new(
            m.arms.len(),
            |k: int|
                if 0 <= k < m.arms.len() {
                    ix_arm(m.arms[k], locus, el)
                } else {
                    arbitrary()
                },
        ),
        span: m.span,
    }
}

pub open spec fn ix_arm(a: SpecMatchArm, locus: Seq<char>, el: EligibleMap) -> SpecMatchArm
    decreases a,
{
    SpecMatchArm {
        pattern: a.pattern,
        body: match a.body {
            SpecMatchArmBody::Block(b) => SpecMatchArmBody::Block(ix_block(b, locus, el)),
            SpecMatchArmBody::Expr(e) => SpecMatchArmBody::Expr(ix_expr(e, locus, el)),
        },
        span: a.span,
    }
}

/// Lifecycle, mode, method and failure bodies of a locus get their sends
/// rewritten; other members are untouched.
pub open spec fn ix_member(m: SpecLocusMember, locus: Seq<char>, el: EligibleMap) -> SpecLocusMember {
    match m {
        SpecLocusMember::Lifecycle(lc) => SpecLocusMember::Lifecycle(
            SpecLifecycleDecl { name: lc.name, body: ix_block(lc.body, locus, el), span: lc.span },
        ),
        SpecLocusMember::Mode(md) => SpecLocusMember::Mode(
            SpecModeDecl { name: md.name, body: ix_block(md.body, locus, el), span: md.span },
        ),
        SpecLocusMember::Fn(fd) => SpecLocusMember::Fn(
            SpecFnDecl {
                name: fd.name,
                params: fd.params,
                ret: fd.ret,
                body: ix_block(fd.body, locus, el),
                span: fd.span,
            },
        ),
        SpecLocusMember::Failure(f) => SpecLocusMember::Failure(
            SpecFailureDecl { param: f.param, body: ix_block(f.body, locus, el), span: f.span },
        ),
        _ => m,
    }
}

pub open spec fn ix_locus(l: SpecLocusDecl, el: EligibleMap) -> SpecLocusDecl {
    SpecLocusDecl {
        name: l.name,
        members: l.members.map_values(|m: SpecLocusMember| ix_member(m, l.name.name, el)),
        span: l.span,
    }
}

pub open spec fn ix_items(items: Seq<SpecTopDecl>, el: EligibleMap) -> Seq<SpecTopDecl>
    decreases items,
{
    Seq::new(
        items.len(),
        |k: int|
            if 0 <= k < items.len() {
                ix_item(items[k], el)
            } else {
                arbitrary()
            },
    )
}

pub open spec fn ix_item(d: SpecTopDecl, el: EligibleMap) -> SpecTopDecl
    decreases d,
{
    match d {
        SpecTopDecl::Locus(l) => SpecTopDecl::Locus(ix_locus(l, el)),
        SpecTopDecl::Module(m) => SpecTopDecl::Module(
            SpecModuleDecl { name: m.name, items: ix_items(m.items, el), span: m.span },
        ),
        _ => d,
    }
}

/// The program after the intra-locus rewrite: unchanged when no topic is
/// eligible.
pub open spec fn spec_desugar_intra_locus_topics(p: SpecProgram) -> SpecProgram {
    let el = eligible_map(p.items);
    if el.dom() == Set::<Seq<char>>::empty() {
        p
    } else {
        SpecProgram { items: ix_items(p.items, el) }
    }
}

// ---------------------------------------------------------------
// Topology collection.
// ---------------------------------------------------------------

fn collect_locus_bindings(l: &LocusDecl, out: &mut Vec<String>)
    ensures
        names_view(final(out)@) == names_view(old(out)@) + members_bindings(l@.members),
{
    let ghost start = names_view(out@);
    let ghost mv = l@.members;
    let mut i: usize = 0;
    while i < l.members.len()
        invariant
            i <= l.members@.len(),
            mv == l@.members,
            names_view(out@) == start + members_bindings(mv.take(i as int)),
        decreases l.members@.len() - i,
    {
        let ghost before = names_view(out@);
        proof {
            assert(mv.take(i + 1).drop_last() =~= mv.take(i as int));
        }
        if let LocusMember::Bindings(bb) = &l.members[i] {
            let ghost ev = bb@.entries;
            let mut k: usize = 0;
            while k < bb.entries.len()
                invariant
                    k <= bb.entries@.len(),
                    ev == bb@.entries,
                    names_view(out@) == before + ev.take(k as int).map_values(
                        |e: crate::model::SpecBindingEntry| e.topic.name,
                    ),
                decreases bb.entries@.len() - k,
            {
                let ghost prev = names_view(out@);
                out.push(bb.entries[k].topic.name.clone());
                proof {
                    assert(ev[k as int].topic.name == bb.entries@[k as int].topic.name@);
                    assert(names_view(out@) =~= prev.push(ev[k as int].topic.name));
                    assert(ev.take(k + 1).map_values(|e: crate::model::SpecBindingEntry| e.topic.name)
                        =~= ev.take(k as int).map_values(|e: crate::model::SpecBindingEntry| e.topic.name).push(
                        ev[k as int].topic.name,
                    ));
                    assert(names_view(out@) =~= before + ev.take(k + 1).map_values(
                        |e: crate::model::SpecBindingEntry| e.topic.name,
                    ));
                }
                k = k + 1;
            }
            proof {
                assert(ev.take(ev.len() as int) =~= ev);
            }
        } else {
            assert(names_view(out@) =~= before + Seq::<Seq<char>>::empty());
        }
        proof {
            assert(mv.take(i + 1).last() == mv[i as int]);
            assert(names_view(out@) =~= start + members_bindings(mv.take(i + 1)));
        }
        i = i + 1;
    }
    proof {
        assert(mv.take(mv.len() as int) =~= mv);
    }
}

fn walk_bindings(items: &Vec<TopDecl>, out: &mut Vec<String>)
    ensures
        names_view(final(out)@) == names_view(old(out)@) + items_bindings(items_view(items@)),
    decreases items,
{
    let ghost start = names_view(out@);
    let ghost iv = items_view(items@);
    let mut i: usize = 0;
    while i < items.len()
        invariant
            i <= items@.len(),
            iv == items_view(items@),
            names_view(out@) == start + items_bindings(iv.take(i as int)),
        decreases items@.len() - i,
    {
        let ghost before = names_view(out@);
        proof {
            assert(iv.take(i + 1).drop_last() =~= iv.take(i as int));
            assert(iv.take(i + 1)[i as int] == top_view(items@[i as int]));
            assert(items_bindings(iv.take(i + 1)) == items_bindings(iv.take(i as int)) + item_bindings(
                top_view(items@[i as int]),
            ));
        }
        match &items[i] {
            TopDecl::Locus(l) => collect_locus_bindings(l, out),
            TopDecl::Module(m) => {
                proof {
                    assert(decreases_to!(items => items@));
                    assert(decreases_to!(items@ => items@[i as int]));
                    assert(decreases_to!(items@[i as int] => m));
                    assert(decreases_to!(m => m.items));
                }
                walk_bindings(&m.items, out);
                proof {
                    assert(module_view(*m).items =~= items_view(m.items@));
                }
            },
            _ => {
                assert(names_view(out@) =~= before + Seq::<Seq<char>>::empty());
            },
        }
        proof {
            assert(names_view(out@) =~= start + items_bindings(iv.take(i + 1)));
        }
        i = i + 1;
    }
    proof {
        assert(iv.take(items@.len() as int) =~= iv);
    }
}

/// Topics that some `bindings { .. }` entry references.
fn collect_bindings(items: &Vec<TopDecl>) -> (out: Vec<String>)
    ensures
        names_view(out@) == items_bindings(items_view(items@)),
{
    let mut out: Vec<String> = Vec::new();
    proof {
        assert(names_view(out@) =~= Seq::<Seq<char>>::empty());
    }
    walk_bindings(items, &mut out);
    proof {
        assert(Seq::<Seq<char>>::empty() + items_bindings(items_view(items@)) =~= items_bindings(
            items_view(items@),
        ));
    }
    out
}

pub type PubMap = StrMap<Vec<String>>;

pub type SubMap = StrMap<Vec<(String, String)>>;

fn collect_bus_pub_sub(
    bms: &Vec<BusMember>,
    locus: &String,
    pubs: &mut PubMap,
    subs: &mut SubMap,
)
    requires
        old(pubs).wf(),
        old(subs).wf(),
        no_empty_lists(old(pubs)@),
        no_empty_lists(old(subs)@),
    ensures
        final(pubs).wf(),
        final(subs).wf(),
        no_empty_lists(final(pubs)@),
        no_empty_lists(final(subs)@),
        forall|t: Seq<char>|
            lookup_seq(final(pubs)@, t) == lookup_seq(old(pubs)@, t) + bus_pubs(
                bms@.map_values(|m: BusMember| m@),
                t,
                locus@,
            ),
        forall|t: Seq<char>|
            lookup_seq(final(subs)@, t) == lookup_seq(old(subs)@, t) + bus_subs(
                bms@.map_values(|m: BusMember| m@),
                t,
                locus@,
            ),
{
    let ghost sp = pubs@;
    let ghost ss = subs@;
    let ghost bv = bms@.map_values(|m: BusMember| m@);
    let mut i: usize = 0;
    while i < bms.len()
        invariant
            i <= bms@.len(),
            bv == bms@.map_values(|m: BusMember| m@),
            pubs.wf(),
            subs.wf(),
            no_empty_lists(pubs@),
            no_empty_lists(subs@),
            forall|t: Seq<char>|
                lookup_seq(pubs@, t) == lookup_seq(sp, t) + bus_pubs(bv.take(i as int), t, locus@),
            forall|t: Seq<char>|
                lookup_seq(subs@, t) == lookup_seq(ss, t) + bus_subs(bv.take(i as int), t, locus@),
        decreases bms@.len() - i,
    {
        let ghost p0 = pubs@;
        let ghost s0 = subs@;
        proof {
            assert(bv.take(i + 1).drop_last() =~= bv.take(i as int));
            assert(bv.take(i + 1).last() == bms@[i as int]@);
        }
        match &bms[i] {
            BusMember::Subscribe { subject, handler, .. } => {
                if let BusSubject::Topic(id) = subject {
                    subs.push_value(id.name.clone(), (locus.clone(), handler.name.clone()));
                }
            },
            BusMember::Publish { subject, .. } => {
                if let BusSubject::Topic(id) = subject {
                    pubs.push_value(id.name.clone(), locus.clone());
                }
            },
        }
        proof {
            assert forall|t: Seq<char>|
                lookup_seq(pubs@, t) == lookup_seq(sp, t) + bus_pubs(bv.take(i + 1), t, locus@) by {
                assert(lookup_seq(p0, t) == lookup_seq(sp, t) + bus_pubs(bv.take(i as int), t, locus@));
                if lookup_seq(pubs@, t) != lookup_seq(p0, t) {
                    assert(lookup_seq(pubs@, t) =~= lookup_seq(p0, t) + seq![locus@]);
                } else {
                    assert(lookup_seq(pubs@, t) =~= lookup_seq(p0, t) + Seq::<Seq<char>>::empty());
                }
                assert(lookup_seq(sp, t) + bus_pubs(bv.take(i as int), t, locus@) + (bus_pubs(bv.take(i + 1), t, locus@).skip(bus_pubs(bv.take(i as int), t, locus@).len() as int)) =~= lookup_seq(sp, t) + bus_pubs(bv.take(i + 1), t, locus@));
            }
            assert forall|t: Seq<char>|
                lookup_seq(subs@, t) == lookup_seq(ss, t) + bus_subs(bv.take(i + 1), t, locus@) by {
                assert(lookup_seq(s0, t) == lookup_seq(ss, t) + bus_subs(bv.take(i as int), t, locus@));
                if lookup_seq(subs@, t) != lookup_seq(s0, t) {
                    assert(lookup_seq(subs@, t) =~= lookup_seq(s0, t) + seq![(locus@, bms@[i as int]->Subscribe_handler@.name)]);
                } else {
                    assert(lookup_seq(subs@, t) =~= lookup_seq(s0, t) + Seq::<(Seq<char>, Seq<char>)>::empty());
                }
                assert(lookup_seq(ss, t) + bus_subs(bv.take(i as int), t, locus@) + (bus_subs(bv.take(i + 1), t, locus@).skip(bus_subs(bv.take(i as int), t, locus@).len() as int)) =~= lookup_seq(ss, t) + bus_subs(bv.take(i + 1), t, locus@));
            }
        }
        i = i + 1;
    }
    proof {
        assert(bv.take(bms@.len() as int) =~= bv);
    }
}

fn collect_locus_pub_sub(l: &LocusDecl, pubs: &mut PubMap, subs: &mut SubMap)
    requires
        old(pubs).wf(),
        old(subs).wf(),
        no_empty_lists(old(pubs)@),
        no_empty_lists(old(subs)@),
    ensures
        final(pubs).wf(),
        final(subs).wf(),
        no_empty_lists(final(pubs)@),
        no_empty_lists(final(subs)@),
        forall|t: Seq<char>|
            lookup_seq(final(pubs)@, t) == lookup_seq(old(pubs)@, t) + members_pubs(
                l@.members,
                t,
                l.name.name@,
            ),
        forall|t: Seq<char>|
            lookup_seq(final(subs)@, t) == lookup_seq(old(subs)@, t) + members_subs(
                l@.members,
                t,
                l.name.name@,
            ),
{
    let locus_name = l.name.name.clone();
    let ghost sp = pubs@;
    let ghost ss = subs@;
    let ghost mv = l@.members;
    let mut i: usize = 0;
    while i < l.members.len()
        invariant
            i <= l.members@.len(),
            mv == l@.members,
            locus_name@ == l.name.name@,
            pubs.wf(),
            subs.wf(),
            no_empty_lists(pubs@),
            no_empty_lists(subs@),
            forall|t: Seq<char>|
                lookup_seq(pubs@, t) == lookup_seq(sp, t) + members_pubs(mv.take(i as int), t, locus_name@),
            forall|t: Seq<char>|
                lookup_seq(subs@, t) == lookup_seq(ss, t) + members_subs(mv.take(i as int), t, locus_name@),
        decreases l.members@.len() - i,
    {
        let ghost p0 = pubs@;
        let ghost s0 = subs@;
        proof {
            assert(mv.take(i + 1).drop_last() =~= mv.take(i as int));
            assert(mv.take(i + 1).last() == l.members@[i as int]@);
        }
        if let LocusMember::Bus(bb) = &l.members[i] {
            collect_bus_pub_sub(&bb.members, &locus_name, pubs, subs);
        }
        proof {
            assert forall|t: Seq<char>|
                lookup_seq(pubs@, t) == lookup_seq(sp, t) + members_pubs(mv.take(i + 1), t, locus_name@) by {
                assert(lookup_seq(p0, t) == lookup_seq(sp, t) + members_pubs(mv.take(i as int), t, locus_name@));
                assert(lookup_seq(sp, t) + members_pubs(mv.take(i as int), t, locus_name@) + match mv[i as int] {
                    SpecLocusMember::Bus(bb) => bus_pubs(bb.members, t, locus_name@),
                    _ => Seq::empty(),
                } =~= lookup_seq(sp, t) + members_pubs(mv.take(i + 1), t, locus_name@));
                if !(mv[i as int] is Bus) {
                    assert(lookup_seq(pubs@, t) =~= lookup_seq(p0, t) + Seq::<Seq<char>>::empty());
                }
            }
            assert forall|t: Seq<char>|
                lookup_seq(subs@, t) == lookup_seq(ss, t) + members_subs(mv.take(i + 1), t, locus_name@) by {
                assert(lookup_seq(s0, t) == lookup_seq(ss, t) + members_subs(mv.take(i as int), t, locus_name@));
                assert(lookup_seq(ss, t) + members_subs(mv.take(i as int), t, locus_name@) + match mv[i as int] {
                    SpecLocusMember::Bus(bb) => bus_subs(bb.members, t, locus_name@),
                    _ => Seq::empty(),
                } =~= lookup_seq(ss, t) + members_subs(mv.take(i + 1), t, locus_name@));
                if !(mv[i as int] is Bus) {
                    assert(lookup_seq(subs@, t) =~= lookup_seq(s0, t) + Seq::<(Seq<char>, Seq<char>)>::empty());
                }
            }
        }
        i = i + 1;
    }
    proof {
        assert(mv.take(mv.len() as int) =~= mv);
    }
}

fn walk_pub_sub(items: &Vec<TopDecl>, pubs: &mut PubMap, subs: &mut SubMap)
    requires
        old(pubs).wf(),
        old(subs).wf(),
        no_empty_lists(old(pubs)@),
        no_empty_lists(old(subs)@),
    ensures
        final(pubs).wf(),
        final(subs).wf(),
        no_empty_lists(final(pubs)@),
        no_empty_lists(final(subs)@),
        forall|t: Seq<char>|
            lookup_seq(final(pubs)@, t) == lookup_seq(old(pubs)@, t) + items_pubs(items_view(items@), t),
        forall|t: Seq<char>|
            lookup_seq(final(subs)@, t) == lookup_seq(old(subs)@, t) + items_subs(items_view(items@), t),
    decreases items,
{
    let ghost sp = pubs@;
    let ghost ss = subs@;
    let ghost iv = items_view(items@);
    let mut i: usize = 0;
    while i < items.len()
        invariant
            i <= items@.len(),
            iv == items_view(items@),
            pubs.wf(),
            subs.wf(),
            no_empty_lists(pubs@),
            no_empty_lists(subs@),
            forall|t: Seq<char>| lookup_seq(pubs@, t) == lookup_seq(sp, t) + items_pubs(iv.take(i as int), t),
            forall|t: Seq<char>| lookup_seq(subs@, t) == lookup_seq(ss, t) + items_subs(iv.take(i as int), t),
        decreases items@.len() - i,
    {
        let ghost p0 = pubs@;
        let ghost s0 = subs@;
        proof {
            assert(iv.take(i + 1).drop_last() =~= iv.take(i as int));
            assert(iv.take(i + 1)[i as int] == top_view(items@[i as int]));
        }
        match &items[i] {
            TopDecl::Locus(l) => collect_locus_pub_sub(l, pubs, subs),
            TopDecl::Module(m) => {
                proof {
                    assert(decreases_to!(items => items@));
                    assert(decreases_to!(items@ => items@[i as int]));
                    assert(decreases_to!(items@[i as int] => m));
                    assert(decreases_to!(m => m.items));
                }
                walk_pub_sub(&m.items, pubs, subs);
                proof {
                    assert(module_view(*m).items =~= items_view(m.items@));
                }
            },
            _ => {},
        }
        proof {
            assert forall|t: Seq<char>|
                lookup_seq(pubs@, t) == lookup_seq(sp, t) + items_pubs(iv.take(i + 1), t) by {
                assert(items_pubs(iv.take(i + 1), t) == items_pubs(iv.take(i as int), t) + item_pubs(
                    top_view(items@[i as int]),
                    t,
                ));
                assert(lookup_seq(p0, t) == lookup_seq(sp, t) + items_pubs(iv.take(i as int), t));
                assert(lookup_seq(sp, t) + items_pubs(iv.take(i as int), t) + item_pubs(
                    top_view(items@[i as int]),
                    t,
                ) =~= lookup_seq(sp, t) + items_pubs(iv.take(i + 1), t));
                if !(items@[i as int] is Locus) && !(items@[i as int] is Module) {
                    assert(lookup_seq(pubs@, t) =~= lookup_seq(p0, t) + Seq::<Seq<char>>::empty());
                }
            }
            assert forall|t: Seq<char>|
                lookup_seq(subs@, t) == lookup_seq(ss, t) + items_subs(iv.take(i + 1), t) by {
                assert(items_subs(iv.take(i + 1), t) == items_subs(iv.take(i as int), t) + item_subs(
                    top_view(items@[i as int]),
                    t,
                ));
                assert(lookup_seq(s0, t) == lookup_seq(ss, t) + items_subs(iv.take(i as int), t));
                assert(lookup_seq(ss, t) + items_subs(iv.take(i as int), t) + item_subs(
                    top_view(items@[i as int]),
                    t,
                ) =~= lookup_seq(ss, t) + items_subs(iv.take(i + 1), t));
                if !(items@[i as int] is Locus) && !(items@[i as int] is Module) {
                    assert(lookup_seq(subs@, t) =~= lookup_seq(s0, t) + Seq::<(Seq<char>, Seq<char>)>::empty());
                }
            }
        }
        i = i + 1;
    }
    proof {
        assert(iv.take(items@.len() as int) =~= iv);
    }
}

/// Which loci publish each topic, and which (locus, handler) pairs
/// subscribe to it, in program order.
fn collect_pub_sub(items: &Vec<TopDecl>) -> (r: (PubMap, SubMap))
    ensures
        r.0.wf(),
        r.1.wf(),
        no_empty_lists(r.0@),
        no_empty_lists(r.1@),
        forall|t: Seq<char>| lookup_seq(r.0@, t) == items_pubs(items_view(items@), t),
        forall|t: Seq<char>| lookup_seq(r.1@, t) == items_subs(items_view(items@), t),
{
    let mut pubs: PubMap = StrMap::new();
    let mut subs: SubMap = StrMap::new();
    walk_pub_sub(items, &mut pubs, &mut subs);
    proof {
        assert forall|t: Seq<char>| lookup_seq(pubs@, t) == items_pubs(items_view(items@), t) by {
            assert(Seq::<Seq<char>>::empty() + items_pubs(items_view(items@), t) =~= items_pubs(
                items_view(items@),
                t,
            ));
        }
        assert forall|t: Seq<char>| lookup_seq(subs@, t) == items_subs(items_view(items@), t) by {
            assert(Seq::<(Seq<char>, Seq<char>)>::empty() + items_subs(items_view(items@), t)
                =~= items_subs(items_view(items@), t));
        }
    }
    (pubs, subs)
}

/// The intra-locus optimizable topics of `items`.
fn collect_eligible(items: &Vec<TopDecl>) -> (eligible: StrMap<(String, String)>)
    ensures
        eligible.wf(),
        eligible@ == eligible_map(items_view(items@)),
{
    let ghost iv = items_view(items@);
    let bindings = collect_bindings(items);
    let (pubs, subs) = collect_pub_sub(items);
    let mut eligible: StrMap<(String, String)> = StrMap::new();
    let n = pubs.entries.len();
    let mut i: usize = 0;
    while i < n
        invariant
            n == pubs.entries@.len(),
            i <= n,
            iv == items_view(items@),
            pubs.wf(),
            names_view(bindings@) == items_bindings(iv),
            forall|t: Seq<char>| lookup_seq(pubs@, t) == items_pubs(iv, t),
            forall|t: Seq<char>| lookup_seq(subs@, t) == items_subs(iv, t),
            eligible.wf(),
            eligible@ == Map::new(
                |t: Seq<char>|
                    (exists|j: int| 0 <= j < i && pubs.entries@[j].key@ == t) && eligible_for(iv, t) is Some,
                |t: Seq<char>| eligible_for(iv, t)->Some_0,
            ),
        decreases n - i,
    {
        let topic = &pubs.entries[i].key;
        let pub_loci = &pubs.entries[i].value;
        let ghost tv = topic@;
        proof {
            lemma_entries_map_at(pubs.entries@, i as int);
            assert(lookup_seq(pubs@, tv) == items_pubs(iv, tv));
        }
        let ghost e0 = eligible@;
        let ghost next = Map::new(
            |t: Seq<char>|
                (exists|j: int| 0 <= j < i + 1 && pubs.entries@[j].key@ == t) && eligible_for(iv, t) is Some,
            |t: Seq<char>| eligible_for(iv, t)->Some_0,
        );
        if contains_name(&bindings, topic) || pub_loci.len() != 1 {
            proof {
                assert(eligible_for(iv, tv) is None);
                assert(eligible@ =~= next);
            }
        } else {
            let pub_locus = pub_loci[0].clone();
            match subs.get(topic) {
                None => {
                    proof {
                        assert(eligible_for(iv, tv) is None);
                        assert(eligible@ =~= next);
                    }
                },
                Some(sub_pairs) => {
                    if sub_pairs.len() != 1 {
                        proof {
                            assert(eligible_for(iv, tv) is None);
                            assert(eligible@ =~= next);
                        }
                    } else {
                        let sub_locus = &sub_pairs[0].0;
                        let handler = &sub_pairs[0].1;
                        proof {
                            assert(sub_pairs.deep_view()[0] == (sub_locus@, handler@));
                            assert(pub_loci.deep_view()[0] == pub_locus@);
                        }
                        if *sub_locus != pub_locus {
                            proof {
                                assert(eligible_for(iv, tv) is None);
                                assert(eligible@ =~= next);
                            }
                        } else {
                            eligible.insert(topic.clone(), (pub_locus, handler.clone()));
                            proof {
                                assert(eligible_for(iv, tv) == Some((pub_locus@, handler@)));
                                assert(eligible@ =~= next);
                            }
                        }
                    }
                },
            }
        }
        i = i + 1;
    }
    proof {
        assert forall|t: Seq<char>| eligible_for(iv, t) is Some implies (exists|j: int|
            0 <= j < n && pubs.entries@[j].key@ == t) by {
            assert(lookup_seq(pubs@, t).len() == 1);
            lemma_entries_map_dom(pubs.entries@, t);
        }
        assert(eligible@ =~= eligible_map(iv));
    }
    eligible
}

// ---------------------------------------------------------------
// The pass.
// ---------------------------------------------------------------

/// Intra-locus optimization entry point. Rewrites, in place, each send on
/// an eligible topic that stands in a body of its publishing locus into a
/// direct call of the subscribing handler. Leaves the program unchanged
/// when no topic is eligible.
pub fn desugar_intra_locus_topics(program: &mut Program)
    ensures
        final(program)@ == spec_desugar_intra_locus_topics(old(program)@),
{
    let eligible = collect_eligible(&program.items);
    if eligible.entries.len() == 0 {
        proof {
            assert(eligible@.dom() =~= Set::<Seq<char>>::empty());
        }
        return ;
    }
    proof {
        lemma_entries_map_at(eligible.entries@, 0);
        assert(eligible@.dom() != Set::<Seq<char>>::empty());
    }
    intra_rewrite_items(&mut program.items, &eligible);
}

/// Rewrites the loci of `items`, descending into modules.
fn intra_rewrite_items(items: &mut Vec<TopDecl>, eligible: &StrMap<(String, String)>)
    ensures
        items_view(final(items)@) == ix_items(items_view(old(items)@), eligible@),
    decreases *old(items),
{
    let ghost ov = old(items)@;
    let ghost ovec = *old(items);
    let n = items.len();
    let mut i: usize = 0;
    while i < n
        invariant
            items@.len() == n,
            ov.len() == n,
            ovec@ == ov,
            ovec == *old(items),
            i <= n,
            forall|j: int| 0 <= j < i ==> top_view(#[trigger] items@[j]) == ix_item(top_view(ov[j]), eligible@),
            forall|j: int| i <= j < n ==> #[trigger] items@[j] == ov[j],
        decreases n - i,
    {
        match &mut items[i] {
            TopDecl::Locus(l) => intra_rewrite_locus(l, eligible),
            TopDecl::Module(m) => {
                proof {
                    assert(decreases_to!(ovec => ovec@));
                    assert(decreases_to!(ovec@ => ovec@[i as int]));
                    assert(decreases_to!(ovec@[i as int] => ovec@[i as int]->Module_0));
                }
                intra_rewrite_module(m, eligible);
            },
            _ => {},
        }
        i = i + 1;
    }
    proof {
        assert(items_view(items@) =~= ix_items(items_view(ov), eligible@));
    }
}

fn intra_rewrite_module(m: &mut ModuleDecl, eligible: &StrMap<(String, String)>)
    ensures
        module_view(*final(m)) == (SpecModuleDecl {
            name: module_view(*old(m)).name,
            items: ix_items(module_view(*old(m)).items, eligible@),
            span: old(m).span,
        }),
    decreases *old(m),
{
    let ghost om = *m;
    proof {
        assert(decreases_to!(om => om.items));
    }
    intra_rewrite_items(&mut m.items, eligible);
    proof {
        assert(module_view(*m).items =~= items_view(m.items@));
        assert(module_view(om).items =~= items_view(om.items@));
    }
}

/// Rewrites the sends in `l`'s bodies. Only sends whose eligible topic has
/// `l` as its publisher are rewritten: other loci may publish other topics
/// from the same lexical position.
fn intra_rewrite_locus(l: &mut LocusDecl, eligible: &StrMap<(String, String)>)
    ensures
        final(l)@ == ix_locus(old(l)@, eligible@),
{
    let locus_name = l.name.name.clone();
    let ghost ov = l.members@;
    let n = l.members.len();
    let mut i: usize = 0;
    while i < n
        invariant
            l.members@.len() == n,
            ov.len() == n,
            l.name == old(l).name,
            l.span == old(l).span,
            locus_name@ == l.name.name@,
            ov == old(l).members@,
            i <= n,
            forall|j: int|
                0 <= j < i ==> (#[trigger] l.members@[j])@ == ix_member(ov[j]@, locus_name@, eligible@),
            forall|j: int| i <= j < n ==> #[trigger] l.members@[j] == ov[j],
        decreases n - i,
    {
        match &mut l.members[i] {
            LocusMember::Lifecycle(lc) => {
                intra_rewrite_block(&mut lc.body, &locus_name, eligible);
            },
            LocusMember::Mode(md) => {
                intra_rewrite_block(&mut md.body, &locus_name, eligible);
            },
            LocusMember::Fn(fd) => {
                intra_rewrite_block(&mut fd.body, &locus_name, eligible);
            },
            LocusMember::Failure(f) => {
                intra_rewrite_block(&mut f.body, &locus_name, eligible);
            },
            _ => {},
        }
        i = i + 1;
    }
    proof {
        assert(l.members@.map_values(|m: LocusMember| m@) =~= ov.map_values(|m: LocusMember| m@).map_values(
            |m: SpecLocusMember| ix_member(m, locus_name@, eligible@),
        ));
    }
}

fn intra_rewrite_block(b: &mut Block, locus_name: &String, eligible: &StrMap<(String, String)>)
    ensures
        block_view(*final(b)) == ix_block(block_view(*old(b)), locus_name@, eligible@),
    decreases *old(b),
{
    let ghost ob = *b;
    let ghost ov = b.stmts@;
    let n = b.stmts.len();
    let mut i: usize = 0;
    while i < n
        invariant
            b.stmts@.len() == n,
            ov.len() == n,
            ob == *old(b),
            ov == ob.stmts@,
            b.tail == ob.tail,
            b.span == ob.span,
            i <= n,
            forall|j: int|
                0 <= j < i ==> stmt_view(#[trigger] b.stmts@[j]) == ix_stmt(stmt_view(ov[j]), locus_name@, eligible@),
            forall|j: int| i <= j < n ==> #[trigger] b.stmts@[j] == ov[j],
        decreases n - i,
    {
        proof {
            assert(decreases_to!(ob => ob.stmts));
            assert(decreases_to!(ob.stmts => ob.stmts@));
            assert(decreases_to!(ob.stmts@ => ob.stmts@[i as int]));
        }
        intra_rewrite_stmt(&mut b.stmts[i], locus_name, eligible);
        i = i + 1;
    }
    if let Some(tail) = &mut b.tail {
        intra_rewrite_expr(tail, locus_name, eligible);
    }
    proof {
        assert(block_view(*b).stmts =~= ix_block(block_view(ob), locus_name@, eligible@).stmts);
    }
}

/// The handler a send statement is rewritten to call, if any.
fn direct_call_target(s: &Stmt, locus_name: &String, eligible: &StrMap<(String, String)>) -> (r: Option<String>)
    ensures
        match r {
            Some(h) => stmt_view(*s) is Send && stmt_view(*s)->Send_subject is Ident && ({
                let n = stmt_view(*s)->Send_subject->Ident_0.name;
                eligible@.contains_key(n) && eligible@[n].0 == locus_name@ && eligible@[n].1 == h@
            }),
            None => !(stmt_view(*s) is Send && stmt_view(*s)->Send_subject is Ident && ({
                let n = stmt_view(*s)->Send_subject->Ident_0.name;
                eligible@.contains_key(n) && eligible@[n].0 == locus_name@
            })),
        },
{
    if let Stmt::Send { subject, .. } = s {
        if let Expr::Ident(id) = subject {
            if let Some(pair) = eligible.get(&id.name) {
                if pair.0 == *locus_name {
                    return Some(pair.1.clone());
                }
            }
        }
    }
    None
}

fn intra_rewrite_stmt(s: &mut Stmt, locus_name: &String, eligible: &StrMap<(String, String)>)
    ensures
        stmt_view(*final(s)) == ix_stmt(stmt_view(*old(s)), locus_name@, eligible@),
    decreases *old(s),
{
    if let Some(handler) = direct_call_target(s, locus_name, eligible) {
        // Build `self.handler(value)` as a statement wrapping
        // Call(Field(KwSelf, handler), [value]).
        let mut taken = Stmt::Return(None, Span { start: 0, end: 0 });
        std::mem::swap(s, &mut taken);
        assert(taken == *old(s));
        if let Stmt::Send { value, span, .. } = taken {
            let ghost vv = expr_view(value);
            let ghost hv = handler@;
            let mut args: Vec<Expr> = Vec::new();
            args.push(value);
            let name = Ident { name: handler, span };
            let field = Expr::Field { receiver: Box::new(Expr::KwSelf(span)), name, span };
            proof {
                assert(name@ == SpecIdent { name: hv, span });
                assert(expr_view(Expr::KwSelf(span)) == SpecExpr::KwSelf(span));
                assert(expr_view(field) == SpecExpr::Field {
                    receiver: Box::new(SpecExpr::KwSelf(span)),
                    name: SpecIdent { name: hv, span },
                    span,
                });
                assert(args@ =~= seq![value]);
            }
            let call_expr = Expr::Call { callee: Box::new(field), args, span };
            proof {
                assert(expr_view(call_expr)->Call_args =~= seq![vv]);
                assert(stmt_view(Stmt::Expr(call_expr)) == direct_call(hv, vv, span));
            }
            *s = Stmt::Expr(call_expr);
        }
        return ;
    }
    match s {
        Stmt::If(if_stmt) => intra_rewrite_if(if_stmt, locus_name, eligible),
        Stmt::Match(m) => intra_rewrite_match(m, locus_name, eligible),
        Stmt::For { body, .. } => intra_rewrite_block(body, locus_name, eligible),
        Stmt::While { body, .. } => intra_rewrite_block(body, locus_name, eligible),
        Stmt::Block(b) => intra_rewrite_block(b, locus_name, eligible),
        Stmt::Expr(e) => intra_rewrite_expr(e, locus_name, eligible),
        _ => {},
    }
}

fn intra_rewrite_if(if_stmt: &mut IfStmt, locus_name: &String, eligible: &StrMap<(String, String)>)
    ensures
        if_view(*final(if_stmt)) == ix_if(if_view(*old(if_stmt)), locus_name@, eligible@),
    decreases *old(if_stmt),
{
    intra_rewrite_block(&mut if_stmt.then_block, locus_name, eligible);
    if let Some(eb) = &mut if_stmt.else_block {
        let ghost oeb = **eb;
        match &mut **eb {
            ElseBranch::Else(b) => intra_rewrite_block(b, locus_name, eligible),
            ElseBranch::ElseIf(inner) => {
                proof {
                    assert(decreases_to!(oeb => oeb->ElseIf_0));
                }
                intra_rewrite_if(inner, locus_name, eligible)
            },
        }
    }
}

fn intra_rewrite_match(m: &mut MatchStmt, locus_name: &String, eligible: &StrMap<(String, String)>)
    ensures
        match_view(*final(m)) == ix_match(match_view(*old(m)), locus_name@, eligible@),
    decreases *old(m),
{
    let ghost om = *m;
    let ghost ov = m.arms@;
    let n = m.arms.len();
    let mut i: usize = 0;
    while i < n
        invariant
            m.arms@.len() == n,
            ov.len() == n,
            om == *old(m),
            ov == om.arms@,
            m.scrutinee == om.scrutinee,
            m.span == om.span,
            i <= n,
            forall|j: int|
                0 <= j < i ==> arm_view(#[trigger] m.arms@[j]) == ix_arm(arm_view(ov[j]), locus_name@, eligible@),
            forall|j: int| i <= j < n ==> #[trigger] m.arms@[j] == ov[j],
        decreases n - i,
    {
        proof {
            assert(decreases_to!(om => om.arms));
            assert(decreases_to!(om.arms => om.arms@));
            assert(decreases_to!(om.arms@ => om.arms@[i as int]));
            assert(decreases_to!(om.arms@[i as int] => om.arms@[i as int].body));
        }
        let arm = &mut m.arms[i];
        match &mut arm.body {
            MatchArmBody::Block(b) => intra_rewrite_block(b, locus_name, eligible),
            MatchArmBody::Expr(e) => intra_rewrite_expr(e, locus_name, eligible),
        }
        i = i + 1;
    }
    proof {
        assert(match_view(*m).arms =~= ix_match(match_view(om), locus_name@, eligible@).arms);
    }
}

fn intra_rewrite_expr(e: &mut Expr, locus_name: &String, eligible: &StrMap<(String, String)>)
    ensures
        expr_view(*final(e)) == ix_expr(expr_view(*old(e)), locus_name@, eligible@),
    decreases *old(e),
{
    match e {
        Expr::Block(b) => intra_rewrite_block(b, locus_name, eligible),
        Expr::If(if_stmt) => intra_rewrite_if(if_stmt, locus_name, eligible),
        Expr::Match(m) => intra_rewrite_match(m, locus_name, eligible),
        _ => {},
    }
}

// ---------------------------------------------------------------
// Laws.
// ---------------------------------------------------------------

proof fn lemma_ix_expr_idem(e: SpecExpr, locus: Seq<char>, el: EligibleMap)
    ensures
        ix_expr(ix_expr(e, locus, el), locus, el) == ix_expr(e, locus, el),
    decreases e,
{
    match e {
        SpecExpr::Block(b) => lemma_ix_block_idem(b, locus, el),
        SpecExpr::If(i) => lemma_ix_if_idem(*i, locus, el),
        SpecExpr::Match(m) => lemma_ix_match_idem(*m, locus, el),
        _ => {},
    }
}

proof fn lemma_ix_block_idem(b: SpecBlock, locus: Seq<char>, el: EligibleMap)
    ensures
        ix_block(ix_block(b, locus, el), locus, el) == ix_block(b, locus, el),
    decreases b,
{
    let once = ix_block(b, locus, el);
    assert forall|k: int| 0 <= k < b.stmts.len() implies ix_stmt(#[trigger] once.stmts[k], locus, el)
        == once.stmts[k] by {
        lemma_ix_stmt_idem(b.stmts[k], locus, el);
    }
    assert(ix_block(once, locus, el).stmts =~= once.stmts);
    if let Some(x) = b.tail {
        lemma_ix_expr_idem(*x, locus, el);
    }
}

proof fn lemma_ix_stmt_idem(s: SpecStmt, locus: Seq<char>, el: EligibleMap)
    ensures
        ix_stmt(ix_stmt(s, locus, el), locus, el) == ix_stmt(s, locus, el),
    decreases s,
{
    match s {
        SpecStmt::If(i) => lemma_ix_if_idem(i, locus, el),
        SpecStmt::Match(m) => lemma_ix_match_idem(m, locus, el),
        SpecStmt::For { body, .. } => lemma_ix_block_idem(body, locus, el),
        SpecStmt::While { body, .. } => lemma_ix_block_idem(body, locus, el),
        SpecStmt::Block(b) => lemma_ix_block_idem(b, locus, el),
        SpecStmt::Expr(e) => lemma_ix_expr_idem(e, locus, el),
        _ => {},
    }
}

proof fn lemma_ix_if_idem(i: SpecIfStmt, locus: Seq<char>, el: EligibleMap)
    ensures
        ix_if(ix_if(i, locus, el), locus, el) == ix_if(i, locus, el),
    decreases i,
{
    lemma_ix_block_idem(i.then_block, locus, el);
    if let Some(eb) = i.else_block {
        lemma_ix_else_idem(*eb, locus, el);
    }
}

proof fn lemma_ix_else_idem(eb: SpecElseBranch, locus: Seq<char>, el: EligibleMap)
    ensures
        ix_else(ix_else(eb, locus, el), locus, el) == ix_else(eb, locus, el),
    decreases eb,
{
    match eb {
        SpecElseBranch::Else(b) => lemma_ix_block_idem(b, locus, el),
        SpecElseBranch::ElseIf(i) => lemma_ix_if_idem(i, locus, el),
    }
}

proof fn lemma_ix_match_idem(m: SpecMatchStmt, locus: Seq<char>, el: EligibleMap)
    ensures
        ix_match(ix_match(m, locus, el), locus, el) == ix_match(m, locus, el),
    decreases m,
{
    let once = ix_match(m, locus, el);
    assert forall|k: int| 0 <= k < m.arms.len() implies ix_arm(#[trigger] once.arms[k], locus, el)
        == once.arms[k] by {
        let a = m.arms[k];
        match a.body {
            SpecMatchArmBody::Block(b) => lemma_ix_block_idem(b, locus, el),
            SpecMatchArmBody::Expr(e) => lemma_ix_expr_idem(e, locus, el),
        }
    }
    assert(ix_match(once, locus, el).arms =~= once.arms);
}

proof fn lemma_ix_member_idem(m: SpecLocusMember, locus: Seq<char>, el: EligibleMap)
    ensures
        ix_member(ix_member(m, locus, el), locus, el) == ix_member(m, locus, el),
{
    match m {
        SpecLocusMember::Lifecycle(lc) => lemma_ix_block_idem(lc.body, locus, el),
        SpecLocusMember::Mode(md) => lemma_ix_block_idem(md.body, locus, el),
        SpecLocusMember::Fn(fd) => lemma_ix_block_idem(fd.body, locus, el),
        SpecLocusMember::Failure(f) => lemma_ix_block_idem(f.body, locus, el),
        _ => {},
    }
}

proof fn lemma_ix_items_idem(items: Seq<SpecTopDecl>, el: EligibleMap)
    ensures
        ix_items(ix_items(items, el), el) == ix_items(items, el),
    decreases items,
{
    let once = ix_items(items, el);
    assert forall|k: int| 0 <= k < items.len() implies ix_item(#[trigger] once[k], el) == once[k] by {
        lemma_ix_item_idem(items[k], el);
    }
    assert(ix_items(once, el) =~= once);
}

proof fn lemma_ix_item_idem(d: SpecTopDecl, el: EligibleMap)
    ensures
        ix_item(ix_item(d, el), el) == ix_item(d, el),
    decreases d,
{
    match d {
        SpecTopDecl::Locus(l) => {
            let once = l.members.map_values(|m: SpecLocusMember| ix_member(m, l.name.name, el));
            assert forall|k: int| 0 <= k < once.len() implies ix_member(#[trigger] once[k], l.name.name, el)
                == once[k] by {
                lemma_ix_member_idem(l.members[k], l.name.name, el);
            }
            assert(once.map_values(|m: SpecLocusMember| ix_member(m, l.name.name, el)) =~= once);
        },
        SpecTopDecl::Module(m) => lemma_ix_items_idem(m.items, el),
        _ => {},
    }
}

proof fn lemma_ix_members_topology(ms: Seq<SpecLocusMember>, locus: Seq<char>, el: EligibleMap, t: Seq<char>, owner: Seq<char>)
    ensures
        members_bindings(ms.map_values(|m: SpecLocusMember| ix_member(m, locus, el))) == members_bindings(ms),
        members_pubs(ms.map_values(|m: SpecLocusMember| ix_member(m, locus, el)), t, owner) == members_pubs(ms, t, owner),
        members_subs(ms.map_values(|m: SpecLocusMember| ix_member(m, locus, el)), t, owner) == members_subs(ms, t, owner),
    decreases ms.len(),
{
    if ms.len() > 0 {
        let r = ms.map_values(|m: SpecLocusMember| ix_member(m, locus, el));
        assert(r.drop_last() =~= ms.drop_last().map_values(|m: SpecLocusMember| ix_member(m, locus, el)));
        lemma_ix_members_topology(ms.drop_last(), locus, el, t, owner);
    }
}

proof fn lemma_ix_items_topology(items: Seq<SpecTopDecl>, el: EligibleMap, t: Seq<char>)
    ensures
        items_bindings(ix_items(items, el)) == items_bindings(items),
        items_pubs(ix_items(items, el), t) == items_pubs(items, t),
        items_subs(ix_items(items, el), t) == items_subs(items, t),
    decreases items,
{
    if items.len() > 0 {
        let r = ix_items(items, el);
        assert(r.drop_last() =~= ix_items(items.drop_last(), el));
        lemma_ix_items_topology(items.drop_last(), el, t);
        lemma_ix_item_topology(items[items.len() - 1], el, t);
    }
}

proof fn lemma_ix_item_topology(d: SpecTopDecl, el: EligibleMap, t: Seq<char>)
    ensures
        item_bindings(ix_item(d, el)) == item_bindings(d),
        item_pubs(ix_item(d, el), t) == item_pubs(d, t),
        item_subs(ix_item(d, el), t) == item_subs(d, t),
    decreases d,
{
    match d {
        SpecTopDecl::Locus(l) => lemma_ix_members_topology(l.members, l.name.name, el, t, l.name.name),
        SpecTopDecl::Module(m) => lemma_ix_items_topology(m.items, el, t),
        _ => {},
    }
}

/// The intra-locus rewrite leaves the program's topology in place: the
/// same topics are bound, and every topic has the same publishers and the
/// same subscribers, in the same order.
pub proof fn law_desugar_intra_locus_topics_keeps_topology(p: SpecProgram, t: Seq<char>)
    ensures
        items_bindings(spec_desugar_intra_locus_topics(p).items) == items_bindings(p.items),
        items_pubs(spec_desugar_intra_locus_topics(p).items, t) == items_pubs(p.items, t),
        items_subs(spec_desugar_intra_locus_topics(p).items, t) == items_subs(p.items, t),
{
    let el = eligible_map(p.items);
    if el.dom() != Set::<Seq<char>>::empty() {
        lemma_ix_items_topology(p.items, el, t);
    }
}

/// The intra-locus rewrite is idempotent: running it on its own output
/// changes nothing.
pub proof fn law_desugar_intra_locus_topics_idempotent(p: SpecProgram)
    ensures
        spec_desugar_intra_locus_topics(spec_desugar_intra_locus_topics(p))
            == spec_desugar_intra_locus_topics(p),
{
    let el = eligible_map(p.items);
    if el.dom() != Set::<Seq<char>>::empty() {
        let q = spec_desugar_intra_locus_topics(p);
        assert forall|t: Seq<char>| eligible_for(q.items, t) == eligible_for(p.items, t) by {
            lemma_ix_items_topology(p.items, el, t);
        }
        assert(eligible_map(q.items) =~= el);
        lemma_ix_items_idem(p.items, el);
    }
}

/// A send subject that is not an eligible topic published by `locus`.
pub open spec fn not_eligible_here(subject: SpecExpr, locus: Seq<char>, el: EligibleMap) -> bool {
    !(subject is Ident && el.contains_key(subject->Ident_0.name) && el[subject->Ident_0.name].0 == locus)
}

pub open spec fn rewritten_by(locus: Seq<char>, el: EligibleMap) -> spec_fn(SpecExpr) -> bool {
    |subject: SpecExpr| not_eligible_here(subject, locus, el)
}

/// The bodies the intra-locus rewrite walks in a locus member: lifecycle,
/// mode, method and failure bodies.
pub open spec fn member_sends_rewritten(m: SpecLocusMember, locus: Seq<char>, el: EligibleMap) -> bool {
    match m {
        SpecLocusMember::Lifecycle(lc) => block_sends_ok(lc.body, rewritten_by(locus, el)),
        SpecLocusMember::Mode(md) => block_sends_ok(md.body, rewritten_by(locus, el)),
        SpecLocusMember::Fn(fd) => block_sends_ok(fd.body, rewritten_by(locus, el)),
        SpecLocusMember::Failure(f) => block_sends_ok(f.body, rewritten_by(locus, el)),
        _ => true,
    }
}

pub open spec fn item_sends_rewritten(d: SpecTopDecl, el: EligibleMap) -> bool
    decreases d,
{
    match d {
        SpecTopDecl::Locus(l) => forall|k: int|
            0 <= k < l.members.len() ==> #[trigger] member_sends_rewritten(l.members[k], l.name.name, el),
        SpecTopDecl::Module(m) => items_sends_rewritten(m.items, el),
        _ => true,
    }
}

/// No send in a body of a locus (through modules) is on an eligible topic
/// that this locus publishes.
pub open spec fn items_sends_rewritten(items: Seq<SpecTopDecl>, el: EligibleMap) -> bool
    decreases items,
{
    if items.len() == 0 {
        true
    } else {
        items_sends_rewritten(items.drop_last(), el) && item_sends_rewritten(items[items.len() - 1], el)
    }
}

proof fn lemma_ix_expr_done(e: SpecExpr, locus: Seq<char>, el: EligibleMap)
    ensures
        expr_sends_ok(ix_expr(e, locus, el), rewritten_by(locus, el)),
    decreases e,
{
    match e {
        SpecExpr::Block(b) => lemma_ix_block_done(b, locus, el),
        SpecExpr::If(i) => lemma_ix_if_done(*i, locus, el),
        SpecExpr::Match(m) => lemma_ix_match_done(*m, locus, el),
        _ => {},
    }
}

proof fn lemma_ix_stmts_done(ss: Seq<SpecStmt>, locus: Seq<char>, el: EligibleMap)
    ensures
        stmts_sends_ok(
            Seq::new(
                ss.len(),
                |k: int|
                    if 0 <= k < ss.len() {
                        ix_stmt(ss[k], locus, el)
                    } else {
                        arbitrary()
                    },
            ),
            rewritten_by(locus, el),
        ),
    decreases ss,
{
    let r = Seq::new(
        ss.len(),
        |k: int|
            if 0 <= k < ss.len() {
                ix_stmt(ss[k], locus, el)
            } else {
                arbitrary()
            },
    );
    if ss.len() > 0 {
        let d = ss.drop_last();
        assert(r.drop_last() =~= Seq::new(
            d.len(),
            |k: int|
                if 0 <= k < d.len() {
                    ix_stmt(d[k], locus, el)
                } else {
                    arbitrary()
                },
        ));
        lemma_ix_stmts_done(d, locus, el);
        lemma_ix_stmt_done(ss[ss.len() - 1], locus, el);
    }
}

proof fn lemma_ix_block_done(b: SpecBlock, locus: Seq<char>, el: EligibleMap)
    ensures
        block_sends_ok(ix_block(b, locus, el), rewritten_by(locus, el)),
    decreases b,
{
    lemma_ix_stmts_done(b.stmts, locus, el);
    assert(ix_block(b, locus, el).stmts =~= Seq::new(
        b.stmts.len(),
        |k: int|
            if 0 <= k < b.stmts.len() {
                ix_stmt(b.stmts[k], locus, el)
            } else {
                arbitrary()
            },
    ));
    if let Some(x) = b.tail {
        lemma_ix_expr_done(*x, locus, el);
    }
}

proof fn lemma_ix_stmt_done(s: SpecStmt, locus: Seq<char>, el: EligibleMap)
    ensures
        stmt_sends_ok(ix_stmt(s, locus, el), rewritten_by(locus, el)),
    decreases s,
{
    match s {
        SpecStmt::If(i) => lemma_ix_if_done(i, locus, el),
        SpecStmt::Match(m) => lemma_ix_match_done(m, locus, el),
        SpecStmt::For { body, .. } => lemma_ix_block_done(body, locus, el),
        SpecStmt::While { body, .. } => lemma_ix_block_done(body, locus, el),
        SpecStmt::Block(b) => lemma_ix_block_done(b, locus, el),
        SpecStmt::Expr(e) => lemma_ix_expr_done(e, locus, el),
        _ => {},
    }
}

proof fn lemma_ix_if_done(i: SpecIfStmt, locus: Seq<char>, el: EligibleMap)
    ensures
        if_sends_ok(ix_if(i, locus, el), rewritten_by(locus, el)),
    decreases i,
{
    lemma_ix_block_done(i.then_block, locus, el);
    if let Some(eb) = i.else_block {
        lemma_ix_else_done(*eb, locus, el);
    }
}

proof fn lemma_ix_else_done(eb: SpecElseBranch, locus: Seq<char>, el: EligibleMap)
    ensures
        else_sends_ok(ix_else(eb, locus, el), rewritten_by(locus, el)),
    decreases eb,
{
    match eb {
        SpecElseBranch::Else(b) => lemma_ix_block_done(b, locus, el),
        SpecElseBranch::ElseIf(i) => lemma_ix_if_done(i, locus, el),
    }
}

proof fn lemma_ix_arms_done(arms: Seq<SpecMatchArm>, locus: Seq<char>, el: EligibleMap)
    ensures
        arms_sends_ok(
            Seq::new(
                arms.len(),
                |k: int|
                    if 0 <= k < arms.len() {
                        ix_arm(arms[k], locus, el)
                    } else {
                        arbitrary()
                    },
            ),
            rewritten_by(locus, el),
        ),
    decreases arms,
{
    let r = Seq::new(
        arms.len(),
        |k: int|
            if 0 <= k < arms.len() {
                ix_arm(arms[k], locus, el)
            } else {
                arbitrary()
            },
    );
    if arms.len() > 0 {
        let d = arms.drop_last();
        assert(r.drop_last() =~= Seq::new(
            d.len(),
            |k: int|
                if 0 <= k < d.len() {
                    ix_arm(d[k], locus, el)
                } else {
                    arbitrary()
                },
        ));
        lemma_ix_arms_done(d, locus, el);
        let a = arms[arms.len() - 1];
        match a.body {
            SpecMatchArmBody::Block(b) => lemma_ix_block_done(b, locus, el),
            SpecMatchArmBody::Expr(e) => lemma_ix_expr_done(e, locus, el),
        }
    }
}

proof fn lemma_ix_match_done(m: SpecMatchStmt, locus: Seq<char>, el: EligibleMap)
    ensures
        match_sends_ok(ix_match(m, locus, el), rewritten_by(locus, el)),
    decreases m,
{
    lemma_ix_arms_done(m.arms, locus, el);
    assert(ix_match(m, locus, el).arms =~= Seq::new(
        m.arms.len(),
        |k: int|
            if 0 <= k < m.arms.len() {
                ix_arm(m.arms[k], locus, el)
            } else {
                arbitrary()
            },
    ));
}

proof fn lemma_ix_items_done(items: Seq<SpecTopDecl>, el: EligibleMap)
    ensures
        items_sends_rewritten(ix_items(items, el), el),
    decreases items,
{
    if items.len() > 0 {
        let r = ix_items(items, el);
        assert(r.drop_last() =~= ix_items(items.drop_last(), el));
        lemma_ix_items_done(items.drop_last(), el);
        lemma_ix_item_done(items[items.len() - 1], el);
    }
}

proof fn lemma_ix_item_done(d: SpecTopDecl, el: EligibleMap)
    ensures
        item_sends_rewritten(ix_item(d, el), el),
    decreases d,
{
    match d {
        SpecTopDecl::Module(m) => lemma_ix_items_done(m.items, el),
        SpecTopDecl::Locus(l) => {
            let rl = ix_locus(l, el);
            assert forall|k: int| 0 <= k < rl.members.len() implies #[trigger] member_sends_rewritten(
                rl.members[k],
                rl.name.name,
                el,
            ) by {
                match l.members[k] {
                    SpecLocusMember::Lifecycle(lc) => lemma_ix_block_done(lc.body, l.name.name, el),
                    SpecLocusMember::Mode(md) => lemma_ix_block_done(md.body, l.name.name, el),
                    SpecLocusMember::Fn(fd) => lemma_ix_block_done(fd.body, l.name.name, el),
                    SpecLocusMember::Failure(f) => lemma_ix_block_done(f.body, l.name.name, el),
                    _ => {},
                }
            }
        },
        _ => {},
    }
}

proof fn lemma_ok_expr(e: SpecExpr, ok: spec_fn(SpecExpr) -> bool)
    requires
        forall|x: SpecExpr| #[trigger] ok(x),
    ensures
        expr_sends_ok(e, ok),
    decreases e,
{
    match e {
        SpecExpr::Block(b) => lemma_ok_block(b, ok),
        SpecExpr::If(i) => lemma_ok_if(*i, ok),
        SpecExpr::Match(m) => lemma_ok_arms(m.arms, ok),
        _ => {},
    }
}

proof fn lemma_ok_block(b: SpecBlock, ok: spec_fn(SpecExpr) -> bool)
    requires
        forall|x: SpecExpr| #[trigger] ok(x),
    ensures
        block_sends_ok(b, ok),
    decreases b,
{
    lemma_ok_stmts(b.stmts, ok);
    if let Some(x) = b.tail {
        lemma_ok_expr(*x, ok);
    }
}

proof fn lemma_ok_stmts(ss: Seq<SpecStmt>, ok: spec_fn(SpecExpr) -> bool)
    requires
        forall|x: SpecExpr| #[trigger] ok(x),
    ensures
        stmts_sends_ok(ss, ok),
    decreases ss,
{
    if ss.len() > 0 {
        lemma_ok_stmts(ss.drop_last(), ok);
        lemma_ok_stmt(ss[ss.len() - 1], ok);
    }
}

proof fn lemma_ok_stmt(s: SpecStmt, ok: spec_fn(SpecExpr) -> bool)
    requires
        forall|x: SpecExpr| #[trigger] ok(x),
    ensures
        stmt_sends_ok(s, ok),
    decreases s,
{
    match s {
        SpecStmt::If(i) => lemma_ok_if(i, ok),
        SpecStmt::Match(m) => lemma_ok_arms(m.arms, ok),
        SpecStmt::For { body, .. } => lemma_ok_block(body, ok),
        SpecStmt::While { body, .. } => lemma_ok_block(body, ok),
        SpecStmt::Block(b) => lemma_ok_block(b, ok),
        SpecStmt::Expr(e) => lemma_ok_expr(e, ok),
        _ => {},
    }
}

proof fn lemma_ok_if(i: SpecIfStmt, ok: spec_fn(SpecExpr) -> bool)
    requires
        forall|x: SpecExpr| #[trigger] ok(x),
    ensures
        if_sends_ok(i, ok),
    decreases i,
{
    lemma_ok_block(i.then_block, ok);
    if let Some(eb) = i.else_block {
        match *eb {
            SpecElseBranch::Else(b) => lemma_ok_block(b, ok),
            SpecElseBranch::ElseIf(i2) => lemma_ok_if(i2, ok),
        }
    }
}

proof fn lemma_ok_arms(arms: Seq<SpecMatchArm>, ok: spec_fn(SpecExpr) -> bool)
    requires
        forall|x: SpecExpr| #[trigger] ok(x),
    ensures
        arms_sends_ok(arms, ok),
    decreases arms,
{
    if arms.len() > 0 {
        lemma_ok_arms(arms.drop_last(), ok);
        match arms[arms.len() - 1].body {
            SpecMatchArmBody::Block(b) => lemma_ok_block(b, ok),
            SpecMatchArmBody::Expr(e) => lemma_ok_expr(e, ok),
        }
    }
}

proof fn lemma_nothing_eligible_items(items: Seq<SpecTopDecl>, el: EligibleMap)
    requires
        el.dom() == Set::<Seq<char>>::empty(),
    ensures
        items_sends_rewritten(items, el),
    decreases items,
{
    if items.len() > 0 {
        lemma_nothing_eligible_items(items.drop_last(), el);
        lemma_nothing_eligible_item(items[items.len() - 1], el);
    }
}

proof fn lemma_nothing_eligible_item(d: SpecTopDecl, el: EligibleMap)
    requires
        el.dom() == Set::<Seq<char>>::empty(),
    ensures
        item_sends_rewritten(d, el),
    decreases d,
{
    match d {
        SpecTopDecl::Module(m) => lemma_nothing_eligible_items(m.items, el),
        SpecTopDecl::Locus(l) => {
            let ok = rewritten_by(l.name.name, el);
            assert forall|x: SpecExpr| #[trigger] ok(x) by {
                if x is Ident {
                    assert(!el.dom().contains(x->Ident_0.name));
                }
            }
            assert forall|k: int| 0 <= k < l.members.len() implies #[trigger] member_sends_rewritten(
                l.members[k],
                l.name.name,
                el,
            ) by {
                match l.members[k] {
                    SpecLocusMember::Lifecycle(lc) => lemma_ok_block(lc.body, ok),
                    SpecLocusMember::Mode(md) => lemma_ok_block(md.body, ok),
                    SpecLocusMember::Fn(fd) => lemma_ok_block(fd.body, ok),
                    SpecLocusMember::Failure(f) => lemma_ok_block(f.body, ok),
                    _ => {},
                }
            }
        },
        _ => {},
    }
}

/// After the intra-locus rewrite, no body of a locus holds a send on an
/// eligible topic that the locus publishes: each such send has become a
/// direct call of the handler.
pub proof fn law_desugar_intra_locus_topics_rewrites_sends(p: SpecProgram)
    ensures
        items_sends_rewritten(
            spec_desugar_intra_locus_topics(p).items,
            eligible_map(spec_desugar_intra_locus_topics(p).items),
        ),
{
    let el = eligible_map(p.items);
    if el.dom() == Set::<Seq<char>>::empty() {
        lemma_nothing_eligible_items(p.items, el);
    } else {
        let q = spec_desugar_intra_locus_topics(p);
        assert forall|t: Seq<char>| eligible_for(q.items, t) == eligible_for(p.items, t) by {
            lemma_ix_items_topology(p.items, el, t);
        }
        assert(eligible_map(q.items) =~= el);
        lemma_ix_items_done(p.items, el);
    }
}

proof fn lemma_literal_bus(bms: Seq<SpecBusMember>, topic: Seq<char>, locus: Seq<char>)
    requires
        forall|j: int| 0 <= j < bms.len() ==> match #[trigger] bms[j] {
            SpecBusMember::Subscribe { subject, .. } => subject is Literal,
            SpecBusMember::Publish { subject, .. } => subject is Literal,
        },
    ensures
        bus_pubs(bms, topic, locus).len() == 0,
        bus_subs(bms, topic, locus).len() == 0,
    decreases bms.len(),
{
    if bms.len() > 0 {
        let last = bms[bms.len() - 1];
        assert(last == bms.last());
        lemma_literal_bus(bms.drop_last(), topic, locus);
    }
}

proof fn lemma_literal_members(ms: Seq<SpecLocusMember>, topic: Seq<char>, locus: Seq<char>)
    requires
        forall|i: int, j: int|
            0 <= i < ms.len() && ms[i] is Bus && 0 <= j < ms[i]->Bus_0.members.len() ==> match #[trigger] ms[i]->Bus_0.members[j] {
                SpecBusMember::Subscribe { subject, .. } => subject is Literal,
                SpecBusMember::Publish { subject, .. } => subject is Literal,
            },
    ensures
        members_pubs(ms, topic, locus).len() == 0,
        members_subs(ms, topic, locus).len() == 0,
    decreases ms.len(),
{
    if ms.len() > 0 {
        let k = ms.len() - 1;
        assert(ms.last() == ms[k]);
        assert forall|i: int, j: int|
            0 <= i < ms.drop_last().len() && ms.drop_last()[i] is Bus && 0 <= j
                < ms.drop_last()[i]->Bus_0.members.len() implies match #[trigger] ms.drop_last()[i]->Bus_0.members[j] {
                SpecBusMember::Subscribe { subject, .. } => subject is Literal,
                SpecBusMember::Publish { subject, .. } => subject is Literal,
            } by {
            assert(ms.drop_last()[i] == ms[i]);
        }
        lemma_literal_members(ms.drop_last(), topic, locus);
        if let SpecLocusMember::Bus(bb) = ms[k] {
            assert forall|j: int| 0 <= j < bb.members.len() implies match #[trigger] bb.members[j] {
                SpecBusMember::Subscribe { subject, .. } => subject is Literal,
                SpecBusMember::Publish { subject, .. } => subject is Literal,
            } by {
                assert(ms[k]->Bus_0.members[j] == bb.members[j]);
            }
            lemma_literal_bus(bb.members, topic, locus);
        }
    }
}

proof fn lemma_literal_items(items: Seq<SpecTopDecl>, topic: Seq<char>)
    requires
        bus_subjects_literal(items),
    ensures
        items_pubs(items, topic).len() == 0,
        items_subs(items, topic).len() == 0,
    decreases items,
{
    if items.len() > 0 {
        lemma_literal_items(items.drop_last(), topic);
        lemma_literal_item(items[items.len() - 1], topic);
    }
}

proof fn lemma_literal_item(d: SpecTopDecl, topic: Seq<char>)
    requires
        item_bus_subjects_literal(d),
    ensures
        item_pubs(d, topic).len() == 0,
        item_subs(d, topic).len() == 0,
    decreases d,
{
    match d {
        SpecTopDecl::Module(m) => lemma_literal_items(m.items, topic),
        SpecTopDecl::Locus(l) => lemma_literal_members(l.members, topic, l.name.name),
        _ => {},
    }
}

/// The intra-locus rewrite finds nothing to do after topic desugaring:
/// running it on a program whose topics are desugared changes nothing.
pub proof fn law_intra_locus_after_topic_desugaring_changes_nothing(p: SpecProgram)
    ensures
        spec_desugar_intra_locus_topics(spec_desugar_topics(p)) == spec_desugar_topics(p),
{
    let q = spec_desugar_topics(p);
    law_desugar_topics_leaves_literal_subjects(p);
    assert forall|t: Seq<char>| !eligible_map(q.items).dom().contains(t) by {
        lemma_literal_items(q.items, t);
    }
    assert(eligible_map(q.items).dom() =~= Set::<Seq<char>>::empty());
}

/// A topic is eligible for the direct-call rewrite exactly when the whole
/// program has one publish entry and one subscribe entry for it, both in
/// the same locus, and no binding refers to it; sends on it then call the
/// handler of that one subscribe entry.
pub proof fn law_eligible_topics_have_one_publisher_and_one_subscriber(items: Seq<SpecTopDecl>, t: Seq<char>)
    ensures
        eligible_map(items).contains_key(t) <==> (items_pubs(items, t).len() == 1 && items_subs(
            items,
            t,
        ).len() == 1 && items_subs(items, t)[0].0 == items_pubs(items, t)[0] && !items_bindings(
            items,
        ).contains(t)),
        eligible_map(items).contains_key(t) ==> eligible_map(items)[t] == (
            items_pubs(items, t)[0],
            items_subs(items, t)[0].1,
        ),
        items_subs(items, t).len() >= 2 ==> !eligible_map(items).contains_key(t),
{
}

} // verus!
