use hale::ast::{
    BindingEntry, BindingsBlock, Block, BusBlock, BusMember, BusSubject, Expr, FailureDecl, FnDecl,
    Ident, LifecycleDecl, Literal, LocusDecl, LocusMember, ModuleDecl, Program, Span, Stmt, TopDecl,
    TopicDecl, TypeExpr,
};
use hale::desugar::desugar_topics;
use hale::intra_locus::desugar_intra_locus_topics;

fn sp(start: usize) -> Span {
    Span { start, end: start + 1 }
}

fn id(name: &str, at: usize) -> Ident {
    Ident { name: name.to_string(), span: sp(at) }
}

fn topic(name: &str) -> TopDecl {
    TopDecl::Topic(TopicDecl {
        name: id(name, 1),
        payload: TypeExpr { name: "Int".to_string(), span: sp(2) },
        parent: None,
        subject: None,
        span: sp(0),
    })
}

fn block(stmts: Vec<Stmt>) -> Block {
    Block { stmts, tail: None, span: sp(50) }
}

fn send(topic: &str, at: usize) -> Stmt {
    Stmt::Send {
        subject: Expr::Ident(id(topic, at)),
        value: Expr::Literal(Literal::Int(42), sp(at + 1)),
        span: sp(at),
    }
}

fn direct_call(handler: &str, at: usize) -> Stmt {
    Stmt::Expr(Expr::Call {
        callee: Box::new(Expr::Field {
            receiver: Box::new(Expr::KwSelf(sp(at))),
            name: Ident { name: handler.to_string(), span: sp(at) },
            span: sp(at),
        }),
        args: vec![Expr::Literal(Literal::Int(42), sp(at + 1))],
        span: sp(at),
    })
}

fn method(name: &str, stmts: Vec<Stmt>) -> LocusMember {
    LocusMember::Fn(FnDecl { name: id(name, 60), params: vec![], ret: None, body: block(stmts), span: sp(60) })
}

fn locus(name: &str, members: Vec<LocusMember>) -> TopDecl {
    TopDecl::Locus(LocusDecl { name: id(name, 70), members, span: sp(70) })
}

fn bus(members: Vec<BusMember>) -> LocusMember {
    LocusMember::Bus(BusBlock { members, span: sp(80) })
}

fn sub_topic(topic: &str, handler: &str) -> BusMember {
    BusMember::Subscribe {
        subject: BusSubject::Topic(id(topic, 81)),
        ty: None,
        handler: id(handler, 82),
        span: sp(83),
    }
}

fn pub_topic(topic: &str) -> BusMember {
    BusMember::Publish { subject: BusSubject::Topic(id(topic, 84)), ty: None, span: sp(85) }
}

fn binding(topic: &str) -> LocusMember {
    LocusMember::Bindings(BindingsBlock {
        entries: vec![BindingEntry { topic: id(topic, 90), target: id("udp", 91), span: sp(90) }],
        span: sp(90),
    })
}

fn first_stmt_of_method(p: &Program, item: usize, member: usize) -> &Stmt {
    if let TopDecl::Locus(l) = &p.items[item] {
        if let LocusMember::Fn(f) = &l.members[member] {
            return &f.body.stmts[0];
        }
    }
    panic!("unexpected shape")
}

fn self_contained(name: &str, extra: Vec<LocusMember>) -> TopDecl {
    let mut members = vec![
        bus(vec![pub_topic("Tick"), sub_topic("Tick", "on_tick")]),
        method("run", vec![send("Tick", 100)]),
        method("on_tick", vec![]),
    ];
    members.extend(extra);
    locus(name, members)
}

#[test]
fn same_locus_publish_and_subscribe_becomes_direct_call() {
    let mut p = Program { items: vec![topic("Tick"), self_contained("Clock", vec![])] };
    desugar_intra_locus_topics(&mut p);
    assert_eq!(first_stmt_of_method(&p, 1, 1), &direct_call("on_tick", 100));
}

#[test]
fn bus_entries_stay_in_place() {
    let mut p = Program { items: vec![topic("Tick"), self_contained("Clock", vec![])] };
    desugar_intra_locus_topics(&mut p);
    if let TopDecl::Locus(l) = &p.items[1] {
        assert_eq!(l.members[0], bus(vec![pub_topic("Tick"), sub_topic("Tick", "on_tick")]));
    } else {
        panic!("expected a locus");
    }
}

#[test]
fn bound_topic_is_not_optimized() {
    let mut p = Program { items: vec![topic("Tick"), self_contained("Clock", vec![binding("Tick")])] };
    desugar_intra_locus_topics(&mut p);
    assert_eq!(first_stmt_of_method(&p, 1, 1), &send("Tick", 100));
}

#[test]
fn binding_in_another_locus_also_blocks() {
    let mut p = Program {
        items: vec![topic("Tick"), self_contained("Clock", vec![]), locus("Wire", vec![binding("Tick")])],
    };
    desugar_intra_locus_topics(&mut p);
    assert_eq!(first_stmt_of_method(&p, 1, 1), &send("Tick", 100));
}

#[test]
fn second_publisher_blocks_the_rewrite() {
    let mut p = Program {
        items: vec![
            topic("Tick"),
            self_contained("Clock", vec![]),
            locus("Other", vec![bus(vec![pub_topic("Tick")])]),
        ],
    };
    desugar_intra_locus_topics(&mut p);
    assert_eq!(first_stmt_of_method(&p, 1, 1), &send("Tick", 100));
}

#[test]
fn second_subscriber_blocks_the_rewrite() {
    let mut p = Program {
        items: vec![
            topic("Tick"),
            self_contained("Clock", vec![]),
            locus("Other", vec![bus(vec![sub_topic("Tick", "h")])]),
        ],
    };
    desugar_intra_locus_topics(&mut p);
    assert_eq!(first_stmt_of_method(&p, 1, 1), &send("Tick", 100));
}

#[test]
fn publisher_and_subscriber_in_different_loci_are_not_optimized() {
    let mut p = Program {
        items: vec![
            topic("Tick"),
            locus("A", vec![bus(vec![pub_topic("Tick")]), method("run", vec![send("Tick", 5)])]),
            locus("B", vec![bus(vec![sub_topic("Tick", "on_tick")])]),
        ],
    };
    desugar_intra_locus_topics(&mut p);
    assert_eq!(first_stmt_of_method(&p, 1, 1), &send("Tick", 5));
}

#[test]
fn sends_outside_the_publisher_locus_are_kept() {
    let mut p = Program {
        items: vec![
            topic("Tick"),
            self_contained("Clock", vec![]),
            locus("Stranger", vec![method("poke", vec![send("Tick", 7)])]),
        ],
    };
    desugar_intra_locus_topics(&mut p);
    assert_eq!(first_stmt_of_method(&p, 1, 1), &direct_call("on_tick", 100));
    assert_eq!(first_stmt_of_method(&p, 2, 0), &send("Tick", 7));
}

#[test]
fn failure_and_lifecycle_bodies_are_rewritten() {
    let extra = vec![
        LocusMember::Failure(FailureDecl { param: id("e", 1), body: block(vec![send("Tick", 200)]), span: sp(1) }),
        LocusMember::Lifecycle(LifecycleDecl { name: id("on_start", 1), body: block(vec![send("Tick", 300)]), span: sp(1) }),
    ];
    let mut p = Program { items: vec![topic("Tick"), self_contained("Clock", extra)] };
    desugar_intra_locus_topics(&mut p);
    if let TopDecl::Locus(l) = &p.items[1] {
        if let LocusMember::Failure(f) = &l.members[3] {
            assert_eq!(f.body.stmts[0], direct_call("on_tick", 200));
        } else {
            panic!("expected a failure handler");
        }
        if let LocusMember::Lifecycle(lc) = &l.members[4] {
            assert_eq!(lc.body.stmts[0], direct_call("on_tick", 300));
        } else {
            panic!("expected a lifecycle method");
        }
    } else {
        panic!("expected a locus");
    }
}

#[test]
fn loci_inside_modules_are_rewritten() {
    let mut p = Program {
        items: vec![TopDecl::Module(ModuleDecl {
            name: id("m", 1),
            items: vec![topic("Tick"), self_contained("Clock", vec![])],
            span: sp(1),
        })],
    };
    desugar_intra_locus_topics(&mut p);
    if let TopDecl::Module(m) = &p.items[0] {
        if let TopDecl::Locus(l) = &m.items[1] {
            if let LocusMember::Fn(f) = &l.members[1] {
                assert_eq!(f.body.stmts[0], direct_call("on_tick", 100));
                return;
            }
        }
    }
    panic!("unexpected shape");
}

#[test]
fn top_level_functions_are_not_rewritten() {
    let mut p = Program {
        items: vec![
            topic("Tick"),
            self_contained("Clock", vec![]),
            TopDecl::Fn(FnDecl { name: id("main", 1), params: vec![], ret: None, body: block(vec![send("Tick", 9)]), span: sp(1) }),
        ],
    };
    desugar_intra_locus_topics(&mut p);
    if let TopDecl::Fn(f) = &p.items[2] {
        assert_eq!(f.body.stmts[0], send("Tick", 9));
    } else {
        panic!("expected a function");
    }
}

#[test]
fn intra_rewrite_twice_changes_nothing_more() {
    let mut once = Program { items: vec![topic("Tick"), self_contained("Clock", vec![])] };
    desugar_intra_locus_topics(&mut once);
    let mut twice = Program { items: vec![topic("Tick"), self_contained("Clock", vec![])] };
    desugar_intra_locus_topics(&mut twice);
    desugar_intra_locus_topics(&mut twice);
    assert_eq!(once, twice);
}

#[test]
fn intra_rewrite_then_topic_desugaring() {
    let mut p = Program {
        items: vec![
            topic("Tick"),
            topic("Log"),
            locus(
                "Clock",
                vec![
                    bus(vec![pub_topic("Tick"), sub_topic("Tick", "on_tick"), pub_topic("Log")]),
                    method("run", vec![send("Tick", 100), send("Log", 110)]),
                ],
            ),
            locus("Sink", vec![bus(vec![sub_topic("Log", "on_log")])]),
        ],
    };
    desugar_intra_locus_topics(&mut p);
    desugar_topics(&mut p);
    if let TopDecl::Locus(l) = &p.items[2] {
        if let LocusMember::Fn(f) = &l.members[1] {
            assert_eq!(f.body.stmts[0], direct_call("on_tick", 100));
            assert_eq!(
                f.body.stmts[1],
                Stmt::Send {
                    subject: Expr::Literal(Literal::String("Log".to_string()), sp(110)),
                    value: Expr::Literal(Literal::Int(42), sp(111)),
                    span: sp(110),
                }
            );
            return;
        }
    }
    panic!("unexpected shape");
}
