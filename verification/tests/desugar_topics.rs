use hale::ast::{
    Block, BusBlock, BusMember, BusSubject, ElseBranch, Expr, FailureDecl, FnDecl, Ident, IfStmt,
    Literal, LocusDecl, LocusMember, MatchArm, MatchArmBody, MatchStmt, ModuleDecl, Program, Span,
    Stmt, TopDecl, TopicDecl, TypeExpr,
};
use hale::desugar::desugar_topics;
use hale::intra_locus::desugar_intra_locus_topics;

fn sp(start: usize) -> Span {
    Span { start, end: start + 1 }
}

fn id(name: &str, at: usize) -> Ident {
    Ident { name: name.to_string(), span: sp(at) }
}

fn ty(name: &str) -> TypeExpr {
    TypeExpr { name: name.to_string(), span: sp(900) }
}

fn topic(name: &str, payload: &str, parent: Option<&str>, subject: Option<&str>) -> TopDecl {
    TopDecl::Topic(TopicDecl {
        name: id(name, 1),
        payload: ty(payload),
        parent: parent.map(|p| id(p, 2)),
        subject: subject.map(|s| s.to_string()),
        span: sp(0),
    })
}

fn block(stmts: Vec<Stmt>) -> Block {
    Block { stmts, tail: None, span: sp(50) }
}

fn send(topic: &str, at: usize) -> Stmt {
    Stmt::Send {
        subject: Expr::Ident(id(topic, at)),
        value: Expr::Literal(Literal::Int(7), sp(at + 1)),
        span: sp(at),
    }
}

fn literal_send(wire: &str, at: usize) -> Stmt {
    Stmt::Send {
        subject: Expr::Literal(Literal::String(wire.to_string()), sp(at)),
        value: Expr::Literal(Literal::Int(7), sp(at + 1)),
        span: sp(at),
    }
}

fn method(name: &str, body: Block) -> LocusMember {
    LocusMember::Fn(FnDecl { name: id(name, 60), params: vec![], ret: None, body, span: sp(60) })
}

fn locus(name: &str, members: Vec<LocusMember>) -> TopDecl {
    TopDecl::Locus(LocusDecl { name: id(name, 70), members, span: sp(70) })
}

fn bus(members: Vec<BusMember>) -> LocusMember {
    LocusMember::Bus(BusBlock { members, span: sp(80) })
}

fn sub_topic(topic: &str, handler: &str) -> BusMember {
    BusMember::Subscribe {
        subject: BusSubject::Topic(id(topic, 81)),
        ty: None,
        handler: id(handler, 82),
        span: sp(83),
    }
}

fn pub_topic(topic: &str) -> BusMember {
    BusMember::Publish { subject: BusSubject::Topic(id(topic, 84)), ty: None, span: sp(85) }
}

fn wire_of(p: &Program, locus_index: usize) -> Vec<(String, Option<String>)> {
    let mut out = Vec::new();
    if let TopDecl::Locus(l) = &p.items[locus_index] {
        for m in &l.members {
            if let LocusMember::Bus(bb) = m {
                for bm in &bb.members {
                    let (s, t) = match bm {
                        BusMember::Subscribe { subject, ty, .. } => (subject, ty),
                        BusMember::Publish { subject, ty, .. } => (subject, ty),
                    };
                    match s {
                        BusSubject::Literal { subject, .. } => {
                            out.push((subject.clone(), t.as_ref().map(|x| x.name.clone())))
                        }
                        BusSubject::Topic(i) => out.push((format!("topic:{}", i.name), None)),
                    }
                }
            }
        }
    }
    out
}

#[test]
fn top_level_topic_uses_its_name_as_wire_subject() {
    let mut p = Program {
        items: vec![
            topic("JoinQueue", "Player", None, None),
            locus(
                "Matchmaker",
                vec![
                    bus(vec![sub_topic("JoinQueue", "on_join"), pub_topic("JoinQueue")]),
                    method("on_join", block(vec![send("JoinQueue", 100)])),
                ],
            ),
        ],
    };
    desugar_topics(&mut p);
    assert_eq!(
        wire_of(&p, 1),
        vec![
            ("JoinQueue".to_string(), Some("Player".to_string())),
            ("JoinQueue".to_string(), Some("Player".to_string())),
        ]
    );
    if let TopDecl::Locus(l) = &p.items[1] {
        if let LocusMember::Fn(f) = &l.members[1] {
            assert_eq!(f.body.stmts[0], literal_send("JoinQueue", 100));
        } else {
            panic!("expected a method");
        }
    } else {
        panic!("expected a locus");
    }
}

#[test]
fn subject_span_is_the_topic_reference_span() {
    let mut p = Program {
        items: vec![topic("T", "Int", None, None), locus("L", vec![bus(vec![pub_topic("T")])])],
    };
    desugar_topics(&mut p);
    if let TopDecl::Locus(l) = &p.items[1] {
        if let LocusMember::Bus(bb) = &l.members[0] {
            assert_eq!(
                bb.members[0],
                BusMember::Publish {
                    subject: BusSubject::Literal { subject: "T".to_string(), span: sp(84) },
                    ty: Some(ty("Int")),
                    span: sp(85),
                }
            );
            return;
        }
    }
    panic!("unexpected shape");
}

#[test]
fn parent_chain_is_joined_root_first() {
    let mut p = Program {
        items: vec![
            topic("Root", "Int", None, Some("app")),
            topic("Mid", "Int", Some("Root"), Some("orders")),
            topic("Leaf", "Int", Some("Mid"), None),
            locus("L", vec![bus(vec![pub_topic("Leaf"), pub_topic("Mid"), pub_topic("Root")])]),
        ],
    };
    desugar_topics(&mut p);
    let w: Vec<String> = wire_of(&p, 3).into_iter().map(|(s, _)| s).collect();
    assert_eq!(w, vec!["app.orders.Leaf", "app.orders", "app"]);
}

#[test]
fn parent_cycle_falls_back_to_own_subject() {
    let mut p = Program {
        items: vec![
            topic("A", "Int", Some("B"), Some("a")),
            topic("B", "Int", Some("A"), Some("b")),
            locus("L", vec![bus(vec![pub_topic("A"), pub_topic("B")])]),
        ],
    };
    desugar_topics(&mut p);
    let w: Vec<String> = wire_of(&p, 2).into_iter().map(|(s, _)| s).collect();
    assert_eq!(w, vec!["a", "b"]);
}

#[test]
fn cycle_above_the_parent_falls_back_to_own_subject() {
    let mut p = Program {
        items: vec![
            topic("A", "Int", Some("B"), Some("a")),
            topic("B", "Int", Some("C"), Some("b")),
            topic("C", "Int", Some("B"), Some("c")),
            locus("L", vec![bus(vec![pub_topic("A")])]),
        ],
    };
    desugar_topics(&mut p);
    assert_eq!(wire_of(&p, 3), vec![("a".to_string(), Some("Int".to_string()))]);
}

#[test]
fn missing_grandparent_falls_back_to_own_subject() {
    let mut p = Program {
        items: vec![
            topic("A", "Int", Some("B"), Some("a")),
            topic("B", "Int", Some("Nowhere"), Some("b")),
            locus("L", vec![bus(vec![pub_topic("A"), pub_topic("B")])]),
        ],
    };
    desugar_topics(&mut p);
    let w: Vec<String> = wire_of(&p, 2).into_iter().map(|(s, _)| s).collect();
    assert_eq!(w, vec!["a", "b"]);
}

#[test]
fn missing_parent_falls_back_to_own_subject() {
    let mut p = Program {
        items: vec![
            topic("A", "Int", Some("Nowhere"), Some("a")),
            locus("L", vec![bus(vec![pub_topic("A")])]),
        ],
    };
    desugar_topics(&mut p);
    assert_eq!(wire_of(&p, 1), vec![("a".to_string(), Some("Int".to_string()))]);
}

#[test]
fn unknown_topic_reference_keeps_its_name() {
    let mut p = Program { items: vec![locus("L", vec![bus(vec![sub_topic("Ghost", "h")])])] };
    desugar_topics(&mut p);
    assert_eq!(wire_of(&p, 0), vec![("Ghost".to_string(), None)]);
}

#[test]
fn declared_type_is_not_replaced() {
    let mut p = Program {
        items: vec![
            topic("T", "Int", None, None),
            locus(
                "L",
                vec![bus(vec![BusMember::Subscribe {
                    subject: BusSubject::Topic(id("T", 3)),
                    ty: Some(ty("Str")),
                    handler: id("h", 4),
                    span: sp(5),
                }])],
            ),
        ],
    };
    desugar_topics(&mut p);
    assert_eq!(wire_of(&p, 1), vec![("T".to_string(), Some("Str".to_string()))]);
}

#[test]
fn later_declaration_of_a_name_wins() {
    let mut p = Program {
        items: vec![
            topic("T", "Int", None, Some("first")),
            topic("T", "Str", None, Some("second")),
            locus("L", vec![bus(vec![pub_topic("T")])]),
        ],
    };
    desugar_topics(&mut p);
    assert_eq!(wire_of(&p, 2), vec![("second".to_string(), Some("Str".to_string()))]);
}

fn nested_program() -> Program {
    let if_stmt = IfStmt {
        cond: Expr::Literal(Literal::Bool(true), sp(10)),
        then_block: block(vec![send("T", 11)]),
        else_block: Some(Box::new(ElseBranch::ElseIf(IfStmt {
            cond: Expr::Literal(Literal::Bool(false), sp(12)),
            then_block: block(vec![send("T", 13)]),
            else_block: Some(Box::new(ElseBranch::Else(block(vec![send("T", 14)])))),
            span: sp(12),
        }))),
        span: sp(10),
    };
    let m = MatchStmt {
        scrutinee: Expr::Ident(id("x", 20)),
        arms: vec![
            MatchArm {
                pattern: Expr::Literal(Literal::Int(1), sp(21)),
                body: MatchArmBody::Block(block(vec![send("T", 22)])),
                span: sp(21),
            },
            MatchArm {
                pattern: Expr::Literal(Literal::Int(2), sp(23)),
                body: MatchArmBody::Expr(Expr::Block(block(vec![send("T", 24)]))),
                span: sp(23),
            },
        ],
        span: sp(20),
    };
    let body = Block {
        stmts: vec![
            Stmt::If(if_stmt),
            Stmt::Match(m),
            Stmt::While {
                cond: Expr::Literal(Literal::Bool(true), sp(30)),
                body: block(vec![send("T", 31)]),
                span: sp(30),
            },
            Stmt::For {
                var: id("i", 32),
                iter: Expr::Ident(id("xs", 33)),
                body: block(vec![send("T", 34)]),
                span: sp(32),
            },
            Stmt::Block(block(vec![send("T", 35)])),
            send("NotATopic", 36),
        ],
        tail: Some(Box::new(Expr::Block(block(vec![send("T", 37)])))),
        span: sp(9),
    };
    Program {
        items: vec![TopDecl::Module(ModuleDecl {
            name: id("m", 1),
            items: vec![
                topic("T", "Int", None, Some("t")),
                locus(
                    "L",
                    vec![
                        method("run", body),
                        LocusMember::Failure(FailureDecl {
                            param: id("e", 40),
                            body: block(vec![send("T", 41)]),
                            span: sp(40),
                        }),
                    ],
                ),
            ],
            span: sp(0),
        })],
    }
}

fn collect_send_subjects(b: &Block, out: &mut Vec<String>) {
    for s in &b.stmts {
        collect_stmt(s, out);
    }
    if let Some(t) = &b.tail {
        collect_expr(t, out);
    }
}

fn collect_expr(e: &Expr, out: &mut Vec<String>) {
    match e {
        Expr::Block(b) => collect_send_subjects(b, out),
        Expr::If(i) => collect_if(i, out),
        Expr::Match(m) => collect_match(m, out),
        _ => {}
    }
}

fn collect_if(i: &IfStmt, out: &mut Vec<String>) {
    collect_send_subjects(&i.then_block, out);
    if let Some(eb) = &i.else_block {
        match eb.as_ref() {
            ElseBranch::Else(b) => collect_send_subjects(b, out),
            ElseBranch::ElseIf(i2) => collect_if(i2, out),
        }
    }
}

fn collect_match(m: &MatchStmt, out: &mut Vec<String>) {
    for a in &m.arms {
        match &a.body {
            MatchArmBody::Block(b) => collect_send_subjects(b, out),
            MatchArmBody::Expr(e) => collect_expr(e, out),
        }
    }
}

fn collect_stmt(s: &Stmt, out: &mut Vec<String>) {
    match s {
        Stmt::Send { subject, .. } => match subject {
            Expr::Ident(i) => out.push(format!("ident:{}", i.name)),
            Expr::Literal(Literal::String(w), _) => out.push(format!("wire:{}", w)),
            _ => out.push("other".to_string()),
        },
        Stmt::If(i) => collect_if(i, out),
        Stmt::Match(m) => collect_match(m, out),
        Stmt::For { body, .. } | Stmt::While { body, .. } | Stmt::Block(body) => {
            collect_send_subjects(body, out)
        }
        Stmt::Expr(e) => collect_expr(e, out),
        _ => {}
    }
}

#[test]
fn sends_in_nested_control_flow_are_rewritten() {
    let mut p = nested_program();
    desugar_topics(&mut p);
    let mut got = Vec::new();
    if let TopDecl::Module(m) = &p.items[0] {
        if let TopDecl::Locus(l) = &m.items[1] {
            if let LocusMember::Fn(f) = &l.members[0] {
                collect_send_subjects(&f.body, &mut got);
            }
            if let LocusMember::Failure(f) = &l.members[1] {
                collect_send_subjects(&f.body, &mut got);
            }
        }
    }
    let mut expected: Vec<String> = vec!["wire:t".to_string(); 9];
    expected.insert(8, "ident:NotATopic".to_string());
    expected.push("wire:t".to_string());
    assert_eq!(got, expected);
}

#[test]
fn desugaring_twice_changes_nothing_more() {
    let mut once = nested_program();
    desugar_topics(&mut once);
    let mut twice = nested_program();
    desugar_topics(&mut twice);
    desugar_topics(&mut twice);
    assert_eq!(once, twice);
}

#[test]
fn program_without_topics_is_unchanged() {
    let mut p = Program {
        items: vec![locus("L", vec![method("run", block(vec![send("x", 1)]))])],
    };
    desugar_topics(&mut p);
    let q = Program { items: vec![locus("L", vec![method("run", block(vec![send("x", 1)]))])] };
    assert_eq!(p, q);
}

#[test]
fn top_level_function_bodies_are_rewritten() {
    let mut p = Program {
        items: vec![
            topic("T", "Int", None, Some("wire")),
            TopDecl::Fn(FnDecl {
                name: id("main", 1),
                params: vec![],
                ret: None,
                body: block(vec![send("T", 5)]),
                span: sp(1),
            }),
        ],
    };
    desugar_topics(&mut p);
    if let TopDecl::Fn(f) = &p.items[1] {
        assert_eq!(f.body.stmts[0], literal_send("wire", 5));
    } else {
        panic!("expected a function");
    }
}

#[test]
fn topic_declarations_are_left_alone() {
    let mut p = Program {
        items: vec![
            topic("Root", "Int", None, Some("app")),
            topic("Leaf", "Str", Some("Root"), None),
            locus("L", vec![bus(vec![pub_topic("Leaf")])]),
        ],
    };
    desugar_topics(&mut p);
    assert_eq!(p.items[0], topic("Root", "Int", None, Some("app")));
    assert_eq!(p.items[1], topic("Leaf", "Str", Some("Root"), None));
}

fn self_publishing_program() -> Program {
    Program {
        items: vec![
            topic("T", "Int", None, Some("t")),
            locus(
                "L",
                vec![
                    bus(vec![pub_topic("T"), sub_topic("T", "on_t")]),
                    method("run", block(vec![send("T", 40)])),
                ],
            ),
        ],
    }
}

#[test]
fn intra_locus_pass_after_topic_desugaring_changes_nothing() {
    let mut once = self_publishing_program();
    desugar_topics(&mut once);
    let mut then_intra = self_publishing_program();
    desugar_topics(&mut then_intra);
    desugar_intra_locus_topics(&mut then_intra);
    assert_eq!(then_intra, once);
}
