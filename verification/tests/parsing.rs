use gemc::ast::BinOp;
use gemc::ast::Expr;
use gemc::ast::GemFile;
use gemc::ast::LogicFile;
use gemc::ast::Stmt;
use gemc::ast::UnOp;
use gemc::ast::Value;
use gemc::lexer::Lexer;
use gemc::parser::Parser;
use gemc::pipeline::lex_source;
use gemc::pipeline::parse_logic;
use gemc::pipeline::parse_scene;

fn scene(text: &str) -> Result<GemFile, String> {
    parse_scene(lex_source(text)?)
}

fn logic(text: &str) -> Result<LogicFile, String> {
    parse_logic(lex_source(text)?)
}

#[test]
fn parse_minimal_scene() {
    let f = scene("Root : Gem {}").unwrap();
    assert_eq!(f.root.name, "Root");
    assert_eq!(f.root.gem_type, "Gem");
    assert!(f.root.properties.is_empty());
    assert!(f.root.children.is_empty());
}

#[test]
fn parse_scene_with_properties_and_children() {
    let f = scene(
        "Root : Gem {\n  position: (0, 0)\n  speed: 3.5\n  label: \"hi\"\n  flag: true\n  Child : Sprite {}\n}",
    )
    .unwrap();
    assert_eq!(f.root.properties.len(), 4);
    assert_eq!(f.root.properties[0].key, "position");
    assert_eq!(
        f.root.properties[0].value,
        Value::Tuple(vec![Value::Integer(0), Value::Integer(0)])
    );
    assert_eq!(
        f.root.properties[1].value,
        Value::Number(String::from("3.5"))
    );
    assert_eq!(f.root.properties[2].value, Value::String(String::from("hi")));
    assert_eq!(f.root.properties[3].value, Value::Bool(true));
    assert_eq!(f.root.children.len(), 1);
    assert_eq!(f.root.children[0].name, "Child");
    assert_eq!(f.root.children[0].gem_type, "Sprite");
}

#[test]
fn parse_bare_directive_becomes_link_property() {
    let f = scene("Root : Gem { #assets:player }").unwrap();
    assert_eq!(f.root.properties.len(), 1);
    assert_eq!(f.root.properties[0].key, "link");
    assert_eq!(
        f.root.properties[0].value,
        Value::Directive(vec![String::from("assets"), String::from("player")])
    );
}

#[test]
fn parse_directive_value() {
    let f = scene("Root : Gem { scene: #menu:main }").unwrap();
    assert_eq!(
        f.root.properties[0].value,
        Value::Directive(vec![String::from("menu"), String::from("main")])
    );
}

#[test]
fn parse_scene_errors() {
    assert_eq!(
        scene("root : Gem {}").unwrap_err(),
        "Expected Gem name (Uppercase identifier)"
    );
    assert_eq!(scene("Root").unwrap_err(), "Expected Colon, got None");
    assert_eq!(scene("Root : Gem { x: # }").unwrap_err(), "Empty directive");
    assert_eq!(
        scene("Root : Gem { 5 }").unwrap_err(),
        "Unexpected token in Gem body: Integer(5)"
    );
    // a scene file is exactly one declaration: leftovers are an error
    assert_eq!(
        scene("Root : Gem {} extra").unwrap_err(),
        "Unexpected token after root declaration: Ident(\"extra\")"
    );
    assert_eq!(
        scene("Root : Gem {} }").unwrap_err(),
        "Unexpected token after root declaration: RBrace"
    );
}

#[test]
fn parse_logic_event_and_spawn() {
    // one handler, recognized by the reserved name prefix, holding one spawn
    let l = logic("extend Gem fn on_ready() { spawn Sprite { x: 1 } }").unwrap();
    assert_eq!(l.extend_type, "Gem");
    assert_eq!(l.doc_comment, None);
    assert_eq!(l.functions.len(), 0);
    assert_eq!(l.events.len(), 1);
    let ev = &l.events[0];
    assert_eq!(ev.name, "on_ready");
    assert!(ev.params.is_empty());
    assert_eq!(ev.body.statements.len(), 1);
    match &ev.body.statements[0] {
        Stmt::Spawn {
            gem_type,
            properties,
        } => {
            assert_eq!(gem_type, "Sprite");
            assert_eq!(properties.len(), 1);
            assert_eq!(properties[0].key, "x");
            assert_eq!(properties[0].value, Value::Integer(1));
        }
        other => panic!("expected a spawn statement, got {:?}", other),
    }
}

#[test]
fn parse_logic_doc_comment_and_function() {
    let l = logic("/// the doc\nextend Gem fn helper(a, b) { a = b }").unwrap();
    assert_eq!(l.doc_comment, Some(String::from("the doc")));
    assert_eq!(l.events.len(), 0);
    assert_eq!(l.functions.len(), 1);
    let f = &l.functions[0];
    assert_eq!(f.name, "helper");
    assert_eq!(f.params, vec![String::from("a"), String::from("b")]);
    assert_eq!(
        f.body.statements[0],
        Stmt::Assignment {
            target: String::from("a"),
            value: Expr::Ident(String::from("b")),
        }
    );
}

fn first_assigned_expr(text: &str) -> Expr {
    let l = logic(text).unwrap();
    let mut f = l.functions.into_iter().next().unwrap();
    match f.body.statements.remove(0) {
        Stmt::Assignment { value, .. } => value,
        other => panic!("expected an assignment, got {:?}", other),
    }
}

#[test]
fn parse_precedence_mul_over_add() {
    // a + b * c groups the product under the sum, never the reverse
    let e = first_assigned_expr("extend T fn f() { x = a + b * c }");
    assert_eq!(
        e,
        Expr::BinaryOp {
            op: BinOp::Add,
            left: Box::new(Expr::Ident(String::from("a"))),
            right: Box::new(Expr::BinaryOp {
                op: BinOp::Mul,
                left: Box::new(Expr::Ident(String::from("b"))),
                right: Box::new(Expr::Ident(String::from("c"))),
            }),
        }
    );
}

#[test]
fn parse_precedence_eq_over_and() {
    // a == b && c groups the comparison under the conjunction
    let e = first_assigned_expr("extend T fn f() { x = a == b && c }");
    assert_eq!(
        e,
        Expr::BinaryOp {
            op: BinOp::And,
            left: Box::new(Expr::BinaryOp {
                op: BinOp::Eq,
                left: Box::new(Expr::Ident(String::from("a"))),
                right: Box::new(Expr::Ident(String::from("b"))),
            }),
            right: Box::new(Expr::Ident(String::from("c"))),
        }
    );
}

#[test]
fn parse_property_access_chain() {
    // a.b.c associates to the left
    let e = first_assigned_expr("extend T fn f() { x = a.b.c }");
    assert_eq!(
        e,
        Expr::PropertyAccess {
            object: Box::new(Expr::PropertyAccess {
                object: Box::new(Expr::Ident(String::from("a"))),
                property: String::from("b"),
            }),
            property: String::from("c"),
        }
    );
}

#[test]
fn parse_call_and_unary() {
    let e = first_assigned_expr("extend T fn f() { x = go(1, -2) }");
    assert_eq!(
        e,
        Expr::Call {
            name: String::from("go"),
            args: vec![
                Expr::Integer(1),
                Expr::UnaryOp {
                    op: UnOp::Minus,
                    expr: Box::new(Expr::Integer(2)),
                },
            ],
        }
    );
    let e = first_assigned_expr("extend T fn f() { x = !done }");
    assert_eq!(
        e,
        Expr::UnaryOp {
            op: UnOp::Not,
            expr: Box::new(Expr::Ident(String::from("done"))),
        }
    );
}

#[test]
fn parse_skips_doc_comments_in_scene() {
    let f = scene("/// about the root\nRoot : Gem {\n  /// about x\n  x: 1\n}").unwrap();
    assert_eq!(f.root.name, "Root");
    assert_eq!(f.root.properties.len(), 1);
}

#[test]
fn parse_event_with_params() {
    let l = logic("extend Gem fn on_hit(damage, source) { hp = hp - damage }").unwrap();
    assert_eq!(l.events.len(), 1);
    assert_eq!(
        l.events[0].params,
        vec![String::from("damage"), String::from("source")]
    );
}

#[test]
fn parse_nested_tuple_value() {
    let f = scene("Root : Gem { grid: ((1, 2), (3, 4)) }").unwrap();
    assert_eq!(
        f.root.properties[0].value,
        Value::Tuple(vec![
            Value::Tuple(vec![Value::Integer(1), Value::Integer(2)]),
            Value::Tuple(vec![Value::Integer(3), Value::Integer(4)]),
        ])
    );
}

#[test]
fn parse_direct_parser_api() {
    // the parser can also be driven directly over a token vector
    let mut lexer = Lexer::new(String::from("Root : Gem {}"));
    let toks = lexer.tokenize().unwrap();
    let mut parser = Parser::new(toks);
    let f = parser.parse_scene().unwrap();
    assert_eq!(f.root.name, "Root");

    let mut lexer = Lexer::new(String::from("x"));
    let mut parser = Parser::new(lexer.tokenize().unwrap());
    let e = parser.parse_scene().unwrap_err();
    assert_eq!(e.message, "Expected Gem name (Uppercase identifier)");
    assert_eq!(
        e.describe(),
        "ParseError: Expected Gem name (Uppercase identifier)"
    );
}

#[test]
fn parse_logic_errors() {
    assert_eq!(
        logic("fn on_ready() {}").unwrap_err(),
        "Expected Extend, got Some(Fn)"
    );
    assert_eq!(
        logic("extend Gem fn 5() {}").unwrap_err(),
        "Expected function or event name after 'fn'"
    );
    assert_eq!(
        logic("extend Gem spawn").unwrap_err(),
        "Unexpected token in logic file: Spawn"
    );
}
