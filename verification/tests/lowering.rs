//! Tests of TAC lowering: the canonical quad streams for arithmetic and
//! loops, and the determinism of the stream.

use drewno_mars::ast::{
    Body, Declaration, Expression, Function, Id, Location, Primitive, Statement, Type,
    VariableDeclaration,
};
use drewno_mars::name_analysis::analyze;
use drewno_mars::quads::quads_text;
use drewno_mars::three_ac::{generate, Argument, GlobalDecl, Quad};

fn pos() -> drewno_mars::source_position::SourcePositionData {
    drewno_mars::source_position::SourcePositionData { s: 0, e: 0 }
}

fn id(name: &str) -> Id {
    Id { name: name.to_string(), source_position: pos() }
}

fn int_lit(v: u64) -> Expression {
    Expression::IntegerLiteral(v, pos())
}

fn loc(name: &str) -> Location {
    Location::new(name.to_string(), pos())
}

fn arithmetic_program() -> Vec<Declaration> {
    // x : int = 1 + 2 * 3;
    let product = Expression::Multiply(Box::new(int_lit(2)), Box::new(int_lit(3)));
    let sum = Expression::Add(Box::new(int_lit(1)), Box::new(product));
    vec![Declaration::Variable(VariableDeclaration {
        name: id("x"),
        t: Type::Primitive(Primitive::Int, pos()),
        assignment: Some(sum),
    })]
}

/// `x : int = 1 + 2 * 3;` lowers to a multiply into a fresh temp, an add
/// into the next, and an assignment into the global slot.
#[test]
fn arithmetic_lowering() {
    let quads = generate(&arithmetic_program());
    let expected = vec![
        Quad::Globals(vec![GlobalDecl::Var("x".to_string())]),
        Quad::Multiply(
            Argument::Local("tmp_0".to_string()),
            Argument::Literal(2),
            Argument::Literal(3),
        ),
        Quad::Add(
            Argument::Local("tmp_1".to_string()),
            Argument::Literal(1),
            Argument::Local("tmp_0".to_string()),
        ),
        Quad::Assignment(
            Argument::Global("x".to_string()),
            Argument::Local("tmp_1".to_string()),
        ),
        Quad::Label("main".to_string()),
        Quad::Goto("fn_main".to_string()),
    ];
    assert_eq!(quads, expected);
}

fn while_program() -> Vec<Declaration> {
    // main : () void { x : int; while (x < 10) { x++; } }
    let decl_x = Statement::VariableDeclaration(Declaration::Variable(VariableDeclaration {
        name: id("x"),
        t: Type::Primitive(Primitive::Int, pos()),
        assignment: None,
    }));
    let condition = Expression::Less(
        Box::new(Expression::Location(loc("x"))),
        Box::new(int_lit(10)),
    );
    let body = Body { statements: vec![Statement::Increment(loc("x"))] };
    let w = Statement::While(condition, body);
    vec![Declaration::Function(Function {
        id: id("main"),
        fn_input: vec![],
        fn_output: Type::Primitive(Primitive::Void, pos()),
        body: vec![decl_x, w],
    })]
}

/// A `while` lowers to the canonical head label, condition, exit test,
/// body, back edge, and after label.
#[test]
fn while_lowering() {
    let analyzed = analyze(&while_program()).expect("name analysis should succeed");
    let quads = generate(&analyzed);
    let local_x = || Argument::Local("x".to_string());
    let expected = vec![
        Quad::Globals(vec![GlobalDecl::Fn("main".to_string())]),
        Quad::Locals("main".to_string(), vec![], vec![id("x")], (0, 1)),
        Quad::Enter("main".to_string()),
        Quad::Label("lbl_1".to_string()),
        Quad::Less(
            Argument::Local("tmp_0".to_string()),
            local_x(),
            Argument::Literal(10),
        ),
        Quad::Ifz(Argument::Local("tmp_0".to_string()), "lbl_2".to_string()),
        Quad::Add(local_x(), local_x(), Argument::Literal(1)),
        Quad::Goto("lbl_1".to_string()),
        Quad::Label("lbl_2".to_string()),
        Quad::Leave("lbl_0".to_string(), "main".to_string()),
        Quad::Label("main".to_string()),
        Quad::Goto("fn_main".to_string()),
    ];
    assert_eq!(quads, expected);
}

/// The quad stream and its text are byte-identical across runs.
#[test]
fn tac_deterministic() {
    let first = generate(&arithmetic_program());
    let second = generate(&arithmetic_program());
    assert_eq!(first, second);
    assert_eq!(quads_text(&first), quads_text(&second));
}

/// The textual form of the arithmetic stream, line by line.
#[test]
fn tac_text() {
    let quads = generate(&arithmetic_program());
    let expected = "[BEGIN GLOBALS]\nglb_x\n[END GLOBALS]\n\
                    [tmp_0] := 2 MULT64 3\n\
                    [tmp_1] := 1 ADD64 [tmp_0]\n\
                    [x] := [tmp_1]\n\
                    main: nop\n\
                    goto fn_main\n";
    assert_eq!(quads_text(&quads), expected.to_string());
}

/// Calls lower to interleaved actual code and `SetArg`s, then the call and a
/// `GetRet` into a fresh temporary.
#[test]
fn call_lowering() {
    // f : (a: int) int { return a; } main : () void { f(7); }
    let f = Declaration::Function(Function {
        id: id("f"),
        fn_input: vec![drewno_mars::ast::Formal {
            id: id("a"),
            t: Type::Primitive(Primitive::Int, pos()),
        }],
        fn_output: Type::Primitive(Primitive::Int, pos()),
        body: vec![Statement::Return(Some(Expression::Location(loc("a"))), pos())],
    });
    let call = Statement::CallExpression(drewno_mars::ast::CallExpression {
        location: loc("f"),
        actuals: vec![int_lit(7)],
        source_position: pos(),
    });
    let main = Declaration::Function(Function {
        id: id("main"),
        fn_input: vec![],
        fn_output: Type::Primitive(Primitive::Void, pos()),
        body: vec![call],
    });
    let analyzed = analyze(&vec![f, main]).expect("name analysis should succeed");
    let quads = generate(&analyzed);
    let f_body = vec![
        Quad::Locals("f".to_string(), vec![drewno_mars::ast::Formal {
            id: id("a"),
            t: Type::Primitive(Primitive::Int, pos()),
        }], vec![], (0, 0)),
        Quad::Enter("f".to_string()),
        Quad::GetArg(1, Argument::Local("a".to_string())),
        Quad::SetRet(Argument::Local("a".to_string())),
        Quad::Goto("lbl_0".to_string()),
        Quad::Leave("lbl_0".to_string(), "f".to_string()),
    ];
    let main_body = vec![
        Quad::Locals("main".to_string(), vec![], vec![], (0, 1)),
        Quad::Enter("main".to_string()),
        Quad::SetArg(1, Argument::Literal(7)),
        Quad::Call("f".to_string()),
        Quad::GetRet(Argument::Local("tmp_0".to_string())),
        Quad::Leave("lbl_1".to_string(), "main".to_string()),
    ];
    let mut expected = vec![Quad::Globals(vec![
        GlobalDecl::Fn("f".to_string()),
        GlobalDecl::Fn("main".to_string()),
    ])];
    expected.extend(f_body);
    expected.extend(main_body);
    expected.push(Quad::Label("main".to_string()));
    expected.push(Quad::Goto("fn_main".to_string()));
    assert_eq!(quads, expected);
}

/// A string literal becomes a labelled constant in the globals and a
/// `WriteStr` of its label.
#[test]
fn give_string_lowering() {
    // main : () void { give "hi"; }
    let give = Statement::Give(Expression::StringLiteral("hi".to_string(), pos()));
    let main = Declaration::Function(Function {
        id: id("main"),
        fn_input: vec![],
        fn_output: Type::Primitive(Primitive::Void, pos()),
        body: vec![give],
    });
    let analyzed = analyze(&vec![main]).expect("name analysis should succeed");
    let quads = generate(&analyzed);
    assert!(quads.contains(&Quad::WriteStr(Argument::Global("str_0".to_string()))));
    match &quads[0] {
        Quad::Globals(gs) => {
            assert!(gs.contains(&GlobalDecl::Str("str_0".to_string(), "hi".to_string())));
        },
        other => panic!("expected globals header, got {:?}", other),
    }
}
