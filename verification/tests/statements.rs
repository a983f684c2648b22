//! Tests of statement lowering shapes and the remaining driver paths.

use drewno_mars::ast::{
    Body, Declaration, Expression, Function, Id, Location, Primitive, Statement, Type,
    VariableDeclaration,
};
use drewno_mars::driver::{build, Args};
use drewno_mars::name_analysis::analyze;
use drewno_mars::three_ac::{generate, Argument, Quad};

fn pos() -> drewno_mars::source_position::SourcePositionData {
    drewno_mars::source_position::SourcePositionData { s: 0, e: 0 }
}

fn id(name: &str) -> Id {
    Id { name: name.to_string(), source_position: pos() }
}

fn loc(name: &str) -> Location {
    Location::new(name.to_string(), pos())
}

fn main_with(body: Vec<Statement>) -> Vec<Declaration> {
    vec![Declaration::Function(Function {
        id: id("main"),
        fn_input: vec![],
        fn_output: Type::Primitive(Primitive::Void, pos()),
        body,
    })]
}

fn lower(body: Vec<Statement>) -> Vec<Quad> {
    let analyzed = analyze(&main_with(body)).expect("name analysis should succeed");
    generate(&analyzed)
}

/// `if`/`else` lowers to the exit test, the then-branch, a jump over the
/// else-branch, and both labels.
#[test]
fn if_else_lowering() {
    let body = vec![
        Statement::If(
            Expression::True(pos()),
            Body { statements: vec![Statement::Exit] },
            Body { statements: vec![Statement::Return(None, pos())] },
        ),
    ];
    let quads = lower(body);
    let expected_tail = vec![
        Quad::Ifz(Argument::Literal(1), "lbl_1".to_string()),
        Quad::Exit,
        Quad::Goto("lbl_2".to_string()),
        Quad::Label("lbl_1".to_string()),
        Quad::Goto("lbl_0".to_string()),
        Quad::Label("lbl_2".to_string()),
    ];
    assert_eq!(&quads[3..9], &expected_tail[..]);
}

/// `take` lowers to a `read` of the location's slot, and `x--` to a
/// subtraction in place.
#[test]
fn take_and_decrement_lowering() {
    let body = vec![
        Statement::VariableDeclaration(Declaration::Variable(VariableDeclaration {
            name: id("x"),
            t: Type::Primitive(Primitive::Int, pos()),
            assignment: None,
        })),
        Statement::Take(loc("x")),
        Statement::Decrement(loc("x")),
    ];
    let quads = lower(body);
    let x = || Argument::Local("x".to_string());
    assert!(quads.contains(&Quad::Read(x())));
    assert!(quads.contains(&Quad::Subtract(x(), x(), Argument::Literal(1))));
}

/// `give` of an int expression lowers through a temporary into `WriteInt`.
#[test]
fn give_int_lowering() {
    let sum = Expression::Add(
        Box::new(Expression::IntegerLiteral(2, pos())),
        Box::new(Expression::IntegerLiteral(3, pos())),
    );
    let quads = lower(vec![Statement::Give(sum)]);
    assert!(quads.contains(&Quad::Add(
        Argument::Local("tmp_0".to_string()),
        Argument::Literal(2),
        Argument::Literal(3),
    )));
    assert!(quads.contains(&Quad::WriteInt(Argument::Local("tmp_0".to_string()))));
}

/// Negation lowers as a subtraction from zero, and `!` as a `NOT64`.
#[test]
fn unary_lowering() {
    let body = vec![
        Statement::Give(Expression::Negative(Box::new(Expression::IntegerLiteral(5, pos())))),
    ];
    let quads = lower(body);
    assert!(quads.contains(&Quad::Subtract(
        Argument::Local("tmp_0".to_string()),
        Argument::Literal(0),
        Argument::Literal(5),
    )));
}

/// With only `--parse` requested, the driver hands the tree back unchanged.
#[test]
fn parse_only_build() {
    let args = Args {
        input_file: String::new(),
        parse: true,
        unparse: None,
        named_unparse: None,
        check_types: false,
        ac3_IR_generation: None,
        output_assembly: None,
    };
    let program = main_with(vec![Statement::Exit]);
    let result = build(program, &args).expect("a parse-only build succeeds");
    assert_eq!(result, main_with(vec![Statement::Exit]));
}

/// The magic literal lowers to a type-correct constant one.
#[test]
fn magic_lowering() {
    let body = vec![
        Statement::VariableDeclaration(Declaration::Variable(VariableDeclaration {
            name: id("b"),
            t: Type::Primitive(Primitive::Bool, pos()),
            assignment: Some(Expression::Magic(pos())),
        })),
    ];
    let quads = lower(body);
    assert!(quads.contains(&Quad::Assignment(
        Argument::Local("b".to_string()),
        Argument::Literal(1),
    )));
}
