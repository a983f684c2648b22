//! End-to-end tests of the analysis passes: name analysis, type analysis,
//! and the pass driver.

use drewno_mars::ast::{
    Body, CallExpression, Class, Declaration, Expression, Formal, Function, Id, Location,
    Primitive, Statement, Type, VariableDeclaration,
};
use drewno_mars::driver::{build, Args, BuildFailure};
use drewno_mars::error::ErrorKind;
use drewno_mars::name_analysis::analyze;
use drewno_mars::type_analysis::check_types;

fn pos() -> drewno_mars::source_position::SourcePositionData {
    drewno_mars::source_position::SourcePositionData { s: 0, e: 0 }
}

fn id(name: &str) -> Id {
    Id { name: name.to_string(), source_position: pos() }
}

fn t_int() -> Type {
    Type::Primitive(Primitive::Int, pos())
}

fn t_perfect_int() -> Type {
    Type::PerfectPrimitive(Primitive::Int, pos())
}

fn t_bool() -> Type {
    Type::Primitive(Primitive::Bool, pos())
}

fn t_void() -> Type {
    Type::Primitive(Primitive::Void, pos())
}

fn int_lit(v: u64) -> Expression {
    Expression::IntegerLiteral(v, pos())
}

fn loc(name: &str) -> Location {
    Location::new(name.to_string(), pos())
}

fn var_decl(name: &str, t: Type, init: Option<Expression>) -> Declaration {
    Declaration::Variable(VariableDeclaration { name: id(name), t, assignment: init })
}

fn fn_decl(name: &str, formals: Vec<Formal>, out: Type, body: Vec<Statement>) -> Declaration {
    Declaration::Function(Function { id: id(name), fn_input: formals, fn_output: out, body })
}

fn check_args() -> Args {
    Args {
        input_file: String::new(),
        parse: false,
        unparse: None,
        named_unparse: None,
        check_types: true,
        ac3_IR_generation: None,
        output_assembly: None,
    }
}

fn first_type_error(program: Vec<Declaration>) -> ErrorKind {
    match build(program, &check_args()) {
        Err(BuildFailure::TypeErrors(errs)) => errs[0].kind,
        other => panic!("expected type errors, got {:?}", other),
    }
}

/// `x : perfect int = 1; x = 2;` is rejected as a non-lvalue assignment.
#[test]
fn perfect_assignment_rejected() {
    let program = vec![fn_decl(
        "main",
        vec![],
        t_void(),
        vec![
            Statement::VariableDeclaration(var_decl("x", t_perfect_int(), Some(int_lit(1)))),
            Statement::Assignment(loc("x"), int_lit(2)),
        ],
    )];
    assert_eq!(first_type_error(program), ErrorKind::NonLvalAssignment);
}

/// Member access through a declared class member type-checks, and an unknown
/// member is an undeclared identifier.
#[test]
fn class_member_lookup() {
    let class_c = Declaration::Class(Class {
        id: id("C"),
        body: vec![var_decl("f", t_int(), None)],
    });
    let c_var = var_decl("c", Type::Class(id("C"), pos()), None);
    let ok_body = vec![Statement::Assignment(
        loc("c").append(loc("f")),
        int_lit(1),
    )];
    let program = vec![class_c, c_var, fn_decl("main", vec![], t_void(), ok_body)];
    assert!(build(program, &check_args()).is_ok());

    let class_c2 = Declaration::Class(Class {
        id: id("C"),
        body: vec![var_decl("f", t_int(), None)],
    });
    let c_var2 = var_decl("c", Type::Class(id("C"), pos()), None);
    let bad_body = vec![Statement::Assignment(
        loc("c").append(loc("g")),
        int_lit(1),
    )];
    let program2 = vec![class_c2, c_var2, fn_decl("main", vec![], t_void(), bad_body)];
    match build(program2, &check_args()) {
        Err(BuildFailure::NameErrors(errs)) => {
            assert_eq!(errs[0].kind, ErrorKind::UndeclaredIdentifier);
        },
        other => panic!("expected name errors, got {:?}", other),
    }
}

/// A value-bearing return in a void function is rejected.
#[test]
fn return_value_in_void() {
    let program = vec![fn_decl(
        "f",
        vec![],
        t_void(),
        vec![Statement::Return(Some(int_lit(1)), pos())],
    )];
    assert_eq!(first_type_error(program), ErrorKind::ReturnValueInVoid);
}

/// A bare return in an int function misses its value.
#[test]
fn missing_return_value() {
    let program = vec![fn_decl(
        "f",
        vec![],
        t_int(),
        vec![Statement::Return(None, pos())],
    )];
    assert_eq!(first_type_error(program), ErrorKind::MissingReturnValue);
}

/// `check_returns` alone reports the same return errors the full check
/// does.
#[test]
fn check_returns_directly() {
    let f = Function {
        id: id("f"),
        fn_input: vec![],
        fn_output: t_void(),
        body: vec![Statement::Return(Some(int_lit(1)), pos())],
    };
    let err = f.check_returns().unwrap_err();
    assert_eq!(err.kind, ErrorKind::ReturnValueInVoid);
}

/// Returning a bool from an int function is a bad return value.
#[test]
fn bad_return_value() {
    let program = vec![fn_decl(
        "f",
        vec![],
        t_int(),
        vec![Statement::Return(Some(Expression::True(pos())), pos())],
    )];
    assert_eq!(first_type_error(program), ErrorKind::BadReturnValue);
}

/// `x : bool = 1 + 2;` fails with an invalid assignment operation.
#[test]
fn bool_from_arithmetic() {
    let rhs = Expression::Add(Box::new(int_lit(1)), Box::new(int_lit(2)));
    let program = vec![fn_decl(
        "main",
        vec![],
        t_void(),
        vec![Statement::VariableDeclaration(var_decl("x", t_bool(), Some(rhs)))],
    )];
    assert_eq!(first_type_error(program), ErrorKind::InvalidAssignmentOperation);
}

/// Two declarations of `x` in the same scope collide.
#[test]
fn double_declare() {
    let program = vec![fn_decl(
        "main",
        vec![],
        t_void(),
        vec![
            Statement::VariableDeclaration(var_decl("x", t_int(), None)),
            Statement::VariableDeclaration(var_decl("x", t_int(), None)),
        ],
    )];
    match build(program, &check_args()) {
        Err(BuildFailure::NameErrors(errs)) => {
            assert_eq!(errs[0].kind, ErrorKind::MultiplyDeclaredIdentifier);
        },
        other => panic!("expected name errors, got {:?}", other),
    }
}

/// Passing a bool where an int formal is expected mismatches.
#[test]
fn call_argument_mismatch() {
    let f = fn_decl(
        "f",
        vec![Formal { id: id("a"), t: t_int() }],
        t_int(),
        vec![Statement::Return(Some(Expression::Location(loc("a"))), pos())],
    );
    let call = Statement::CallExpression(CallExpression {
        location: loc("f"),
        actuals: vec![Expression::True(pos())],
        source_position: pos(),
    });
    let main = fn_decl("main", vec![], t_void(), vec![call]);
    let program = vec![f, main];
    assert_eq!(first_type_error(program), ErrorKind::ActualFormalMismatch);
}

/// A wrong number of arguments is its own error.
#[test]
fn call_wrong_arity() {
    let f = fn_decl(
        "f",
        vec![Formal { id: id("a"), t: t_int() }],
        t_int(),
        vec![Statement::Return(Some(Expression::Location(loc("a"))), pos())],
    );
    let call = Statement::CallExpression(CallExpression {
        location: loc("f"),
        actuals: vec![],
        source_position: pos(),
    });
    let main = fn_decl("main", vec![], t_void(), vec![call]);
    assert_eq!(first_type_error(vec![f, main]), ErrorKind::WrongNumberOfArgs);
}

/// Calling a variable is an attempt to call a non-function.
#[test]
fn call_non_function() {
    let x = var_decl("x", t_int(), None);
    let call = Statement::CallExpression(CallExpression {
        location: loc("x"),
        actuals: vec![],
        source_position: pos(),
    });
    let main = fn_decl("main", vec![], t_void(), vec![call]);
    assert_eq!(first_type_error(vec![x, main]), ErrorKind::CallNonFunction);
}

/// A non-bool condition is rejected.
#[test]
fn non_bool_condition() {
    let w = Statement::While(int_lit(1), Body { statements: vec![] });
    let main = fn_decl("main", vec![], t_void(), vec![w]);
    assert_eq!(first_type_error(vec![main]), ErrorKind::NonBoolCondition);
}

/// Outputting a function is rejected.
#[test]
fn give_function() {
    let f = fn_decl("f", vec![], t_void(), vec![]);
    let g = Statement::Give(Expression::Location(loc("f")));
    let main = fn_decl("main", vec![], t_void(), vec![g]);
    assert_eq!(first_type_error(vec![f, main]), ErrorKind::OutputFunction);
}

/// Taking input into a class is rejected.
#[test]
fn take_class() {
    let class_c = Declaration::Class(Class { id: id("C"), body: vec![] });
    let t = Statement::Take(loc("C"));
    let main = fn_decl("main", vec![], t_void(), vec![t]);
    assert_eq!(first_type_error(vec![class_c, main]), ErrorKind::InputClass);
}

/// Logical operators demand bool operands.
#[test]
fn logical_operand_error() {
    let e = Expression::And(Box::new(int_lit(1)), Box::new(Expression::True(pos())));
    let main = fn_decl(
        "main",
        vec![],
        t_void(),
        vec![Statement::VariableDeclaration(var_decl("x", t_bool(), Some(e)))],
    );
    assert_eq!(first_type_error(vec![main]), ErrorKind::LogicalOperatorNonBool);
}

/// Equality on unlike types is an invalid equality operation.
#[test]
fn equality_operation_error() {
    let e = Expression::Equals(
        Box::new(int_lit(1)),
        Box::new(Expression::True(pos())),
    );
    let main = fn_decl(
        "main",
        vec![],
        t_void(),
        vec![Statement::VariableDeclaration(var_decl("x", t_bool(), Some(e)))],
    );
    assert_eq!(first_type_error(vec![main]), ErrorKind::InvalidEqualityOperation);
}

/// Member access through a class name rather than a variable reports an
/// undefined type.
#[test]
fn member_of_class_name() {
    let class_c = Declaration::Class(Class {
        id: id("C"),
        body: vec![var_decl("f", t_int(), None)],
    });
    let bad = Statement::Assignment(loc("C").append(loc("f")), int_lit(1));
    let main = fn_decl("main", vec![], t_void(), vec![bad]);
    match build(vec![class_c, main], &check_args()) {
        Err(BuildFailure::NameErrors(errs)) => {
            assert_eq!(errs[0].kind, ErrorKind::UndefinedType);
        },
        other => panic!("expected name errors, got {:?}", other),
    }
}

/// Declaring a void variable is rejected during name analysis.
#[test]
fn void_variable() {
    let main = fn_decl(
        "main",
        vec![],
        t_void(),
        vec![Statement::VariableDeclaration(var_decl("x", t_void(), None))],
    );
    match build(vec![main], &check_args()) {
        Err(BuildFailure::NameErrors(errs)) => {
            assert_eq!(errs[0].kind, ErrorKind::InvalidTypeInDeclaration);
        },
        other => panic!("expected name errors, got {:?}", other),
    }
}

/// Incrementing a perfect int is rejected, consistent with assignment.
#[test]
fn increment_perfect_int() {
    let main = fn_decl(
        "main",
        vec![],
        t_void(),
        vec![
            Statement::VariableDeclaration(var_decl("x", t_perfect_int(), Some(int_lit(1)))),
            Statement::Increment(loc("x")),
        ],
    );
    assert_eq!(first_type_error(vec![main]), ErrorKind::NonLvalAssignment);
}

/// Type equivalence ignores perfect-ness.
#[test]
fn equivalence_ignores_perfect() {
    assert!(t_int().equivalent(&t_perfect_int()));
    assert!(t_perfect_int().equivalent(&t_int()));
    assert!(!t_int().equivalent(&t_bool()));
    let c1 = Type::Class(id("C"), pos());
    let c2 = Type::PerfectClass(id("C"), pos());
    assert!(c1.equivalent(&c2));
}

/// When no pass is requested the driver never parses.
#[test]
fn never_parsed() {
    let args = Args {
        input_file: String::new(),
        parse: false,
        unparse: None,
        named_unparse: None,
        check_types: false,
        ac3_IR_generation: None,
        output_assembly: None,
    };
    assert_eq!(build(vec![], &args), Err(BuildFailure::NeverParsed));
}

/// Name analysis succeeds on a well-formed program and annotates locations.
#[test]
fn analyze_annotates_locations() {
    let program = vec![fn_decl(
        "main",
        vec![],
        t_void(),
        vec![
            Statement::VariableDeclaration(var_decl("x", t_int(), None)),
            Statement::Assignment(loc("x"), int_lit(3)),
        ],
    )];
    let analyzed = analyze(&program).expect("name analysis should succeed");
    assert!(check_types(&analyzed).is_ok());
    match &analyzed[0] {
        Declaration::Function(f) => match &f.body[1] {
            Statement::Assignment(l, _) => {
                assert_eq!(l.is_local(), true);
                assert!(l.is_variable());
            },
            other => panic!("unexpected statement {:?}", other),
        },
        other => panic!("unexpected declaration {:?}", other),
    }
}
