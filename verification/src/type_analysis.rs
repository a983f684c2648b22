//! Type analysis: computes the kind of every expression and enforces the
//! type rules. The pass is read-only; it consumes the annotations that name
//! analysis attached to locations.

use crate::ast::{
    call_model, expr_model, location_model, spec_equivalent, spec_expr_position,
    spec_new_perfect, spec_type_position, stmt_model, type_model, CallExpression, Expression,
    Location, Primitive, Statement, Type,
};
use crate::error::{CompileError, ErrorKind};
use crate::model;
use crate::source_position::SourcePositionData;
use vstd::prelude::*;

verus! {

/// The kind of a name's referent: a variable with its type, a function, or a
/// class.
#[derive(Debug, PartialEq)]
pub enum Kind {
    Class,
    Function,
    Variable(Type),
}

/// The model of a kind.
pub open spec fn kind_model(k: Kind) -> model::Kind {
    match k {
        Kind::Class => model::Kind::Class,
        Kind::Function => model::Kind::Function,
        Kind::Variable(t) => model::Kind::Variable(type_model(t)),
    }
}

/// The primitive a kind carries, if it is a variable of primitive type.
pub open spec fn spec_kind_primitive(k: model::Kind) -> Option<Primitive> {
    match k {
        model::Kind::Variable(model::Type::Primitive(p, _)) => Option::Some(p),
        model::Kind::Variable(model::Type::PerfectPrimitive(p, _)) => Option::Some(p),
        _ => Option::None,
    }
}

/// Whether a kind is a variable of the given primitive, perfect or not.
pub open spec fn spec_kind_is_primitive(k: model::Kind, p: Primitive) -> bool {
    spec_kind_primitive(k) == Option::Some(p)
}

/// The kind of a dotted chain: the kind of the last link's entry.
pub open spec fn spec_location_kind(l: model::Location) -> Result<model::Kind, CompileError>
    decreases l,
{
    match l.next_link {
        Option::Some(next) => spec_location_kind(*next),
        Option::None => match l.symbol_table_entry {
            Option::None => Result::Err(
                CompileError { kind: ErrorKind::MissingEntry, pos: l.source_position },
            ),
            Option::Some(e) => match e {
                model::Entry::Class(_) => Result::Ok(model::Kind::Class),
                model::Entry::Function(_, _) => Result::Ok(model::Kind::Function),
                model::Entry::Variable(t) => Result::Ok(model::Kind::Variable(t)),
            },
        },
    }
}

/// Checking one operand of an `and`, `or`, `not`, an arithmetic operator or
/// a relational operator, given its kind: it must be a variable of the
/// expected primitive; the operand's own kind is handed back.
pub open spec fn spec_operand_result(
    r: Result<model::Kind, CompileError>,
    expected: Primitive,
    kind: ErrorKind,
    pos: SourcePositionData,
) -> Result<model::Kind, CompileError> {
    match r {
        Result::Err(e) => Result::Err(e),
        Result::Ok(k) => if spec_kind_is_primitive(k, expected) {
            Result::Ok(k)
        } else {
            Result::Err(CompileError { kind, pos })
        },
    }
}

/// Checking both operands of a boolean, arithmetic or relational operator,
/// given their kinds: the left operand's error wins.
pub open spec fn spec_operands_result(
    ra: Result<model::Kind, CompileError>,
    rc: Result<model::Kind, CompileError>,
    expected: Primitive,
    kind: ErrorKind,
    pos_a: SourcePositionData,
    pos_c: SourcePositionData,
) -> Result<model::Kind, CompileError> {
    match spec_operand_result(ra, expected, kind, pos_a) {
        Result::Err(e) => Result::Err(e),
        Result::Ok(k) => match spec_operand_result(rc, expected, kind, pos_c) {
            Result::Err(e) => Result::Err(e),
            Result::Ok(_) => Result::Ok(k),
        },
    }
}

/// Checking `==` and `!=`, given the operands' kinds: no void operand, both
/// operands variables, and their types equivalent; the result is a perfect
/// bool.
pub open spec fn spec_equals_result(
    r1: Result<model::Kind, CompileError>,
    r2: Result<model::Kind, CompileError>,
    span: SourcePositionData,
) -> Result<model::Kind, CompileError> {
    match r1 {
        Result::Err(e) => Result::Err(e),
        Result::Ok(k1) => match r2 {
            Result::Err(e) => Result::Err(e),
            Result::Ok(k2) => if spec_kind_is_primitive(k1, Primitive::Void)
                || spec_kind_is_primitive(k2, Primitive::Void) {
                Result::Err(CompileError { kind: ErrorKind::InvalidEqualityOperand, pos: span })
            } else {
                match (k1, k2) {
                    (model::Kind::Variable(t1), model::Kind::Variable(t2)) => if spec_equivalent(
                        t1,
                        t2,
                    ) {
                        Result::Ok(
                            model::Kind::Variable(
                                model::Type::PerfectPrimitive(
                                    Primitive::Bool,
                                    spec_type_position(t1),
                                ),
                            ),
                        )
                    } else {
                        Result::Err(
                            CompileError {
                                kind: ErrorKind::InvalidEqualityOperation,
                                pos: span,
                            },
                        )
                    },
                    _ => Result::Err(
                        CompileError { kind: ErrorKind::InvalidEqualityOperand, pos: span },
                    ),
                }
            },
        },
    }
}

/// Checking the actuals of a call against the formals, in order, from
/// position `i` on: each actual must be a variable whose type is equivalent
/// to its formal's.
pub open spec fn spec_check_actuals(
    formals: Seq<model::Formal>,
    actuals: Seq<model::Expression>,
    i: int,
) -> Result<(), CompileError>
    decreases actuals, actuals.len() - i,
{
    if i < 0 || i >= actuals.len() || i >= formals.len() {
        Result::Ok(())
    } else {
        let pos = spec_expr_position(actuals[i]);
        match spec_expr_kind(actuals[i]) {
            Result::Err(e) => Result::Err(e),
            Result::Ok(k) => match k {
                model::Kind::Variable(t) => if spec_equivalent(t, formals[i].t) {
                    spec_check_actuals(formals, actuals, i + 1)
                } else {
                    Result::Err(CompileError { kind: ErrorKind::ActualFormalMismatch, pos })
                },
                _ => Result::Err(CompileError { kind: ErrorKind::ActualFormalMismatch, pos }),
            },
        }
    }
}

/// The kind of a call: the callee's last link must name a function, the
/// actual count must match, each actual must fit its formal; the result is
/// the perfect version of the return type at the call's position.
pub open spec fn spec_call_kind(c: model::CallExpression) -> Result<model::Kind, CompileError>
    decreases c,
{
    let lpos = c.location.source_position;
    match spec_location_entry(c.location) {
        Option::None => Result::Err(CompileError { kind: ErrorKind::MissingEntry, pos: lpos }),
        Option::Some(e) => match e {
            model::Entry::Function(formals, output) => if formals.len() != c.actuals.len() {
                Result::Err(CompileError { kind: ErrorKind::WrongNumberOfArgs, pos: lpos })
            } else {
                match spec_check_actuals(formals, c.actuals, 0) {
                    Result::Err(e) => Result::Err(e),
                    Result::Ok(()) => Result::Ok(
                        model::Kind::Variable(spec_new_perfect(output, c.source_position)),
                    ),
                }
            },
            _ => Result::Err(CompileError { kind: ErrorKind::CallNonFunction, pos: lpos }),
        },
    }
}

/// The entry of the last link of a chain, if any.
pub open spec fn spec_location_entry(l: model::Location) -> Option<model::Entry>
    decreases l,
{
    match l.next_link {
        Option::Some(next) => spec_location_entry(*next),
        Option::None => l.symbol_table_entry,
    }
}

/// The kind of an expression, under the language's type rules.
pub open spec fn spec_expr_kind(e: model::Expression) -> Result<model::Kind, CompileError>
    decreases e,
{
    match e {
        model::Expression::False(p) | model::Expression::Magic(p) | model::Expression::True(p) =>
            Result::Ok(
            model::Kind::Variable(model::Type::PerfectPrimitive(Primitive::Bool, p)),
        ),
        model::Expression::IntegerLiteral(_, p) => Result::Ok(
            model::Kind::Variable(model::Type::PerfectPrimitive(Primitive::Int, p)),
        ),
        model::Expression::StringLiteral(_, p) => Result::Ok(
            model::Kind::Variable(model::Type::PerfectPrimitive(Primitive::Str, p)),
        ),
        model::Expression::And(a, c) | model::Expression::Or(a, c) => spec_operands_result(
            spec_expr_kind(*a),
            spec_expr_kind(*c),
            Primitive::Bool,
            ErrorKind::LogicalOperatorNonBool,
            spec_expr_position(*a),
            spec_expr_position(*c),
        ),
        model::Expression::Not(a) => spec_operand_result(
            spec_expr_kind(*a),
            Primitive::Bool,
            ErrorKind::LogicalOperatorNonBool,
            spec_expr_position(*a),
        ),
        model::Expression::Add(a, c)
        | model::Expression::Divide(a, c)
        | model::Expression::Multiply(a, c)
        | model::Expression::Subtract(a, c) => spec_operands_result(
            spec_expr_kind(*a),
            spec_expr_kind(*c),
            Primitive::Int,
            ErrorKind::ArithmeticOperatorInvalid,
            spec_expr_position(*a),
            spec_expr_position(*c),
        ),
        model::Expression::Negative(a) => spec_operand_result(
            spec_expr_kind(*a),
            Primitive::Int,
            ErrorKind::ArithmeticOperatorInvalid,
            spec_expr_position(*a),
        ),
        model::Expression::Greater(a, c)
        | model::Expression::GreaterEq(a, c)
        | model::Expression::Less(a, c)
        | model::Expression::LessEq(a, c) => match spec_operands_result(
            spec_expr_kind(*a),
            spec_expr_kind(*c),
            Primitive::Int,
            ErrorKind::RelationalOperatorNonNumeric,
            spec_expr_position(*a),
            spec_expr_position(*c),
        ) {
            Result::Err(e) => Result::Err(e),
            Result::Ok(_) => Result::Ok(
                model::Kind::Variable(
                    model::Type::PerfectPrimitive(
                        Primitive::Bool,
                        SourcePositionData {
                            s: spec_expr_position(*a).s,
                            e: spec_expr_position(*c).e,
                        },
                    ),
                ),
            ),
        },
        model::Expression::Equals(a, c) | model::Expression::NotEquals(a, c) => spec_equals_result(
            spec_expr_kind(*a),
            spec_expr_kind(*c),
            SourcePositionData {
                s: spec_expr_position(*a).s,
                e: spec_expr_position(*c).e,
            },
        ),
        model::Expression::Location(l) => spec_location_kind(l),
        model::Expression::CallExpression(c) => spec_call_kind(c),
    }
}

/// Whether a written type is the primitive `int`, perfect or not.
pub open spec fn spec_is_int(t: model::Type) -> bool {
    match t {
        model::Type::Primitive(Primitive::Int, _) => true,
        model::Type::PerfectPrimitive(Primitive::Int, _) => true,
        _ => false,
    }
}

/// Whether a written type is the primitive `void`, perfect or not.
pub open spec fn spec_is_void(t: model::Type) -> bool {
    match t {
        model::Type::Primitive(Primitive::Void, _) => true,
        model::Type::PerfectPrimitive(Primitive::Void, _) => true,
        _ => false,
    }
}

/// Whether a written type is perfect (immutable).
pub open spec fn spec_is_perfect(t: model::Type) -> bool {
    match t {
        model::Type::PerfectPrimitive(_, _) => true,
        model::Type::PerfectClass(_, _) => true,
        _ => false,
    }
}

/// Checking an assignment: the left side's last link must be bound to a
/// mutable variable, and the right side must be a variable of an equivalent
/// type.
pub open spec fn spec_check_assignment(l: model::Location, e: model::Expression) -> Result<
    (),
    CompileError,
> {
    match spec_location_entry(l) {
        Option::None => Result::Err(
            CompileError { kind: ErrorKind::MissingLvalEntry, pos: l.source_position },
        ),
        Option::Some(entry) => {
            let pos = spec_expr_position(e);
            if entry matches model::Entry::Variable(t) && spec_is_perfect(t) {
                Result::Err(
                    CompileError { kind: ErrorKind::NonLvalAssignment, pos: l.source_position },
                )
            } else {
                match spec_expr_kind(e) {
                    Result::Err(err) => Result::Err(err),
                    Result::Ok(k) => match (entry, k) {
                        (model::Entry::Variable(t1), model::Kind::Variable(t2)) => if
                            spec_equivalent(t1, t2) {
                            Result::Ok(())
                        } else {
                            Result::Err(
                                CompileError {
                                    kind: ErrorKind::InvalidAssignmentOperation,
                                    pos,
                                },
                            )
                        },
                        _ => Result::Err(
                            CompileError { kind: ErrorKind::InvalidAssignmentOperand, pos },
                        ),
                    },
                }
            }
        },
    }
}

/// Checking `++` and `--`: the operand's last link must be a variable of
/// type `int`, and, as with assignment, not a perfect one.
pub open spec fn spec_check_incdec(l: model::Location) -> Result<(), CompileError> {
    let pos = l.source_position;
    match spec_location_kind(l) {
        Result::Err(e) => Result::Err(e),
        Result::Ok(k) => match k {
            model::Kind::Variable(t) => if !spec_is_int(t) {
                Result::Err(CompileError { kind: ErrorKind::ArithmeticOperatorInvalid, pos })
            } else if spec_is_perfect(t) {
                Result::Err(CompileError { kind: ErrorKind::NonLvalAssignment, pos })
            } else {
                Result::Ok(())
            },
            _ => Result::Err(CompileError { kind: ErrorKind::ArithmeticOperatorInvalid, pos }),
        },
    }
}

/// Checking an `if` or `while` condition: it must be a bool variable.
pub open spec fn spec_check_condition(x: model::Expression) -> Result<(), CompileError> {
    match spec_expr_kind(x) {
        Result::Err(e) => Result::Err(e),
        Result::Ok(k) => if spec_kind_is_primitive(k, Primitive::Bool) {
            Result::Ok(())
        } else {
            Result::Err(
                CompileError {
                    kind: ErrorKind::NonBoolCondition,
                    pos: spec_expr_position(x),
                },
            )
        },
    }
}

/// Checking `give`: classes, functions and void cannot be output.
pub open spec fn spec_check_give(x: model::Expression) -> Result<(), CompileError> {
    let pos = spec_expr_position(x);
    match spec_expr_kind(x) {
        Result::Err(e) => Result::Err(e),
        Result::Ok(k) => match k {
            model::Kind::Class => Result::Err(CompileError { kind: ErrorKind::OutputClass, pos }),
            model::Kind::Function => Result::Err(
                CompileError { kind: ErrorKind::OutputFunction, pos },
            ),
            model::Kind::Variable(t) => if spec_is_void(t) {
                Result::Err(CompileError { kind: ErrorKind::OutputVoid, pos })
            } else {
                Result::Ok(())
            },
        },
    }
}

/// Checking `take`: input can only be assigned to a variable.
pub open spec fn spec_check_take(l: model::Location) -> Result<(), CompileError> {
    let pos = l.source_position;
    match spec_location_kind(l) {
        Result::Err(e) => Result::Err(e),
        Result::Ok(k) => match k {
            model::Kind::Class => Result::Err(CompileError { kind: ErrorKind::InputClass, pos }),
            model::Kind::Function => Result::Err(
                CompileError { kind: ErrorKind::InputFunction, pos },
            ),
            model::Kind::Variable(_) => Result::Ok(()),
        },
    }
}

/// Checking a variable declaration's initializer: it must be a variable of a
/// type equivalent to the declared one.
pub open spec fn spec_check_var_decl(t: model::Type, a: Option<model::Expression>) -> Result<
    (),
    CompileError,
> {
    match a {
        Option::None => Result::Ok(()),
        Option::Some(rv) => {
            let pos = spec_expr_position(rv);
            match spec_expr_kind(rv) {
                Result::Err(e) => Result::Err(e),
                Result::Ok(k) => match k {
                    model::Kind::Variable(t2) => if spec_equivalent(t, t2) {
                        Result::Ok(())
                    } else {
                        Result::Err(
                            CompileError {
                                kind: ErrorKind::InvalidAssignmentOperation,
                                pos,
                            },
                        )
                    },
                    _ => Result::Err(
                        CompileError { kind: ErrorKind::InvalidAssignmentOperand, pos },
                    ),
                },
            }
        },
    }
}

/// Checking one statement. Statements that carry blocks only have their
/// condition checked here, matching the per-statement rules.
pub open spec fn spec_stmt_check(s: model::Statement) -> Result<(), CompileError> {
    match s {
        model::Statement::Assignment(l, e) => spec_check_assignment(l, e),
        model::Statement::CallExpression(c) => match spec_call_kind(c) {
            Result::Err(e) => Result::Err(e),
            Result::Ok(_) => Result::Ok(()),
        },
        model::Statement::Decrement(l) => spec_check_incdec(l),
        model::Statement::Exit => Result::Ok(()),
        model::Statement::Give(x) => spec_check_give(x),
        model::Statement::If(x, _, _) => spec_check_condition(x),
        model::Statement::Increment(l) => spec_check_incdec(l),
        model::Statement::Return(_, _) => Result::Ok(()),
        model::Statement::Take(l) => spec_check_take(l),
        model::Statement::VariableDeclaration(d) => match d {
            model::Declaration::Variable(v) => spec_check_var_decl(v.t, v.assignment),
            _ => Result::Ok(()),
        },
        model::Statement::While(x, _) => spec_check_condition(x),
    }
}

/// Checking one `return` against the function's declared output type.
pub open spec fn spec_check_return(
    expected: model::Type,
    x: Option<model::Expression>,
    pos: SourcePositionData,
) -> Result<(), CompileError> {
    let returns_void = spec_is_void(expected);
    match x {
        Option::Some(e) => if returns_void {
            Result::Err(
                CompileError {
                    kind: ErrorKind::ReturnValueInVoid,
                    pos: spec_expr_position(e),
                },
            )
        } else {
            match spec_expr_kind(e) {
                Result::Err(err) => Result::Err(err),
                Result::Ok(k) => match k {
                    model::Kind::Variable(t) => if spec_equivalent(t, expected) {
                        Result::Ok(())
                    } else {
                        Result::Err(
                            CompileError {
                                kind: ErrorKind::BadReturnValue,
                                pos: spec_type_position(t),
                            },
                        )
                    },
                    _ => Result::Err(CompileError { kind: ErrorKind::BadReturnValue, pos }),
                },
            }
        },
        Option::None => if returns_void {
            Result::Ok(())
        } else {
            Result::Err(CompileError { kind: ErrorKind::MissingReturnValue, pos })
        },
    }
}

/// Checking the statements of a body from position `i` on, stopping at the
/// first error.
pub open spec fn spec_stmts_check(ss: Seq<model::Statement>, i: int) -> Result<(), CompileError>
    decreases ss.len() - i,
{
    if i < 0 || i >= ss.len() {
        Result::Ok(())
    } else {
        match spec_stmt_check(ss[i]) {
            Result::Err(e) => Result::Err(e),
            Result::Ok(()) => spec_stmts_check(ss, i + 1),
        }
    }
}

/// Checking every top-level `return` of a body from position `i` on against
/// the declared output type, stopping at the first error.
pub open spec fn spec_returns_check(
    expected: model::Type,
    ss: Seq<model::Statement>,
    i: int,
) -> Result<(), CompileError>
    decreases ss.len() - i,
{
    if i < 0 || i >= ss.len() {
        Result::Ok(())
    } else {
        match ss[i] {
            model::Statement::Return(x, pos) => match spec_check_return(expected, x, pos) {
                Result::Err(e) => Result::Err(e),
                Result::Ok(()) => spec_returns_check(expected, ss, i + 1),
            },
            _ => spec_returns_check(expected, ss, i + 1),
        }
    }
}

/// Checking a function: its statements, then its top-level returns.
pub open spec fn spec_function_check(f: model::Function) -> Result<(), CompileError> {
    match spec_stmts_check(f.body, 0) {
        Result::Err(e) => Result::Err(e),
        Result::Ok(()) => spec_returns_check(f.fn_output, f.body, 0),
    }
}

/// Checking the members of a class from position `i` on.
pub open spec fn spec_decls_check(ds: Seq<model::Declaration>, i: int) -> Result<(), CompileError>
    decreases ds, ds.len() - i,
{
    if i < 0 || i >= ds.len() {
        Result::Ok(())
    } else {
        match spec_decl_check(ds[i]) {
            Result::Err(e) => Result::Err(e),
            Result::Ok(()) => spec_decls_check(ds, i + 1),
        }
    }
}

/// Checking one declaration.
pub open spec fn spec_decl_check(d: model::Declaration) -> Result<(), CompileError>
    decreases d,
{
    match d {
        model::Declaration::Class(c) => spec_decls_check(c.body, 0),
        model::Declaration::Function(f) => spec_function_check(f),
        model::Declaration::Variable(v) => spec_check_var_decl(v.t, v.assignment),
    }
}

/// Checking a whole program: each top-level declaration contributes at most
/// its first error, and the pass goes on with the next declaration.
pub open spec fn spec_program_check(ds: Seq<model::Declaration>) -> Seq<CompileError>
    decreases ds,
{
    if ds.len() == 0 {
        Seq::empty()
    } else {
        spec_program_check(ds.drop_last()) + (match spec_decl_check(ds.last()) {
            Result::Err(e) => seq![e],
            Result::Ok(()) => Seq::empty(),
        })
    }
}

/// A location's entry is its last link's entry.
pub proof fn lemma_location_entry_last(l: model::Location)
    ensures
        spec_location_entry(l) == crate::ast::spec_last_link(l).symbol_table_entry,
    decreases l,
{
    match l.next_link {
        Option::Some(next) => {
            lemma_location_entry_last(*next);
        },
        Option::None => {},
    }
}

/// The model of an expression kind result.
pub open spec fn kind_result_model(r: Result<Kind, CompileError>) -> Result<
    model::Kind,
    CompileError,
> {
    match r {
        Result::Ok(k) => Result::Ok(kind_model(k)),
        Result::Err(e) => Result::Err(e),
    }
}

/// The primitive a kind carries, if it is a variable of primitive type.
fn kind_primitive(k: &Kind) -> (r: Option<Primitive>)
    ensures
        r == spec_kind_primitive(kind_model(*k)),
{
    match k {
        Kind::Variable(Type::Primitive(p, _)) => Some(*p),
        Kind::Variable(Type::PerfectPrimitive(p, _)) => Some(*p),
        _ => None,
    }
}

/// Checks one operand result against the expected primitive.
fn operand_result(
    r: Result<Kind, CompileError>,
    expected: Primitive,
    kind: ErrorKind,
    pos: SourcePositionData,
) -> (out: Result<Kind, CompileError>)
    ensures
        kind_result_model(out) == spec_operand_result(kind_result_model(r), expected, kind, pos),
{
    match r {
        Err(e) => Err(e),
        Ok(k) => {
            let matches_expected = match kind_primitive(&k) {
                Some(p) => p == expected,
                None => false,
            };
            if matches_expected {
                Ok(k)
            } else {
                Err(CompileError { kind, pos })
            }
        },
    }
}

impl Location {
    /// The kind of this chain: the kind of its last link's entry.
    pub fn get_kind(&self) -> (r: Result<Kind, CompileError>)
        ensures
            kind_result_model(r) == spec_location_kind(location_model(*self)),
        decreases *self,
    {
        match &self.next_link {
            Some(next) => next.get_kind(),
            None => match &self.symbol_table_entry {
                None => Err(
                    CompileError { kind: ErrorKind::MissingEntry, pos: self.source_position },
                ),
                Some(e) => match e {
                    crate::symbol_table::Entry::Class(_) => Ok(Kind::Class),
                    crate::symbol_table::Entry::Function(_, _) => Ok(Kind::Function),
                    crate::symbol_table::Entry::Variable(t) => Ok(Kind::Variable(t.clone())),
                },
            },
        }
    }
}

impl Expression {
    /// The kind of this expression under the type rules.
    pub fn get_kind(&self) -> (r: Result<Kind, CompileError>)
        ensures
            kind_result_model(r) == spec_expr_kind(expr_model(*self)),
        decreases *self,
    {
        match self {
            Expression::False(p) | Expression::Magic(p) | Expression::True(p) => Ok(
                Kind::Variable(Type::PerfectPrimitive(Primitive::Bool, *p)),
            ),
            Expression::IntegerLiteral(_, p) => Ok(
                Kind::Variable(Type::PerfectPrimitive(Primitive::Int, *p)),
            ),
            Expression::StringLiteral(_, p) => Ok(
                Kind::Variable(Type::PerfectPrimitive(Primitive::Str, *p)),
            ),
            Expression::And(a, c) | Expression::Or(a, c) => {
                let ra = operand_result(
                    a.get_kind(),
                    Primitive::Bool,
                    ErrorKind::LogicalOperatorNonBool,
                    a.source_position(),
                );
                let k = match ra {
                    Ok(k) => k,
                    Err(e) => {
                        return Err(e);
                    },
                };
                match operand_result(
                    c.get_kind(),
                    Primitive::Bool,
                    ErrorKind::LogicalOperatorNonBool,
                    c.source_position(),
                ) {
                    Ok(_) => Ok(k),
                    Err(e) => Err(e),
                }
            },
            Expression::Not(a) => operand_result(
                a.get_kind(),
                Primitive::Bool,
                ErrorKind::LogicalOperatorNonBool,
                a.source_position(),
            ),
            Expression::Add(a, c)
            | Expression::Divide(a, c)
            | Expression::Multiply(a, c)
            | Expression::Subtract(a, c) => {
                let ra = operand_result(
                    a.get_kind(),
                    Primitive::Int,
                    ErrorKind::ArithmeticOperatorInvalid,
                    a.source_position(),
                );
                let k = match ra {
                    Ok(k) => k,
                    Err(e) => {
                        return Err(e);
                    },
                };
                match operand_result(
                    c.get_kind(),
                    Primitive::Int,
                    ErrorKind::ArithmeticOperatorInvalid,
                    c.source_position(),
                ) {
                    Ok(_) => Ok(k),
                    Err(e) => Err(e),
                }
            },
            Expression::Negative(a) => operand_result(
                a.get_kind(),
                Primitive::Int,
                ErrorKind::ArithmeticOperatorInvalid,
                a.source_position(),
            ),
            Expression::Greater(a, c)
            | Expression::GreaterEq(a, c)
            | Expression::Less(a, c)
            | Expression::LessEq(a, c) => {
                let ra = operand_result(
                    a.get_kind(),
                    Primitive::Int,
                    ErrorKind::RelationalOperatorNonNumeric,
                    a.source_position(),
                );
                match ra {
                    Err(e) => {
                        return Err(e);
                    },
                    Ok(_) => {},
                }
                match operand_result(
                    c.get_kind(),
                    Primitive::Int,
                    ErrorKind::RelationalOperatorNonNumeric,
                    c.source_position(),
                ) {
                    Err(e) => Err(e),
                    Ok(_) => Ok(
                        Kind::Variable(
                            Type::PerfectPrimitive(
                                Primitive::Bool,
                                SourcePositionData {
                                    s: a.source_position().s,
                                    e: c.source_position().e,
                                },
                            ),
                        ),
                    ),
                }
            },
            Expression::Equals(a, c) | Expression::NotEquals(a, c) => {
                let span = SourcePositionData {
                    s: a.source_position().s,
                    e: c.source_position().e,
                };
                let k1 = match a.get_kind() {
                    Ok(k) => k,
                    Err(e) => {
                        return Err(e);
                    },
                };
                let k2 = match c.get_kind() {
                    Ok(k) => k,
                    Err(e) => {
                        return Err(e);
                    },
                };
                let void1 = match kind_primitive(&k1) {
                    Some(p) => matches!(p, Primitive::Void),
                    None => false,
                };
                let void2 = match kind_primitive(&k2) {
                    Some(p) => matches!(p, Primitive::Void),
                    None => false,
                };
                if void1 || void2 {
                    return Err(
                        CompileError { kind: ErrorKind::InvalidEqualityOperand, pos: span },
                    );
                }
                match (k1, k2) {
                    (Kind::Variable(t1), Kind::Variable(t2)) => {
                        if t1.equivalent(&t2) {
                            let pos1 = t1.source_position();
                            Ok(Kind::Variable(Type::PerfectPrimitive(Primitive::Bool, pos1)))
                        } else {
                            Err(
                                CompileError {
                                    kind: ErrorKind::InvalidEqualityOperation,
                                    pos: span,
                                },
                            )
                        }
                    },
                    _ => Err(CompileError { kind: ErrorKind::InvalidEqualityOperand, pos: span }),
                }
            },
            Expression::Location(l) => l.get_kind(),
            Expression::CallExpression(c) => c.get_kind(),
        }
    }
}

impl CallExpression {
    /// The kind of this call: the callee must be a function, and every
    /// actual must fit its formal.
    pub fn get_kind(&self) -> (r: Result<Kind, CompileError>)
        ensures
            kind_result_model(r) == spec_call_kind(call_model(*self)),
        decreases *self,
    {
        proof {
            lemma_location_entry_last(location_model(self.location));
            assert(call_model(*self).location == location_model(self.location));
            assert(call_model(*self).actuals == crate::ast::exprs_model(self.actuals@));
        }
        let lpos = self.location.source_position;
        let last = self.location.get_last_link();
        let (formals, output) = match last.get_entry() {
            None => {
                return Err(CompileError { kind: ErrorKind::MissingEntry, pos: lpos });
            },
            Some(crate::symbol_table::Entry::Function(formals, output)) => (formals, output),
            Some(_) => {
                return Err(CompileError { kind: ErrorKind::CallNonFunction, pos: lpos });
            },
        };
        let ghost fm = crate::ast::formals_model(formals@);
        let ghost am = crate::ast::exprs_model(self.actuals@);
        proof {
            crate::ast::lemma_formals_model_len(formals@);
            crate::ast::lemma_exprs_model_len(self.actuals@);
        }
        if formals.len() != self.actuals.len() {
            return Err(CompileError { kind: ErrorKind::WrongNumberOfArgs, pos: lpos });
        }
        let mut i: usize = 0;
        while i < self.actuals.len()
            invariant
                0 <= i <= self.actuals@.len(),
                fm == crate::ast::formals_model(formals@),
                am == crate::ast::exprs_model(self.actuals@),
                fm.len() == formals@.len(),
                am.len() == self.actuals@.len(),
                fm.len() == am.len(),
                formals@.len() == self.actuals@.len(),
                call_model(*self).location == location_model(self.location),
                call_model(*self).actuals == am,
                call_model(*self).source_position == self.source_position,
                spec_location_entry(location_model(self.location)) == Option::Some(
                    model::Entry::Function(fm, crate::ast::type_model(*output)),
                ),
                lpos == self.location.source_position,
                spec_check_actuals(fm, am, 0) == spec_check_actuals(fm, am, i as int),
            decreases self.actuals@.len() - i,
        {
            proof {
                assert(decreases_to!(*self => self.actuals@[i as int]));
                crate::ast::lemma_exprs_model_index(self.actuals@, i as int);
                crate::ast::lemma_formals_model_index(formals@, i as int);
            }
            let pos = self.actuals[i].source_position();
            let k = match self.actuals[i].get_kind() {
                Ok(k) => k,
                Err(e) => {
                    return Err(e);
                },
            };
            match k {
                Kind::Variable(t) => {
                    if !t.equivalent(&formals[i].t) {
                        return Err(
                            CompileError { kind: ErrorKind::ActualFormalMismatch, pos },
                        );
                    }
                },
                _ => {
                    return Err(CompileError { kind: ErrorKind::ActualFormalMismatch, pos });
                },
            }
            i = i + 1;
        }
        Ok(Kind::Variable(Type::new_perfect(output, self.source_position)))
    }
}

/// Checks an assignment statement.
pub fn check_assignment(lval: &Location, rval: &Expression) -> (r: Result<(), CompileError>)
    ensures
        r == spec_check_assignment(location_model(*lval), expr_model(*rval)),
{
    proof {
        lemma_location_entry_last(location_model(*lval));
    }
    let last = lval.get_last_link();
    let entry = match last.get_entry() {
        None => {
            return Err(
                CompileError {
                    kind: ErrorKind::MissingLvalEntry,
                    pos: lval.source_position,
                },
            );
        },
        Some(e) => e,
    };
    let is_perfect_var = match entry {
        crate::symbol_table::Entry::Variable(Type::PerfectPrimitive(_, _)) => true,
        crate::symbol_table::Entry::Variable(Type::PerfectClass(_, _)) => true,
        _ => false,
    };
    if is_perfect_var {
        return Err(
            CompileError { kind: ErrorKind::NonLvalAssignment, pos: lval.source_position },
        );
    }
    let pos = rval.source_position();
    let k = match rval.get_kind() {
        Ok(k) => k,
        Err(e) => {
            return Err(e);
        },
    };
    match (entry, k) {
        (crate::symbol_table::Entry::Variable(t1), Kind::Variable(t2)) => {
            if t1.equivalent(&t2) {
                Ok(())
            } else {
                Err(CompileError { kind: ErrorKind::InvalidAssignmentOperation, pos })
            }
        },
        _ => Err(CompileError { kind: ErrorKind::InvalidAssignmentOperand, pos }),
    }
}

/// Checks `++` or `--`.
pub fn check_incdec(x: &Location) -> (r: Result<(), CompileError>)
    ensures
        r == spec_check_incdec(location_model(*x)),
{
    let pos = x.source_position;
    match x.get_kind() {
        Err(e) => Err(e),
        Ok(Kind::Variable(t)) => {
            let is_int = match &t {
                Type::Primitive(Primitive::Int, _) => true,
                Type::PerfectPrimitive(Primitive::Int, _) => true,
                _ => false,
            };
            let is_perfect = match &t {
                Type::PerfectPrimitive(_, _) => true,
                Type::PerfectClass(_, _) => true,
                _ => false,
            };
            if !is_int {
                Err(CompileError { kind: ErrorKind::ArithmeticOperatorInvalid, pos })
            } else if is_perfect {
                Err(CompileError { kind: ErrorKind::NonLvalAssignment, pos })
            } else {
                Ok(())
            }
        },
        Ok(_) => Err(CompileError { kind: ErrorKind::ArithmeticOperatorInvalid, pos }),
    }
}

/// Checks an `if` or `while` condition.
pub fn check_condition(x: &Expression) -> (r: Result<(), CompileError>)
    ensures
        r == spec_check_condition(expr_model(*x)),
{
    match x.get_kind() {
        Err(e) => Err(e),
        Ok(k) => {
            let is_bool = match kind_primitive(&k) {
                Some(p) => matches!(p, Primitive::Bool),
                None => false,
            };
            if is_bool {
                Ok(())
            } else {
                Err(
                    CompileError {
                        kind: ErrorKind::NonBoolCondition,
                        pos: x.source_position(),
                    },
                )
            }
        },
    }
}

/// Checks a `give` statement.
pub fn check_give(x: &Expression) -> (r: Result<(), CompileError>)
    ensures
        r == spec_check_give(expr_model(*x)),
{
    let pos = x.source_position();
    match x.get_kind() {
        Err(e) => Err(e),
        Ok(Kind::Class) => Err(CompileError { kind: ErrorKind::OutputClass, pos }),
        Ok(Kind::Function) => Err(CompileError { kind: ErrorKind::OutputFunction, pos }),
        Ok(Kind::Variable(t)) => {
            let is_void = match &t {
                Type::Primitive(Primitive::Void, _) => true,
                Type::PerfectPrimitive(Primitive::Void, _) => true,
                _ => false,
            };
            if is_void {
                Err(CompileError { kind: ErrorKind::OutputVoid, pos })
            } else {
                Ok(())
            }
        },
    }
}

/// Checks a `take` statement.
pub fn check_take(x: &Location) -> (r: Result<(), CompileError>)
    ensures
        r == spec_check_take(location_model(*x)),
{
    let pos = x.source_position;
    match x.get_kind() {
        Err(e) => Err(e),
        Ok(Kind::Class) => Err(CompileError { kind: ErrorKind::InputClass, pos }),
        Ok(Kind::Function) => Err(CompileError { kind: ErrorKind::InputFunction, pos }),
        Ok(Kind::Variable(_)) => Ok(()),
    }
}

/// Checks a variable declaration's initializer.
pub fn check_var_decl(t: &Type, rval: &Option<Expression>) -> (r: Result<(), CompileError>)
    ensures
        r == spec_check_var_decl(
            crate::ast::type_model(*t),
            match *rval {
                Option::Some(e) => Option::Some(expr_model(e)),
                Option::None => Option::None,
            },
        ),
{
    let rv = match rval {
        None => {
            return Ok(());
        },
        Some(rv) => rv,
    };
    let pos = rv.source_position();
    match rv.get_kind() {
        Err(e) => Err(e),
        Ok(Kind::Variable(t2)) => {
            if t.equivalent(&t2) {
                Ok(())
            } else {
                Err(CompileError { kind: ErrorKind::InvalidAssignmentOperation, pos })
            }
        },
        Ok(_) => Err(CompileError { kind: ErrorKind::InvalidAssignmentOperand, pos }),
    }
}

/// Checks one `return` against the declared output type.
pub fn check_return(
    expected: &Type,
    x: &Option<Expression>,
    pos: SourcePositionData,
) -> (r: Result<(), CompileError>)
    ensures
        r == spec_check_return(
            crate::ast::type_model(*expected),
            match *x {
                Option::Some(e) => Option::Some(expr_model(e)),
                Option::None => Option::None,
            },
            pos,
        ),
{
    let returns_void = match expected {
        Type::Primitive(Primitive::Void, _) => true,
        Type::PerfectPrimitive(Primitive::Void, _) => true,
        _ => false,
    };
    match x {
        Some(e) => {
            if returns_void {
                return Err(
                    CompileError {
                        kind: ErrorKind::ReturnValueInVoid,
                        pos: e.source_position(),
                    },
                );
            }
            match e.get_kind() {
                Err(err) => Err(err),
                Ok(Kind::Variable(t)) => {
                    if t.equivalent(expected) {
                        Ok(())
                    } else {
                        Err(
                            CompileError {
                                kind: ErrorKind::BadReturnValue,
                                pos: t.source_position(),
                            },
                        )
                    }
                },
                Ok(_) => Err(CompileError { kind: ErrorKind::BadReturnValue, pos }),
            }
        },
        None => {
            if returns_void {
                Ok(())
            } else {
                Err(CompileError { kind: ErrorKind::MissingReturnValue, pos })
            }
        },
    }
}

impl Statement {
    /// Checks this statement under the type rules.
    pub fn check_type(&self) -> (r: Result<(), CompileError>)
        ensures
            r == spec_stmt_check(stmt_model(*self)),
    {
        match self {
            Statement::Assignment(l, e) => check_assignment(l, e),
            Statement::CallExpression(c) => match c.get_kind() {
                Err(e) => Err(e),
                Ok(_) => Ok(()),
            },
            Statement::Decrement(l) => check_incdec(l),
            Statement::Exit => Ok(()),
            Statement::Give(x) => check_give(x),
            Statement::If(x, _, _) => check_condition(x),
            Statement::Increment(l) => check_incdec(l),
            Statement::Return(_, _) => Ok(()),
            Statement::Take(l) => check_take(l),
            Statement::VariableDeclaration(d) => match d {
                crate::ast::Declaration::Variable(v) => check_var_decl(&v.t, &v.assignment),
                _ => Ok(()),
            },
            Statement::While(x, _) => check_condition(x),
        }
    }
}

/// Checks the statements of a function body, then its top-level returns.
fn check_statements(body: &Vec<Statement>, fn_output: &Type) -> (r: Result<(), CompileError>)
    ensures
        r == ({
            let bm = crate::ast::stmts_model(body@);
            match spec_stmts_check(bm, 0) {
                Result::Err(e) => Result::Err(e),
                Result::Ok(()) => spec_returns_check(crate::ast::type_model(*fn_output), bm, 0),
            }
        }),
{
    let ghost bm = crate::ast::stmts_model(body@);
    proof {
        crate::ast::lemma_stmts_model_len(body@);
    }
    let mut i: usize = 0;
    while i < body.len()
        invariant
            0 <= i <= body@.len(),
            bm == crate::ast::stmts_model(body@),
            bm.len() == body@.len(),
            spec_stmts_check(bm, 0) == spec_stmts_check(bm, i as int),
        decreases body@.len() - i,
    {
        proof {
            crate::ast::lemma_stmts_model_index(body@, i as int);
        }
        match body[i].check_type() {
            Err(e) => {
                return Err(e);
            },
            Ok(()) => {},
        }
        i = i + 1;
    }
    let ghost om = crate::ast::type_model(*fn_output);
    let mut j: usize = 0;
    while j < body.len()
        invariant
            0 <= j <= body@.len(),
            bm == crate::ast::stmts_model(body@),
            bm.len() == body@.len(),
            om == crate::ast::type_model(*fn_output),
            spec_stmts_check(bm, 0) is Ok,
            spec_returns_check(om, bm, 0) == spec_returns_check(om, bm, j as int),
        decreases body@.len() - j,
    {
        proof {
            crate::ast::lemma_stmts_model_index(body@, j as int);
        }
        match &body[j] {
            Statement::Return(x, pos) => {
                match check_return(fn_output, x, *pos) {
                    Err(e) => {
                        return Err(e);
                    },
                    Ok(()) => {},
                }
            },
            _ => {},
        }
        j = j + 1;
    }
    Ok(())
}

impl crate::ast::Function {
    /// Checks this function's statements and every top-level `return`.
    pub fn type_check(&self) -> (r: Result<(), CompileError>)
        ensures
            r == spec_function_check(crate::ast::function_model(*self)),
    {
        proof {
            assert(crate::ast::function_model(*self).body == crate::ast::stmts_model(self.body@));
            assert(crate::ast::function_model(*self).fn_output == crate::ast::type_model(
                self.fn_output,
            ));
        }
        check_statements(&self.body, &self.fn_output)
    }
}

impl crate::ast::Class {
    /// Checks every member declaration of this class.
    pub fn type_check(&self) -> (r: Result<(), CompileError>)
        ensures
            r == spec_decls_check(crate::ast::decls_model(self.body@), 0),
        decreases *self,
    {
        let ghost dm = crate::ast::decls_model(self.body@);
        proof {
            crate::ast::lemma_decls_model_len(self.body@);
        }
        let mut i: usize = 0;
        while i < self.body.len()
            invariant
                0 <= i <= self.body@.len(),
                dm == crate::ast::decls_model(self.body@),
                dm.len() == self.body@.len(),
                spec_decls_check(dm, 0) == spec_decls_check(dm, i as int),
            decreases self.body@.len() - i,
        {
            proof {
                assert(decreases_to!(*self => self.body@[i as int]));
                crate::ast::lemma_decls_model_index(self.body@, i as int);
            }
            match self.body[i].type_check() {
                Err(e) => {
                    return Err(e);
                },
                Ok(()) => {},
            }
            i = i + 1;
        }
        Ok(())
    }
}

impl crate::ast::VariableDeclaration {
    /// Checks this declaration's initializer.
    pub fn type_check(&self) -> (r: Result<(), CompileError>)
        ensures
            r == spec_check_var_decl(
                crate::ast::type_model(self.t),
                match self.assignment {
                    Option::Some(e) => Option::Some(expr_model(e)),
                    Option::None => Option::None,
                },
            ),
    {
        check_var_decl(&self.t, &self.assignment)
    }
}

impl crate::ast::Declaration {
    /// Checks this declaration under the type rules.
    pub fn type_check(&self) -> (r: Result<(), CompileError>)
        ensures
            r == spec_decl_check(crate::ast::decl_model(*self)),
        decreases *self,
    {
        match self {
            crate::ast::Declaration::Class(c) => c.type_check(),
            crate::ast::Declaration::Function(f) => f.type_check(),
            crate::ast::Declaration::Variable(v) => v.type_check(),
        }
    }
}

/// Runs type analysis over a whole program: each top-level declaration
/// contributes at most its first error, and the pass fails if there is any.
pub fn check_types(program: &Vec<crate::ast::Declaration>) -> (r: Result<(), Vec<CompileError>>)
    ensures
        match r {
            Result::Ok(()) => spec_program_check(crate::ast::decls_model(program@)).len() == 0,
            Result::Err(errs) => errs@ == spec_program_check(crate::ast::decls_model(program@))
                && errs@.len() > 0,
        },
{
    let ghost dm = crate::ast::decls_model(program@);
    proof {
        crate::ast::lemma_decls_model_len(program@);
    }
    let mut errors: Vec<CompileError> = Vec::new();
    let mut i: usize = 0;
    while i < program.len()
        invariant
            0 <= i <= program@.len(),
            dm == crate::ast::decls_model(program@),
            dm.len() == program@.len(),
            errors@ == spec_program_check(crate::ast::decls_model(program@.subrange(0, i as int))),
        decreases program@.len() - i,
    {
        proof {
            crate::ast::lemma_decls_model_facts(program@, i as int);
            crate::ast::lemma_decls_model_subrange(program@, i as int + 1);
            crate::ast::lemma_decls_model_subrange(program@, i as int);
            let q = crate::ast::decls_model(program@.subrange(0, i as int));
            let y = crate::ast::decl_model(program@[i as int]);
            assert(crate::ast::decls_model(program@.subrange(0, i as int + 1)).drop_last() =~= q);
            assert(crate::ast::decls_model(program@.subrange(0, i as int + 1)).last() == y);
        }
        let ghost prev_errs = errors@;
        match program[i].type_check() {
            Err(e) => {
                errors.push(e);
                proof {
                    assert(errors@ =~= prev_errs + seq![e]);
                }
            },
            Ok(()) => {
                proof {
                    assert(errors@ =~= prev_errs + Seq::<CompileError>::empty());
                }
            },
        }
        i = i + 1;
    }
    proof {
        assert(program@.subrange(0, program@.len() as int) =~= program@);
    }
    if errors.len() == 0 {
        Ok(())
    } else {
        Err(errors)
    }
}

impl crate::ast::Function {
    /// Checks every top-level `return` of this function against its declared
    /// output type.
    pub fn check_returns(&self) -> (r: Result<(), CompileError>)
        ensures
            r == spec_returns_check(
                crate::ast::type_model(self.fn_output),
                crate::ast::stmts_model(self.body@),
                0,
            ),
    {
        let ghost bm = crate::ast::stmts_model(self.body@);
        let ghost om = crate::ast::type_model(self.fn_output);
        proof {
            crate::ast::lemma_stmts_model_len(self.body@);
        }
        let mut j: usize = 0;
        while j < self.body.len()
            invariant
                0 <= j <= self.body@.len(),
                bm == crate::ast::stmts_model(self.body@),
                bm.len() == self.body@.len(),
                om == crate::ast::type_model(self.fn_output),
                spec_returns_check(om, bm, 0) == spec_returns_check(om, bm, j as int),
            decreases self.body@.len() - j,
        {
            proof {
                crate::ast::lemma_stmts_model_index(self.body@, j as int);
            }
            match &self.body[j] {
                Statement::Return(x, pos) => {
                    match check_return(&self.fn_output, x, *pos) {
                        Err(e) => {
                            return Err(e);
                        },
                        Ok(()) => {},
                    }
                },
                _ => {},
            }
            j = j + 1;
        }
        Ok(())
    }
}

} // verus!
