//! The syntax tree of a program, together with the view functions that map
//! each node to its mathematical model in [`crate::model`].

use crate::model;
use crate::source_position::SourcePositionData;
use crate::symbol_table::Entry;
use vstd::prelude::*;
use vstd::string::{StrSliceExecFns, StringExecFns};

verus! {

/// Wrap in a box.
pub fn b<T>(x: T) -> (r: Box<T>)
    ensures
        *r == x,
{
    Box::new(x)
}

/// A primitive type of the language.
#[derive(Clone, Copy, Debug, PartialEq, Eq, Structural)]
pub enum Primitive {
    Bool,
    Int,
    Str,
    Void,
}

/// An identifier with its position.
#[derive(Debug, PartialEq)]
pub struct Id {
    pub name: String,
    pub source_position: SourcePositionData,
}

/// A type as written in a program: a primitive or a class name, each either
/// plain or `perfect` (immutable).
#[derive(Debug, PartialEq)]
pub enum Type {
    Primitive(Primitive, SourcePositionData),
    PerfectPrimitive(Primitive, SourcePositionData),
    Class(Id, SourcePositionData),
    PerfectClass(Id, SourcePositionData),
}

/// A formal parameter.
#[derive(Debug, PartialEq)]
pub struct Formal {
    pub id: Id,
    pub t: Type,
}

/// One link of a dotted access chain `a--b--c`, with the annotations that
/// name analysis fills in.
#[derive(Debug, PartialEq)]
pub struct Location {
    pub current_link: String,
    pub source_position: SourcePositionData,
    pub enclosing_class: Option<Entry>,
    pub next_link: Option<Box<Location>>,
    pub symbol_table_entry: Option<Entry>,
    pub is_local: Option<bool>,
}

/// A call, either used as an expression or as a statement.
#[derive(Debug, PartialEq)]
pub struct CallExpression {
    pub location: Location,
    pub actuals: Vec<Expression>,
    pub source_position: SourcePositionData,
}

/// An expression.
#[derive(Debug, PartialEq)]
pub enum Expression {
    Add(Box<Expression>, Box<Expression>),
    And(Box<Expression>, Box<Expression>),
    CallExpression(CallExpression),
    Divide(Box<Expression>, Box<Expression>),
    Equals(Box<Expression>, Box<Expression>),
    False(SourcePositionData),
    Greater(Box<Expression>, Box<Expression>),
    GreaterEq(Box<Expression>, Box<Expression>),
    IntegerLiteral(u64, SourcePositionData),
    Less(Box<Expression>, Box<Expression>),
    LessEq(Box<Expression>, Box<Expression>),
    Location(Location),
    Magic(SourcePositionData),
    Multiply(Box<Expression>, Box<Expression>),
    Negative(Box<Expression>),
    Not(Box<Expression>),
    NotEquals(Box<Expression>, Box<Expression>),
    Or(Box<Expression>, Box<Expression>),
    StringLiteral(String, SourcePositionData),
    Subtract(Box<Expression>, Box<Expression>),
    True(SourcePositionData),
}

/// A block of statements.
#[derive(Debug, PartialEq)]
pub struct Body {
    pub statements: Vec<Statement>,
}

/// A statement.
#[derive(Debug, PartialEq)]
pub enum Statement {
    Assignment(Location, Expression),
    CallExpression(CallExpression),
    Decrement(Location),
    Exit,
    Give(Expression),
    If(Expression, Body, Body),
    Increment(Location),
    Return(Option<Expression>, SourcePositionData),
    Take(Location),
    VariableDeclaration(Declaration),
    While(Expression, Body),
}

/// A class declaration.
#[derive(Debug, PartialEq)]
pub struct Class {
    pub id: Id,
    pub body: Vec<Declaration>,
}

/// A function declaration.
#[derive(Debug, PartialEq)]
pub struct Function {
    pub id: Id,
    pub fn_input: Vec<Formal>,
    pub fn_output: Type,
    pub body: Vec<Statement>,
}

/// A variable declaration with an optional initializer.
#[derive(Debug, PartialEq)]
pub struct VariableDeclaration {
    pub name: Id,
    pub t: Type,
    pub assignment: Option<Expression>,
}

/// A declaration.
#[derive(Debug, PartialEq)]
pub enum Declaration {
    Class(Class),
    Function(Function),
    Variable(VariableDeclaration),
}

/// The model of an identifier.
pub open spec fn id_model(i: Id) -> model::Id {
    model::Id { name: i.name@, source_position: i.source_position }
}

/// The model of a written type.
pub open spec fn type_model(t: Type) -> model::Type {
    match t {
        Type::Primitive(p, pos) => model::Type::Primitive(p, pos),
        Type::PerfectPrimitive(p, pos) => model::Type::PerfectPrimitive(p, pos),
        Type::Class(id, pos) => model::Type::Class(id_model(id), pos),
        Type::PerfectClass(id, pos) => model::Type::PerfectClass(id_model(id), pos),
    }
}

/// The model of a formal parameter.
pub open spec fn formal_model(f: Formal) -> model::Formal {
    model::Formal { id: id_model(f.id), t: type_model(f.t) }
}

/// The model of a formal-parameter list.
pub open spec fn formals_model(s: Seq<Formal>) -> Seq<model::Formal>
    decreases s,
{
    if s.len() == 0 {
        Seq::empty()
    } else {
        formals_model(s.drop_last()).push(formal_model(s.last()))
    }
}

/// The model of a symbol-table entry.
pub open spec fn entry_model(e: Entry) -> model::Entry {
    match e {
        Entry::Class(scope) => model::Entry::Class(scope as int),
        Entry::Function(formals, output) => model::Entry::Function(
            formals_model(formals@),
            type_model(output),
        ),
        Entry::Variable(t) => model::Entry::Variable(type_model(t)),
    }
}

/// The model of a dotted access chain.
pub open spec fn location_model(l: Location) -> model::Location
    decreases l,
{
    model::Location {
        current_link: l.current_link@,
        source_position: l.source_position,
        enclosing_class: match l.enclosing_class {
            Option::None => Option::None,
            Option::Some(e) => Option::Some(entry_model(e)),
        },
        next_link: match l.next_link {
            Option::None => Option::None,
            Option::Some(next) => Option::Some(Box::new(location_model(*next))),
        },
        symbol_table_entry: match l.symbol_table_entry {
            Option::None => Option::None,
            Option::Some(e) => Option::Some(entry_model(e)),
        },
        is_local: l.is_local,
    }
}

/// The model of a call.
pub open spec fn call_model(c: CallExpression) -> model::CallExpression
    decreases c,
{
    model::CallExpression {
        location: location_model(c.location),
        actuals: exprs_model(c.actuals@),
        source_position: c.source_position,
    }
}

/// The model of an expression.
pub open spec fn expr_model(e: Expression) -> model::Expression
    decreases e,
{
    match e {
        Expression::Add(a, c) => model::Expression::Add(
            Box::new(expr_model(*a)),
            Box::new(expr_model(*c)),
        ),
        Expression::And(a, c) => model::Expression::And(
            Box::new(expr_model(*a)),
            Box::new(expr_model(*c)),
        ),
        Expression::CallExpression(c) => model::Expression::CallExpression(call_model(c)),
        Expression::Divide(a, c) => model::Expression::Divide(
            Box::new(expr_model(*a)),
            Box::new(expr_model(*c)),
        ),
        Expression::Equals(a, c) => model::Expression::Equals(
            Box::new(expr_model(*a)),
            Box::new(expr_model(*c)),
        ),
        Expression::False(p) => model::Expression::False(p),
        Expression::Greater(a, c) => model::Expression::Greater(
            Box::new(expr_model(*a)),
            Box::new(expr_model(*c)),
        ),
        Expression::GreaterEq(a, c) => model::Expression::GreaterEq(
            Box::new(expr_model(*a)),
            Box::new(expr_model(*c)),
        ),
        Expression::IntegerLiteral(v, p) => model::Expression::IntegerLiteral(v, p),
        Expression::Less(a, c) => model::Expression::Less(
            Box::new(expr_model(*a)),
            Box::new(expr_model(*c)),
        ),
        Expression::LessEq(a, c) => model::Expression::LessEq(
            Box::new(expr_model(*a)),
            Box::new(expr_model(*c)),
        ),
        Expression::Location(l) => model::Expression::Location(location_model(l)),
        Expression::Magic(p) => model::Expression::Magic(p),
        Expression::Multiply(a, c) => model::Expression::Multiply(
            Box::new(expr_model(*a)),
            Box::new(expr_model(*c)),
        ),
        Expression::Negative(a) => model::Expression::Negative(Box::new(expr_model(*a))),
        Expression::Not(a) => model::Expression::Not(Box::new(expr_model(*a))),
        Expression::NotEquals(a, c) => model::Expression::NotEquals(
            Box::new(expr_model(*a)),
            Box::new(expr_model(*c)),
        ),
        Expression::Or(a, c) => model::Expression::Or(
            Box::new(expr_model(*a)),
            Box::new(expr_model(*c)),
        ),
        Expression::StringLiteral(s, p) => model::Expression::StringLiteral(s@, p),
        Expression::Subtract(a, c) => model::Expression::Subtract(
            Box::new(expr_model(*a)),
            Box::new(expr_model(*c)),
        ),
        Expression::True(p) => model::Expression::True(p),
    }
}

/// The model of an expression list.
pub open spec fn exprs_model(s: Seq<Expression>) -> Seq<model::Expression>
    decreases s,
{
    if s.len() == 0 {
        Seq::empty()
    } else {
        exprs_model(s.drop_last()).push(expr_model(s.last()))
    }
}

/// The model of a statement.
pub open spec fn stmt_model(s: Statement) -> model::Statement
    decreases s,
{
    match s {
        Statement::Assignment(l, e) => model::Statement::Assignment(
            location_model(l),
            expr_model(e),
        ),
        Statement::CallExpression(c) => model::Statement::CallExpression(call_model(c)),
        Statement::Decrement(l) => model::Statement::Decrement(location_model(l)),
        Statement::Exit => model::Statement::Exit,
        Statement::Give(e) => model::Statement::Give(expr_model(e)),
        Statement::If(c, t, f) => model::Statement::If(
            expr_model(c),
            body_model(t),
            body_model(f),
        ),
        Statement::Increment(l) => model::Statement::Increment(location_model(l)),
        Statement::Return(e, p) => model::Statement::Return(
            match e {
                Option::None => Option::None,
                Option::Some(e) => Option::Some(expr_model(e)),
            },
            p,
        ),
        Statement::Take(l) => model::Statement::Take(location_model(l)),
        Statement::VariableDeclaration(d) => model::Statement::VariableDeclaration(decl_model(d)),
        Statement::While(c, body) => model::Statement::While(expr_model(c), body_model(body)),
    }
}

/// The model of a statement list.
pub open spec fn stmts_model(s: Seq<Statement>) -> Seq<model::Statement>
    decreases s,
{
    if s.len() == 0 {
        Seq::empty()
    } else {
        stmts_model(s.drop_last()).push(stmt_model(s.last()))
    }
}

/// The model of a block.
pub open spec fn body_model(body: Body) -> model::Body
    decreases body,
{
    model::Body { statements: stmts_model(body.statements@) }
}

/// The model of a class declaration.
pub open spec fn class_model(c: Class) -> model::Class
    decreases c,
{
    model::Class { id: id_model(c.id), body: decls_model(c.body@) }
}

/// The model of a function declaration.
pub open spec fn function_model(f: Function) -> model::Function
    decreases f,
{
    model::Function {
        id: id_model(f.id),
        fn_input: formals_model(f.fn_input@),
        fn_output: type_model(f.fn_output),
        body: stmts_model(f.body@),
    }
}

/// The model of a variable declaration.
pub open spec fn vardecl_model(v: VariableDeclaration) -> model::VariableDeclaration
    decreases v,
{
    model::VariableDeclaration {
        name: id_model(v.name),
        t: type_model(v.t),
        assignment: match v.assignment {
            Option::None => Option::None,
            Option::Some(e) => Option::Some(expr_model(e)),
        },
    }
}

/// The model of a declaration.
pub open spec fn decl_model(d: Declaration) -> model::Declaration
    decreases d,
{
    match d {
        Declaration::Class(c) => model::Declaration::Class(class_model(c)),
        Declaration::Function(f) => model::Declaration::Function(function_model(f)),
        Declaration::Variable(v) => model::Declaration::Variable(vardecl_model(v)),
    }
}

/// The model of a declaration list.
pub open spec fn decls_model(s: Seq<Declaration>) -> Seq<model::Declaration>
    decreases s,
{
    if s.len() == 0 {
        Seq::empty()
    } else {
        decls_model(s.drop_last()).push(decl_model(s.last()))
    }
}

/// The keyword for a primitive type.
pub open spec fn spec_prim_text(p: Primitive) -> Seq<char> {
    match p {
        Primitive::Bool => "bool"@,
        Primitive::Int => "int"@,
        Primitive::Str => "string"@,
        Primitive::Void => "void"@,
    }
}

/// How a type is written: its keyword or class name, with `perfect` in front
/// of immutable types.
pub open spec fn spec_type_text(t: model::Type) -> Seq<char> {
    match t {
        model::Type::Primitive(p, _) => spec_prim_text(p),
        model::Type::PerfectPrimitive(p, _) => "perfect "@ + spec_prim_text(p),
        model::Type::Class(id, _) => id.name,
        model::Type::PerfectClass(id, _) => "perfect "@ + id.name,
    }
}

/// Type equivalence: both primitive with the same primitive, or both classes
/// with the same name. Perfect-ness never affects equivalence.
pub open spec fn spec_equivalent(a: model::Type, b: model::Type) -> bool {
    match (a, b) {
        (model::Type::Primitive(t1, _), model::Type::Primitive(t2, _))
        | (model::Type::Primitive(t1, _), model::Type::PerfectPrimitive(t2, _))
        | (model::Type::PerfectPrimitive(t1, _), model::Type::Primitive(t2, _))
        | (model::Type::PerfectPrimitive(t1, _), model::Type::PerfectPrimitive(t2, _)) => t1 == t2,
        (model::Type::Class(t1, _), model::Type::Class(t2, _))
        | (model::Type::Class(t1, _), model::Type::PerfectClass(t2, _))
        | (model::Type::PerfectClass(t1, _), model::Type::Class(t2, _))
        | (model::Type::PerfectClass(t1, _), model::Type::PerfectClass(t2, _)) => t1.name
            == t2.name,
        _ => false,
    }
}

/// The perfect version of a type, at a new position.
pub open spec fn spec_new_perfect(t: model::Type, pos: SourcePositionData) -> model::Type {
    match t {
        model::Type::Primitive(p, _) | model::Type::PerfectPrimitive(p, _) =>
            model::Type::PerfectPrimitive(p, pos),
        model::Type::Class(id, _) | model::Type::PerfectClass(id, _) => model::Type::PerfectClass(
            id,
            pos,
        ),
    }
}

/// The position a type was written at.
pub open spec fn spec_type_position(t: model::Type) -> SourcePositionData {
    match t {
        model::Type::Primitive(_, p) => p,
        model::Type::PerfectPrimitive(_, p) => p,
        model::Type::Class(_, p) => p,
        model::Type::PerfectClass(_, p) => p,
    }
}

impl Primitive {
    /// The keyword this primitive is written as.
    pub fn text(&self) -> (r: &'static str)
        ensures
            r@ == spec_prim_text(*self),
    {
        match self {
            Primitive::Bool => "bool",
            Primitive::Int => "int",
            Primitive::Str => "string",
            Primitive::Void => "void",
        }
    }
}

impl Type {
    /// Returns a new perfect version of this type at some position.
    pub fn new_perfect(old: &Self, pos: SourcePositionData) -> (r: Self)
        ensures
            type_model(r) == spec_new_perfect(type_model(*old), pos),
    {
        match old {
            Type::Primitive(t, _) | Type::PerfectPrimitive(t, _) => Type::PerfectPrimitive(
                *t,
                pos,
            ),
            Type::Class(t, _) | Type::PerfectClass(t, _) => Type::PerfectClass(t.clone(), pos),
        }
    }

    /// Check if this is equivalent to another type.
    pub fn equivalent(&self, x: &Self) -> (r: bool)
        ensures
            r == spec_equivalent(type_model(*self), type_model(*x)),
    {
        match (self, x) {
            (Type::Primitive(t1, _), Type::Primitive(t2, _))
            | (Type::Primitive(t1, _), Type::PerfectPrimitive(t2, _))
            | (Type::PerfectPrimitive(t1, _), Type::Primitive(t2, _))
            | (Type::PerfectPrimitive(t1, _), Type::PerfectPrimitive(t2, _)) => t1 == t2,
            (Type::Class(t1, _), Type::Class(t2, _))
            | (Type::Class(t1, _), Type::PerfectClass(t2, _))
            | (Type::PerfectClass(t1, _), Type::Class(t2, _))
            | (Type::PerfectClass(t1, _), Type::PerfectClass(t2, _)) => t1.name.eq(&t2.name),
            _ => false,
        }
    }

    /// The position this type was written at.
    pub fn source_position(&self) -> (r: SourcePositionData)
        ensures
            r == spec_type_position(type_model(*self)),
    {
        match self {
            Type::Primitive(_, p)
            | Type::PerfectPrimitive(_, p)
            | Type::Class(_, p)
            | Type::PerfectClass(_, p) => *p,
        }
    }

    /// How this type is written in a program.
    pub fn to_text(&self) -> (r: String)
        ensures
            r@ == spec_type_text(type_model(*self)),
    {
        match self {
            Type::Primitive(p, _) => {
                let mut s = String::new();
                s.append(p.text());
                s
            },
            Type::PerfectPrimitive(p, _) => {
                let mut s = String::new();
                s.append("perfect ");
                s.append(p.text());
                s
            },
            Type::Class(id, _) => id.name.clone(),
            Type::PerfectClass(id, _) => {
                let mut s = String::new();
                s.append("perfect ");
                s.append(id.name.as_str());
                s
            },
        }
    }
}

/// Whether every character of `s` is a decimal digit.
pub open spec fn spec_is_digits(s: Seq<char>) -> bool {
    forall|i: int| 0 <= i < s.len() ==> '0' <= #[trigger] s[i] <= '9'
}

/// The numeric value of a string of decimal digits.
pub open spec fn spec_digits_val(s: Seq<char>) -> int
    decreases s,
{
    if s.len() == 0 {
        0
    } else {
        spec_digits_val(s.drop_last()) * 10 + (s.last() as int - '0' as int)
    }
}

/// A digit string's value is never negative.
proof fn lemma_digits_val_nonneg(s: Seq<char>)
    requires
        spec_is_digits(s),
    ensures
        spec_digits_val(s) >= 0,
    decreases s,
{
    if s.len() > 0 {
        assert(spec_is_digits(s.drop_last()));
        lemma_digits_val_nonneg(s.drop_last());
    }
}

/// A prefix of a digit string never exceeds the whole string's value.
proof fn lemma_digits_val_prefix(s: Seq<char>, i: int)
    requires
        0 <= i <= s.len(),
        spec_is_digits(s),
    ensures
        spec_digits_val(s.subrange(0, i)) <= spec_digits_val(s),
    decreases s.len() - i,
{
    if i == s.len() {
        assert(s.subrange(0, i) =~= s);
    } else {
        lemma_digits_val_prefix(s, i + 1);
        let t = s.subrange(0, i + 1);
        assert(t.drop_last() =~= s.subrange(0, i));
        assert(spec_is_digits(s.subrange(0, i)));
        lemma_digits_val_nonneg(s.subrange(0, i));
        assert(spec_digits_val(s.subrange(0, i)) * 10 + (t.last() as int - '0' as int)
            == spec_digits_val(t));
    }
}

impl Expression {
    /// Builds an integer literal from its written digits.
    pub fn new_int(value: &str, position: SourcePositionData) -> (r: Expression)
        requires
            value@.len() > 0,
            spec_is_digits(value@),
            spec_digits_val(value@) <= u64::MAX,
        ensures
            expr_model(r) == model::Expression::IntegerLiteral(
                spec_digits_val(value@) as u64,
                position,
            ),
    {
        let n = value.unicode_len();
        let mut acc: u64 = 0;
        let mut i: usize = 0;
        while i < n
            invariant
                0 <= i <= n == value@.len(),
                spec_is_digits(value@),
                spec_digits_val(value@) <= u64::MAX,
                acc == spec_digits_val(value@.subrange(0, i as int)),
            decreases n - i,
        {
            let c = value.get_char(i);
            let d: u64 = (c as u32 as u64) - ('0' as u32 as u64);
            proof {
                lemma_digits_val_prefix(value@, i as int + 1);
                assert(value@.subrange(0, i as int + 1).drop_last() =~= value@.subrange(
                    0,
                    i as int,
                ));
                assert(value@.subrange(0, i as int + 1).last() == value@[i as int]);
            }
            acc = acc * 10 + d;
            i = i + 1;
        }
        proof {
            assert(value@.subrange(0, value@.len() as int) =~= value@);
        }
        Expression::IntegerLiteral(acc, position)
    }

    /// Builds a string literal from its written form, stripping the quotes.
    pub fn new_string(string: &str, position: SourcePositionData) -> (r: Expression)
        requires
            string@.len() >= 2,
        ensures
            expr_model(r) == model::Expression::StringLiteral(
                string@.subrange(1, string@.len() - 1),
                position,
            ),
    {
        let n = string.unicode_len();
        let inner = string.substring_char(1, n - 1);
        Expression::StringLiteral(String::from_str(inner), position)
    }

    /// Whether this expression has operand subexpressions.
    pub fn has_subexpression(&self) -> (r: bool)
        ensures
            r == spec_has_subexpression(expr_model(*self)),
    {
        match self {
            Expression::False(_)
            | Expression::IntegerLiteral(_, _)
            | Expression::Location(_)
            | Expression::Magic(_)
            | Expression::StringLiteral(_, _)
            | Expression::True(_) => false,
            _ => true,
        }
    }

    /// The source range this expression spans.
    pub fn source_position(&self) -> (r: SourcePositionData)
        ensures
            r == spec_expr_position(expr_model(*self)),
        decreases *self,
    {
        match self {
            Expression::Add(a, c)
            | Expression::And(a, c)
            | Expression::Divide(a, c)
            | Expression::Equals(a, c)
            | Expression::Greater(a, c)
            | Expression::GreaterEq(a, c)
            | Expression::Less(a, c)
            | Expression::LessEq(a, c)
            | Expression::Multiply(a, c)
            | Expression::NotEquals(a, c)
            | Expression::Or(a, c)
            | Expression::Subtract(a, c) => {
                let pa = a.source_position();
                let pc = c.source_position();
                let r = SourcePositionData { s: pa.s, e: pc.e };
                proof {
                    assert(r == spec_expr_position(expr_model(*self)));
                }
                r
            },
            Expression::False(p)
            | Expression::IntegerLiteral(_, p)
            | Expression::Magic(p)
            | Expression::StringLiteral(_, p)
            | Expression::True(p) => {
                let r = *p;
                proof {
                    assert(r == spec_expr_position(expr_model(*self)));
                }
                r
            },
            Expression::Negative(x) | Expression::Not(x) => {
                let r = x.source_position();
                proof {
                    assert(r == spec_expr_position(expr_model(*self)));
                }
                r
            },
            Expression::CallExpression(x) => {
                let r = x.source_position;
                proof {
                    assert(expr_model(*self) == model::Expression::CallExpression(call_model(*x)));
                    assert(call_model(*x).source_position == x.source_position);
                    assert(r == spec_expr_position(expr_model(*self)));
                }
                r
            },
            Expression::Location(x) => {
                let r = x.source_position;
                proof {
                    assert(r == spec_expr_position(expr_model(*self)));
                }
                r
            },
        }
    }
}

/// Whether an expression has operand subexpressions.
pub open spec fn spec_has_subexpression(e: model::Expression) -> bool {
    match e {
        model::Expression::False(_)
        | model::Expression::IntegerLiteral(_, _)
        | model::Expression::Location(_)
        | model::Expression::Magic(_)
        | model::Expression::StringLiteral(_, _)
        | model::Expression::True(_) => false,
        _ => true,
    }
}

/// The source range an expression spans: binary operators span from their
/// left operand's start to their right operand's end.
pub open spec fn spec_expr_position(e: model::Expression) -> SourcePositionData
    decreases e,
{
    match e {
        model::Expression::Add(a, c)
        | model::Expression::And(a, c)
        | model::Expression::Divide(a, c)
        | model::Expression::Equals(a, c)
        | model::Expression::Greater(a, c)
        | model::Expression::GreaterEq(a, c)
        | model::Expression::Less(a, c)
        | model::Expression::LessEq(a, c)
        | model::Expression::Multiply(a, c)
        | model::Expression::NotEquals(a, c)
        | model::Expression::Or(a, c)
        | model::Expression::Subtract(a, c) => SourcePositionData {
            s: spec_expr_position(*a).s,
            e: spec_expr_position(*c).e,
        },
        model::Expression::False(p)
        | model::Expression::IntegerLiteral(_, p)
        | model::Expression::Magic(p)
        | model::Expression::StringLiteral(_, p)
        | model::Expression::True(p) => p,
        model::Expression::Negative(x) | model::Expression::Not(x) => spec_expr_position(*x),
        model::Expression::CallExpression(x) => x.source_position,
        model::Expression::Location(x) => x.source_position,
    }
}

/// The last link of a dotted chain.
pub open spec fn spec_last_link(l: model::Location) -> model::Location
    decreases l,
{
    match l.next_link {
        Option::None => l,
        Option::Some(next) => spec_last_link(*next),
    }
}

/// Appending a link at the end of a dotted chain.
pub open spec fn spec_append(l: model::Location, next: model::Location) -> model::Location
    decreases l,
{
    match l.next_link {
        Option::None => model::Location { next_link: Option::Some(Box::new(next)), ..l },
        Option::Some(tail) => model::Location {
            next_link: Option::Some(Box::new(spec_append(*tail, next))),
            ..l
        },
    }
}

impl Location {
    /// A fresh single-link chain with no annotations.
    pub fn new(name: String, source_position: SourcePositionData) -> (r: Self)
        ensures
            location_model(r) == (model::Location {
                current_link: name@,
                source_position,
                enclosing_class: Option::None,
                next_link: Option::None,
                symbol_table_entry: Option::None,
                is_local: Option::None,
            }),
    {
        Location {
            current_link: name,
            source_position,
            enclosing_class: None,
            next_link: None,
            symbol_table_entry: None,
            is_local: None,
        }
    }

    /// Attaches a link at the end of this chain.
    pub fn append(self, next_link: Self) -> (r: Self)
        ensures
            location_model(r) == spec_append(location_model(self), location_model(next_link)),
        decreases self,
    {
        let Location {
            current_link,
            source_position,
            enclosing_class,
            next_link: old_next,
            symbol_table_entry,
            is_local,
        } = self;
        let new_next = match old_next {
            None => next_link,
            Some(tail) => (*tail).append(next_link),
        };
        Location {
            current_link,
            source_position,
            enclosing_class,
            next_link: Some(Box::new(new_next)),
            symbol_table_entry,
            is_local,
        }
    }

    /// The last link of this chain.
    pub fn get_last_link(&self) -> (r: &Location)
        ensures
            location_model(*r) == spec_last_link(location_model(*self)),
        decreases *self,
    {
        match &self.next_link {
            None => self,
            Some(next) => next.get_last_link(),
        }
    }

    /// The symbol-table entry name analysis bound this link to, if any.
    pub fn get_entry(&self) -> (r: Option<&Entry>)
        ensures
            match r {
                Option::Some(e) => location_model(*self).symbol_table_entry == Option::Some(
                    entry_model(*e),
                ),
                Option::None => location_model(*self).symbol_table_entry is None,
            },
    {
        match &self.symbol_table_entry {
            Some(e) => Some(e),
            None => None,
        }
    }

    /// Whether name analysis resolved this chain's head in a non-global scope.
    pub fn is_local(&self) -> (r: bool)
        requires
            location_model(*self).is_local is Some,
        ensures
            Option::Some(r) == location_model(*self).is_local,
    {
        match self.is_local {
            Some(local) => local,
            None => false,
        }
    }
}

impl Clone for Id {
    /// Cloning keeps the name and position.
    fn clone(&self) -> (r: Self)
        ensures
            id_model(r) == id_model(*self),
    {
        Id { name: self.name.clone(), source_position: self.source_position }
    }
}

impl Clone for Type {
    /// Cloning keeps the model.
    fn clone(&self) -> (r: Self)
        ensures
            type_model(r) == type_model(*self),
    {
        match self {
            Type::Primitive(p, pos) => Type::Primitive(*p, *pos),
            Type::PerfectPrimitive(p, pos) => Type::PerfectPrimitive(*p, *pos),
            Type::Class(id, pos) => Type::Class(id.clone(), *pos),
            Type::PerfectClass(id, pos) => Type::PerfectClass(id.clone(), *pos),
        }
    }
}

impl Clone for Formal {
    /// Cloning keeps the model.
    fn clone(&self) -> (r: Self)
        ensures
            formal_model(r) == formal_model(*self),
    {
        Formal { id: self.id.clone(), t: self.t.clone() }
    }
}

/// Clones a formal-parameter list.
pub fn clone_formals(formals: &Vec<Formal>) -> (r: Vec<Formal>)
    ensures
        formals_model(r@) == formals_model(formals@),
{
    let mut v: Vec<Formal> = Vec::new();
    let mut i: usize = 0;
    while i < formals.len()
        invariant
            0 <= i <= formals@.len(),
            formals_model(v@) == formals_model(formals@.subrange(0, i as int)),
        decreases formals@.len() - i,
    {
        let ghost prev = v@;
        v.push(formals[i].clone());
        proof {
            let t = formals@.subrange(0, i as int + 1);
            assert(t.drop_last() =~= formals@.subrange(0, i as int));
            assert(t.last() == formals@[i as int]);
            assert(v@.drop_last() =~= prev);
            assert(formals_model(v@) == formals_model(t));
        }
        i = i + 1;
    }
    proof {
        assert(formals@.subrange(0, formals@.len() as int) =~= formals@);
    }
    v
}

/// The model of a list prefix extends by its last element.
pub proof fn lemma_exprs_model_prefix(s: Seq<Expression>, i: int)
    requires
        0 <= i < s.len(),
    ensures
        exprs_model(s.subrange(0, i + 1)) == exprs_model(s.subrange(0, i)).push(
            expr_model(s[i]),
        ),
        exprs_model(s.subrange(0, i + 1)).len() == i + 1,
        exprs_model(s.subrange(0, i + 1)).drop_last() == exprs_model(s.subrange(0, i)),
        exprs_model(s.subrange(0, i + 1)).last() == expr_model(s[i]),
    decreases i,
{
    let t = s.subrange(0, i + 1);
    assert(t.drop_last() =~= s.subrange(0, i));
    assert(t.last() == s[i]);
    lemma_exprs_model_len(s.subrange(0, i));
}

/// The model of a list has the list's length.
pub proof fn lemma_exprs_model_len(s: Seq<Expression>)
    ensures
        exprs_model(s).len() == s.len(),
    decreases s,
{
    if s.len() > 0 {
        lemma_exprs_model_len(s.drop_last());
    }
}

/// The model of a list is the list of the elements' models.
pub proof fn lemma_exprs_model_index(s: Seq<Expression>, k: int)
    requires
        0 <= k < s.len(),
    ensures
        exprs_model(s).len() == s.len(),
        exprs_model(s)[k] == expr_model(s[k]),
    decreases s,
{
    lemma_exprs_model_len(s);
    if k == s.len() - 1 {
    } else {
        lemma_exprs_model_index(s.drop_last(), k);
    }
}

/// Taking the model commutes with taking a prefix.
pub proof fn lemma_exprs_model_subrange(s: Seq<Expression>, k: int)
    requires
        0 <= k <= s.len(),
    ensures
        exprs_model(s.subrange(0, k)) == exprs_model(s).subrange(0, k),
    decreases k,
{
    lemma_exprs_model_len(s);
    if k == 0 {
        assert(exprs_model(s.subrange(0, 0)) =~= exprs_model(s).subrange(0, 0));
    } else {
        lemma_exprs_model_subrange(s, k - 1);
        lemma_exprs_model_prefix(s, k - 1);
        lemma_exprs_model_index(s, k - 1);
        assert(exprs_model(s).subrange(0, k) =~= exprs_model(s).subrange(0, k - 1).push(
            exprs_model(s)[k - 1],
        ));
    }
}

/// The model of a statement list is the list of the statements' models.
pub proof fn lemma_stmts_model_facts(s: Seq<Statement>, i: int)
    requires
        0 <= i < s.len(),
    ensures
        stmts_model(s).len() == s.len(),
        stmts_model(s.subrange(0, i)).len() == i,
        stmts_model(s.subrange(0, i + 1)) == stmts_model(
            s.subrange(0, i),
        ).push(stmt_model(s[i])),
    decreases s.len() - i,
{
    lemma_stmts_model_len(s);
    lemma_stmts_model_len(s.subrange(0, i));
    let t = s.subrange(0, i + 1);
    assert(t.drop_last() =~= s.subrange(0, i));
    assert(t.last() == s[i]);
}

/// The model of a statement list has the list's length.
pub proof fn lemma_stmts_model_len(s: Seq<Statement>)
    ensures
        stmts_model(s).len() == s.len(),
    decreases s,
{
    if s.len() > 0 {
        lemma_stmts_model_len(s.drop_last());
    }
}

/// Taking the model of statements commutes with taking a prefix.
pub proof fn lemma_stmts_model_subrange(s: Seq<Statement>, k: int)
    requires
        0 <= k <= s.len(),
    ensures
        stmts_model(s.subrange(0, k)) == stmts_model(s).subrange(0, k),
    decreases k,
{
    lemma_stmts_model_len(s);
    if k == 0 {
        assert(stmts_model(s.subrange(0, 0)) =~= stmts_model(
            s,
        ).subrange(0, 0));
    } else {
        lemma_stmts_model_subrange(s, k - 1);
        lemma_stmts_model_facts(s, k - 1);
        lemma_stmts_model_index(s, k - 1);
        assert(stmts_model(s).subrange(0, k) =~= stmts_model(
            s,
        ).subrange(0, k - 1).push(stmts_model(s)[k - 1]));
    }
}

/// The model of a statement list, at an index.
pub proof fn lemma_stmts_model_index(s: Seq<Statement>, k: int)
    requires
        0 <= k < s.len(),
    ensures
        stmts_model(s)[k] == stmt_model(s[k]),
    decreases s,
{
    lemma_stmts_model_len(s);
    if k == s.len() - 1 {
    } else {
        lemma_stmts_model_index(s.drop_last(), k);
    }
}

/// The model of a declaration list has the list's length.
pub proof fn lemma_decls_model_len(s: Seq<Declaration>)
    ensures
        decls_model(s).len() == s.len(),
    decreases s,
{
    if s.len() > 0 {
        lemma_decls_model_len(s.drop_last());
    }
}

/// The model of a declaration list, around one more element.
pub proof fn lemma_decls_model_facts(s: Seq<Declaration>, i: int)
    requires
        0 <= i < s.len(),
    ensures
        decls_model(s).len() == s.len(),
        decls_model(s.subrange(0, i)).len() == i,
        decls_model(s.subrange(0, i + 1)) == decls_model(
            s.subrange(0, i),
        ).push(decl_model(s[i])),
{
    lemma_decls_model_len(s);
    lemma_decls_model_len(s.subrange(0, i));
    let t = s.subrange(0, i + 1);
    assert(t.drop_last() =~= s.subrange(0, i));
    assert(t.last() == s[i]);
}

/// Taking the model of declarations commutes with taking a prefix.
pub proof fn lemma_decls_model_subrange(s: Seq<Declaration>, k: int)
    requires
        0 <= k <= s.len(),
    ensures
        decls_model(s.subrange(0, k)) == decls_model(s).subrange(0, k),
    decreases k,
{
    lemma_decls_model_len(s);
    if k == 0 {
        assert(decls_model(s.subrange(0, 0)) =~= decls_model(
            s,
        ).subrange(0, 0));
    } else {
        lemma_decls_model_subrange(s, k - 1);
        lemma_decls_model_facts(s, k - 1);
        lemma_decls_model_index(s, k - 1);
        assert(decls_model(s).subrange(0, k) =~= decls_model(
            s,
        ).subrange(0, k - 1).push(decls_model(s)[k - 1]));
    }
}

/// The model of a declaration list, at an index.
pub proof fn lemma_decls_model_index(s: Seq<Declaration>, k: int)
    requires
        0 <= k < s.len(),
    ensures
        decls_model(s)[k] == decl_model(s[k]),
    decreases s,
{
    lemma_decls_model_len(s);
    if k == s.len() - 1 {
    } else {
        lemma_decls_model_index(s.drop_last(), k);
    }
}

/// The model of a formal list has the list's length.
pub proof fn lemma_formals_model_len(s: Seq<Formal>)
    ensures
        formals_model(s).len() == s.len(),
    decreases s,
{
    if s.len() > 0 {
        lemma_formals_model_len(s.drop_last());
    }
}

/// The model of a formal list, around one more element.
pub proof fn lemma_formals_model_facts(s: Seq<Formal>, i: int)
    requires
        0 <= i < s.len(),
    ensures
        formals_model(s).len() == s.len(),
        formals_model(s.subrange(0, i)).len() == i,
        formals_model(s.subrange(0, i + 1)) == formals_model(
            s.subrange(0, i),
        ).push(formal_model(s[i])),
{
    lemma_formals_model_len(s);
    lemma_formals_model_len(s.subrange(0, i));
    let t = s.subrange(0, i + 1);
    assert(t.drop_last() =~= s.subrange(0, i));
    assert(t.last() == s[i]);
}

/// Taking the model of formals commutes with taking a prefix.
pub proof fn lemma_formals_model_subrange(s: Seq<Formal>, k: int)
    requires
        0 <= k <= s.len(),
    ensures
        formals_model(s.subrange(0, k)) == formals_model(s).subrange(0, k),
    decreases k,
{
    lemma_formals_model_len(s);
    if k == 0 {
        assert(formals_model(s.subrange(0, 0)) =~= formals_model(
            s,
        ).subrange(0, 0));
    } else {
        lemma_formals_model_subrange(s, k - 1);
        lemma_formals_model_facts(s, k - 1);
        lemma_formals_model_index(s, k - 1);
        assert(formals_model(s).subrange(0, k) =~= formals_model(
            s,
        ).subrange(0, k - 1).push(formals_model(s)[k - 1]));
    }
}

/// The model of a formal list, at an index.
pub proof fn lemma_formals_model_index(s: Seq<Formal>, k: int)
    requires
        0 <= k < s.len(),
    ensures
        formals_model(s)[k] == formal_model(s[k]),
    decreases s,
{
    lemma_formals_model_len(s);
    if k == s.len() - 1 {
    } else {
        lemma_formals_model_index(s.drop_last(), k);
    }
}


/// How a dotted chain is written: its links joined by `--`.
pub open spec fn spec_location_text(l: model::Location) -> Seq<char>
    decreases l,
{
    match l.next_link {
        Option::None => l.current_link,
        Option::Some(next) => l.current_link + "--"@ + spec_location_text(*next),
    }
}

impl Location {
    /// How this chain is written: its links joined by `--`.
    pub fn to_text(&self) -> (r: String)
        ensures
            r@ == spec_location_text(location_model(*self)),
        decreases *self,
    {
        match &self.next_link {
            None => self.current_link.clone(),
            Some(next) => {
                let mut s = self.current_link.clone();
                s.append("--");
                s.append(next.to_text().as_str());
                s
            },
        }
    }
}

/// Type equivalence ignores perfect-ness: for any primitive, the plain and
/// the perfect form of that primitive are equivalent, wherever they were
/// written.
pub proof fn lemma_equivalent_ignores_perfect(
    p: Primitive,
    pos1: SourcePositionData,
    pos2: SourcePositionData,
)
    ensures
        spec_equivalent(
            model::Type::Primitive(p, pos1),
            model::Type::PerfectPrimitive(p, pos2),
        ),
        spec_equivalent(
            model::Type::PerfectPrimitive(p, pos1),
            model::Type::Primitive(p, pos2),
        ),
{
}

impl Location {
    /// A single-link chain for an identifier.
    pub fn new_from_id(id: Id) -> (r: Self)
        ensures
            location_model(r) == (model::Location {
                current_link: id_model(id).name,
                source_position: id.source_position,
                enclosing_class: Option::None,
                next_link: Option::None,
                symbol_table_entry: Option::None,
                is_local: Option::None,
            }),
    {
        let source_position = id.source_position;
        Location::new(id.name, source_position)
    }

    /// Extends a chain by one more identifier at its end.
    pub fn new_from_location(location: Location, id: Id) -> (r: Self)
        ensures
            location_model(r) == spec_append(
                location_model(location),
                model::Location {
                    current_link: id_model(id).name,
                    source_position: id.source_position,
                    enclosing_class: Option::None,
                    next_link: Option::None,
                    symbol_table_entry: Option::None,
                    is_local: Option::None,
                },
            ),
    {
        let link = Location::new_from_id(id);
        location.append(link)
    }

    /// Whether this chain's last link is bound to a class.
    pub fn is_class(&self) -> (r: bool)
        ensures
            r == (spec_last_link(location_model(*self)).symbol_table_entry matches Option::Some(
                model::Entry::Class(_),
            )),
    {
        match self.get_last_link().get_entry() {
            Some(Entry::Class(_)) => true,
            _ => false,
        }
    }

    /// Whether this chain's last link is bound to a function.
    pub fn is_function(&self) -> (r: bool)
        ensures
            r == (spec_last_link(location_model(*self)).symbol_table_entry matches Option::Some(
                model::Entry::Function(_, _),
            )),
    {
        match self.get_last_link().get_entry() {
            Some(Entry::Function(_, _)) => true,
            _ => false,
        }
    }

    /// Whether this chain's last link is bound to a variable.
    pub fn is_variable(&self) -> (r: bool)
        ensures
            r == (spec_last_link(location_model(*self)).symbol_table_entry matches Option::Some(
                model::Entry::Variable(_),
            )),
    {
        match self.get_last_link().get_entry() {
            Some(Entry::Variable(_)) => true,
            _ => false,
        }
    }
}

/// Whether `p` is a prefix of `s`.
pub open spec fn spec_starts_with(s: Seq<char>, p: Seq<char>) -> bool {
    s.len() >= p.len() && s.subrange(0, p.len() as int) == p
}

/// A class name that cannot be mistaken for another type's written form: it
/// is not empty, not a primitive keyword, and does not begin with the
/// `perfect ` marker.
pub open spec fn spec_plain_class_name(name: Seq<char>) -> bool {
    &&& name.len() > 0
    &&& name != "bool"@
    &&& name != "int"@
    &&& name != "string"@
    &&& name != "void"@
    &&& !spec_starts_with(name, "perfect "@)
}

/// Whether every class name in a type is plain in the sense of
/// [`spec_plain_class_name`].
pub open spec fn spec_type_unambiguous(t: model::Type) -> bool {
    match t {
        model::Type::Class(id, _) => spec_plain_class_name(id.name),
        model::Type::PerfectClass(id, _) => spec_plain_class_name(id.name),
        _ => true,
    }
}

/// The same type, written at the origin: all source positions dropped.
pub open spec fn spec_type_at_origin(t: model::Type) -> model::Type {
    let origin = SourcePositionData { s: 0, e: 0 };
    match t {
        model::Type::Primitive(p, _) => model::Type::Primitive(p, origin),
        model::Type::PerfectPrimitive(p, _) => model::Type::PerfectPrimitive(p, origin),
        model::Type::Class(id, _) => model::Type::Class(
            model::Id { name: id.name, source_position: origin },
            origin,
        ),
        model::Type::PerfectClass(id, _) => model::Type::PerfectClass(
            model::Id { name: id.name, source_position: origin },
            origin,
        ),
    }
}

/// Appending to a common prefix is cancellative.
proof fn lemma_concat_cancel(a: Seq<char>, b: Seq<char>, c: Seq<char>)
    requires
        a + b == a + c,
    ensures
        b == c,
{
    assert(b =~= (a + b).subrange(a.len() as int, (a + b).len() as int));
    assert(c =~= (a + c).subrange(a.len() as int, (a + c).len() as int));
}

/// The four primitive keywords, revealed.
proof fn lemma_keywords_revealed()
    ensures
        "bool"@.len() == 4,
        "int"@.len() == 3,
        "string"@.len() == 6,
        "void"@.len() == 4,
        "perfect "@.len() == 8,
        "bool"@ != "void"@,
{
    reveal_strlit("bool");
    reveal_strlit("int");
    reveal_strlit("string");
    reveal_strlit("void");
    reveal_strlit("perfect ");
    assert("bool"@[0] != "void"@[0]);
}

/// The written form of a type determines the type: two types that render to
/// the same text are the same type up to source positions, as long as their
/// class names cannot be mistaken for another type's written form. This is
/// the half of the plain unparse round trip that the renderer itself can
/// promise: the text it emits for a type loses nothing but positions.
pub proof fn lemma_type_text_injective(t1: model::Type, t2: model::Type)
    requires
        spec_type_text(t1) == spec_type_text(t2),
        spec_type_unambiguous(t1),
        spec_type_unambiguous(t2),
    ensures
        spec_type_at_origin(t1) == spec_type_at_origin(t2),
{
    lemma_keywords_revealed();
    let marker = "perfect "@;
    match (t1, t2) {
        (model::Type::Primitive(p1, _), model::Type::Primitive(p2, _)) => {
            assert(spec_prim_text(p1) == spec_prim_text(p2));
            assert(p1 == p2) by {
                if p1 != p2 {
                    assert(spec_prim_text(p1) =~= spec_prim_text(p2));
                    assert(false);
                }
            }
        },
        (model::Type::PerfectPrimitive(p1, _), model::Type::PerfectPrimitive(p2, _)) => {
            lemma_concat_cancel(marker, spec_prim_text(p1), spec_prim_text(p2));
            assert(p1 == p2) by {
                if p1 != p2 {
                    assert(spec_prim_text(p1) =~= spec_prim_text(p2));
                    assert(false);
                }
            }
        },
        (model::Type::Class(id1, _), model::Type::Class(id2, _)) => {
            assert(id1.name == id2.name);
        },
        (model::Type::PerfectClass(id1, _), model::Type::PerfectClass(id2, _)) => {
            lemma_concat_cancel(marker, id1.name, id2.name);
        },
        (model::Type::Primitive(p1, _), model::Type::PerfectPrimitive(p2, _)) => {
            assert(spec_prim_text(p1).len() == (marker + spec_prim_text(p2)).len());
            assert(false);
        },
        (model::Type::PerfectPrimitive(p1, _), model::Type::Primitive(p2, _)) => {
            assert((marker + spec_prim_text(p1)).len() == spec_prim_text(p2).len());
            assert(false);
        },
        (model::Type::Primitive(p1, _), model::Type::Class(id2, _)) => {
            assert(id2.name == spec_prim_text(p1));
            assert(false);
        },
        (model::Type::Class(id1, _), model::Type::Primitive(p2, _)) => {
            assert(id1.name == spec_prim_text(p2));
            assert(false);
        },
        (model::Type::Primitive(p1, _), model::Type::PerfectClass(id2, _)) => {
            assert(spec_prim_text(p1).len() >= marker.len() + 1);
            assert(false);
        },
        (model::Type::PerfectClass(id1, _), model::Type::Primitive(p2, _)) => {
            assert(spec_prim_text(p2).len() >= marker.len() + 1);
            assert(false);
        },
        (model::Type::PerfectPrimitive(p1, _), model::Type::Class(id2, _)) => {
            assert(spec_starts_with(id2.name, marker)) by {
                assert(id2.name == marker + spec_prim_text(p1));
                assert(id2.name.subrange(0, marker.len() as int) =~= marker);
            }
            assert(false);
        },
        (model::Type::Class(id1, _), model::Type::PerfectPrimitive(p2, _)) => {
            assert(spec_starts_with(id1.name, marker)) by {
                assert(id1.name == marker + spec_prim_text(p2));
                assert(id1.name.subrange(0, marker.len() as int) =~= marker);
            }
            assert(false);
        },
        (model::Type::PerfectPrimitive(p1, _), model::Type::PerfectClass(id2, _)) => {
            lemma_concat_cancel(marker, spec_prim_text(p1), id2.name);
            assert(false);
        },
        (model::Type::PerfectClass(id1, _), model::Type::PerfectPrimitive(p2, _)) => {
            lemma_concat_cancel(marker, id1.name, spec_prim_text(p2));
            assert(false);
        },
        (model::Type::Class(id1, _), model::Type::PerfectClass(id2, _)) => {
            assert(spec_starts_with(id1.name, marker)) by {
                assert(id1.name == marker + id2.name);
                assert(id1.name.subrange(0, marker.len() as int) =~= marker);
            }
            assert(false);
        },
        (model::Type::PerfectClass(id1, _), model::Type::Class(id2, _)) => {
            assert(spec_starts_with(id2.name, marker)) by {
                assert(id2.name == marker + id1.name);
                assert(id2.name.subrange(0, marker.len() as int) =~= marker);
            }
            assert(false);
        },
    }
}

} // verus!
