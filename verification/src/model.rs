//! The mathematical model of programs.
//!
//! Every executable syntax-tree type in [`crate::ast`] has a counterpart here
//! whose strings are character sequences and whose lists are sequences, so
//! that contracts can speak about programs as pure values.

use crate::ast::Primitive;
use crate::error::CompileError;
use crate::source_position::SourcePositionData;
use vstd::prelude::*;

verus! {

/// An identifier with its position.
pub struct Id {
    pub name: Seq<char>,
    pub source_position: SourcePositionData,
}

/// A type as written in a program: a primitive or a class name, each either
/// plain or `perfect` (immutable).
pub enum Type {
    Primitive(Primitive, SourcePositionData),
    PerfectPrimitive(Primitive, SourcePositionData),
    Class(Id, SourcePositionData),
    PerfectClass(Id, SourcePositionData),
}

/// A formal parameter.
pub struct Formal {
    pub id: Id,
    pub t: Type,
}

/// A symbol-table entry. A class entry holds the index of its member scope in
/// the table's arena.
pub enum Entry {
    Class(int),
    Function(Seq<Formal>, Type),
    Variable(Type),
}

/// One link of a dotted access chain `a--b--c`, with the annotations that
/// name analysis fills in.
pub struct Location {
    pub current_link: Seq<char>,
    pub source_position: SourcePositionData,
    pub enclosing_class: Option<Entry>,
    pub next_link: Option<Box<Location>>,
    pub symbol_table_entry: Option<Entry>,
    pub is_local: Option<bool>,
}

/// A call, either used as an expression or as a statement.
pub struct CallExpression {
    pub location: Location,
    pub actuals: Seq<Expression>,
    pub source_position: SourcePositionData,
}

/// An expression.
pub enum Expression {
    Add(Box<Expression>, Box<Expression>),
    And(Box<Expression>, Box<Expression>),
    CallExpression(CallExpression),
    Divide(Box<Expression>, Box<Expression>),
    Equals(Box<Expression>, Box<Expression>),
    False(SourcePositionData),
    Greater(Box<Expression>, Box<Expression>),
    GreaterEq(Box<Expression>, Box<Expression>),
    IntegerLiteral(u64, SourcePositionData),
    Less(Box<Expression>, Box<Expression>),
    LessEq(Box<Expression>, Box<Expression>),
    Location(Location),
    Magic(SourcePositionData),
    Multiply(Box<Expression>, Box<Expression>),
    Negative(Box<Expression>),
    Not(Box<Expression>),
    NotEquals(Box<Expression>, Box<Expression>),
    Or(Box<Expression>, Box<Expression>),
    StringLiteral(Seq<char>, SourcePositionData),
    Subtract(Box<Expression>, Box<Expression>),
    True(SourcePositionData),
}

/// A block of statements.
pub struct Body {
    pub statements: Seq<Statement>,
}

/// A statement.
pub enum Statement {
    Assignment(Location, Expression),
    CallExpression(CallExpression),
    Decrement(Location),
    Exit,
    Give(Expression),
    If(Expression, Body, Body),
    Increment(Location),
    Return(Option<Expression>, SourcePositionData),
    Take(Location),
    VariableDeclaration(Declaration),
    While(Expression, Body),
}

/// A class declaration.
pub struct Class {
    pub id: Id,
    pub body: Seq<Declaration>,
}

/// A function declaration.
pub struct Function {
    pub id: Id,
    pub fn_input: Seq<Formal>,
    pub fn_output: Type,
    pub body: Seq<Statement>,
}

/// A variable declaration with an optional initializer.
pub struct VariableDeclaration {
    pub name: Id,
    pub t: Type,
    pub assignment: Option<Expression>,
}

/// A declaration.
pub enum Declaration {
    Class(Class),
    Function(Function),
    Variable(VariableDeclaration),
}

/// A TAC operand: a literal, a named stack slot, or a named global.
pub enum Argument {
    Literal(u64),
    Local(Seq<char>),
    Global(Seq<char>),
}

/// One entry of the globals section: a global variable, a string constant
/// with its label, or a function label.
pub enum GlobalDecl {
    Var(Seq<char>),
    Str(Seq<char>, Seq<char>),
    Fn(Seq<char>),
}

/// One three-address quadruple.
pub enum Quad {
    Add(Argument, Argument, Argument),
    And(Argument, Argument, Argument),
    Assignment(Argument, Argument),
    Call(Seq<char>),
    Divide(Argument, Argument, Argument),
    Enter(Seq<char>),
    Exit,
    Equals(Argument, Argument, Argument),
    GetArg(int, Argument),
    GetRet(Argument),
    Globals(Seq<GlobalDecl>),
    Goto(Seq<char>),
    Greater(Argument, Argument, Argument),
    GreaterEq(Argument, Argument, Argument),
    Ifz(Argument, Seq<char>),
    Label(Seq<char>),
    Leave(Seq<char>, Seq<char>),
    Less(Argument, Argument, Argument),
    LessEq(Argument, Argument, Argument),
    Locals(Seq<char>, Seq<Formal>, Seq<Id>, (int, int)),
    Multiply(Argument, Argument, Argument),
    Not(Argument, Argument),
    NotEq(Argument, Argument, Argument),
    Or(Argument, Argument, Argument),
    Read(Argument),
    SetArg(int, Argument),
    SetRet(Argument),
    Subtract(Argument, Argument, Argument),
    WriteInt(Argument),
    WriteStr(Argument),
}

/// The lowering context: the counters for temporaries, labels and string
/// labels, the current function's exit label, and the globals collected so
/// far.
pub struct LoweringContext {
    pub tmp: int,
    pub lbl: int,
    pub str_count: int,
    pub fn_exit: Seq<char>,
    pub globals: Seq<GlobalDecl>,
}

/// Which unparse artifact was asked for, with its output path.
pub enum UnparseMode {
    Named(Seq<char>),
    Off,
    Normal(Seq<char>),
}

/// Why a build stops early.
pub enum BuildFailure {
    NeverParsed,
    NameErrors(Seq<CompileError>),
    TypeErrors(Seq<CompileError>),
}

/// The kind of a name's referent.
pub enum Kind {
    Class,
    Function,
    Variable(Type),
}

/// The model of the symbol table: an arena holding every scope ever created
/// (each an association list from names to entries, oldest first) and a stack
/// of arena indices whose first element is the global scope.
pub struct SymbolTable {
    pub arena: Seq<Seq<(Seq<char>, Entry)>>,
    pub table: Seq<int>,
}

} // verus!
