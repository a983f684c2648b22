//! Compile errors: a code plus a source range, formatted as
//! `FATAL [l1,c1]-[l2,c2]: <message>` only at the outer boundary.

use crate::source_position::{
    spec_line_number, spec_render_range, SourceMap, SourcePositionData,
};
use vstd::prelude::*;
use vstd::string::StringExecFns;

verus! {

/// Everything the compiler can reject a program for, one variant per
/// catalogue message.
#[derive(Clone, Copy, Debug, PartialEq, Eq, Structural)]
pub enum ErrorKind {
    UndeclaredIdentifier,
    MultiplyDeclaredIdentifier,
    InvalidTypeInDeclaration,
    UndefinedType,
    LogicalOperatorNonBool,
    ArithmeticOperatorInvalid,
    RelationalOperatorNonNumeric,
    InvalidEqualityOperand,
    InvalidEqualityOperation,
    CallNonFunction,
    WrongNumberOfArgs,
    ActualFormalMismatch,
    NonLvalAssignment,
    InvalidAssignmentOperand,
    InvalidAssignmentOperation,
    NonBoolCondition,
    OutputClass,
    OutputFunction,
    OutputVoid,
    InputClass,
    InputFunction,
    ReturnValueInVoid,
    MissingReturnValue,
    BadReturnValue,
    MissingEntry,
    MissingLvalEntry,
}

/// An error with the source range it is reported at.
#[derive(Clone, Copy, Debug, PartialEq, Eq, Structural)]
pub struct CompileError {
    pub kind: ErrorKind,
    pub pos: SourcePositionData,
}

/// The catalogue message for each error kind.
pub open spec fn spec_error_text(kind: ErrorKind) -> Seq<char> {
    match kind {
        ErrorKind::UndeclaredIdentifier => "Undeclared identifier"@,
        ErrorKind::MultiplyDeclaredIdentifier => "Multiply declared identifier"@,
        ErrorKind::InvalidTypeInDeclaration => "Invalid type in declaration"@,
        ErrorKind::UndefinedType => "Undefined type"@,
        ErrorKind::LogicalOperatorNonBool => "Logical operator applied to non-bool operand"@,
        ErrorKind::ArithmeticOperatorInvalid => "Arithmetic operator applied to invalid operand"@,
        ErrorKind::RelationalOperatorNonNumeric => "Relational operator applied to non-numeric operand"@,
        ErrorKind::InvalidEqualityOperand => "Invalid equality operand"@,
        ErrorKind::InvalidEqualityOperation => "Invalid equality operation"@,
        ErrorKind::CallNonFunction => "Attempt to call a non-function"@,
        ErrorKind::WrongNumberOfArgs => "Function call with wrong number of args"@,
        ErrorKind::ActualFormalMismatch => "Type of actual does not match type of formal"@,
        ErrorKind::NonLvalAssignment => "Non-Lval assignment"@,
        ErrorKind::InvalidAssignmentOperand => "Invalid assignment operand"@,
        ErrorKind::InvalidAssignmentOperation => "Invalid assignment operation"@,
        ErrorKind::NonBoolCondition => "Non-bool expression used as a condition"@,
        ErrorKind::OutputClass => "Attempt to output a class"@,
        ErrorKind::OutputFunction => "Attempt to output a function"@,
        ErrorKind::OutputVoid => "Attempt to output void"@,
        ErrorKind::InputClass => "Attempt to assign user input to class"@,
        ErrorKind::InputFunction => "Attempt to assign user input to function"@,
        ErrorKind::ReturnValueInVoid => "Return with a value in void function"@,
        ErrorKind::MissingReturnValue => "Missing return value"@,
        ErrorKind::BadReturnValue => "Bad return value"@,
        ErrorKind::MissingEntry => "No Symbol table entry found when getting type"@,
        ErrorKind::MissingLvalEntry => "Failed to read location's symbol table entry"@,
    }
}

/// How a whole error line renders against a given document.
pub open spec fn spec_error_message(doc: Seq<u8>, e: CompileError) -> Seq<char> {
    "FATAL "@ + spec_render_range(doc, e.pos) + ": "@ + spec_error_text(e.kind)
}

impl ErrorKind {
    /// The catalogue message for this kind.
    pub fn text(&self) -> (r: &'static str)
        ensures
            r@ == spec_error_text(*self),
    {
        match self {
            ErrorKind::UndeclaredIdentifier => "Undeclared identifier",
            ErrorKind::MultiplyDeclaredIdentifier => "Multiply declared identifier",
            ErrorKind::InvalidTypeInDeclaration => "Invalid type in declaration",
            ErrorKind::UndefinedType => "Undefined type",
            ErrorKind::LogicalOperatorNonBool => "Logical operator applied to non-bool operand",
            ErrorKind::ArithmeticOperatorInvalid => "Arithmetic operator applied to invalid operand",
            ErrorKind::RelationalOperatorNonNumeric => "Relational operator applied to non-numeric operand",
            ErrorKind::InvalidEqualityOperand => "Invalid equality operand",
            ErrorKind::InvalidEqualityOperation => "Invalid equality operation",
            ErrorKind::CallNonFunction => "Attempt to call a non-function",
            ErrorKind::WrongNumberOfArgs => "Function call with wrong number of args",
            ErrorKind::ActualFormalMismatch => "Type of actual does not match type of formal",
            ErrorKind::NonLvalAssignment => "Non-Lval assignment",
            ErrorKind::InvalidAssignmentOperand => "Invalid assignment operand",
            ErrorKind::InvalidAssignmentOperation => "Invalid assignment operation",
            ErrorKind::NonBoolCondition => "Non-bool expression used as a condition",
            ErrorKind::OutputClass => "Attempt to output a class",
            ErrorKind::OutputFunction => "Attempt to output a function",
            ErrorKind::OutputVoid => "Attempt to output void",
            ErrorKind::InputClass => "Attempt to assign user input to class",
            ErrorKind::InputFunction => "Attempt to assign user input to function",
            ErrorKind::ReturnValueInVoid => "Return with a value in void function",
            ErrorKind::MissingReturnValue => "Missing return value",
            ErrorKind::BadReturnValue => "Bad return value",
            ErrorKind::MissingEntry => "No Symbol table entry found when getting type",
            ErrorKind::MissingLvalEntry => "Failed to read location's symbol table entry",
        }
    }
}

impl CompileError {
    /// Renders the full `FATAL <range>: <message>` line for this error.
    pub fn message(&self, map: &SourceMap) -> (r: String)
        requires
            self.pos.s <= map.doc@.len(),
            self.pos.e <= map.doc@.len(),
            spec_line_number(map.doc@, self.pos.s as int) <= usize::MAX,
            spec_line_number(map.doc@, self.pos.e as int) <= usize::MAX,
            self.pos.s < usize::MAX,
            self.pos.e < usize::MAX,
        ensures
            r@ == spec_error_message(map.doc@, *self),
    {
        let mut out = String::new();
        out.append("FATAL ");
        out.append(map.render_range(&self.pos).as_str());
        out.append(": ");
        out.append(self.kind.text());
        proof {
            assert(out@ =~= spec_error_message(map.doc@, *self));
        }
        out
    }
}

} // verus!
