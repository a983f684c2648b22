//! Tests of the text renderers: source positions, error messages, the
//! unparser, and the x86-64 backend.

use drewno_mars::ast::{
    Declaration, Expression, Function, Id, Location, Primitive, Statement, Type,
    VariableDeclaration,
};
use drewno_mars::display::unparse;
use drewno_mars::error::{CompileError, ErrorKind};
use drewno_mars::name_analysis::analyze;
use drewno_mars::render::{u64_string, usize_string};
use drewno_mars::source_position::{SourceMap, SourcePositionData};
use drewno_mars::symbol_table::{Entry, SymbolTable};
use drewno_mars::x64::{compile_program, X64Context};
use drewno_mars::three_ac::{Argument, Quad};

fn pos() -> SourcePositionData {
    SourcePositionData { s: 0, e: 0 }
}

fn id(name: &str) -> Id {
    Id { name: name.to_string(), source_position: pos() }
}

#[test]
fn decimal_rendering() {
    assert_eq!(u64_string(0), "0".to_string());
    assert_eq!(u64_string(42), "42".to_string());
    assert_eq!(u64_string(u64::MAX), "18446744073709551615".to_string());
    assert_eq!(usize_string(1000), "1000".to_string());
}

#[test]
fn line_and_column() {
    let map = SourceMap::new(b"ab\ncd\n".to_vec());
    assert_eq!(map.get_line_number(0), 1);
    assert_eq!(map.get_column(0), 1);
    assert_eq!(map.get_line_number(4), 2);
    assert_eq!(map.get_column(4), 2);
    assert_eq!(map.get_line_start(4), 3);
}

#[test]
fn error_message_rendering() {
    let map = SourceMap::new(b"x : bool = 1 + 2;\n".to_vec());
    let err = CompileError {
        kind: ErrorKind::InvalidAssignmentOperation,
        pos: SourcePositionData { s: 11, e: 16 },
    };
    assert_eq!(
        err.message(&map),
        "FATAL [1,12]-[1,17]: Invalid assignment operation".to_string()
    );
}

#[test]
fn error_texts() {
    assert_eq!(ErrorKind::NonLvalAssignment.text(), "Non-Lval assignment");
    assert_eq!(ErrorKind::UndeclaredIdentifier.text(), "Undeclared identifier");
    assert_eq!(
        ErrorKind::ActualFormalMismatch.text(),
        "Type of actual does not match type of formal"
    );
    assert_eq!(
        ErrorKind::ReturnValueInVoid.text(),
        "Return with a value in void function"
    );
    assert_eq!(ErrorKind::MultiplyDeclaredIdentifier.text(), "Multiply declared identifier");
}

fn sample_program() -> Vec<Declaration> {
    // x : int = 7; main : () void { x = 2; }
    let global_x = Declaration::Variable(VariableDeclaration {
        name: id("x"),
        t: Type::Primitive(Primitive::Int, pos()),
        assignment: Some(Expression::IntegerLiteral(7, pos())),
    });
    let assign = Statement::Assignment(
        Location::new("x".to_string(), pos()),
        Expression::IntegerLiteral(2, pos()),
    );
    let main = Declaration::Function(Function {
        id: id("main"),
        fn_input: vec![],
        fn_output: Type::Primitive(Primitive::Void, pos()),
        body: vec![assign],
    });
    vec![global_x, main]
}

/// Plain unparse reproduces the source shape with canonical indentation.
#[test]
fn plain_unparse() {
    let analyzed = analyze(&sample_program()).expect("name analysis should succeed");
    let text = unparse(&analyzed, false);
    assert_eq!(
        text,
        "x : int = 7;\nmain : () void {\n\tx = 2;\n}\n".to_string()
    );
}

/// Named unparse annotates identifier uses with their types and function
/// names with their signatures.
#[test]
fn named_unparse() {
    let analyzed = analyze(&sample_program()).expect("name analysis should succeed");
    let text = unparse(&analyzed, true);
    assert_eq!(
        text,
        "x{int} : int = 7;\nmain{()->void} : () void {\n\tx{int} = 2;\n}\n".to_string()
    );
}

/// The symbol table rejects duplicates in a scope but allows shadowing in a
/// nested one, and `is_local` sees only non-global scopes.
#[test]
fn symbol_table_scopes() {
    let mut st = SymbolTable::new();
    let t = Type::Primitive(Primitive::Int, pos());
    assert!(st.add(&"x".to_string(), Entry::Variable(t), pos()).is_ok());
    let t2 = Type::Primitive(Primitive::Int, pos());
    let dup = st.add(&"x".to_string(), Entry::Variable(t2), pos());
    assert_eq!(dup.unwrap_err().kind, ErrorKind::MultiplyDeclaredIdentifier);
    assert!(!st.is_local(&"x".to_string()));
    st.enter_scope();
    let t3 = Type::Primitive(Primitive::Bool, pos());
    assert!(st.add(&"x".to_string(), Entry::Variable(t3), pos()).is_ok());
    assert!(st.is_local(&"x".to_string()));
    match st.link(&"x".to_string(), pos()) {
        Ok(Entry::Variable(Type::Primitive(Primitive::Bool, _))) => {},
        other => panic!("expected the inner binding, got {:?}", other),
    }
    st.exit_scope();
    match st.link(&"x".to_string(), pos()) {
        Ok(Entry::Variable(Type::Primitive(Primitive::Int, _))) => {},
        other => panic!("expected the global binding, got {:?}", other),
    }
    let gone = st.link(&"y".to_string(), pos());
    assert_eq!(gone.unwrap_err().kind, ErrorKind::UndeclaredIdentifier);
}

/// The prologue subtracts a sixteen-byte-aligned frame and stores reach the
/// assigned slots.
#[test]
fn x64_frame_and_moves() {
    let quads = vec![
        Quad::Locals("f".to_string(), vec![], vec![id("x")], (0, 0)),
        Quad::Enter("f".to_string()),
        Quad::Assignment(Argument::Local("x".to_string()), Argument::Literal(5)),
    ];
    let output = compile_program(&quads);
    assert_eq!(
        output,
        "fn_f: push %rbp\nmovq %rsp, %rbp\nsubq $16, %rsp\n\
         movq $5, %rax\nmovq %rax, -8(%rbp)\n"
            .to_string()
    );
}

/// Comparisons compile to a `cmpq`, a `setcc`, and a zero-extension.
#[test]
fn x64_comparison() {
    let quads = vec![
        Quad::Locals("f".to_string(), vec![], vec![id("a"), id("b")], (0, 1)),
        Quad::Less(
            Argument::Local("tmp_0".to_string()),
            Argument::Local("a".to_string()),
            Argument::Local("b".to_string()),
        ),
    ];
    let output = compile_program(&quads);
    assert_eq!(
        output,
        "movq -8(%rbp), %rax\nmovq -16(%rbp), %rcx\n\
         cmpq %rcx, %rax\nsetl %al\nmovzbq %al, %rax\n\
         movq %rax, -24(%rbp)\n"
            .to_string()
    );
}

/// `give` of an int calls printf through the int format string.
#[test]
fn x64_write_int() {
    let mut ctx = X64Context::new();
    let q = Quad::WriteInt(Argument::Literal(3));
    let output = q.compile_x64(&mut ctx);
    assert_eq!(output, "movq $3, %rsi\nmovq $int_fmt, %rdi\ncall printf\n".to_string());
}

/// The globals section declares the input buffer, the int format, string
/// constants and global slots.
#[test]
fn x64_globals_section() {
    let mut ctx = X64Context::new();
    let q = Quad::Globals(vec![
        drewno_mars::three_ac::GlobalDecl::Var("x".to_string()),
        drewno_mars::three_ac::GlobalDecl::Str("str_0".to_string(), "hi".to_string()),
        drewno_mars::three_ac::GlobalDecl::Fn("main".to_string()),
    ]);
    let output = q.compile_x64(&mut ctx);
    let expected = ".globl main\n.bss\n.align 32\n.size FGETS_BUFFER, 1024\n\
                    FGETS_BUFFER: .zero 1024\n.data\nint_fmt: .string \"%d\\n\"\n\
                    glb_x: .zero 8\nstr_0: .string \"hi\"\n.text\n";
    assert_eq!(output, expected.to_string());
}
