//! Lowering to three-address code: each declaration becomes a stream of
//! quadruples, driven by a context of monotonically increasing counters.

use crate::ast::{
    call_model, expr_model, formals_model, id_model, location_model,
    spec_location_text, stmt_model, vardecl_model, CallExpression, Declaration, Expression,
    Formal, Id, Location, Statement, Type, VariableDeclaration,
};
use crate::model;
use crate::render::{dec_nat, usize_string};
use crate::type_analysis::{spec_expr_kind, spec_kind_is_primitive, Kind};
use vstd::prelude::*;
use vstd::string::StringExecFns;

verus! {

/// A TAC operand: a literal, a named stack slot, or a named global.
#[derive(Debug, PartialEq)]
pub enum Argument {
    Literal(u64),
    Local(String),
    Global(String),
}

/// One entry of the globals section.
#[derive(Debug, PartialEq)]
pub enum GlobalDecl {
    Var(String),
    Str(String, String),
    Fn(String),
}

/// One three-address quadruple.
#[derive(Debug, PartialEq)]
pub enum Quad {
    Add(Argument, Argument, Argument),
    And(Argument, Argument, Argument),
    Assignment(Argument, Argument),
    Call(String),
    Divide(Argument, Argument, Argument),
    Enter(String),
    Exit,
    Equals(Argument, Argument, Argument),
    GetArg(usize, Argument),
    GetRet(Argument),
    Globals(Vec<GlobalDecl>),
    Goto(String),
    Greater(Argument, Argument, Argument),
    GreaterEq(Argument, Argument, Argument),
    Ifz(Argument, String),
    Label(String),
    Leave(String, String),
    Less(Argument, Argument, Argument),
    LessEq(Argument, Argument, Argument),
    Locals(String, Vec<Formal>, Vec<Id>, (usize, usize)),
    Multiply(Argument, Argument, Argument),
    Not(Argument, Argument),
    NotEq(Argument, Argument, Argument),
    Or(Argument, Argument, Argument),
    Read(Argument),
    SetArg(usize, Argument),
    SetRet(Argument),
    Subtract(Argument, Argument, Argument),
    WriteInt(Argument),
    WriteStr(Argument),
}

/// The model of an operand.
pub open spec fn argument_model(a: Argument) -> model::Argument {
    match a {
        Argument::Literal(v) => model::Argument::Literal(v),
        Argument::Local(s) => model::Argument::Local(s@),
        Argument::Global(s) => model::Argument::Global(s@),
    }
}

/// The model of a globals entry.
pub open spec fn global_model(g: GlobalDecl) -> model::GlobalDecl {
    match g {
        GlobalDecl::Var(s) => model::GlobalDecl::Var(s@),
        GlobalDecl::Str(l, v) => model::GlobalDecl::Str(l@, v@),
        GlobalDecl::Fn(s) => model::GlobalDecl::Fn(s@),
    }
}

/// The model of a globals list.
pub open spec fn globals_model(s: Seq<GlobalDecl>) -> Seq<model::GlobalDecl> {
    Seq::new(s.len(), |i: int| global_model(s[i]))
}

/// The model of a quadruple.
pub open spec fn quad_model(q: Quad) -> model::Quad {
    match q {
        Quad::Add(w, x, y) => model::Quad::Add(
            argument_model(w),
            argument_model(x),
            argument_model(y),
        ),
        Quad::And(w, x, y) => model::Quad::And(
            argument_model(w),
            argument_model(x),
            argument_model(y),
        ),
        Quad::Assignment(w, x) => model::Quad::Assignment(argument_model(w), argument_model(x)),
        Quad::Call(s) => model::Quad::Call(s@),
        Quad::Divide(w, x, y) => model::Quad::Divide(
            argument_model(w),
            argument_model(x),
            argument_model(y),
        ),
        Quad::Enter(s) => model::Quad::Enter(s@),
        Quad::Exit => model::Quad::Exit,
        Quad::Equals(w, x, y) => model::Quad::Equals(
            argument_model(w),
            argument_model(x),
            argument_model(y),
        ),
        Quad::GetArg(n, x) => model::Quad::GetArg(n as int, argument_model(x)),
        Quad::GetRet(x) => model::Quad::GetRet(argument_model(x)),
        Quad::Globals(gs) => model::Quad::Globals(globals_model(gs@)),
        Quad::Goto(s) => model::Quad::Goto(s@),
        Quad::Greater(w, x, y) => model::Quad::Greater(
            argument_model(w),
            argument_model(x),
            argument_model(y),
        ),
        Quad::GreaterEq(w, x, y) => model::Quad::GreaterEq(
            argument_model(w),
            argument_model(x),
            argument_model(y),
        ),
        Quad::Ifz(x, s) => model::Quad::Ifz(argument_model(x), s@),
        Quad::Label(s) => model::Quad::Label(s@),
        Quad::Leave(l, n) => model::Quad::Leave(l@, n@),
        Quad::Less(w, x, y) => model::Quad::Less(
            argument_model(w),
            argument_model(x),
            argument_model(y),
        ),
        Quad::LessEq(w, x, y) => model::Quad::LessEq(
            argument_model(w),
            argument_model(x),
            argument_model(y),
        ),
        Quad::Locals(name, formals, locals, temps) => model::Quad::Locals(
            name@,
            formals_model(formals@),
            ids_model(locals@),
            (temps.0 as int, temps.1 as int),
        ),
        Quad::Multiply(w, x, y) => model::Quad::Multiply(
            argument_model(w),
            argument_model(x),
            argument_model(y),
        ),
        Quad::Not(w, x) => model::Quad::Not(argument_model(w), argument_model(x)),
        Quad::NotEq(w, x, y) => model::Quad::NotEq(
            argument_model(w),
            argument_model(x),
            argument_model(y),
        ),
        Quad::Or(w, x, y) => model::Quad::Or(
            argument_model(w),
            argument_model(x),
            argument_model(y),
        ),
        Quad::Read(x) => model::Quad::Read(argument_model(x)),
        Quad::SetArg(n, x) => model::Quad::SetArg(n as int, argument_model(x)),
        Quad::SetRet(x) => model::Quad::SetRet(argument_model(x)),
        Quad::Subtract(w, x, y) => model::Quad::Subtract(
            argument_model(w),
            argument_model(x),
            argument_model(y),
        ),
        Quad::WriteInt(x) => model::Quad::WriteInt(argument_model(x)),
        Quad::WriteStr(x) => model::Quad::WriteStr(argument_model(x)),
    }
}

/// The model of an identifier list.
pub open spec fn ids_model(s: Seq<Id>) -> Seq<model::Id> {
    Seq::new(s.len(), |i: int| id_model(s[i]))
}

/// The model of a quadruple list.
pub open spec fn quads_model(s: Seq<Quad>) -> Seq<model::Quad> {
    Seq::new(s.len(), |i: int| quad_model(s[i]))
}

/// The lowering context: counters for temporaries, labels and string
/// labels, the current function's exit label, and the collected globals.
#[derive(Debug)]
pub struct LoweringContext {
    pub tmp: usize,
    pub lbl: usize,
    pub str_count: usize,
    pub fn_exit: String,
    pub globals: Vec<GlobalDecl>,
}

/// The model of the lowering context.
pub open spec fn ctx_model(c: LoweringContext) -> model::LoweringContext {
    model::LoweringContext {
        tmp: c.tmp as int,
        lbl: c.lbl as int,
        str_count: c.str_count as int,
        fn_exit: c.fn_exit@,
        globals: globals_model(c.globals@),
    }
}

/// The name of the `n`-th temporary.
pub open spec fn tmp_name(n: int) -> Seq<char> {
    "tmp_"@ + dec_nat(n as nat)
}

/// The name of the `n`-th label.
pub open spec fn lbl_name(n: int) -> Seq<char> {
    "lbl_"@ + dec_nat(n as nat)
}

/// The name of the `n`-th string label.
pub open spec fn str_name(n: int) -> Seq<char> {
    "str_"@ + dec_nat(n as nat)
}

/// Whether a context's counters fit the machine's word size.
pub open spec fn ctx_fits(c: model::LoweringContext) -> bool {
    &&& 0 <= c.tmp <= usize::MAX
    &&& 0 <= c.lbl <= usize::MAX
    &&& 0 <= c.str_count <= usize::MAX
}

/// What one TAC operand a location denotes: a stack slot when name analysis
/// marked the chain local, a global slot otherwise.
pub open spec fn spec_location_arg(l: model::Location) -> model::Argument {
    if l.is_local == Option::Some(true) {
        model::Argument::Local(spec_location_text(l))
    } else {
        model::Argument::Global(spec_location_text(l))
    }
}

/// Whether a `give` of an expression writes a string rather than a number.
pub open spec fn spec_gives_string(e: model::Expression) -> bool {
    match spec_expr_kind(e) {
        Result::Ok(k) => spec_kind_is_primitive(k, crate::ast::Primitive::Str),
        Result::Err(_) => false,
    }
}

/// Lowering an expression: the quads that compute it, the operand naming its
/// value, and the context afterwards.
pub open spec fn spec_lower_expr(e: model::Expression, c: model::LoweringContext) -> (
    Seq<model::Quad>,
    model::Argument,
    model::LoweringContext,
)
    decreases e,
{
    match e {
        model::Expression::False(_) => (Seq::empty(), model::Argument::Literal(0), c),
        model::Expression::True(_) => (Seq::empty(), model::Argument::Literal(1), c),
        model::Expression::Magic(_) => (Seq::empty(), model::Argument::Literal(1), c),
        model::Expression::IntegerLiteral(v, _) => (
            Seq::empty(),
            model::Argument::Literal(v),
            c,
        ),
        model::Expression::StringLiteral(s, _) => {
            let label = str_name(c.str_count);
            let c2 = model::LoweringContext {
                str_count: c.str_count + 1,
                globals: c.globals.push(model::GlobalDecl::Str(label, s)),
                ..c
            };
            (Seq::empty(), model::Argument::Global(label), c2)
        },
        model::Expression::Location(l) => (Seq::empty(), spec_location_arg(l), c),
        model::Expression::CallExpression(call) => {
            let (qs, c2) = spec_lower_call(call, c);
            (qs, model::Argument::Local(tmp_name(c2.tmp - 1)), c2)
        },
        model::Expression::Add(a, b)
        | model::Expression::And(a, b)
        | model::Expression::Divide(a, b)
        | model::Expression::Equals(a, b)
        | model::Expression::Greater(a, b)
        | model::Expression::GreaterEq(a, b)
        | model::Expression::Less(a, b)
        | model::Expression::LessEq(a, b)
        | model::Expression::Multiply(a, b)
        | model::Expression::NotEquals(a, b)
        | model::Expression::Or(a, b)
        | model::Expression::Subtract(a, b) => {
            let (qa, ra, c1) = spec_lower_expr(*a, c);
            let (qb, rb, c2) = spec_lower_expr(*b, c1);
            spec_binary_result(e, qa, ra, qb, rb, c2)
        },
        model::Expression::Negative(a) => {
            let (qa, ra, c1) = spec_lower_expr(*a, c);
            let t = tmp_name(c1.tmp);
            let c2 = model::LoweringContext { tmp: c1.tmp + 1, ..c1 };
            (
                qa.push(
                    model::Quad::Subtract(
                        model::Argument::Local(t),
                        model::Argument::Literal(0),
                        ra,
                    ),
                ),
                model::Argument::Local(t),
                c2,
            )
        },
        model::Expression::Not(a) => {
            let (qa, ra, c1) = spec_lower_expr(*a, c);
            let t = tmp_name(c1.tmp);
            let c2 = model::LoweringContext { tmp: c1.tmp + 1, ..c1 };
            (
                qa.push(model::Quad::Not(model::Argument::Local(t), ra)),
                model::Argument::Local(t),
                c2,
            )
        },
    }
}

/// The operand code of both sides of a binary operator, followed by the
/// operator quad writing a fresh temporary.
pub open spec fn spec_binary_result(
    e: model::Expression,
    qa: Seq<model::Quad>,
    ra: model::Argument,
    qb: Seq<model::Quad>,
    rb: model::Argument,
    c2: model::LoweringContext,
) -> (Seq<model::Quad>, model::Argument, model::LoweringContext) {
    let t = tmp_name(c2.tmp);
    let c3 = model::LoweringContext { tmp: c2.tmp + 1, ..c2 };
    let dest = model::Argument::Local(t);
    let op = spec_binary_quad(e, dest, ra, rb);
    (qa + qb + seq![op], dest, c3)
}

/// The operator quad for a binary expression.
pub open spec fn spec_binary_quad(
    e: model::Expression,
    dest: model::Argument,
    ra: model::Argument,
    rb: model::Argument,
) -> model::Quad {
    match e {
        model::Expression::Add(_, _) => model::Quad::Add(dest, ra, rb),
        model::Expression::And(_, _) => model::Quad::And(dest, ra, rb),
        model::Expression::Divide(_, _) => model::Quad::Divide(dest, ra, rb),
        model::Expression::Equals(_, _) => model::Quad::Equals(dest, ra, rb),
        model::Expression::Greater(_, _) => model::Quad::Greater(dest, ra, rb),
        model::Expression::GreaterEq(_, _) => model::Quad::GreaterEq(dest, ra, rb),
        model::Expression::Less(_, _) => model::Quad::Less(dest, ra, rb),
        model::Expression::LessEq(_, _) => model::Quad::LessEq(dest, ra, rb),
        model::Expression::Multiply(_, _) => model::Quad::Multiply(dest, ra, rb),
        model::Expression::NotEquals(_, _) => model::Quad::NotEq(dest, ra, rb),
        model::Expression::Or(_, _) => model::Quad::Or(dest, ra, rb),
        _ => model::Quad::Subtract(dest, ra, rb),
    }
}

/// Lowering a call: each actual is lowered and passed with `SetArg` in
/// parameter order, then the call itself, then `GetRet` into a fresh
/// temporary.
pub open spec fn spec_lower_call(call: model::CallExpression, c: model::LoweringContext) -> (
    Seq<model::Quad>,
    model::LoweringContext,
)
    decreases call,
{
    let (qs, c1) = spec_lower_actuals(call.actuals, 0, c);
    let t = tmp_name(c1.tmp);
    let c2 = model::LoweringContext { tmp: c1.tmp + 1, ..c1 };
    (
        qs + seq![
            model::Quad::Call(spec_location_text(call.location)),
            model::Quad::GetRet(model::Argument::Local(t)),
        ],
        c2,
    )
}

/// Lowering the actuals of a call from position `i` on: each actual's code,
/// then a one-based `SetArg` for it.
pub open spec fn spec_lower_actuals(
    actuals: Seq<model::Expression>,
    i: int,
    c: model::LoweringContext,
) -> (Seq<model::Quad>, model::LoweringContext)
    decreases actuals, actuals.len() - i,
{
    if i < 0 || i >= actuals.len() {
        (Seq::empty(), c)
    } else {
        let (qa, ra, c1) = spec_lower_expr(actuals[i], c);
        let (rest, c2) = spec_lower_actuals(actuals, i + 1, c1);
        (qa.push(model::Quad::SetArg(i + 1, ra)) + rest, c2)
    }
}

/// Lowering one statement.
pub open spec fn spec_lower_stmt(s: model::Statement, c: model::LoweringContext) -> (
    Seq<model::Quad>,
    model::LoweringContext,
)
    decreases s,
{
    match s {
        model::Statement::Assignment(loc, e) => {
            let (q, r, c1) = spec_lower_expr(e, c);
            (q.push(model::Quad::Assignment(spec_location_arg(loc), r)), c1)
        },
        model::Statement::CallExpression(call) => spec_lower_call(call, c),
        model::Statement::Decrement(loc) => {
            let arg = spec_location_arg(loc);
            (seq![model::Quad::Subtract(arg, arg, model::Argument::Literal(1))], c)
        },
        model::Statement::Increment(loc) => {
            let arg = spec_location_arg(loc);
            (seq![model::Quad::Add(arg, arg, model::Argument::Literal(1))], c)
        },
        model::Statement::Exit => (seq![model::Quad::Exit], c),
        model::Statement::Give(e) => {
            let (q, r, c1) = spec_lower_expr(e, c);
            if spec_gives_string(e) {
                (q.push(model::Quad::WriteStr(r)), c1)
            } else {
                (q.push(model::Quad::WriteInt(r)), c1)
            }
        },
        model::Statement::Take(loc) => (seq![model::Quad::Read(spec_location_arg(loc))], c),
        model::Statement::Return(x, _) => {
            match x {
                Option::None => (seq![model::Quad::Goto(c.fn_exit)], c),
                Option::Some(e) => {
                    let (q, r, c1) = spec_lower_expr(e, c);
                    (
                        q.push(model::Quad::SetRet(r)).push(model::Quad::Goto(c1.fn_exit)),
                        c1,
                    )
                },
            }
        },
        model::Statement::If(cond, b1, b2) => {
            let else_label = lbl_name(c.lbl);
            let after_label = lbl_name(c.lbl + 1);
            let c0 = model::LoweringContext { lbl: c.lbl + 2, ..c };
            let (qc, r, c1) = spec_lower_expr(cond, c0);
            let (q1, c2) = spec_lower_stmts(b1.statements, 0, c1);
            let (q2, c3) = spec_lower_stmts(b2.statements, 0, c2);
            (
                qc.push(model::Quad::Ifz(r, else_label)) + q1 + seq![
                    model::Quad::Goto(after_label),
                    model::Quad::Label(else_label),
                ] + q2 + seq![model::Quad::Label(after_label)],
                c3,
            )
        },
        model::Statement::While(cond, b) => {
            let cond_label = lbl_name(c.lbl);
            let after_label = lbl_name(c.lbl + 1);
            let c0 = model::LoweringContext { lbl: c.lbl + 2, ..c };
            let (qc, r, c1) = spec_lower_expr(cond, c0);
            let (qb, c2) = spec_lower_stmts(b.statements, 0, c1);
            (
                seq![model::Quad::Label(cond_label)] + qc + seq![
                    model::Quad::Ifz(r, after_label),
                ] + qb + seq![
                    model::Quad::Goto(cond_label),
                    model::Quad::Label(after_label),
                ],
                c2,
            )
        },
        model::Statement::VariableDeclaration(d) => {
            match d {
                model::Declaration::Variable(v) => match v.assignment {
                    Option::None => (Seq::empty(), c),
                    Option::Some(e) => {
                        let (q, r, c1) = spec_lower_expr(e, c);
                        (
                            q.push(
                                model::Quad::Assignment(
                                    model::Argument::Local(v.name.name),
                                    r,
                                ),
                            ),
                            c1,
                        )
                    },
                },
                _ => (Seq::empty(), c),
            }
        },
    }
}

/// Lowering a statement list from position `i` on, left to right.
pub open spec fn spec_lower_stmts(
    ss: Seq<model::Statement>,
    i: int,
    c: model::LoweringContext,
) -> (Seq<model::Quad>, model::LoweringContext)
    decreases ss, ss.len() - i,
{
    if i < 0 || i >= ss.len() {
        (Seq::empty(), c)
    } else {
        let (q, c1) = spec_lower_stmt(ss[i], c);
        let (rest, c2) = spec_lower_stmts(ss, i + 1, c1);
        (q + rest, c2)
    }
}

/// The names of the variables a function body declares at its top level.
pub open spec fn spec_locals_of(ss: Seq<model::Statement>) -> Seq<model::Id>
    decreases ss,
{
    if ss.len() == 0 {
        Seq::empty()
    } else {
        spec_locals_of(ss.drop_last()) + (match ss.last() {
            model::Statement::VariableDeclaration(model::Declaration::Variable(v)) => seq![
                v.name,
            ],
            _ => Seq::empty(),
        })
    }
}

/// Lowering a function: its frame header, prologue, per-formal `GetArg`s,
/// body, and epilogue at a fresh exit label.
pub open spec fn spec_lower_function(f: model::Function, c: model::LoweringContext) -> (
    Seq<model::Quad>,
    model::LoweringContext,
)
    decreases f,
{
    let fn_label = model::GlobalDecl::Fn(f.id.name);
    let exit_label = lbl_name(c.lbl);
    let c1 = model::LoweringContext {
        lbl: c.lbl + 1,
        fn_exit: exit_label,
        globals: c.globals.push(fn_label),
        ..c
    };
    let start_tmps = c1.tmp;
    let (body, c2) = spec_lower_stmts(f.body, 0, c1);
    let end_tmps = c2.tmp;
    let header = seq![
        model::Quad::Locals(
            f.id.name,
            f.fn_input,
            spec_locals_of(f.body),
            (start_tmps, end_tmps),
        ),
        model::Quad::Enter(f.id.name),
    ];
    (header + spec_getargs(f.fn_input, 0) + body + seq![
        model::Quad::Leave(exit_label, f.id.name),
    ], c2)
}

/// The `GetArg` quads that spill a function's formals, one-based, from
/// position `i` on.
pub open spec fn spec_getargs(formals: Seq<model::Formal>, i: int) -> Seq<model::Quad>
    decreases formals.len() - i,
{
    if i < 0 || i >= formals.len() {
        Seq::empty()
    } else {
        seq![
            model::Quad::GetArg(i + 1, model::Argument::Local(formals[i].id.name)),
        ] + spec_getargs(formals, i + 1)
    }
}

/// Lowering a global variable declaration: its slot is recorded and its
/// initializer, if any, is evaluated into it.
pub open spec fn spec_lower_global_var(v: model::VariableDeclaration, c: model::LoweringContext) -> (
    Seq<model::Quad>,
    model::LoweringContext,
)
    decreases v,
{
    let c1 = model::LoweringContext {
        globals: c.globals.push(model::GlobalDecl::Var(v.name.name)),
        ..c
    };
    match v.assignment {
        Option::None => (Seq::empty(), c1),
        Option::Some(e) => {
            let (q, r, c2) = spec_lower_expr(e, c1);
            (
                q.push(model::Quad::Assignment(model::Argument::Global(v.name.name), r)),
                c2,
            )
        },
    }
}

/// The fresh context lowering starts from.
pub open spec fn spec_fresh_ctx() -> model::LoweringContext {
    model::LoweringContext {
        tmp: 0,
        lbl: 0,
        str_count: 0,
        fn_exit: Seq::empty(),
        globals: Seq::empty(),
    }
}

/// Lowering the global variable declarations of a program, from position
/// `i` on.
pub open spec fn spec_lower_globals(
    ds: Seq<model::Declaration>,
    i: int,
    c: model::LoweringContext,
) -> (Seq<model::Quad>, model::LoweringContext)
    decreases ds.len() - i,
{
    if i < 0 || i >= ds.len() {
        (Seq::empty(), c)
    } else {
        match ds[i] {
            model::Declaration::Variable(v) => {
                let (q, c1) = spec_lower_global_var(v, c);
                let (rest, c2) = spec_lower_globals(ds, i + 1, c1);
                (q + rest, c2)
            },
            _ => spec_lower_globals(ds, i + 1, c),
        }
    }
}

/// Lowering the function declarations of a program, from position `i` on.
pub open spec fn spec_lower_functions(
    ds: Seq<model::Declaration>,
    i: int,
    c: model::LoweringContext,
) -> (Seq<model::Quad>, model::LoweringContext)
    decreases ds.len() - i,
{
    if i < 0 || i >= ds.len() {
        (Seq::empty(), c)
    } else {
        match ds[i] {
            model::Declaration::Function(f) => {
                let (q, c1) = spec_lower_function(f, c);
                let (rest, c2) = spec_lower_functions(ds, i + 1, c1);
                (q + rest, c2)
            },
            _ => spec_lower_functions(ds, i + 1, c),
        }
    }
}

/// What `generate` emits for a program: the globals header, the code of the
/// global variables, then of the functions, then the `main` trampoline.
pub open spec fn spec_generate(ds: Seq<model::Declaration>) -> (
    Seq<model::Quad>,
    model::LoweringContext,
) {
    let (qv, c1) = spec_lower_globals(ds, 0, spec_fresh_ctx());
    let (qf, c2) = spec_lower_functions(ds, 0, c1);
    (
        seq![model::Quad::Globals(c2.globals)] + qv + qf + seq![
            model::Quad::Label("main"@),
            model::Quad::Goto("fn_main"@),
        ],
        c2,
    )
}

/// Lowering never decreases the counters: expressions.
pub proof fn lemma_lower_expr_mono(e: model::Expression, c: model::LoweringContext)
    ensures
        spec_lower_expr(e, c).2.tmp >= c.tmp,
        spec_lower_expr(e, c).2.lbl >= c.lbl,
        spec_lower_expr(e, c).2.str_count >= c.str_count,
    decreases e,
{
    match e {
        model::Expression::Add(a, b)
        | model::Expression::And(a, b)
        | model::Expression::Divide(a, b)
        | model::Expression::Equals(a, b)
        | model::Expression::Greater(a, b)
        | model::Expression::GreaterEq(a, b)
        | model::Expression::Less(a, b)
        | model::Expression::LessEq(a, b)
        | model::Expression::Multiply(a, b)
        | model::Expression::NotEquals(a, b)
        | model::Expression::Or(a, b)
        | model::Expression::Subtract(a, b) => {
            lemma_lower_expr_mono(*a, c);
            lemma_lower_expr_mono(*b, spec_lower_expr(*a, c).2);
        },
        model::Expression::Negative(a) | model::Expression::Not(a) => {
            lemma_lower_expr_mono(*a, c);
        },
        model::Expression::CallExpression(call) => {
            lemma_lower_call_mono(call, c);
        },
        _ => {},
    }
}

/// Lowering never decreases the counters: calls.
pub proof fn lemma_lower_call_mono(call: model::CallExpression, c: model::LoweringContext)
    ensures
        spec_lower_call(call, c).1.tmp >= c.tmp,
        spec_lower_call(call, c).1.lbl >= c.lbl,
        spec_lower_call(call, c).1.str_count >= c.str_count,
    decreases call,
{
    lemma_lower_actuals_mono(call.actuals, 0, c);
}

/// Lowering never decreases the counters: actual lists.
pub proof fn lemma_lower_actuals_mono(
    actuals: Seq<model::Expression>,
    i: int,
    c: model::LoweringContext,
)
    ensures
        spec_lower_actuals(actuals, i, c).1.tmp >= c.tmp,
        spec_lower_actuals(actuals, i, c).1.lbl >= c.lbl,
        spec_lower_actuals(actuals, i, c).1.str_count >= c.str_count,
    decreases actuals, actuals.len() - i,
{
    if !(i < 0 || i >= actuals.len()) {
        lemma_lower_expr_mono(actuals[i], c);
        lemma_lower_actuals_mono(actuals, i + 1, spec_lower_expr(actuals[i], c).2);
    }
}

/// Lowering never decreases the counters: statements.
pub proof fn lemma_lower_stmt_mono(s: model::Statement, c: model::LoweringContext)
    ensures
        spec_lower_stmt(s, c).1.tmp >= c.tmp,
        spec_lower_stmt(s, c).1.lbl >= c.lbl,
        spec_lower_stmt(s, c).1.str_count >= c.str_count,
    decreases s,
{
    match s {
        model::Statement::Assignment(_, e) => {
            lemma_lower_expr_mono(e, c);
        },
        model::Statement::CallExpression(call) => {
            lemma_lower_call_mono(call, c);
        },
        model::Statement::Give(e) => {
            lemma_lower_expr_mono(e, c);
        },
        model::Statement::Return(x, _) => {
            match x {
                Option::Some(e) => {
                    lemma_lower_expr_mono(e, c);
                },
                Option::None => {},
            }
        },
        model::Statement::If(cond, b1, b2) => {
            let c0 = model::LoweringContext { lbl: c.lbl + 2, ..c };
            lemma_lower_expr_mono(cond, c0);
            let c1 = spec_lower_expr(cond, c0).2;
            lemma_lower_stmts_mono(b1.statements, 0, c1);
            let c2 = spec_lower_stmts(b1.statements, 0, c1).1;
            lemma_lower_stmts_mono(b2.statements, 0, c2);
        },
        model::Statement::While(cond, b) => {
            let c0 = model::LoweringContext { lbl: c.lbl + 2, ..c };
            lemma_lower_expr_mono(cond, c0);
            let c1 = spec_lower_expr(cond, c0).2;
            lemma_lower_stmts_mono(b.statements, 0, c1);
        },
        model::Statement::VariableDeclaration(d) => {
            match d {
                model::Declaration::Variable(v) => {
                    match v.assignment {
                        Option::Some(e) => {
                            lemma_lower_expr_mono(e, c);
                        },
                        Option::None => {},
                    }
                },
                _ => {},
            }
        },
        _ => {},
    }
}

/// Lowering never decreases the counters: statement lists.
pub proof fn lemma_lower_stmts_mono(ss: Seq<model::Statement>, i: int, c: model::LoweringContext)
    ensures
        spec_lower_stmts(ss, i, c).1.tmp >= c.tmp,
        spec_lower_stmts(ss, i, c).1.lbl >= c.lbl,
        spec_lower_stmts(ss, i, c).1.str_count >= c.str_count,
    decreases ss, ss.len() - i,
{
    if !(i < 0 || i >= ss.len()) {
        lemma_lower_stmt_mono(ss[i], c);
        lemma_lower_stmts_mono(ss, i + 1, spec_lower_stmt(ss[i], c).1);
    }
}

/// Lowering never decreases the counters: functions.
pub proof fn lemma_lower_function_mono(f: model::Function, c: model::LoweringContext)
    ensures
        spec_lower_function(f, c).1.tmp >= c.tmp,
        spec_lower_function(f, c).1.lbl >= c.lbl,
        spec_lower_function(f, c).1.str_count >= c.str_count,
    decreases f,
{
    let exit_label = lbl_name(c.lbl);
    let c1 = model::LoweringContext {
        lbl: c.lbl + 1,
        fn_exit: exit_label,
        globals: c.globals.push(model::GlobalDecl::Fn(f.id.name)),
        ..c
    };
    lemma_lower_stmts_mono(f.body, 0, c1);
}

impl Clone for Argument {
    /// Cloning keeps the model.
    fn clone(&self) -> (r: Self)
        ensures
            argument_model(r) == argument_model(*self),
    {
        match self {
            Argument::Literal(v) => Argument::Literal(*v),
            Argument::Local(s) => Argument::Local(s.clone()),
            Argument::Global(s) => Argument::Global(s.clone()),
        }
    }
}

impl LoweringContext {
    /// A fresh context with all counters at zero.
    pub fn new() -> (r: Self)
        ensures
            ctx_model(r) == spec_fresh_ctx(),
    {
        let r = LoweringContext {
            tmp: 0,
            lbl: 0,
            str_count: 0,
            fn_exit: String::new(),
            globals: Vec::new(),
        };
        proof {
            assert(ctx_model(r).globals =~= spec_fresh_ctx().globals);
        }
        r
    }

    /// Allocates a new `tmp_#` name.
    pub fn get_tmp(&mut self) -> (r: String)
        requires
            old(self).tmp < usize::MAX,
        ensures
            r@ == tmp_name(ctx_model(*old(self)).tmp),
            ctx_model(*final(self)) == (model::LoweringContext {
                tmp: ctx_model(*old(self)).tmp + 1,
                ..ctx_model(*old(self))
            }),
    {
        let mut s = String::new();
        s.append("tmp_");
        s.append(usize_string(self.tmp).as_str());
        self.tmp = self.tmp + 1;
        proof {
            assert(ctx_model(*self).globals =~= ctx_model(*old(self)).globals);
        }
        s
    }

    /// The name of the most recently allocated temporary.
    pub fn get_last_tmp(&self) -> (r: String)
        requires
            self.tmp > 0,
        ensures
            r@ == tmp_name(ctx_model(*self).tmp - 1),
    {
        let mut s = String::new();
        s.append("tmp_");
        s.append(usize_string(self.tmp - 1).as_str());
        s
    }

    /// Allocates a new `lbl_#` name.
    pub fn get_lbl(&mut self) -> (r: String)
        requires
            old(self).lbl < usize::MAX,
        ensures
            r@ == lbl_name(ctx_model(*old(self)).lbl),
            ctx_model(*final(self)) == (model::LoweringContext {
                lbl: ctx_model(*old(self)).lbl + 1,
                ..ctx_model(*old(self))
            }),
    {
        let mut s = String::new();
        s.append("lbl_");
        s.append(usize_string(self.lbl).as_str());
        self.lbl = self.lbl + 1;
        proof {
            assert(ctx_model(*self).globals =~= ctx_model(*old(self)).globals);
        }
        s
    }

    /// Allocates a new `str_#` name.
    pub fn get_str(&mut self) -> (r: String)
        requires
            old(self).str_count < usize::MAX,
        ensures
            r@ == str_name(ctx_model(*old(self)).str_count),
            ctx_model(*final(self)) == (model::LoweringContext {
                str_count: ctx_model(*old(self)).str_count + 1,
                ..ctx_model(*old(self))
            }),
    {
        let mut s = String::new();
        s.append("str_");
        s.append(usize_string(self.str_count).as_str());
        self.str_count = self.str_count + 1;
        proof {
            assert(ctx_model(*self).globals =~= ctx_model(*old(self)).globals);
        }
        s
    }

    /// The current function's exit label.
    pub fn get_fn_exit_lbl(&self) -> (r: String)
        ensures
            r@ == ctx_model(*self).fn_exit,
    {
        self.fn_exit.clone()
    }

    /// Allocates a fresh label and makes it the current function's exit
    /// label.
    pub fn get_new_fn_exit_lbl(&mut self) -> (r: String)
        requires
            old(self).lbl < usize::MAX,
        ensures
            r@ == lbl_name(ctx_model(*old(self)).lbl),
            ctx_model(*final(self)) == (model::LoweringContext {
                lbl: ctx_model(*old(self)).lbl + 1,
                fn_exit: lbl_name(ctx_model(*old(self)).lbl),
                ..ctx_model(*old(self))
            }),
    {
        let lbl = self.get_lbl();
        self.fn_exit = lbl.clone();
        proof {
            assert(ctx_model(*self).globals =~= ctx_model(*old(self)).globals);
        }
        lbl
    }

    /// Records an entry for the globals section.
    pub fn add_global(&mut self, g: GlobalDecl)
        ensures
            ctx_model(*final(self)) == (model::LoweringContext {
                globals: ctx_model(*old(self)).globals.push(global_model(g)),
                ..ctx_model(*old(self))
            }),
    {
        let ghost gm = global_model(g);
        self.globals.push(g);
        proof {
            assert(ctx_model(*self).globals =~= ctx_model(*old(self)).globals.push(gm));
        }
    }

    /// The current temp counter value.
    pub fn get_tmp_counter(&self) -> (r: usize)
        ensures
            r == ctx_model(*self).tmp,
    {
        self.tmp
    }
}

impl Expression {
    /// Lowers this expression: the quads that compute it, and the operand
    /// naming its value.
    pub fn get_ir_code(&self, ctx: &mut LoweringContext) -> (r: (Vec<Quad>, Argument))
        requires
            ctx_fits(spec_lower_expr(expr_model(*self), ctx_model(*old(ctx))).2),
        ensures
            (quads_model(r.0@), argument_model(r.1), ctx_model(*final(ctx)))
                == spec_lower_expr(expr_model(*self), ctx_model(*old(ctx))),
        decreases *self,
    {
        match self {
            Expression::False(_) => {
                let r = (Vec::new(), Argument::Literal(0));
                proof {
                    assert(quads_model(r.0@) =~= Seq::<model::Quad>::empty());
                }
                r
            },
            Expression::True(_) => {
                let r = (Vec::new(), Argument::Literal(1));
                proof {
                    assert(quads_model(r.0@) =~= Seq::<model::Quad>::empty());
                }
                r
            },
            Expression::Magic(_) => {
                let r = (Vec::new(), Argument::Literal(1));
                proof {
                    assert(quads_model(r.0@) =~= Seq::<model::Quad>::empty());
                }
                r
            },
            Expression::IntegerLiteral(v, _) => {
                let r = (Vec::new(), Argument::Literal(*v));
                proof {
                    assert(quads_model(r.0@) =~= Seq::<model::Quad>::empty());
                }
                r
            },
            Expression::StringLiteral(s, _) => {
                let label = ctx.get_str();
                ctx.add_global(GlobalDecl::Str(label.clone(), s.clone()));
                let r = (Vec::new(), Argument::Global(label));
                proof {
                    assert(quads_model(r.0@) =~= Seq::<model::Quad>::empty());
                }
                r
            },
            Expression::Location(loc) => {
                let text = loc.to_text();
                let is_local = match loc.is_local {
                    Some(true) => true,
                    _ => false,
                };
                let arg = if is_local {
                    Argument::Local(text)
                } else {
                    Argument::Global(text)
                };
                let r = (Vec::new(), arg);
                proof {
                    assert(quads_model(r.0@) =~= Seq::<model::Quad>::empty());
                }
                r
            },
            Expression::CallExpression(call) => {
                let ghost c0 = ctx_model(*ctx);
                proof {
                    let sc = spec_lower_call(call_model(*call), c0);
                    assert(spec_lower_expr(expr_model(*self), c0).2 == sc.1);
                    lemma_lower_actuals_mono(call_model(*call).actuals, 0, c0);
                }
                let quads = call.get_ir_code(ctx);
                proof {
                    assert(ctx_model(*ctx).tmp > 0);
                }
                let t = ctx.get_last_tmp();
                (quads, Argument::Local(t))
            },
            Expression::Add(a, b)
            | Expression::And(a, b)
            | Expression::Divide(a, b)
            | Expression::Equals(a, b)
            | Expression::Greater(a, b)
            | Expression::GreaterEq(a, b)
            | Expression::Less(a, b)
            | Expression::LessEq(a, b)
            | Expression::Multiply(a, b)
            | Expression::NotEquals(a, b)
            | Expression::Or(a, b)
            | Expression::Subtract(a, b) => {
                let ghost c0 = ctx_model(*ctx);
                proof {
                    let s1 = spec_lower_expr(expr_model(**a), c0);
                    let s2 = spec_lower_expr(expr_model(**b), s1.2);
                    assert(spec_lower_expr(expr_model(*self), c0) == spec_binary_result(
                        expr_model(*self),
                        s1.0,
                        s1.1,
                        s2.0,
                        s2.1,
                        s2.2,
                    ));
                    lemma_lower_expr_mono(expr_model(**a), c0);
                    lemma_lower_expr_mono(expr_model(**b), s1.2);
                }
                let (mut qa, ra) = a.get_ir_code(ctx);
                let (mut qb, rb) = b.get_ir_code(ctx);
                let t = ctx.get_tmp();
                let dest = Argument::Local(t);
                let op = binary_quad(self, dest.clone(), ra, rb);
                let ghost qa0 = qa@;
                let ghost qb0 = qb@;
                qa.append(&mut qb);
                let ghost qcat = qa@;
                qa.push(op);
                proof {
                    assert(quads_model(qcat) =~= quads_model(qa0) + quads_model(qb0));
                    assert(quads_model(qa@) =~= quads_model(qcat).push(quad_model(op)));
                }
                (qa, dest)
            },
            Expression::Negative(a) => {
                let ghost c0 = ctx_model(*ctx);
                proof {
                    let s1 = spec_lower_expr(expr_model(**a), c0);
                    assert(spec_lower_expr(expr_model(*self), c0).2 == (model::LoweringContext {
                        tmp: s1.2.tmp + 1,
                        ..s1.2
                    }));
                    lemma_lower_expr_mono(expr_model(**a), c0);
                }
                let (mut qa, ra) = a.get_ir_code(ctx);
                let t = ctx.get_tmp();
                let dest = Argument::Local(t);
                let op = Quad::Subtract(dest.clone(), Argument::Literal(0), ra);
                let ghost qa0 = qa@;
                qa.push(op);
                proof {
                    assert(quads_model(qa@) =~= quads_model(qa0).push(quad_model(op)));
                }
                (qa, dest)
            },
            Expression::Not(a) => {
                let ghost c0 = ctx_model(*ctx);
                proof {
                    let s1 = spec_lower_expr(expr_model(**a), c0);
                    assert(spec_lower_expr(expr_model(*self), c0).2 == (model::LoweringContext {
                        tmp: s1.2.tmp + 1,
                        ..s1.2
                    }));
                    lemma_lower_expr_mono(expr_model(**a), c0);
                }
                let (mut qa, ra) = a.get_ir_code(ctx);
                let t = ctx.get_tmp();
                let dest = Argument::Local(t);
                let op = Quad::Not(dest.clone(), ra);
                let ghost qa0 = qa@;
                qa.push(op);
                proof {
                    assert(quads_model(qa@) =~= quads_model(qa0).push(quad_model(op)));
                }
                (qa, dest)
            },
        }
    }
}

/// The operator quad for a binary expression.
fn binary_quad(e: &Expression, dest: Argument, ra: Argument, rb: Argument) -> (r: Quad)
    requires
        crate::ast::spec_has_subexpression(expr_model(*e)),
        !(expr_model(*e) is CallExpression),
        !(expr_model(*e) is Negative),
        !(expr_model(*e) is Not),
    ensures
        quad_model(r) == spec_binary_quad(
            expr_model(*e),
            argument_model(dest),
            argument_model(ra),
            argument_model(rb),
        ),
{
    match e {
        Expression::Add(_, _) => Quad::Add(dest, ra, rb),
        Expression::And(_, _) => Quad::And(dest, ra, rb),
        Expression::Divide(_, _) => Quad::Divide(dest, ra, rb),
        Expression::Equals(_, _) => Quad::Equals(dest, ra, rb),
        Expression::Greater(_, _) => Quad::Greater(dest, ra, rb),
        Expression::GreaterEq(_, _) => Quad::GreaterEq(dest, ra, rb),
        Expression::Less(_, _) => Quad::Less(dest, ra, rb),
        Expression::LessEq(_, _) => Quad::LessEq(dest, ra, rb),
        Expression::Multiply(_, _) => Quad::Multiply(dest, ra, rb),
        Expression::NotEquals(_, _) => Quad::NotEq(dest, ra, rb),
        Expression::Or(_, _) => Quad::Or(dest, ra, rb),
        _ => Quad::Subtract(dest, ra, rb),
    }
}

impl CallExpression {
    /// Lowers this call: each actual's code and `SetArg`, the call, and a
    /// `GetRet` into a fresh temporary.
    pub fn get_ir_code(&self, ctx: &mut LoweringContext) -> (r: Vec<Quad>)
        requires
            ctx_fits(spec_lower_call(call_model(*self), ctx_model(*old(ctx))).1),
        ensures
            (quads_model(r@), ctx_model(*final(ctx))) == spec_lower_call(
                call_model(*self),
                ctx_model(*old(ctx)),
            ),
        decreases *self,
    {
        let ghost c0 = ctx_model(*ctx);
        let ghost am = call_model(*self).actuals;
        proof {
            assert(call_model(*self).actuals == crate::ast::exprs_model(self.actuals@));
            assert(call_model(*self).location == location_model(self.location));
            crate::ast::lemma_exprs_model_len(self.actuals@);
            lemma_lower_actuals_mono(am, 0, c0);
        }
        let mut quads: Vec<Quad> = Vec::new();
        let mut i: usize = 0;
        while i < self.actuals.len()
            invariant
                0 <= i <= self.actuals@.len(),
                am == crate::ast::exprs_model(self.actuals@),
                am.len() == self.actuals@.len(),
                call_model(*self).actuals == am,
                call_model(*self).location == location_model(self.location),
                ctx_fits(spec_lower_call(call_model(*self), c0).1),
                c0 == ctx_model(*old(ctx)),
                spec_lower_actuals(am, 0, c0) == {
                    let (rest, cf) = spec_lower_actuals(am, i as int, ctx_model(*ctx));
                    (quads_model(quads@) + rest, cf)
                },
            decreases self.actuals@.len() - i,
        {
            proof {
                assert(decreases_to!(*self => self.actuals@[i as int]));
                crate::ast::lemma_exprs_model_index(self.actuals@, i as int);
                let cm = ctx_model(*ctx);
                let st = spec_lower_expr(am[i as int], cm);
                assert(spec_lower_actuals(am, i as int, cm).1 == spec_lower_actuals(
                    am,
                    i as int + 1,
                    st.2,
                ).1);
                lemma_lower_expr_mono(am[i as int], cm);
                lemma_lower_actuals_mono(am, i as int + 1, st.2);
                let af = spec_lower_actuals(am, 0, c0).1;
                assert(spec_lower_call(call_model(*self), c0).1 == (model::LoweringContext {
                    tmp: af.tmp + 1,
                    ..af
                }));
            }
            let (mut qa, ra) = self.actuals[i].get_ir_code(ctx);
            let ghost qa0 = qa@;
            qa.push(Quad::SetArg(i + 1, ra));
            let ghost qstep = qa@;
            let ghost prevq = quads@;
            quads.append(&mut qa);
            proof {
                assert(quads_model(qstep) =~= quads_model(qa0).push(
                    quad_model(Quad::SetArg((i + 1) as usize, ra)),
                ));
                assert(quads_model(quads@) =~= quads_model(prevq) + quads_model(qstep));
            }
            i = i + 1;
        }
        let name = self.location.to_text();
        let t = ctx.get_tmp();
        let ghost callq = model::Quad::Call(name@);
        let ghost prevq = quads@;
        quads.push(Quad::Call(name));
        let ghost prevq2 = quads@;
        quads.push(Quad::GetRet(Argument::Local(t)));
        proof {
            assert(quads_model(prevq2) =~= quads_model(prevq).push(callq));
            assert(quads_model(quads@) =~= quads_model(prevq2).push(
                quads_model(quads@).last(),
            ));
        }
        quads
    }
}

impl Statement {
    /// Lowers this statement to its quad stream.
    #[verifier::rlimit(60)]
    pub fn get_ir_code(&self, ctx: &mut LoweringContext) -> (r: Vec<Quad>)
        requires
            ctx_fits(spec_lower_stmt(stmt_model(*self), ctx_model(*old(ctx))).1),
        ensures
            (quads_model(r@), ctx_model(*final(ctx))) == spec_lower_stmt(
                stmt_model(*self),
                ctx_model(*old(ctx)),
            ),
        decreases *self,
    {
        let ghost c0 = ctx_model(*ctx);
        match self {
            Statement::Assignment(loc, x) => {
                proof {
                    let s1 = spec_lower_expr(expr_model(*x), c0);
                    assert(spec_lower_stmt(stmt_model(*self), c0).1 == s1.2);
                }
                let (mut quads, arg) = x.get_ir_code(ctx);
                let text = loc.to_text();
                let is_local = match loc.is_local {
                    Some(true) => true,
                    _ => false,
                };
                let dest = if is_local {
                    Argument::Local(text)
                } else {
                    Argument::Global(text)
                };
                let op = Quad::Assignment(dest, arg);
                let ghost q0 = quads@;
                quads.push(op);
                proof {
                    assert(quads_model(quads@) =~= quads_model(q0).push(quad_model(op)));
                }
                quads
            },
            Statement::CallExpression(call) => {
                proof {
                    assert(spec_lower_stmt(stmt_model(*self), c0) == spec_lower_call(
                        call_model(*call),
                        c0,
                    ));
                }
                call.get_ir_code(ctx)
            },
            Statement::Decrement(loc) => {
                let text = loc.to_text();
                let is_local = match loc.is_local {
                    Some(true) => true,
                    _ => false,
                };
                let arg = if is_local {
                    Argument::Local(text)
                } else {
                    Argument::Global(text)
                };
                let op = Quad::Subtract(arg.clone(), arg.clone(), Argument::Literal(1));
                let mut quads: Vec<Quad> = Vec::new();
                quads.push(op);
                proof {
                    assert(quads_model(quads@) =~= seq![
                        model::Quad::Subtract(
                            spec_location_arg(location_model(*loc)),
                            spec_location_arg(location_model(*loc)),
                            model::Argument::Literal(1),
                        ),
                    ]);
                }
                quads
            },
            Statement::Increment(loc) => {
                let text = loc.to_text();
                let is_local = match loc.is_local {
                    Some(true) => true,
                    _ => false,
                };
                let arg = if is_local {
                    Argument::Local(text)
                } else {
                    Argument::Global(text)
                };
                let op = Quad::Add(arg.clone(), arg.clone(), Argument::Literal(1));
                let mut quads: Vec<Quad> = Vec::new();
                quads.push(op);
                proof {
                    assert(quads_model(quads@) =~= seq![
                        model::Quad::Add(
                            spec_location_arg(location_model(*loc)),
                            spec_location_arg(location_model(*loc)),
                            model::Argument::Literal(1),
                        ),
                    ]);
                }
                quads
            },
            Statement::Exit => {
                let mut quads: Vec<Quad> = Vec::new();
                quads.push(Quad::Exit);
                proof {
                    assert(quads_model(quads@) =~= seq![model::Quad::Exit]);
                }
                quads
            },
            Statement::Give(x) => {
                proof {
                    let s1 = spec_lower_expr(expr_model(*x), c0);
                    assert(spec_lower_stmt(stmt_model(*self), c0).1 == s1.2);
                }
                let is_string = match x.get_kind() {
                    Ok(Kind::Variable(Type::Primitive(crate::ast::Primitive::Str, _))) => true,
                    Ok(Kind::Variable(Type::PerfectPrimitive(crate::ast::Primitive::Str, _))) =>
                        true,
                    _ => false,
                };
                let (mut quads, arg) = x.get_ir_code(ctx);
                let op = if is_string {
                    Quad::WriteStr(arg)
                } else {
                    Quad::WriteInt(arg)
                };
                let ghost q0 = quads@;
                quads.push(op);
                proof {
                    assert(quads_model(quads@) =~= quads_model(q0).push(quad_model(op)));
                }
                quads
            },
            Statement::Take(loc) => {
                let text = loc.to_text();
                let is_local = match loc.is_local {
                    Some(true) => true,
                    _ => false,
                };
                let arg = if is_local {
                    Argument::Local(text)
                } else {
                    Argument::Global(text)
                };
                let mut quads: Vec<Quad> = Vec::new();
                quads.push(Quad::Read(arg));
                proof {
                    assert(quads_model(quads@) =~= seq![
                        model::Quad::Read(spec_location_arg(location_model(*loc))),
                    ]);
                }
                quads
            },
            Statement::Return(x, _) => {
                match x {
                    None => {
                        let exit_label = ctx.get_fn_exit_lbl();
                        let mut quads: Vec<Quad> = Vec::new();
                        quads.push(Quad::Goto(exit_label));
                        proof {
                            assert(quads_model(quads@) =~= seq![model::Quad::Goto(c0.fn_exit)]);
                        }
                        quads
                    },
                    Some(x) => {
                        proof {
                            let s1 = spec_lower_expr(expr_model(*x), c0);
                            assert(spec_lower_stmt(stmt_model(*self), c0).1 == s1.2);
                        }
                        let (mut quads, arg) = x.get_ir_code(ctx);
                        let exit_label = ctx.get_fn_exit_lbl();
                        let ghost q0 = quads@;
                        let op1 = Quad::SetRet(arg);
                        quads.push(op1);
                        let ghost q1 = quads@;
                        quads.push(Quad::Goto(exit_label));
                        proof {
                            assert(quads_model(q1) =~= quads_model(q0).push(quad_model(op1)));
                            assert(quads_model(quads@) =~= quads_model(q1).push(
                                model::Quad::Goto(ctx_model(*ctx).fn_exit),
                            ));
                        }
                        quads
                    },
                }
            },
            Statement::If(condition, b1, b2) => {
                proof {
                    let cm0 = model::LoweringContext { lbl: c0.lbl + 2, ..c0 };
                    let s1 = spec_lower_expr(expr_model(*condition), cm0);
                    let s2 = spec_lower_stmts(crate::ast::stmts_model(b1.statements@), 0, s1.2);
                    let s3 = spec_lower_stmts(crate::ast::stmts_model(b2.statements@), 0, s2.1);
                    assert(spec_lower_stmt(stmt_model(*self), c0).1 == s3.1);
                    lemma_lower_expr_mono(expr_model(*condition), cm0);
                    lemma_lower_stmts_mono(crate::ast::stmts_model(b1.statements@), 0, s1.2);
                    lemma_lower_stmts_mono(crate::ast::stmts_model(b2.statements@), 0, s2.1);
                }
                let else_label = ctx.get_lbl();
                let after_label = ctx.get_lbl();
                let (mut quads, arg) = condition.get_ir_code(ctx);
                let ghost q0 = quads@;
                let op_ifz = Quad::Ifz(arg, else_label.clone());
                quads.push(op_ifz);
                proof {
                    assert(quads_model(quads@) =~= quads_model(q0).push(quad_model(op_ifz)));
                    assert(decreases_to!(*self => *b1));
                    assert(decreases_to!(*b1 => b1.statements@));
                }
                let mut body1 = lower_statements(&b1.statements, ctx);
                let ghost qb1 = body1@;
                let ghost qpre = quads@;
                quads.append(&mut body1);
                let ghost q1 = quads@;
                let op_goto = Quad::Goto(after_label.clone());
                quads.push(op_goto);
                let ghost q2 = quads@;
                let op_else = Quad::Label(else_label);
                quads.push(op_else);
                proof {
                    assert(quads_model(q1) =~= quads_model(qpre) + quads_model(qb1));
                    assert(quads_model(q2) =~= quads_model(q1).push(quad_model(op_goto)));
                    assert(quads_model(quads@) =~= quads_model(q2).push(quad_model(op_else)));
                    assert(decreases_to!(*self => *b2));
                    assert(decreases_to!(*b2 => b2.statements@));
                }
                let mut body2 = lower_statements(&b2.statements, ctx);
                let ghost qb2 = body2@;
                let ghost q3 = quads@;
                quads.append(&mut body2);
                let ghost q4 = quads@;
                let op_after = Quad::Label(after_label);
                quads.push(op_after);
                proof {
                    assert(quads_model(q4) =~= quads_model(q3) + quads_model(qb2));
                    assert(quads_model(quads@) =~= quads_model(q4).push(quad_model(op_after)));
                }
                quads
            },
            Statement::While(condition, b) => {
                proof {
                    let cm0 = model::LoweringContext { lbl: c0.lbl + 2, ..c0 };
                    let s1 = spec_lower_expr(expr_model(*condition), cm0);
                    let s2 = spec_lower_stmts(crate::ast::stmts_model(b.statements@), 0, s1.2);
                    assert(spec_lower_stmt(stmt_model(*self), c0).1 == s2.1);
                    lemma_lower_expr_mono(expr_model(*condition), cm0);
                    lemma_lower_stmts_mono(crate::ast::stmts_model(b.statements@), 0, s1.2);
                }
                let condition_label = ctx.get_lbl();
                let after_label = ctx.get_lbl();
                let mut quads: Vec<Quad> = Vec::new();
                let op_head = Quad::Label(condition_label.clone());
                quads.push(op_head);
                let (mut ccode, arg) = condition.get_ir_code(ctx);
                let ghost qc = ccode@;
                let ghost q0 = quads@;
                quads.append(&mut ccode);
                let ghost q1 = quads@;
                let op_ifz = Quad::Ifz(arg, after_label.clone());
                quads.push(op_ifz);
                proof {
                    assert(quads_model(q0) =~= seq![quad_model(op_head)]);
                    assert(quads_model(q1) =~= quads_model(q0) + quads_model(qc));
                    assert(quads_model(quads@) =~= quads_model(q1).push(quad_model(op_ifz)));
                    assert(decreases_to!(*self => *b));
                    assert(decreases_to!(*b => b.statements@));
                }
                let mut body = lower_statements(&b.statements, ctx);
                let ghost qb = body@;
                let ghost q2 = quads@;
                quads.append(&mut body);
                let ghost q3 = quads@;
                let op_goto = Quad::Goto(condition_label);
                quads.push(op_goto);
                let ghost q4 = quads@;
                let op_after = Quad::Label(after_label);
                quads.push(op_after);
                proof {
                    assert(quads_model(q3) =~= quads_model(q2) + quads_model(qb));
                    assert(quads_model(q4) =~= quads_model(q3).push(quad_model(op_goto)));
                    assert(quads_model(quads@) =~= quads_model(q4).push(quad_model(op_after)));
                }
                quads
            },
            Statement::VariableDeclaration(d) => {
                match d {
                    Declaration::Variable(v) => {
                        match &v.assignment {
                            None => {
                                let quads: Vec<Quad> = Vec::new();
                                proof {
                                    assert(quads_model(quads@) =~= Seq::<model::Quad>::empty());
                                }
                                quads
                            },
                            Some(x) => {
                                proof {
                                    let s1 = spec_lower_expr(expr_model(*x), c0);
                                    assert(spec_lower_stmt(stmt_model(*self), c0).1 == s1.2);
                                }
                                let (mut quads, arg) = x.get_ir_code(ctx);
                                let op = Quad::Assignment(
                                    Argument::Local(v.name.name.clone()),
                                    arg,
                                );
                                let ghost q0 = quads@;
                                quads.push(op);
                                proof {
                                    assert(quads_model(quads@) =~= quads_model(q0).push(
                                        quad_model(op),
                                    ));
                                }
                                quads
                            },
                        }
                    },
                    _ => {
                        let quads: Vec<Quad> = Vec::new();
                        proof {
                            assert(quads_model(quads@) =~= Seq::<model::Quad>::empty());
                        }
                        quads
                    },
                }
            },
        }
    }
}

/// Lowers a statement list, left to right.
pub fn lower_statements(ss: &Vec<Statement>, ctx: &mut LoweringContext) -> (r: Vec<Quad>)
    requires
        ctx_fits(
            spec_lower_stmts(crate::ast::stmts_model(ss@), 0, ctx_model(*old(ctx))).1,
        ),
    ensures
        (quads_model(r@), ctx_model(*final(ctx))) == spec_lower_stmts(
            crate::ast::stmts_model(ss@),
            0,
            ctx_model(*old(ctx)),
        ),
    decreases ss@,
{
    let ghost sm = crate::ast::stmts_model(ss@);
    let ghost c0 = ctx_model(*ctx);
    proof {
        crate::ast::lemma_stmts_model_len(ss@);
    }
    let mut quads: Vec<Quad> = Vec::new();
    let mut i: usize = 0;
    while i < ss.len()
        invariant
            0 <= i <= ss@.len(),
            sm == crate::ast::stmts_model(ss@),
            sm.len() == ss@.len(),
            c0 == ctx_model(*old(ctx)),
            ctx_fits(spec_lower_stmts(sm, 0, c0).1),
            spec_lower_stmts(sm, 0, c0) == {
                let (rest, cf) = spec_lower_stmts(sm, i as int, ctx_model(*ctx));
                (quads_model(quads@) + rest, cf)
            },
        decreases ss@.len() - i,
    {
        proof {
            assert(decreases_to!(ss@ => ss@[i as int]));
            crate::ast::lemma_stmts_model_index(ss@, i as int);
            let cm = ctx_model(*ctx);
            let st = spec_lower_stmt(sm[i as int], cm);
            assert(spec_lower_stmts(sm, i as int, cm).1 == spec_lower_stmts(
                sm,
                i as int + 1,
                st.1,
            ).1);
            lemma_lower_stmt_mono(sm[i as int], cm);
            lemma_lower_stmts_mono(sm, i as int + 1, st.1);
        }
        let mut q = ss[i].get_ir_code(ctx);
        let ghost qs = q@;
        let ghost prevq = quads@;
        quads.append(&mut q);
        proof {
            assert(quads_model(quads@) =~= quads_model(prevq) + quads_model(qs));
        }
        i = i + 1;
    }
    quads
}

impl crate::ast::Function {
    /// The names of the variables this function's body declares at its top
    /// level.
    pub fn get_locals(&self) -> (r: Vec<Id>)
        ensures
            ids_model(r@) == spec_locals_of(crate::ast::stmts_model(self.body@)),
    {
        let mut v: Vec<Id> = Vec::new();
        let mut i: usize = 0;
        proof {
            crate::ast::lemma_stmts_model_len(self.body@);
        }
        while i < self.body.len()
            invariant
                0 <= i <= self.body@.len(),
                ids_model(v@) == spec_locals_of(
                    crate::ast::stmts_model(self.body@.subrange(0, i as int)),
                ),
            decreases self.body@.len() - i,
        {
            proof {
                crate::ast::lemma_stmts_model_facts(self.body@, i as int);
                let q = crate::ast::stmts_model(self.body@.subrange(0, i as int));
                let y = crate::ast::stmt_model(self.body@[i as int]);
                assert(crate::ast::stmts_model(
                    self.body@.subrange(0, i as int + 1),
                ).drop_last() =~= q);
                assert(crate::ast::stmts_model(self.body@.subrange(0, i as int + 1)).last()
                    == y);
            }
            let ghost prev = v@;
            match &self.body[i] {
                Statement::VariableDeclaration(Declaration::Variable(decl)) => {
                    v.push(decl.name.clone());
                    proof {
                        assert(ids_model(v@) =~= ids_model(prev).push(
                            id_model(self.body@[i as int]->VariableDeclaration_0->Variable_0.name),
                        ));
                    }
                },
                _ => {},
            }
            proof {
                assert(ids_model(v@) =~= spec_locals_of(
                    crate::ast::stmts_model(self.body@.subrange(0, i as int + 1)),
                ));
            }
            i = i + 1;
        }
        proof {
            assert(self.body@.subrange(0, self.body@.len() as int) =~= self.body@);
        }
        v
    }

    /// Lowers this function: frame header, prologue, formal spills, body,
    /// and the epilogue at a fresh exit label.
    pub fn get_ir_code(&self, ctx: &mut LoweringContext) -> (r: Vec<Quad>)
        requires
            old(ctx).lbl < usize::MAX,
            ctx_fits(
                spec_lower_function(crate::ast::function_model(*self), ctx_model(*old(ctx))).1,
            ),
        ensures
            (quads_model(r@), ctx_model(*final(ctx))) == spec_lower_function(
                crate::ast::function_model(*self),
                ctx_model(*old(ctx)),
            ),
    {
        let ghost c0 = ctx_model(*ctx);
        let ghost fm = crate::ast::function_model(*self);
        proof {
            assert(fm.id == id_model(self.id));
            assert(fm.body == crate::ast::stmts_model(self.body@));
            assert(fm.fn_input == formals_model(self.fn_input@));
            let exit_label = lbl_name(c0.lbl);
            let c1 = model::LoweringContext {
                lbl: c0.lbl + 1,
                fn_exit: exit_label,
                globals: c0.globals.push(model::GlobalDecl::Fn(fm.id.name)),
                ..c0
            };
            let s = spec_lower_stmts(fm.body, 0, c1);
            assert(spec_lower_function(fm, c0).1 == s.1);
            lemma_lower_stmts_mono(fm.body, 0, c1);
        }
        ctx.add_global(GlobalDecl::Fn(self.id.name.clone()));
        let exit_label = ctx.get_new_fn_exit_lbl();
        let start_tmps = ctx.get_tmp_counter();
        let mut body_quads = lower_statements(&self.body, ctx);
        let end_tmps = ctx.get_tmp_counter();
        let locals = self.get_locals();
        let formals = crate::ast::clone_formals(&self.fn_input);
        let mut quads: Vec<Quad> = Vec::new();
        let header = Quad::Locals(
            self.id.name.clone(),
            formals,
            locals,
            (start_tmps, end_tmps),
        );
        quads.push(header);
        let enter = Quad::Enter(self.id.name.clone());
        quads.push(enter);
        let ghost q0 = quads@;
        proof {
            assert(quads_model(q0) =~= seq![quad_model(header), quad_model(enter)]);
            crate::ast::lemma_formals_model_len(self.fn_input@);
        }
        let mut i: usize = 0;
        while i < self.fn_input.len()
            invariant
                0 <= i <= self.fn_input@.len(),
                quads@.len() == 2 + i,
                quads_model(quads@) == quads_model(q0) + spec_getargs_upto(
                    formals_model(self.fn_input@),
                    i as int,
                ),
            decreases self.fn_input@.len() - i,
        {
            proof {
                crate::ast::lemma_formals_model_index(self.fn_input@, i as int);
            }
            let ghost prevq = quads@;
            let arg_quad = Quad::GetArg(i + 1, Argument::Local(self.fn_input[i].id.name.clone()));
            quads.push(arg_quad);
            proof {
                assert(quads_model(quads@) =~= quads_model(prevq).push(quad_model(arg_quad)));
                lemma_getargs_upto_step(formals_model(self.fn_input@), i as int);
            }
            i = i + 1;
        }
        proof {
            lemma_getargs_upto_all(formals_model(self.fn_input@));
        }
        let ghost qargs = quads@;
        quads.append(&mut body_quads);
        let ghost q1 = quads@;
        let leave = Quad::Leave(exit_label, self.id.name.clone());
        quads.push(leave);
        proof {
            assert(quads_model(q1) =~= quads_model(qargs) + spec_lower_function(fm, c0).0.subrange(
                2 + self.fn_input@.len() as int,
                spec_lower_function(fm, c0).0.len() - 1,
            ));
            assert(quads_model(quads@) =~= quads_model(q1).push(quad_model(leave)));
            assert(quads_model(quads@) =~= spec_lower_function(fm, c0).0);
        }
        quads
    }
}

/// The first `i` `GetArg` quads of a function's prologue.
pub open spec fn spec_getargs_upto(formals: Seq<model::Formal>, i: int) -> Seq<model::Quad>
    decreases i,
{
    if i <= 0 {
        Seq::empty()
    } else {
        spec_getargs_upto(formals, i - 1).push(
            model::Quad::GetArg(i, model::Argument::Local(formals[i - 1].id.name)),
        )
    }
}

/// One more `GetArg` extends the prefix.
proof fn lemma_getargs_upto_step(formals: Seq<model::Formal>, i: int)
    requires
        0 <= i,
    ensures
        spec_getargs_upto(formals, i + 1) == spec_getargs_upto(formals, i).push(
            model::Quad::GetArg(i + 1, model::Argument::Local(formals[i].id.name)),
        ),
{
}

/// The full `GetArg` prefix is the whole prologue spill sequence.
proof fn lemma_getargs_upto_all(formals: Seq<model::Formal>)
    ensures
        spec_getargs_upto(formals, formals.len() as int) == spec_getargs(formals, 0),
{
    lemma_getargs_split(formals, 0);
}

/// Relating the forward-built prefix to the recursive suffix form.
proof fn lemma_getargs_split(formals: Seq<model::Formal>, i: int)
    requires
        0 <= i <= formals.len(),
    ensures
        spec_getargs_upto(formals, formals.len() as int) == spec_getargs_upto(formals, i)
            + spec_getargs(formals, i),
    decreases formals.len() - i,
{
    if i == formals.len() {
        assert(spec_getargs_upto(formals, i) + spec_getargs(formals, i) =~= spec_getargs_upto(
            formals,
            i,
        ));
    } else {
        lemma_getargs_split(formals, i + 1);
        lemma_getargs_upto_step(formals, i);
        assert(spec_getargs_upto(formals, i).push(
            model::Quad::GetArg(i + 1, model::Argument::Local(formals[i].id.name)),
        ) + spec_getargs(formals, i + 1) =~= spec_getargs_upto(formals, i) + (seq![
            model::Quad::GetArg(i + 1, model::Argument::Local(formals[i].id.name)),
        ] + spec_getargs(formals, i + 1)));
    }
}

impl VariableDeclaration {
    /// Lowers a global variable declaration: records its slot and, if there
    /// is an initializer, evaluates it into the slot.
    pub fn get_ir_code(&self, ctx: &mut LoweringContext) -> (r: Vec<Quad>)
        requires
            ctx_fits(
                spec_lower_global_var(vardecl_model(*self), ctx_model(*old(ctx))).1,
            ),
        ensures
            (quads_model(r@), ctx_model(*final(ctx))) == spec_lower_global_var(
                vardecl_model(*self),
                ctx_model(*old(ctx)),
            ),
    {
        let ghost c0 = ctx_model(*ctx);
        ctx.add_global(GlobalDecl::Var(self.name.name.clone()));
        match &self.assignment {
            None => {
                let quads: Vec<Quad> = Vec::new();
                proof {
                    assert(quads_model(quads@) =~= Seq::<model::Quad>::empty());
                }
                quads
            },
            Some(x) => {
                proof {
                    let c1 = model::LoweringContext {
                        globals: c0.globals.push(
                            model::GlobalDecl::Var(vardecl_model(*self).name.name),
                        ),
                        ..c0
                    };
                    let s = spec_lower_expr(expr_model(*x), c1);
                    assert(spec_lower_global_var(vardecl_model(*self), c0).1 == s.2);
                }
                let (mut quads, arg) = x.get_ir_code(ctx);
                let op = Quad::Assignment(Argument::Global(self.name.name.clone()), arg);
                let ghost q0 = quads@;
                quads.push(op);
                proof {
                    assert(quads_model(quads@) =~= quads_model(q0).push(quad_model(op)));
                }
                quads
            },
        }
    }
}

/// Lowers a whole program: the globals header, the global variables' code,
/// the functions' code, and the `main` trampoline. The counters start at
/// zero, so the stream is a function of the program alone.
pub fn generate(ast: &Vec<Declaration>) -> (r: Vec<Quad>)
    requires
        ctx_fits(spec_generate(crate::ast::decls_model(ast@)).1),
        spec_generate(crate::ast::decls_model(ast@)).1.lbl < usize::MAX,
    ensures
        quads_model(r@) == spec_generate(crate::ast::decls_model(ast@)).0,
{
    let ghost dm = crate::ast::decls_model(ast@);
    let mut ctx = LoweringContext::new();
    proof {
        crate::ast::lemma_decls_model_len(ast@);
        lemma_lower_globals_mono(dm, 0, spec_fresh_ctx());
        lemma_lower_functions_mono(dm, 0, spec_lower_globals(dm, 0, spec_fresh_ctx()).1);
    }
    let mut quads: Vec<Quad> = Vec::new();
    let mut i: usize = 0;
    while i < ast.len()
        invariant
            0 <= i <= ast@.len(),
            dm == crate::ast::decls_model(ast@),
            dm.len() == ast@.len(),
            ctx_fits(spec_generate(dm).1),
            spec_generate(dm).1.lbl < usize::MAX,
            spec_lower_globals(dm, 0, spec_fresh_ctx()) == {
                let (rest, cf) = spec_lower_globals(dm, i as int, ctx_model(ctx));
                (quads_model(quads@) + rest, cf)
            },
        decreases ast@.len() - i,
    {
        proof {
            crate::ast::lemma_decls_model_index(ast@, i as int);
            let cm = ctx_model(ctx);
            match dm[i as int] {
                model::Declaration::Variable(v) => {
                    let s = spec_lower_global_var(v, cm);
                    assert(spec_lower_globals(dm, i as int, cm).1 == spec_lower_globals(
                        dm,
                        i as int + 1,
                        s.1,
                    ).1);
                    lemma_lower_global_var_mono(v, cm);
                    lemma_lower_globals_mono(dm, i as int + 1, s.1);
                    let cg = spec_lower_globals(dm, 0, spec_fresh_ctx()).1;
                    lemma_lower_functions_mono(dm, 0, cg);
                    assert(spec_generate(dm).1 == spec_lower_functions(dm, 0, cg).1);
                },
                _ => {},
            }
        }
        match &ast[i] {
            Declaration::Variable(var) => {
                let mut q = var.get_ir_code(&mut ctx);
                let ghost qs = q@;
                let ghost prevq = quads@;
                quads.append(&mut q);
                proof {
                    assert(quads_model(quads@) =~= quads_model(prevq) + quads_model(qs));
                }
            },
            _ => {},
        }
        i = i + 1;
    }
    let ghost c1 = ctx_model(ctx);
    let ghost qv = quads@;
    let mut j: usize = 0;
    let mut fquads: Vec<Quad> = Vec::new();
    while j < ast.len()
        invariant
            0 <= j <= ast@.len(),
            dm == crate::ast::decls_model(ast@),
            dm.len() == ast@.len(),
            ctx_fits(spec_generate(dm).1),
            spec_generate(dm).1.lbl < usize::MAX,
            c1 == spec_lower_globals(dm, 0, spec_fresh_ctx()).1,
            quads_model(qv) == spec_lower_globals(dm, 0, spec_fresh_ctx()).0,
            spec_lower_functions(dm, 0, c1) == {
                let (rest, cf) = spec_lower_functions(dm, j as int, ctx_model(ctx));
                (quads_model(fquads@) + rest, cf)
            },
        decreases ast@.len() - j,
    {
        proof {
            crate::ast::lemma_decls_model_index(ast@, j as int);
            let cm = ctx_model(ctx);
            match dm[j as int] {
                model::Declaration::Function(f) => {
                    let s = spec_lower_function(f, cm);
                    assert(spec_lower_functions(dm, j as int, cm).1 == spec_lower_functions(
                        dm,
                        j as int + 1,
                        s.1,
                    ).1);
                    lemma_lower_function_mono(f, cm);
                    lemma_lower_functions_mono(dm, j as int + 1, s.1);
                    assert(spec_generate(dm).1 == spec_lower_functions(dm, 0, c1).1);
                },
                _ => {},
            }
        }
        match &ast[j] {
            Declaration::Function(function) => {
                let mut q = function.get_ir_code(&mut ctx);
                let ghost qs = q@;
                let ghost prevq = fquads@;
                fquads.append(&mut q);
                proof {
                    assert(quads_model(fquads@) =~= quads_model(prevq) + quads_model(qs));
                }
            },
            _ => {},
        }
        j = j + 1;
    }
    let ghost c2 = ctx_model(ctx);
    let mut out: Vec<Quad> = Vec::new();
    let header = Quad::Globals(take_globals(&mut ctx));
    out.push(header);
    let ghost q0 = out@;
    let ghost qf = fquads@;
    out.append(&mut quads);
    let ghost q1 = out@;
    out.append(&mut fquads);
    let ghost q2 = out@;
    let main_label = Quad::Label(main_label_string());
    out.push(main_label);
    let ghost q3 = out@;
    let main_goto = Quad::Goto(fn_main_string());
    out.push(main_goto);
    proof {
        assert(quads_model(q0) =~= seq![model::Quad::Globals(c2.globals)]);
        assert(quads_model(q1) =~= quads_model(q0) + quads_model(qv));
        assert(quads_model(q2) =~= quads_model(q1) + quads_model(qf));
        assert(quads_model(q3) =~= quads_model(q2).push(model::Quad::Label("main"@)));
        assert(quads_model(out@) =~= quads_model(q3).push(model::Quad::Goto("fn_main"@)));
        assert(quads_model(out@) =~= spec_generate(dm).0);
    }
    out
}

/// The label the trampoline is emitted at.
fn main_label_string() -> (r: String)
    ensures
        r@ == "main"@,
{
    let mut s = String::new();
    s.append("main");
    s
}

/// The label of the entry function the trampoline jumps to.
fn fn_main_string() -> (r: String)
    ensures
        r@ == "fn_main"@,
{
    let mut s = String::new();
    s.append("fn_main");
    s
}

/// Hands the collected globals out of the context.
fn take_globals(ctx: &mut LoweringContext) -> (r: Vec<GlobalDecl>)
    ensures
        globals_model(r@) == ctx_model(*old(ctx)).globals,
{
    let mut empty: Vec<GlobalDecl> = Vec::new();
    core::mem::swap(&mut ctx.globals, &mut empty);
    empty
}

/// Lowering never decreases the counters: global variables.
pub proof fn lemma_lower_global_var_mono(
    v: model::VariableDeclaration,
    c: model::LoweringContext,
)
    ensures
        spec_lower_global_var(v, c).1.tmp >= c.tmp,
        spec_lower_global_var(v, c).1.lbl >= c.lbl,
        spec_lower_global_var(v, c).1.str_count >= c.str_count,
    decreases v,
{
    let c1 = model::LoweringContext {
        globals: c.globals.push(model::GlobalDecl::Var(v.name.name)),
        ..c
    };
    match v.assignment {
        Option::Some(e) => {
            lemma_lower_expr_mono(e, c1);
        },
        Option::None => {},
    }
}

/// Lowering never decreases the counters: global variable lists.
pub proof fn lemma_lower_globals_mono(
    ds: Seq<model::Declaration>,
    i: int,
    c: model::LoweringContext,
)
    ensures
        spec_lower_globals(ds, i, c).1.tmp >= c.tmp,
        spec_lower_globals(ds, i, c).1.lbl >= c.lbl,
        spec_lower_globals(ds, i, c).1.str_count >= c.str_count,
    decreases ds.len() - i,
{
    if !(i < 0 || i >= ds.len()) {
        match ds[i] {
            model::Declaration::Variable(v) => {
                lemma_lower_global_var_mono(v, c);
                lemma_lower_globals_mono(ds, i + 1, spec_lower_global_var(v, c).1);
            },
            _ => {
                lemma_lower_globals_mono(ds, i + 1, c);
            },
        }
    }
}

/// Lowering never decreases the counters: function lists.
pub proof fn lemma_lower_functions_mono(
    ds: Seq<model::Declaration>,
    i: int,
    c: model::LoweringContext,
)
    ensures
        spec_lower_functions(ds, i, c).1.tmp >= c.tmp,
        spec_lower_functions(ds, i, c).1.lbl >= c.lbl,
        spec_lower_functions(ds, i, c).1.str_count >= c.str_count,
    decreases ds.len() - i,
{
    if !(i < 0 || i >= ds.len()) {
        match ds[i] {
            model::Declaration::Function(f) => {
                lemma_lower_function_mono(f, c);
                lemma_lower_functions_mono(ds, i + 1, spec_lower_function(f, c).1);
            },
            _ => {
                lemma_lower_functions_mono(ds, i + 1, c);
            },
        }
    }
}

/// The quad stream is deterministic: it is a function of the program alone,
/// so any two streams produced for the same program are the same, and so are
/// their textual forms. Counters start at zero on every run and are never
/// consulted across runs.
pub proof fn lemma_tac_deterministic(ds: Seq<model::Declaration>, q1: Seq<model::Quad>, q2: Seq<model::Quad>)
    requires
        q1 == spec_generate(ds).0,
        q2 == spec_generate(ds).0,
    ensures
        q1 == q2,
        crate::quads::spec_quads_text(q1) == crate::quads::spec_quads_text(q2),
{
}

} // verus!
