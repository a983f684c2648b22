//! The unparser: renders a program back to source text, either plainly or
//! with `{type}` annotations after every identifier use (the "named" mode).

use crate::ast::{
    call_model, decl_model, decls_model, expr_model, exprs_model, formal_model,
    formals_model, location_model, spec_type_text, stmt_model, stmts_model,
    CallExpression, Class, Declaration, Expression, Formal, Function,
    Location, Statement, Type, VariableDeclaration,
};
use crate::model;
use crate::render::dec_nat;
use vstd::prelude::*;
use vstd::string::StringExecFns;

verus! {

/// Which unparse artifact was asked for: a named one, none, or a plain one,
/// each with its output path.
#[derive(Debug, PartialEq)]
pub enum UnparseMode {
    Named(String),
    Off,
    Normal(String),
}

/// The model of an unparse mode.
pub open spec fn unparse_mode_model(m: UnparseMode) -> model::UnparseMode {
    match m {
        UnparseMode::Named(p) => model::UnparseMode::Named(p@),
        UnparseMode::Off => model::UnparseMode::Off,
        UnparseMode::Normal(p) => model::UnparseMode::Normal(p@),
    }
}

/// How an identifier use renders: its name, followed in named mode by its
/// type in braces.
pub open spec fn spec_unparse_id(name: Seq<char>, t: model::Type, named: bool) -> Seq<char> {
    if named {
        name + "{"@ + spec_type_text(t) + "}"@
    } else {
        name
    }
}

/// The parenthesized list of a function's formal types.
pub open spec fn spec_type_list(formals: Seq<model::Formal>) -> Seq<char>
    decreases formals,
{
    if formals.len() == 0 {
        "()"@
    } else if formals.len() == 1 {
        "("@ + spec_type_text(formals[0].t) + ")"@
    } else {
        spec_type_list(formals.drop_last()).drop_last() + ", "@ + spec_type_text(
            formals.last().t,
        ) + ")"@
    }
}

/// How a function name renders: its name, followed in named mode by its
/// signature in braces.
pub open spec fn spec_unparse_fn(
    name: Seq<char>,
    formals: Seq<model::Formal>,
    output: model::Type,
    named: bool,
) -> Seq<char> {
    if named {
        name + "{"@ + spec_type_list(formals) + "->"@ + spec_type_text(output) + "}"@
    } else {
        name
    }
}

/// How a dotted chain renders: each link by its entry's shape, joined by
/// `--`. A link that name analysis has not bound renders as nothing.
pub open spec fn spec_unparse_location(l: model::Location, named: bool) -> Seq<char>
    decreases l,
{
    match l.symbol_table_entry {
        Option::None => Seq::empty(),
        Option::Some(entry) => {
            let head = match entry {
                model::Entry::Function(formals, output) => spec_unparse_fn(
                    l.current_link,
                    formals,
                    output,
                    named,
                ),
                model::Entry::Variable(t) => spec_unparse_id(l.current_link, t, named),
                model::Entry::Class(_) => Seq::empty(),
            };
            match l.next_link {
                Option::None => head,
                Option::Some(next) => head + "--"@ + spec_unparse_location(*next, named),
            }
        },
    }
}

/// How an expression renders.
pub open spec fn spec_unparse_expr(e: model::Expression, named: bool) -> Seq<char>
    decreases e,
{
    match e {
        model::Expression::Add(l, r) => spec_unparse_binary(
            spec_unparse_expr(*l, named),
            " + "@,
            spec_unparse_expr(*r, named),
        ),
        model::Expression::And(l, r) => spec_unparse_binary(
            spec_unparse_expr(*l, named),
            " and "@,
            spec_unparse_expr(*r, named),
        ),
        model::Expression::CallExpression(x) => spec_unparse_call(x, named),
        model::Expression::Divide(l, r) => spec_unparse_binary(
            spec_unparse_expr(*l, named),
            " / "@,
            spec_unparse_expr(*r, named),
        ),
        model::Expression::Equals(l, r) => spec_unparse_binary(
            spec_unparse_expr(*l, named),
            " == "@,
            spec_unparse_expr(*r, named),
        ),
        model::Expression::False(_) => "false"@,
        model::Expression::Greater(l, r) => spec_unparse_binary(
            spec_unparse_expr(*l, named),
            " > "@,
            spec_unparse_expr(*r, named),
        ),
        model::Expression::GreaterEq(l, r) => spec_unparse_binary(
            spec_unparse_expr(*l, named),
            " >= "@,
            spec_unparse_expr(*r, named),
        ),
        model::Expression::IntegerLiteral(v, _) => dec_nat(v as nat),
        model::Expression::Less(l, r) => spec_unparse_binary(
            spec_unparse_expr(*l, named),
            " < "@,
            spec_unparse_expr(*r, named),
        ),
        model::Expression::LessEq(l, r) => spec_unparse_binary(
            spec_unparse_expr(*l, named),
            " <= "@,
            spec_unparse_expr(*r, named),
        ),
        model::Expression::Location(x) => spec_unparse_location(x, named),
        model::Expression::Magic(_) => "24Kmagic"@,
        model::Expression::Multiply(l, r) => spec_unparse_binary(
            spec_unparse_expr(*l, named),
            " * "@,
            spec_unparse_expr(*r, named),
        ),
        model::Expression::Negative(x) => "-"@ + spec_unparse_expr(*x, named),
        model::Expression::Not(x) => "!"@ + spec_unparse_expr(*x, named),
        model::Expression::NotEquals(l, r) => spec_unparse_binary(
            spec_unparse_expr(*l, named),
            " != "@,
            spec_unparse_expr(*r, named),
        ),
        model::Expression::Or(l, r) => spec_unparse_binary(
            spec_unparse_expr(*l, named),
            " or "@,
            spec_unparse_expr(*r, named),
        ),
        model::Expression::StringLiteral(s, _) => "\""@ + s + "\""@,
        model::Expression::Subtract(l, r) => spec_unparse_binary(
            spec_unparse_expr(*l, named),
            " - "@,
            spec_unparse_expr(*r, named),
        ),
        model::Expression::True(_) => "true"@,
    }
}

/// A parenthesized binary rendering.
pub open spec fn spec_unparse_binary(l: Seq<char>, op: Seq<char>, r: Seq<char>) -> Seq<char> {
    "("@ + l + op + r + ")"@
}

/// How a call renders: the callee chain and the parenthesized actuals.
pub open spec fn spec_unparse_call(c: model::CallExpression, named: bool) -> Seq<char>
    decreases c,
{
    spec_unparse_location(c.location, named) + spec_expr_list(c.actuals, named)
}

/// The parenthesized, comma-separated list of a call's actuals.
pub open spec fn spec_expr_list(es: Seq<model::Expression>, named: bool) -> Seq<char>
    decreases es,
{
    if es.len() == 0 {
        "()"@
    } else if es.len() == 1 {
        "("@ + spec_unparse_expr(es[0], named) + ")"@
    } else {
        spec_expr_list(es.drop_last(), named).drop_last() + ", "@ + spec_unparse_expr(
            es.last(),
            named,
        ) + ")"@
    }
}

/// The indentation of a nested block: one deeper, capped at the machine's
/// word size so that rendering is total.
pub open spec fn spec_next_indent(i: int) -> int {
    if i >= usize::MAX {
        i
    } else {
        i + 1
    }
}

/// `n` tab characters.
pub open spec fn spec_tabs(n: int) -> Seq<char>
    decreases n,
{
    if n <= 0 {
        Seq::empty()
    } else {
        spec_tabs(n - 1) + "\t"@
    }
}

/// How a block renders: each statement on its own line, one tab deeper.
pub open spec fn spec_unparse_body(
    ss: Seq<model::Statement>,
    named: bool,
    indent: int,
) -> Seq<char>
    decreases ss, 1int,
{
    "{\n"@ + spec_unparse_body_lines(ss, named, indent) + spec_tabs(indent) + "}"@
}

/// The lines of a block.
pub open spec fn spec_unparse_body_lines(
    ss: Seq<model::Statement>,
    named: bool,
    indent: int,
) -> Seq<char>
    decreases ss, 0int,
{
    if ss.len() == 0 {
        Seq::empty()
    } else {
        spec_unparse_body_lines(ss.drop_last(), named, indent) + spec_tabs(
            spec_next_indent(indent),
        ) + spec_unparse_stmt(ss.last(), named, spec_next_indent(indent)) + "\n"@
    }
}

/// How one statement renders.
pub open spec fn spec_unparse_stmt(s: model::Statement, named: bool, indent: int) -> Seq<char>
    decreases s, 2int,
{
    match s {
        model::Statement::Assignment(loc, exp) => spec_unparse_location(loc, named) + " = "@
            + spec_unparse_expr(exp, named) + ";"@,
        model::Statement::CallExpression(x) => spec_unparse_call(x, named) + ";"@,
        model::Statement::Decrement(x) => spec_unparse_location(x, named) + "--"@,
        model::Statement::Exit => "today I don't feel like doing any work;"@,
        model::Statement::Give(x) => "give "@ + spec_unparse_expr(x, named) + ";"@,
        model::Statement::If(condition, body, else_body) => if else_body.statements.len() == 0 {
            "if("@ + spec_unparse_expr(condition, named) + ") "@ + spec_unparse_body(
                body.statements,
                named,
                indent,
            )
        } else {
            "if("@ + spec_unparse_expr(condition, named) + ") "@ + spec_unparse_body(
                body.statements,
                named,
                indent,
            ) + " else "@ + spec_unparse_body(else_body.statements, named, indent)
        },
        model::Statement::Increment(x) => spec_unparse_location(x, named) + "++"@,
        model::Statement::Return(x, _) => match x {
            Option::Some(e) => "return "@ + spec_unparse_expr(e, named) + ";"@,
            Option::None => "return;"@,
        },
        model::Statement::Take(x) => "take "@ + spec_unparse_location(x, named) + ";"@,
        model::Statement::VariableDeclaration(d) => spec_unparse_decl(d, named, indent),
        model::Statement::While(condition, body) => "while("@ + spec_unparse_expr(
            condition,
            named,
        ) + ") "@ + spec_unparse_body(body.statements, named, indent),
    }
}

/// How a declaration renders.
pub open spec fn spec_unparse_decl(d: model::Declaration, named: bool, indent: int) -> Seq<char>
    decreases d, 1int,
{
    match d {
        model::Declaration::Class(c) => spec_unparse_id(
            c.id.name,
            model::Type::Class(c.id, c.id.source_position),
            named,
        ) + " : class "@ + spec_unparse_class_body(c.body, named, indent) + ";"@,
        model::Declaration::Function(f) => spec_unparse_fn(
            f.id.name,
            f.fn_input,
            f.fn_output,
            named,
        ) + " : "@ + spec_formal_list(f.fn_input, named) + " "@ + spec_type_text(f.fn_output)
            + " "@ + spec_unparse_body(f.body, named, indent),
        model::Declaration::Variable(v) => match v.assignment {
            Option::Some(a) => spec_unparse_id(v.name.name, v.t, named) + " : "@ + spec_type_text(
                v.t,
            ) + " = "@ + spec_unparse_expr(a, named) + ";"@,
            Option::None => spec_unparse_id(v.name.name, v.t, named) + " : "@ + spec_type_text(
                v.t,
            ) + ";"@,
        },
    }
}

/// How a class body renders: each member on its own line, one tab deeper.
pub open spec fn spec_unparse_class_body(
    ds: Seq<model::Declaration>,
    named: bool,
    indent: int,
) -> Seq<char>
    decreases ds, 2int,
{
    "{\n"@ + spec_unparse_class_lines(ds, named, indent) + spec_tabs(indent) + "}"@
}

/// The lines of a class body.
pub open spec fn spec_unparse_class_lines(
    ds: Seq<model::Declaration>,
    named: bool,
    indent: int,
) -> Seq<char>
    decreases ds, 0int,
{
    if ds.len() == 0 {
        Seq::empty()
    } else {
        spec_unparse_class_lines(ds.drop_last(), named, indent) + spec_tabs(
            spec_next_indent(indent),
        ) + spec_unparse_decl(ds.last(), named, spec_next_indent(indent)) + "\n"@
    }
}

/// The parenthesized, comma-separated list of a function's formals, each as
/// `name : type`.
pub open spec fn spec_formal_list(fs: Seq<model::Formal>, named: bool) -> Seq<char>
    decreases fs,
{
    if fs.len() == 0 {
        "()"@
    } else if fs.len() == 1 {
        "("@ + spec_unparse_formal(fs[0], named) + ")"@
    } else {
        spec_formal_list(fs.drop_last(), named).drop_last() + ", "@ + spec_unparse_formal(
            fs.last(),
            named,
        ) + ")"@
    }
}

/// How a formal renders: its name (annotated in named mode) and type.
pub open spec fn spec_unparse_formal(f: model::Formal, named: bool) -> Seq<char> {
    spec_unparse_id(f.id.name, f.t, named) + " : "@ + spec_type_text(f.t)
}

/// How a whole program renders: each declaration followed by a newline.
pub open spec fn spec_unparse_program(ds: Seq<model::Declaration>, named: bool) -> Seq<char>
    decreases ds,
{
    if ds.len() == 0 {
        Seq::empty()
    } else {
        spec_unparse_program(ds.drop_last(), named) + spec_unparse_decl(ds.last(), named, 0)
            + "\n"@
    }
}

/// Renders an identifier use.
pub fn unparse_id(name: &String, t: &Type, named: bool) -> (r: String)
    ensures
        r@ == spec_unparse_id(name@, crate::ast::type_model(*t), named),
{
    if named {
        let mut s = name.clone();
        s.append("{");
        s.append(t.to_text().as_str());
        s.append("}");
        proof {
            assert(s@ =~= spec_unparse_id(name@, crate::ast::type_model(*t), named));
        }
        s
    } else {
        name.clone()
    }
}

/// Renders the parenthesized list of a function's formal types.
fn type_list(formals: &Vec<Formal>) -> (r: String)
    ensures
        r@ == spec_type_list(formals_model(formals@)),
{
    let ghost fm = formals_model(formals@);
    proof {
        crate::ast::lemma_formals_model_len(formals@);
    }
    if formals.len() == 0 {
        let mut s = String::new();
        s.append("()");
        return s;
    }
    let mut s = String::new();
    s.append("(");
    s.append(formals[0].t.to_text().as_str());
    proof {
        reveal_strlit(")");
        crate::ast::lemma_formals_model_index(formals@, 0);
        crate::ast::lemma_formals_model_subrange(formals@, 1);
        assert(fm.subrange(0, 1).len() == 1);
        assert(spec_type_list(fm.subrange(0, 1)) =~= "("@ + crate::ast::spec_type_text(
            fm[0].t,
        ) + ")"@);
        assert(s@ =~= spec_type_list(fm.subrange(0, 1)).drop_last());
    }
    let mut i: usize = 1;
    while i < formals.len()
        invariant
            1 <= i <= formals@.len(),
            fm == formals_model(formals@),
            fm.len() == formals@.len(),
            s@ == spec_type_list(fm.subrange(0, i as int)).drop_last(),
        decreases formals@.len() - i,
    {
        proof {
            crate::ast::lemma_formals_model_index(formals@, i as int);
            crate::ast::lemma_formals_model_subrange(formals@, i as int + 1);
            crate::ast::lemma_formals_model_subrange(formals@, i as int);
            assert(fm.subrange(0, i as int + 1).drop_last() =~= fm.subrange(0, i as int));
            assert(fm.subrange(0, i as int + 1).last() == fm[i as int]);
        }
        s.append(", ");
        s.append(formals[i].t.to_text().as_str());
        proof {
            reveal_strlit(")");
            assert(s@ =~= spec_type_list(fm.subrange(0, i as int + 1)).drop_last());
        }
        i = i + 1;
    }
    s.append(")");
    proof {
        reveal_strlit(")");
        assert(fm.subrange(0, fm.len() as int) =~= fm);
        assert(s@ =~= spec_type_list(fm));
    }
    s
}

/// Renders a function name, with its signature in named mode.
pub fn unparse_fn(name: &String, formals: &Vec<Formal>, output: &Type, named: bool) -> (r: String)
    ensures
        r@ == spec_unparse_fn(
            name@,
            formals_model(formals@),
            crate::ast::type_model(*output),
            named,
        ),
{
    if named {
        let mut s = name.clone();
        s.append("{");
        s.append(type_list(formals).as_str());
        s.append("->");
        s.append(output.to_text().as_str());
        s.append("}");
        proof {
            assert(s@ =~= spec_unparse_fn(
                name@,
                formals_model(formals@),
                crate::ast::type_model(*output),
                named,
            ));
        }
        s
    } else {
        name.clone()
    }
}

impl Location {
    /// Renders this chain for the unparse artifacts.
    pub fn unparse(&self, named: bool) -> (r: String)
        ensures
            r@ == spec_unparse_location(location_model(*self), named),
        decreases *self,
    {
        match &self.symbol_table_entry {
            None => String::new(),
            Some(entry) => {
                let head = match entry {
                    crate::symbol_table::Entry::Function(formals, output) => unparse_fn(
                        &self.current_link,
                        formals,
                        output,
                        named,
                    ),
                    crate::symbol_table::Entry::Variable(t) => unparse_id(
                        &self.current_link,
                        t,
                        named,
                    ),
                    crate::symbol_table::Entry::Class(_) => String::new(),
                };
                match &self.next_link {
                    None => head,
                    Some(next) => {
                        let mut s = head;
                        s.append("--");
                        s.append(next.unparse(named).as_str());
                        s
                    },
                }
            },
        }
    }
}

impl Expression {
    /// Renders this expression for the unparse artifacts.
    pub fn unparse(&self, named: bool) -> (r: String)
        ensures
            r@ == spec_unparse_expr(expr_model(*self), named),
        decreases *self,
    {
        match self {
            Expression::Add(l, r) => unparse_binary(l.unparse(named), " + ", r.unparse(named)),
            Expression::And(l, r) => unparse_binary(l.unparse(named), " and ", r.unparse(named)),
            Expression::CallExpression(x) => x.unparse(named),
            Expression::Divide(l, r) => unparse_binary(l.unparse(named), " / ", r.unparse(named)),
            Expression::Equals(l, r) => unparse_binary(l.unparse(named), " == ", r.unparse(named)),
            Expression::False(_) => literal_string("false"),
            Expression::Greater(l, r) => unparse_binary(l.unparse(named), " > ", r.unparse(named)),
            Expression::GreaterEq(l, r) => unparse_binary(
                l.unparse(named),
                " >= ",
                r.unparse(named),
            ),
            Expression::IntegerLiteral(v, _) => crate::render::u64_string(*v),
            Expression::Less(l, r) => unparse_binary(l.unparse(named), " < ", r.unparse(named)),
            Expression::LessEq(l, r) => unparse_binary(l.unparse(named), " <= ", r.unparse(named)),
            Expression::Location(x) => x.unparse(named),
            Expression::Magic(_) => literal_string("24Kmagic"),
            Expression::Multiply(l, r) => unparse_binary(
                l.unparse(named),
                " * ",
                r.unparse(named),
            ),
            Expression::Negative(x) => {
                let mut s = literal_string("-");
                s.append(x.unparse(named).as_str());
                s
            },
            Expression::Not(x) => {
                let mut s = literal_string("!");
                s.append(x.unparse(named).as_str());
                s
            },
            Expression::NotEquals(l, r) => unparse_binary(
                l.unparse(named),
                " != ",
                r.unparse(named),
            ),
            Expression::Or(l, r) => unparse_binary(l.unparse(named), " or ", r.unparse(named)),
            Expression::StringLiteral(x, _) => {
                let mut s = literal_string("\"");
                s.append(x.as_str());
                s.append("\"");
                proof {
                    assert(s@ =~= "\""@ + x@ + "\""@);
                }
                s
            },
            Expression::Subtract(l, r) => unparse_binary(
                l.unparse(named),
                " - ",
                r.unparse(named),
            ),
            Expression::True(_) => literal_string("true"),
        }
    }
}

/// A fresh string holding the given text.
fn literal_string(text: &str) -> (r: String)
    ensures
        r@ == text@,
{
    let mut s = String::new();
    s.append(text);
    s
}

/// A parenthesized binary rendering.
fn unparse_binary(l: String, op: &str, r: String) -> (out: String)
    ensures
        out@ == spec_unparse_binary(l@, op@, r@),
{
    let mut s = literal_string("(");
    s.append(l.as_str());
    s.append(op);
    s.append(r.as_str());
    s.append(")");
    proof {
        assert(s@ =~= spec_unparse_binary(l@, op@, r@));
    }
    s
}

impl CallExpression {
    /// Renders this call for the unparse artifacts.
    pub fn unparse(&self, named: bool) -> (r: String)
        ensures
            r@ == spec_unparse_call(call_model(*self), named),
        decreases *self,
    {
        proof {
            assert(call_model(*self).location == location_model(self.location));
            assert(call_model(*self).actuals == exprs_model(self.actuals@));
        }
        let mut s = self.location.unparse(named);
        s.append(fmt_list(self, named).as_str());
        s
    }
}

/// Renders the parenthesized, comma-separated actual list of a call.
pub fn fmt_list(c: &CallExpression, named: bool) -> (r: String)
    ensures
        r@ == spec_expr_list(exprs_model(c.actuals@), named),
    decreases *c, 0int,
{
    let ghost em = exprs_model(c.actuals@);
    proof {
        crate::ast::lemma_exprs_model_len(c.actuals@);
    }
    if c.actuals.len() == 0 {
        let mut s = String::new();
        s.append("()");
        return s;
    }
    proof {
        assert(decreases_to!(*c => c.actuals@[0]));
        crate::ast::lemma_exprs_model_index(c.actuals@, 0);
        crate::ast::lemma_exprs_model_subrange(c.actuals@, 1);
    }
    let mut s = literal_string("(");
    s.append(c.actuals[0].unparse(named).as_str());
    proof {
        reveal_strlit(")");
        assert(em.subrange(0, 1).len() == 1);
        assert(spec_expr_list(em.subrange(0, 1), named) =~= "("@ + spec_unparse_expr(
            em[0],
            named,
        ) + ")"@);
        assert(s@ =~= spec_expr_list(em.subrange(0, 1), named).drop_last());
    }
    let mut i: usize = 1;
    while i < c.actuals.len()
        invariant
            1 <= i <= c.actuals@.len(),
            em == exprs_model(c.actuals@),
            em.len() == c.actuals@.len(),
            s@ == spec_expr_list(em.subrange(0, i as int), named).drop_last(),
        decreases c.actuals@.len() - i,
    {
        proof {
            assert(decreases_to!(*c => c.actuals@[i as int]));
            crate::ast::lemma_exprs_model_index(c.actuals@, i as int);
            crate::ast::lemma_exprs_model_subrange(c.actuals@, i as int + 1);
            crate::ast::lemma_exprs_model_subrange(c.actuals@, i as int);
            assert(em.subrange(0, i as int + 1).drop_last() =~= em.subrange(0, i as int));
            assert(em.subrange(0, i as int + 1).last() == em[i as int]);
        }
        s.append(", ");
        s.append(c.actuals[i].unparse(named).as_str());
        proof {
            reveal_strlit(")");
            assert(s@ =~= spec_expr_list(em.subrange(0, i as int + 1), named).drop_last());
        }
        i = i + 1;
    }
    s.append(")");
    proof {
        reveal_strlit(")");
        assert(em.subrange(0, em.len() as int) =~= em);
        assert(s@ =~= spec_expr_list(em, named));
    }
    s
}

/// The indentation of a nested block.
fn next_indent(i: usize) -> (r: usize)
    ensures
        r == spec_next_indent(i as int),
{
    if i == usize::MAX {
        i
    } else {
        i + 1
    }
}

/// `n` tab characters.
pub fn tabs(n: usize) -> (r: String)
    ensures
        r@ == spec_tabs(n as int),
{
    let mut s = String::new();
    let mut i: usize = 0;
    while i < n
        invariant
            0 <= i <= n,
            s@ == spec_tabs(i as int),
        decreases n - i,
    {
        s.append("\t");
        i = i + 1;
    }
    s
}

/// Renders a block: each statement on its own line, one tab deeper.
pub fn fmt_body(ss: &Vec<Statement>, named: bool, indent: usize) -> (r: String)
    ensures
        r@ == spec_unparse_body(stmts_model(ss@), named, indent as int),
    decreases ss@, 1int,
{
    let ghost sm = stmts_model(ss@);
    proof {
        crate::ast::lemma_stmts_model_len(ss@);
    }
    let mut s = literal_string("{\n");
    let ghost open_brace = s@;
    let mut i: usize = 0;
    while i < ss.len()
        invariant
            0 <= i <= ss@.len(),
            sm == stmts_model(ss@),
            sm.len() == ss@.len(),
            open_brace == "{\n"@,
            s@ == open_brace + spec_unparse_body_lines(
                stmts_model(ss@.subrange(0, i as int)),
                named,
                indent as int,
            ),
        decreases ss@.len() - i,
    {
        proof {
            assert(decreases_to!(ss@ => ss@[i as int]));
            crate::ast::lemma_stmts_model_facts(ss@, i as int);
            let q = stmts_model(ss@.subrange(0, i as int));
            let y = crate::ast::stmt_model(ss@[i as int]);
            assert(stmts_model(ss@.subrange(0, i as int + 1)).drop_last() =~= q);
            assert(stmts_model(ss@.subrange(0, i as int + 1)).last() == y);
        }
        let deeper = next_indent(indent);
        s.append(tabs(deeper).as_str());
        s.append(ss[i].unparse(named, deeper).as_str());
        s.append("\n");
        proof {
            assert(s@ =~= open_brace + spec_unparse_body_lines(
                stmts_model(ss@.subrange(0, i as int + 1)),
                named,
                indent as int,
            ));
        }
        i = i + 1;
    }
    s.append(tabs(indent).as_str());
    s.append("}");
    proof {
        assert(ss@.subrange(0, ss@.len() as int) =~= ss@);
        assert(s@ =~= spec_unparse_body(sm, named, indent as int));
    }
    s
}

impl Statement {
    /// Renders this statement for the unparse artifacts.
    pub fn unparse(&self, named: bool, indent: usize) -> (r: String)
        ensures
            r@ == spec_unparse_stmt(stmt_model(*self), named, indent as int),
        decreases *self, 2int,
    {
        match self {
            Statement::Assignment(loc, exp) => {
                let mut s = loc.unparse(named);
                s.append(" = ");
                s.append(exp.unparse(named).as_str());
                s.append(";");
                proof {
                    assert(s@ =~= spec_unparse_stmt(stmt_model(*self), named, indent as int));
                }
                s
            },
            Statement::CallExpression(x) => {
                let mut s = x.unparse(named);
                s.append(";");
                proof {
                    assert(s@ =~= spec_unparse_stmt(stmt_model(*self), named, indent as int));
                }
                s
            },
            Statement::Decrement(x) => {
                let mut s = x.unparse(named);
                s.append("--");
                proof {
                    assert(s@ =~= spec_unparse_stmt(stmt_model(*self), named, indent as int));
                }
                s
            },
            Statement::Exit => literal_string("today I don't feel like doing any work;"),
            Statement::Give(x) => {
                let mut s = literal_string("give ");
                s.append(x.unparse(named).as_str());
                s.append(";");
                proof {
                    assert(s@ =~= spec_unparse_stmt(stmt_model(*self), named, indent as int));
                }
                s
            },
            Statement::If(condition, body, else_body) => {
                proof {
                    assert(decreases_to!(*self => *body));
                    assert(decreases_to!(*body => body.statements@));
                    assert(decreases_to!(*self => *else_body));
                    assert(decreases_to!(*else_body => else_body.statements@));
                    crate::ast::lemma_stmts_model_len(else_body.statements@);
                }
                let mut s = literal_string("if(");
                s.append(condition.unparse(named).as_str());
                s.append(") ");
                s.append(fmt_body(&body.statements, named, indent).as_str());
                if else_body.statements.len() > 0 {
                    s.append(" else ");
                    s.append(fmt_body(&else_body.statements, named, indent).as_str());
                }
                proof {
                    assert(s@ =~= spec_unparse_stmt(stmt_model(*self), named, indent as int));
                }
                s
            },
            Statement::Increment(x) => {
                let mut s = x.unparse(named);
                s.append("++");
                proof {
                    assert(s@ =~= spec_unparse_stmt(stmt_model(*self), named, indent as int));
                }
                s
            },
            Statement::Return(x, _) => {
                match x {
                    Some(e) => {
                        let mut s = literal_string("return ");
                        s.append(e.unparse(named).as_str());
                        s.append(";");
                        proof {
                            assert(s@ =~= spec_unparse_stmt(
                                stmt_model(*self),
                                named,
                                indent as int,
                            ));
                        }
                        s
                    },
                    None => literal_string("return;"),
                }
            },
            Statement::Take(x) => {
                let mut s = literal_string("take ");
                s.append(x.unparse(named).as_str());
                s.append(";");
                proof {
                    assert(s@ =~= spec_unparse_stmt(stmt_model(*self), named, indent as int));
                }
                s
            },
            Statement::VariableDeclaration(x) => x.unparse(named, indent),
            Statement::While(condition, body) => {
                proof {
                    assert(decreases_to!(*self => *body));
                    assert(decreases_to!(*body => body.statements@));
                }
                let mut s = literal_string("while(");
                s.append(condition.unparse(named).as_str());
                s.append(") ");
                s.append(fmt_body(&body.statements, named, indent).as_str());
                proof {
                    assert(s@ =~= spec_unparse_stmt(stmt_model(*self), named, indent as int));
                }
                s
            },
        }
    }
}

/// Renders the parenthesized, comma-separated formal list of a function.
pub fn fmt_formal_list(formals: &Vec<Formal>, named: bool) -> (r: String)
    ensures
        r@ == spec_formal_list(formals_model(formals@), named),
{
    let ghost fm = formals_model(formals@);
    proof {
        crate::ast::lemma_formals_model_len(formals@);
    }
    if formals.len() == 0 {
        let mut s = String::new();
        s.append("()");
        return s;
    }
    let mut s = literal_string("(");
    s.append(unparse_formal(&formals[0], named).as_str());
    proof {
        reveal_strlit(")");
        crate::ast::lemma_formals_model_index(formals@, 0);
        assert(fm.subrange(0, 1).len() == 1);
        assert(spec_formal_list(fm.subrange(0, 1), named) =~= "("@ + spec_unparse_formal(
            fm[0],
            named,
        ) + ")"@);
        assert(s@ =~= spec_formal_list(fm.subrange(0, 1), named).drop_last());
    }
    let mut i: usize = 1;
    while i < formals.len()
        invariant
            1 <= i <= formals@.len(),
            fm == formals_model(formals@),
            fm.len() == formals@.len(),
            s@ == spec_formal_list(fm.subrange(0, i as int), named).drop_last(),
        decreases formals@.len() - i,
    {
        proof {
            crate::ast::lemma_formals_model_index(formals@, i as int);
            assert(fm.subrange(0, i as int + 1).drop_last() =~= fm.subrange(0, i as int));
            assert(fm.subrange(0, i as int + 1).last() == fm[i as int]);
        }
        s.append(", ");
        s.append(unparse_formal(&formals[i], named).as_str());
        proof {
            reveal_strlit(")");
            assert(s@ =~= spec_formal_list(fm.subrange(0, i as int + 1), named).drop_last());
        }
        i = i + 1;
    }
    s.append(")");
    proof {
        reveal_strlit(")");
        assert(fm.subrange(0, fm.len() as int) =~= fm);
        assert(s@ =~= spec_formal_list(fm, named));
    }
    s
}

/// Renders one formal as `name : type`.
pub fn unparse_formal(f: &Formal, named: bool) -> (r: String)
    ensures
        r@ == spec_unparse_formal(formal_model(*f), named),
{
    let mut s = unparse_id(&f.id.name, &f.t, named);
    s.append(" : ");
    s.append(f.t.to_text().as_str());
    proof {
        assert(s@ =~= spec_unparse_formal(formal_model(*f), named));
    }
    s
}

impl Declaration {
    /// Renders this declaration for the unparse artifacts.
    pub fn unparse(&self, named: bool, indent: usize) -> (r: String)
        ensures
            r@ == spec_unparse_decl(decl_model(*self), named, indent as int),
        decreases *self, 1int,
    {
        match self {
            Declaration::Class(c) => {
                proof {
                    assert(decreases_to!(*self => *c));
                }
                c.unparse(named, indent)
            },
            Declaration::Function(f) => {
                proof {
                    assert(decreases_to!(*self => *f));
                    assert(decreases_to!(*f => f.body@));
                }
                let mut s = unparse_fn(&f.id.name, &f.fn_input, &f.fn_output, named);
                s.append(" : ");
                s.append(fmt_formal_list(&f.fn_input, named).as_str());
                s.append(" ");
                s.append(f.fn_output.to_text().as_str());
                s.append(" ");
                s.append(fmt_body(&f.body, named, indent).as_str());
                proof {
                    assert(s@ =~= spec_unparse_decl(decl_model(*self), named, indent as int));
                }
                s
            },
            Declaration::Variable(v) => {
                let mut s = unparse_id(&v.name.name, &v.t, named);
                s.append(" : ");
                s.append(v.t.to_text().as_str());
                match &v.assignment {
                    Some(a) => {
                        s.append(" = ");
                        s.append(a.unparse(named).as_str());
                        s.append(";");
                    },
                    None => {
                        s.append(";");
                    },
                }
                proof {
                    assert(s@ =~= spec_unparse_decl(decl_model(*self), named, indent as int));
                }
                s
            },
        }
    }
}

impl Class {
    /// Renders this class declaration.
    pub fn unparse(&self, named: bool, indent: usize) -> (r: String)
        ensures
            r@ == spec_unparse_decl(
                model::Declaration::Class(crate::ast::class_model(*self)),
                named,
                indent as int,
            ),
        decreases *self, 0int,
    {
        let class_type = Type::Class(self.id.clone(), self.id.source_position);
        let mut s = unparse_id(&self.id.name, &class_type, named);
        s.append(" : class ");
        let ghost dm = decls_model(self.body@);
        proof {
            crate::ast::lemma_decls_model_len(self.body@);
        }
        let mut body = literal_string("{\n");
        let ghost open_brace = body@;
        let mut i: usize = 0;
        while i < self.body.len()
            invariant
                0 <= i <= self.body@.len(),
                dm == decls_model(self.body@),
                dm.len() == self.body@.len(),
                open_brace == "{\n"@,
                body@ == open_brace + spec_unparse_class_lines(
                    decls_model(self.body@.subrange(0, i as int)),
                    named,
                    indent as int,
                ),
            decreases self.body@.len() - i,
        {
            proof {
                assert(decreases_to!(*self => self.body@[i as int]));
                crate::ast::lemma_decls_model_facts(self.body@, i as int);
                let q = decls_model(self.body@.subrange(0, i as int));
                let y = decl_model(self.body@[i as int]);
                assert(decls_model(self.body@.subrange(0, i as int + 1)).drop_last() =~= q);
                assert(decls_model(self.body@.subrange(0, i as int + 1)).last() == y);
            }
            let deeper = next_indent(indent);
            body.append(tabs(deeper).as_str());
            body.append(self.body[i].unparse(named, deeper).as_str());
            body.append("\n");
            proof {
                assert(body@ =~= open_brace + spec_unparse_class_lines(
                    decls_model(self.body@.subrange(0, i as int + 1)),
                    named,
                    indent as int,
                ));
            }
            i = i + 1;
        }
        body.append(tabs(indent).as_str());
        body.append("}");
        s.append(body.as_str());
        s.append(";");
        proof {
            assert(self.body@.subrange(0, self.body@.len() as int) =~= self.body@);
            assert(body@ =~= spec_unparse_class_body(dm, named, indent as int));
            assert(s@ =~= spec_unparse_decl(
                model::Declaration::Class(crate::ast::class_model(*self)),
                named,
                indent as int,
            ));
        }
        s
    }
}

/// Renders a whole program, one declaration per line.
pub fn unparse(program: &Vec<Declaration>, named: bool) -> (r: String)
    ensures
        r@ == spec_unparse_program(decls_model(program@), named),
{
    let ghost dm = decls_model(program@);
    proof {
        crate::ast::lemma_decls_model_len(program@);
    }
    let mut s = String::new();
    let mut i: usize = 0;
    while i < program.len()
        invariant
            0 <= i <= program@.len(),
            dm == decls_model(program@),
            dm.len() == program@.len(),
            s@ == spec_unparse_program(decls_model(program@.subrange(0, i as int)), named),
        decreases program@.len() - i,
    {
        proof {
            crate::ast::lemma_decls_model_facts(program@, i as int);
            let q = decls_model(program@.subrange(0, i as int));
            let y = decl_model(program@[i as int]);
            assert(decls_model(program@.subrange(0, i as int + 1)).drop_last() =~= q);
            assert(decls_model(program@.subrange(0, i as int + 1)).last() == y);
        }
        s.append(program[i].unparse(named, 0).as_str());
        s.append("\n");
        proof {
            assert(s@ =~= spec_unparse_program(
                decls_model(program@.subrange(0, i as int + 1)),
                named,
            ));
        }
        i = i + 1;
    }
    proof {
        assert(program@.subrange(0, program@.len() as int) =~= program@);
    }
    s
}

} // verus!
