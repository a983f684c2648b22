//! Name analysis: walks the tree, binds every identifier use to a
//! symbol-table entry, and rebuilds the tree with those annotations.
//!
//! Each `na_*` spec function states exactly what the corresponding pass
//! function produces: the annotated node on success, the first error on
//! failure, and the symbol table as it stands when the walk stops.

use crate::ast::{
    call_model, entry_model, expr_model, exprs_model, id_model, location_model, Body,
    CallExpression, Class, Declaration, Expression, Formal, Function, Location, Primitive,
    Statement, Type, VariableDeclaration,
};
use crate::error::{CompileError, ErrorKind};
use crate::model;
use crate::symbol_table::{
    spec_get_class_member, spec_is_local, spec_link, st_model, st_wf, Entry, SymbolTable,
};
use vstd::prelude::*;

verus! {

/// What resolving one link yields: a class-member lookup when an enclosing
/// class entry is present, a plain scope-stack lookup otherwise.
pub open spec fn na_resolve_link(
    l: model::Location,
    enclosing: Option<model::Entry>,
    m: model::SymbolTable,
) -> Result<model::Entry, CompileError> {
    match enclosing {
        Option::Some(class) => spec_get_class_member(m, class, l.current_link, l.source_position),
        Option::None => match spec_link(m, l.current_link) {
            Option::Some(e) => Result::Ok(e),
            Option::None => Result::Err(
                CompileError {
                    kind: ErrorKind::UndeclaredIdentifier,
                    pos: l.source_position,
                },
            ),
        },
    }
}

/// Name analysis of a dotted chain: resolves each link in turn, stores the
/// entry and locality flag on the link, and hands the entry to the next link
/// as its enclosing class.
pub open spec fn na_location(
    l: model::Location,
    enclosing: Option<model::Entry>,
    m: model::SymbolTable,
) -> Result<model::Location, CompileError>
    decreases l,
{
    match na_resolve_link(l, enclosing, m) {
        Result::Err(e) => Result::Err(e),
        Result::Ok(entry) => {
            let is_local = spec_is_local(m, l.current_link);
            match l.next_link {
                Option::None => Result::Ok(
                    model::Location {
                        enclosing_class: enclosing,
                        symbol_table_entry: Option::Some(entry),
                        is_local: Option::Some(is_local),
                        ..l
                    },
                ),
                Option::Some(next) => match na_location(*next, Option::Some(entry), m) {
                    Result::Err(e) => Result::Err(e),
                    Result::Ok(n2) => Result::Ok(
                        model::Location {
                            enclosing_class: enclosing,
                            symbol_table_entry: Option::Some(entry),
                            is_local: Option::Some(is_local),
                            next_link: Option::Some(Box::new(n2)),
                            ..l
                        },
                    ),
                },
            }
        },
    }
}

/// Name analysis of an expression: resolves every location and call in it.
/// Expressions declare nothing, so the table is read only.
pub open spec fn na_expression(e: model::Expression, m: model::SymbolTable) -> Result<
    model::Expression,
    CompileError,
>
    decreases e,
{
    match e {
        model::Expression::Add(a, c) => na_combine(e, na_expression(*a, m), na_expression(*c, m)),
        model::Expression::And(a, c) => na_combine(e, na_expression(*a, m), na_expression(*c, m)),
        model::Expression::CallExpression(c) => match na_call(c, m) {
            Result::Err(err) => Result::Err(err),
            Result::Ok(c2) => Result::Ok(model::Expression::CallExpression(c2)),
        },
        model::Expression::Divide(a, c) => na_combine(e, na_expression(*a, m), na_expression(*c, m)),
        model::Expression::Equals(a, c) => na_combine(e, na_expression(*a, m), na_expression(*c, m)),
        model::Expression::False(_) => Result::Ok(e),
        model::Expression::Greater(a, c) => na_combine(e, na_expression(*a, m), na_expression(*c, m)),
        model::Expression::GreaterEq(a, c) => na_combine(e, na_expression(*a, m), na_expression(*c, m)),
        model::Expression::IntegerLiteral(_, _) => Result::Ok(e),
        model::Expression::Less(a, c) => na_combine(e, na_expression(*a, m), na_expression(*c, m)),
        model::Expression::LessEq(a, c) => na_combine(e, na_expression(*a, m), na_expression(*c, m)),
        model::Expression::Location(l) => match na_location(l, Option::None, m) {
            Result::Err(err) => Result::Err(err),
            Result::Ok(l2) => Result::Ok(model::Expression::Location(l2)),
        },
        model::Expression::Magic(_) => Result::Ok(e),
        model::Expression::Multiply(a, c) => na_combine(e, na_expression(*a, m), na_expression(*c, m)),
        model::Expression::Negative(a) => match na_expression(*a, m) {
            Result::Err(err) => Result::Err(err),
            Result::Ok(a2) => Result::Ok(model::Expression::Negative(Box::new(a2))),
        },
        model::Expression::Not(a) => match na_expression(*a, m) {
            Result::Err(err) => Result::Err(err),
            Result::Ok(a2) => Result::Ok(model::Expression::Not(Box::new(a2))),
        },
        model::Expression::NotEquals(a, c) => na_combine(e, na_expression(*a, m), na_expression(*c, m)),
        model::Expression::Or(a, c) => na_combine(e, na_expression(*a, m), na_expression(*c, m)),
        model::Expression::StringLiteral(_, _) => Result::Ok(e),
        model::Expression::Subtract(a, c) => na_combine(e, na_expression(*a, m), na_expression(*c, m)),
        model::Expression::True(_) => Result::Ok(e),
    }
}

/// Combining the analyses of the two operands of a binary expression: the
/// left operand's error wins, then the right's, else the operator is rebuilt
/// around the results.
pub open spec fn na_combine(
    e: model::Expression,
    ra: Result<model::Expression, CompileError>,
    rc: Result<model::Expression, CompileError>,
) -> Result<model::Expression, CompileError> {
    match ra {
        Result::Err(err) => Result::Err(err),
        Result::Ok(a2) => match rc {
            Result::Err(err) => Result::Err(err),
            Result::Ok(c2) => Result::Ok(na_rebuild_operator(e, a2, c2)),
        },
    }
}

/// The same binary operator as `e`, around new operands.
pub open spec fn na_rebuild_operator(
    e: model::Expression,
    a: model::Expression,
    c: model::Expression,
) -> model::Expression {
    match e {
        model::Expression::Add(_, _) => model::Expression::Add(Box::new(a), Box::new(c)),
        model::Expression::And(_, _) => model::Expression::And(Box::new(a), Box::new(c)),
        model::Expression::Divide(_, _) => model::Expression::Divide(Box::new(a), Box::new(c)),
        model::Expression::Equals(_, _) => model::Expression::Equals(Box::new(a), Box::new(c)),
        model::Expression::Greater(_, _) => model::Expression::Greater(Box::new(a), Box::new(c)),
        model::Expression::GreaterEq(_, _) => model::Expression::GreaterEq(
            Box::new(a),
            Box::new(c),
        ),
        model::Expression::Less(_, _) => model::Expression::Less(Box::new(a), Box::new(c)),
        model::Expression::LessEq(_, _) => model::Expression::LessEq(Box::new(a), Box::new(c)),
        model::Expression::Multiply(_, _) => model::Expression::Multiply(Box::new(a), Box::new(c)),
        model::Expression::NotEquals(_, _) => model::Expression::NotEquals(
            Box::new(a),
            Box::new(c),
        ),
        model::Expression::Or(_, _) => model::Expression::Or(Box::new(a), Box::new(c)),
        _ => model::Expression::Subtract(Box::new(a), Box::new(c)),
    }
}

/// Name analysis of a call: the callee chain first, then each actual in
/// order.
pub open spec fn na_call(c: model::CallExpression, m: model::SymbolTable) -> Result<
    model::CallExpression,
    CompileError,
>
    decreases c,
{
    match na_location(c.location, Option::None, m) {
        Result::Err(err) => Result::Err(err),
        Result::Ok(l2) => match na_exprs(c.actuals, m) {
            Result::Err(err) => Result::Err(err),
            Result::Ok(a2) => Result::Ok(
                model::CallExpression {
                    location: l2,
                    actuals: a2,
                    source_position: c.source_position,
                },
            ),
        },
    }
}

/// Name analysis of an expression list, left to right, stopping at the first
/// error.
pub open spec fn na_exprs(s: Seq<model::Expression>, m: model::SymbolTable) -> Result<
    Seq<model::Expression>,
    CompileError,
>
    decreases s,
{
    if s.len() == 0 {
        Result::Ok(Seq::empty())
    } else {
        match na_exprs(s.drop_last(), m) {
            Result::Err(err) => Result::Err(err),
            Result::Ok(rs) => match na_expression(s.last(), m) {
                Result::Err(err) => Result::Err(err),
                Result::Ok(e2) => Result::Ok(rs.push(e2)),
            },
        }
    }
}

/// An error in a prefix of an expression list is the error of the whole
/// list.
proof fn lemma_na_exprs_err(s: Seq<model::Expression>, i: int, m: model::SymbolTable)
    requires
        0 <= i <= s.len(),
        na_exprs(s.subrange(0, i), m) is Err,
    ensures
        na_exprs(s, m) == na_exprs(s.subrange(0, i), m),
    decreases s.len() - i,
{
    if i == s.len() {
        assert(s.subrange(0, i) =~= s);
    } else {
        assert(s.subrange(0, i + 1).drop_last() =~= s.subrange(0, i));
        lemma_na_exprs_err(s, i + 1, m);
    }
}

/// Resolves one link against the table.
fn resolve_link(
    l: &Location,
    enclosing: &Option<Entry>,
    st: &SymbolTable,
) -> (r: Result<Entry, CompileError>)
    requires
        st_wf(st_model(*st)),
    ensures
        match r {
            Result::Ok(e) => na_resolve_link(
                location_model(*l),
                match *enclosing {
                    Option::Some(c) => Option::Some(entry_model(c)),
                    Option::None => Option::None,
                },
                st_model(*st),
            ) == Result::<model::Entry, CompileError>::Ok(entry_model(e)),
            Result::Err(e) => na_resolve_link(
                location_model(*l),
                match *enclosing {
                    Option::Some(c) => Option::Some(entry_model(c)),
                    Option::None => Option::None,
                },
                st_model(*st),
            ) == Result::<model::Entry, CompileError>::Err(e),
        },
{
    match enclosing {
        Some(class) => st.get_class_member(class, &l.current_link, l.source_position),
        None => st.link(&l.current_link, l.source_position),
    }
}

/// Walks a dotted chain, binding each link.
pub fn analyze_location(
    l: &Location,
    enclosing: Option<Entry>,
    st: &SymbolTable,
) -> (r: Result<Location, CompileError>)
    requires
        st_wf(st_model(*st)),
    ensures
        match r {
            Result::Ok(l2) => na_location(
                location_model(*l),
                match enclosing {
                    Option::Some(c) => Option::Some(entry_model(c)),
                    Option::None => Option::None,
                },
                st_model(*st),
            ) == Result::<model::Location, CompileError>::Ok(location_model(l2)),
            Result::Err(e) => na_location(
                location_model(*l),
                match enclosing {
                    Option::Some(c) => Option::Some(entry_model(c)),
                    Option::None => Option::None,
                },
                st_model(*st),
            ) == Result::<model::Location, CompileError>::Err(e),
        },
    decreases *l,
{
    let entry = match resolve_link(l, &enclosing, st) {
        Ok(e) => e,
        Err(e) => {
            return Err(e);
        },
    };
    let loc_is_local = st.is_local(&l.current_link);
    match &l.next_link {
        None => Ok(
            Location {
                current_link: l.current_link.clone(),
                source_position: l.source_position,
                enclosing_class: enclosing,
                next_link: None,
                symbol_table_entry: Some(entry),
                is_local: Some(loc_is_local),
            },
        ),
        Some(next) => {
            let entry_for_next = entry.clone();
            match analyze_location(next, Some(entry_for_next), st) {
                Err(e) => Err(e),
                Ok(n2) => Ok(
                    Location {
                        current_link: l.current_link.clone(),
                        source_position: l.source_position,
                        enclosing_class: enclosing,
                        next_link: Some(Box::new(n2)),
                        symbol_table_entry: Some(entry),
                        is_local: Some(loc_is_local),
                    },
                ),
            }
        },
    }
}

/// Walks an expression, binding every identifier use in it.
pub fn analyze_expression(e: &Expression, st: &SymbolTable) -> (r: Result<
    Expression,
    CompileError,
>)
    requires
        st_wf(st_model(*st)),
    ensures
        match r {
            Result::Ok(e2) => na_expression(expr_model(*e), st_model(*st)) == Result::<
                model::Expression,
                CompileError,
            >::Ok(expr_model(e2)),
            Result::Err(err) => na_expression(expr_model(*e), st_model(*st)) == Result::<
                model::Expression,
                CompileError,
            >::Err(err),
        },
    decreases *e,
{
    match e {
        Expression::Add(a, c)
        | Expression::And(a, c)
        | Expression::Divide(a, c)
        | Expression::Equals(a, c)
        | Expression::Greater(a, c)
        | Expression::GreaterEq(a, c)
        | Expression::Less(a, c)
        | Expression::LessEq(a, c)
        | Expression::Multiply(a, c)
        | Expression::NotEquals(a, c)
        | Expression::Or(a, c)
        | Expression::Subtract(a, c) => {
            let a2 = match analyze_expression(a, st) {
                Ok(a2) => a2,
                Err(err) => {
                    return Err(err);
                },
            };
            let c2 = match analyze_expression(c, st) {
                Ok(c2) => c2,
                Err(err) => {
                    return Err(err);
                },
            };
            let r = rebuild_operator(e, a2, c2);
            proof {
                assert(na_expression(expr_model(*e), st_model(*st)) == Result::<
                    model::Expression,
                    CompileError,
                >::Ok(expr_model(r)));
            }
            Ok(r)
        },
        Expression::CallExpression(c) => {
            match analyze_call(c, st) {
                Err(err) => {
                    proof {
                        assert(na_expression(expr_model(*e), st_model(*st)) == Result::<
                            model::Expression,
                            CompileError,
                        >::Err(err));
                    }
                    Err(err)
                },
                Ok(c2) => {
                    let r = Expression::CallExpression(c2);
                    proof {
                        assert(na_expression(expr_model(*e), st_model(*st)) == Result::<
                            model::Expression,
                            CompileError,
                        >::Ok(expr_model(r)));
                    }
                    Ok(r)
                },
            }
        },
        Expression::False(p) => Ok(Expression::False(*p)),
        Expression::IntegerLiteral(v, p) => Ok(Expression::IntegerLiteral(*v, *p)),
        Expression::Location(l) => {
            match analyze_location(l, None, st) {
                Err(err) => {
                    proof {
                        assert(na_expression(expr_model(*e), st_model(*st)) == Result::<
                            model::Expression,
                            CompileError,
                        >::Err(err));
                    }
                    Err(err)
                },
                Ok(l2) => {
                    let r = Expression::Location(l2);
                    proof {
                        assert(na_expression(expr_model(*e), st_model(*st)) == Result::<
                            model::Expression,
                            CompileError,
                        >::Ok(expr_model(r)));
                    }
                    Ok(r)
                },
            }
        },
        Expression::Magic(p) => Ok(Expression::Magic(*p)),
        Expression::Negative(a) => {
            match analyze_expression(a, st) {
                Err(err) => Err(err),
                Ok(a2) => Ok(Expression::Negative(Box::new(a2))),
            }
        },
        Expression::Not(a) => {
            match analyze_expression(a, st) {
                Err(err) => Err(err),
                Ok(a2) => Ok(Expression::Not(Box::new(a2))),
            }
        },
        Expression::StringLiteral(s, p) => Ok(Expression::StringLiteral(s.clone(), *p)),
        Expression::True(p) => Ok(Expression::True(*p)),
    }
}

/// The same binary operator as `e`, around new operands.
fn rebuild_operator(e: &Expression, a: Expression, c: Expression) -> (r: Expression)
    requires
        crate::ast::spec_has_subexpression(expr_model(*e)),
        !(expr_model(*e) is CallExpression),
        !(expr_model(*e) is Negative),
        !(expr_model(*e) is Not),
    ensures
        expr_model(r) == na_rebuild_operator(expr_model(*e), expr_model(a), expr_model(c)),
{
    match e {
        Expression::Add(_, _) => Expression::Add(Box::new(a), Box::new(c)),
        Expression::And(_, _) => Expression::And(Box::new(a), Box::new(c)),
        Expression::Divide(_, _) => Expression::Divide(Box::new(a), Box::new(c)),
        Expression::Equals(_, _) => Expression::Equals(Box::new(a), Box::new(c)),
        Expression::Greater(_, _) => Expression::Greater(Box::new(a), Box::new(c)),
        Expression::GreaterEq(_, _) => Expression::GreaterEq(Box::new(a), Box::new(c)),
        Expression::Less(_, _) => Expression::Less(Box::new(a), Box::new(c)),
        Expression::LessEq(_, _) => Expression::LessEq(Box::new(a), Box::new(c)),
        Expression::Multiply(_, _) => Expression::Multiply(Box::new(a), Box::new(c)),
        Expression::NotEquals(_, _) => Expression::NotEquals(Box::new(a), Box::new(c)),
        Expression::Or(_, _) => Expression::Or(Box::new(a), Box::new(c)),
        _ => Expression::Subtract(Box::new(a), Box::new(c)),
    }
}

/// Walks a call, binding the callee chain and every actual.
pub fn analyze_call(c: &CallExpression, st: &SymbolTable) -> (r: Result<
    CallExpression,
    CompileError,
>)
    requires
        st_wf(st_model(*st)),
    ensures
        match r {
            Result::Ok(c2) => na_call(call_model(*c), st_model(*st)) == Result::<
                model::CallExpression,
                CompileError,
            >::Ok(call_model(c2)),
            Result::Err(err) => na_call(call_model(*c), st_model(*st)) == Result::<
                model::CallExpression,
                CompileError,
            >::Err(err),
        },
    decreases *c,
{
    let l2 = match analyze_location(&c.location, None, st) {
        Ok(l2) => l2,
        Err(err) => {
            return Err(err);
        },
    };
    let mut actuals: Vec<Expression> = Vec::new();
    let mut i: usize = 0;
    while i < c.actuals.len()
        invariant
            st_wf(st_model(*st)),
            0 <= i <= c.actuals@.len(),
            na_location(location_model(c.location), Option::None, st_model(*st)) == Result::<
                model::Location,
                CompileError,
            >::Ok(location_model(l2)),
            na_exprs(exprs_model(c.actuals@.subrange(0, i as int)), st_model(*st)) == Result::<
                Seq<model::Expression>,
                CompileError,
            >::Ok(exprs_model(actuals@)),
        decreases c.actuals@.len() - i,
    {
        proof {
            assert(decreases_to!(*c => c.actuals@[i as int]));
        }
        let e2 = match analyze_expression(&c.actuals[i], st) {
            Ok(e2) => e2,
            Err(err) => {
                proof {
                    let full = exprs_model(c.actuals@);
                    crate::ast::lemma_exprs_model_len(c.actuals@);
                    crate::ast::lemma_exprs_model_prefix(c.actuals@, i as int);
                    crate::ast::lemma_exprs_model_subrange(c.actuals@, i as int + 1);
                    crate::ast::lemma_exprs_model_subrange(c.actuals@, i as int);
                    assert(na_exprs(full.subrange(0, i as int + 1), st_model(*st)) is Err);
                    lemma_na_exprs_err(full, i as int + 1, st_model(*st));
                    assert(call_model(*c).actuals == full);
                    assert(call_model(*c).location == location_model(c.location));
                    assert(na_exprs(full, st_model(*st)) == Result::<
                        Seq<model::Expression>,
                        CompileError,
                    >::Err(err));
                }
                return Err(err);
            },
        };
        let ghost prev = actuals@;
        actuals.push(e2);
        proof {
            crate::ast::lemma_exprs_model_prefix(c.actuals@, i as int);
            assert(actuals@.drop_last() =~= prev);
            assert(exprs_model(actuals@) == exprs_model(prev).push(expr_model(actuals@.last())));
        }
        i = i + 1;
    }
    proof {
        assert(c.actuals@.subrange(0, c.actuals@.len() as int) =~= c.actuals@);
    }
    Ok(
        CallExpression {
            location: l2,
            actuals,
            source_position: c.source_position,
        },
    )
}





/// The model of the table that `analyze` starts from: one empty global scope.
pub open spec fn na_fresh_table() -> model::SymbolTable {
    model::SymbolTable { arena: seq![Seq::empty()], table: seq![0int] }
}

/// Name analysis of a formal parameter: binds it as a variable in the
/// current scope.
pub open spec fn na_formal(f: model::Formal, m: model::SymbolTable) -> (
    Result<model::Formal, CompileError>,
    model::SymbolTable,
) {
    let (m1, r) = crate::symbol_table::spec_add(
        m,
        f.id.name,
        model::Entry::Variable(f.t),
        f.id.source_position,
    );
    match r {
        Result::Ok(()) => (Result::Ok(f), m1),
        Result::Err(e) => (Result::Err(e), m1),
    }
}

/// Name analysis of a formal-parameter list, left to right, stopping at the
/// first error.
pub open spec fn na_formals(fs: Seq<model::Formal>, m: model::SymbolTable) -> (
    Result<Seq<model::Formal>, CompileError>,
    model::SymbolTable,
)
    decreases fs,
{
    if fs.len() == 0 {
        (Result::Ok(Seq::empty()), m)
    } else {
        let (r1, m1) = na_formals(fs.drop_last(), m);
        match r1 {
            Result::Err(e) => (Result::Err(e), m1),
            Result::Ok(rs) => {
                let (r2, m2) = na_formal(fs.last(), m1);
                match r2 {
                    Result::Err(e) => (Result::Err(e), m2),
                    Result::Ok(f2) => (Result::Ok(rs.push(f2)), m2),
                }
            },
        }
    }
}

/// Name analysis of a variable declaration: the initializer is analyzed
/// first, then the declared name is bound. A void type is rejected; a class
/// type must resolve to a class entry.
pub open spec fn na_vardecl(v: model::VariableDeclaration, m: model::SymbolTable) -> (
    Result<model::VariableDeclaration, CompileError>,
    model::SymbolTable,
)
    decreases v,
{
    let ra = match v.assignment {
        Option::Some(e) => match na_expression(e, m) {
            Result::Err(err) => Result::Err(err),
            Result::Ok(e2) => Result::Ok(Option::Some(e2)),
        },
        Option::None => Result::Ok(Option::None),
    };
    match ra {
        Result::Err(err) => (Result::Err(err), m),
        Result::Ok(a2) => {
            let v2 = model::VariableDeclaration { assignment: a2, ..v };
            match v.t {
                model::Type::Primitive(p, tpos) | model::Type::PerfectPrimitive(p, tpos) => {
                    if p is Void {
                        (
                            Result::Err(
                                CompileError {
                                    kind: ErrorKind::InvalidTypeInDeclaration,
                                    pos: v.name.source_position,
                                },
                            ),
                            m,
                        )
                    } else {
                        let (m1, r) = crate::symbol_table::spec_add(
                            m,
                            v.name.name,
                            model::Entry::Variable(v.t),
                            tpos,
                        );
                        match r {
                            Result::Ok(()) => (Result::Ok(v2), m1),
                            Result::Err(e) => (Result::Err(e), m1),
                        }
                    }
                },
                model::Type::Class(_, _) | model::Type::PerfectClass(_, _) => {
                    match spec_link(m, crate::ast::spec_type_text(v.t)) {
                        Option::Some(model::Entry::Class(_)) => {
                            let (m1, r) = crate::symbol_table::spec_add(
                                m,
                                v.name.name,
                                model::Entry::Variable(v.t),
                                v.name.source_position,
                            );
                            match r {
                                Result::Ok(()) => (Result::Ok(v2), m1),
                                Result::Err(e) => (Result::Err(e), m1),
                            }
                        },
                        Option::Some(_) => (
                            Result::Err(
                                CompileError {
                                    kind: ErrorKind::InvalidTypeInDeclaration,
                                    pos: v.name.source_position,
                                },
                            ),
                            m,
                        ),
                        Option::None => (
                            Result::Err(
                                CompileError {
                                    kind: ErrorKind::InvalidTypeInDeclaration,
                                    pos: v.name.source_position,
                                },
                            ),
                            m,
                        ),
                    }
                },
            }
        },
    }
}

/// Name analysis of a block: a fresh scope around its statements.
pub open spec fn na_body(b: model::Body, m: model::SymbolTable) -> (
    Result<model::Body, CompileError>,
    model::SymbolTable,
)
    decreases b,
{
    let m1 = crate::symbol_table::spec_enter_scope(m);
    let (r, m2) = na_stmts(b.statements, m1);
    match r {
        Result::Err(e) => (Result::Err(e), m2),
        Result::Ok(ss) => (
            Result::Ok(model::Body { statements: ss }),
            crate::symbol_table::spec_exit_scope(m2),
        ),
    }
}

/// Name analysis of one statement.
pub open spec fn na_statement(s: model::Statement, m: model::SymbolTable) -> (
    Result<model::Statement, CompileError>,
    model::SymbolTable,
)
    decreases s,
{
    match s {
        model::Statement::Assignment(l, e) => match na_location(l, Option::None, m) {
            Result::Err(err) => (Result::Err(err), m),
            Result::Ok(l2) => match na_expression(e, m) {
                Result::Err(err) => (Result::Err(err), m),
                Result::Ok(e2) => (Result::Ok(model::Statement::Assignment(l2, e2)), m),
            },
        },
        model::Statement::CallExpression(c) => match na_call(c, m) {
            Result::Err(err) => (Result::Err(err), m),
            Result::Ok(c2) => (Result::Ok(model::Statement::CallExpression(c2)), m),
        },
        model::Statement::Decrement(l) => match na_location(l, Option::None, m) {
            Result::Err(err) => (Result::Err(err), m),
            Result::Ok(l2) => (Result::Ok(model::Statement::Decrement(l2)), m),
        },
        model::Statement::Exit => (Result::Ok(s), m),
        model::Statement::Give(e) => match na_expression(e, m) {
            Result::Err(err) => (Result::Err(err), m),
            Result::Ok(e2) => (Result::Ok(model::Statement::Give(e2)), m),
        },
        model::Statement::If(cond, b1, b2) => match na_expression(cond, m) {
            Result::Err(err) => (Result::Err(err), m),
            Result::Ok(c2) => {
                let (r1, m1) = na_body(b1, m);
                match r1 {
                    Result::Err(err) => (Result::Err(err), m1),
                    Result::Ok(t2) => {
                        let (r2, m2) = na_body(b2, m1);
                        match r2 {
                            Result::Err(err) => (Result::Err(err), m2),
                            Result::Ok(f2) => (
                                Result::Ok(model::Statement::If(c2, t2, f2)),
                                m2,
                            ),
                        }
                    },
                }
            },
        },
        model::Statement::Increment(l) => match na_location(l, Option::None, m) {
            Result::Err(err) => (Result::Err(err), m),
            Result::Ok(l2) => (Result::Ok(model::Statement::Increment(l2)), m),
        },
        model::Statement::Return(x, p) => match x {
            Option::None => (Result::Ok(s), m),
            Option::Some(e) => match na_expression(e, m) {
                Result::Err(err) => (Result::Err(err), m),
                Result::Ok(e2) => (
                    Result::Ok(model::Statement::Return(Option::Some(e2), p)),
                    m,
                ),
            },
        },
        model::Statement::Take(l) => match na_location(l, Option::None, m) {
            Result::Err(err) => (Result::Err(err), m),
            Result::Ok(l2) => (Result::Ok(model::Statement::Take(l2)), m),
        },
        model::Statement::VariableDeclaration(d) => {
            let (r, m1) = na_declaration(d, m);
            match r {
                Result::Err(err) => (Result::Err(err), m1),
                Result::Ok(d2) => (Result::Ok(model::Statement::VariableDeclaration(d2)), m1),
            }
        },
        model::Statement::While(cond, b) => match na_expression(cond, m) {
            Result::Err(err) => (Result::Err(err), m),
            Result::Ok(c2) => {
                let (r1, m1) = na_body(b, m);
                match r1 {
                    Result::Err(err) => (Result::Err(err), m1),
                    Result::Ok(b2) => (Result::Ok(model::Statement::While(c2, b2)), m1),
                }
            },
        },
    }
}

/// Name analysis of a statement list, left to right, stopping at the first
/// error.
pub open spec fn na_stmts(ss: Seq<model::Statement>, m: model::SymbolTable) -> (
    Result<Seq<model::Statement>, CompileError>,
    model::SymbolTable,
)
    decreases ss,
{
    if ss.len() == 0 {
        (Result::Ok(Seq::empty()), m)
    } else {
        let (r1, m1) = na_stmts(ss.drop_last(), m);
        match r1 {
            Result::Err(e) => (Result::Err(e), m1),
            Result::Ok(rs) => {
                let (r2, m2) = na_statement(ss.last(), m1);
                match r2 {
                    Result::Err(e) => (Result::Err(e), m2),
                    Result::Ok(s2) => (Result::Ok(rs.push(s2)), m2),
                }
            },
        }
    }
}

/// Name analysis of a class declaration: binds the class, analyzes its
/// members inside the member scope, and closes that scope.
pub open spec fn na_class(c: model::Class, m: model::SymbolTable) -> (
    Result<model::Class, CompileError>,
    model::SymbolTable,
)
    decreases c,
{
    let (m1, r) = crate::symbol_table::spec_add_class(m, c.id);
    match r {
        Result::Err(e) => (Result::Err(e), m1),
        Result::Ok(()) => {
            let (r2, m2) = na_decls(c.body, m1);
            match r2 {
                Result::Err(e) => (Result::Err(e), m2),
                Result::Ok(ds) => (
                    Result::Ok(model::Class { id: c.id, body: ds }),
                    crate::symbol_table::spec_exit_scope(m2),
                ),
            }
        },
    }
}

/// Name analysis of a function declaration: binds the function, then its
/// formals and body in a fresh scope.
pub open spec fn na_function(f: model::Function, m: model::SymbolTable) -> (
    Result<model::Function, CompileError>,
    model::SymbolTable,
)
    decreases f,
{
    let (m1, r) = crate::symbol_table::spec_add(
        m,
        f.id.name,
        model::Entry::Function(f.fn_input, f.fn_output),
        f.id.source_position,
    );
    match r {
        Result::Err(e) => (Result::Err(e), m1),
        Result::Ok(()) => {
            let m2 = crate::symbol_table::spec_enter_scope(m1);
            let (r2, m3) = na_formals(f.fn_input, m2);
            match r2 {
                Result::Err(e) => (Result::Err(e), m3),
                Result::Ok(fs) => {
                    let (r3, m4) = na_stmts(f.body, m3);
                    match r3 {
                        Result::Err(e) => (Result::Err(e), m4),
                        Result::Ok(ss) => (
                            Result::Ok(
                                model::Function {
                                    id: f.id,
                                    fn_input: fs,
                                    fn_output: f.fn_output,
                                    body: ss,
                                },
                            ),
                            crate::symbol_table::spec_exit_scope(m4),
                        ),
                    }
                },
            }
        },
    }
}

/// Name analysis of one declaration.
pub open spec fn na_declaration(d: model::Declaration, m: model::SymbolTable) -> (
    Result<model::Declaration, CompileError>,
    model::SymbolTable,
)
    decreases d,
{
    match d {
        model::Declaration::Class(c) => {
            let (r, m1) = na_class(c, m);
            match r {
                Result::Err(e) => (Result::Err(e), m1),
                Result::Ok(c2) => (Result::Ok(model::Declaration::Class(c2)), m1),
            }
        },
        model::Declaration::Function(f) => {
            let (r, m1) = na_function(f, m);
            match r {
                Result::Err(e) => (Result::Err(e), m1),
                Result::Ok(f2) => (Result::Ok(model::Declaration::Function(f2)), m1),
            }
        },
        model::Declaration::Variable(v) => {
            let (r, m1) = na_vardecl(v, m);
            match r {
                Result::Err(e) => (Result::Err(e), m1),
                Result::Ok(v2) => (Result::Ok(model::Declaration::Variable(v2)), m1),
            }
        },
    }
}

/// Name analysis of a declaration list inside a class body, left to right,
/// stopping at the first error.
pub open spec fn na_decls(ds: Seq<model::Declaration>, m: model::SymbolTable) -> (
    Result<Seq<model::Declaration>, CompileError>,
    model::SymbolTable,
)
    decreases ds,
{
    if ds.len() == 0 {
        (Result::Ok(Seq::empty()), m)
    } else {
        let (r1, m1) = na_decls(ds.drop_last(), m);
        match r1 {
            Result::Err(e) => (Result::Err(e), m1),
            Result::Ok(rs) => {
                let (r2, m2) = na_declaration(ds.last(), m1);
                match r2 {
                    Result::Err(e) => (Result::Err(e), m2),
                    Result::Ok(d2) => (Result::Ok(rs.push(d2)), m2),
                }
            },
        }
    }
}

/// Name analysis of a whole program: every top-level declaration is
/// analyzed; a declaration that fails contributes its first error and the
/// walk goes on with the next declaration.
pub open spec fn na_program(ds: Seq<model::Declaration>, m: model::SymbolTable) -> (
    Seq<model::Declaration>,
    Seq<CompileError>,
    model::SymbolTable,
)
    decreases ds,
{
    if ds.len() == 0 {
        (Seq::empty(), Seq::empty(), m)
    } else {
        let (rs, errs, m1) = na_program(ds.drop_last(), m);
        let (r, m2) = na_declaration(ds.last(), m1);
        match r {
            Result::Ok(d2) => (rs.push(d2), errs, m2),
            Result::Err(e) => (rs, errs.push(e), m2),
        }
    }
}



/// An error in a prefix of a statement list is the error and table of the
/// whole list.
proof fn lemma_na_stmts_err(s: Seq<model::Statement>, i: int, m: model::SymbolTable)
    requires
        0 <= i <= s.len(),
        na_stmts(s.subrange(0, i), m).0 is Err,
    ensures
        na_stmts(s, m) == na_stmts(s.subrange(0, i), m),
    decreases s.len() - i,
{
    if i == s.len() {
        assert(s.subrange(0, i) =~= s);
    } else {
        assert(s.subrange(0, i + 1).drop_last() =~= s.subrange(0, i));
        lemma_na_stmts_err(s, i + 1, m);
    }
}





/// An error in a prefix of a class body is the error and table of the whole
/// body.
proof fn lemma_na_decls_err(s: Seq<model::Declaration>, i: int, m: model::SymbolTable)
    requires
        0 <= i <= s.len(),
        na_decls(s.subrange(0, i), m).0 is Err,
    ensures
        na_decls(s, m) == na_decls(s.subrange(0, i), m),
    decreases s.len() - i,
{
    if i == s.len() {
        assert(s.subrange(0, i) =~= s);
    } else {
        assert(s.subrange(0, i + 1).drop_last() =~= s.subrange(0, i));
        lemma_na_decls_err(s, i + 1, m);
    }
}

/// The first declarations of a program decide the table the rest see.
proof fn lemma_na_program_step(s: Seq<model::Declaration>, i: int, m: model::SymbolTable)
    requires
        0 <= i < s.len(),
    ensures
        na_program(s.subrange(0, i + 1), m) == ({
            let (rs, errs, m1) = na_program(s.subrange(0, i), m);
            let (r, m2) = na_declaration(s[i], m1);
            match r {
                Result::Ok(d2) => (rs.push(d2), errs, m2),
                Result::Err(e) => (rs, errs.push(e), m2),
            }
        }),
{
    let t = s.subrange(0, i + 1);
    assert(t.drop_last() =~= s.subrange(0, i));
    assert(t.last() == s[i]);
}



/// An error among the first formals is the error and table of the whole
/// list.
proof fn lemma_na_formals_err(s: Seq<model::Formal>, i: int, m: model::SymbolTable)
    requires
        0 <= i <= s.len(),
        na_formals(s.subrange(0, i), m).0 is Err,
    ensures
        na_formals(s, m) == na_formals(s.subrange(0, i), m),
    decreases s.len() - i,
{
    if i == s.len() {
        assert(s.subrange(0, i) =~= s);
    } else {
        assert(s.subrange(0, i + 1).drop_last() =~= s.subrange(0, i));
        lemma_na_formals_err(s, i + 1, m);
    }
}

/// Binds a formal parameter in the current scope.
pub fn analyze_formal(f: &Formal, st: &mut SymbolTable) -> (r: Result<Formal, CompileError>)
    requires
        st_wf(st_model(*old(st))),
    ensures
        st_wf(st_model(*final(st))),
        match r {
            Result::Ok(f2) => na_formal(crate::ast::formal_model(*f), st_model(*old(st))) == (
                Result::<model::Formal, CompileError>::Ok(crate::ast::formal_model(f2)),
                st_model(*final(st)),
            ),
            Result::Err(e) => na_formal(crate::ast::formal_model(*f), st_model(*old(st))) == (
                Result::<model::Formal, CompileError>::Err(e),
                st_model(*final(st)),
            ),
        },
        st_model(*final(st)).table == st_model(*old(st)).table,
{
    let entry = Entry::Variable(f.t.clone());
    let pos = f.id.source_position;
    match st.add(&f.id.name, entry, pos) {
        Ok(()) => Ok(f.clone()),
        Err(e) => Err(e),
    }
}

/// Analyzes a variable declaration: initializer first, then the binding.
pub fn analyze_vardecl(v: &VariableDeclaration, st: &mut SymbolTable) -> (r: Result<
    VariableDeclaration,
    CompileError,
>)
    requires
        st_wf(st_model(*old(st))),
    ensures
        st_wf(st_model(*final(st))),
        match r {
            Result::Ok(v2) => na_vardecl(crate::ast::vardecl_model(*v), st_model(*old(st))) == (
                Result::<model::VariableDeclaration, CompileError>::Ok(
                    crate::ast::vardecl_model(v2),
                ),
                st_model(*final(st)),
            ),
            Result::Err(e) => na_vardecl(crate::ast::vardecl_model(*v), st_model(*old(st))) == (
                Result::<model::VariableDeclaration, CompileError>::Err(e),
                st_model(*final(st)),
            ),
        },
        st_model(*final(st)).table == st_model(*old(st)).table,
    decreases *v,
{
    let a2: Option<Expression> = match &v.assignment {
        Some(e) => {
            match analyze_expression(e, st) {
                Ok(e2) => Some(e2),
                Err(err) => {
                    return Err(err);
                },
            }
        },
        None => None,
    };
    let v2 = VariableDeclaration { name: v.name.clone(), t: v.t.clone(), assignment: a2 };
    match &v.t {
        Type::Primitive(p, tpos) | Type::PerfectPrimitive(p, tpos) => {
            if matches!(p, Primitive::Void) {
                Err(
                    CompileError {
                        kind: ErrorKind::InvalidTypeInDeclaration,
                        pos: v.name.source_position,
                    },
                )
            } else {
                match st.add(&v.name.name, Entry::Variable(v.t.clone()), *tpos) {
                    Ok(()) => Ok(v2),
                    Err(e) => Err(e),
                }
            }
        },
        Type::Class(_, _) | Type::PerfectClass(_, _) => {
            let type_text = v.t.to_text();
            match st.link(&type_text, v.t.source_position()) {
                Ok(Entry::Class(_)) => {
                    match st.add(
                        &v.name.name,
                        Entry::Variable(v.t.clone()),
                        v.name.source_position,
                    ) {
                        Ok(()) => Ok(v2),
                        Err(e) => Err(e),
                    }
                },
                Ok(_) => Err(
                    CompileError {
                        kind: ErrorKind::InvalidTypeInDeclaration,
                        pos: v.name.source_position,
                    },
                ),
                Err(_) => Err(
                    CompileError {
                        kind: ErrorKind::InvalidTypeInDeclaration,
                        pos: v.name.source_position,
                    },
                ),
            }
        },
    }
}

/// Analyzes a block in a fresh scope.
pub fn analyze_body(b: &Body, st: &mut SymbolTable) -> (r: Result<Body, CompileError>)
    requires
        st_wf(st_model(*old(st))),
    ensures
        st_wf(st_model(*final(st))),
        match r {
            Result::Ok(b2) => na_body(crate::ast::body_model(*b), st_model(*old(st))) == (
                Result::<model::Body, CompileError>::Ok(crate::ast::body_model(b2)),
                st_model(*final(st)),
            ),
            Result::Err(e) => na_body(crate::ast::body_model(*b), st_model(*old(st))) == (
                Result::<model::Body, CompileError>::Err(e),
                st_model(*final(st)),
            ),
        },
        r is Ok ==> st_model(*final(st)).table == st_model(*old(st)).table,
    decreases *b,
{
    st.enter_scope();
    proof {
        assert(decreases_to!(*b => b.statements@));
    }
    match analyze_statements(&b.statements, st) {
        Err(e) => Err(e),
        Ok(ss) => {
            st.exit_scope();
            Ok(Body { statements: ss })
        },
    }
}

/// Analyzes one statement.
pub fn analyze_statement(s: &Statement, st: &mut SymbolTable) -> (r: Result<
    Statement,
    CompileError,
>)
    requires
        st_wf(st_model(*old(st))),
    ensures
        st_wf(st_model(*final(st))),
        match r {
            Result::Ok(s2) => na_statement(crate::ast::stmt_model(*s), st_model(*old(st))) == (
                Result::<model::Statement, CompileError>::Ok(crate::ast::stmt_model(s2)),
                st_model(*final(st)),
            ),
            Result::Err(e) => na_statement(crate::ast::stmt_model(*s), st_model(*old(st))) == (
                Result::<model::Statement, CompileError>::Err(e),
                st_model(*final(st)),
            ),
        },
        r is Ok ==> st_model(*final(st)).table == st_model(*old(st)).table,
    decreases *s,
{
    match s {
        Statement::Assignment(l, e) => {
            let l2 = match analyze_location(l, None, st) {
                Ok(l2) => l2,
                Err(err) => {
                    return Err(err);
                },
            };
            match analyze_expression(e, st) {
                Err(err) => Err(err),
                Ok(e2) => Ok(Statement::Assignment(l2, e2)),
            }
        },
        Statement::CallExpression(c) => {
            match analyze_call(c, st) {
                Err(err) => Err(err),
                Ok(c2) => Ok(Statement::CallExpression(c2)),
            }
        },
        Statement::Decrement(l) => {
            match analyze_location(l, None, st) {
                Err(err) => Err(err),
                Ok(l2) => Ok(Statement::Decrement(l2)),
            }
        },
        Statement::Exit => Ok(Statement::Exit),
        Statement::Give(e) => {
            match analyze_expression(e, st) {
                Err(err) => Err(err),
                Ok(e2) => Ok(Statement::Give(e2)),
            }
        },
        Statement::If(cond, b1, b2) => {
            let c2 = match analyze_expression(cond, st) {
                Ok(c2) => c2,
                Err(err) => {
                    return Err(err);
                },
            };
            let t2 = match analyze_body(b1, st) {
                Ok(t2) => t2,
                Err(err) => {
                    return Err(err);
                },
            };
            match analyze_body(b2, st) {
                Err(err) => Err(err),
                Ok(f2) => Ok(Statement::If(c2, t2, f2)),
            }
        },
        Statement::Increment(l) => {
            match analyze_location(l, None, st) {
                Err(err) => Err(err),
                Ok(l2) => Ok(Statement::Increment(l2)),
            }
        },
        Statement::Return(x, p) => {
            match x {
                None => Ok(Statement::Return(None, *p)),
                Some(e) => {
                    match analyze_expression(e, st) {
                        Err(err) => Err(err),
                        Ok(e2) => Ok(Statement::Return(Some(e2), *p)),
                    }
                },
            }
        },
        Statement::Take(l) => {
            match analyze_location(l, None, st) {
                Err(err) => Err(err),
                Ok(l2) => Ok(Statement::Take(l2)),
            }
        },
        Statement::VariableDeclaration(d) => {
            match analyze_declaration(d, st) {
                Err(err) => Err(err),
                Ok(d2) => Ok(Statement::VariableDeclaration(d2)),
            }
        },
        Statement::While(cond, b) => {
            let c2 = match analyze_expression(cond, st) {
                Ok(c2) => c2,
                Err(err) => {
                    return Err(err);
                },
            };
            match analyze_body(b, st) {
                Err(err) => Err(err),
                Ok(b2) => Ok(Statement::While(c2, b2)),
            }
        },
    }
}

/// Analyzes a statement list, left to right, stopping at the first error.
pub fn analyze_statements(ss: &Vec<Statement>, st: &mut SymbolTable) -> (r: Result<
    Vec<Statement>,
    CompileError,
>)
    requires
        st_wf(st_model(*old(st))),
    ensures
        st_wf(st_model(*final(st))),
        match r {
            Result::Ok(ss2) => na_stmts(crate::ast::stmts_model(ss@), st_model(*old(st))) == (
                Result::<Seq<model::Statement>, CompileError>::Ok(crate::ast::stmts_model(ss2@)),
                st_model(*final(st)),
            ),
            Result::Err(e) => na_stmts(crate::ast::stmts_model(ss@), st_model(*old(st))) == (
                Result::<Seq<model::Statement>, CompileError>::Err(e),
                st_model(*final(st)),
            ),
        },
        r is Ok ==> st_model(*final(st)).table == st_model(*old(st)).table,
    decreases ss@,
{
    let ghost m0 = st_model(*st);
    let mut out: Vec<Statement> = Vec::new();
    let mut i: usize = 0;
    while i < ss.len()
        invariant
            st_wf(st_model(*st)),
            0 <= i <= ss@.len(),
            m0 == st_model(*old(st)),
            na_stmts(crate::ast::stmts_model(ss@.subrange(0, i as int)), m0) == (
                Result::<Seq<model::Statement>, CompileError>::Ok(crate::ast::stmts_model(out@)),
                st_model(*st),
            ),
            st_model(*st).table == m0.table,
        decreases ss@.len() - i,
    {
        proof {
            assert(decreases_to!(ss@ => ss@[i as int]));
        }
        let ghost m_before = st_model(*st);
        match analyze_statement(&ss[i], st) {
            Ok(s2) => {
                let ghost prev = out@;
                out.push(s2);
                proof {
                    crate::ast::lemma_stmts_model_facts(ss@, i as int);
                    assert(out@.drop_last() =~= prev);
                    let q = crate::ast::stmts_model(ss@.subrange(0, i as int));
                    let y = crate::ast::stmt_model(ss@[i as int]);
                    assert(crate::ast::stmts_model(ss@.subrange(0, i as int + 1)).drop_last()
                        =~= q);
                    assert(crate::ast::stmts_model(ss@.subrange(0, i as int + 1)).last() == y);
                }
                i = i + 1;
            },
            Err(err) => {
                proof {
                    let full = crate::ast::stmts_model(ss@);
                    crate::ast::lemma_stmts_model_facts(ss@, i as int);
                    crate::ast::lemma_stmts_model_subrange(ss@, i as int + 1);
                    crate::ast::lemma_stmts_model_subrange(ss@, i as int);
                    crate::ast::lemma_stmts_model_len(ss@);
                    let q = crate::ast::stmts_model(ss@.subrange(0, i as int));
                    let y = crate::ast::stmt_model(ss@[i as int]);
                    assert(crate::ast::stmts_model(ss@.subrange(0, i as int + 1)).drop_last()
                        =~= q);
                    assert(crate::ast::stmts_model(ss@.subrange(0, i as int + 1)).last() == y);
                    assert(na_stmts(full.subrange(0, i as int + 1), m0).0 is Err);
                    lemma_na_stmts_err(full, i as int + 1, m0);
                }
                return Err(err);
            },
        }
    }
    proof {
        assert(ss@.subrange(0, ss@.len() as int) =~= ss@);
    }
    Ok(out)
}

/// Analyzes a class declaration.
pub fn analyze_class(c: &Class, st: &mut SymbolTable) -> (r: Result<Class, CompileError>)
    requires
        st_wf(st_model(*old(st))),
    ensures
        st_wf(st_model(*final(st))),
        match r {
            Result::Ok(c2) => na_class(crate::ast::class_model(*c), st_model(*old(st))) == (
                Result::<model::Class, CompileError>::Ok(crate::ast::class_model(c2)),
                st_model(*final(st)),
            ),
            Result::Err(e) => na_class(crate::ast::class_model(*c), st_model(*old(st))) == (
                Result::<model::Class, CompileError>::Err(e),
                st_model(*final(st)),
            ),
        },
        r is Ok ==> st_model(*final(st)).table == st_model(*old(st)).table,
    decreases *c,
{
    match st.add_class(&c.id) {
        Err(e) => {
            return Err(e);
        },
        Ok(()) => {},
    }
    let ghost m1 = st_model(*st);
    let mut out: Vec<Declaration> = Vec::new();
    let mut i: usize = 0;
    while i < c.body.len()
        invariant
            st_wf(st_model(*st)),
            0 <= i <= c.body@.len(),
            crate::symbol_table::spec_add_class(
                st_model(*old(st)),
                crate::ast::id_model(c.id),
            ) == (m1, Result::<(), CompileError>::Ok(())),
            na_decls(crate::ast::decls_model(c.body@.subrange(0, i as int)), m1) == (
                Result::<Seq<model::Declaration>, CompileError>::Ok(
                    crate::ast::decls_model(out@),
                ),
                st_model(*st),
            ),
            st_model(*st).table == m1.table,
            m1.table.len() >= 2,
        decreases c.body@.len() - i,
    {
        proof {
            assert(decreases_to!(*c => c.body@[i as int]));
        }
        match analyze_declaration(&c.body[i], st) {
            Ok(d2) => {
                let ghost prev = out@;
                out.push(d2);
                proof {
                    crate::ast::lemma_decls_model_facts(c.body@, i as int);
                    assert(out@.drop_last() =~= prev);
                    let q = crate::ast::decls_model(c.body@.subrange(0, i as int));
                    let y = crate::ast::decl_model(c.body@[i as int]);
                    assert(crate::ast::decls_model(c.body@.subrange(0, i as int + 1)).drop_last()
                        =~= q);
                    assert(crate::ast::decls_model(c.body@.subrange(0, i as int + 1)).last() == y);
                }
                i = i + 1;
            },
            Err(err) => {
                proof {
                    let full = crate::ast::decls_model(c.body@);
                    crate::ast::lemma_decls_model_facts(c.body@, i as int);
                    crate::ast::lemma_decls_model_subrange(c.body@, i as int + 1);
                    crate::ast::lemma_decls_model_subrange(c.body@, i as int);
                    crate::ast::lemma_decls_model_len(c.body@);
                    let q = crate::ast::decls_model(c.body@.subrange(0, i as int));
                    let y = crate::ast::decl_model(c.body@[i as int]);
                    assert(crate::ast::decls_model(c.body@.subrange(0, i as int + 1)).drop_last()
                        =~= q);
                    assert(crate::ast::decls_model(c.body@.subrange(0, i as int + 1)).last() == y);
                    assert(na_decls(full.subrange(0, i as int + 1), m1).0 is Err);
                    lemma_na_decls_err(full, i as int + 1, m1);
                }
                return Err(err);
            },
        }
    }
    proof {
        assert(c.body@.subrange(0, c.body@.len() as int) =~= c.body@);
    }
    st.exit_scope();
    Ok(Class { id: c.id.clone(), body: out })
}

/// Analyzes a function declaration.
pub fn analyze_function(f: &Function, st: &mut SymbolTable) -> (r: Result<Function, CompileError>)
    requires
        st_wf(st_model(*old(st))),
    ensures
        st_wf(st_model(*final(st))),
        match r {
            Result::Ok(f2) => na_function(crate::ast::function_model(*f), st_model(*old(st))) == (
                Result::<model::Function, CompileError>::Ok(crate::ast::function_model(f2)),
                st_model(*final(st)),
            ),
            Result::Err(e) => na_function(crate::ast::function_model(*f), st_model(*old(st))) == (
                Result::<model::Function, CompileError>::Err(e),
                st_model(*final(st)),
            ),
        },
        r is Ok ==> st_model(*final(st)).table == st_model(*old(st)).table,
    decreases *f,
{
    let entry = Entry::Function(crate::ast::clone_formals(&f.fn_input), f.fn_output.clone());
    match st.add(&f.id.name, entry, f.id.source_position) {
        Err(e) => {
            return Err(e);
        },
        Ok(()) => {},
    }
    let ghost m_add = st_model(*st);
    st.enter_scope();
    let ghost m2 = st_model(*st);
    let mut formals_out: Vec<Formal> = Vec::new();
    let mut i: usize = 0;
    while i < f.fn_input.len()
        invariant
            st_wf(st_model(*st)),
            0 <= i <= f.fn_input@.len(),
            crate::symbol_table::spec_add(
                st_model(*old(st)),
                f.id.name@,
                model::Entry::Function(
                    crate::ast::formals_model(f.fn_input@),
                    crate::ast::type_model(f.fn_output),
                ),
                f.id.source_position,
            ) == (m_add, Result::<(), CompileError>::Ok(())),
            m2 == crate::symbol_table::spec_enter_scope(m_add),
            na_formals(crate::ast::formals_model(f.fn_input@.subrange(0, i as int)), m2) == (
                Result::<Seq<model::Formal>, CompileError>::Ok(
                    crate::ast::formals_model(formals_out@),
                ),
                st_model(*st),
            ),
            st_model(*st).table == m2.table,
            m2.table.len() >= 2,
        decreases f.fn_input@.len() - i,
    {
        let ghost m_before = st_model(*st);
        match analyze_formal(&f.fn_input[i], st) {
            Ok(f2) => {
                let ghost prev = formals_out@;
                formals_out.push(f2);
                proof {
                    crate::ast::lemma_formals_model_facts(f.fn_input@, i as int);
                    assert(formals_out@.drop_last() =~= prev);
                    let q = crate::ast::formals_model(f.fn_input@.subrange(0, i as int));
                    let y = crate::ast::formal_model(f.fn_input@[i as int]);
                    assert(crate::ast::formals_model(
                        f.fn_input@.subrange(0, i as int + 1),
                    ).drop_last() =~= q);
                    assert(crate::ast::formals_model(f.fn_input@.subrange(0, i as int + 1)).last()
                        == y);
                }
                i = i + 1;
            },
            Err(err) => {
                proof {
                    let full = crate::ast::formals_model(f.fn_input@);
                    crate::ast::lemma_formals_model_facts(f.fn_input@, i as int);
                    crate::ast::lemma_formals_model_subrange(f.fn_input@, i as int + 1);
                    crate::ast::lemma_formals_model_subrange(f.fn_input@, i as int);
                    crate::ast::lemma_formals_model_len(f.fn_input@);
                    let q = crate::ast::formals_model(f.fn_input@.subrange(0, i as int));
                    let y = crate::ast::formal_model(f.fn_input@[i as int]);
                    assert(crate::ast::formals_model(
                        f.fn_input@.subrange(0, i as int + 1),
                    ).drop_last() =~= q);
                    assert(crate::ast::formals_model(f.fn_input@.subrange(0, i as int + 1)).last()
                        == y);
                    assert(na_formals(full.subrange(0, i as int + 1), m2).0 is Err);
                    lemma_na_formals_err(full, i as int + 1, m2);
                }
                return Err(err);
            },
        }
    }
    proof {
        assert(f.fn_input@.subrange(0, f.fn_input@.len() as int) =~= f.fn_input@);
    }
    proof {
        assert(decreases_to!(*f => f.body@));
    }
    let body_out = match analyze_statements_of(f, st) {
        Ok(b) => b,
        Err(err) => {
            return Err(err);
        },
    };
    st.exit_scope();
    Ok(
        Function {
            id: f.id.clone(),
            fn_input: formals_out,
            fn_output: f.fn_output.clone(),
            body: body_out,
        },
    )
}

/// Analyzes the body statements of a function.
fn analyze_statements_of(f: &Function, st: &mut SymbolTable) -> (r: Result<
    Vec<Statement>,
    CompileError,
>)
    requires
        st_wf(st_model(*old(st))),
    ensures
        st_wf(st_model(*final(st))),
        match r {
            Result::Ok(ss2) => na_stmts(
                crate::ast::stmts_model(f.body@),
                st_model(*old(st)),
            ) == (
                Result::<Seq<model::Statement>, CompileError>::Ok(crate::ast::stmts_model(ss2@)),
                st_model(*final(st)),
            ),
            Result::Err(e) => na_stmts(crate::ast::stmts_model(f.body@), st_model(*old(st))) == (
                Result::<Seq<model::Statement>, CompileError>::Err(e),
                st_model(*final(st)),
            ),
        },
        r is Ok ==> st_model(*final(st)).table == st_model(*old(st)).table,
    decreases *f, 0int,
{
    proof {
        assert(decreases_to!(*f => f.body@));
    }
    analyze_statements(&f.body, st)
}

/// Analyzes one declaration.
pub fn analyze_declaration(d: &Declaration, st: &mut SymbolTable) -> (r: Result<
    Declaration,
    CompileError,
>)
    requires
        st_wf(st_model(*old(st))),
    ensures
        st_wf(st_model(*final(st))),
        match r {
            Result::Ok(d2) => na_declaration(crate::ast::decl_model(*d), st_model(*old(st))) == (
                Result::<model::Declaration, CompileError>::Ok(crate::ast::decl_model(d2)),
                st_model(*final(st)),
            ),
            Result::Err(e) => na_declaration(crate::ast::decl_model(*d), st_model(*old(st))) == (
                Result::<model::Declaration, CompileError>::Err(e),
                st_model(*final(st)),
            ),
        },
        r is Ok ==> st_model(*final(st)).table == st_model(*old(st)).table,
    decreases *d,
{
    match d {
        Declaration::Class(c) => {
            match analyze_class(c, st) {
                Err(e) => Err(e),
                Ok(c2) => Ok(Declaration::Class(c2)),
            }
        },
        Declaration::Function(f) => {
            match analyze_function(f, st) {
                Err(e) => Err(e),
                Ok(f2) => Ok(Declaration::Function(f2)),
            }
        },
        Declaration::Variable(v) => {
            match analyze_vardecl(v, st) {
                Err(e) => Err(e),
                Ok(v2) => Ok(Declaration::Variable(v2)),
            }
        },
    }
}

/// Runs name analysis over a whole program, starting from a fresh table.
/// Every top-level declaration is analyzed; the errors of the ones that fail
/// are collected in order, and the pass fails if there is any.
pub fn analyze(program: &Vec<Declaration>) -> (r: Result<Vec<Declaration>, Vec<CompileError>>)
    ensures
        match r {
            Result::Ok(ds2) => {
                let (rs, errs, _) = na_program(
                    crate::ast::decls_model(program@),
                    na_fresh_table(),
                );
                errs.len() == 0 && crate::ast::decls_model(ds2@) == rs
            },
            Result::Err(errs2) => {
                let (rs, errs, _) = na_program(
                    crate::ast::decls_model(program@),
                    na_fresh_table(),
                );
                errs.len() > 0 && errs2@ == errs
            },
        },
{
    let mut st = SymbolTable::new();
    let ghost m0 = st_model(st);
    proof {
        assert(m0 == na_fresh_table());
    }
    let mut out: Vec<Declaration> = Vec::new();
    let mut errors: Vec<CompileError> = Vec::new();
    let mut i: usize = 0;
    while i < program.len()
        invariant
            st_wf(st_model(st)),
            0 <= i <= program@.len(),
            na_program(crate::ast::decls_model(program@.subrange(0, i as int)), m0) == (
                crate::ast::decls_model(out@),
                errors@,
                st_model(st),
            ),
        decreases program@.len() - i,
    {
        proof {
            crate::ast::lemma_decls_model_facts(program@, i as int);
            crate::ast::lemma_decls_model_subrange(program@, i as int + 1);
            crate::ast::lemma_decls_model_subrange(program@, i as int);
        }
        let ghost prev_errs = errors@;
        match analyze_declaration(&program[i], &mut st) {
            Ok(d2) => {
                let ghost prev = out@;
                out.push(d2);
                proof {
                    assert(out@.drop_last() =~= prev);
                    lemma_na_program_step(crate::ast::decls_model(program@), i as int, m0);
                }
            },
            Err(e) => {
                errors.push(e);
                proof {
                    assert(errors@.drop_last() =~= prev_errs);
                    lemma_na_program_step(crate::ast::decls_model(program@), i as int, m0);
                }
            },
        }
        i = i + 1;
    }
    proof {
        assert(program@.subrange(0, program@.len() as int) =~= program@);
    }
    if errors.len() == 0 {
        Ok(out)
    } else {
        Err(errors)
    }
}





} // verus!
