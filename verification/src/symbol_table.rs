//! The symbol table: a stack of scopes over an arena, so that a class entry
//! can keep a stable handle to its member scope after the scope is popped.

use crate::ast::{entry_model, spec_type_text, Formal, Id, Primitive, Type};
use crate::error::{CompileError, ErrorKind};
use crate::model;
use crate::source_position::SourcePositionData;
use vstd::prelude::*;

verus! {

/// A symbol-table entry. A class entry holds the index of its member scope in
/// the table's arena.
#[derive(Debug, PartialEq)]
pub enum Entry {
    Class(usize),
    Function(Vec<Formal>, Type),
    Variable(Type),
}

impl Clone for Entry {
    /// Cloning keeps the model.
    fn clone(&self) -> (r: Self)
        ensures
            entry_model(r) == entry_model(*self),
    {
        match self {
            Entry::Class(scope) => Entry::Class(*scope),
            Entry::Function(formals, output) => Entry::Function(
                crate::ast::clone_formals(formals),
                output.clone(),
            ),
            Entry::Variable(t) => Entry::Variable(t.clone()),
        }
    }
}

/// The model of one scope.
pub open spec fn scope_model(s: Seq<(String, Entry)>) -> Seq<(Seq<char>, model::Entry)> {
    Seq::new(s.len(), |i: int| (s[i].0@, entry_model(s[i].1)))
}

/// The model of the scope arena.
pub open spec fn arena_model(a: Seq<Vec<(String, Entry)>>) -> Seq<Seq<(Seq<char>, model::Entry)>> {
    Seq::new(a.len(), |i: int| scope_model(a[i]@))
}

/// The model of the scope stack.
pub open spec fn table_model(t: Seq<usize>) -> Seq<int> {
    Seq::new(t.len(), |i: int| t[i] as int)
}

/// The model of the whole symbol table.
pub open spec fn st_model(st: SymbolTable) -> model::SymbolTable {
    model::SymbolTable { arena: arena_model(st.arena@), table: table_model(st.table@) }
}

/// Looking a name up in one scope, scanning from position `i` on: the first
/// binding of that name wins.
pub open spec fn scope_lookup_from(
    s: Seq<(Seq<char>, model::Entry)>,
    name: Seq<char>,
    i: int,
) -> Option<model::Entry>
    decreases s.len() - i,
{
    if i < 0 || i >= s.len() {
        Option::None
    } else if s[i].0 == name {
        Option::Some(s[i].1)
    } else {
        scope_lookup_from(s, name, i + 1)
    }
}

/// Looking a name up in one scope.
pub open spec fn scope_lookup(s: Seq<(Seq<char>, model::Entry)>, name: Seq<char>) -> Option<
    model::Entry,
> {
    scope_lookup_from(s, name, 0)
}

/// Looking a name up through the scope stack, topmost scope first, starting
/// at stack position `i`.
pub open spec fn stack_lookup_from(m: model::SymbolTable, name: Seq<char>, i: int) -> Option<
    model::Entry,
>
    decreases i + 1,
{
    if i < 0 {
        Option::None
    } else {
        match scope_lookup(m.arena[m.table[i]], name) {
            Option::Some(e) => Option::Some(e),
            Option::None => stack_lookup_from(m, name, i - 1),
        }
    }
}

/// What `link` resolves a name to: the first match, searching top-down.
pub open spec fn spec_link(m: model::SymbolTable, name: Seq<char>) -> Option<model::Entry> {
    stack_lookup_from(m, name, m.table.len() - 1)
}

/// Whether the name is bound in the scope on top of the stack.
pub open spec fn spec_in_scope(m: model::SymbolTable, name: Seq<char>) -> bool {
    spec_in_scope_entry(m, name) is Some
}

/// The binding of a name in the scope on top of the stack, if any.
pub open spec fn spec_in_scope_entry(m: model::SymbolTable, name: Seq<char>) -> Option<
    model::Entry,
> {
    scope_lookup(m.arena[m.table.last()], name)
}

/// Whether the name is bound in some scope above the global one.
pub open spec fn spec_is_local(m: model::SymbolTable, name: Seq<char>) -> bool {
    exists|i: int|
        1 <= i < m.table.len() && scope_lookup(m.arena[m.table[i]], name) is Some
}

/// Whether an entry is a variable of void type, which no declaration may
/// introduce.
pub open spec fn spec_void_var(e: model::Entry) -> bool {
    match e {
        model::Entry::Variable(model::Type::Primitive(Primitive::Void, _)) => true,
        model::Entry::Variable(model::Type::PerfectPrimitive(Primitive::Void, _)) => true,
        _ => false,
    }
}

/// Well-formedness of the table: the stack is never empty, every stack slot
/// indexes a scope of the arena, and every class entry anywhere in the arena
/// indexes a scope of the arena.
pub open spec fn st_wf(m: model::SymbolTable) -> bool {
    &&& m.table.len() >= 1
    &&& m.arena.len() >= 1
    &&& forall|i: int| 0 <= i < m.table.len() ==> 0 <= #[trigger] m.table[i] < m.arena.len()
    &&& forall|i: int, j: int|
        0 <= i < m.arena.len() && 0 <= j < m.arena[i].len() ==> (#[trigger] m.arena[i][j].1
            matches model::Entry::Class(k) ==> 0 <= k < m.arena.len())
}

/// How `add` changes the table: rejected void variables and duplicates leave
/// it unchanged, otherwise the binding is appended to the top scope.
pub open spec fn spec_add(
    m: model::SymbolTable,
    name: Seq<char>,
    entry: model::Entry,
    pos: SourcePositionData,
) -> (model::SymbolTable, Result<(), CompileError>) {
    if spec_void_var(entry) {
        (m, Result::Err(CompileError { kind: ErrorKind::InvalidTypeInDeclaration, pos }))
    } else if spec_in_scope(m, name) {
        (m, Result::Err(CompileError { kind: ErrorKind::MultiplyDeclaredIdentifier, pos }))
    } else {
        (
            model::SymbolTable {
                arena: m.arena.update(m.table.last(), m.arena[m.table.last()].push((name, entry))),
                table: m.table,
            },
            Result::Ok(()),
        )
    }
}

/// How `add_class` changes the table: a fresh member scope is allocated, the
/// class entry is added to the current scope, and on success the member scope
/// is pushed onto the stack.
pub open spec fn spec_add_class(m: model::SymbolTable, id: model::Id) -> (
    model::SymbolTable,
    Result<(), CompileError>,
) {
    let scope = m.arena.len() as int;
    let m1 = model::SymbolTable { arena: m.arena.push(Seq::empty()), table: m.table };
    let (m2, r) = spec_add(m1, id.name, model::Entry::Class(scope), id.source_position);
    match r {
        Result::Ok(()) => (
            model::SymbolTable { arena: m2.arena, table: m2.table.push(scope) },
            Result::Ok(()),
        ),
        Result::Err(e) => (m2, Result::Err(e)),
    }
}

/// How `enter_scope` changes the table.
pub open spec fn spec_enter_scope(m: model::SymbolTable) -> model::SymbolTable {
    model::SymbolTable {
        arena: m.arena.push(Seq::empty()),
        table: m.table.push(m.arena.len() as int),
    }
}

/// How `exit_scope` changes the table: the top scope is popped but stays in
/// the arena, so class entries keep their member scopes.
pub open spec fn spec_exit_scope(m: model::SymbolTable) -> model::SymbolTable {
    model::SymbolTable { arena: m.arena, table: m.table.drop_last() }
}

/// What `get_class_member` returns: the given entry must be a variable whose
/// written type resolves to a class, and the member name must be bound in
/// that class's scope.
pub open spec fn spec_get_class_member(
    m: model::SymbolTable,
    class: model::Entry,
    name: Seq<char>,
    pos: SourcePositionData,
) -> Result<model::Entry, CompileError> {
    match class {
        model::Entry::Variable(t) => match spec_link(m, spec_type_text(t)) {
            Option::Some(model::Entry::Class(k)) => match scope_lookup(m.arena[k], name) {
                Option::Some(e) => Result::Ok(e),
                Option::None => Result::Err(
                    CompileError { kind: ErrorKind::UndeclaredIdentifier, pos },
                ),
            },
            Option::Some(_) => Result::Err(
                CompileError { kind: ErrorKind::UndeclaredIdentifier, pos },
            ),
            Option::None => Result::Err(
                CompileError { kind: ErrorKind::UndeclaredIdentifier, pos },
            ),
        },
        _ => Result::Err(CompileError { kind: ErrorKind::UndefinedType, pos }),
    }
}

/// A successful lookup returns an entry that sits in the scope it searched.
proof fn lemma_scope_lookup_member(s: Seq<(Seq<char>, model::Entry)>, name: Seq<char>, i: int)
    requires
        scope_lookup_from(s, name, i) is Some,
    ensures
        exists|j: int|
            0 <= j < s.len() && s[j].1 == scope_lookup_from(s, name, i)->Some_0,
    decreases s.len() - i,
{
    if !(i < 0 || i >= s.len()) {
        if s[i].0 == name {
            assert(0 <= i < s.len() && s[i].1 == scope_lookup_from(s, name, i)->Some_0);
        } else {
            lemma_scope_lookup_member(s, name, i + 1);
        }
    }
}

/// On a well-formed table, whatever `link` finds respects the arena bounds:
/// a class entry's scope index is a real scope.
pub proof fn lemma_stack_lookup_wf(m: model::SymbolTable, name: Seq<char>, i: int)
    requires
        st_wf(m),
        0 <= i < m.table.len(),
        stack_lookup_from(m, name, i) is Some,
    ensures
        stack_lookup_from(m, name, i)->Some_0 matches model::Entry::Class(k) ==> 0 <= k
            < m.arena.len(),
    decreases i + 1,
{
    let sc = m.arena[m.table[i]];
    if scope_lookup(sc, name) is Some {
        lemma_scope_lookup_member(sc, name, 0);
    } else {
        if i > 0 {
            lemma_stack_lookup_wf(m, name, i - 1);
        }
    }
}

/// The symbol table: an arena of every scope ever created, and a stack of
/// arena indices with the global scope at the bottom.
#[derive(Debug)]
pub struct SymbolTable {
    pub arena: Vec<Vec<(String, Entry)>>,
    pub table: Vec<usize>,
}

/// Looks a name up in one scope, returning the index of its first binding.
fn scope_get(scope: &Vec<(String, Entry)>, name: &String) -> (r: Option<usize>)
    ensures
        match r {
            Option::Some(j) => j < scope@.len() && scope_lookup(scope_model(scope@), name@)
                == Option::Some(entry_model(scope@[j as int].1)),
            Option::None => scope_lookup(scope_model(scope@), name@) is None,
        },
{
    let ghost s = scope_model(scope@);
    let mut i: usize = 0;
    while i < scope.len()
        invariant
            0 <= i <= scope@.len(),
            s == scope_model(scope@),
            s.len() == scope@.len(),
            scope_lookup(s, name@) == scope_lookup_from(s, name@, i as int),
        decreases scope@.len() - i,
    {
        if scope[i].0.eq(name) {
            return Some(i);
        }
        i = i + 1;
    }
    None
}

impl SymbolTable {
    /// A fresh table holding only an empty global scope.
    pub fn new() -> (r: Self)
        ensures
            st_model(r) == (model::SymbolTable {
                arena: seq![Seq::empty()],
                table: seq![0int],
            }),
            st_wf(st_model(r)),
    {
        let mut arena: Vec<Vec<(String, Entry)>> = Vec::new();
        arena.push(Vec::new());
        let mut table: Vec<usize> = Vec::new();
        table.push(0);
        let r = SymbolTable { arena, table };
        proof {
            assert(st_model(r).arena =~~= seq![Seq::<(Seq<char>, model::Entry)>::empty()]);
            assert(st_model(r).table =~= seq![0int]);
        }
        r
    }

    /// Adds a newly declared symbol to the scope on top of the stack, failing
    /// on void variables and on names already bound there.
    pub fn add(&mut self, name: &String, entry: Entry, pos: SourcePositionData) -> (r: Result<
        (),
        CompileError,
    >)
        requires
            st_wf(st_model(*old(self))),
            entry_model(entry) matches model::Entry::Class(k) ==> 0 <= k < st_model(
                *old(self),
            ).arena.len(),
        ensures
            (st_model(*final(self)), r) == spec_add(
                st_model(*old(self)),
                name@,
                entry_model(entry),
                pos,
            ),
            st_wf(st_model(*final(self))),
    {
        match &entry {
            Entry::Variable(Type::Primitive(Primitive::Void, _))
            | Entry::Variable(Type::PerfectPrimitive(Primitive::Void, _)) => {
                return Err(CompileError { kind: ErrorKind::InvalidTypeInDeclaration, pos });
            },
            _ => {},
        }
        let top = self.table[self.table.len() - 1];
        proof {
            assert(st_model(*self).table.last() == top as int);
        }
        if scope_get(&self.arena[top], name).is_some() {
            return Err(CompileError { kind: ErrorKind::MultiplyDeclaredIdentifier, pos });
        }
        self.arena[top].push((name.clone(), entry));
        proof {
            let m0 = st_model(*old(self));
            let m1 = st_model(*self);
            assert(m1.table =~= m0.table);
            assert(scope_model(self.arena@[top as int]@) =~= m0.arena[top as int].push(
                (name@, entry_model(entry)),
            ));
            assert(m1.arena =~= m0.arena.update(
                m0.table.last(),
                m0.arena[m0.table.last()].push((name@, entry_model(entry))),
            ));
        }
        Ok(())
    }

    /// Declares a class: allocates its member scope, binds the class name in
    /// the current scope, and opens the member scope.
    pub fn add_class(&mut self, id: &Id) -> (r: Result<(), CompileError>)
        requires
            st_wf(st_model(*old(self))),
        ensures
            (st_model(*final(self)), r) == spec_add_class(
                st_model(*old(self)),
                crate::ast::id_model(*id),
            ),
            st_wf(st_model(*final(self))),
    {
        let scope: usize = self.arena.len();
        self.arena.push(Vec::new());
        proof {
            let m0 = st_model(*old(self));
            let m1 = st_model(*self);
            assert(m1.arena =~~= m0.arena.push(Seq::empty()));
            assert(m1.table =~= m0.table);
        }
        let r = self.add(&id.name, Entry::Class(scope), id.source_position);
        match r {
            Ok(()) => {
                self.table.push(scope);
                proof {
                    let m0 = st_model(*old(self));
                    let m2 = st_model(*self);
                    let s = spec_add_class(m0, crate::ast::id_model(*id));
                    assert(m2.table =~= s.0.table);
                    assert(m2.arena =~= s.0.arena);
                }
                Ok(())
            },
            Err(e) => Err(e),
        }
    }

    /// Opens a fresh empty scope.
    pub fn enter_scope(&mut self)
        requires
            st_wf(st_model(*old(self))),
        ensures
            st_model(*final(self)) == spec_enter_scope(st_model(*old(self))),
            st_wf(st_model(*final(self))),
    {
        let scope: usize = self.arena.len();
        self.arena.push(Vec::new());
        self.table.push(scope);
        proof {
            let m0 = st_model(*old(self));
            let m1 = st_model(*self);
            assert(m1.arena =~~= m0.arena.push(Seq::empty()));
            assert(m1.table =~= m0.table.push(m0.arena.len() as int));
        }
    }

    /// Closes the top scope. Its contents stay in the arena, so class entries
    /// keep their member scopes alive.
    pub fn exit_scope(&mut self)
        requires
            st_wf(st_model(*old(self))),
            st_model(*old(self)).table.len() >= 2,
        ensures
            st_model(*final(self)) == spec_exit_scope(st_model(*old(self))),
            st_wf(st_model(*final(self))),
    {
        let _ = self.table.pop();
        proof {
            let m0 = st_model(*old(self));
            let m1 = st_model(*self);
            assert(m1.table =~= m0.table.drop_last());
            assert(m1.arena =~= m0.arena);
        }
    }

    /// Whether the name is bound in the scope on top of the stack.
    fn in_scope(&self, name: &String) -> (r: bool)
        requires
            st_wf(st_model(*self)),
        ensures
            r == spec_in_scope(st_model(*self), name@),
    {
        let top = self.table[self.table.len() - 1];
        proof {
            assert(st_model(*self).table.last() == top as int);
        }
        scope_get(&self.arena[top], name).is_some()
    }

    /// Whether the name is bound in any scope above the global one.
    pub fn is_local(&self, name: &String) -> (r: bool)
        requires
            st_wf(st_model(*self)),
        ensures
            r == spec_is_local(st_model(*self), name@),
    {
        let ghost m = st_model(*self);
        let mut i: usize = 1;
        while i < self.table.len()
            invariant
                1 <= i <= self.table@.len(),
                m == st_model(*self),
                st_wf(m),
                forall|j: int|
                    1 <= j < i ==> scope_lookup(m.arena[#[trigger] m.table[j]], name@) is None,
            decreases self.table@.len() - i,
        {
            let scope = self.table[i];
            if scope_get(&self.arena[scope], name).is_some() {
                proof {
                    assert(scope_lookup(m.arena[m.table[i as int]], name@) is Some);
                }
                return true;
            }
            i = i + 1;
        }
        false
    }

    /// Gets the entry for a name, searching the stack top-down; fails with
    /// "Undeclared identifier" when no scope binds it.
    pub fn link(&self, name: &String, pos: SourcePositionData) -> (r: Result<Entry, CompileError>)
        requires
            st_wf(st_model(*self)),
        ensures
            match r {
                Result::Ok(e) => spec_link(st_model(*self), name@) == Option::Some(
                    entry_model(e),
                ),
                Result::Err(e) => spec_link(st_model(*self), name@) is None && e == (CompileError {
                    kind: ErrorKind::UndeclaredIdentifier,
                    pos,
                }),
            },
    {
        let ghost m = st_model(*self);
        let mut i: usize = self.table.len();
        while i > 0
            invariant
                0 <= i <= self.table@.len(),
                m == st_model(*self),
                st_wf(m),
                spec_link(m, name@) == stack_lookup_from(m, name@, i as int - 1),
            decreases i,
        {
            let scope = self.table[i - 1];
            match scope_get(&self.arena[scope], name) {
                Some(j) => {
                    let e = self.arena[scope][j].1.clone();
                    return Ok(e);
                },
                None => {},
            }
            i = i - 1;
        }
        Err(CompileError { kind: ErrorKind::UndeclaredIdentifier, pos })
    }

    /// Looks a member name up in the scope of the class that `class`'s
    /// written type names.
    pub fn get_class_member(
        &self,
        class: &Entry,
        name: &String,
        pos: SourcePositionData,
    ) -> (r: Result<Entry, CompileError>)
        requires
            st_wf(st_model(*self)),
        ensures
            match r {
                Result::Ok(e) => spec_get_class_member(
                    st_model(*self),
                    entry_model(*class),
                    name@,
                    pos,
                ) == Result::<model::Entry, CompileError>::Ok(entry_model(e)),
                Result::Err(e) => spec_get_class_member(
                    st_model(*self),
                    entry_model(*class),
                    name@,
                    pos,
                ) == Result::<model::Entry, CompileError>::Err(e),
            },
    {
        let ghost m = st_model(*self);
        let t = match class {
            Entry::Variable(t) => t,
            _ => {
                return Err(CompileError { kind: ErrorKind::UndefinedType, pos });
            },
        };
        let type_text = t.to_text();
        let c = match self.link(&type_text, pos) {
            Ok(c) => c,
            Err(_) => {
                return Err(CompileError { kind: ErrorKind::UndeclaredIdentifier, pos });
            },
        };
        proof {
            lemma_stack_lookup_wf(m, type_text@, m.table.len() - 1);
        }
        let scope = match c {
            Entry::Class(scope) => scope,
            _ => {
                return Err(CompileError { kind: ErrorKind::UndeclaredIdentifier, pos });
            },
        };
        match scope_get(&self.arena[scope], name) {
            Some(j) => Ok(self.arena[scope][j].1.clone()),
            None => Err(CompileError { kind: ErrorKind::UndeclaredIdentifier, pos }),
        }
    }
}

} // verus!
