//! The x86-64 backend: translates each quad to AT&T-syntax assembly, with a
//! per-function map from local names to negative frame offsets.

use crate::ast::formals_model;
use crate::model;
use crate::render::{dec_nat, u64_string, usize_string};
use crate::three_ac::{argument_model, quad_model, Argument, GlobalDecl, Quad};
use vstd::prelude::*;
use vstd::string::StringExecFns;

verus! {

/// The backend's per-function state: each local name with its frame offset,
/// in the order the frame assigned them.
#[derive(Debug)]
pub struct X64Context {
    pub locals: Vec<(String, usize)>,
}

/// The model of the frame map.
pub open spec fn locals_model(l: Seq<(String, usize)>) -> Seq<(Seq<char>, int)> {
    Seq::new(l.len(), |i: int| (l[i].0@, l[i].1 as int))
}

/// The frame offset of a name, if the frame assigned one.
pub open spec fn spec_offset_of(l: Seq<(Seq<char>, int)>, name: Seq<char>) -> Option<int>
    decreases l,
{
    if l.len() == 0 {
        Option::None
    } else if l[0].0 == name {
        Option::Some(l[0].1)
    } else {
        spec_offset_of(l.subrange(1, l.len() as int), name)
    }
}

/// Defining one more local: its offset is below all earlier ones.
pub open spec fn spec_define(l: Seq<(Seq<char>, int)>, name: Seq<char>) -> Seq<(Seq<char>, int)> {
    l.push((name, l.len() * 8 + 8int))
}

/// The rounded-up frame size: eight bytes per slot, aligned to sixteen.
pub open spec fn spec_locals_size(l: Seq<(Seq<char>, int)>) -> int {
    let size = l.len() * 8int;
    size + ((16 - size % 16) % 16)
}

/// How a load of an operand into a register renders. A name the frame never
/// assigned renders as nothing.
pub open spec fn spec_load(a: model::Argument, reg: Seq<char>, l: Seq<(Seq<char>, int)>) -> Seq<
    char,
> {
    match a {
        model::Argument::Literal(v) => "movq $"@ + dec_nat(v as nat) + ", "@ + reg + "\n"@,
        model::Argument::Local(n) => match spec_offset_of(l, n) {
            Option::Some(off) => "movq -"@ + dec_nat(off as nat) + "(%rbp), "@ + reg + "\n"@,
            Option::None => Seq::empty(),
        },
        model::Argument::Global(n) => "movq glb_"@ + n + "(%rip), "@ + reg + "\n"@,
    }
}

/// How a store of a register into an operand renders. Literals cannot be
/// stored to and render as nothing.
pub open spec fn spec_store(a: model::Argument, reg: Seq<char>, l: Seq<(Seq<char>, int)>) -> Seq<
    char,
> {
    match a {
        model::Argument::Literal(_) => Seq::empty(),
        model::Argument::Local(n) => match spec_offset_of(l, n) {
            Option::Some(off) => "movq "@ + reg + ", -"@ + dec_nat(off as nat) + "(%rbp)\n"@,
            Option::None => Seq::empty(),
        },
        model::Argument::Global(n) => "movq "@ + reg + ", glb_"@ + n + "(%rip)\n"@,
    }
}

/// The System V argument register for a one-based parameter position, for
/// the first six parameters.
pub open spec fn spec_arg_register(n: int) -> Seq<char> {
    if n == 1 {
        "%rdi"@
    } else if n == 2 {
        "%rsi"@
    } else if n == 3 {
        "%rdx"@
    } else if n == 4 {
        "%rcx"@
    } else if n == 5 {
        "%r8"@
    } else {
        "%r9"@
    }
}

/// A two-register arithmetic body: both operands loaded, the instruction,
/// and the destination stored from `out_reg`.
pub open spec fn spec_arith(
    w: model::Argument,
    x: model::Argument,
    y: model::Argument,
    body: Seq<char>,
    out_reg: Seq<char>,
    l: Seq<(Seq<char>, int)>,
) -> Seq<char> {
    spec_load(x, "%rax"@, l) + spec_load(y, "%rcx"@, l) + body + spec_store(w, out_reg, l)
}

/// A comparison body: `cmpq`, a `setcc`, and a zero-extension, so the
/// destination holds exactly 0 or 1.
pub open spec fn spec_compare(
    w: model::Argument,
    x: model::Argument,
    y: model::Argument,
    setcc: Seq<char>,
    l: Seq<(Seq<char>, int)>,
) -> Seq<char> {
    spec_arith(
        w,
        x,
        y,
        "cmpq %rcx, %rax\n"@ + setcc + " %al\nmovzbq %al, %rax\n"@,
        "%rax"@,
        l,
    )
}

/// The frame map a quad leaves behind: a `Locals` header resets it, every
/// other quad keeps it.
pub open spec fn spec_next_locals(q: model::Quad, l: Seq<(Seq<char>, int)>) -> Seq<
    (Seq<char>, int),
> {
    match q {
        model::Quad::Locals(_, formals, locals, temps) => spec_frame(formals, locals, temps),
        _ => l,
    }
}

/// The frame map a `Locals` header builds: formals, then locals, then the
/// temp range, in order.
pub open spec fn spec_frame(
    formals: Seq<model::Formal>,
    locals: Seq<model::Id>,
    temps: (int, int),
) -> Seq<(Seq<char>, int)> {
    spec_frame_tmps(
        spec_frame_locals(spec_frame_formals(Seq::empty(), formals), locals),
        temps.0,
        temps.1,
    )
}

/// Defines each formal in order.
pub open spec fn spec_frame_formals(
    l: Seq<(Seq<char>, int)>,
    formals: Seq<model::Formal>,
) -> Seq<(Seq<char>, int)>
    decreases formals,
{
    if formals.len() == 0 {
        l
    } else {
        spec_define(spec_frame_formals(l, formals.drop_last()), formals.last().id.name)
    }
}

/// Defines each local in order.
pub open spec fn spec_frame_locals(
    l: Seq<(Seq<char>, int)>,
    locals: Seq<model::Id>,
) -> Seq<(Seq<char>, int)>
    decreases locals,
{
    if locals.len() == 0 {
        l
    } else {
        spec_define(spec_frame_locals(l, locals.drop_last()), locals.last().name)
    }
}

/// Defines each temporary of `start..end` in order.
pub open spec fn spec_frame_tmps(l: Seq<(Seq<char>, int)>, start: int, end: int) -> Seq<
    (Seq<char>, int),
>
    decreases end - start,
{
    if end <= start {
        l
    } else {
        spec_define(spec_frame_tmps(l, start, end - 1), "tmp_"@ + dec_nat((end - 1) as nat))
    }
}

/// How one quad compiles to assembly against a frame map.
pub open spec fn spec_compile_x64(q: model::Quad, l: Seq<(Seq<char>, int)>) -> Seq<char> {
    match q {
        model::Quad::Add(w, x, y) => spec_arith(w, x, y, "addq %rax, %rcx\n"@, "%rcx"@, l),
        model::Quad::And(w, x, y) => spec_arith(w, x, y, "andq %rax, %rcx\n"@, "%rcx"@, l),
        model::Quad::Assignment(w, x) => spec_load(x, "%rax"@, l) + spec_store(w, "%rax"@, l),
        model::Quad::Call(name) => "call fn_"@ + name + "\n"@,
        model::Quad::Divide(w, x, y) => spec_arith(
            w,
            x,
            y,
            "cqo\nidivq %rcx\n"@,
            "%rax"@,
            l,
        ),
        model::Quad::Enter(name) => "fn_"@ + name + ": push %rbp\nmovq %rsp, %rbp\nsubq $"@
            + dec_nat(spec_locals_size(l) as nat) + ", %rsp\n"@,
        model::Quad::Exit => "movq $60, %rax\nmovq $0, %rdi\nsyscall\n"@,
        model::Quad::Equals(w, x, y) => spec_compare(w, x, y, "sete"@, l),
        model::Quad::GetArg(n, x) => if 1 <= n <= 6 {
            spec_store(x, spec_arg_register(n), l)
        } else {
            Seq::empty()
        },
        model::Quad::GetRet(w) => spec_store(w, "%rax"@, l),
        model::Quad::Globals(gs) => ".globl main\n.bss\n.align 32\n.size FGETS_BUFFER, 1024\nFGETS_BUFFER: .zero 1024\n.data\nint_fmt: .string \"%d\\n\"\n"@
            + spec_globals_asm(gs) + ".text\n"@,
        model::Quad::Goto(target) => "jmp "@ + target + "\n"@,
        model::Quad::Greater(w, x, y) => spec_compare(w, x, y, "setg"@, l),
        model::Quad::GreaterEq(w, x, y) => spec_compare(w, x, y, "setge"@, l),
        model::Quad::Ifz(c, label) => spec_load(c, "%rax"@, l) + "cmpq $0, %rax\nje "@ + label
            + "\n"@,
        model::Quad::Label(name) => name + ": nop\n"@,
        model::Quad::Leave(label, _) => label + ": leave\nret\n"@,
        model::Quad::Less(w, x, y) => spec_compare(w, x, y, "setl"@, l),
        model::Quad::LessEq(w, x, y) => spec_compare(w, x, y, "setle"@, l),
        model::Quad::Locals(_, _, _, _) => Seq::empty(),
        model::Quad::Multiply(w, x, y) => spec_arith(w, x, y, "imulq %rax, %rcx\n"@, "%rcx"@, l),
        model::Quad::Not(w, x) => spec_load(x, "%rax"@, l) + "xorq $1, %rax\n"@ + spec_store(
            w,
            "%rax"@,
            l,
        ),
        model::Quad::NotEq(w, x, y) => spec_compare(w, x, y, "setne"@, l),
        model::Quad::Or(w, x, y) => spec_arith(w, x, y, "orq %rax, %rcx\n"@, "%rcx"@, l),
        model::Quad::Read(w) => "leaq FGETS_BUFFER(%rip), %rdi\nmovq $1024, %rsi\nmovq stdin(%rip), %rdx\ncall fgets\nmovq %rax, %rdi\ncall atoi\n"@
            + spec_store(w, "%rax"@, l),
        model::Quad::SetArg(n, x) => if 1 <= n <= 6 {
            spec_load(x, spec_arg_register(n), l)
        } else {
            Seq::empty()
        },
        model::Quad::SetRet(x) => spec_load(x, "%rax"@, l),
        model::Quad::Subtract(w, x, y) => spec_arith(
            w,
            x,
            y,
            "subq %rcx, %rax\n"@,
            "%rax"@,
            l,
        ),
        model::Quad::WriteInt(x) => spec_load(x, "%rsi"@, l)
            + "movq $int_fmt, %rdi\ncall printf\n"@,
        model::Quad::WriteStr(x) => match x {
            model::Argument::Global(s) => "movq $"@ + s + ", %rdi\ncall puts\n"@,
            _ => Seq::empty(),
        },
    }
}

/// The data lines of the globals section: one `.string` per string constant
/// and one `.zero 8` slot per global variable.
pub open spec fn spec_globals_asm(gs: Seq<model::GlobalDecl>) -> Seq<char>
    decreases gs,
{
    if gs.len() == 0 {
        Seq::empty()
    } else {
        spec_globals_asm(gs.drop_last()) + (match gs.last() {
            model::GlobalDecl::Var(n) => "glb_"@ + n + ": .zero 8\n"@,
            model::GlobalDecl::Str(l, v) => l + ": .string \""@ + v + "\"\n"@,
            model::GlobalDecl::Fn(_) => Seq::empty(),
        })
    }
}

/// How a whole quad stream compiles: each quad against the frame map its
/// `Locals` headers establish, starting from an empty frame.
pub open spec fn spec_compile_all(qs: Seq<model::Quad>, l: Seq<(Seq<char>, int)>) -> Seq<char>
    decreases qs,
{
    if qs.len() == 0 {
        Seq::empty()
    } else {
        spec_compile_all(qs.drop_last(), l) + spec_compile_x64(
            qs.last(),
            spec_locals_after(qs.drop_last(), l),
        )
    }
}

/// The frame map after a stream of quads.
pub open spec fn spec_locals_after(qs: Seq<model::Quad>, l: Seq<(Seq<char>, int)>) -> Seq<
    (Seq<char>, int),
>
    decreases qs,
{
    if qs.len() == 0 {
        l
    } else {
        spec_next_locals(qs.last(), spec_locals_after(qs.drop_last(), l))
    }
}

/// Whether a quad's frame demands fit the machine's word size.
pub open spec fn x64_fits(q: model::Quad, l: Seq<(Seq<char>, int)>) -> bool {
    match q {
        model::Quad::Locals(_, formals, locals, temps) => formals.len() + locals.len() + (
        if temps.1 > temps.0 {
            temps.1 - temps.0
        } else {
            0
        }) <= (usize::MAX - 16) / 8,
        model::Quad::Enter(_) => l.len() * 8 + 16 <= usize::MAX,
        _ => true,
    }
}

impl X64Context {
    /// A fresh backend context with no frame.
    pub fn new() -> (r: Self)
        ensures
            locals_model(r.locals@) == Seq::<(Seq<char>, int)>::empty(),
    {
        let r = X64Context { locals: Vec::new() };
        proof {
            assert(locals_model(r.locals@) =~= Seq::<(Seq<char>, int)>::empty());
        }
        r
    }

    /// Starts a fresh frame.
    pub fn reset_fn(&mut self)
        ensures
            locals_model(final(self).locals@) == Seq::<(Seq<char>, int)>::empty(),
    {
        self.locals = Vec::new();
        proof {
            assert(locals_model(self.locals@) =~= Seq::<(Seq<char>, int)>::empty());
        }
    }

    /// Assigns the next frame slot to a name.
    pub fn define_local(&mut self, name: &String)
        requires
            old(self).locals@.len() * 8 + 8 <= usize::MAX,
        ensures
            locals_model(final(self).locals@) == spec_define(
                locals_model(old(self).locals@),
                name@,
            ),
    {
        let position = self.locals.len() * 8 + 8;
        self.locals.push((name.clone(), position));
        proof {
            assert(locals_model(self.locals@) =~= spec_define(
                locals_model(old(self).locals@),
                name@,
            ));
        }
    }

    /// The rounded-up frame size.
    pub fn get_locals_size(&self) -> (r: usize)
        requires
            self.locals@.len() * 8 + 16 <= usize::MAX,
        ensures
            r == spec_locals_size(locals_model(self.locals@)),
    {
        let size = self.locals.len() * 8;
        size + ((16 - size % 16) % 16)
    }

    /// The frame offset of a name, if the frame assigned one.
    fn offset_of(&self, name: &String) -> (r: Option<usize>)
        ensures
            match r {
                Option::Some(off) => spec_offset_of(locals_model(self.locals@), name@)
                    == Option::Some(off as int),
                Option::None => spec_offset_of(locals_model(self.locals@), name@) is None,
            },
    {
        let ghost lm = locals_model(self.locals@);
        proof {
            assert(lm.subrange(0, lm.len() as int) =~= lm);
        }
        let mut i: usize = 0;
        while i < self.locals.len()
            invariant
                0 <= i <= self.locals@.len(),
                lm == locals_model(self.locals@),
                lm.len() == self.locals@.len(),
                spec_offset_of(lm, name@) == spec_offset_of(
                    lm.subrange(i as int, lm.len() as int),
                    name@,
                ),
            decreases self.locals@.len() - i,
        {
            proof {
                let tail = lm.subrange(i as int, lm.len() as int);
                assert(tail[0] == lm[i as int]);
                assert(tail.subrange(1, tail.len() as int) =~= lm.subrange(
                    i as int + 1,
                    lm.len() as int,
                ));
            }
            if self.locals[i].0.eq(name) {
                return Some(self.locals[i].1);
            }
            i = i + 1;
        }
        proof {
            assert(lm.subrange(lm.len() as int, lm.len() as int) =~= Seq::<
                (Seq<char>, int),
            >::empty());
        }
        None
    }
}

/// Renders a load of an operand into a register.
pub fn load(arg: &Argument, register: &str, ctx: &X64Context) -> (r: String)
    ensures
        r@ == spec_load(argument_model(*arg), register@, locals_model(ctx.locals@)),
{
    match arg {
        Argument::Literal(value) => {
            let mut s = String::new();
            s.append("movq $");
            s.append(u64_string(*value).as_str());
            s.append(", ");
            s.append(register);
            s.append("\n");
            proof {
                assert(s@ =~= spec_load(
                    argument_model(*arg),
                    register@,
                    locals_model(ctx.locals@),
                ));
            }
            s
        },
        Argument::Local(name) => load_local(name, register, ctx),
        Argument::Global(name) => {
            let mut s = String::new();
            s.append("movq glb_");
            s.append(name.as_str());
            s.append("(%rip), ");
            s.append(register);
            s.append("\n");
            proof {
                assert(s@ =~= spec_load(
                    argument_model(*arg),
                    register@,
                    locals_model(ctx.locals@),
                ));
            }
            s
        },
    }
}

/// Renders a store of a register into an operand.
pub fn write(arg: &Argument, register: &str, ctx: &X64Context) -> (r: String)
    ensures
        r@ == spec_store(argument_model(*arg), register@, locals_model(ctx.locals@)),
{
    match arg {
        Argument::Literal(_) => String::new(),
        Argument::Local(name) => write_local(name, register, ctx),
        Argument::Global(name) => {
            let mut s = String::new();
            s.append("movq ");
            s.append(register);
            s.append(", glb_");
            s.append(name.as_str());
            s.append("(%rip)\n");
            proof {
                assert(s@ =~= spec_store(
                    argument_model(*arg),
                    register@,
                    locals_model(ctx.locals@),
                ));
            }
            s
        },
    }
}

/// Renders a load of a frame slot into a register.
pub fn load_local(name: &String, register: &str, ctx: &X64Context) -> (r: String)
    ensures
        r@ == spec_load(
            model::Argument::Local(name@),
            register@,
            locals_model(ctx.locals@),
        ),
{
    match ctx.offset_of(name) {
        None => String::new(),
        Some(position) => {
            let mut s = String::new();
            s.append("movq -");
            s.append(usize_string(position).as_str());
            s.append("(%rbp), ");
            s.append(register);
            s.append("\n");
            proof {
                assert(s@ =~= spec_load(
                    model::Argument::Local(name@),
                    register@,
                    locals_model(ctx.locals@),
                ));
            }
            s
        },
    }
}

/// Renders a store of a register into a frame slot.
pub fn write_local(name: &String, register: &str, ctx: &X64Context) -> (r: String)
    ensures
        r@ == spec_store(
            model::Argument::Local(name@),
            register@,
            locals_model(ctx.locals@),
        ),
{
    match ctx.offset_of(name) {
        None => String::new(),
        Some(position) => {
            let mut s = String::new();
            s.append("movq ");
            s.append(register);
            s.append(", -");
            s.append(usize_string(position).as_str());
            s.append("(%rbp)\n");
            proof {
                assert(s@ =~= spec_store(
                    model::Argument::Local(name@),
                    register@,
                    locals_model(ctx.locals@),
                ));
            }
            s
        },
    }
}

/// Renders a two-register arithmetic sequence.
fn arith(
    w: &Argument,
    x: &Argument,
    y: &Argument,
    body: &str,
    out_reg: &str,
    ctx: &X64Context,
) -> (r: String)
    ensures
        r@ == spec_arith(
            argument_model(*w),
            argument_model(*x),
            argument_model(*y),
            body@,
            out_reg@,
            locals_model(ctx.locals@),
        ),
{
    let mut s = load(x, "%rax", ctx);
    s.append(load(y, "%rcx", ctx).as_str());
    s.append(body);
    s.append(write(w, out_reg, ctx).as_str());
    s
}

/// Renders a comparison sequence ending with a `setcc` and zero-extension.
fn compare(w: &Argument, x: &Argument, y: &Argument, setcc: &str, ctx: &X64Context) -> (r: String)
    ensures
        r@ == spec_compare(
            argument_model(*w),
            argument_model(*x),
            argument_model(*y),
            setcc@,
            locals_model(ctx.locals@),
        ),
{
    let mut s = load(x, "%rax", ctx);
    s.append(load(y, "%rcx", ctx).as_str());
    s.append("cmpq %rcx, %rax\n");
    s.append(setcc);
    s.append(" %al\nmovzbq %al, %rax\n");
    s.append(write(w, "%rax", ctx).as_str());
    proof {
        assert(s@ =~= spec_compare(
            argument_model(*w),
            argument_model(*x),
            argument_model(*y),
            setcc@,
            locals_model(ctx.locals@),
        ));
    }
    s
}

/// The System V argument register for a one-based parameter position.
fn arg_register(n: usize) -> (r: &'static str)
    requires
        1 <= n <= 6,
    ensures
        r@ == spec_arg_register(n as int),
{
    if n == 1 {
        "%rdi"
    } else if n == 2 {
        "%rsi"
    } else if n == 3 {
        "%rdx"
    } else if n == 4 {
        "%rcx"
    } else if n == 5 {
        "%r8"
    } else {
        "%r9"
    }
}

impl Quad {
    /// Compiles this quad to assembly, updating the frame map on a `Locals`
    /// header.
    #[verifier::rlimit(60)]
    pub fn compile_x64(&self, ctx: &mut X64Context) -> (r: String)
        requires
            x64_fits(quad_model(*self), locals_model(old(ctx).locals@)),
        ensures
            r@ == spec_compile_x64(quad_model(*self), locals_model(old(ctx).locals@)),
            locals_model(final(ctx).locals@) == spec_next_locals(
                quad_model(*self),
                locals_model(old(ctx).locals@),
            ),
    {
        match self {
            Quad::Add(w, x, y) => arith(w, x, y, "addq %rax, %rcx\n", "%rcx", ctx),
            Quad::And(w, x, y) => arith(w, x, y, "andq %rax, %rcx\n", "%rcx", ctx),
            Quad::Assignment(w, x) => {
                let mut s = load(x, "%rax", ctx);
                s.append(write(w, "%rax", ctx).as_str());
                s
            },
            Quad::Call(name) => {
                let mut s = String::new();
                s.append("call fn_");
                s.append(name.as_str());
                s.append("\n");
                proof {
                    assert(s@ =~= spec_compile_x64(
                        quad_model(*self),
                        locals_model(ctx.locals@),
                    ));
                }
                s
            },
            Quad::Divide(w, x, y) => arith(w, x, y, "cqo\nidivq %rcx\n", "%rax", ctx),
            Quad::Enter(name) => {
                let size = ctx.get_locals_size();
                let mut s = String::new();
                s.append("fn_");
                s.append(name.as_str());
                s.append(": push %rbp\nmovq %rsp, %rbp\nsubq $");
                s.append(usize_string(size).as_str());
                s.append(", %rsp\n");
                proof {
                    assert(s@ =~= spec_compile_x64(
                        quad_model(*self),
                        locals_model(ctx.locals@),
                    ));
                }
                s
            },
            Quad::Exit => {
                let mut s = String::new();
                s.append("movq $60, %rax\nmovq $0, %rdi\nsyscall\n");
                s
            },
            Quad::Equals(w, x, y) => compare(w, x, y, "sete", ctx),
            Quad::GetArg(number, variable) => {
                if 1 <= *number && *number <= 6 {
                    write(variable, arg_register(*number), ctx)
                } else {
                    String::new()
                }
            },
            Quad::GetRet(location) => write(location, "%rax", ctx),
            Quad::Globals(globals) => {
                let mut s = String::new();
                s.append(
                    ".globl main\n.bss\n.align 32\n.size FGETS_BUFFER, 1024\nFGETS_BUFFER: .zero 1024\n.data\nint_fmt: .string \"%d\\n\"\n",
                );
                let ghost head = s@;
                let ghost gm = crate::three_ac::globals_model(globals@);
                let mut i: usize = 0;
                while i < globals.len()
                    invariant
                        0 <= i <= globals@.len(),
                        gm == crate::three_ac::globals_model(globals@),
                        gm.len() == globals@.len(),
                        s@ == head + spec_globals_asm(gm.subrange(0, i as int)),
                    decreases globals@.len() - i,
                {
                    proof {
                        assert(gm.subrange(0, i as int + 1).drop_last() =~= gm.subrange(
                            0,
                            i as int,
                        ));
                        assert(gm.subrange(0, i as int + 1).last() == gm[i as int]);
                    }
                    match &globals[i] {
                        GlobalDecl::Var(n) => {
                            s.append("glb_");
                            s.append(n.as_str());
                            s.append(": .zero 8\n");
                        },
                        GlobalDecl::Str(l, v) => {
                            s.append(l.as_str());
                            s.append(": .string \"");
                            s.append(v.as_str());
                            s.append("\"\n");
                        },
                        GlobalDecl::Fn(_) => {},
                    }
                    proof {
                        assert(s@ =~= head + spec_globals_asm(gm.subrange(0, i as int + 1)));
                    }
                    i = i + 1;
                }
                s.append(".text\n");
                proof {
                    assert(gm.subrange(0, gm.len() as int) =~= gm);
                    assert(s@ =~= spec_compile_x64(
                        quad_model(*self),
                        locals_model(ctx.locals@),
                    ));
                }
                s
            },
            Quad::Goto(target) => {
                let mut s = String::new();
                s.append("jmp ");
                s.append(target.as_str());
                s.append("\n");
                proof {
                    assert(s@ =~= spec_compile_x64(
                        quad_model(*self),
                        locals_model(ctx.locals@),
                    ));
                }
                s
            },
            Quad::Greater(w, x, y) => compare(w, x, y, "setg", ctx),
            Quad::GreaterEq(w, x, y) => compare(w, x, y, "setge", ctx),
            Quad::Ifz(condition, label) => {
                let mut s = load(condition, "%rax", ctx);
                s.append("cmpq $0, %rax\nje ");
                s.append(label.as_str());
                s.append("\n");
                proof {
                    assert(s@ =~= spec_compile_x64(
                        quad_model(*self),
                        locals_model(ctx.locals@),
                    ));
                }
                s
            },
            Quad::Label(name) => {
                let mut s = name.clone();
                s.append(": nop\n");
                proof {
                    assert(s@ =~= spec_compile_x64(
                        quad_model(*self),
                        locals_model(ctx.locals@),
                    ));
                }
                s
            },
            Quad::Leave(label, _) => {
                let mut s = label.clone();
                s.append(": leave\nret\n");
                proof {
                    assert(s@ =~= spec_compile_x64(
                        quad_model(*self),
                        locals_model(ctx.locals@),
                    ));
                }
                s
            },
            Quad::Less(w, x, y) => compare(w, x, y, "setl", ctx),
            Quad::LessEq(w, x, y) => compare(w, x, y, "setle", ctx),
            Quad::Locals(_, formals, locals, temps) => {
                ctx.reset_fn();
                let ghost fm = formals_model(formals@);
                let ghost lm0 = crate::three_ac::ids_model(locals@);
                proof {
                    crate::ast::lemma_formals_model_len(formals@);
                }
                let mut i: usize = 0;
                while i < formals.len()
                    invariant
                        0 <= i <= formals@.len(),
                        fm == formals_model(formals@),
                        fm.len() == formals@.len(),
                        lm0 == crate::three_ac::ids_model(locals@),
                        lm0.len() == locals@.len(),
                        fm.len() + lm0.len() + (if temps.1 > temps.0 {
                            temps.1 - temps.0
                        } else {
                            0int
                        }) <= (usize::MAX - 16) / 8,
                        locals_model(ctx.locals@).len() == i,
                        locals_model(ctx.locals@) == spec_frame_formals(
                            Seq::empty(),
                            fm.subrange(0, i as int),
                        ),
                    decreases formals@.len() - i,
                {
                    proof {
                        crate::ast::lemma_formals_model_index(formals@, i as int);
                        assert(fm.subrange(0, i as int + 1).drop_last() =~= fm.subrange(
                            0,
                            i as int,
                        ));
                        assert(fm.subrange(0, i as int + 1).last() == fm[i as int]);
                    }
                    ctx.define_local(&formals[i].id.name);
                    i = i + 1;
                }
                proof {
                    assert(fm.subrange(0, fm.len() as int) =~= fm);
                }
                let mut j: usize = 0;
                while j < locals.len()
                    invariant
                        0 <= j <= locals@.len(),
                        fm == formals_model(formals@),
                        lm0 == crate::three_ac::ids_model(locals@),
                        lm0.len() == locals@.len(),
                        fm.len() + lm0.len() + (if temps.1 > temps.0 {
                            temps.1 - temps.0
                        } else {
                            0int
                        }) <= (usize::MAX - 16) / 8,
                        locals_model(ctx.locals@).len() == fm.len() + j,
                        locals_model(ctx.locals@) == spec_frame_locals(
                            spec_frame_formals(Seq::empty(), fm),
                            lm0.subrange(0, j as int),
                        ),
                    decreases locals@.len() - j,
                {
                    proof {
                        assert(lm0.subrange(0, j as int + 1).drop_last() =~= lm0.subrange(
                            0,
                            j as int,
                        ));
                        assert(lm0.subrange(0, j as int + 1).last() == lm0[j as int]);
                    }
                    ctx.define_local(&locals[j].name);
                    j = j + 1;
                }
                proof {
                    assert(lm0.subrange(0, lm0.len() as int) =~= lm0);
                }
                let (start, end) = (temps.0, temps.1);
                let mut k: usize = start;
                if start < end {
                    while k < end
                        invariant
                            start <= k <= end,
                            fm == formals_model(formals@),
                            lm0 == crate::three_ac::ids_model(locals@),
                            fm.len() + lm0.len() + (end - start) <= (usize::MAX - 16) / 8,
                            locals_model(ctx.locals@).len() == fm.len() + lm0.len() + (k
                                - start),
                            locals_model(ctx.locals@) == spec_frame_tmps(
                                spec_frame_locals(spec_frame_formals(Seq::empty(), fm), lm0),
                                start as int,
                                k as int,
                            ),
                        decreases end - k,
                    {
                        let mut t = String::new();
                        t.append("tmp_");
                        t.append(usize_string(k).as_str());
                        ctx.define_local(&t);
                        k = k + 1;
                    }
                }
                proof {
                    assert(spec_next_locals(quad_model(*self), locals_model(old(ctx).locals@))
                        == spec_frame(fm, lm0, (temps.0 as int, temps.1 as int)));
                    assert(locals_model(ctx.locals@) == spec_frame(
                        fm,
                        lm0,
                        (temps.0 as int, temps.1 as int),
                    ));
                }
                String::new()
            },
            Quad::Multiply(w, x, y) => arith(w, x, y, "imulq %rax, %rcx\n", "%rcx", ctx),
            Quad::Not(w, x) => {
                let mut s = load(x, "%rax", ctx);
                s.append("xorq $1, %rax\n");
                s.append(write(w, "%rax", ctx).as_str());
                proof {
                    assert(s@ =~= spec_compile_x64(
                        quad_model(*self),
                        locals_model(ctx.locals@),
                    ));
                }
                s
            },
            Quad::NotEq(w, x, y) => compare(w, x, y, "setne", ctx),
            Quad::Or(w, x, y) => arith(w, x, y, "orq %rax, %rcx\n", "%rcx", ctx),
            Quad::Read(variable) => {
                let mut s = String::new();
                s.append(
                    "leaq FGETS_BUFFER(%rip), %rdi\nmovq $1024, %rsi\nmovq stdin(%rip), %rdx\ncall fgets\nmovq %rax, %rdi\ncall atoi\n",
                );
                s.append(write(variable, "%rax", ctx).as_str());
                proof {
                    assert(s@ =~= spec_compile_x64(
                        quad_model(*self),
                        locals_model(ctx.locals@),
                    ));
                }
                s
            },
            Quad::SetArg(number, variable) => {
                if 1 <= *number && *number <= 6 {
                    load(variable, arg_register(*number), ctx)
                } else {
                    String::new()
                }
            },
            Quad::SetRet(argument) => load(argument, "%rax", ctx),
            Quad::Subtract(w, x, y) => arith(w, x, y, "subq %rcx, %rax\n", "%rax", ctx),
            Quad::WriteInt(argument) => {
                let mut s = load(argument, "%rsi", ctx);
                s.append("movq $int_fmt, %rdi\ncall printf\n");
                s
            },
            Quad::WriteStr(argument) => {
                match argument {
                    Argument::Global(name) => {
                        let mut s = String::new();
                        s.append("movq $");
                        s.append(name.as_str());
                        s.append(", %rdi\ncall puts\n");
                        proof {
                            assert(s@ =~= spec_compile_x64(
                                quad_model(*self),
                                locals_model(ctx.locals@),
                            ));
                        }
                        s
                    },
                    _ => String::new(),
                }
            },
        }
    }
}

/// Compiles a whole quad stream to assembly, starting from an empty frame.
pub fn compile_program(qs: &Vec<Quad>) -> (r: String)
    requires
        forall|i: int|
            0 <= i < crate::three_ac::quads_model(qs@).len() ==> x64_fits(
                #[trigger] crate::three_ac::quads_model(qs@)[i],
                spec_locals_after(
                    crate::three_ac::quads_model(qs@).subrange(0, i),
                    Seq::empty(),
                ),
            ),
    ensures
        r@ == spec_compile_all(crate::three_ac::quads_model(qs@), Seq::empty()),
{
    let ghost qm = crate::three_ac::quads_model(qs@);
    let mut ctx = X64Context::new();
    let mut s = String::new();
    let mut i: usize = 0;
    while i < qs.len()
        invariant
            0 <= i <= qs@.len(),
            qm == crate::three_ac::quads_model(qs@),
            qm.len() == qs@.len(),
            forall|k: int|
                0 <= k < qm.len() ==> x64_fits(
                    #[trigger] qm[k],
                    spec_locals_after(qm.subrange(0, k), Seq::empty()),
                ),
            locals_model(ctx.locals@) == spec_locals_after(
                qm.subrange(0, i as int),
                Seq::empty(),
            ),
            s@ == spec_compile_all(qm.subrange(0, i as int), Seq::empty()),
        decreases qs@.len() - i,
    {
        proof {
            assert(qm.subrange(0, i as int + 1).drop_last() =~= qm.subrange(0, i as int));
            assert(qm.subrange(0, i as int + 1).last() == qm[i as int]);
        }
        s.append(qs[i].compile_x64(&mut ctx).as_str());
        proof {
            assert(s@ =~= spec_compile_all(qm.subrange(0, i as int + 1), Seq::empty()));
        }
        i = i + 1;
    }
    proof {
        assert(qm.subrange(0, qm.len() as int) =~= qm);
    }
    s
}

} // verus!
