//! The textual form of the quad stream: one line per quad, with the globals
//! and per-function frames in bracketed sections.

use crate::ast::formals_model;
use crate::model;
use crate::render::{dec_nat, u64_string, usize_string};
use crate::three_ac::{argument_model, global_model, quad_model, quads_model, Argument, GlobalDecl, Quad};
use vstd::prelude::*;
use vstd::string::StringExecFns;

verus! {

/// How a TAC operand renders: literals as their value, named slots in
/// brackets.
pub open spec fn spec_arg_text(a: model::Argument) -> Seq<char> {
    match a {
        model::Argument::Literal(v) => dec_nat(v as nat),
        model::Argument::Local(n) => "["@ + n + "]"@,
        model::Argument::Global(n) => "["@ + n + "]"@,
    }
}

/// How a three-operand quad renders.
pub open spec fn spec_binary_text(w: model::Argument, op: Seq<char>, x: model::Argument, y: model::Argument) -> Seq<char> {
    spec_arg_text(w) + " := "@ + spec_arg_text(x) + " "@ + op + " "@ + spec_arg_text(y) + "\n"@
}

/// How one entry of the globals section renders.
pub open spec fn spec_global_text(g: model::GlobalDecl) -> Seq<char> {
    match g {
        model::GlobalDecl::Var(n) => "glb_"@ + n,
        model::GlobalDecl::Str(l, v) => l + " \""@ + v + "\""@,
        model::GlobalDecl::Fn(n) => "fn_"@ + n,
    }
}

/// The lines of the globals section.
pub open spec fn spec_global_lines(gs: Seq<model::GlobalDecl>) -> Seq<char>
    decreases gs,
{
    if gs.len() == 0 {
        Seq::empty()
    } else {
        spec_global_lines(gs.drop_last()) + spec_global_text(gs.last()) + "\n"@
    }
}

/// The formal lines of a frame section.
pub open spec fn spec_formal_lines(fs: Seq<model::Formal>) -> Seq<char>
    decreases fs,
{
    if fs.len() == 0 {
        Seq::empty()
    } else {
        spec_formal_lines(fs.drop_last()) + fs.last().id.name + " (formal arg of 8 bytes)\n"@
    }
}

/// The local-variable lines of a frame section.
pub open spec fn spec_local_lines(ids: Seq<model::Id>) -> Seq<char>
    decreases ids,
{
    if ids.len() == 0 {
        Seq::empty()
    } else {
        spec_local_lines(ids.drop_last()) + ids.last().name + " (local var of 8 bytes)\n"@
    }
}

/// The temporary lines of a frame section, for temps `start..end`.
pub open spec fn spec_tmp_lines(start: int, end: int) -> Seq<char>
    decreases end - start,
{
    if end <= start {
        Seq::empty()
    } else {
        spec_tmp_lines(start, end - 1) + "tmp_"@ + dec_nat((end - 1) as nat)
            + " (tmp var of 8 bytes)\n"@
    }
}

/// How one quad renders as a line (or section) of the TAC text.
pub open spec fn spec_quad_text(q: model::Quad) -> Seq<char> {
    match q {
        model::Quad::Add(w, x, y) => spec_binary_text(w, "ADD64"@, x, y),
        model::Quad::And(w, x, y) => spec_binary_text(w, "AND64"@, x, y),
        model::Quad::Assignment(w, x) => spec_arg_text(w) + " := "@ + spec_arg_text(x) + "\n"@,
        model::Quad::Call(w) => "call fn_"@ + w + "\n"@,
        model::Quad::Divide(w, x, y) => spec_binary_text(w, "DIV64"@, x, y),
        model::Quad::Enter(w) => "fn_"@ + w + ": enter "@ + w + "\n"@,
        model::Quad::Exit => "exit\n"@,
        model::Quad::Equals(w, x, y) => spec_binary_text(w, "EQ64"@, x, y),
        model::Quad::GetArg(n, x) => "getarg "@ + dec_nat(n as nat) + " "@ + spec_arg_text(x)
            + "\n"@,
        model::Quad::GetRet(w) => "getret "@ + spec_arg_text(w) + "\n"@,
        model::Quad::Globals(gs) => "[BEGIN GLOBALS]\n"@ + spec_global_lines(gs)
            + "[END GLOBALS]\n"@,
        model::Quad::Goto(w) => "goto "@ + w + "\n"@,
        model::Quad::Greater(w, x, y) => spec_binary_text(w, "GT64"@, x, y),
        model::Quad::GreaterEq(w, x, y) => spec_binary_text(w, "GTE64"@, x, y),
        model::Quad::Ifz(c, w) => "ifz "@ + spec_arg_text(c) + " goto "@ + w + "\n"@,
        model::Quad::Label(w) => w + ": nop\n"@,
        model::Quad::Leave(w, n) => w + ": leave "@ + n + "\n"@,
        model::Quad::Less(w, x, y) => spec_binary_text(w, "LT64"@, x, y),
        model::Quad::LessEq(w, x, y) => spec_binary_text(w, "LTE64"@, x, y),
        model::Quad::Locals(name, formals, locals, temps) => "[BEGIN "@ + name + " LOCALS]\n"@
            + spec_formal_lines(formals) + spec_local_lines(locals) + spec_tmp_lines(
            temps.0,
            temps.1,
        ) + "[END "@ + name + " LOCALS]\n"@,
        model::Quad::Multiply(w, x, y) => spec_binary_text(w, "MULT64"@, x, y),
        model::Quad::Not(w, x) => spec_arg_text(w) + " := NOT64 "@ + spec_arg_text(x) + "\n"@,
        model::Quad::NotEq(w, x, y) => spec_binary_text(w, "NEQ64"@, x, y),
        model::Quad::Or(w, x, y) => spec_binary_text(w, "OR64"@, x, y),
        model::Quad::Read(w) => "read "@ + spec_arg_text(w) + "\n"@,
        model::Quad::SetArg(n, x) => "setarg "@ + dec_nat(n as nat) + " "@ + spec_arg_text(x)
            + "\n"@,
        model::Quad::SetRet(x) => "setret "@ + spec_arg_text(x) + "\n"@,
        model::Quad::Subtract(w, x, y) => spec_binary_text(w, "SUB64"@, x, y),
        model::Quad::WriteInt(x) => "write "@ + spec_arg_text(x) + "\n"@,
        model::Quad::WriteStr(x) => "write "@ + spec_arg_text(x) + "\n"@,
    }
}

/// The whole TAC text: each quad's text in order.
pub open spec fn spec_quads_text(qs: Seq<model::Quad>) -> Seq<char>
    decreases qs,
{
    if qs.len() == 0 {
        Seq::empty()
    } else {
        spec_quads_text(qs.drop_last()) + spec_quad_text(qs.last())
    }
}

/// Renders a TAC operand.
pub fn arg_text(a: &Argument) -> (r: String)
    ensures
        r@ == spec_arg_text(argument_model(*a)),
{
    match a {
        Argument::Literal(v) => u64_string(*v),
        Argument::Local(n) | Argument::Global(n) => {
            let mut s = String::new();
            s.append("[");
            s.append(n.as_str());
            s.append("]");
            proof {
                assert(s@ =~= "["@ + n@ + "]"@);
            }
            s
        },
    }
}

/// Renders a three-operand quad line.
fn binary_text(w: &Argument, op: &str, x: &Argument, y: &Argument) -> (r: String)
    ensures
        r@ == spec_binary_text(argument_model(*w), op@, argument_model(*x), argument_model(*y)),
{
    let mut s = arg_text(w);
    s.append(" := ");
    s.append(arg_text(x).as_str());
    s.append(" ");
    s.append(op);
    s.append(" ");
    s.append(arg_text(y).as_str());
    s.append("\n");
    proof {
        assert(s@ =~= spec_binary_text(
            argument_model(*w),
            op@,
            argument_model(*x),
            argument_model(*y),
        ));
    }
    s
}

impl Quad {
    /// Renders this quad as its line (or section) of the TAC text.
    pub fn to_text(&self) -> (r: String)
        ensures
            r@ == spec_quad_text(quad_model(*self)),
    {
        match self {
            Quad::Add(w, x, y) => binary_text(w, "ADD64", x, y),
            Quad::And(w, x, y) => binary_text(w, "AND64", x, y),
            Quad::Assignment(w, x) => {
                let mut s = arg_text(w);
                s.append(" := ");
                s.append(arg_text(x).as_str());
                s.append("\n");
                proof {
                    assert(s@ =~= spec_quad_text(quad_model(*self)));
                }
                s
            },
            Quad::Call(w) => {
                let mut s = String::new();
                s.append("call fn_");
                s.append(w.as_str());
                s.append("\n");
                proof {
                    assert(s@ =~= spec_quad_text(quad_model(*self)));
                }
                s
            },
            Quad::Divide(w, x, y) => binary_text(w, "DIV64", x, y),
            Quad::Enter(w) => {
                let mut s = String::new();
                s.append("fn_");
                s.append(w.as_str());
                s.append(": enter ");
                s.append(w.as_str());
                s.append("\n");
                proof {
                    assert(s@ =~= spec_quad_text(quad_model(*self)));
                }
                s
            },
            Quad::Exit => {
                let mut s = String::new();
                s.append("exit\n");
                s
            },
            Quad::Equals(w, x, y) => binary_text(w, "EQ64", x, y),
            Quad::GetArg(n, x) => {
                let mut s = String::new();
                s.append("getarg ");
                s.append(usize_string(*n).as_str());
                s.append(" ");
                s.append(arg_text(x).as_str());
                s.append("\n");
                proof {
                    assert(s@ =~= spec_quad_text(quad_model(*self)));
                }
                s
            },
            Quad::GetRet(w) => {
                let mut s = String::new();
                s.append("getret ");
                s.append(arg_text(w).as_str());
                s.append("\n");
                proof {
                    assert(s@ =~= spec_quad_text(quad_model(*self)));
                }
                s
            },
            Quad::Globals(gs) => {
                let mut s = String::new();
                s.append("[BEGIN GLOBALS]\n");
                let ghost gm = crate::three_ac::globals_model(gs@);
                let mut i: usize = 0;
                while i < gs.len()
                    invariant
                        0 <= i <= gs@.len(),
                        gm == crate::three_ac::globals_model(gs@),
                        gm.len() == gs@.len(),
                        s@ == "[BEGIN GLOBALS]\n"@ + spec_global_lines(gm.subrange(0, i as int)),
                    decreases gs@.len() - i,
                {
                    proof {
                        assert(gm.subrange(0, i as int + 1).drop_last() =~= gm.subrange(
                            0,
                            i as int,
                        ));
                        assert(gm.subrange(0, i as int + 1).last() == gm[i as int]);
                    }
                    s.append(global_text(&gs[i]).as_str());
                    s.append("\n");
                    proof {
                        assert(s@ =~= "[BEGIN GLOBALS]\n"@ + spec_global_lines(
                            gm.subrange(0, i as int + 1),
                        ));
                    }
                    i = i + 1;
                }
                s.append("[END GLOBALS]\n");
                proof {
                    assert(gm.subrange(0, gm.len() as int) =~= gm);
                    assert(s@ =~= spec_quad_text(quad_model(*self)));
                }
                s
            },
            Quad::Goto(w) => {
                let mut s = String::new();
                s.append("goto ");
                s.append(w.as_str());
                s.append("\n");
                proof {
                    assert(s@ =~= spec_quad_text(quad_model(*self)));
                }
                s
            },
            Quad::Greater(w, x, y) => binary_text(w, "GT64", x, y),
            Quad::GreaterEq(w, x, y) => binary_text(w, "GTE64", x, y),
            Quad::Ifz(c, w) => {
                let mut s = String::new();
                s.append("ifz ");
                s.append(arg_text(c).as_str());
                s.append(" goto ");
                s.append(w.as_str());
                s.append("\n");
                proof {
                    assert(s@ =~= spec_quad_text(quad_model(*self)));
                }
                s
            },
            Quad::Label(w) => {
                let mut s = w.clone();
                s.append(": nop\n");
                proof {
                    assert(s@ =~= spec_quad_text(quad_model(*self)));
                }
                s
            },
            Quad::Leave(w, n) => {
                let mut s = w.clone();
                s.append(": leave ");
                s.append(n.as_str());
                s.append("\n");
                proof {
                    assert(s@ =~= spec_quad_text(quad_model(*self)));
                }
                s
            },
            Quad::Less(w, x, y) => binary_text(w, "LT64", x, y),
            Quad::LessEq(w, x, y) => binary_text(w, "LTE64", x, y),
            Quad::Locals(name, formals, locals, temps) => {
                let mut s = String::new();
                s.append("[BEGIN ");
                s.append(name.as_str());
                s.append(" LOCALS]\n");
                let ghost head = s@;
                let ghost fm = formals_model(formals@);
                proof {
                    crate::ast::lemma_formals_model_len(formals@);
                }
                let mut i: usize = 0;
                while i < formals.len()
                    invariant
                        0 <= i <= formals@.len(),
                        fm == formals_model(formals@),
                        fm.len() == formals@.len(),
                        s@ == head + spec_formal_lines(fm.subrange(0, i as int)),
                    decreases formals@.len() - i,
                {
                    proof {
                        crate::ast::lemma_formals_model_index(formals@, i as int);
                        assert(fm.subrange(0, i as int + 1).drop_last() =~= fm.subrange(
                            0,
                            i as int,
                        ));
                        assert(fm.subrange(0, i as int + 1).last() == fm[i as int]);
                    }
                    s.append(formals[i].id.name.as_str());
                    s.append(" (formal arg of 8 bytes)\n");
                    proof {
                        assert(s@ =~= head + spec_formal_lines(fm.subrange(0, i as int + 1)));
                    }
                    i = i + 1;
                }
                proof {
                    assert(fm.subrange(0, fm.len() as int) =~= fm);
                }
                let ghost head2 = s@;
                let ghost lm = crate::three_ac::ids_model(locals@);
                let mut j: usize = 0;
                while j < locals.len()
                    invariant
                        0 <= j <= locals@.len(),
                        lm == crate::three_ac::ids_model(locals@),
                        lm.len() == locals@.len(),
                        s@ == head2 + spec_local_lines(lm.subrange(0, j as int)),
                    decreases locals@.len() - j,
                {
                    proof {
                        assert(lm.subrange(0, j as int + 1).drop_last() =~= lm.subrange(
                            0,
                            j as int,
                        ));
                        assert(lm.subrange(0, j as int + 1).last() == lm[j as int]);
                    }
                    s.append(locals[j].name.as_str());
                    s.append(" (local var of 8 bytes)\n");
                    proof {
                        assert(s@ =~= head2 + spec_local_lines(lm.subrange(0, j as int + 1)));
                    }
                    j = j + 1;
                }
                proof {
                    assert(lm.subrange(0, lm.len() as int) =~= lm);
                }
                let ghost head3 = s@;
                let (start, end) = (temps.0, temps.1);
                let mut k: usize = start;
                if start < end {
                    while k < end
                        invariant
                            start <= k <= end,
                            s@ == head3 + spec_tmp_lines(start as int, k as int),
                        decreases end - k,
                    {
                        s.append("tmp_");
                        s.append(usize_string(k).as_str());
                        s.append(" (tmp var of 8 bytes)\n");
                        proof {
                            assert(s@ =~= head3 + spec_tmp_lines(start as int, k as int + 1));
                        }
                        k = k + 1;
                    }
                }
                s.append("[END ");
                s.append(name.as_str());
                s.append(" LOCALS]\n");
                proof {
                    assert(spec_tmp_lines(temps.0 as int, temps.1 as int) == (
                    if temps.0 < temps.1 {
                        spec_tmp_lines(temps.0 as int, temps.1 as int)
                    } else {
                        Seq::<char>::empty()
                    }));
                    assert(s@ =~= spec_quad_text(quad_model(*self)));
                }
                s
            },
            Quad::Multiply(w, x, y) => binary_text(w, "MULT64", x, y),
            Quad::Not(w, x) => {
                let mut s = arg_text(w);
                s.append(" := NOT64 ");
                s.append(arg_text(x).as_str());
                s.append("\n");
                proof {
                    assert(s@ =~= spec_quad_text(quad_model(*self)));
                }
                s
            },
            Quad::NotEq(w, x, y) => binary_text(w, "NEQ64", x, y),
            Quad::Or(w, x, y) => binary_text(w, "OR64", x, y),
            Quad::Read(w) => {
                let mut s = String::new();
                s.append("read ");
                s.append(arg_text(w).as_str());
                s.append("\n");
                proof {
                    assert(s@ =~= spec_quad_text(quad_model(*self)));
                }
                s
            },
            Quad::SetArg(n, x) => {
                let mut s = String::new();
                s.append("setarg ");
                s.append(usize_string(*n).as_str());
                s.append(" ");
                s.append(arg_text(x).as_str());
                s.append("\n");
                proof {
                    assert(s@ =~= spec_quad_text(quad_model(*self)));
                }
                s
            },
            Quad::SetRet(x) => {
                let mut s = String::new();
                s.append("setret ");
                s.append(arg_text(x).as_str());
                s.append("\n");
                proof {
                    assert(s@ =~= spec_quad_text(quad_model(*self)));
                }
                s
            },
            Quad::Subtract(w, x, y) => binary_text(w, "SUB64", x, y),
            Quad::WriteInt(x) => {
                let mut s = String::new();
                s.append("write ");
                s.append(arg_text(x).as_str());
                s.append("\n");
                proof {
                    assert(s@ =~= spec_quad_text(quad_model(*self)));
                }
                s
            },
            Quad::WriteStr(x) => {
                let mut s = String::new();
                s.append("write ");
                s.append(arg_text(x).as_str());
                s.append("\n");
                proof {
                    assert(s@ =~= spec_quad_text(quad_model(*self)));
                }
                s
            },
        }
    }
}

/// Renders one entry of the globals section.
pub fn global_text(g: &GlobalDecl) -> (r: String)
    ensures
        r@ == spec_global_text(global_model(*g)),
{
    match g {
        GlobalDecl::Var(n) => {
            let mut s = String::new();
            s.append("glb_");
            s.append(n.as_str());
            s
        },
        GlobalDecl::Str(l, v) => {
            let mut s = l.clone();
            s.append(" \"");
            s.append(v.as_str());
            s.append("\"");
            proof {
                assert(s@ =~= l@ + " \""@ + v@ + "\""@);
            }
            s
        },
        GlobalDecl::Fn(n) => {
            let mut s = String::new();
            s.append("fn_");
            s.append(n.as_str());
            s
        },
    }
}

/// Renders a whole quad stream.
pub fn quads_text(qs: &Vec<Quad>) -> (r: String)
    ensures
        r@ == spec_quads_text(quads_model(qs@)),
{
    let ghost qm = quads_model(qs@);
    let mut s = String::new();
    let mut i: usize = 0;
    while i < qs.len()
        invariant
            0 <= i <= qs@.len(),
            qm == quads_model(qs@),
            qm.len() == qs@.len(),
            s@ == spec_quads_text(qm.subrange(0, i as int)),
        decreases qs@.len() - i,
    {
        proof {
            assert(qm.subrange(0, i as int + 1).drop_last() =~= qm.subrange(0, i as int));
            assert(qm.subrange(0, i as int + 1).last() == qm[i as int]);
        }
        s.append(qs[i].to_text().as_str());
        proof {
            assert(s@ =~= spec_quads_text(qm.subrange(0, i as int + 1)));
        }
        i = i + 1;
    }
    proof {
        assert(qm.subrange(0, qm.len() as int) =~= qm);
    }
    s
}

} // verus!
