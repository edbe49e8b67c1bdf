//! The code generator: maps one parsed VM instruction and the current
//! translation context to the exact target-assembly sequence implementing
//! its effect on the stack machine. Every public function's output text is
//! pinned, via the structured instruction sequences of `assembly`, by a
//! spec function of the instruction and the context.
use vstd::prelude::*;

use crate::assembly::{
    render, render_seq, AsmInstr, AsmInstrV, Comp, Dest, Jmp,
};
use crate::context::{Context, CtxView, ErrorKind};
use crate::parser::{line_arg1, line_arg2, line_kind, CommandType};
use crate::strutil::{dec_rep, str_eq, u16_to_string, u64_to_string};

verus! {

/// Code that pushes the D register onto the stack.
pub open spec fn push_d() -> Seq<AsmInstrV> {
    seq![
        AsmInstrV::AtSym("SP"@),
        AsmInstrV::CInstr(Dest::RegM, Comp::MPlusOne, Jmp::NoJump),
        AsmInstrV::CInstr(Dest::RegA, Comp::MMinusOne, Jmp::NoJump),
        AsmInstrV::CInstr(Dest::RegM, Comp::CompD, Jmp::NoJump),
    ]
}

/// Code that pops the top of the stack into the D register.
pub open spec fn pop_to_d() -> Seq<AsmInstrV> {
    seq![
        AsmInstrV::AtSym("SP"@),
        AsmInstrV::CInstr(Dest::RegAM, Comp::MMinusOne, Jmp::NoJump),
        AsmInstrV::CInstr(Dest::RegD, Comp::CompM, Jmp::NoJump),
    ]
}

/// Code for a two-argument operator: pops the top two values, combines them
/// with the given computation (D holds the old top, M the value under it),
/// and leaves the result on the stack.
pub open spec fn binary_op_code(c: Comp) -> Seq<AsmInstrV> {
    seq![
        AsmInstrV::AtSym("SP"@),
        AsmInstrV::CInstr(Dest::RegAM, Comp::MMinusOne, Jmp::NoJump),
        AsmInstrV::CInstr(Dest::RegD, Comp::CompM, Jmp::NoJump),
        AsmInstrV::CInstr(Dest::RegA, Comp::AMinusOne, Jmp::NoJump),
        AsmInstrV::CInstr(Dest::RegM, c, Jmp::NoJump),
    ]
}

/// Code for a one-argument operator: transforms the top value in place.
pub open spec fn unary_op_code(c: Comp) -> Seq<AsmInstrV> {
    seq![
        AsmInstrV::AtSym("SP"@),
        AsmInstrV::CInstr(Dest::RegA, Comp::MMinusOne, Jmp::NoJump),
        AsmInstrV::CInstr(Dest::RegM, c, Jmp::NoJump),
    ]
}

/// The true-branch target a comparison numbered `n` jumps to.
pub open spec fn cmp_true_label(n: nat) -> Seq<char> {
    "CMP_TRUE_"@ + dec_rep(n)
}

/// The continuation label a comparison numbered `n` converges on.
pub open spec fn cmp_end_label(n: nat) -> Seq<char> {
    "CMP_END_"@ + dec_rep(n)
}

/// Code for a comparison operator numbered `n`: pops two values, computes
/// their signed difference, branches to a fresh true-path label pushing all
/// ones, else pushes all zeros, and converges on a fresh continuation label.
pub open spec fn compare_op_code(j: Jmp, n: nat) -> Seq<AsmInstrV> {
    seq![
        AsmInstrV::AtSym("SP"@),
        AsmInstrV::CInstr(Dest::RegAM, Comp::MMinusOne, Jmp::NoJump),
        AsmInstrV::CInstr(Dest::RegD, Comp::CompM, Jmp::NoJump),
        AsmInstrV::CInstr(Dest::RegA, Comp::AMinusOne, Jmp::NoJump),
        AsmInstrV::CInstr(Dest::RegD, Comp::MMinusD, Jmp::NoJump),
        AsmInstrV::AtSym(cmp_true_label(n)),
        AsmInstrV::CInstr(Dest::NoDest, Comp::CompD, j),
        AsmInstrV::AtSym("SP"@),
        AsmInstrV::CInstr(Dest::RegA, Comp::MMinusOne, Jmp::NoJump),
        AsmInstrV::CInstr(Dest::RegM, Comp::Zero, Jmp::NoJump),
        AsmInstrV::AtSym(cmp_end_label(n)),
        AsmInstrV::CInstr(Dest::NoDest, Comp::Zero, Jmp::JmpAlways),
        AsmInstrV::LabelDef(cmp_true_label(n)),
        AsmInstrV::AtSym("SP"@),
        AsmInstrV::CInstr(Dest::RegA, Comp::MMinusOne, Jmp::NoJump),
        AsmInstrV::CInstr(Dest::RegM, Comp::NegOne, Jmp::NoJump),
        AsmInstrV::LabelDef(cmp_end_label(n)),
    ]
}

/// What generating an arithmetic command yields: its code and the context
/// after it, with the comparison counter advanced exactly on `eq`, `gt` and
/// `lt`; an unrecognized operator name is a malformed instruction.
pub open spec fn spec_gen_arith(op: Seq<char>, ctx: CtxView) -> Result<
    (Seq<AsmInstrV>, CtxView),
    ErrorKind,
> {
    if op == "add"@ {
        Ok((binary_op_code(Comp::DPlusM), ctx))
    } else if op == "sub"@ {
        Ok((binary_op_code(Comp::MMinusD), ctx))
    } else if op == "and"@ {
        Ok((binary_op_code(Comp::DAndM), ctx))
    } else if op == "or"@ {
        Ok((binary_op_code(Comp::DOrM), ctx))
    } else if op == "neg"@ {
        Ok((unary_op_code(Comp::NegM), ctx))
    } else if op == "not"@ {
        Ok((unary_op_code(Comp::NotM), ctx))
    } else if op == "eq"@ {
        Ok((
            compare_op_code(Jmp::Jeq, ctx.comparison_counter),
            CtxView { comparison_counter: ctx.comparison_counter + 1, ..ctx },
        ))
    } else if op == "gt"@ {
        Ok((
            compare_op_code(Jmp::Jgt, ctx.comparison_counter),
            CtxView { comparison_counter: ctx.comparison_counter + 1, ..ctx },
        ))
    } else if op == "lt"@ {
        Ok((
            compare_op_code(Jmp::Jlt, ctx.comparison_counter),
            CtxView { comparison_counter: ctx.comparison_counter + 1, ..ctx },
        ))
    } else {
        Err(ErrorKind::Malformed)
    }
}

/// The register through which the four indirect segments are addressed.
pub open spec fn seg_pointer(seg: Seq<char>) -> Option<Seq<char>> {
    if seg == "local"@ {
        Some("LCL"@)
    } else if seg == "argument"@ {
        Some("ARG"@)
    } else if seg == "this"@ {
        Some("THIS"@)
    } else if seg == "that"@ {
        Some("THAT"@)
    } else {
        None
    }
}

/// The symbol a `static` slot of the current source resolves to.
pub open spec fn static_symbol(source: Seq<char>, i: u16) -> Seq<char> {
    source + "."@ + dec_rep(i as nat)
}

/// What generating a push yields. A `constant` push loads the literal; an
/// indirect segment is dereferenced through its pointer register; `pointer`
/// and `temp` address a fixed slot (a slot beyond the address space is
/// malformed); `static` addresses the per-source symbol. Any other segment
/// name is unknown.
pub open spec fn spec_gen_push(seg: Seq<char>, i: u16, ctx: CtxView) -> Result<
    Seq<AsmInstrV>,
    ErrorKind,
> {
    if seg == "constant"@ {
        Ok(
            seq![AsmInstrV::AtNum(i), AsmInstrV::CInstr(Dest::RegD, Comp::CompA, Jmp::NoJump)]
                + push_d(),
        )
    } else if seg_pointer(seg) is Some {
        Ok(
            seq![
                AsmInstrV::AtNum(i),
                AsmInstrV::CInstr(Dest::RegD, Comp::CompA, Jmp::NoJump),
                AsmInstrV::AtSym(seg_pointer(seg)->Some_0),
                AsmInstrV::CInstr(Dest::RegA, Comp::DPlusM, Jmp::NoJump),
                AsmInstrV::CInstr(Dest::RegD, Comp::CompM, Jmp::NoJump),
            ] + push_d(),
        )
    } else if seg == "pointer"@ {
        if i <= 65532 {
            Ok(
                seq![
                    AsmInstrV::AtNum((3 + i) as u16),
                    AsmInstrV::CInstr(Dest::RegD, Comp::CompM, Jmp::NoJump),
                ] + push_d(),
            )
        } else {
            Err(ErrorKind::Malformed)
        }
    } else if seg == "temp"@ {
        if i <= 65530 {
            Ok(
                seq![
                    AsmInstrV::AtNum((5 + i) as u16),
                    AsmInstrV::CInstr(Dest::RegD, Comp::CompM, Jmp::NoJump),
                ] + push_d(),
            )
        } else {
            Err(ErrorKind::Malformed)
        }
    } else if seg == "static"@ {
        Ok(
            seq![
                AsmInstrV::AtSym(static_symbol(ctx.source_name, i)),
                AsmInstrV::CInstr(Dest::RegD, Comp::CompM, Jmp::NoJump),
            ] + push_d(),
        )
    } else {
        Err(ErrorKind::UnknownSegment)
    }
}

/// What generating a pop yields: the mirror of push without the `constant`
/// case, which is invalid as a pop target.
pub open spec fn spec_gen_pop(seg: Seq<char>, i: u16, ctx: CtxView) -> Result<
    Seq<AsmInstrV>,
    ErrorKind,
> {
    if seg == "constant"@ {
        Err(ErrorKind::Malformed)
    } else if seg_pointer(seg) is Some {
        Ok(
            seq![
                AsmInstrV::AtNum(i),
                AsmInstrV::CInstr(Dest::RegD, Comp::CompA, Jmp::NoJump),
                AsmInstrV::AtSym(seg_pointer(seg)->Some_0),
                AsmInstrV::CInstr(Dest::RegD, Comp::DPlusM, Jmp::NoJump),
                AsmInstrV::AtSym("R13"@),
                AsmInstrV::CInstr(Dest::RegM, Comp::CompD, Jmp::NoJump),
            ] + pop_to_d() + seq![
                AsmInstrV::AtSym("R13"@),
                AsmInstrV::CInstr(Dest::RegA, Comp::CompM, Jmp::NoJump),
                AsmInstrV::CInstr(Dest::RegM, Comp::CompD, Jmp::NoJump),
            ],
        )
    } else if seg == "pointer"@ {
        if i <= 65532 {
            Ok(
                pop_to_d() + seq![
                    AsmInstrV::AtNum((3 + i) as u16),
                    AsmInstrV::CInstr(Dest::RegM, Comp::CompD, Jmp::NoJump),
                ],
            )
        } else {
            Err(ErrorKind::Malformed)
        }
    } else if seg == "temp"@ {
        if i <= 65530 {
            Ok(
                pop_to_d() + seq![
                    AsmInstrV::AtNum((5 + i) as u16),
                    AsmInstrV::CInstr(Dest::RegM, Comp::CompD, Jmp::NoJump),
                ],
            )
        } else {
            Err(ErrorKind::Malformed)
        }
    } else if seg == "static"@ {
        Ok(
            pop_to_d() + seq![
                AsmInstrV::AtSym(static_symbol(ctx.source_name, i)),
                AsmInstrV::CInstr(Dest::RegM, Comp::CompD, Jmp::NoJump),
            ],
        )
    } else {
        Err(ErrorKind::UnknownSegment)
    }
}

/// A branch target namespaced by the function it is defined in; targets
/// named before any function live in the unscoped global namespace.
pub open spec fn scoped_label(f: Option<Seq<char>>, name: Seq<char>) -> Seq<char> {
    match f {
        Some(g) => g + "$"@ + name,
        None => name,
    }
}

/// What generating a label definition yields: the scoped symbol is defined
/// and recorded; defining the same scoped symbol twice is fatal.
pub open spec fn spec_gen_label(name: Seq<char>, ctx: CtxView) -> Result<
    (Seq<AsmInstrV>, CtxView),
    ErrorKind,
> {
    let s = scoped_label(ctx.current_function, name);
    if ctx.labels.contains(s) {
        Err(ErrorKind::DuplicateLabel)
    } else {
        Ok((seq![AsmInstrV::LabelDef(s)], CtxView { labels: ctx.labels.insert(s), ..ctx }))
    }
}

/// An unconditional jump to the scoped target.
pub open spec fn spec_gen_goto(name: Seq<char>, ctx: CtxView) -> Seq<AsmInstrV> {
    seq![
        AsmInstrV::AtSym(scoped_label(ctx.current_function, name)),
        AsmInstrV::CInstr(Dest::NoDest, Comp::Zero, Jmp::JmpAlways),
    ]
}

/// A conditional jump: pops the top of the stack and jumps when it is not
/// zero.
pub open spec fn spec_gen_if(name: Seq<char>, ctx: CtxView) -> Seq<AsmInstrV> {
    pop_to_d() + seq![
        AsmInstrV::AtSym(scoped_label(ctx.current_function, name)),
        AsmInstrV::CInstr(Dest::NoDest, Comp::CompD, Jmp::Jne),
    ]
}

/// Code that pushes the constant zero `k` times, one push per local slot.
pub open spec fn push_zero_locals(k: nat) -> Seq<AsmInstrV>
    decreases k,
{
    if k == 0 {
        Seq::empty()
    } else {
        push_zero_locals((k - 1) as nat) + seq![
            AsmInstrV::AtSym("SP"@),
            AsmInstrV::CInstr(Dest::RegM, Comp::MPlusOne, Jmp::NoJump),
            AsmInstrV::CInstr(Dest::RegA, Comp::MMinusOne, Jmp::NoJump),
            AsmInstrV::CInstr(Dest::RegM, Comp::Zero, Jmp::NoJump),
        ]
    }
}

/// What generating a function declaration yields: the bare entry label,
/// zero-initialization of exactly `k` local slots, and the context now
/// scoped to this function.
pub open spec fn spec_gen_function(name: Seq<char>, k: u16, ctx: CtxView) -> (
    Seq<AsmInstrV>,
    CtxView,
) {
    (
        seq![AsmInstrV::LabelDef(name)] + push_zero_locals(k as nat),
        CtxView { current_function: Some(name), ..ctx },
    )
}

/// The fresh return-address label a call numbered `n` lands on.
pub open spec fn return_label(n: nat) -> Seq<char> {
    "RET_ADDRESS_CALL"@ + dec_rep(n)
}

/// Code that saves one pointer register onto the stack.
pub open spec fn save_pointer(name: Seq<char>) -> Seq<AsmInstrV> {
    seq![AsmInstrV::AtSym(name), AsmInstrV::CInstr(Dest::RegD, Comp::CompM, Jmp::NoJump)]
        + push_d()
}

/// What generating a call yields: pushes the minted return address, saves
/// the caller's four segment pointers, repositions `argument` to the first
/// of the `nargs` arguments already pushed, repositions `local` to the top
/// of the stack, jumps to the callee, and lands on the return address.
pub open spec fn spec_gen_call(f: Seq<char>, nargs: u16, ctx: CtxView) -> (
    Seq<AsmInstrV>,
    CtxView,
) {
    let ret = return_label(ctx.call_counter);
    (
        seq![AsmInstrV::AtSym(ret), AsmInstrV::CInstr(Dest::RegD, Comp::CompA, Jmp::NoJump)]
            + push_d() + save_pointer("LCL"@) + save_pointer("ARG"@) + save_pointer("THIS"@)
            + save_pointer("THAT"@) + seq![
            AsmInstrV::AtSym("SP"@),
            AsmInstrV::CInstr(Dest::RegD, Comp::CompM, Jmp::NoJump),
            AsmInstrV::AtNum(5),
            AsmInstrV::CInstr(Dest::RegD, Comp::DMinusA, Jmp::NoJump),
            AsmInstrV::AtNum(nargs),
            AsmInstrV::CInstr(Dest::RegD, Comp::DMinusA, Jmp::NoJump),
            AsmInstrV::AtSym("ARG"@),
            AsmInstrV::CInstr(Dest::RegM, Comp::CompD, Jmp::NoJump),
            AsmInstrV::AtSym("SP"@),
            AsmInstrV::CInstr(Dest::RegD, Comp::CompM, Jmp::NoJump),
            AsmInstrV::AtSym("LCL"@),
            AsmInstrV::CInstr(Dest::RegM, Comp::CompD, Jmp::NoJump),
            AsmInstrV::AtSym(f),
            AsmInstrV::CInstr(Dest::NoDest, Comp::Zero, Jmp::JmpAlways),
            AsmInstrV::LabelDef(ret),
        ],
        CtxView { call_counter: ctx.call_counter + 1, ..ctx },
    )
}

/// Code that restores one pointer register from the frame walked down by
/// the scratch register.
pub open spec fn restore_pointer(name: Seq<char>) -> Seq<AsmInstrV> {
    seq![
        AsmInstrV::AtSym("R13"@),
        AsmInstrV::CInstr(Dest::RegAM, Comp::MMinusOne, Jmp::NoJump),
        AsmInstrV::CInstr(Dest::RegD, Comp::CompM, Jmp::NoJump),
        AsmInstrV::AtSym(name),
        AsmInstrV::CInstr(Dest::RegM, Comp::CompD, Jmp::NoJump),
    ]
}

/// The code of a `return`: captures the frame base and the return address,
/// moves the return value where the arguments began, repositions the stack
/// pointer just above it, restores the caller's four segment pointers, and
/// jumps to the return address.
pub open spec fn return_code() -> Seq<AsmInstrV> {
    seq![
        AsmInstrV::AtSym("LCL"@),
        AsmInstrV::CInstr(Dest::RegD, Comp::CompM, Jmp::NoJump),
        AsmInstrV::AtSym("R13"@),
        AsmInstrV::CInstr(Dest::RegM, Comp::CompD, Jmp::NoJump),
        AsmInstrV::AtNum(5),
        AsmInstrV::CInstr(Dest::RegA, Comp::DMinusA, Jmp::NoJump),
        AsmInstrV::CInstr(Dest::RegD, Comp::CompM, Jmp::NoJump),
        AsmInstrV::AtSym("R14"@),
        AsmInstrV::CInstr(Dest::RegM, Comp::CompD, Jmp::NoJump),
    ] + pop_to_d() + seq![
        AsmInstrV::AtSym("ARG"@),
        AsmInstrV::CInstr(Dest::RegA, Comp::CompM, Jmp::NoJump),
        AsmInstrV::CInstr(Dest::RegM, Comp::CompD, Jmp::NoJump),
        AsmInstrV::AtSym("ARG"@),
        AsmInstrV::CInstr(Dest::RegD, Comp::MPlusOne, Jmp::NoJump),
        AsmInstrV::AtSym("SP"@),
        AsmInstrV::CInstr(Dest::RegM, Comp::CompD, Jmp::NoJump),
    ] + restore_pointer("THAT"@) + restore_pointer("THIS"@) + restore_pointer("ARG"@)
        + restore_pointer("LCL"@) + seq![
        AsmInstrV::AtSym("R14"@),
        AsmInstrV::CInstr(Dest::RegA, Comp::CompM, Jmp::NoJump),
        AsmInstrV::CInstr(Dest::NoDest, Comp::Zero, Jmp::JmpAlways),
    ]
}

/// What generating a `return` yields: outside any function it is fatal; the
/// context is unchanged otherwise.
pub open spec fn spec_gen_return(ctx: CtxView) -> Result<(Seq<AsmInstrV>, CtxView), ErrorKind> {
    if ctx.current_function is None {
        Err(ErrorKind::ReturnOutsideFunction)
    } else {
        Ok((return_code(), ctx))
    }
}

/// What generating one classified instruction yields: the dispatch of the
/// code generator over the command kind and its extracted operands, where a
/// missing operand that the kind requires is a malformed instruction.
pub open spec fn spec_gen_instr(
    k: CommandType,
    a1: Option<Seq<char>>,
    a2: Option<u16>,
    ctx: CtxView,
) -> Result<(Seq<AsmInstrV>, CtxView), ErrorKind> {
    match k {
        CommandType::Arithmetic => match a1 {
            Some(op) => spec_gen_arith(op, ctx),
            None => Err(ErrorKind::Malformed),
        },
        CommandType::Push => match a1 {
            Some(seg) => match a2 {
                Some(i) => match spec_gen_push(seg, i, ctx) {
                    Ok(code) => Ok((code, ctx)),
                    Err(e) => Err(e),
                },
                None => Err(ErrorKind::Malformed),
            },
            None => Err(ErrorKind::Malformed),
        },
        CommandType::Pop => match a1 {
            Some(seg) => match a2 {
                Some(i) => match spec_gen_pop(seg, i, ctx) {
                    Ok(code) => Ok((code, ctx)),
                    Err(e) => Err(e),
                },
                None => Err(ErrorKind::Malformed),
            },
            None => Err(ErrorKind::Malformed),
        },
        CommandType::Label => match a1 {
            Some(name) => spec_gen_label(name, ctx),
            None => Err(ErrorKind::Malformed),
        },
        CommandType::Goto => match a1 {
            Some(name) => Ok((spec_gen_goto(name, ctx), ctx)),
            None => Err(ErrorKind::Malformed),
        },
        CommandType::If => match a1 {
            Some(name) => Ok((spec_gen_if(name, ctx), ctx)),
            None => Err(ErrorKind::Malformed),
        },
        CommandType::Function => match a1 {
            Some(name) => match a2 {
                Some(nl) => Ok(spec_gen_function(name, nl, ctx)),
                None => Err(ErrorKind::Malformed),
            },
            None => Err(ErrorKind::Malformed),
        },
        CommandType::Call => match a1 {
            Some(f) => match a2 {
                Some(na) => Ok(spec_gen_call(f, na, ctx)),
                None => Err(ErrorKind::Malformed),
            },
            None => Err(ErrorKind::Malformed),
        },
        CommandType::Return => spec_gen_return(ctx),
    }
}

/// What generating one normalized instruction line yields: a line whose
/// leading keyword is unrecognized is a malformed instruction.
pub open spec fn spec_generate_line(l: Seq<char>, ctx: CtxView) -> Result<
    (Seq<AsmInstrV>, CtxView),
    ErrorKind,
> {
    match line_kind(l) {
        None => Err(ErrorKind::Malformed),
        Some(k) => spec_gen_instr(k, line_arg1(l), line_arg2(l), ctx),
    }
}

/// Generating an instruction advances each label counter by at most one.
pub proof fn lemma_gen_counters(k: CommandType, a1: Option<Seq<char>>, a2: Option<u16>, ctx: CtxView)
    ensures
        match spec_gen_instr(k, a1, a2, ctx) {
            Ok((code, c2)) => c2.comparison_counter <= ctx.comparison_counter + 1
                && c2.call_counter <= ctx.call_counter + 1,
            Err(_) => true,
        },
{
}

fn push_instr(v: &mut Vec<AsmInstr>, i: AsmInstr)
    ensures
        final(v).deep_view() == old(v).deep_view().push(i@),
{
    let ghost gi = i@;
    v.push(i);
    proof {
        assert(v.deep_view() =~= old(v).deep_view().push(gi));
    }
}

fn sym_instr(name: &str) -> (r: AsmInstr)
    ensures
        r@ == AsmInstrV::AtSym(name@),
{
    AsmInstr::AtSym(name.to_owned())
}

fn emit_push_d(v: &mut Vec<AsmInstr>)
    ensures
        final(v).deep_view() == old(v).deep_view() + push_d(),
{
    v.push(sym_instr("SP"));
    v.push(AsmInstr::CInstr(Dest::RegM, Comp::MPlusOne, Jmp::NoJump));
    v.push(AsmInstr::CInstr(Dest::RegA, Comp::MMinusOne, Jmp::NoJump));
    v.push(AsmInstr::CInstr(Dest::RegM, Comp::CompD, Jmp::NoJump));
    proof {
        assert(v.deep_view() =~= old(v).deep_view() + push_d());
    }
}

fn emit_pop_to_d(v: &mut Vec<AsmInstr>)
    ensures
        final(v).deep_view() == old(v).deep_view() + pop_to_d(),
{
    v.push(sym_instr("SP"));
    v.push(AsmInstr::CInstr(Dest::RegAM, Comp::MMinusOne, Jmp::NoJump));
    v.push(AsmInstr::CInstr(Dest::RegD, Comp::CompM, Jmp::NoJump));
    proof {
        assert(v.deep_view() =~= old(v).deep_view() + pop_to_d());
    }
}

fn gen_binary_code(c: Comp) -> (r: String)
    ensures
        r@ == render_seq(binary_op_code(c)),
{
    let mut v: Vec<AsmInstr> = Vec::new();
    v.push(sym_instr("SP"));
    v.push(AsmInstr::CInstr(Dest::RegAM, Comp::MMinusOne, Jmp::NoJump));
    v.push(AsmInstr::CInstr(Dest::RegD, Comp::CompM, Jmp::NoJump));
    v.push(AsmInstr::CInstr(Dest::RegA, Comp::AMinusOne, Jmp::NoJump));
    v.push(AsmInstr::CInstr(Dest::RegM, c, Jmp::NoJump));
    proof {
        assert(v.deep_view() =~= binary_op_code(c));
    }
    render(&v)
}

fn gen_unary_code(c: Comp) -> (r: String)
    ensures
        r@ == render_seq(unary_op_code(c)),
{
    let mut v: Vec<AsmInstr> = Vec::new();
    v.push(sym_instr("SP"));
    v.push(AsmInstr::CInstr(Dest::RegA, Comp::MMinusOne, Jmp::NoJump));
    v.push(AsmInstr::CInstr(Dest::RegM, c, Jmp::NoJump));
    proof {
        assert(v.deep_view() =~= unary_op_code(c));
    }
    render(&v)
}

fn gen_compare_code(j: Jmp, ctx: &mut Context) -> (r: String)
    requires
        old(ctx)@.comparison_counter < u64::MAX,
    ensures
        r@ == render_seq(compare_op_code(j, old(ctx)@.comparison_counter)),
        final(ctx)@ == (CtxView {
            comparison_counter: old(ctx)@.comparison_counter + 1,
            ..old(ctx)@
        }),
{
    let n = ctx.comparison_counter;
    let num = u64_to_string(n);
    let mut t = String::new();
    t.append("CMP_TRUE_");
    t.append(num.as_str());
    let mut e = String::new();
    e.append("CMP_END_");
    e.append(num.as_str());
    proof {
        assert(t@ =~= cmp_true_label(n as nat));
        assert(e@ =~= cmp_end_label(n as nat));
    }
    let mut v: Vec<AsmInstr> = Vec::new();
    v.push(sym_instr("SP"));
    v.push(AsmInstr::CInstr(Dest::RegAM, Comp::MMinusOne, Jmp::NoJump));
    v.push(AsmInstr::CInstr(Dest::RegD, Comp::CompM, Jmp::NoJump));
    v.push(AsmInstr::CInstr(Dest::RegA, Comp::AMinusOne, Jmp::NoJump));
    v.push(AsmInstr::CInstr(Dest::RegD, Comp::MMinusD, Jmp::NoJump));
    v.push(AsmInstr::AtSym(t.clone()));
    v.push(AsmInstr::CInstr(Dest::NoDest, Comp::CompD, j));
    v.push(sym_instr("SP"));
    v.push(AsmInstr::CInstr(Dest::RegA, Comp::MMinusOne, Jmp::NoJump));
    v.push(AsmInstr::CInstr(Dest::RegM, Comp::Zero, Jmp::NoJump));
    v.push(AsmInstr::AtSym(e.clone()));
    v.push(AsmInstr::CInstr(Dest::NoDest, Comp::Zero, Jmp::JmpAlways));
    v.push(AsmInstr::LabelDef(t));
    v.push(sym_instr("SP"));
    v.push(AsmInstr::CInstr(Dest::RegA, Comp::MMinusOne, Jmp::NoJump));
    v.push(AsmInstr::CInstr(Dest::RegM, Comp::NegOne, Jmp::NoJump));
    v.push(AsmInstr::LabelDef(e));
    ctx.comparison_counter = n + 1;
    proof {
        assert(v.deep_view() =~= compare_op_code(j, n as nat));
        assert(ctx@ == (CtxView { comparison_counter: n as nat + 1, ..old(ctx)@ }));
    }
    render(&v)
}

/// The dispatcher over the code generator's stateless queries.
pub struct Code;

impl Code {
    /// Generates the code of one arithmetic or logic command; comparison
    /// commands mint a fresh label pair from the comparison counter.
    pub fn generate_arithmetic(command: &str, ctx: &mut Context) -> (r: Result<String, ErrorKind>)
        requires
            (command@ == "eq"@ || command@ == "gt"@ || command@ == "lt"@) ==> old(
                ctx,
            )@.comparison_counter < u64::MAX,
        ensures
            match spec_gen_arith(command@, old(ctx)@) {
                Ok((code, c2)) => r is Ok && r->Ok_0@ == render_seq(code) && final(ctx)@ == c2,
                Err(k) => r == Err::<String, ErrorKind>(k) && final(ctx)@ == old(ctx)@,
            },
    {
        if str_eq(command, "add") {
            Ok(gen_binary_code(Comp::DPlusM))
        } else if str_eq(command, "sub") {
            Ok(gen_binary_code(Comp::MMinusD))
        } else if str_eq(command, "and") {
            Ok(gen_binary_code(Comp::DAndM))
        } else if str_eq(command, "or") {
            Ok(gen_binary_code(Comp::DOrM))
        } else if str_eq(command, "neg") {
            Ok(gen_unary_code(Comp::NegM))
        } else if str_eq(command, "not") {
            Ok(gen_unary_code(Comp::NotM))
        } else if str_eq(command, "eq") {
            Ok(gen_compare_code(Jmp::Jeq, ctx))
        } else if str_eq(command, "gt") {
            Ok(gen_compare_code(Jmp::Jgt, ctx))
        } else if str_eq(command, "lt") {
            Ok(gen_compare_code(Jmp::Jlt, ctx))
        } else {
            Err(ErrorKind::Malformed)
        }
    }

    /// Generates the code of one push or pop command; any other kind is
    /// rejected as malformed.
    #[verifier::rlimit(50)]
    pub fn generate_push_pop(command: CommandType, segment: &str, index: u16, ctx: &Context) -> (r:
        Result<String, ErrorKind>)
        ensures
            match command {
                CommandType::Push => match spec_gen_push(segment@, index, ctx@) {
                    Ok(code) => r is Ok && r->Ok_0@ == render_seq(code),
                    Err(k) => r == Err::<String, ErrorKind>(k),
                },
                CommandType::Pop => match spec_gen_pop(segment@, index, ctx@) {
                    Ok(code) => r is Ok && r->Ok_0@ == render_seq(code),
                    Err(k) => r == Err::<String, ErrorKind>(k),
                },
                _ => r == Err::<String, ErrorKind>(ErrorKind::Malformed),
            },
    {
        let is_push = match command {
            CommandType::Push => true,
            CommandType::Pop => false,
            _ => {
                return Err(ErrorKind::Malformed);
            },
        };
        if str_eq(segment, "constant") {
            if !is_push {
                return Err(ErrorKind::Malformed);
            }
            let mut v: Vec<AsmInstr> = Vec::new();
            v.push(AsmInstr::AtNum(index));
            v.push(AsmInstr::CInstr(Dest::RegD, Comp::CompA, Jmp::NoJump));
            emit_push_d(&mut v);
            proof {
                assert(v.deep_view() =~~= spec_gen_push(segment@, index, ctx@)->Ok_0);
            }
            return Ok(render(&v));
        }
        let pointer_reg: Option<&str> = if str_eq(segment, "local") {
            Some("LCL")
        } else if str_eq(segment, "argument") {
            Some("ARG")
        } else if str_eq(segment, "this") {
            Some("THIS")
        } else if str_eq(segment, "that") {
            Some("THAT")
        } else {
            None
        };
        match pointer_reg {
            Some(reg) => {
                proof {
                    assert(seg_pointer(segment@) == Some(reg@));
                }
                let mut v: Vec<AsmInstr> = Vec::new();
                if is_push {
                    v.push(AsmInstr::AtNum(index));
                    v.push(AsmInstr::CInstr(Dest::RegD, Comp::CompA, Jmp::NoJump));
                    v.push(sym_instr(reg));
                    v.push(AsmInstr::CInstr(Dest::RegA, Comp::DPlusM, Jmp::NoJump));
                    v.push(AsmInstr::CInstr(Dest::RegD, Comp::CompM, Jmp::NoJump));
                    emit_push_d(&mut v);
                    proof {
                        assert(v.deep_view() =~~= spec_gen_push(segment@, index, ctx@)->Ok_0);
                    }
                    Ok(render(&v))
                } else {
                    push_instr(&mut v, AsmInstr::AtNum(index));
                    push_instr(&mut v, AsmInstr::CInstr(Dest::RegD, Comp::CompA, Jmp::NoJump));
                    push_instr(&mut v, sym_instr(reg));
                    push_instr(&mut v, AsmInstr::CInstr(Dest::RegD, Comp::DPlusM, Jmp::NoJump));
                    push_instr(&mut v, sym_instr("R13"));
                    push_instr(&mut v, AsmInstr::CInstr(Dest::RegM, Comp::CompD, Jmp::NoJump));
                    emit_pop_to_d(&mut v);
                    push_instr(&mut v, sym_instr("R13"));
                    push_instr(&mut v, AsmInstr::CInstr(Dest::RegA, Comp::CompM, Jmp::NoJump));
                    push_instr(&mut v, AsmInstr::CInstr(Dest::RegM, Comp::CompD, Jmp::NoJump));
                    proof {
                        assert(v.deep_view() =~~= spec_gen_pop(segment@, index, ctx@)->Ok_0);
                    }
                    Ok(render(&v))
                }
            },
            None => {
                if str_eq(segment, "pointer") || str_eq(segment, "temp") {
                    let base: u16 = if str_eq(segment, "pointer") {
                        3
                    } else {
                        5
                    };
                    if index > 65535 - base {
                        return Err(ErrorKind::Malformed);
                    }
                    let addr: u16 = base + index;
                    let mut v: Vec<AsmInstr> = Vec::new();
                    if is_push {
                        v.push(AsmInstr::AtNum(addr));
                        v.push(AsmInstr::CInstr(Dest::RegD, Comp::CompM, Jmp::NoJump));
                        emit_push_d(&mut v);
                        proof {
                            assert(v.deep_view() =~~= spec_gen_push(segment@, index, ctx@)->Ok_0);
                        }
                        Ok(render(&v))
                    } else {
                        emit_pop_to_d(&mut v);
                        v.push(AsmInstr::AtNum(addr));
                        v.push(AsmInstr::CInstr(Dest::RegM, Comp::CompD, Jmp::NoJump));
                        proof {
                            assert(v.deep_view() =~~= spec_gen_pop(segment@, index, ctx@)->Ok_0);
                        }
                        Ok(render(&v))
                    }
                } else if str_eq(segment, "static") {
                    let mut name = ctx.source_name.clone();
                    name.append(".");
                    let num = u16_to_string(index);
                    name.append(num.as_str());
                    proof {
                        assert(name@ =~= static_symbol(ctx@.source_name, index));
                    }
                    let mut v: Vec<AsmInstr> = Vec::new();
                    if is_push {
                        v.push(AsmInstr::AtSym(name));
                        v.push(AsmInstr::CInstr(Dest::RegD, Comp::CompM, Jmp::NoJump));
                        emit_push_d(&mut v);
                        proof {
                            assert(v.deep_view() =~~= spec_gen_push(segment@, index, ctx@)->Ok_0);
                        }
                        Ok(render(&v))
                    } else {
                        emit_pop_to_d(&mut v);
                        v.push(AsmInstr::AtSym(name));
                        v.push(AsmInstr::CInstr(Dest::RegM, Comp::CompD, Jmp::NoJump));
                        proof {
                            assert(v.deep_view() =~~= spec_gen_pop(segment@, index, ctx@)->Ok_0);
                        }
                        Ok(render(&v))
                    }
                } else {
                    Err(ErrorKind::UnknownSegment)
                }
            },
        }
    }

    /// Generates a scoped label definition and records it; a scoped symbol
    /// defined twice is fatal, and the context is then unchanged.
    pub fn generate_label(name: &str, ctx: &mut Context) -> (r: Result<String, ErrorKind>)
        ensures
            match spec_gen_label(name@, old(ctx)@) {
                Ok((code, c2)) => r is Ok && r->Ok_0@ == render_seq(code) && final(ctx)@ == c2,
                Err(k) => r == Err::<String, ErrorKind>(k) && final(ctx)@ == old(ctx)@,
            },
    {
        let scoped = scoped_label_exec(name, ctx);
        if ctx.contains_label(scoped.as_str()) {
            return Err(ErrorKind::DuplicateLabel);
        }
        let mut v: Vec<AsmInstr> = Vec::new();
        v.push(AsmInstr::LabelDef(scoped.clone()));
        let r = render(&v);
        ctx.add_label(scoped);
        proof {
            assert(v.deep_view() =~= spec_gen_label(name@, old(ctx)@)->Ok_0.0);
        }
        Ok(r)
    }

    /// Generates an unconditional jump to the scoped target.
    pub fn generate_goto(name: &str, ctx: &Context) -> (r: String)
        ensures
            r@ == render_seq(spec_gen_goto(name@, ctx@)),
    {
        let scoped = scoped_label_exec(name, ctx);
        let mut v: Vec<AsmInstr> = Vec::new();
        v.push(AsmInstr::AtSym(scoped));
        v.push(AsmInstr::CInstr(Dest::NoDest, Comp::Zero, Jmp::JmpAlways));
        proof {
            assert(v.deep_view() =~= spec_gen_goto(name@, ctx@));
        }
        render(&v)
    }

    /// Generates a conditional jump that pops the top of the stack and
    /// jumps to the scoped target when it is not zero.
    pub fn generate_if(name: &str, ctx: &Context) -> (r: String)
        ensures
            r@ == render_seq(spec_gen_if(name@, ctx@)),
    {
        let scoped = scoped_label_exec(name, ctx);
        let mut v: Vec<AsmInstr> = Vec::new();
        emit_pop_to_d(&mut v);
        v.push(AsmInstr::AtSym(scoped));
        v.push(AsmInstr::CInstr(Dest::NoDest, Comp::CompD, Jmp::Jne));
        proof {
            assert(v.deep_view() =~= spec_gen_if(name@, ctx@));
        }
        render(&v)
    }

    /// Generates a function's entry label and the zero-initialization of
    /// its local slots, and scopes the context to the function.
    #[verifier::rlimit(50)]
    pub fn generate_function(name: &str, nlocals: u16, ctx: &mut Context) -> (r: String)
        ensures
            r@ == render_seq(spec_gen_function(name@, nlocals, old(ctx)@).0),
            final(ctx)@ == spec_gen_function(name@, nlocals, old(ctx)@).1,
    {
        let mut v: Vec<AsmInstr> = Vec::new();
        v.push(AsmInstr::LabelDef(name.to_owned()));
        let mut k: u16 = 0;
        while k < nlocals
            invariant
                k <= nlocals,
                v.deep_view() == seq![AsmInstrV::LabelDef(name@)] + push_zero_locals(k as nat),
            decreases nlocals - k,
        {
            push_instr(&mut v, sym_instr("SP"));
            push_instr(&mut v, AsmInstr::CInstr(Dest::RegM, Comp::MPlusOne, Jmp::NoJump));
            push_instr(&mut v, AsmInstr::CInstr(Dest::RegA, Comp::MMinusOne, Jmp::NoJump));
            push_instr(&mut v, AsmInstr::CInstr(Dest::RegM, Comp::Zero, Jmp::NoJump));
            proof {
                let four = seq![
                    AsmInstrV::AtSym("SP"@),
                    AsmInstrV::CInstr(Dest::RegM, Comp::MPlusOne, Jmp::NoJump),
                    AsmInstrV::CInstr(Dest::RegA, Comp::MMinusOne, Jmp::NoJump),
                    AsmInstrV::CInstr(Dest::RegM, Comp::Zero, Jmp::NoJump),
                ];
                assert(push_zero_locals(k as nat + 1) == push_zero_locals(k as nat) + four);
                assert(v.deep_view() =~~= seq![AsmInstrV::LabelDef(name@)] + push_zero_locals(
                    k as nat + 1,
                ));
            }
            k = k + 1;
        }
        ctx.current_function = Some(name.to_owned());
        proof {
            assert(ctx@ == spec_gen_function(name@, nlocals, old(ctx)@).1);
        }
        render(&v)
    }

    /// Generates a call: return-address minting, caller state saving, the
    /// repositioning of `argument` and `local`, the jump, and the landing
    /// label; advances the call counter.
    #[verifier::rlimit(50)]
    pub fn generate_call(function: &str, nargs: u16, ctx: &mut Context) -> (r: String)
        requires
            old(ctx)@.call_counter < u64::MAX,
        ensures
            r@ == render_seq(spec_gen_call(function@, nargs, old(ctx)@).0),
            final(ctx)@ == spec_gen_call(function@, nargs, old(ctx)@).1,
    {
        let c = ctx.call_counter;
        let mut ret = String::new();
        ret.append("RET_ADDRESS_CALL");
        let num = u64_to_string(c);
        ret.append(num.as_str());
        proof {
            assert(ret@ =~= return_label(c as nat));
        }
        let mut v: Vec<AsmInstr> = Vec::new();
        push_instr(&mut v, AsmInstr::AtSym(ret.clone()));
        push_instr(&mut v, AsmInstr::CInstr(Dest::RegD, Comp::CompA, Jmp::NoJump));
        emit_push_d(&mut v);
        emit_save_pointer(&mut v, "LCL");
        emit_save_pointer(&mut v, "ARG");
        emit_save_pointer(&mut v, "THIS");
        emit_save_pointer(&mut v, "THAT");
        push_instr(&mut v, sym_instr("SP"));
        push_instr(&mut v, AsmInstr::CInstr(Dest::RegD, Comp::CompM, Jmp::NoJump));
        push_instr(&mut v, AsmInstr::AtNum(5));
        push_instr(&mut v, AsmInstr::CInstr(Dest::RegD, Comp::DMinusA, Jmp::NoJump));
        push_instr(&mut v, AsmInstr::AtNum(nargs));
        push_instr(&mut v, AsmInstr::CInstr(Dest::RegD, Comp::DMinusA, Jmp::NoJump));
        push_instr(&mut v, sym_instr("ARG"));
        push_instr(&mut v, AsmInstr::CInstr(Dest::RegM, Comp::CompD, Jmp::NoJump));
        push_instr(&mut v, sym_instr("SP"));
        push_instr(&mut v, AsmInstr::CInstr(Dest::RegD, Comp::CompM, Jmp::NoJump));
        push_instr(&mut v, sym_instr("LCL"));
        push_instr(&mut v, AsmInstr::CInstr(Dest::RegM, Comp::CompD, Jmp::NoJump));
        push_instr(&mut v, AsmInstr::AtSym(function.to_owned()));
        push_instr(&mut v, AsmInstr::CInstr(Dest::NoDest, Comp::Zero, Jmp::JmpAlways));
        push_instr(&mut v, AsmInstr::LabelDef(ret));
        ctx.call_counter = c + 1;
        proof {
            assert(v.deep_view() =~~= spec_gen_call(function@, nargs, old(ctx)@).0);
            assert(ctx@ == spec_gen_call(function@, nargs, old(ctx)@).1);
        }
        render(&v)
    }

    /// Generates a `return`; outside any function it is fatal.
    #[verifier::rlimit(50)]
    pub fn generate_return(ctx: &Context) -> (r: Result<String, ErrorKind>)
        ensures
            match spec_gen_return(ctx@) {
                Ok((code, _)) => r is Ok && r->Ok_0@ == render_seq(code),
                Err(k) => r == Err::<String, ErrorKind>(k),
            },
    {
        if ctx.current_function.is_none() {
            return Err(ErrorKind::ReturnOutsideFunction);
        }
        let mut v: Vec<AsmInstr> = Vec::new();
        push_instr(&mut v, sym_instr("LCL"));
        push_instr(&mut v, AsmInstr::CInstr(Dest::RegD, Comp::CompM, Jmp::NoJump));
        push_instr(&mut v, sym_instr("R13"));
        push_instr(&mut v, AsmInstr::CInstr(Dest::RegM, Comp::CompD, Jmp::NoJump));
        push_instr(&mut v, AsmInstr::AtNum(5));
        push_instr(&mut v, AsmInstr::CInstr(Dest::RegA, Comp::DMinusA, Jmp::NoJump));
        push_instr(&mut v, AsmInstr::CInstr(Dest::RegD, Comp::CompM, Jmp::NoJump));
        push_instr(&mut v, sym_instr("R14"));
        push_instr(&mut v, AsmInstr::CInstr(Dest::RegM, Comp::CompD, Jmp::NoJump));
        emit_pop_to_d(&mut v);
        push_instr(&mut v, sym_instr("ARG"));
        push_instr(&mut v, AsmInstr::CInstr(Dest::RegA, Comp::CompM, Jmp::NoJump));
        push_instr(&mut v, AsmInstr::CInstr(Dest::RegM, Comp::CompD, Jmp::NoJump));
        push_instr(&mut v, sym_instr("ARG"));
        push_instr(&mut v, AsmInstr::CInstr(Dest::RegD, Comp::MPlusOne, Jmp::NoJump));
        push_instr(&mut v, sym_instr("SP"));
        push_instr(&mut v, AsmInstr::CInstr(Dest::RegM, Comp::CompD, Jmp::NoJump));
        emit_restore_pointer(&mut v, "THAT");
        emit_restore_pointer(&mut v, "THIS");
        emit_restore_pointer(&mut v, "ARG");
        emit_restore_pointer(&mut v, "LCL");
        push_instr(&mut v, sym_instr("R14"));
        push_instr(&mut v, AsmInstr::CInstr(Dest::RegA, Comp::CompM, Jmp::NoJump));
        push_instr(&mut v, AsmInstr::CInstr(Dest::NoDest, Comp::Zero, Jmp::JmpAlways));
        proof {
            assert(v.deep_view() =~~= return_code());
        }
        Ok(render(&v))
    }

    /// Generates the code of one classified instruction against the current
    /// context: the single dispatch the driver loop calls per instruction.
    /// On a fatal condition the context is unchanged and no code comes out.
    pub fn generate(
        kind: CommandType,
        arg1: &Option<String>,
        arg2: Option<u16>,
        ctx: &mut Context,
    ) -> (r: Result<String, ErrorKind>)
        requires
            old(ctx)@.comparison_counter < u64::MAX,
            old(ctx)@.call_counter < u64::MAX,
        ensures
            match spec_gen_instr(kind, arg1.deep_view(), arg2, old(ctx)@) {
                Ok((code, c2)) => r is Ok && r->Ok_0@ == render_seq(code) && final(ctx)@ == c2,
                Err(k) => r == Err::<String, ErrorKind>(k) && final(ctx)@ == old(ctx)@,
            },
    {
        match kind {
            CommandType::Arithmetic => match arg1 {
                Some(op) => Code::generate_arithmetic(op.as_str(), ctx),
                None => Err(ErrorKind::Malformed),
            },
            CommandType::Push | CommandType::Pop => match arg1 {
                Some(seg) => match arg2 {
                    Some(i) => Code::generate_push_pop(kind, seg.as_str(), i, ctx),
                    None => Err(ErrorKind::Malformed),
                },
                None => Err(ErrorKind::Malformed),
            },
            CommandType::Label => match arg1 {
                Some(name) => Code::generate_label(name.as_str(), ctx),
                None => Err(ErrorKind::Malformed),
            },
            CommandType::Goto => match arg1 {
                Some(name) => Ok(Code::generate_goto(name.as_str(), ctx)),
                None => Err(ErrorKind::Malformed),
            },
            CommandType::If => match arg1 {
                Some(name) => Ok(Code::generate_if(name.as_str(), ctx)),
                None => Err(ErrorKind::Malformed),
            },
            CommandType::Function => match arg1 {
                Some(name) => match arg2 {
                    Some(nl) => Ok(Code::generate_function(name.as_str(), nl, ctx)),
                    None => Err(ErrorKind::Malformed),
                },
                None => Err(ErrorKind::Malformed),
            },
            CommandType::Call => match arg1 {
                Some(f) => match arg2 {
                    Some(na) => Ok(Code::generate_call(f.as_str(), na, ctx)),
                    None => Err(ErrorKind::Malformed),
                },
                None => Err(ErrorKind::Malformed),
            },
            CommandType::Return => Code::generate_return(ctx),
        }
    }
}

fn scoped_label_exec(name: &str, ctx: &Context) -> (r: String)
    ensures
        r@ == scoped_label(ctx@.current_function, name@),
{
    match &ctx.current_function {
        Some(f) => {
            let mut s = f.clone();
            s.append("$");
            s.append(name);
            proof {
                assert(s@ =~= scoped_label(ctx@.current_function, name@));
            }
            s
        },
        None => name.to_owned(),
    }
}

fn emit_save_pointer(v: &mut Vec<AsmInstr>, name: &str)
    ensures
        final(v).deep_view() == old(v).deep_view() + save_pointer(name@),
{
    v.push(sym_instr(name));
    v.push(AsmInstr::CInstr(Dest::RegD, Comp::CompM, Jmp::NoJump));
    emit_push_d(v);
    proof {
        assert(v.deep_view() =~= old(v).deep_view() + save_pointer(name@));
    }
}

fn emit_restore_pointer(v: &mut Vec<AsmInstr>, name: &str)
    ensures
        final(v).deep_view() == old(v).deep_view() + restore_pointer(name@),
{
    v.push(sym_instr("R13"));
    v.push(AsmInstr::CInstr(Dest::RegAM, Comp::MMinusOne, Jmp::NoJump));
    v.push(AsmInstr::CInstr(Dest::RegD, Comp::CompM, Jmp::NoJump));
    v.push(sym_instr(name));
    v.push(AsmInstr::CInstr(Dest::RegM, Comp::CompD, Jmp::NoJump));
    proof {
        assert(v.deep_view() =~= old(v).deep_view() + restore_pointer(name@));
    }
}

} // verus!
