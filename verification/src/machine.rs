//! A model of the target machine, deep enough to state what the generated
//! straight-line code does to memory: the address and data registers, the
//! RAM, and the effect of each instruction form the stack operations
//! compile to. The stack-effect laws of the code generator are proved here.
use vstd::prelude::*;

use crate::assembly::{AsmInstrV, Comp, Dest, Jmp};
use crate::codegen::{
    binary_op_code, pop_to_d, push_d, restore_pointer, return_code, return_label, save_pointer,
    spec_gen_call, spec_gen_pop, spec_gen_push, static_symbol,
};
use crate::context::CtxView;

verus! {

/// The machine as the generated code sees it: the address register, the
/// data register, and the RAM as a map from addresses to 16-bit words.
pub struct MachState {
    pub a: u16,
    pub d: u16,
    pub ram: Map<u16, u16>,
}

/// Wrap-around arithmetic of the sixteen-bit ALU.
pub open spec fn wrap(v: int) -> u16 {
    (v % 0x10000) as u16
}

pub open spec fn eval_comp(c: Comp, a: u16, d: u16, m: u16) -> u16 {
    match c {
        Comp::Zero => 0,
        Comp::NegOne => 0xffff,
        Comp::CompD => d,
        Comp::CompA => a,
        Comp::CompM => m,
        Comp::NotM => (0xffff - m) as u16,
        Comp::NegM => wrap(0 - m),
        Comp::MPlusOne => wrap(m + 1),
        Comp::MMinusOne => wrap(m - 1),
        Comp::AMinusOne => wrap(a - 1),
        Comp::DPlusM => wrap(d + m),
        Comp::MMinusD => wrap(m - d),
        Comp::DMinusA => wrap(d - a),
        Comp::DAndM => d & m,
        Comp::DOrM => d | m,
    }
}

/// The meaning the downstream assembler gives the symbols that the stack
/// code relies on: the stack pointer, the four segment pointers, and the
/// first scratch register sit at their fixed addresses.
pub open spec fn standard_env(env: Map<Seq<char>, u16>) -> bool {
    &&& env.contains_key("SP"@) && env["SP"@] == 0
    &&& env.contains_key("LCL"@) && env["LCL"@] == 1
    &&& env.contains_key("ARG"@) && env["ARG"@] == 2
    &&& env.contains_key("THIS"@) && env["THIS"@] == 3
    &&& env.contains_key("THAT"@) && env["THAT"@] == 4
    &&& env.contains_key("R13"@) && env["R13"@] == 13
    &&& env.contains_key("R14"@) && env["R14"@] == 14
}

/// Every address reads as some word.
pub open spec fn total_ram(s: MachState) -> bool {
    s.ram.dom() == Set::<u16>::full()
}

/// One straight-line step. An address instruction sets the address
/// register; a compute instruction without a jump reads RAM at the address
/// register, computes, and stores to its destinations — a memory write
/// lands at the address held before the instruction. A jump, a label
/// definition, or a symbol the environment does not resolve falls outside
/// the straight-line fragment.
pub open spec fn step(i: AsmInstrV, env: Map<Seq<char>, u16>, s: MachState) -> Option<MachState> {
    match i {
        AsmInstrV::AtNum(n) => Some(MachState { a: n, ..s }),
        AsmInstrV::AtSym(name) => if env.contains_key(name) {
            Some(MachState { a: env[name], ..s })
        } else {
            None
        },
        AsmInstrV::CInstr(dest, comp, j) => if j is NoJump {
            let v = eval_comp(comp, s.a, s.d, s.ram[s.a]);
            Some(
                match dest {
                    Dest::NoDest => s,
                    Dest::RegM => MachState { ram: s.ram.insert(s.a, v), ..s },
                    Dest::RegD => MachState { d: v, ..s },
                    Dest::RegA => MachState { a: v, ..s },
                    Dest::RegAM => MachState { a: v, ram: s.ram.insert(s.a, v), ..s },
                },
            )
        } else {
            None
        },
        AsmInstrV::LabelDef(_) => None,
    }
}

/// Runs a straight-line instruction sequence from the left.
pub open spec fn run_code(code: Seq<AsmInstrV>, env: Map<Seq<char>, u16>, s: MachState) -> Option<
    MachState,
>
    decreases code.len(),
{
    if code.len() == 0 {
        Some(s)
    } else {
        match step(code[0], env, s) {
            None => None,
            Some(s2) => run_code(code.skip(1), env, s2),
        }
    }
}

/// Running a concatenation runs the parts in order.
pub proof fn lemma_run_code_add(
    a: Seq<AsmInstrV>,
    b: Seq<AsmInstrV>,
    env: Map<Seq<char>, u16>,
    s: MachState,
)
    ensures
        run_code(a + b, env, s) == (match run_code(a, env, s) {
            None => None::<MachState>,
            Some(s2) => run_code(b, env, s2),
        }),
    decreases a.len(),
{
    if a.len() == 0 {
        assert(a + b =~= b);
    } else {
        assert((a + b)[0] == a[0]);
        assert((a + b).skip(1) =~= a.skip(1) + b);
        match step(a[0], env, s) {
            None => {},
            Some(s2) => {
                lemma_run_code_add(a.skip(1), b, env, s2);
            },
        }
    }
}

/// The result a two-argument operator computes from the value under the
/// top, `x`, and the top value, `y`.
pub open spec fn binary_result(c: Comp, x: u16, y: u16) -> u16 {
    match c {
        Comp::DPlusM => wrap(y + x),
        Comp::MMinusD => wrap(x - y),
        Comp::DAndM => (y & x),
        Comp::DOrM => (y | x),
        _ => 0,
    }
}

pub open spec fn is_binary_comp(c: Comp) -> bool {
    c == Comp::DPlusM || c == Comp::MMinusD || c == Comp::DAndM || c == Comp::DOrM
}

/// For every two-argument arithmetic instruction, the generated code leaves
/// the stack exactly one element shallower than before, the new top element
/// holds the operator's result on the previous top two elements, and every
/// other memory cell is unchanged.
pub proof fn lemma_binary_op_stack_effect(c: Comp, env: Map<Seq<char>, u16>, s: MachState)
    requires
        is_binary_comp(c),
        standard_env(env),
        total_ram(s),
        2 < s.ram[0],
    ensures
        ({
            let sp = s.ram[0];
            let x = s.ram[(sp - 2) as u16];
            let y = s.ram[(sp - 1) as u16];
            let fin = run_code(binary_op_code(c), env, s);
            &&& fin is Some
            &&& fin->Some_0.ram[0] == sp - 1
            &&& fin->Some_0.ram[(sp - 2) as u16] == binary_result(c, x, y)
            &&& forall|k: u16|
                k != 0 && k != (sp - 2) as u16 ==> fin->Some_0.ram[k] == s.ram[k]
            &&& fin->Some_0.ram == s.ram.insert(0, (sp - 1) as u16).insert(
                (sp - 2) as u16,
                binary_result(c, x, y),
            )
        }),
{
    let code = binary_op_code(c);
    let sp = s.ram[0];
    let x = s.ram[(sp - 2) as u16];
    let y = s.ram[(sp - 1) as u16];
    let s1 = MachState { a: 0, ..s };
    assert(step(code[0], env, s) == Some(s1));
    let ram1 = s.ram.insert(0, (sp - 1) as u16);
    let s2 = MachState { a: (sp - 1) as u16, ram: ram1, ..s1 };
    assert(eval_comp(Comp::MMinusOne, 0, s.d, sp) == wrap(sp - 1));
    assert(wrap(sp - 1) == (sp - 1) as u16);
    assert(step(code[1], env, s1) == Some(s2));
    let s3 = MachState { d: y, ..s2 };
    assert(ram1[(sp - 1) as u16] == y);
    assert(step(code[2], env, s2) == Some(s3));
    let s4 = MachState { a: (sp - 2) as u16, ..s3 };
    assert(wrap(sp - 1 - 1) == (sp - 2) as u16);
    assert(step(code[3], env, s3) == Some(s4));
    assert(ram1[(sp - 2) as u16] == x);
    assert(eval_comp(c, s4.a, y, x) == binary_result(c, x, y));
    let ram2 = ram1.insert((sp - 2) as u16, binary_result(c, x, y));
    let s5 = MachState { ram: ram2, ..s4 };
    assert(step(code[4], env, s4) == Some(s5));
    let t1 = code.skip(1);
    let t2 = t1.skip(1);
    let t3 = t2.skip(1);
    let t4 = t3.skip(1);
    let t5 = t4.skip(1);
    assert(t1[0] == code[1]);
    assert(t2[0] == code[2]);
    assert(t3[0] == code[3]);
    assert(t4[0] == code[4]);
    assert(t5 =~= Seq::<AsmInstrV>::empty());
    assert(run_code(t5, env, s5) == Some(s5));
    assert(run_code(t4, env, s4) == Some(s5));
    assert(run_code(t3, env, s3) == Some(s5));
    assert(run_code(t2, env, s2) == Some(s5));
    assert(run_code(t1, env, s1) == Some(s5));
    assert(run_code(code, env, s) == Some(s5));
    assert(s5.ram[0] == sp - 1);
    assert(s5.ram[(sp - 2) as u16] == binary_result(c, x, y));
}

/// What pushing a constant compiles to does: the stack grows by one and the
/// new top slot holds the constant; nothing else changes.
pub proof fn lemma_push_constant_effect(
    k: u16,
    env: Map<Seq<char>, u16>,
    s: MachState,
    ctx: CtxView,
)
    requires
        standard_env(env),
        total_ram(s),
        0 < s.ram[0] < 0xffff,
    ensures
        ({
            let sp = s.ram[0];
            let fin = run_code(spec_gen_push("constant"@, k, ctx)->Ok_0, env, s);
            &&& fin is Some
            &&& fin->Some_0 == MachState {
                a: sp,
                d: k,
                ram: s.ram.insert(0, (sp + 1) as u16).insert(sp, k),
            }
        }),
{
    let code = spec_gen_push("constant"@, k, ctx)->Ok_0;
    let sp = s.ram[0];
    assert(code =~= seq![
        AsmInstrV::AtNum(k),
        AsmInstrV::CInstr(Dest::RegD, Comp::CompA, Jmp::NoJump),
        AsmInstrV::AtSym("SP"@),
        AsmInstrV::CInstr(Dest::RegM, Comp::MPlusOne, Jmp::NoJump),
        AsmInstrV::CInstr(Dest::RegA, Comp::MMinusOne, Jmp::NoJump),
        AsmInstrV::CInstr(Dest::RegM, Comp::CompD, Jmp::NoJump),
    ]);
    let s1 = MachState { a: k, ..s };
    assert(step(code[0], env, s) == Some(s1));
    let s2 = MachState { d: k, ..s1 };
    assert(step(code[1], env, s1) == Some(s2));
    let s3 = MachState { a: 0, ..s2 };
    assert(step(code[2], env, s2) == Some(s3));
    let ram1 = s.ram.insert(0, (sp + 1) as u16);
    let s4 = MachState { ram: ram1, ..s3 };
    assert(wrap(sp + 1) == (sp + 1) as u16);
    assert(step(code[3], env, s3) == Some(s4));
    let s5 = MachState { a: sp, ..s4 };
    assert(ram1[0] == (sp + 1) as u16);
    assert(wrap(sp + 1 - 1) == sp);
    assert(step(code[4], env, s4) == Some(s5));
    let s6 = MachState { ram: ram1.insert(sp, k), ..s5 };
    assert(step(code[5], env, s5) == Some(s6));
    let t1 = code.skip(1);
    let t2 = t1.skip(1);
    let t3 = t2.skip(1);
    let t4 = t3.skip(1);
    let t5 = t4.skip(1);
    let t6 = t5.skip(1);
    assert(t1[0] == code[1]);
    assert(t2[0] == code[2]);
    assert(t3[0] == code[3]);
    assert(t4[0] == code[4]);
    assert(t5[0] == code[5]);
    assert(t6 =~= Seq::<AsmInstrV>::empty());
    assert(run_code(t6, env, s6) == Some(s6));
    assert(run_code(t5, env, s5) == Some(s6));
    assert(run_code(t4, env, s4) == Some(s6));
    assert(run_code(t3, env, s3) == Some(s6));
    assert(run_code(t2, env, s2) == Some(s6));
    assert(run_code(t1, env, s1) == Some(s6));
    assert(run_code(code, env, s) == Some(s6));
}

/// The eight segment keywords name eight different segments.
proof fn lemma_segment_names_distinct()
    ensures
        "local"@ != "constant"@,
        "argument"@ != "constant"@,
        "this"@ != "constant"@,
        "that"@ != "constant"@,
        "pointer"@ != "constant"@,
        "pointer"@ != "local"@,
        "pointer"@ != "argument"@,
        "pointer"@ != "this"@,
        "pointer"@ != "that"@,
        "temp"@ != "constant"@,
        "temp"@ != "local"@,
        "temp"@ != "argument"@,
        "temp"@ != "this"@,
        "temp"@ != "that"@,
        "temp"@ != "pointer"@,
        "static"@ != "constant"@,
        "static"@ != "local"@,
        "static"@ != "argument"@,
        "static"@ != "this"@,
        "static"@ != "that"@,
        "static"@ != "pointer"@,
        "static"@ != "temp"@,
{
    reveal_strlit("constant");
    reveal_strlit("local");
    reveal_strlit("argument");
    reveal_strlit("this");
    reveal_strlit("that");
    reveal_strlit("pointer");
    reveal_strlit("temp");
    reveal_strlit("static");
    assert("constant"@.len() == 8);
    assert("local"@.len() == 5);
    assert("argument"@.len() == 8);
    assert("this"@.len() == 4);
    assert("that"@.len() == 4);
    assert("pointer"@.len() == 7);
    assert("temp"@.len() == 4);
    assert("static"@.len() == 6);
    assert("pointer"@[0] == 'p');
    assert("constant"@[0] == 'c');
    assert("temp"@[0] == 't');
    assert("this"@[0] == 't');
    assert("this"@[2] == 'i');
    assert("that"@[2] == 'a');
    assert("temp"@[2] == 'm');
    assert("static"@[0] == 's');
}

/// An instruction that only points the address register at `addr`.
pub open spec fn sets_addr(ai: AsmInstrV, env: Map<Seq<char>, u16>, addr: u16) -> bool {
    match ai {
        AsmInstrV::AtNum(n) => n == addr,
        AsmInstrV::AtSym(name) => env.contains_key(name) && env[name] == addr,
        _ => false,
    }
}

/// What popping into a directly addressed slot does: the stack shrinks by
/// one and the slot receives the old top value. This is the shared tail of
/// the `pointer`, `temp` and `static` pops.
pub proof fn lemma_pop_into_slot(
    ai: AsmInstrV,
    addr: u16,
    env: Map<Seq<char>, u16>,
    s: MachState,
)
    requires
        standard_env(env),
        total_ram(s),
        sets_addr(ai, env, addr),
        1 < s.ram[0],
    ensures
        ({
            let sp = s.ram[0];
            let top = s.ram[(sp - 1) as u16];
            let code = pop_to_d() + seq![
                ai,
                AsmInstrV::CInstr(Dest::RegM, Comp::CompD, Jmp::NoJump),
            ];
            let fin = run_code(code, env, s);
            &&& fin is Some
            &&& fin->Some_0 == MachState {
                a: addr,
                d: top,
                ram: s.ram.insert(0, (sp - 1) as u16).insert(addr, top),
            }
        }),
{
    let sp = s.ram[0];
    let top = s.ram[(sp - 1) as u16];
    let code = pop_to_d() + seq![ai, AsmInstrV::CInstr(Dest::RegM, Comp::CompD, Jmp::NoJump)];
    assert(code =~= seq![
        AsmInstrV::AtSym("SP"@),
        AsmInstrV::CInstr(Dest::RegAM, Comp::MMinusOne, Jmp::NoJump),
        AsmInstrV::CInstr(Dest::RegD, Comp::CompM, Jmp::NoJump),
        ai,
        AsmInstrV::CInstr(Dest::RegM, Comp::CompD, Jmp::NoJump),
    ]);
    let s1 = MachState { a: 0, ..s };
    assert(step(code[0], env, s) == Some(s1));
    let ram1 = s.ram.insert(0, (sp - 1) as u16);
    let s2 = MachState { a: (sp - 1) as u16, ram: ram1, ..s1 };
    assert(wrap(sp - 1) == (sp - 1) as u16);
    assert(step(code[1], env, s1) == Some(s2));
    let s3 = MachState { d: top, ..s2 };
    assert(ram1[(sp - 1) as u16] == top);
    assert(step(code[2], env, s2) == Some(s3));
    let s4 = MachState { a: addr, ..s3 };
    assert(step(code[3], env, s3) == Some(s4));
    let s5 = MachState { ram: ram1.insert(addr, top), ..s4 };
    assert(step(code[4], env, s4) == Some(s5));
    let t1 = code.skip(1);
    let t2 = t1.skip(1);
    let t3 = t2.skip(1);
    let t4 = t3.skip(1);
    let t5 = t4.skip(1);
    assert(t1[0] == code[1]);
    assert(t2[0] == code[2]);
    assert(t3[0] == code[3]);
    assert(t4[0] == code[4]);
    assert(t5 =~= Seq::<AsmInstrV>::empty());
    assert(run_code(t5, env, s5) == Some(s5));
    assert(run_code(t4, env, s4) == Some(s5));
    assert(run_code(t3, env, s3) == Some(s5));
    assert(run_code(t2, env, s2) == Some(s5));
    assert(run_code(t1, env, s1) == Some(s5));
    assert(run_code(code, env, s) == Some(s5));
}

/// `push constant k` followed immediately by `pop` into a fixed `pointer`
/// or `temp` slot leaves that slot holding exactly `k` and the stack depth
/// unchanged from before the pair; every memory cell other than the slot,
/// the stack pointer, and the scratch cell above the restored top is
/// untouched. The stack is assumed to live above the register file, as it
/// always does on this machine.
pub proof fn lemma_push_pop_direct(
    k: u16,
    idx: u16,
    seg: Seq<char>,
    env: Map<Seq<char>, u16>,
    s: MachState,
    ctx: CtxView,
)
    requires
        standard_env(env),
        total_ram(s),
        0 < s.ram[0] < 0xffff,
        (seg == "pointer"@ && idx <= 65532) || (seg == "temp"@ && idx <= 65530),
    ensures
        ({
            let sp = s.ram[0];
            let base: u16 = if seg == "pointer"@ {
                3
            } else {
                5
            };
            let addr = (base + idx) as u16;
            let code = spec_gen_push("constant"@, k, ctx)->Ok_0 + spec_gen_pop(seg, idx, ctx)->Ok_0;
            let fin = run_code(code, env, s);
            &&& fin is Some
            &&& fin->Some_0.ram[addr] == k
            &&& addr == 0 || fin->Some_0.ram[0] == sp
            &&& forall|k2: u16|
                k2 != 0 && k2 != sp && k2 != addr ==> fin->Some_0.ram[k2] == s.ram[k2]
        }),
{
    let sp = s.ram[0];
    let base: u16 = if seg == "pointer"@ {
        3
    } else {
        5
    };
    let addr = (base + idx) as u16;
    let push_code = spec_gen_push("constant"@, k, ctx)->Ok_0;
    let pop_code = spec_gen_pop(seg, idx, ctx)->Ok_0;
    lemma_segment_names_distinct();
    assert(pop_code == pop_to_d() + seq![
        AsmInstrV::AtNum(addr),
        AsmInstrV::CInstr(Dest::RegM, Comp::CompD, Jmp::NoJump),
    ]);
    lemma_push_constant_effect(k, env, s, ctx);
    let mid = run_code(push_code, env, s)->Some_0;
    assert(mid.ram.dom() =~= Set::<u16>::full());
    assert(mid.ram[0] == sp + 1);
    assert(mid.ram[sp] == k);
    lemma_pop_into_slot(AsmInstrV::AtNum(addr), addr, env, mid);
    lemma_run_code_add(push_code, pop_code, env, s);
    let fin = run_code(push_code + pop_code, env, s)->Some_0;
    assert(fin.ram == mid.ram.insert(0, sp).insert(addr, k));
}

/// `push constant k` followed immediately by `pop static i` leaves the
/// slot the assembler assigns to the static symbol holding exactly `k` and
/// the stack depth unchanged, with the same footprint as a direct pop.
pub proof fn lemma_push_pop_static(
    k: u16,
    idx: u16,
    env: Map<Seq<char>, u16>,
    s: MachState,
    ctx: CtxView,
)
    requires
        standard_env(env),
        total_ram(s),
        0 < s.ram[0] < 0xffff,
        env.contains_key(static_symbol(ctx.source_name, idx)),
    ensures
        ({
            let sp = s.ram[0];
            let addr = env[static_symbol(ctx.source_name, idx)];
            let code = spec_gen_push("constant"@, k, ctx)->Ok_0 + spec_gen_pop(
                "static"@,
                idx,
                ctx,
            )->Ok_0;
            let fin = run_code(code, env, s);
            &&& fin is Some
            &&& fin->Some_0.ram[addr] == k
            &&& addr == 0 || fin->Some_0.ram[0] == sp
            &&& forall|k2: u16|
                k2 != 0 && k2 != sp && k2 != addr ==> fin->Some_0.ram[k2] == s.ram[k2]
        }),
{
    let sp = s.ram[0];
    let sym = static_symbol(ctx.source_name, idx);
    let addr = env[sym];
    let push_code = spec_gen_push("constant"@, k, ctx)->Ok_0;
    let pop_code = spec_gen_pop("static"@, idx, ctx)->Ok_0;
    lemma_segment_names_distinct();
    assert(pop_code == pop_to_d() + seq![
        AsmInstrV::AtSym(sym),
        AsmInstrV::CInstr(Dest::RegM, Comp::CompD, Jmp::NoJump),
    ]);
    lemma_push_constant_effect(k, env, s, ctx);
    let mid = run_code(push_code, env, s)->Some_0;
    assert(mid.ram.dom() =~= Set::<u16>::full());
    assert(mid.ram[0] == sp + 1);
    assert(mid.ram[sp] == k);
    lemma_pop_into_slot(AsmInstrV::AtSym(sym), addr, env, mid);
    lemma_run_code_add(push_code, pop_code, env, s);
    let fin = run_code(push_code + pop_code, env, s)->Some_0;
    assert(fin.ram == mid.ram.insert(0, sp).insert(addr, k));
}

/// What popping through an indirect segment does: the target slot, the
/// segment pointer's base plus the index, receives the old top value; the
/// stack shrinks by one and the scratch register holds the target address.
pub proof fn lemma_pop_indirect(
    pname: Seq<char>,
    paddr: u16,
    idx: u16,
    seg: Seq<char>,
    ctx: CtxView,
    env: Map<Seq<char>, u16>,
    s: MachState,
)
    requires
        standard_env(env),
        total_ram(s),
        crate::codegen::seg_pointer(seg) == Some(pname),
        env.contains_key(pname),
        env[pname] == paddr,
        0 < paddr < 13,
        1 < s.ram[0],
        s.ram[0] != 14,
    ensures
        ({
            let sp = s.ram[0];
            let top = s.ram[(sp - 1) as u16];
            let tgt = wrap(idx + s.ram[paddr]);
            let fin = run_code(spec_gen_pop(seg, idx, ctx)->Ok_0, env, s);
            &&& fin is Some
            &&& fin->Some_0 == MachState {
                a: tgt,
                d: top,
                ram: s.ram.insert(13, tgt).insert(0, (sp - 1) as u16).insert(tgt, top),
            }
        }),
{
    let code = spec_gen_pop(seg, idx, ctx)->Ok_0;
    let sp = s.ram[0];
    let top = s.ram[(sp - 1) as u16];
    let tgt = wrap(idx + s.ram[paddr]);
    lemma_segment_names_distinct();
    assert(code =~= seq![
        AsmInstrV::AtNum(idx),
        AsmInstrV::CInstr(Dest::RegD, Comp::CompA, Jmp::NoJump),
        AsmInstrV::AtSym(pname),
        AsmInstrV::CInstr(Dest::RegD, Comp::DPlusM, Jmp::NoJump),
        AsmInstrV::AtSym("R13"@),
        AsmInstrV::CInstr(Dest::RegM, Comp::CompD, Jmp::NoJump),
        AsmInstrV::AtSym("SP"@),
        AsmInstrV::CInstr(Dest::RegAM, Comp::MMinusOne, Jmp::NoJump),
        AsmInstrV::CInstr(Dest::RegD, Comp::CompM, Jmp::NoJump),
        AsmInstrV::AtSym("R13"@),
        AsmInstrV::CInstr(Dest::RegA, Comp::CompM, Jmp::NoJump),
        AsmInstrV::CInstr(Dest::RegM, Comp::CompD, Jmp::NoJump),
    ]);
    let s1 = MachState { a: idx, ..s };
    assert(step(code[0], env, s) == Some(s1));
    let s2 = MachState { d: idx, ..s1 };
    assert(step(code[1], env, s1) == Some(s2));
    let s3 = MachState { a: paddr, ..s2 };
    assert(step(code[2], env, s2) == Some(s3));
    let s4 = MachState { d: tgt, ..s3 };
    assert(eval_comp(Comp::DPlusM, paddr, idx, s.ram[paddr]) == tgt);
    assert(step(code[3], env, s3) == Some(s4));
    let s5 = MachState { a: 13, ..s4 };
    assert(step(code[4], env, s4) == Some(s5));
    let ram_b = s.ram.insert(13, tgt);
    let s6 = MachState { ram: ram_b, ..s5 };
    assert(step(code[5], env, s5) == Some(s6));
    let s7 = MachState { a: 0, ..s6 };
    assert(step(code[6], env, s6) == Some(s7));
    let ram_c = ram_b.insert(0, (sp - 1) as u16);
    let s8 = MachState { a: (sp - 1) as u16, ram: ram_c, ..s7 };
    assert(ram_b[0] == sp);
    assert(wrap(sp - 1) == (sp - 1) as u16);
    assert(step(code[7], env, s7) == Some(s8));
    let s9 = MachState { d: top, ..s8 };
    assert(ram_c[(sp - 1) as u16] == top);
    assert(step(code[8], env, s8) == Some(s9));
    let s10 = MachState { a: 13, ..s9 };
    assert(step(code[9], env, s9) == Some(s10));
    let s11 = MachState { a: tgt, ..s10 };
    assert(ram_c[13] == tgt);
    assert(step(code[10], env, s10) == Some(s11));
    let s12 = MachState { ram: ram_c.insert(tgt, top), ..s11 };
    assert(step(code[11], env, s11) == Some(s12));
    let t1 = code.skip(1);
    let t2 = t1.skip(1);
    let t3 = t2.skip(1);
    let t4 = t3.skip(1);
    let t5 = t4.skip(1);
    let t6 = t5.skip(1);
    let t7 = t6.skip(1);
    let t8 = t7.skip(1);
    let t9 = t8.skip(1);
    let t10 = t9.skip(1);
    let t11 = t10.skip(1);
    let t12 = t11.skip(1);
    assert(t1[0] == code[1]);
    assert(t2[0] == code[2]);
    assert(t3[0] == code[3]);
    assert(t4[0] == code[4]);
    assert(t5[0] == code[5]);
    assert(t6[0] == code[6]);
    assert(t7[0] == code[7]);
    assert(t8[0] == code[8]);
    assert(t9[0] == code[9]);
    assert(t10[0] == code[10]);
    assert(t11[0] == code[11]);
    assert(t12 =~= Seq::<AsmInstrV>::empty());
    assert(run_code(t12, env, s12) == Some(s12));
    assert(run_code(t11, env, s11) == Some(s12));
    assert(run_code(t10, env, s10) == Some(s12));
    assert(run_code(t9, env, s9) == Some(s12));
    assert(run_code(t8, env, s8) == Some(s12));
    assert(run_code(t7, env, s7) == Some(s12));
    assert(run_code(t6, env, s6) == Some(s12));
    assert(run_code(t5, env, s5) == Some(s12));
    assert(run_code(t4, env, s4) == Some(s12));
    assert(run_code(t3, env, s3) == Some(s12));
    assert(run_code(t2, env, s2) == Some(s12));
    assert(run_code(t1, env, s1) == Some(s12));
    assert(run_code(code, env, s) == Some(s12));
}

/// `push constant k` followed immediately by `pop` into an indirect
/// segment slot leaves the slot the segment resolves to holding exactly
/// `k` and the stack depth unchanged from before the pair; beside that
/// slot only the stack pointer, the scratch register, and the scratch cell
/// above the restored top are touched. The stack is assumed to live above
/// the register file, as it always does on this machine.
pub proof fn lemma_push_pop_indirect(
    k: u16,
    idx: u16,
    seg: Seq<char>,
    pname: Seq<char>,
    paddr: u16,
    env: Map<Seq<char>, u16>,
    s: MachState,
    ctx: CtxView,
)
    requires
        standard_env(env),
        total_ram(s),
        crate::codegen::seg_pointer(seg) == Some(pname),
        env.contains_key(pname),
        env[pname] == paddr,
        0 < paddr < 13,
        14 < s.ram[0] < 0xffff,
    ensures
        ({
            let sp = s.ram[0];
            let tgt = wrap(idx + s.ram[paddr]);
            let code = spec_gen_push("constant"@, k, ctx)->Ok_0 + spec_gen_pop(seg, idx, ctx)->Ok_0;
            let fin = run_code(code, env, s);
            &&& fin is Some
            &&& fin->Some_0.ram[tgt] == k
            &&& tgt == 0 || fin->Some_0.ram[0] == sp
            &&& forall|k2: u16|
                k2 != 0 && k2 != sp && k2 != 13 && k2 != tgt ==> fin->Some_0.ram[k2] == s.ram[k2]
        }),
{
    let sp = s.ram[0];
    let push_code = spec_gen_push("constant"@, k, ctx)->Ok_0;
    let pop_code = spec_gen_pop(seg, idx, ctx)->Ok_0;
    lemma_push_constant_effect(k, env, s, ctx);
    let mid = run_code(push_code, env, s)->Some_0;
    assert(mid.ram.dom() =~= Set::<u16>::full());
    assert(mid.ram[0] == sp + 1);
    assert(mid.ram[sp] == k);
    assert(mid.ram[paddr] == s.ram[paddr]);
    lemma_pop_indirect(pname, paddr, idx, seg, ctx, env, mid);
    lemma_run_code_add(push_code, pop_code, env, s);
    let tgt = wrap(idx + s.ram[paddr]);
    let fin = run_code(push_code + pop_code, env, s)->Some_0;
    assert(fin.ram == mid.ram.insert(13, tgt).insert(0, sp).insert(tgt, k));
}

/// What the push of the data register compiles to does: the stack grows by
/// one and the new top slot holds the register's value.
pub proof fn lemma_push_d_effect(env: Map<Seq<char>, u16>, s: MachState)
    requires
        standard_env(env),
        total_ram(s),
        s.ram[0] < 0xffff,
    ensures
        ({
            let sp = s.ram[0];
            run_code(push_d(), env, s) == Some(
                MachState {
                    a: sp,
                    d: s.d,
                    ram: s.ram.insert(0, (sp + 1) as u16).insert(sp, s.d),
                },
            )
        }),
{
    let code = push_d();
    let sp = s.ram[0];
    let s1 = MachState { a: 0, ..s };
    assert(step(code[0], env, s) == Some(s1));
    let ram1 = s.ram.insert(0, (sp + 1) as u16);
    let s2 = MachState { ram: ram1, ..s1 };
    assert(wrap(sp + 1) == (sp + 1) as u16);
    assert(step(code[1], env, s1) == Some(s2));
    let s3 = MachState { a: sp, ..s2 };
    assert(ram1[0] == (sp + 1) as u16);
    assert(wrap(sp + 1 - 1) == sp);
    assert(step(code[2], env, s2) == Some(s3));
    let s4 = MachState { ram: ram1.insert(sp, s.d), ..s3 };
    assert(step(code[3], env, s3) == Some(s4));
    let t1 = code.skip(1);
    let t2 = t1.skip(1);
    let t3 = t2.skip(1);
    let t4 = t3.skip(1);
    assert(t1[0] == code[1]);
    assert(t2[0] == code[2]);
    assert(t3[0] == code[3]);
    assert(t4 =~= Seq::<AsmInstrV>::empty());
    assert(run_code(t4, env, s4) == Some(s4));
    assert(run_code(t3, env, s3) == Some(s4));
    assert(run_code(t2, env, s2) == Some(s4));
    assert(run_code(t1, env, s1) == Some(s4));
    assert(run_code(code, env, s) == Some(s4));
}

/// What saving a pointer register compiles to does: the stack grows by one
/// and the new top slot holds the register's value.
pub proof fn lemma_save_pointer_effect(
    name: Seq<char>,
    paddr: u16,
    env: Map<Seq<char>, u16>,
    s: MachState,
)
    requires
        standard_env(env),
        total_ram(s),
        env.contains_key(name),
        env[name] == paddr,
        s.ram[0] < 0xffff,
    ensures
        ({
            let sp = s.ram[0];
            run_code(save_pointer(name), env, s) == Some(
                MachState {
                    a: sp,
                    d: s.ram[paddr],
                    ram: s.ram.insert(0, (sp + 1) as u16).insert(sp, s.ram[paddr]),
                },
            )
        }),
{
    let sp = s.ram[0];
    let head = seq![
        AsmInstrV::AtSym(name),
        AsmInstrV::CInstr(Dest::RegD, Comp::CompM, Jmp::NoJump),
    ];
    assert(save_pointer(name) =~= head + push_d());
    let s1 = MachState { a: paddr, ..s };
    assert(step(head[0], env, s) == Some(s1));
    let s2 = MachState { d: s.ram[paddr], ..s1 };
    assert(step(head[1], env, s1) == Some(s2));
    let h1 = head.skip(1);
    assert(h1[0] == head[1]);
    assert(h1.skip(1) =~= Seq::<AsmInstrV>::empty());
    assert(run_code(h1.skip(1), env, s2) == Some(s2));
    assert(run_code(h1, env, s1) == Some(s2));
    assert(run_code(head, env, s) == Some(s2));
    lemma_push_d_effect(env, s2);
    lemma_run_code_add(head, push_d(), env, s);
}

/// The frame a `call` lays down before it jumps to the callee: the minted
/// return address and the caller's four segment pointers are pushed in
/// order, `argument` is repositioned to the first of the `nargs` arguments
/// the caller already pushed, and `local` is repositioned to the new top of
/// stack. Everything outside the five pushed slots and the three
/// repositioned registers is untouched. The lemma covers the prologue, the
/// whole call sequence except the jump and the landing label.
#[verifier::rlimit(100)]
pub proof fn lemma_call_frame_layout(
    f: Seq<char>,
    nargs: u16,
    rv: u16,
    env: Map<Seq<char>, u16>,
    s: MachState,
    ctx: CtxView,
)
    requires
        standard_env(env),
        total_ram(s),
        env.contains_key(return_label(ctx.call_counter)),
        env[return_label(ctx.call_counter)] == rv,
        4 < s.ram[0],
        s.ram[0] < 0xfffb,
    ensures
        ({
            let sp = s.ram[0];
            let code = spec_gen_call(f, nargs, ctx).0;
            let prologue = code.take(code.len() - 3);
            let fin = run_code(prologue, env, s);
            &&& fin is Some
            &&& fin->Some_0.ram[0] == sp + 5
            &&& fin->Some_0.ram[1] == sp + 5
            &&& fin->Some_0.ram[2] == wrap(sp - nargs)
            &&& fin->Some_0.ram[sp] == rv
            &&& fin->Some_0.ram[(sp + 1) as u16] == s.ram[1]
            &&& fin->Some_0.ram[(sp + 2) as u16] == s.ram[2]
            &&& fin->Some_0.ram[(sp + 3) as u16] == s.ram[3]
            &&& fin->Some_0.ram[(sp + 4) as u16] == s.ram[4]
            &&& forall|k: u16|
                k != 0 && k != 1 && k != 2 && !(sp <= k < sp + 5) ==> fin->Some_0.ram[k]
                    == s.ram[k]
        }),
{
    let sp = s.ram[0];
    let ret = return_label(ctx.call_counter);
    let code = spec_gen_call(f, nargs, ctx).0;
    let prologue = code.take(code.len() - 3);
    let head = seq![
        AsmInstrV::AtSym(ret),
        AsmInstrV::CInstr(Dest::RegD, Comp::CompA, Jmp::NoJump),
    ];
    let tail = seq![
        AsmInstrV::AtSym("SP"@),
        AsmInstrV::CInstr(Dest::RegD, Comp::CompM, Jmp::NoJump),
        AsmInstrV::AtNum(5),
        AsmInstrV::CInstr(Dest::RegD, Comp::DMinusA, Jmp::NoJump),
        AsmInstrV::AtNum(nargs),
        AsmInstrV::CInstr(Dest::RegD, Comp::DMinusA, Jmp::NoJump),
        AsmInstrV::AtSym("ARG"@),
        AsmInstrV::CInstr(Dest::RegM, Comp::CompD, Jmp::NoJump),
        AsmInstrV::AtSym("SP"@),
        AsmInstrV::CInstr(Dest::RegD, Comp::CompM, Jmp::NoJump),
        AsmInstrV::AtSym("LCL"@),
        AsmInstrV::CInstr(Dest::RegM, Comp::CompD, Jmp::NoJump),
    ];
    let rest1 = push_d() + (save_pointer("LCL"@) + (save_pointer("ARG"@) + (save_pointer("THIS"@)
        + (save_pointer("THAT"@) + tail))));
    assert(prologue =~= head + rest1);
    // the minted return address lands in D
    let sa = MachState { a: rv, d: rv, ram: s.ram };
    let sa0 = MachState { a: rv, ..s };
    assert(step(head[0], env, s) == Some(sa0));
    assert(step(head[1], env, sa0) == Some(sa));
    let h1 = head.skip(1);
    assert(h1[0] == head[1]);
    assert(h1.skip(1) =~= Seq::<AsmInstrV>::empty());
    assert(run_code(h1.skip(1), env, sa) == Some(sa));
    assert(run_code(h1, env, sa0) == Some(sa));
    assert(run_code(head, env, s) == Some(sa));
    lemma_run_code_add(head, rest1, env, s);
    // push the return address
    lemma_push_d_effect(env, sa);
    let rb = s.ram.insert(0, (sp + 1) as u16).insert(sp, rv);
    let sb = MachState { a: sp, d: rv, ram: rb };
    let rest2 = save_pointer("LCL"@) + (save_pointer("ARG"@) + (save_pointer("THIS"@)
        + (save_pointer("THAT"@) + tail)));
    lemma_run_code_add(push_d(), rest2, env, sa);
    assert(rest1 =~= push_d() + rest2);
    // save the four segment pointers
    assert(rb.dom() =~= Set::<u16>::full());
    assert(rb[0] == sp + 1);
    assert(rb[1] == s.ram[1]);
    lemma_save_pointer_effect("LCL"@, 1, env, sb);
    let rc = rb.insert(0, (sp + 2) as u16).insert((sp + 1) as u16, s.ram[1]);
    let sc = MachState { a: (sp + 1) as u16, d: s.ram[1], ram: rc };
    let rest3 = save_pointer("ARG"@) + (save_pointer("THIS"@) + (save_pointer("THAT"@) + tail));
    lemma_run_code_add(save_pointer("LCL"@), rest3, env, sb);
    assert(rest2 =~= save_pointer("LCL"@) + rest3);
    assert(rc.dom() =~= Set::<u16>::full());
    assert(rc[0] == sp + 2);
    assert(rc[2] == s.ram[2]);
    lemma_save_pointer_effect("ARG"@, 2, env, sc);
    let rd = rc.insert(0, (sp + 3) as u16).insert((sp + 2) as u16, s.ram[2]);
    let sd = MachState { a: (sp + 2) as u16, d: s.ram[2], ram: rd };
    let rest4 = save_pointer("THIS"@) + (save_pointer("THAT"@) + tail);
    lemma_run_code_add(save_pointer("ARG"@), rest4, env, sc);
    assert(rest3 =~= save_pointer("ARG"@) + rest4);
    assert(rd.dom() =~= Set::<u16>::full());
    assert(rd[0] == sp + 3);
    assert(rd[3] == s.ram[3]);
    lemma_save_pointer_effect("THIS"@, 3, env, sd);
    let re = rd.insert(0, (sp + 4) as u16).insert((sp + 3) as u16, s.ram[3]);
    let se = MachState { a: (sp + 3) as u16, d: s.ram[3], ram: re };
    let rest5 = save_pointer("THAT"@) + tail;
    lemma_run_code_add(save_pointer("THIS"@), rest5, env, sd);
    assert(rest4 =~= save_pointer("THIS"@) + rest5);
    assert(re.dom() =~= Set::<u16>::full());
    assert(re[0] == sp + 4);
    assert(re[4] == s.ram[4]);
    lemma_save_pointer_effect("THAT"@, 4, env, se);
    let rf = re.insert(0, (sp + 5) as u16).insert((sp + 4) as u16, s.ram[4]);
    let sf = MachState { a: (sp + 4) as u16, d: s.ram[4], ram: rf };
    lemma_run_code_add(save_pointer("THAT"@), tail, env, se);
    // reposition argument and local
    assert(rf[0] == sp + 5);
    let g1 = MachState { a: 0, ..sf };
    assert(step(tail[0], env, sf) == Some(g1));
    let g2 = MachState { d: (sp + 5) as u16, ..g1 };
    assert(step(tail[1], env, g1) == Some(g2));
    let g3 = MachState { a: 5, ..g2 };
    assert(step(tail[2], env, g2) == Some(g3));
    let g4 = MachState { d: sp, ..g3 };
    assert(wrap(sp + 5 - 5) == sp);
    assert(step(tail[3], env, g3) == Some(g4));
    let g5 = MachState { a: nargs, ..g4 };
    assert(step(tail[4], env, g4) == Some(g5));
    let g6 = MachState { d: wrap(sp - nargs), ..g5 };
    assert(step(tail[5], env, g5) == Some(g6));
    let g7 = MachState { a: 2, ..g6 };
    assert(step(tail[6], env, g6) == Some(g7));
    let rg = rf.insert(2, wrap(sp - nargs));
    let g8 = MachState { ram: rg, ..g7 };
    assert(step(tail[7], env, g7) == Some(g8));
    let g9 = MachState { a: 0, ..g8 };
    assert(step(tail[8], env, g8) == Some(g9));
    let g10 = MachState { d: (sp + 5) as u16, ..g9 };
    assert(rg[0] == sp + 5);
    assert(step(tail[9], env, g9) == Some(g10));
    let g11 = MachState { a: 1, ..g10 };
    assert(step(tail[10], env, g10) == Some(g11));
    let rh = rg.insert(1, (sp + 5) as u16);
    let g12 = MachState { ram: rh, ..g11 };
    assert(step(tail[11], env, g11) == Some(g12));
    let u1 = tail.skip(1);
    let u2 = u1.skip(1);
    let u3 = u2.skip(1);
    let u4 = u3.skip(1);
    let u5 = u4.skip(1);
    let u6 = u5.skip(1);
    let u7 = u6.skip(1);
    let u8 = u7.skip(1);
    let u9 = u8.skip(1);
    let u10 = u9.skip(1);
    let u11 = u10.skip(1);
    let u12 = u11.skip(1);
    assert(u1[0] == tail[1]);
    assert(u2[0] == tail[2]);
    assert(u3[0] == tail[3]);
    assert(u4[0] == tail[4]);
    assert(u5[0] == tail[5]);
    assert(u6[0] == tail[6]);
    assert(u7[0] == tail[7]);
    assert(u8[0] == tail[8]);
    assert(u9[0] == tail[9]);
    assert(u10[0] == tail[10]);
    assert(u11[0] == tail[11]);
    assert(u12 =~= Seq::<AsmInstrV>::empty());
    assert(run_code(u12, env, g12) == Some(g12));
    assert(run_code(u11, env, g11) == Some(g12));
    assert(run_code(u10, env, g10) == Some(g12));
    assert(run_code(u9, env, g9) == Some(g12));
    assert(run_code(u8, env, g8) == Some(g12));
    assert(run_code(u7, env, g7) == Some(g12));
    assert(run_code(u6, env, g6) == Some(g12));
    assert(run_code(u5, env, g5) == Some(g12));
    assert(run_code(u4, env, g4) == Some(g12));
    assert(run_code(u3, env, g3) == Some(g12));
    assert(run_code(u2, env, g2) == Some(g12));
    assert(run_code(u1, env, g1) == Some(g12));
    assert(run_code(tail, env, sf) == Some(g12));
    assert(run_code(prologue, env, s) == Some(g12));
    assert(g12.ram[0] == sp + 5);
    assert(g12.ram[1] == sp + 5);
    assert(g12.ram[2] == wrap(sp - nargs));
    assert(g12.ram[sp] == rv);
    assert(g12.ram[(sp + 1) as u16] == s.ram[1]);
    assert(g12.ram[(sp + 2) as u16] == s.ram[2]);
    assert(g12.ram[(sp + 3) as u16] == s.ram[3]);
    assert(g12.ram[(sp + 4) as u16] == s.ram[4]);
}

/// What restoring a pointer register compiles to does: the scratch register
/// walks one cell down the saved frame and the named register receives the
/// value stored there.
pub proof fn lemma_restore_pointer_effect(
    name: Seq<char>,
    paddr: u16,
    env: Map<Seq<char>, u16>,
    s: MachState,
)
    requires
        standard_env(env),
        total_ram(s),
        env.contains_key(name),
        env[name] == paddr,
        0 < s.ram[13],
        s.ram[13] != 14,
    ensures
        ({
            let fr = s.ram[13];
            let v = s.ram[(fr - 1) as u16];
            run_code(restore_pointer(name), env, s) == Some(
                MachState {
                    a: paddr,
                    d: v,
                    ram: s.ram.insert(13, (fr - 1) as u16).insert(paddr, v),
                },
            )
        }),
{
    let code = restore_pointer(name);
    let fr = s.ram[13];
    let v = s.ram[(fr - 1) as u16];
    let s1 = MachState { a: 13, ..s };
    assert(step(code[0], env, s) == Some(s1));
    let ram1 = s.ram.insert(13, (fr - 1) as u16);
    let s2 = MachState { a: (fr - 1) as u16, ram: ram1, ..s1 };
    assert(wrap(fr - 1) == (fr - 1) as u16);
    assert(step(code[1], env, s1) == Some(s2));
    let s3 = MachState { d: v, ..s2 };
    assert(ram1[(fr - 1) as u16] == v);
    assert(step(code[2], env, s2) == Some(s3));
    let s4 = MachState { a: paddr, ..s3 };
    assert(step(code[3], env, s3) == Some(s4));
    let s5 = MachState { ram: ram1.insert(paddr, v), ..s4 };
    assert(step(code[4], env, s4) == Some(s5));
    let t1 = code.skip(1);
    let t2 = t1.skip(1);
    let t3 = t2.skip(1);
    let t4 = t3.skip(1);
    let t5 = t4.skip(1);
    assert(t1[0] == code[1]);
    assert(t2[0] == code[2]);
    assert(t3[0] == code[3]);
    assert(t4[0] == code[4]);
    assert(t5 =~= Seq::<AsmInstrV>::empty());
    assert(run_code(t5, env, s5) == Some(s5));
    assert(run_code(t4, env, s4) == Some(s5));
    assert(run_code(t3, env, s3) == Some(s5));
    assert(run_code(t2, env, s2) == Some(s5));
    assert(run_code(t1, env, s1) == Some(s5));
    assert(run_code(code, env, s) == Some(s5));
}

/// What a `return` does, up to its final jump: the return value moves to
/// where the caller's arguments began, the stack pointer comes to rest just
/// above it, the caller's four segment pointers are restored from the frame
/// below the locals, and the address register holds the saved return
/// address. The preconditions say the frame is laid out as `call` leaves
/// it: the frame base sits above the register file, and the caller's
/// argument region sits at least the frame head's five cells below it.
#[verifier::rlimit(100)]
pub proof fn lemma_return_epilogue(env: Map<Seq<char>, u16>, s: MachState)
    requires
        standard_env(env),
        total_ram(s),
        1 < s.ram[0],
        s.ram[0] != 14,
        s.ram[0] != 15,
        20 < s.ram[1],
        15 < s.ram[2],
        s.ram[2] + 5 <= s.ram[1],
    ensures
        ({
            let sp = s.ram[0];
            let lcl = s.ram[1];
            let arg = s.ram[2];
            let retval = s.ram[(sp - 1) as u16];
            let retaddr = s.ram[(lcl - 5) as u16];
            let code = return_code();
            let epilogue = code.take(code.len() - 1);
            let fin = run_code(epilogue, env, s);
            &&& fin is Some
            &&& fin->Some_0.a == retaddr
            &&& fin->Some_0.ram[arg] == retval
            &&& fin->Some_0.ram[0] == arg + 1
            &&& fin->Some_0.ram[4] == s.ram[(lcl - 1) as u16]
            &&& fin->Some_0.ram[3] == s.ram[(lcl - 2) as u16]
            &&& fin->Some_0.ram[2] == s.ram[(lcl - 3) as u16]
            &&& fin->Some_0.ram[1] == s.ram[(lcl - 4) as u16]
            &&& forall|k: u16|
                !(k <= 4 || k == 13 || k == 14 || k == arg) ==> fin->Some_0.ram[k] == s.ram[k]
        }),
{
    let sp = s.ram[0];
    let lcl = s.ram[1];
    let arg = s.ram[2];
    let retval = s.ram[(sp - 1) as u16];
    let retaddr = s.ram[(lcl - 5) as u16];
    let code = return_code();
    let epilogue = code.take(code.len() - 1);
    let head = seq![
        AsmInstrV::AtSym("LCL"@),
        AsmInstrV::CInstr(Dest::RegD, Comp::CompM, Jmp::NoJump),
        AsmInstrV::AtSym("R13"@),
        AsmInstrV::CInstr(Dest::RegM, Comp::CompD, Jmp::NoJump),
        AsmInstrV::AtNum(5),
        AsmInstrV::CInstr(Dest::RegA, Comp::DMinusA, Jmp::NoJump),
        AsmInstrV::CInstr(Dest::RegD, Comp::CompM, Jmp::NoJump),
        AsmInstrV::AtSym("R14"@),
        AsmInstrV::CInstr(Dest::RegM, Comp::CompD, Jmp::NoJump),
        AsmInstrV::AtSym("SP"@),
        AsmInstrV::CInstr(Dest::RegAM, Comp::MMinusOne, Jmp::NoJump),
        AsmInstrV::CInstr(Dest::RegD, Comp::CompM, Jmp::NoJump),
        AsmInstrV::AtSym("ARG"@),
        AsmInstrV::CInstr(Dest::RegA, Comp::CompM, Jmp::NoJump),
        AsmInstrV::CInstr(Dest::RegM, Comp::CompD, Jmp::NoJump),
        AsmInstrV::AtSym("ARG"@),
        AsmInstrV::CInstr(Dest::RegD, Comp::MPlusOne, Jmp::NoJump),
        AsmInstrV::AtSym("SP"@),
        AsmInstrV::CInstr(Dest::RegM, Comp::CompD, Jmp::NoJump),
    ];
    let tail = seq![
        AsmInstrV::AtSym("R14"@),
        AsmInstrV::CInstr(Dest::RegA, Comp::CompM, Jmp::NoJump),
    ];
    let rest1 = restore_pointer("THAT"@) + (restore_pointer("THIS"@) + (restore_pointer("ARG"@)
        + (restore_pointer("LCL"@) + tail)));
    assert(epilogue =~= head + rest1);
    // capture the frame base and the return address, move the return value
    let s1 = MachState { a: 1, ..s };
    assert(step(head[0], env, s) == Some(s1));
    let s2 = MachState { d: lcl, ..s1 };
    assert(step(head[1], env, s1) == Some(s2));
    let s3 = MachState { a: 13, ..s2 };
    assert(step(head[2], env, s2) == Some(s3));
    let rb = s.ram.insert(13, lcl);
    let s4 = MachState { ram: rb, ..s3 };
    assert(step(head[3], env, s3) == Some(s4));
    let s5 = MachState { a: 5, ..s4 };
    assert(step(head[4], env, s4) == Some(s5));
    let s6 = MachState { a: (lcl - 5) as u16, ..s5 };
    assert(wrap(lcl - 5) == (lcl - 5) as u16);
    assert(step(head[5], env, s5) == Some(s6));
    let s7 = MachState { d: retaddr, ..s6 };
    assert(rb[(lcl - 5) as u16] == retaddr);
    assert(step(head[6], env, s6) == Some(s7));
    let s8 = MachState { a: 14, ..s7 };
    assert(step(head[7], env, s7) == Some(s8));
    let rc = rb.insert(14, retaddr);
    let s9 = MachState { ram: rc, ..s8 };
    assert(step(head[8], env, s8) == Some(s9));
    let s10 = MachState { a: 0, ..s9 };
    assert(step(head[9], env, s9) == Some(s10));
    let rd = rc.insert(0, (sp - 1) as u16);
    let s11 = MachState { a: (sp - 1) as u16, ram: rd, ..s10 };
    assert(rc[0] == sp);
    assert(wrap(sp - 1) == (sp - 1) as u16);
    assert(step(head[10], env, s10) == Some(s11));
    let s12 = MachState { d: retval, ..s11 };
    assert(rd[(sp - 1) as u16] == retval);
    assert(step(head[11], env, s11) == Some(s12));
    let s13 = MachState { a: 2, ..s12 };
    assert(step(head[12], env, s12) == Some(s13));
    let s14 = MachState { a: arg, ..s13 };
    assert(rd[2] == arg);
    assert(step(head[13], env, s13) == Some(s14));
    let re = rd.insert(arg, retval);
    let s15 = MachState { ram: re, ..s14 };
    assert(step(head[14], env, s14) == Some(s15));
    let s16 = MachState { a: 2, ..s15 };
    assert(step(head[15], env, s15) == Some(s16));
    let s17 = MachState { d: (arg + 1) as u16, ..s16 };
    assert(re[2] == arg);
    assert(wrap(arg + 1) == (arg + 1) as u16);
    assert(step(head[16], env, s16) == Some(s17));
    let s18 = MachState { a: 0, ..s17 };
    assert(step(head[17], env, s17) == Some(s18));
    let rf = re.insert(0, (arg + 1) as u16);
    let s19 = MachState { ram: rf, ..s18 };
    assert(step(head[18], env, s18) == Some(s19));
    let u1 = head.skip(1);
    let u2 = u1.skip(1);
    let u3 = u2.skip(1);
    let u4 = u3.skip(1);
    let u5 = u4.skip(1);
    let u6 = u5.skip(1);
    let u7 = u6.skip(1);
    let u8 = u7.skip(1);
    let u9 = u8.skip(1);
    let u10 = u9.skip(1);
    let u11 = u10.skip(1);
    let u12 = u11.skip(1);
    let u13 = u12.skip(1);
    let u14 = u13.skip(1);
    let u15 = u14.skip(1);
    let u16 = u15.skip(1);
    let u17 = u16.skip(1);
    let u18 = u17.skip(1);
    let u19 = u18.skip(1);
    assert(u1[0] == head[1]);
    assert(u2[0] == head[2]);
    assert(u3[0] == head[3]);
    assert(u4[0] == head[4]);
    assert(u5[0] == head[5]);
    assert(u6[0] == head[6]);
    assert(u7[0] == head[7]);
    assert(u8[0] == head[8]);
    assert(u9[0] == head[9]);
    assert(u10[0] == head[10]);
    assert(u11[0] == head[11]);
    assert(u12[0] == head[12]);
    assert(u13[0] == head[13]);
    assert(u14[0] == head[14]);
    assert(u15[0] == head[15]);
    assert(u16[0] == head[16]);
    assert(u17[0] == head[17]);
    assert(u18[0] == head[18]);
    assert(u19 =~= Seq::<AsmInstrV>::empty());
    assert(run_code(u19, env, s19) == Some(s19));
    assert(run_code(u18, env, s18) == Some(s19));
    assert(run_code(u17, env, s17) == Some(s19));
    assert(run_code(u16, env, s16) == Some(s19));
    assert(run_code(u15, env, s15) == Some(s19));
    assert(run_code(u14, env, s14) == Some(s19));
    assert(run_code(u13, env, s13) == Some(s19));
    assert(run_code(u12, env, s12) == Some(s19));
    assert(run_code(u11, env, s11) == Some(s19));
    assert(run_code(u10, env, s10) == Some(s19));
    assert(run_code(u9, env, s9) == Some(s19));
    assert(run_code(u8, env, s8) == Some(s19));
    assert(run_code(u7, env, s7) == Some(s19));
    assert(run_code(u6, env, s6) == Some(s19));
    assert(run_code(u5, env, s5) == Some(s19));
    assert(run_code(u4, env, s4) == Some(s19));
    assert(run_code(u3, env, s3) == Some(s19));
    assert(run_code(u2, env, s2) == Some(s19));
    assert(run_code(u1, env, s1) == Some(s19));
    assert(run_code(head, env, s) == Some(s19));
    lemma_run_code_add(head, rest1, env, s);
    // restore the caller's four segment pointers
    assert(rf.dom() =~= Set::<u16>::full());
    assert(rf[13] == lcl);
    assert(rf[(lcl - 1) as u16] == s.ram[(lcl - 1) as u16]);
    lemma_restore_pointer_effect("THAT"@, 4, env, s19);
    let rg = rf.insert(13, (lcl - 1) as u16).insert(4, s.ram[(lcl - 1) as u16]);
    let sg = MachState { a: 4, d: s.ram[(lcl - 1) as u16], ram: rg };
    let rest2 = restore_pointer("THIS"@) + (restore_pointer("ARG"@) + (restore_pointer("LCL"@)
        + tail));
    lemma_run_code_add(restore_pointer("THAT"@), rest2, env, s19);
    assert(rest1 =~= restore_pointer("THAT"@) + rest2);
    assert(rg.dom() =~= Set::<u16>::full());
    assert(rg[13] == lcl - 1);
    assert(rg[(lcl - 2) as u16] == s.ram[(lcl - 2) as u16]);
    lemma_restore_pointer_effect("THIS"@, 3, env, sg);
    let rh = rg.insert(13, (lcl - 2) as u16).insert(3, s.ram[(lcl - 2) as u16]);
    let sh = MachState { a: 3, d: s.ram[(lcl - 2) as u16], ram: rh };
    let rest3 = restore_pointer("ARG"@) + (restore_pointer("LCL"@) + tail);
    lemma_run_code_add(restore_pointer("THIS"@), rest3, env, sg);
    assert(rest2 =~= restore_pointer("THIS"@) + rest3);
    assert(rh.dom() =~= Set::<u16>::full());
    assert(rh[13] == lcl - 2);
    assert(rh[(lcl - 3) as u16] == s.ram[(lcl - 3) as u16]);
    lemma_restore_pointer_effect("ARG"@, 2, env, sh);
    let ri = rh.insert(13, (lcl - 3) as u16).insert(2, s.ram[(lcl - 3) as u16]);
    let si = MachState { a: 2, d: s.ram[(lcl - 3) as u16], ram: ri };
    let rest4 = restore_pointer("LCL"@) + tail;
    lemma_run_code_add(restore_pointer("ARG"@), rest4, env, sh);
    assert(rest3 =~= restore_pointer("ARG"@) + rest4);
    assert(ri.dom() =~= Set::<u16>::full());
    assert(ri[13] == lcl - 3);
    assert(ri[(lcl - 4) as u16] == s.ram[(lcl - 4) as u16]);
    lemma_restore_pointer_effect("LCL"@, 1, env, si);
    let rj = ri.insert(13, (lcl - 4) as u16).insert(1, s.ram[(lcl - 4) as u16]);
    let sj = MachState { a: 1, d: s.ram[(lcl - 4) as u16], ram: rj };
    lemma_run_code_add(restore_pointer("LCL"@), tail, env, si);
    // land the address register on the saved return address
    assert(rj[14] == retaddr);
    let k1 = MachState { a: 14, ..sj };
    assert(step(tail[0], env, sj) == Some(k1));
    let k2 = MachState { a: retaddr, ..k1 };
    assert(step(tail[1], env, k1) == Some(k2));
    let w1 = tail.skip(1);
    assert(w1[0] == tail[1]);
    assert(w1.skip(1) =~= Seq::<AsmInstrV>::empty());
    assert(run_code(w1.skip(1), env, k2) == Some(k2));
    assert(run_code(w1, env, k1) == Some(k2));
    assert(run_code(tail, env, sj) == Some(k2));
    assert(run_code(epilogue, env, s) == Some(k2));
    assert(k2.ram[arg] == retval);
    assert(k2.ram[0] == arg + 1);
}

/// The law above, stated of the code generator's own output: for each of
/// the four two-argument operator keywords, the emitted code pops the top
/// two stack values, leaves the operator's result as the new top, and
/// touches nothing else.
pub proof fn lemma_arith_code_stack_effect(
    op: Seq<char>,
    env: Map<Seq<char>, u16>,
    s: MachState,
    ctx: CtxView,
)
    requires
        op == "add"@ || op == "sub"@ || op == "and"@ || op == "or"@,
        standard_env(env),
        total_ram(s),
        2 < s.ram[0],
    ensures
        ({
            let sp = s.ram[0];
            let x = s.ram[(sp - 2) as u16];
            let y = s.ram[(sp - 1) as u16];
            let gen = crate::codegen::spec_gen_arith(op, ctx);
            let fin = run_code(gen->Ok_0.0, env, s);
            &&& gen is Ok
            &&& gen->Ok_0.1 == ctx
            &&& fin is Some
            &&& fin->Some_0.ram[0] == sp - 1
            &&& fin->Some_0.ram[(sp - 2) as u16] == (if op == "add"@ {
                wrap(x + y)
            } else if op == "sub"@ {
                wrap(x - y)
            } else if op == "and"@ {
                x & y
            } else {
                x | y
            })
            &&& forall|k: u16|
                k != 0 && k != (sp - 2) as u16 ==> fin->Some_0.ram[k] == s.ram[k]
        }),
{
    reveal_strlit("add");
    reveal_strlit("sub");
    reveal_strlit("and");
    reveal_strlit("or");
    let sp = s.ram[0];
    let x = s.ram[(sp - 2) as u16];
    let y = s.ram[(sp - 1) as u16];
    if op == "add"@ {
        lemma_binary_op_stack_effect(Comp::DPlusM, env, s);
        assert(binary_result(Comp::DPlusM, x, y) == wrap(x + y));
    } else if op == "sub"@ {
        lemma_binary_op_stack_effect(Comp::MMinusD, env, s);
        assert(binary_result(Comp::MMinusD, x, y) == wrap(x - y));
    } else if op == "and"@ {
        lemma_binary_op_stack_effect(Comp::DAndM, env, s);
        assert(binary_result(Comp::DAndM, x, y) == (y & x));
        assert(y & x == x & y) by (bit_vector);
    } else {
        lemma_binary_op_stack_effect(Comp::DOrM, env, s);
        assert(binary_result(Comp::DOrM, x, y) == (y | x));
        assert(y | x == x | y) by (bit_vector);
    }
}

} // verus!
