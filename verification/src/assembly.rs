//! The target machine's instruction forms, as structured values: address
//! instructions, compute instructions, and label definitions. The code
//! generator builds sequences of these, and `render` prints them one per
//! line, exactly as the downstream assembler expects them.
use vstd::prelude::*;

use crate::strutil::{dec_rep, u16_to_string};

verus! {

/// The registers a compute instruction stores into.
#[derive(Debug, PartialEq, Eq, Structural, Clone, Copy)]
pub enum Dest {
    NoDest,
    RegM,
    RegD,
    RegA,
    RegAM,
}

/// The computations the target ALU offers that the generated code uses.
#[derive(Debug, PartialEq, Eq, Structural, Clone, Copy)]
pub enum Comp {
    Zero,
    NegOne,
    CompD,
    CompA,
    CompM,
    NotM,
    NegM,
    MPlusOne,
    MMinusOne,
    AMinusOne,
    DPlusM,
    MMinusD,
    DMinusA,
    DAndM,
    DOrM,
}

/// The jump condition of a compute instruction, read against the computed
/// value as a signed sixteen-bit number.
#[derive(Debug, PartialEq, Eq, Structural, Clone, Copy)]
pub enum Jmp {
    NoJump,
    Jeq,
    Jgt,
    Jlt,
    Jne,
    JmpAlways,
}

/// One target-assembly instruction, over mathematical text.
pub enum AsmInstrV {
    AtNum(u16),
    AtSym(Seq<char>),
    CInstr(Dest, Comp, Jmp),
    LabelDef(Seq<char>),
}

/// One target-assembly instruction, as built by the code generator.
pub enum AsmInstr {
    AtNum(u16),
    AtSym(String),
    CInstr(Dest, Comp, Jmp),
    LabelDef(String),
}

impl View for AsmInstr {
    type V = AsmInstrV;

    open spec fn view(&self) -> AsmInstrV {
        match self {
            AsmInstr::AtNum(n) => AsmInstrV::AtNum(*n),
            AsmInstr::AtSym(s) => AsmInstrV::AtSym(s@),
            AsmInstr::CInstr(d, c, j) => AsmInstrV::CInstr(*d, *c, *j),
            AsmInstr::LabelDef(s) => AsmInstrV::LabelDef(s@),
        }
    }
}

impl DeepView for AsmInstr {
    type V = AsmInstrV;

    open spec fn deep_view(&self) -> AsmInstrV {
        self.view()
    }
}

pub open spec fn render_dest(d: Dest) -> Seq<char> {
    match d {
        Dest::NoDest => Seq::empty(),
        Dest::RegM => "M="@,
        Dest::RegD => "D="@,
        Dest::RegA => "A="@,
        Dest::RegAM => "AM="@,
    }
}

pub open spec fn render_comp(c: Comp) -> Seq<char> {
    match c {
        Comp::Zero => "0"@,
        Comp::NegOne => "-1"@,
        Comp::CompD => "D"@,
        Comp::CompA => "A"@,
        Comp::CompM => "M"@,
        Comp::NotM => "!M"@,
        Comp::NegM => "-M"@,
        Comp::MPlusOne => "M+1"@,
        Comp::MMinusOne => "M-1"@,
        Comp::AMinusOne => "A-1"@,
        Comp::DPlusM => "D+M"@,
        Comp::MMinusD => "M-D"@,
        Comp::DMinusA => "D-A"@,
        Comp::DAndM => "D&M"@,
        Comp::DOrM => "D|M"@,
    }
}

pub open spec fn render_jump(j: Jmp) -> Seq<char> {
    match j {
        Jmp::NoJump => Seq::empty(),
        Jmp::Jeq => ";JEQ"@,
        Jmp::Jgt => ";JGT"@,
        Jmp::Jlt => ";JLT"@,
        Jmp::Jne => ";JNE"@,
        Jmp::JmpAlways => ";JMP"@,
    }
}

/// The text of one instruction, with its terminating line break.
pub open spec fn render_instr(i: AsmInstrV) -> Seq<char> {
    match i {
        AsmInstrV::AtNum(n) => "@"@ + dec_rep(n as nat) + "\n"@,
        AsmInstrV::AtSym(s) => "@"@ + s + "\n"@,
        AsmInstrV::CInstr(d, c, j) => render_dest(d) + render_comp(c) + render_jump(j) + "\n"@,
        AsmInstrV::LabelDef(s) => "("@ + s + ")\n"@,
    }
}

/// The text of an instruction sequence, one instruction per line, in order.
pub open spec fn render_seq(v: Seq<AsmInstrV>) -> Seq<char>
    decreases v.len(),
{
    if v.len() == 0 {
        Seq::empty()
    } else {
        render_instr(v[0]) + render_seq(v.skip(1))
    }
}

pub proof fn lemma_render_seq_push(v: Seq<AsmInstrV>, x: AsmInstrV)
    ensures
        render_seq(v.push(x)) == render_seq(v) + render_instr(x),
    decreases v.len(),
{
    if v.len() == 0 {
        assert(v.push(x).skip(1) =~= Seq::<AsmInstrV>::empty());
        assert(render_seq(Seq::<AsmInstrV>::empty()) == Seq::<char>::empty());
        assert(v.push(x)[0] == x);
        assert(render_seq(v.push(x)) =~= render_instr(x));
        assert(render_seq(v) + render_instr(x) =~= render_instr(x));
    } else {
        assert(v.push(x).skip(1) =~= v.skip(1).push(x));
        lemma_render_seq_push(v.skip(1), x);
        assert(render_seq(v.push(x)) =~= render_seq(v) + render_instr(x));
    }
}

/// Text accumulates piecewise: rendering a concatenation concatenates.
pub proof fn lemma_render_seq_add(a: Seq<AsmInstrV>, b: Seq<AsmInstrV>)
    ensures
        render_seq(a + b) == render_seq(a) + render_seq(b),
    decreases b.len(),
{
    if b.len() == 0 {
        assert(a + b =~= a);
        assert(render_seq(a) + render_seq(b) =~= render_seq(a));
    } else {
        assert(a + b =~= (a.push(b[0])) + b.skip(1));
        lemma_render_seq_add(a.push(b[0]), b.skip(1));
        lemma_render_seq_push(a, b[0]);
        assert(render_seq(a + b) =~= render_seq(a) + render_seq(b));
    }
}

fn render_dest_into(s: &mut String, d: Dest)
    ensures
        final(s)@ == old(s)@ + render_dest(d),
{
    match d {
        Dest::NoDest => {
            proof {
                assert(old(s)@ + render_dest(d) =~= old(s)@);
            }
        },
        Dest::RegM => s.append("M="),
        Dest::RegD => s.append("D="),
        Dest::RegA => s.append("A="),
        Dest::RegAM => s.append("AM="),
    }
}

fn render_comp_into(s: &mut String, c: Comp)
    ensures
        final(s)@ == old(s)@ + render_comp(c),
{
    match c {
        Comp::Zero => s.append("0"),
        Comp::NegOne => s.append("-1"),
        Comp::CompD => s.append("D"),
        Comp::CompA => s.append("A"),
        Comp::CompM => s.append("M"),
        Comp::NotM => s.append("!M"),
        Comp::NegM => s.append("-M"),
        Comp::MPlusOne => s.append("M+1"),
        Comp::MMinusOne => s.append("M-1"),
        Comp::AMinusOne => s.append("A-1"),
        Comp::DPlusM => s.append("D+M"),
        Comp::MMinusD => s.append("M-D"),
        Comp::DMinusA => s.append("D-A"),
        Comp::DAndM => s.append("D&M"),
        Comp::DOrM => s.append("D|M"),
    }
}

fn render_jump_into(s: &mut String, j: Jmp)
    ensures
        final(s)@ == old(s)@ + render_jump(j),
{
    match j {
        Jmp::NoJump => {
            proof {
                assert(old(s)@ + render_jump(j) =~= old(s)@);
            }
        },
        Jmp::Jeq => s.append(";JEQ"),
        Jmp::Jgt => s.append(";JGT"),
        Jmp::Jlt => s.append(";JLT"),
        Jmp::Jne => s.append(";JNE"),
        Jmp::JmpAlways => s.append(";JMP"),
    }
}

fn render_instr_into(s: &mut String, i: &AsmInstr)
    ensures
        final(s)@ == old(s)@ + render_instr(i@),
{
    match i {
        AsmInstr::AtNum(n) => {
            s.append("@");
            let d = u16_to_string(*n);
            s.append(d.as_str());
            s.append("\n");
            proof {
                assert(s@ =~= old(s)@ + render_instr(i@));
            }
        },
        AsmInstr::AtSym(name) => {
            s.append("@");
            s.append(name.as_str());
            s.append("\n");
            proof {
                assert(s@ =~= old(s)@ + render_instr(i@));
            }
        },
        AsmInstr::CInstr(d, c, j) => {
            render_dest_into(s, *d);
            render_comp_into(s, *c);
            render_jump_into(s, *j);
            s.append("\n");
            proof {
                assert(s@ =~= old(s)@ + render_instr(i@));
            }
        },
        AsmInstr::LabelDef(name) => {
            s.append("(");
            s.append(name.as_str());
            s.append(")\n");
            proof {
                assert(s@ =~= old(s)@ + render_instr(i@));
            }
        },
    }
}

/// Prints an instruction sequence, one instruction per line.
pub fn render(v: &Vec<AsmInstr>) -> (r: String)
    ensures
        r@ == render_seq(v.deep_view()),
{
    let mut s = String::new();
    let mut i: usize = 0;
    while i < v.len()
        invariant
            i <= v@.len(),
            s@ == render_seq(v.deep_view().take(i as int)),
        decreases v@.len() - i,
    {
        render_instr_into(&mut s, &v[i]);
        proof {
            assert(v.deep_view().take(i + 1 as int) =~= v.deep_view().take(i as int).push(
                v.deep_view()[i as int],
            ));
            lemma_render_seq_push(v.deep_view().take(i as int), v.deep_view()[i as int]);
        }
        i = i + 1;
    }
    proof {
        assert(v.deep_view().take(v.deep_view().len() as int) =~= v.deep_view());
    }
    s
}

} // verus!
