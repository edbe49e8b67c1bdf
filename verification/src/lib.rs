//! A translator from a stack-oriented virtual-machine instruction set to the
//! assembly language of a 16-bit target machine. The library normalizes raw
//! source lines, classifies each instruction, and generates the assembly
//! text implementing its effect on the stack machine, threading a context
//! that scopes labels per function and mints globally unique branch targets.
use vstd::prelude::*;

pub mod assembly;
pub mod codegen;
pub mod context;
pub mod laws;
pub mod machine;
pub mod parser;
pub mod strutil;
pub mod writer;

use crate::assembly::{render_seq, AsmInstrV};
use crate::codegen::{spec_generate_line, Code};
use crate::context::{initial_ctx, Context, CtxView, ErrorKind, TransError};
use crate::parser::Parser;
use crate::strutil::normalize_view;
use crate::writer::CodeWriter;

verus! {

/// The two paths a translation run works between. The library itself never
/// touches the file system; a caller reads the input and persists the output.
pub struct Config {
    pub input_file: String,
    pub output_file: String,
}

impl Config {
    pub fn new(input_file: String, output_file: String) -> (c: Config)
        ensures
            c.input_file@ == input_file@,
            c.output_file@ == output_file@,
    {
        Config { input_file, output_file }
    }

    pub fn input_file(&self) -> (r: &String)
        ensures
            r@ == self.input_file@,
    {
        &self.input_file
    }

    pub fn output_file(&self) -> (r: &String)
        ensures
            r@ == self.output_file@,
    {
        &self.output_file
    }
}

/// What translating the instruction lines from position `i` onward yields:
/// the concatenated assembly text of each instruction in order and the
/// final context, or the first fatal condition with the index of the
/// instruction that raised it.
pub open spec fn spec_translate_lines(lines: Seq<Seq<char>>, ctx: CtxView, i: int) -> Result<
    (Seq<char>, CtxView),
    (ErrorKind, int),
>
    decreases lines.len() - i,
{
    if i < 0 || i >= lines.len() {
        Ok((Seq::empty(), ctx))
    } else {
        match spec_generate_line(lines[i], ctx) {
            Err(k) => Err((k, i)),
            Ok((code, c2)) => match spec_translate_lines(lines, c2, i + 1) {
                Err(e) => Err(e),
                Ok((rest, cf)) => Ok((render_seq(code) + rest, cf)),
            },
        }
    }
}

/// What one full translation run yields on a raw source text and a logical
/// source name: the assembly text of its normalized instruction sequence,
/// translated in order from the initial context, or its first fatal
/// condition. The whole run is a pure function of these two inputs.
pub open spec fn spec_run(source: Seq<char>, source_name: Seq<char>) -> Result<
    Seq<char>,
    (ErrorKind, int),
> {
    match spec_translate_lines(normalize_view(source), initial_ctx(source_name), 0) {
        Ok((text, _)) => Ok(text),
        Err(e) => Err(e),
    }
}

/// Each step of translation advances each label counter by at most one.
proof fn lemma_line_counters(l: Seq<char>, ctx: CtxView)
    ensures
        match spec_generate_line(l, ctx) {
            Ok((code, c2)) => c2.comparison_counter <= ctx.comparison_counter + 1
                && c2.call_counter <= ctx.call_counter + 1,
            Err(_) => true,
        },
{
    if crate::parser::line_kind(l) is Some {
        crate::codegen::lemma_gen_counters(
            crate::parser::line_kind(l)->Some_0,
            crate::parser::line_arg1(l),
            crate::parser::line_arg2(l),
            ctx,
        );
    }
}

/// The driver: reads the instruction sequence of one source text and
/// accumulates the generated assembly in instruction order. On success the
/// returned accumulator holds exactly the text of the whole translation;
/// a fatal condition aborts the run with the instruction that raised it,
/// and no output is handed back.
pub fn run(config: Config, source: String, source_name: String) -> (r: Result<
    CodeWriter,
    TransError,
>)
    requires
        source@.len() < usize::MAX,
    ensures
        match spec_run(source@, source_name@) {
            Ok(text) => r is Ok && r->Ok_0.assembly_code@ == text && r->Ok_0.output_file@
                == config.output_file@,
            Err((k, i)) => r is Err && r->Err_0.kind == k && r->Err_0.line == i
                && r->Err_0.content@ == normalize_view(source@)[i],
        },
{
    let mut parser = Parser::create(source);
    let mut ctx = Context::new(source_name);
    let mut writer = CodeWriter::new(&config);
    let ghost lines = parser.lines.deep_view();
    let ghost ctx0 = ctx@;
    proof {
        assert(spec_translate_lines(lines, ctx0, 0) == match spec_translate_lines(
            lines,
            ctx@,
            parser.current_instruction as int,
        ) {
            Ok((rest, cf)) => Ok::<(Seq<char>, CtxView), (ErrorKind, int)>((
                writer.assembly_code@ + rest,
                cf,
            )),
            Err(e) => Err::<(Seq<char>, CtxView), (ErrorKind, int)>(e),
        }) by {
            if spec_translate_lines(lines, ctx0, 0) is Ok {
                assert(writer.assembly_code@ + spec_translate_lines(lines, ctx0, 0)->Ok_0.0
                    =~= spec_translate_lines(lines, ctx0, 0)->Ok_0.0);
            }
        }
    }
    while parser.current_instruction < parser.lines.len()
        invariant
            parser.wf(),
            parser.lines.deep_view() == lines,
            lines == normalize_view(source@),
            ctx0 == initial_ctx(source_name@),
            lines.len() < usize::MAX,
            parser.current_instruction <= lines.len(),
            ctx@.comparison_counter <= parser.current_instruction,
            ctx@.call_counter <= parser.current_instruction,
            writer.output_file@ == config.output_file@,
            spec_translate_lines(lines, ctx0, 0) == (match spec_translate_lines(
                lines,
                ctx@,
                parser.current_instruction as int,
            ) {
                Ok((rest, cf)) => Ok::<(Seq<char>, CtxView), (ErrorKind, int)>((
                    writer.assembly_code@ + rest,
                    cf,
                )),
                Err(e) => Err::<(Seq<char>, CtxView), (ErrorKind, int)>(e),
            }),
        decreases lines.len() - parser.current_instruction,
    {
        let ghost i = parser.current_instruction as int;
        let ghost l = lines[i];
        let ghost ctx_before = ctx@;
        proof {
            assert(l == parser.lines@[i]@);
        }
        let kind_opt = parser.command_type();
        let kind = match kind_opt {
            Some(k) => k,
            None => {
                proof {
                    assert(spec_generate_line(l, ctx_before) == Err::<
                        (Seq<AsmInstrV>, CtxView),
                        ErrorKind,
                    >(ErrorKind::Malformed));
                    assert(spec_translate_lines(lines, ctx0, 0) == Err::<
                        (Seq<char>, CtxView),
                        (ErrorKind, int),
                    >((ErrorKind::Malformed, i)));
                }
                return Err(TransError {
                    kind: ErrorKind::Malformed,
                    line: parser.current_instruction,
                    content: parser.lines[parser.current_instruction].clone(),
                });
            },
        };
        let arg1 = parser.arg1();
        let arg2 = parser.arg2();
        proof {
            assert(u64::MAX >= usize::MAX);
            lemma_line_counters(l, ctx_before);
        }
        match Code::generate(kind, &arg1, arg2, &mut ctx) {
            Ok(text) => {
                let ghost wb = writer.assembly_code@;
                let _added = writer.add_assembly_code(text.as_str());
                proof {
                    let gen = spec_generate_line(l, ctx_before);
                    assert(gen == crate::codegen::spec_gen_instr(
                        kind,
                        arg1.deep_view(),
                        arg2,
                        ctx_before,
                    ));
                    assert(gen is Ok);
                    let code = gen->Ok_0.0;
                    assert(ctx@ == gen->Ok_0.1);
                    assert(writer.assembly_code@ == wb + render_seq(code));
                    if spec_translate_lines(lines, ctx@, i + 1) is Ok {
                        let rest2 = spec_translate_lines(lines, ctx@, i + 1)->Ok_0.0;
                        assert(wb + (render_seq(code) + rest2) =~= (wb + render_seq(code))
                            + rest2);
                    }
                }
                parser.advance();
            },
            Err(k) => {
                proof {
                    assert(spec_generate_line(l, ctx_before) == Err::<
                        (Seq<AsmInstrV>, CtxView),
                        ErrorKind,
                    >(k));
                }
                return Err(TransError {
                    kind: k,
                    line: parser.current_instruction,
                    content: parser.lines[parser.current_instruction].clone(),
                });
            },
        }
    }
    proof {
        assert(spec_translate_lines(lines, ctx@, parser.current_instruction as int) == Ok::<
            (Seq<char>, CtxView),
            (ErrorKind, int),
        >((Seq::empty(), ctx@)));
        assert(writer.assembly_code@ + Seq::<char>::empty() =~= writer.assembly_code@);
    }
    Ok(writer)
}

} // verus!
