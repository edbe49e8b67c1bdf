use vm_translator::context::ErrorKind;
use vm_translator::{run, Config};

fn translate(source: &str) -> String {
    let config = Config::new("In.vm".to_string(), "Out.asm".to_string());
    let writer = run(config, source.to_string(), "In".to_string()).unwrap();
    writer.assembly_code
}

fn translate_err(source: &str) -> vm_translator::context::TransError {
    let config = Config::new("In.vm".to_string(), "Out.asm".to_string());
    run(config, source.to_string(), "In".to_string()).unwrap_err()
}

#[test]
fn push_constant_then_add_scenario() {
    let out = translate("push constant 7\npush constant 8\nadd\n");
    let expected = "@7\nD=A\n@SP\nM=M+1\nA=M-1\nM=D\n\
@8\nD=A\n@SP\nM=M+1\nA=M-1\nM=D\n\
@SP\nAM=M-1\nD=M\nA=A-1\nM=D+M\n";
    assert_eq!(out, expected);
}

#[test]
fn binary_and_unary_operators() {
    assert_eq!(translate("sub\n"), "@SP\nAM=M-1\nD=M\nA=A-1\nM=M-D\n");
    assert_eq!(translate("and\n"), "@SP\nAM=M-1\nD=M\nA=A-1\nM=D&M\n");
    assert_eq!(translate("or\n"), "@SP\nAM=M-1\nD=M\nA=A-1\nM=D|M\n");
    assert_eq!(translate("neg\n"), "@SP\nA=M-1\nM=-M\n");
    assert_eq!(translate("not\n"), "@SP\nA=M-1\nM=!M\n");
}

#[test]
fn comparison_mints_fresh_label_pairs() {
    let out = translate("eq\ngt\n");
    let expected_eq = "@SP\nAM=M-1\nD=M\nA=A-1\nD=M-D\n\
@CMP_TRUE_0\nD;JEQ\n@SP\nA=M-1\nM=0\n@CMP_END_0\n0;JMP\n\
(CMP_TRUE_0)\n@SP\nA=M-1\nM=-1\n(CMP_END_0)\n";
    let expected_gt = "@SP\nAM=M-1\nD=M\nA=A-1\nD=M-D\n\
@CMP_TRUE_1\nD;JGT\n@SP\nA=M-1\nM=0\n@CMP_END_1\n0;JMP\n\
(CMP_TRUE_1)\n@SP\nA=M-1\nM=-1\n(CMP_END_1)\n";
    assert_eq!(out, format!("{}{}", expected_eq, expected_gt));
}

#[test]
fn identical_comparisons_mint_distinct_labels() {
    let out = translate("lt\nlt\n");
    assert!(out.contains("CMP_TRUE_0"));
    assert!(out.contains("CMP_TRUE_1"));
    assert!(out.contains("CMP_END_0"));
    assert!(out.contains("CMP_END_1"));
    assert!(out.contains(";JLT"));
}

#[test]
fn push_and_pop_every_segment() {
    assert_eq!(
        translate("push local 2\n"),
        "@2\nD=A\n@LCL\nA=D+M\nD=M\n@SP\nM=M+1\nA=M-1\nM=D\n"
    );
    assert_eq!(
        translate("push argument 0\n"),
        "@0\nD=A\n@ARG\nA=D+M\nD=M\n@SP\nM=M+1\nA=M-1\nM=D\n"
    );
    assert_eq!(
        translate("push this 1\n"),
        "@1\nD=A\n@THIS\nA=D+M\nD=M\n@SP\nM=M+1\nA=M-1\nM=D\n"
    );
    assert_eq!(
        translate("push that 5\n"),
        "@5\nD=A\n@THAT\nA=D+M\nD=M\n@SP\nM=M+1\nA=M-1\nM=D\n"
    );
    assert_eq!(translate("push pointer 1\n"), "@4\nD=M\n@SP\nM=M+1\nA=M-1\nM=D\n");
    assert_eq!(translate("push temp 3\n"), "@8\nD=M\n@SP\nM=M+1\nA=M-1\nM=D\n");
    assert_eq!(translate("push static 7\n"), "@In.7\nD=M\n@SP\nM=M+1\nA=M-1\nM=D\n");
    assert_eq!(
        translate("pop local 2\n"),
        "@2\nD=A\n@LCL\nD=D+M\n@R13\nM=D\n@SP\nAM=M-1\nD=M\n@R13\nA=M\nM=D\n"
    );
    assert_eq!(translate("pop pointer 0\n"), "@SP\nAM=M-1\nD=M\n@3\nM=D\n");
    assert_eq!(translate("pop temp 1\n"), "@SP\nAM=M-1\nD=M\n@6\nM=D\n");
    assert_eq!(translate("pop static 3\n"), "@SP\nAM=M-1\nD=M\n@In.3\nM=D\n");
}

#[test]
fn push_constant_pop_slot_pair() {
    let out = translate("push constant 9\npop temp 0\n");
    assert_eq!(
        out,
        "@9\nD=A\n@SP\nM=M+1\nA=M-1\nM=D\n@SP\nAM=M-1\nD=M\n@5\nM=D\n"
    );
}

#[test]
fn labels_are_scoped_per_function() {
    let out = translate("function A 0\nlabel done\nfunction B 0\nlabel done\n");
    assert_eq!(out, "(A)\n(A$done)\n(B)\n(B$done)\n");
    assert!(out.contains("(A$done)"));
    assert!(out.contains("(B$done)"));
    assert_ne!("A$done", "B$done");
}

#[test]
fn labels_before_any_function_are_unscoped() {
    let out = translate("label start\ngoto start\n");
    assert_eq!(out, "(start)\n@start\n0;JMP\n");
}

#[test]
fn branching_in_a_function_scope() {
    let out = translate("function F 0\nlabel LOOP\ngoto LOOP\nif-goto LOOP\n");
    assert_eq!(
        out,
        "(F)\n(F$LOOP)\n@F$LOOP\n0;JMP\n@SP\nAM=M-1\nD=M\n@F$LOOP\nD;JNE\n"
    );
}

#[test]
fn function_zero_initializes_locals() {
    let out = translate("function Foo 2\n");
    assert_eq!(out, "(Foo)\n@SP\nM=M+1\nA=M-1\nM=0\n@SP\nM=M+1\nA=M-1\nM=0\n");
}

#[test]
fn call_saves_frame_and_lands_on_fresh_return_address() {
    let out = translate("call Foo 2\n");
    let expected = "@RET_ADDRESS_CALL0\nD=A\n@SP\nM=M+1\nA=M-1\nM=D\n\
@LCL\nD=M\n@SP\nM=M+1\nA=M-1\nM=D\n\
@ARG\nD=M\n@SP\nM=M+1\nA=M-1\nM=D\n\
@THIS\nD=M\n@SP\nM=M+1\nA=M-1\nM=D\n\
@THAT\nD=M\n@SP\nM=M+1\nA=M-1\nM=D\n\
@SP\nD=M\n@5\nD=D-A\n@2\nD=D-A\n@ARG\nM=D\n\
@SP\nD=M\n@LCL\nM=D\n\
@Foo\n0;JMP\n(RET_ADDRESS_CALL0)\n";
    assert_eq!(out, expected);
}

#[test]
fn return_restores_caller_frame() {
    let out = translate("function Foo 0\nreturn\n");
    let expected = "(Foo)\n\
@LCL\nD=M\n@R13\nM=D\n\
@5\nA=D-A\nD=M\n@R14\nM=D\n\
@SP\nAM=M-1\nD=M\n@ARG\nA=M\nM=D\n\
@ARG\nD=M+1\n@SP\nM=D\n\
@R13\nAM=M-1\nD=M\n@THAT\nM=D\n\
@R13\nAM=M-1\nD=M\n@THIS\nM=D\n\
@R13\nAM=M-1\nD=M\n@ARG\nM=D\n\
@R13\nAM=M-1\nD=M\n@LCL\nM=D\n\
@R14\nA=M\n0;JMP\n";
    assert_eq!(out, expected);
}

#[test]
fn call_return_round_trip_translates() {
    let source = "push constant 1\npush constant 2\ncall Foo 2\nfunction Foo 0\npush constant 7\nreturn\n";
    let out = translate(source);
    assert!(out.contains("(Foo)\n"));
    assert!(out.contains("@RET_ADDRESS_CALL0\n"));
    assert!(out.contains("(RET_ADDRESS_CALL0)\n"));
    assert!(out.contains("@7\n"));
    assert!(out.contains("@R14\nA=M\n0;JMP\n"));
}

#[test]
fn two_calls_mint_distinct_return_addresses() {
    let out = translate("call Foo 0\ncall Foo 0\n");
    assert!(out.contains("(RET_ADDRESS_CALL0)"));
    assert!(out.contains("(RET_ADDRESS_CALL1)"));
}

#[test]
fn translation_is_deterministic() {
    let source = "push constant 7\neq\ncall Foo 1\nfunction Foo 3\nlabel x\nreturn\n";
    let first = translate(source);
    let second = translate(source);
    assert_eq!(first, second);
}

#[test]
fn unknown_segment_is_fatal() {
    let e = translate_err("push bogus 3\n");
    assert_eq!(e.kind, ErrorKind::UnknownSegment);
    assert_eq!(e.line, 0);
}

#[test]
fn pop_into_constant_is_fatal() {
    let e = translate_err("pop constant 3\n");
    assert_eq!(e.kind, ErrorKind::Malformed);
    assert_eq!(e.line, 0);
}

#[test]
fn duplicate_label_in_one_scope_is_fatal() {
    let e = translate_err("label x\nlabel x\n");
    assert_eq!(e.kind, ErrorKind::DuplicateLabel);
    assert_eq!(e.line, 1);
    assert_eq!(e.content, "label x");
    let ok = translate("function A 0\nlabel x\nfunction B 0\nlabel x\n");
    assert!(ok.contains("(A$x)"));
    assert!(ok.contains("(B$x)"));
}

#[test]
fn return_outside_function_is_fatal() {
    let e = translate_err("return\n");
    assert_eq!(e.kind, ErrorKind::ReturnOutsideFunction);
    assert_eq!(e.line, 0);
}

#[test]
fn missing_or_malformed_operand_is_fatal() {
    assert_eq!(translate_err("push constant\n").kind, ErrorKind::Malformed);
    assert_eq!(translate_err("push constant abc\n").kind, ErrorKind::Malformed);
    assert_eq!(translate_err("mystery 1 2\n").kind, ErrorKind::Malformed);
    let e = translate_err("push constant 1\nfunction Foo\n");
    assert_eq!(e.kind, ErrorKind::Malformed);
    assert_eq!(e.line, 1);
}

#[test]
fn large_indices_render_in_decimal() {
    assert_eq!(
        translate("push constant 12345\n"),
        "@12345\nD=A\n@SP\nM=M+1\nA=M-1\nM=D\n"
    );
    assert_eq!(translate("pop temp 7\n"), "@SP\nAM=M-1\nD=M\n@12\nM=D\n");
}

#[test]
fn fixed_slot_beyond_the_address_space_is_fatal() {
    let e = translate_err("push temp 65531\n");
    assert_eq!(e.kind, ErrorKind::Malformed);
    let e = translate_err("pop pointer 65533\n");
    assert_eq!(e.kind, ErrorKind::Malformed);
    assert_eq!(translate("push temp 65530\n"), "@65535\nD=M\n@SP\nM=M+1\nA=M-1\nM=D\n");
}

#[test]
fn static_symbols_follow_the_source_name() {
    let config = Config::new("Other.vm".to_string(), "Out.asm".to_string());
    let writer = run(config, "pop static 0\n".to_string(), "Other".to_string()).unwrap();
    assert_eq!(writer.assembly_code, "@SP\nAM=M-1\nD=M\n@Other.0\nM=D\n");
}

#[test]
fn writer_keeps_the_output_path() {
    let config = Config::new("In.vm".to_string(), "Out.asm".to_string());
    let writer = run(config, "add\n".to_string(), "In".to_string()).unwrap();
    assert_eq!(writer.output_file, "Out.asm");
    assert_eq!(writer.assembly(), &writer.assembly_code);
}

#[test]
fn empty_input_translates_to_empty_output() {
    assert_eq!(translate(""), "");
    assert_eq!(translate("// only a comment\n\n"), "");
}
