use vm_translator::codegen::Code;
use vm_translator::context::{Context, ErrorKind};
use vm_translator::parser::CommandType;

#[test]
fn generate_arithmetic_standalone() {
    let mut ctx = Context::new("F".to_string());
    let s = Code::generate_arithmetic("add", &mut ctx).unwrap();
    assert_eq!(s, "@SP\nAM=M-1\nD=M\nA=A-1\nM=D+M\n");
    let s = Code::generate_arithmetic("eq", &mut ctx).unwrap();
    assert!(s.contains("@CMP_TRUE_0\nD;JEQ\n"));
    let s2 = Code::generate_arithmetic("eq", &mut ctx).unwrap();
    assert!(s2.contains("@CMP_TRUE_1\nD;JEQ\n"));
    let e = Code::generate_arithmetic("mul", &mut ctx).unwrap_err();
    assert_eq!(e, ErrorKind::Malformed);
}

#[test]
fn generate_push_pop_standalone() {
    let ctx = Context::new("F".to_string());
    let s = Code::generate_push_pop(CommandType::Push, "static", 2, &ctx).unwrap();
    assert_eq!(s, "@F.2\nD=M\n@SP\nM=M+1\nA=M-1\nM=D\n");
    let s = Code::generate_push_pop(CommandType::Pop, "that", 1, &ctx).unwrap();
    assert_eq!(s, "@1\nD=A\n@THAT\nD=D+M\n@R13\nM=D\n@SP\nAM=M-1\nD=M\n@R13\nA=M\nM=D\n");
    let e = Code::generate_push_pop(CommandType::Arithmetic, "local", 0, &ctx).unwrap_err();
    assert_eq!(e, ErrorKind::Malformed);
    let e = Code::generate_push_pop(CommandType::Push, "heap", 0, &ctx).unwrap_err();
    assert_eq!(e, ErrorKind::UnknownSegment);
}

#[test]
fn static_symbols_switch_with_the_source_name() {
    let mut ctx = Context::new("First".to_string());
    let s = Code::generate_push_pop(CommandType::Push, "static", 0, &ctx).unwrap();
    assert!(s.starts_with("@First.0\n"));
    ctx.set_source_name("Second".to_string());
    let s = Code::generate_push_pop(CommandType::Push, "static", 0, &ctx).unwrap();
    assert!(s.starts_with("@Second.0\n"));
}

#[test]
fn context_tracks_defined_labels() {
    let mut ctx = Context::new("F".to_string());
    let s = Code::generate_label("start", &mut ctx).unwrap();
    assert_eq!(s, "(start)\n");
    let e = Code::generate_label("start", &mut ctx).unwrap_err();
    assert_eq!(e, ErrorKind::DuplicateLabel);
    let s = Code::generate_function("G", 0, &mut ctx);
    assert_eq!(s, "(G)\n");
    let s = Code::generate_label("start", &mut ctx).unwrap();
    assert_eq!(s, "(G$start)\n");
}
