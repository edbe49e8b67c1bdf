use vm_translator::parser::{CommandType, Parser};

#[test]
fn test_command_type() {
    let contents = "\
push constant 7
push constant 8
add
";
    let mut parser = Parser::create(contents.to_string());
    assert_eq!(parser.command_type().unwrap(), CommandType::Push);
    assert_eq!(parser.arg1().unwrap(), "constant".to_string());
    assert_eq!(parser.arg2().unwrap(), 7);
    parser.advance();
    assert_eq!(parser.command_type().unwrap(), CommandType::Push);
    assert_eq!(parser.arg1().unwrap(), "constant".to_string());
    assert_eq!(parser.arg2().unwrap(), 8);
    parser.advance();
    assert_eq!(parser.command_type().unwrap(), CommandType::Arithmetic);
    assert_eq!(parser.arg1().unwrap(), "add".to_string());
    assert_eq!(parser.arg2(), None);
    assert!(!parser.has_more_lines());
    parser.advance();
    assert!(parser.command_type().is_none());
    assert_eq!(parser.arg1(), None);
    assert_eq!(parser.arg2(), None);
}

#[test]
fn comments_and_blank_lines_are_dropped() {
    let contents = "\
// a full-line comment

   push constant 3   // a trailing comment
\t
pop temp 1
";
    let mut parser = Parser::create(contents.to_string());
    assert_eq!(parser.command_type().unwrap(), CommandType::Push);
    assert_eq!(parser.arg1().unwrap(), "constant".to_string());
    assert_eq!(parser.arg2().unwrap(), 3);
    assert!(parser.has_more_lines());
    parser.advance();
    assert_eq!(parser.command_type().unwrap(), CommandType::Pop);
    assert_eq!(parser.arg1().unwrap(), "temp".to_string());
    assert_eq!(parser.arg2().unwrap(), 1);
    assert!(!parser.has_more_lines());
}

#[test]
fn all_nine_kinds_classify() {
    let contents = "\
sub
label LOOP
goto LOOP
if-goto LOOP
function Foo 2
call Foo 0
return
push local 0
pop argument 1
";
    let mut parser = Parser::create(contents.to_string());
    let expected = [
        CommandType::Arithmetic,
        CommandType::Label,
        CommandType::Goto,
        CommandType::If,
        CommandType::Function,
        CommandType::Call,
        CommandType::Return,
        CommandType::Push,
        CommandType::Pop,
    ];
    for kind in expected.iter() {
        assert_eq!(parser.command_type().unwrap(), *kind);
        parser.advance();
    }
    assert!(parser.command_type().is_none());
}

#[test]
fn unknown_keyword_classifies_as_none() {
    let mut parser = Parser::create("bogus constant 7\n".to_string());
    assert!(parser.command_type().is_none());
}

#[test]
fn return_has_no_arguments() {
    let mut parser = Parser::create("function Foo 0\nreturn\n".to_string());
    parser.advance();
    assert_eq!(parser.command_type().unwrap(), CommandType::Return);
    assert_eq!(parser.arg1(), None);
    assert_eq!(parser.arg2(), None);
}

#[test]
fn malformed_index_reads_as_none() {
    let mut parser = Parser::create("push constant xyz\n".to_string());
    assert_eq!(parser.command_type().unwrap(), CommandType::Push);
    assert_eq!(parser.arg2(), None);
    let mut parser = Parser::create("push constant 65536\n".to_string());
    assert_eq!(parser.arg2(), None);
    let mut parser = Parser::create("push constant 65535\n".to_string());
    assert_eq!(parser.arg2(), Some(65535));
}
