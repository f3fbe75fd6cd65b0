use stackvm::command::{Command, EngineError, Value};
use stackvm::parser::{Parser, Program};

fn parse(source: &str) -> Result<Program, EngineError> {
    Parser::new().parse(source)
}

fn failure(source: &str) -> EngineError {
    match parse(source) {
        Ok(_) => panic!("assembled: {:?}", source),
        Err(e) => e,
    }
}

#[test]
fn unknown_mnemonic_is_named() {
    let e = failure("frobnicate 1");
    assert!(matches!(e, EngineError::UnknownCommand(ref word) if word == "frobnicate"));
}

#[test]
fn colon_inside_a_word_is_no_label() {
    let e = failure("a:b");
    assert!(matches!(e, EngineError::UnknownCommand(ref word) if word == "a:b"));
}

#[test]
fn every_mnemonic_assembles() {
    let source = "func main\nset a 1\nget a\npush \"s\"\npop\nadd\nsub\nmul\ndiv\ncmp\n\
                  call f\nret\njz l\njp l\njn l\nend";
    let program = parse(source).unwrap();
    let c = &program.commands;
    assert_eq!(c.len(), 15);
    assert!(matches!(&c[0], Command::SetVar(n, Value::Int(1)) if n == "a"));
    assert!(matches!(&c[1], Command::GetVar(n) if n == "a"));
    assert!(matches!(&c[2], Command::Push(Value::String(s)) if s == "s"));
    assert!(matches!(&c[3], Command::Pop));
    assert!(matches!(&c[4], Command::Add));
    assert!(matches!(&c[5], Command::Sub));
    assert!(matches!(&c[6], Command::Mul));
    assert!(matches!(&c[7], Command::Div));
    assert!(matches!(&c[8], Command::Cmp));
    assert!(matches!(&c[9], Command::FuncCall(n) if n == "f"));
    assert!(matches!(&c[10], Command::Ret));
    assert!(matches!(&c[11], Command::Jz(n) if n == "l"));
    assert!(matches!(&c[12], Command::Jp(n) if n == "l"));
    assert!(matches!(&c[13], Command::Jn(n) if n == "l"));
    assert!(matches!(&c[14], Command::End));
    assert_eq!(program.functions.get("main"), Some(&0));
    assert_eq!(program.functions.len(), 1);
    assert!(program.labels.is_empty());
}

#[test]
fn labels_and_functions_point_at_the_next_instruction() {
    let source = "start:\nfunc main\npush 1\nmiddle: ignored words\npop\nfunc tail extra\nlast:";
    let program = parse(source).unwrap();
    assert_eq!(program.commands.len(), 2);
    assert_eq!(program.labels.get("start"), Some(&0));
    assert_eq!(program.functions.get("main"), Some(&0));
    assert_eq!(program.labels.get("middle"), Some(&1));
    assert_eq!(program.functions.get("tail"), Some(&2));
    assert_eq!(program.labels.get("last"), Some(&2));
    assert_eq!(program.labels.get("middle:"), None);
}

#[test]
fn later_declaration_replaces_earlier() {
    let program = parse("a:\npush 1\na:\nfunc f\npush 2\nfunc f").unwrap();
    assert_eq!(program.labels.get("a"), Some(&1));
    assert_eq!(program.labels.len(), 1);
    assert_eq!(program.functions.get("f"), Some(&2));
}

#[test]
fn empty_label_name() {
    let program = parse(":\npush 1").unwrap();
    assert_eq!(program.labels.get(""), Some(&0));
}

#[test]
fn blank_lines_and_spacing_do_not_matter() {
    let source = "\n\n  func   main \r\n\t push\t 5  \r\n\n   \npop\n\n";
    let program = parse(source).unwrap();
    assert_eq!(program.commands.len(), 2);
    assert!(matches!(&program.commands[0], Command::Push(Value::Int(5))));
    assert!(matches!(&program.commands[1], Command::Pop));
    assert_eq!(program.functions.get("main"), Some(&0));
    assert!(parse("").unwrap().commands.is_empty());
    assert!(parse("   \n \n").unwrap().commands.is_empty());
}

#[test]
fn wrong_number_of_arguments() {
    for source in [
        "set a", "set", "set a 1 2", "get", "get a b", "push", "push 1 2", "pop 1", "add 1",
        "sub 1", "mul 1", "div 1", "cmp 1", "call", "call f g", "ret 1", "end 1", "jz",
        "jz a b", "jp", "jp a b", "jn", "jn a b", "func",
    ] {
        assert!(
            matches!(failure(source), EngineError::MismatchNumParams),
            "{:?}",
            source
        );
    }
}

#[test]
fn argument_count_is_checked_before_the_literal() {
    assert!(matches!(failure("set a b c"), EngineError::MismatchNumParams));
    assert!(matches!(failure("set a b"), EngineError::MismatchType));
}

#[test]
fn literals() {
    let parser = Parser::new();
    assert_eq!(parser.parse_value("12").unwrap(), Value::Int(12));
    assert_eq!(parser.parse_value("+12").unwrap(), Value::Int(12));
    assert_eq!(parser.parse_value("-12").unwrap(), Value::Int(-12));
    assert_eq!(parser.parse_value("-0").unwrap(), Value::Int(0));
    assert_eq!(parser.parse_value("007").unwrap(), Value::Int(7));
    assert_eq!(
        parser.parse_value("9223372036854775807").unwrap(),
        Value::Int(i64::MAX)
    );
    assert_eq!(
        parser.parse_value("-9223372036854775808").unwrap(),
        Value::Int(i64::MIN)
    );
    assert_eq!(
        parser.parse_value("000000000000000000000000000000042").unwrap(),
        Value::Int(42)
    );
    assert_eq!(parser.parse_value("\"abc\"").unwrap(), Value::String("abc".into()));
    assert_eq!(parser.parse_value("\"\"").unwrap(), Value::String("".into()));
    assert_eq!(parser.parse_value("\"a\"b\"").unwrap(), Value::String("a\"b".into()));
    assert_eq!(parser.parse_value("\"é\u{1F600}\"").unwrap(), Value::String("é\u{1F600}".into()));
    for bad in [
        "", "+", "-", "--1", "+-1", "1-", "1.5", "0x10", "1_000", " 1", "1 ", "abc", "\"",
        "\"abc", "abc\"", "9223372036854775808", "-9223372036854775809",
        "99999999999999999999999999", "١٢٣",
    ] {
        assert!(
            matches!(parser.parse_value(bad), Err(EngineError::MismatchType)),
            "{:?}",
            bad
        );
    }
}

#[test]
fn integer_and_string_readers() {
    let parser = Parser::new();
    assert_eq!(parser.parse_int("-45").unwrap(), Value::Int(-45));
    assert!(matches!(parser.parse_int("\"45\""), Err(EngineError::MismatchType)));
    assert_eq!(parser.parse_string("\"45\"").unwrap(), Value::String("45".into()));
    assert!(matches!(parser.parse_string("45"), Err(EngineError::MismatchType)));
    assert!(matches!(parser.parse_string("\""), Err(EngineError::MismatchType)));
    assert_eq!(parser.parse_var_name("x1").unwrap(), "x1");
}

#[test]
fn line_readers() {
    let parser = Parser::new();
    assert!(matches!(
        parser.parse_set(&["set", "v", "\"t\""]),
        Ok(Command::SetVar(ref n, Value::String(ref s))) if n == "v" && s == "t"
    ));
    assert!(matches!(parser.parse_set(&["set", "v"]), Err(EngineError::MismatchNumParams)));
    assert!(matches!(parser.parse_set(&["set", "v", "w"]), Err(EngineError::MismatchType)));
    assert!(matches!(parser.parse_get(&["get", "v"]), Ok(Command::GetVar(ref n)) if n == "v"));
    assert!(matches!(parser.parse_get(&["get"]), Err(EngineError::MismatchNumParams)));
    assert!(matches!(parser.parse_push(&["push", "3"]), Ok(Command::Push(Value::Int(3)))));
    assert!(matches!(parser.parse_push(&["push", "x"]), Err(EngineError::MismatchType)));
    assert!(matches!(parser.parse_push(&["push"]), Err(EngineError::MismatchNumParams)));
    assert!(matches!(
        parser.parse_func_call(&["call", "f"]),
        Ok(Command::FuncCall(ref n)) if n == "f"
    ));
    assert!(matches!(
        parser.parse_func_call(&["call", "f", "g"]),
        Err(EngineError::MismatchNumParams)
    ));
    assert!(matches!(parser.parse_jump_target(&["jz", "l"]), Ok(ref n) if n == "l"));
    assert!(matches!(parser.parse_jump_target(&["jz"]), Err(EngineError::MismatchNumParams)));
    assert!(matches!(parser.parse_bare(&["pop"], Command::Pop), Ok(Command::Pop)));
    assert!(matches!(
        parser.parse_bare(&["pop", "x"], Command::Pop),
        Err(EngineError::MismatchNumParams)
    ));
}

#[test]
fn failing_line_leaves_the_program_as_it_was() {
    let parser = Parser::new();
    let mut program = Program::new();
    parser.parse_line(&mut program, &["push", "1"]).unwrap();
    assert!(parser.parse_line(&mut program, &["bogus"]).is_err());
    assert!(parser.parse_line(&mut program, &["func"]).is_err());
    parser.parse_line(&mut program, &[]).unwrap();
    parser.parse_line(&mut program, &["here:"]).unwrap();
    assert_eq!(program.commands.len(), 1);
    assert_eq!(program.labels.get("here"), Some(&1));
    assert!(program.functions.is_empty());
}

#[test]
fn first_failing_line_decides() {
    assert!(matches!(failure("push 1\npop 1\nbogus"), EngineError::MismatchNumParams));
    let e = failure("push 1\nbogus\npop 1");
    assert!(matches!(e, EngineError::UnknownCommand(ref word) if word == "bogus"));
}

#[test]
fn quoted_text_cannot_hold_whitespace() {
    assert!(matches!(failure("push \"a b\""), EngineError::MismatchNumParams));
}

#[test]
fn mnemonics_are_case_sensitive() {
    let e = failure("PUSH 1");
    assert!(matches!(e, EngineError::UnknownCommand(ref word) if word == "PUSH"));
}
