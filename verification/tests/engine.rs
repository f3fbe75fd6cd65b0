use stackvm::command::{Command, EngineError, Value};
use stackvm::eval::{Evaluator, Step};
use stackvm::parser::{Parser, Program};

fn eval(source: &str) -> Result<Value, EngineError> {
    let program = Parser::new().parse(source)?;
    Evaluator::new().evaluate(&program)
}

#[test]
fn test1() -> Result<(), EngineError> {
    let mut program = Program::new();
    program.add_command(Command::SetVar("a".into(), Value::Int(100)));
    program.add_command(Command::GetVar("a".into()));
    program.define_function("main", 0);

    let mut evaluator = Evaluator::new();

    let result = evaluator.evaluate(&program)?;

    assert_eq!(result, Value::Int(100));
    Ok(())
}

#[test]
fn test2() -> Result<(), EngineError> {
    let intput = "func main\nset x 30\nget x\nend";
    let parser = Parser::new();
    let commands = parser.parse(intput)?;

    let mut evaluator = Evaluator::new();

    let result = evaluator.evaluate(&commands)?;

    assert_eq!(result, Value::Int(30));
    Ok(())
}

#[test]
fn test_sub() -> Result<(), EngineError> {
    let intput = "func main\npush 5\npush 10\nsub\npop\nend";
    let parser = Parser::new();
    let commands = parser.parse(intput)?;

    let mut evaluator = Evaluator::new();

    let result = evaluator.evaluate(&commands)?;

    assert_eq!(result, Value::Int(5));
    Ok(())
}

#[test]
fn set_then_get_yields_the_value() {
    assert_eq!(eval("func main\nset a 100\nget a\nend").unwrap(), Value::Int(100));
    assert_eq!(
        eval("func main\nset s \"hi\"\nget s").unwrap(),
        Value::String("hi".into())
    );
    assert_eq!(eval("func main\nset a 1\nset a -2\nget a").unwrap(), Value::Int(-2));
}

#[test]
fn compare_equal_operands() {
    assert_eq!(eval("func main\npush 3\npush 3\ncmp\npop\nend").unwrap(), Value::Int(0));
}

#[test]
fn compare_takes_the_top_as_left() {
    // left is 7, right is 2: left > right gives -1.
    assert_eq!(eval("func main\npush 2\npush 7\ncmp\npop").unwrap(), Value::Int(-1));
    assert_eq!(eval("func main\npush 7\npush 2\ncmp\npop").unwrap(), Value::Int(1));
}

#[test]
fn arithmetic_takes_the_top_as_left() {
    assert_eq!(eval("func main\npush 5\npush 10\nadd\npop").unwrap(), Value::Int(15));
    assert_eq!(eval("func main\npush 10\npush 5\nsub\npop").unwrap(), Value::Int(-5));
    assert_eq!(eval("func main\npush -6\npush 7\nmul\npop").unwrap(), Value::Int(-42));
    assert_eq!(eval("func main\npush 3\npush 17\ndiv\npop").unwrap(), Value::Int(5));
}

#[test]
fn division_rounds_towards_zero() {
    assert_eq!(eval("func main\npush 2\npush -7\ndiv\npop").unwrap(), Value::Int(-3));
    assert_eq!(eval("func main\npush -2\npush 7\ndiv\npop").unwrap(), Value::Int(-3));
    assert_eq!(eval("func main\npush -2\npush -7\ndiv\npop").unwrap(), Value::Int(3));
    assert_eq!(eval("func main\npush 5\npush 0\ndiv\npop").unwrap(), Value::Int(0));
}

#[test]
fn division_by_zero_fails() {
    assert!(matches!(
        eval("func main\npush 0\npush 1\ndiv\npop"),
        Err(EngineError::DivisionByZero)
    ));
}

#[test]
fn results_out_of_range_fail() {
    assert!(matches!(
        eval("func main\npush 1\npush 9223372036854775807\nadd\npop"),
        Err(EngineError::Overflow)
    ));
    assert!(matches!(
        eval("func main\npush 1\npush -9223372036854775808\nsub\npop"),
        Err(EngineError::Overflow)
    ));
    assert!(matches!(
        eval("func main\npush 2\npush 4611686018427387904\nmul\npop"),
        Err(EngineError::Overflow)
    ));
    assert!(matches!(
        eval("func main\npush -1\npush -9223372036854775808\ndiv\npop"),
        Err(EngineError::Overflow)
    ));
    assert_eq!(
        eval("func main\npush -1\npush 9223372036854775807\nmul\npop").unwrap(),
        Value::Int(-9223372036854775807)
    );
}

#[test]
fn missing_variable_is_named() {
    let r = eval("func main\nget missing\nend");
    assert!(matches!(r, Err(EngineError::MissingVariable(ref name)) if name == "missing"));
}

#[test]
fn pop_on_empty_stack_fails() {
    assert!(matches!(eval("func main\npop"), Err(EngineError::EmptyStack)));
}

#[test]
fn ret_without_call_fails() {
    assert!(matches!(eval("func main\nret"), Err(EngineError::EmptyStack)));
}

#[test]
fn binary_instruction_needs_two_operands() {
    assert!(matches!(eval("func main\nadd"), Err(EngineError::EmptyStack)));
    assert!(matches!(eval("func main\npush \"a\"\nadd"), Err(EngineError::EmptyStack)));
    assert!(matches!(eval("func main\npush 1\ncmp"), Err(EngineError::EmptyStack)));
}

#[test]
fn arithmetic_on_text_fails() {
    assert!(matches!(
        eval("func main\npush 1\npush \"a\"\nadd"),
        Err(EngineError::MismatchType)
    ));
    assert!(matches!(
        eval("func main\npush \"a\"\npush 1\ncmp"),
        Err(EngineError::MismatchType)
    ));
}

#[test]
fn call_of_undeclared_function_fails() {
    let r = eval("func main\ncall nowhere\nend");
    assert!(matches!(r, Err(EngineError::UnknownFunction(ref name)) if name == "nowhere"));
}

#[test]
fn program_without_main_fails() {
    let r = eval("func other\npush 1\npop");
    assert!(matches!(r, Err(EngineError::UnknownFunction(ref name)) if name == "main"));
}

#[test]
fn taken_jump_to_undeclared_label_fails() {
    for source in [
        "func main\npush 0\njz nowhere",
        "func main\npush 4\njp nowhere",
        "func main\npush -4\njn nowhere",
    ] {
        let r = eval(source);
        assert!(matches!(r, Err(EngineError::UnknownLabel(ref name)) if name == "nowhere"));
    }
}

#[test]
fn jump_not_taken_falls_through() {
    assert_eq!(
        eval("func main\nset r 1\npush 5\njz nowhere\nget r").unwrap(),
        Value::Int(1)
    );
    assert_eq!(
        eval("func main\nset r 1\npush 0\njp nowhere\nget r").unwrap(),
        Value::Int(1)
    );
    assert_eq!(
        eval("func main\nset r 1\npush 0\njn nowhere\nget r").unwrap(),
        Value::Int(1)
    );
}

#[test]
fn jump_taken_skips_instructions() {
    let source = "func main\nset r 1\npush 0\njz over\nset r 2\nover:\nget r\nend";
    assert_eq!(eval(source).unwrap(), Value::Int(1));
    let source = "func main\nset r 1\npush 9\njp over\nset r 2\nover:\nget r\nend";
    assert_eq!(eval(source).unwrap(), Value::Int(1));
    let source = "func main\nset r 1\npush -9\njn over\nset r 2\nover:\nget r\nend";
    assert_eq!(eval(source).unwrap(), Value::Int(1));
}

#[test]
fn jump_on_text_or_empty_stack_fails() {
    assert!(matches!(eval("func main\njz a\na:"), Err(EngineError::EmptyStack)));
    assert!(matches!(
        eval("func main\npush \"x\"\njz a\na:"),
        Err(EngineError::MismatchType)
    ));
}

#[test]
fn label_declared_twice_later_wins() {
    let source = "func main\npush 0\njz target\ntarget:\nset r 1\nget r\nend\n\
                  target:\nset r 2\nget r\nend";
    assert_eq!(eval(source).unwrap(), Value::Int(2));
}

#[test]
fn function_declared_after_its_use() {
    let source = "func main\npush 21\ncall double\npop\nend\nfunc double\npush 2\nmul\nret";
    assert_eq!(eval(source).unwrap(), Value::Int(42));
}

#[test]
fn call_returns_to_the_instruction_after_it() {
    let source = "func double\npush 2\nmul\nret\nfunc main\npush 4\ncall double\n\
                  call double\npop\nend";
    assert_eq!(eval(source).unwrap(), Value::Int(16));
}

#[test]
fn no_get_and_no_pop_yields_nothing() {
    assert_eq!(eval("func main\npush 1\nend").unwrap(), Value::Nothing);
    assert_eq!(eval("func main").unwrap(), Value::Nothing);
}

#[test]
fn end_keeps_the_pending_result() {
    assert_eq!(
        eval("func main\nset a 1\nget a\nend\nset a 2\nget a").unwrap(),
        Value::Int(1)
    );
}

#[test]
fn running_past_the_last_instruction_halts() {
    assert_eq!(eval("func main\npush 8\npop").unwrap(), Value::Int(8));
}

#[test]
fn print_emits_the_top_of_the_stack() {
    let program = Parser::new()
        .parse("func main\npush 7\ncall print\npush \"done\"\ncall print\nend")
        .unwrap();
    let mut evaluator = Evaluator::new();
    assert_eq!(evaluator.evaluate(&program).unwrap(), Value::Nothing);
    assert_eq!(
        evaluator.printed(),
        &vec![Value::Int(7), Value::String("done".into())]
    );
}

#[test]
fn print_on_empty_stack_fails() {
    assert!(matches!(eval("func main\ncall print"), Err(EngineError::EmptyStack)));
}

#[test]
fn evaluation_starts_afresh() {
    let first = Parser::new().parse("func main\nset a 1\npush 5\ncall print").unwrap();
    let second = Parser::new().parse("func main\nget a").unwrap();
    let mut evaluator = Evaluator::new();
    evaluator.evaluate(&first).unwrap();
    let r = evaluator.evaluate(&second);
    assert!(matches!(r, Err(EngineError::MissingVariable(ref name)) if name == "a"));
    assert!(evaluator.printed().is_empty());
}

#[test]
fn endless_loop_uses_up_its_steps() {
    let program = Parser::new().parse("func main\nloop:\npush 0\njz loop").unwrap();
    let mut evaluator = Evaluator::new();
    evaluator.start(&program).unwrap();
    assert!(matches!(evaluator.run(&program, 1000), Err(EngineError::StepLimit)));
}

#[test]
fn halting_takes_a_step_of_its_own() {
    let program = Parser::new().parse("func main\npush 1\npop").unwrap();
    let mut evaluator = Evaluator::new();
    evaluator.start(&program).unwrap();
    assert!(matches!(evaluator.run(&program, 2), Err(EngineError::StepLimit)));
    evaluator.start(&program).unwrap();
    assert_eq!(evaluator.run(&program, 3).unwrap(), Value::Int(1));
    evaluator.start(&program).unwrap();
    assert!(matches!(evaluator.run(&program, 0), Err(EngineError::StepLimit)));
}

#[test]
fn steps_one_instruction_at_a_time() {
    let program = Parser::new().parse("func main\npush 3\npop\nend\npush 4").unwrap();
    let mut evaluator = Evaluator::new();
    evaluator.start(&program).unwrap();
    assert_eq!(evaluator.step(&program).unwrap(), Step::Continue);
    assert_eq!(evaluator.result(), &Value::Nothing);
    assert_eq!(evaluator.step(&program).unwrap(), Step::Continue);
    assert_eq!(evaluator.result(), &Value::Int(3));
    assert_eq!(evaluator.step(&program).unwrap(), Step::Halt);
    assert_eq!(evaluator.step(&program).unwrap(), Step::Halt);
    assert_eq!(evaluator.result(), &Value::Int(3));
}

#[test]
fn failing_step_leaves_the_engine_as_it_was() {
    let program = Parser::new().parse("func main\npush \"a\"\npush 1\nadd\npop").unwrap();
    let mut evaluator = Evaluator::new();
    evaluator.start(&program).unwrap();
    evaluator.step(&program).unwrap();
    evaluator.step(&program).unwrap();
    assert!(matches!(evaluator.step(&program), Err(EngineError::MismatchType)));
    assert_eq!(evaluator.pop().unwrap(), Value::Int(1));
    assert_eq!(evaluator.pop().unwrap(), Value::String("a".into()));
    assert!(matches!(evaluator.pop(), Err(EngineError::EmptyStack)));
}

#[test]
fn operand_helpers() {
    let mut evaluator = Evaluator::new();
    evaluator.push(Value::Int(1)).unwrap();
    evaluator.push(Value::Int(2)).unwrap();
    assert_eq!(evaluator.pop().unwrap(), Value::Int(2));
    assert_eq!(evaluator.pop().unwrap(), Value::Int(1));
    assert_eq!(evaluator.add(Value::Int(2), Value::Int(3)).unwrap(), Value::Int(5));
    assert_eq!(evaluator.sub(Value::Int(2), Value::Int(3)).unwrap(), Value::Int(-1));
    assert_eq!(evaluator.mul(Value::Int(2), Value::Int(3)).unwrap(), Value::Int(6));
    assert_eq!(evaluator.div(Value::Int(7), Value::Int(2)).unwrap(), Value::Int(3));
    assert_eq!(evaluator.cmp(Value::Int(7), Value::Int(2)).unwrap(), Value::Int(-1));
    assert_eq!(evaluator.cmp(Value::Int(2), Value::Int(2)).unwrap(), Value::Int(0));
    assert_eq!(evaluator.cmp(Value::Int(2), Value::Int(7)).unwrap(), Value::Int(1));
    assert!(matches!(
        evaluator.add(Value::Nothing, Value::Int(1)),
        Err(EngineError::MismatchType)
    ));
}

#[test]
fn values_show_themselves() {
    assert_eq!(Value::Nothing.to_text(), "void");
    assert_eq!(Value::Int(0).to_text(), "0");
    assert_eq!(Value::Int(1234).to_text(), "1234");
    assert_eq!(Value::Int(-50).to_text(), "-50");
    assert_eq!(Value::Int(i64::MAX).to_text(), "9223372036854775807");
    assert_eq!(Value::Int(i64::MIN).to_text(), "-9223372036854775808");
    assert_eq!(Value::String("hi there".into()).to_text(), "\"hi there\"");
    assert_eq!(Value::String(String::new()).to_text(), "\"\"");
}

#[test]
fn values_compare_by_content() {
    assert_eq!(Value::Int(3).clone(), Value::Int(3));
    assert_ne!(Value::Int(3), Value::Int(4));
    assert_ne!(Value::Int(3), Value::Nothing);
    assert_ne!(Value::String("3".into()), Value::Int(3));
    assert_eq!(Value::String("a".into()).clone(), Value::String("a".into()));
    assert_ne!(Value::String("a".into()), Value::String("b".into()));
}
