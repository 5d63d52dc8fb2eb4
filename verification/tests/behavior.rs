use toysrust::ast;
use toysrust::interpreter::{Interpreter, InterpreterError};
use toysrust::parser;

fn run_expression(interpreter: &mut Interpreter, source: &str) -> Result<i64, InterpreterError> {
    let (_, expression) = parser::line(source.as_bytes(), 0).unwrap();
    interpreter.interpret(&expression)
}

#[test]
fn addition_is_left_associative() {
    let mut interpreter = Interpreter::new();
    assert_eq!(run_expression(&mut interpreter, "2 + 3 + 4;").unwrap(), 9);
    assert_eq!(run_expression(&mut interpreter, "2 * 3 * (4 + 5);").unwrap(), 54);
    assert_eq!(run_expression(&mut interpreter, "10 - 3 - 4;").unwrap(), 3);
}

#[test]
fn division_by_zero_faults() {
    let mut interpreter = Interpreter::new();
    match run_expression(&mut interpreter, "1 / 0;").unwrap_err() {
        InterpreterError::ZeroDivision => {}
        _ => unreachable!(),
    }
}

#[test]
fn undefined_variable_faults_with_its_name() {
    let mut interpreter = Interpreter::new();
    match run_expression(&mut interpreter, "missing;").unwrap_err() {
        InterpreterError::VariableNotPresent(name) => assert_eq!(name, "missing"),
        _ => unreachable!(),
    }
}

#[test]
fn assignment_round_trip_through_source() {
    let mut interpreter = Interpreter::new();
    assert_eq!(run_expression(&mut interpreter, "answer = 42;").unwrap(), 42);
    assert_eq!(run_expression(&mut interpreter, "answer;").unwrap(), 42);
}

#[test]
fn block_value_is_its_last_element() {
    let mut interpreter = Interpreter::new();
    let (_, block) = parser::block_expression("{1;2;3;}".as_bytes(), 0).unwrap();
    assert_eq!(interpreter.interpret(&block).unwrap(), 3);
}

#[test]
fn empty_block_evaluates_to_zero() {
    let mut interpreter = Interpreter::new();
    let (_, block) = parser::block_expression("{}".as_bytes(), 0).unwrap();
    assert_eq!(interpreter.interpret(&block).unwrap(), 0);
}

#[test]
fn missing_function_faults_with_its_name() {
    let mut interpreter = Interpreter::new();
    let call = ast::call("nofunc", vec![]);
    match interpreter.interpret(&call).unwrap_err() {
        InterpreterError::FunctionNotFound(name) => assert_eq!(name, "nofunc"),
        _ => unreachable!(),
    }
}

#[test]
fn missing_argument_faults_with_the_parameter_name() {
    let program = ast::Program {
        definitions: vec![
            ast::define_function(
                "add_both",
                &["a", "b"],
                ast::block(vec![ast::add(ast::identifier("a"), ast::identifier("b"))]),
            ),
            ast::define_function("main", &[], ast::call("add_both", vec![ast::integer(1)])),
        ],
    };
    let mut interpreter = Interpreter::new();
    match interpreter.call_main(program).unwrap_err() {
        InterpreterError::NotEnoughArguments(name) => assert_eq!(name, "b"),
        _ => unreachable!(),
    }
}

#[test]
fn extra_arguments_are_ignored() {
    let program = ast::Program {
        definitions: vec![
            ast::define_function(
                "first",
                &["a"],
                ast::block(vec![ast::identifier("a")]),
            ),
            ast::define_function(
                "main",
                &[],
                ast::call("first", vec![ast::integer(7), ast::integer(9)]),
            ),
        ],
    };
    let mut interpreter = Interpreter::new();
    assert_eq!(interpreter.call_main(program).unwrap(), 7);
}

#[test]
fn if_without_else_faults_when_condition_is_false() {
    let mut interpreter = Interpreter::new();
    let (_, expression) = parser::if_expression("if (0) { 42; }".as_bytes(), 0).unwrap();
    match interpreter.interpret(&expression).unwrap_err() {
        InterpreterError::ElseClauseNoneUnderIfConditionNotMet => {}
        _ => unreachable!(),
    }
}

#[test]
fn call_main_without_main_faults() {
    let mut interpreter = Interpreter::new();
    let program = ast::Program { definitions: vec![] };
    match interpreter.call_main(program).unwrap_err() {
        InterpreterError::MainNotPresent => {}
        _ => unreachable!(),
    }
}

#[test]
fn println_records_the_printed_value() {
    let mut interpreter = Interpreter::new();
    let (_, expression) = parser::println_expression("println(6 * 7)".as_bytes(), 0).unwrap();
    assert_eq!(interpreter.interpret(&expression).unwrap(), 1);
    assert_eq!(interpreter.output(), &vec![42]);
}

#[test]
fn call_frame_does_not_leak_parameters() {
    let program = ast::Program {
        definitions: vec![
            ast::define_function("main", &[], ast::call("factorial", vec![ast::integer(5)])),
            ast::define_function(
                "factorial",
                &["n"],
                ast::block(vec![ast::ast_if(
                    ast::less_than(ast::identifier("n"), ast::integer(2)),
                    ast::integer(1),
                    Some(ast::multiply(
                        ast::identifier("n"),
                        ast::call(
                            "factorial",
                            vec![ast::subtract(ast::identifier("n"), ast::integer(1))],
                        ),
                    )),
                )]),
            ),
        ],
    };
    let mut interpreter = Interpreter::new();
    assert_eq!(interpreter.call_main(program).unwrap(), 120);
    match interpreter.interpret(&ast::identifier("n")).unwrap_err() {
        InterpreterError::VariableNotPresent(name) => assert_eq!(name, "n"),
        _ => unreachable!(),
    }
}

#[test]
fn later_arguments_see_the_caller_environment() {
    // f(x, y) { y; }: in f(1, x) the second actual reads the caller's
    // x, not the value just evaluated for the formal x.
    let program = ast::Program {
        definitions: vec![
            ast::define_function("f", &["x", "y"], ast::block(vec![ast::identifier("y")])),
            ast::define_function(
                "main",
                &[],
                ast::block(vec![
                    ast::assignment("x", ast::integer(10)),
                    ast::call("f", vec![ast::integer(1), ast::identifier("x")]),
                ]),
            ),
        ],
    };
    let mut interpreter = Interpreter::new();
    assert_eq!(interpreter.call_main(program).unwrap(), 10);
}

#[test]
fn call_main_restores_bindings_after_main() {
    let source = "global base = 1 define main() { base = 5; base; }";
    let (_, program) = parser::parse_program(source).unwrap();
    let mut interpreter = Interpreter::new();
    assert_eq!(interpreter.call_main(program).unwrap(), 5);
    assert_eq!(run_expression(&mut interpreter, "base;").unwrap(), 1);
}

#[test]
fn while_loop_accumulates_through_source() {
    let mut interpreter = Interpreter::new();
    let source = "{ answer = 0; i = 1; while (i <= 5) { answer = answer + i; i = i + 1; } answer; }";
    let (_, block) = parser::block_expression(source.as_bytes(), 0).unwrap();
    assert_eq!(interpreter.interpret(&block).unwrap(), 15);
}

#[test]
fn whole_program_with_global_runs() {
    let source = "global base = 40 define main() { base + 2; }";
    let (next, program) = parser::parse_program(source).unwrap();
    assert_eq!(next, source.len());
    let mut interpreter = Interpreter::new();
    assert_eq!(interpreter.call_main(program).unwrap(), 42);
}

#[test]
fn whole_program_parse_ignores_surrounding_whitespace() {
    let bare = "define main() { 42; }";
    let padded = "  \n define main() { 42; }  \n ";

    let (next, program) = parser::parse_program(bare).unwrap();
    assert_eq!(next, bare.len());
    let mut interpreter = Interpreter::new();
    assert_eq!(interpreter.call_main(program).unwrap(), 42);

    let (next, program) = parser::parse_program(padded).unwrap();
    assert_eq!(next, padded.len());
    let mut interpreter = Interpreter::new();
    assert_eq!(interpreter.call_main(program).unwrap(), 42);
}

#[test]
fn expression_parses_equal_after_leading_whitespace() {
    let mut interpreter = Interpreter::new();
    let bare = "42";
    let padded = "  42";
    let start = toysrust::parser::helper_combinators::ws(padded.as_bytes(), 0);
    let (_, e1) = parser::expression(bare.as_bytes(), 0).unwrap();
    let (_, e2) = parser::expression(padded.as_bytes(), start).unwrap();
    assert_eq!(interpreter.interpret(&e1).unwrap(), 42);
    assert_eq!(interpreter.interpret(&e2).unwrap(), 42);
}

#[test]
fn syntax_error_carries_the_failing_position() {
    let err = parser::expression_line("1 +;".as_bytes(), 0).unwrap_err();
    assert_eq!(err, parser::SyntaxError { position: 1 });
}

#[test]
fn arithmetic_wraps_around_the_64_bit_range() {
    let mut interpreter = Interpreter::new();
    let sum = ast::add(ast::integer(i64::MAX), ast::integer(1));
    assert_eq!(interpreter.interpret(&sum).unwrap(), i64::MIN);
    let quotient = ast::divide(ast::integer(i64::MIN), ast::integer(-1));
    assert_eq!(interpreter.interpret(&quotient).unwrap(), i64::MIN);
}

#[test]
fn interpret_integer_literal_returns_it() {
    let mut interpreter = Interpreter::new();
    assert_eq!(interpreter.interpret(&ast::integer(-7)).unwrap(), -7);
    assert_eq!(interpreter.interpret(&ast::integer(0)).unwrap(), 0);
    assert_eq!(interpreter.interpret(&ast::integer(i64::MIN)).unwrap(), i64::MIN);
}
