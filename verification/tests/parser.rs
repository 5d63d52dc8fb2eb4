use toysrust::interpreter::Interpreter;
use toysrust::parser;

#[test]
fn interger_test() {
    let mut interpreter = Interpreter::new();

    let input = "42";
    let (_, expression) = parser::integer(input.as_bytes(), 0).unwrap();
    let value = interpreter.interpret(&expression).unwrap();

    assert_eq!(value, 42);
}

#[test]
fn multitive_left_operand_only() {
    let mut interpreter = Interpreter::new();

    let input = "42";
    let (_, expression) = parser::multitive(input.as_bytes(), 0).unwrap();
    let value = interpreter.interpret(&expression).unwrap();

    assert_eq!(value, 42);
}

#[test]
fn multitive_multiply() {
    let mut interpreter = Interpreter::new();

    let input = "21 * 2";
    let (_, expression) = parser::multitive(input.as_bytes(), 0).unwrap();
    let value = interpreter.interpret(&expression).unwrap();

    assert_eq!(value, 42);
}

#[test]
fn multitive_divide() {
    let mut interpreter = Interpreter::new();

    let input = "42 / 2";
    let (_, expression) = parser::multitive(input.as_bytes(), 0).unwrap();
    let value = interpreter.interpret(&expression).unwrap();

    assert_eq!(value, 21);
}

#[test]
fn multitive_second_right_operand_followed() {
    let mut interpreter = Interpreter::new();

    let input = "2 * 3 * (4 + 5)";
    let (_, expression) = parser::multitive(input.as_bytes(), 0).unwrap();
    let value = interpreter.interpret(&expression).unwrap();

    assert_eq!(value, 54);
}

#[test]
fn additive_left_operand_only() {
    let mut interpreter = Interpreter::new();

    let input = "42";
    let (_, expression) = parser::additive(input.as_bytes(), 0).unwrap();
    let value = interpreter.interpret(&expression).unwrap();

    assert_eq!(value, 42);
}

#[test]
fn additive_add() {
    let mut interpreter = Interpreter::new();

    let input = "2 + 2";
    let (_, expression) = parser::additive(input.as_bytes(), 0).unwrap();
    let value = interpreter.interpret(&expression).unwrap();

    assert_eq!(value, 4);
}

#[test]
fn additive_subtract() {
    let mut interpreter = Interpreter::new();

    let input = "42 - 2";
    let (_, expression) = parser::additive(input.as_bytes(), 0).unwrap();
    let value = interpreter.interpret(&expression).unwrap();

    assert_eq!(value, 40);
}

#[test]
fn additive_second_right_operand_followed() {
    let mut interpreter = Interpreter::new();

    let input = "2 + 3 + (4 - 5)";
    let (_, expression) = parser::additive(input.as_bytes(), 0).unwrap();
    let value = interpreter.interpret(&expression).unwrap();

    assert_eq!(value, 4);
}

#[test]
fn comparative_left_operand_only() {
    let mut interpreter = Interpreter::new();

    let input = "42";
    let (_, expression) = parser::comparative(input.as_bytes(), 0).unwrap();
    let value = interpreter.interpret(&expression).unwrap();

    assert_eq!(value, 42);
}

#[test]
fn comparative_less_than() {
    let mut interpreter = Interpreter::new();

    let input = "42 < 53";
    let (_, expression) = parser::comparative(input.as_bytes(), 0).unwrap();
    let value = interpreter.interpret(&expression).unwrap();

    assert_eq!(value, 1);
}

#[test]
fn comparative_greater_than() {
    let mut interpreter = Interpreter::new();

    let input = "42 > 53";
    let (_, expression) = parser::comparative(input.as_bytes(), 0).unwrap();
    let value = interpreter.interpret(&expression).unwrap();

    assert_eq!(value, 0);
}

#[test]
fn comparative_less_or_equal() {
    let mut interpreter = Interpreter::new();

    let input = "42 <= 42";
    let (_, expression) = parser::comparative(input.as_bytes(), 0).unwrap();
    let value = interpreter.interpret(&expression).unwrap();

    assert_eq!(value, 1);
}

#[test]
fn comparative_greater_or_equal() {
    let mut interpreter = Interpreter::new();

    let input = "42 >= 42";
    let (_, expression) = parser::comparative(input.as_bytes(), 0).unwrap();
    let value = interpreter.interpret(&expression).unwrap();

    assert_eq!(value, 1);
}

#[test]
fn comparative_equal_equal() {
    let mut interpreter = Interpreter::new();

    let input = "42 == 42";
    let (_, expression) = parser::comparative(input.as_bytes(), 0).unwrap();
    let value = interpreter.interpret(&expression).unwrap();

    assert_eq!(value, 1);
}

#[test]
fn comparative_not_equal() {
    let mut interpreter = Interpreter::new();

    let input = "42 != 42";
    let (_, expression) = parser::comparative(input.as_bytes(), 0).unwrap();
    let value = interpreter.interpret(&expression).unwrap();

    assert_eq!(value, 0);
}

#[test]
fn comparative_second_right_operand_followed() {
    let mut interpreter = Interpreter::new();

    let input = "(1 < 2) == (3 < 4)";
    let (_, expression) = parser::comparative(input.as_bytes(), 0).unwrap();
    let value = interpreter.interpret(&expression).unwrap();

    assert_eq!(value, 1);
}

#[test]
fn expression_line_test() {
    let mut interpreter = Interpreter::new();

    let input = "2 + 2;";
    let (_, expression) = parser::expression_line(input.as_bytes(), 0).unwrap();
    let value = interpreter.interpret(&expression).unwrap();

    assert_eq!(value, 4);
}

#[test]
fn parser_assign_and_identify() {
    let mut interpreter = Interpreter::new();

    let input = "answer = 42;";
    let (_, expression) = parser::assignment(input.as_bytes(), 0).unwrap();
    let value = interpreter.interpret(&expression).unwrap();

    assert_eq!(value, 42);

    let input = "answer";

    let (_, expression) = parser::identifier(input.as_bytes(), 0).unwrap();
    let value = interpreter.interpret(&expression).unwrap();

    assert_eq!(value, 42);
}

#[test]
fn block_expression_test() {
    let mut interpreter = Interpreter::new();

    let input = "{
            answer = 42;

            2 + 2 == 4;

            answer;
        }";

    let (_, expression) = parser::block_expression(input.as_bytes(), 0).unwrap();
    let value = interpreter.interpret(&expression).unwrap();

    assert_eq!(value, 42);
}

#[test]
fn while_expression_test() {
    let mut interpreter = Interpreter::new();

    let input = "answer = 0;";
    let (_, expression) = parser::assignment(input.as_bytes(), 0).unwrap();
    let _ = interpreter.interpret(&expression).unwrap();

    let input = "i = 1;";
    let (_, expression) = parser::assignment(input.as_bytes(), 0).unwrap();
    let _ = interpreter.interpret(&expression).unwrap();

    let input = "while (i <= 5) {
            answer = answer + i;
            i = i + 1;
        }";

    let (_, expression) = parser::while_expression(input.as_bytes(), 0).unwrap();
    let _ = interpreter.interpret(&expression).unwrap();

    let input = "answer;";
    let (_, expression) = parser::expression_line(input.as_bytes(), 0).unwrap();
    let value = interpreter.interpret(&expression).unwrap();

    assert_eq!(value, 15);
}

#[test]
fn if_expression_only_then_clause() {
    let mut interpreter = Interpreter::new();

    let input = "if (2 + 2 == 4) {
            42;
        }";

    let (_, expression) = parser::if_expression(input.as_bytes(), 0).unwrap();
    let value = interpreter.interpret(&expression).unwrap();

    assert_eq!(value, 42);
}

#[test]
fn if_expression_else_clause() {
    let mut interpreter = Interpreter::new();

    let input = "if (2 + 2 != 4) {
            42;
        } else {
            21;
        }";

    let (_, expression) = parser::if_expression(input.as_bytes(), 0).unwrap();
    let value = interpreter.interpret(&expression).unwrap();

    assert_eq!(value, 21);
}

#[test]
fn println_test() {
    let mut interpreter = Interpreter::new();

    let input = "println(42)";
    let (_, expression) = parser::println_expression(input.as_bytes(), 0).unwrap();
    let value = interpreter.interpret(&expression).unwrap();

    assert_eq!(value, 1);
}
