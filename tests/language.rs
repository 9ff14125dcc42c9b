use axel::evaluate::Evaluator;
use axel::grammar::ParseError;
use axel::interpreter::{interpret, InterpretError};
use axel::object::{EvalError, Objects};

fn run(src: &str) -> Result<Objects, InterpretError> {
    let mut ev = Evaluator::new();
    interpret(&mut ev, &src.to_string())
}

fn run_int(src: &str) -> i32 {
    match run(src) {
        Ok(Objects::Integer(n)) => n,
        other => panic!("expected an integer from {:?}, got {:?}", src, other),
    }
}

fn run_bool(src: &str) -> bool {
    match run(src) {
        Ok(Objects::Boolean(b)) => b,
        other => panic!("expected a boolean from {:?}, got {:?}", src, other),
    }
}

fn run_text(src: &str) -> String {
    match run(src) {
        Ok(Objects::String(s)) => s,
        other => panic!("expected a string from {:?}, got {:?}", src, other),
    }
}

fn eval_error(src: &str) -> EvalError {
    match run(src) {
        Err(InterpretError::Eval(e)) => e,
        other => panic!("expected an evaluation error from {:?}, got {:?}", src, other),
    }
}

fn parse_error(src: &str) -> ParseError {
    match run(src) {
        Err(InterpretError::Parse(e)) => e,
        other => panic!("expected a parse error from {:?}, got {:?}", src, other),
    }
}

#[test]
fn scenario_variable_then_addition() {
    assert_eq!(run_int("var x = 5; x + 3;"), 8);
}

#[test]
fn scenario_if_else_takes_then_branch() {
    assert_eq!(run_int("if (1 < 2) { 10; } else { 20; }"), 10);
}

#[test]
fn scenario_function_call_returns_sum() {
    assert_eq!(run_int("fn add(a,b) { return a + b; } add(2,3);"), 5);
}

#[test]
fn scenario_string_concatenation() {
    assert_eq!(run_text("var s = \"foo\"; s + \"bar\";"), "foobar");
}

#[test]
fn scenario_array_index() {
    assert_eq!(run_int("var a = [1,2,3]; a[1];"), 2);
}

#[test]
fn scenario_len_of_string() {
    assert_eq!(run_int("len(\"hello\");"), 5);
}

#[test]
fn scenario_recursive_factorial() {
    assert_eq!(
        run_int("fn fact(n){ if (n == 0) { return 1; } return n * fact(n - 1); } fact(5);"),
        120
    );
}

#[test]
fn arithmetic_on_integers() {
    assert_eq!(run_int("7 + 5;"), 12);
    assert_eq!(run_int("7 - 10;"), -3);
    assert_eq!(run_int("6 * 7;"), 42);
    assert_eq!(run_int("7 / 2;"), 3);
    assert_eq!(run_int("-7 / 2;"), -3);
    assert_eq!(run_int("7 / -2;"), -3);
    assert_eq!(run_int("2147483646 + 1;"), 2147483647);
}

#[test]
fn comparisons_on_integers() {
    assert!(run_bool("3 == 3;"));
    assert!(!run_bool("3 == 4;"));
    assert!(run_bool("3 != 4;"));
    assert!(!run_bool("3 != 3;"));
    assert!(run_bool("3 < 4;"));
    assert!(!run_bool("4 < 4;"));
    assert!(run_bool("4 <= 4;"));
    assert!(!run_bool("5 <= 4;"));
    assert!(run_bool("5 > 4;"));
    assert!(!run_bool("4 > 4;"));
    assert!(run_bool("4 >= 4;"));
    assert!(!run_bool("3 >= 4;"));
}

#[test]
fn precedence_of_multiplication_and_grouping() {
    assert_eq!(run_int("1 + 2 * 3;"), 7);
    assert_eq!(run_int("(1+2)*3;"), 9);
    assert_eq!(run_int("10 - 4 - 3;"), 3);
    assert_eq!(run_int("100 / 10 / 5;"), 2);
    assert!(run_bool("1 + 1 == 2;"));
}

#[test]
fn arguments_print_left_to_right() {
    let mut ev = Evaluator::new();
    let src = "fn a() { print(\"a\"); } fn b() { print(\"b\"); } fn c() { print(\"c\"); } \
               fn f(x, y, z) { 0; } f(a(), b(), c());"
        .to_string();
    let r = interpret(&mut ev, &src);
    assert!(matches!(r, Ok(Objects::Integer(0))));
    let out = ev.take_output();
    let texts: Vec<String> = out
        .iter()
        .map(|o| match o {
            Objects::String(s) => s.clone(),
            other => panic!("unexpected printed value {:?}", other),
        })
        .collect();
    assert_eq!(texts, vec!["a".to_string(), "b".to_string(), "c".to_string()]);
}

#[test]
fn return_stops_function_body() {
    assert_eq!(run_int("fn f() { return 1; return 2; } f();"), 1);
}

#[test]
fn literal_expressions_ignore_bindings() {
    let mut fresh = Evaluator::new();
    let mut busy = Evaluator::new();
    let setup = "var x = 100; var y = 3;".to_string();
    assert!(interpret(&mut busy, &setup).is_ok());
    let src = "1 + 2 * 3 - 4 / 2;".to_string();
    let a = interpret(&mut fresh, &src);
    let b = interpret(&mut busy, &src);
    assert!(matches!(a, Ok(Objects::Integer(5))));
    assert!(matches!(b, Ok(Objects::Integer(5))));
}

#[test]
fn compound_assignment_rebinds() {
    assert_eq!(run_int("var x = 5; x += 3; x;"), 8);
    assert_eq!(run_int("var x = 5; x -= 3; x;"), 2);
    assert_eq!(run_int("var x = 5; x *= 3; x;"), 15);
    assert_eq!(run_int("var x = 9; x /= 3; x;"), 3);
}

#[test]
fn if_without_else_is_false() {
    assert!(!run_bool("if (1 > 2) { 10; }"));
}

#[test]
fn bang_negates_booleans() {
    assert!(!run_bool("!true;"));
    assert!(run_bool("!false;"));
}

#[test]
fn minus_negates_integers() {
    assert_eq!(run_int("-5;"), -5);
    assert_eq!(run_int("--5;"), 5);
}

#[test]
fn const_binds_like_var() {
    assert_eq!(run_int("const k = 4; k * k;"), 16);
}

#[test]
fn top_level_return_ends_program() {
    assert_eq!(run_int("1; return 2; 3;"), 2);
}

#[test]
fn return_inside_if_leaves_function() {
    assert_eq!(run_int("fn g(n) { if (n > 0) { return 1; } return 2; } g(5);"), 1);
    assert_eq!(run_int("fn g(n) { if (n > 0) { return 1; } return 2; } g(0);"), 2);
}

#[test]
fn parameters_are_removed_after_call() {
    assert_eq!(
        eval_error("var a = 1; fn f(a) { return a; } f(5); a;"),
        EvalError::IdentifierNotFound
    );
    assert_eq!(run_int("var b = 1; fn f(a) { return a + b; } f(5);"), 6);
}

#[test]
fn builtins_on_strings_and_arrays() {
    assert_eq!(run_int("len([1, 2, 3]);"), 3);
    assert_eq!(run_int("len(\"\");"), 0);
    assert_eq!(run_text("first(\"abc\");"), "a");
    assert_eq!(run_text("last(\"abc\");"), "c");
    assert_eq!(run_int("first([7, 8, 9]);"), 7);
    assert_eq!(run_int("last([7, 8, 9]);"), 9);
    assert_eq!(run_int("len(push([1], 2));"), 2);
    assert_eq!(run_int("last(push([1], 2));"), 2);
    assert_eq!(run_text("print(3);"), "");
}

#[test]
fn push_leaves_original_array() {
    assert_eq!(run_int("var a = [1]; var b = push(a, 2); len(a);"), 1);
}

#[test]
fn float_literal_keeps_text() {
    match run("3.25;") {
        Ok(Objects::Float(t)) => assert_eq!(t, "3.25"),
        other => panic!("unexpected {:?}", other),
    }
}

#[test]
fn function_declaration_is_a_value() {
    match run("fn id(x) { x; }") {
        Ok(Objects::Function(f)) => {
            assert_eq!(f.parameters, vec!["x".to_string()]);
            assert_eq!(f.body.len(), 1);
        }
        other => panic!("unexpected {:?}", other),
    }
}

#[test]
fn each_evaluation_error() {
    assert_eq!(eval_error("y;"), EvalError::IdentifierNotFound);
    assert_eq!(eval_error("1 + \"a\";"), EvalError::OperandTypeMismatch);
    assert_eq!(eval_error("\"a\" - \"b\";"), EvalError::UnknownOperator);
    assert_eq!(eval_error("true + 1;"), EvalError::OperandTypeMismatch);
    assert_eq!(eval_error("if (1) { 2; }"), EvalError::NonBooleanCondition);
    assert_eq!(eval_error("var x = 1; x();"), EvalError::NotCallable);
    assert_eq!(eval_error("nope(1);"), EvalError::BuiltinNotFound);
    assert_eq!(eval_error("len(1);"), EvalError::BuiltinArgs);
    assert_eq!(eval_error("len(1, 2);"), EvalError::BuiltinArgs);
    assert_eq!(eval_error("first([]);"), EvalError::BuiltinArgs);
    assert_eq!(eval_error("var a = [1]; a[3];"), EvalError::IndexOutOfRange);
    assert_eq!(eval_error("var a = [1]; a[-1];"), EvalError::IndexOutOfRange);
    assert_eq!(eval_error("1 / 0;"), EvalError::DivisionByZero);
    assert_eq!(eval_error("2147483647 + 1;"), EvalError::IntegerOverflow);
    assert_eq!(eval_error("-2147483647 - 2;"), EvalError::IntegerOverflow);
    assert_eq!(eval_error("fn f(a) { a; } f();"), EvalError::ArityMismatch);
    assert_eq!(eval_error("fn f(n) { return f(n); } f(1);"), EvalError::CallDepthExceeded);
    assert_eq!(eval_error("if (true) { }"), EvalError::EmptyBlock);
    assert_eq!(eval_error("{1: 2};"), EvalError::UnsupportedOperation);
    assert_eq!(eval_error("!1;"), EvalError::OperandTypeMismatch);
}

#[test]
fn bindings_survive_a_failure() {
    let mut ev = Evaluator::new();
    let r = interpret(&mut ev, &"var x = 2; y;".to_string());
    assert!(matches!(r, Err(InterpretError::Eval(EvalError::IdentifierNotFound))));
    let r2 = interpret(&mut ev, &"x;".to_string());
    assert!(matches!(r2, Ok(Objects::Integer(2))));
}

#[test]
fn each_parse_error() {
    assert_eq!(parse_error("var = 5;"), ParseError::UnexpectedToken);
    assert_eq!(parse_error("var x 5;"), ParseError::UnexpectedToken);
    assert_eq!(parse_error("1 + ;"), ParseError::ExpectedExpression);
    assert_eq!(parse_error("1 + 2"), ParseError::EndOfInput);
    assert_eq!(parse_error("@;"), ParseError::LexicalError);
    assert_eq!(parse_error("if (true) { 1; "), ParseError::EndOfInput);
    assert_eq!(parse_error("f(1 2);"), ParseError::UnexpectedToken);
}

#[test]
fn comments_are_skipped_between_statements() {
    assert_eq!(run_int("# a note\nvar x = 2;\n# another\nx * 5;"), 10);
}
