use axel::ast::{Expression, Statement};
use axel::evaluate::Evaluator;
use axel::object::{BuiltinFunction, Environment, EvalError, Function, Objects};
use axel::tokens::TokenTypes;

fn int_value(o: &Option<Objects>) -> Option<i32> {
    match o {
        Some(Objects::Integer(n)) => Some(*n),
        _ => None,
    }
}

#[test]
fn environment_add_search_remove() {
    let mut env = Environment::new();
    assert!(env.search(&"x".to_string()).is_none());
    env.add("x".to_string(), Objects::Integer(1));
    env.add("y".to_string(), Objects::Integer(2));
    assert_eq!(int_value(&env.search(&"x".to_string())), Some(1));
    env.add("x".to_string(), Objects::Integer(3));
    assert_eq!(int_value(&env.search(&"x".to_string())), Some(3));
    env.remove("x".to_string());
    assert!(env.search(&"x".to_string()).is_none());
    assert_eq!(int_value(&env.search(&"y".to_string())), Some(2));
    env.remove("absent".to_string());
    assert_eq!(int_value(&env.search(&"y".to_string())), Some(2));
}

#[test]
fn builtin_call_len_and_push() {
    let mut out = Vec::new();
    let len = BuiltinFunction::new("len".to_string());
    let r = len.call(vec![Objects::String("hello".to_string())], &mut out);
    assert!(matches!(r, Ok(Objects::Integer(5))));
    let push = BuiltinFunction::new("push".to_string());
    let r = push.call(
        vec![Objects::Array(vec![Objects::Integer(1)]), Objects::Boolean(true)],
        &mut out,
    );
    match r {
        Ok(Objects::Array(a)) => {
            assert_eq!(a.len(), 2);
            assert!(matches!(a[1], Objects::Boolean(true)));
        }
        other => panic!("unexpected {:?}", other),
    }
    assert!(out.is_empty());
}

#[test]
fn builtin_call_print_records_value() {
    let mut out = Vec::new();
    let print = BuiltinFunction::new("print".to_string());
    let r = print.call(vec![Objects::Integer(42)], &mut out);
    assert!(matches!(r, Ok(Objects::String(ref s)) if s.is_empty()));
    assert_eq!(out.len(), 1);
    assert!(matches!(out[0], Objects::Integer(42)));
}

#[test]
fn builtin_call_errors() {
    let mut out = Vec::new();
    let unknown = BuiltinFunction::new("shout".to_string());
    assert!(matches!(unknown.call(vec![], &mut out), Err(EvalError::BuiltinNotFound)));
    let last = BuiltinFunction::new("last".to_string());
    assert!(matches!(
        last.call(vec![Objects::String(String::new())], &mut out),
        Err(EvalError::BuiltinArgs)
    ));
    let push = BuiltinFunction::new("push".to_string());
    assert!(matches!(
        push.call(vec![Objects::Integer(1), Objects::Integer(2)], &mut out),
        Err(EvalError::BuiltinArgs)
    ));
}

#[test]
fn function_new_keeps_parts() {
    let body = vec![Statement::ReturnStatement {
        value: Box::new(Expression::IdentifierLit { name: "a".to_string() }),
    }];
    let f = Function::new(vec!["a".to_string()], body);
    assert_eq!(f.parameters, vec!["a".to_string()]);
    assert_eq!(f.body.len(), 1);
}

#[test]
fn evaluator_statement_and_expression() {
    let mut ev = Evaluator::new();
    let decl = Statement::VarStatement {
        name: "n".to_string(),
        value: Box::new(Expression::NumberLit { number: 6 }),
    };
    assert!(matches!(ev.eval_statement(decl), Ok(Objects::Integer(6))));
    let e = Expression::InfixOp {
        left: Box::new(Expression::IdentifierLit { name: "n".to_string() }),
        operator: TokenTypes::Operator('*'),
        right: Box::new(Expression::NumberLit { number: 7 }),
    };
    assert!(matches!(ev.eval_expression(e), Ok(Objects::Integer(42))));
}

#[test]
fn evaluator_program_runs_in_order() {
    let mut ev = Evaluator::new();
    let stmts = vec![
        Statement::VarStatement {
            name: "a".to_string(),
            value: Box::new(Expression::NumberLit { number: 2 }),
        },
        Statement::ExpressionStatement {
            value: Box::new(Expression::InfixOp {
                left: Box::new(Expression::IdentifierLit { name: "a".to_string() }),
                operator: TokenTypes::Operator('+'),
                right: Box::new(Expression::NumberLit { number: 1 }),
            }),
        },
    ];
    assert!(matches!(ev.eval_program(&stmts), Ok(Objects::Integer(3))));
    assert!(matches!(ev.eval_program(&vec![]), Err(EvalError::EmptyBlock)));
}
