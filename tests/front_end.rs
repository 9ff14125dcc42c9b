use axel::ast::{Expression, Statement};
use axel::grammar::ParseError;
use axel::lexer::get_keywords;
use axel::parser::Parser;
use axel::tokens::{Comparison, Keywords, TokenTypes};

fn lex(src: &str) -> Vec<TokenTypes> {
    get_keywords(&src.to_string())
}

#[test]
fn lexer_output_ends_with_end_of_line() {
    for src in ["", "   ", "x", "\"open", "var x = 1;", "#c", "@@", "99999999999999"] {
        let toks = lex(src);
        assert!(!toks.is_empty());
        assert!(toks[toks.len() - 1] == TokenTypes::EndOfLine);
        for t in &toks[..toks.len() - 1] {
            assert!(*t != TokenTypes::EndOfLine);
        }
    }
}

#[test]
fn lexer_two_character_operators() {
    let toks = lex("= == < <= > >= ! != += -= *= /=");
    let expected = vec![
        TokenTypes::Operator('='),
        TokenTypes::Compare(Comparison::Equal),
        TokenTypes::Compare(Comparison::Less),
        TokenTypes::Compare(Comparison::LessE),
        TokenTypes::Compare(Comparison::Greater),
        TokenTypes::Compare(Comparison::GreaterE),
        TokenTypes::Bang,
        TokenTypes::Compare(Comparison::NotEqual),
        TokenTypes::CompoundOperator('+'),
        TokenTypes::CompoundOperator('-'),
        TokenTypes::CompoundOperator('*'),
        TokenTypes::CompoundOperator('/'),
        TokenTypes::EndOfLine,
    ];
    assert_eq!(toks, expected);
}

#[test]
fn lexer_punctuation_and_literals() {
    let toks = lex("var total = [12, \"hi there\"]; { a : b }\n");
    let expected = vec![
        TokenTypes::Keywords(Keywords::Var),
        TokenTypes::Identifier("total".to_string()),
        TokenTypes::Operator('='),
        TokenTypes::Delim('['),
        TokenTypes::NumbersInt(12),
        TokenTypes::Comma,
        TokenTypes::Strings("hi there".to_string()),
        TokenTypes::Delim(']'),
        TokenTypes::Semicolon,
        TokenTypes::Delim('{'),
        TokenTypes::Identifier("a".to_string()),
        TokenTypes::Colon,
        TokenTypes::Identifier("b".to_string()),
        TokenTypes::Delim('}'),
        TokenTypes::EndOfLine,
    ];
    assert_eq!(toks, expected);
}

#[test]
fn lexer_keywords() {
    let toks = lex("var const if else while return fn true false class classy");
    let expected = vec![
        TokenTypes::Keywords(Keywords::Var),
        TokenTypes::Keywords(Keywords::Const),
        TokenTypes::Keywords(Keywords::If),
        TokenTypes::Keywords(Keywords::Else),
        TokenTypes::Keywords(Keywords::While),
        TokenTypes::Keywords(Keywords::Return),
        TokenTypes::Keywords(Keywords::Function),
        TokenTypes::Keywords(Keywords::True),
        TokenTypes::Keywords(Keywords::False),
        TokenTypes::Keywords(Keywords::Class),
        TokenTypes::Identifier("classy".to_string()),
        TokenTypes::EndOfLine,
    ];
    assert_eq!(toks, expected);
}

#[test]
fn lexer_numbers() {
    assert_eq!(lex("2147483647"), vec![TokenTypes::NumbersInt(2147483647), TokenTypes::EndOfLine]);
    assert_eq!(lex("2147483648"), vec![TokenTypes::Illegal, TokenTypes::EndOfLine]);
    assert_eq!(
        lex("3.14"),
        vec![TokenTypes::NumbersFloat("3.14".to_string()), TokenTypes::EndOfLine]
    );
    assert_eq!(
        lex("3."),
        vec![TokenTypes::NumbersInt(3), TokenTypes::Illegal, TokenTypes::EndOfLine]
    );
    assert_eq!(
        lex("007x"),
        vec![
            TokenTypes::NumbersInt(7),
            TokenTypes::Identifier("x".to_string()),
            TokenTypes::EndOfLine
        ]
    );
}

#[test]
fn lexer_illegal_and_comments() {
    assert_eq!(
        lex("a $ b"),
        vec![
            TokenTypes::Identifier("a".to_string()),
            TokenTypes::Illegal,
            TokenTypes::Identifier("b".to_string()),
            TokenTypes::EndOfLine
        ]
    );
    assert_eq!(
        lex("# note ; x\ny"),
        vec![TokenTypes::Comment, TokenTypes::Identifier("y".to_string()), TokenTypes::EndOfLine]
    );
    assert_eq!(lex("\"abc"), vec![TokenTypes::Illegal, TokenTypes::EndOfLine]);
    assert_eq!(lex("\t"), vec![TokenTypes::Illegal, TokenTypes::EndOfLine]);
}

#[test]
fn parser_builds_precedence_tree() {
    let mut p = Parser::new(lex("1 + 2 * 3;"));
    let stmts = p.parse_token_line().unwrap();
    assert_eq!(stmts.len(), 1);
    match &stmts[0] {
        Statement::ExpressionStatement { value } => match value.as_ref() {
            Expression::InfixOp { left, operator, right } => {
                assert!(matches!(left.as_ref(), Expression::NumberLit { number: 1 }));
                assert!(*operator == TokenTypes::Operator('+'));
                match right.as_ref() {
                    Expression::InfixOp { left, operator, right } => {
                        assert!(matches!(left.as_ref(), Expression::NumberLit { number: 2 }));
                        assert!(*operator == TokenTypes::Operator('*'));
                        assert!(matches!(right.as_ref(), Expression::NumberLit { number: 3 }));
                    }
                    other => panic!("unexpected {:?}", other),
                }
            }
            other => panic!("unexpected {:?}", other),
        },
        other => panic!("unexpected {:?}", other),
    }
}

#[test]
fn parser_keeps_statement_order() {
    let mut p = Parser::new(lex("var a = 1; const b = 2; return a; a + b;"));
    let stmts = p.parse_token_line().unwrap();
    assert_eq!(stmts.len(), 4);
    assert!(matches!(&stmts[0], Statement::VarStatement { name, .. } if name == "a"));
    assert!(matches!(&stmts[1], Statement::ConstStatement { name, .. } if name == "b"));
    assert!(matches!(&stmts[2], Statement::ReturnStatement { .. }));
    assert!(matches!(&stmts[3], Statement::ExpressionStatement { .. }));
}

#[test]
fn parser_check_statement_advances() {
    let mut p = Parser::new(lex("var a = 1; a;"));
    let first = p.check_statement();
    assert!(matches!(first, Ok(Statement::VarStatement { .. })));
    let second = p.check_statement();
    assert!(matches!(second, Ok(Statement::ExpressionStatement { .. })));
    let third = p.check_statement();
    assert!(matches!(third, Err(ParseError::EndOfInput)));
}

#[test]
fn parser_compound_assignment_desugars() {
    let mut p = Parser::new(lex("x += 2;"));
    let stmts = p.parse_token_line().unwrap();
    match &stmts[0] {
        Statement::ExpressionStatement { value } => match value.as_ref() {
            Expression::VarChange { identifier, right } => {
                assert_eq!(identifier, "x");
                match right.as_ref() {
                    Expression::CompoundOperation { identifier, operator, .. } => {
                        assert_eq!(identifier, "x");
                        assert!(*operator == TokenTypes::CompoundOperator('+'));
                    }
                    other => panic!("unexpected {:?}", other),
                }
            }
            other => panic!("unexpected {:?}", other),
        },
        other => panic!("unexpected {:?}", other),
    }
}

#[test]
fn parser_if_else_and_function() {
    let mut p = Parser::new(lex("if (a) { 1; } else { 2; 3; } fn f(x, y) { x; }"));
    let stmts = p.parse_token_line().unwrap();
    assert_eq!(stmts.len(), 2);
    match &stmts[0] {
        Statement::ExpressionStatement { value } => match value.as_ref() {
            Expression::IfExpr { consequence, other, .. } => {
                assert_eq!(consequence.len(), 1);
                assert_eq!(other.as_ref().map(|o| o.len()), Some(2));
            }
            other => panic!("unexpected {:?}", other),
        },
        other => panic!("unexpected {:?}", other),
    }
    match &stmts[1] {
        Statement::ExpressionStatement { value } => match value.as_ref() {
            Expression::FunctionExpr { identifier, parameters, body } => {
                assert_eq!(identifier, "f");
                assert_eq!(parameters, &vec!["x".to_string(), "y".to_string()]);
                assert_eq!(body.len(), 1);
            }
            other => panic!("unexpected {:?}", other),
        },
        other => panic!("unexpected {:?}", other),
    }
}

#[test]
fn parser_empty_input_gives_no_statements() {
    let mut p = Parser::new(lex(""));
    assert_eq!(p.parse_token_line().unwrap().len(), 0);
}
