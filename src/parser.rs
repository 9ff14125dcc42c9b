use vstd::prelude::*;
use crate::ast::{
    ExprView, Expression, Statement, StmtView, expr_view, exprs_view, lemma_exprs_view,
    lemma_stmts_view, names_view, stmts_view,
};
use crate::grammar::{
    ParseError, parse_block, parse_expression, parse_function, parse_if, parse_infix, parse_list,
    parse_list_tail, parse_pairs, parse_pairs_tail, parse_params, parse_params_tail, parse_prefix,
    parse_program, parse_statement, parse_declaration, parse_compound, parse_keyword_expression, parse_until_semicolon, precedence, tok, mismatch,
};
use crate::tokens::{Keywords, TokenTypes, TokenView, lemma_tokens_view, lemma_tokens_view_len, tokens_view};

verus! {

pub open spec fn expr_result(r: Result<Expression, ParseError>) -> Result<ExprView, ParseError> {
    match r {
        Ok(e) => Ok(e@),
        Err(x) => Err(x),
    }
}

pub open spec fn exprs_result(r: Result<Vec<Expression>, ParseError>) -> Result<
    Seq<ExprView>,
    ParseError,
> {
    match r {
        Ok(v) => Ok(exprs_view(v@)),
        Err(x) => Err(x),
    }
}

pub open spec fn pairs_result(r: Result<(Vec<Expression>, Vec<Expression>), ParseError>) -> Result<
    (Seq<ExprView>, Seq<ExprView>),
    ParseError,
> {
    match r {
        Ok(kv) => Ok((exprs_view(kv.0@), exprs_view(kv.1@))),
        Err(x) => Err(x),
    }
}

pub open spec fn stmt_result(r: Result<Statement, ParseError>) -> Result<StmtView, ParseError> {
    match r {
        Ok(s) => Ok(s@),
        Err(x) => Err(x),
    }
}

pub open spec fn stmts_result(r: Result<Vec<Statement>, ParseError>) -> Result<
    Seq<StmtView>,
    ParseError,
> {
    match r {
        Ok(v) => Ok(stmts_view(v@)),
        Err(x) => Err(x),
    }
}

pub open spec fn names_result(r: Result<Vec<String>, ParseError>) -> Result<
    Seq<Seq<char>>,
    ParseError,
> {
    match r {
        Ok(v) => Ok(names_view(v@)),
        Err(x) => Err(x),
    }
}

fn prepend_expr(e: Expression, rest: Vec<Expression>) -> (r: Vec<Expression>)
    ensures
        exprs_view(r@) == seq![e@] + exprs_view(rest@),
{
    let mut r = rest;
    let ghost old_r = r@;
    r.insert(0, e);
    proof {
        lemma_exprs_view(r@);
        lemma_exprs_view(old_r);
        assert(exprs_view(r@) =~= seq![e@] + exprs_view(old_r));
    }
    r
}

fn prepend_stmt(s: Statement, rest: Vec<Statement>) -> (r: Vec<Statement>)
    ensures
        stmts_view(r@) == seq![s@] + stmts_view(rest@),
{
    let mut r = rest;
    let ghost old_r = r@;
    r.insert(0, s);
    proof {
        lemma_stmts_view(r@);
        lemma_stmts_view(old_r);
        assert(stmts_view(r@) =~= seq![s@] + stmts_view(old_r));
    }
    r
}

fn prepend_name(n: String, rest: Vec<String>) -> (r: Vec<String>)
    ensures
        names_view(r@) == seq![n@] + names_view(rest@),
{
    let mut r = rest;
    let ghost old_r = r@;
    r.insert(0, n);
    assert(names_view(r@) =~= seq![n@] + names_view(old_r));
    r
}

fn single_expr(e: Expression) -> (r: Vec<Expression>)
    ensures
        exprs_view(r@) == seq![e@],
{
    let mut r: Vec<Expression> = Vec::new();
    r.push(e);
    proof {
        lemma_exprs_view(r@);
        assert(exprs_view(r@) =~= seq![e@]);
    }
    r
}

/// The token at `p`, or `EndOfLine` past the end.
fn token_at(t: &Vec<TokenTypes>, p: usize) -> (r: TokenTypes)
    ensures
        r@ == tok(tokens_view(t@), p as int),
{
    proof {
        lemma_tokens_view(t@);
    }
    if p < t.len() {
        t[p].copy()
    } else {
        TokenTypes::EndOfLine
    }
}

/// Whether the token at `p` is `want`.
fn token_is(t: &Vec<TokenTypes>, p: usize, want: &TokenTypes) -> (r: bool)
    ensures
        r == (tok(tokens_view(t@), p as int) == want@),
{
    proof {
        lemma_tokens_view(t@);
    }
    if p < t.len() {
        t[p].eq(want)
    } else {
        match want {
            TokenTypes::EndOfLine => true,
            _ => false,
        }
    }
}

fn mismatch_at(t: &Vec<TokenTypes>, p: usize) -> (r: ParseError)
    ensures
        r == mismatch(tok(tokens_view(t@), p as int)),
{
    proof {
        lemma_tokens_view(t@);
    }
    if p < t.len() {
        match &t[p] {
            TokenTypes::EndOfLine => ParseError::EndOfInput,
            TokenTypes::Illegal => ParseError::LexicalError,
            _ => ParseError::UnexpectedToken,
        }
    } else {
        ParseError::EndOfInput
    }
}

fn get_precedence(token: &TokenTypes) -> (r: usize)
    ensures
        r as int == precedence(token@),
{
    match token {
        TokenTypes::Operator(c) => if *c == '+' || *c == '-' {
            2
        } else if *c == '*' || *c == '/' {
            3
        } else {
            0
        },
        TokenTypes::Compare(_) => 1,
        _ => 0,
    }
}

fn params_tail(t: &Vec<TokenTypes>, p: usize) -> (r: (Result<Vec<String>, ParseError>, usize))
    requires
        p <= t.len(),
    ensures
        names_result(r.0) == parse_params_tail(tokens_view(t@), p as int).0,
        r.1 as int == parse_params_tail(tokens_view(t@), p as int).1,
        r.1 <= t.len(),
    decreases t@.len() - p,
{
    proof {
        lemma_tokens_view_len(t@);
    }
    match token_at(t, p) {
        TokenTypes::Identifier(n) => {
            if token_is(t, p + 1, &TokenTypes::Comma) {
                let (r, q) = params_tail(t, p + 2);
                match r {
                    Ok(rest) => (Ok(prepend_name(n, rest)), q),
                    Err(e) => (Err(e), q),
                }
            } else if token_is(t, p + 1, &TokenTypes::Operator(')')) {
                let mut v: Vec<String> = Vec::new();
                v.push(n);
                assert(names_view(v@) =~= seq![v@[0]@]);
                (Ok(v), p + 2)
            } else {
                (Err(mismatch_at(t, p + 1)), p + 1)
            }
        },
        _ => (Err(mismatch_at(t, p)), p),
    }
}

fn params(t: &Vec<TokenTypes>, p: usize) -> (r: (Result<Vec<String>, ParseError>, usize))
    requires
        p <= t.len(),
    ensures
        names_result(r.0) == parse_params(tokens_view(t@), p as int).0,
        r.1 as int == parse_params(tokens_view(t@), p as int).1,
        r.1 <= t.len(),
{
    proof {
        lemma_tokens_view_len(t@);
    }
    if token_is(t, p, &TokenTypes::Operator(')')) {
        let v: Vec<String> = Vec::new();
        assert(names_view(v@) =~= Seq::<Seq<char>>::empty());
        (Ok(v), p + 1)
    } else {
        params_tail(t, p)
    }
}

#[verifier::rlimit(100)]
fn infix(t: &Vec<TokenTypes>, min: usize, left: Expression, q: usize) -> (r: (
    Result<Expression, ParseError>,
    usize,
))
    requires
        q <= t.len(),
    ensures
        expr_result(r.0) == parse_infix(tokens_view(t@), min as int, left@, q as int).0,
        r.1 as int == parse_infix(tokens_view(t@), min as int, left@, q as int).1,
        r.1 <= t.len(),
    decreases t@.len() - q, 0int,
{
    proof {
        lemma_tokens_view_len(t@);
    }
    let op = token_at(t, q);
    let prec = get_precedence(&op);
    if prec > min && q < t.len() {
        let (r, q1) = prefix(t, q + 1);
        match r {
            Err(e) => (Err(e), q1),
            Ok(right0) => if q < q1 && q1 <= t.len() {
                let (r2, q2) = infix(t, prec, right0, q1);
                match r2 {
                    Err(e) => (Err(e), q2),
                    Ok(right) => if q < q2 && q2 <= t.len() {
                        infix(
                            t,
                            min,
                            Expression::InfixOp {
                                left: Box::new(left),
                                operator: op,
                                right: Box::new(right),
                            },
                            q2,
                        )
                    } else {
                        (Err(ParseError::UnexpectedToken), q2)
                    },
                }
            } else {
                (Err(ParseError::UnexpectedToken), q1)
            },
        }
    } else {
        (Ok(left), q)
    }
}

#[verifier::rlimit(100)]
fn prefix(t: &Vec<TokenTypes>, p: usize) -> (r: (Result<Expression, ParseError>, usize))
    requires
        p <= t.len(),
    ensures
        expr_result(r.0) == parse_prefix(tokens_view(t@), p as int).0,
        r.1 as int == parse_prefix(tokens_view(t@), p as int).1,
        r.1 <= t.len(),
    decreases t@.len() - p, 2int,
{
    proof {
        lemma_tokens_view_len(t@);
    }
    let cur = token_at(t, p);
    match cur {
        TokenTypes::NumbersInt(n) => (Ok(Expression::NumberLit { number: n }), p + 1),
        TokenTypes::NumbersFloat(x) => (Ok(Expression::FloatLit { text: x }), p + 1),
        TokenTypes::Strings(x) => (Ok(Expression::StringLit { string: x }), p + 1),
        TokenTypes::Keywords(Keywords::True) => (Ok(Expression::BoolExp { value: true }), p + 1),
        TokenTypes::Keywords(Keywords::False) => (Ok(Expression::BoolExp { value: false }), p + 1),
        TokenTypes::Identifier(name) => if token_is(t, p + 1, &TokenTypes::Delim('[')) {
            let (r, q) = expression(t, p + 2);
            match r {
                Err(e) => (Err(e), q),
                Ok(index) => if token_is(t, q, &TokenTypes::Delim(']')) {
                    proof {
                        reveal_with_fuel(expr_view, 2);
                    }
                    (
                        Ok(
                            Expression::IndexExpression {
                                left: Box::new(Expression::IdentifierLit { name }),
                                right: Box::new(index),
                            },
                        ),
                        q + 1,
                    )
                } else {
                    (Err(mismatch_at(t, q)), q)
                },
            }
        } else if token_is(t, p + 1, &TokenTypes::Operator('(')) {
            let (r, q) = list(t, p + 2, &TokenTypes::Operator(')'));
            match r {
                Err(e) => (Err(e), q),
                Ok(args) => (Ok(Expression::CallExpr { identifier: name, parameters: args }), q),
            }
        } else {
            (Ok(Expression::IdentifierLit { name }), p + 1)
        },
        TokenTypes::Operator(c) if c == '(' => {
            let (r, q) = expression(t, p + 1);
            match r {
                Err(e) => (Err(e), q),
                Ok(e) => if token_is(t, q, &TokenTypes::Operator(')')) {
                    (Ok(e), q + 1)
                } else {
                    (Err(mismatch_at(t, q)), q)
                },
            }
        },
        TokenTypes::Delim(c) if c == '[' => {
            let (r, q) = list(t, p + 1, &TokenTypes::Delim(']'));
            match r {
                Err(e) => (Err(e), q),
                Ok(elements) => (Ok(Expression::ArrayLit { elements }), q),
            }
        },
        TokenTypes::Delim(c) if c == '{' => {
            let (r, q) = pairs(t, p + 1);
            match r {
                Err(e) => (Err(e), q),
                Ok(kv) => (Ok(Expression::HashMap { keys: kv.0, values: kv.1 }), q),
            }
        },
        TokenTypes::Operator(c) if c == '-' => {
            let (r, q) = prefix(t, p + 1);
            match r {
                Err(e) => (Err(e), q),
                Ok(e) => (
                    Ok(Expression::Prefix { operator: TokenTypes::Operator('-'), right: Box::new(e) }),
                    q,
                ),
            }
        },
        TokenTypes::Bang => {
            let (r, q) = prefix(t, p + 1);
            match r {
                Err(e) => (Err(e), q),
                Ok(e) => (
                    Ok(Expression::Prefix { operator: TokenTypes::Bang, right: Box::new(e) }),
                    q,
                ),
            }
        },
        TokenTypes::Keywords(Keywords::If) => if_expression(t, p),
        TokenTypes::Keywords(Keywords::Function) => function_expression(t, p),
        TokenTypes::EndOfLine => (Err(ParseError::EndOfInput), p),
        TokenTypes::Illegal => (Err(ParseError::LexicalError), p),
        _ => (Err(ParseError::ExpectedExpression), p),
    }
}

#[verifier::rlimit(100)]
fn expression(t: &Vec<TokenTypes>, p: usize) -> (r: (Result<Expression, ParseError>, usize))
    requires
        p <= t.len(),
    ensures
        expr_result(r.0) == parse_expression(tokens_view(t@), p as int).0,
        r.1 as int == parse_expression(tokens_view(t@), p as int).1,
        r.1 <= t.len(),
    decreases t@.len() - p, 3int,
{
    proof {
        lemma_tokens_view_len(t@);
    }
    let (r, q) = prefix(t, p);
    match r {
        Err(e) => (Err(e), q),
        Ok(left) => if p < q && q <= t.len() {
            infix(t, 0, left, q)
        } else {
            (Err(ParseError::UnexpectedToken), q)
        },
    }
}

#[verifier::rlimit(100)]
fn list_tail(t: &Vec<TokenTypes>, p: usize, close: &TokenTypes) -> (r: (
    Result<Vec<Expression>, ParseError>,
    usize,
))
    requires
        p <= t.len(),
        close@ != TokenView::EndOfLine,
    ensures
        exprs_result(r.0) == parse_list_tail(tokens_view(t@), p as int, close@).0,
        r.1 as int == parse_list_tail(tokens_view(t@), p as int, close@).1,
        r.1 <= t.len(),
    decreases t@.len() - p, 4int,
{
    proof {
        lemma_tokens_view_len(t@);
    }
    let (r, q) = expression(t, p);
    match r {
        Err(e) => (Err(e), q),
        Ok(e) => if token_is(t, q, &TokenTypes::Comma) {
            if p < q && q < t.len() {
                let (r2, q2) = list_tail(t, q + 1, close);
                match r2 {
                    Err(x) => (Err(x), q2),
                    Ok(rest) => (Ok(prepend_expr(e, rest)), q2),
                }
            } else {
                (Err(ParseError::UnexpectedToken), q)
            }
        } else if token_is(t, q, close) {
            (Ok(single_expr(e)), q + 1)
        } else {
            (Err(mismatch_at(t, q)), q)
        },
    }
}

#[verifier::rlimit(100)]
fn list(t: &Vec<TokenTypes>, p: usize, close: &TokenTypes) -> (r: (
    Result<Vec<Expression>, ParseError>,
    usize,
))
    requires
        p <= t.len(),
        close@ != TokenView::EndOfLine,
    ensures
        exprs_result(r.0) == parse_list(tokens_view(t@), p as int, close@).0,
        r.1 as int == parse_list(tokens_view(t@), p as int, close@).1,
        r.1 <= t.len(),
    decreases t@.len() - p, 5int,
{
    proof {
        lemma_tokens_view_len(t@);
    }
    if token_is(t, p, close) {
        let v: Vec<Expression> = Vec::new();
        assert(exprs_view(v@) =~= Seq::<ExprView>::empty());
        (Ok(v), p + 1)
    } else {
        list_tail(t, p, close)
    }
}

#[verifier::rlimit(100)]
fn pairs_tail(t: &Vec<TokenTypes>, p: usize) -> (r: (
    Result<(Vec<Expression>, Vec<Expression>), ParseError>,
    usize,
))
    requires
        p <= t.len(),
    ensures
        pairs_result(r.0) == parse_pairs_tail(tokens_view(t@), p as int).0,
        r.1 as int == parse_pairs_tail(tokens_view(t@), p as int).1,
        r.1 <= t.len(),
    decreases t@.len() - p, 4int,
{
    proof {
        lemma_tokens_view_len(t@);
    }
    let (r, q) = expression(t, p);
    match r {
        Err(e) => (Err(e), q),
        Ok(k) => if !token_is(t, q, &TokenTypes::Colon) {
            (Err(mismatch_at(t, q)), q)
        } else if !(p < q && q < t.len()) {
            (Err(ParseError::UnexpectedToken), q)
        } else {
            let (r2, q2) = expression(t, q + 1);
            match r2 {
                Err(e) => (Err(e), q2),
                Ok(v) => if token_is(t, q2, &TokenTypes::Comma) {
                    if p < q2 && q2 < t.len() {
                        let (r3, q3) = pairs_tail(t, q2 + 1);
                        match r3 {
                            Err(e) => (Err(e), q3),
                            Ok(kv) => (Ok((prepend_expr(k, kv.0), prepend_expr(v, kv.1))), q3),
                        }
                    } else {
                        (Err(ParseError::UnexpectedToken), q2)
                    }
                } else if token_is(t, q2, &TokenTypes::Delim('}')) {
                    (Ok((single_expr(k), single_expr(v))), q2 + 1)
                } else {
                    (Err(mismatch_at(t, q2)), q2)
                },
            }
        },
    }
}

#[verifier::rlimit(100)]
fn pairs(t: &Vec<TokenTypes>, p: usize) -> (r: (
    Result<(Vec<Expression>, Vec<Expression>), ParseError>,
    usize,
))
    requires
        p <= t.len(),
    ensures
        pairs_result(r.0) == parse_pairs(tokens_view(t@), p as int).0,
        r.1 as int == parse_pairs(tokens_view(t@), p as int).1,
        r.1 <= t.len(),
    decreases t@.len() - p, 5int,
{
    proof {
        lemma_tokens_view_len(t@);
    }
    if token_is(t, p, &TokenTypes::Delim('}')) {
        let k: Vec<Expression> = Vec::new();
        let v: Vec<Expression> = Vec::new();
        assert(exprs_view(k@) =~= Seq::<ExprView>::empty());
        assert(exprs_view(v@) =~= Seq::<ExprView>::empty());
        (Ok((k, v)), p + 1)
    } else {
        pairs_tail(t, p)
    }
}

#[verifier::rlimit(100)]
fn if_expression(t: &Vec<TokenTypes>, p: usize) -> (r: (Result<Expression, ParseError>, usize))
    requires
        p < t.len(),
    ensures
        expr_result(r.0) == parse_if(tokens_view(t@), p as int).0,
        r.1 as int == parse_if(tokens_view(t@), p as int).1,
        r.1 <= t.len(),
    decreases t@.len() - p, 1int,
{
    proof {
        lemma_tokens_view_len(t@);
    }
    if !token_is(t, p + 1, &TokenTypes::Operator('(')) {
        (Err(mismatch_at(t, p + 1)), p + 1)
    } else if !(p + 2 <= t.len()) {
        (Err(ParseError::EndOfInput), p + 1)
    } else {
        let (r, q) = expression(t, p + 2);
        match r {
            Err(e) => (Err(e), q),
            Ok(c) => if !token_is(t, q, &TokenTypes::Operator(')')) {
                (Err(mismatch_at(t, q)), q)
            } else if !token_is(t, q + 1, &TokenTypes::Delim('{')) {
                (Err(mismatch_at(t, q + 1)), q + 1)
            } else if !(p < q && q + 2 <= t.len()) {
                (Err(ParseError::UnexpectedToken), q)
            } else {
                let (r2, q2) = block(t, q + 2);
                match r2 {
                    Err(e) => (Err(e), q2),
                    Ok(consequence) => if token_is(t, q2, &TokenTypes::Keywords(Keywords::Else)) {
                        if !token_is(t, q2 + 1, &TokenTypes::Delim('{')) {
                            (Err(mismatch_at(t, q2 + 1)), q2 + 1)
                        } else if !(p < q2 && q2 + 2 <= t.len()) {
                            (Err(ParseError::UnexpectedToken), q2)
                        } else {
                            let (r3, q3) = block(t, q2 + 2);
                            match r3 {
                                Err(e) => (Err(e), q3),
                                Ok(alt) => (
                                    Ok(
                                        Expression::IfExpr {
                                            condition: Box::new(c),
                                            consequence,
                                            other: Some(alt),
                                        },
                                    ),
                                    q3,
                                ),
                            }
                        }
                    } else {
                        (
                            Ok(
                                Expression::IfExpr {
                                    condition: Box::new(c),
                                    consequence,
                                    other: None,
                                },
                            ),
                            q2,
                        )
                    },
                }
            },
        }
    }
}

#[verifier::rlimit(100)]
fn function_expression(t: &Vec<TokenTypes>, p: usize) -> (r: (
    Result<Expression, ParseError>,
    usize,
))
    requires
        p < t.len(),
    ensures
        expr_result(r.0) == parse_function(tokens_view(t@), p as int).0,
        r.1 as int == parse_function(tokens_view(t@), p as int).1,
        r.1 <= t.len(),
    decreases t@.len() - p, 1int,
{
    proof {
        lemma_tokens_view_len(t@);
    }
    match token_at(t, p + 1) {
        TokenTypes::Identifier(name) => if !token_is(t, p + 2, &TokenTypes::Operator('(')) {
            (Err(mismatch_at(t, p + 2)), p + 2)
        } else {
            let (r, q) = params(t, p + 3);
            match r {
                Err(e) => (Err(e), q),
                Ok(ps) => if !token_is(t, q, &TokenTypes::Delim('{')) {
                    (Err(mismatch_at(t, q)), q)
                } else if !(p < q && q + 1 <= t.len()) {
                    (Err(ParseError::UnexpectedToken), q)
                } else {
                    let (r2, q2) = block(t, q + 1);
                    match r2 {
                        Err(e) => (Err(e), q2),
                        Ok(body) => (
                            Ok(Expression::FunctionExpr { identifier: name, parameters: ps, body }),
                            q2,
                        ),
                    }
                },
            }
        },
        _ => (Err(mismatch_at(t, p + 1)), p + 1),
    }
}

#[verifier::rlimit(100)]
fn until_semicolon(t: &Vec<TokenTypes>, p: usize) -> (r: (Result<Expression, ParseError>, usize))
    requires
        p <= t.len(),
    ensures
        expr_result(r.0) == parse_until_semicolon(tokens_view(t@), p as int).0,
        r.1 as int == parse_until_semicolon(tokens_view(t@), p as int).1,
        r.1 <= t.len(),
    decreases t@.len() - p, 4int,
{
    proof {
        lemma_tokens_view_len(t@);
    }
    let (r, q) = expression(t, p);
    match r {
        Err(e) => (Err(e), q),
        Ok(e) => if token_is(t, q, &TokenTypes::Semicolon) {
            (Ok(e), q + 1)
        } else {
            (Err(mismatch_at(t, q)), q)
        },
    }
}

#[verifier::rlimit(100)]
fn declaration(t: &Vec<TokenTypes>, p: usize, is_var: bool) -> (r: (
    Result<Statement, ParseError>,
    usize,
))
    requires
        p < t.len(),
    ensures
        stmt_result(r.0) == parse_declaration(tokens_view(t@), p as int, is_var).0,
        r.1 as int == parse_declaration(tokens_view(t@), p as int, is_var).1,
        r.1 <= t.len(),
    decreases t@.len() - p, 4int,
{
    proof {
        lemma_tokens_view_len(t@);
    }
    match token_at(t, p + 1) {
        TokenTypes::Identifier(name) => if !token_is(t, p + 2, &TokenTypes::Operator('=')) {
            (Err(mismatch_at(t, p + 2)), p + 2)
        } else {
            let (r, q) = until_semicolon(t, p + 3);
            match r {
                Err(e) => (Err(e), q),
                Ok(value) => if is_var {
                    (Ok(Statement::VarStatement { name, value: Box::new(value) }), q)
                } else {
                    (Ok(Statement::ConstStatement { name, value: Box::new(value) }), q)
                },
            }
        },
        _ => (Err(mismatch_at(t, p + 1)), p + 1),
    }
}

#[verifier::rlimit(100)]
fn compound(t: &Vec<TokenTypes>, p: usize, name: String) -> (r: (
    Result<Statement, ParseError>,
    usize,
))
    requires
        p + 1 < t.len(),
    ensures
        stmt_result(r.0) == parse_compound(tokens_view(t@), p as int, name@).0,
        r.1 as int == parse_compound(tokens_view(t@), p as int, name@).1,
        r.1 <= t.len(),
    decreases t@.len() - p, 4int,
{
    proof {
        lemma_tokens_view_len(t@);
    }
    let op = token_at(t, p + 1);
    let (r, q) = until_semicolon(t, p + 2);
    match r {
        Err(e) => (Err(e), q),
        Ok(rhs) => {
            proof {
                reveal_with_fuel(expr_view, 2);
            }
            let compound = Expression::CompoundOperation {
                identifier: name.clone(),
                operator: op,
                right: Box::new(rhs),
            };
            (
                Ok(
                    Statement::ExpressionStatement {
                        value: Box::new(
                            Expression::VarChange { identifier: name, right: Box::new(compound) },
                        ),
                    },
                ),
                q,
            )
        },
    }
}

#[verifier::rlimit(100)]
fn keyword_expression(t: &Vec<TokenTypes>, p: usize) -> (r: (
    Result<Statement, ParseError>,
    usize,
))
    requires
        p <= t.len(),
    ensures
        stmt_result(r.0) == parse_keyword_expression(tokens_view(t@), p as int).0,
        r.1 as int == parse_keyword_expression(tokens_view(t@), p as int).1,
        r.1 <= t.len(),
    decreases t@.len() - p, 4int,
{
    proof {
        lemma_tokens_view_len(t@);
    }
    let (r, q) = prefix(t, p);
    match r {
        Err(e) => (Err(e), q),
        Ok(value) => (
            Ok(Statement::ExpressionStatement { value: Box::new(value) }),
            if token_is(t, q, &TokenTypes::Semicolon) {
                q + 1
            } else {
                q
            },
        ),
    }
}

/// The name at `p`, when the token there is an identifier.
fn identifier_at(t: &Vec<TokenTypes>, p: usize) -> (r: Option<String>)
    ensures
        r is Some <==> tok(tokens_view(t@), p as int) is Identifier,
        r is Some ==> r->0@ == tok(tokens_view(t@), p as int)->Identifier_0,
{
    proof {
        lemma_tokens_view(t@);
    }
    if p < t.len() {
        match &t[p] {
            TokenTypes::Identifier(s) => Some(s.clone()),
            _ => None,
        }
    } else {
        None
    }
}

fn compound_operator_at(t: &Vec<TokenTypes>, p: usize) -> (r: bool)
    ensures
        r == (tok(tokens_view(t@), p as int) is CompoundOperator),
{
    proof {
        lemma_tokens_view(t@);
    }
    if p < t.len() {
        match &t[p] {
            TokenTypes::CompoundOperator(_) => true,
            _ => false,
        }
    } else {
        false
    }
}

#[verifier::rlimit(100)]
fn statement(t: &Vec<TokenTypes>, p: usize) -> (r: (Result<Statement, ParseError>, usize))
    requires
        p <= t.len(),
    ensures
        stmt_result(r.0) == parse_statement(tokens_view(t@), p as int).0,
        r.1 as int == parse_statement(tokens_view(t@), p as int).1,
        r.1 <= t.len(),
    decreases t@.len() - p, 5int,
{
    proof {
        lemma_tokens_view_len(t@);
    }
    if token_is(t, p, &TokenTypes::Keywords(Keywords::Var)) {
        declaration(t, p, true)
    } else if token_is(t, p, &TokenTypes::Keywords(Keywords::Const)) {
        declaration(t, p, false)
    } else if token_is(t, p, &TokenTypes::Keywords(Keywords::Return)) {
        let (r, q) = until_semicolon(t, p + 1);
        match r {
            Err(e) => (Err(e), q),
            Ok(value) => (Ok(Statement::ReturnStatement { value: Box::new(value) }), q),
        }
    } else if token_is(t, p, &TokenTypes::Keywords(Keywords::If)) || token_is(
        t,
        p,
        &TokenTypes::Keywords(Keywords::Function),
    ) {
        keyword_expression(t, p)
    } else {
        let name = identifier_at(t, p);
        if name.is_some() && compound_operator_at(t, p + 1) {
            compound(t, p, name.unwrap())
        } else {
            let (r, q) = until_semicolon(t, p);
            match r {
                Err(e) => (Err(e), q),
                Ok(value) => (Ok(Statement::ExpressionStatement { value: Box::new(value) }), q),
            }
        }
    }
}

#[verifier::rlimit(100)]
fn block(t: &Vec<TokenTypes>, p: usize) -> (r: (Result<Vec<Statement>, ParseError>, usize))
    requires
        p <= t.len(),
    ensures
        stmts_result(r.0) == parse_block(tokens_view(t@), p as int).0,
        r.1 as int == parse_block(tokens_view(t@), p as int).1,
        r.1 <= t.len(),
    decreases t@.len() - p, 6int,
{
    proof {
        lemma_tokens_view_len(t@);
    }
    let cur = token_at(t, p);
    match cur {
        TokenTypes::Comment => block(t, p + 1),
        TokenTypes::Delim(c) if c == '}' => {
            let v: Vec<Statement> = Vec::new();
            assert(stmts_view(v@) =~= Seq::<StmtView>::empty());
            (Ok(v), p + 1)
        },
        TokenTypes::EndOfLine => (Err(ParseError::EndOfInput), p),
        _ => {
            let (r, q) = statement(t, p);
            match r {
                Err(e) => (Err(e), q),
                Ok(s) => if p < q && q <= t.len() {
                    let (r2, q2) = block(t, q);
                    match r2 {
                        Err(e) => (Err(e), q2),
                        Ok(rest) => (Ok(prepend_stmt(s, rest)), q2),
                    }
                } else {
                    (Err(ParseError::UnexpectedToken), q)
                },
            }
        },
    }
}

#[verifier::rlimit(100)]
fn program(t: &Vec<TokenTypes>, p: usize) -> (r: (Result<Vec<Statement>, ParseError>, usize))
    requires
        p <= t.len(),
    ensures
        stmts_result(r.0) == parse_program(tokens_view(t@), p as int).0,
        r.1 as int == parse_program(tokens_view(t@), p as int).1,
        r.1 <= t.len(),
    decreases t@.len() - p, 6int,
{
    proof {
        lemma_tokens_view_len(t@);
    }
    let cur = token_at(t, p);
    match cur {
        TokenTypes::Comment => program(t, p + 1),
        TokenTypes::EndOfLine => {
            let v: Vec<Statement> = Vec::new();
            assert(stmts_view(v@) =~= Seq::<StmtView>::empty());
            (Ok(v), p)
        },
        _ => {
            let (r, q) = statement(t, p);
            match r {
                Err(e) => (Err(e), q),
                Ok(s) => if p < q && q <= t.len() {
                    let (r2, q2) = program(t, q);
                    match r2 {
                        Err(e) => (Err(e), q2),
                        Ok(rest) => (Ok(prepend_stmt(s, rest)), q2),
                    }
                } else {
                    (Err(ParseError::UnexpectedToken), q)
                },
            }
        },
    }
}

/// Turns a token sequence into statements, one at a time or all at once.
pub struct Parser {
    token_vector: Vec<TokenTypes>,
    current_token: usize,
}

impl Parser {
    /// The tokens being parsed.
    pub closed spec fn tokens(&self) -> Seq<TokenView> {
        tokens_view(self.token_vector@)
    }

    /// Where the next statement starts.
    pub closed spec fn position(&self) -> int {
        self.current_token as int
    }

    pub closed spec fn wf(&self) -> bool {
        self.current_token <= self.token_vector.len()
    }

    pub fn new(line: Vec<TokenTypes>) -> (r: Parser)
        ensures
            r.wf(),
            r.tokens() == tokens_view(line@),
            r.position() == 0,
    {
        Parser { token_vector: line, current_token: 0 }
    }

    /// Parses statements from the current position up to the first
    /// `EndOfLine`; on success the position is left on that `EndOfLine`.
    pub fn parse_token_line(&mut self) -> (r: Result<Vec<Statement>, ParseError>)
        requires
            old(self).wf(),
        ensures
            final(self).wf(),
            final(self).tokens() == old(self).tokens(),
            stmts_result(r) == parse_program(old(self).tokens(), old(self).position()).0,
            final(self).position() == parse_program(old(self).tokens(), old(self).position()).1,
    {
        let (r, q) = program(&self.token_vector, self.current_token);
        self.current_token = q;
        r
    }

    /// Parses the one statement that starts at the current position and moves past it.
    pub fn check_statement(&mut self) -> (r: Result<Statement, ParseError>)
        requires
            old(self).wf(),
        ensures
            final(self).wf(),
            final(self).tokens() == old(self).tokens(),
            stmt_result(r) == parse_statement(old(self).tokens(), old(self).position()).0,
            final(self).position() == parse_statement(old(self).tokens(), old(self).position()).1,
    {
        let (r, q) = statement(&self.token_vector, self.current_token);
        self.current_token = q;
        r
    }
}

} // verus!
