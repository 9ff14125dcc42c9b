use vstd::prelude::*;
use crate::ast::{ExprView, StmtView};
use crate::tokens::{Keywords, TokenView};

verus! {

/// Why a token sequence is not a program.
#[derive(Debug, Clone, Copy, PartialEq, Eq, Structural)]
pub enum ParseError {
    /// An `Illegal` token stands where a token was needed.
    LexicalError,
    /// A token of another class stands where a specific one was needed.
    UnexpectedToken,
    /// No expression can start with the current token.
    ExpectedExpression,
    /// The input ended while more was needed.
    EndOfInput,
}

/// The token at `p`; past either end the input reads as `EndOfLine`.
pub open spec fn tok(t: Seq<TokenView>, p: int) -> TokenView {
    if 0 <= p < t.len() {
        t[p]
    } else {
        TokenView::EndOfLine
    }
}

/// The error for finding `found` where some other token was needed.
pub open spec fn mismatch(found: TokenView) -> ParseError {
    match found {
        TokenView::EndOfLine => ParseError::EndOfInput,
        TokenView::Illegal => ParseError::LexicalError,
        _ => ParseError::UnexpectedToken,
    }
}

/// Binding power of an infix operator; 0 for a token that is not one.
pub open spec fn precedence(op: TokenView) -> int {
    match op {
        TokenView::Operator(c) => if c == '+' || c == '-' {
            2
        } else if c == '*' || c == '/' {
            3
        } else {
            0
        },
        TokenView::Compare(_) => 1,
        _ => 0,
    }
}

// Each parse function returns its result and the position after what it
// consumed. A successful sub-parse always consumes at least one token; where
// a recursion depends on that, the definition tests it (`p < q`) so that its
// termination is evident, and treats the impossible other case as an error.

pub type ExprStep = (Result<ExprView, ParseError>, int);

pub type ExprsStep = (Result<Seq<ExprView>, ParseError>, int);

pub type PairsStep = (Result<(Seq<ExprView>, Seq<ExprView>), ParseError>, int);

pub type StmtStep = (Result<StmtView, ParseError>, int);

pub type StmtsStep = (Result<Seq<StmtView>, ParseError>, int);

pub type NamesStep = (Result<Seq<Seq<char>>, ParseError>, int);

/// Formal parameters `a, b, c)` starting at `p`, up to and including `)`.
pub open spec fn parse_params_tail(t: Seq<TokenView>, p: int) -> NamesStep
    decreases t.len() - p,
{
    match tok(t, p) {
        TokenView::Identifier(n) => match tok(t, p + 1) {
            TokenView::Comma => {
                let (r, q) = parse_params_tail(t, p + 2);
                match r {
                    Ok(rest) => (Ok(seq![n] + rest), q),
                    Err(e) => (Err(e), q),
                }
            },
            TokenView::Operator(c) if c == ')' => (Ok(seq![n]), p + 2),
            other => (Err(mismatch(other)), p + 1),
        },
        other => (Err(mismatch(other)), p),
    }
}

/// A parameter list after its `(`, up to and including `)`.
pub open spec fn parse_params(t: Seq<TokenView>, p: int) -> NamesStep {
    if tok(t, p) == TokenView::Operator(')') {
        (Ok(Seq::empty()), p + 1)
    } else {
        parse_params_tail(t, p)
    }
}

/// Precedence climbing: extends `left`, which ends before `q`, with every
/// operator whose binding power exceeds `min`. All operators associate left.
pub open spec fn parse_infix(t: Seq<TokenView>, min: int, left: ExprView, q: int) -> ExprStep
    decreases t.len() - q, 0int,
{
    let op = tok(t, q);
    let prec = precedence(op);
    if prec > min && q < t.len() {
        let (r, q1) = parse_prefix(t, q + 1);
        match r {
            Err(e) => (Err(e), q1),
            Ok(right0) => if q < q1 <= t.len() {
                let (r2, q2) = parse_infix(t, prec, right0, q1);
                match r2 {
                    Err(e) => (Err(e), q2),
                    Ok(right) => if q < q2 <= t.len() {
                        parse_infix(
                            t,
                            min,
                            ExprView::InfixOp {
                                left: Box::new(left),
                                operator: op,
                                right: Box::new(right),
                            },
                            q2,
                        )
                    } else {
                        (Err(ParseError::UnexpectedToken), q2)
                    },
                }
            } else {
                (Err(ParseError::UnexpectedToken), q1)
            },
        }
    } else {
        (Ok(left), q)
    }
}

/// An operand: a literal, a name, an index, a call, a group, an array, a
/// map, a prefix operator applied to an operand, an `if` or a `fn`.
pub open spec fn parse_prefix(t: Seq<TokenView>, p: int) -> ExprStep
    decreases t.len() - p, 2int,
{
    match tok(t, p) {
        TokenView::NumbersInt(n) => (Ok(ExprView::NumberLit { number: n }), p + 1),
        TokenView::NumbersFloat(x) => (Ok(ExprView::FloatLit { text: x }), p + 1),
        TokenView::Strings(x) => (Ok(ExprView::StringLit { string: x }), p + 1),
        TokenView::Keywords(Keywords::True) => (Ok(ExprView::BoolExp { value: true }), p + 1),
        TokenView::Keywords(Keywords::False) => (Ok(ExprView::BoolExp { value: false }), p + 1),
        TokenView::Identifier(name) => if tok(t, p + 1) == TokenView::Delim('[') {
            let (r, q) = parse_expression(t, p + 2);
            match r {
                Err(e) => (Err(e), q),
                Ok(index) => if tok(t, q) == TokenView::Delim(']') {
                    (
                        Ok(
                            ExprView::IndexExpression {
                                left: Box::new(ExprView::IdentifierLit { name }),
                                right: Box::new(index),
                            },
                        ),
                        q + 1,
                    )
                } else {
                    (Err(mismatch(tok(t, q))), q)
                },
            }
        } else if tok(t, p + 1) == TokenView::Operator('(') {
            let (r, q) = parse_list(t, p + 2, TokenView::Operator(')'));
            match r {
                Err(e) => (Err(e), q),
                Ok(args) => (Ok(ExprView::CallExpr { identifier: name, parameters: args }), q),
            }
        } else {
            (Ok(ExprView::IdentifierLit { name }), p + 1)
        },
        TokenView::Operator(c) if c == '(' => {
            let (r, q) = parse_expression(t, p + 1);
            match r {
                Err(e) => (Err(e), q),
                Ok(e) => if tok(t, q) == TokenView::Operator(')') {
                    (Ok(e), q + 1)
                } else {
                    (Err(mismatch(tok(t, q))), q)
                },
            }
        },
        TokenView::Delim(c) if c == '[' => {
            let (r, q) = parse_list(t, p + 1, TokenView::Delim(']'));
            match r {
                Err(e) => (Err(e), q),
                Ok(elements) => (Ok(ExprView::ArrayLit { elements }), q),
            }
        },
        TokenView::Delim(c) if c == '{' => {
            let (r, q) = parse_pairs(t, p + 1);
            match r {
                Err(e) => (Err(e), q),
                Ok(kv) => (Ok(ExprView::HashMap { keys: kv.0, values: kv.1 }), q),
            }
        },
        TokenView::Operator(c) if c == '-' => {
            let (r, q) = parse_prefix(t, p + 1);
            match r {
                Err(e) => (Err(e), q),
                Ok(e) => (
                    Ok(ExprView::Prefix { operator: TokenView::Operator('-'), right: Box::new(e) }),
                    q,
                ),
            }
        },
        TokenView::Bang => {
            let (r, q) = parse_prefix(t, p + 1);
            match r {
                Err(e) => (Err(e), q),
                Ok(e) => (Ok(ExprView::Prefix { operator: TokenView::Bang, right: Box::new(e) }), q),
            }
        },
        TokenView::Keywords(Keywords::If) => parse_if(t, p),
        TokenView::Keywords(Keywords::Function) => parse_function(t, p),
        TokenView::EndOfLine => (Err(ParseError::EndOfInput), p),
        TokenView::Illegal => (Err(ParseError::LexicalError), p),
        _ => (Err(ParseError::ExpectedExpression), p),
    }
}

/// A full expression: an operand followed by any infix tail.
pub open spec fn parse_expression(t: Seq<TokenView>, p: int) -> ExprStep
    decreases t.len() - p, 3int,
{
    let (r, q) = parse_prefix(t, p);
    match r {
        Err(e) => (Err(e), q),
        Ok(left) => if p < q <= t.len() {
            parse_infix(t, 0, left, q)
        } else {
            (Err(ParseError::UnexpectedToken), q)
        },
    }
}

/// One or more comma-separated expressions, up to and including `close`.
pub open spec fn parse_list_tail(t: Seq<TokenView>, p: int, close: TokenView) -> ExprsStep
    decreases t.len() - p, 4int,
{
    let (r, q) = parse_expression(t, p);
    match r {
        Err(e) => (Err(e), q),
        Ok(e) => if tok(t, q) == TokenView::Comma {
            if p < q < t.len() {
                let (r2, q2) = parse_list_tail(t, q + 1, close);
                match r2 {
                    Err(x) => (Err(x), q2),
                    Ok(rest) => (Ok(seq![e] + rest), q2),
                }
            } else {
                (Err(ParseError::UnexpectedToken), q)
            }
        } else if tok(t, q) == close {
            (Ok(seq![e]), q + 1)
        } else {
            (Err(mismatch(tok(t, q))), q)
        },
    }
}

/// Zero or more comma-separated expressions, up to and including `close`.
pub open spec fn parse_list(t: Seq<TokenView>, p: int, close: TokenView) -> ExprsStep
    decreases t.len() - p, 5int,
{
    if tok(t, p) == close {
        (Ok(Seq::empty()), p + 1)
    } else {
        parse_list_tail(t, p, close)
    }
}

/// One or more `key : value` pairs separated by commas, up to and including `}`.
pub open spec fn parse_pairs_tail(t: Seq<TokenView>, p: int) -> PairsStep
    decreases t.len() - p, 4int,
{
    let (r, q) = parse_expression(t, p);
    match r {
        Err(e) => (Err(e), q),
        Ok(k) => if tok(t, q) != TokenView::Colon {
            (Err(mismatch(tok(t, q))), q)
        } else if !(p < q < t.len()) {
            (Err(ParseError::UnexpectedToken), q)
        } else {
            let (r2, q2) = parse_expression(t, q + 1);
            match r2 {
                Err(e) => (Err(e), q2),
                Ok(v) => if tok(t, q2) == TokenView::Comma {
                    if p < q2 < t.len() {
                        let (r3, q3) = parse_pairs_tail(t, q2 + 1);
                        match r3 {
                            Err(e) => (Err(e), q3),
                            Ok(kv) => (Ok((seq![k] + kv.0, seq![v] + kv.1)), q3),
                        }
                    } else {
                        (Err(ParseError::UnexpectedToken), q2)
                    }
                } else if tok(t, q2) == TokenView::Delim('}') {
                    (Ok((seq![k], seq![v])), q2 + 1)
                } else {
                    (Err(mismatch(tok(t, q2))), q2)
                },
            }
        },
    }
}

/// The body of a map literal after its `{`, up to and including `}`.
pub open spec fn parse_pairs(t: Seq<TokenView>, p: int) -> PairsStep
    decreases t.len() - p, 5int,
{
    if tok(t, p) == TokenView::Delim('}') {
        (Ok((Seq::empty(), Seq::empty())), p + 1)
    } else {
        parse_pairs_tail(t, p)
    }
}

/// `if ( COND ) { BLOCK } [ else { BLOCK } ]` starting at the `if`.
pub open spec fn parse_if(t: Seq<TokenView>, p: int) -> ExprStep
    decreases t.len() - p, 1int,
{
    if tok(t, p + 1) != TokenView::Operator('(') {
        (Err(mismatch(tok(t, p + 1))), p + 1)
    } else if !(p + 2 <= t.len()) {
        (Err(ParseError::EndOfInput), p + 1)
    } else {
        let (r, q) = parse_expression(t, p + 2);
        match r {
            Err(e) => (Err(e), q),
            Ok(c) => if tok(t, q) != TokenView::Operator(')') {
                (Err(mismatch(tok(t, q))), q)
            } else if tok(t, q + 1) != TokenView::Delim('{') {
                (Err(mismatch(tok(t, q + 1))), q + 1)
            } else if !(p < q && q + 2 <= t.len()) {
                (Err(ParseError::UnexpectedToken), q)
            } else {
                let (r2, q2) = parse_block(t, q + 2);
                match r2 {
                    Err(e) => (Err(e), q2),
                    Ok(consequence) => if tok(t, q2) == TokenView::Keywords(Keywords::Else) {
                        if tok(t, q2 + 1) != TokenView::Delim('{') {
                            (Err(mismatch(tok(t, q2 + 1))), q2 + 1)
                        } else if !(p < q2 && q2 + 2 <= t.len()) {
                            (Err(ParseError::UnexpectedToken), q2)
                        } else {
                            let (r3, q3) = parse_block(t, q2 + 2);
                            match r3 {
                                Err(e) => (Err(e), q3),
                                Ok(alt) => (
                                    Ok(
                                        ExprView::IfExpr {
                                            condition: Box::new(c),
                                            consequence,
                                            other: Some(alt),
                                        },
                                    ),
                                    q3,
                                ),
                            }
                        }
                    } else {
                        (
                            Ok(
                                ExprView::IfExpr {
                                    condition: Box::new(c),
                                    consequence,
                                    other: None,
                                },
                            ),
                            q2,
                        )
                    },
                }
            },
        }
    }
}

/// `fn NAME ( PARAMS ) { BLOCK }` starting at the `fn`.
pub open spec fn parse_function(t: Seq<TokenView>, p: int) -> ExprStep
    decreases t.len() - p, 1int,
{
    match tok(t, p + 1) {
        TokenView::Identifier(name) => if tok(t, p + 2) != TokenView::Operator('(') {
            (Err(mismatch(tok(t, p + 2))), p + 2)
        } else {
            let (r, q) = parse_params(t, p + 3);
            match r {
                Err(e) => (Err(e), q),
                Ok(params) => if tok(t, q) != TokenView::Delim('{') {
                    (Err(mismatch(tok(t, q))), q)
                } else if !(p < q && q + 1 <= t.len()) {
                    (Err(ParseError::UnexpectedToken), q)
                } else {
                    let (r2, q2) = parse_block(t, q + 1);
                    match r2 {
                        Err(e) => (Err(e), q2),
                        Ok(body) => (
                            Ok(ExprView::FunctionExpr { identifier: name, parameters: params, body }),
                            q2,
                        ),
                    }
                },
            }
        },
        other => (Err(mismatch(other)), p + 1),
    }
}

/// An expression followed by `;`, which is consumed.
pub open spec fn parse_until_semicolon(t: Seq<TokenView>, p: int) -> ExprStep
    decreases t.len() - p, 4int,
{
    let (r, q) = parse_expression(t, p);
    match r {
        Err(e) => (Err(e), q),
        Ok(e) => if tok(t, q) == TokenView::Semicolon {
            (Ok(e), q + 1)
        } else {
            (Err(mismatch(tok(t, q))), q)
        },
    }
}

/// `var NAME = EXPR ;` or `const NAME = EXPR ;` starting at the keyword.
pub open spec fn parse_declaration(t: Seq<TokenView>, p: int, is_var: bool) -> StmtStep
    decreases t.len() - p, 4int,
{
    match tok(t, p + 1) {
        TokenView::Identifier(name) => if tok(t, p + 2) != TokenView::Operator('=') {
            (Err(mismatch(tok(t, p + 2))), p + 2)
        } else {
            let (r, q) = parse_until_semicolon(t, p + 3);
            match r {
                Err(e) => (Err(e), q),
                Ok(value) => if is_var {
                    (Ok(StmtView::VarStatement { name, value }), q)
                } else {
                    (Ok(StmtView::ConstStatement { name, value }), q)
                },
            }
        },
        other => (Err(mismatch(other)), p + 1),
    }
}

/// `NAME op= EXPR ;`, which rebinds `NAME` to `NAME op EXPR`.
pub open spec fn parse_compound(t: Seq<TokenView>, p: int, name: Seq<char>) -> StmtStep
    decreases t.len() - p, 4int,
{
    let (r, q) = if p + 2 <= t.len() {
        parse_until_semicolon(t, p + 2)
    } else {
        (Err(ParseError::EndOfInput), p + 1)
    };
    match r {
        Err(e) => (Err(e), q),
        Ok(rhs) => (
            Ok(
                StmtView::ExpressionStatement {
                    value: ExprView::VarChange {
                        identifier: name,
                        right: Box::new(
                            ExprView::CompoundOperation {
                                identifier: name,
                                operator: tok(t, p + 1),
                                right: Box::new(rhs),
                            },
                        ),
                    },
                },
            ),
            q,
        ),
    }
}

/// An `if` or `fn` expression standing as a statement; a `;` after it is optional.
pub open spec fn parse_keyword_expression(t: Seq<TokenView>, p: int) -> StmtStep
    decreases t.len() - p, 4int,
{
    let (r, q) = parse_prefix(t, p);
    match r {
        Err(e) => (Err(e), q),
        Ok(value) => (
            Ok(StmtView::ExpressionStatement { value }),
            if tok(t, q) == TokenView::Semicolon {
                q + 1
            } else {
                q
            },
        ),
    }
}

/// One statement starting at `p`.
pub open spec fn parse_statement(t: Seq<TokenView>, p: int) -> StmtStep
    decreases t.len() - p, 5int,
{
    let c = tok(t, p);
    if c == TokenView::Keywords(Keywords::Var) {
        parse_declaration(t, p, true)
    } else if c == TokenView::Keywords(Keywords::Const) {
        parse_declaration(t, p, false)
    } else if c == TokenView::Keywords(Keywords::Return) {
        let (r, q) = parse_until_semicolon(t, p + 1);
        match r {
            Err(e) => (Err(e), q),
            Ok(value) => (Ok(StmtView::ReturnStatement { value }), q),
        }
    } else if c == TokenView::Keywords(Keywords::If) || c == TokenView::Keywords(Keywords::Function) {
        parse_keyword_expression(t, p)
    } else if c is Identifier && tok(t, p + 1) is CompoundOperator {
        parse_compound(t, p, c->Identifier_0)
    } else {
        let (r, q) = parse_until_semicolon(t, p);
        match r {
            Err(e) => (Err(e), q),
            Ok(value) => (Ok(StmtView::ExpressionStatement { value }), q),
        }
    }
}

/// Statements up to and including the `}` that closes a block.
pub open spec fn parse_block(t: Seq<TokenView>, p: int) -> StmtsStep
    decreases t.len() - p, 6int,
{
    match tok(t, p) {
        TokenView::Comment => parse_block(t, p + 1),
        TokenView::Delim(c) if c == '}' => (Ok(Seq::empty()), p + 1),
        TokenView::EndOfLine => (Err(ParseError::EndOfInput), p),
        _ => {
            let (r, q) = parse_statement(t, p);
            match r {
                Err(e) => (Err(e), q),
                Ok(s) => if p < q <= t.len() {
                    let (r2, q2) = parse_block(t, q);
                    match r2 {
                        Err(e) => (Err(e), q2),
                        Ok(rest) => (Ok(seq![s] + rest), q2),
                    }
                } else {
                    (Err(ParseError::UnexpectedToken), q)
                },
            }
        },
    }
}

/// Statements up to the first `EndOfLine`, which is not consumed.
pub open spec fn parse_program(t: Seq<TokenView>, p: int) -> StmtsStep
    decreases t.len() - p, 6int,
{
    match tok(t, p) {
        TokenView::Comment => parse_program(t, p + 1),
        TokenView::EndOfLine => (Ok(Seq::empty()), p),
        _ => {
            let (r, q) = parse_statement(t, p);
            match r {
                Err(e) => (Err(e), q),
                Ok(s) => if p < q <= t.len() {
                    let (r2, q2) = parse_program(t, q);
                    match r2 {
                        Err(e) => (Err(e), q2),
                        Ok(rest) => (Ok(seq![s] + rest), q2),
                    }
                } else {
                    (Err(ParseError::UnexpectedToken), q)
                },
            }
        },
    }
}

/// The statements of a whole token sequence.
pub open spec fn parse(t: Seq<TokenView>) -> Result<Seq<StmtView>, ParseError> {
    parse_program(t, 0).0
}

} // verus!
