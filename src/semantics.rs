use vstd::prelude::*;
use crate::ast::{ExprView, StmtView};
use crate::object::{EvalError, ObjView, builtin_call};
use crate::tokens::{Comparison, TokenView};

verus! {

/// The most nested user-function calls that evaluation will enter.
pub const MAX_CALL_DEPTH: usize = 32;

/// What evaluation reads and changes: the bindings and the printed values.
pub ghost struct EvalState {
    pub env: Map<Seq<char>, ObjView>,
    pub out: Seq<ObjView>,
}

pub type ExprOutcome = (EvalState, Result<ObjView, EvalError>);

/// A statement's value and whether it was a `return` (or held one that fired).
pub type StmtOutcome = (EvalState, Result<(ObjView, bool), EvalError>);

pub type ListOutcome = (EvalState, Result<Seq<ObjView>, EvalError>);

pub open spec fn compare(k: Comparison, a: int, b: int) -> bool {
    match k {
        Comparison::Less => a < b,
        Comparison::Greater => a > b,
        Comparison::LessE => a <= b,
        Comparison::GreaterE => a >= b,
        Comparison::Equal => a == b,
        Comparison::NotEqual => a != b,
    }
}

/// An integer result, or `IntegerOverflow` when it does not fit an `i32`.
pub open spec fn checked(v: int) -> Result<ObjView, EvalError> {
    if i32::MIN <= v <= i32::MAX {
        Ok(ObjView::Integer(v as i32))
    } else {
        Err(EvalError::IntegerOverflow)
    }
}

/// Integer division rounding toward zero.
pub open spec fn trunc_div(a: int, b: int) -> int {
    let q = (if a < 0 { -a } else { a }) / (if b < 0 { -b } else { b });
    if (a < 0) != (b < 0) {
        -q
    } else {
        q
    }
}

/// The value of `l op r` for already evaluated operands.
pub open spec fn infix_value(op: TokenView, l: ObjView, r: ObjView) -> Result<ObjView, EvalError> {
    match (l, r) {
        (ObjView::Integer(a), ObjView::Integer(b)) => match op {
            TokenView::Operator(c) => if c == '+' {
                checked(a + b)
            } else if c == '-' {
                checked(a - b)
            } else if c == '*' {
                checked(a * b)
            } else if c == '/' {
                if b == 0 {
                    Err(EvalError::DivisionByZero)
                } else {
                    checked(trunc_div(a as int, b as int))
                }
            } else {
                Err(EvalError::UnknownOperator)
            },
            TokenView::Compare(k) => Ok(ObjView::Boolean(compare(k, a as int, b as int))),
            _ => Err(EvalError::UnknownOperator),
        },
        (ObjView::String(a), ObjView::String(b)) => if op == TokenView::Operator('+') {
            Ok(ObjView::String(a + b))
        } else {
            Err(EvalError::UnknownOperator)
        },
        _ => Err(EvalError::OperandTypeMismatch),
    }
}

/// The value of a prefix operator applied to an evaluated operand.
pub open spec fn prefix_value(op: TokenView, v: ObjView) -> Result<ObjView, EvalError> {
    if op == TokenView::Bang {
        match v {
            ObjView::Boolean(b) => Ok(ObjView::Boolean(!b)),
            _ => Err(EvalError::OperandTypeMismatch),
        }
    } else if op == TokenView::Operator('-') {
        match v {
            ObjView::Integer(n) => checked(-n),
            _ => Err(EvalError::OperandTypeMismatch),
        }
    } else {
        Err(EvalError::UnknownOperator)
    }
}

/// The element of an array at an integer index.
pub open spec fn index_value(c: ObjView, i: ObjView) -> Result<ObjView, EvalError> {
    match (c, i) {
        (ObjView::Array(a), ObjView::Integer(k)) => if 0 <= k < a.len() {
            Ok(a[k as int])
        } else {
            Err(EvalError::IndexOutOfRange)
        },
        _ => Err(EvalError::OperandTypeMismatch),
    }
}

/// `env` with each parameter bound to its argument, left to right.
pub open spec fn bind(env: Map<Seq<char>, ObjView>, ps: Seq<Seq<char>>, vs: Seq<ObjView>) -> Map<
    Seq<char>,
    ObjView,
>
    decreases ps.len(),
{
    if ps.len() == 0 || vs.len() == 0 {
        env
    } else {
        bind(env, ps.drop_last(), vs.drop_last()).insert(ps.last(), vs.last())
    }
}

/// `env` without any binding of the parameters.
pub open spec fn unbind(env: Map<Seq<char>, ObjView>, ps: Seq<Seq<char>>) -> Map<Seq<char>, ObjView>
    decreases ps.len(),
{
    if ps.len() == 0 {
        env
    } else {
        unbind(env, ps.drop_last()).remove(ps.last())
    }
}

/// The callee that a call of `name` reaches: its binding, else the built-in of that name.
pub open spec fn callee(env: Map<Seq<char>, ObjView>, name: Seq<char>) -> ObjView {
    if env.contains_key(name) {
        env[name]
    } else {
        ObjView::BuiltIn(name)
    }
}

/// Evaluation of an expression with at most `fuel` nested user-function calls.
pub open spec fn eval_expr(st: EvalState, e: ExprView, fuel: nat) -> ExprOutcome
    decreases fuel, e, 1int,
{
    match e {
        ExprView::NumberLit { number } => (st, Ok(ObjView::Integer(number))),
        ExprView::FloatLit { text } => (st, Ok(ObjView::Float(text))),
        ExprView::StringLit { string } => (st, Ok(ObjView::String(string))),
        ExprView::BoolExp { value } => (st, Ok(ObjView::Boolean(value))),
        ExprView::IdentifierLit { name } => if st.env.contains_key(name) {
            (st, Ok(st.env[name]))
        } else {
            (st, Err(EvalError::IdentifierNotFound))
        },
        ExprView::ArrayLit { elements } => {
            let (s1, r) = eval_list(st, elements, 0, fuel);
            match r {
                Ok(vs) => (s1, Ok(ObjView::Array(vs))),
                Err(x) => (s1, Err(x)),
            }
        },
        ExprView::HashMap { .. } => (st, Err(EvalError::UnsupportedOperation)),
        ExprView::IndexExpression { left, right } => {
            let (s1, r1) = eval_expr(st, *left, fuel);
            match r1 {
                Err(x) => (s1, Err(x)),
                Ok(c) => {
                    let (s2, r2) = eval_expr(s1, *right, fuel);
                    match r2 {
                        Err(x) => (s2, Err(x)),
                        Ok(i) => (s2, index_value(c, i)),
                    }
                },
            }
        },
        ExprView::IfExpr { .. } => {
            let (s1, r) = eval_if(st, e, fuel);
            match r {
                Ok(vr) => (s1, Ok(vr.0)),
                Err(x) => (s1, Err(x)),
            }
        },
        ExprView::FunctionExpr { identifier, parameters, body } => {
            let f = ObjView::Function { parameters, body };
            (EvalState { env: st.env.insert(identifier, f), out: st.out }, Ok(f))
        },
        ExprView::InfixOp { left, operator, right } => {
            let (s1, r1) = eval_expr(st, *left, fuel);
            match r1 {
                Err(x) => (s1, Err(x)),
                Ok(l) => {
                    let (s2, r2) = eval_expr(s1, *right, fuel);
                    match r2 {
                        Err(x) => (s2, Err(x)),
                        Ok(r) => (s2, infix_value(operator, l, r)),
                    }
                },
            }
        },
        ExprView::Prefix { operator, right } => {
            let (s1, r1) = eval_expr(st, *right, fuel);
            match r1 {
                Err(x) => (s1, Err(x)),
                Ok(v) => (s1, prefix_value(operator, v)),
            }
        },
        ExprView::VarChange { identifier, right } => {
            let (s1, r1) = eval_expr(st, *right, fuel);
            match r1 {
                Err(x) => (s1, Err(x)),
                Ok(v) => (EvalState { env: s1.env.insert(identifier, v), out: s1.out }, Ok(v)),
            }
        },
        ExprView::CompoundOperation { identifier, operator, right } => if !st.env.contains_key(
            identifier,
        ) {
            (st, Err(EvalError::IdentifierNotFound))
        } else {
            let cur = st.env[identifier];
            let (s1, r1) = eval_expr(st, *right, fuel);
            match r1 {
                Err(x) => (s1, Err(x)),
                Ok(v) => match operator {
                    TokenView::CompoundOperator(c) => (
                        s1,
                        infix_value(TokenView::Operator(c), cur, v),
                    ),
                    _ => (s1, Err(EvalError::UnknownOperator)),
                },
            }
        },
        ExprView::CallExpr { identifier, parameters } => {
            let f = callee(st.env, identifier);
            let (s1, r1) = eval_list(st, parameters, 0, fuel);
            match r1 {
                Err(x) => (s1, Err(x)),
                Ok(args) => match f {
                    ObjView::Function { parameters: ps, body } => if fuel == 0 {
                        (s1, Err(EvalError::CallDepthExceeded))
                    } else if ps.len() != args.len() {
                        (s1, Err(EvalError::ArityMismatch))
                    } else {
                        let s2 = EvalState { env: bind(s1.env, ps, args), out: s1.out };
                        let (s3, r3) = eval_block(s2, body, 0, (fuel - 1) as nat);
                        match r3 {
                            Err(x) => (s3, Err(x)),
                            Ok(vr) => (EvalState { env: unbind(s3.env, ps), out: s3.out }, Ok(vr.0)),
                        }
                    },
                    ObjView::BuiltIn(n) => {
                        let (out, r) = builtin_call(n, args, s1.out);
                        (EvalState { env: s1.env, out }, r)
                    },
                    _ => (s1, Err(EvalError::NotCallable)),
                },
            }
        },
    }
}

/// An `if` expression: the block chosen by a boolean condition; with no
/// `else` a false condition gives `Boolean(false)`.
pub open spec fn eval_if(st: EvalState, e: ExprView, fuel: nat) -> StmtOutcome
    decreases fuel, e, 0int,
{
    match e {
        ExprView::IfExpr { condition, consequence, other } => {
            let (s1, r1) = eval_expr(st, *condition, fuel);
            match r1 {
                Err(x) => (s1, Err(x)),
                Ok(ObjView::Boolean(true)) => eval_block(s1, consequence, 0, fuel),
                Ok(ObjView::Boolean(false)) => match other {
                    Some(alt) => eval_block(s1, alt, 0, fuel),
                    None => (s1, Ok((ObjView::Boolean(false), false))),
                },
                Ok(_) => (s1, Err(EvalError::NonBooleanCondition)),
            }
        },
        _ => (st, Err(EvalError::UnsupportedOperation)),
    }
}

/// A statement. A `return`, or an `if` statement whose block returned,
/// reports that it returned.
pub open spec fn eval_stmt(st: EvalState, s: StmtView, fuel: nat) -> StmtOutcome
    decreases fuel, s, 2int,
{
    match s {
        StmtView::VarStatement { name, value } | StmtView::ConstStatement { name, value } => {
            let (s1, r) = eval_expr(st, value, fuel);
            match r {
                Err(x) => (s1, Err(x)),
                Ok(v) => (EvalState { env: s1.env.insert(name, v), out: s1.out }, Ok((v, false))),
            }
        },
        StmtView::ReturnStatement { value } => {
            let (s1, r) = eval_expr(st, value, fuel);
            match r {
                Err(x) => (s1, Err(x)),
                Ok(v) => (s1, Ok((v, true))),
            }
        },
        StmtView::ExpressionStatement { value } => if value is IfExpr {
            eval_if(st, value, fuel)
        } else {
            let (s1, r) = eval_expr(st, value, fuel);
            match r {
                Err(x) => (s1, Err(x)),
                Ok(v) => (s1, Ok((v, false))),
            }
        },
    }
}

/// The statements of a block from index `i` on: they run in order until one
/// returns or fails; the block's value is that of the last one run.
pub open spec fn eval_block(st: EvalState, b: Seq<StmtView>, i: int, fuel: nat) -> StmtOutcome
    decreases fuel, b, b.len() - i,
{
    if i < 0 || i >= b.len() {
        (st, Err(EvalError::EmptyBlock))
    } else {
        let (s1, r) = eval_stmt(st, b[i], fuel);
        match r {
            Err(x) => (s1, Err(x)),
            Ok(vr) => if vr.1 || i + 1 == b.len() {
                (s1, Ok(vr))
            } else {
                eval_block(s1, b, i + 1, fuel)
            },
        }
    }
}

/// The expressions of a list from index `i` on, evaluated left to right.
pub open spec fn eval_list(st: EvalState, es: Seq<ExprView>, i: int, fuel: nat) -> ListOutcome
    decreases fuel, es, es.len() - i,
{
    if i < 0 || i >= es.len() {
        (st, Ok(Seq::empty()))
    } else {
        let (s1, r) = eval_expr(st, es[i], fuel);
        match r {
            Err(x) => (s1, Err(x)),
            Ok(v) => {
                let (s2, r2) = eval_list(s1, es, i + 1, fuel);
                match r2 {
                    Err(x) => (s2, Err(x)),
                    Ok(vs) => (s2, Ok(seq![v] + vs)),
                }
            },
        }
    }
}

} // verus!
