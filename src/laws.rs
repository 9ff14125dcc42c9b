use vstd::prelude::*;
use crate::ast::{ExprView, StmtView};
use crate::object::{EvalError, ObjView};
use crate::semantics::{EvalState, bind, compare, infix_value, eval_block, eval_expr, eval_list, eval_stmt, trunc_div};
use crate::grammar::{ParseError, parse_program, parse_statement, tok};
use crate::tokens::{Comparison, TokenView};

verus! {

/// Expressions built only from literals and operators.
pub open spec fn literal_only(e: ExprView) -> bool
    decreases e,
{
    match e {
        ExprView::NumberLit { .. } => true,
        ExprView::FloatLit { .. } => true,
        ExprView::StringLit { .. } => true,
        ExprView::BoolExp { .. } => true,
        ExprView::InfixOp { left, right, .. } => literal_only(*left) && literal_only(*right),
        ExprView::Prefix { right, .. } => literal_only(*right),
        _ => false,
    }
}

/// An expression made of literals and operators changes nothing, and its
/// result is the same in every state and at every call depth.
pub proof fn lemma_literal_purity(e: ExprView, st1: EvalState, st2: EvalState, f1: nat, f2: nat)
    requires
        literal_only(e),
    ensures
        eval_expr(st1, e, f1).0 == st1,
        eval_expr(st1, e, f1).1 == eval_expr(st2, e, f2).1,
    decreases e,
{
    match e {
        ExprView::InfixOp { left, operator, right } => {
            lemma_literal_purity(*left, st1, st2, f1, f2);
            lemma_literal_purity(*right, st1, st2, f1, f2);
            lemma_literal_purity(*left, st2, st1, f2, f1);
            lemma_literal_purity(*right, st2, st1, f2, f1);
            let r1 = eval_expr(st1, *left, f1).1;
            let r2 = eval_expr(st1, *right, f1).1;
            assert(eval_expr(st2, *left, f2) == (st2, r1));
            assert(eval_expr(st2, *right, f2) == (st2, r2));
            assert(eval_expr(st1, *left, f1) == (st1, r1));
            assert(eval_expr(st1, *right, f1) == (st1, r2));
        },
        ExprView::Prefix { right, .. } => {
            lemma_literal_purity(*right, st1, st2, f1, f2);
            lemma_literal_purity(*right, st2, st1, f2, f1);
            let r1 = eval_expr(st1, *right, f1).1;
            assert(eval_expr(st2, *right, f2) == (st2, r1));
            assert(eval_expr(st1, *right, f1) == (st1, r1));
        },
        _ => {},
    }
}

/// `a op b` on two integer literals.
pub open spec fn int_infix(a: i32, op: TokenView, b: i32) -> ExprView {
    ExprView::InfixOp {
        left: Box::new(ExprView::NumberLit { number: a }),
        operator: op,
        right: Box::new(ExprView::NumberLit { number: b }),
    }
}

/// An operator applied to two integer literals gives `infix_value` of
/// their values and changes nothing.
pub proof fn lemma_integer_infix(st: EvalState, a: i32, op: TokenView, b: i32, fuel: nat)
    ensures
        eval_expr(st, int_infix(a, op, b), fuel) == (st, infix_value(
            op,
            ObjView::Integer(a),
            ObjView::Integer(b),
        )),
{
    assert(eval_expr(st, ExprView::NumberLit { number: a }, fuel) == (st, Ok::<ObjView, EvalError>(
        ObjView::Integer(a),
    )));
    assert(eval_expr(st, ExprView::NumberLit { number: b }, fuel) == (st, Ok::<ObjView, EvalError>(
        ObjView::Integer(b),
    )));
}

/// Integer arithmetic is exact whenever the result fits an `i32`; division
/// rounds toward zero.
pub proof fn lemma_integer_arithmetic(st: EvalState, a: i32, b: i32, fuel: nat)
    ensures
        i32::MIN <= a + b <= i32::MAX ==> eval_expr(st, int_infix(a, TokenView::Operator('+'), b), fuel)
            == (st, Ok::<ObjView, EvalError>(ObjView::Integer((a + b) as i32))),
        i32::MIN <= a - b <= i32::MAX ==> eval_expr(st, int_infix(a, TokenView::Operator('-'), b), fuel)
            == (st, Ok::<ObjView, EvalError>(ObjView::Integer((a - b) as i32))),
        i32::MIN <= a * b <= i32::MAX ==> eval_expr(st, int_infix(a, TokenView::Operator('*'), b), fuel)
            == (st, Ok::<ObjView, EvalError>(ObjView::Integer((a * b) as i32))),
        b != 0 && i32::MIN <= trunc_div(a as int, b as int) <= i32::MAX ==> eval_expr(
            st,
            int_infix(a, TokenView::Operator('/'), b),
            fuel,
        ) == (st, Ok::<ObjView, EvalError>(ObjView::Integer(trunc_div(a as int, b as int) as i32))),
{
    lemma_integer_infix(st, a, TokenView::Operator('+'), b, fuel);
    lemma_integer_infix(st, a, TokenView::Operator('-'), b, fuel);
    lemma_integer_infix(st, a, TokenView::Operator('*'), b, fuel);
    lemma_integer_infix(st, a, TokenView::Operator('/'), b, fuel);
}

/// Comparing two integer literals gives the boolean of the comparison.
pub proof fn lemma_integer_comparison(st: EvalState, a: i32, b: i32, k: Comparison, fuel: nat)
    ensures
        eval_expr(st, int_infix(a, TokenView::Compare(k), b), fuel) == (st, Ok::<ObjView, EvalError>(
            ObjView::Boolean(compare(k, a as int, b as int)),
        )),
        compare(Comparison::Equal, a as int, b as int) == (a == b),
        compare(Comparison::NotEqual, a as int, b as int) == (a != b),
        compare(Comparison::Less, a as int, b as int) == (a < b),
        compare(Comparison::LessE, a as int, b as int) == (a <= b),
        compare(Comparison::Greater, a as int, b as int) == (a > b),
        compare(Comparison::GreaterE, a as int, b as int) == (a >= b),
{
    lemma_integer_infix(st, a, TokenView::Compare(k), b, fuel);
}

/// A `return` whose expression evaluates ends its block with that value;
/// the statements after it are not run.
pub proof fn lemma_return_stops_block(st: EvalState, b: Seq<StmtView>, i: int, fuel: nat)
    requires
        0 <= i < b.len(),
        b[i] is ReturnStatement,
        eval_expr(st, b[i]->ReturnStatement_value, fuel).1 is Ok,
    ensures
        eval_block(st, b, i, fuel) == (
            eval_expr(st, b[i]->ReturnStatement_value, fuel).0,
            Ok::<(ObjView, bool), EvalError>((eval_expr(st, b[i]->ReturnStatement_value, fuel).1->Ok_0, true)),
        ),
{
    let o = eval_expr(st, b[i]->ReturnStatement_value, fuel);
    assert(eval_stmt(st, b[i], fuel) == (o.0, Ok::<(ObjView, bool), EvalError>((o.1->Ok_0, true))));
}

/// Calling a function without parameters whose body starts with
/// `return e`, for `e` made of literals and operators, gives the value of
/// `e`, whatever follows in the body.
#[verifier::spinoff_prover]
#[verifier::rlimit(60)]
pub proof fn lemma_call_returns_first_return(
    st: EvalState,
    name: Seq<char>,
    e: ExprView,
    rest: Seq<StmtView>,
    fuel: nat,
)
    requires
        st.env.contains_key(name),
        st.env[name] == (ObjView::Function {
            parameters: Seq::empty(),
            body: seq![StmtView::ReturnStatement { value: e }] + rest,
        }),
        literal_only(e),
        fuel > 0,
    ensures
        eval_expr(st, ExprView::CallExpr { identifier: name, parameters: Seq::empty() }, fuel).1
            == eval_expr(st, e, 0).1,
{
    let body = seq![StmtView::ReturnStatement { value: e }] + rest;
    let f1 = (fuel - 1) as nat;
    assert(bind(st.env, Seq::empty(), Seq::empty()) == st.env);
    let s2 = EvalState { env: st.env, out: st.out };
    assert(s2 == st);
    assert(body[0] == StmtView::ReturnStatement { value: e });
    lemma_literal_purity(e, st, st, f1, 0);
    let o = eval_expr(st, e, f1);
    assert(eval_list(st, Seq::empty(), 0, fuel) == (st, Ok::<Seq<ObjView>, EvalError>(Seq::empty())));
    assert(eval_stmt(st, body[0], f1) == (o.0, match o.1 {
        Ok(v) => Ok::<(ObjView, bool), EvalError>((v, true)),
        Err(x) => Err(x),
    }));
    assert(eval_block(st, body, 0, f1).1 == match o.1 {
        Ok(v) => Ok::<(ObjView, bool), EvalError>((v, true)),
        Err(x) => Err(x),
    });
}

/// A literal that evaluates to a value directly.
pub open spec fn is_literal(l: ExprView) -> bool {
    l is NumberLit || l is StringLit || l is BoolExp
}

/// The value of a literal.
pub open spec fn literal_value(l: ExprView) -> ObjView {
    match l {
        ExprView::NumberLit { number } => ObjView::Integer(number),
        ExprView::StringLit { string } => ObjView::String(string),
        ExprView::BoolExp { value } => ObjView::Boolean(value),
        _ => ObjView::Boolean(false),
    }
}

/// The call `print(l)`.
pub open spec fn print_call(l: ExprView) -> ExprView {
    ExprView::CallExpr { identifier: "print"@, parameters: seq![l] }
}

/// Arguments are evaluated left to right: when the arguments from index
/// `i` on each print a literal, the values appear in the output in argument
/// order, after what was printed before, and each argument yields "".
pub proof fn lemma_arguments_print_in_order(st: EvalState, ls: Seq<ExprView>, i: int, fuel: nat)
    requires
        !st.env.contains_key("print"@),
        0 <= i <= ls.len(),
        forall|k: int| 0 <= k < ls.len() ==> is_literal(#[trigger] ls[k]),
    ensures
        eval_list(st, ls.map_values(|l: ExprView| print_call(l)), i, fuel) == (
            EvalState {
                env: st.env,
                out: st.out + ls.subrange(i, ls.len() as int).map_values(|l: ExprView| literal_value(l)),
            },
            Ok::<Seq<ObjView>, EvalError>(
                Seq::new((ls.len() - i) as nat, |k: int| ObjView::String(Seq::empty())),
            ),
        ),
    decreases ls.len() - i,
{
    let args = ls.map_values(|l: ExprView| print_call(l));
    let vals = ls.subrange(i, ls.len() as int).map_values(|l: ExprView| literal_value(l));
    if i == ls.len() {
        assert(vals =~= Seq::<ObjView>::empty());
        assert(st.out + vals =~= st.out);
        assert(Seq::new((ls.len() - i) as nat, |k: int| ObjView::String(Seq::empty())) =~= Seq::<
            ObjView,
        >::empty());
    } else {
        reveal_strlit("print");
        reveal_strlit("len");
        reveal_strlit("first");
        reveal_strlit("last");
        reveal_strlit("push");
        assert("print"@ != "len"@) by {
            assert("print"@.len() != "len"@.len());
        }
        assert("print"@ != "first"@) by {
            assert("print"@[0] != "first"@[0]);
        }
        assert("print"@ != "last"@) by {
            assert("print"@.len() != "last"@.len());
        }
        assert("print"@ != "push"@) by {
            assert("print"@.len() != "push"@.len());
        }
        let l = ls[i];
        let v = literal_value(l);
        assert(args[i] == print_call(l));
        assert(eval_list(st, seq![l], 1, fuel) == (st, Ok::<Seq<ObjView>, EvalError>(Seq::empty())));
        assert(eval_expr(st, l, fuel) == (st, Ok::<ObjView, EvalError>(v)));
        assert(eval_list(st, seq![l], 0, fuel).1 == Ok::<Seq<ObjView>, EvalError>(seq![v]));
        let st1 = EvalState { env: st.env, out: st.out.push(v) };
        assert(eval_expr(st, args[i], fuel) == (st1, Ok::<ObjView, EvalError>(ObjView::String(Seq::empty()))));
        lemma_arguments_print_in_order(st1, ls, i + 1, fuel);
        let vals1 = ls.subrange(i + 1, ls.len() as int).map_values(|l: ExprView| literal_value(l));
        assert(vals =~= seq![v] + vals1);
        assert(st1.out + vals1 =~= st.out + vals);
        assert(seq![ObjView::String(Seq::empty())] + Seq::new(
            (ls.len() - (i + 1)) as nat,
            |k: int| ObjView::String(Seq::empty()),
        ) =~= Seq::new((ls.len() - i) as nat, |k: int| ObjView::String(Seq::empty())));
    }
}

/// Statements come out in source order: when a whole line parses, its first
/// statement is the one that starts at the current position, and the rest
/// are what parsing from the end of that statement gives.
pub proof fn lemma_program_in_statement_order(t: Seq<TokenView>, p: int)
    requires
        tok(t, p) != TokenView::Comment,
        tok(t, p) != TokenView::EndOfLine,
        parse_program(t, p).0 is Ok,
        parse_program(t, p).0->Ok_0.len() > 0,
    ensures
        parse_statement(t, p).0 == Ok::<StmtView, ParseError>(
            parse_program(t, p).0->Ok_0[0],
        ),
        parse_program(t, parse_statement(t, p).1).0 == Ok::<Seq<StmtView>, ParseError>(
            parse_program(t, p).0->Ok_0.drop_first(),
        ),
        parse_program(t, parse_statement(t, p).1).1 == parse_program(t, p).1,
{
    let (r, q) = parse_statement(t, p);
    let (r2, q2) = parse_program(t, q);
    let ss = parse_program(t, p).0->Ok_0;
    assert(ss == seq![r->Ok_0] + r2->Ok_0);
    assert(ss.drop_first() =~= r2->Ok_0);
}

} // verus!
