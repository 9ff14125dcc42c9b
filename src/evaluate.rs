use vstd::prelude::*;
use crate::ast::{Expression, Statement, copy_names, copy_stmts, exprs_view, lemma_exprs_view,
    lemma_names_view, lemma_stmts_view, names_view, stmts_view, StmtView};
use crate::object::{
    BuiltinFunction, Environment, EvalError, Function, ObjView, Objects, lemma_objs_view,
    obj_result, objs_view,
};
use crate::semantics::{
    EvalState, MAX_CALL_DEPTH, bind, checked, compare, eval_block, eval_expr, eval_if,
    eval_list, eval_stmt, index_value, infix_value, prefix_value, trunc_div, unbind,
};
use crate::tokens::{Comparison, TokenTypes};

verus! {

pub open spec fn pair_result(r: Result<(Objects, bool), EvalError>) -> Result<
    (ObjView, bool),
    EvalError,
> {
    match r {
        Ok(vr) => Ok((vr.0@, vr.1)),
        Err(x) => Err(x),
    }
}

pub open spec fn list_result(r: Result<Vec<Objects>, EvalError>) -> Result<Seq<ObjView>, EvalError> {
    match r {
        Ok(v) => Ok(objs_view(v@)),
        Err(x) => Err(x),
    }
}

/// A statement outcome with the `return` mark dropped.
pub open spec fn value_of(o: (EvalState, Result<(ObjView, bool), EvalError>)) -> (
    EvalState,
    Result<ObjView, EvalError>,
) {
    (
        o.0,
        match o.1 {
            Ok(vr) => Ok(vr.0),
            Err(x) => Err(x),
        },
    )
}

/// A program: its statements run as a block, with the full call depth.
pub open spec fn run_program(st: EvalState, b: Seq<StmtView>) -> (
    EvalState,
    Result<ObjView, EvalError>,
) {
    value_of(eval_block(st, b, 0, MAX_CALL_DEPTH as nat))
}

fn checked_i32(v: i64) -> (r: Result<Objects, EvalError>)
    ensures
        obj_result(r) == checked(v as int),
{
    if i32::MIN as i64 <= v && v <= i32::MAX as i64 {
        Ok(Objects::Integer(v as i32))
    } else {
        Err(EvalError::IntegerOverflow)
    }
}

fn compare_ints(k: Comparison, a: i32, b: i32) -> (r: bool)
    ensures
        r == compare(k, a as int, b as int),
{
    match k {
        Comparison::Less => a < b,
        Comparison::Greater => a > b,
        Comparison::LessE => a <= b,
        Comparison::GreaterE => a >= b,
        Comparison::Equal => a == b,
        Comparison::NotEqual => a != b,
    }
}

fn divide(a: i32, b: i32) -> (r: Result<Objects, EvalError>)
    requires
        b != 0,
    ensures
        obj_result(r) == checked(trunc_div(a as int, b as int)),
{
    let ua: u64 = if a < 0 { (-(a as i64)) as u64 } else { a as u64 };
    let ub: u64 = if b < 0 { (-(b as i64)) as u64 } else { b as u64 };
    let q = ua / ub;
    assert(q <= ua) by (nonlinear_arith)
        requires
            ub >= 1,
            q == ua / ub,
    ;
    let v: i64 = if (a < 0) != (b < 0) { -(q as i64) } else { q as i64 };
    checked_i32(v)
}

/// The exact product of two `i32` values.
fn mul_wide(a: i32, b: i32) -> (r: i64)
    ensures
        r == a as int * b as int,
{
    let ua: i64 = a as i64;
    let ub: i64 = b as i64;
    assert(-4611686018427387904 <= ua * ub <= 4611686018427387904) by (nonlinear_arith)
        requires
            -2147483648 <= ua <= 2147483647,
            -2147483648 <= ub <= 2147483647,
    ;
    ua * ub
}

/// `l op r` on evaluated operands.
fn infix_op(op: &TokenTypes, l: Objects, r: Objects) -> (res: Result<Objects, EvalError>)
    ensures
        obj_result(res) == infix_value(op@, l@, r@),
{
    match (l, r) {
        (Objects::Integer(a), Objects::Integer(b)) => match op {
            TokenTypes::Operator(c) => if *c == '+' {
                checked_i32(a as i64 + b as i64)
            } else if *c == '-' {
                checked_i32(a as i64 - b as i64)
            } else if *c == '*' {
                checked_i32(mul_wide(a, b))
            } else if *c == '/' {
                if b == 0 {
                    Err(EvalError::DivisionByZero)
                } else {
                    divide(a, b)
                }
            } else {
                Err(EvalError::UnknownOperator)
            },
            TokenTypes::Compare(k) => Ok(Objects::Boolean(compare_ints(*k, a, b))),
            _ => Err(EvalError::UnknownOperator),
        },
        (Objects::String(a), Objects::String(b)) => match op {
            TokenTypes::Operator(c) if *c == '+' => Ok(Objects::String(a.concat(b.as_str()))),
            _ => Err(EvalError::UnknownOperator),
        },
        _ => Err(EvalError::OperandTypeMismatch),
    }
}

/// A prefix operator applied to an evaluated operand.
fn prefix_op(op: &TokenTypes, v: Objects) -> (r: Result<Objects, EvalError>)
    ensures
        obj_result(r) == prefix_value(op@, v@),
{
    match op {
        TokenTypes::Bang => match v {
            Objects::Boolean(b) => Ok(Objects::Boolean(!b)),
            _ => Err(EvalError::OperandTypeMismatch),
        },
        TokenTypes::Operator(c) if *c == '-' => match v {
            Objects::Integer(n) => checked_i32(-(n as i64)),
            _ => Err(EvalError::OperandTypeMismatch),
        },
        _ => Err(EvalError::UnknownOperator),
    }
}

/// The element of an array at an integer index.
fn index_op(c: Objects, i: Objects) -> (r: Result<Objects, EvalError>)
    ensures
        obj_result(r) == index_value(c@, i@),
{
    match (c, i) {
        (Objects::Array(a), Objects::Integer(k)) => {
            proof {
                lemma_objs_view(a@);
            }
            if 0 <= k && (k as usize) < a.len() {
                Ok(a[k as usize].copy())
            } else {
                Err(EvalError::IndexOutOfRange)
            }
        },
        _ => Err(EvalError::OperandTypeMismatch),
    }
}

fn prepend_obj(v: Objects, rest: Vec<Objects>) -> (r: Vec<Objects>)
    ensures
        objs_view(r@) == seq![v@] + objs_view(rest@),
{
    let mut r = rest;
    let ghost old_r = r@;
    r.insert(0, v);
    proof {
        lemma_objs_view(r@);
        lemma_objs_view(old_r);
        assert(objs_view(r@) =~= seq![v@] + objs_view(old_r));
    }
    r
}

/// Evaluates statements, keeping the bindings between them and collecting
/// what `print` writes.
pub struct Evaluator {
    environment: Environment,
    output: Vec<Objects>,
}

impl View for Evaluator {
    type V = EvalState;

    closed spec fn view(&self) -> EvalState {
        EvalState { env: self.environment@, out: objs_view(self.output@) }
    }
}

impl Evaluator {
    pub closed spec fn wf(&self) -> bool {
        self.environment.wf()
    }

    pub fn new() -> (r: Evaluator)
        ensures
            r.wf(),
            r@ == (EvalState { env: Map::empty(), out: Seq::empty() }),
    {
        let r = Evaluator { environment: Environment::new(), output: Vec::new() };
        assert(objs_view(r.output@) =~= Seq::<ObjView>::empty());
        r
    }

    /// Hands over what `print` has written so far, leaving the output empty.
    pub fn take_output(&mut self) -> (r: Vec<Objects>)
        requires
            old(self).wf(),
        ensures
            final(self).wf(),
            objs_view(r@) == old(self)@.out,
            final(self)@ == (EvalState { env: old(self)@.env, out: Seq::empty() }),
    {
        let mut r: Vec<Objects> = Vec::new();
        std::mem::swap(&mut r, &mut self.output);
        assert(objs_view(self.output@) =~= Seq::<ObjView>::empty());
        r
    }

    fn bind_params(&mut self, ps: &Vec<String>, args: &Vec<Objects>)
        requires
            old(self).wf(),
            ps.len() == args.len(),
        ensures
            final(self).wf(),
            final(self)@ == (EvalState {
                env: bind(old(self)@.env, names_view(ps@), objs_view(args@)),
                out: old(self)@.out,
            }),
    {
        let ghost e0 = self@.env;
        let ghost pv = names_view(ps@);
        let ghost av = objs_view(args@);
        proof {
            lemma_names_view(ps@);
            lemma_objs_view(args@);
            assert(pv.subrange(0, 0) =~= Seq::<Seq<char>>::empty());
        }
        let mut i: usize = 0;
        while i < ps.len()
            invariant
                self.wf(),
                i <= ps.len() == args.len(),
                pv == names_view(ps@),
                av == objs_view(args@),
                pv.len() == ps.len(),
                av.len() == args.len(),
                forall|t: int| 0 <= t < ps.len() ==> #[trigger] pv[t] == ps@[t]@,
                forall|t: int| 0 <= t < args.len() ==> #[trigger] av[t] == args@[t]@,
                self@.out == old(self)@.out,
                self@.env == bind(e0, pv.subrange(0, i as int), av.subrange(0, i as int)),
            decreases ps.len() - i,
        {
            self.environment.add(ps[i].clone(), args[i].copy());
            proof {
                assert(pv.subrange(0, i + 1).drop_last() =~= pv.subrange(0, i as int));
                assert(av.subrange(0, i + 1).drop_last() =~= av.subrange(0, i as int));
            }
            i += 1;
        }
        proof {
            assert(pv.subrange(0, i as int) =~= pv);
            assert(av.subrange(0, i as int) =~= av);
        }
    }

    fn unbind_params(&mut self, ps: &Vec<String>)
        requires
            old(self).wf(),
        ensures
            final(self).wf(),
            final(self)@ == (EvalState {
                env: unbind(old(self)@.env, names_view(ps@)),
                out: old(self)@.out,
            }),
    {
        let ghost e0 = self@.env;
        let ghost pv = names_view(ps@);
        proof {
            lemma_names_view(ps@);
        }
        let mut i: usize = 0;
        while i < ps.len()
            invariant
                self.wf(),
                i <= ps.len(),
                pv == names_view(ps@),
                pv.len() == ps.len(),
                forall|t: int| 0 <= t < ps.len() ==> #[trigger] pv[t] == ps@[t]@,
                self@.out == old(self)@.out,
                self@.env == unbind(e0, pv.subrange(0, i as int)),
            decreases ps.len() - i,
        {
            self.environment.remove(ps[i].clone());
            proof {
                assert(pv.subrange(0, i + 1).drop_last() =~= pv.subrange(0, i as int));
            }
            i += 1;
        }
        proof {
            assert(pv.subrange(0, i as int) =~= pv);
        }
    }
}

impl Evaluator {
    #[verifier::spinoff_prover]
    #[verifier::rlimit(100)]
    fn eval_expr(&mut self, e: &Expression, fuel: usize) -> (r: Result<Objects, EvalError>)
        requires
            old(self).wf(),
        ensures
            final(self).wf(),
            (final(self)@, obj_result(r)) == eval_expr(old(self)@, e@, fuel as nat),
        decreases fuel, e, 1int,
    {
        match e {
            Expression::NumberLit { number } => Ok(Objects::Integer(*number)),
            Expression::FloatLit { text } => Ok(Objects::Float(text.clone())),
            Expression::StringLit { string } => Ok(Objects::String(string.clone())),
            Expression::BoolExp { value } => Ok(Objects::Boolean(*value)),
            Expression::IdentifierLit { name } => match self.environment.search(name) {
                Some(v) => Ok(v),
                None => Err(EvalError::IdentifierNotFound),
            },
            Expression::ArrayLit { elements } => match self.eval_list(elements, 0, fuel) {
                Ok(vs) => Ok(Objects::Array(vs)),
                Err(x) => Err(x),
            },
            Expression::HashMap { .. } => Err(EvalError::UnsupportedOperation),
            Expression::IndexExpression { left, right } => {
                let c = match self.eval_expr(left, fuel) {
                    Ok(c) => c,
                    Err(x) => return Err(x),
                };
                let i = match self.eval_expr(right, fuel) {
                    Ok(i) => i,
                    Err(x) => return Err(x),
                };
                index_op(c, i)
            },
            Expression::IfExpr { .. } => match self.eval_if(e, fuel) {
                Ok(vr) => Ok(vr.0),
                Err(x) => Err(x),
            },
            Expression::FunctionExpr { identifier, parameters, body } => {
                let f = Objects::Function(
                    Function { parameters: copy_names(parameters), body: copy_stmts(body) },
                );
                self.environment.add(identifier.clone(), f.copy());
                Ok(f)
            },
            Expression::InfixOp { left, operator, right } => {
                let l = match self.eval_expr(left, fuel) {
                    Ok(l) => l,
                    Err(x) => return Err(x),
                };
                let r = match self.eval_expr(right, fuel) {
                    Ok(r) => r,
                    Err(x) => return Err(x),
                };
                infix_op(operator, l, r)
            },
            Expression::Prefix { operator, right } => {
                let v = match self.eval_expr(right, fuel) {
                    Ok(v) => v,
                    Err(x) => return Err(x),
                };
                prefix_op(operator, v)
            },
            Expression::VarChange { identifier, right } => {
                let v = match self.eval_expr(right, fuel) {
                    Ok(v) => v,
                    Err(x) => return Err(x),
                };
                self.environment.add(identifier.clone(), v.copy());
                Ok(v)
            },
            Expression::CompoundOperation { identifier, operator, right } => {
                let cur = match self.environment.search(identifier) {
                    Some(c) => c,
                    None => return Err(EvalError::IdentifierNotFound),
                };
                let v = match self.eval_expr(right, fuel) {
                    Ok(v) => v,
                    Err(x) => return Err(x),
                };
                match operator {
                    TokenTypes::CompoundOperator(c) => infix_op(&TokenTypes::Operator(*c), cur, v),
                    _ => Err(EvalError::UnknownOperator),
                }
            },
            Expression::CallExpr { identifier, parameters } => self.eval_call(
                identifier,
                parameters,
                fuel,
            ),
        }
    }

    #[verifier::spinoff_prover]
    #[verifier::rlimit(100)]
    fn eval_call(&mut self, identifier: &String, parameters: &Vec<Expression>, fuel: usize) -> (r:
        Result<Objects, EvalError>)
        requires
            old(self).wf(),
        ensures
            final(self).wf(),
            (final(self)@, obj_result(r)) == eval_expr(
                old(self)@,
                crate::ast::ExprView::CallExpr {
                    identifier: identifier@,
                    parameters: exprs_view(parameters@),
                },
                fuel as nat,
            ),
        decreases fuel, parameters, parameters.len() + 1,
    {
        let f = match self.environment.search(identifier) {
            Some(v) => v,
            None => Objects::BuiltIn(BuiltinFunction::new(identifier.clone())),
        };
        let args = match self.eval_list(parameters, 0, fuel) {
            Ok(a) => a,
            Err(x) => return Err(x),
        };
        proof {
            lemma_objs_view(args@);
        }
        match f {
            Objects::Function(func) => {
                proof {
                    lemma_names_view(func.parameters@);
                }
                if fuel == 0 {
                    Err(EvalError::CallDepthExceeded)
                } else if func.parameters.len() != args.len() {
                    Err(EvalError::ArityMismatch)
                } else {
                    self.bind_params(&func.parameters, &args);
                    match self.eval_block(&func.body, 0, fuel - 1) {
                        Err(x) => Err(x),
                        Ok(vr) => {
                            self.unbind_params(&func.parameters);
                            Ok(vr.0)
                        },
                    }
                }
            },
            Objects::BuiltIn(b) => b.call(args, &mut self.output),
            _ => Err(EvalError::NotCallable),
        }
    }

    #[verifier::spinoff_prover]
    fn eval_if(&mut self, e: &Expression, fuel: usize) -> (r: Result<(Objects, bool), EvalError>)
        requires
            old(self).wf(),
        ensures
            final(self).wf(),
            (final(self)@, pair_result(r)) == eval_if(old(self)@, e@, fuel as nat),
        decreases fuel, e, 0int,
    {
        match e {
            Expression::IfExpr { condition, consequence, other } => {
                let c = match self.eval_expr(condition, fuel) {
                    Ok(c) => c,
                    Err(x) => return Err(x),
                };
                match c {
                    Objects::Boolean(true) => self.eval_block(consequence, 0, fuel),
                    Objects::Boolean(false) => match other {
                        Some(alt) => self.eval_block(alt, 0, fuel),
                        None => Ok((Objects::Boolean(false), false)),
                    },
                    _ => Err(EvalError::NonBooleanCondition),
                }
            },
            _ => Err(EvalError::UnsupportedOperation),
        }
    }

    #[verifier::spinoff_prover]
    fn eval_stmt(&mut self, s: &Statement, fuel: usize) -> (r: Result<(Objects, bool), EvalError>)
        requires
            old(self).wf(),
        ensures
            final(self).wf(),
            (final(self)@, pair_result(r)) == eval_stmt(old(self)@, s@, fuel as nat),
        decreases fuel, s, 2int,
    {
        match s {
            Statement::VarStatement { name, value } | Statement::ConstStatement { name, value } => {
                let v = match self.eval_expr(value, fuel) {
                    Ok(v) => v,
                    Err(x) => return Err(x),
                };
                self.environment.add(name.clone(), v.copy());
                Ok((v, false))
            },
            Statement::ReturnStatement { value } => match self.eval_expr(value, fuel) {
                Ok(v) => Ok((v, true)),
                Err(x) => Err(x),
            },
            Statement::ExpressionStatement { value } => {
                let is_if = match &**value {
                    Expression::IfExpr { .. } => true,
                    _ => false,
                };
                if is_if {
                    self.eval_if(value, fuel)
                } else {
                    match self.eval_expr(value, fuel) {
                        Ok(v) => Ok((v, false)),
                        Err(x) => Err(x),
                    }
                }
            },
        }
    }

    #[verifier::spinoff_prover]
    fn eval_block(&mut self, b: &Vec<Statement>, i: usize, fuel: usize) -> (r: Result<
        (Objects, bool),
        EvalError,
    >)
        requires
            old(self).wf(),
        ensures
            final(self).wf(),
            (final(self)@, pair_result(r)) == eval_block(
                old(self)@,
                stmts_view(b@),
                i as int,
                fuel as nat,
            ),
        decreases fuel, b, b.len() - i,
    {
        proof {
            lemma_stmts_view(b@);
        }
        if i >= b.len() {
            return Err(EvalError::EmptyBlock);
        }
        match self.eval_stmt(&b[i], fuel) {
            Err(x) => Err(x),
            Ok(vr) => if vr.1 || i + 1 == b.len() {
                Ok(vr)
            } else {
                self.eval_block(b, i + 1, fuel)
            },
        }
    }

    #[verifier::spinoff_prover]
    fn eval_list(&mut self, es: &Vec<Expression>, i: usize, fuel: usize) -> (r: Result<
        Vec<Objects>,
        EvalError,
    >)
        requires
            old(self).wf(),
        ensures
            final(self).wf(),
            (final(self)@, list_result(r)) == eval_list(
                old(self)@,
                exprs_view(es@),
                i as int,
                fuel as nat,
            ),
        decreases fuel, es, es.len() - i,
    {
        proof {
            lemma_exprs_view(es@);
        }
        if i >= es.len() {
            let v: Vec<Objects> = Vec::new();
            assert(objs_view(v@) =~= Seq::<ObjView>::empty());
            return Ok(v);
        }
        let v = match self.eval_expr(&es[i], fuel) {
            Ok(v) => v,
            Err(x) => return Err(x),
        };
        match self.eval_list(es, i + 1, fuel) {
            Err(x) => Err(x),
            Ok(rest) => Ok(prepend_obj(v, rest)),
        }
    }
}

impl Evaluator {
    /// Evaluates one statement against the current bindings; a declaration
    /// binds its name. The result is the statement's value.
    pub fn eval_statement(&mut self, statement: Statement) -> (r: Result<Objects, EvalError>)
        requires
            old(self).wf(),
        ensures
            final(self).wf(),
            (final(self)@, obj_result(r)) == value_of(
                eval_stmt(old(self)@, statement@, MAX_CALL_DEPTH as nat),
            ),
    {
        match self.eval_stmt(&statement, MAX_CALL_DEPTH) {
            Ok(vr) => Ok(vr.0),
            Err(x) => Err(x),
        }
    }

    /// Evaluates one expression against the current bindings.
    pub fn eval_expression(&mut self, expression: Expression) -> (r: Result<Objects, EvalError>)
        requires
            old(self).wf(),
        ensures
            final(self).wf(),
            (final(self)@, obj_result(r)) == eval_expr(
                old(self)@,
                expression@,
                MAX_CALL_DEPTH as nat,
            ),
    {
        self.eval_expr(&expression, MAX_CALL_DEPTH)
    }

    /// Runs a program's statements in order until one returns or fails; the
    /// result is the value of the last statement run.
    pub fn eval_program(&mut self, statements: &Vec<Statement>) -> (r: Result<Objects, EvalError>)
        requires
            old(self).wf(),
        ensures
            final(self).wf(),
            (final(self)@, obj_result(r)) == run_program(old(self)@, stmts_view(statements@)),
    {
        match self.eval_block(statements, 0, MAX_CALL_DEPTH) {
            Ok(vr) => Ok(vr.0),
            Err(x) => Err(x),
        }
    }
}

} // verus!
