use vstd::prelude::*;
use crate::tokens::{TokenTypes, TokenView};

verus! {

/// A statement of the language.
#[derive(Debug)]
pub enum Statement {
    VarStatement { name: String, value: Box<Expression> },
    ConstStatement { name: String, value: Box<Expression> },
    ReturnStatement { value: Box<Expression> },
    ExpressionStatement { value: Box<Expression> },
}

/// An expression of the language.
#[derive(Debug)]
#[allow(inconsistent_fields)]
pub enum Expression {
    NumberLit { number: i32 },
    /// A decimal literal with a fractional part, kept as its source text.
    FloatLit { text: String },
    StringLit { string: String },
    ArrayLit { elements: Vec<Expression> },
    IndexExpression { left: Box<Expression>, right: Box<Expression> },
    HashMap { keys: Vec<Expression>, values: Vec<Expression> },
    IdentifierLit { name: String },
    BoolExp { value: bool },
    IfExpr {
        condition: Box<Expression>,
        consequence: Vec<Statement>,
        other: Option<Vec<Statement>>,
    },
    FunctionExpr { identifier: String, parameters: Vec<String>, body: Vec<Statement> },
    InfixOp { left: Box<Expression>, operator: TokenTypes, right: Box<Expression> },
    CallExpr { identifier: String, parameters: Vec<Expression> },
    Prefix { operator: TokenTypes, right: Box<Expression> },
    VarChange { identifier: String, right: Box<Expression> },
    CompoundOperation { identifier: String, operator: TokenTypes, right: Box<Expression> },
}

/// The mathematical value of a statement.
pub ghost enum StmtView {
    VarStatement { name: Seq<char>, value: ExprView },
    ConstStatement { name: Seq<char>, value: ExprView },
    ReturnStatement { value: ExprView },
    ExpressionStatement { value: ExprView },
}

/// The mathematical value of an expression.
#[allow(inconsistent_fields)]
pub ghost enum ExprView {
    NumberLit { number: i32 },
    FloatLit { text: Seq<char> },
    StringLit { string: Seq<char> },
    ArrayLit { elements: Seq<ExprView> },
    IndexExpression { left: Box<ExprView>, right: Box<ExprView> },
    HashMap { keys: Seq<ExprView>, values: Seq<ExprView> },
    IdentifierLit { name: Seq<char> },
    BoolExp { value: bool },
    IfExpr {
        condition: Box<ExprView>,
        consequence: Seq<StmtView>,
        other: Option<Seq<StmtView>>,
    },
    FunctionExpr { identifier: Seq<char>, parameters: Seq<Seq<char>>, body: Seq<StmtView> },
    InfixOp { left: Box<ExprView>, operator: TokenView, right: Box<ExprView> },
    CallExpr { identifier: Seq<char>, parameters: Seq<ExprView> },
    Prefix { operator: TokenView, right: Box<ExprView> },
    VarChange { identifier: Seq<char>, right: Box<ExprView> },
    CompoundOperation { identifier: Seq<char>, operator: TokenView, right: Box<ExprView> },
}

pub open spec fn names_view(s: Seq<String>) -> Seq<Seq<char>> {
    s.map_values(|n: String| n@)
}

pub open spec fn expr_view(e: Expression) -> ExprView
    decreases e,
{
    match e {
        Expression::NumberLit { number } => ExprView::NumberLit { number },
        Expression::FloatLit { text } => ExprView::FloatLit { text: text@ },
        Expression::StringLit { string } => ExprView::StringLit { string: string@ },
        Expression::ArrayLit { elements } => ExprView::ArrayLit { elements: exprs_view(elements@) },
        Expression::IndexExpression { left, right } => ExprView::IndexExpression {
            left: Box::new(expr_view(*left)),
            right: Box::new(expr_view(*right)),
        },
        Expression::HashMap { keys, values } => ExprView::HashMap {
            keys: exprs_view(keys@),
            values: exprs_view(values@),
        },
        Expression::IdentifierLit { name } => ExprView::IdentifierLit { name: name@ },
        Expression::BoolExp { value } => ExprView::BoolExp { value },
        Expression::IfExpr { condition, consequence, other } => ExprView::IfExpr {
            condition: Box::new(expr_view(*condition)),
            consequence: stmts_view(consequence@),
            other: match other {
                Some(o) => Some(stmts_view(o@)),
                None => None,
            },
        },
        Expression::FunctionExpr { identifier, parameters, body } => ExprView::FunctionExpr {
            identifier: identifier@,
            parameters: names_view(parameters@),
            body: stmts_view(body@),
        },
        Expression::InfixOp { left, operator, right } => ExprView::InfixOp {
            left: Box::new(expr_view(*left)),
            operator: operator@,
            right: Box::new(expr_view(*right)),
        },
        Expression::CallExpr { identifier, parameters } => ExprView::CallExpr {
            identifier: identifier@,
            parameters: exprs_view(parameters@),
        },
        Expression::Prefix { operator, right } => ExprView::Prefix {
            operator: operator@,
            right: Box::new(expr_view(*right)),
        },
        Expression::VarChange { identifier, right } => ExprView::VarChange {
            identifier: identifier@,
            right: Box::new(expr_view(*right)),
        },
        Expression::CompoundOperation { identifier, operator, right } => ExprView::CompoundOperation {
            identifier: identifier@,
            operator: operator@,
            right: Box::new(expr_view(*right)),
        },
    }
}

pub open spec fn exprs_view(s: Seq<Expression>) -> Seq<ExprView>
    decreases s,
{
    if s.len() == 0 {
        Seq::empty()
    } else {
        exprs_view(s.drop_last()).push(expr_view(s.last()))
    }
}

pub open spec fn stmt_view(s: Statement) -> StmtView
    decreases s,
{
    match s {
        Statement::VarStatement { name, value } => StmtView::VarStatement {
            name: name@,
            value: expr_view(*value),
        },
        Statement::ConstStatement { name, value } => StmtView::ConstStatement {
            name: name@,
            value: expr_view(*value),
        },
        Statement::ReturnStatement { value } => StmtView::ReturnStatement { value: expr_view(*value) },
        Statement::ExpressionStatement { value } => StmtView::ExpressionStatement {
            value: expr_view(*value),
        },
    }
}

pub open spec fn stmts_view(s: Seq<Statement>) -> Seq<StmtView>
    decreases s,
{
    if s.len() == 0 {
        Seq::empty()
    } else {
        stmts_view(s.drop_last()).push(stmt_view(s.last()))
    }
}

impl View for Expression {
    type V = ExprView;

    open spec fn view(&self) -> ExprView {
        expr_view(*self)
    }
}

impl View for Statement {
    type V = StmtView;

    open spec fn view(&self) -> StmtView {
        stmt_view(*self)
    }
}

pub proof fn lemma_exprs_view(s: Seq<Expression>)
    ensures
        exprs_view(s).len() == s.len(),
        forall|i: int| 0 <= i < s.len() ==> #[trigger] exprs_view(s)[i] == expr_view(s[i]),
    decreases s.len(),
{
    if s.len() > 0 {
        lemma_exprs_view(s.drop_last());
    }
}

pub proof fn lemma_stmts_view(s: Seq<Statement>)
    ensures
        stmts_view(s).len() == s.len(),
        forall|i: int| 0 <= i < s.len() ==> #[trigger] stmts_view(s)[i] == stmt_view(s[i]),
    decreases s.len(),
{
    if s.len() > 0 {
        lemma_stmts_view(s.drop_last());
    }
}

pub proof fn lemma_names_view(s: Seq<String>)
    ensures
        names_view(s).len() == s.len(),
        forall|i: int| 0 <= i < s.len() ==> #[trigger] names_view(s)[i] == s[i]@,
{
}

/// A copy of a list of names.
pub fn copy_names(v: &Vec<String>) -> (r: Vec<String>)
    ensures
        names_view(r@) == names_view(v@),
{
    let mut out: Vec<String> = Vec::new();
    let mut i: usize = 0;
    while i < v.len()
        invariant
            i <= v.len(),
            out@ == v@.subrange(0, i as int),
        decreases v.len() - i,
    {
        out.push(v[i].clone());
        i += 1;
        assert(out@ =~= v@.subrange(0, i as int));
    }
    assert(v@.subrange(0, v.len() as int) =~= v@);
    out
}

/// A copy of a list of expressions.
pub fn copy_exprs(v: &Vec<Expression>) -> (r: Vec<Expression>)
    ensures
        exprs_view(r@) == exprs_view(v@),
    decreases v,
{
    let mut out: Vec<Expression> = Vec::new();
    let mut i: usize = 0;
    while i < v.len()
        invariant
            i <= v.len(),
            exprs_view(out@) == exprs_view(v@.subrange(0, i as int)),
        decreases v.len() - i,
    {
        let e = v[i].copy();
        let ghost before = out@;
        out.push(e);
        assert(out@.drop_last() =~= before);
        assert(v@.subrange(0, i + 1).drop_last() =~= v@.subrange(0, i as int));
        i += 1;
    }
    assert(v@.subrange(0, v.len() as int) =~= v@);
    out
}

/// A copy of a list of statements.
pub fn copy_stmts(v: &Vec<Statement>) -> (r: Vec<Statement>)
    ensures
        stmts_view(r@) == stmts_view(v@),
    decreases v,
{
    let mut out: Vec<Statement> = Vec::new();
    let mut i: usize = 0;
    while i < v.len()
        invariant
            i <= v.len(),
            stmts_view(out@) == stmts_view(v@.subrange(0, i as int)),
        decreases v.len() - i,
    {
        let s = v[i].copy();
        let ghost before = out@;
        out.push(s);
        assert(out@.drop_last() =~= before);
        assert(v@.subrange(0, i + 1).drop_last() =~= v@.subrange(0, i as int));
        i += 1;
    }
    assert(v@.subrange(0, v.len() as int) =~= v@);
    out
}

impl Statement {
    /// A copy of the statement with the same view.
    pub fn copy(&self) -> (r: Statement)
        ensures
            r@ == self@,
        decreases self,
    {
        match self {
            Statement::VarStatement { name, value } => Statement::VarStatement {
                name: name.clone(),
                value: Box::new(value.copy()),
            },
            Statement::ConstStatement { name, value } => Statement::ConstStatement {
                name: name.clone(),
                value: Box::new(value.copy()),
            },
            Statement::ReturnStatement { value } => Statement::ReturnStatement {
                value: Box::new(value.copy()),
            },
            Statement::ExpressionStatement { value } => Statement::ExpressionStatement {
                value: Box::new(value.copy()),
            },
        }
    }
}

impl Expression {
    /// A copy of the expression with the same view.
    pub fn copy(&self) -> (r: Expression)
        ensures
            r@ == self@,
        decreases self,
    {
        match self {
            Expression::NumberLit { number } => Expression::NumberLit { number: *number },
            Expression::FloatLit { text } => Expression::FloatLit { text: text.clone() },
            Expression::StringLit { string } => Expression::StringLit { string: string.clone() },
            Expression::ArrayLit { elements } => Expression::ArrayLit { elements: copy_exprs(elements) },
            Expression::IndexExpression { left, right } => Expression::IndexExpression {
                left: Box::new(left.copy()),
                right: Box::new(right.copy()),
            },
            Expression::HashMap { keys, values } => Expression::HashMap {
                keys: copy_exprs(keys),
                values: copy_exprs(values),
            },
            Expression::IdentifierLit { name } => Expression::IdentifierLit { name: name.clone() },
            Expression::BoolExp { value } => Expression::BoolExp { value: *value },
            Expression::IfExpr { condition, consequence, other } => Expression::IfExpr {
                condition: Box::new(condition.copy()),
                consequence: copy_stmts(consequence),
                other: match other {
                    Some(o) => Some(copy_stmts(o)),
                    None => None,
                },
            },
            Expression::FunctionExpr { identifier, parameters, body } => Expression::FunctionExpr {
                identifier: identifier.clone(),
                parameters: copy_names(parameters),
                body: copy_stmts(body),
            },
            Expression::InfixOp { left, operator, right } => Expression::InfixOp {
                left: Box::new(left.copy()),
                operator: operator.copy(),
                right: Box::new(right.copy()),
            },
            Expression::CallExpr { identifier, parameters } => Expression::CallExpr {
                identifier: identifier.clone(),
                parameters: copy_exprs(parameters),
            },
            Expression::Prefix { operator, right } => Expression::Prefix {
                operator: operator.copy(),
                right: Box::new(right.copy()),
            },
            Expression::VarChange { identifier, right } => Expression::VarChange {
                identifier: identifier.clone(),
                right: Box::new(right.copy()),
            },
            Expression::CompoundOperation { identifier, operator, right } => Expression::CompoundOperation {
                identifier: identifier.clone(),
                operator: operator.copy(),
                right: Box::new(right.copy()),
            },
        }
    }
}

} // verus!
