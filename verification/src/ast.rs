//! The abstract syntax tree: a closed set of expression node variants
//! forming an immutable tree; nodes carry no behavior of their own, and
//! every consumer dispatches on the variant externally.
use vstd::prelude::*;

use crate::number::Number;
use crate::tokens::{Token, TokenModel};
use crate::visitor::Visitor;

verus! {

pub enum Expression {
    BinaryExpression(BinaryExpression),
    UnaryExpression(UnaryExpression),
    GroupingExpression(GroupingExpression),
    Literal(Literal),
}

pub struct BinaryExpression {
    pub operator: Token,
    pub left: Box<Expression>,
    pub right: Box<Expression>,
}

pub struct UnaryExpression {
    pub operator: Token,
    pub right: Box<Expression>,
}

pub struct GroupingExpression {
    pub expression: Box<Expression>,
}

pub enum Literal {
    StringLiteral(String),
    NumberLiteral(Number),
    BooleanLiteral(bool),
    NullLiteral,
}

/// The mathematical content of a literal.
pub ghost enum LitModel {
    Str(Seq<char>),
    Num(Number),
    Bool(bool),
    Null,
}

/// The mathematical content of an expression tree.
pub ghost enum ExprModel {
    Binary { op: TokenModel, left: Box<ExprModel>, right: Box<ExprModel> },
    Unary { op: TokenModel, right: Box<ExprModel> },
    Grouping { inner: Box<ExprModel> },
    Lit { lit: LitModel },
}

impl Literal {
    pub open spec fn model(self) -> LitModel {
        match self {
            Literal::StringLiteral(s) => LitModel::Str(s@),
            Literal::NumberLiteral(n) => LitModel::Num(n),
            Literal::BooleanLiteral(b) => LitModel::Bool(b),
            Literal::NullLiteral => LitModel::Null,
        }
    }

    pub fn accept<T, V: Visitor<T>>(&self, visitor: &mut V) -> T {
        visitor.visit_literal(self)
    }
}

impl Expression {
    pub open spec fn model(self) -> ExprModel
        decreases self,
    {
        match self {
            Expression::BinaryExpression(b) => ExprModel::Binary {
                op: b.operator@,
                left: Box::new((*b.left).model()),
                right: Box::new((*b.right).model()),
            },
            Expression::UnaryExpression(u) => ExprModel::Unary {
                op: u.operator@,
                right: Box::new((*u.right).model()),
            },
            Expression::GroupingExpression(g) => ExprModel::Grouping {
                inner: Box::new((*g.expression).model()),
            },
            Expression::Literal(l) => ExprModel::Lit { lit: l.model() },
        }
    }

    pub fn accept<T, V: Visitor<T>>(&self, visitor: &mut V) -> T {
        match self {
            Expression::BinaryExpression(b) => visitor.visit_binary_expression(b),
            Expression::UnaryExpression(u) => visitor.visit_unary_expression(u),
            Expression::GroupingExpression(g) => visitor.visit_grouping_expression(g),
            Expression::Literal(l) => visitor.visit_literal(l),
        }
    }
}

/// Every number literal in the tree is a well-formed fraction.
pub open spec fn expr_wf(e: ExprModel) -> bool
    decreases e,
{
    match e {
        ExprModel::Binary { op, left, right } => expr_wf(*left) && expr_wf(*right),
        ExprModel::Unary { op, right } => expr_wf(*right),
        ExprModel::Grouping { inner } => expr_wf(*inner),
        ExprModel::Lit { lit } => match lit {
            LitModel::Num(n) => n.wf(),
            _ => true,
        },
    }
}

impl BinaryExpression {
    pub open spec fn model(self) -> ExprModel {
        ExprModel::Binary {
            op: self.operator@,
            left: Box::new((*self.left).model()),
            right: Box::new((*self.right).model()),
        }
    }

    pub fn new(operator: Token, left: Expression, right: Expression) -> (r: BinaryExpression)
        ensures
            r.operator@ == operator@,
            (*r.left) == left,
            (*r.right) == right,
    {
        BinaryExpression { operator, left: Box::new(left), right: Box::new(right) }
    }

    pub fn accept<T, V: Visitor<T>>(&self, visitor: &mut V) -> T {
        visitor.visit_binary_expression(self)
    }
}

impl UnaryExpression {
    pub open spec fn model(self) -> ExprModel {
        ExprModel::Unary { op: self.operator@, right: Box::new((*self.right).model()) }
    }

    pub fn new(operator: Token, right: Expression) -> (r: UnaryExpression)
        ensures
            r.operator@ == operator@,
            (*r.right) == right,
    {
        UnaryExpression { operator, right: Box::new(right) }
    }

    pub fn accept<T, V: Visitor<T>>(&self, visitor: &mut V) -> T {
        visitor.visit_unary_expression(self)
    }
}

impl GroupingExpression {
    pub open spec fn model(self) -> ExprModel {
        ExprModel::Grouping { inner: Box::new((*self.expression).model()) }
    }

    pub fn new(expression: Expression) -> (r: GroupingExpression)
        ensures
            (*r.expression) == expression,
    {
        GroupingExpression { expression: Box::new(expression) }
    }

    pub fn accept<T, V: Visitor<T>>(&self, visitor: &mut V) -> T {
        visitor.visit_grouping_expression(self)
    }
}

} // verus!
