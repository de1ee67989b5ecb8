//! A printing consumer of the tree: one case per node variant. A
//! binary node is rendered by its left operand, a unary node by its
//! operator lexeme and operand, a grouping in parentheses, a literal
//! by its text.
use vstd::prelude::*;

use crate::ast::{
    BinaryExpression, ExprModel, Expression, GroupingExpression, LitModel, Literal,
    UnaryExpression, expr_wf,
};
use crate::number::{display_spec, Number};
use crate::visitor::Visitor;

verus! {

/// The rendered text of a tree.
pub open spec fn print_spec(e: ExprModel) -> Seq<char>
    decreases e,
{
    match e {
        ExprModel::Binary { op, left, right } => print_spec(*left),
        ExprModel::Unary { op, right } => op.lexeme + print_spec(*right),
        ExprModel::Grouping { inner } => seq!['('] + print_spec(*inner) + seq![')'],
        ExprModel::Lit { lit } => match lit {
            LitModel::Str(s) => s,
            LitModel::Num(n) => display_spec(n),
            LitModel::Bool(b) => if b {
                "true"@
            } else {
                "false"@
            },
            LitModel::Null => "null"@,
        },
    }
}

/// Whether every number literal of the tree is well formed; this is
/// what the verified printing and evaluation entry points ask of their
/// input, and what the parser guarantees of its output.
pub fn expression_wf(e: &Expression) -> (r: bool)
    ensures
        r == expr_wf(e.model()),
    decreases *e,
{
    match e {
        Expression::BinaryExpression(b) => {
            let l = expression_wf(&*b.left);
            let rr = expression_wf(&*b.right);
            l && rr
        },
        Expression::UnaryExpression(u) => expression_wf(&*u.right),
        Expression::GroupingExpression(g) => expression_wf(&*g.expression),
        Expression::Literal(l) => match l {
            Literal::NumberLiteral(n) => match n {
                Number::Finite { num, den } => 1 <= *den && *num > i64::MIN,
                _ => true,
            },
            _ => true,
        },
    }
}

pub struct PrintVisitor;

impl PrintVisitor {
    /// Renders a tree as text.
    pub fn print_expression(&mut self, e: &Expression) -> (r: String)
        requires
            expr_wf(e.model()),
        ensures
            r@ == print_spec(e.model()),
    {
        print_expr(e)
    }
}

fn print_expr(e: &Expression) -> (r: String)
    requires
        expr_wf(e.model()),
    ensures
        r@ == print_spec(e.model()),
    decreases *e,
{
    match e {
        Expression::BinaryExpression(b) => print_expr(&*b.left),
        Expression::UnaryExpression(u) => {
            let mut s = u.operator.lexeme.clone();
            let rest = print_expr(&*u.right);
            s.append(rest.as_str());
            s
        },
        Expression::GroupingExpression(g) => {
            let mut s = String::from_str("(");
            let inner = print_expr(&*g.expression);
            s.append(inner.as_str());
            s.append(")");
            proof {
                reveal_strlit("(");
                reveal_strlit(")");
                assert(s@ =~= seq!['('] + print_spec((*g.expression).model()) + seq![')']);
            }
            s
        },
        Expression::Literal(l) => match l {
            Literal::StringLiteral(text) => text.clone(),
            Literal::NumberLiteral(n) => n.display(),
            Literal::BooleanLiteral(b) => if *b {
                String::from_str("true")
            } else {
                String::from_str("false")
            },
            Literal::NullLiteral => String::from_str("null"),
        },
    }
}

impl Visitor<String> for PrintVisitor {
    fn visit(&mut self, ast: &Expression) -> String {
        self.visit_expression(ast)
    }

    fn visit_binary_expression(&mut self, binary_expression: &BinaryExpression) -> String {
        if expression_wf(&*binary_expression.left) {
            print_expr(&*binary_expression.left)
        } else {
            String::new()
        }
    }

    fn visit_unary_expression(&mut self, unary_expression: &UnaryExpression) -> String {
        if expression_wf(&*unary_expression.right) {
            let mut s = unary_expression.operator.lexeme.clone();
            let rest = print_expr(&*unary_expression.right);
            s.append(rest.as_str());
            s
        } else {
            String::new()
        }
    }

    fn visit_grouping_expression(&mut self, grouping_expression: &GroupingExpression) -> String {
        if expression_wf(&*grouping_expression.expression) {
            let mut s = String::from_str("(");
            let inner = print_expr(&*grouping_expression.expression);
            s.append(inner.as_str());
            s.append(")");
            s
        } else {
            String::new()
        }
    }

    fn visit_literal(&mut self, literal: &Literal) -> String {
        match literal {
            Literal::StringLiteral(text) => text.clone(),
            Literal::NumberLiteral(n) => match n {
                Number::Finite { num, den } => {
                    if 1 <= *den && *num > i64::MIN {
                        n.display()
                    } else {
                        String::new()
                    }
                },
                _ => n.display(),
            },
            Literal::BooleanLiteral(b) => {
                if *b {
                    String::from_str("true")
                } else {
                    String::from_str("false")
                }
            },
            Literal::NullLiteral => String::from_str("null"),
        }
    }

    fn visit_expression(&mut self, expression: &Expression) -> String {
        if expression_wf(expression) {
            print_expr(expression)
        } else {
            String::new()
        }
    }
}

} // verus!
