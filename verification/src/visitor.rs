//! External dispatch over the expression tree: a consumer implements
//! one method per node variant and one entry method that dispatches on
//! the variant.
use vstd::prelude::*;

use crate::ast::{BinaryExpression, Expression, GroupingExpression, Literal, UnaryExpression};

verus! {

pub trait Visitor<T> {
    fn visit(&mut self, ast: &Expression) -> T;

    fn visit_binary_expression(&mut self, binary_expression: &BinaryExpression) -> T;

    fn visit_unary_expression(&mut self, unary_expression: &UnaryExpression) -> T;

    fn visit_grouping_expression(&mut self, grouping_expression: &GroupingExpression) -> T;

    fn visit_literal(&mut self, literal: &Literal) -> T;

    fn visit_expression(&mut self, expression: &Expression) -> T;
}

} // verus!
