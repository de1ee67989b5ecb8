//! The tree-walking evaluator: it dispatches on node kind, checks each
//! operand against the operator's accepted kinds, reports runtime
//! errors to the diagnostics sink, and computes the resulting value.
use vstd::prelude::*;

use crate::ast::{
    BinaryExpression, ExprModel, Expression, GroupingExpression, LitModel, Literal,
    UnaryExpression, expr_wf,
};
use crate::diagnostics::{error_record, DiagnosticModel, ErrorHandler};
use crate::number::{add_spec, div_spec, eq_spec, le_spec, lt_spec, mul_spec, neg_spec, sub_spec,
    Number};
use crate::tokens::{Token, TokenEnum};
use crate::values::{truthy_spec, value_wf, Value, ValueModel};

verus! {

pub open spec fn msg_left() -> Seq<char> {
    "Unsupported operator for left expression, expected a number or a string."@
}

pub open spec fn msg_right() -> Seq<char> {
    "Unsupported operator, for right expression, expected a number or a string."@
}

/// The report for a pairing rejected as a whole though each operand
/// passed its own check: a number added to a string.
pub open spec fn msg_pair() -> Seq<char> {
    "Unsupported operand pairing, expected two numbers or two strings."@
}

pub open spec fn msg_unary() -> Seq<char> {
    "Unsupported operator, expected a number."@
}

pub open spec fn msg_overflow() -> Seq<char> {
    "Number overflow."@
}

/// The operand kinds a binary operator accepts: plus takes numbers and
/// strings; the other arithmetic and ordering operators take numbers
/// alone; everything else, the equality operators included, has no
/// evaluation rule.
pub open spec fn binary_supported(op: TokenEnum, v: ValueModel) -> bool {
    match (op, v) {
        (TokenEnum::Plus, ValueModel::Num(_)) => true,
        (TokenEnum::Plus, ValueModel::Str(_)) => true,
        (TokenEnum::Minus, ValueModel::Num(_)) => true,
        (TokenEnum::Star, ValueModel::Num(_)) => true,
        (TokenEnum::Slash, ValueModel::Num(_)) => true,
        (TokenEnum::Greater, ValueModel::Num(_)) => true,
        (TokenEnum::Less, ValueModel::Num(_)) => true,
        (TokenEnum::GreaterEqual, ValueModel::Num(_)) => true,
        (TokenEnum::LessEqual, ValueModel::Num(_)) => true,
        _ => false,
    }
}

/// The operand kinds a unary operator accepts: negating truthiness
/// with bang works on every kind; unary minus takes a number alone.
pub open spec fn unary_supported(op: TokenEnum, v: ValueModel) -> bool {
    match (op, v) {
        (TokenEnum::Bang, _) => true,
        (TokenEnum::Minus, ValueModel::Num(_)) => true,
        _ => false,
    }
}

/// Equality of values: same-kind values compare by content, numbers by
/// numeric value, and values of different kinds are never equal.
pub open spec fn values_equal_spec(a: ValueModel, b: ValueModel) -> bool {
    match (a, b) {
        (ValueModel::Num(x), ValueModel::Num(y)) => eq_spec(x, y),
        (ValueModel::Str(x), ValueModel::Str(y)) => x == y,
        (ValueModel::Bool(x), ValueModel::Bool(y)) => x == y,
        (ValueModel::Nil, ValueModel::Nil) => true,
        _ => false,
    }
}

/// What evaluating a tree yields: the value, and the runtime error
/// reports made along the way, in order.
#[verifier::ext_equal]
pub ghost struct EvalOut {
    pub value: ValueModel,
    pub errors: Seq<DiagnosticModel>,
}

pub open spec fn num_out(o: Option<Number>, line: int, errs: Seq<DiagnosticModel>) -> EvalOut {
    match o {
        Some(n) => EvalOut { value: ValueModel::Num(n), errors: errs },
        None => EvalOut {
            value: ValueModel::Nil,
            errors: errs.push(error_record(line, Seq::empty(), msg_overflow())),
        },
    }
}

/// The meaning of evaluating an expression tree: a value, and the
/// runtime errors reported. A type error yields nil and a report; the
/// caller judges the value by the sink's flag.
pub open spec fn eval_spec(e: ExprModel) -> EvalOut
    decreases e,
{
    match e {
        ExprModel::Lit { lit } => EvalOut {
            value: match lit {
                LitModel::Str(s) => ValueModel::Str(s),
                LitModel::Num(n) => ValueModel::Num(n),
                LitModel::Bool(b) => ValueModel::Bool(b),
                LitModel::Null => ValueModel::Nil,
            },
            errors: Seq::empty(),
        },
        ExprModel::Grouping { inner } => eval_spec(*inner),
        ExprModel::Unary { op, right } => {
            let r = eval_spec(*right);
            if op.kind == TokenEnum::Minus {
                match r.value {
                    ValueModel::Num(n) => EvalOut {
                        value: ValueModel::Num(neg_spec(n)),
                        errors: r.errors,
                    },
                    _ => EvalOut {
                        value: ValueModel::Nil,
                        errors: r.errors.push(error_record(op.line, Seq::empty(), msg_unary())),
                    },
                }
            } else if op.kind == TokenEnum::Bang {
                EvalOut { value: ValueModel::Bool(!truthy_spec(r.value)), errors: r.errors }
            } else {
                EvalOut { value: ValueModel::Nil, errors: r.errors }
            }
        },
        ExprModel::Binary { op, left, right } => {
            let l = eval_spec(*left);
            let r = eval_spec(*right);
            let okl = binary_supported(op.kind, l.value);
            let okr = binary_supported(op.kind, r.value);
            let errs = l.errors + r.errors + (if okl {
                Seq::<DiagnosticModel>::empty()
            } else {
                seq![error_record(op.line, Seq::empty(), msg_left())]
            }) + (if okr {
                Seq::<DiagnosticModel>::empty()
            } else {
                seq![error_record(op.line, Seq::empty(), msg_right())]
            });
            match (op.kind, l.value, r.value) {
                (TokenEnum::Plus, ValueModel::Num(a), ValueModel::Num(b)) => num_out(
                    add_spec(a, b),
                    op.line,
                    errs,
                ),
                (TokenEnum::Plus, ValueModel::Str(a), ValueModel::Str(b)) => EvalOut {
                    value: ValueModel::Str(a + b),
                    errors: errs,
                },
                (TokenEnum::Minus, ValueModel::Num(a), ValueModel::Num(b)) => num_out(
                    sub_spec(a, b),
                    op.line,
                    errs,
                ),
                (TokenEnum::Star, ValueModel::Num(a), ValueModel::Num(b)) => num_out(
                    mul_spec(a, b),
                    op.line,
                    errs,
                ),
                (TokenEnum::Slash, ValueModel::Num(a), ValueModel::Num(b)) => num_out(
                    div_spec(a, b),
                    op.line,
                    errs,
                ),
                (TokenEnum::Greater, ValueModel::Num(a), ValueModel::Num(b)) => EvalOut {
                    value: ValueModel::Bool(lt_spec(b, a)),
                    errors: errs,
                },
                (TokenEnum::Less, ValueModel::Num(a), ValueModel::Num(b)) => EvalOut {
                    value: ValueModel::Bool(lt_spec(a, b)),
                    errors: errs,
                },
                (TokenEnum::GreaterEqual, ValueModel::Num(a), ValueModel::Num(b)) => EvalOut {
                    value: ValueModel::Bool(le_spec(b, a)),
                    errors: errs,
                },
                (TokenEnum::LessEqual, ValueModel::Num(a), ValueModel::Num(b)) => EvalOut {
                    value: ValueModel::Bool(le_spec(a, b)),
                    errors: errs,
                },
                _ => EvalOut {
                    value: ValueModel::Nil,
                    errors: errs + (if okl && okr {
                        seq![error_record(op.line, Seq::empty(), msg_pair())]
                    } else {
                        Seq::<DiagnosticModel>::empty()
                    }),
                },
            }
        },
    }
}

/// Walks an expression tree, reporting runtime errors to its own
/// diagnostics sink.
pub struct Evaluator {
    pub error_handler: ErrorHandler,
}

impl Evaluator {
    pub fn new(name: &str) -> (r: Evaluator)
        ensures
            !r.error_handler.had_error,
            r.error_handler.path_name@ == name@,
            r.error_handler.recs() == Seq::<DiagnosticModel>::empty(),
    {
        Evaluator { error_handler: ErrorHandler::new(name) }
    }

    /// Records a runtime error at the operator's line.
    pub fn runtime_error(&mut self, token: &Token, message: &str)
        ensures
            final(self).error_handler.had_error,
            final(self).error_handler.path_name@ == old(self).error_handler.path_name@,
            final(self).error_handler.recs() == old(self).error_handler.recs().push(
                error_record(token@.line, Seq::empty(), message@),
            ),
    {
        self.error_handler.error(token.line, message);
    }

    /// Computes the value of the tree; the produced value is to be
    /// trusted only when the sink's flag stayed clear.
    pub fn evaluate(&mut self, ast: &Expression) -> (v: Value)
        requires
            expr_wf(ast.model()),
        ensures
            v@ == eval_spec(ast.model()).value,
            value_wf(v@),
            final(self).error_handler.recs() == old(self).error_handler.recs() + eval_spec(
                ast.model(),
            ).errors,
            final(self).error_handler.had_error == (old(self).error_handler.had_error || eval_spec(
                ast.model(),
            ).errors.len() > 0),
            final(self).error_handler.path_name@ == old(self).error_handler.path_name@,
        decreases *ast, 0int,
    {
        match ast {
            Expression::BinaryExpression(b) => self.visit_binary_expression(b),
            Expression::UnaryExpression(u) => self.visit_unary_expression(u),
            Expression::GroupingExpression(g) => self.visit_grouping_expression(g),
            Expression::Literal(l) => self.visit_literal(l),
        }
    }

    pub fn visit_binary_expression(&mut self, b: &BinaryExpression) -> (v: Value)
        requires
            expr_wf(b.model()),
        ensures
            v@ == eval_spec(b.model()).value,
            value_wf(v@),
            final(self).error_handler.recs() == old(self).error_handler.recs() + eval_spec(
                b.model(),
            ).errors,
            final(self).error_handler.had_error == (old(self).error_handler.had_error || eval_spec(
                b.model(),
            ).errors.len() > 0),
            final(self).error_handler.path_name@ == old(self).error_handler.path_name@,
        decreases *b, 0int,
    {
        let left = self.evaluate(&*b.left);
        let right = self.evaluate(&*b.right);
        let okl = self.check_suport_binary_operator(&b.operator.kind, &left);
        if !okl {
            self.runtime_error(
                &b.operator,
                "Unsupported operator for left expression, expected a number or a string.",
            );
        }
        let okr = self.check_suport_binary_operator(&b.operator.kind, &right);
        if !okr {
            self.runtime_error(
                &b.operator,
                "Unsupported operator, for right expression, expected a number or a string.",
            );
        }
        let ghost m = b.model();
        let ghost errs_before = self.error_handler.recs();
        let result = match (&b.operator.kind, &left, &right) {
            (TokenEnum::Plus, Value::Number(a), Value::Number(c)) => match a.add(c) {
                Some(n) => Value::create_number(n),
                None => {
                    self.runtime_error(&b.operator, "Number overflow.");
                    Value::create_nil()
                },
            },
            (TokenEnum::Plus, Value::String(a), Value::String(c)) => {
                let joined = a.clone().concat(c.as_str());
                Value::create_string(joined)
            },
            (TokenEnum::Minus, Value::Number(a), Value::Number(c)) => match a.sub(c) {
                Some(n) => Value::create_number(n),
                None => {
                    self.runtime_error(&b.operator, "Number overflow.");
                    Value::create_nil()
                },
            },
            (TokenEnum::Star, Value::Number(a), Value::Number(c)) => match a.mul(c) {
                Some(n) => Value::create_number(n),
                None => {
                    self.runtime_error(&b.operator, "Number overflow.");
                    Value::create_nil()
                },
            },
            (TokenEnum::Slash, Value::Number(a), Value::Number(c)) => match a.div(c) {
                Some(n) => Value::create_number(n),
                None => {
                    self.runtime_error(&b.operator, "Number overflow.");
                    Value::create_nil()
                },
            },
            (TokenEnum::Greater, Value::Number(a), Value::Number(c)) => Value::create_boolean(
                c.lt(a),
            ),
            (TokenEnum::Less, Value::Number(a), Value::Number(c)) => Value::create_boolean(
                a.lt(c),
            ),
            (TokenEnum::GreaterEqual, Value::Number(a), Value::Number(c)) => Value::create_boolean(
                c.le(a),
            ),
            (TokenEnum::LessEqual, Value::Number(a), Value::Number(c)) => Value::create_boolean(
                a.le(c),
            ),
            _ => {
                if okl && okr {
                    self.runtime_error(
                        &b.operator,
                        "Unsupported operand pairing, expected two numbers or two strings.",
                    );
                }
                Value::create_nil()
            },
        };
        proof {
            assert(self.error_handler.recs() =~= old(self).error_handler.recs() + eval_spec(
                m,
            ).errors);
        }
        result
    }

    pub fn visit_unary_expression(&mut self, u: &UnaryExpression) -> (v: Value)
        requires
            expr_wf(u.model()),
        ensures
            v@ == eval_spec(u.model()).value,
            value_wf(v@),
            final(self).error_handler.recs() == old(self).error_handler.recs() + eval_spec(
                u.model(),
            ).errors,
            final(self).error_handler.had_error == (old(self).error_handler.had_error || eval_spec(
                u.model(),
            ).errors.len() > 0),
            final(self).error_handler.path_name@ == old(self).error_handler.path_name@,
        decreases *u, 0int,
    {
        let right = self.evaluate(&*u.right);
        if matches!(u.operator.kind, TokenEnum::Minus) && !right.is_number() {
            self.runtime_error(&u.operator, "Unsupported operator, expected a number.");
        }
        let result = match u.operator.kind {
            TokenEnum::Bang => {
                let t = self.is_truthy(&right);
                Value::create_boolean(!t)
            },
            TokenEnum::Minus => {
                if right.is_number() {
                    Value::create_number(right.as_number().neg())
                } else {
                    Value::create_nil()
                }
            },
            _ => Value::create_nil(),
        };
        proof {
            assert(self.error_handler.recs() =~= old(self).error_handler.recs() + eval_spec(
                u.model(),
            ).errors);
        }
        result
    }

    pub fn visit_grouping_expression(&mut self, g: &GroupingExpression) -> (v: Value)
        requires
            expr_wf(g.model()),
        ensures
            v@ == eval_spec(g.model()).value,
            value_wf(v@),
            final(self).error_handler.recs() == old(self).error_handler.recs() + eval_spec(
                g.model(),
            ).errors,
            final(self).error_handler.had_error == (old(self).error_handler.had_error || eval_spec(
                g.model(),
            ).errors.len() > 0),
            final(self).error_handler.path_name@ == old(self).error_handler.path_name@,
        decreases *g, 0int,
    {
        self.evaluate(&*g.expression)
    }

    pub fn visit_literal(&mut self, literal: &Literal) -> (v: Value)
        requires
            expr_wf(ExprModel::Lit { lit: literal.model() }),
        ensures
            v@ == eval_spec(ExprModel::Lit { lit: literal.model() }).value,
            value_wf(v@),
            *final(self) == *old(self),
    {
        match literal {
            Literal::StringLiteral(s) => Value::create_string(s.clone()),
            Literal::NumberLiteral(n) => Value::create_number(*n),
            Literal::BooleanLiteral(b) => Value::create_boolean(*b),
            Literal::NullLiteral => Value::create_nil(),
        }
    }

    pub fn visit_expression(&mut self, expression: &Expression) -> (v: Value)
        requires
            expr_wf(expression.model()),
        ensures
            v@ == eval_spec(expression.model()).value,
            value_wf(v@),
            final(self).error_handler.recs() == old(self).error_handler.recs() + eval_spec(
                expression.model(),
            ).errors,
            final(self).error_handler.had_error == (old(self).error_handler.had_error || eval_spec(
                expression.model(),
            ).errors.len() > 0),
            final(self).error_handler.path_name@ == old(self).error_handler.path_name@,
        decreases *expression, 1int,
    {
        self.evaluate(expression)
    }

    pub fn is_suport_operator(&self, operator: &TokenEnum, value: &Value) -> (r: bool)
        ensures
            r == binary_supported(*operator, value@),
    {
        self.check_suport_binary_operator(operator, value)
    }

    /// Whether two values are equal: same-kind values by content,
    /// numbers by numeric value, different kinds never.
    pub fn is_equal(&self, left: &Value, right: &Value) -> (r: bool)
        requires
            value_wf(left@),
            value_wf(right@),
        ensures
            r == values_equal_spec(left@, right@),
    {
        match (left, right) {
            (Value::Number(a), Value::Number(b)) => a.same_value(b),
            (Value::String(a), Value::String(b)) => crate::text::eq_str(a.as_str(), b.as_str()),
            (Value::Boolean(a), Value::Boolean(b)) => *a == *b,
            (Value::Nil, Value::Nil) => true,
            _ => false,
        }
    }

    pub fn check_suport_binary_operator(&self, operator: &TokenEnum, value: &Value) -> (r: bool)
        ensures
            r == binary_supported(*operator, value@),
    {
        match (operator, value) {
            (TokenEnum::Plus, Value::Number(_)) => true,
            (TokenEnum::Plus, Value::String(_)) => true,
            (TokenEnum::Minus, Value::Number(_)) => true,
            (TokenEnum::Star, Value::Number(_)) => true,
            (TokenEnum::Slash, Value::Number(_)) => true,
            (TokenEnum::Greater, Value::Number(_)) => true,
            (TokenEnum::Less, Value::Number(_)) => true,
            (TokenEnum::GreaterEqual, Value::Number(_)) => true,
            (TokenEnum::LessEqual, Value::Number(_)) => true,
            _ => false,
        }
    }

    pub fn check_suport_unary_operator(&self, operator: &TokenEnum, value: &Value) -> (r: bool)
        ensures
            r == unary_supported(*operator, value@),
    {
        match (operator, value) {
            (TokenEnum::Bang, _) => true,
            (TokenEnum::Minus, Value::Number(_)) => true,
            _ => false,
        }
    }

    pub fn is_number(&self, value: &Value) -> (r: bool)
        ensures
            r == (value@ is Num),
    {
        match value {
            Value::Number(_) => true,
            _ => false,
        }
    }

    pub fn is_string(&self, value: &Value) -> (r: bool)
        ensures
            r == (value@ is Str),
    {
        match value {
            Value::String(_) => true,
            _ => false,
        }
    }

    fn is_truthy(&self, value: &Value) -> (r: bool)
        ensures
            r == truthy_spec(value@),
    {
        value.is_truthy()
    }
}

/// Evaluating an arithmetic node over two finite numbers yields the
/// exact result of the corresponding fraction operation and reports
/// nothing, save the overflow report when the reduced fraction cannot
/// be held; the tree's shape alone fixes the order of operations.
pub proof fn lemma_eval_arithmetic(op: crate::tokens::TokenModel, a: Number, b: Number)
    requires
        a.wf(),
        b.wf(),
        a is Finite,
        b is Finite,
    ensures
        op.kind == TokenEnum::Plus ==> eval_spec(
            ExprModel::Binary {
                op,
                left: Box::new(ExprModel::Lit { lit: LitModel::Num(a) }),
                right: Box::new(ExprModel::Lit { lit: LitModel::Num(b) }),
            },
        ) == num_out(add_spec(a, b), op.line, Seq::empty()),
        op.kind == TokenEnum::Minus ==> eval_spec(
            ExprModel::Binary {
                op,
                left: Box::new(ExprModel::Lit { lit: LitModel::Num(a) }),
                right: Box::new(ExprModel::Lit { lit: LitModel::Num(b) }),
            },
        ) == num_out(sub_spec(a, b), op.line, Seq::empty()),
        op.kind == TokenEnum::Star ==> eval_spec(
            ExprModel::Binary {
                op,
                left: Box::new(ExprModel::Lit { lit: LitModel::Num(a) }),
                right: Box::new(ExprModel::Lit { lit: LitModel::Num(b) }),
            },
        ) == num_out(mul_spec(a, b), op.line, Seq::empty()),
        op.kind == TokenEnum::Slash ==> eval_spec(
            ExprModel::Binary {
                op,
                left: Box::new(ExprModel::Lit { lit: LitModel::Num(a) }),
                right: Box::new(ExprModel::Lit { lit: LitModel::Num(b) }),
            },
        ) == num_out(div_spec(a, b), op.line, Seq::empty()),
{
    let e = ExprModel::Binary {
        op,
        left: Box::new(ExprModel::Lit { lit: LitModel::Num(a) }),
        right: Box::new(ExprModel::Lit { lit: LitModel::Num(b) }),
    };
    reveal_with_fuel(eval_spec, 3);
    if op.kind == TokenEnum::Plus {
        assert(eval_spec(e) =~~= num_out(add_spec(a, b), op.line, Seq::empty()));
    } else if op.kind == TokenEnum::Minus {
        assert(eval_spec(e) =~~= num_out(sub_spec(a, b), op.line, Seq::empty()));
    } else if op.kind == TokenEnum::Star {
        assert(eval_spec(e) =~~= num_out(mul_spec(a, b), op.line, Seq::empty()));
    } else if op.kind == TokenEnum::Slash {
        assert(eval_spec(e) =~~= num_out(div_spec(a, b), op.line, Seq::empty()));
    }
}

} // verus!
