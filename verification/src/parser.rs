//! The recursive-descent, precedence-climbing parser: it consumes the
//! token sequence through a monotonically advancing cursor and builds
//! an expression tree, reporting a syntax error to the sink and
//! returning nothing on the first unrecoverable error.
use vstd::prelude::*;

use crate::ast::{
    BinaryExpression, ExprModel, Expression, GroupingExpression, LitModel, Literal,
    UnaryExpression, expr_wf,
};
use crate::diagnostics::{error_record, DiagnosticModel, ErrorHandler};
use crate::number::{from_decimal_spec, Number};
use crate::tokens::{Token, TokenEnum, TokenModel};

verus! {

/// What parsing one grammar rule yields: a tree and the cursor after
/// it, or the one syntax error that aborted the parse.
pub ghost enum PRes {
    Parsed { expr: ExprModel, pos: int },
    Failed { rec: DiagnosticModel },
}

/// The report for a syntax error at a token: the end of the input is
/// named as such, any other token by its lexeme.
pub open spec fn tok_err(t: TokenModel, msg: Seq<char>) -> DiagnosticModel {
    if t.kind == TokenEnum::EndOfFile {
        error_record(t.line, " at end"@, msg)
    } else {
        error_record(t.line, " at '"@ + t.lexeme + "'"@, msg)
    }
}

pub open spec fn dummy_err() -> DiagnosticModel {
    error_record(0, Seq::empty(), Seq::empty())
}

pub open spec fn parse_primary_spec(toks: Seq<TokenModel>, pos: int) -> PRes
    decreases toks.len() - pos, 0int,
{
    if !(0 <= pos < toks.len()) {
        PRes::Failed { rec: dummy_err() }
    } else {
        let t = toks[pos];
        if t.kind == TokenEnum::False {
            PRes::Parsed { expr: ExprModel::Lit { lit: LitModel::Bool(false) }, pos: pos + 1 }
        } else if t.kind == TokenEnum::True {
            PRes::Parsed { expr: ExprModel::Lit { lit: LitModel::Bool(true) }, pos: pos + 1 }
        } else if t.kind == TokenEnum::Nil {
            PRes::Parsed { expr: ExprModel::Lit { lit: LitModel::Null }, pos: pos + 1 }
        } else if t.kind == TokenEnum::StringLiteral {
            PRes::Parsed { expr: ExprModel::Lit { lit: LitModel::Str(t.literal) }, pos: pos + 1 }
        } else if t.kind == TokenEnum::NumberLiteral {
            match from_decimal_spec(t.literal) {
                Some(n) => PRes::Parsed { expr: ExprModel::Lit { lit: LitModel::Num(n) }, pos: pos + 1 },
                None => PRes::Failed { rec: tok_err(t, "Number literal is too large."@) },
            }
        } else if t.kind == TokenEnum::LeftParen {
            match parse_expression_spec(toks, pos + 1) {
                PRes::Failed { rec } => PRes::Failed { rec },
                PRes::Parsed { expr, pos: p2 } => {
                    if 0 <= p2 < toks.len() && toks[p2].kind == TokenEnum::RightParen {
                        PRes::Parsed {
                            expr: ExprModel::Grouping { inner: Box::new(expr) },
                            pos: p2 + 1,
                        }
                    } else if 0 <= p2 < toks.len() {
                        PRes::Failed { rec: tok_err(toks[p2], "Expected ')' after expression."@) }
                    } else {
                        PRes::Failed { rec: dummy_err() }
                    }
                },
            }
        } else {
            PRes::Failed { rec: tok_err(t, "Expected expression."@) }
        }
    }
}

pub open spec fn parse_unary_spec(toks: Seq<TokenModel>, pos: int) -> PRes
    decreases toks.len() - pos, 1int,
{
    if !(0 <= pos < toks.len()) {
        PRes::Failed { rec: dummy_err() }
    } else {
        let t = toks[pos];
        if t.kind == TokenEnum::Bang || t.kind == TokenEnum::Minus {
            match parse_unary_spec(toks, pos + 1) {
                PRes::Failed { rec } => PRes::Failed { rec },
                PRes::Parsed { expr, pos: p2 } => PRes::Parsed {
                    expr: ExprModel::Unary { op: t, right: Box::new(expr) },
                    pos: p2,
                },
            }
        } else {
            parse_primary_spec(toks, pos)
        }
    }
}

pub open spec fn factor_op(k: TokenEnum) -> bool {
    k == TokenEnum::Slash || k == TokenEnum::Star
}

pub open spec fn term_op(k: TokenEnum) -> bool {
    k == TokenEnum::Plus || k == TokenEnum::Minus
}

pub open spec fn comparison_op(k: TokenEnum) -> bool {
    k == TokenEnum::Greater || k == TokenEnum::Less || k == TokenEnum::GreaterEqual || k
        == TokenEnum::LessEqual
}

pub open spec fn equality_op(k: TokenEnum) -> bool {
    k == TokenEnum::BangEqual || k == TokenEnum::EqualEqual
}

pub open spec fn factor_tail(toks: Seq<TokenModel>, acc: ExprModel, pos: int) -> PRes
    decreases toks.len() - pos, 2int,
{
    if 0 <= pos < toks.len() && factor_op(toks[pos].kind) {
        let op = toks[pos];
        match parse_unary_spec(toks, pos + 1) {
            PRes::Failed { rec } => PRes::Failed { rec },
            PRes::Parsed { expr, pos: p2 } => {
                if p2 > pos && p2 <= toks.len() {
                    factor_tail(
                        toks,
                        ExprModel::Binary { op, left: Box::new(acc), right: Box::new(expr) },
                        p2,
                    )
                } else {
                    PRes::Failed { rec: dummy_err() }
                }
            },
        }
    } else {
        PRes::Parsed { expr: acc, pos }
    }
}

pub open spec fn parse_factor_spec(toks: Seq<TokenModel>, pos: int) -> PRes
    decreases toks.len() - pos, 3int,
{
    match parse_unary_spec(toks, pos) {
        PRes::Failed { rec } => PRes::Failed { rec },
        PRes::Parsed { expr, pos: p } => {
            if p > pos && p <= toks.len() {
                factor_tail(toks, expr, p)
            } else {
                PRes::Failed { rec: dummy_err() }
            }
        },
    }
}

pub open spec fn term_tail(toks: Seq<TokenModel>, acc: ExprModel, pos: int) -> PRes
    decreases toks.len() - pos, 4int,
{
    if 0 <= pos < toks.len() && term_op(toks[pos].kind) {
        let op = toks[pos];
        match parse_factor_spec(toks, pos + 1) {
            PRes::Failed { rec } => PRes::Failed { rec },
            PRes::Parsed { expr, pos: p2 } => {
                if p2 > pos && p2 <= toks.len() {
                    term_tail(
                        toks,
                        ExprModel::Binary { op, left: Box::new(acc), right: Box::new(expr) },
                        p2,
                    )
                } else {
                    PRes::Failed { rec: dummy_err() }
                }
            },
        }
    } else {
        PRes::Parsed { expr: acc, pos }
    }
}

pub open spec fn parse_term_spec(toks: Seq<TokenModel>, pos: int) -> PRes
    decreases toks.len() - pos, 5int,
{
    match parse_factor_spec(toks, pos) {
        PRes::Failed { rec } => PRes::Failed { rec },
        PRes::Parsed { expr, pos: p } => {
            if p > pos && p <= toks.len() {
                term_tail(toks, expr, p)
            } else {
                PRes::Failed { rec: dummy_err() }
            }
        },
    }
}

pub open spec fn comparison_tail(toks: Seq<TokenModel>, acc: ExprModel, pos: int) -> PRes
    decreases toks.len() - pos, 6int,
{
    if 0 <= pos < toks.len() && comparison_op(toks[pos].kind) {
        let op = toks[pos];
        match parse_term_spec(toks, pos + 1) {
            PRes::Failed { rec } => PRes::Failed { rec },
            PRes::Parsed { expr, pos: p2 } => {
                if p2 > pos && p2 <= toks.len() {
                    comparison_tail(
                        toks,
                        ExprModel::Binary { op, left: Box::new(acc), right: Box::new(expr) },
                        p2,
                    )
                } else {
                    PRes::Failed { rec: dummy_err() }
                }
            },
        }
    } else {
        PRes::Parsed { expr: acc, pos }
    }
}

pub open spec fn parse_comparison_spec(toks: Seq<TokenModel>, pos: int) -> PRes
    decreases toks.len() - pos, 7int,
{
    match parse_term_spec(toks, pos) {
        PRes::Failed { rec } => PRes::Failed { rec },
        PRes::Parsed { expr, pos: p } => {
            if p > pos && p <= toks.len() {
                comparison_tail(toks, expr, p)
            } else {
                PRes::Failed { rec: dummy_err() }
            }
        },
    }
}

pub open spec fn equality_tail(toks: Seq<TokenModel>, acc: ExprModel, pos: int) -> PRes
    decreases toks.len() - pos, 8int,
{
    if 0 <= pos < toks.len() && equality_op(toks[pos].kind) {
        let op = toks[pos];
        match parse_comparison_spec(toks, pos + 1) {
            PRes::Failed { rec } => PRes::Failed { rec },
            PRes::Parsed { expr, pos: p2 } => {
                if p2 > pos && p2 <= toks.len() {
                    equality_tail(
                        toks,
                        ExprModel::Binary { op, left: Box::new(acc), right: Box::new(expr) },
                        p2,
                    )
                } else {
                    PRes::Failed { rec: dummy_err() }
                }
            },
        }
    } else {
        PRes::Parsed { expr: acc, pos }
    }
}

pub open spec fn parse_equality_spec(toks: Seq<TokenModel>, pos: int) -> PRes
    decreases toks.len() - pos, 9int,
{
    match parse_comparison_spec(toks, pos) {
        PRes::Failed { rec } => PRes::Failed { rec },
        PRes::Parsed { expr, pos: p } => {
            if p > pos && p <= toks.len() {
                equality_tail(toks, expr, p)
            } else {
                PRes::Failed { rec: dummy_err() }
            }
        },
    }
}

/// The grammar's start rule: the lowest-precedence level.
pub open spec fn parse_expression_spec(toks: Seq<TokenModel>, pos: int) -> PRes
    decreases toks.len() - pos, 10int,
{
    parse_equality_spec(toks, pos)
}

/// The token sequences the parser accepts as input: at least the
/// end-of-input token, standing exactly at the end.
pub open spec fn tokens_shape(ts: Seq<TokenModel>) -> bool {
    &&& ts.len() >= 1
    &&& ts.last().kind == TokenEnum::EndOfFile
    &&& forall|i: int| 0 <= i < ts.len() - 1 ==> ts[i].kind != TokenEnum::EndOfFile
}

/// Whether a kind stands among the expected ones.
fn kind_among(expecteds: &Vec<TokenEnum>, kind: TokenEnum) -> (r: bool)
    ensures
        r == (exists|k: int| 0 <= k < expecteds@.len() && expecteds@[k] == kind),
{
    let mut k: usize = 0;
    while k < expecteds.len()
        invariant
            k <= expecteds@.len(),
            forall|j: int| 0 <= j < k ==> expecteds@[j] != kind,
        decreases expecteds@.len() - k,
    {
        if expecteds[k] == kind {
            return true;
        }
        k = k + 1;
    }
    false
}

/// The parser's state: the owned token sequence, the cursor, and its
/// diagnostics sink.
pub struct Parser {
    pub tokens: Vec<Token>,
    pub current_token_pointer: usize,
    pub error_handler: ErrorHandler,
}

impl Parser {
    /// The models of the tokens being parsed.
    pub open spec fn toksm(self) -> Seq<TokenModel> {
        self.tokens@.map_values(|t: Token| t@)
    }

    pub open spec fn wf(self) -> bool {
        &&& tokens_shape(self.toksm())
        &&& self.current_token_pointer < self.toksm().len()
    }
}

/// What every grammar rule guarantees: on success the tree mirrors the
/// rule's meaning and the cursor stands right after it; on failure the
/// one syntax error has been recorded.
pub open spec fn rule_post(pre: Parser, post: Parser, r: Option<Expression>, res: PRes) -> bool {
    &&& post.wf()
    &&& post.tokens == pre.tokens
    &&& post.error_handler.path_name@ == pre.error_handler.path_name@
    &&& match res {
        PRes::Parsed { expr, pos } => {
            &&& r matches Some(e) && e.model() == expr && expr_wf(expr)
            &&& post.current_token_pointer == pos
            &&& pos > pre.current_token_pointer
            &&& post.error_handler == pre.error_handler
        },
        PRes::Failed { rec } => {
            &&& r is None
            &&& post.error_handler.recs() == pre.error_handler.recs().push(rec)
            &&& post.error_handler.had_error
        },
    }
}

impl Parser {
    /// Takes the finished token sequence; the cursor starts at the
    /// front and only ever moves forward.
    pub fn new(tokens: Vec<Token>, path_name: &str) -> (r: Parser)
        requires
            tokens_shape(tokens@.map_values(|t: Token| t@)),
        ensures
            r.wf(),
            r.toksm() == tokens@.map_values(|t: Token| t@),
            r.current_token_pointer == 0,
            !r.error_handler.had_error,
            r.error_handler.recs() == Seq::<DiagnosticModel>::empty(),
            r.error_handler.path_name@ == path_name@,
    {
        Parser { tokens, current_token_pointer: 0, error_handler: ErrorHandler::new(path_name) }
    }

    pub fn is_at_end(&self) -> (r: bool)
        ensures
            r == (self.current_token_pointer >= self.toksm().len()),
    {
        self.current_token_pointer >= self.tokens.len()
    }

    pub fn peek(&self) -> (r: &Token)
        requires
            self.current_token_pointer < self.toksm().len(),
        ensures
            r@ == self.toksm()[self.current_token_pointer as int],
    {
        &self.tokens[self.current_token_pointer]
    }

    pub fn peek_next(&self) -> (r: &Token)
        requires
            self.current_token_pointer + 1 < self.toksm().len(),
        ensures
            r@ == self.toksm()[self.current_token_pointer + 1],
    {
        let n = self.tokens.len();
        &self.tokens[self.current_token_pointer + 1]
    }

    pub fn get_previous_token(&self) -> (r: &Token)
        requires
            1 <= self.current_token_pointer < self.toksm().len() + 1,
            self.toksm().len() >= 1,
        ensures
            r@ == self.toksm()[self.current_token_pointer - 1],
    {
        &self.tokens[self.current_token_pointer - 1]
    }

    /// Moves the cursor one token forward, never past the end-of-input
    /// token, and hands back the token just consumed.
    pub fn advance(&mut self) -> (t: Token)
        requires
            old(self).wf(),
        ensures
            final(self).wf(),
            final(self).tokens == old(self).tokens,
            final(self).error_handler == old(self).error_handler,
            old(self).current_token_pointer + 1 < old(self).toksm().len() ==> final(self).current_token_pointer == old(self).current_token_pointer + 1 && t@ == old(self).toksm()[old(self).current_token_pointer as int],
            old(self).current_token_pointer + 1 >= old(self).toksm().len() ==> final(self).current_token_pointer == old(self).current_token_pointer && t@ == old(self).toksm()[
                if old(self).current_token_pointer >= 1 {
                    old(self).current_token_pointer - 1
                } else {
                    0
                }],
    {
        if self.tokens.len() - self.current_token_pointer > 1 {
            self.current_token_pointer = self.current_token_pointer + 1;
            let r = self.tokens[self.current_token_pointer - 1].duplicate();
            return r;
        }
        let i = if self.current_token_pointer >= 1 {
            self.current_token_pointer - 1
        } else {
            0
        };
        self.tokens[i].duplicate()
    }

    /// Consumes the next token exactly when it has the expected kind.
    pub fn is_match(&mut self, expected: TokenEnum) -> (r: bool)
        requires
            old(self).wf(),
            expected != TokenEnum::EndOfFile,
        ensures
            final(self).wf(),
            final(self).tokens == old(self).tokens,
            final(self).error_handler == old(self).error_handler,
            r == (old(self).toksm()[old(self).current_token_pointer as int].kind == expected),
            r ==> final(self).current_token_pointer == old(self).current_token_pointer + 1,
            !r ==> final(self).current_token_pointer == old(self).current_token_pointer,
    {
        let n = self.tokens.len();
        if self.current_token_pointer >= n {
            return false;
        }
        if self.tokens[self.current_token_pointer].kind == expected {
            self.current_token_pointer = self.current_token_pointer + 1;
            return true;
        }
        false
    }

    /// Consumes the next token exactly when its kind is one of the
    /// expected ones.
    pub fn is_match_many(&mut self, expecteds: &Vec<TokenEnum>) -> (r: bool)
        requires
            old(self).wf(),
            forall|k: int| 0 <= k < expecteds@.len() ==> expecteds@[k] != TokenEnum::EndOfFile,
        ensures
            final(self).wf(),
            final(self).tokens == old(self).tokens,
            final(self).error_handler == old(self).error_handler,
            r == (exists|k: int|
                0 <= k < expecteds@.len() && old(self).toksm()[old(self).current_token_pointer as int].kind == expecteds@[k]),
            r ==> final(self).current_token_pointer == old(self).current_token_pointer + 1,
            !r ==> final(self).current_token_pointer == old(self).current_token_pointer,
    {
        let n = self.tokens.len();
        if self.current_token_pointer >= n {
            return false;
        }
        let kind = self.tokens[self.current_token_pointer].kind;
        if kind_among(expecteds, kind) {
            self.current_token_pointer = self.current_token_pointer + 1;
            return true;
        }
        false
    }

    /// Whether the token after the next one has the expected kind; the
    /// cursor does not move.
    pub fn is_match_next(&mut self, expected: TokenEnum) -> (r: bool)
        requires
            old(self).wf(),
        ensures
            *final(self) == *old(self),
            r == (old(self).current_token_pointer + 1 < old(self).toksm().len() && old(self).toksm()[old(self).current_token_pointer + 1].kind == expected),
    {
        if self.is_at_end() {
            return false;
        }
        if self.tokens.len() - self.current_token_pointer > 1 {
            self.tokens[self.current_token_pointer + 1].kind == expected
        } else {
            false
        }
    }

    /// Consumes the expected token, or records the syntax error and
    /// leaves the cursor in place.
    pub fn consume_expected(&mut self, expected: TokenEnum, message: &str) -> (r: bool)
        requires
            old(self).wf(),
            expected != TokenEnum::EndOfFile,
        ensures
            final(self).wf(),
            final(self).tokens == old(self).tokens,
            final(self).error_handler.path_name@ == old(self).error_handler.path_name@,
            old(self).toksm()[old(self).current_token_pointer as int].kind == expected ==> r
                && final(self).current_token_pointer == old(self).current_token_pointer + 1 && final(self).error_handler == old(self).error_handler,
            old(self).toksm()[old(self).current_token_pointer as int].kind != expected ==> !r
                && final(self).current_token_pointer == old(self).current_token_pointer && final(self).error_handler.recs() == old(self).error_handler.recs().push(
                tok_err(old(self).toksm()[old(self).current_token_pointer as int], message@),
            ) && final(self).error_handler.had_error,
    {
        if !self.is_match(expected) {
            let token = self.peek().duplicate();
            self.error(token, message);
            return false;
        }
        true
    }

    /// Records a syntax error at a token, naming the end of the input
    /// or the token's lexeme.
    pub fn error(&mut self, token: Token, message: &str)
        ensures
            final(self).tokens == old(self).tokens,
            final(self).current_token_pointer == old(self).current_token_pointer,
            final(self).error_handler.path_name@ == old(self).error_handler.path_name@,
            final(self).error_handler.recs() == old(self).error_handler.recs().push(
                tok_err(token@, message@),
            ),
            final(self).error_handler.had_error,
    {
        if matches!(token.kind, TokenEnum::EndOfFile) {
            self.error_handler.report(token.line, " at end", message);
            return;
        }
        let mut hint = String::from_str(" at '");
        hint.append(token.lexeme.as_str());
        hint.append("'");
        self.error_handler.report(token.line, hint.as_str(), message);
    }
}

impl Parser {
    /// primary := NUMBER | STRING | "true" | "false" | "nil" | "(" expression ")"
    pub fn parse_primary(&mut self) -> (r: Option<Expression>)
        requires
            old(self).wf(),
        ensures
            rule_post(
                *old(self),
                *final(self),
                r,
                parse_primary_spec(old(self).toksm(), old(self).current_token_pointer as int),
            ),
        decreases self.tokens.len() - self.current_token_pointer, 0int,
    {
        if self.is_match(TokenEnum::False) {
            return Some(Expression::Literal(Literal::BooleanLiteral(false)));
        }
        if self.is_match(TokenEnum::True) {
            return Some(Expression::Literal(Literal::BooleanLiteral(true)));
        }
        if self.is_match(TokenEnum::Nil) {
            return Some(Expression::Literal(Literal::NullLiteral));
        }
        if self.is_match(TokenEnum::StringLiteral) {
            let prev = self.get_previous_token();
            let literal = Literal::StringLiteral(prev.literal.clone());
            return Some(Expression::Literal(literal));
        }
        if self.is_match(TokenEnum::NumberLiteral) {
            let parsed = Number::from_decimal_str(self.get_previous_token().literal.as_str());
            match parsed {
                Some(n) => {
                    return Some(Expression::Literal(Literal::NumberLiteral(n)));
                },
                None => {
                    let token = self.get_previous_token().duplicate();
                    self.error(token, "Number literal is too large.");
                    return None;
                },
            }
        }
        if self.is_match(TokenEnum::LeftParen) {
            let inner = match self.parse_expression() {
                Some(e) => e,
                None => {
                    return None;
                },
            };
            if self.consume_expected(TokenEnum::RightParen, "Expected ')' after expression.") {
                return Some(Expression::GroupingExpression(GroupingExpression::new(inner)));
            }
            return None;
        }
        let token = self.peek().duplicate();
        self.error(token, "Expected expression.");
        None
    }

    /// unary := ("!" | "-") unary | primary
    pub fn parse_unary(&mut self) -> (r: Option<Expression>)
        requires
            old(self).wf(),
        ensures
            rule_post(
                *old(self),
                *final(self),
                r,
                parse_unary_spec(old(self).toksm(), old(self).current_token_pointer as int),
            ),
        decreases self.tokens.len() - self.current_token_pointer, 1int,
    {
        if self.is_match(TokenEnum::Bang) {
            let operator = self.get_previous_token().duplicate();
            let right_expression = match self.parse_unary() {
                Some(e) => e,
                None => {
                    return None;
                },
            };
            let unary_expression = UnaryExpression::new(operator, right_expression);
            return Some(Expression::UnaryExpression(unary_expression));
        }
        if self.is_match(TokenEnum::Minus) {
            let operator = self.get_previous_token().duplicate();
            let right_expression = match self.parse_unary() {
                Some(e) => e,
                None => {
                    return None;
                },
            };
            let unary_expression = UnaryExpression::new(operator, right_expression);
            return Some(Expression::UnaryExpression(unary_expression));
        }
        self.parse_primary()
    }

    #[verifier::rlimit(100)]
    /// factor := unary ( ("*" | "/") unary )*
    pub fn parse_factor(&mut self) -> (r: Option<Expression>)
        requires
            old(self).wf(),
        ensures
            rule_post(
                *old(self),
                *final(self),
                r,
                parse_factor_spec(old(self).toksm(), old(self).current_token_pointer as int),
            ),
        decreases self.tokens.len() - self.current_token_pointer, 3int,
    {
        let ghost pre = *self;
        let ghost toks = self.toksm();
        let ghost pos0 = self.current_token_pointer as int;
        let mut left_expression = match self.parse_unary() {
            Some(e) => e,
            None => {
                return None;
            },
        };
        let ops: Vec<TokenEnum> = vec![TokenEnum::Slash, TokenEnum::Star];
        loop
            invariant_except_break
                pre == *old(self),
                pos0 == pre.current_token_pointer as int,
                toks == pre.toksm(),
                self.wf(),
                self.tokens == pre.tokens,
                toks == self.toksm(),
                self.error_handler == pre.error_handler,
                expr_wf(left_expression.model()),
                pos0 < self.current_token_pointer,
                ops@ == seq![TokenEnum::Slash, TokenEnum::Star],
                parse_factor_spec(toks, pos0) == factor_tail(
                    toks,
                    left_expression.model(),
                    self.current_token_pointer as int,
                ),
            ensures
                self.wf(),
                self.tokens == pre.tokens,
                self.error_handler == pre.error_handler,
                expr_wf(left_expression.model()),
                pos0 < self.current_token_pointer,
                parse_factor_spec(toks, pos0) == (PRes::Parsed {
                    expr: left_expression.model(),
                    pos: self.current_token_pointer as int,
                }),
            decreases toks.len() - self.current_token_pointer,
        {
            let ghost cur_b4 = self.current_token_pointer as int;
            let ghost acc_b4 = left_expression.model();
            let matched = self.is_match_many(&ops);
            if !matched {
                break;
            }
            let kind_operator = self.get_previous_token().duplicate();
            let right_expression = match self.parse_unary() {
                Some(e) => e,
                None => {
                    proof {
                        assert(factor_tail(toks, acc_b4, cur_b4) == parse_unary_spec(toks, cur_b4 + 1));
                    }
                    return None;
                },
            };
            let binary_expression = BinaryExpression::new(
                kind_operator,
                left_expression,
                right_expression,
            );
            left_expression = Expression::BinaryExpression(binary_expression);
            proof {
                assert(factor_tail(toks, acc_b4, cur_b4) == factor_tail(
                    toks,
                    left_expression.model(),
                    self.current_token_pointer as int,
                ));
            }
        }
        Some(left_expression)
    }

    #[verifier::rlimit(100)]
    /// term := factor ( ("+" | "-") factor )*
    pub fn parse_term(&mut self) -> (r: Option<Expression>)
        requires
            old(self).wf(),
        ensures
            rule_post(
                *old(self),
                *final(self),
                r,
                parse_term_spec(old(self).toksm(), old(self).current_token_pointer as int),
            ),
        decreases self.tokens.len() - self.current_token_pointer, 5int,
    {
        let ghost pre = *self;
        let ghost toks = self.toksm();
        let ghost pos0 = self.current_token_pointer as int;
        let mut left_expression = match self.parse_factor() {
            Some(e) => e,
            None => {
                return None;
            },
        };
        let ops: Vec<TokenEnum> = vec![TokenEnum::Plus, TokenEnum::Minus];
        loop
            invariant_except_break
                pre == *old(self),
                pos0 == pre.current_token_pointer as int,
                toks == pre.toksm(),
                self.wf(),
                self.tokens == pre.tokens,
                toks == self.toksm(),
                self.error_handler == pre.error_handler,
                expr_wf(left_expression.model()),
                pos0 < self.current_token_pointer,
                ops@ == seq![TokenEnum::Plus, TokenEnum::Minus],
                parse_term_spec(toks, pos0) == term_tail(
                    toks,
                    left_expression.model(),
                    self.current_token_pointer as int,
                ),
            ensures
                self.wf(),
                self.tokens == pre.tokens,
                self.error_handler == pre.error_handler,
                expr_wf(left_expression.model()),
                pos0 < self.current_token_pointer,
                parse_term_spec(toks, pos0) == (PRes::Parsed {
                    expr: left_expression.model(),
                    pos: self.current_token_pointer as int,
                }),
            decreases toks.len() - self.current_token_pointer,
        {
            let ghost cur_b4 = self.current_token_pointer as int;
            let ghost acc_b4 = left_expression.model();
            let matched = self.is_match_many(&ops);
            if !matched {
                break;
            }
            let kind_operator = self.get_previous_token().duplicate();
            let right_expression = match self.parse_factor() {
                Some(e) => e,
                None => {
                    proof {
                        assert(term_tail(toks, acc_b4, cur_b4) == parse_factor_spec(toks, cur_b4 + 1));
                    }
                    return None;
                },
            };
            let binary_expression = BinaryExpression::new(
                kind_operator,
                left_expression,
                right_expression,
            );
            left_expression = Expression::BinaryExpression(binary_expression);
            proof {
                assert(term_tail(toks, acc_b4, cur_b4) == term_tail(
                    toks,
                    left_expression.model(),
                    self.current_token_pointer as int,
                ));
            }
        }
        Some(left_expression)
    }

    #[verifier::rlimit(100)]
    /// comparison := term ( (">" | ">=" | "<" | "<=") term )*
    pub fn parse_comparison(&mut self) -> (r: Option<Expression>)
        requires
            old(self).wf(),
        ensures
            rule_post(
                *old(self),
                *final(self),
                r,
                parse_comparison_spec(old(self).toksm(), old(self).current_token_pointer as int),
            ),
        decreases self.tokens.len() - self.current_token_pointer, 7int,
    {
        let ghost pre = *self;
        let ghost toks = self.toksm();
        let ghost pos0 = self.current_token_pointer as int;
        let mut left_expression = match self.parse_term() {
            Some(e) => e,
            None => {
                return None;
            },
        };
        let ops: Vec<TokenEnum> = vec![
            TokenEnum::Greater,
            TokenEnum::Less,
            TokenEnum::GreaterEqual,
            TokenEnum::LessEqual,
        ];
        loop
            invariant_except_break
                pre == *old(self),
                pos0 == pre.current_token_pointer as int,
                toks == pre.toksm(),
                self.wf(),
                self.tokens == pre.tokens,
                toks == self.toksm(),
                self.error_handler == pre.error_handler,
                expr_wf(left_expression.model()),
                pos0 < self.current_token_pointer,
                ops@ == seq![
                    TokenEnum::Greater,
                    TokenEnum::Less,
                    TokenEnum::GreaterEqual,
                    TokenEnum::LessEqual,
                ],
                parse_comparison_spec(toks, pos0) == comparison_tail(
                    toks,
                    left_expression.model(),
                    self.current_token_pointer as int,
                ),
            ensures
                self.wf(),
                self.tokens == pre.tokens,
                self.error_handler == pre.error_handler,
                expr_wf(left_expression.model()),
                pos0 < self.current_token_pointer,
                parse_comparison_spec(toks, pos0) == (PRes::Parsed {
                    expr: left_expression.model(),
                    pos: self.current_token_pointer as int,
                }),
            decreases toks.len() - self.current_token_pointer,
        {
            let ghost cur_b4 = self.current_token_pointer as int;
            let ghost acc_b4 = left_expression.model();
            let matched = self.is_match_many(&ops);
            if !matched {
                break;
            }
            let kind_operator = self.get_previous_token().duplicate();
            let right_expression = match self.parse_term() {
                Some(e) => e,
                None => {
                    proof {
                        assert(comparison_tail(toks, acc_b4, cur_b4) == parse_term_spec(toks, cur_b4 + 1));
                    }
                    return None;
                },
            };
            let binary_expression = BinaryExpression::new(
                kind_operator,
                left_expression,
                right_expression,
            );
            left_expression = Expression::BinaryExpression(binary_expression);
            proof {
                assert(comparison_tail(toks, acc_b4, cur_b4) == comparison_tail(
                    toks,
                    left_expression.model(),
                    self.current_token_pointer as int,
                ));
            }
        }
        Some(left_expression)
    }

    #[verifier::rlimit(100)]
    /// equality := comparison ( ("!=" | "==") comparison )*
    pub fn parse_equality(&mut self) -> (r: Option<Expression>)
        requires
            old(self).wf(),
        ensures
            rule_post(
                *old(self),
                *final(self),
                r,
                parse_equality_spec(old(self).toksm(), old(self).current_token_pointer as int),
            ),
        decreases self.tokens.len() - self.current_token_pointer, 9int,
    {
        let ghost pre = *self;
        let ghost toks = self.toksm();
        let ghost pos0 = self.current_token_pointer as int;
        let mut left_expression = match self.parse_comparison() {
            Some(e) => e,
            None => {
                return None;
            },
        };
        let ops: Vec<TokenEnum> = vec![TokenEnum::BangEqual, TokenEnum::EqualEqual];
        loop
            invariant_except_break
                pre == *old(self),
                pos0 == pre.current_token_pointer as int,
                toks == pre.toksm(),
                self.wf(),
                self.tokens == pre.tokens,
                toks == self.toksm(),
                self.error_handler == pre.error_handler,
                expr_wf(left_expression.model()),
                pos0 < self.current_token_pointer,
                ops@ == seq![TokenEnum::BangEqual, TokenEnum::EqualEqual],
                parse_equality_spec(toks, pos0) == equality_tail(
                    toks,
                    left_expression.model(),
                    self.current_token_pointer as int,
                ),
            ensures
                self.wf(),
                self.tokens == pre.tokens,
                self.error_handler == pre.error_handler,
                expr_wf(left_expression.model()),
                pos0 < self.current_token_pointer,
                parse_equality_spec(toks, pos0) == (PRes::Parsed {
                    expr: left_expression.model(),
                    pos: self.current_token_pointer as int,
                }),
            decreases toks.len() - self.current_token_pointer,
        {
            let ghost cur_b4 = self.current_token_pointer as int;
            let ghost acc_b4 = left_expression.model();
            let matched = self.is_match_many(&ops);
            if !matched {
                break;
            }
            let kind_operator = self.get_previous_token().duplicate();
            let right_expression = match self.parse_comparison() {
                Some(e) => e,
                None => {
                    proof {
                        assert(equality_tail(toks, acc_b4, cur_b4) == parse_comparison_spec(toks, cur_b4 + 1));
                    }
                    return None;
                },
            };
            let binary_expression = BinaryExpression::new(
                kind_operator,
                left_expression,
                right_expression,
            );
            left_expression = Expression::BinaryExpression(binary_expression);
            proof {
                assert(equality_tail(toks, acc_b4, cur_b4) == equality_tail(
                    toks,
                    left_expression.model(),
                    self.current_token_pointer as int,
                ));
            }
        }
        Some(left_expression)
    }

    /// The start rule.
    pub fn parse_expression(&mut self) -> (r: Option<Expression>)
        requires
            old(self).wf(),
        ensures
            rule_post(
                *old(self),
                *final(self),
                r,
                parse_expression_spec(old(self).toksm(), old(self).current_token_pointer as int),
            ),
        decreases self.tokens.len() - self.current_token_pointer, 10int,
    {
        self.parse_equality()
    }

    /// Parses one expression from the token sequence; on a syntax
    /// error nothing is returned and the error stands recorded.
    pub fn parse(&mut self) -> (r: Option<Expression>)
        requires
            old(self).wf(),
        ensures
            rule_post(
                *old(self),
                *final(self),
                r,
                parse_expression_spec(old(self).toksm(), old(self).current_token_pointer as int),
            ),
        decreases self.tokens.len() - self.current_token_pointer, 11int,
    {
        self.parse_expression()
    }
}

} // verus!
