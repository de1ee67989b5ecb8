use lox::ast::{Expression, Literal};
use lox::diagnostics::ErrorHandler;
use lox::evaluator::Evaluator;
use lox::number::Number;
use lox::parser::Parser;
use lox::print_visitor::PrintVisitor;
use lox::run_code;
use lox::scanner::{check_keyword, Scanner};
use lox::tokens::{Token, TokenEnum};
use lox::values::Value;

fn eval_display(source: &str) -> (String, bool) {
    let outcome = run_code(source, "test");
    let text = match &outcome.value {
        Some(v) => v.display(),
        None => String::new(),
    };
    (text, outcome.had_error)
}

#[test]
fn precedence_parses_product_under_sum() {
    let mut scanner = Scanner::new(String::from("1 + 2 * 3"), "test");
    scanner.scan_tokens();
    assert!(!scanner.error_handler.had_error);
    let mut parser = Parser::new(scanner.tokens, "test");
    let ast = parser.parse().expect("parses");
    match ast {
        Expression::BinaryExpression(b) => {
            assert_eq!(b.operator.kind, TokenEnum::Plus);
            match *b.left {
                Expression::Literal(Literal::NumberLiteral(_)) => {}
                _ => panic!("left operand should be the literal 1"),
            }
            match *b.right {
                Expression::BinaryExpression(inner) => {
                    assert_eq!(inner.operator.kind, TokenEnum::Star);
                }
                _ => panic!("right operand should be the product"),
            }
        }
        _ => panic!("top node should be the sum"),
    }
}

#[test]
fn precedence_evaluates_product_first() {
    let (text, had_error) = eval_display("1 + 2 * 3");
    assert!(!had_error);
    assert_eq!(text, "7");
}

#[test]
fn grouping_overrides_precedence() {
    let (text, had_error) = eval_display("(1 + 2) * 3");
    assert!(!had_error);
    assert_eq!(text, "9");
}

#[test]
fn string_concatenation() {
    let (text, had_error) = eval_display("\"a\" + \"b\"");
    assert!(!had_error);
    assert_eq!(text, "\"ab\"");
}

#[test]
fn number_addition() {
    let (text, had_error) = eval_display("1 + 1");
    assert!(!had_error);
    assert_eq!(text, "2");
}

#[test]
fn type_error_is_reported_not_fatal() {
    let outcome = run_code("\"a\" > 1", "test");
    assert!(outcome.had_error);
    assert!(outcome.value.is_some());
    assert!(!outcome.diagnostics.is_empty());
    let rendered = outcome.diagnostics[0].render();
    assert!(rendered.contains("Unsupported operator"));
}

#[test]
fn unterminated_string_reports_and_ends_with_end_of_file() {
    let mut scanner = Scanner::new(String::from("\"abc"), "test");
    scanner.scan_tokens();
    assert!(scanner.error_handler.had_error);
    let rendered = scanner.error_handler.records[0].render();
    assert_eq!(rendered, "[line 1] Error: Unterminated string.");
    let last = scanner.tokens.last().expect("token sequence is never empty");
    assert_eq!(last.kind, TokenEnum::EndOfFile);
}

#[test]
fn display_drops_zero_fraction() {
    let (text, had_error) = eval_display("3.0");
    assert!(!had_error);
    assert_eq!(text, "3");
}

#[test]
fn display_keeps_real_fraction() {
    let (text, had_error) = eval_display("3.5");
    assert!(!had_error);
    assert_eq!(text, "3.5");
}

#[test]
fn display_of_plain_values() {
    assert_eq!(Value::create_nil().display(), "nil");
    assert_eq!(Value::create_boolean(true).display(), "true");
    assert_eq!(Value::create_boolean(false).display(), "false");
    assert_eq!(Value::create_string(String::from("hi")).display(), "\"hi\"");
}

#[test]
fn arithmetic_with_fractions_is_exact() {
    let (text, had_error) = eval_display("0.1 + 0.2");
    assert!(!had_error);
    assert_eq!(text, "0.3");
}

#[test]
fn subtraction_and_unary_minus() {
    let (text, _) = eval_display("1 - 3");
    assert_eq!(text, "-2");
    let (text2, _) = eval_display("-(1 + 2)");
    assert_eq!(text2, "-3");
}

#[test]
fn division_by_zero_yields_infinity_silently() {
    let (text, had_error) = eval_display("1 / 0");
    assert!(!had_error);
    assert_eq!(text, "inf");
    let (text2, _) = eval_display("-1 / 0");
    assert_eq!(text2, "-inf");
    let (text3, _) = eval_display("0 / 0");
    assert_eq!(text3, "NaN");
}

#[test]
fn comparisons_on_numbers() {
    let (text, _) = eval_display("1 + 2 > 2");
    assert_eq!(text, "true");
    let (text2, _) = eval_display("2 <= 1");
    assert_eq!(text2, "false");
}

#[test]
fn bang_uses_truthiness() {
    let (text, _) = eval_display("!0");
    assert_eq!(text, "true");
    let (text2, _) = eval_display("!1");
    assert_eq!(text2, "false");
    let (text3, _) = eval_display("!nil");
    assert_eq!(text3, "true");
    let (text4, _) = eval_display("!\"\"");
    assert_eq!(text4, "true");
}

#[test]
fn unary_minus_on_string_is_runtime_error() {
    let outcome = run_code("-\"a\"", "test");
    assert!(outcome.had_error);
    let rendered = outcome.diagnostics[0].render();
    assert_eq!(rendered, "[line 1] Error: Unsupported operator, expected a number.");
}

#[test]
fn comments_and_whitespace_are_skipped() {
    let (text, had_error) = eval_display("// note\n 1 + 1");
    assert!(!had_error);
    assert_eq!(text, "2");
}

#[test]
fn missing_closing_paren_is_syntax_error() {
    let outcome = run_code("(1 + 2", "test");
    assert!(outcome.had_error);
    assert!(outcome.value.is_none());
    let rendered = outcome.diagnostics[0].render();
    assert_eq!(rendered, "[line 1] Error at end: Expected ')' after expression.");
}

#[test]
fn stray_token_is_syntax_error_with_lexeme() {
    let outcome = run_code("*", "test");
    assert!(outcome.had_error);
    let rendered = outcome.diagnostics[0].render();
    assert_eq!(rendered, "[line 1] Error at '*': Expected expression.");
}

#[test]
fn unexpected_character_is_lexical_error() {
    let mut scanner = Scanner::new(String::from("1 + @"), "test");
    scanner.scan_tokens();
    assert!(scanner.error_handler.had_error);
    let rendered = scanner.error_handler.records[0].render();
    assert_eq!(rendered, "[line 1] Error: Unexpected character: @");
}

#[test]
fn keywords_are_classified() {
    assert_eq!(check_keyword("and"), Some(TokenEnum::And));
    assert_eq!(check_keyword("or"), Some(TokenEnum::Or));
    assert_eq!(check_keyword("orchid"), None);
    let mut scanner = Scanner::new(String::from("true or false"), "test");
    scanner.scan_tokens();
    let kinds: Vec<TokenEnum> = scanner.tokens.iter().map(|t| t.kind).collect();
    assert_eq!(
        kinds,
        vec![TokenEnum::True, TokenEnum::Or, TokenEnum::False, TokenEnum::EndOfFile]
    );
}

#[test]
fn maximal_munch_on_two_character_operators() {
    let mut scanner = Scanner::new(String::from("== = <= < >= > !"), "test");
    scanner.scan_tokens();
    let kinds: Vec<TokenEnum> = scanner.tokens.iter().map(|t| t.kind).collect();
    assert_eq!(
        kinds,
        vec![
            TokenEnum::EqualEqual,
            TokenEnum::Equal,
            TokenEnum::LessEqual,
            TokenEnum::Less,
            TokenEnum::GreaterEqual,
            TokenEnum::Greater,
            TokenEnum::Bang,
            TokenEnum::EndOfFile
        ]
    );
}

#[test]
fn string_literal_token_carries_content_and_line() {
    let mut scanner = Scanner::new(String::from("\"one\ntwo\""), "test");
    scanner.scan_tokens();
    assert!(!scanner.error_handler.had_error);
    let t = &scanner.tokens[0];
    assert_eq!(t.kind, TokenEnum::StringLiteral);
    assert_eq!(t.literal, "one\ntwo");
    assert_eq!(t.line, 2);
}

#[test]
fn token_to_string_names_kind_lexeme_and_literal() {
    let t = Token::new(
        TokenEnum::NumberLiteral,
        String::from("42"),
        String::from("42"),
        1,
    );
    assert_eq!(t.to_string(), "NumberLiteral 42 42");
}

#[test]
fn equality_operators_have_no_evaluation_rule() {
    let outcome = run_code("1 == 1", "test");
    assert!(outcome.had_error);
    assert!(outcome.value.is_some());
}

#[test]
fn printer_renders_nodes() {
    let mut scanner = Scanner::new(String::from("-(1 + 2)"), "test");
    scanner.scan_tokens();
    let mut parser = Parser::new(scanner.tokens, "test");
    let ast = parser.parse().expect("parses");
    let mut visitor = PrintVisitor;
    let text = visitor.print_expression(&ast);
    assert_eq!(text, "-(1)");
}

#[test]
fn evaluator_helpers_check_operands() {
    let evaluator = Evaluator::new("test");
    let one = Value::create_number(Number::Finite { num: 1, den: 1 });
    let hello = Value::create_string(String::from("hello"));
    assert!(evaluator.check_suport_binary_operator(&TokenEnum::Plus, &one));
    assert!(evaluator.check_suport_binary_operator(&TokenEnum::Plus, &hello));
    assert!(!evaluator.check_suport_binary_operator(&TokenEnum::Star, &hello));
    assert!(!evaluator.check_suport_binary_operator(&TokenEnum::EqualEqual, &one));
    assert!(evaluator.check_suport_unary_operator(&TokenEnum::Minus, &one));
    assert!(!evaluator.check_suport_unary_operator(&TokenEnum::Minus, &hello));
    assert!(evaluator.check_suport_unary_operator(&TokenEnum::Bang, &one));
    assert!(evaluator.check_suport_unary_operator(&TokenEnum::Bang, &hello));
    assert!(evaluator.check_suport_unary_operator(&TokenEnum::Bang, &Value::create_nil()));
    assert!(!evaluator.check_suport_unary_operator(&TokenEnum::Star, &one));
    assert!(evaluator.is_equal(&one, &Value::create_number(Number::Finite { num: 2, den: 2 })));
    assert!(!evaluator.is_equal(&one, &hello));
}

#[test]
fn error_handler_starts_clear_and_records() {
    let mut handler = ErrorHandler::new("unit");
    assert!(!handler.had_error);
    handler.error(3, "something odd");
    assert!(handler.had_error);
    assert_eq!(handler.records[0].render(), "[line 3] Error: something odd");
    handler.report(4, " at 'x'", "strange");
    assert_eq!(handler.records[1].render(), "[line 4] Error at 'x': strange");
}

#[test]
fn non_terminating_quotient_keeps_fraction_form() {
    let (text, had_error) = eval_display("1 / 3");
    assert!(!had_error);
    assert_eq!(text, "1/3");
}

#[test]
fn mixed_pairing_under_plus_has_its_own_report() {
    let outcome = run_code("1 + \"a\"", "test");
    assert!(outcome.had_error);
    assert_eq!(outcome.diagnostics.len(), 1);
    let rendered = outcome.diagnostics[0].render();
    assert_eq!(
        rendered,
        "[line 1] Error: Unsupported operand pairing, expected two numbers or two strings."
    );
}
