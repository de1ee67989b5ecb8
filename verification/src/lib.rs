//! A small expression language front end: a lexer, a recursive-descent
//! parser, and a tree-walking evaluator, tied together by a diagnostics
//! sink that records lexical, syntax, and runtime errors with line
//! numbers.
use vstd::prelude::*;

pub mod ast;
pub mod diagnostics;
pub mod evaluator;
pub mod number;
pub mod parser;
pub mod print_visitor;
pub mod scanner;
pub mod text;
pub mod tokens;
pub mod values;
pub mod visitor;

use crate::diagnostics::{Diagnostic, DiagnosticModel};
use crate::evaluator::{eval_spec, Evaluator};
use crate::parser::{parse_expression_spec, PRes, Parser};
use crate::scanner::{lemma_scan_rest_shape, scan_rest, Scanner};
use crate::values::{value_wf, Value, ValueModel};

verus! {

/// What running one source text means: the value it denotes, when one
/// stage after another goes through, and the diagnostics of the first
/// stage that failed (scanning errors, then the one syntax error, then
/// the runtime errors of evaluation, which still produce a value).
pub ghost struct RunModel {
    pub value: Option<ValueModel>,
    pub diags: Seq<DiagnosticModel>,
}

pub open spec fn run_spec(src: Seq<char>) -> RunModel {
    let scanned = scan_rest(src, 0, 1);
    if scanned.1.len() > 0 {
        RunModel { value: None, diags: scanned.1 }
    } else {
        match parse_expression_spec(scanned.0, 0) {
            PRes::Failed { rec } => RunModel { value: None, diags: seq![rec] },
            PRes::Parsed { expr, pos } => {
                let out = eval_spec(expr);
                RunModel { value: Some(out.value), diags: out.errors }
            },
        }
    }
}

/// What one run hands back: the value, when the pipeline produced one,
/// the diagnostics recorded, and whether any error occurred.
pub struct RunOutcome {
    pub value: Option<Value>,
    pub diagnostics: Vec<Diagnostic>,
    pub had_error: bool,
}

/// Scans, parses, and evaluates one source text, as `run_spec` says.
pub fn run_code(raw: &str, path_name: &str) -> (r: RunOutcome)
    requires
        raw@.len() + 1 < usize::MAX,
    ensures
        ({
            let m = run_spec(raw@);
            &&& (r.value matches Some(v) ==> m.value matches Some(mv) && v@ == mv && value_wf(v@))
            &&& (r.value is None ==> m.value is None)
            &&& r.diagnostics@.map_values(|d: Diagnostic| d@) == m.diags
            &&& r.had_error == (m.diags.len() > 0)
        }),
{
    let source = String::from_str(raw);
    let mut scanner = Scanner::new(source, path_name);
    scanner.scan_tokens();
    proof {
        lemma_scan_rest_shape(raw@, 0, 1);
    }
    if scanner.error_handler.had_error {
        return RunOutcome {
            value: None,
            diagnostics: scanner.error_handler.records,
            had_error: true,
        };
    }
    let mut parser = Parser::new(scanner.tokens, path_name);
    let parsed = parser.parse();
    match parsed {
        None => {
            return RunOutcome {
                value: None,
                diagnostics: parser.error_handler.records,
                had_error: true,
            };
        },
        Some(ast) => {
            let mut evaluator = Evaluator::new(path_name);
            let value = evaluator.evaluate(&ast);
            let had_error = evaluator.error_handler.had_error;
            RunOutcome {
                value: Some(value),
                diagnostics: evaluator.error_handler.records,
                had_error,
            }
        },
    }
}

} // verus!
