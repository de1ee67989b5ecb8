//! The diagnostics sink: it records structured error reports tagged
//! with a source line and a location hint, tracks whether any error
//! has occurred, and renders each record; callers decide whether to
//! keep processing.
use vstd::prelude::*;

use crate::text::dec_digits;

verus! {

#[derive(Clone, Copy, Debug, PartialEq, Eq, Structural)]
pub enum DiagnosticKind {
    Error,
    Warning,
    Info,
}

/// One recorded report.
#[derive(Debug)]
pub struct Diagnostic {
    pub kind: DiagnosticKind,
    pub line: usize,
    pub location: String,
    pub message: String,
}

pub ghost struct DiagnosticModel {
    pub kind: DiagnosticKind,
    pub line: int,
    pub location: Seq<char>,
    pub message: Seq<char>,
}

impl View for Diagnostic {
    type V = DiagnosticModel;

    open spec fn view(&self) -> DiagnosticModel {
        DiagnosticModel {
            kind: self.kind,
            line: self.line as int,
            location: self.location@,
            message: self.message@,
        }
    }
}

/// An error record for the given line, hint, and message.
pub open spec fn error_record(line: int, location: Seq<char>, message: Seq<char>)
    -> DiagnosticModel {
    DiagnosticModel { kind: DiagnosticKind::Error, line, location, message }
}

/// The rendered form of a record.
pub open spec fn render_spec(d: DiagnosticModel) -> Seq<char> {
    "[line "@ + dec_digits(d.line as nat) + "] Error"@ + d.location + ": "@ + d.message
}

impl Diagnostic {
    /// Renders the record as one line of text.
    pub fn render(&self) -> (r: String)
        ensures
            r@ == render_spec(self@),
    {
        let mut s = String::from_str("[line ");
        let digits = crate::text::digits_of(self.line as u128);
        let dtext = crate::text::chars_to_string(&digits);
        s.append(dtext.as_str());
        s.append("] Error");
        s.append(self.location.as_str());
        s.append(": ");
        s.append(self.message.as_str());
        s
    }
}

/// Records errors for one compilation unit and remembers whether any
/// occurred.
#[derive(Debug)]
pub struct ErrorHandler {
    pub had_error: bool,
    pub path_name: String,
    pub records: Vec<Diagnostic>,
}

impl ErrorHandler {
    /// The recorded reports, as mathematical values.
    pub open spec fn recs(self) -> Seq<DiagnosticModel> {
        self.records@.map_values(|d: Diagnostic| d@)
    }

    pub fn new(path_name: &str) -> (r: ErrorHandler)
        ensures
            !r.had_error,
            r.path_name@ == path_name@,
            r.recs() == Seq::<DiagnosticModel>::empty(),
    {
        let r = ErrorHandler {
            had_error: false,
            path_name: String::from_str(path_name),
            records: Vec::new(),
        };
        proof {
            assert(r.recs() =~= Seq::<DiagnosticModel>::empty());
        }
        r
    }

    /// Records an error with a location hint and sets the error flag.
    pub fn report(&mut self, line: usize, location: &str, message: &str)
        ensures
            final(self).had_error,
            final(self).path_name@ == old(self).path_name@,
            final(self).recs() == old(self).recs().push(
                error_record(line as int, location@, message@),
            ),
    {
        let d = Diagnostic {
            kind: DiagnosticKind::Error,
            line,
            location: String::from_str(location),
            message: String::from_str(message),
        };
        self.records.push(d);
        self.had_error = true;
        proof {
            assert(self.recs() =~= old(self).recs().push(
                error_record(line as int, location@, message@),
            ));
        }
    }

    /// Records an error with an empty location hint.
    pub fn error(&mut self, line: usize, message: &str)
        ensures
            final(self).had_error,
            final(self).path_name@ == old(self).path_name@,
            final(self).recs() == old(self).recs().push(
                error_record(line as int, Seq::<char>::empty(), message@),
            ),
    {
        proof {
            reveal_strlit("");
            assert(""@ =~= Seq::<char>::empty());
        }
        self.report(line, "", message);
    }

    /// Records an error at a token's line.
    pub fn report_rich(&mut self, token: &crate::tokens::Token, message: &str)
        ensures
            final(self).had_error,
            final(self).path_name@ == old(self).path_name@,
            final(self).recs() == old(self).recs().push(
                error_record(token@.line, Seq::<char>::empty(), message@),
            ),
    {
        self.error(token.line, message);
    }
}

/// The diagnostics context threaded through scanning, parsing, and
/// evaluation.
#[derive(Debug)]
pub struct Diagnostics {
    pub error_handler: ErrorHandler,
}

impl Diagnostics {
    pub fn new(path_name: &str) -> (r: Diagnostics)
        ensures
            !r.error_handler.had_error,
            r.error_handler.path_name@ == path_name@,
            r.error_handler.recs() == Seq::<DiagnosticModel>::empty(),
    {
        Diagnostics { error_handler: ErrorHandler::new(path_name) }
    }

    pub fn report_token(&mut self, token: &crate::tokens::Token, message: &str)
        ensures
            final(self).error_handler.had_error,
            final(self).error_handler.path_name@ == old(self).error_handler.path_name@,
            final(self).error_handler.recs() == old(self).error_handler.recs().push(
                error_record(token@.line, Seq::<char>::empty(), message@),
            ),
    {
        self.error_handler.report_rich(token, message);
    }

    pub fn report(&mut self, line: usize, location: &str, message: &str)
        ensures
            final(self).error_handler.had_error,
            final(self).error_handler.path_name@ == old(self).error_handler.path_name@,
            final(self).error_handler.recs() == old(self).error_handler.recs().push(
                error_record(line as int, location@, message@),
            ),
    {
        self.error_handler.report(line, location, message);
    }

    pub fn error(&mut self, line: usize, message: &str)
        ensures
            final(self).error_handler.had_error,
            final(self).error_handler.path_name@ == old(self).error_handler.path_name@,
            final(self).error_handler.recs() == old(self).error_handler.recs().push(
                error_record(line as int, Seq::<char>::empty(), message@),
            ),
    {
        self.error_handler.error(line, message);
    }
}

} // verus!
