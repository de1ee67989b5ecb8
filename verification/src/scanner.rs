//! The lexer: it consumes source text character by character, producing
//! an ordered token sequence terminated by an end-of-input marker, and
//! reports lexical errors to the diagnostics sink while scanning on.
use vstd::prelude::*;

use crate::diagnostics::{error_record, DiagnosticModel, ErrorHandler};
use crate::text::is_digit_char;
use crate::tokens::{Token, TokenEnum, TokenModel};

verus! {

pub open spec fn is_alpha_char(c: char) -> bool {
    ('a' <= c && c <= 'z') || ('A' <= c && c <= 'Z') || c == '_'
}

pub open spec fn is_alnum_char(c: char) -> bool {
    is_alpha_char(c) || is_digit_char(c)
}

pub open spec fn is_space_char(c: char) -> bool {
    c == ' ' || c == '\t' || c == '\r'
}

/// The classification of a maximal identifier run against the fixed
/// keyword table.
pub open spec fn keyword_kind(s: Seq<char>) -> TokenEnum {
    if s == "and"@ {
        TokenEnum::And
    } else if s == "class"@ {
        TokenEnum::Class
    } else if s == "else"@ {
        TokenEnum::Else
    } else if s == "false"@ {
        TokenEnum::False
    } else if s == "for"@ {
        TokenEnum::For
    } else if s == "fun"@ {
        TokenEnum::Fun
    } else if s == "if"@ {
        TokenEnum::If
    } else if s == "nil"@ {
        TokenEnum::Nil
    } else if s == "or"@ {
        TokenEnum::Or
    } else if s == "print"@ {
        TokenEnum::Print
    } else if s == "return"@ {
        TokenEnum::Return
    } else if s == "super"@ {
        TokenEnum::Super
    } else if s == "this"@ {
        TokenEnum::This
    } else if s == "true"@ {
        TokenEnum::True
    } else {
        TokenEnum::Identifier
    }
}

/// The position of the end of the current line: the next newline at or
/// after `i`, or the end of the text.
pub open spec fn skip_to_eol(s: Seq<char>, i: int) -> int
    decreases s.len() - i,
{
    if i < 0 || i >= s.len() {
        s.len() as int
    } else if s[i] == '\n' {
        i
    } else {
        skip_to_eol(s, i + 1)
    }
}

/// The position of the next double quote at or after `i`, or the end
/// of the text when none closes the string.
pub open spec fn find_quote(s: Seq<char>, i: int) -> int
    decreases s.len() - i,
{
    if i < 0 || i >= s.len() {
        s.len() as int
    } else if s[i] == '"' {
        i
    } else {
        find_quote(s, i + 1)
    }
}

/// The number of newline characters in `s[i..j)`.
pub open spec fn count_nl(s: Seq<char>, i: int, j: int) -> int
    decreases j - i,
{
    if i < 0 || i >= j || i >= s.len() {
        0
    } else {
        (if s[i] == '\n' {
            1int
        } else {
            0int
        }) + count_nl(s, i + 1, j)
    }
}

/// The position of the first non-digit at or after `i`.
pub open spec fn digits_end(s: Seq<char>, i: int) -> int
    decreases s.len() - i,
{
    if i < 0 || i >= s.len() || !is_digit_char(s[i]) {
        if i >= s.len() {
            s.len() as int
        } else {
            i
        }
    } else {
        digits_end(s, i + 1)
    }
}

/// The position of the first character at or after `i` that cannot
/// continue an identifier.
pub open spec fn ident_end(s: Seq<char>, i: int) -> int
    decreases s.len() - i,
{
    if i < 0 || i >= s.len() || !is_alnum_char(s[i]) {
        if i >= s.len() {
            s.len() as int
        } else {
            i
        }
    } else {
        ident_end(s, i + 1)
    }
}

/// What one scanning step from position `i` produces: the new cursor,
/// the new line count, at most one token, and at most one error.
pub ghost struct ScanStep {
    pub cursor: int,
    pub line: int,
    pub token: Option<TokenModel>,
    pub error: Option<DiagnosticModel>,
}

pub open spec fn simple_step(s: Seq<char>, i: int, line: int, w: int, kind: TokenEnum) -> ScanStep {
    ScanStep {
        cursor: i + w,
        line,
        token: Some(
            TokenModel { kind, lexeme: s.subrange(i, i + w), literal: Seq::empty(), line },
        ),
        error: None,
    }
}

/// One step of maximal-munch scanning from position `i` of the text.
pub open spec fn scan_step(s: Seq<char>, i: int, line: int) -> ScanStep {
    let c = s[i];
    if c == '(' {
        simple_step(s, i, line, 1, TokenEnum::LeftParen)
    } else if c == ')' {
        simple_step(s, i, line, 1, TokenEnum::RightParen)
    } else if c == '{' {
        simple_step(s, i, line, 1, TokenEnum::LeftBrace)
    } else if c == '}' {
        simple_step(s, i, line, 1, TokenEnum::RightBrace)
    } else if c == ',' {
        simple_step(s, i, line, 1, TokenEnum::Comma)
    } else if c == '.' {
        simple_step(s, i, line, 1, TokenEnum::Dot)
    } else if c == '-' {
        simple_step(s, i, line, 1, TokenEnum::Minus)
    } else if c == '+' {
        simple_step(s, i, line, 1, TokenEnum::Plus)
    } else if c == ';' {
        simple_step(s, i, line, 1, TokenEnum::Semicolon)
    } else if c == '*' {
        simple_step(s, i, line, 1, TokenEnum::Star)
    } else if c == '!' {
        simple_step(s, i, line, 1, TokenEnum::Bang)
    } else if c == '=' {
        if i + 1 < s.len() && s[i + 1] == '=' {
            simple_step(s, i, line, 2, TokenEnum::EqualEqual)
        } else {
            simple_step(s, i, line, 1, TokenEnum::Equal)
        }
    } else if c == '>' {
        if i + 1 < s.len() && s[i + 1] == '=' {
            simple_step(s, i, line, 2, TokenEnum::GreaterEqual)
        } else {
            simple_step(s, i, line, 1, TokenEnum::Greater)
        }
    } else if c == '<' {
        if i + 1 < s.len() && s[i + 1] == '=' {
            simple_step(s, i, line, 2, TokenEnum::LessEqual)
        } else {
            simple_step(s, i, line, 1, TokenEnum::Less)
        }
    } else if c == '/' {
        if i + 1 < s.len() && s[i + 1] == '/' {
            ScanStep { cursor: skip_to_eol(s, i + 2), line, token: None, error: None }
        } else {
            simple_step(s, i, line, 1, TokenEnum::Slash)
        }
    } else if c == '"' {
        let j = find_quote(s, i + 1);
        if j >= s.len() {
            ScanStep {
                cursor: s.len() as int,
                line: line + count_nl(s, i + 1, s.len() as int),
                token: None,
                error: Some(
                    error_record(
                        line + count_nl(s, i + 1, s.len() as int),
                        Seq::empty(),
                        "Unterminated string."@,
                    ),
                ),
            }
        } else {
            ScanStep {
                cursor: j + 1,
                line: line + count_nl(s, i + 1, j),
                token: Some(
                    TokenModel {
                        kind: TokenEnum::StringLiteral,
                        lexeme: s.subrange(i, j + 1),
                        literal: s.subrange(i + 1, j),
                        line: line + count_nl(s, i + 1, j),
                    },
                ),
                error: None,
            }
        }
    } else if c == '\n' {
        ScanStep { cursor: i + 1, line: line + 1, token: None, error: None }
    } else if is_space_char(c) {
        ScanStep { cursor: i + 1, line, token: None, error: None }
    } else if is_digit_char(c) {
        let j = digits_end(s, i + 1);
        let e = if j < s.len() && s[j] == '.' && j + 1 < s.len() && is_digit_char(s[j + 1]) {
            digits_end(s, j + 2)
        } else {
            j
        };
        ScanStep {
            cursor: e,
            line,
            token: Some(
                TokenModel {
                    kind: TokenEnum::NumberLiteral,
                    lexeme: s.subrange(i, e),
                    literal: s.subrange(i, e),
                    line,
                },
            ),
            error: None,
        }
    } else if is_alpha_char(c) {
        let e = ident_end(s, i + 1);
        ScanStep {
            cursor: e,
            line,
            token: Some(
                TokenModel {
                    kind: keyword_kind(s.subrange(i, e)),
                    lexeme: s.subrange(i, e),
                    literal: Seq::empty(),
                    line,
                },
            ),
            error: None,
        }
    } else {
        ScanStep {
            cursor: i + 1,
            line,
            token: None,
            error: Some(error_record(line, Seq::empty(), "Unexpected character: "@ + seq![c])),
        }
    }
}

pub open spec fn opt_seq<T>(o: Option<T>) -> Seq<T> {
    match o {
        Some(x) => seq![x],
        None => Seq::empty(),
    }
}

pub open spec fn eof_token(line: int) -> TokenModel {
    TokenModel {
        kind: TokenEnum::EndOfFile,
        lexeme: Seq::empty(),
        literal: Seq::empty(),
        line,
    }
}

/// All tokens and errors that scanning from position `i` produces,
/// ending with the end-of-input token.
pub open spec fn scan_rest(s: Seq<char>, i: int, line: int) -> (Seq<TokenModel>, Seq<
    DiagnosticModel,
>)
    decreases s.len() - i,
{
    if i < 0 || i >= s.len() {
        (seq![eof_token(line)], Seq::empty())
    } else {
        let st = scan_step(s, i, line);
        if i < st.cursor <= s.len() {
            let rest = scan_rest(s, st.cursor, st.line);
            (opt_seq(st.token) + rest.0, opt_seq(st.error) + rest.1)
        } else {
            (seq![eof_token(line)], Seq::empty())
        }
    }
}

proof fn lemma_skip_to_eol_bounds(s: Seq<char>, i: int)
    requires
        0 <= i <= s.len(),
    ensures
        i <= skip_to_eol(s, i) <= s.len(),
    decreases s.len() - i,
{
    if i < s.len() && s[i] != '\n' {
        lemma_skip_to_eol_bounds(s, i + 1);
    }
}

proof fn lemma_find_quote_bounds(s: Seq<char>, i: int)
    requires
        0 <= i <= s.len(),
    ensures
        i <= find_quote(s, i) <= s.len(),
        find_quote(s, i) < s.len() ==> s[find_quote(s, i)] == '"',
    decreases s.len() - i,
{
    if i < s.len() && s[i] != '"' {
        lemma_find_quote_bounds(s, i + 1);
    }
}

proof fn lemma_digits_end_bounds(s: Seq<char>, i: int)
    requires
        0 <= i <= s.len(),
    ensures
        i <= digits_end(s, i) <= s.len(),
    decreases s.len() - i,
{
    if i < s.len() && is_digit_char(s[i]) {
        lemma_digits_end_bounds(s, i + 1);
    }
}

proof fn lemma_ident_end_bounds(s: Seq<char>, i: int)
    requires
        0 <= i <= s.len(),
    ensures
        i <= ident_end(s, i) <= s.len(),
    decreases s.len() - i,
{
    if i < s.len() && is_alnum_char(s[i]) {
        lemma_ident_end_bounds(s, i + 1);
    }
}

proof fn lemma_count_nl_nonneg(s: Seq<char>, i: int, j: int)
    ensures
        count_nl(s, i, j) >= 0,
    decreases j - i,
{
    if !(i < 0 || i >= j || i >= s.len()) {
        lemma_count_nl_nonneg(s, i + 1, j);
    }
}

/// Extending the counted range by one character adds its own newline
/// count.
proof fn lemma_count_nl_snoc(s: Seq<char>, i: int, j: int)
    requires
        0 <= i <= j < s.len(),
    ensures
        count_nl(s, i, j + 1) == count_nl(s, i, j) + (if s[j] == '\n' {
            1int
        } else {
            0int
        }),
    decreases j - i,
{
    if i < j {
        lemma_count_nl_snoc(s, i + 1, j);
    } else {
        assert(count_nl(s, j + 1, j + 1) == 0);
        assert(count_nl(s, j, j + 1) == (if s[j] == '\n' {
            1int
        } else {
            0int
        }) + count_nl(s, j + 1, j + 1));
        assert(count_nl(s, j, j) == 0);
    }
}

/// Every scanning step moves the cursor forward, keeps it within the
/// text, and never decreases the line count.
pub proof fn lemma_scan_step_progress(s: Seq<char>, i: int, line: int)
    requires
        0 <= i < s.len(),
    ensures
        i < scan_step(s, i, line).cursor <= s.len(),
        scan_step(s, i, line).line >= line,
    decreases s.len() - i,
{
    let c = s[i];
    if c == '/' && i + 1 < s.len() && s[i + 1] == '/' {
        lemma_skip_to_eol_bounds(s, i + 2);
    } else if c == '"' {
        lemma_find_quote_bounds(s, i + 1);
        lemma_count_nl_nonneg(s, i + 1, s.len() as int);
        lemma_count_nl_nonneg(s, i + 1, find_quote(s, i + 1));
    } else if !(c == '(' || c == ')' || c == '{' || c == '}' || c == ',' || c == '.' || c == '-'
        || c == '+' || c == ';' || c == '*' || c == '!' || c == '=' || c == '>' || c == '<' || c
        == '/' || c == '\n' || is_space_char(c)) {
        if is_digit_char(c) {
            lemma_digits_end_bounds(s, i + 1);
            let j = digits_end(s, i + 1);
            if j < s.len() && s[j] == '.' && j + 1 < s.len() && is_digit_char(s[j + 1]) {
                lemma_digits_end_bounds(s, j + 2);
            }
        } else if is_alpha_char(c) {
            lemma_ident_end_bounds(s, i + 1);
        }
    }
}


/// The lexer's state: the source text, a cursor, the current 1-based
/// line, the start of the token being scanned, the tokens produced so
/// far, and the diagnostics sink.
pub struct Scanner {
    pub tokens: Vec<Token>,
    pub error_handler: ErrorHandler,
    pub raw: String,
    pub cursor: usize,
    pub line: usize,
    pub start: usize,
}

impl Scanner {
    pub open spec fn wf(self) -> bool {
        &&& self.start <= self.cursor <= self.raw@.len()
        &&& self.raw@.len() < usize::MAX
        &&& self.line + (self.raw@.len() - self.cursor) < usize::MAX
    }

    /// The models of the tokens produced so far.
    pub open spec fn toks(self) -> Seq<TokenModel> {
        self.tokens@.map_values(|t: Token| t@)
    }

    pub open spec fn src(self) -> Seq<char> {
        self.raw@
    }

    pub fn new(raw: String, path_name: &str) -> (r: Scanner)
        requires
            raw@.len() + 1 < usize::MAX,
        ensures
            r.wf(),
            r.toks() == Seq::<TokenModel>::empty(),
            r.error_handler.recs() == Seq::<DiagnosticModel>::empty(),
            !r.error_handler.had_error,
            r.error_handler.path_name@ == path_name@,
            r.raw@ == raw@,
            r.cursor == 0,
            r.line == 1,
            r.start == 0,
    {
        let error_handler = ErrorHandler::new(path_name);
        let r = Scanner { tokens: Vec::new(), error_handler, raw, cursor: 0, line: 1, start: 0 };
        proof {
            assert(r.toks() =~= Seq::<TokenModel>::empty());
        }
        r
    }

    pub fn is_at_end(&mut self) -> (r: bool)
        ensures
            *final(self) == *old(self),
            r == (old(self).cursor >= old(self).raw@.len()),
    {
        self.cursor >= self.raw.unicode_len()
    }

    pub fn advance(&mut self) -> (c: char)
        requires
            old(self).wf(),
        ensures
            final(self).wf(),
            final(self).raw == old(self).raw,
            final(self).tokens == old(self).tokens,
            final(self).error_handler == old(self).error_handler,
            final(self).line == old(self).line,
            final(self).start == old(self).start,
            old(self).cursor < old(self).raw@.len() ==> c == old(self).raw@[old(self).cursor as int]
                && final(self).cursor == old(self).cursor + 1,
            old(self).cursor >= old(self).raw@.len() ==> c == '\0' && final(self).cursor == old(
                self,
            ).cursor,
    {
        if self.cursor < self.raw.unicode_len() {
            let ch = self.raw.as_str().get_char(self.cursor);
            self.cursor = self.cursor + 1;
            ch
        } else {
            '\0'
        }
    }

    pub fn peek_char(&mut self) -> (c: char)
        requires
            old(self).wf(),
        ensures
            *final(self) == *old(self),
            c == (if old(self).cursor < old(self).raw@.len() {
                old(self).raw@[old(self).cursor as int]
            } else {
                '\0'
            }),
    {
        if self.cursor < self.raw.unicode_len() {
            self.raw.as_str().get_char(self.cursor)
        } else {
            '\0'
        }
    }

    pub fn peek_next_char(&mut self) -> (c: char)
        requires
            old(self).wf(),
        ensures
            *final(self) == *old(self),
            c == (if old(self).cursor + 1 < old(self).raw@.len() {
                old(self).raw@[old(self).cursor + 1]
            } else {
                '\0'
            }),
    {
        let len = self.raw.unicode_len();
        if len - self.cursor > 1 {
            self.raw.as_str().get_char(self.cursor + 1)
        } else {
            '\0'
        }
    }

    pub fn is_match(&mut self, expected: char) -> (r: bool)
        requires
            old(self).wf(),
        ensures
            final(self).wf(),
            r == (old(self).cursor < old(self).raw@.len() && old(self).raw@[old(
                self,
            ).cursor as int] == expected),
            r ==> *final(self) == (Scanner { cursor: (old(self).cursor + 1) as usize, ..*old(self) }),
            !r ==> *final(self) == *old(self),
    {
        if self.cursor >= self.raw.unicode_len() {
            return false;
        }
        let actual = self.raw.as_str().get_char(self.cursor);
        if actual != expected {
            return false;
        }
        self.cursor = self.cursor + 1;
        true
    }

    fn peek_is(&self, c: char) -> (r: bool)
        requires
            self.cursor <= self.raw@.len(),
        ensures
            r == (self.cursor < self.raw@.len() && self.raw@[self.cursor as int] == c),
    {
        if self.cursor < self.raw.unicode_len() {
            self.raw.as_str().get_char(self.cursor) == c
        } else {
            false
        }
    }

    fn at_digit(&self) -> (r: bool)
        requires
            self.cursor <= self.raw@.len(),
        ensures
            r == (self.cursor < self.raw@.len() && is_digit_char(self.raw@[self.cursor as int])),
    {
        if self.cursor < self.raw.unicode_len() {
            let c = self.raw.as_str().get_char(self.cursor);
            '0' <= c && c <= '9'
        } else {
            false
        }
    }

    fn at_alnum(&self) -> (r: bool)
        requires
            self.cursor <= self.raw@.len(),
        ensures
            r == (self.cursor < self.raw@.len() && is_alnum_char(self.raw@[self.cursor as int])),
    {
        if self.cursor < self.raw.unicode_len() {
            let c = self.raw.as_str().get_char(self.cursor);
            ('a' <= c && c <= 'z') || ('A' <= c && c <= 'Z') || c == '_' || ('0' <= c && c <= '9')
        } else {
            false
        }
    }

    pub fn add_token(&mut self, kind: TokenEnum)
        requires
            old(self).wf(),
        ensures
            final(self).wf(),
            final(self).toks() == old(self).toks().push(
                TokenModel {
                    kind,
                    lexeme: old(self).raw@.subrange(old(self).start as int, old(self).cursor as int),
                    literal: Seq::empty(),
                    line: old(self).line as int,
                },
            ),
            *final(self) == (Scanner { tokens: final(self).tokens, ..*old(self) }),
    {
        let lexeme = String::from_str(self.raw.as_str().substring_char(self.start, self.cursor));
        let literal = String::new();
        let line = self.line;
        let t = Token::new(kind, lexeme, literal, line);
        self.tokens.push(t);
        proof {
            assert(self.toks() =~= old(self).toks().push(
                TokenModel {
                    kind,
                    lexeme: old(self).raw@.subrange(old(self).start as int, old(self).cursor as int),
                    literal: Seq::empty(),
                    line: old(self).line as int,
                },
            ));
        }
    }

    pub fn add_token_with_literal(&mut self, kind: TokenEnum, literal: String)
        requires
            old(self).wf(),
        ensures
            final(self).wf(),
            final(self).toks() == old(self).toks().push(
                TokenModel {
                    kind,
                    lexeme: old(self).raw@.subrange(old(self).start as int, old(self).cursor as int),
                    literal: literal@,
                    line: old(self).line as int,
                },
            ),
            *final(self) == (Scanner { tokens: final(self).tokens, ..*old(self) }),
    {
        let lexeme = String::from_str(self.raw.as_str().substring_char(self.start, self.cursor));
        let line = self.line;
        let ghost litv = literal@;
        let t = Token::new(kind, lexeme, literal, line);
        self.tokens.push(t);
        proof {
            assert(self.toks() =~= old(self).toks().push(
                TokenModel {
                    kind,
                    lexeme: old(self).raw@.subrange(old(self).start as int, old(self).cursor as int),
                    literal: litv,
                    line: old(self).line as int,
                },
            ));
        }
    }

    pub fn get_reserved_keyword_or_return_identifier(&mut self, text: &str) -> (r: TokenEnum)
        ensures
            *final(self) == *old(self),
            r == keyword_kind(text@),
    {
        if let Some(keyword) = check_keyword(text) {
            return keyword;
        }
        TokenEnum::Identifier
    }

    pub fn is_digit(&mut self, character: char) -> (r: bool)
        ensures
            *final(self) == *old(self),
            r == is_digit_char(character),
    {
        '0' <= character && character <= '9'
    }

    pub fn is_alphabetic(&mut self, character: char) -> (r: bool)
        ensures
            *final(self) == *old(self),
            r == is_alpha_char(character),
    {
        character >= 'a' && character <= 'z' || character >= 'A' && character <= 'Z' || character
            == '_'
    }

    pub fn is_alphanumeric(&mut self, character: char) -> (r: bool)
        ensures
            *final(self) == *old(self),
            r == is_alnum_char(character),
    {
        let a = self.is_alphabetic(character);
        let d = self.is_digit(character);
        a || d
    }

    pub fn is_keyword(&mut self, text: &str) -> (r: bool)
        ensures
            *final(self) == *old(self),
            r == (keyword_kind(text@) != TokenEnum::Identifier),
    {
        check_keyword(text).is_some()
    }
}

/// Classifies a maximal identifier run against the fixed keyword
/// table; a run that is no keyword yields nothing.
pub fn check_keyword(text: &str) -> (r: Option<TokenEnum>)
    ensures
        r == (if keyword_kind(text@) == TokenEnum::Identifier {
            None::<TokenEnum>
        } else {
            Some(keyword_kind(text@))
        }),
{
    if crate::text::eq_str(text, "and") {
        Some(TokenEnum::And)
    } else if crate::text::eq_str(text, "class") {
        Some(TokenEnum::Class)
    } else if crate::text::eq_str(text, "else") {
        Some(TokenEnum::Else)
    } else if crate::text::eq_str(text, "false") {
        Some(TokenEnum::False)
    } else if crate::text::eq_str(text, "for") {
        Some(TokenEnum::For)
    } else if crate::text::eq_str(text, "fun") {
        Some(TokenEnum::Fun)
    } else if crate::text::eq_str(text, "if") {
        Some(TokenEnum::If)
    } else if crate::text::eq_str(text, "nil") {
        Some(TokenEnum::Nil)
    } else if crate::text::eq_str(text, "or") {
        Some(TokenEnum::Or)
    } else if crate::text::eq_str(text, "print") {
        Some(TokenEnum::Print)
    } else if crate::text::eq_str(text, "return") {
        Some(TokenEnum::Return)
    } else if crate::text::eq_str(text, "super") {
        Some(TokenEnum::Super)
    } else if crate::text::eq_str(text, "this") {
        Some(TokenEnum::This)
    } else if crate::text::eq_str(text, "true") {
        Some(TokenEnum::True)
    } else {
        None
    }
}

impl Scanner {
    /// Scans the rest of a string literal whose opening quote stands at
    /// `start`; an unclosed string is reported and yields no token.
    pub fn scan_string(&mut self)
        requires
            old(self).wf(),
            old(self).start + 1 == old(self).cursor,
            old(self).raw@[old(self).start as int] == '"',
        ensures
            final(self).wf(),
            final(self).raw == old(self).raw,
            final(self).start == old(self).start,
            final(self).error_handler.path_name@ == old(self).error_handler.path_name@,
            ({
                let st = scan_step(old(self).src(), old(self).start as int, old(self).line as int);
                &&& final(self).cursor == st.cursor
                &&& final(self).line == st.line
                &&& final(self).toks() == old(self).toks() + opt_seq(st.token)
                &&& final(self).error_handler.recs() == old(self).error_handler.recs() + opt_seq(
                    st.error,
                )
                &&& final(self).error_handler.had_error == (old(self).error_handler.had_error
                    || st.error is Some)
            }),
    {
        let ghost s = self.raw@;
        let ghost i = self.start as int;
        while !self.peek_is('"') && self.cursor < self.raw.unicode_len()
            invariant
                self.wf(),
                self.raw == old(self).raw,
                self.start == old(self).start,
                self.tokens == old(self).tokens,
                self.error_handler == old(self).error_handler,
                s == self.raw@,
                i == self.start as int,
                i + 1 <= self.cursor,
                find_quote(s, self.cursor as int) == find_quote(s, i + 1),
                self.line == old(self).line + count_nl(s, i + 1, self.cursor as int),
            decreases s.len() - self.cursor,
        {
            proof {
                lemma_count_nl_snoc(s, i + 1, self.cursor as int);
            }
            if self.peek_is('\n') {
                self.line = self.line + 1;
            }
            self.cursor = self.cursor + 1;
        }
        proof {
            lemma_count_nl_nonneg(s, i + 1, self.cursor as int);
        }
        if self.cursor >= self.raw.unicode_len() {
            proof {
                assert(find_quote(s, self.cursor as int) == s.len());
            }
            self.error_handler.error(self.line, "Unterminated string.");
            proof {
                let st = scan_step(s, i, old(self).line as int);
                assert(self.toks() =~= old(self).toks() + opt_seq(st.token));
                assert(self.error_handler.recs() =~= old(self).error_handler.recs() + opt_seq(
                    st.error,
                ));
            }
            return;
        }
        proof {
            assert(find_quote(s, self.cursor as int) == self.cursor as int);
        }
        let literal = String::from_str(
            self.raw.as_str().substring_char(self.start + 1, self.cursor),
        );
        self.cursor = self.cursor + 1;
        self.add_token_with_literal(TokenEnum::StringLiteral, literal);
        proof {
            let st = scan_step(s, i, old(self).line as int);
            assert(self.toks() =~~= old(self).toks() + opt_seq(st.token));
            assert(self.error_handler.recs() =~= old(self).error_handler.recs() + opt_seq(
                st.error,
            ));
        }
    }

    /// Scans the rest of a number literal whose first digit stands at
    /// `start`: more digits, then optionally a point followed by at
    /// least one digit.
    pub fn scan_number(&mut self)
        requires
            old(self).wf(),
            old(self).start + 1 == old(self).cursor,
            is_digit_char(old(self).raw@[old(self).start as int]),
        ensures
            final(self).wf(),
            final(self).raw == old(self).raw,
            final(self).start == old(self).start,
            final(self).line == old(self).line,
            final(self).error_handler == old(self).error_handler,
            ({
                let st = scan_step(old(self).src(), old(self).start as int, old(self).line as int);
                &&& final(self).cursor == st.cursor
                &&& final(self).toks() == old(self).toks() + opt_seq(st.token)
            }),
    {
        let ghost s = self.raw@;
        let ghost i = self.start as int;
        while self.at_digit()
            invariant
                self.wf(),
                self.raw == old(self).raw,
                self.start == old(self).start,
                self.tokens == old(self).tokens,
                self.error_handler == old(self).error_handler,
                self.line == old(self).line,
                s == self.raw@,
                i == self.start as int,
                i + 1 <= self.cursor,
                digits_end(s, self.cursor as int) == digits_end(s, i + 1),
            decreases s.len() - self.cursor,
        {
            self.cursor = self.cursor + 1;
        }
        proof {
            assert(digits_end(s, i + 1) == self.cursor as int);
        }
        let ghost j = self.cursor as int;
        let p = self.peek_char();
        let pn = self.peek_next_char();
        if p == '.' && '0' <= pn && pn <= '9' {
            self.cursor = self.cursor + 1;
            while self.at_digit()
                invariant
                    self.wf(),
                    self.raw == old(self).raw,
                    self.start == old(self).start,
                    self.tokens == old(self).tokens,
                    self.error_handler == old(self).error_handler,
                    self.line == old(self).line,
                    s == self.raw@,
                    i == self.start as int,
                    i + 1 <= self.cursor,
                    j + 1 <= self.cursor,
                    digits_end(s, self.cursor as int) == digits_end(s, j + 2),
                decreases s.len() - self.cursor,
            {
                self.cursor = self.cursor + 1;
            }
            proof {
                assert(digits_end(s, j + 2) == self.cursor as int);
            }
        }
        let literal = String::from_str(self.raw.as_str().substring_char(self.start, self.cursor));
        self.add_token_with_literal(TokenEnum::NumberLiteral, literal);
        proof {
            let st = scan_step(s, i, old(self).line as int);
            assert(self.toks() =~~= old(self).toks() + opt_seq(st.token));
        }
    }

    /// Scans the rest of an identifier or keyword whose first character
    /// stands at `start`.
    pub fn scan_identifier(&mut self)
        requires
            old(self).wf(),
            old(self).start + 1 == old(self).cursor,
            is_alpha_char(old(self).raw@[old(self).start as int]),
        ensures
            final(self).wf(),
            final(self).raw == old(self).raw,
            final(self).start == old(self).start,
            final(self).line == old(self).line,
            final(self).error_handler == old(self).error_handler,
            ({
                let st = scan_step(old(self).src(), old(self).start as int, old(self).line as int);
                &&& final(self).cursor == st.cursor
                &&& final(self).toks() == old(self).toks() + opt_seq(st.token)
            }),
    {
        let ghost s = self.raw@;
        let ghost i = self.start as int;
        while self.at_alnum()
            invariant
                self.wf(),
                self.raw == old(self).raw,
                self.start == old(self).start,
                self.tokens == old(self).tokens,
                self.error_handler == old(self).error_handler,
                self.line == old(self).line,
                s == self.raw@,
                i == self.start as int,
                i + 1 <= self.cursor,
                ident_end(s, self.cursor as int) == ident_end(s, i + 1),
            decreases s.len() - self.cursor,
        {
            self.cursor = self.cursor + 1;
        }
        proof {
            assert(ident_end(s, i + 1) == self.cursor as int);
        }
        let text = String::from_str(self.raw.as_str().substring_char(self.start, self.cursor));
        let kind = self.get_reserved_keyword_or_return_identifier(text.as_str());
        self.add_token(kind);
        proof {
            let st = scan_step(s, i, old(self).line as int);
            assert(self.toks() =~~= old(self).toks() + opt_seq(st.token));
        }
    }
}

impl Scanner {
    /// Scans one token (or skips one stretch of whitespace or comment)
    /// from the current cursor, as the maximal-munch rules demand; at
    /// the end of the input it does nothing.
    pub fn scan_token(&mut self)
        requires
            old(self).wf(),
        ensures
            final(self).wf(),
            final(self).raw == old(self).raw,
            final(self).error_handler.path_name@ == old(self).error_handler.path_name@,
            old(self).cursor >= old(self).raw@.len() ==> *final(self) == *old(self),
            old(self).cursor < old(self).raw@.len() ==> ({
                let st = scan_step(old(self).src(), old(self).cursor as int, old(self).line as int);
                &&& final(self).cursor == st.cursor
                &&& final(self).line == st.line
                &&& final(self).toks() == old(self).toks() + opt_seq(st.token)
                &&& final(self).error_handler.recs() == old(self).error_handler.recs() + opt_seq(
                    st.error,
                )
                &&& final(self).error_handler.had_error == (old(self).error_handler.had_error
                    || st.error is Some)
            }),
    {
        let ghost s = self.raw@;
        if self.cursor >= self.raw.unicode_len() {
            return;
        }
        self.start = self.cursor;
        let ghost i = self.cursor as int;
        let ghost line0 = self.line as int;
        let ghost st = scan_step(s, i, line0);
        let character = self.advance();
        match character {
            '(' => {
                self.add_token(TokenEnum::LeftParen);
                proof {
                    assert(self.toks() =~~= old(self).toks() + opt_seq(st.token));
                    assert(self.error_handler.recs() =~= old(self).error_handler.recs());
                }
            },
            ')' => {
                self.add_token(TokenEnum::RightParen);
                proof {
                    assert(self.toks() =~~= old(self).toks() + opt_seq(st.token));
                    assert(self.error_handler.recs() =~= old(self).error_handler.recs());
                }
            },
            '{' => {
                self.add_token(TokenEnum::LeftBrace);
                proof {
                    assert(self.toks() =~~= old(self).toks() + opt_seq(st.token));
                    assert(self.error_handler.recs() =~= old(self).error_handler.recs());
                }
            },
            '}' => {
                self.add_token(TokenEnum::RightBrace);
                proof {
                    assert(self.toks() =~~= old(self).toks() + opt_seq(st.token));
                    assert(self.error_handler.recs() =~= old(self).error_handler.recs());
                }
            },
            ',' => {
                self.add_token(TokenEnum::Comma);
                proof {
                    assert(self.toks() =~~= old(self).toks() + opt_seq(st.token));
                    assert(self.error_handler.recs() =~= old(self).error_handler.recs());
                }
            },
            '.' => {
                self.add_token(TokenEnum::Dot);
                proof {
                    assert(self.toks() =~~= old(self).toks() + opt_seq(st.token));
                    assert(self.error_handler.recs() =~= old(self).error_handler.recs());
                }
            },
            '-' => {
                self.add_token(TokenEnum::Minus);
                proof {
                    assert(self.toks() =~~= old(self).toks() + opt_seq(st.token));
                    assert(self.error_handler.recs() =~= old(self).error_handler.recs());
                }
            },
            '+' => {
                self.add_token(TokenEnum::Plus);
                proof {
                    assert(self.toks() =~~= old(self).toks() + opt_seq(st.token));
                    assert(self.error_handler.recs() =~= old(self).error_handler.recs());
                }
            },
            ';' => {
                self.add_token(TokenEnum::Semicolon);
                proof {
                    assert(self.toks() =~~= old(self).toks() + opt_seq(st.token));
                    assert(self.error_handler.recs() =~= old(self).error_handler.recs());
                }
            },
            '*' => {
                self.add_token(TokenEnum::Star);
                proof {
                    assert(self.toks() =~~= old(self).toks() + opt_seq(st.token));
                    assert(self.error_handler.recs() =~= old(self).error_handler.recs());
                }
            },
            '!' => {
                self.add_token(TokenEnum::Bang);
                proof {
                    assert(self.toks() =~~= old(self).toks() + opt_seq(st.token));
                    assert(self.error_handler.recs() =~= old(self).error_handler.recs());
                }
            },
            '=' => {
                if self.is_match('=') {
                    self.add_token(TokenEnum::EqualEqual);
                } else {
                    self.add_token(TokenEnum::Equal);
                }
                proof {
                    assert(self.toks() =~~= old(self).toks() + opt_seq(st.token));
                    assert(self.error_handler.recs() =~= old(self).error_handler.recs());
                }
            },
            '>' => {
                if self.is_match('=') {
                    self.add_token(TokenEnum::GreaterEqual);
                } else {
                    self.add_token(TokenEnum::Greater);
                }
                proof {
                    assert(self.toks() =~~= old(self).toks() + opt_seq(st.token));
                    assert(self.error_handler.recs() =~= old(self).error_handler.recs());
                }
            },
            '<' => {
                if self.is_match('=') {
                    self.add_token(TokenEnum::LessEqual);
                } else {
                    self.add_token(TokenEnum::Less);
                }
                proof {
                    assert(self.toks() =~~= old(self).toks() + opt_seq(st.token));
                    assert(self.error_handler.recs() =~= old(self).error_handler.recs());
                }
            },
            '/' => {
                if self.is_match('/') {
                    while self.cursor < self.raw.unicode_len() && !self.peek_is('\n')
                        invariant
                            self.wf(),
                            self.raw == old(self).raw,
                            self.tokens == old(self).tokens,
                            self.error_handler == old(self).error_handler,
                            self.line == old(self).line,
                            self.start == i,
                            s == self.raw@,
                            i + 2 <= self.cursor,
                            skip_to_eol(s, self.cursor as int) == skip_to_eol(s, i + 2),
                        decreases s.len() - self.cursor,
                    {
                        self.cursor = self.cursor + 1;
                    }
                    proof {
                        assert(skip_to_eol(s, self.cursor as int) == self.cursor as int);
                        assert(self.toks() =~= old(self).toks() + opt_seq(st.token));
                        assert(self.error_handler.recs() =~= old(self).error_handler.recs()
                            + opt_seq(st.error));
                    }
                } else {
                    self.add_token(TokenEnum::Slash);
                    proof {
                        assert(self.toks() =~~= old(self).toks() + opt_seq(st.token));
                        assert(self.error_handler.recs() =~= old(self).error_handler.recs());
                    }
                }
            },
            '"' => {
                self.scan_string();
            },
            '\n' => {
                self.line = self.line + 1;
                proof {
                    assert(self.toks() =~= old(self).toks() + opt_seq(st.token));
                    assert(self.error_handler.recs() =~= old(self).error_handler.recs());
                }
            },
            current_character => {
                if current_character == ' ' || current_character == '\t' || current_character
                    == '\r' {
                    proof {
                        assert(self.toks() =~= old(self).toks() + opt_seq(st.token));
                        assert(self.error_handler.recs() =~= old(self).error_handler.recs());
                    }
                    return;
                }
                if self.is_digit(current_character) {
                    self.scan_number();
                    return;
                }
                if self.is_alphanumeric(current_character) {
                    self.scan_identifier();
                    return;
                }
                let mut message = String::from_str("Unexpected character: ");
                let cv: Vec<char> = vec![current_character];
                let ctext = crate::text::chars_to_string(&cv);
                message.append(ctext.as_str());
                proof {
                    assert(message@ =~= "Unexpected character: "@ + seq![current_character]);
                }
                let line = self.line;
                self.error_handler.error(line, message.as_str());
                proof {
                    assert(self.toks() =~= old(self).toks() + opt_seq(st.token));
                    assert(self.error_handler.recs() =~= old(self).error_handler.recs() + opt_seq(
                        st.error,
                    ));
                }
            },
        }
    }

    /// Scans the whole source, appending every token the text holds
    /// and then the end-of-input token; lexical errors are recorded and
    /// scanning continues past them.
    pub fn scan_tokens(&mut self)
        requires
            old(self).wf(),
        ensures
            final(self).wf(),
            final(self).raw == old(self).raw,
            final(self).error_handler.path_name@ == old(self).error_handler.path_name@,
            final(self).toks() == old(self).toks() + scan_rest(
                old(self).src(),
                old(self).cursor as int,
                old(self).line as int,
            ).0,
            final(self).error_handler.recs() == old(self).error_handler.recs() + scan_rest(
                old(self).src(),
                old(self).cursor as int,
                old(self).line as int,
            ).1,
            final(self).error_handler.had_error == (old(self).error_handler.had_error || scan_rest(
                old(self).src(),
                old(self).cursor as int,
                old(self).line as int,
            ).1.len() > 0),
            final(self).cursor == final(self).raw@.len(),
    {
        let ghost s = self.raw@;
        let ghost c0 = self.cursor as int;
        let ghost l0 = self.line as int;
        let ghost r0 = scan_rest(s, c0, l0);
        while self.cursor < self.raw.unicode_len()
            invariant
                self.wf(),
                self.raw == old(self).raw,
                self.error_handler.path_name@ == old(self).error_handler.path_name@,
                s == self.raw@,
                r0 == scan_rest(s, c0, l0),
                old(self).toks() + r0.0 == self.toks() + scan_rest(
                    s,
                    self.cursor as int,
                    self.line as int,
                ).0,
                old(self).error_handler.recs() + r0.1 == self.error_handler.recs() + scan_rest(
                    s,
                    self.cursor as int,
                    self.line as int,
                ).1,
                self.error_handler.had_error == (old(self).error_handler.had_error
                    || self.error_handler.recs().len() > old(self).error_handler.recs().len()),
                self.error_handler.recs().len() >= old(self).error_handler.recs().len(),
            decreases s.len() - self.cursor,
        {
            proof {
                lemma_scan_step_progress(s, self.cursor as int, self.line as int);
            }
            let ghost cur = self.cursor as int;
            let ghost lin = self.line as int;
            let ghost stp = scan_step(s, cur, lin);
            let ghost before = *self;
            self.scan_token();
            proof {
                assert(scan_rest(s, cur, lin).0 =~= opt_seq(stp.token) + scan_rest(
                    s,
                    stp.cursor,
                    stp.line,
                ).0);
                assert(scan_rest(s, cur, lin).1 =~= opt_seq(stp.error) + scan_rest(
                    s,
                    stp.cursor,
                    stp.line,
                ).1);
                assert(before.toks() + (opt_seq(stp.token) + scan_rest(s, stp.cursor, stp.line).0)
                    =~= (before.toks() + opt_seq(stp.token)) + scan_rest(s, stp.cursor, stp.line).0);
                assert(before.error_handler.recs() + (opt_seq(stp.error) + scan_rest(
                    s,
                    stp.cursor,
                    stp.line,
                ).1) =~= (before.error_handler.recs() + opt_seq(stp.error)) + scan_rest(
                    s,
                    stp.cursor,
                    stp.line,
                ).1);
            }
        }
        self.start = self.cursor;
        self.add_token(TokenEnum::EndOfFile);
        proof {
            assert(scan_rest(s, final(self).cursor as int, final(self).line as int).0 =~= seq![
                eof_token(final(self).line as int),
            ]);
            assert(s.subrange(final(self).cursor as int, final(self).cursor as int)
                =~= Seq::<char>::empty());
            assert(final(self).toks() =~= old(self).toks() + r0.0);
            assert(final(self).error_handler.recs() =~= old(self).error_handler.recs() + r0.1);
        }
    }
}

/// No scanning step ever produces the end-of-input token by itself.
proof fn lemma_scan_step_token_kind(s: Seq<char>, i: int, line: int)
    requires
        0 <= i < s.len(),
    ensures
        scan_step(s, i, line).token matches Some(t) ==> t.kind != TokenEnum::EndOfFile,
{
}

/// Whatever the text, scanning yields a well-formed token sequence:
/// at least one token, the end-of-input marker standing exactly at
/// the end and nowhere else.
pub proof fn lemma_scan_rest_shape(s: Seq<char>, i: int, line: int)
    ensures
        scan_rest(s, i, line).0.len() >= 1,
        scan_rest(s, i, line).0.last().kind == TokenEnum::EndOfFile,
        forall|k: int|
            0 <= k < scan_rest(s, i, line).0.len() - 1 ==> scan_rest(s, i, line).0[k].kind
                != TokenEnum::EndOfFile,
    decreases s.len() - i,
{
    if i < 0 || i >= s.len() {
    } else {
        let st = scan_step(s, i, line);
        lemma_scan_step_progress(s, i, line);
        lemma_scan_step_token_kind(s, i, line);
        lemma_scan_rest_shape(s, st.cursor, st.line);
        let rest = scan_rest(s, st.cursor, st.line);
        let whole = scan_rest(s, i, line);
        assert(whole.0 == opt_seq(st.token) + rest.0);
        assert(whole.0.last() == rest.0.last());
    }
}

} // verus!
