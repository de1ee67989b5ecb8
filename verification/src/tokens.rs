//! Tokens: classified, positioned units of source text.
use vstd::prelude::*;

verus! {

#[derive(Clone, Copy, Debug, PartialEq, Eq, Structural)]
pub enum TokenEnum {
    LeftParen,
    RightParen,
    LeftBrace,
    RightBrace,
    Comma,
    Dot,
    Minus,
    Plus,
    Semicolon,
    Slash,
    Star,
    Bang,
    BangEqual,
    Equal,
    EqualEqual,
    Greater,
    GreaterEqual,
    Less,
    LessEqual,
    Identifier,
    StringLiteral,
    NumberLiteral,
    And,
    Class,
    Else,
    False,
    Fun,
    For,
    If,
    Nil,
    Or,
    Print,
    Return,
    Super,
    This,
    True,
    EndOfFile,
}

/// A token holds its classification, the exact source substring it was
/// derived from, the normalized payload text of a literal, and the
/// 1-based source line it started on.
#[derive(Debug)]
pub struct Token {
    pub kind: TokenEnum,
    pub lexeme: String,
    pub literal: String,
    pub line: usize,
}

/// The mathematical content of a token.
pub ghost struct TokenModel {
    pub kind: TokenEnum,
    pub lexeme: Seq<char>,
    pub literal: Seq<char>,
    pub line: int,
}

impl View for Token {
    type V = TokenModel;

    open spec fn view(&self) -> TokenModel {
        TokenModel {
            kind: self.kind,
            lexeme: self.lexeme@,
            literal: self.literal@,
            line: self.line as int,
        }
    }
}

pub open spec fn kind_name(k: TokenEnum) -> Seq<char> {
    match k {
        TokenEnum::LeftParen => "LeftParen"@,
        TokenEnum::RightParen => "RightParen"@,
        TokenEnum::LeftBrace => "LeftBrace"@,
        TokenEnum::RightBrace => "RightBrace"@,
        TokenEnum::Comma => "Comma"@,
        TokenEnum::Dot => "Dot"@,
        TokenEnum::Minus => "Minus"@,
        TokenEnum::Plus => "Plus"@,
        TokenEnum::Semicolon => "Semicolon"@,
        TokenEnum::Slash => "Slash"@,
        TokenEnum::Star => "Star"@,
        TokenEnum::Bang => "Bang"@,
        TokenEnum::BangEqual => "BangEqual"@,
        TokenEnum::Equal => "Equal"@,
        TokenEnum::EqualEqual => "EqualEqual"@,
        TokenEnum::Greater => "Greater"@,
        TokenEnum::GreaterEqual => "GreaterEqual"@,
        TokenEnum::Less => "Less"@,
        TokenEnum::LessEqual => "LessEqual"@,
        TokenEnum::Identifier => "Identifier"@,
        TokenEnum::StringLiteral => "StringLiteral"@,
        TokenEnum::NumberLiteral => "NumberLiteral"@,
        TokenEnum::And => "And"@,
        TokenEnum::Class => "Class"@,
        TokenEnum::Else => "Else"@,
        TokenEnum::False => "False"@,
        TokenEnum::Fun => "Fun"@,
        TokenEnum::For => "For"@,
        TokenEnum::If => "If"@,
        TokenEnum::Nil => "Nil"@,
        TokenEnum::Or => "Or"@,
        TokenEnum::Print => "Print"@,
        TokenEnum::Return => "Return"@,
        TokenEnum::Super => "Super"@,
        TokenEnum::This => "This"@,
        TokenEnum::True => "True"@,
        TokenEnum::EndOfFile => "EndOfFile"@,
    }
}

fn kind_name_str(k: TokenEnum) -> (r: &'static str)
    ensures
        r@ == kind_name(k),
{
    match k {
        TokenEnum::LeftParen => "LeftParen",
        TokenEnum::RightParen => "RightParen",
        TokenEnum::LeftBrace => "LeftBrace",
        TokenEnum::RightBrace => "RightBrace",
        TokenEnum::Comma => "Comma",
        TokenEnum::Dot => "Dot",
        TokenEnum::Minus => "Minus",
        TokenEnum::Plus => "Plus",
        TokenEnum::Semicolon => "Semicolon",
        TokenEnum::Slash => "Slash",
        TokenEnum::Star => "Star",
        TokenEnum::Bang => "Bang",
        TokenEnum::BangEqual => "BangEqual",
        TokenEnum::Equal => "Equal",
        TokenEnum::EqualEqual => "EqualEqual",
        TokenEnum::Greater => "Greater",
        TokenEnum::GreaterEqual => "GreaterEqual",
        TokenEnum::Less => "Less",
        TokenEnum::LessEqual => "LessEqual",
        TokenEnum::Identifier => "Identifier",
        TokenEnum::StringLiteral => "StringLiteral",
        TokenEnum::NumberLiteral => "NumberLiteral",
        TokenEnum::And => "And",
        TokenEnum::Class => "Class",
        TokenEnum::Else => "Else",
        TokenEnum::False => "False",
        TokenEnum::Fun => "Fun",
        TokenEnum::For => "For",
        TokenEnum::If => "If",
        TokenEnum::Nil => "Nil",
        TokenEnum::Or => "Or",
        TokenEnum::Print => "Print",
        TokenEnum::Return => "Return",
        TokenEnum::Super => "Super",
        TokenEnum::This => "This",
        TokenEnum::True => "True",
        TokenEnum::EndOfFile => "EndOfFile",
    }
}

impl Token {
    pub fn new(kind: TokenEnum, lexeme: String, literal: String, line: usize) -> (t: Token)
        ensures
            t@ == (TokenModel { kind, lexeme: lexeme@, literal: literal@, line: line as int }),
    {
        Token { kind, lexeme, literal, line }
    }

    /// An exact copy of the token.
    pub fn duplicate(&self) -> (t: Token)
        ensures
            t@ == self@,
    {
        Token {
            kind: self.kind,
            lexeme: self.lexeme.clone(),
            literal: self.literal.clone(),
            line: self.line,
        }
    }

    /// The token's classification name, lexeme, and literal payload,
    /// split by single spaces.
    pub fn to_string(&self) -> (r: String)
        ensures
            r@ == kind_name(self.kind) + " "@ + self.lexeme@ + " "@ + self.literal@,
    {
        let mut s = String::from_str(kind_name_str(self.kind));
        s.append(" ");
        s.append(self.lexeme.as_str());
        s.append(" ");
        s.append(self.literal.as_str());
        s
    }
}

} // verus!
