use vstd::prelude::*;
use crate::frontend::errors::span::Span;

verus! {

/// The kind of a token, with the text it carries where it has one.
///
/// A float literal keeps its digits (underscores removed) as text.
#[derive(Debug)]
pub enum TokenKind {
    Plus,
    Minus,
    Asterisk,
    Slash,
    Assign,
    LParen,
    RParen,
    LSquare,
    RSquare,
    LBrace,
    RBrace,
    Exclamation,
    Comma,
    Dot,
    Ellipsis,
    Semicolon,
    Greater,
    Lower,
    Eq,
    GreaterEq,
    LowerEq,
    NotEq,
    Integer(i64),
    Float(String),
    String(String),
    Identifier(String),
    Character(char),
    I64,
    I32,
    I16,
    I8,
    U64,
    U32,
    U16,
    U8,
    F64,
    F32,
    Bool,
    Char,
    Str,
    Void,
    Pub,
    Fn,
    Import,
    Extern,
    Var,
    Const,
    Return,
    If,
    Else,
    Or,
    And,
    As,
    While,
    For,
    In,
    Continue,
    Break,
    True,
    False,
    EOF,
}

/// The mathematical model of a [`TokenKind`]: text becomes a sequence of chars.
pub enum SpecTokenKind {
    Plus,
    Minus,
    Asterisk,
    Slash,
    Assign,
    LParen,
    RParen,
    LSquare,
    RSquare,
    LBrace,
    RBrace,
    Exclamation,
    Comma,
    Dot,
    Ellipsis,
    Semicolon,
    Greater,
    Lower,
    Eq,
    GreaterEq,
    LowerEq,
    NotEq,
    Integer(i64),
    Float(Seq<char>),
    String(Seq<char>),
    Identifier(Seq<char>),
    Character(char),
    I64,
    I32,
    I16,
    I8,
    U64,
    U32,
    U16,
    U8,
    F64,
    F32,
    Bool,
    Char,
    Str,
    Void,
    Pub,
    Fn,
    Import,
    Extern,
    Var,
    Const,
    Return,
    If,
    Else,
    Or,
    And,
    As,
    While,
    For,
    In,
    Continue,
    Break,
    True,
    False,
    EOF,
}

impl View for TokenKind {
    type V = SpecTokenKind;

    open spec fn view(&self) -> SpecTokenKind {
        match self {
            TokenKind::Plus => SpecTokenKind::Plus,
            TokenKind::Minus => SpecTokenKind::Minus,
            TokenKind::Asterisk => SpecTokenKind::Asterisk,
            TokenKind::Slash => SpecTokenKind::Slash,
            TokenKind::Assign => SpecTokenKind::Assign,
            TokenKind::LParen => SpecTokenKind::LParen,
            TokenKind::RParen => SpecTokenKind::RParen,
            TokenKind::LSquare => SpecTokenKind::LSquare,
            TokenKind::RSquare => SpecTokenKind::RSquare,
            TokenKind::LBrace => SpecTokenKind::LBrace,
            TokenKind::RBrace => SpecTokenKind::RBrace,
            TokenKind::Exclamation => SpecTokenKind::Exclamation,
            TokenKind::Comma => SpecTokenKind::Comma,
            TokenKind::Dot => SpecTokenKind::Dot,
            TokenKind::Ellipsis => SpecTokenKind::Ellipsis,
            TokenKind::Semicolon => SpecTokenKind::Semicolon,
            TokenKind::Greater => SpecTokenKind::Greater,
            TokenKind::Lower => SpecTokenKind::Lower,
            TokenKind::Eq => SpecTokenKind::Eq,
            TokenKind::GreaterEq => SpecTokenKind::GreaterEq,
            TokenKind::LowerEq => SpecTokenKind::LowerEq,
            TokenKind::NotEq => SpecTokenKind::NotEq,
            TokenKind::I64 => SpecTokenKind::I64,
            TokenKind::I32 => SpecTokenKind::I32,
            TokenKind::I16 => SpecTokenKind::I16,
            TokenKind::I8 => SpecTokenKind::I8,
            TokenKind::U64 => SpecTokenKind::U64,
            TokenKind::U32 => SpecTokenKind::U32,
            TokenKind::U16 => SpecTokenKind::U16,
            TokenKind::U8 => SpecTokenKind::U8,
            TokenKind::F64 => SpecTokenKind::F64,
            TokenKind::F32 => SpecTokenKind::F32,
            TokenKind::Bool => SpecTokenKind::Bool,
            TokenKind::Char => SpecTokenKind::Char,
            TokenKind::Str => SpecTokenKind::Str,
            TokenKind::Void => SpecTokenKind::Void,
            TokenKind::Pub => SpecTokenKind::Pub,
            TokenKind::Fn => SpecTokenKind::Fn,
            TokenKind::Import => SpecTokenKind::Import,
            TokenKind::Extern => SpecTokenKind::Extern,
            TokenKind::Var => SpecTokenKind::Var,
            TokenKind::Const => SpecTokenKind::Const,
            TokenKind::Return => SpecTokenKind::Return,
            TokenKind::If => SpecTokenKind::If,
            TokenKind::Else => SpecTokenKind::Else,
            TokenKind::Or => SpecTokenKind::Or,
            TokenKind::And => SpecTokenKind::And,
            TokenKind::As => SpecTokenKind::As,
            TokenKind::While => SpecTokenKind::While,
            TokenKind::For => SpecTokenKind::For,
            TokenKind::In => SpecTokenKind::In,
            TokenKind::Continue => SpecTokenKind::Continue,
            TokenKind::Break => SpecTokenKind::Break,
            TokenKind::True => SpecTokenKind::True,
            TokenKind::False => SpecTokenKind::False,
            TokenKind::EOF => SpecTokenKind::EOF,
            TokenKind::Integer(v) => SpecTokenKind::Integer(*v),
            TokenKind::Float(s) => SpecTokenKind::Float(s@),
            TokenKind::String(s) => SpecTokenKind::String(s@),
            TokenKind::Identifier(s) => SpecTokenKind::Identifier(s@),
            TokenKind::Character(v) => SpecTokenKind::Character(*v),
        }
    }
}

/// The characters that write an operator or punctuation token; none for other kinds.
pub open spec fn punct_text(k: SpecTokenKind) -> Option<Seq<char>> {
    match k {
        SpecTokenKind::Plus => Some(seq!['+']),
        SpecTokenKind::Minus => Some(seq!['-']),
        SpecTokenKind::Asterisk => Some(seq!['*']),
        SpecTokenKind::Slash => Some(seq!['/']),
        SpecTokenKind::Assign => Some(seq!['=']),
        SpecTokenKind::LParen => Some(seq!['(']),
        SpecTokenKind::RParen => Some(seq![')']),
        SpecTokenKind::LSquare => Some(seq!['[']),
        SpecTokenKind::RSquare => Some(seq![']']),
        SpecTokenKind::LBrace => Some(seq!['{']),
        SpecTokenKind::RBrace => Some(seq!['}']),
        SpecTokenKind::Exclamation => Some(seq!['!']),
        SpecTokenKind::Comma => Some(seq![',']),
        SpecTokenKind::Dot => Some(seq!['.']),
        SpecTokenKind::Ellipsis => Some(seq!['.', '.', '.']),
        SpecTokenKind::Semicolon => Some(seq![';']),
        SpecTokenKind::Greater => Some(seq!['>']),
        SpecTokenKind::Lower => Some(seq!['<']),
        SpecTokenKind::Eq => Some(seq!['=', '=']),
        SpecTokenKind::GreaterEq => Some(seq!['>', '=']),
        SpecTokenKind::LowerEq => Some(seq!['<', '=']),
        SpecTokenKind::NotEq => Some(seq!['!', '=']),
        SpecTokenKind::Or => Some(seq!['|', '|']),
        SpecTokenKind::And => Some(seq!['&', '&']),
        _ => None,
    }
}

/// How a token kind is named in messages.
pub open spec fn describe_kind(k: SpecTokenKind) -> Seq<char> {
    match k {
        SpecTokenKind::Plus => "+"@,
        SpecTokenKind::Minus => "-"@,
        SpecTokenKind::Asterisk => "*"@,
        SpecTokenKind::Slash => "/"@,
        SpecTokenKind::Assign => "="@,
        SpecTokenKind::LParen => "("@,
        SpecTokenKind::RParen => ")"@,
        SpecTokenKind::LSquare => "["@,
        SpecTokenKind::RSquare => "]"@,
        SpecTokenKind::LBrace => "{"@,
        SpecTokenKind::RBrace => "}"@,
        SpecTokenKind::Exclamation => "!"@,
        SpecTokenKind::Comma => ","@,
        SpecTokenKind::Dot => "."@,
        SpecTokenKind::Ellipsis => "..."@,
        SpecTokenKind::Semicolon => ";"@,
        SpecTokenKind::Greater => ">"@,
        SpecTokenKind::Lower => "<"@,
        SpecTokenKind::Eq => "=="@,
        SpecTokenKind::GreaterEq => ">="@,
        SpecTokenKind::LowerEq => "<="@,
        SpecTokenKind::NotEq => "!="@,
        SpecTokenKind::I64 => "i64"@,
        SpecTokenKind::I32 => "i32"@,
        SpecTokenKind::I16 => "i16"@,
        SpecTokenKind::I8 => "i8"@,
        SpecTokenKind::U64 => "u64"@,
        SpecTokenKind::U32 => "u32"@,
        SpecTokenKind::U16 => "u16"@,
        SpecTokenKind::U8 => "u8"@,
        SpecTokenKind::F64 => "f64"@,
        SpecTokenKind::F32 => "f32"@,
        SpecTokenKind::Bool => "bool"@,
        SpecTokenKind::Char => "char"@,
        SpecTokenKind::Str => "str"@,
        SpecTokenKind::Void => "void"@,
        SpecTokenKind::Pub => "pub"@,
        SpecTokenKind::Fn => "fn"@,
        SpecTokenKind::Import => "import"@,
        SpecTokenKind::Extern => "extern"@,
        SpecTokenKind::Var => "var"@,
        SpecTokenKind::Const => "const"@,
        SpecTokenKind::Return => "return"@,
        SpecTokenKind::If => "if"@,
        SpecTokenKind::Else => "else"@,
        SpecTokenKind::Or => "or"@,
        SpecTokenKind::And => "and"@,
        SpecTokenKind::As => "as"@,
        SpecTokenKind::While => "while"@,
        SpecTokenKind::For => "for"@,
        SpecTokenKind::In => "in"@,
        SpecTokenKind::Continue => "continue"@,
        SpecTokenKind::Break => "break"@,
        SpecTokenKind::True => "true"@,
        SpecTokenKind::False => "false"@,
        SpecTokenKind::EOF => "eof"@,
        SpecTokenKind::Integer(_) => "int literal"@,
        SpecTokenKind::Float(_) => "float literal"@,
        SpecTokenKind::String(_) => "string literal"@,
        SpecTokenKind::Identifier(_) => "identifier"@,
        SpecTokenKind::Character(_) => "char literal"@,
    }
}

/// A number that tells the variants of a token kind apart.
pub open spec fn kind_tag(k: SpecTokenKind) -> u8 {
    match k {
        SpecTokenKind::Plus => 0,
        SpecTokenKind::Minus => 1,
        SpecTokenKind::Asterisk => 2,
        SpecTokenKind::Slash => 3,
        SpecTokenKind::Assign => 4,
        SpecTokenKind::LParen => 5,
        SpecTokenKind::RParen => 6,
        SpecTokenKind::LSquare => 7,
        SpecTokenKind::RSquare => 8,
        SpecTokenKind::LBrace => 9,
        SpecTokenKind::RBrace => 10,
        SpecTokenKind::Exclamation => 11,
        SpecTokenKind::Comma => 12,
        SpecTokenKind::Dot => 13,
        SpecTokenKind::Ellipsis => 14,
        SpecTokenKind::Semicolon => 15,
        SpecTokenKind::Greater => 16,
        SpecTokenKind::Lower => 17,
        SpecTokenKind::Eq => 18,
        SpecTokenKind::GreaterEq => 19,
        SpecTokenKind::LowerEq => 20,
        SpecTokenKind::NotEq => 21,
        SpecTokenKind::Integer(_) => 22,
        SpecTokenKind::Float(_) => 23,
        SpecTokenKind::String(_) => 24,
        SpecTokenKind::Identifier(_) => 25,
        SpecTokenKind::Character(_) => 26,
        SpecTokenKind::I64 => 27,
        SpecTokenKind::I32 => 28,
        SpecTokenKind::I16 => 29,
        SpecTokenKind::I8 => 30,
        SpecTokenKind::U64 => 31,
        SpecTokenKind::U32 => 32,
        SpecTokenKind::U16 => 33,
        SpecTokenKind::U8 => 34,
        SpecTokenKind::F64 => 35,
        SpecTokenKind::F32 => 36,
        SpecTokenKind::Bool => 37,
        SpecTokenKind::Char => 38,
        SpecTokenKind::Str => 39,
        SpecTokenKind::Void => 40,
        SpecTokenKind::Pub => 41,
        SpecTokenKind::Fn => 42,
        SpecTokenKind::Import => 43,
        SpecTokenKind::Extern => 44,
        SpecTokenKind::Var => 45,
        SpecTokenKind::Const => 46,
        SpecTokenKind::Return => 47,
        SpecTokenKind::If => 48,
        SpecTokenKind::Else => 49,
        SpecTokenKind::Or => 50,
        SpecTokenKind::And => 51,
        SpecTokenKind::As => 52,
        SpecTokenKind::While => 53,
        SpecTokenKind::For => 54,
        SpecTokenKind::In => 55,
        SpecTokenKind::Continue => 56,
        SpecTokenKind::Break => 57,
        SpecTokenKind::True => 58,
        SpecTokenKind::False => 59,
        SpecTokenKind::EOF => 60,
    }
}

impl TokenKind {
    /// How this kind is named in messages.
    pub fn describe(&self) -> (r: &'static str)
        ensures
            r@ == describe_kind(self@),
    {
        match self {
            TokenKind::Plus => "+",
            TokenKind::Minus => "-",
            TokenKind::Asterisk => "*",
            TokenKind::Slash => "/",
            TokenKind::Assign => "=",
            TokenKind::LParen => "(",
            TokenKind::RParen => ")",
            TokenKind::LSquare => "[",
            TokenKind::RSquare => "]",
            TokenKind::LBrace => "{",
            TokenKind::RBrace => "}",
            TokenKind::Exclamation => "!",
            TokenKind::Comma => ",",
            TokenKind::Dot => ".",
            TokenKind::Ellipsis => "...",
            TokenKind::Semicolon => ";",
            TokenKind::Greater => ">",
            TokenKind::Lower => "<",
            TokenKind::Eq => "==",
            TokenKind::GreaterEq => ">=",
            TokenKind::LowerEq => "<=",
            TokenKind::NotEq => "!=",
            TokenKind::I64 => "i64",
            TokenKind::I32 => "i32",
            TokenKind::I16 => "i16",
            TokenKind::I8 => "i8",
            TokenKind::U64 => "u64",
            TokenKind::U32 => "u32",
            TokenKind::U16 => "u16",
            TokenKind::U8 => "u8",
            TokenKind::F64 => "f64",
            TokenKind::F32 => "f32",
            TokenKind::Bool => "bool",
            TokenKind::Char => "char",
            TokenKind::Str => "str",
            TokenKind::Void => "void",
            TokenKind::Pub => "pub",
            TokenKind::Fn => "fn",
            TokenKind::Import => "import",
            TokenKind::Extern => "extern",
            TokenKind::Var => "var",
            TokenKind::Const => "const",
            TokenKind::Return => "return",
            TokenKind::If => "if",
            TokenKind::Else => "else",
            TokenKind::Or => "or",
            TokenKind::And => "and",
            TokenKind::As => "as",
            TokenKind::While => "while",
            TokenKind::For => "for",
            TokenKind::In => "in",
            TokenKind::Continue => "continue",
            TokenKind::Break => "break",
            TokenKind::True => "true",
            TokenKind::False => "false",
            TokenKind::EOF => "eof",
            TokenKind::Integer(_) => "int literal",
            TokenKind::Float(_) => "float literal",
            TokenKind::String(_) => "string literal",
            TokenKind::Identifier(_) => "identifier",
            TokenKind::Character(_) => "char literal",
        }
    }

    fn tag(&self) -> (r: u8)
        ensures
            r == kind_tag(self@),
    {
        match self {
            TokenKind::Plus => 0,
            TokenKind::Minus => 1,
            TokenKind::Asterisk => 2,
            TokenKind::Slash => 3,
            TokenKind::Assign => 4,
            TokenKind::LParen => 5,
            TokenKind::RParen => 6,
            TokenKind::LSquare => 7,
            TokenKind::RSquare => 8,
            TokenKind::LBrace => 9,
            TokenKind::RBrace => 10,
            TokenKind::Exclamation => 11,
            TokenKind::Comma => 12,
            TokenKind::Dot => 13,
            TokenKind::Ellipsis => 14,
            TokenKind::Semicolon => 15,
            TokenKind::Greater => 16,
            TokenKind::Lower => 17,
            TokenKind::Eq => 18,
            TokenKind::GreaterEq => 19,
            TokenKind::LowerEq => 20,
            TokenKind::NotEq => 21,
            TokenKind::Integer(_) => 22,
            TokenKind::Float(_) => 23,
            TokenKind::String(_) => 24,
            TokenKind::Identifier(_) => 25,
            TokenKind::Character(_) => 26,
            TokenKind::I64 => 27,
            TokenKind::I32 => 28,
            TokenKind::I16 => 29,
            TokenKind::I8 => 30,
            TokenKind::U64 => 31,
            TokenKind::U32 => 32,
            TokenKind::U16 => 33,
            TokenKind::U8 => 34,
            TokenKind::F64 => 35,
            TokenKind::F32 => 36,
            TokenKind::Bool => 37,
            TokenKind::Char => 38,
            TokenKind::Str => 39,
            TokenKind::Void => 40,
            TokenKind::Pub => 41,
            TokenKind::Fn => 42,
            TokenKind::Import => 43,
            TokenKind::Extern => 44,
            TokenKind::Var => 45,
            TokenKind::Const => 46,
            TokenKind::Return => 47,
            TokenKind::If => 48,
            TokenKind::Else => 49,
            TokenKind::Or => 50,
            TokenKind::And => 51,
            TokenKind::As => 52,
            TokenKind::While => 53,
            TokenKind::For => 54,
            TokenKind::In => 55,
            TokenKind::Continue => 56,
            TokenKind::Break => 57,
            TokenKind::True => 58,
            TokenKind::False => 59,
            TokenKind::EOF => 60,
        }
    }

}
/// Whether `k` names a type in a declaration.
pub open spec fn is_type_kind(k: SpecTokenKind) -> bool {
    match k {
        SpecTokenKind::I64 | SpecTokenKind::U64 | SpecTokenKind::F64 | SpecTokenKind::I32
        | SpecTokenKind::U32 | SpecTokenKind::F32 | SpecTokenKind::I16 | SpecTokenKind::U16
        | SpecTokenKind::I8 | SpecTokenKind::U8 | SpecTokenKind::Bool | SpecTokenKind::Char
        | SpecTokenKind::Str | SpecTokenKind::Void => true,
        _ => false,
    }
}

impl TokenKind {
    /// Whether two kinds are the same, text and value included.
    pub fn same_as(&self, other: &TokenKind) -> (r: bool)
        ensures
            r == (self@ == other@),
    {
        match (self, other) {
            (TokenKind::Integer(a), TokenKind::Integer(b)) => *a == *b,
            (TokenKind::Character(a), TokenKind::Character(b)) => *a == *b,
            (TokenKind::Float(a), TokenKind::Float(b)) => *a == *b,
            (TokenKind::String(a), TokenKind::String(b)) => *a == *b,
            (TokenKind::Identifier(a), TokenKind::Identifier(b)) => *a == *b,
            _ => self.tag() == other.tag(),
        }
    }

    /// A copy of this kind.
    pub fn duplicate(&self) -> (r: TokenKind)
        ensures
            r@ == self@,
    {
        match self {
            TokenKind::Float(s) => TokenKind::Float(s.clone()),
            TokenKind::String(s) => TokenKind::String(s.clone()),
            TokenKind::Identifier(s) => TokenKind::Identifier(s.clone()),
            TokenKind::Integer(v) => TokenKind::Integer(*v),
            TokenKind::Character(c) => TokenKind::Character(*c),
            _ => self.copy_fieldless(),
        }
    }

    fn copy_fieldless(&self) -> (r: TokenKind)
        ensures
            r@ == self@ || !is_fieldless(self@),
    {
        match self {
            TokenKind::Plus => TokenKind::Plus,
            TokenKind::Minus => TokenKind::Minus,
            TokenKind::Asterisk => TokenKind::Asterisk,
            TokenKind::Slash => TokenKind::Slash,
            TokenKind::Assign => TokenKind::Assign,
            TokenKind::LParen => TokenKind::LParen,
            TokenKind::RParen => TokenKind::RParen,
            TokenKind::LSquare => TokenKind::LSquare,
            TokenKind::RSquare => TokenKind::RSquare,
            TokenKind::LBrace => TokenKind::LBrace,
            TokenKind::RBrace => TokenKind::RBrace,
            TokenKind::Exclamation => TokenKind::Exclamation,
            TokenKind::Comma => TokenKind::Comma,
            TokenKind::Dot => TokenKind::Dot,
            TokenKind::Ellipsis => TokenKind::Ellipsis,
            TokenKind::Semicolon => TokenKind::Semicolon,
            TokenKind::Greater => TokenKind::Greater,
            TokenKind::Lower => TokenKind::Lower,
            TokenKind::Eq => TokenKind::Eq,
            TokenKind::GreaterEq => TokenKind::GreaterEq,
            TokenKind::LowerEq => TokenKind::LowerEq,
            TokenKind::NotEq => TokenKind::NotEq,
            TokenKind::I64 => TokenKind::I64,
            TokenKind::I32 => TokenKind::I32,
            TokenKind::I16 => TokenKind::I16,
            TokenKind::I8 => TokenKind::I8,
            TokenKind::U64 => TokenKind::U64,
            TokenKind::U32 => TokenKind::U32,
            TokenKind::U16 => TokenKind::U16,
            TokenKind::U8 => TokenKind::U8,
            TokenKind::F64 => TokenKind::F64,
            TokenKind::F32 => TokenKind::F32,
            TokenKind::Bool => TokenKind::Bool,
            TokenKind::Char => TokenKind::Char,
            TokenKind::Str => TokenKind::Str,
            TokenKind::Void => TokenKind::Void,
            TokenKind::Pub => TokenKind::Pub,
            TokenKind::Fn => TokenKind::Fn,
            TokenKind::Import => TokenKind::Import,
            TokenKind::Extern => TokenKind::Extern,
            TokenKind::Var => TokenKind::Var,
            TokenKind::Const => TokenKind::Const,
            TokenKind::Return => TokenKind::Return,
            TokenKind::If => TokenKind::If,
            TokenKind::Else => TokenKind::Else,
            TokenKind::Or => TokenKind::Or,
            TokenKind::And => TokenKind::And,
            TokenKind::As => TokenKind::As,
            TokenKind::While => TokenKind::While,
            TokenKind::For => TokenKind::For,
            TokenKind::In => TokenKind::In,
            TokenKind::Continue => TokenKind::Continue,
            TokenKind::Break => TokenKind::Break,
            TokenKind::True => TokenKind::True,
            TokenKind::False => TokenKind::False,
            TokenKind::EOF => TokenKind::EOF,
            _ => TokenKind::EOF,
        }
    }

    /// Whether this kind names a type.
    pub fn is_type(&self) -> (r: bool)
        ensures
            r == is_type_kind(self@),
    {
        match self {
            TokenKind::I64 | TokenKind::U64 | TokenKind::F64 | TokenKind::I32 | TokenKind::U32
            | TokenKind::F32 | TokenKind::I16 | TokenKind::U16 | TokenKind::I8 | TokenKind::U8
            | TokenKind::Bool | TokenKind::Char | TokenKind::Str | TokenKind::Void => true,
            _ => false,
        }
    }
}

/// Whether `k` carries no text or value.
pub open spec fn is_fieldless(k: SpecTokenKind) -> bool {
    match k {
        SpecTokenKind::Integer(_) | SpecTokenKind::Float(_) | SpecTokenKind::String(_)
        | SpecTokenKind::Identifier(_) | SpecTokenKind::Character(_) => false,
        _ => true,
    }
}

/// A token: its kind and where it stands in the source.
#[derive(Debug)]
pub struct Token {
    pub kind: TokenKind,
    pub span: Span,
}

/// The mathematical model of a [`Token`].
pub struct SpecToken {
    pub kind: SpecTokenKind,
    pub span: Span,
}

impl View for Token {
    type V = SpecToken;

    open spec fn view(&self) -> SpecToken {
        SpecToken { kind: self.kind@, span: self.span }
    }
}

impl Token {
    pub fn new(kind: TokenKind, span: Span) -> (t: Token)
        ensures
            t.kind == kind,
            t.span == span,
    {
        Token { kind, span }
    }

    /// A copy of this token.
    pub fn duplicate(&self) -> (r: Token)
        ensures
            r@ == self@,
    {
        Token { kind: self.kind.duplicate(), span: self.span }
    }
}

} // verus!
