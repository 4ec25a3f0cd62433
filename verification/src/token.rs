use vstd::prelude::*;

verus! {

/// The kind of a token, with the value of a literal or the text of a name.
///
/// A float literal keeps its digits as written; turning them into a number is left to
/// the code generator.
#[derive(Debug)]
pub enum TokenType {
    IntLiteral(i32),
    FloatLiteral(String),
    CharLiteral(char),
    StringLiteral(String),
    Identifier(String),
    Boolean,
    Var,
    Fn,
    Def,
    Let,
    Class,
    Struct,
    If,
    Else,
    While,
    Return,
    True,
    False,
    For,
    And,
    Or,
    As,
    Plus,
    Minus,
    Star,
    Slash,
    Percent,
    Equal,
    EqualEqual,
    Bang,
    BangEqual,
    Greater,
    GreaterEqual,
    Less,
    LessEqual,
    Arrow,
    Ampersand,
    LeftParen,
    RightParen,
    LeftBrace,
    RightBrace,
    LeftBracket,
    RightBracket,
    Comma,
    Semicolon,
    Period,
    Colon,
    DoubleColon,
    At,
    SingleQuote,
    DoubleQuote,
    Newline,
    Eof,
    Void,
    Char,
    Float,
    Int,
    Long,
}

/// The model of a `TokenType`.
pub enum TokenTypeV {
    IntLiteral(i32),
    FloatLiteral(Seq<char>),
    CharLiteral(char),
    StringLiteral(Seq<char>),
    Identifier(Seq<char>),
    Boolean,
    Var,
    Fn,
    Def,
    Let,
    Class,
    Struct,
    If,
    Else,
    While,
    Return,
    True,
    False,
    For,
    And,
    Or,
    As,
    Plus,
    Minus,
    Star,
    Slash,
    Percent,
    Equal,
    EqualEqual,
    Bang,
    BangEqual,
    Greater,
    GreaterEqual,
    Less,
    LessEqual,
    Arrow,
    Ampersand,
    LeftParen,
    RightParen,
    LeftBrace,
    RightBrace,
    LeftBracket,
    RightBracket,
    Comma,
    Semicolon,
    Period,
    Colon,
    DoubleColon,
    At,
    SingleQuote,
    DoubleQuote,
    Newline,
    Eof,
    Void,
    Char,
    Float,
    Int,
    Long,
}

impl View for TokenType {
    type V = TokenTypeV;

    open spec fn view(&self) -> TokenTypeV {
        match self {
            TokenType::IntLiteral(n) => TokenTypeV::IntLiteral(*n),
            TokenType::FloatLiteral(s) => TokenTypeV::FloatLiteral(s@),
            TokenType::CharLiteral(c) => TokenTypeV::CharLiteral(*c),
            TokenType::StringLiteral(s) => TokenTypeV::StringLiteral(s@),
            TokenType::Identifier(s) => TokenTypeV::Identifier(s@),
            TokenType::Boolean => TokenTypeV::Boolean,
            TokenType::Var => TokenTypeV::Var,
            TokenType::Fn => TokenTypeV::Fn,
            TokenType::Def => TokenTypeV::Def,
            TokenType::Let => TokenTypeV::Let,
            TokenType::Class => TokenTypeV::Class,
            TokenType::Struct => TokenTypeV::Struct,
            TokenType::If => TokenTypeV::If,
            TokenType::Else => TokenTypeV::Else,
            TokenType::While => TokenTypeV::While,
            TokenType::Return => TokenTypeV::Return,
            TokenType::True => TokenTypeV::True,
            TokenType::False => TokenTypeV::False,
            TokenType::For => TokenTypeV::For,
            TokenType::And => TokenTypeV::And,
            TokenType::Or => TokenTypeV::Or,
            TokenType::As => TokenTypeV::As,
            TokenType::Plus => TokenTypeV::Plus,
            TokenType::Minus => TokenTypeV::Minus,
            TokenType::Star => TokenTypeV::Star,
            TokenType::Slash => TokenTypeV::Slash,
            TokenType::Percent => TokenTypeV::Percent,
            TokenType::Equal => TokenTypeV::Equal,
            TokenType::EqualEqual => TokenTypeV::EqualEqual,
            TokenType::Bang => TokenTypeV::Bang,
            TokenType::BangEqual => TokenTypeV::BangEqual,
            TokenType::Greater => TokenTypeV::Greater,
            TokenType::GreaterEqual => TokenTypeV::GreaterEqual,
            TokenType::Less => TokenTypeV::Less,
            TokenType::LessEqual => TokenTypeV::LessEqual,
            TokenType::Arrow => TokenTypeV::Arrow,
            TokenType::Ampersand => TokenTypeV::Ampersand,
            TokenType::LeftParen => TokenTypeV::LeftParen,
            TokenType::RightParen => TokenTypeV::RightParen,
            TokenType::LeftBrace => TokenTypeV::LeftBrace,
            TokenType::RightBrace => TokenTypeV::RightBrace,
            TokenType::LeftBracket => TokenTypeV::LeftBracket,
            TokenType::RightBracket => TokenTypeV::RightBracket,
            TokenType::Comma => TokenTypeV::Comma,
            TokenType::Semicolon => TokenTypeV::Semicolon,
            TokenType::Period => TokenTypeV::Period,
            TokenType::Colon => TokenTypeV::Colon,
            TokenType::DoubleColon => TokenTypeV::DoubleColon,
            TokenType::At => TokenTypeV::At,
            TokenType::SingleQuote => TokenTypeV::SingleQuote,
            TokenType::DoubleQuote => TokenTypeV::DoubleQuote,
            TokenType::Newline => TokenTypeV::Newline,
            TokenType::Eof => TokenTypeV::Eof,
            TokenType::Void => TokenTypeV::Void,
            TokenType::Char => TokenTypeV::Char,
            TokenType::Float => TokenTypeV::Float,
            TokenType::Int => TokenTypeV::Int,
            TokenType::Long => TokenTypeV::Long,
        }
    }
}

/// Whether two token kinds are the same variant, whatever their payloads.
pub open spec fn same_kind(a: TokenTypeV, b: TokenTypeV) -> bool {
    kind_index(a) == kind_index(b)
}

/// The position of the variant in the list of token kinds.
#[verifier::opaque]
pub open spec fn kind_index(a: TokenTypeV) -> nat {
    match a {
        TokenTypeV::IntLiteral(_) => 0,
        TokenTypeV::FloatLiteral(_) => 1,
        TokenTypeV::CharLiteral(_) => 2,
        TokenTypeV::StringLiteral(_) => 3,
        TokenTypeV::Identifier(_) => 4,
        TokenTypeV::Boolean => 5,
        TokenTypeV::Var => 6,
        TokenTypeV::Fn => 7,
        TokenTypeV::Def => 8,
        TokenTypeV::Let => 9,
        TokenTypeV::Class => 10,
        TokenTypeV::Struct => 11,
        TokenTypeV::If => 12,
        TokenTypeV::Else => 13,
        TokenTypeV::While => 14,
        TokenTypeV::Return => 15,
        TokenTypeV::True => 16,
        TokenTypeV::False => 17,
        TokenTypeV::For => 18,
        TokenTypeV::And => 19,
        TokenTypeV::Or => 20,
        TokenTypeV::As => 21,
        TokenTypeV::Plus => 22,
        TokenTypeV::Minus => 23,
        TokenTypeV::Star => 24,
        TokenTypeV::Slash => 25,
        TokenTypeV::Percent => 26,
        TokenTypeV::Equal => 27,
        TokenTypeV::EqualEqual => 28,
        TokenTypeV::Bang => 29,
        TokenTypeV::BangEqual => 30,
        TokenTypeV::Greater => 31,
        TokenTypeV::GreaterEqual => 32,
        TokenTypeV::Less => 33,
        TokenTypeV::LessEqual => 34,
        TokenTypeV::Arrow => 35,
        TokenTypeV::Ampersand => 36,
        TokenTypeV::LeftParen => 37,
        TokenTypeV::RightParen => 38,
        TokenTypeV::LeftBrace => 39,
        TokenTypeV::RightBrace => 40,
        TokenTypeV::LeftBracket => 41,
        TokenTypeV::RightBracket => 42,
        TokenTypeV::Comma => 43,
        TokenTypeV::Semicolon => 44,
        TokenTypeV::Period => 45,
        TokenTypeV::Colon => 46,
        TokenTypeV::DoubleColon => 47,
        TokenTypeV::At => 48,
        TokenTypeV::SingleQuote => 49,
        TokenTypeV::DoubleQuote => 50,
        TokenTypeV::Newline => 51,
        TokenTypeV::Eof => 52,
        TokenTypeV::Void => 53,
        TokenTypeV::Char => 54,
        TokenTypeV::Float => 55,
        TokenTypeV::Int => 56,
        TokenTypeV::Long => 57,
    }
}

impl TokenType {
    /// The position of the variant in the list of token kinds.
    pub fn kind(&self) -> (r: usize)
        ensures
            r == kind_index(self@),
    {
        reveal(kind_index);
        match self {
            TokenType::IntLiteral(_) => 0,
            TokenType::FloatLiteral(_) => 1,
            TokenType::CharLiteral(_) => 2,
            TokenType::StringLiteral(_) => 3,
            TokenType::Identifier(_) => 4,
            TokenType::Boolean => 5,
            TokenType::Var => 6,
            TokenType::Fn => 7,
            TokenType::Def => 8,
            TokenType::Let => 9,
            TokenType::Class => 10,
            TokenType::Struct => 11,
            TokenType::If => 12,
            TokenType::Else => 13,
            TokenType::While => 14,
            TokenType::Return => 15,
            TokenType::True => 16,
            TokenType::False => 17,
            TokenType::For => 18,
            TokenType::And => 19,
            TokenType::Or => 20,
            TokenType::As => 21,
            TokenType::Plus => 22,
            TokenType::Minus => 23,
            TokenType::Star => 24,
            TokenType::Slash => 25,
            TokenType::Percent => 26,
            TokenType::Equal => 27,
            TokenType::EqualEqual => 28,
            TokenType::Bang => 29,
            TokenType::BangEqual => 30,
            TokenType::Greater => 31,
            TokenType::GreaterEqual => 32,
            TokenType::Less => 33,
            TokenType::LessEqual => 34,
            TokenType::Arrow => 35,
            TokenType::Ampersand => 36,
            TokenType::LeftParen => 37,
            TokenType::RightParen => 38,
            TokenType::LeftBrace => 39,
            TokenType::RightBrace => 40,
            TokenType::LeftBracket => 41,
            TokenType::RightBracket => 42,
            TokenType::Comma => 43,
            TokenType::Semicolon => 44,
            TokenType::Period => 45,
            TokenType::Colon => 46,
            TokenType::DoubleColon => 47,
            TokenType::At => 48,
            TokenType::SingleQuote => 49,
            TokenType::DoubleQuote => 50,
            TokenType::Newline => 51,
            TokenType::Eof => 52,
            TokenType::Void => 53,
            TokenType::Char => 54,
            TokenType::Float => 55,
            TokenType::Int => 56,
            TokenType::Long => 57,
        }
    }

    /// Whether `self` and `other` are the same variant, whatever their payloads.
    pub fn same_kind(&self, other: &TokenType) -> (r: bool)
        ensures
            r == same_kind(self@, other@),
    {
        self.kind() == other.kind()
    }

    /// A copy of this token kind.
    pub fn duplicate(&self) -> (r: TokenType)
        ensures
            r@ == self@,
    {
        match self {
            TokenType::IntLiteral(n) => TokenType::IntLiteral(*n),
            TokenType::FloatLiteral(s) => TokenType::FloatLiteral(s.clone()),
            TokenType::CharLiteral(c) => TokenType::CharLiteral(*c),
            TokenType::StringLiteral(s) => TokenType::StringLiteral(s.clone()),
            TokenType::Identifier(s) => TokenType::Identifier(s.clone()),
            TokenType::Boolean => TokenType::Boolean,
            TokenType::Var => TokenType::Var,
            TokenType::Fn => TokenType::Fn,
            TokenType::Def => TokenType::Def,
            TokenType::Let => TokenType::Let,
            TokenType::Class => TokenType::Class,
            TokenType::Struct => TokenType::Struct,
            TokenType::If => TokenType::If,
            TokenType::Else => TokenType::Else,
            TokenType::While => TokenType::While,
            TokenType::Return => TokenType::Return,
            TokenType::True => TokenType::True,
            TokenType::False => TokenType::False,
            TokenType::For => TokenType::For,
            TokenType::And => TokenType::And,
            TokenType::Or => TokenType::Or,
            TokenType::As => TokenType::As,
            TokenType::Plus => TokenType::Plus,
            TokenType::Minus => TokenType::Minus,
            TokenType::Star => TokenType::Star,
            TokenType::Slash => TokenType::Slash,
            TokenType::Percent => TokenType::Percent,
            TokenType::Equal => TokenType::Equal,
            TokenType::EqualEqual => TokenType::EqualEqual,
            TokenType::Bang => TokenType::Bang,
            TokenType::BangEqual => TokenType::BangEqual,
            TokenType::Greater => TokenType::Greater,
            TokenType::GreaterEqual => TokenType::GreaterEqual,
            TokenType::Less => TokenType::Less,
            TokenType::LessEqual => TokenType::LessEqual,
            TokenType::Arrow => TokenType::Arrow,
            TokenType::Ampersand => TokenType::Ampersand,
            TokenType::LeftParen => TokenType::LeftParen,
            TokenType::RightParen => TokenType::RightParen,
            TokenType::LeftBrace => TokenType::LeftBrace,
            TokenType::RightBrace => TokenType::RightBrace,
            TokenType::LeftBracket => TokenType::LeftBracket,
            TokenType::RightBracket => TokenType::RightBracket,
            TokenType::Comma => TokenType::Comma,
            TokenType::Semicolon => TokenType::Semicolon,
            TokenType::Period => TokenType::Period,
            TokenType::Colon => TokenType::Colon,
            TokenType::DoubleColon => TokenType::DoubleColon,
            TokenType::At => TokenType::At,
            TokenType::SingleQuote => TokenType::SingleQuote,
            TokenType::DoubleQuote => TokenType::DoubleQuote,
            TokenType::Newline => TokenType::Newline,
            TokenType::Eof => TokenType::Eof,
            TokenType::Void => TokenType::Void,
            TokenType::Char => TokenType::Char,
            TokenType::Float => TokenType::Float,
            TokenType::Int => TokenType::Int,
            TokenType::Long => TokenType::Long,
        }
    }
}

/// A token with the line, column and source position the lexer recorded for it.
#[derive(Debug)]
pub struct Token {
    pub token_type: TokenType,
    pub line: usize,
    pub column: usize,
    pub position: usize,
}

/// The model of a `Token`.
pub struct TokenV {
    pub token_type: TokenTypeV,
    pub line: nat,
    pub column: nat,
    pub position: nat,
}

impl View for Token {
    type V = TokenV;

    open spec fn view(&self) -> TokenV {
        TokenV {
            token_type: self.token_type@,
            line: self.line as nat,
            column: self.column as nat,
            position: self.position as nat,
        }
    }
}

impl Token {
    /// A token at the given line, column and position.
    pub fn new(token_type: TokenType, line: usize, column: usize, position: usize) -> (r: Token)
        ensures
            r@ == (TokenV { token_type: token_type@, line: line as nat, column: column as nat, position: position as nat }),
    {
        Token { token_type, line, column, position }
    }

    /// A token with only a position; line and column are 0.
    pub fn simple(token_type: TokenType, position: usize) -> (r: Token)
        ensures
            r@ == (TokenV { token_type: token_type@, line: 0, column: 0, position: position as nat }),
    {
        Token { token_type, line: 0, column: 0, position }
    }

    /// A copy of this token.
    pub fn duplicate(&self) -> (r: Token)
        ensures
            r@ == self@,
    {
        Token {
            token_type: self.token_type.duplicate(),
            line: self.line,
            column: self.column,
            position: self.position,
        }
    }
}

} // verus!

