use vstd::prelude::*;

verus! {

/// A token is one terminal symbol of a program, as produced by the lexer.
#[derive(Debug, Clone, PartialEq, Eq)]
pub enum Token {
    /// A character that starts no token of the language.
    Illegal,
    Identifier(String),
    Integer(String),
    Float(String),
    String(String),
    Boolean(String),
    Semicolon,
    Colon,
    Comma,
    Dot,
    LParent,
    RParent,
    LBrace,
    RBrace,
    LBracket,
    RBracket,
    Assign,
    Add,
    Subtract,
    Multiply,
    Divide,
    Modular,
    Invert,
    And,
    Or,
    Equal,
    NotEqual,
    GreaterThan,
    LessThan,
    GreaterThanEqual,
    LessThanEqual,
    Function,
    Let,
    If,
    Else,
    While,
    IntegerType,
    FloatType,
    StringType,
    BooleanType,
    NullType,
    ArrayType,
    Return,
    Error,
}

/// Binding powers of the operators, in ascending order.
#[derive(Debug, Clone, Copy, PartialEq, Eq, PartialOrd, Ord)]
pub enum Precedences {
    Lowest,
    OrAnd,
    Equals,
    LessGreater,
    Sum,
    Product,
    Prefix,
    Postfix,
    Call,
    Assign,
}

impl Precedences {
    /// The position of the precedence in the ascending order.
    pub open spec fn rank(self) -> int {
        match self {
            Precedences::Lowest => 0,
            Precedences::OrAnd => 1,
            Precedences::Equals => 2,
            Precedences::LessGreater => 3,
            Precedences::Sum => 4,
            Precedences::Product => 5,
            Precedences::Prefix => 6,
            Precedences::Postfix => 7,
            Precedences::Call => 8,
            Precedences::Assign => 9,
        }
    }

    pub fn level(&self) -> (r: u8)
        ensures
            r == self.rank(),
    {
        match self {
            Precedences::Lowest => 0,
            Precedences::OrAnd => 1,
            Precedences::Equals => 2,
            Precedences::LessGreater => 3,
            Precedences::Sum => 4,
            Precedences::Product => 5,
            Precedences::Prefix => 6,
            Precedences::Postfix => 7,
            Precedences::Call => 8,
            Precedences::Assign => 9,
        }
    }
}

/// The precedence of an operator token; every other token binds at `Lowest`.
pub open spec fn precedence_of(t: Token) -> Precedences {
    match t {
        Token::Add | Token::Subtract => Precedences::Sum,
        Token::Or | Token::And => Precedences::OrAnd,
        Token::Multiply | Token::Divide | Token::Modular => Precedences::Product,
        Token::Equal | Token::NotEqual => Precedences::Equals,
        Token::LessThan | Token::GreaterThan | Token::LessThanEqual | Token::GreaterThanEqual => {
            Precedences::LessGreater
        },
        Token::Invert => Precedences::Prefix,
        Token::LParent => Precedences::Call,
        Token::Assign => Precedences::Assign,
        Token::LBracket => Precedences::Postfix,
        _ => Precedences::Lowest,
    }
}

/// A token as a variant number and the text it carries (empty for bare tokens).
pub open spec fn token_view(t: Token) -> (int, Seq<char>) {
    match t {
        Token::Identifier(s) => (t.tag(), s@),
        Token::Integer(s) => (t.tag(), s@),
        Token::Float(s) => (t.tag(), s@),
        Token::String(s) => (t.tag(), s@),
        Token::Boolean(s) => (t.tag(), s@),
        _ => (t.tag(), Seq::empty()),
    }
}

impl Token {
    /// A number that tells the variants apart, whatever their payload.
    pub open spec fn tag(self) -> int {
        match self {
            Token::Illegal => 0,
            Token::Identifier(_) => 1,
            Token::Integer(_) => 2,
            Token::Float(_) => 3,
            Token::String(_) => 4,
            Token::Boolean(_) => 5,
            Token::Semicolon => 6,
            Token::Colon => 7,
            Token::Comma => 8,
            Token::Dot => 9,
            Token::LParent => 10,
            Token::RParent => 11,
            Token::LBrace => 12,
            Token::RBrace => 13,
            Token::LBracket => 14,
            Token::RBracket => 15,
            Token::Assign => 16,
            Token::Add => 17,
            Token::Subtract => 18,
            Token::Multiply => 19,
            Token::Divide => 20,
            Token::Modular => 21,
            Token::Invert => 22,
            Token::And => 23,
            Token::Or => 24,
            Token::Equal => 25,
            Token::NotEqual => 26,
            Token::GreaterThan => 27,
            Token::LessThan => 28,
            Token::GreaterThanEqual => 29,
            Token::LessThanEqual => 30,
            Token::Function => 31,
            Token::Let => 32,
            Token::If => 33,
            Token::Else => 34,
            Token::While => 35,
            Token::IntegerType => 36,
            Token::FloatType => 37,
            Token::StringType => 38,
            Token::BooleanType => 39,
            Token::NullType => 40,
            Token::ArrayType => 41,
            Token::Return => 42,
            Token::Error => 43,
        }
    }

    /// True for the tokens that carry no payload.
    pub open spec fn is_bare(self) -> bool {
        !(self is Identifier || self is Integer || self is Float || self is String
            || self is Boolean)
    }

    fn variant_number(&self) -> (r: u8)
        ensures
            r == self.tag(),
    {
        match self {
            Token::Illegal => 0,
            Token::Identifier(_) => 1,
            Token::Integer(_) => 2,
            Token::Float(_) => 3,
            Token::String(_) => 4,
            Token::Boolean(_) => 5,
            Token::Semicolon => 6,
            Token::Colon => 7,
            Token::Comma => 8,
            Token::Dot => 9,
            Token::LParent => 10,
            Token::RParent => 11,
            Token::LBrace => 12,
            Token::RBrace => 13,
            Token::LBracket => 14,
            Token::RBracket => 15,
            Token::Assign => 16,
            Token::Add => 17,
            Token::Subtract => 18,
            Token::Multiply => 19,
            Token::Divide => 20,
            Token::Modular => 21,
            Token::Invert => 22,
            Token::And => 23,
            Token::Or => 24,
            Token::Equal => 25,
            Token::NotEqual => 26,
            Token::GreaterThan => 27,
            Token::LessThan => 28,
            Token::GreaterThanEqual => 29,
            Token::LessThanEqual => 30,
            Token::Function => 31,
            Token::Let => 32,
            Token::If => 33,
            Token::Else => 34,
            Token::While => 35,
            Token::IntegerType => 36,
            Token::FloatType => 37,
            Token::StringType => 38,
            Token::BooleanType => 39,
            Token::NullType => 40,
            Token::ArrayType => 41,
            Token::Return => 42,
            Token::Error => 43,
        }
    }

    /// A copy of the token.
    pub fn duplicate(&self) -> (r: Token)
        ensures
            r == *self,
    {
        match self {
            Token::Identifier(s) => Token::Identifier(s.clone()),
            Token::Integer(s) => Token::Integer(s.clone()),
            Token::Float(s) => Token::Float(s.clone()),
            Token::String(s) => Token::String(s.clone()),
            Token::Boolean(s) => Token::Boolean(s.clone()),
            Token::Illegal => Token::Illegal,
            Token::Semicolon => Token::Semicolon,
            Token::Colon => Token::Colon,
            Token::Comma => Token::Comma,
            Token::Dot => Token::Dot,
            Token::LParent => Token::LParent,
            Token::RParent => Token::RParent,
            Token::LBrace => Token::LBrace,
            Token::RBrace => Token::RBrace,
            Token::LBracket => Token::LBracket,
            Token::RBracket => Token::RBracket,
            Token::Assign => Token::Assign,
            Token::Add => Token::Add,
            Token::Subtract => Token::Subtract,
            Token::Multiply => Token::Multiply,
            Token::Divide => Token::Divide,
            Token::Modular => Token::Modular,
            Token::Invert => Token::Invert,
            Token::And => Token::And,
            Token::Or => Token::Or,
            Token::Equal => Token::Equal,
            Token::NotEqual => Token::NotEqual,
            Token::GreaterThan => Token::GreaterThan,
            Token::LessThan => Token::LessThan,
            Token::GreaterThanEqual => Token::GreaterThanEqual,
            Token::LessThanEqual => Token::LessThanEqual,
            Token::Function => Token::Function,
            Token::Let => Token::Let,
            Token::If => Token::If,
            Token::Else => Token::Else,
            Token::While => Token::While,
            Token::IntegerType => Token::IntegerType,
            Token::FloatType => Token::FloatType,
            Token::StringType => Token::StringType,
            Token::BooleanType => Token::BooleanType,
            Token::NullType => Token::NullType,
            Token::ArrayType => Token::ArrayType,
            Token::Return => Token::Return,
            Token::Error => Token::Error,
        }
    }

    /// Whether the two tokens are equal: the same variant with the same text.
    pub fn same_token(&self, other: &Token) -> (r: bool)
        ensures
            r == (token_view(*self) == token_view(*other)),
    {
        match (self, other) {
            (Token::Identifier(a), Token::Identifier(b)) => *a == *b,
            (Token::Integer(a), Token::Integer(b)) => *a == *b,
            (Token::Float(a), Token::Float(b)) => *a == *b,
            (Token::String(a), Token::String(b)) => *a == *b,
            (Token::Boolean(a), Token::Boolean(b)) => *a == *b,
            _ => self.variant_number() == other.variant_number(),
        }
    }

    /// Whether the two tokens are of the same variant, payloads aside.
    pub fn equal_variant(&self, other: &Token) -> (r: bool)
        ensures
            r == (self.tag() == other.tag()),
    {
        self.variant_number() == other.variant_number()
    }

    pub fn precedence(&self) -> (r: Precedences)
        ensures
            r == precedence_of(*self),
    {
        match self {
            Token::Add | Token::Subtract => Precedences::Sum,
            Token::Or | Token::And => Precedences::OrAnd,
            Token::Multiply | Token::Divide | Token::Modular => Precedences::Product,
            Token::Equal | Token::NotEqual => Precedences::Equals,
            Token::LessThan | Token::GreaterThan | Token::LessThanEqual
            | Token::GreaterThanEqual => Precedences::LessGreater,
            Token::Invert => Precedences::Prefix,
            Token::LParent => Precedences::Call,
            Token::Assign => Precedences::Assign,
            Token::LBracket => Precedences::Postfix,
            _ => Precedences::Lowest,
        }
    }
}

} // verus!
