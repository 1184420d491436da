use vstd::prelude::*;

verus! {

/// One lexical unit of a source line.  `Number` carries the IEEE-754
/// binary64 bit pattern of the literal's value.
pub enum Token {
    Import,
    Define,
    Class,
    SetKw,
    To,
    If,
    Else,
    While,
    For,
    In,
    Return,
    Async,
    Await,
    Yield,
    Closure,
    True,
    False,
    Identifier(String),
    String(String),
    Number(u64),
    LeftParen,
    RightParen,
    LeftBrace,
    RightBrace,
    LeftBracket,
    RightBracket,
    Colon,
    Comma,
    Dot,
    Plus,
    Minus,
    Multiply,
    Divide,
    Equals,
    NotEquals,
    LessThan,
    GreaterThan,
    LessThanOrEqual,
    GreaterThanOrEqual,
    Arrow,
    Newline,
    EOF,
}

/// Mathematical image of `Token`, with text as character sequences.
pub enum TokenV {
    Import,
    Define,
    Class,
    SetKw,
    To,
    If,
    Else,
    While,
    For,
    In,
    Return,
    Async,
    Await,
    Yield,
    Closure,
    True,
    False,
    Identifier(Seq<char>),
    String(Seq<char>),
    Number(u64),
    LeftParen,
    RightParen,
    LeftBrace,
    RightBrace,
    LeftBracket,
    RightBracket,
    Colon,
    Comma,
    Dot,
    Plus,
    Minus,
    Multiply,
    Divide,
    Equals,
    NotEquals,
    LessThan,
    GreaterThan,
    LessThanOrEqual,
    GreaterThanOrEqual,
    Arrow,
    Newline,
    EOF,
}

impl DeepView for Token {
    type V = TokenV;

    open spec fn deep_view(&self) -> TokenV {
        match self {
            Token::Import => TokenV::Import,
            Token::Define => TokenV::Define,
            Token::Class => TokenV::Class,
            Token::SetKw => TokenV::SetKw,
            Token::To => TokenV::To,
            Token::If => TokenV::If,
            Token::Else => TokenV::Else,
            Token::While => TokenV::While,
            Token::For => TokenV::For,
            Token::In => TokenV::In,
            Token::Return => TokenV::Return,
            Token::Async => TokenV::Async,
            Token::Await => TokenV::Await,
            Token::Yield => TokenV::Yield,
            Token::Closure => TokenV::Closure,
            Token::True => TokenV::True,
            Token::False => TokenV::False,
            Token::Identifier(s) => TokenV::Identifier(s@),
            Token::String(s) => TokenV::String(s@),
            Token::Number(b) => TokenV::Number(*b),
            Token::LeftParen => TokenV::LeftParen,
            Token::RightParen => TokenV::RightParen,
            Token::LeftBrace => TokenV::LeftBrace,
            Token::RightBrace => TokenV::RightBrace,
            Token::LeftBracket => TokenV::LeftBracket,
            Token::RightBracket => TokenV::RightBracket,
            Token::Colon => TokenV::Colon,
            Token::Comma => TokenV::Comma,
            Token::Dot => TokenV::Dot,
            Token::Plus => TokenV::Plus,
            Token::Minus => TokenV::Minus,
            Token::Multiply => TokenV::Multiply,
            Token::Divide => TokenV::Divide,
            Token::Equals => TokenV::Equals,
            Token::NotEquals => TokenV::NotEquals,
            Token::LessThan => TokenV::LessThan,
            Token::GreaterThan => TokenV::GreaterThan,
            Token::LessThanOrEqual => TokenV::LessThanOrEqual,
            Token::GreaterThanOrEqual => TokenV::GreaterThanOrEqual,
            Token::Arrow => TokenV::Arrow,
            Token::Newline => TokenV::Newline,
            Token::EOF => TokenV::EOF,
        }
    }
}

impl Clone for Token {
    fn clone(&self) -> (r: Self)
        ensures
            r.deep_view() == self.deep_view(),
    {
        match self {
            Token::Import => Token::Import,
            Token::Define => Token::Define,
            Token::Class => Token::Class,
            Token::SetKw => Token::SetKw,
            Token::To => Token::To,
            Token::If => Token::If,
            Token::Else => Token::Else,
            Token::While => Token::While,
            Token::For => Token::For,
            Token::In => Token::In,
            Token::Return => Token::Return,
            Token::Async => Token::Async,
            Token::Await => Token::Await,
            Token::Yield => Token::Yield,
            Token::Closure => Token::Closure,
            Token::True => Token::True,
            Token::False => Token::False,
            Token::Identifier(s) => Token::Identifier(s.clone()),
            Token::String(s) => Token::String(s.clone()),
            Token::Number(b) => Token::Number(*b),
            Token::LeftParen => Token::LeftParen,
            Token::RightParen => Token::RightParen,
            Token::LeftBrace => Token::LeftBrace,
            Token::RightBrace => Token::RightBrace,
            Token::LeftBracket => Token::LeftBracket,
            Token::RightBracket => Token::RightBracket,
            Token::Colon => Token::Colon,
            Token::Comma => Token::Comma,
            Token::Dot => Token::Dot,
            Token::Plus => Token::Plus,
            Token::Minus => Token::Minus,
            Token::Multiply => Token::Multiply,
            Token::Divide => Token::Divide,
            Token::Equals => Token::Equals,
            Token::NotEquals => Token::NotEquals,
            Token::LessThan => Token::LessThan,
            Token::GreaterThan => Token::GreaterThan,
            Token::LessThanOrEqual => Token::LessThanOrEqual,
            Token::GreaterThanOrEqual => Token::GreaterThanOrEqual,
            Token::Arrow => Token::Arrow,
            Token::Newline => Token::Newline,
            Token::EOF => Token::EOF,
        }
    }
}

/// The token a bare word denotes: a keyword where the word is one,
/// otherwise an identifier.
pub open spec fn spec_token_of_word(w: Seq<char>) -> TokenV {
    if w == "import"@ {
        TokenV::Import
    } else if w == "define"@ {
        TokenV::Define
    } else if w == "class"@ {
        TokenV::Class
    } else if w == "set"@ {
        TokenV::SetKw
    } else if w == "to"@ {
        TokenV::To
    } else if w == "if"@ {
        TokenV::If
    } else if w == "else"@ {
        TokenV::Else
    } else if w == "while"@ {
        TokenV::While
    } else if w == "for"@ {
        TokenV::For
    } else if w == "in"@ {
        TokenV::In
    } else if w == "return"@ {
        TokenV::Return
    } else if w == "async"@ {
        TokenV::Async
    } else if w == "await"@ {
        TokenV::Await
    } else if w == "yield"@ {
        TokenV::Yield
    } else if w == "closure"@ {
        TokenV::Closure
    } else if w == "true"@ {
        TokenV::True
    } else if w == "false"@ {
        TokenV::False
    } else {
        TokenV::Identifier(w)
    }
}

/// The keyword or identifier token for the word `w`.
pub fn token_of_word(w: String) -> (t: Token)
    ensures
        t.deep_view() == spec_token_of_word(w@),
{
    let s = w.as_str();
    if crate::strutil::str_eq(s, "import") {
        Token::Import
    } else if crate::strutil::str_eq(s, "define") {
        Token::Define
    } else if crate::strutil::str_eq(s, "class") {
        Token::Class
    } else if crate::strutil::str_eq(s, "set") {
        Token::SetKw
    } else if crate::strutil::str_eq(s, "to") {
        Token::To
    } else if crate::strutil::str_eq(s, "if") {
        Token::If
    } else if crate::strutil::str_eq(s, "else") {
        Token::Else
    } else if crate::strutil::str_eq(s, "while") {
        Token::While
    } else if crate::strutil::str_eq(s, "for") {
        Token::For
    } else if crate::strutil::str_eq(s, "in") {
        Token::In
    } else if crate::strutil::str_eq(s, "return") {
        Token::Return
    } else if crate::strutil::str_eq(s, "async") {
        Token::Async
    } else if crate::strutil::str_eq(s, "await") {
        Token::Await
    } else if crate::strutil::str_eq(s, "yield") {
        Token::Yield
    } else if crate::strutil::str_eq(s, "closure") {
        Token::Closure
    } else if crate::strutil::str_eq(s, "true") {
        Token::True
    } else if crate::strutil::str_eq(s, "false") {
        Token::False
    } else {
        Token::Identifier(w)
    }
}

} // verus!
