use vstd::prelude::*;
use vstd::string::StringExecFns;
use crate::error::{BellronosError, ErrV};
use crate::float_bits::{decimal_shape, float_of_decimal, parse_float_bits};
use crate::strutil::{chars_to_string, concat_char, concat_str, str_to_chars};
use crate::token::{spec_token_of_word, token_of_word, Token, TokenV};

verus! {

/// Horizontal whitespace: skipped between tokens, never emitted.
pub open spec fn is_hws(c: char) -> bool {
    c == ' ' || c == '\t' || c == '\r'
}

/// An ASCII decimal digit.
pub open spec fn is_digit(c: char) -> bool {
    '0' <= c && c <= '9'
}

/// A character that may open an identifier.
pub open spec fn is_ident_start(c: char) -> bool {
    ('a' <= c && c <= 'z') || ('A' <= c && c <= 'Z') || c == '_'
}

/// A character that may continue an identifier.
pub open spec fn is_ident_char(c: char) -> bool {
    is_ident_start(c) || is_digit(c)
}

/// A character that may appear in a numeric literal's run.
pub open spec fn is_number_char(c: char) -> bool {
    is_digit(c) || c == '.'
}

/// First position at or after `pos` that does not hold horizontal whitespace.
pub open spec fn spec_skip_ws(s: Seq<char>, pos: int) -> int
    decreases s.len() - pos,
{
    if pos >= s.len() {
        pos
    } else if is_hws(s[pos]) {
        spec_skip_ws(s, pos + 1)
    } else {
        pos
    }
}

/// First position at or after `pos` whose character cannot continue an
/// identifier.
pub open spec fn spec_scan_ident_end(s: Seq<char>, pos: int) -> int
    decreases s.len() - pos,
{
    if pos >= s.len() {
        pos
    } else if is_ident_char(s[pos]) {
        spec_scan_ident_end(s, pos + 1)
    } else {
        pos
    }
}

/// First position at or after `pos` whose character cannot continue a
/// numeric literal.
pub open spec fn spec_scan_number_end(s: Seq<char>, pos: int) -> int
    decreases s.len() - pos,
{
    if pos >= s.len() {
        pos
    } else if is_number_char(s[pos]) {
        spec_scan_number_end(s, pos + 1)
    } else {
        pos
    }
}

/// First position at or after `pos` holding a newline, or the end.
pub open spec fn spec_scan_comment_end(s: Seq<char>, pos: int) -> int
    decreases s.len() - pos,
{
    if pos >= s.len() {
        pos
    } else if s[pos] == '\n' {
        pos
    } else {
        spec_scan_comment_end(s, pos + 1)
    }
}

/// First position at or after `pos` holding a closing quote or a newline,
/// or the end.
pub open spec fn spec_scan_string_end(s: Seq<char>, pos: int) -> int
    decreases s.len() - pos,
{
    if pos >= s.len() {
        pos
    } else if s[pos] == '"' || s[pos] == '\n' {
        pos
    } else {
        spec_scan_string_end(s, pos + 1)
    }
}

pub proof fn lemma_skip_ws(s: Seq<char>, pos: int)
    requires
        pos <= s.len(),
    ensures
        pos <= spec_skip_ws(s, pos) <= s.len(),
        forall|k: int| pos <= k < spec_skip_ws(s, pos) ==> is_hws(#[trigger] s[k]),
        spec_skip_ws(s, pos) < s.len() ==> !is_hws(s[spec_skip_ws(s, pos)]),
    decreases s.len() - pos,
{
    if pos < s.len() && is_hws(s[pos]) {
        lemma_skip_ws(s, pos + 1);
    }
}

pub proof fn lemma_scan_ident_end(s: Seq<char>, pos: int)
    requires
        pos <= s.len(),
    ensures
        pos <= spec_scan_ident_end(s, pos) <= s.len(),
        forall|k: int| pos <= k < spec_scan_ident_end(s, pos) ==> is_ident_char(#[trigger] s[k]),
        spec_scan_ident_end(s, pos) < s.len() ==> !is_ident_char(s[spec_scan_ident_end(s, pos)]),
    decreases s.len() - pos,
{
    if pos < s.len() && is_ident_char(s[pos]) {
        lemma_scan_ident_end(s, pos + 1);
    }
}

pub proof fn lemma_scan_number_end(s: Seq<char>, pos: int)
    requires
        pos <= s.len(),
    ensures
        pos <= spec_scan_number_end(s, pos) <= s.len(),
        forall|k: int| pos <= k < spec_scan_number_end(s, pos) ==> is_number_char(#[trigger] s[k]),
        spec_scan_number_end(s, pos) < s.len() ==> !is_number_char(s[spec_scan_number_end(s, pos)]),
    decreases s.len() - pos,
{
    if pos < s.len() && is_number_char(s[pos]) {
        lemma_scan_number_end(s, pos + 1);
    }
}

pub proof fn lemma_scan_comment_end(s: Seq<char>, pos: int)
    requires
        pos <= s.len(),
    ensures
        pos <= spec_scan_comment_end(s, pos) <= s.len(),
    decreases s.len() - pos,
{
    if pos < s.len() && s[pos] != '\n' {
        lemma_scan_comment_end(s, pos + 1);
    }
}

pub proof fn lemma_scan_string_end(s: Seq<char>, pos: int)
    requires
        pos <= s.len(),
    ensures
        pos <= spec_scan_string_end(s, pos) <= s.len(),
    decreases s.len() - pos,
{
    if pos < s.len() && s[pos] != '"' && s[pos] != '\n' {
        lemma_scan_string_end(s, pos + 1);
    }
}

/// One step of the lexer: the next token and the position after it, the
/// end of the input, or a failure message.
pub enum LexStep {
    Tok(TokenV, int),
    End,
    Fail(Seq<char>),
}

/// The token beginning at the first non-blank position at or after `pos`.
pub open spec fn spec_next_token(s: Seq<char>, pos: int) -> LexStep
    decreases s.len() - pos,
{
    let p = spec_skip_ws(s, pos);
    if p >= s.len() {
        LexStep::End
    } else {
        let c = s[p];
        if c == '(' {
            LexStep::Tok(TokenV::LeftParen, p + 1)
        } else if c == ')' {
            LexStep::Tok(TokenV::RightParen, p + 1)
        } else if c == '{' {
            LexStep::Tok(TokenV::LeftBrace, p + 1)
        } else if c == '}' {
            LexStep::Tok(TokenV::RightBrace, p + 1)
        } else if c == '[' {
            LexStep::Tok(TokenV::LeftBracket, p + 1)
        } else if c == ']' {
            LexStep::Tok(TokenV::RightBracket, p + 1)
        } else if c == ':' {
            LexStep::Tok(TokenV::Colon, p + 1)
        } else if c == ',' {
            LexStep::Tok(TokenV::Comma, p + 1)
        } else if c == '.' {
            LexStep::Tok(TokenV::Dot, p + 1)
        } else if c == '+' {
            LexStep::Tok(TokenV::Plus, p + 1)
        } else if c == '*' {
            LexStep::Tok(TokenV::Multiply, p + 1)
        } else if c == '/' {
            LexStep::Tok(TokenV::Divide, p + 1)
        } else if c == '-' {
            if p + 1 < s.len() && s[p + 1] == '>' {
                LexStep::Tok(TokenV::Arrow, p + 2)
            } else {
                LexStep::Tok(TokenV::Minus, p + 1)
            }
        } else if c == '=' {
            if p + 1 < s.len() && s[p + 1] == '=' {
                LexStep::Tok(TokenV::Equals, p + 2)
            } else {
                LexStep::Tok(TokenV::SetKw, p + 1)
            }
        } else if c == '!' {
            if p + 1 < s.len() && s[p + 1] == '=' {
                LexStep::Tok(TokenV::NotEquals, p + 2)
            } else if p + 1 < s.len() {
                LexStep::Fail("Unexpected character: "@ + seq![s[p + 1]])
            } else {
                LexStep::Fail("Unexpected character: "@ + seq!['!'])
            }
        } else if c == '<' {
            if p + 1 < s.len() && s[p + 1] == '=' {
                LexStep::Tok(TokenV::LessThanOrEqual, p + 2)
            } else {
                LexStep::Tok(TokenV::LessThan, p + 1)
            }
        } else if c == '>' {
            if p + 1 < s.len() && s[p + 1] == '=' {
                LexStep::Tok(TokenV::GreaterThanOrEqual, p + 2)
            } else {
                LexStep::Tok(TokenV::GreaterThan, p + 1)
            }
        } else if c == '\n' {
            LexStep::Tok(TokenV::Newline, p + 1)
        } else if c == '"' {
            let e = spec_scan_string_end(s, p + 1);
            if e >= s.len() {
                LexStep::Fail("Unterminated string literal"@)
            } else if s[e] == '\n' {
                LexStep::Fail("Unexpected character: "@ + seq!['\n'])
            } else {
                LexStep::Tok(TokenV::String(s.subrange(p + 1, e)), e + 1)
            }
        } else if is_digit(c) {
            let e = spec_scan_number_end(s, p);
            let run = s.subrange(p, e);
            if decimal_shape(run) {
                LexStep::Tok(TokenV::Number(float_of_decimal(run)), e)
            } else {
                LexStep::Fail("Invalid number literal: "@ + run)
            }
        } else if is_ident_start(c) {
            let e = spec_scan_ident_end(s, p);
            LexStep::Tok(spec_token_of_word(s.subrange(p, e)), e)
        } else if c == '#' {
            let e = spec_scan_comment_end(s, p + 1);
            if pos < e <= s.len() {
                spec_next_token(s, e)
            } else {
                LexStep::Fail("Unexpected character: "@ + seq!['#'])
            }
        } else {
            LexStep::Fail("Unexpected character: "@ + seq![c])
        }
    }
}

/// The whole token sequence from `pos` on, ending with `EOF`, or the first
/// failure.
pub open spec fn spec_tokenize_from(s: Seq<char>, pos: int) -> Result<Seq<TokenV>, ErrV>
    decreases s.len() - pos,
{
    match spec_next_token(s, pos) {
        LexStep::Fail(m) => Err(ErrV::Parser(m)),
        LexStep::End => Ok(seq![TokenV::EOF]),
        LexStep::Tok(t, p2) => if pos < p2 <= s.len() {
            match spec_tokenize_from(s, p2) {
                Ok(rest) => Ok(seq![t] + rest),
                Err(e) => Err(e),
            }
        } else {
            Err(ErrV::Parser("Unexpected character: "@))
        },
    }
}

/// The token sequence of a whole source text.
pub open spec fn spec_tokenize(s: Seq<char>) -> Result<Seq<TokenV>, ErrV> {
    spec_tokenize_from(s, 0)
}

/// The character-level scanner.  `position` is the cursor; `line` and
/// `column` are 1-based and only ever grow (a newline advances the line
/// and resets the column).
pub struct Lexer {
    pub input: Vec<char>,
    pub position: usize,
    pub line: usize,
    pub column: usize,
}

impl Lexer {
    pub fn new(input: &str) -> (r: Self)
        ensures
            r.input@ == input@,
            r.position == 0,
            r.line == 1,
            r.column == 1,
    {
        Lexer { input: str_to_chars(input), position: 0, line: 1, column: 1 }
    }

    /// The character under the cursor.
    pub fn current_char(&self) -> (c: char)
        requires
            self.position < self.input@.len(),
        ensures
            c == self.input@[self.position as int],
    {
        self.input[self.position]
    }

    /// Moves the cursor one character right, on the same line.
    pub fn advance(&mut self)
        requires
            old(self).position < old(self).input@.len(),
        ensures
            final(self).input == old(self).input,
            final(self).position == old(self).position + 1,
            final(self).line == old(self).line,
            final(self).column >= old(self).column,
    {
        let n: usize = self.input.len();
        self.position = self.position + 1;
        if self.column < usize::MAX {
            self.column = self.column + 1;
        }
    }

    /// Moves the cursor past a newline: next line, first column.
    pub fn advance_line(&mut self)
        requires
            old(self).position < old(self).input@.len(),
        ensures
            final(self).input == old(self).input,
            final(self).position == old(self).position + 1,
            final(self).line >= old(self).line,
            final(self).column == 1,
    {
        let n: usize = self.input.len();
        self.position = self.position + 1;
        if self.line < usize::MAX {
            self.line = self.line + 1;
        }
        self.column = 1;
    }

    /// Skips horizontal whitespace under the cursor.
    pub fn skip_whitespace(&mut self)
        requires
            old(self).position <= old(self).input@.len(),
        ensures
            final(self).input@ == old(self).input@,
            final(self).position == spec_skip_ws(old(self).input@, old(self).position as int),
            final(self).line == old(self).line,
            old(self).position <= final(self).position <= final(self).input@.len(),
    {
        proof {
            lemma_skip_ws(self.input@, self.position as int);
        }
        while self.position < self.input.len() && is_hws_exec(self.input[self.position])
            invariant
                old(self).position <= self.position <= self.input@.len(),
                self.input == old(self).input,
                self.line == old(self).line,
                spec_skip_ws(self.input@, old(self).position as int) == spec_skip_ws(
                    self.input@,
                    self.position as int,
                ),
            decreases self.input@.len() - self.position,
        {
            self.advance();
        }
    }

    /// Reads the next token, `None` at the end of the input.
    pub fn next_token(&mut self) -> (r: Result<Option<Token>, BellronosError>)
        requires
            old(self).position <= old(self).input@.len(),
        ensures
            final(self).input@ == old(self).input@,
            final(self).position <= final(self).input@.len(),
            match r {
                Ok(Some(t)) => spec_next_token(old(self).input@, old(self).position as int)
                    == LexStep::Tok(t.deep_view(), final(self).position as int) && final(self).position > old(
                    self,
                ).position,
                Ok(None) => spec_next_token(old(self).input@, old(self).position as int)
                    == LexStep::End,
                Err(e) => spec_next_token(old(self).input@, old(self).position as int)
                    matches LexStep::Fail(m) && e.deep_view() == ErrV::Parser(m),
            },
        decreases old(self).input@.len() - old(self).position,
    {
        let ghost s = self.input@;
        let ghost pos0 = self.position as int;
        self.skip_whitespace();
        proof {
            lemma_skip_ws(s, pos0);
        }
        if self.position >= self.input.len() {
            return Ok(None);
        }
        let ghost p = self.position as int;
        let c = self.current_char();
        match c {
            '(' => {
                self.advance();
                Ok(Some(Token::LeftParen))
            },
            ')' => {
                self.advance();
                Ok(Some(Token::RightParen))
            },
            '{' => {
                self.advance();
                Ok(Some(Token::LeftBrace))
            },
            '}' => {
                self.advance();
                Ok(Some(Token::RightBrace))
            },
            '[' => {
                self.advance();
                Ok(Some(Token::LeftBracket))
            },
            ']' => {
                self.advance();
                Ok(Some(Token::RightBracket))
            },
            ':' => {
                self.advance();
                Ok(Some(Token::Colon))
            },
            ',' => {
                self.advance();
                Ok(Some(Token::Comma))
            },
            '.' => {
                self.advance();
                Ok(Some(Token::Dot))
            },
            '+' => {
                self.advance();
                Ok(Some(Token::Plus))
            },
            '*' => {
                self.advance();
                Ok(Some(Token::Multiply))
            },
            '/' => {
                self.advance();
                Ok(Some(Token::Divide))
            },
            '-' => {
                self.advance();
                if self.position < self.input.len() && self.current_char() == '>' {
                    self.advance();
                    Ok(Some(Token::Arrow))
                } else {
                    Ok(Some(Token::Minus))
                }
            },
            '=' => {
                self.advance();
                if self.position < self.input.len() && self.current_char() == '=' {
                    self.advance();
                    Ok(Some(Token::Equals))
                } else {
                    Ok(Some(Token::SetKw))
                }
            },
            '!' => {
                self.advance();
                if self.position < self.input.len() && self.current_char() == '=' {
                    self.advance();
                    Ok(Some(Token::NotEquals))
                } else if self.position < self.input.len() {
                    Err(BellronosError::Parser(concat_char(
                        "Unexpected character: ",
                        self.current_char(),
                    )))
                } else {
                    Err(BellronosError::Parser(concat_char("Unexpected character: ", '!')))
                }
            },
            '<' => {
                self.advance();
                if self.position < self.input.len() && self.current_char() == '=' {
                    self.advance();
                    Ok(Some(Token::LessThanOrEqual))
                } else {
                    Ok(Some(Token::LessThan))
                }
            },
            '>' => {
                self.advance();
                if self.position < self.input.len() && self.current_char() == '=' {
                    self.advance();
                    Ok(Some(Token::GreaterThanOrEqual))
                } else {
                    Ok(Some(Token::GreaterThan))
                }
            },
            '\n' => {
                self.advance_line();
                Ok(Some(Token::Newline))
            },
            '"' => self.scan_string(),
            '#' => {
                self.advance();
                while self.position < self.input.len() && self.current_char() != '\n'
                    invariant
                        p + 1 <= self.position <= self.input@.len(),
                        self.input@ == s,
                        spec_scan_comment_end(s, p + 1) == spec_scan_comment_end(
                            s,
                            self.position as int,
                        ),
                    decreases self.input@.len() - self.position,
                {
                    self.advance();
                }
                proof {
                    lemma_scan_comment_end(s, p + 1);
                }
                self.next_token()
            },
            _ => {
                if c >= '0' && c <= '9' {
                    self.scan_number()
                } else if c >= 'a' && c <= 'z' || c >= 'A' && c <= 'Z' || c == '_' {
                    self.scan_identifier()
                } else {
                    Err(BellronosError::Parser(concat_char("Unexpected character: ", c)))
                }
            },
        }
    }

    /// Reads a string literal; the cursor sits on the opening quote.
    fn scan_string(&mut self) -> (r: Result<Option<Token>, BellronosError>)
        requires
            old(self).position < old(self).input@.len(),
            old(self).input@[old(self).position as int] == '"',
            spec_skip_ws(old(self).input@, old(self).position as int) == old(self).position as int,
        ensures
            final(self).input@ == old(self).input@,
            final(self).position <= final(self).input@.len(),
            match r {
                Ok(Some(t)) => spec_next_token(old(self).input@, old(self).position as int)
                    == LexStep::Tok(t.deep_view(), final(self).position as int) && final(self).position > old(
                    self,
                ).position,
                Ok(None) => false,
                Err(e) => spec_next_token(old(self).input@, old(self).position as int)
                    matches LexStep::Fail(m) && e.deep_view() == ErrV::Parser(m),
            },
    {
        let ghost s = self.input@;
        let ghost p = self.position as int;
        self.advance();
        let mut body: Vec<char> = Vec::new();
        while self.position < self.input.len() && self.current_char() != '"'
            && self.current_char() != '\n'
            invariant
                p + 1 <= self.position <= self.input@.len(),
                self.input@ == s,
                body@ == s.subrange(p + 1, self.position as int),
                spec_scan_string_end(s, p + 1) == spec_scan_string_end(s, self.position as int),
            decreases self.input@.len() - self.position,
        {
            body.push(self.current_char());
            self.advance();
            proof {
                assert(body@ =~= s.subrange(p + 1, self.position as int));
            }
        }
        proof {
            lemma_scan_string_end(s, p + 1);
        }
        if self.position >= self.input.len() {
            Err(BellronosError::Parser(String::from_str("Unterminated string literal")))
        } else if self.current_char() == '\n' {
            Err(BellronosError::Parser(concat_char("Unexpected character: ", '\n')))
        } else {
            self.advance();
            Ok(Some(Token::String(chars_to_string(&body))))
        }
    }

    /// Reads a numeric literal; the cursor sits on its first digit.
    fn scan_number(&mut self) -> (r: Result<Option<Token>, BellronosError>)
        requires
            old(self).position < old(self).input@.len(),
            is_digit(old(self).input@[old(self).position as int]),
            spec_skip_ws(old(self).input@, old(self).position as int) == old(self).position as int,
        ensures
            final(self).input@ == old(self).input@,
            final(self).position <= final(self).input@.len(),
            match r {
                Ok(Some(t)) => spec_next_token(old(self).input@, old(self).position as int)
                    == LexStep::Tok(t.deep_view(), final(self).position as int) && final(self).position > old(
                    self,
                ).position,
                Ok(None) => false,
                Err(e) => spec_next_token(old(self).input@, old(self).position as int)
                    matches LexStep::Fail(m) && e.deep_view() == ErrV::Parser(m),
            },
    {
        let ghost s = self.input@;
        let ghost p = self.position as int;
        let mut run: Vec<char> = Vec::new();
        while self.position < self.input.len() && is_number_char_exec(self.current_char())
            invariant
                p <= self.position <= self.input@.len(),
                self.input@ == s,
                run@ == s.subrange(p, self.position as int),
                spec_scan_number_end(s, p) == spec_scan_number_end(s, self.position as int),
            decreases self.input@.len() - self.position,
        {
            run.push(self.current_char());
            self.advance();
            proof {
                assert(run@ =~= s.subrange(p, self.position as int));
            }
        }
        proof {
            lemma_scan_number_end(s, p);
        }
        let ghost e = self.position as int;
        if dots_at_most_one(&run) {
            proof {
                assert(decimal_shape(run@));
            }
            let text = chars_to_string(&run);
            let bits = parse_float_bits(text.as_str());
            Ok(Some(Token::Number(bits)))
        } else {
            proof {
                assert(!decimal_shape(run@));
            }
            let text = chars_to_string(&run);
            Err(BellronosError::Parser(concat_str("Invalid number literal: ", text.as_str())))
        }
    }

    /// Reads an identifier or keyword; the cursor sits on its first
    /// character.
    fn scan_identifier(&mut self) -> (r: Result<Option<Token>, BellronosError>)
        requires
            old(self).position < old(self).input@.len(),
            is_ident_start(old(self).input@[old(self).position as int]),
            spec_skip_ws(old(self).input@, old(self).position as int) == old(self).position as int,
        ensures
            final(self).input@ == old(self).input@,
            final(self).position <= final(self).input@.len(),
            match r {
                Ok(Some(t)) => spec_next_token(old(self).input@, old(self).position as int)
                    == LexStep::Tok(t.deep_view(), final(self).position as int) && final(self).position > old(
                    self,
                ).position,
                _ => false,
            },
    {
        let ghost s = self.input@;
        let ghost p = self.position as int;
        let mut word: Vec<char> = Vec::new();
        while self.position < self.input.len() && is_ident_char_exec(self.current_char())
            invariant
                p <= self.position <= self.input@.len(),
                self.input@ == s,
                word@ == s.subrange(p, self.position as int),
                spec_scan_ident_end(s, p) == spec_scan_ident_end(s, self.position as int),
            decreases self.input@.len() - self.position,
        {
            word.push(self.current_char());
            self.advance();
            proof {
                assert(word@ =~= s.subrange(p, self.position as int));
            }
        }
        proof {
            lemma_scan_ident_end(s, p);
        }
        Ok(Some(token_of_word(chars_to_string(&word))))
    }

    /// Lexes the remaining input into the full token sequence, `EOF` last.
    pub fn tokenize(&mut self) -> (r: Result<Vec<Token>, BellronosError>)
        requires
            old(self).position <= old(self).input@.len(),
        ensures
            final(self).input@ == old(self).input@,
            match r {
                Ok(v) => spec_tokenize_from(old(self).input@, old(self).position as int) == Ok::<
                    Seq<TokenV>,
                    ErrV,
                >(v.deep_view()),
                Err(e) => spec_tokenize_from(old(self).input@, old(self).position as int)
                    == Err::<Seq<TokenV>, ErrV>(e.deep_view()),
            },
    {
        let ghost s = self.input@;
        let ghost pos0 = self.position as int;
        let mut tokens: Vec<Token> = Vec::new();
        loop
            invariant
                self.position <= self.input@.len(),
                self.input@ == s,
                match spec_tokenize_from(s, self.position as int) {
                    Ok(rest) => spec_tokenize_from(s, pos0) == Ok::<Seq<TokenV>, ErrV>(
                        tokens.deep_view() + rest,
                    ),
                    Err(e) => spec_tokenize_from(s, pos0) == Err::<Seq<TokenV>, ErrV>(e),
                },
            decreases self.input@.len() - self.position + 1,
        {
            let ghost pos_here = self.position as int;
            match self.next_token() {
                Err(e) => {
                    return Err(e);
                },
                Ok(None) => {
                    let ghost dv = tokens.deep_view();
                    tokens.push(Token::EOF);
                    proof {
                        assert(tokens.deep_view() =~= dv.push(TokenV::EOF));
                        assert(dv.push(TokenV::EOF) =~= dv + seq![TokenV::EOF]);
                    }
                    return Ok(tokens);
                },
                Ok(Some(t)) => {
                    let ghost tv = t.deep_view();
                    let ghost dv = tokens.deep_view();
                    tokens.push(t);
                    proof {
                        assert(tokens.deep_view() =~= dv.push(tv));
                        match spec_tokenize_from(s, self.position as int) {
                            Ok(rest) => {
                                assert(dv.push(tv) + rest =~= dv + (seq![tv] + rest));
                            },
                            Err(_) => {},
                        }
                    }
                },
            }
        }
    }
}

/// Decides `is_hws`.
pub fn is_hws_exec(c: char) -> (r: bool)
    ensures
        r == is_hws(c),
{
    c == ' ' || c == '\t' || c == '\r'
}

/// Decides `is_number_char`.
pub fn is_number_char_exec(c: char) -> (r: bool)
    ensures
        r == is_number_char(c),
{
    c >= '0' && c <= '9' || c == '.'
}

/// Decides `is_ident_char`.
pub fn is_ident_char_exec(c: char) -> (r: bool)
    ensures
        r == is_ident_char(c),
{
    c >= 'a' && c <= 'z' || c >= 'A' && c <= 'Z' || c == '_' || c >= '0' && c <= '9'
}

/// Decides whether a digits-and-dots run holds at most one dot, the test
/// under which it is a well-formed numeric literal.
fn dots_at_most_one(v: &Vec<char>) -> (r: bool)
    ensures
        r == (forall|i: int, j: int| 0 <= i < j < v@.len() && v@[i] == '.' ==> v@[j] != '.'),
{
    let mut i: usize = 0;
    let mut seen = false;
    let ghost mut dot_at: int = 0;
    while i < v.len()
        invariant
            i <= v@.len(),
            seen ==> 0 <= dot_at < i && v@[dot_at] == '.',
            !seen ==> forall|k: int| 0 <= k < i ==> v@[k] != '.',
            forall|x: int, y: int| 0 <= x < y < i && v@[x] == '.' ==> v@[y] != '.',
        decreases v@.len() - i,
    {
        if v[i] == '.' {
            if seen {
                return false;
            }
            seen = true;
            proof {
                dot_at = i as int;
            }
        }
        i = i + 1;
    }
    true
}

} // verus!
