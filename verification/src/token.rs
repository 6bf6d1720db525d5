//! Tokens: what the scanner recognises in the source text.

use vstd::prelude::*;
use vstd::string::StringExecFns;

verus! {

/// The kinds of token.
#[derive(Clone, Copy, Debug, PartialEq, Eq, Structural)]
pub enum TokenKind {
    LeftParen,
    RightParen,
    LeftBrace,
    RightBrace,
    Comma,
    Dot,
    Minus,
    Plus,
    Semicolon,
    Star,
    Equal,
    EqualEqual,
    Bang,
    BangEqual,
    Less,
    LessEqual,
    Greater,
    GreaterEqual,
    Slash,
    Number,
    Str,
    Eof,
}

impl TokenKind {
    /// The name under which a token of this kind is printed.
    pub open spec fn name_spec(self) -> Seq<char> {
        match self {
            TokenKind::LeftParen => "LEFT_PAREN"@,
            TokenKind::RightParen => "RIGHT_PAREN"@,
            TokenKind::LeftBrace => "LEFT_BRACE"@,
            TokenKind::RightBrace => "RIGHT_BRACE"@,
            TokenKind::Comma => "COMMA"@,
            TokenKind::Dot => "DOT"@,
            TokenKind::Minus => "MINUS"@,
            TokenKind::Plus => "PLUS"@,
            TokenKind::Semicolon => "SEMICOLON"@,
            TokenKind::Star => "STAR"@,
            TokenKind::Equal => "EQUAL"@,
            TokenKind::EqualEqual => "EQUAL_EQUAL"@,
            TokenKind::Bang => "BANG"@,
            TokenKind::BangEqual => "BANG_EQUAL"@,
            TokenKind::Less => "LESS"@,
            TokenKind::LessEqual => "LESS_EQUAL"@,
            TokenKind::Greater => "GREATER"@,
            TokenKind::GreaterEqual => "GREATER_EQUAL"@,
            TokenKind::Slash => "SLASH"@,
            TokenKind::Number => "NUMBER"@,
            TokenKind::Str => "STRING"@,
            TokenKind::Eof => "EOF"@,
        }
    }

    /// The source text of a token of this kind, where the kind fixes it:
    /// punctuation and operators. Literals and the end marker have none.
    pub open spec fn fixed_lexeme(self) -> Seq<char> {
        match self {
            TokenKind::LeftParen => seq!['('],
            TokenKind::RightParen => seq![')'],
            TokenKind::LeftBrace => seq!['{'],
            TokenKind::RightBrace => seq!['}'],
            TokenKind::Comma => seq![','],
            TokenKind::Dot => seq!['.'],
            TokenKind::Minus => seq!['-'],
            TokenKind::Plus => seq!['+'],
            TokenKind::Semicolon => seq![';'],
            TokenKind::Star => seq!['*'],
            TokenKind::Equal => seq!['='],
            TokenKind::EqualEqual => seq!['=', '='],
            TokenKind::Bang => seq!['!'],
            TokenKind::BangEqual => seq!['!', '='],
            TokenKind::Less => seq!['<'],
            TokenKind::LessEqual => seq!['<', '='],
            TokenKind::Greater => seq!['>'],
            TokenKind::GreaterEqual => seq!['>', '='],
            TokenKind::Slash => seq!['/'],
            TokenKind::Number => Seq::empty(),
            TokenKind::Str => Seq::empty(),
            TokenKind::Eof => Seq::empty(),
        }
    }

    /// The source text of a token of this kind, where the kind fixes it.
    pub fn lexeme(self) -> (lexeme: String)
        ensures
            lexeme@ == self.fixed_lexeme(),
    {
        let mut lexeme = String::new();
        match self {
            TokenKind::LeftParen => lexeme.push('('),
            TokenKind::RightParen => lexeme.push(')'),
            TokenKind::LeftBrace => lexeme.push('{'),
            TokenKind::RightBrace => lexeme.push('}'),
            TokenKind::Comma => lexeme.push(','),
            TokenKind::Dot => lexeme.push('.'),
            TokenKind::Minus => lexeme.push('-'),
            TokenKind::Plus => lexeme.push('+'),
            TokenKind::Semicolon => lexeme.push(';'),
            TokenKind::Star => lexeme.push('*'),
            TokenKind::Equal => lexeme.push('='),
            TokenKind::EqualEqual => {
                lexeme.push('=');
                lexeme.push('=');
            },
            TokenKind::Bang => lexeme.push('!'),
            TokenKind::BangEqual => {
                lexeme.push('!');
                lexeme.push('=');
            },
            TokenKind::Less => lexeme.push('<'),
            TokenKind::LessEqual => {
                lexeme.push('<');
                lexeme.push('=');
            },
            TokenKind::Greater => lexeme.push('>'),
            TokenKind::GreaterEqual => {
                lexeme.push('>');
                lexeme.push('=');
            },
            TokenKind::Slash => lexeme.push('/'),
            TokenKind::Number => {},
            TokenKind::Str => {},
            TokenKind::Eof => {},
        }
        lexeme
    }

    /// The name under which a token of this kind is printed.
    pub fn name(self) -> (name: &'static str)
        ensures
            name@ == self.name_spec(),
    {
        match self {
            TokenKind::LeftParen => "LEFT_PAREN",
            TokenKind::RightParen => "RIGHT_PAREN",
            TokenKind::LeftBrace => "LEFT_BRACE",
            TokenKind::RightBrace => "RIGHT_BRACE",
            TokenKind::Comma => "COMMA",
            TokenKind::Dot => "DOT",
            TokenKind::Minus => "MINUS",
            TokenKind::Plus => "PLUS",
            TokenKind::Semicolon => "SEMICOLON",
            TokenKind::Star => "STAR",
            TokenKind::Equal => "EQUAL",
            TokenKind::EqualEqual => "EQUAL_EQUAL",
            TokenKind::Bang => "BANG",
            TokenKind::BangEqual => "BANG_EQUAL",
            TokenKind::Less => "LESS",
            TokenKind::LessEqual => "LESS_EQUAL",
            TokenKind::Greater => "GREATER",
            TokenKind::GreaterEqual => "GREATER_EQUAL",
            TokenKind::Slash => "SLASH",
            TokenKind::Number => "NUMBER",
            TokenKind::Str => "STRING",
            TokenKind::Eof => "EOF",
        }
    }
}

/// A token as the contracts see it.
pub struct TokenView {
    pub kind: TokenKind,
    /// The source text that the token was read from.
    pub lexeme: Seq<char>,
    /// The normalised value of a literal; `None` for every other kind.
    pub literal: Option<Seq<char>>,
}

impl TokenView {
    /// The token of a kind whose source text is fixed.
    pub open spec fn fixed(kind: TokenKind) -> TokenView {
        TokenView { kind, lexeme: kind.fixed_lexeme(), literal: None }
    }

    /// The marker that ends every scan.
    pub open spec fn eof() -> TokenView {
        TokenView::fixed(TokenKind::Eof)
    }

    /// How the literal is printed: its text, or `null` where there is none.
    pub open spec fn literal_text(self) -> Seq<char> {
        match self.literal {
            Some(text) => text,
            None => seq!['n', 'u', 'l', 'l'],
        }
    }

    /// The printed form of the token: kind, lexeme and literal, separated by
    /// single spaces.
    pub open spec fn line(self) -> Seq<char> {
        self.kind.name_spec() + seq![' '] + self.lexeme + seq![' '] + self.literal_text()
    }
}

/// A token: its kind, the source text it was read from, and the normalised
/// value of a literal.
#[derive(Clone, Debug, PartialEq, Eq)]
pub struct Token {
    pub kind: TokenKind,
    pub lexeme: String,
    pub literal: Option<String>,
}

impl View for Token {
    type V = TokenView;

    open spec fn view(&self) -> TokenView {
        TokenView {
            kind: self.kind,
            lexeme: self.lexeme@,
            literal: match self.literal {
                Some(text) => Some(text@),
                None => None,
            },
        }
    }
}

impl Token {
    /// The token of a kind whose source text is fixed.
    pub fn fixed(kind: TokenKind) -> (token: Token)
        ensures
            token@ == TokenView::fixed(kind),
    {
        Token { kind, lexeme: kind.lexeme(), literal: None }
    }

    /// The marker that ends every scan.
    pub fn eof() -> (token: Token)
        ensures
            token@ == TokenView::eof(),
    {
        Token::fixed(TokenKind::Eof)
    }

    /// The printed form of the token.
    pub fn to_line(&self) -> (line: String)
        ensures
            line@ == self@.line(),
    {
        let mut line = String::from_str(self.kind.name());
        line.push(' ');
        line.append(self.lexeme.as_str());
        line.push(' ');
        match &self.literal {
            Some(text) => line.append(text.as_str()),
            None => {
                line.push('n');
                line.push('u');
                line.push('l');
                line.push('l');
            },
        }
        line
    }
}

} // verus!
