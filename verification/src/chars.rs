//! Character classes of the language: what the scanner does with a character
//! depends on its class alone.

use crate::token::TokenKind;
use vstd::prelude::*;

verus! {

/// Whether `c` is one of the ten ASCII decimal digits.
pub open spec fn is_digit(c: char) -> bool {
    '0' <= c && c <= '9'
}

/// Whether `c` has the Unicode property `White_Space`, as `char::is_whitespace`
/// reports it.
pub uninterp spec fn white_space(c: char) -> bool;

/// `char::is_ascii_digit`: true exactly for U+0030 `'0'` to U+0039 `'9'`.
pub assume_specification[ char::is_ascii_digit ](c: &char) -> (digit: bool)
    ensures
        digit == is_digit(*c),
;

/// `char::is_whitespace`: whether the character has the Unicode property
/// `White_Space`. The property is a fixed table of the Unicode standard, so
/// the result depends on the character alone.
pub assume_specification[ char::is_whitespace ](c: char) -> (blank: bool)
    ensures
        blank == white_space(c),
;

/// What the scanner does with a character.
#[derive(Clone, Copy, Debug, PartialEq, Eq, Structural)]
pub enum CharClass {
    /// Punctuation: a token of the given kind by itself.
    Punctuation(TokenKind),
    /// An operator that an `=` right behind it extends: `single` is the kind
    /// of the character alone, `paired` the kind of the two together.
    Operator { single: TokenKind, paired: TokenKind },
    /// `/`: a token by itself, or with a second `/` the start of a comment.
    Slash,
    /// `"`: the start of a string literal.
    Quote,
    /// The line feed: skipped, and the line counter advances.
    Newline,
    /// Whitespace other than the line feed: skipped.
    Blank,
    /// The first digit of a number.
    Digit,
    /// Anything else: an error.
    Unexpected,
}

/// The class of `c`, where `blank` says whether `c` is whitespace.
///
/// The characters of the language's own tokens and the line feed are
/// classified by themselves; among the others whitespace comes before digits.
pub open spec fn classification(c: char, blank: bool) -> CharClass {
    if c == '(' {
        CharClass::Punctuation(TokenKind::LeftParen)
    } else if c == ')' {
        CharClass::Punctuation(TokenKind::RightParen)
    } else if c == '{' {
        CharClass::Punctuation(TokenKind::LeftBrace)
    } else if c == '}' {
        CharClass::Punctuation(TokenKind::RightBrace)
    } else if c == ',' {
        CharClass::Punctuation(TokenKind::Comma)
    } else if c == '.' {
        CharClass::Punctuation(TokenKind::Dot)
    } else if c == '-' {
        CharClass::Punctuation(TokenKind::Minus)
    } else if c == '+' {
        CharClass::Punctuation(TokenKind::Plus)
    } else if c == ';' {
        CharClass::Punctuation(TokenKind::Semicolon)
    } else if c == '*' {
        CharClass::Punctuation(TokenKind::Star)
    } else if c == '=' {
        CharClass::Operator { single: TokenKind::Equal, paired: TokenKind::EqualEqual }
    } else if c == '!' {
        CharClass::Operator { single: TokenKind::Bang, paired: TokenKind::BangEqual }
    } else if c == '<' {
        CharClass::Operator { single: TokenKind::Less, paired: TokenKind::LessEqual }
    } else if c == '>' {
        CharClass::Operator { single: TokenKind::Greater, paired: TokenKind::GreaterEqual }
    } else if c == '/' {
        CharClass::Slash
    } else if c == '"' {
        CharClass::Quote
    } else if c == '\n' {
        CharClass::Newline
    } else if blank {
        CharClass::Blank
    } else if is_digit(c) {
        CharClass::Digit
    } else {
        CharClass::Unexpected
    }
}

/// The class of `c`.
pub open spec fn class_of(c: char) -> CharClass {
    classification(c, white_space(c))
}

/// The class of `c`, where `blank` says whether `c` is whitespace.
pub fn classify(c: char, blank: bool) -> (class: CharClass)
    ensures
        class == classification(c, blank),
{
    match c {
        '(' => CharClass::Punctuation(TokenKind::LeftParen),
        ')' => CharClass::Punctuation(TokenKind::RightParen),
        '{' => CharClass::Punctuation(TokenKind::LeftBrace),
        '}' => CharClass::Punctuation(TokenKind::RightBrace),
        ',' => CharClass::Punctuation(TokenKind::Comma),
        '.' => CharClass::Punctuation(TokenKind::Dot),
        '-' => CharClass::Punctuation(TokenKind::Minus),
        '+' => CharClass::Punctuation(TokenKind::Plus),
        ';' => CharClass::Punctuation(TokenKind::Semicolon),
        '*' => CharClass::Punctuation(TokenKind::Star),
        '=' => CharClass::Operator { single: TokenKind::Equal, paired: TokenKind::EqualEqual },
        '!' => CharClass::Operator { single: TokenKind::Bang, paired: TokenKind::BangEqual },
        '<' => CharClass::Operator { single: TokenKind::Less, paired: TokenKind::LessEqual },
        '>' => CharClass::Operator { single: TokenKind::Greater, paired: TokenKind::GreaterEqual },
        '/' => CharClass::Slash,
        '"' => CharClass::Quote,
        '\n' => CharClass::Newline,
        other_lexeme => {
            if blank {
                CharClass::Blank
            } else if other_lexeme.is_ascii_digit() {
                CharClass::Digit
            } else {
                CharClass::Unexpected
            }
        },
    }
}

/// The class of `c`.
pub fn class(c: char) -> (class: CharClass)
    ensures
        class == class_of(c),
{
    classify(c, c.is_whitespace())
}

} // verus!
