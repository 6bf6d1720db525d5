use lox_scanner::chars::{class, classify, CharClass};
use lox_scanner::cursor::Cursor;
use lox_scanner::event::Event;
use lox_scanner::number::{number_tokenizer, strip_zeros, take_digits};
use lox_scanner::report::{Diagnostic, Reporter, ScanError};
use lox_scanner::scanner::{scan_step, skip_comment};
use lox_scanner::strings::string_tokenizer;
use lox_scanner::text::{digit_of, push_chars, push_decimal, string_of};
use lox_scanner::token::{Token, TokenKind};

fn rest_of(cursor: &mut Cursor<'_>) -> String {
    let mut rest = String::new();
    while let Some(c) = cursor.next() {
        rest.push(c);
    }
    rest
}

#[test]
fn cursor_reads_in_order() {
    let mut cursor = Cursor::new("ab");
    assert_eq!(cursor.next(), Some('a'));
    assert_eq!(cursor.next(), Some('b'));
    assert_eq!(cursor.next(), None);
    assert_eq!(cursor.next(), None);
}

#[test]
fn cursor_peek_does_not_move() {
    let mut cursor = Cursor::new("xyz");
    assert_eq!(cursor.peek(), Some('x'));
    assert_eq!(cursor.peek(), Some('x'));
    assert_eq!(cursor.next(), Some('x'));
    assert_eq!(cursor.peek(), Some('y'));
    assert_eq!(rest_of(&mut cursor), "yz");
    assert_eq!(cursor.peek(), None);
}

#[test]
fn cursor_peek_nth_looks_ahead() {
    let mut cursor = Cursor::new("1234");
    assert_eq!(cursor.peek_nth(0), Some('1'));
    assert_eq!(cursor.peek_nth(1), Some('2'));
    assert_eq!(cursor.peek_nth(3), Some('4'));
    assert_eq!(cursor.peek_nth(4), None);
    assert_eq!(cursor.peek_nth(usize::MAX), None);
    assert_eq!(cursor.peek_nth(3), Some('4'));
    assert_eq!(cursor.next(), Some('1'));
    assert_eq!(cursor.peek_nth(1), Some('3'));
    assert_eq!(rest_of(&mut cursor), "234");
}

#[test]
fn cursor_over_empty_text() {
    let mut cursor = Cursor::new("");
    assert_eq!(cursor.peek(), None);
    assert_eq!(cursor.peek_nth(0), None);
    assert_eq!(cursor.next(), None);
}

#[test]
fn cursor_reads_characters_not_bytes() {
    let mut cursor = Cursor::new("\u{e9}\u{8d8a}!");
    assert_eq!(cursor.peek_nth(1), Some('\u{8d8a}'));
    assert_eq!(cursor.next(), Some('\u{e9}'));
    assert_eq!(cursor.next(), Some('\u{8d8a}'));
    assert_eq!(cursor.next(), Some('!'));
}

#[test]
fn classes_of_the_token_characters() {
    assert_eq!(class('('), CharClass::Punctuation(TokenKind::LeftParen));
    assert_eq!(class('*'), CharClass::Punctuation(TokenKind::Star));
    assert_eq!(
        class('='),
        CharClass::Operator { single: TokenKind::Equal, paired: TokenKind::EqualEqual }
    );
    assert_eq!(
        class('>'),
        CharClass::Operator { single: TokenKind::Greater, paired: TokenKind::GreaterEqual }
    );
    assert_eq!(class('/'), CharClass::Slash);
    assert_eq!(class('"'), CharClass::Quote);
}

#[test]
fn classes_of_the_other_characters() {
    assert_eq!(class('\n'), CharClass::Newline);
    assert_eq!(class(' '), CharClass::Blank);
    assert_eq!(class('\t'), CharClass::Blank);
    assert_eq!(class('\u{a0}'), CharClass::Blank);
    assert_eq!(class('0'), CharClass::Digit);
    assert_eq!(class('9'), CharClass::Digit);
    assert_eq!(class('a'), CharClass::Unexpected);
    assert_eq!(class('@'), CharClass::Unexpected);
    assert_eq!(class('\u{663}'), CharClass::Unexpected);
}

#[test]
fn classify_goes_by_the_flag_it_is_given() {
    assert_eq!(classify('x', true), CharClass::Blank);
    assert_eq!(classify('x', false), CharClass::Unexpected);
    assert_eq!(classify('5', true), CharClass::Blank);
    assert_eq!(classify('5', false), CharClass::Digit);
    assert_eq!(classify('\n', false), CharClass::Newline);
    assert_eq!(classify('(', true), CharClass::Punctuation(TokenKind::LeftParen));
}

#[test]
fn decimal_numerals() {
    for (n, expected) in [
        (0u128, "0"),
        (9, "9"),
        (10, "10"),
        (65, "65"),
        (1012, "1012"),
        (u128::MAX, "340282366920938463463374607431768211455"),
    ] {
        let mut text = "n=".to_string();
        push_decimal(&mut text, n);
        assert_eq!(text, format!("n={}", expected));
    }
}

#[test]
fn digits_as_characters() {
    let all: Vec<char> = (0u8..10).map(digit_of).collect();
    assert_eq!(all, vec!['0', '1', '2', '3', '4', '5', '6', '7', '8', '9']);
}

#[test]
fn strings_from_characters() {
    assert_eq!(string_of(&vec!['a', '\u{e9}', '"']), "a\u{e9}\"");
    assert_eq!(string_of(&vec![]), "");
    let mut text = "x".to_string();
    push_chars(&mut text, &vec!['y', 'z']);
    assert_eq!(text, "xyz");
}

#[test]
fn names_and_lexemes_of_the_kinds() {
    assert_eq!(TokenKind::LeftParen.name(), "LEFT_PAREN");
    assert_eq!(TokenKind::GreaterEqual.name(), "GREATER_EQUAL");
    assert_eq!(TokenKind::Str.name(), "STRING");
    assert_eq!(TokenKind::Eof.name(), "EOF");
    assert_eq!(TokenKind::LeftParen.lexeme(), "(");
    assert_eq!(TokenKind::LessEqual.lexeme(), "<=");
    assert_eq!(TokenKind::Eof.lexeme(), "");
}

#[test]
fn token_lines() {
    assert_eq!(Token::fixed(TokenKind::Semicolon).to_line(), "SEMICOLON ; null");
    assert_eq!(Token::eof().to_line(), "EOF  null");
    let number = Token {
        kind: TokenKind::Number,
        lexeme: "1.50".to_string(),
        literal: Some("1.5".to_string()),
    };
    assert_eq!(number.to_line(), "NUMBER 1.50 1.5");
}

#[test]
fn diagnostic_lines() {
    let unexpected = Diagnostic { line: 3, error: ScanError::UnexpectedCharacter('$') };
    assert_eq!(unexpected.to_line(), "[line 3] Error: Unexpected character: $");
    let open = Diagnostic { line: 120, error: ScanError::UnterminatedString };
    assert_eq!(open.to_line(), "[line 120] Error: Unterminated string.");
    assert_eq!(ScanError::UnterminatedString.message(), "Unterminated string.");
    assert_eq!(ScanError::UnexpectedCharacter('x').message(), "Unexpected character: x");
    assert_eq!(Event::Diagnostic(open).to_line(), "[line 120] Error: Unterminated string.");
}

#[test]
fn reporter_counts_lines_and_keeps_the_flag() {
    let mut reporter = Reporter::new();
    assert_eq!(reporter.line(), 1);
    assert!(!reporter.had_error());
    reporter.advance_line();
    reporter.advance_line();
    assert_eq!(reporter.line(), 3);
    assert!(!reporter.had_error());
    let first = reporter.report_error(ScanError::UnexpectedCharacter('?'));
    assert_eq!(first, Diagnostic { line: 3, error: ScanError::UnexpectedCharacter('?') });
    assert!(reporter.had_error());
    reporter.advance_line();
    assert!(reporter.had_error());
    let second = reporter.report_error(ScanError::UnterminatedString);
    assert_eq!(second, Diagnostic { line: 4, error: ScanError::UnterminatedString });
    assert!(reporter.had_error());
    assert_eq!(reporter.line(), 4);
}

#[test]
fn take_digits_stops_at_the_first_other_character() {
    let mut cursor = Cursor::new("456.7");
    let mut text = vec!['1'];
    take_digits(&mut cursor, &mut text);
    assert_eq!(text, vec!['1', '4', '5', '6']);
    assert_eq!(rest_of(&mut cursor), ".7");

    let mut cursor = Cursor::new("x1");
    let mut text = vec![];
    take_digits(&mut cursor, &mut text);
    assert_eq!(text, vec![]);
    assert_eq!(rest_of(&mut cursor), "x1");
}

#[test]
fn strip_zeros_removes_only_the_zeros_at_the_end() {
    assert_eq!(strip_zeros(&"10.0500".chars().collect()), "10.05");
    assert_eq!(strip_zeros(&"1.0".chars().collect()), "1.");
    assert_eq!(strip_zeros(&"000".chars().collect()), "");
    assert_eq!(strip_zeros(&"0.5".chars().collect()), "0.5");
}

#[test]
fn number_tokenizer_reads_the_whole_number() {
    let mut cursor = Cursor::new("23.450+1");
    let token = number_tokenizer(false, '1', &mut cursor);
    assert_eq!(
        token,
        Some(Token {
            kind: TokenKind::Number,
            lexeme: "123.450".to_string(),
            literal: Some("123.45".to_string())
        })
    );
    assert_eq!(rest_of(&mut cursor), "+1");
}

#[test]
fn number_tokenizer_leaves_a_point_without_digit() {
    let mut cursor = Cursor::new("23.");
    let token = number_tokenizer(false, '1', &mut cursor);
    assert_eq!(
        token,
        Some(Token {
            kind: TokenKind::Number,
            lexeme: "123".to_string(),
            literal: Some("123.0".to_string())
        })
    );
    assert_eq!(rest_of(&mut cursor), ".");

    let mut cursor = Cursor::new(".x");
    let token = number_tokenizer(false, '7', &mut cursor);
    assert_eq!(token.unwrap().to_line(), "NUMBER 7 7.0");
    assert_eq!(rest_of(&mut cursor), ".x");
}

#[test]
fn number_tokenizer_takes_one_point_only() {
    let mut cursor = Cursor::new(".5.25");
    let token = number_tokenizer(false, '0', &mut cursor);
    assert_eq!(token.unwrap().to_line(), "NUMBER 0.5 0.5");
    assert_eq!(rest_of(&mut cursor), ".25");
}

#[test]
fn number_tokenizer_at_the_end_of_the_text() {
    let mut cursor = Cursor::new("");
    let token = number_tokenizer(false, '8', &mut cursor);
    assert_eq!(token.unwrap().to_line(), "NUMBER 8 8.0");
    assert_eq!(cursor.next(), None);
}

#[test]
fn number_tokenizer_reads_and_drops_after_an_error() {
    let mut cursor = Cursor::new("2.5)");
    let token = number_tokenizer(true, '1', &mut cursor);
    assert_eq!(token, None);
    assert_eq!(rest_of(&mut cursor), ")");
}

#[test]
fn string_tokenizer_reads_to_the_closing_quote() {
    let mut cursor = Cursor::new("hi there\" +");
    let mut reporter = Reporter::new();
    let event = string_tokenizer(&mut cursor, &mut reporter);
    assert_eq!(
        event,
        Some(Event::Token(Token {
            kind: TokenKind::Str,
            lexeme: "\"hi there\"".to_string(),
            literal: Some("hi there".to_string())
        }))
    );
    assert_eq!(rest_of(&mut cursor), " +");
    assert_eq!(reporter.line(), 1);
    assert!(!reporter.had_error());
}

#[test]
fn string_tokenizer_counts_the_lines_of_the_body() {
    let mut cursor = Cursor::new("a\n\nb\"\n");
    let mut reporter = Reporter::new();
    let event = string_tokenizer(&mut cursor, &mut reporter);
    assert_eq!(event.unwrap().to_line(), "STRING \"a\n\nb\" a\n\nb");
    assert_eq!(reporter.line(), 3);
    assert_eq!(rest_of(&mut cursor), "\n");
}

#[test]
fn string_tokenizer_reports_the_missing_quote() {
    let mut cursor = Cursor::new("a\nb");
    let mut reporter = Reporter::new();
    let event = string_tokenizer(&mut cursor, &mut reporter);
    assert_eq!(
        event,
        Some(Event::Diagnostic(Diagnostic { line: 2, error: ScanError::UnterminatedString }))
    );
    assert!(reporter.had_error());
    assert_eq!(reporter.line(), 2);
    assert_eq!(cursor.next(), None);
}

#[test]
fn string_tokenizer_drops_the_empty_string() {
    let mut cursor = Cursor::new("\"x\"");
    let mut reporter = Reporter::new();
    assert_eq!(string_tokenizer(&mut cursor, &mut reporter), None);
    assert!(!reporter.had_error());
    assert_eq!(rest_of(&mut cursor), "x\"");
}

#[test]
fn string_tokenizer_drops_the_string_after_an_error() {
    let mut cursor = Cursor::new("a\nb\"c");
    let mut reporter = Reporter::new();
    let _ = reporter.report_error(ScanError::UnexpectedCharacter('@'));
    assert_eq!(string_tokenizer(&mut cursor, &mut reporter), None);
    assert_eq!(reporter.line(), 2);
    assert_eq!(rest_of(&mut cursor), "c");
}

#[test]
fn skip_comment_stops_in_front_of_the_line_feed() {
    let mut cursor = Cursor::new(" text \"\n(");
    skip_comment(&mut cursor);
    assert_eq!(rest_of(&mut cursor), "\n(");
    let mut cursor = Cursor::new("to the end");
    skip_comment(&mut cursor);
    assert_eq!(cursor.next(), None);
}

#[test]
fn scan_step_takes_one_step() {
    let mut cursor = Cursor::new("=(");
    let mut reporter = Reporter::new();
    let event = scan_step('!', &mut cursor, &mut reporter);
    assert_eq!(event.unwrap().to_line(), "BANG_EQUAL != null");
    assert_eq!(rest_of(&mut cursor), "(");

    let mut cursor = Cursor::new("/ c\n1");
    let event = scan_step('/', &mut cursor, &mut reporter);
    assert_eq!(event, None);
    assert_eq!(reporter.line(), 1);
    assert_eq!(cursor.next(), Some('\n'));
    let event = scan_step('\n', &mut cursor, &mut reporter);
    assert_eq!(event, None);
    assert_eq!(reporter.line(), 2);
    assert_eq!(rest_of(&mut cursor), "1");

    let mut cursor = Cursor::new("5");
    let event = scan_step('%', &mut cursor, &mut reporter);
    assert_eq!(event.unwrap().to_line(), "[line 2] Error: Unexpected character: %");
    assert!(reporter.had_error());
    assert_eq!(rest_of(&mut cursor), "5");
}
