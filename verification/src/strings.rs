//! String literals.
//!
//! A string runs from its opening quote to the next quote. Nothing is
//! escaped, and a string may span lines.

use crate::cursor::Cursor;
use crate::event::{emitted, Event, EventView};
use crate::report::{DiagnosticView, Reporter, ScanError, ScanState};
use crate::text::{push_chars, string_of};
use crate::token::{Token, TokenKind, TokenView};
use vstd::prelude::*;

verus! {

/// The length of the longest prefix of `s` in which `stop` does not occur.
pub open spec fn run_until(s: Seq<char>, stop: char) -> nat
    decreases s.len(),
{
    if s.len() > 0 && s[0] != stop {
        1 + run_until(s.skip(1), stop)
    } else {
        0
    }
}

/// How many line feeds `s` holds.
pub open spec fn count_newlines(s: Seq<char>) -> nat
    decreases s.len(),
{
    if s.len() == 0 {
        0
    } else if s.last() == '\n' {
        count_newlines(s.drop_last()) + 1
    } else {
        count_newlines(s.drop_last())
    }
}

/// The text of the string that starts before `rest`: all up to the next quote
/// or, where there is none, up to the end.
pub open spec fn string_body(rest: Seq<char>) -> Seq<char> {
    rest.take(run_until(rest, '"') as int)
}

/// Whether the string that starts before `rest` has its closing quote.
pub open spec fn string_closed(rest: Seq<char>) -> bool {
    run_until(rest, '"') < rest.len()
}

/// How many characters of `rest`, the text after an opening quote, the string
/// takes up: its body and, where there is one, the closing quote.
pub open spec fn string_extent(rest: Seq<char>) -> nat {
    if string_closed(rest) {
        run_until(rest, '"') + 1
    } else {
        run_until(rest, '"')
    }
}

/// The token of a string with the given body. The lexeme holds the quotes,
/// the literal does not.
pub open spec fn string_token(body: Seq<char>) -> TokenView {
    TokenView { kind: TokenKind::Str, lexeme: seq!['"'] + body + seq!['"'], literal: Some(body) }
}

/// The state after the string that starts before `rest`: every line feed in
/// its body is counted, and a missing closing quote is an error.
pub open spec fn string_state(rest: Seq<char>, state: ScanState) -> ScanState {
    let after = state.advanced(count_newlines(string_body(rest)));
    if string_closed(rest) {
        after
    } else {
        after.failed()
    }
}

/// What the string that starts before `rest` gives rise to. Without a closing
/// quote: the diagnostic, on the line where the text ends. Otherwise its
/// token, unless the body is empty or an error was reported before.
pub open spec fn string_event(rest: Seq<char>, state: ScanState) -> Option<EventView> {
    let body = string_body(rest);
    if !string_closed(rest) {
        Some(
            EventView::Diagnostic(
                DiagnosticView {
                    line: state.line + count_newlines(body),
                    error: ScanError::UnterminatedString,
                },
            ),
        )
    } else if body.len() > 0 && !state.had_error {
        Some(EventView::Token(string_token(body)))
    } else {
        None
    }
}

/// A run ends where the text ends or the stop character stands.
pub proof fn run_until_bounds(s: Seq<char>, stop: char)
    ensures
        run_until(s, stop) <= s.len(),
        forall|i: int| 0 <= i < run_until(s, stop) ==> #[trigger] s[i] != stop,
        run_until(s, stop) < s.len() ==> s[run_until(s, stop) as int] == stop,
    decreases s.len(),
{
    if s.len() > 0 && s[0] != stop {
        let tail = s.skip(1);
        run_until_bounds(tail, stop);
        assert forall|i: int| 0 <= i < run_until(s, stop) implies #[trigger] s[i] != stop by {
            if i > 0 {
                assert(s[i] == tail[i - 1]);
            }
        }
        if run_until(s, stop) < s.len() {
        }
    }
}

/// A text holds at most as many line feeds as characters.
pub proof fn count_newlines_bounds(s: Seq<char>)
    ensures
        count_newlines(s) <= s.len(),
    decreases s.len(),
{
    if s.len() > 0 {
        count_newlines_bounds(s.drop_last());
    }
}

/// Reads a string literal whose opening quote the caller has read already.
///
/// The cursor moves past the body and the closing quote, and the reporter
/// counts the line feeds of the body. Where the text ends before the closing
/// quote, the error is reported and its diagnostic returned.
pub fn string_tokenizer(lexemes: &mut Cursor<'_>, reporter: &mut Reporter) -> (event: Option<Event>)
    requires
        old(reporter)@.line + old(lexemes)@.len() <= u128::MAX,
    ensures
        final(lexemes)@ == old(lexemes)@.skip(string_extent(old(lexemes)@) as int),
        final(reporter)@ == string_state(old(lexemes)@, old(reporter)@),
        emitted(event) == string_event(old(lexemes)@, old(reporter)@),
{
    let ghost rest = lexemes@;
    let ghost before = reporter@;
    let mut string_literal: Vec<char> = Vec::new();
    proof {
        run_until_bounds(rest, '"');
    }
    loop
        invariant
            rest == old(lexemes)@,
            before == old(reporter)@,
            string_literal@.len() <= rest.len(),
            lexemes@ == rest.skip(string_literal@.len() as int),
            string_literal@ == rest.take(string_literal@.len() as int),
            run_until(rest, '"') == string_literal@.len() + run_until(lexemes@, '"'),
            reporter@ == before.advanced(count_newlines(string_literal@)),
            reporter@.line + lexemes@.len() <= u128::MAX,
        ensures
            string_closed(rest),
            string_literal@ == string_body(rest),
            lexemes@ == rest.skip(run_until(rest, '"') as int),
            reporter@ == before.advanced(count_newlines(string_literal@)),
        decreases lexemes@.len(),
    {
        let ghost taken = string_literal@.len() as int;
        match lexemes.peek() {
            Some(peeked) => {
                if peeked == '"' {
                    break ;
                }
                let _ = lexemes.next();
                if peeked == '\n' {
                    reporter.advance_line();
                }
                string_literal.push(peeked);
                proof {
                    assert(string_literal@.drop_last() =~= rest.take(taken));
                }
            },
            None => {
                let diagnostic = reporter.report_error(ScanError::UnterminatedString);
                return Some(Event::Diagnostic(diagnostic));
            },
        }
    }

    // advance over the closing quote
    let _ = lexemes.next();

    if string_literal.len() > 0 && !reporter.had_error() {
        let mut lexeme = String::new();
        lexeme.push('"');
        push_chars(&mut lexeme, &string_literal);
        lexeme.push('"');
        let literal = string_of(&string_literal);
        proof {
            let body = string_literal@;
            assert((Seq::<char>::empty().push('"') + body).push('"') =~= seq!['"'] + body
                + seq!['"']);
        }
        Some(Event::Token(Token { kind: TokenKind::Str, lexeme, literal: Some(literal) }))
    } else {
        None
    }
}

} // verus!
