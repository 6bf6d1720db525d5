//! The scanner: one pass over the source text, from left to right.
//!
//! `step` says what the scanner does at the start of a text, `scan_from` how
//! the steps follow one another, and `tokenizer` carries the scan out.

use crate::chars::{class, class_of, CharClass};
use crate::cursor::Cursor;
use crate::event::{emitted, views, Event, EventView};
use crate::number::{number_extent, number_extent_bounds, number_token, number_tokenizer};
use crate::report::{
    DiagnosticView, Reporter, ScanError, ScanState, EXIT_CODE_INVALID_CHARACTER,
};
use crate::strings::{
    count_newlines_bounds, run_until, run_until_bounds, string_body, string_event, string_extent,
    string_state, string_tokenizer,
};
use crate::text::chars_within_bytes;
use crate::token::{Token, TokenKind, TokenView};
use vstd::prelude::*;

verus! {

/// One step of the scan: how many characters it takes up, what it gives rise
/// to, and the state it leaves.
pub struct Step {
    pub consumed: nat,
    pub emitted: Option<EventView>,
    pub state: ScanState,
}

/// The step that takes up `consumed` characters and yields a token of a kind
/// whose source text is fixed.
pub open spec fn token_step(consumed: nat, kind: TokenKind, state: ScanState) -> Step {
    Step { consumed, emitted: Some(EventView::Token(TokenView::fixed(kind))), state }
}

/// What the scanner does at the start of `text`, which is not empty, in
/// `state`. The class of the first character decides.
pub open spec fn step(text: Seq<char>, state: ScanState) -> Step
    recommends
        text.len() > 0,
{
    let lexeme = text[0];
    let rest = text.skip(1);
    match class_of(lexeme) {
        CharClass::Punctuation(kind) => token_step(1, kind, state),
        CharClass::Operator { single, paired } => {
            if rest.len() > 0 && rest[0] == '=' {
                token_step(2, paired, state)
            } else {
                token_step(1, single, state)
            }
        },
        CharClass::Slash => {
            if rest.len() > 0 && rest[0] == '/' {
                // A comment runs up to the line feed, which is left to the next step.
                Step { consumed: 2 + run_until(rest.skip(1), '\n'), emitted: None, state }
            } else {
                token_step(1, TokenKind::Slash, state)
            }
        },
        CharClass::Quote => Step {
            consumed: 1 + string_extent(rest),
            emitted: string_event(rest, state),
            state: string_state(rest, state),
        },
        CharClass::Newline => Step { consumed: 1, emitted: None, state: state.advanced(1) },
        CharClass::Blank => Step { consumed: 1, emitted: None, state },
        CharClass::Digit => Step {
            consumed: 1 + number_extent(rest),
            emitted: if state.had_error {
                None
            } else {
                Some(EventView::Token(number_token(lexeme, rest)))
            },
            state,
        },
        CharClass::Unexpected => Step {
            consumed: 1,
            emitted: Some(
                EventView::Diagnostic(
                    DiagnosticView { line: state.line, error: ScanError::UnexpectedCharacter(lexeme) },
                ),
            ),
            state: state.failed(),
        },
    }
}

/// The result of a scan as the contracts see it: the events in the order in
/// which they were found, and the state at the end.
pub struct ScanView {
    pub events: Seq<EventView>,
    pub state: ScanState,
}

impl ScanView {
    /// The lines of the output: the printed forms of the tokens, in order.
    pub open spec fn output_lines(self) -> Seq<Seq<char>> {
        token_lines(self.events)
    }

    /// The lines of the error stream: the printed forms of the diagnostics,
    /// in order.
    pub open spec fn error_lines(self) -> Seq<Seq<char>> {
        diagnostic_lines(self.events)
    }
}

/// The printed forms of the tokens among `events`, in order.
pub open spec fn token_lines(events: Seq<EventView>) -> Seq<Seq<char>>
    decreases events.len(),
{
    if events.len() == 0 {
        Seq::empty()
    } else {
        match events.last() {
            EventView::Token(token) => token_lines(events.drop_last()).push(token.line()),
            EventView::Diagnostic(_) => token_lines(events.drop_last()),
        }
    }
}

/// The printed forms of the diagnostics among `events`, in order.
pub open spec fn diagnostic_lines(events: Seq<EventView>) -> Seq<Seq<char>>
    decreases events.len(),
{
    if events.len() == 0 {
        Seq::empty()
    } else {
        match events.last() {
            EventView::Token(_) => diagnostic_lines(events.drop_last()),
            EventView::Diagnostic(diagnostic) => diagnostic_lines(events.drop_last()).push(
                diagnostic.line_text(),
            ),
        }
    }
}

/// The texts of a list of strings.
pub open spec fn texts(lines: Seq<String>) -> Seq<Seq<char>> {
    lines.map_values(|line: String| line@)
}

/// `events` with `first` in front of them, where there is one.
pub open spec fn preceded(first: Option<EventView>, events: Seq<EventView>) -> Seq<EventView> {
    match first {
        Some(event) => seq![event] + events,
        None => events,
    }
}

/// The scan of `text` that starts in `state`: step after step until the text
/// is used up, then the end marker.
pub open spec fn scan_from(text: Seq<char>, state: ScanState) -> ScanView
    decreases text.len(),
    via scan_from_terminates
{
    if text.len() == 0 {
        ScanView { events: seq![EventView::Token(TokenView::eof())], state }
    } else {
        let first = step(text, state);
        let rest = scan_from(text.skip(first.consumed as int), first.state);
        ScanView { events: preceded(first.emitted, rest.events), state: rest.state }
    }
}

#[via_fn]
proof fn scan_from_terminates(text: Seq<char>, state: ScanState) {
    if text.len() > 0 {
        step_bounds(text, state);
    }
}

/// The scan of a whole source text.
pub open spec fn scan(text: Seq<char>) -> ScanView {
    scan_from(text, ScanState::initial())
}

/// A step takes up at least one character and no more than there are, and
/// counts at most one line for each character it takes up.
pub proof fn step_bounds(text: Seq<char>, state: ScanState)
    requires
        text.len() > 0,
    ensures
        1 <= step(text, state).consumed <= text.len(),
        state.line <= step(text, state).state.line <= state.line + step(text, state).consumed,
{
    let rest = text.skip(1);
    number_extent_bounds(rest);
    run_until_bounds(rest, '"');
    count_newlines_bounds(string_body(rest));
    if rest.len() > 0 {
        run_until_bounds(rest.skip(1), '\n');
    }
}

/// The result of a scan: the events in the order in which they were found,
/// the line on which the scan ended, and whether it reported an error.
#[derive(Clone, Debug, PartialEq, Eq)]
pub struct ScanOutput {
    pub events: Vec<Event>,
    pub line: u128,
    pub had_error: bool,
}

impl View for ScanOutput {
    type V = ScanView;

    open spec fn view(&self) -> ScanView {
        ScanView {
            events: views(self.events@),
            state: ScanState { line: self.line as nat, had_error: self.had_error },
        }
    }
}

impl ScanOutput {
    /// The lines of the output: one for each token, in order.
    pub fn output_lines(&self) -> (lines: Vec<String>)
        ensures
            texts(lines@) == self@.output_lines(),
    {
        let mut lines: Vec<String> = Vec::new();
        let mut i: usize = 0;
        while i < self.events.len()
            invariant
                i <= self.events.len(),
                texts(lines@) == token_lines(views(self.events@).take(i as int)),
            decreases self.events.len() - i,
        {
            proof {
                let seen = views(self.events@).take(i + 1);
                assert(seen.drop_last() =~= views(self.events@).take(i as int));
            }
            match &self.events[i] {
                Event::Token(token) => lines.push(token.to_line()),
                Event::Diagnostic(_) => {},
            }
            i += 1;
        }
        assert(views(self.events@).take(i as int) =~= views(self.events@));
        lines
    }

    /// The lines of the error stream: one for each diagnostic, in order.
    pub fn error_lines(&self) -> (lines: Vec<String>)
        ensures
            texts(lines@) == self@.error_lines(),
    {
        let mut lines: Vec<String> = Vec::new();
        let mut i: usize = 0;
        while i < self.events.len()
            invariant
                i <= self.events.len(),
                texts(lines@) == diagnostic_lines(views(self.events@).take(i as int)),
            decreases self.events.len() - i,
        {
            proof {
                let seen = views(self.events@).take(i + 1);
                assert(seen.drop_last() =~= views(self.events@).take(i as int));
            }
            match &self.events[i] {
                Event::Token(_) => {},
                Event::Diagnostic(diagnostic) => lines.push(diagnostic.to_line()),
            }
            i += 1;
        }
        assert(views(self.events@).take(i as int) =~= views(self.events@));
        lines
    }

    /// The exit status that the scan asks for: zero, or
    /// `EXIT_CODE_INVALID_CHARACTER` where an error was reported.
    pub fn exit_code(&self) -> (code: i32)
        ensures
            code == if self@.state.had_error {
                EXIT_CODE_INVALID_CHARACTER
            } else {
                0
            },
    {
        if self.had_error {
            EXIT_CODE_INVALID_CHARACTER
        } else {
            0
        }
    }
}

/// Moves the cursor to the end of the line: past everything in front of the
/// next line feed.
pub fn skip_comment(lexemes: &mut Cursor<'_>)
    ensures
        final(lexemes)@ == old(lexemes)@.skip(run_until(old(lexemes)@, '\n') as int),
{
    let ghost start = lexemes@;
    let ghost mut skipped: int = 0;
    proof {
        run_until_bounds(start, '\n');
    }
    loop
        invariant
            0 <= skipped <= start.len(),
            lexemes@ == start.skip(skipped),
            run_until(start, '\n') == skipped + run_until(lexemes@, '\n'),
        ensures
            lexemes@ == start.skip(run_until(start, '\n') as int),
        decreases lexemes@.len(),
    {
        match lexemes.peek() {
            Some(peeked) if peeked != '\n' => {
                let _ = lexemes.next();
                proof {
                    skipped = skipped + 1;
                }
            },
            _ => {
                break ;
            },
        }
    }
}

/// Carries out the step that starts with `lexeme`, which the caller has read
/// already: moves the cursor past the rest of it, brings the reporter up to
/// date, and returns what the step gives rise to.
pub fn scan_step(lexeme: char, lexemes: &mut Cursor<'_>, reporter: &mut Reporter) -> (event:
    Option<Event>)
    requires
        old(reporter)@.line + 1 + old(lexemes)@.len() <= u128::MAX,
    ensures
        ({
            let text = seq![lexeme] + old(lexemes)@;
            let done = step(text, old(reporter)@);
            &&& final(lexemes)@ == text.skip(done.consumed as int)
            &&& final(reporter)@ == done.state
            &&& emitted(event) == done.emitted
        }),
{
    let ghost rest = lexemes@;
    let ghost text = seq![lexeme] + rest;
    proof {
        assert(text.skip(1) =~= rest);
        step_bounds(text, reporter@);
        assert forall|n: int| 0 <= n <= rest.len() implies text.skip(1 + n) =~= rest.skip(n) by {}
    }
    match class(lexeme) {
        CharClass::Punctuation(kind) => Some(Event::Token(Token::fixed(kind))),
        CharClass::Operator { single, paired } => {
            let extended = match lexemes.peek() {
                Some(next_lexeme) => next_lexeme == '=',
                None => false,
            };
            if extended {
                let _ = lexemes.next();
                Some(Event::Token(Token::fixed(paired)))
            } else {
                Some(Event::Token(Token::fixed(single)))
            }
        },
        CharClass::Slash => {
            let comment = match lexemes.peek() {
                Some(next_lexeme) => next_lexeme == '/',
                None => false,
            };
            if comment {
                let _ = lexemes.next();
                proof {
                    run_until_bounds(rest.skip(1), '\n');
                    assert(rest.skip(1).skip(run_until(rest.skip(1), '\n') as int) =~= rest.skip(
                        1 + run_until(rest.skip(1), '\n') as int,
                    ));
                }
                skip_comment(lexemes);
                None
            } else {
                Some(Event::Token(Token::fixed(TokenKind::Slash)))
            }
        },
        CharClass::Quote => {
            proof {
                run_until_bounds(rest, '"');
            }
            string_tokenizer(lexemes, reporter)
        },
        CharClass::Newline => {
            reporter.advance_line();
            None
        },
        CharClass::Blank => None,
        CharClass::Digit => {
            proof {
                number_extent_bounds(rest);
            }
            match number_tokenizer(reporter.had_error(), lexeme, lexemes) {
                Some(number) => Some(Event::Token(number)),
                None => None,
            }
        },
        CharClass::Unexpected => {
            let diagnostic = reporter.report_error(ScanError::UnexpectedCharacter(lexeme));
            Some(Event::Diagnostic(diagnostic))
        },
    }
}

/// Scans `file_contents` from its first character to its last. The result is
/// the scan of the text: its events in order, ending with the end marker, and
/// the state in which the scan ended.
pub fn tokenizer(file_contents: String) -> (out: ScanOutput)
    ensures
        out@ == scan(file_contents@),
{
    let source = file_contents.as_str();
    // A text holds no more line feeds than bytes, so the counter has room.
    let _ = source.as_bytes().len();
    proof {
        chars_within_bytes(source@);
    }
    let mut reporter = Reporter::new();
    let mut events: Vec<Event> = Vec::new();
    let mut lexemes = Cursor::new(source);
    loop
        invariant
            source@.len() <= usize::MAX,
            reporter@.line + lexemes@.len() <= source@.len() + 1,
            scan(source@).events == views(events@) + scan_from(lexemes@, reporter@).events,
            scan(source@).state == scan_from(lexemes@, reporter@).state,
        ensures
            lexemes@.len() == 0,
            scan(source@).events == views(events@) + scan_from(lexemes@, reporter@).events,
            scan(source@).state == scan_from(lexemes@, reporter@).state,
        decreases lexemes@.len(),
    {
        let ghost text = lexemes@;
        let ghost before = reporter@;
        let ghost found = events@;
        match lexemes.next() {
            None => {
                break ;
            },
            Some(lexeme) => {
                proof {
                    assert(seq![lexeme] + text.skip(1) =~= text);
                    step_bounds(text, before);
                }
                match scan_step(lexeme, &mut lexemes, &mut reporter) {
                    Some(event) => {
                        events.push(event);
                        proof {
                            let rest = scan_from(lexemes@, reporter@).events;
                            assert(views(found) + (seq![event@] + rest) =~= views(found).push(
                                event@,
                            ) + rest);
                        }
                    },
                    None => {},
                }
            },
        }
    }
    events.push(Event::Token(Token::eof()));
    proof {
        assert(views(events@) =~= scan(source@).events);
    }
    ScanOutput { events, line: reporter.line(), had_error: reporter.had_error() }
}

} // verus!
