//! What holds of every scan.

use crate::chars::{class_of, is_digit, CharClass};
use crate::event::EventView;
use crate::number::{digit_run, digit_run_bounds, has_fraction, number_extent};
use crate::report::ScanState;
use crate::scanner::{preceded, scan, scan_from, step, step_bounds, ScanOutput, ScanView};
use crate::strings::{count_newlines, run_until, run_until_bounds, string_body, string_closed};
use crate::token::{TokenKind, TokenView};
use vstd::prelude::*;

verus! {

/// The line feeds of two texts add up when the texts are joined.
pub proof fn count_newlines_of_joined(a: Seq<char>, b: Seq<char>)
    ensures
        count_newlines(a + b) == count_newlines(a) + count_newlines(b),
    decreases b.len(),
{
    if b.len() == 0 {
        assert(a + b =~= a);
    } else {
        assert((a + b).drop_last() =~= a + b.drop_last());
        count_newlines_of_joined(a, b.drop_last());
    }
}

/// A text without a line feed counts none.
pub proof fn count_newlines_of_plain(s: Seq<char>)
    requires
        forall|i: int| 0 <= i < s.len() ==> s[i] != '\n',
    ensures
        count_newlines(s) == 0,
    decreases s.len(),
{
    if s.len() > 0 {
        count_newlines_of_plain(s.drop_last());
    }
}

/// A number holds digits and at most one point, so no line feed.
pub proof fn number_holds_no_newline(rest: Seq<char>)
    ensures
        number_extent(rest) <= rest.len(),
        forall|i: int| 0 <= i < number_extent(rest) ==> rest[i] != '\n',
{
    let whole = digit_run(rest) as int;
    digit_run_bounds(rest);
    if has_fraction(rest) {
        let tail = rest.skip(whole + 1);
        digit_run_bounds(tail);
        assert forall|i: int| 0 <= i < number_extent(rest) implies rest[i] != '\n' by {
            if i < whole {
                assert(is_digit(rest[i]));
            } else if i > whole {
                assert(rest[i] == tail[i - whole - 1]);
                assert(is_digit(tail[i - whole - 1]));
            }
        }
    } else {
        assert forall|i: int| 0 <= i < number_extent(rest) implies rest[i] != '\n' by {
            assert(is_digit(rest[i]));
        }
    }
}

/// A step advances the line counter by the number of line feeds among the
/// characters that it takes up.
pub proof fn step_counts_newlines(text: Seq<char>, state: ScanState)
    requires
        text.len() > 0,
    ensures
        step(text, state).state.line == state.line + count_newlines(
            text.take(step(text, state).consumed as int),
        ),
{
    let lexeme = text[0];
    let rest = text.skip(1);
    let done = step(text, state);
    let taken = text.take(done.consumed as int);
    step_bounds(text, state);
    assert(taken =~= seq![lexeme] + rest.take(done.consumed - 1));
    count_newlines_of_joined(seq![lexeme], rest.take(done.consumed - 1));
    assert(seq![lexeme].drop_last() =~= Seq::<char>::empty());
    assert(count_newlines(Seq::<char>::empty()) == 0);
    assert(count_newlines(seq![lexeme]) == if lexeme == '\n' {
        1nat
    } else {
        0nat
    });
    let tail = rest.take(done.consumed - 1);
    match class_of(lexeme) {
        CharClass::Punctuation(_) => {
            assert(tail =~= Seq::<char>::empty());
        },
        CharClass::Operator { .. } => {
            count_newlines_of_plain(tail);
        },
        CharClass::Slash => {
            if rest.len() > 0 && rest[0] == '/' {
                let comment = rest.skip(1);
                run_until_bounds(comment, '\n');
                assert forall|i: int| 0 <= i < tail.len() implies tail[i] != '\n' by {
                    if i > 0 {
                        assert(tail[i] == comment[i - 1]);
                    }
                }
                count_newlines_of_plain(tail);
            } else {
                assert(tail =~= Seq::<char>::empty());
            }
        },
        CharClass::Quote => {
            let body = string_body(rest);
            run_until_bounds(rest, '"');
            if string_closed(rest) {
                assert(tail =~= body + seq!['"']);
                count_newlines_of_joined(body, seq!['"']);
                count_newlines_of_plain(seq!['"']);
            } else {
                assert(tail =~= body);
            }
        },
        CharClass::Newline => {
            assert(tail =~= Seq::<char>::empty());
        },
        CharClass::Blank => {
            assert(tail =~= Seq::<char>::empty());
        },
        CharClass::Digit => {
            number_holds_no_newline(rest);
            count_newlines_of_plain(tail);
        },
        CharClass::Unexpected => {
            assert(tail =~= Seq::<char>::empty());
        },
    }
}

/// Every line feed of the text advances the line counter by exactly one,
/// wherever it stands: in code, in a comment or in a string literal. Nothing
/// else moves the counter.
pub proof fn scan_counts_newlines(text: Seq<char>, state: ScanState)
    ensures
        scan_from(text, state).state.line == state.line + count_newlines(text),
        scan_from(text, state).state.line >= state.line,
    decreases text.len(),
{
    if text.len() > 0 {
        let done = step(text, state);
        let consumed = done.consumed as int;
        step_bounds(text, state);
        step_counts_newlines(text, state);
        scan_counts_newlines(text.skip(consumed), done.state);
        assert(text =~= text.take(consumed) + text.skip(consumed));
        count_newlines_of_joined(text.take(consumed), text.skip(consumed));
    }
}

/// A scan of a whole text ends on line one plus the number of its line feeds.
pub proof fn scan_ends_on_last_line(text: Seq<char>)
    ensures
        scan(text).state.line == 1 + count_newlines(text),
{
    scan_counts_newlines(text, ScanState::initial());
}

/// Once the error flag is set it stays set to the end of the scan.
pub proof fn error_flag_is_sticky(text: Seq<char>, state: ScanState)
    requires
        state.had_error,
    ensures
        scan_from(text, state).state.had_error,
    decreases text.len(),
{
    if text.len() > 0 {
        let done = step(text, state);
        step_bounds(text, state);
        error_flag_is_sticky(text.skip(done.consumed as int), done.state);
    }
}

/// Whether an event is a diagnostic.
pub open spec fn is_diagnostic(event: EventView) -> bool {
    event is Diagnostic
}

/// Whether an event is the token of a literal: a number or a string.
pub open spec fn is_literal(event: EventView) -> bool {
    event matches EventView::Token(token) && (token.kind == TokenKind::Number || token.kind
        == TokenKind::Str)
}

/// The error flag is set at the end of a scan exactly if it was set at the
/// start or the scan raised a diagnostic.
pub proof fn error_flag_tells_of_diagnostics(text: Seq<char>, state: ScanState)
    ensures
        scan_from(text, state).state.had_error <==> state.had_error || exists|i: int|
            0 <= i < scan_from(text, state).events.len() && is_diagnostic(
                #[trigger] scan_from(text, state).events[i],
            ),
    decreases text.len(),
{
    let all = scan_from(text, state).events;
    if text.len() > 0 {
        let done = step(text, state);
        step_bounds(text, state);
        let rest_text = text.skip(done.consumed as int);
        let rest = scan_from(rest_text, done.state).events;
        error_flag_tells_of_diagnostics(rest_text, done.state);
        assert(all == preceded(done.emitted, rest));
        let shift: int = if done.emitted is Some {
            1
        } else {
            0
        };
        assert forall|i: int| 0 <= i < rest.len() implies all[i + shift] == rest[i] by {}
        if scan_from(text, state).state.had_error && !state.had_error {
            if done.state.had_error {
                assert(done.emitted is Some && is_diagnostic(done.emitted->0));
                assert(is_diagnostic(all[0]));
            } else {
                let i = choose|i: int| 0 <= i < rest.len() && is_diagnostic(#[trigger] rest[i]);
                assert(is_diagnostic(all[i + shift]));
            }
        }
        if state.had_error {
            error_flag_is_sticky(text, state);
        }
        if exists|i: int| 0 <= i < all.len() && is_diagnostic(#[trigger] all[i]) {
            let i = choose|i: int| 0 <= i < all.len() && is_diagnostic(#[trigger] all[i]);
            if shift == 1 && i == 0 {
                assert(done.state.had_error);
                error_flag_is_sticky(rest_text, done.state);
            } else {
                assert(all[i] == rest[i - shift]);
                assert(is_diagnostic(rest[i - shift]));
            }
        }
    } else {
        assert(all.len() == 1);
        assert(!is_diagnostic(all[0]));
    }
}

/// A scan of a whole text sets the error flag exactly if it raised a
/// diagnostic.
pub proof fn scan_fails_with_diagnostics(text: Seq<char>)
    ensures
        scan(text).state.had_error <==> exists|i: int|
            0 <= i < scan(text).events.len() && is_diagnostic(#[trigger] scan(text).events[i]),
{
    error_flag_tells_of_diagnostics(text, ScanState::initial());
}

/// From the first error on, the scan yields no token of a number or a string:
/// it reads the literals and drops them.
pub proof fn literals_are_dropped_after_error(text: Seq<char>, state: ScanState)
    requires
        state.had_error,
    ensures
        forall|i: int|
            0 <= i < scan_from(text, state).events.len() ==> !is_literal(
                #[trigger] scan_from(text, state).events[i],
            ),
    decreases text.len(),
{
    let all = scan_from(text, state).events;
    if text.len() > 0 {
        let done = step(text, state);
        step_bounds(text, state);
        let rest_text = text.skip(done.consumed as int);
        let rest = scan_from(rest_text, done.state).events;
        literals_are_dropped_after_error(rest_text, done.state);
        let shift: int = if done.emitted is Some {
            1
        } else {
            0
        };
        assert forall|i: int| 0 <= i < all.len() implies !is_literal(#[trigger] all[i]) by {
            if shift == 1 && i == 0 {
                assert(all[0] == done.emitted->0);
            } else {
                assert(all[i] == rest[i - shift]);
            }
        }
    }
}

/// Every scan ends with the end marker, and the marker stands nowhere else.
pub proof fn scan_ends_with_marker(text: Seq<char>, state: ScanState)
    ensures
        scan_from(text, state).events.len() > 0,
        scan_from(text, state).events.last() == EventView::Token(TokenView::eof()),
        forall|i: int|
            0 <= i < scan_from(text, state).events.len() - 1 ==> !(
            #[trigger] scan_from(text, state).events[i] matches EventView::Token(token)
                && token.kind == TokenKind::Eof),
    decreases text.len(),
{
    let all = scan_from(text, state).events;
    if text.len() > 0 {
        let done = step(text, state);
        step_bounds(text, state);
        let rest_text = text.skip(done.consumed as int);
        let rest = scan_from(rest_text, done.state).events;
        scan_ends_with_marker(rest_text, done.state);
        let shift: int = if done.emitted is Some {
            1
        } else {
            0
        };
        assert(all.last() == rest.last());
        assert forall|i: int| 0 <= i < all.len() - 1 implies !(#[trigger] all[i] matches EventView::Token(
            token,
        ) && token.kind == TokenKind::Eof) by {
            if shift == 1 && i == 0 {
                assert(all[0] == done.emitted->0);
            } else {
                assert(all[i] == rest[i - shift]);
            }
        }
    }
}

/// The lexeme of a token is the very text that the step took up: for a
/// string that includes the two quotes.
pub proof fn lexeme_is_source_text(text: Seq<char>, state: ScanState)
    requires
        text.len() > 0,
    ensures
        step(text, state).emitted matches Some(EventView::Token(token)) ==> token.lexeme
            == text.take(step(text, state).consumed as int),
{
    let lexeme = text[0];
    let rest = text.skip(1);
    let done = step(text, state);
    step_bounds(text, state);
    match class_of(lexeme) {
        CharClass::Punctuation(kind) => {
            assert(kind.fixed_lexeme() =~= text.take(1));
        },
        CharClass::Operator { single, paired } => {
            if rest.len() > 0 && rest[0] == '=' {
                assert(paired.fixed_lexeme() =~= text.take(2));
            } else {
                assert(single.fixed_lexeme() =~= text.take(1));
            }
        },
        CharClass::Slash => {
            if !(rest.len() > 0 && rest[0] == '/') {
                assert(TokenKind::Slash.fixed_lexeme() =~= text.take(1));
            }
        },
        CharClass::Quote => {
            run_until_bounds(rest, '"');
            if string_closed(rest) {
                assert(seq!['"'] + string_body(rest) + seq!['"'] =~= text.take(
                    done.consumed as int,
                ));
            }
        },
        CharClass::Digit => {
            assert(seq![lexeme] + rest.take(number_extent(rest) as int) =~= text.take(
                done.consumed as int,
            ));
        },
        _ => {},
    }
}

/// A punctuation character alone yields its token, whose lexeme is the
/// character, and then the end marker.
pub proof fn punctuation_alone(c: char, kind: TokenKind)
    requires
        class_of(c) == CharClass::Punctuation(kind),
    ensures
        scan(seq![c]).events == seq![
            EventView::Token(TokenView { kind, lexeme: seq![c], literal: None }),
            EventView::Token(TokenView::eof()),
        ],
        scan(seq![c]).state == ScanState::initial(),
{
    let text = seq![c];
    reveal_with_fuel(scan_from, 2);
    assert(text.skip(1) =~= Seq::<char>::empty());
    assert(kind.fixed_lexeme() =~= seq![c]);
    assert(scan(text).events =~= seq![
        EventView::Token(TokenView { kind, lexeme: seq![c], literal: None }),
        EventView::Token(TokenView::eof()),
    ]);
}

/// An operator character with `=` right behind it yields the token of the
/// pair and the scan goes on behind the pair; otherwise it yields the token of
/// the character alone and the scan goes on behind the character.
pub proof fn operator_pairs_with_equal_sign(
    text: Seq<char>,
    state: ScanState,
    single: TokenKind,
    paired: TokenKind,
)
    requires
        text.len() > 0,
        class_of(text[0]) == (CharClass::Operator { single, paired }),
    ensures
        text.len() > 1 && text[1] == '=' ==> scan_from(text, state) == (ScanView {
            events: seq![
                EventView::Token(
                    TokenView { kind: paired, lexeme: seq![text[0], '='], literal: None },
                ),
            ] + scan_from(text.skip(2), state).events,
            state: scan_from(text.skip(2), state).state,
        }),
        !(text.len() > 1 && text[1] == '=') ==> scan_from(text, state) == (ScanView {
            events: seq![
                EventView::Token(TokenView { kind: single, lexeme: seq![text[0]], literal: None }),
            ] + scan_from(text.skip(1), state).events,
            state: scan_from(text.skip(1), state).state,
        }),
{
    assert(paired.fixed_lexeme() =~= seq![text[0], '=']);
    assert(single.fixed_lexeme() =~= seq![text[0]]);
}

/// Where `stop` does not occur in `body` and the text behind `body` is empty
/// or starts with `stop`, the run up to `stop` is `body`.
pub proof fn run_until_spans(body: Seq<char>, behind: Seq<char>, stop: char)
    requires
        forall|i: int| 0 <= i < body.len() ==> body[i] != stop,
        behind.len() == 0 || behind[0] == stop,
    ensures
        run_until(body + behind, stop) == body.len(),
    decreases body.len(),
{
    if body.len() == 0 {
        assert(body + behind =~= behind);
    } else {
        assert((body + behind).skip(1) =~= body.skip(1) + behind);
        run_until_spans(body.skip(1), behind, stop);
    }
}

/// A comment yields nothing: from `//` to the end of the line the scan is
/// silent, and the line feed that ends the comment counts as one line.
pub proof fn comment_is_skipped(body: Seq<char>, behind: Seq<char>, state: ScanState)
    requires
        forall|i: int| 0 <= i < body.len() ==> body[i] != '\n',
    ensures
        scan_from(seq!['/', '/'] + body + seq!['\n'] + behind, state) == scan_from(
            behind,
            state.advanced(1),
        ),
{
    let text = seq!['/', '/'] + body + seq!['\n'] + behind;
    let line = seq!['\n'] + behind;
    assert(text[0] == '/');
    assert(text.skip(1)[0] == '/');
    assert(text.skip(1).skip(1) =~= body + line);
    run_until_spans(body, line, '\n');
    let first = step(text, state);
    assert(first.consumed == 2 + body.len());
    assert(first.emitted is None);
    assert(first.state == state);
    assert(text.skip(first.consumed as int) =~= line);
    assert(scan_from(text, state) == scan_from(line, state));
    let second = step(line, state);
    assert(line[0] == '\n');
    assert(second.consumed == 1);
    assert(second.emitted is None);
    assert(second.state == state.advanced(1));
    assert(line.skip(1) =~= behind);
    assert(scan_from(line, state) == scan_from(behind, state.advanced(1)));
}

/// A comment that the end of the text cuts short yields nothing either.
pub proof fn comment_at_end_is_skipped(body: Seq<char>, state: ScanState)
    requires
        forall|i: int| 0 <= i < body.len() ==> body[i] != '\n',
    ensures
        scan_from(seq!['/', '/'] + body, state) == scan_from(Seq::empty(), state),
{
    let text = seq!['/', '/'] + body;
    assert(text[0] == '/');
    assert(text.skip(1)[0] == '/');
    assert(text.skip(1).skip(1) =~= body + Seq::<char>::empty());
    run_until_spans(body, Seq::empty(), '\n');
    let first = step(text, state);
    assert(first.consumed == 2 + body.len());
    assert(first.emitted is None);
    assert(first.state == state);
    assert(text.skip(first.consumed as int) =~= Seq::<char>::empty());
}

/// The end marker is printed as `EOF  null`: its lexeme is empty.
pub proof fn end_marker_line()
    ensures
        TokenView::eof().line() == "EOF  null"@,
{
    reveal_strlit("EOF");
    reveal_strlit("EOF  null");
    assert(TokenView::eof().line() =~= "EOF  null"@);
}

/// The last line of the output of every scan is that of the end marker,
/// whether or not the scan reported an error.
pub proof fn output_ends_with_marker(text: Seq<char>)
    ensures
        scan(text).output_lines().len() > 0,
        scan(text).output_lines().last() == "EOF  null"@,
{
    scan_ends_with_marker(text, ScanState::initial());
    end_marker_line();
}

/// Scanning the same text again gives the same result, line for line: a scan
/// depends on the text alone.
pub proof fn rescan_gives_same_output(text: Seq<char>, first: ScanOutput, second: ScanOutput)
    requires
        first@ == scan(text),
        second@ == scan(text),
    ensures
        first@.events == second@.events,
        first@.output_lines() == second@.output_lines(),
        first@.error_lines() == second@.error_lines(),
        first.line == second.line,
        first.had_error == second.had_error,
{
}

} // verus!
