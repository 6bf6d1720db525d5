//! Diagnostics: the current line, the sticky error flag, and the messages.

use crate::text::{decimal, push_decimal};
use vstd::prelude::*;
use vstd::string::StringExecFns;

verus! {

/// The exit status of a run whose scan raised a diagnostic.
pub const EXIT_CODE_INVALID_CHARACTER: i32 = 65;

/// What the scanner can find wrong with the source text.
#[derive(Clone, Copy, Debug, PartialEq, Eq, Structural)]
pub enum ScanError {
    /// A character that starts no token and is not whitespace.
    UnexpectedCharacter(char),
    /// The source text ended inside a string literal.
    UnterminatedString,
}

impl ScanError {
    /// The message that describes the error.
    pub open spec fn message_spec(self) -> Seq<char> {
        match self {
            ScanError::UnexpectedCharacter(c) => "Unexpected character: "@.push(c),
            ScanError::UnterminatedString => "Unterminated string."@,
        }
    }

    /// The message that describes the error.
    pub fn message(self) -> (message: String)
        ensures
            message@ == self.message_spec(),
    {
        match self {
            ScanError::UnexpectedCharacter(c) => {
                let mut message = String::from_str("Unexpected character: ");
                message.push(c);
                message
            },
            ScanError::UnterminatedString => String::from_str("Unterminated string."),
        }
    }
}

/// A diagnostic as the contracts see it: the line is a natural number.
pub struct DiagnosticView {
    pub line: nat,
    pub error: ScanError,
}

impl DiagnosticView {
    /// The printed form of the diagnostic: `[line N] Error: ` and the message.
    pub open spec fn line_text(self) -> Seq<char> {
        "[line "@ + decimal(self.line) + "] Error: "@ + self.error.message_spec()
    }
}

/// An error together with the line on which it was found.
#[derive(Clone, Copy, Debug, PartialEq, Eq)]
pub struct Diagnostic {
    pub line: u128,
    pub error: ScanError,
}

impl View for Diagnostic {
    type V = DiagnosticView;

    open spec fn view(&self) -> DiagnosticView {
        DiagnosticView { line: self.line as nat, error: self.error }
    }
}

impl Diagnostic {
    /// The printed form of the diagnostic.
    pub fn to_line(&self) -> (text: String)
        ensures
            text@ == self@.line_text(),
    {
        let mut text = String::from_str("[line ");
        push_decimal(&mut text, self.line);
        text.append("] Error: ");
        let message = self.error.message();
        text.append(message.as_str());
        text
    }
}

/// The state that a scan carries along: the current line, counted from one,
/// and whether an error has been reported.
pub struct ScanState {
    pub line: nat,
    pub had_error: bool,
}

impl ScanState {
    /// The state in which every scan starts.
    pub open spec fn initial() -> ScanState {
        ScanState { line: 1, had_error: false }
    }

    /// The state after `n` more newlines.
    pub open spec fn advanced(self, n: nat) -> ScanState {
        ScanState { line: self.line + n, had_error: self.had_error }
    }

    /// The state after an error was reported.
    pub open spec fn failed(self) -> ScanState {
        ScanState { line: self.line, had_error: true }
    }
}

/// Keeps the current line and the error flag of a scan, and makes the
/// diagnostics. The flag is sticky: nothing clears it.
#[derive(Clone, Copy, Debug, PartialEq, Eq)]
pub struct Reporter {
    line: u128,
    had_error: bool,
}

impl View for Reporter {
    type V = ScanState;

    closed spec fn view(&self) -> ScanState {
        ScanState { line: self.line as nat, had_error: self.had_error }
    }
}

impl Reporter {
    /// A reporter on line one with no error.
    pub fn new() -> (reporter: Reporter)
        ensures
            reporter@ == ScanState::initial(),
    {
        Reporter { line: 1, had_error: false }
    }

    /// The current line.
    pub fn line(&self) -> (line: u128)
        ensures
            line == self@.line,
    {
        self.line
    }

    /// Whether an error has been reported.
    pub fn had_error(&self) -> (flag: bool)
        ensures
            flag == self@.had_error,
    {
        self.had_error
    }

    /// Counts one more line.
    pub fn advance_line(&mut self)
        requires
            old(self)@.line < u128::MAX,
        ensures
            final(self)@ == old(self)@.advanced(1),
    {
        self.line = self.line + 1;
    }

    /// Sets the error flag and makes the diagnostic for `error` on the
    /// current line.
    pub fn report_error(&mut self, error: ScanError) -> (diagnostic: Diagnostic)
        ensures
            final(self)@ == old(self)@.failed(),
            diagnostic@ == (DiagnosticView { line: old(self)@.line, error }),
    {
        self.had_error = true;
        Diagnostic { line: self.line, error }
    }
}

} // verus!
