//! Events: what a scan hands out, in the order in which it found them.

use crate::report::{Diagnostic, DiagnosticView};
use crate::token::{Token, TokenView};
use vstd::prelude::*;

verus! {

/// An event as the contracts see it.
pub enum EventView {
    Token(TokenView),
    Diagnostic(DiagnosticView),
}

/// One thing that the scanner found: a token for the output, or a diagnostic
/// for the error stream.
#[derive(Clone, Debug, PartialEq, Eq)]
pub enum Event {
    Token(Token),
    Diagnostic(Diagnostic),
}

impl View for Event {
    type V = EventView;

    open spec fn view(&self) -> EventView {
        match self {
            Event::Token(token) => EventView::Token(token@),
            Event::Diagnostic(diagnostic) => EventView::Diagnostic(diagnostic@),
        }
    }
}

impl EventView {
    /// The printed form of the event.
    pub open spec fn line(self) -> Seq<char> {
        match self {
            EventView::Token(token) => token.line(),
            EventView::Diagnostic(diagnostic) => diagnostic.line_text(),
        }
    }
}

impl Event {
    /// The printed form of the event: a token's line or a diagnostic's.
    pub fn to_line(&self) -> (line: String)
        ensures
            line@ == self@.line(),
    {
        match self {
            Event::Token(token) => token.to_line(),
            Event::Diagnostic(diagnostic) => diagnostic.to_line(),
        }
    }
}

/// The view of an event that may be missing.
pub open spec fn emitted(event: Option<Event>) -> Option<EventView> {
    match event {
        Some(event) => Some(event@),
        None => None,
    }
}

/// The views of a list of events.
pub open spec fn views(events: Seq<Event>) -> Seq<EventView> {
    events.map_values(|event: Event| event@)
}

} // verus!
