//! The lookahead cursor over the characters of the source text.
//!
//! The cursor holds a `multipeek::MultiPeek` over `std::str::Chars`. Verus does
//! not look inside it: the private items of this module say what its
//! operations do to the characters that are still to come, and `Cursor` hands
//! them on under its view.

use multipeek::MultiPeek;
use std::str::Chars;
use vstd::prelude::*;
use vstd::std_specs::iter::IteratorSpec;

verus! {

/// `multipeek::MultiPeek`, taken as it is: nothing is said of its fields.
#[verifier::external_type_specification]
#[verifier::external_body]
#[verifier::reject_recursive_types(I)]
pub struct ExMultiPeek<I: Iterator>(MultiPeek<I>);

/// The characters that the cursor has not handed out yet, next one first.
pub uninterp spec fn pending(cursor: MultiPeek<Chars<'_>>) -> Seq<char>;

/// `multipeek::multipeek`: wraps the character iterator without consuming
/// anything, so everything the iterator would still yield is pending.
#[verifier::external_body]
fn cursor_over<'a>(chars: Chars<'a>) -> (cursor: MultiPeek<Chars<'a>>)
    ensures
        pending(cursor) == chars.remaining(),
{
    multipeek::multipeek(chars)
}

/// `MultiPeek::next`: hands out the first pending character and drops it from
/// what is pending; with nothing pending it returns `None` and nothing changes.
#[verifier::external_body]
fn cursor_next(cursor: &mut MultiPeek<Chars<'_>>) -> (next: Option<char>)
    ensures
        pending(*old(cursor)).len() == 0 ==> next.is_none() && pending(*final(cursor)) == pending(
            *old(cursor),
        ),
        pending(*old(cursor)).len() > 0 ==> next == Some(pending(*old(cursor))[0]) && pending(
            *final(cursor),
        ) == pending(*old(cursor)).skip(1),
{
    cursor.next()
}

/// `MultiPeek::peek`: shows the first pending character, if there is one, and
/// leaves what is pending as it was.
#[verifier::external_body]
fn cursor_peek(cursor: &mut MultiPeek<Chars<'_>>) -> (seen: Option<char>)
    ensures
        pending(*final(cursor)) == pending(*old(cursor)),
        seen == if pending(*old(cursor)).len() > 0 {
            Some(pending(*old(cursor))[0])
        } else {
            None
        },
{
    cursor.peek().copied()
}

/// `MultiPeek::peek_nth`: shows the pending character at offset `n`, counted
/// from zero, if that many are pending, and leaves what is pending as it was.
#[verifier::external_body]
fn cursor_peek_nth(cursor: &mut MultiPeek<Chars<'_>>, n: usize) -> (seen: Option<char>)
    ensures
        pending(*final(cursor)) == pending(*old(cursor)),
        seen == if n < pending(*old(cursor)).len() {
            Some(pending(*old(cursor))[n as int])
        } else {
            None
        },
{
    cursor.peek_nth(n).copied()
}

/// A position in the source text that can look ahead without moving.
///
/// Its view is the text that is still to be read.
pub struct Cursor<'a> {
    lexemes: MultiPeek<Chars<'a>>,
}

impl<'a> View for Cursor<'a> {
    type V = Seq<char>;

    closed spec fn view(&self) -> Seq<char> {
        pending(self.lexemes)
    }
}

impl<'a> Cursor<'a> {
    /// A cursor at the start of `source`.
    pub fn new(source: &'a str) -> (cursor: Cursor<'a>)
        ensures
            cursor@ == source@,
    {
        broadcast use vstd::string::group_string_axioms;

        Cursor { lexemes: cursor_over(source.chars()) }
    }

    /// Reads the next character and moves past it; `None` at the end of the
    /// text.
    pub fn next(&mut self) -> (next: Option<char>)
        ensures
            next == if old(self)@.len() > 0 {
                Some(old(self)@[0])
            } else {
                None
            },
            final(self)@ == if old(self)@.len() > 0 {
                old(self)@.skip(1)
            } else {
                old(self)@
            },
    {
        cursor_next(&mut self.lexemes)
    }

    /// The next character, without moving; `None` at the end of the text.
    pub fn peek(&mut self) -> (seen: Option<char>)
        ensures
            final(self)@ == old(self)@,
            seen == if old(self)@.len() > 0 {
                Some(old(self)@[0])
            } else {
                None
            },
    {
        cursor_peek(&mut self.lexemes)
    }

    /// The character `n` places after the next one, without moving; `None`
    /// where the text ends before it.
    pub fn peek_nth(&mut self, n: usize) -> (seen: Option<char>)
        ensures
            final(self)@ == old(self)@,
            seen == if n < old(self)@.len() {
                Some(old(self)@[n as int])
            } else {
                None
            },
    {
        cursor_peek_nth(&mut self.lexemes, n)
    }
}

} // verus!
