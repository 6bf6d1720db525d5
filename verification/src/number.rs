//! Number literals.
//!
//! A number is a run of digits, optionally followed by a point and a further
//! run of digits. The point belongs to the number only where a digit follows
//! it, and a number holds at most one point.

use crate::chars::is_digit;
use crate::cursor::Cursor;
use crate::text::string_of;
use crate::token::{Token, TokenKind, TokenView};
use vstd::prelude::*;

verus! {

/// The length of the longest prefix of `s` that holds digits only.
pub open spec fn digit_run(s: Seq<char>) -> nat
    decreases s.len(),
{
    if s.len() > 0 && is_digit(s[0]) {
        1 + digit_run(s.skip(1))
    } else {
        0
    }
}

/// Whether the leading digits of `s` are followed by a point and a digit.
pub open spec fn has_fraction(s: Seq<char>) -> bool {
    let whole = digit_run(s) as int;
    whole + 1 < s.len() && s[whole] == '.' && is_digit(s[whole + 1])
}

/// How many characters of `rest`, the text after the first digit of a number,
/// belong to that number.
pub open spec fn number_extent(rest: Seq<char>) -> nat {
    let whole = digit_run(rest);
    if has_fraction(rest) {
        whole + 1 + digit_run(rest.skip(whole as int + 1))
    } else {
        whole
    }
}

/// `s` without the zeros at its end.
pub open spec fn strip_trailing_zeros(s: Seq<char>) -> Seq<char>
    decreases s.len(),
{
    if s.len() > 0 && s.last() == '0' {
        strip_trailing_zeros(s.drop_last())
    } else {
        s
    }
}

/// The value of a number as it is displayed: a number without a point gets
/// `.0` appended, one with a point loses the zeros at its end.
pub open spec fn number_literal(lexeme: Seq<char>, with_point: bool) -> Seq<char> {
    if with_point {
        strip_trailing_zeros(lexeme)
    } else {
        lexeme + seq!['.', '0']
    }
}

/// The token of the number that starts with `first` and goes on in `rest`.
pub open spec fn number_token(first: char, rest: Seq<char>) -> TokenView {
    let lexeme = seq![first] + rest.take(number_extent(rest) as int);
    TokenView {
        kind: TokenKind::Number,
        lexeme,
        literal: Some(number_literal(lexeme, has_fraction(rest))),
    }
}

/// A run of digits ends where the text ends or a character is no digit.
pub proof fn digit_run_bounds(s: Seq<char>)
    ensures
        digit_run(s) <= s.len(),
        forall|i: int| 0 <= i < digit_run(s) ==> is_digit(#[trigger] s[i]),
        digit_run(s) < s.len() ==> !is_digit(s[digit_run(s) as int]),
    decreases s.len(),
{
    if s.len() > 0 && is_digit(s[0]) {
        let tail = s.skip(1);
        digit_run_bounds(tail);
        assert forall|i: int| 0 <= i < digit_run(s) implies is_digit(#[trigger] s[i]) by {
            if i > 0 {
                assert(s[i] == tail[i - 1]);
            }
        }
        if digit_run(s) < s.len() {
        }
    }
}

/// A number never reaches beyond the text it is read from.
pub proof fn number_extent_bounds(rest: Seq<char>)
    ensures
        number_extent(rest) <= rest.len(),
{
    digit_run_bounds(rest);
    if has_fraction(rest) {
        digit_run_bounds(rest.skip(digit_run(rest) as int + 1));
    }
}

/// Moves the cursor past the digits in front of it and appends them to `text`.
pub fn take_digits(lexemes: &mut Cursor<'_>, text: &mut Vec<char>)
    ensures
        final(lexemes)@ == old(lexemes)@.skip(digit_run(old(lexemes)@) as int),
        final(text)@ == old(text)@ + old(lexemes)@.take(digit_run(old(lexemes)@) as int),
{
    let ghost start = lexemes@;
    let ghost mut taken: nat = 0;
    proof {
        digit_run_bounds(start);
        assert(start.skip(0) =~= start);
    }
    loop
        invariant
            taken <= start.len(),
            lexemes@ == start.skip(taken as int),
            text@ == old(text)@ + start.take(taken as int),
            digit_run(start) == taken + digit_run(start.skip(taken as int)),
        ensures
            lexemes@ == start.skip(digit_run(start) as int),
            text@ == old(text)@ + start.take(digit_run(start) as int),
        decreases start.len() - taken,
    {
        match lexemes.peek() {
            Some(peeked) if peeked.is_ascii_digit() => {
                let _ = lexemes.next();
                text.push(peeked);
                proof {
                    assert(start.take(taken as int).push(start[taken as int]) =~= start.take(
                        taken as int + 1,
                    ));
                    assert((old(text)@ + start.take(taken as int)).push(start[taken as int])
                        =~= old(text)@ + start.take(taken as int + 1));
                    taken = taken + 1;
                }
            },
            _ => {
                break ;
            },
        }
    }
}

/// The text of `chars` without the zeros at its end.
pub fn strip_zeros(chars: &Vec<char>) -> (text: String)
    ensures
        text@ == strip_trailing_zeros(chars@),
{
    let mut end: usize = chars.len();
    proof {
        assert(chars@.take(end as int) =~= chars@);
    }
    while end > 0 && chars[end - 1] == '0'
        invariant
            end <= chars.len(),
            strip_trailing_zeros(chars@) == strip_trailing_zeros(chars@.take(end as int)),
        decreases end,
    {
        proof {
            assert(chars@.take(end as int).drop_last() =~= chars@.take(end - 1));
        }
        end -= 1;
    }
    let mut text = String::new();
    let mut i: usize = 0;
    while i < end
        invariant
            i <= end <= chars.len(),
            text@ == chars@.take(i as int),
        decreases end - i,
    {
        text.push(chars[i]);
        i += 1;
    }
    text
}

/// Reads the rest of a number whose first digit, `other_lexeme`, the caller
/// has read already, and makes its token.
///
/// The cursor moves past the number in every case. With `had_error` set the
/// number is read and dropped.
pub fn number_tokenizer(had_error: bool, other_lexeme: char, lexemes: &mut Cursor<'_>) -> (token:
    Option<Token>)
    ensures
        final(lexemes)@ == old(lexemes)@.skip(number_extent(old(lexemes)@) as int),
        match token {
            Some(number) => !had_error && number@ == number_token(other_lexeme, old(lexemes)@),
            None => had_error,
        },
{
    let ghost rest = lexemes@;
    let ghost whole = digit_run(rest) as int;
    let mut number_literal: Vec<char> = Vec::new();
    number_literal.push(other_lexeme);
    take_digits(lexemes, &mut number_literal);
    proof {
        digit_run_bounds(rest);
    }

    let mut with_radix_point = false;
    let at_point = match lexemes.peek() {
        Some(peeked) => peeked == '.',
        None => false,
    };
    if at_point {
        let digit_follows = match lexemes.peek_nth(1) {
            Some(after) => after.is_ascii_digit(),
            None => false,
        };
        if digit_follows {
            let _ = lexemes.next();
            number_literal.push('.');
            with_radix_point = true;
            proof {
                assert(rest.skip(whole).skip(1) =~= rest.skip(whole + 1));
            }
            take_digits(lexemes, &mut number_literal);
            proof {
                let tail = rest.skip(whole + 1);
                let fraction = digit_run(tail) as int;
                digit_run_bounds(tail);
                assert((seq![other_lexeme] + rest.take(whole)).push('.') + tail.take(
                    fraction,
                ) =~= seq![other_lexeme] + rest.take(whole + 1 + fraction));
            }
        }
    }

    if had_error {
        return None;
    }
    // A number without a point is displayed with one decimal digit.
    let literal = if with_radix_point {
        strip_zeros(&number_literal)
    } else {
        let mut literal = string_of(&number_literal);
        literal.push('.');
        literal.push('0');
        proof {
            assert(number_literal@.push('.').push('0') =~= number_literal@ + seq!['.', '0']);
        }
        literal
    };
    Some(Token { kind: TokenKind::Number, lexeme: string_of(&number_literal), literal: Some(literal) })
}

} // verus!
