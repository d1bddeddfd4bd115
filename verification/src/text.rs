//! Text handling: the two `String` operations that typing needs, and the
//! decimal rendering used for default names.

use vstd::prelude::*;

verus! {

/// `String::push` appends exactly the given character.
pub assume_specification[ String::push ](s: &mut String, ch: char)
    ensures
        final(s)@ == old(s)@.push(ch),
;

/// `String::pop` removes and returns the last character, and leaves an empty
/// string untouched.
pub assume_specification[ String::pop ](s: &mut String) -> (r: Option<char>)
    ensures
        old(s)@.len() == 0 ==> r is None && final(s)@ == old(s)@,
        old(s)@.len() > 0 ==> r == Some(old(s)@.last()) && final(s)@ == old(s)@.drop_last(),
;

/// The character of a single decimal digit.
pub open spec fn digit_char(d: int) -> char
    recommends
        0 <= d <= 9,
{
    if d == 0 {
        '0'
    } else if d == 1 {
        '1'
    } else if d == 2 {
        '2'
    } else if d == 3 {
        '3'
    } else if d == 4 {
        '4'
    } else if d == 5 {
        '5'
    } else if d == 6 {
        '6'
    } else if d == 7 {
        '7'
    } else if d == 8 {
        '8'
    } else {
        '9'
    }
}

/// The decimal digits of `n`, most significant first, without leading zeros
/// (`0` itself is the single digit `0`).
pub open spec fn decimal(n: nat) -> Seq<char>
    decreases n,
{
    if n < 10 {
        seq![digit_char(n as int)]
    } else {
        decimal(n / 10).push(digit_char((n % 10) as int))
    }
}

/// The text after one keystroke: backspace drops the last character (if
/// any), every other character is appended.
pub open spec fn typed(text: Seq<char>, key: Key) -> Seq<char> {
    match key {
        Key::Backspace => if text.len() > 0 {
            text.drop_last()
        } else {
            text
        },
        Key::Char(c) => text.push(c),
    }
}

/// One keystroke as the text editor sees it.
#[derive(Clone, Copy, Debug, PartialEq, Eq, Structural)]
pub enum Key {
    Char(char),
    Backspace,
}

fn digit(d: u128) -> (c: char)
    requires
        d <= 9,
    ensures
        c == digit_char(d as int),
{
    if d == 0 {
        '0'
    } else if d == 1 {
        '1'
    } else if d == 2 {
        '2'
    } else if d == 3 {
        '3'
    } else if d == 4 {
        '4'
    } else if d == 5 {
        '5'
    } else if d == 6 {
        '6'
    } else if d == 7 {
        '7'
    } else if d == 8 {
        '8'
    } else {
        '9'
    }
}

/// Appends the decimal digits of `n` to `out`.
pub fn push_decimal(out: &mut String, n: u128)
    ensures
        final(out)@ == old(out)@ + decimal(n as nat),
    decreases n,
{
    if n < 10 {
        out.push(digit(n));
        assert(old(out)@.push(digit_char(n as int)) =~= old(out)@ + decimal(n as nat));
    } else {
        push_decimal(out, n / 10);
        out.push(digit(n % 10));
        assert((old(out)@ + decimal((n / 10) as nat)).push(digit_char((n % 10) as int))
            =~= old(out)@ + decimal(n as nat));
    }
}

/// Applies one keystroke to `text`.
pub fn apply_key(text: &mut String, key: Key)
    ensures
        final(text)@ == typed(old(text)@, key),
{
    match key {
        Key::Backspace => {
            let _ = text.pop();
        },
        Key::Char(c) => {
            text.push(c);
        },
    }
}

} // verus!
