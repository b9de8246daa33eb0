//! Writing numbers and pieces of text at the end of a string.

use vstd::prelude::*;

verus! {

/// The character of a decimal digit.
pub open spec fn digit(d: int) -> char {
    ((0x30 + d) as u8) as char
}

/// The character of a hexadecimal digit, in lower case.
pub open spec fn hex_digit(d: int) -> char {
    if d < 10 {
        digit(d)
    } else {
        ((0x57 + d) as u8) as char
    }
}

/// A number in decimal, without leading zeros.
pub open spec fn decimal(n: nat) -> Seq<char>
    decreases n,
{
    if n < 10 {
        seq![digit(n as int)]
    } else {
        decimal(n / 10).push(digit((n % 10) as int))
    }
}

/// A number in decimal, with a minus sign if it is negative.
pub open spec fn signed(n: int) -> Seq<char> {
    if n < 0 {
        seq!['-'] + decimal((-n) as nat)
    } else {
        decimal(n as nat)
    }
}

/// A number in hexadecimal, lower case, without leading zeros.
pub open spec fn hex(n: nat) -> Seq<char>
    decreases n,
{
    if n < 16 {
        seq![hex_digit(n as int)]
    } else {
        hex(n / 16).push(hex_digit((n % 16) as int))
    }
}

/// A byte as two hexadecimal digits, lower case.
pub open spec fn hex_byte(b: u8) -> Seq<char> {
    seq![hex_digit(b as int / 16), hex_digit(b as int % 16)]
}

/// A pair of bytes as a tuple: `(1, 2)`.
pub open spec fn pair_text(a: u8, b: u8) -> Seq<char> {
    seq!['('] + decimal(a as nat) + seq![',', ' '] + decimal(b as nat) + seq![')']
}

/// The character of a code, or `?` where the code is no character.
pub open spec fn label_char(code: int) -> char {
    if 0 <= code <= 0xD7FF || 0xE000 <= code <= 0x10FFFF {
        code as char
    } else {
        '?'
    }
}

/// `char::from_u32`: the character of a code, if the code is a Unicode
/// scalar value, else nothing.
pub assume_specification[ char::from_u32 ](code: u32) -> (c: Option<char>)
    ensures
        match c {
            Some(c) => (code <= 0xD7FF || 0xE000 <= code <= 0x10FFFF) && c == code as char,
            None => !(code <= 0xD7FF || 0xE000 <= code <= 0x10FFFF),
        },
;

/// `String::push`: the string with the character added at its end.
pub assume_specification[ String::push ](text: &mut String, c: char)
    ensures
        final(text)@ == old(text)@.push(c),
;

/// The code of a character.
pub fn code_of(c: char) -> (code: u32)
    ensures
        code == c as u32,
{
    c as u32
}

/// Adds a piece of text to a string.
pub fn push_str(out: &mut String, text: &str)
    ensures
        final(out)@ == old(out)@ + text@,
{
    for c in it: text.chars()
        invariant
            it.seq() == text@,
            out@ == old(out)@ + text@.subrange(0, it.index() as int),
    {
        out.push(c);
        assert(out@ =~= old(out)@ + text@.subrange(0, it.index() + 1));
    }
    assert(text@.subrange(0, text@.len() as int) =~= text@);
}

/// The character of a decimal digit.
pub fn digit_char(d: u8) -> (c: char)
    requires
        d < 10,
    ensures
        c == digit(d as int),
{
    (0x30u8 + d) as char
}

/// The character of a hexadecimal digit.
pub fn hex_digit_char(d: u8) -> (c: char)
    requires
        d < 16,
    ensures
        c == hex_digit(d as int),
{
    if d < 10 {
        (0x30u8 + d) as char
    } else {
        (0x57u8 + d) as char
    }
}

/// Adds a number in decimal to a string.
pub fn push_decimal(out: &mut String, n: usize)
    ensures
        final(out)@ == old(out)@ + decimal(n as nat),
    decreases n,
{
    if n >= 10 {
        push_decimal(out, n / 10);
    }
    out.push(digit_char((n % 10) as u8));
    assert(out@ =~= old(out)@ + decimal(n as nat));
}

/// Adds a signed number in decimal to a string.
pub fn push_signed(out: &mut String, n: i8)
    ensures
        final(out)@ == old(out)@ + signed(n as int),
{
    if n < 0 {
        out.push('-');
        push_decimal(out, (0 - (n as i16)) as usize);
        assert(out@ =~= old(out)@ + signed(n as int));
    } else {
        push_decimal(out, n as usize);
    }
}

/// Adds a number in hexadecimal to a string.
pub fn push_hex(out: &mut String, n: u32)
    ensures
        final(out)@ == old(out)@ + hex(n as nat),
    decreases n,
{
    if n >= 16 {
        push_hex(out, n / 16);
    }
    out.push(hex_digit_char((n % 16) as u8));
    assert(out@ =~= old(out)@ + hex(n as nat));
}

/// Adds a byte as two hexadecimal digits to a string.
pub fn push_hex_byte(out: &mut String, b: u8)
    ensures
        final(out)@ == old(out)@ + hex_byte(b),
{
    out.push(hex_digit_char(b / 16));
    out.push(hex_digit_char(b % 16));
    assert(out@ =~= old(out)@ + hex_byte(b));
}

/// Adds a pair of bytes as a tuple to a string.
pub fn push_pair(out: &mut String, a: u8, b: u8)
    ensures
        final(out)@ == old(out)@ + pair_text(a, b),
{
    out.push('(');
    push_decimal(out, a as usize);
    out.push(',');
    out.push(' ');
    push_decimal(out, b as usize);
    out.push(')');
    assert(out@ =~= old(out)@ + pair_text(a, b));
}

} // verus!
