use vstd::prelude::*;

use crate::text::push_char;

verus! {

/// Black, in the 256-color palette.
pub const BLACK: u8 = 0;

/// Maroon, in the 256-color palette.
pub const MAROON: u8 = 1;

/// Green, in the 256-color palette.
pub const GREEN: u8 = 2;

/// Olive, in the 256-color palette.
pub const OLIVE: u8 = 3;

/// Navy, in the 256-color palette.
pub const NAVY: u8 = 4;

/// Purple, in the 256-color palette.
pub const PURPLE: u8 = 5;

/// Teal, in the 256-color palette.
pub const TEAL: u8 = 6;

/// Silver, in the 256-color palette.
pub const SILVER: u8 = 7;

/// Gray, in the 256-color palette.
pub const GRAY: u8 = 8;

/// Red, in the 256-color palette.
pub const RED: u8 = 9;

/// Lime, in the 256-color palette.
pub const LIME: u8 = 10;

/// Yellow, in the 256-color palette.
pub const YELLOW: u8 = 11;

/// Blue, in the 256-color palette.
pub const BLUE: u8 = 12;

/// Fuchsia, in the 256-color palette.
pub const FUCHSIA: u8 = 13;

/// Aqua, in the 256-color palette.
pub const AQUA: u8 = 14;

/// White, in the 256-color palette.
pub const WHITE: u8 = 15;

/// The character of a decimal digit.
pub open spec fn digit_char(d: int) -> char {
    if d == 0 {
        '0'
    } else if d == 1 {
        '1'
    } else if d == 2 {
        '2'
    } else if d == 3 {
        '3'
    } else if d == 4 {
        '4'
    } else if d == 5 {
        '5'
    } else if d == 6 {
        '6'
    } else if d == 7 {
        '7'
    } else if d == 8 {
        '8'
    } else {
        '9'
    }
}

/// `n` written in decimal, without leading zeros.
pub open spec fn decimal(n: nat) -> Seq<char>
    decreases n,
{
    if n < 10 {
        seq![digit_char(n as int)]
    } else {
        decimal(n / 10).push(digit_char((n % 10) as int))
    }
}

/// The escape sequence that selects a graphic rendition with parameter `p`.
pub open spec fn sgr(p: Seq<char>) -> Seq<char> {
    seq!['\x1B', '['] + p + seq!['m']
}

/// The escape sequence that resets all styles.
pub open spec fn reset() -> Seq<char> {
    sgr(seq!['0'])
}

/// The parameter that sets a palette color: `kind` is `'3'` for the text
/// color and `'4'` for the background.
pub open spec fn color_param(kind: char, color: u8) -> Seq<char> {
    seq![kind, '8', ';', '5', ';'] + decimal(color as nat)
}

fn push_digit(s: &mut String, d: u8)
    requires
        d < 10,
    ensures
        final(s)@ == old(s)@.push(digit_char(d as int)),
{
    let c = if d == 0 {
        '0'
    } else if d == 1 {
        '1'
    } else if d == 2 {
        '2'
    } else if d == 3 {
        '3'
    } else if d == 4 {
        '4'
    } else if d == 5 {
        '5'
    } else if d == 6 {
        '6'
    } else if d == 7 {
        '7'
    } else if d == 8 {
        '8'
    } else {
        '9'
    };
    push_char(s, c);
}

fn push_decimal(s: &mut String, n: u8)
    ensures
        final(s)@ == old(s)@ + decimal(n as nat),
{
    let ghost m = n as nat;
    if n >= 100 {
        push_digit(s, n / 100);
        push_digit(s, (n / 10) % 10);
        proof {
            assert((m / 10) / 10 == m / 100);
            assert(decimal(m / 100) == seq![digit_char((m / 100) as int)]);
            assert(decimal(m / 10) == decimal(m / 100).push(digit_char(((m / 10) % 10) as int)));
        }
    } else if n >= 10 {
        push_digit(s, n / 10);
        assert(decimal(m / 10) == seq![digit_char((m / 10) as int)]);
    }
    push_digit(s, n % 10);
    assert(final(s)@ =~= old(s)@ + decimal(m));
}

/// Push the escape sequence that selects style `code` (a single digit).
fn push_style(s: &mut String, code: char)
    ensures
        final(s)@ == old(s)@ + sgr(seq![code]),
{
    push_char(s, '\x1B');
    push_char(s, '[');
    push_char(s, code);
    push_char(s, 'm');
    assert(final(s)@ =~= old(s)@ + sgr(seq![code]));
}

/// Push the escape sequence that sets a palette color.
fn push_color(s: &mut String, kind: char, color: u8)
    ensures
        final(s)@ == old(s)@ + sgr(color_param(kind, color)),
{
    push_char(s, '\x1B');
    push_char(s, '[');
    push_char(s, kind);
    push_char(s, '8');
    push_char(s, ';');
    push_char(s, '5');
    push_char(s, ';');
    push_decimal(s, color);
    push_char(s, 'm');
    assert(final(s)@ =~= old(s)@ + sgr(color_param(kind, color)));
}

/// Text with styles applied to it, each new style wrapped around the ones
/// before, ended by a reset.
pub struct FontBuilder {
    buffer: String,
}

impl FontBuilder {
    pub closed spec fn spec_buffer(&self) -> Seq<char> {
        self.buffer@
    }

    /// Start styling `text`.
    pub fn new(text: &str) -> (r: Self)
        ensures
            r.spec_buffer() == text@ + reset(),
    {
        let mut buffer = String::from_str(text);
        push_style(&mut buffer, '0');
        Self { buffer }
    }

    fn wrap_style(self, code: char) -> (r: Self)
        ensures
            r.spec_buffer() == sgr(seq![code]) + self.spec_buffer(),
    {
        let mut buffer = String::new();
        push_style(&mut buffer, code);
        buffer.append(self.buffer.as_str());
        Self { buffer }
    }

    /// Apply bold.
    pub fn bold(self) -> (r: Self)
        ensures
            r.spec_buffer() == sgr(seq!['1']) + self.spec_buffer(),
    {
        self.wrap_style('1')
    }

    /// Apply faint.
    pub fn faint(self) -> (r: Self)
        ensures
            r.spec_buffer() == sgr(seq!['2']) + self.spec_buffer(),
    {
        self.wrap_style('2')
    }

    /// Apply italic.
    pub fn italic(self) -> (r: Self)
        ensures
            r.spec_buffer() == sgr(seq!['3']) + self.spec_buffer(),
    {
        self.wrap_style('3')
    }

    /// Apply underline.
    pub fn underline(self) -> (r: Self)
        ensures
            r.spec_buffer() == sgr(seq!['4']) + self.spec_buffer(),
    {
        self.wrap_style('4')
    }

    /// Apply inverse.
    pub fn inverse(self) -> (r: Self)
        ensures
            r.spec_buffer() == sgr(seq!['7']) + self.spec_buffer(),
    {
        self.wrap_style('7')
    }

    /// Apply strikethrough.
    pub fn strikethrough(self) -> (r: Self)
        ensures
            r.spec_buffer() == sgr(seq!['9']) + self.spec_buffer(),
    {
        self.wrap_style('9')
    }

    /// Apply a text color.
    pub fn fill(self, color: u8) -> (r: Self)
        ensures
            r.spec_buffer() == sgr(color_param('3', color)) + self.spec_buffer(),
    {
        let mut buffer = String::new();
        push_color(&mut buffer, '3', color);
        buffer.append(self.buffer.as_str());
        Self { buffer }
    }

    /// Apply a background color.
    pub fn background(self, color: u8) -> (r: Self)
        ensures
            r.spec_buffer() == sgr(color_param('4', color)) + self.spec_buffer(),
    {
        let mut buffer = String::new();
        push_color(&mut buffer, '4', color);
        buffer.append(self.buffer.as_str());
        Self { buffer }
    }

    /// Return the styled text.
    pub fn to_string(self) -> (r: String)
        ensures
            r@ == self.spec_buffer(),
    {
        self.buffer
    }
}

/// Return `text` in a text color.
pub fn fill(text: &str, color: u8) -> (r: String)
    ensures
        r@ == sgr(color_param('3', color)) + text@ + reset(),
{
    let mut r = String::new();
    push_color(&mut r, '3', color);
    r.append(text);
    push_style(&mut r, '0');
    r
}

/// Return `text` on a background color.
pub fn background(text: &str, color: u8) -> (r: String)
    ensures
        r@ == sgr(color_param('4', color)) + text@ + reset(),
{
    let mut r = String::new();
    push_color(&mut r, '4', color);
    r.append(text);
    push_style(&mut r, '0');
    r
}

/// Return `text` in a text color on a background color.
pub fn fill_background(text: &str, fill_color: u8, background_color: u8) -> (r: String)
    ensures
        r@ == sgr(color_param('3', fill_color)) + sgr(color_param('4', background_color)) + text@
            + reset(),
{
    let mut r = String::new();
    push_color(&mut r, '3', fill_color);
    push_color(&mut r, '4', background_color);
    r.append(text);
    push_style(&mut r, '0');
    r
}

} // verus!
