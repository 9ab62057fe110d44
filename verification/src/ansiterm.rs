//! ANSI terminal escape codes. See:
//! - <https://en.wikipedia.org/wiki/ANSI_escape_code>
//! - <https://wiki.osdev.org/Terminals>

use vstd::prelude::*;

verus! {

pub const ANSI_ESCAPE: u8 = 27;

#[derive(Debug, Clone, Copy, PartialEq, Eq, Structural)]
pub enum Color {
    Black,
    Red,
    Green,
    Yellow,
    Blue,
    Magenta,
    Cyan,
    White,
}

/// Position of a color in the standard eight-color palette.
pub open spec fn color_index(c: Color) -> u8 {
    match c {
        Color::Black => 0,
        Color::Red => 1,
        Color::Green => 2,
        Color::Yellow => 3,
        Color::Blue => 4,
        Color::Magenta => 5,
        Color::Cyan => 6,
        Color::White => 7,
    }
}

impl Color {
    /// The graphic rendition code that selects the color for text: 30 plus
    /// the color's index.
    pub fn foreground_byte(self) -> (r: u8)
        ensures
            r == 30 + color_index(self),
    {
        match self {
            Color::Black => 30,
            Color::Red => 31,
            Color::Green => 32,
            Color::Yellow => 33,
            Color::Blue => 34,
            Color::Magenta => 35,
            Color::Cyan => 36,
            Color::White => 37,
        }
    }

    /// The graphic rendition code that selects the color for the
    /// background: 40 plus the color's index.
    pub fn background_byte(self) -> (r: u8)
        ensures
            r == 40 + color_index(self),
    {
        match self {
            Color::Black => 40,
            Color::Red => 41,
            Color::Green => 42,
            Color::Yellow => 43,
            Color::Blue => 44,
            Color::Magenta => 45,
            Color::Cyan => 46,
            Color::White => 47,
        }
    }
}

#[derive(Debug, Clone, Copy, PartialEq, Eq, Structural)]
pub enum SelectGraphicRendition {
    Reset,
    Bold,
    ForegroundColor(Color),
    BackgroundColor(Color),
    DefaultForegroundColor,
    DefaultBackgroundColor,
}

/// The ASCII digits of a two-digit number.
pub open spec fn two_digits(n: u8) -> Seq<u8> {
    seq![(0x30 + n / 10) as u8, (0x30 + n % 10) as u8]
}

/// The parameter of a graphic rendition, as ASCII text.
pub open spec fn rendition_code(sgr: SelectGraphicRendition) -> Seq<u8> {
    match sgr {
        SelectGraphicRendition::Reset => seq![0x30u8],
        SelectGraphicRendition::Bold => seq![0x31u8],
        SelectGraphicRendition::ForegroundColor(c) => two_digits((30 + color_index(c)) as u8),
        SelectGraphicRendition::BackgroundColor(c) => two_digits((40 + color_index(c)) as u8),
        SelectGraphicRendition::DefaultForegroundColor => two_digits(39),
        SelectGraphicRendition::DefaultBackgroundColor => two_digits(49),
    }
}

fn push_two_digits(out: &mut Vec<u8>, n: u8)
    requires
        n < 100,
    ensures
        final(out)@ == old(out)@ + two_digits(n),
{
    out.push(0x30 + n / 10);
    out.push(0x30 + n % 10);
}

impl SelectGraphicRendition {
    /// The rendition's text after the escape sequence's `ESC [`: its code
    /// and the final `m`.
    pub fn write_bytes(self, out: &mut Vec<u8>)
        ensures
            final(out)@ == old(out)@ + rendition_code(self) + seq![0x6Du8],
    {
        match self {
            SelectGraphicRendition::Reset => out.push(0x30),
            SelectGraphicRendition::Bold => out.push(0x31),
            SelectGraphicRendition::ForegroundColor(c) => push_two_digits(out, c.foreground_byte()),
            SelectGraphicRendition::BackgroundColor(c) => push_two_digits(out, c.background_byte()),
            SelectGraphicRendition::DefaultForegroundColor => push_two_digits(out, 39),
            SelectGraphicRendition::DefaultBackgroundColor => push_two_digits(out, 49),
        }
        out.push(0x6D);
    }
}

#[derive(Debug, Clone, Copy, PartialEq, Eq, Structural)]
pub enum AnsiEscapeSequence {
    SelectGraphicRendition(SelectGraphicRendition),
    MoveCursorTopLeft,
    ClearScreenFromCursorToEnd,
    ClearEntireLine,
}

/// The bytes of an escape sequence: `ESC [` and the command.
pub open spec fn escape_bytes(e: AnsiEscapeSequence) -> Seq<u8> {
    seq![ANSI_ESCAPE, 0x5Bu8] + match e {
        AnsiEscapeSequence::SelectGraphicRendition(sgr) => rendition_code(sgr) + seq![0x6Du8],
        AnsiEscapeSequence::MoveCursorTopLeft => seq![0x48u8],
        AnsiEscapeSequence::ClearScreenFromCursorToEnd => seq![0x4Au8],
        AnsiEscapeSequence::ClearEntireLine => seq![0x32u8, 0x4Bu8],
    }
}

impl AnsiEscapeSequence {
    /// The bytes that send the escape sequence to a terminal.
    pub fn to_bytes(self) -> (r: Vec<u8>)
        ensures
            r@ == escape_bytes(self),
    {
        let mut out: Vec<u8> = Vec::new();
        out.push(ANSI_ESCAPE);
        out.push(0x5B);
        let ghost start = out@;
        match self {
            AnsiEscapeSequence::SelectGraphicRendition(sgr) => sgr.write_bytes(&mut out),
            AnsiEscapeSequence::MoveCursorTopLeft => out.push(0x48),
            AnsiEscapeSequence::ClearScreenFromCursorToEnd => out.push(0x4A),
            AnsiEscapeSequence::ClearEntireLine => {
                out.push(0x32);
                out.push(0x4B);
            },
        }
        assert(out@ =~= escape_bytes(self));
        out
    }
}

/// Whether a byte is an ASCII decimal digit.
pub open spec fn is_ascii_digit(b: u8) -> bool {
    0x30 <= b <= 0x39
}

/// The number that ASCII decimal digits write.
pub open spec fn decimal_value(digits: Seq<u8>) -> int
    decreases digits.len(),
{
    if digits.len() == 0 {
        0
    } else {
        decimal_value(digits.drop_last()) * 10 + (digits.last() - 0x30)
    }
}

/// The numeric parameter of a graphic rendition (ECMA-48 "SGR"): 0 resets,
/// 1 is bold, 30 to 37 and 40 to 47 select a text and a background color of
/// the eight-color palette, 39 and 49 the default ones.
pub open spec fn sgr_parameter(sgr: SelectGraphicRendition) -> int {
    match sgr {
        SelectGraphicRendition::Reset => 0,
        SelectGraphicRendition::Bold => 1,
        SelectGraphicRendition::ForegroundColor(c) => 30 + color_index(c),
        SelectGraphicRendition::BackgroundColor(c) => 40 + color_index(c),
        SelectGraphicRendition::DefaultForegroundColor => 39,
        SelectGraphicRendition::DefaultBackgroundColor => 49,
    }
}

proof fn lemma_two_digits_value(n: u8)
    requires
        n < 100,
    ensures
        decimal_value(two_digits(n)) == n,
        is_ascii_digit(two_digits(n)[0]) && is_ascii_digit(two_digits(n)[1]),
{
    reveal_with_fuel(decimal_value, 3);
    let d = two_digits(n);
    assert(n / 10 < 10 && n % 10 < 10);
    assert(d[0] - 0x30 == n / 10 && d[1] - 0x30 == n % 10);
    assert(d.drop_last().drop_last().len() == 0);
    assert(d.drop_last().last() == d[0]);
    assert(decimal_value(d.drop_last()) == n / 10);
}

/// Every escape sequence is a control sequence of ECMA-48: `ESC [`, then
/// its parameter in ASCII decimal digits (none where the command's default
/// is meant), then the byte that names the command. A graphic rendition is
/// `m` with the rendition's number; moving the cursor to the top left is
/// `H` with no parameter (row 1, column 1); clearing from the cursor to the
/// end of the screen is `J` with no parameter (the default, 0, erases from
/// the cursor to the end; 1 would erase up to the cursor); clearing the
/// line is `K` with parameter 2 (the entire line).
pub proof fn lemma_escape_sequence_form(e: AnsiEscapeSequence)
    ensures
        ({
            let b = escape_bytes(e);
            let params = b.subrange(2, b.len() - 1);
            &&& b.len() >= 3
            &&& b[0] == 0x1B
            &&& b[1] == 0x5B
            &&& forall|k: int| 0 <= k < params.len() ==> is_ascii_digit(#[trigger] params[k])
            &&& match e {
                AnsiEscapeSequence::SelectGraphicRendition(sgr) => {
                    &&& b.last() == 0x6D
                    &&& params.len() > 0
                    &&& decimal_value(params) == sgr_parameter(sgr)
                },
                AnsiEscapeSequence::MoveCursorTopLeft => b.last() == 0x48 && params.len() == 0,
                AnsiEscapeSequence::ClearScreenFromCursorToEnd => b.last() == 0x4A && params.len() == 0,
                AnsiEscapeSequence::ClearEntireLine => b.last() == 0x4B && params.len() == 1
                    && decimal_value(params) == 2,
            }
        }),
{
    reveal_with_fuel(decimal_value, 2);
    let b = escape_bytes(e);
    let params = b.subrange(2, b.len() - 1);
    match e {
        AnsiEscapeSequence::SelectGraphicRendition(sgr) => {
            let code = rendition_code(sgr);
            assert(params =~= code);
            match sgr {
                SelectGraphicRendition::Reset => {
                    assert(code.drop_last().len() == 0);
                },
                SelectGraphicRendition::Bold => {
                    assert(code.drop_last().len() == 0);
                },
                SelectGraphicRendition::ForegroundColor(c) => lemma_two_digits_value((30 + color_index(c)) as u8),
                SelectGraphicRendition::BackgroundColor(c) => lemma_two_digits_value((40 + color_index(c)) as u8),
                SelectGraphicRendition::DefaultForegroundColor => lemma_two_digits_value(39),
                SelectGraphicRendition::DefaultBackgroundColor => lemma_two_digits_value(49),
            }
        },
        AnsiEscapeSequence::ClearEntireLine => {
            assert(params =~= seq![0x32u8]);
            assert(params.drop_last().len() == 0);
        },
        _ => {
            assert(params.len() == 0);
        },
    }
}

/// Resets all text formatting.
pub fn clear_format() -> (r: AnsiEscapeSequence)
    ensures
        r == AnsiEscapeSequence::SelectGraphicRendition(SelectGraphicRendition::Reset),
{
    AnsiEscapeSequence::SelectGraphicRendition(SelectGraphicRendition::Reset)
}

/// Bold text.
pub fn bold() -> (r: AnsiEscapeSequence)
    ensures
        r == AnsiEscapeSequence::SelectGraphicRendition(SelectGraphicRendition::Bold),
{
    AnsiEscapeSequence::SelectGraphicRendition(SelectGraphicRendition::Bold)
}

/// Green text.
pub fn green() -> (r: AnsiEscapeSequence)
    ensures
        r == AnsiEscapeSequence::SelectGraphicRendition(SelectGraphicRendition::ForegroundColor(Color::Green)),
{
    AnsiEscapeSequence::SelectGraphicRendition(SelectGraphicRendition::ForegroundColor(Color::Green))
}

} // verus!
