//! The terminal command vocabulary, its ANSI encoding, and the output sink.
use vstd::prelude::*;

use crate::text::{decimal, push_char, push_decimal};

verus! {

/// A text attribute applied before a character is written.
#[derive(Debug, Clone, Copy, PartialEq, Eq, Structural)]
pub enum Style {
    Foreground(Color),
    Background(Color),
    Reset,
}

/// Whether the terminal cursor is drawn.
#[derive(Debug, Clone, Copy, PartialEq, Eq, Structural)]
pub enum Visibility {
    Hidden,
    Show,
}

/// One primitive terminal-control instruction.
///
/// `MoveTo(x, y)` moves to column `x`, row `y`; the numbers are sent as
/// they are, so a caller with zero-based coordinates adds one first.
#[derive(Debug, Clone)]
pub enum Command {
    MoveTo(u16, u16),
    ApplyStyle(Style),
    Write(String),
    Cursor(Visibility),
    Clear,
}

/// A named entry of the 16-colour palette, or an explicit RGB triple.
#[derive(Debug, Clone, Copy, PartialEq, Eq, Structural)]
pub enum Color {
    Rgb { r: u8, g: u8, b: u8 },
    Black,
    Red,
    Green,
    Yellow,
    Blue,
    Magenta,
    Cyan,
    White,
    BrightBlack,
    BrightRed,
    BrightGreen,
    BrightYellow,
    BrightBlue,
    BrightMagenta,
    BrightCyan,
    BrightWhite,
}

/// The size of a terminal window, as the terminal reports it.
#[derive(Debug, Clone, Copy)]
pub struct WinSize {
    pub rows: u16,
    pub cols: u16,
    pub x_pixel: u16,
    pub y_pixel: u16,
}

/// The control sequence introducer `ESC [`.
pub open spec fn csi() -> Seq<char> {
    seq!['\x1B', '[']
}

/// `r;g;b` in decimal.
pub open spec fn rgb_text(r: u8, g: u8, b: u8) -> Seq<char> {
    decimal(r as nat) + seq![';'] + decimal(g as nat) + seq![';'] + decimal(b as nat)
}

impl Color {
    /// Distance of a named colour's SGR code from the foreground base 30
    /// (or the background base 40): 0 to 7 for the standard colours,
    /// 60 to 67 for the bright ones.
    pub open spec fn code_offset(self) -> nat {
        match self {
            Color::Rgb { .. } => 0,
            Color::Black => 0,
            Color::Red => 1,
            Color::Green => 2,
            Color::Yellow => 3,
            Color::Blue => 4,
            Color::Magenta => 5,
            Color::Cyan => 6,
            Color::White => 7,
            Color::BrightBlack => 60,
            Color::BrightRed => 61,
            Color::BrightGreen => 62,
            Color::BrightYellow => 63,
            Color::BrightBlue => 64,
            Color::BrightMagenta => 65,
            Color::BrightCyan => 66,
            Color::BrightWhite => 67,
        }
    }

    /// The SGR parameter that selects this colour as foreground
    /// (`r;g;b` for an RGB colour).
    pub open spec fn fg_code(self) -> Seq<char> {
        match self {
            Color::Rgb { r, g, b } => rgb_text(r, g, b),
            _ => decimal(30 + self.code_offset()),
        }
    }

    /// The SGR parameter that selects this colour as background
    /// (`r;g;b` for an RGB colour).
    pub open spec fn bg_code(self) -> Seq<char> {
        match self {
            Color::Rgb { r, g, b } => rgb_text(r, g, b),
            _ => decimal(40 + self.code_offset()),
        }
    }

    fn offset(&self) -> (r: u32)
        ensures
            r == self.code_offset(),
    {
        match self {
            Color::Rgb { .. } => 0,
            Color::Black => 0,
            Color::Red => 1,
            Color::Green => 2,
            Color::Yellow => 3,
            Color::Blue => 4,
            Color::Magenta => 5,
            Color::Cyan => 6,
            Color::White => 7,
            Color::BrightBlack => 60,
            Color::BrightRed => 61,
            Color::BrightGreen => 62,
            Color::BrightYellow => 63,
            Color::BrightBlue => 64,
            Color::BrightMagenta => 65,
            Color::BrightCyan => 66,
            Color::BrightWhite => 67,
        }
    }

    /// The code for this colour in the given base (30 for foreground,
    /// 40 for background).
    fn code(&self, base: u32) -> (s: String)
        requires
            base == 30 || base == 40,
        ensures
            base == 30 ==> s@ == self.fg_code(),
            base == 40 ==> s@ == self.bg_code(),
    {
        let mut s = String::new();
        match self {
            Color::Rgb { r, g, b } => {
                push_decimal(&mut s, *r as u32);
                push_char(&mut s, ';');
                push_decimal(&mut s, *g as u32);
                push_char(&mut s, ';');
                push_decimal(&mut s, *b as u32);
            },
            _ => {
                push_decimal(&mut s, base + self.offset());
            },
        }
        s
    }

    /// The SGR parameter of this colour as background: `40`-`47`,
    /// `100`-`107`, or `r;g;b`.
    pub fn bg(&self) -> (s: String)
        ensures
            s@ == self.bg_code(),
    {
        self.code(40)
    }

    /// The SGR parameter of this colour as foreground: `30`-`37`,
    /// `90`-`97`, or `r;g;b`.
    pub fn fg(&self) -> (s: String)
        ensures
            s@ == self.fg_code(),
    {
        self.code(30)
    }
}

/// The escape sequence of a style.
pub open spec fn style_text(s: Style) -> Seq<char> {
    match s {
        Style::Foreground(c) => match c {
            Color::Rgb { .. } => csi() + seq!['3', '8', ';', '2', ';'] + c.fg_code() + seq!['m'],
            _ => csi() + c.fg_code() + seq!['m'],
        },
        Style::Background(c) => match c {
            Color::Rgb { .. } => csi() + seq!['4', '8', ';', '2', ';'] + c.bg_code() + seq!['m'],
            _ => csi() + c.bg_code() + seq!['m'],
        },
        Style::Reset => csi() + seq!['0', 'm'],
    }
}

/// The bytes that a command puts on the wire. A move is sent row first:
/// `MoveTo(x, y)` becomes `ESC [ y ; x H`.
pub open spec fn command_text(c: Command) -> Seq<char> {
    match c {
        Command::MoveTo(x, y) => csi() + decimal(y as nat) + seq![';'] + decimal(x as nat) + seq!['H'],
        Command::ApplyStyle(s) => style_text(s),
        Command::Write(t) => t@,
        Command::Cursor(v) => match v {
            Visibility::Hidden => csi() + seq!['?', '2', '5', 'l'],
            Visibility::Show => csi() + seq!['?', '2', '5', 'h'],
        },
        Command::Clear => csi() + seq!['2', 'J'],
    }
}

fn push_csi(s: &mut String)
    ensures
        final(s)@ == old(s)@ + csi(),
{
    push_char(s, '\x1B');
    push_char(s, '[');
}

impl Style {
    /// The escape sequence that applies this style.
    pub fn encode(&self) -> (r: String)
        ensures
            r@ == style_text(*self),
    {
        let mut r = String::new();
        push_csi(&mut r);
        match self {
            Style::Foreground(c) => {
                if let Color::Rgb { .. } = c {
                    push_char(&mut r, '3');
                    push_char(&mut r, '8');
                    push_char(&mut r, ';');
                    push_char(&mut r, '2');
                    push_char(&mut r, ';');
                }
                r.append(c.fg().as_str());
            },
            Style::Background(c) => {
                if let Color::Rgb { .. } = c {
                    push_char(&mut r, '4');
                    push_char(&mut r, '8');
                    push_char(&mut r, ';');
                    push_char(&mut r, '2');
                    push_char(&mut r, ';');
                }
                r.append(c.bg().as_str());
            },
            Style::Reset => {
                push_char(&mut r, '0');
            },
        }
        push_char(&mut r, 'm');
        r
    }
}

impl Command {
    /// The escape sequence (or, for `Write`, the raw text) of this command.
    pub fn encode(&self) -> (r: String)
        ensures
            r@ == command_text(*self),
    {
        match self {
            Command::MoveTo(x, y) => {
                let mut r = String::new();
                push_csi(&mut r);
                push_decimal(&mut r, *y as u32);
                push_char(&mut r, ';');
                push_decimal(&mut r, *x as u32);
                push_char(&mut r, 'H');
                r
            },
            Command::ApplyStyle(s) => s.encode(),
            Command::Write(t) => t.clone(),
            Command::Cursor(v) => {
                let mut r = String::new();
                push_csi(&mut r);
                push_char(&mut r, '?');
                push_char(&mut r, '2');
                push_char(&mut r, '5');
                match v {
                    Visibility::Hidden => push_char(&mut r, 'l'),
                    Visibility::Show => push_char(&mut r, 'h'),
                }
                r
            },
            Command::Clear => {
                let mut r = String::new();
                push_csi(&mut r);
                push_char(&mut r, '2');
                push_char(&mut r, 'J');
                r
            },
        }
    }
}

/// Selects `c` as background colour.
pub fn bg(c: Color) -> (s: Style)
    ensures
        s == Style::Background(c),
{
    Style::Background(c)
}

/// Selects `c` as foreground colour.
pub fn fg(c: Color) -> (s: Style)
    ensures
        s == Style::Foreground(c),
{
    Style::Foreground(c)
}

/// An explicit RGB colour.
pub fn rgb(r: u8, g: u8, b: u8) -> (c: Color)
    ensures
        c == (Color::Rgb { r, g, b }),
{
    Color::Rgb { r, g, b }
}

/// A writable destination for terminal output, such as a terminal's
/// output stream.
pub trait Sink {
    /// Writes `s`; on failure returns the cause. A failed write may have
    /// written part of `s`.
    fn write_str(&mut self, s: &str) -> Result<(), String>;
}

/// An in-memory sink; writing to it never fails.
impl Sink for String {
    fn write_str(&mut self, s: &str) -> (r: Result<(), String>)
        ensures
            r is Ok,
            final(self)@ == old(self)@ + s@,
    {
        self.append(s);
        Ok(())
    }
}

/// A sink refused a command: the command, and the cause the sink gave.
#[derive(Debug, Clone)]
pub struct WriteError {
    pub command: Command,
    pub cause: String,
}

/// Prepares a terminal for the first frame: sends `Clear`, encoded as
/// `ESC [ 2 J`, in a single write.
pub fn configure<W: Sink>(out: &mut W) -> (r: Result<(), WriteError>)
    ensures
        r matches Err(e) ==> e.command is Clear,
{
    let command = Command::Clear;
    let text = command.encode();
    match out.write_str(text.as_str()) {
        Ok(()) => Ok(()),
        Err(cause) => Err(WriteError { command, cause }),
    }
}

} // verus!
