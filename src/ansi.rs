//! ANSI color codes around text, switched on or off by the caller.
use vstd::prelude::*;
use crate::format::{digits, push_digits};
use crate::helpers::{push_char, push_str};

verus! {

/// ANSI escape codes for text formatting
#[derive(Clone, Copy, Debug, PartialEq, Eq, Structural)]
pub enum Color {
    Black,
    White,
}

impl Color {
    /// The SGR code of the foreground color.
    pub open spec fn spec_code(self) -> u8 {
        match self {
            Color::Black => 30,
            Color::White => 37,
        }
    }

    /// The SGR code of the foreground color.
    pub fn code(&self) -> (r: u8)
        ensures
            r == self.spec_code(),
    {
        match self {
            Color::Black => 30,
            Color::White => 37,
        }
    }
}

/// The escape character that starts a control sequence.
pub open spec fn esc() -> char {
    '\u{1b}'
}

/// `s` wrapped in the escape sequences that show it in `color` and then
/// reset the style; `s` itself when colors are off.
pub open spec fn painted(s: Seq<char>, color: Color, enabled: bool) -> Seq<char> {
    if enabled {
        seq![esc(), '['] + digits(color.spec_code() as nat, 10, 2, false) + seq!['m'] + s + seq![
            esc(),
            '[',
            '0',
            'm',
        ]
    } else {
        s
    }
}

/// Text that can be shown in a color.
pub trait Colorable {
    /// The characters of the text.
    spec fn text(&self) -> Seq<char>;

    /// The text in `color` when `enabled`, else unchanged.
    fn ansi(&self, color: Color, enabled: bool) -> (r: String)
        ensures
            r@ == painted(self.text(), color, enabled),
    ;
}

impl Colorable for str {
    open spec fn text(&self) -> Seq<char> {
        self@
    }

    fn ansi(&self, color: Color, enabled: bool) -> (r: String) {
        let mut r = String::new();
        if enabled {
            push_char(&mut r, '\u{1b}');
            push_char(&mut r, '[');
            push_digits(&mut r, color.code() as u32, 10, 2, false);
            push_char(&mut r, 'm');
            push_str(&mut r, self);
            push_char(&mut r, '\u{1b}');
            push_char(&mut r, '[');
            push_char(&mut r, '0');
            push_char(&mut r, 'm');
            assert(r@ =~= painted(self@, color, enabled));
        } else {
            push_str(&mut r, self);
            assert(r@ =~= self@);
        }
        r
    }
}

impl Colorable for String {
    open spec fn text(&self) -> Seq<char> {
        self@
    }

    fn ansi(&self, color: Color, enabled: bool) -> (r: String) {
        self.as_str().ansi(color, enabled)
    }
}

} // verus!
