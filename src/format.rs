//! How a single byte is written out: in hexadecimal, binary, octal or
//! decimal, zero-padded to a fixed width, optionally with a base prefix.
use vstd::prelude::*;
use crate::helpers::push_char;

verus! {

/// The character for digit `d` (below 16), in lower or upper case.
pub open spec fn digit_char(d: nat, upper: bool) -> char {
    if d < 10 {
        if d == 0 { '0' } else if d == 1 { '1' } else if d == 2 { '2' } else if d == 3 { '3' }
        else if d == 4 { '4' } else if d == 5 { '5' } else if d == 6 { '6' } else if d == 7 { '7' }
        else if d == 8 { '8' } else { '9' }
    } else if upper {
        if d == 10 { 'A' } else if d == 11 { 'B' } else if d == 12 { 'C' } else if d == 13 { 'D' }
        else if d == 14 { 'E' } else { 'F' }
    } else {
        if d == 10 { 'a' } else if d == 11 { 'b' } else if d == 12 { 'c' } else if d == 13 { 'd' }
        else if d == 14 { 'e' } else { 'f' }
    }
}

/// The last `width` digits of `n` in `base`, most significant first,
/// padded with zeros on the left.
pub open spec fn digits(n: nat, base: nat, width: nat, upper: bool) -> Seq<char>
    decreases width,
{
    if width == 0 || base == 0 {
        seq![]
    } else {
        digits(n / base, base, (width - 1) as nat, upper).push(digit_char(n % base, upper))
    }
}

/// Supported output formats
#[derive(Clone, Copy, Debug, PartialEq, Eq, Structural)]
pub enum Format {
    Hex,
    HexWithPrefix,
    UpperHex,
    UpperHexWithPrefix,
    Binary,
    BinaryWithPrefix,
    Octal,
    OctalWithPrefix,
    Decimal,
}

impl Format {
    /// The base the format writes in.
    pub open spec fn base(self) -> nat {
        match self {
            Format::Hex | Format::HexWithPrefix | Format::UpperHex | Format::UpperHexWithPrefix => 16,
            Format::Binary | Format::BinaryWithPrefix => 2,
            Format::Octal | Format::OctalWithPrefix => 8,
            Format::Decimal => 10,
        }
    }

    /// The number of digits a byte takes: enough for 255 in the base.
    pub open spec fn width(self) -> nat {
        match self {
            Format::Hex | Format::HexWithPrefix | Format::UpperHex | Format::UpperHexWithPrefix => 2,
            Format::Binary | Format::BinaryWithPrefix => 8,
            Format::Octal | Format::OctalWithPrefix | Format::Decimal => 3,
        }
    }

    pub open spec fn upper(self) -> bool {
        self == Format::UpperHex || self == Format::UpperHexWithPrefix
    }

    /// The prefix written before the digits.
    pub open spec fn prefix(self) -> Seq<char> {
        match self {
            Format::HexWithPrefix | Format::UpperHexWithPrefix => seq!['0', 'x'],
            Format::BinaryWithPrefix => seq!['0', 'b'],
            Format::OctalWithPrefix => seq!['0', 'o'],
            _ => seq![],
        }
    }

    /// The text of byte `b` in this format.
    pub open spec fn spec_format(self, b: u8) -> Seq<char> {
        self.prefix() + digits(b as nat, self.base(), self.width(), self.upper())
    }

    /// The number of characters every byte takes in this format.
    pub open spec fn spec_size(self) -> nat {
        self.prefix().len() + self.width()
    }

    /// Formats the u8 value
    pub fn format(&self, data: u8) -> (r: String)
        ensures
            r@ == self.spec_format(data),
            r@.len() == self.spec_size(),
    {
        let mut s = String::new();
        let (base, width): (u32, u32) = match self {
            Format::Hex | Format::HexWithPrefix | Format::UpperHex | Format::UpperHexWithPrefix => (
                16,
                2,
            ),
            Format::Binary | Format::BinaryWithPrefix => (2, 8),
            Format::Octal | Format::OctalWithPrefix => (8, 3),
            Format::Decimal => (10, 3),
        };
        match self {
            Format::HexWithPrefix | Format::UpperHexWithPrefix => {
                push_char(&mut s, '0');
                push_char(&mut s, 'x');
            },
            Format::BinaryWithPrefix => {
                push_char(&mut s, '0');
                push_char(&mut s, 'b');
            },
            Format::OctalWithPrefix => {
                push_char(&mut s, '0');
                push_char(&mut s, 'o');
            },
            _ => {},
        }
        assert(s@ =~= self.prefix());
        let upper = match self {
            Format::UpperHex | Format::UpperHexWithPrefix => true,
            _ => false,
        };
        push_digits(&mut s, data as u32, base, width, upper);
        proof {
            lemma_digits_len(data as nat, base as nat, width as nat, upper);
        }
        s
    }

    /// Returns the size occupied by the format when representing the value
    pub fn size(&self) -> (r: usize)
        ensures
            r == self.spec_size(),
    {
        match self {
            Format::Hex => 2,
            Format::HexWithPrefix => 4,
            Format::UpperHex => 2,
            Format::UpperHexWithPrefix => 4,
            Format::Binary => 8,
            Format::BinaryWithPrefix => 10,
            Format::Octal => 3,
            Format::OctalWithPrefix => 5,
            Format::Decimal => 3,
        }
    }
}

/// The format a name stands for, if any: a base name or its short form,
/// with a leading `#` for the prefixed variant; a capitalised name for
/// upper-case hexadecimal.
pub open spec fn format_named(s: Seq<char>) -> Option<Format> {
    if s == "hex"@ || s == "x"@ || s == "hexadecimal"@ {
        Some(Format::Hex)
    } else if s == "#hex"@ || s == "#x"@ || s == "#hexadecimal"@ {
        Some(Format::HexWithPrefix)
    } else if s == "HEX"@ || s == "X"@ || s == "Hex"@ || s == "Hexadecimal"@ {
        Some(Format::UpperHex)
    } else if s == "#HEX"@ || s == "#X"@ || s == "#Hex"@ || s == "#Hexadecimal"@ {
        Some(Format::UpperHexWithPrefix)
    } else if s == "binary"@ || s == "b"@ || s == "bin"@ {
        Some(Format::Binary)
    } else if s == "#binary"@ || s == "#b"@ || s == "#bin"@ {
        Some(Format::BinaryWithPrefix)
    } else if s == "octal"@ || s == "o"@ || s == "oct"@ {
        Some(Format::Octal)
    } else if s == "#octal"@ || s == "#o"@ || s == "#oct"@ {
        Some(Format::OctalWithPrefix)
    } else if s == "decimal"@ || s == "d"@ || s == "dec"@ {
        Some(Format::Decimal)
    } else {
        None
    }
}

/// Whether two strings hold the same characters.
fn same_text(a: &str, b: &str) -> (r: bool)
    ensures
        r == (a@ == b@),
{
    a.to_owned() == b.to_owned()
}

impl Format {
    /// Parses a format from its name; `None` for a name that stands for no format.
    pub fn from_name(s: &str) -> (r: Option<Format>)
        ensures
            r == format_named(s@),
    {
        if same_text(s, "hex") || same_text(s, "x") || same_text(s, "hexadecimal") {
            Some(Format::Hex)
        } else if same_text(s, "#hex") || same_text(s, "#x") || same_text(s, "#hexadecimal") {
            Some(Format::HexWithPrefix)
        } else if same_text(s, "HEX") || same_text(s, "X") || same_text(s, "Hex") || same_text(
            s,
            "Hexadecimal",
        ) {
            Some(Format::UpperHex)
        } else if same_text(s, "#HEX") || same_text(s, "#X") || same_text(s, "#Hex") || same_text(
            s,
            "#Hexadecimal",
        ) {
            Some(Format::UpperHexWithPrefix)
        } else if same_text(s, "binary") || same_text(s, "b") || same_text(s, "bin") {
            Some(Format::Binary)
        } else if same_text(s, "#binary") || same_text(s, "#b") || same_text(s, "#bin") {
            Some(Format::BinaryWithPrefix)
        } else if same_text(s, "octal") || same_text(s, "o") || same_text(s, "oct") {
            Some(Format::Octal)
        } else if same_text(s, "#octal") || same_text(s, "#o") || same_text(s, "#oct") {
            Some(Format::OctalWithPrefix)
        } else if same_text(s, "decimal") || same_text(s, "d") || same_text(s, "dec") {
            Some(Format::Decimal)
        } else {
            None
        }
    }
}

impl Default for Format {
    fn default() -> (r: Format)
        ensures
            r == Format::Hex,
    {
        Format::Hex
    }
}

/// `digits` yields exactly `width` characters.
pub proof fn lemma_digits_len(n: nat, base: nat, width: nat, upper: bool)
    requires
        base >= 2,
    ensures
        digits(n, base, width, upper).len() == width,
    decreases width,
{
    if width > 0 {
        lemma_digits_len(n / base, base, (width - 1) as nat, upper);
    }
}

/// The character for digit `d`.
fn digit(d: u32, upper: bool) -> (c: char)
    requires
        d < 16,
    ensures
        c == digit_char(d as nat, upper),
{
    match d {
        0 => '0',
        1 => '1',
        2 => '2',
        3 => '3',
        4 => '4',
        5 => '5',
        6 => '6',
        7 => '7',
        8 => '8',
        9 => '9',
        10 => if upper { 'A' } else { 'a' },
        11 => if upper { 'B' } else { 'b' },
        12 => if upper { 'C' } else { 'c' },
        13 => if upper { 'D' } else { 'd' },
        14 => if upper { 'E' } else { 'e' },
        _ => if upper { 'F' } else { 'f' },
    }
}

/// Appends the last `width` digits of `n` in `base` to `s`.
pub(crate) fn push_digits(s: &mut String, n: u32, base: u32, width: u32, upper: bool)
    requires
        2 <= base <= 16,
    ensures
        final(s)@ == old(s)@ + digits(n as nat, base as nat, width as nat, upper),
    decreases width,
{
    if width > 0 {
        push_digits(s, n / base, base, width - 1, upper);
        let c = digit(n % base, upper);
        push_char(s, c);
        proof {
            let before = old(s)@;
            let head = digits((n / base) as nat, base as nat, (width - 1) as nat, upper);
            assert(digits(n as nat, base as nat, width as nat, upper) == head.push(c));
            assert(s@ =~= before + head.push(c));
        }
    }
}

} // verus!
