//! The static table: an offset column, the bytes in the chosen format and
//! their characters, cut into groups, between box-drawing borders.
use vstd::prelude::*;
use crate::ansi::{Color, Colorable, painted};
use crate::format::Format;
use crate::helpers::{is_printable, is_printable_ascii_character, push_char, push_str};
use crate::row::pad_dot;

verus! {

/// `n` copies of `c`.
pub open spec fn repeat(c: char, n: nat) -> Seq<char> {
    Seq::new(n, |i: int| c)
}

/// `n` copies of `s`, one after the other.
pub open spec fn repeat_seq(s: Seq<char>, n: nat) -> Seq<char>
    decreases n,
{
    if n == 0 {
        seq![]
    } else {
        repeat_seq(s, (n - 1) as nat) + s
    }
}

/// `c` before cell `k` when `k` starts a group other than the first.
pub open spec fn group_gap(k: int, group: int, c: char) -> Seq<char> {
    if k > 0 && k % group == 0 {
        seq![c]
    } else {
        seq![]
    }
}

/// The character that stands for byte `b`: the code point of the same value.
pub open spec fn byte_char(b: u8) -> char {
    b as char
}

/// The table's columns, joined by the separators of the plain or bordered style.
pub open spec fn joined(simple: bool, offset: Seq<char>, hex: Seq<char>, ascii: Seq<char>) -> Seq<char> {
    if simple {
        offset + seq![':', ' ', ' '] + hex + seq![' ', ' ', '|', ' '] + ascii
    } else {
        seq!['\u{2502}', ' '] + offset + seq![' ', '\u{2502}', ' '] + hex + seq![' ', '\u{2502}', ' ']
            + ascii + seq![' ', '\u{2502}']
    }
}

impl crate::config::View {
    /// The text of cell `k` of the value column.
    pub open spec fn hex_cell(&self, chunk: Seq<u8>, k: int, bytes_read: int, color: bool) -> Seq<char> {
        group_gap(k, self.group_size as int, ' ') + if k < bytes_read {
            painted(self.format.spec_format(chunk[k]), Color::White, color) + seq![' ']
        } else {
            repeat(' ', self.format.spec_size() + 1)
        }
    }

    /// The first `n` cells of the value column.
    pub open spec fn hex_values(&self, chunk: Seq<u8>, n: nat, bytes_read: int, color: bool) -> Seq<char>
        decreases n,
    {
        if n == 0 {
            seq![]
        } else {
            self.hex_values(chunk, (n - 1) as nat, bytes_read, color) + self.hex_cell(
                chunk,
                n - 1,
                bytes_read,
                color,
            )
        }
    }

    /// The text of cell `k` of the character column.
    pub open spec fn ascii_cell(&self, chunk: Seq<u8>, k: int, bytes_read: int, color: bool) -> Seq<char> {
        group_gap(k, self.group_size as int, ' ') + if k < bytes_read {
            if is_printable(chunk[k]) {
                painted(seq![byte_char(chunk[k])], Color::White, color)
            } else {
                painted(seq![pad_dot()], Color::Black, color)
            }
        } else {
            seq![' ']
        }
    }

    /// The first `n` cells of the character column.
    pub open spec fn ascii_values(&self, chunk: Seq<u8>, n: nat, bytes_read: int, color: bool) -> Seq<char>
        decreases n,
    {
        if n == 0 {
            seq![]
        } else {
            self.ascii_values(chunk, (n - 1) as nat, bytes_read, color) + self.ascii_cell(
                chunk,
                n - 1,
                bytes_read,
                color,
            )
        }
    }

    /// The offset column: the low byte of `offset` in octal, zero-padded to
    /// eight characters in the plain style, else after a space and dots.
    pub open spec fn offset_column(&self, offset: usize, color: bool) -> Seq<char> {
        let res = Format::Octal.spec_format((offset % 256) as u8);
        if self.simple {
            repeat('0', 5) + res
        } else {
            seq![' '] + repeat_seq(painted(seq![pad_dot()], Color::Black, color), 5) + painted(
                res,
                Color::White,
                color,
            )
        }
    }

    /// One segment of a border: `n` cells of `width` dashes each, with an
    /// extra dash between groups.
    pub open spec fn border_cells(&self, n: nat, width: nat) -> Seq<char>
        decreases n,
    {
        if n == 0 {
            seq![]
        } else {
            self.border_cells((n - 1) as nat, width) + group_gap(
                n - 1,
                self.group_size as int,
                '\u{2500}',
            ) + repeat('\u{2500}', width)
        }
    }

    /// A horizontal border with the given left, middle and right corners.
    pub open spec fn border(&self, left: char, mid: char, right: char) -> Seq<char> {
        seq![left, '\u{2500}'] + repeat('\u{2500}', 10) + seq![mid, '\u{2500}'] + self.border_cells(
            self.size as nat,
            self.format.spec_size() + 1,
        ) + seq!['\u{2500}', mid, '\u{2500}'] + self.border_cells(self.size as nat, 1) + seq![
            '\u{2500}',
            right,
        ]
    }

    /// Formats the offset column for a row that starts at `offset`.
    pub fn format_offset(&self, offset: usize, color: bool) -> (r: String)
        ensures
            r@ == self.offset_column(offset, color),
    {
        let res = Format::Octal.format((offset % 256) as u8);
        let mut s = String::new();
        if self.simple {
            let mut i: usize = 0;
            while i < 5
                invariant
                    i <= 5,
                    s@ == repeat('0', i as nat),
                decreases 5 - i,
            {
                push_char(&mut s, '0');
                i = i + 1;
                assert(s@ =~= repeat('0', i as nat));
            }
            push_str(&mut s, res.as_str());
        } else {
            push_char(&mut s, ' ');
            let dot = "\u{b7}".ansi(Color::Black, color);
            proof {
                reveal_strlit("\u{b7}");
            }
            assert("\u{b7}"@ =~= seq![pad_dot()]);
            let mut i: usize = 0;
            while i < 5
                invariant
                    i <= 5,
                    dot@ == painted(seq![pad_dot()], Color::Black, color),
                    s@ == seq![' '] + repeat_seq(dot@, i as nat),
                decreases 5 - i,
            {
                push_str(&mut s, dot.as_str());
                i = i + 1;
                assert(s@ =~= seq![' '] + repeat_seq(dot@, i as nat));
            }
            let value = res.ansi(Color::White, color);
            push_str(&mut s, value.as_str());
        }
        s
    }

    /// Formats the value column of one row: the first `bytes_read` bytes
    /// of `chunk` in the configured format, blanks for the rest.
    pub fn format_hex_values(&self, chunk: &[u8], bytes_read: usize, color: bool) -> (r: String)
        requires
            self.group_size >= 1,
        ensures
            r@ == self.hex_values(chunk@, chunk@.len(), bytes_read as int, color),
    {
        let mut s = String::new();
        let mut k: usize = 0;
        while k < chunk.len()
            invariant
                self.group_size >= 1,
                k <= chunk@.len(),
                s@ == self.hex_values(chunk@, k as nat, bytes_read as int, color),
            decreases chunk@.len() - k,
        {
            let ghost before = s@;
            if k > 0 && k % self.group_size == 0 {
                push_char(&mut s, ' ');
            }
            if k < bytes_read {
                let value = self.format.format(chunk[k]);
                let painted_value = value.ansi(Color::White, color);
                push_str(&mut s, painted_value.as_str());
                push_char(&mut s, ' ');
            } else {
                let mut i: usize = 0;
                let width = self.format.size() + 1;
                let ghost mid = s@;
                while i < width
                    invariant
                        i <= width,
                        width == self.format.spec_size() + 1,
                        s@ == mid + repeat(' ', i as nat),
                    decreases width - i,
                {
                    push_char(&mut s, ' ');
                    i = i + 1;
                    assert(s@ =~= mid + repeat(' ', i as nat));
                }
            }
            assert(s@ =~= before + self.hex_cell(chunk@, k as int, bytes_read as int, color));
            k = k + 1;
        }
        s
    }

    /// Formats the character column of one row: each of the first
    /// `bytes_read` bytes as itself, or as a dot when it is whitespace;
    /// blanks for the rest.
    pub fn format_ascii_representation(&self, chunk: &[u8], bytes_read: usize, color: bool) -> (r:
        String)
        requires
            self.group_size >= 1,
        ensures
            r@ == self.ascii_values(chunk@, chunk@.len(), bytes_read as int, color),
    {
        let mut s = String::new();
        let mut k: usize = 0;
        while k < chunk.len()
            invariant
                self.group_size >= 1,
                k <= chunk@.len(),
                s@ == self.ascii_values(chunk@, k as nat, bytes_read as int, color),
            decreases chunk@.len() - k,
        {
            let ghost before = s@;
            if k > 0 && k % self.group_size == 0 {
                push_char(&mut s, ' ');
            }
            if k < bytes_read {
                let byte = chunk[k];
                let mut cell = String::new();
                if is_printable_ascii_character(&byte) {
                    push_char(&mut cell, byte as char);
                } else {
                    push_char(&mut cell, '\u{b7}');
                }
                let color_of = if is_printable_ascii_character(&byte) {
                    Color::White
                } else {
                    Color::Black
                };
                let painted_cell = cell.ansi(color_of, color);
                push_str(&mut s, painted_cell.as_str());
            } else {
                push_char(&mut s, ' ');
            }
            assert(s@ =~= before + self.ascii_cell(chunk@, k as int, bytes_read as int, color));
            k = k + 1;
        }
        s
    }

    /// Formats one row of the table: its offset, values and characters.
    pub fn format_line(&self, buffer: &[u8], bytes_read: usize, offset: usize, color: bool) -> (r:
        String)
        requires
            self.group_size >= 1,
        ensures
            r@ == joined(
                self.simple,
                self.offset_column(offset, color),
                self.hex_values(buffer@, buffer@.len(), bytes_read as int, color),
                self.ascii_values(buffer@, buffer@.len(), bytes_read as int, color),
            ),
    {
        let offset_text = self.format_offset(offset, color);
        let hex_text = self.format_hex_values(buffer, bytes_read, color);
        let ascii_text = self.format_ascii_representation(buffer, bytes_read, color);
        let mut s = String::new();
        if self.simple {
            push_str(&mut s, offset_text.as_str());
            push_char(&mut s, ':');
            push_char(&mut s, ' ');
            push_char(&mut s, ' ');
            push_str(&mut s, hex_text.as_str());
            push_char(&mut s, ' ');
            push_char(&mut s, ' ');
            push_char(&mut s, '|');
            push_char(&mut s, ' ');
            push_str(&mut s, ascii_text.as_str());
            let ghost (o, h, a) = (offset_text@, hex_text@, ascii_text@);
            assert(s@ =~= o + seq![':', ' ', ' '] + h + seq![' ', ' ', '|', ' '] + a);
        } else {
            push_char(&mut s, '\u{2502}');
            push_char(&mut s, ' ');
            push_str(&mut s, offset_text.as_str());
            push_char(&mut s, ' ');
            push_char(&mut s, '\u{2502}');
            push_char(&mut s, ' ');
            push_str(&mut s, hex_text.as_str());
            push_char(&mut s, ' ');
            push_char(&mut s, '\u{2502}');
            push_char(&mut s, ' ');
            push_str(&mut s, ascii_text.as_str());
            push_char(&mut s, ' ');
            push_char(&mut s, '\u{2502}');
            let ghost (o, h, a) = (offset_text@, hex_text@, ascii_text@);
            assert(s@ =~= seq!['\u{2502}', ' '] + o + seq![' ', '\u{2502}', ' '] + h + seq![
                ' ',
                '\u{2502}',
                ' ',
            ] + a + seq![' ', '\u{2502}']);
        }
        s
    }

    /// Appends one segment of a border to `s`.
    fn push_border_cells(&self, s: &mut String, width: usize)
        requires
            self.group_size >= 1,
        ensures
            final(s)@ == old(s)@ + self.border_cells(self.size as nat, width as nat),
    {
        let ghost start = s@;
        let mut i: usize = 0;
        while i < self.size
            invariant
                self.group_size >= 1,
                i <= self.size,
                s@ == start + self.border_cells(i as nat, width as nat),
            decreases self.size - i,
        {
            let ghost before = s@;
            if i > 0 && i % self.group_size == 0 {
                push_char(s, '\u{2500}');
            }
            let ghost mid = s@;
            let mut j: usize = 0;
            while j < width
                invariant
                    j <= width,
                    s@ == mid + repeat('\u{2500}', j as nat),
                decreases width - j,
            {
                push_char(s, '\u{2500}');
                j = j + 1;
                assert(s@ =~= mid + repeat('\u{2500}', j as nat));
            }
            assert(s@ =~= before + group_gap(i as int, self.group_size as int, '\u{2500}') + repeat(
                '\u{2500}',
                width as nat,
            ));
            i = i + 1;
            assert(s@ =~= start + self.border_cells(i as nat, width as nat));
        }
    }

    /// A full border line with the given corners.
    fn border_line(&self, left: char, mid: char, right: char) -> (r: String)
        requires
            self.group_size >= 1,
        ensures
            r@ == self.border(left, mid, right),
    {
        let mut s = String::new();
        push_char(&mut s, left);
        push_char(&mut s, '\u{2500}');
        let mut i: usize = 0;
        while i < 10
            invariant
                i <= 10,
                s@ == seq![left, '\u{2500}'] + repeat('\u{2500}', i as nat),
            decreases 10 - i,
        {
            push_char(&mut s, '\u{2500}');
            i = i + 1;
            assert(s@ =~= seq![left, '\u{2500}'] + repeat('\u{2500}', i as nat));
        }
        push_char(&mut s, mid);
        push_char(&mut s, '\u{2500}');
        self.push_border_cells(&mut s, self.format.size() + 1);
        push_char(&mut s, '\u{2500}');
        push_char(&mut s, mid);
        push_char(&mut s, '\u{2500}');
        self.push_border_cells(&mut s, 1);
        push_char(&mut s, '\u{2500}');
        push_char(&mut s, right);
        assert(s@ =~= self.border(left, mid, right));
        s
    }

    /// The border above the table; none in the plain style.
    pub fn top_line(&self) -> (r: Option<String>)
        requires
            self.group_size >= 1,
        ensures
            self.simple ==> r is None,
            !self.simple ==> r is Some && r->0@ == self.border('\u{250c}', '\u{252c}', '\u{2510}'),
    {
        if self.simple {
            None
        } else {
            Some(self.border_line('\u{250c}', '\u{252c}', '\u{2510}'))
        }
    }

    /// The border below the table; none in the plain style.
    pub fn bottom_line(&self) -> (r: Option<String>)
        requires
            self.group_size >= 1,
        ensures
            self.simple ==> r is None,
            !self.simple ==> r is Some && r->0@ == self.border('\u{2514}', '\u{2534}', '\u{2518}'),
    {
        if self.simple {
            None
        } else {
            Some(self.border_line('\u{2514}', '\u{2534}', '\u{2518}'))
        }
    }

    /// The width of the value column in the browser: each value and a
    /// space, a space per group, and two spaces and two borders.
    pub open spec fn hex_column_width(&self) -> int {
        (self.format.spec_size() + 1) * self.size + (self.size as int) / (self.group_size as int) + 4
    }

    /// The width of the character column in the browser: a character per
    /// byte and one more, a space per group, and two borders.
    pub open spec fn ascii_column_width(&self) -> int {
        self.size + 1 + (self.size as int) / (self.group_size as int) + 2
    }

    /// The widths of the value and character columns, or `None` when they
    /// do not fit in a machine word.
    pub fn column_widths(&self) -> (r: Option<(usize, usize)>)
        requires
            self.group_size >= 1,
        ensures
            r is Some <==> (self.hex_column_width() <= usize::MAX && self.ascii_column_width()
                <= usize::MAX),
            r is Some ==> (r->0).0 == self.hex_column_width() && (r->0).1 == self.ascii_column_width(),
    {
        let cell = self.format.size() + 1;
        let groups = self.size / self.group_size;
        assert(groups <= self.size) by (nonlinear_arith)
            requires
                groups == self.size / self.group_size,
                self.group_size >= 1,
        ;
        if self.size > 0 && cell > usize::MAX / self.size {
            assert(cell * self.size > usize::MAX) by (nonlinear_arith)
                requires
                    self.size > 0,
                    cell > usize::MAX / self.size,
            ;
            return None;
        }
        assert(cell * self.size <= usize::MAX) by (nonlinear_arith)
            requires
                self.size == 0 || cell <= usize::MAX / self.size,
        ;
        let values = cell * self.size;
        if values > usize::MAX - groups || values + groups > usize::MAX - 4 {
            return None;
        }
        if self.size > usize::MAX - groups - 3 {
            return None;
        }
        Some((values + groups + 4, self.size + 1 + groups + 2))
    }
}

} // verus!
