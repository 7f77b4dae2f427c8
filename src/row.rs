//! One row of the byte store: a slice of the stream and where it starts.
use vstd::prelude::*;
use vstd::slice::slice_to_vec;
use crate::format::Format;
use crate::helpers::push_char;

verus! {

/// The dot that pads the offset column.
pub open spec fn pad_dot() -> char {
    '\u{b7}'
}

/// A fixed-width slice of the byte stream with its absolute offset.
#[derive(Debug)]
pub struct Row {
    pub data: Vec<u8>,
    pub offset: usize,
    pub bytes_read: usize,
}

impl Row {
    /// The row holds exactly its valid bytes.
    pub open spec fn wf(&self) -> bool {
        self.bytes_read == self.data@.len()
    }

    /// The offset column: the low byte of the offset in octal, padded on
    /// the left with dots to eight characters.
    pub open spec fn spec_format_offset(&self) -> Seq<char> {
        Seq::new(5, |i: int| pad_dot()) + Format::Octal.spec_format((self.offset % 256) as u8)
    }

    /// Builds a row from the bytes that were read and the offset of the first.
    pub fn parse(data: &[u8], offset: usize) -> (r: Row)
        ensures
            r.wf(),
            r.data@ == data@,
            r.offset == offset,
            r.bytes_read == data@.len(),
    {
        Row { data: slice_to_vec(data), offset, bytes_read: data.len() }
    }

    /// Formats the offset column of this row.
    pub fn format_offset(&self) -> (r: String)
        ensures
            r@ == self.spec_format_offset(),
            r@.len() == 8,
    {
        let res = Format::Octal.format((self.offset % 256) as u8);
        let mut s = String::new();
        let mut i: usize = 0;
        while i < 8 - Format::Octal.size()
            invariant
                res@ == Format::Octal.spec_format((self.offset % 256) as u8),
                res@.len() == 3,
                i <= 5,
                s@ == Seq::new(i as nat, |k: int| pad_dot()),
            decreases 5 - i,
        {
            push_char(&mut s, '\u{b7}');
            i = i + 1;
            assert(s@ =~= Seq::new(i as nat, |k: int| pad_dot()));
        }
        let mut out = s;
        crate::helpers::push_str(&mut out, res.as_str());
        out
    }
}

} // verus!
