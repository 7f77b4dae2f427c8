//! The plain value stream: every byte in the chosen format, each followed
//! by the separator.
use vstd::prelude::*;
use crate::helpers::push_str;

verus! {

impl crate::config::Output {
    /// The number of bytes to take from `available`: all of them, or the
    /// limit when it is smaller.
    pub open spec fn bytes_to_take(&self, available: int) -> int {
        match self.limit {
            Some(l) => if (l as int) < available { l as int } else { available },
            None => available,
        }
    }

    /// The first `n` values of `data`, each followed by the separator.
    pub open spec fn values(&self, data: Seq<u8>, n: nat) -> Seq<char>
        decreases n,
    {
        if n == 0 {
            seq![]
        } else {
            self.values(data, (n - 1) as nat) + self.format.spec_format(data[n - 1])
                + self.separator@
        }
    }

    /// Formats the bytes of `data`, up to the limit, as the value stream.
    pub fn format_values(&self, data: &[u8]) -> (r: String)
        ensures
            r@ == self.values(data@, self.bytes_to_take(data@.len() as int) as nat),
    {
        let n: usize = match self.limit {
            Some(l) => if l < data.len() { l } else { data.len() },
            None => data.len(),
        };
        let mut s = String::new();
        let mut i: usize = 0;
        while i < n
            invariant
                n <= data@.len(),
                i <= n,
                s@ == self.values(data@, i as nat),
            decreases n - i,
        {
            let value = self.format.format(data[i]);
            push_str(&mut s, value.as_str());
            push_str(&mut s, self.separator.as_str());
            i = i + 1;
            assert(s@ =~= self.values(data@, i as nat));
        }
        s
    }
}

} // verus!
