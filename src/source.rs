//! A line-readable source of bytes held in memory.
use crate::semantics::{hits, lemma_scan_end_at, line_len, Stop};
use vstd::prelude::*;

verus! {

/// Bytes handed out one line at a time, like a cursor over a buffer.
#[derive(Debug)]
pub struct ByteSource {
    data: Vec<u8>,
    pos: usize,
}

impl View for ByteSource {
    type V = Seq<u8>;

    /// The bytes not yet handed out.
    closed spec fn view(&self) -> Seq<u8> {
        if self.pos <= self.data.len() {
            self.data@.subrange(self.pos as int, self.data.len() as int)
        } else {
            Seq::empty()
        }
    }
}

impl ByteSource {
    /// A source that hands out the given bytes.
    pub fn new(data: Vec<u8>) -> (r: Self)
        ensures
            r@ == data@,
    {
        let r = ByteSource { data, pos: 0 };
        assert(r@ =~= r.data@);
        r
    }

    /// Append the next line, its line feed included when there is one, to `buf`. Nothing
    /// is appended once the source is exhausted.
    pub fn read_line(&mut self, buf: &mut Vec<u8>)
        ensures
            final(buf)@ == old(buf)@ + old(self)@.take(line_len(old(self)@)),
            final(self)@ == old(self)@.skip(line_len(old(self)@)),
    {
        let ghost rest = self@;
        let ghost start = buf@;
        let n = self.data.len();
        let mut p: usize = if self.pos <= n { self.pos } else { n };
        let ghost from = p as int;
        assert(rest =~= self.data@.subrange(from, n as int));
        let mut at_end = false;
        while p < n && !at_end
            invariant
                n == self.data.len(),
                0 <= from <= p <= n,
                rest == self.data@.subrange(from, n as int),
                buf@ == start + self.data@.subrange(from, p as int),
                !at_end ==> forall|j: int|
                    from <= j < p ==> !hits(Stop::Newline, #[trigger] self.data@[j]),
                at_end ==> p > from && hits(Stop::Newline, self.data@[p - 1]) && forall|j: int|
                    from <= j < p - 1 ==> !hits(Stop::Newline, #[trigger] self.data@[j]),
            decreases n - p,
        {
            let b = self.data[p];
            buf.push(b);
            p = p + 1;
            assert(self.data@.subrange(from, p as int) =~= self.data@.subrange(from, p - 1)
                + seq![b]);
            if b == 0x0au8 {
                at_end = true;
            }
        }
        proof {
            if at_end {
                lemma_scan_end_at(rest, 0, Stop::Newline, p - 1 - from);
            } else {
                lemma_scan_end_at(rest, 0, Stop::Newline, p - from);
            }
            assert(rest.take(line_len(rest)) =~= self.data@.subrange(from, p as int));
        }
        self.pos = p;
        assert(self@ =~= rest.skip(line_len(rest)));
    }
}

} // verus!
