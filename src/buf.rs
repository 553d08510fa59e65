//! A buffer holding one line of input and how much of it has been processed.
use crate::semantics::{search_forward, Cursor, lemma_filled};
use crate::source::ByteSource;
use vstd::prelude::*;
use vstd::slice::{slice_subrange, slice_to_vec};

verus! {

/// One line of input and the offset of the next byte to process in it.
#[derive(Debug)]
pub struct Buf {
    /// The internal storage for the buffer, reused from line to line
    storage: Vec<u8>,
    /// How many bytes of the line have been processed
    processed: usize,
}

impl Buf {
    /// The resident line.
    pub closed spec fn line(&self) -> Seq<u8> {
        self.storage@
    }

    /// The offset of the next byte to process.
    pub closed spec fn pos(&self) -> int {
        self.processed as int
    }

    /// The offset never passes the end of the line.
    pub open spec fn wf(&self) -> bool {
        0 <= self.pos() <= self.line().len()
    }

    /// The buffer as a cursor of the reader's model, with the line counter and the bytes
    /// the source has not handed out yet.
    pub open spec fn cursor(&self, line_no: usize, input: Seq<u8>) -> Cursor {
        Cursor { line: self.line(), pos: self.pos(), line_no, input }
    }

    /// The bytes of the line not processed yet.
    pub open spec fn rest_spec(&self) -> Seq<u8> {
        self.line().subrange(self.pos(), self.line().len() as int)
    }

    /// Create a buffer that uses the passed vector as its storage; its bytes are the
    /// resident line, none of them processed.
    pub fn with_storage(storage: Vec<u8>) -> (r: Self)
        ensures
            r.line() == storage@,
            r.pos() == 0,
            r.wf(),
    {
        Buf { storage, processed: 0 }
    }

    /// Clear the buffer, count one more line, and pull the next line from the source.
    /// An exhausted source leaves the buffer empty.
    pub fn fill_with_line(&mut self, cur_line: &mut usize, reader: &mut ByteSource)
        ensures
            final(self).cursor(*final(cur_line), final(reader)@) == old(self).cursor(
                *old(cur_line),
                old(reader)@,
            ).filled(),
            final(self).wf(),
    {
        self.storage.clear();
        self.processed = 0;
        *cur_line = cur_line.wrapping_add(1);
        reader.read_line(&mut self.storage);
        proof {
            lemma_filled(old(self).cursor(*old(cur_line), old(reader)@));
            assert(self.storage@ =~= old(reader)@.take(crate::semantics::line_len(old(reader)@)));
        }
    }

    /// Skip whitespace, pulling more lines when the resident one is used up. The cursor
    /// ends just past the first byte that is not whitespace; `true` is returned unless the
    /// source ran out first, which leaves the buffer empty.
    pub fn search_forward(&mut self, current_line: &mut usize, reader: &mut ByteSource) -> (r:
        bool)
        requires
            old(self).wf(),
        ensures
            final(self).cursor(*final(current_line), final(reader)@) == search_forward(
                old(self).cursor(*old(current_line), old(reader)@),
            ),
            r == (final(self).line().len() != 0),
            final(self).wf(),
    {
        let ghost goal = search_forward(self.cursor(*current_line, reader@));
        let mut found = false;
        loop
            invariant_except_break
                !found,
                search_forward(self.cursor(*current_line, reader@)) == goal,
            invariant
                self.wf(),
            ensures
                self.wf(),
                self.cursor(*current_line, reader@) == goal,
                found == (self.line().len() != 0),
            decreases reader@.len(), self.cursor(*current_line, reader@).rem(),
        {
            if self.storage_empty() {
                break;
            }
            let ghost before = self.cursor(*current_line, reader@);
            match self.next_byte() {
                Some(b) => {
                    if !is_ascii_whitespace(b) {
                        found = true;
                        break;
                    }
                },
                None => {
                    self.fill_with_line(current_line, reader);
                    proof {
                        lemma_filled(before);
                    }
                    if self.storage_empty() {
                        break;
                    }
                },
            }
        }
        found
    }

    /// Retrieve the next byte if one is left in the line, and move past it.
    pub fn next_byte(&mut self) -> (r: Option<u8>)
        ensures
            final(self).line() == old(self).line(),
            0 <= old(self).pos() < old(self).line().len() ==> r == Some(old(self).line()[old(
                self,
            ).pos()]) && final(self).pos() == old(self).pos() + 1,
            !(0 <= old(self).pos() < old(self).line().len()) ==> r is None && final(self).pos()
                == old(self).pos(),
            r is Some ==> final(self).wf(),
    {
        if self.processed < self.storage.len() {
            let ret = self.storage[self.processed];
            self.processed = self.processed + 1;
            Some(ret)
        } else {
            None
        }
    }

    /// Give back `n` processed bytes so they are processed again, not past the start.
    pub fn rewind(&mut self, n: usize)
        ensures
            final(self).line() == old(self).line(),
            final(self).pos() == if old(self).pos() >= n {
                old(self).pos() - n
            } else {
                0
            },
    {
        self.processed = self.processed.saturating_sub(n);
    }

    /// Whether the storage is empty: no line is resident, which after a pull means the
    /// source is exhausted. It says nothing of whether bytes are left to process.
    pub fn storage_empty(&self) -> (r: bool)
        ensures
            r == (self.line().len() == 0),
    {
        self.storage.len() == 0
    }

    /// Take the storage for later reuse.
    pub fn take_storage(self) -> (r: Vec<u8>)
        ensures
            r@ == self.line(),
    {
        self.storage
    }

    /// The bytes of the line not processed yet.
    pub fn rest(&self) -> (r: &[u8])
        requires
            self.wf(),
        ensures
            r@ == self.rest_spec(),
    {
        slice_subrange(self.storage.as_slice(), self.processed, self.storage.len())
    }

    /// Take the unprocessed bytes up to the terminator that the search found `found` bytes
    /// past the cursor, and move past the terminator; then give back as many bytes as
    /// `rewind` asks for that terminator (never past the start of the line), so that it can
    /// be processed again. When the search found nothing the rest of the line is used up
    /// and nothing is returned.
    pub fn take_until_rewind<F: Fn(u8) -> usize>(&mut self, found: Option<usize>, rewind: F) -> (r:
        Option<(Vec<u8>, u8)>)
        requires
            old(self).wf(),
            found matches Some(p) ==> p < old(self).rest_spec().len(),
            forall|b: u8| #[trigger] rewind.requires((b,)),
        ensures
            final(self).line() == old(self).line(),
            final(self).wf(),
            match found {
                Some(p) => {
                    let term = old(self).rest_spec()[p as int];
                    &&& r matches Some((t, b)) && t@ == old(self).rest_spec().take(p as int)
                        && b == term
                    &&& exists|n: usize|
                        #[trigger] rewind.ensures((term,), n) && final(self).pos() == if old(
                            self,
                        ).pos() + p + 1 >= n {
                            old(self).pos() + p + 1 - n
                        } else {
                            0
                        }
                },
                None => r is None && final(self).pos() == old(self).line().len(),
            },
    {
        match found {
            Some(p) => {
                let start = self.processed;
                assert(self.rest_spec().len() == self.storage@.len() - start);
                let len = self.storage.len();
                assert(p < self.rest_spec().len());
                assert(start + p < len);
                let taken = slice_to_vec(
                    slice_subrange(self.storage.as_slice(), start, start + p),
                );
                let term = self.storage[start + p];
                assert(term == self.rest_spec()[p as int]);
                assert(taken@ =~= self.rest_spec().take(p as int));
                self.processed = start + p + 1;
                let n = rewind(term);
                self.processed = self.processed.saturating_sub(n);
                Some((taken, term))
            },
            None => {
                self.processed = self.storage.len();
                None
            },
        }
    }
}

/// ASCII whitespace: space, tab, line feed, form feed and carriage return.
pub fn is_ascii_whitespace(b: u8) -> (r: bool)
    ensures
        r == crate::semantics::is_space(b),
{
    b == 0x20u8 || b == 0x09u8 || b == 0x0au8 || b == 0x0cu8 || b == 0x0du8
}

} // verus!
