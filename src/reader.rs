//! The reader: a pushdown automaton over the context stack and the line buffer.
use crate::buf::{is_ascii_whitespace, Buf};
use crate::context::{top_of, Context, ContextStack};
use crate::error::{AmarkError, ErrorView};
use crate::scan::{find_non_ident, find_text_end, is_ascii_context_char};
use crate::semantics::{
    dispatch, escape, hits, initial_machine, is_context_byte, item_name, lemma_scan_end_at,
    lemma_step_progress, run, scan_end, search_forward, step, text, Machine, Outcome, Stop,
    AT_SIGN, BACKSLASH, CLOSE_BRACE, CLOSE_BRACKET, CLOSE_PAREN, LINE_FEED, OPEN_BRACE,
    OPEN_BRACKET, OPEN_PAREN, SEMICOLON,
};
use crate::source::ByteSource;
use crate::token::{AmarkToken, TokenView};
use vstd::prelude::*;
use vstd::slice::slice_to_vec;

verus! {

/// The value of a call's result.
pub open spec fn result_view(r: Result<AmarkToken, AmarkError>) -> Result<TokenView, ErrorView> {
    match r {
        Ok(t) => Ok(t@),
        Err(e) => Err(e@),
    }
}

/// What one iteration of the loop decided.
enum Dispatch {
    Emit(AmarkToken),
    Fail(AmarkError),
    Continue,
}

impl View for Dispatch {
    type V = Outcome;

    closed spec fn view(&self) -> Outcome {
        match self {
            Dispatch::Emit(t) => Outcome::Emit(t@),
            Dispatch::Fail(e) => Outcome::Fail(e@),
            Dispatch::Continue => Outcome::Continue,
        }
    }
}

fn eof_error(expected: &[u8]) -> (r: AmarkError)
    ensures
        r@ == (ErrorView::UnexpectedEof { expected: expected@ }),
{
    AmarkError::UnexpectedEof { expected: slice_to_vec(expected) }
}

fn unexpected_byte(expected: Vec<u8>, b: u8) -> (r: AmarkError)
    ensures
        r@ == (ErrorView::UnexpectedInput { expected: expected@, got: seq![b] }),
{
    let got = vec![b];
    assert(got@ == seq![b]);
    AmarkError::UnexpectedInput { expected, got }
}

/// Skip ahead the whitespace of the line; the first other byte is left to process.
fn skip_space(buf: &mut Buf)
    requires
        old(buf).wf(),
    ensures
        final(buf).line() == old(buf).line(),
        final(buf).pos() == scan_end(old(buf).line(), old(buf).pos(), Stop::NotSpace),
        final(buf).wf(),
{
    let ghost line = buf.line();
    let ghost from = buf.pos();
    loop
        invariant
            buf.line() == line,
            from <= buf.pos() <= line.len(),
            0 <= from,
            forall|j: int| from <= j < buf.pos() ==> !hits(Stop::NotSpace, #[trigger] line[j]),
        ensures
            buf.line() == line,
            buf.pos() == scan_end(line, from, Stop::NotSpace),
        decreases line.len() - buf.pos(),
    {
        match buf.next_byte() {
            Some(b) => {
                if !is_ascii_whitespace(b) {
                    buf.rewind(1);
                    proof {
                        lemma_scan_end_at(line, from, Stop::NotSpace, buf.pos());
                    }
                    break;
                }
            },
            None => {
                proof {
                    lemma_scan_end_at(line, from, Stop::NotSpace, buf.pos());
                }
                break;
            },
        }
    }
}

/// Reader for Amark markup. It does not hold its source: the source is passed to each
/// call of [`AmarkReader::parse_next`].
#[derive(Debug)]
pub struct AmarkReader {
    /// The inner reader state
    inner: AmarkReaderInner,
    /// The current line
    cur_line: usize,
}

impl AmarkReader {
    /// The context stack, bottom first.
    pub closed spec fn stack(&self) -> Seq<Context> {
        self.inner.context_stack@
    }

    /// The line buffer.
    pub closed spec fn buffer(&self) -> Buf {
        self.inner.buf
    }

    /// The line counter.
    pub closed spec fn line_no(&self) -> usize {
        self.cur_line
    }

    /// The reader as a state of the machine of [`crate::semantics`], reading from a
    /// source whose pending bytes are `input`.
    pub open spec fn model(&self, input: Seq<u8>) -> Machine {
        Machine { stack: self.stack(), cur: self.buffer().cursor(self.line_no(), input) }
    }

    /// Create a new reader with an empty buffer.
    pub fn new() -> (r: Self)
        ensures
            forall|input: Seq<u8>| #[trigger]
                r.model(input) == initial_machine(Seq::empty(), 0, input),
    {
        Self::with_buf(Vec::new())
    }

    /// Create a new reader that reuses the allocation of the given vector as its buffer.
    /// Its contents are dropped: the reader starts exactly as [`AmarkReader::new`] does.
    pub fn with_buf(buf: Vec<u8>) -> (r: Self)
        ensures
            forall|input: Seq<u8>| #[trigger]
                r.model(input) == initial_machine(Seq::empty(), 0, input),
    {
        let r = AmarkReader { inner: AmarkReaderInner::with_buf(buf), cur_line: 0 };
        assert forall|input: Seq<u8>| #[trigger]
            r.model(input) == initial_machine(Seq::empty(), 0, input) by {
            assert(r.inner.machine(0, input) == initial_machine(Seq::empty(), 0, input));
        }
        r
    }

    /// Parse the next token. The result and the new state are those of one call of the
    /// machine of [`crate::semantics`].
    pub fn parse_next(&mut self, reader: &mut ByteSource) -> (r: Result<AmarkToken, AmarkError>)
        ensures
            (result_view(r), final(self).model(final(reader)@)) == run(
                old(self).model(old(reader)@),
            ),
    {
        self.inner.parse_next_inner(&mut self.cur_line, reader)
    }

    /// Parse the next token and get the line counter after it.
    pub fn parse_next_get_cur_line(&mut self, reader: &mut ByteSource) -> (r: (
        Result<AmarkToken, AmarkError>,
        usize,
    ))
        ensures
            (result_view(r.0), final(self).model(final(reader)@)) == run(
                old(self).model(old(reader)@),
            ),
            r.1 == final(self).line_no(),
    {
        let r = self.inner.parse_next_inner(&mut self.cur_line, reader);
        (r, self.cur_line)
    }

    /// Take the buffer for later reuse.
    pub fn take_buf(self) -> (r: Vec<u8>)
        ensures
            r@ == self.buffer().line(),
    {
        self.inner.buf.take_storage()
    }

    /// Get the current line.
    pub fn cur_line(&self) -> (r: usize)
        ensures
            r == self.line_no(),
    {
        self.cur_line
    }
}

impl Default for AmarkReader {
    fn default() -> (r: Self)
        ensures
            forall|input: Seq<u8>| #[trigger]
                r.model(input) == initial_machine(Seq::empty(), 0, input),
    {
        Self::with_buf(Vec::new())
    }
}

/// The token that an opening bracket stands for, and the context it opens.
fn parse_ascii_context_char(byte: u8) -> (r: (AmarkToken, Context))
    requires
        byte == OPEN_BRACKET || byte == OPEN_BRACE || byte == OPEN_PAREN,
    ensures
        byte == OPEN_BRACKET ==> r.0@ == TokenView::ContainerStart && r.1 == Context::Container,
        byte == OPEN_BRACE ==> r.0@ == TokenView::BlockStart && r.1 == Context::Block,
        byte == OPEN_PAREN ==> r.0@ == TokenView::ParamsStart && r.1 == Context::Params,
{
    if byte == OPEN_BRACKET {
        (AmarkToken::ContainerStart, Context::Container)
    } else if byte == OPEN_BRACE {
        (AmarkToken::BlockStart, Context::Block)
    } else {
        (AmarkToken::ParamsStart, Context::Params)
    }
}

/// The state of the reader besides the line counter.
#[derive(Debug)]
struct AmarkReaderInner {
    /// The buffer to process data
    buf: Buf,
    /// A stack of [`Context`] items
    context_stack: ContextStack,
}

impl AmarkReaderInner {
    spec fn machine(&self, line_no: usize, input: Seq<u8>) -> Machine {
        Machine { stack: self.context_stack@, cur: self.buf.cursor(line_no, input) }
    }

    /// Create a new instance whose empty buffer reuses the given storage.
    fn with_buf(storage: Vec<u8>) -> (r: Self)
        ensures
            forall|n: usize, input: Seq<u8>| #[trigger]
                r.machine(n, input) == initial_machine(Seq::empty(), n, input),
    {
        let mut storage = storage;
        storage.clear();
        AmarkReaderInner { buf: Buf::with_storage(storage), context_stack: ContextStack::new() }
    }

    /// Try to read an item name from the cursor on. Reads until the next byte that cannot
    /// belong to an item name.
    fn read_item_name(buf: &mut Buf) -> (r: Result<Vec<u8>, AmarkError>)
        requires
            old(buf).wf(),
        ensures
            ({
                let m = Machine { stack: Seq::empty(), cur: old(buf).cursor(0, Seq::empty()) };
                let (o, m2) = item_name(m);
                &&& final(buf).line() == old(buf).line()
                &&& final(buf).pos() == m2.cur.pos
                &&& final(buf).wf()
                &&& match r {
                    Ok(name) => o == Outcome::Emit(TokenView::ItemName(name@)),
                    Err(e) => o == Outcome::Fail(e@),
                }
            }),
    {
        let ghost line = buf.line();
        let ghost from = buf.pos();
        let found = find_non_ident(buf.rest());
        let rewind = |b: u8| -> (n: usize)
            ensures
                n == if is_context_byte(b) || b == SEMICOLON {
                    1usize
                } else {
                    0usize
                },
            {
                if is_ascii_context_char(b) || b == SEMICOLON {
                    1
                } else {
                    0
                }
            };
        proof {
            match found {
                Some(i) => {
                    assert forall|j: int| from <= j < from + i implies !hits(
                        Stop::NotIdent,
                        #[trigger] line[j],
                    ) by {
                        assert(line[j] == buf.rest_spec()[j - from]);
                    }
                    assert(line[from + i] == buf.rest_spec()[i as int]);
                    lemma_scan_end_at(line, from, Stop::NotIdent, from + i);
                },
                None => {
                    assert forall|j: int| from <= j < line.len() implies !hits(
                        Stop::NotIdent,
                        #[trigger] line[j],
                    ) by {
                        assert(line[j] == buf.rest_spec()[j - from]);
                    }
                    lemma_scan_end_at(line, from, Stop::NotIdent, line.len() as int);
                },
            }
        }
        match buf.take_until_rewind(found, rewind) {
            Some((name, _)) => {
                assert(name@ =~= line.subrange(from, scan_end(line, from, Stop::NotIdent)));
                Ok(name)
            },
            None => Err(
                eof_error("Any other symbol after item name".as_bytes()),
            ),
        }
    }

    /// An item name read from the cursor on, pushed as the new context.
    fn item_name(&mut self, Ghost(line_no): Ghost<usize>, Ghost(input): Ghost<Seq<u8>>) -> (r:
        Dispatch)
        requires
            old(self).buf.wf(),
        ensures
            (r@, final(self).machine(line_no, input)) == item_name(
                old(self).machine(line_no, input),
            ),
            final(self).buf.wf(),
    {
        match Self::read_item_name(&mut self.buf) {
            Ok(name) => {
                self.context_stack.push(Context::ItemName);
                Dispatch::Emit(AmarkToken::ItemName(name))
            },
            Err(e) => Dispatch::Fail(e),
        }
    }

    /// Try to read a line of text, up to a line feed, a backslash or `end_char`.
    fn try_read_text(buf: &mut Buf, end_char: u8) -> (r: Option<(Vec<u8>, u8)>)
        requires
            old(buf).wf(),
        ensures
            ({
                let m = Machine { stack: Seq::empty(), cur: old(buf).cursor(0, Seq::empty()) };
                let (o, m2) = text(m, end_char);
                &&& final(buf).line() == old(buf).line()
                &&& final(buf).pos() == m2.cur.pos
                &&& final(buf).wf()
                &&& match r {
                    Some((t, b)) => o == Outcome::Emit(TokenView::Text(t@)) && b == old(
                        buf,
                    ).line()[scan_end(old(buf).line(), old(buf).pos(), Stop::TextEnd(end_char))],
                    None => o is Fail,
                }
            }),
    {
        let ghost line = buf.line();
        let ghost from = buf.pos();
        let found = find_text_end(end_char, buf.rest());
        let rewind = |b: u8| -> (n: usize)
            ensures
                n == if b == end_char || b == BACKSLASH {
                    1usize
                } else {
                    0usize
                },
            {
                if b == end_char || b == BACKSLASH {
                    1
                } else {
                    0
                }
            };
        proof {
            match found {
                Some(i) => {
                    assert forall|j: int| from <= j < from + i implies !hits(
                        Stop::TextEnd(end_char),
                        #[trigger] line[j],
                    ) by {
                        assert(line[j] == buf.rest_spec()[j - from]);
                    }
                    assert(line[from + i] == buf.rest_spec()[i as int]);
                    lemma_scan_end_at(line, from, Stop::TextEnd(end_char), from + i);
                },
                None => {
                    assert forall|j: int| from <= j < line.len() implies !hits(
                        Stop::TextEnd(end_char),
                        #[trigger] line[j],
                    ) by {
                        assert(line[j] == buf.rest_spec()[j - from]);
                    }
                    lemma_scan_end_at(line, from, Stop::TextEnd(end_char), line.len() as int);
                },
            }
        }
        let r = buf.take_until_rewind(found, rewind);
        proof {
            if r is Some {
                let t = r->Some_0.0;
                assert(t@ =~= line.subrange(from, scan_end(line, from, Stop::TextEnd(end_char))));
            }
        }
        r
    }

    /// A text run read from the cursor on, up to a line feed, a backslash or `end_char`.
    fn text(
        &mut self,
        end_char: u8,
        Ghost(line_no): Ghost<usize>,
        Ghost(input): Ghost<Seq<u8>>,
    ) -> (r: Dispatch)
        requires
            old(self).buf.wf(),
            end_char == CLOSE_BRACE || end_char == CLOSE_PAREN,
        ensures
            (r@, final(self).machine(line_no, input)) == text(
                old(self).machine(line_no, input),
                end_char,
            ),
            final(self).buf.wf(),
    {
        match Self::try_read_text(&mut self.buf, end_char) {
            Some((line, _)) => Dispatch::Emit(AmarkToken::Text(line)),
            None => {
                let expected = if end_char == CLOSE_BRACE {
                    "End of line indicator for text line or end of item indicator }".as_bytes()
                } else {
                    "End of line indicator for text line or end of params indicator )".as_bytes()
                };
                Dispatch::Fail(eof_error(expected))
            },
        }
    }

    /// Try to parse an escape sequence; escape sequences are always one byte long.
    fn parse_escape_sequence(
        &mut self,
        Ghost(line_no): Ghost<usize>,
        Ghost(input): Ghost<Seq<u8>>,
    ) -> (r: Dispatch)
        requires
            old(self).buf.wf(),
        ensures
            (r@, final(self).machine(line_no, input)) == escape(old(self).machine(line_no, input)),
            final(self).buf.wf(),
    {
        self.context_stack.push(Context::EscapeSequence);
        match self.buf.next_byte() {
            Some(b) => Dispatch::Emit(AmarkToken::EscapeSequence(b)),
            None => Dispatch::Fail(eof_error(Context::EscapeSequence.expected())),
        }
    }

    /// An opening bracket: skip the whitespace after it, across lines if need be, and leave
    /// the first other byte to process.
    fn open_scope(
        &mut self,
        tok: AmarkToken,
        cur_line: &mut usize,
        reader: &mut ByteSource,
    ) -> (r: Dispatch)
        requires
            old(self).buf.wf(),
        ensures
            r@ == Outcome::Emit(tok@),
            final(self).context_stack@ == old(self).context_stack@,
            final(self).buf.cursor(*final(cur_line), final(reader)@) == search_forward(
                old(self).buf.cursor(*old(cur_line), old(reader)@),
            ).rewound(),
            final(self).buf.wf(),
    {
        self.buf.search_forward(cur_line, reader);
        self.buf.rewind(1);
        Dispatch::Emit(tok)
    }

    /// After an item name: a bracket opens its scope, `;` ends it.
    fn dispatch_item_name(&mut self, b: u8, cur_line: &mut usize, reader: &mut ByteSource) -> (r:
        Dispatch)
        requires
            old(self).buf.wf(),
            top_of(old(self).context_stack@) == Context::ItemName,
        ensures
            (r@, final(self).machine(*final(cur_line), final(reader)@)) == dispatch(
                old(self).machine(*old(cur_line), old(reader)@),
                b,
            ),
            final(self).buf.wf(),
    {
        if b == OPEN_BRACE || b == OPEN_BRACKET || b == OPEN_PAREN {
            // A block or a container closes the item; a parameter list keeps it open
            if b != OPEN_PAREN {
                self.context_stack.pop();
            }
            let (tok, ctx) = parse_ascii_context_char(b);
            self.context_stack.push(ctx);
            self.open_scope(tok, cur_line, reader)
        } else if b == SEMICOLON {
            self.context_stack.pop();
            skip_space(&mut self.buf);
            Dispatch::Emit(AmarkToken::ItemEnd)
        } else if is_ascii_whitespace(b) {
            Dispatch::Continue
        } else {
            let expected = slice_to_vec("Start or End of item token {, (, [ or ;".as_bytes());
            Dispatch::Fail(unexpected_byte(expected, b))
        }
    }

    /// At top level or in a container: items and the container's end.
    fn dispatch_outer(
        &mut self,
        b: u8,
        cur_line: &mut usize,
        reader: &mut ByteSource,
    ) -> (r: Dispatch)
        requires
            old(self).buf.wf(),
            top_of(old(self).context_stack@) == Context::Container || top_of(old(self).context_stack@)
                == Context::TopLevel,
        ensures
            (r@, final(self).machine(*final(cur_line), final(reader)@)) == dispatch(
                old(self).machine(*old(cur_line), old(reader)@),
                b,
            ),
            final(self).buf.wf(),
    {
        let ghost n = *cur_line;
        let ghost input = reader@;
        let ctx = self.context_stack.last();
        if b == CLOSE_BRACKET {
            if ctx == Context::Container {
                self.context_stack.pop();
                Dispatch::Emit(AmarkToken::ContainerEnd)
            } else {
                Dispatch::Fail(unexpected_byte(slice_to_vec("Item or EOF".as_bytes()), b))
            }
        } else if b == CLOSE_BRACE {
            Dispatch::Fail(
                AmarkError::UnexpectedInput {
                    expected: slice_to_vec(Context::Container.expected()),
                    got: slice_to_vec(Context::Block.expected()),
                },
            )
        } else if crate::scan::is_ascii_ident_char(b) {
            self.buf.rewind(1);
            self.item_name(Ghost(n), Ghost(input))
        } else {
            Dispatch::Continue
        }
    }

    /// In a block: text, escape sequences, `@` items and the block's end.
    fn dispatch_block(
        &mut self,
        b: u8,
        cur_line: &mut usize,
        reader: &mut ByteSource,
    ) -> (r: Dispatch)
        requires
            old(self).buf.wf(),
            top_of(old(self).context_stack@) == Context::Block,
        ensures
            (r@, final(self).machine(*final(cur_line), final(reader)@)) == dispatch(
                old(self).machine(*old(cur_line), old(reader)@),
                b,
            ),
            final(self).buf.wf(),
    {
        let ghost n = *cur_line;
        let ghost input = reader@;
        if b == LINE_FEED {
            Dispatch::Emit(AmarkToken::EmptyLine)
        } else if b == BACKSLASH {
            self.parse_escape_sequence(Ghost(n), Ghost(input))
        } else if b == AT_SIGN {
            self.item_name(Ghost(n), Ghost(input))
        } else if b == CLOSE_BRACE {
            self.context_stack.pop();
            skip_space(&mut self.buf);
            Dispatch::Emit(AmarkToken::BlockEnd)
        } else if is_ascii_whitespace(b) {
            Dispatch::Continue
        } else {
            self.buf.rewind(1);
            self.text(CLOSE_BRACE, Ghost(n), Ghost(input))
        }
    }

    /// After an escape sequence: an optional parameter list.
    fn dispatch_escape(
        &mut self,
        b: u8,
        cur_line: &mut usize,
        reader: &mut ByteSource,
    ) -> (r: Dispatch)
        requires
            old(self).buf.wf(),
            top_of(old(self).context_stack@) == Context::EscapeSequence,
        ensures
            (r@, final(self).machine(*final(cur_line), final(reader)@)) == dispatch(
                old(self).machine(*old(cur_line), old(reader)@),
                b,
            ),
            final(self).buf.wf(),
    {
        let ghost n = *cur_line;
        let ghost input = reader@;
        if b == OPEN_PAREN {
            self.context_stack.push(Context::Params);
            self.open_scope(AmarkToken::ParamsStart, cur_line, reader)
        } else {
            self.buf.rewind(1);
            self.context_stack.pop();
            Dispatch::Continue
        }
    }

    /// In a parameter list: text, escape sequences and the list's end.
    fn dispatch_params(
        &mut self,
        b: u8,
        cur_line: &mut usize,
        reader: &mut ByteSource,
    ) -> (r: Dispatch)
        requires
            old(self).buf.wf(),
            top_of(old(self).context_stack@) == Context::Params,
        ensures
            (r@, final(self).machine(*final(cur_line), final(reader)@)) == dispatch(
                old(self).machine(*old(cur_line), old(reader)@),
                b,
            ),
            final(self).buf.wf(),
    {
        let ghost n = *cur_line;
        let ghost input = reader@;
        if b == BACKSLASH {
            self.parse_escape_sequence(Ghost(n), Ghost(input))
        } else if b == CLOSE_PAREN {
            skip_space(&mut self.buf);
            self.context_stack.pop();
            // The list of an escape sequence needs no `;`: its context goes too
            if self.context_stack.last() != Context::ItemName {
                self.context_stack.pop();
            }
            Dispatch::Emit(AmarkToken::ParamsEnd)
        } else {
            self.buf.rewind(1);
            self.text(CLOSE_PAREN, Ghost(n), Ghost(input))
        }
    }

    /// The reaction to byte `b`, which the cursor has just passed.
    fn dispatch(
        &mut self,
        b: u8,
        cur_line: &mut usize,
        reader: &mut ByteSource,
    ) -> (r: Dispatch)
        requires
            old(self).buf.wf(),
        ensures
            (r@, final(self).machine(*final(cur_line), final(reader)@)) == dispatch(
                old(self).machine(*old(cur_line), old(reader)@),
                b,
            ),
            final(self).buf.wf(),
    {
        match self.context_stack.last() {
            Context::ItemName => self.dispatch_item_name(b, cur_line, reader),
            Context::Container | Context::TopLevel => self.dispatch_outer(b, cur_line, reader),
            Context::Block => self.dispatch_block(b, cur_line, reader),
            Context::EscapeSequence => self.dispatch_escape(b, cur_line, reader),
            Context::Params => self.dispatch_params(b, cur_line, reader),
        }
    }

    /// One iteration of the loop: react to the next byte of the line, or pull the next
    /// line when this one is used up.
    fn step(&mut self, cur_line: &mut usize, reader: &mut ByteSource) -> (r: Dispatch)
        ensures
            (r@, final(self).machine(*final(cur_line), final(reader)@)) == step(
                old(self).machine(*old(cur_line), old(reader)@),
            ),
            final(self).buf.wf(),
    {
        match self.buf.next_byte() {
            Some(b) => self.dispatch(b, cur_line, reader),
            None => {
                self.buf.fill_with_line(cur_line, reader);
                let ctx = self.context_stack.last();
                if self.buf.storage_empty() {
                    if ctx == Context::TopLevel {
                        Dispatch::Emit(AmarkToken::End)
                    } else {
                        Dispatch::Fail(eof_error(ctx.expected()))
                    }
                } else {
                    Dispatch::Continue
                }
            },
        }
    }

    /// The parsing logic: loop over the bytes until a token or an error comes out.
    fn parse_next_inner(&mut self, cur_line: &mut usize, reader: &mut ByteSource) -> (r: Result<
        AmarkToken,
        AmarkError,
    >)
        ensures
            (result_view(r), final(self).machine(*final(cur_line), final(reader)@)) == run(
                old(self).machine(*old(cur_line), old(reader)@),
            ),
    {
        let ghost goal = run(self.machine(*cur_line, reader@));
        let mut out: Option<Result<AmarkToken, AmarkError>> = None;
        loop
            invariant_except_break
                out is None,
                run(self.machine(*cur_line, reader@)) == goal,
            ensures
                out matches Some(r) && (result_view(r), self.machine(*cur_line, reader@)) == goal,
            decreases reader@.len(), self.machine(*cur_line, reader@).cur.rem(),
                self.machine(*cur_line, reader@).stack.len(),
        {
            let ghost before = self.machine(*cur_line, reader@);
            proof {
                lemma_step_progress(before);
            }
            match self.step(cur_line, reader) {
                Dispatch::Emit(t) => {
                    out = Some(Ok(t));
                    break;
                },
                Dispatch::Fail(e) => {
                    out = Some(Err(e));
                    break;
                },
                Dispatch::Continue => {},
            }
        }
        match out {
            Some(r) => r,
            None => Err(eof_error(Context::TopLevel.expected())),
        }
    }
}

} // verus!
