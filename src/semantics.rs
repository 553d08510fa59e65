//! The reader as a mathematical state machine.
//!
//! A [`Machine`] is the whole state of a reader together with the input it has not yet
//! pulled: the context stack, the resident line with its cursor, the line counter and
//! the pending source bytes. [`run`] gives the outcome of one call of the reader, and the
//! executable reader is proved to follow it exactly.
use crate::context::{expected_text, pop_of, top_of, Context};
use crate::error::ErrorView;
use crate::token::TokenView;
use vstd::prelude::*;
use vstd::string::StringSliceAdditionalSpecFns;

verus! {

/// `\n`
pub const LINE_FEED: u8 = 0x0a;
/// `\\`
pub const BACKSLASH: u8 = 0x5c;
/// `{`
pub const OPEN_BRACE: u8 = 0x7b;
/// `}`
pub const CLOSE_BRACE: u8 = 0x7d;
/// `(`
pub const OPEN_PAREN: u8 = 0x28;
/// `)`
pub const CLOSE_PAREN: u8 = 0x29;
/// `[`
pub const OPEN_BRACKET: u8 = 0x5b;
/// `]`
pub const CLOSE_BRACKET: u8 = 0x5d;
/// `;`
pub const SEMICOLON: u8 = 0x3b;
/// `@`
pub const AT_SIGN: u8 = 0x40;

/// ASCII whitespace: space, tab, line feed, form feed and carriage return.
pub open spec fn is_space(b: u8) -> bool {
    b == 0x20u8 || b == 0x09u8 || b == 0x0au8 || b == 0x0cu8 || b == 0x0du8
}

/// The bytes that open or close a block, a parameter list or a container.
pub open spec fn is_context_byte(b: u8) -> bool {
    b == OPEN_BRACE || b == CLOSE_BRACE || b == OPEN_PAREN || b == CLOSE_PAREN || b == OPEN_BRACKET
        || b == CLOSE_BRACKET
}

/// The bytes an item name is made of: neither whitespace, nor a context byte, nor `;`.
pub open spec fn is_ident_byte(b: u8) -> bool {
    !is_space(b) && !is_context_byte(b) && b != SEMICOLON
}

/// What a forward scan stops at.
pub enum Stop {
    /// The first byte that is not whitespace
    NotSpace,
    /// The first whitespace byte
    Space,
    /// The first byte that cannot belong to an item name
    NotIdent,
    /// The first line feed
    Newline,
    /// The first line feed, backslash or the given closing byte
    TextEnd(u8),
}

/// Whether a scan of kind `k` stops at byte `b`.
pub open spec fn hits(k: Stop, b: u8) -> bool {
    match k {
        Stop::NotSpace => !is_space(b),
        Stop::Space => is_space(b),
        Stop::NotIdent => !is_ident_byte(b),
        Stop::Newline => b == LINE_FEED,
        Stop::TextEnd(end) => b == LINE_FEED || b == end || b == BACKSLASH,
    }
}

/// The index of the first byte of `s` at or after `from` that `k` stops at, or `s.len()`
/// when there is none.
pub open spec fn scan_end(s: Seq<u8>, from: int, k: Stop) -> int
    decreases s.len() - from,
{
    if from >= s.len() {
        s.len() as int
    } else if hits(k, s[from]) {
        from
    } else {
        scan_end(s, from + 1, k)
    }
}

/// The length of the first line of `s`, its line feed included when there is one.
pub open spec fn line_len(s: Seq<u8>) -> int {
    let e = scan_end(s, 0, Stop::Newline);
    if e < s.len() {
        e + 1
    } else {
        s.len() as int
    }
}

/// The line counter after one more line was pulled; it wraps around.
pub open spec fn next_line_no(n: usize) -> usize {
    if n == usize::MAX {
        0
    } else {
        (n + 1) as usize
    }
}

/// A scan ends within the sequence, on a byte it stops at unless it ran to the end.
pub proof fn lemma_scan_end_bounds(s: Seq<u8>, from: int, k: Stop)
    requires
        0 <= from <= s.len(),
    ensures
        from <= scan_end(s, from, k) <= s.len(),
        scan_end(s, from, k) < s.len() ==> hits(k, s[scan_end(s, from, k)]),
    decreases s.len() - from,
{
    if from < s.len() && !hits(k, s[from]) {
        lemma_scan_end_bounds(s, from + 1, k);
    }
}

/// A scan stops at `i` when no byte in `from..i` is one it stops at, and `i` is the end or
/// a byte it stops at.
pub proof fn lemma_scan_end_at(s: Seq<u8>, from: int, k: Stop, i: int)
    requires
        0 <= from <= i <= s.len(),
        forall|j: int| from <= j < i ==> !hits(k, #[trigger] s[j]),
        i == s.len() || hits(k, s[i]),
    ensures
        scan_end(s, from, k) == i,
    decreases i - from,
{
    if from < i {
        lemma_scan_end_at(s, from + 1, k, i);
    }
}

/// The line buffer with its cursor, the line counter, and the source bytes not yet pulled.
pub struct Cursor {
    pub line: Seq<u8>,
    pub pos: int,
    pub line_no: usize,
    pub input: Seq<u8>,
}

impl Cursor {
    /// The cursor lies within the line.
    pub open spec fn wf(self) -> bool {
        0 <= self.pos <= self.line.len()
    }

    /// How many resident bytes are left to read.
    pub open spec fn rem(self) -> nat {
        if 0 <= self.pos < self.line.len() {
            (self.line.len() - self.pos) as nat
        } else {
            0
        }
    }

    /// The cursor moved to offset `p`.
    pub open spec fn at(self, p: int) -> Cursor {
        Cursor { pos: p, ..self }
    }

    /// The cursor moved back by one byte, not past the start of the line.
    pub open spec fn rewound(self) -> Cursor {
        self.at(if self.pos > 0 { self.pos - 1 } else { 0 })
    }

    /// The next line pulled from the source into the cleared buffer.
    pub open spec fn filled(self) -> Cursor {
        let n = line_len(self.input);
        Cursor {
            line: self.input.take(n),
            pos: 0,
            line_no: next_line_no(self.line_no),
            input: self.input.skip(n),
        }
    }

    /// Whitespace skipped within the resident line only.
    pub open spec fn skip_space(self) -> Cursor {
        self.at(scan_end(self.line, self.pos, Stop::NotSpace))
    }

}

/// Pulling a line takes at least one byte from a source that has any, and none from an
/// exhausted one.
pub proof fn lemma_filled(c: Cursor)
    ensures
        c.filled().wf(),
        c.filled().line.len() == 0 <==> c.input.len() == 0,
        c.filled().line.len() + c.filled().input.len() == c.input.len(),
        c.filled().line + c.filled().input == c.input,
{
    lemma_scan_end_bounds(c.input, 0, Stop::Newline);
    assert(c.filled().line + c.filled().input =~= c.input);
}

/// Whitespace skipped across lines: the cursor ends just past the first byte that is not
/// whitespace, or on the empty buffer left when the source ran out.
pub open spec fn search_forward(c: Cursor) -> Cursor
    decreases c.input.len(), c.rem(),
{
    if c.line.len() == 0 {
        c
    } else if 0 <= c.pos < c.line.len() {
        if !is_space(c.line[c.pos]) {
            c.at(c.pos + 1)
        } else {
            search_forward(c.at(c.pos + 1))
        }
    } else {
        let f = c.filled();
        if f.line.len() == 0 {
            f
        } else {
            proof {
                lemma_filled(c);
            }
            search_forward(f)
        }
    }
}

/// The whole state of a reader and its source.
pub struct Machine {
    pub stack: Seq<Context>,
    pub cur: Cursor,
}

impl Machine {
    /// The machine with another cursor.
    pub open spec fn with_cur(self, c: Cursor) -> Machine {
        Machine { cur: c, ..self }
    }

    /// The machine with another context stack.
    pub open spec fn with_stack(self, s: Seq<Context>) -> Machine {
        Machine { stack: s, ..self }
    }
}

/// A reader that has processed nothing yet, holding `line` as its resident line.
pub open spec fn initial_machine(line: Seq<u8>, line_no: usize, input: Seq<u8>) -> Machine {
    Machine { stack: Seq::empty(), cur: Cursor { line, pos: 0, line_no, input } }
}

/// What one iteration of the reader's loop does.
pub enum Outcome {
    /// The call returns this token
    Emit(TokenView),
    /// The call fails with this error
    Fail(ErrorView),
    /// The loop goes on
    Continue,
}

/// The description of what ends a text run in a block (`}`) or a parameter list.
pub open spec fn text_expected(end: u8) -> Seq<u8> {
    if end == CLOSE_BRACE {
        "End of line indicator for text line or end of item indicator }".spec_bytes()
    } else {
        "End of line indicator for text line or end of params indicator )".spec_bytes()
    }
}

/// What may follow an item name, reported for any other byte there.
pub open spec fn item_expected() -> Seq<u8> {
    "Start or End of item token {, (, [ or ;".spec_bytes()
}

/// What should end an item name, reported when the line ends inside one.
pub open spec fn name_end_expected() -> Seq<u8> {
    "Any other symbol after item name".spec_bytes()
}

/// What is legal at top level, reported for a stray `]` there.
pub open spec fn top_level_expected() -> Seq<u8> {
    "Item or EOF".spec_bytes()
}

/// A failure for an unexpected end of input.
pub open spec fn eof(expected: Seq<u8>) -> Outcome {
    Outcome::Fail(ErrorView::UnexpectedEof { expected })
}

/// An opening bracket: the new context is pushed and the whitespace after it skipped,
/// across lines if need be; the byte found is left for the next call.
pub open spec fn open_scope(m: Machine, stack: Seq<Context>, tok: TokenView) -> (Outcome, Machine) {
    (Outcome::Emit(tok), m.with_stack(stack).with_cur(search_forward(m.cur).rewound()))
}

/// An item name read from the cursor on; a terminating context byte or `;` is left for
/// the next call, a terminating whitespace byte is consumed.
pub open spec fn item_name(m: Machine) -> (Outcome, Machine) {
    let c = m.cur;
    let e = scan_end(c.line, c.pos, Stop::NotIdent);
    if e >= c.line.len() {
        (eof(name_end_expected()), m.with_cur(c.at(c.line.len() as int)))
    } else {
        let b = c.line[e];
        let p = if is_context_byte(b) || b == SEMICOLON { e } else { e + 1 };
        (
            Outcome::Emit(TokenView::ItemName(c.line.subrange(c.pos, e))),
            m.with_stack(m.stack.push(Context::ItemName)).with_cur(c.at(p)),
        )
    }
}

/// A text run read from the cursor on, up to a line feed, a backslash or `end`; a
/// line feed is consumed, a backslash or `end` is left for the next call.
pub open spec fn text(m: Machine, end: u8) -> (Outcome, Machine) {
    let c = m.cur;
    let e = scan_end(c.line, c.pos, Stop::TextEnd(end));
    if e >= c.line.len() {
        (eof(text_expected(end)), m.with_cur(c.at(c.line.len() as int)))
    } else {
        let b = c.line[e];
        let p = if b == end || b == BACKSLASH { e } else { e + 1 };
        (Outcome::Emit(TokenView::Text(c.line.subrange(c.pos, e))), m.with_cur(c.at(p)))
    }
}

/// An escape sequence after a backslash: the next byte, taken verbatim.
pub open spec fn escape(m: Machine) -> (Outcome, Machine) {
    let c = m.cur;
    let s = m.stack.push(Context::EscapeSequence);
    if c.pos < c.line.len() {
        (
            Outcome::Emit(TokenView::EscapeSequence(c.line[c.pos])),
            m.with_stack(s).with_cur(c.at(c.pos + 1)),
        )
    } else {
        (eof(expected_text(Context::EscapeSequence)), m.with_stack(s))
    }
}

/// The reaction to byte `b`, which the cursor of `m` has just passed.
pub open spec fn dispatch(m: Machine, b: u8) -> (Outcome, Machine) {
    match top_of(m.stack) {
        Context::ItemName => {
            if b == OPEN_BRACE {
                open_scope(m, pop_of(m.stack).push(Context::Block), TokenView::BlockStart)
            } else if b == OPEN_BRACKET {
                open_scope(m, pop_of(m.stack).push(Context::Container), TokenView::ContainerStart)
            } else if b == OPEN_PAREN {
                open_scope(m, m.stack.push(Context::Params), TokenView::ParamsStart)
            } else if b == SEMICOLON {
                (
                    Outcome::Emit(TokenView::ItemEnd),
                    m.with_stack(pop_of(m.stack)).with_cur(m.cur.skip_space()),
                )
            } else if is_space(b) {
                (Outcome::Continue, m)
            } else {
                let e = ErrorView::UnexpectedInput { expected: item_expected(), got: seq![b] };
                (Outcome::Fail(e), m)
            }
        },
        Context::Container | Context::TopLevel => {
            if b == CLOSE_BRACKET {
                if top_of(m.stack) == Context::Container {
                    (Outcome::Emit(TokenView::ContainerEnd), m.with_stack(pop_of(m.stack)))
                } else {
                    let e = ErrorView::UnexpectedInput { expected: top_level_expected(), got: seq![b] };
                    (Outcome::Fail(e), m)
                }
            } else if b == CLOSE_BRACE {
                (
                    Outcome::Fail(ErrorView::UnexpectedInput {
                        expected: expected_text(Context::Container),
                        got: expected_text(Context::Block),
                    }),
                    m,
                )
            } else if is_ident_byte(b) {
                item_name(m.with_cur(m.cur.rewound()))
            } else {
                (Outcome::Continue, m)
            }
        },
        Context::Block => {
            if b == LINE_FEED {
                (Outcome::Emit(TokenView::EmptyLine), m)
            } else if b == BACKSLASH {
                escape(m)
            } else if b == AT_SIGN {
                item_name(m)
            } else if b == CLOSE_BRACE {
                (
                    Outcome::Emit(TokenView::BlockEnd),
                    m.with_stack(pop_of(m.stack)).with_cur(m.cur.skip_space()),
                )
            } else if is_space(b) {
                (Outcome::Continue, m)
            } else {
                text(m.with_cur(m.cur.rewound()), CLOSE_BRACE)
            }
        },
        Context::EscapeSequence => {
            if b == OPEN_PAREN {
                open_scope(m, m.stack.push(Context::Params), TokenView::ParamsStart)
            } else {
                (Outcome::Continue, m.with_stack(pop_of(m.stack)).with_cur(m.cur.rewound()))
            }
        },
        Context::Params => {
            if b == BACKSLASH {
                escape(m)
            } else if b == CLOSE_PAREN {
                let s = pop_of(m.stack);
                let s2 = if top_of(s) != Context::ItemName { pop_of(s) } else { s };
                (Outcome::Emit(TokenView::ParamsEnd), m.with_stack(s2).with_cur(m.cur.skip_space()))
            } else {
                text(m.with_cur(m.cur.rewound()), CLOSE_PAREN)
            }
        },
    }
}

/// One iteration of the reader's loop: react to the next resident byte, or pull the next
/// line when the resident one is used up. An empty pull means the source is exhausted:
/// that is the end at top level, and an error naming the open context anywhere else.
pub open spec fn step(m: Machine) -> (Outcome, Machine) {
    let c = m.cur;
    if 0 <= c.pos < c.line.len() {
        dispatch(m.with_cur(c.at(c.pos + 1)), c.line[c.pos])
    } else {
        let f = c.filled();
        let m2 = m.with_cur(f);
        if f.line.len() == 0 {
            if top_of(m.stack) == Context::TopLevel {
                (Outcome::Emit(TokenView::End), m2)
            } else {
                (eof(expected_text(top_of(m.stack))), m2)
            }
        } else {
            (Outcome::Continue, m2)
        }
    }
}

/// Skipping whitespace leaves the cursor within its line.
pub proof fn lemma_search_forward_wf(c: Cursor)
    requires
        c.wf(),
    ensures
        search_forward(c).wf(),
    decreases c.input.len(), c.rem(),
{
    if c.line.len() != 0 {
        if c.pos < c.line.len() {
            if is_space(c.line[c.pos]) {
                lemma_search_forward_wf(c.at(c.pos + 1));
            }
        } else {
            lemma_filled(c);
            if c.filled().line.len() != 0 {
                lemma_search_forward_wf(c.filled());
            }
        }
    }
}

/// Every iteration keeps the cursor within its line, and one that returns nothing makes
/// progress: it pulls source bytes, passes a byte, or pops an escape context.
pub proof fn lemma_step_progress(m: Machine)
    ensures
        m.cur.wf() ==> step(m).1.cur.wf(),
        step(m).0 is Continue ==> {
            let m2 = step(m).1;
            ||| m2.cur.input.len() < m.cur.input.len()
            ||| m2.cur.input.len() == m.cur.input.len() && m2.cur.rem() < m.cur.rem()
            ||| m2.cur.input.len() == m.cur.input.len() && m2.cur.rem() == m.cur.rem()
                && m2.stack.len() < m.stack.len()
        },
{
    let c = m.cur;
    if 0 <= c.pos < c.line.len() {
        let m1 = m.with_cur(c.at(c.pos + 1));
        lemma_search_forward_wf(m1.cur);
        lemma_scan_end_bounds(c.line, c.pos + 1, Stop::NotSpace);
        lemma_scan_end_bounds(c.line, c.pos + 1, Stop::Space);
        lemma_scan_end_bounds(c.line, c.pos + 1, Stop::NotIdent);
        lemma_scan_end_bounds(c.line, c.pos, Stop::NotIdent);
        lemma_scan_end_bounds(c.line, c.pos, Stop::TextEnd(CLOSE_BRACE));
        lemma_scan_end_bounds(c.line, c.pos, Stop::TextEnd(CLOSE_PAREN));
    } else {
        lemma_filled(c);
    }
}

/// One call of the reader: iterations of its loop until one of them returns.
pub open spec fn run(m: Machine) -> (Result<TokenView, ErrorView>, Machine)
    decreases m.cur.input.len(), m.cur.rem(), m.stack.len(),
{
    let (o, m2) = step(m);
    match o {
        Outcome::Emit(t) => (Ok(t), m2),
        Outcome::Fail(e) => (Err(e), m2),
        Outcome::Continue => {
            proof {
                lemma_step_progress(m);
            }
            run(m2)
        },
    }
}

} // verus!
