//! The grammar scopes the reader can be in, and the stack that nests them.
use vstd::prelude::*;
use vstd::string::StringSliceAdditionalSpecFns;

verus! {

/// The scope the reader is currently in.
#[derive(Debug, Clone, Copy, PartialEq, Eq, Structural)]
pub enum Context {
    /// Inside a block item
    Block,
    /// Inside a parameter list
    Params,
    /// Inside a container item
    Container,
    /// Top level "no" context
    TopLevel,
    /// After an item name
    ItemName,
    /// Parsing an escape sequence
    EscapeSequence,
}

/// The text that describes what would legally end the given context.
pub open spec fn expected_text(ctx: Context) -> Seq<u8> {
    match ctx {
        Context::Block => "End of Block: }".spec_bytes(),
        Context::Params => "End of Parameter List: )".spec_bytes(),
        Context::Container => "End of Container: ]".spec_bytes(),
        Context::TopLevel => "Any valid Token".spec_bytes(),
        Context::ItemName => "An element start indicator: (, [ or {".spec_bytes(),
        Context::EscapeSequence => "Escape Sequence after `\\`".spec_bytes(),
    }
}

impl Context {
    /// Text which shows the expected token to end the given context, for reporting an
    /// unexpected end of input.
    pub fn expected(self) -> (r: &'static [u8])
        ensures
            r@ == expected_text(self),
    {
        match self {
            Context::Block => "End of Block: }".as_bytes(),
            Context::Params => "End of Parameter List: )".as_bytes(),
            Context::Container => "End of Container: ]".as_bytes(),
            Context::TopLevel => "Any valid Token".as_bytes(),
            Context::ItemName => "An element start indicator: (, [ or {".as_bytes(),
            Context::EscapeSequence => "Escape Sequence after `\\`".as_bytes(),
        }
    }
}

/// The context on top of a stack; an empty stack stands for [`Context::TopLevel`].
pub open spec fn top_of(s: Seq<Context>) -> Context {
    if s.len() == 0 {
        Context::TopLevel
    } else {
        s.last()
    }
}

/// The stack without its top; popping an empty stack leaves it empty.
pub open spec fn pop_of(s: Seq<Context>) -> Seq<Context> {
    if s.len() == 0 {
        s
    } else {
        s.drop_last()
    }
}

/// A stack of [`Context`] items showing where in the markup the reader currently is.
#[derive(Debug)]
pub struct ContextStack {
    stack: Vec<Context>,
}

impl View for ContextStack {
    type V = Seq<Context>;

    closed spec fn view(&self) -> Seq<Context> {
        self.stack@
    }
}

impl ContextStack {
    /// Create a new empty context stack.
    pub fn new() -> (r: Self)
        ensures
            r@ == Seq::<Context>::empty(),
    {
        ContextStack { stack: Vec::with_capacity(5) }
    }

    /// Push a context on top of the stack.
    pub fn push(&mut self, ctx: Context)
        ensures
            final(self)@ == old(self)@.push(ctx),
    {
        self.stack.push(ctx);
    }

    /// Remove and return the top of the stack, or [`Context::TopLevel`] when it is empty.
    pub fn pop(&mut self) -> (r: Context)
        ensures
            r == top_of(old(self)@),
            final(self)@ == pop_of(old(self)@),
    {
        match self.stack.pop() {
            Some(c) => c,
            None => Context::TopLevel,
        }
    }

    /// The top of the stack, or [`Context::TopLevel`] when it is empty.
    pub fn last(&self) -> (r: Context)
        ensures
            r == top_of(self@),
    {
        let n = self.stack.len();
        if n == 0 {
            Context::TopLevel
        } else {
            self.stack[n - 1]
        }
    }
}

} // verus!
