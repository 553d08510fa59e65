//! The tokens the reader produces.
use vstd::prelude::*;
use vstd::slice::slice_to_vec;
use vstd::string::StringSliceAdditionalSpecFns;

verus! {

/// A parsed token from Amark markup.
///
/// `ItemName` and `Text` carry their own copy of the bytes they cover, so a token stays
/// valid after the reader has moved on to the next line.
#[derive(Debug, Clone, PartialEq, Eq)]
pub enum AmarkToken {
    /// Start of a block item '{'
    BlockStart,
    /// Start of a parameter list '('
    ParamsStart,
    /// Start of a container item '['
    ContainerStart,
    /// End of a block item '}'
    BlockEnd,
    /// End of a parameter list ')'
    ParamsEnd,
    /// End of a container element ']'
    ContainerEnd,
    /// End of an item put after parameter lists or items directly ';'
    ItemEnd,
    /// An empty line
    EmptyLine,
    /// End of input
    End,
    /// An item with the given name
    ItemName(Vec<u8>),
    /// A line of text with the given content
    Text(Vec<u8>),
    /// An escape sequence character
    EscapeSequence(u8),
}

/// The mathematical value of a token: its payload bytes as a sequence.
pub enum TokenView {
    BlockStart,
    ParamsStart,
    ContainerStart,
    BlockEnd,
    ParamsEnd,
    ContainerEnd,
    ItemEnd,
    EmptyLine,
    End,
    ItemName(Seq<u8>),
    Text(Seq<u8>),
    EscapeSequence(u8),
}

impl View for AmarkToken {
    type V = TokenView;

    open spec fn view(&self) -> TokenView {
        match self {
            AmarkToken::BlockStart => TokenView::BlockStart,
            AmarkToken::ParamsStart => TokenView::ParamsStart,
            AmarkToken::ContainerStart => TokenView::ContainerStart,
            AmarkToken::BlockEnd => TokenView::BlockEnd,
            AmarkToken::ParamsEnd => TokenView::ParamsEnd,
            AmarkToken::ContainerEnd => TokenView::ContainerEnd,
            AmarkToken::ItemEnd => TokenView::ItemEnd,
            AmarkToken::EmptyLine => TokenView::EmptyLine,
            AmarkToken::End => TokenView::End,
            AmarkToken::ItemName(n) => TokenView::ItemName(n@),
            AmarkToken::Text(t) => TokenView::Text(t@),
            AmarkToken::EscapeSequence(b) => TokenView::EscapeSequence(*b),
        }
    }
}

/// Whether a token closes a context: a parameter list, a block or a container.
pub open spec fn closes_context(t: TokenView) -> bool {
    t is ParamsEnd || t is BlockEnd || t is ContainerEnd
}

/// The human-readable rendering of a token: `TagName` or `TagName(payload)`.
pub open spec fn dump_text(t: TokenView) -> Seq<u8> {
    match t {
        TokenView::BlockStart => "BlockStart".spec_bytes(),
        TokenView::ParamsStart => "ParamsStart".spec_bytes(),
        TokenView::ContainerStart => "ContainerStart".spec_bytes(),
        TokenView::BlockEnd => "BlockEnd".spec_bytes(),
        TokenView::ParamsEnd => "ParamsEnd".spec_bytes(),
        TokenView::ContainerEnd => "ContainerEnd".spec_bytes(),
        TokenView::ItemEnd => "ItemEnd".spec_bytes(),
        TokenView::EmptyLine => "EmptyLine".spec_bytes(),
        TokenView::End => "End".spec_bytes(),
        TokenView::ItemName(n) => "ItemName(".spec_bytes() + n + ")".spec_bytes(),
        TokenView::Text(t) => "Text(".spec_bytes() + t + ")".spec_bytes(),
        TokenView::EscapeSequence(b) => "EscapeSequence(".spec_bytes() + seq![b] + ")".spec_bytes(),
    }
}

/// `open` followed by `payload` followed by a closing parenthesis.
fn tagged(open: &str, payload: &[u8]) -> (r: Vec<u8>)
    ensures
        r@ == open.spec_bytes() + payload@ + ")".spec_bytes(),
{
    let mut out = slice_to_vec(open.as_bytes());
    let mut body = slice_to_vec(payload);
    let mut close = slice_to_vec(")".as_bytes());
    out.append(&mut body);
    out.append(&mut close);
    out
}

impl AmarkToken {
    /// Render the token as `TagName` or `TagName(payload)`, the payload bytes copied
    /// verbatim.
    pub fn dump(&self) -> (r: Vec<u8>)
        ensures
            r@ == dump_text(self@),
    {
        match self {
            AmarkToken::BlockStart => slice_to_vec("BlockStart".as_bytes()),
            AmarkToken::ParamsStart => slice_to_vec("ParamsStart".as_bytes()),
            AmarkToken::ContainerStart => slice_to_vec("ContainerStart".as_bytes()),
            AmarkToken::BlockEnd => slice_to_vec("BlockEnd".as_bytes()),
            AmarkToken::ParamsEnd => slice_to_vec("ParamsEnd".as_bytes()),
            AmarkToken::ContainerEnd => slice_to_vec("ContainerEnd".as_bytes()),
            AmarkToken::ItemEnd => slice_to_vec("ItemEnd".as_bytes()),
            AmarkToken::EmptyLine => slice_to_vec("EmptyLine".as_bytes()),
            AmarkToken::End => slice_to_vec("End".as_bytes()),
            AmarkToken::ItemName(n) => tagged("ItemName(", n.as_slice()),
            AmarkToken::Text(t) => tagged("Text(", t.as_slice()),
            AmarkToken::EscapeSequence(b) => {
                let one = vec![*b];
                tagged("EscapeSequence(", one.as_slice())
            },
        }
    }

    /// Check if this token indicates the end of a context.
    pub fn is_context_end(&self) -> (r: bool)
        ensures
            r == closes_context(self@),
    {
        match self {
            AmarkToken::ParamsEnd | AmarkToken::BlockEnd | AmarkToken::ContainerEnd => true,
            _ => false,
        }
    }
}

} // verus!
