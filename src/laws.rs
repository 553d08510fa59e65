//! Properties of the token stream, proved over the reader's model.
//!
//! Every call of [`crate::AmarkReader::parse_next`] is one [`run`] of the machine, so what
//! holds of `run` here holds of the reader.
use crate::context::{expected_text, pop_of, top_of, Context};
use crate::error::ErrorView;
use crate::semantics::{
    lemma_filled, lemma_scan_end_bounds, run, search_forward, step, Cursor, Machine, Outcome,
    Stop, BACKSLASH,
};
use crate::token::TokenView;
use vstd::prelude::*;

verus! {

/// The tokens of `n` successive calls, cut short at the first error.
pub open spec fn tokens(m: Machine, n: nat) -> Seq<TokenView>
    decreases n,
{
    if n == 0 {
        Seq::empty()
    } else {
        match run(m).0 {
            Ok(t) => seq![t] + tokens(run(m).1, (n - 1) as nat),
            Err(_) => Seq::empty(),
        }
    }
}

/// The machine after `n` successive calls.
pub open spec fn after(m: Machine, n: nat) -> Machine
    decreases n,
{
    if n == 0 {
        m
    } else {
        after(run(m).1, (n - 1) as nat)
    }
}

/// How many tokens of `ts` equal `t`.
pub open spec fn count_tokens(ts: Seq<TokenView>, t: TokenView) -> int
    decreases ts.len(),
{
    if ts.len() == 0 {
        0
    } else {
        (if ts[0] == t {
            1int
        } else {
            0int
        }) + count_tokens(ts.drop_first(), t)
    }
}

/// How many entries of the stack are `c`.
pub open spec fn count_ctx(s: Seq<Context>, c: Context) -> int
    decreases s.len(),
{
    if s.len() == 0 {
        0
    } else {
        count_ctx(s.drop_last(), c) + if s.last() == c {
            1int
        } else {
            0int
        }
    }
}

/// The shape of every stack the reader builds: `TopLevel` is never on it, and a
/// parameter list always sits right above the item name or the escape sequence it
/// belongs to.
pub open spec fn stack_wf(s: Seq<Context>) -> bool
    decreases s.len(),
{
    if s.len() == 0 {
        true
    } else {
        let below = s.drop_last();
        &&& stack_wf(below)
        &&& s.last() != Context::TopLevel
        &&& s.last() == Context::Params ==> below.len() > 0 && (below.last() == Context::ItemName
            || below.last() == Context::EscapeSequence)
    }
}

/// A reader with nothing left: no resident line, an exhausted source, top level.
pub open spec fn at_rest(m: Machine) -> bool {
    &&& m.cur.line.len() == 0
    &&& m.cur.input.len() == 0
    &&& top_of(m.stack) == Context::TopLevel
}

/// How a token moves the number of open scopes of context `c`.
pub open spec fn delta(c: Context, t: TokenView) -> int {
    match c {
        Context::Block => if t is BlockStart {
            1
        } else if t is BlockEnd {
            -1
        } else {
            0
        },
        Context::Container => if t is ContainerStart {
            1
        } else if t is ContainerEnd {
            -1
        } else {
            0
        },
        Context::Params => if t is ParamsStart {
            1
        } else if t is ParamsEnd {
            -1
        } else {
            0
        },
        _ => 0,
    }
}

/// The counts of open blocks, containers and parameter lists move from `s1` to `s2` as
/// token `t` says.
pub open spec fn moves(s1: Seq<Context>, s2: Seq<Context>, t: TokenView) -> bool {
    &&& count_ctx(s2, Context::Block) == count_ctx(s1, Context::Block) + delta(Context::Block, t)
    &&& count_ctx(s2, Context::Container) == count_ctx(s1, Context::Container) + delta(
        Context::Container,
        t,
    )
    &&& count_ctx(s2, Context::Params) == count_ctx(s1, Context::Params) + delta(Context::Params, t)
}

proof fn lemma_count_push(s: Seq<Context>, x: Context)
    ensures
        count_ctx(s.push(x), Context::Block) == count_ctx(s, Context::Block) + if x
            == Context::Block {
            1int
        } else {
            0int
        },
        count_ctx(s.push(x), Context::Container) == count_ctx(s, Context::Container) + if x
            == Context::Container {
            1int
        } else {
            0int
        },
        count_ctx(s.push(x), Context::Params) == count_ctx(s, Context::Params) + if x
            == Context::Params {
            1int
        } else {
            0int
        },
{
    assert(s.push(x).drop_last() =~= s);
}

proof fn lemma_wf_push(s: Seq<Context>, x: Context)
    requires
        stack_wf(s),
        x != Context::TopLevel,
        x == Context::Params ==> s.len() > 0 && (s.last() == Context::ItemName || s.last()
            == Context::EscapeSequence),
    ensures
        stack_wf(s.push(x)),
{
    assert(s.push(x).drop_last() =~= s);
}

proof fn lemma_wf_pop(s: Seq<Context>)
    requires
        stack_wf(s),
    ensures
        stack_wf(pop_of(s)),
        top_of(s) == Context::TopLevel <==> s.len() == 0,
        top_of(s) == Context::Params ==> pop_of(s).len() > 0 && (top_of(pop_of(s))
            == Context::ItemName || top_of(pop_of(s)) == Context::EscapeSequence),
{
}

/// Popping a stack takes its top off the counts.
proof fn lemma_count_pop(s: Seq<Context>)
    requires
        s.len() > 0,
    ensures
        count_ctx(s, Context::Block) == count_ctx(pop_of(s), Context::Block) + if s.last()
            == Context::Block {
            1int
        } else {
            0int
        },
        count_ctx(s, Context::Container) == count_ctx(pop_of(s), Context::Container) + if s.last()
            == Context::Container {
            1int
        } else {
            0int
        },
        count_ctx(s, Context::Params) == count_ctx(pop_of(s), Context::Params) + if s.last()
            == Context::Params {
            1int
        } else {
            0int
        },
{
}

/// One iteration keeps the stack's shape; one that returns nothing leaves the counts of
/// open scopes alone, and one that returns a token moves them as the token says.
#[verifier::rlimit(60)]
proof fn lemma_step_counts(m: Machine)
    requires
        stack_wf(m.stack),
    ensures
        stack_wf(step(m).1.stack),
        step(m).0 is Continue ==> moves(m.stack, step(m).1.stack, TokenView::EmptyLine),
        step(m).0 matches Outcome::Emit(t) ==> moves(m.stack, step(m).1.stack, t),
{
    let s = m.stack;
    let p = pop_of(s);
    lemma_wf_pop(s);
    lemma_wf_pop(p);
    if s.len() > 0 {
        lemma_count_pop(s);
        lemma_wf_push(p, Context::Block);
        lemma_wf_push(p, Context::Container);
        lemma_count_push(p, Context::Block);
        lemma_count_push(p, Context::Container);
    }
    if p.len() > 0 {
        lemma_count_pop(p);
    }
    lemma_wf_push(s, Context::ItemName);
    lemma_wf_push(s, Context::EscapeSequence);
    lemma_count_push(s, Context::ItemName);
    lemma_count_push(s, Context::EscapeSequence);
    lemma_count_push(s, Context::Params);
    if top_of(s) == Context::ItemName || top_of(s) == Context::EscapeSequence {
        lemma_wf_push(s, Context::Params);
    }
}

/// One call keeps the stack's shape and moves the counts of open scopes as its token says.
proof fn lemma_run_counts(m: Machine)
    requires
        stack_wf(m.stack),
    ensures
        stack_wf(run(m).1.stack),
        run(m).0 matches Ok(t) ==> moves(m.stack, run(m).1.stack, t),
    decreases m.cur.input.len(), m.cur.rem(), m.stack.len(),
{
    lemma_step_counts(m);
    crate::semantics::lemma_step_progress(m);
    if step(m).0 is Continue {
        lemma_run_counts(step(m).1);
    }
}

proof fn lemma_stream_counts(m: Machine, n: nat)
    requires
        stack_wf(m.stack),
        tokens(m, n).len() == n,
    ensures
        stack_wf(after(m, n).stack),
        count_ctx(after(m, n).stack, Context::Block) == count_ctx(m.stack, Context::Block)
            + count_delta(tokens(m, n), Context::Block),
        count_ctx(after(m, n).stack, Context::Container) == count_ctx(m.stack, Context::Container)
            + count_delta(tokens(m, n), Context::Container),
        count_ctx(after(m, n).stack, Context::Params) == count_ctx(m.stack, Context::Params)
            + count_delta(tokens(m, n), Context::Params),
    decreases n,
{
    if n > 0 {
        lemma_run_counts(m);
        let t = run(m).0->Ok_0;
        let rest = tokens(run(m).1, (n - 1) as nat);
        assert((seq![t] + rest).drop_first() =~= rest);
        lemma_stream_counts(run(m).1, (n - 1) as nat);
    }
}

/// The sum of the moves that the tokens of `ts` make to the scopes of context `c`.
pub open spec fn count_delta(ts: Seq<TokenView>, c: Context) -> int
    decreases ts.len(),
{
    if ts.len() == 0 {
        0
    } else {
        delta(c, ts[0]) + count_delta(ts.drop_first(), c)
    }
}

proof fn lemma_count_delta(ts: Seq<TokenView>)
    ensures
        count_delta(ts, Context::Block) == count_tokens(ts, TokenView::BlockStart) - count_tokens(
            ts,
            TokenView::BlockEnd,
        ),
        count_delta(ts, Context::Container) == count_tokens(ts, TokenView::ContainerStart)
            - count_tokens(ts, TokenView::ContainerEnd),
        count_delta(ts, Context::Params) == count_tokens(ts, TokenView::ParamsStart)
            - count_tokens(ts, TokenView::ParamsEnd),
    decreases ts.len(),
{
    if ts.len() > 0 {
        lemma_count_delta(ts.drop_first());
    }
}

proof fn lemma_last_call(m: Machine, n: nat)
    requires
        n > 0,
        tokens(m, n).len() == n,
    ensures
        run(after(m, (n - 1) as nat)).0 == Ok::<TokenView, ErrorView>(tokens(m, n)[n - 1]),
        after(m, n) == run(after(m, (n - 1) as nat)).1,
    decreases n,
{
    let rest = tokens(run(m).1, (n - 1) as nat);
    assert(after(m, n) == after(run(m).1, (n - 1) as nat));
    if n > 1 {
        assert(tokens(m, n)[n - 1] == rest[n - 2]);
        lemma_last_call(run(m).1, (n - 1) as nat);
        assert(after(m, (n - 1) as nat) == after(run(m).1, (n - 2) as nat));
    } else {
        assert(after(run(m).1, 0) == run(m).1);
        assert(after(m, 0) == m);
    }
}

/// `End` comes only from an iteration that found the source exhausted at top level.
proof fn lemma_end_state(m: Machine)
    requires
        run(m).0 == Ok::<TokenView, ErrorView>(TokenView::End),
    ensures
        at_rest(run(m).1),
    decreases m.cur.input.len(), m.cur.rem(), m.stack.len(),
{
    crate::semantics::lemma_step_progress(m);
    if step(m).0 is Continue {
        lemma_end_state(step(m).1);
    } else {
        lemma_filled(m.cur);
    }
}

/// A reader at rest returns `End` and stays at rest.
proof fn lemma_rest_call(m: Machine)
    requires
        at_rest(m),
    ensures
        run(m).0 == Ok::<TokenView, ErrorView>(TokenView::End),
        at_rest(run(m).1),
{
    lemma_filled(m.cur);
}

proof fn lemma_rest_stream(m: Machine, k: nat)
    requires
        at_rest(m),
    ensures
        tokens(m, k) =~= Seq::new(k, |i: int| TokenView::End),
    decreases k,
{
    if k > 0 {
        lemma_rest_call(m);
        lemma_rest_stream(run(m).1, (k - 1) as nat);
    }
}

/// Once a call has returned `End`, the stream is over: every later call returns `End`
/// again, and never another token or an error.
pub proof fn end_is_final(m: Machine, k: nat)
    requires
        run(m).0 == Ok::<TokenView, ErrorView>(TokenView::End),
    ensures
        tokens(run(m).1, k) == Seq::new(k, |i: int| TokenView::End),
{
    lemma_end_state(m);
    lemma_rest_stream(run(m).1, k);
}

/// Every call keeps the shape of the context stack that [`stack_wf`] describes; a new
/// reader's empty stack has it.
pub proof fn run_keeps_stack_wf(m: Machine)
    requires
        stack_wf(m.stack),
    ensures
        stack_wf(run(m).1.stack),
{
    lemma_run_counts(m);
}

/// `End` is returned only once the source is exhausted and the context stack is back to
/// top level: every scope that was opened has been closed.
pub proof fn end_only_at_top_level(m: Machine)
    requires
        stack_wf(m.stack),
        run(m).0 == Ok::<TokenView, ErrorView>(TokenView::End),
    ensures
        run(m).1.stack.len() == 0,
        run(m).1.cur.input.len() == 0,
{
    lemma_end_state(m);
    lemma_run_counts(m);
    lemma_wf_pop(run(m).1.stack);
}

/// At the true end of the source with a context other than top level open, the call fails
/// with an unexpected end of input that names what would have closed that context.
pub proof fn eof_names_open_context(m: Machine)
    requires
        m.cur.pos >= m.cur.line.len(),
        m.cur.input.len() == 0,
        top_of(m.stack) != Context::TopLevel,
    ensures
        run(m).0 == Err::<TokenView, ErrorView>(
            ErrorView::UnexpectedEof { expected: expected_text(top_of(m.stack)) },
        ),
{
    lemma_filled(m.cur);
}

/// In a stream read from a reader with an empty context stack up to its `End`, there are
/// as many `BlockStart` as `BlockEnd` tokens, as many `ContainerStart` as `ContainerEnd`
/// tokens, and as many `ParamsStart` as `ParamsEnd` tokens.
pub proof fn scopes_balance(m: Machine, n: nat)
    requires
        m.stack.len() == 0,
        n > 0,
        tokens(m, n).len() == n,
        tokens(m, n)[n - 1] == TokenView::End,
    ensures
        count_tokens(tokens(m, n), TokenView::BlockStart) == count_tokens(
            tokens(m, n),
            TokenView::BlockEnd,
        ),
        count_tokens(tokens(m, n), TokenView::ContainerStart) == count_tokens(
            tokens(m, n),
            TokenView::ContainerEnd,
        ),
        count_tokens(tokens(m, n), TokenView::ParamsStart) == count_tokens(
            tokens(m, n),
            TokenView::ParamsEnd,
        ),
{
    lemma_stream_counts(m, n);
    lemma_last_call(m, n);
    lemma_end_state(after(m, (n - 1) as nat));
    lemma_wf_pop(after(m, n).stack);
    lemma_count_delta(tokens(m, n));
    assert(count_ctx(m.stack, Context::Block) == 0);
    assert(count_ctx(m.stack, Context::Container) == 0);
    assert(count_ctx(m.stack, Context::Params) == 0);
    assert(count_ctx(after(m, n).stack, Context::Block) == 0);
    assert(count_ctx(after(m, n).stack, Context::Container) == 0);
    assert(count_ctx(after(m, n).stack, Context::Params) == 0);
}

/// Inside a block or a parameter list, a backslash and the byte after it come out as
/// that very byte in an `EscapeSequence` token, whatever the byte is.
pub proof fn escape_is_verbatim(m: Machine)
    requires
        top_of(m.stack) == Context::Block || top_of(m.stack) == Context::Params,
        0 <= m.cur.pos,
        m.cur.pos + 1 < m.cur.line.len(),
        m.cur.line[m.cur.pos] == BACKSLASH,
    ensures
        run(m).0 == Ok::<TokenView, ErrorView>(
            TokenView::EscapeSequence(m.cur.line[m.cur.pos + 1]),
        ),
{
}

proof fn lemma_count_ctx_nonneg(s: Seq<Context>, c: Context)
    ensures
        count_ctx(s, c) >= 0,
    decreases s.len(),
{
    if s.len() > 0 {
        lemma_count_ctx_nonneg(s.drop_last(), c);
    }
}

/// The first `j` calls of a stream give the first `j` of its tokens.
proof fn lemma_tokens_prefix(m: Machine, n: nat, j: nat)
    requires
        j <= n,
        tokens(m, n).len() == n,
    ensures
        tokens(m, j) == tokens(m, n).take(j as int),
    decreases j,
{
    if j == 0 {
        assert(tokens(m, n).take(0) =~= Seq::<TokenView>::empty());
    } else {
        let t = run(m).0->Ok_0;
        let m1 = run(m).1;
        lemma_tokens_prefix(m1, (n - 1) as nat, (j - 1) as nat);
        assert((seq![t] + tokens(m1, (n - 1) as nat)).take(j as int) =~= seq![t] + tokens(
            m1,
            (n - 1) as nat,
        ).take(j - 1));
    }
}

/// In a stream read from a reader with an empty context stack, no prefix holds more
/// `BlockEnd` than `BlockStart` tokens, more `ContainerEnd` than `ContainerStart` tokens,
/// or more `ParamsEnd` than `ParamsStart` tokens: a scope is closed only once it was
/// opened.
pub proof fn scopes_close_after_they_open(m: Machine, n: nat, j: nat)
    requires
        m.stack.len() == 0,
        tokens(m, n).len() == n,
        j <= n,
    ensures
        count_tokens(tokens(m, n).take(j as int), TokenView::BlockEnd) <= count_tokens(
            tokens(m, n).take(j as int),
            TokenView::BlockStart,
        ),
        count_tokens(tokens(m, n).take(j as int), TokenView::ContainerEnd) <= count_tokens(
            tokens(m, n).take(j as int),
            TokenView::ContainerStart,
        ),
        count_tokens(tokens(m, n).take(j as int), TokenView::ParamsEnd) <= count_tokens(
            tokens(m, n).take(j as int),
            TokenView::ParamsStart,
        ),
{
    lemma_tokens_prefix(m, n, j);
    lemma_stream_counts(m, j);
    lemma_count_delta(tokens(m, j));
    lemma_count_ctx_nonneg(after(m, j).stack, Context::Block);
    lemma_count_ctx_nonneg(after(m, j).stack, Context::Container);
    lemma_count_ctx_nonneg(after(m, j).stack, Context::Params);
    assert(count_ctx(m.stack, Context::Block) == 0);
    assert(count_ctx(m.stack, Context::Container) == 0);
    assert(count_ctx(m.stack, Context::Params) == 0);
}

/// The bytes a reader still has to read: the rest of its line and the pending source.
pub open spec fn pending(m: Machine) -> nat {
    m.cur.input.len() + m.cur.rem()
}

proof fn lemma_search_forward_pending(c: Cursor)
    requires
        c.wf(),
    ensures
        search_forward(c).rewound().input.len() + search_forward(c).rewound().rem()
            <= c.input.len() + c.rem(),
    decreases c.input.len(), c.rem(),
{
    if c.line.len() != 0 {
        if c.pos < c.line.len() {
            if crate::semantics::is_space(c.line[c.pos]) {
                lemma_search_forward_pending(c.at(c.pos + 1));
            }
        } else {
            lemma_filled(c);
            if c.filled().line.len() != 0 {
                lemma_search_forward_pending(c.filled());
            }
        }
    }
}

/// An iteration never adds to what is left to read, and one that returns a token other
/// than `End` has read at least one byte.
#[verifier::rlimit(60)]
proof fn lemma_step_pending(m: Machine)
    requires
        m.cur.wf(),
    ensures
        step(m).0 is Continue ==> pending(step(m).1) <= pending(m),
        step(m).0 matches Outcome::Emit(t) && t != TokenView::End ==> pending(step(m).1) < pending(
            m,
        ),
{
    let c = m.cur;
    if 0 <= c.pos < c.line.len() {
        let c1 = c.at(c.pos + 1);
        lemma_search_forward_pending(c1);
        lemma_scan_end_bounds(c.line, c.pos + 1, Stop::NotSpace);
        lemma_scan_end_bounds(c.line, c.pos + 1, Stop::NotIdent);
        lemma_scan_end_bounds(c.line, c.pos, Stop::NotIdent);
        lemma_scan_end_bounds(c.line, c.pos, Stop::TextEnd(crate::semantics::CLOSE_BRACE));
        lemma_scan_end_bounds(c.line, c.pos, Stop::TextEnd(crate::semantics::CLOSE_PAREN));
    } else {
        lemma_filled(c);
    }
}

proof fn lemma_run_pending(m: Machine)
    requires
        m.cur.wf(),
    ensures
        run(m).1.cur.wf(),
        run(m).0 matches Ok(t) && t != TokenView::End ==> pending(run(m).1) < pending(m),
    decreases m.cur.input.len(), m.cur.rem(), m.stack.len(),
{
    lemma_step_pending(m);
    crate::semantics::lemma_step_progress(m);
    if step(m).0 is Continue {
        lemma_run_pending(step(m).1);
    }
}

proof fn lemma_stream_ends(m: Machine, n: nat)
    requires
        m.cur.wf(),
        n > pending(m),
    ensures
        tokens(m, n).len() < n || tokens(m, n).contains(TokenView::End),
    decreases n,
{
    lemma_run_pending(m);
    match run(m).0 {
        Ok(t) => {
            let rest = tokens(run(m).1, (n - 1) as nat);
            if t == TokenView::End {
                assert(tokens(m, n)[0] == TokenView::End);
            } else {
                lemma_stream_ends(run(m).1, (n - 1) as nat);
                if rest.contains(TokenView::End) {
                    let i = choose|i: int| 0 <= i < rest.len() && rest[i] == TokenView::End;
                    assert(tokens(m, n)[i + 1] == TokenView::End);
                }
            }
        },
        Err(_) => {},
    }
}

/// A reader whose input holds no error reaches `End`: within one call more than the
/// bytes it still has to read, its stream has either failed or returned `End`; and
/// after `End` only `End` follows.
pub proof fn end_is_reached(m: Machine)
    requires
        m.cur.wf(),
    ensures
        tokens(m, pending(m) + 1).len() < pending(m) + 1 || tokens(m, pending(m) + 1).contains(
            TokenView::End,
        ),
{
    lemma_stream_ends(m, pending(m) + 1);
}

} // verus!
