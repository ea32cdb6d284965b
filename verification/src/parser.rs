//! The parser: a cursor over the tokens, the event buffer, the diagnostics sink and the
//! contextual state, with the markers that open and close nodes and the checkpoints
//! that undo a speculative attempt.

use vstd::prelude::*;
use crate::diagnostic::{Diagnostic, DiagnosticBuilder, DiagnosticView};
use crate::event::{
    fills_slot, lemma_slot_added, only_errors, slots_between,
    closes, error_refs, iota, leaf_tokens, lemma_leaves_kept, lemma_open_persists,
    lemma_open_starts_sorted, lemma_prefix_well_nested, lemma_push, lemma_same_roles,
    lemma_withdraw_finish, lemma_withdraw_start, open_starts, well_nested, Event,
};
use crate::state::{ParserState, ParserStateView};
use crate::syntax_kind::{FileKind, Syntax, SyntaxKind};
use crate::token::{TextRange, Token};

verus! {

/// `a` is an initial part of `b`.
pub open spec fn prefix_of<A>(a: Seq<A>, b: Seq<A>) -> bool {
    &&& a.len() <= b.len()
    &&& forall|i: int| 0 <= i < a.len() ==> #[trigger] a[i] == b[i]
}

/// A handle to a node that is open: the position of its `StartNode` event.
///
/// Whoever starts a node closes it with [`Marker::complete`] or withdraws it with
/// [`Marker::abandon`], once.
#[derive(Debug)]
pub struct Marker {
    /// The position of the `StartNode` event in the buffer.
    pub pos: usize,
    /// The number of the first token that can belong to the node.
    pub token_start: usize,
}

/// A handle to a node that is closed.
#[derive(Clone, Copy, Debug, PartialEq, Eq, Structural)]
pub struct CompletedMarker {
    /// The position of the `StartNode` event.
    pub start: usize,
    /// The position of the `FinishNode` event.
    pub finish: usize,
    /// The kind the node was closed with.
    pub kind: SyntaxKind,
    /// The number of the first token of the node.
    pub token_start: usize,
    /// The number of the first token after the node.
    pub token_end: usize,
}

/// Everything a rewind needs: where the cursor stood, how long the event buffer and
/// the diagnostics sink were, and what the state was.
#[derive(Debug)]
pub struct Checkpoint {
    pub pos: usize,
    pub events_len: usize,
    pub diagnostics_len: usize,
    pub state: ParserState,
}

/// The kind and the range of a token.
#[derive(Clone, Copy, Debug, PartialEq, Eq, Structural)]
pub struct TokenHead {
    pub kind: SyntaxKind,
    pub range: TextRange,
}

/// The mathematical value of a [`Parser`].
pub struct ParserView {
    /// The tokens, which a parse never changes.
    pub tokens: Seq<Token>,
    /// How many tokens have been consumed.
    pub pos: nat,
    pub events: Seq<Event>,
    pub diagnostics: Seq<DiagnosticView>,
    pub state: ParserStateView,
    pub file_kind: FileKind,
}

impl ParserView {
    /// The invariant of a parse, whatever rule is running:
    /// the brackets of the buffer nest; the tokens attached so far are exactly the
    /// tokens consumed so far, each once and in source order; and the diagnostics
    /// attached are exactly the diagnostics in the sink, in order. The three
    /// sequences have lengths that a machine word holds.
    pub open spec fn wf(self) -> bool {
        &&& self.pos <= self.tokens.len() <= usize::MAX
        &&& self.events.len() <= usize::MAX
        &&& self.diagnostics.len() <= usize::MAX
        &&& well_nested(self.events)
        &&& leaf_tokens(self.events) == iota(self.pos)
        &&& error_refs(self.events) == iota(self.diagnostics.len())
    }

    /// The positions of the nodes that are open, outermost first.
    pub open spec fn open(self) -> Seq<int> {
        open_starts(self.events)
    }

    /// Whether `pos` is the innermost open node.
    pub open spec fn innermost(self, pos: usize) -> bool {
        self.open().len() > 0 && self.open().last() == pos
    }

    /// Whether every token has been consumed.
    pub open spec fn at_end(self) -> bool {
        self.pos >= self.tokens.len()
    }

    /// How many tokens are left.
    pub open spec fn remaining(self) -> int {
        self.tokens.len() - self.pos
    }

    /// The kind of the token `n` places ahead; `EOF` past the last token.
    pub open spec fn nth_kind(self, n: int) -> SyntaxKind {
        if 0 <= self.pos + n < self.tokens.len() {
            self.tokens[self.pos + n].kind
        } else {
            SyntaxKind::EOF
        }
    }

    pub open spec fn cur_kind(self) -> SyntaxKind {
        self.nth_kind(0)
    }

    /// The text of the token `n` places ahead; empty past the last token.
    pub open spec fn nth_text(self, n: int) -> Seq<char> {
        if 0 <= self.pos + n < self.tokens.len() {
            self.tokens[self.pos + n].text@
        } else {
            Seq::empty()
        }
    }

    pub open spec fn cur_text(self) -> Seq<char> {
        self.nth_text(0)
    }

    /// The offset at which the source ends.
    pub open spec fn end_offset(self) -> usize {
        if self.tokens.len() > 0 {
            self.tokens.last().range.end
        } else {
            0
        }
    }

    /// The range of token number `i`; the empty range at the end of the source past
    /// the last token.
    pub open spec fn range_at(self, i: int) -> TextRange {
        if 0 <= i < self.tokens.len() {
            self.tokens[i].range
        } else {
            TextRange { start: self.end_offset(), end: self.end_offset() }
        }
    }

    pub open spec fn cur_range(self) -> TextRange {
        self.range_at(self.pos as int)
    }

    /// Whether a line break stands before the token `n` places ahead.
    pub open spec fn nth_after_newline(self, n: int) -> bool {
        0 <= self.pos + n < self.tokens.len() && self.tokens[self.pos + n].after_newline
    }

    /// The texts of tokens `from .. to`, one after the other.
    pub open spec fn span_text(self, from: int, to: int) -> Seq<char>
        decreases to - from,
    {
        if from >= to || !(0 < to <= self.tokens.len()) {
            Seq::empty()
        } else {
            self.span_text(from, to - 1) + self.tokens[to - 1].text@
        }
    }

    /// The source range of a node whose tokens are `from .. to`.
    pub open spec fn span_range(self, from: int, to: int) -> TextRange {
        if from < to {
            TextRange { start: self.range_at(from).start, end: self.range_at(to - 1).end }
        } else {
            TextRange { start: self.range_at(from).start, end: self.range_at(from).start }
        }
    }

    /// This parser with the cursor `n` tokens further on.
    pub open spec fn skipped(self, n: nat) -> ParserView {
        ParserView { pos: self.pos + n, ..self }
    }

    /// This parser with one more event in the buffer.
    #[verifier::opaque]
    pub open spec fn with_event(self, e: Event) -> ParserView {
        ParserView { events: self.events.push(e), ..self }
    }

    /// This parser after the current token was attached as a leaf of kind `kind`.
    #[verifier::opaque]
    pub open spec fn bumped(self, kind: SyntaxKind) -> ParserView {
        ParserView {
            pos: self.pos + 1,
            events: self.events.push(Event::Token { index: self.pos as usize, kind }),
            ..self
        }
    }

    /// This parser after `d` was reported: `d` is the last diagnostic of the sink,
    /// and the last event refers to it.
    #[verifier::opaque]
    pub open spec fn reported(self, d: DiagnosticView) -> ParserView {
        ParserView {
            events: self.events.push(Event::Error { diagnostic: self.diagnostics.len() as usize }),
            diagnostics: self.diagnostics.push(d),
            ..self
        }
    }

    /// This parser with the event at `i` replaced.
    #[verifier::opaque]
    pub open spec fn with_event_at(self, i: int, e: Event) -> ParserView {
        ParserView { events: self.events.update(i, e), ..self }
    }

    /// This parser with another state.
    #[verifier::opaque]
    pub open spec fn with_state(self, state: ParserStateView) -> ParserView {
        ParserView { state, ..self }
    }

    /// `self` stands where `old` stood: the same tokens, the same cursor, the same
    /// state. The buffer and the sink may differ.
    pub open spec fn same_place(self, old: ParserView) -> bool {
        &&& self.tokens == old.tokens
        &&& self.file_kind == old.file_kind
        &&& self.pos == old.pos
        &&& self.state == old.state
    }

    /// `self` was reached from `old` by consuming tokens and by adding events and
    /// diagnostics: nothing that `old` held was changed or taken away.
    pub open spec fn extends(self, old: ParserView) -> bool {
        &&& self.tokens == old.tokens
        &&& self.file_kind == old.file_kind
        &&& old.pos <= self.pos
        &&& prefix_of(old.events, self.events)
        &&& prefix_of(old.diagnostics, self.diagnostics)
    }

    /// What every rule owes its caller: the invariant, nothing of the caller's
    /// undone, and the same nodes open as before.
    pub open spec fn follows(self, old: ParserView) -> bool {
        &&& self.wf()
        &&& self.extends(old)
        &&& self.open() == old.open()
    }

    /// `cm` is a closed node of this buffer: its two events stand where it says, the
    /// `FinishNode` closes that `StartNode`, and its tokens have been consumed.
    pub open spec fn closed(self, cm: CompletedMarker) -> bool {
        &&& linked(self.events, cm)
        &&& cm.start < cm.finish < self.events.len()
        &&& cm.token_start <= cm.token_end <= self.pos
    }

    /// `cm` is a closed node that was built since `old`.
    pub open spec fn built(self, old: ParserView, cm: CompletedMarker) -> bool {
        &&& self.closed(cm)
        &&& old.events.len() <= cm.start
        &&& old.pos <= cm.token_start
    }

    /// `cm` is the node closed last: only leaves follow its `FinishNode`.
    pub open spec fn closed_last(self, cm: CompletedMarker) -> bool {
        &&& self.closed(cm)
        &&& leaves_after(self.events, cm.finish as int)
    }

    /// `cm` is the one node that was added since `old`: it is closed, it starts where
    /// the buffer of `old` ended and at the token where `old` stood, and only errors
    /// follow it.
    pub open spec fn one_node(self, old: ParserView, cm: CompletedMarker) -> bool {
        &&& self.closed(cm)
        &&& cm.start == old.events.len()
        &&& cm.token_start == old.pos
        &&& errors_after(self.events, cm.finish as int)
    }

    /// Since `old`, the parse has filled one child slot, with a token, a placeholder
    /// or a node, and has added nothing else but errors.
    pub open spec fn adds_slot(self, old: ParserView) -> bool {
        exists|a: int, b: int|
            {
                &&& #[trigger] fills_slot(self.events, a, b)
                &&& old.events.len() <= a
                &&& only_errors(self.events, old.events.len() as int, a)
                &&& only_errors(self.events, b, self.events.len() as int)
            }
    }

    /// What a rewind to `cp` leaves of this parser.
    pub open spec fn restored(self, cp: Checkpoint) -> ParserView {
        ParserView {
            pos: cp.pos as nat,
            events: self.events.take(cp.events_len as int),
            diagnostics: self.diagnostics.take(cp.diagnostics_len as int),
            state: cp.state@,
            ..self
        }
    }

    /// `cp` can be rewound to: it lies within the buffer and the sink, and what it
    /// would leave satisfies the invariant.
    pub open spec fn holds(self, cp: Checkpoint) -> bool {
        &&& cp.events_len <= self.events.len()
        &&& cp.diagnostics_len <= self.diagnostics.len()
        &&& self.restored(cp).wf()
    }
}

/// The events of `cm` stand in `events` where it says, and the `FinishNode` closes
/// that `StartNode`.
#[verifier::opaque]
pub open spec fn linked(events: Seq<Event>, cm: CompletedMarker) -> bool {
    &&& closes(events, cm.start as int, cm.finish as int)
    &&& events[cm.finish as int] == (Event::FinishNode { kind: cm.kind })
}

/// What a closed node says about the buffer: the event at its end closes the node
/// that the event at its start opened, and names its kind.
pub proof fn lemma_closed_closes(p: ParserView, cm: CompletedMarker)
    requires
        p.closed(cm),
    ensures
        closes(p.events, cm.start as int, cm.finish as int),
        p.events[cm.finish as int] == (Event::FinishNode { kind: cm.kind }),
{
    reveal(linked);
}

/// Only leaves stand after position `from` of `events`.
#[verifier::opaque]
pub open spec fn leaves_after(events: Seq<Event>, from: int) -> bool {
    forall|j: int| from < j < events.len() ==> !(#[trigger] events[j]).is_bracket()
}

/// Only errors stand after position `from` of `events`.
#[verifier::opaque]
pub open spec fn errors_after(events: Seq<Event>, from: int) -> bool {
    forall|j: int| from < j < events.len() ==> (#[trigger] events[j]) is Error
}

/// A node that is all that was added since `old`, but for errors, fills one slot.
pub proof fn lemma_node_is_slot(old: ParserView, new: ParserView, cm: CompletedMarker)
    requires
        new.one_node(old, cm),
    ensures
        new.adds_slot(old),
{
    reveal(linked);
    reveal(errors_after);
    reveal(only_errors);
    assert(fills_slot(new.events, cm.start as int, cm.finish + 1));
}

/// One more slot: where the events from `from` on filled `n` slots at `before`, and
/// the parse has filled one slot since, they fill `n + 1` slots.
pub proof fn lemma_slot_grows(before: ParserView, after: ParserView, from: int, n: nat)
    requires
        slots_between(before.events, from, before.events.len() as int, n),
        after.extends(before),
        after.adds_slot(before),
    ensures
        slots_between(after.events, from, after.events.len() as int, n + 1),
{
    let (a, b) = choose|a: int, b: int|
        {
            &&& #[trigger] fills_slot(after.events, a, b)
            &&& before.events.len() <= a
            &&& only_errors(after.events, before.events.len() as int, a)
            &&& only_errors(after.events, b, after.events.len() as int)
        };
    lemma_slot_added(before.events, after.events, from, n, a, b);
}

/// A closed node stays closed while the parse only adds to the buffer.
pub proof fn lemma_closed_extends(old: ParserView, new: ParserView, cm: CompletedMarker)
    requires
        old.closed(cm),
        new.extends(old),
    ensures
        new.closed(cm),
{
    reveal(linked);
    assert(old.events[cm.start as int] == new.events[cm.start as int]);
    assert(old.events[cm.finish as int] == new.events[cm.finish as int]);
    assert(new.events.take(cm.finish as int) =~= old.events.take(cm.finish as int)) by {
        assert forall|i: int| 0 <= i < cm.finish implies new.events.take(cm.finish as int)[i]
            == old.events.take(cm.finish as int)[i] by {
            assert(old.events[i] == new.events[i]);
        }
    }
}

/// A closed node stays closed when a node that was opened before it, and is still
/// open, is withdrawn.
pub proof fn lemma_closed_after_withdrawal(old: ParserView, pos: int, cm: CompletedMarker)
    requires
        well_nested(old.events),
        old.open().contains(pos),
        old.closed(cm),
        pos < cm.start,
    ensures
        old.with_event_at(pos, Event::Tombstone).closed(cm),
{
    reveal(linked);
    reveal(ParserView::with_event_at);
    let ev = old.events;
    let f = cm.finish as int;
    let part = ev.take(f);
    lemma_open_starts_sorted(ev);
    lemma_open_persists(ev, pos, f);
    lemma_prefix_well_nested(ev, f);
    lemma_open_starts_sorted(part);
    let k = open_starts(part).index_of(pos);
    lemma_withdraw_start(part, k);
    assert(ev.update(pos, Event::Tombstone).take(f) =~= part.update(pos, Event::Tombstone));
    assert(k < open_starts(part).len() - 1) by {
        if k == open_starts(part).len() - 1 {
            assert(open_starts(part)[k] == cm.start);
        }
    }
    assert(open_starts(part).remove(k).last() == open_starts(part).last());
}

/// A checkpoint taken at `old` can still be rewound to after the parse has only added
/// to the buffer, and the rewind leaves what it would have left at `old`.
pub proof fn lemma_checkpoint_extends(old: ParserView, new: ParserView, cp: Checkpoint)
    requires
        old.holds(cp),
        new.extends(old),
    ensures
        new.holds(cp),
        new.restored(cp) == old.restored(cp),
{
    assert(new.events.take(cp.events_len as int) =~= old.events.take(cp.events_len as int)) by {
        assert forall|i: int| 0 <= i < cp.events_len implies new.events.take(
            cp.events_len as int,
        )[i] == old.events.take(cp.events_len as int)[i] by {
            assert(old.events[i] == new.events[i]);
        }
    }
    assert(new.diagnostics.take(cp.diagnostics_len as int) =~= old.diagnostics.take(
        cp.diagnostics_len as int,
    )) by {
        assert forall|i: int| 0 <= i < cp.diagnostics_len implies new.diagnostics.take(
            cp.diagnostics_len as int,
        )[i] == old.diagnostics.take(cp.diagnostics_len as int)[i] by {
            assert(old.diagnostics[i] == new.diagnostics[i]);
        }
    }
}

/// Rewind isolation: a parse that only added to the buffer since a checkpoint was
/// taken, and is then rewound to it, stands exactly where it stood when the
/// checkpoint was taken: cursor, event buffer, diagnostics sink and state.
pub proof fn law_rewind_isolation(at_checkpoint: ParserView, later: ParserView, cp: Checkpoint)
    requires
        at_checkpoint.wf(),
        cp.pos == at_checkpoint.pos,
        cp.events_len == at_checkpoint.events.len(),
        cp.diagnostics_len == at_checkpoint.diagnostics.len(),
        cp.state@ == at_checkpoint.state,
        later.extends(at_checkpoint),
    ensures
        later.holds(cp),
        later.restored(cp) == at_checkpoint,
{
    assert(at_checkpoint.events.take(cp.events_len as int) =~= at_checkpoint.events);
    assert(at_checkpoint.diagnostics.take(cp.diagnostics_len as int) =~= at_checkpoint.diagnostics);
    assert(at_checkpoint.restored(cp) == at_checkpoint);
    lemma_checkpoint_extends(at_checkpoint, later, cp);
}

/// Losslessness of the buffer: under the invariant, the `Token` events attach token
/// `0`, token `1`, and so on up to the cursor, each exactly once and in this order.
/// When every token has been consumed, reading the leaves of the buffer from left to
/// right gives back the whole token stream.
pub proof fn law_lossless(p: ParserView)
    requires
        p.wf(),
    ensures
        leaf_tokens(p.events).len() == p.pos,
        forall|i: int| 0 <= i < p.pos ==> #[trigger] leaf_tokens(p.events)[i] == i,
        p.at_end() ==> leaf_tokens(p.events) == iota(p.tokens.len()),
{
}

/// The parser. A rule reads the tokens through it and records what it builds.
#[derive(Debug)]
pub struct Parser {
    tokens: Vec<Token>,
    pos: usize,
    events: Vec<Event>,
    diagnostics: Vec<Diagnostic>,
    state: ParserState,
    syntax: Syntax,
}

impl View for Parser {
    type V = ParserView;

    closed spec fn view(&self) -> ParserView {
        ParserView {
            tokens: self.tokens@,
            pos: self.pos as nat,
            events: self.events@,
            diagnostics: self.diagnostics@.map_values(|d: Diagnostic| d@),
            state: self.state@,
            file_kind: self.syntax.file_kind,
        }
    }
}

impl Parser {
    /// A parser at the start of `tokens`, with an empty buffer and an empty sink.
    /// A module is strict from its first token.
    pub fn new(tokens: Vec<Token>, syntax: Syntax) -> (p: Parser)
        ensures
            p@ == (ParserView {
                tokens: tokens@,
                pos: 0,
                events: Seq::empty(),
                diagnostics: Seq::empty(),
                state: ParserStateView::initial(syntax.file_kind == FileKind::Module),
                file_kind: syntax.file_kind,
            }),
            p@.wf(),
            p@.open() == Seq::<int>::empty(),
    {
        let strict = matches!(syntax.file_kind, FileKind::Module);
        let p = Parser {
            tokens,
            pos: 0,
            events: Vec::new(),
            diagnostics: Vec::new(),
            state: ParserState::new(strict),
            syntax,
        };
        proof {
            assert(p@.diagnostics =~= Seq::empty());
            assert(p@.events =~= Seq::empty());
            reveal(open_starts);
            reveal(well_nested);
            reveal(leaf_tokens);
            reveal(error_refs);
            assert(iota(0) =~= Seq::<int>::empty());
            assert(p.tokens@.len() == p.tokens.len());
        }
        p
    }

    /// The syntax options of this parse.
    pub fn syntax(&self) -> (s: Syntax)
        ensures
            s.file_kind == self@.file_kind,
    {
        self.syntax
    }

    /// Whether the file is a TypeScript file.
    pub fn typescript(&self) -> (b: bool)
        ensures
            b == (self@.file_kind == FileKind::TypeScript),
    {
        matches!(self.syntax.file_kind, FileKind::TypeScript)
    }

    /// The tokens being parsed.
    pub fn tokens(&self) -> (t: &Vec<Token>)
        ensures
            t@ == self@.tokens,
    {
        &self.tokens
    }

    /// The events recorded so far.
    pub fn events(&self) -> (e: &Vec<Event>)
        ensures
            e@ == self@.events,
    {
        &self.events
    }

    /// The diagnostics reported so far.
    pub fn diagnostics(&self) -> (d: &Vec<Diagnostic>)
        ensures
            d@.map_values(|d: Diagnostic| d@) == self@.diagnostics,
    {
        &self.diagnostics
    }

    /// How many tokens have been consumed.
    pub fn position(&self) -> (n: usize)
        ensures
            n == self@.pos,
    {
        self.pos
    }

    /// How many events the buffer holds.
    pub fn events_len(&self) -> (n: usize)
        ensures
            n == self@.events.len(),
    {
        self.events.len()
    }

    /// How many diagnostics the sink holds.
    pub fn diagnostics_len(&self) -> (n: usize)
        ensures
            n == self@.diagnostics.len(),
    {
        self.diagnostics.len()
    }

    /// Ends the parse and hands over the event buffer and the diagnostics.
    pub fn finish(self) -> (r: (Vec<Event>, Vec<Diagnostic>))
        ensures
            r.0@ == self@.events,
            r.1@.map_values(|d: Diagnostic| d@) == self@.diagnostics,
    {
        (self.events, self.diagnostics)
    }

    /// The state that the rules consult.
    pub fn state(&self) -> (s: &ParserState)
        ensures
            s@ == self@.state,
    {
        &self.state
    }

    /// Installs `state`.
    pub fn set_state(&mut self, state: ParserState)
        ensures
            final(self)@ == old(self)@.with_state(state@),
            final(self)@.state == state@,
            final(self)@.tokens == old(self)@.tokens,
            final(self)@.file_kind == old(self)@.file_kind,
            final(self)@.pos == old(self)@.pos,
            final(self)@.events == old(self)@.events,
            final(self)@.diagnostics == old(self)@.diagnostics,
    {
        proof {
            reveal(ParserView::with_state);
        }
        self.state = state;
    }

    /// Installs `state` and hands back the state it replaces.
    pub fn swap_state(&mut self, state: ParserState) -> (previous: ParserState)
        ensures
            final(self)@ == old(self)@.with_state(state@),
            previous@ == old(self)@.state,
            final(self)@.state == state@,
            final(self)@.tokens == old(self)@.tokens,
            final(self)@.file_kind == old(self)@.file_kind,
            final(self)@.pos == old(self)@.pos,
            final(self)@.events == old(self)@.events,
            final(self)@.diagnostics == old(self)@.diagnostics,
    {
        proof {
            reveal(ParserView::with_state);
        }
        let mut state = state;
        core::mem::swap(&mut self.state, &mut state);
        state
    }

    /// Records that `name` was declared at `range` in the current binding list.
    pub fn bind_name(&mut self, name: String, range: TextRange)
        ensures
            final(self)@ == old(self)@.with_state(
                ParserStateView {
                    name_map: old(self)@.state.name_map.insert(name@, range),
                    ..old(self)@.state
                },
            ),
            final(self)@.state == (ParserStateView {
                name_map: old(self)@.state.name_map.insert(name@, range),
                ..old(self)@.state
            }),
            final(self)@.tokens == old(self)@.tokens,
            final(self)@.file_kind == old(self)@.file_kind,
            final(self)@.pos == old(self)@.pos,
            final(self)@.events == old(self)@.events,
            final(self)@.diagnostics == old(self)@.diagnostics,
    {
        proof {
            reveal(ParserView::with_state);
        }
        self.state.name_map.insert(name, range);
    }

    /// Whether every token has been consumed.
    pub fn at_end(&self) -> (b: bool)
        ensures
            b == self@.at_end(),
    {
        self.pos >= self.tokens.len()
    }

    /// The kind of the token `n` places ahead, `EOF` past the last token.
    pub fn nth(&self, n: usize) -> (k: SyntaxKind)
        ensures
            k == self@.nth_kind(n as int),
    {
        if self.pos < self.tokens.len() && n < self.tokens.len() - self.pos {
            self.tokens[self.pos + n].kind
        } else {
            SyntaxKind::EOF
        }
    }

    /// The kind of the current token.
    pub fn cur(&self) -> (k: SyntaxKind)
        ensures
            k == self@.cur_kind(),
    {
        self.nth(0)
    }

    /// Whether the current token has kind `kind`.
    pub fn at(&self, kind: SyntaxKind) -> (b: bool)
        ensures
            b == (self@.cur_kind() == kind),
    {
        self.nth(0) == kind
    }

    /// Whether the token `n` places ahead has kind `kind`.
    pub fn nth_at(&self, n: usize, kind: SyntaxKind) -> (b: bool)
        ensures
            b == (self@.nth_kind(n as int) == kind),
    {
        self.nth(n) == kind
    }

    /// The text of the token `n` places ahead, empty past the last token.
    pub fn nth_src(&self, n: usize) -> (s: &str)
        ensures
            s@ == self@.nth_text(n as int),
    {
        if self.pos < self.tokens.len() && n < self.tokens.len() - self.pos {
            self.tokens[self.pos + n].text.as_str()
        } else {
            let s = "";
            proof {
                reveal_strlit("");
                assert(s@ =~= Seq::<char>::empty());
            }
            s
        }
    }

    /// The text of the current token.
    pub fn cur_src(&self) -> (s: &str)
        ensures
            s@ == self@.cur_text(),
    {
        self.nth_src(0)
    }

    fn end_offset(&self) -> (n: usize)
        ensures
            n == self@.end_offset(),
    {
        if self.tokens.len() > 0 {
            self.tokens[self.tokens.len() - 1].range.end
        } else {
            0
        }
    }

    fn range_at(&self, i: usize) -> (r: TextRange)
        ensures
            r == self@.range_at(i as int),
    {
        if i < self.tokens.len() {
            self.tokens[i].range
        } else {
            TextRange::empty_at(self.end_offset())
        }
    }

    /// The kind and the range of the current token. Past the last token the kind is
    /// `EOF` and the range is the empty range at the end of the source.
    pub fn cur_tok(&self) -> (t: TokenHead)
        ensures
            t.kind == self@.cur_kind(),
            t.range == self@.cur_range(),
    {
        TokenHead { kind: self.nth(0), range: self.range_at(self.pos) }
    }

    /// Whether a line break stands before the token `n` places ahead.
    pub fn has_linebreak_before_n(&self, n: usize) -> (b: bool)
        ensures
            b == self@.nth_after_newline(n as int),
    {
        if self.pos < self.tokens.len() && n < self.tokens.len() - self.pos {
            self.tokens[self.pos + n].after_newline
        } else {
            false
        }
    }

    fn push_event(&mut self, e: Event)
        requires
            old(self)@.wf(),
            !(e is Token) && !(e is Error),
            e is FinishNode ==> old(self)@.open().len() > 0,
        ensures
            final(self)@ == old(self)@.with_event(e),
            final(self)@.wf(),
            final(self)@.extends(old(self)@),
            final(self)@.open() == open_starts(old(self)@.events.push(e)),
            final(self)@.same_place(old(self)@),
            final(self)@.diagnostics == old(self)@.diagnostics,
            final(self)@.events == old(self)@.events.push(e),
    {
        proof {
            reveal(ParserView::with_event);
            lemma_push(self@.events, e);
        }
        self.events.push(e);
        assert(self.events@.len() == self.events.len());
    }

    /// Opens a node at the end of the buffer.
    pub fn start(&mut self) -> (m: Marker)
        requires
            old(self)@.wf(),
        ensures
            final(self)@ == old(self)@.with_event(Event::StartNode),
            final(self)@.wf(),
            final(self)@.extends(old(self)@),
            final(self)@.open() == old(self)@.open().push(m.pos as int),
            final(self)@.open().drop_last() == old(self)@.open(),
            final(self)@.innermost(m.pos),
            m.pos == old(self)@.events.len(),
            m.token_start == old(self)@.pos,
            final(self)@.same_place(old(self)@),
            final(self)@.events.len() == old(self)@.events.len() + 1,
            final(self)@.diagnostics == old(self)@.diagnostics,
    {
        let m = Marker { pos: self.events.len(), token_start: self.pos };
        proof {
            lemma_push(self@.events, Event::StartNode);
            assert(self@.open().push(m.pos as int).drop_last() =~= self@.open());
        }
        self.push_event(Event::StartNode);
        m
    }

    /// Records an empty child slot.
    pub fn missing(&mut self)
        requires
            old(self)@.wf(),
        ensures
            final(self)@ == old(self)@.with_event(Event::Placeholder),
            final(self)@.follows(old(self)@),
            final(self)@.same_place(old(self)@),
            final(self)@.events.len() == old(self)@.events.len() + 1,
            final(self)@.diagnostics == old(self)@.diagnostics,
            final(self)@.adds_slot(old(self)@),
    {
        proof {
            lemma_push(self@.events, Event::Placeholder);
        }
        self.push_event(Event::Placeholder);
        proof {
            reveal(only_errors);
            assert(fills_slot(self@.events, old(self)@.events.len() as int, self@.events.len() as int));
        }
    }

    fn do_bump(&mut self, kind: SyntaxKind)
        requires
            old(self)@.wf(),
            !old(self)@.at_end(),
        ensures
            final(self)@ == old(self)@.bumped(kind),
            final(self)@.follows(old(self)@),
            final(self)@.pos == old(self)@.pos + 1,
            final(self)@.state == old(self)@.state,
            final(self)@.events.len() == old(self)@.events.len() + 1,
            final(self)@.diagnostics == old(self)@.diagnostics,
    {
        let e = Event::Token { index: self.pos, kind };
        proof {
            reveal(ParserView::bumped);
            lemma_push(self@.events, e);
            assert(iota(self@.pos).push(self@.pos as int) =~= iota(self@.pos + 1));
        }
        assert(self.pos < self.tokens.len());
        self.events.push(e);
        self.pos = self.pos + 1;
        assert(self.events@.len() == self.events.len());
    }

    /// Consumes the current token, whatever it is. At the end of the tokens it does
    /// nothing.
    pub fn bump_any(&mut self)
        requires
            old(self)@.wf(),
        ensures
            final(self)@ == if old(self)@.at_end() {
                old(self)@
            } else {
                old(self)@.bumped(old(self)@.cur_kind())
            },
            final(self)@.follows(old(self)@),
            final(self)@.pos == if old(self)@.at_end() {
                old(self)@.pos
            } else {
                old(self)@.pos + 1
            },
            final(self)@.events.len() == if old(self)@.at_end() {
                old(self)@.events.len()
            } else {
                old(self)@.events.len() + 1
            },
            final(self)@.state == old(self)@.state,
            final(self)@.diagnostics == old(self)@.diagnostics,
    {
        if self.pos < self.tokens.len() {
            let kind = self.tokens[self.pos].kind;
            self.do_bump(kind);
        }
    }

    /// Consumes the current token, which the caller knows to have kind `kind`.
    pub fn bump(&mut self, kind: SyntaxKind)
        requires
            old(self)@.wf(),
            !old(self)@.at_end(),
            old(self)@.cur_kind() == kind,
        ensures
            final(self)@ == old(self)@.bumped(kind),
            final(self)@.follows(old(self)@),
            final(self)@.pos == old(self)@.pos + 1,
            final(self)@.events.len() == old(self)@.events.len() + 1,
            final(self)@.state == old(self)@.state,
            final(self)@.diagnostics == old(self)@.diagnostics,
    {
        self.do_bump(kind);
    }

    /// Consumes the current token and attaches it under the kind `kind`, as for a
    /// contextual keyword that the lexer handed over as an identifier. At the end of
    /// the tokens it does nothing.
    pub fn bump_remap(&mut self, kind: SyntaxKind)
        requires
            old(self)@.wf(),
        ensures
            final(self)@ == old(self)@.after_bump_remap(kind),
            final(self)@.follows(old(self)@),
            final(self)@.pos == if old(self)@.at_end() {
                old(self)@.pos
            } else {
                old(self)@.pos + 1
            },
            final(self)@.events.len() == if old(self)@.at_end() {
                old(self)@.events.len()
            } else {
                old(self)@.events.len() + 1
            },
            final(self)@.state == old(self)@.state,
            final(self)@.diagnostics == old(self)@.diagnostics,
    {
        proof {
            reveal(ParserView::after_bump_remap);
        }
        if self.pos < self.tokens.len() {
            self.do_bump(kind);
        }
    }

    /// Consumes the current token if it has kind `kind`, and says whether it did.
    pub fn eat(&mut self, kind: SyntaxKind) -> (eaten: bool)
        requires
            old(self)@.wf(),
        ensures
            eaten == old(self)@.at(kind),
            final(self)@ == old(self)@.after_eat(kind),
            final(self)@.follows(old(self)@),
            final(self)@.diagnostics == old(self)@.diagnostics,
            final(self)@.events.len() == old(self)@.events.len() + if eaten {
                1int
            } else {
                0int
            },
            final(self)@.pos == if eaten {
                old(self)@.pos + 1
            } else {
                old(self)@.pos
            },
            final(self)@.state == old(self)@.state,
    {
        proof {
            reveal(ParserView::after_eat);
        }
        if self.pos < self.tokens.len() && self.tokens[self.pos].kind == kind {
            self.do_bump(kind);
            true
        } else {
            false
        }
    }

    /// Consumes the current token if it has kind `kind`; records an empty slot if it
    /// has not.
    pub fn eat_optional(&mut self, kind: SyntaxKind) -> (eaten: bool)
        requires
            old(self)@.wf(),
        ensures
            eaten == old(self)@.at(kind),
            final(self)@ == if eaten {
                old(self)@.bumped(kind)
            } else {
                old(self)@.with_event(Event::Placeholder)
            },
            final(self)@.follows(old(self)@),
            final(self)@.diagnostics == old(self)@.diagnostics,
            final(self)@.events.len() == old(self)@.events.len() + 1,
            final(self)@.pos == if eaten {
                old(self)@.pos + 1
            } else {
                old(self)@.pos
            },
            final(self)@.state == old(self)@.state,
    {
        proof {
            reveal(ParserView::after_eat);
        }
        if self.eat(kind) {
            true
        } else {
            self.missing();
            false
        }
    }

    /// Starts an error with the given message.
    pub fn err_builder(&self, message: &str) -> (b: DiagnosticBuilder)
        ensures
            b@ == DiagnosticView::error(message@),
    {
        DiagnosticBuilder::error(message)
    }

    /// Reports a diagnostic: appends it to the sink and attaches it at the end of the
    /// buffer.
    pub fn error(&mut self, err: DiagnosticBuilder)
        requires
            old(self)@.wf(),
        ensures
            final(self)@ == old(self)@.reported(err@),
            final(self)@.follows(old(self)@),
            final(self)@.same_place(old(self)@),
            final(self)@.events.len() == old(self)@.events.len() + 1,
            final(self)@.diagnostics == old(self)@.diagnostics.push(err@),
    {
        let e = Event::Error { diagnostic: self.diagnostics.len() };
        let d = err.build();
        proof {
            reveal(ParserView::reported);
            lemma_push(self@.events, e);
            assert(iota(self@.diagnostics.len()).push(self@.diagnostics.len() as int) =~= iota(
                self@.diagnostics.len() + 1,
            ));
            assert(self.diagnostics@.push(d).map_values(|d: Diagnostic| d@)
                =~= self@.diagnostics.push(d@));
        }
        self.diagnostics.push(d);
        self.events.push(e);
        assert(self.events@.len() == self.events.len());
        assert(self.diagnostics@.len() == self.diagnostics.len());
    }

    /// Takes a checkpoint of the cursor, the buffer, the sink and the state.
    pub fn checkpoint(&self) -> (cp: Checkpoint)
        requires
            self@.wf(),
        ensures
            cp.pos == self@.pos,
            cp.events_len == self@.events.len(),
            cp.diagnostics_len == self@.diagnostics.len(),
            cp.state@ == self@.state,
            self@.holds(cp),
            self@.restored(cp) == self@,
    {
        let cp = Checkpoint {
            pos: self.pos,
            events_len: self.events.len(),
            diagnostics_len: self.diagnostics.len(),
            state: self.state.clone(),
        };
        proof {
            assert(self@.events.take(cp.events_len as int) =~= self@.events);
            assert(self@.diagnostics.take(cp.diagnostics_len as int) =~= self@.diagnostics);
        }
        cp
    }

    /// Rewinds to a checkpoint: puts the cursor back, cuts the buffer and the sink
    /// down to the lengths they had, and installs the state of the checkpoint.
    pub fn rewind(&mut self, cp: Checkpoint)
        requires
            old(self)@.holds(cp),
        ensures
            final(self)@ == old(self)@.restored(cp),
            final(self)@.wf(),
    {
        let Checkpoint { pos, events_len, diagnostics_len, state } = cp;
        proof {
            assert(self.diagnostics@.take(diagnostics_len as int).map_values(|d: Diagnostic| d@)
                =~= self@.diagnostics.take(diagnostics_len as int));
        }
        self.pos = pos;
        self.events.truncate(events_len);
        self.diagnostics.truncate(diagnostics_len);
        self.state = state;
    }
}

impl ParserView {
    /// The error for a token of kind `kind` that is expected and not there.
    #[verifier::opaque]
    pub open spec fn expected_token_error(self, kind: SyntaxKind) -> DiagnosticView {
        if self.cur_kind() == SyntaxKind::EOF {
            DiagnosticView::error(
                "expected `"@ + kind.spec_describe() + "` but instead the file ends"@,
            ).primary(self.cur_range(), "the file ends here"@)
        } else {
            DiagnosticView::error(
                "expected `"@ + kind.spec_describe() + "` but instead found `"@ + self.cur_text()
                    + "`"@,
            ).primary(self.cur_range(), "unexpected"@)
        }
    }
}

impl ParserView {
    /// Whether the current token has kind `kind`.
    pub open spec fn at(self, kind: SyntaxKind) -> bool {
        !self.at_end() && self.cur_kind() == kind
    }

    /// This parser after [`Parser::eat`].
    #[verifier::opaque]
    pub open spec fn after_eat(self, kind: SyntaxKind) -> ParserView {
        if self.at(kind) {
            self.bumped(kind)
        } else {
            self
        }
    }

    /// This parser after [`Parser::expect_required`].
    #[verifier::opaque]
    pub open spec fn after_expect_required(self, kind: SyntaxKind) -> ParserView {
        if self.at(kind) {
            self.bumped(kind)
        } else {
            self.with_event(Event::Placeholder).reported(self.expected_token_error(kind))
        }
    }

    /// This parser after [`Parser::bump_remap`].
    #[verifier::opaque]
    pub open spec fn after_bump_remap(self, kind: SyntaxKind) -> ParserView {
        if self.at_end() {
            self
        } else {
            self.bumped(kind)
        }
    }
}

impl Parser {
    /// Builds the error for a token of kind `kind` that is expected and not there.
    pub fn expected_token(&self, kind: SyntaxKind) -> (b: DiagnosticBuilder)
        ensures
            b@ == self@.expected_token_error(kind),
    {
        proof {
            reveal(ParserView::expected_token_error);
        }
        let head = String::from_str("expected `").concat(kind.describe());
        if self.at(SyntaxKind::EOF) {
            let message = head.concat("` but instead the file ends");
            self.err_builder(message.as_str()).primary(self.cur_tok().range, "the file ends here")
        } else {
            let message = head.concat("` but instead found `").concat(self.cur_src()).concat("`");
            self.err_builder(message.as_str()).primary(self.cur_tok().range, "unexpected")
        }
    }

    /// Consumes the current token if it has kind `kind`; reports an error if it has
    /// not.
    pub fn expect(&mut self, kind: SyntaxKind) -> (eaten: bool)
        requires
            old(self)@.wf(),
        ensures
            eaten == old(self)@.at(kind),
            final(self)@ == if eaten {
                old(self)@.bumped(kind)
            } else {
                old(self)@.reported(old(self)@.expected_token_error(kind))
            },
            final(self)@.follows(old(self)@),
            final(self)@.diagnostics.len() == old(self)@.diagnostics.len() + if eaten {
                0int
            } else {
                1int
            },
            final(self)@.pos == if eaten {
                old(self)@.pos + 1
            } else {
                old(self)@.pos
            },
            final(self)@.state == old(self)@.state,
    {
        proof {
            reveal(ParserView::after_eat);
        }
        if self.eat(kind) {
            true
        } else {
            let err = self.expected_token(kind);
            self.error(err);
            false
        }
    }

    /// Consumes the current token if it has kind `kind`; if it has not, records an
    /// empty slot in its place and reports an error.
    pub fn expect_required(&mut self, kind: SyntaxKind) -> (eaten: bool)
        requires
            old(self)@.wf(),
        ensures
            eaten == old(self)@.at(kind),
            final(self)@ == old(self)@.after_expect_required(kind),
            final(self)@.follows(old(self)@),
            final(self)@.events.len() == old(self)@.events.len() + if eaten {
                1int
            } else {
                2int
            },
            final(self)@.diagnostics.len() == old(self)@.diagnostics.len() + if eaten {
                0int
            } else {
                1int
            },
            final(self)@.pos == if eaten {
                old(self)@.pos + 1
            } else {
                old(self)@.pos
            },
            final(self)@.state == old(self)@.state,
            final(self)@.adds_slot(old(self)@),
    {
        proof {
            reveal(ParserView::after_eat);
            reveal(ParserView::after_expect_required);
            reveal(ParserView::bumped);
            reveal(ParserView::with_event);
            reveal(ParserView::reported);
            reveal(only_errors);
        }
        let eaten = if self.eat(kind) {
            true
        } else {
            let err = self.expected_token(kind);
            self.missing();
            self.error(err);
            false
        };
        proof {
            assert(fills_slot(
                self@.events,
                old(self)@.events.len() as int,
                old(self)@.events.len() as int + 1,
            ));
        }
        eaten
    }
}

impl Marker {
    /// Closes the node with kind `kind`. The node must be the innermost open one:
    /// what was opened after it has been closed or withdrawn.
    pub fn complete(self, p: &mut Parser, kind: SyntaxKind) -> (cm: CompletedMarker)
        requires
            old(p)@.wf(),
            old(p)@.innermost(self.pos),
            self.token_start <= old(p)@.pos,
        ensures
            final(p)@ == old(p)@.with_event(Event::FinishNode { kind }),
            final(p)@.wf(),
            final(p)@.extends(old(p)@),
            final(p)@.open() == old(p)@.open().drop_last(),
            cm == (CompletedMarker {
                start: self.pos,
                finish: old(p)@.events.len() as usize,
                kind,
                token_start: self.token_start,
                token_end: old(p)@.pos as usize,
            }),
            final(p)@.closed_last(cm),
            errors_after(final(p)@.events, cm.finish as int),
            final(p)@.same_place(old(p)@),
            final(p)@.events.len() == old(p)@.events.len() + 1,
            final(p)@.diagnostics == old(p)@.diagnostics,
    {
        let cm = CompletedMarker {
            start: self.pos,
            finish: p.events.len(),
            kind,
            token_start: self.token_start,
            token_end: p.pos,
        };
        proof {
            reveal(linked);
            reveal(leaves_after);
            reveal(errors_after);
            lemma_push(p@.events, Event::FinishNode { kind });
            lemma_open_starts_sorted(p@.events);
            assert(p@.events.push(Event::FinishNode { kind }).take(cm.finish as int) =~= p@.events);
        }
        p.push_event(Event::FinishNode { kind });
        cm
    }

    /// Withdraws the node: its `StartNode` becomes a `Tombstone`, and what was built
    /// inside it belongs to the node around it.
    pub fn abandon(self, p: &mut Parser)
        requires
            old(p)@.wf(),
            old(p)@.open().contains(self.pos as int),
        ensures
            final(p)@ == old(p)@.with_event_at(self.pos as int, Event::Tombstone),
            final(p)@.wf(),
            final(p)@.open() == old(p)@.open().remove(old(p)@.open().index_of(self.pos as int)),
            old(p)@.innermost(self.pos) ==> final(p)@.open() == old(p)@.open().drop_last(),
            forall|cm: CompletedMarker|
                old(p)@.closed(cm) && self.pos < cm.start ==> #[trigger] final(p)@.closed(cm),
            final(p)@.same_place(old(p)@),
            final(p)@.events.len() == old(p)@.events.len(),
            final(p)@.diagnostics == old(p)@.diagnostics,
            forall|base: ParserView|
                old(p)@.extends(base) && base.events.len() <= self.pos
                    ==> #[trigger] final(p)@.extends(base),
    {
        proof {
            reveal(ParserView::with_event_at);
            let ev = p@.events;
            assert forall|cm: CompletedMarker| p@.closed(cm) && self.pos < cm.start implies #[trigger] p@.with_event_at(
                self.pos as int,
                Event::Tombstone,
            ).closed(cm) by {
                lemma_closed_after_withdrawal(p@, self.pos as int, cm);
            }
            let k = p@.open().index_of(self.pos as int);
            lemma_open_starts_sorted(ev);
            lemma_withdraw_start(ev, k);
            lemma_leaves_kept(ev, self.pos as int, Event::Tombstone);
            if p@.innermost(self.pos) {
                assert(k == p@.open().len() - 1) by {
                    if k < p@.open().len() - 1 {
                        assert(p@.open()[k] < p@.open()[p@.open().len() - 1]);
                    }
                }
                assert(p@.open().remove(k) =~= p@.open().drop_last());
            }
        }
        p.events.set(self.pos, Event::Tombstone);
    }
}

impl CompletedMarker {
    /// The kind of the node.
    pub fn kind(&self) -> (k: SyntaxKind)
        ensures
            k == self.kind,
    {
        self.kind
    }

    /// Gives the node another kind. No event moves.
    pub fn change_kind(&mut self, p: &mut Parser, kind: SyntaxKind)
        requires
            old(p)@.wf(),
            old(p)@.closed(*old(self)),
        ensures
            final(p)@ == old(p)@.with_event_at(
                old(self).finish as int,
                Event::FinishNode { kind },
            ),
            *final(self) == (CompletedMarker { kind, ..*old(self) }),
            final(p)@.wf(),
            final(p)@.open() == old(p)@.open(),
            final(p)@.closed(*final(self)),
            old(p)@.closed_last(*old(self)) ==> final(p)@.closed_last(*final(self)),
            final(p)@.same_place(old(p)@),
            final(p)@.events.len() == old(p)@.events.len(),
            final(p)@.diagnostics == old(p)@.diagnostics,
            forall|base: ParserView|
                old(p)@.extends(base) && base.events.len() <= old(self).finish
                    ==> #[trigger] final(p)@.extends(base),
    {
        proof {
            reveal(ParserView::with_event_at);
            reveal(linked);
            reveal(leaves_after);
            let ev = p@.events;
            let after = ev.update(self.finish as int, Event::FinishNode { kind });
            lemma_same_roles(ev, after);
            assert(after.take(self.finish as int) =~= ev.take(self.finish as int));
        }
        p.events.set(self.finish, Event::FinishNode { kind });
        self.kind = kind;
    }

    /// Reopens the node: its `FinishNode` becomes a `Tombstone`, and the marker that
    /// comes back is the innermost open node.
    ///
    /// The node must be the one closed last: no node was opened or closed after it.
    /// The brackets would still nest if nodes had been built after it, but
    /// reopening would then take those nodes, which were built as its siblings, into
    /// the node as its children. A rule reopens what it has just closed, to extend
    /// it; leaves recorded since then, such as an attached error, join the node.
    pub fn undo_completion(self, p: &mut Parser) -> (m: Marker)
        requires
            old(p)@.wf(),
            old(p)@.closed_last(self),
        ensures
            final(p)@ == old(p)@.with_event_at(self.finish as int, Event::Tombstone),
            final(p)@.wf(),
            final(p)@.open() == old(p)@.open().push(self.start as int),
            final(p)@.open().drop_last() == old(p)@.open(),
            final(p)@.innermost(m.pos),
            m.pos == self.start,
            m.token_start == self.token_start,
            final(p)@.same_place(old(p)@),
            final(p)@.events.len() == old(p)@.events.len(),
            final(p)@.diagnostics == old(p)@.diagnostics,
            forall|base: ParserView|
                old(p)@.extends(base) && base.events.len() <= self.finish
                    ==> #[trigger] final(p)@.extends(base),
    {
        proof {
            reveal(ParserView::with_event_at);
            reveal(linked);
            reveal(leaves_after);
            let ev = p@.events;
            lemma_withdraw_finish(ev, self.finish as int);
            lemma_leaves_kept(ev, self.finish as int, Event::Tombstone);
            assert(open_starts(ev.take(self.finish as int)) =~= open_starts(ev).push(
                self.start as int,
            ));
            assert(open_starts(ev).push(self.start as int).drop_last() =~= open_starts(ev));
        }
        p.events.set(self.finish, Event::Tombstone);
        Marker { pos: self.start, token_start: self.token_start }
    }

    /// The source range of the node: from the start of its first token to the end of
    /// its last. A node without tokens has the empty range at the token it was
    /// started at.
    pub fn range(&self, p: &Parser) -> (r: TextRange)
        requires
            self.token_start <= self.token_end <= p@.tokens.len(),
        ensures
            r == p@.span_range(self.token_start as int, self.token_end as int),
    {
        if self.token_start < self.token_end {
            TextRange {
                start: p.range_at(self.token_start).start,
                end: p.range_at(self.token_end - 1).end,
            }
        } else {
            TextRange::empty_at(p.range_at(self.token_start).start)
        }
    }

    /// The text of the node: the texts of its tokens, one after the other.
    pub fn text(&self, p: &Parser) -> (s: String)
        requires
            self.token_start <= self.token_end <= p@.tokens.len(),
        ensures
            s@ == p@.span_text(self.token_start as int, self.token_end as int),
    {
        let mut s = String::new();
        let mut i: usize = self.token_start;
        while i < self.token_end
            invariant
                self.token_start <= i <= self.token_end <= p@.tokens.len(),
                s@ == p@.span_text(self.token_start as int, i as int),
            decreases self.token_end - i,
        {
            s.append(p.tokens[i].text.as_str());
            i = i + 1;
        }
        s
    }

    /// Outside a TypeScript file, turns the node into an `ERROR` node and reports
    /// `err` at its range. In a TypeScript file it does nothing.
    pub fn err_if_not_ts(&mut self, p: &mut Parser, err: &str)
        requires
            old(p)@.wf(),
            old(p)@.closed(*old(self)),
        ensures
            old(p)@.file_kind == FileKind::TypeScript ==> final(p)@ == old(p)@ && *final(self)
                == *old(self),
            old(p)@.file_kind != FileKind::TypeScript ==> {
                &&& final(p)@ == old(p)@.with_event_at(
                    old(self).finish as int,
                    Event::FinishNode { kind: SyntaxKind::ERROR },
                ).reported(
                    DiagnosticView::error(err@).primary(
                        old(p)@.span_range(
                            old(self).token_start as int,
                            old(self).token_end as int,
                        ),
                        Seq::empty(),
                    ),
                )
                &&& *final(self) == (CompletedMarker { kind: SyntaxKind::ERROR, ..*old(self) })
            },
            final(p)@.wf(),
            final(p)@.open() == old(p)@.open(),
            final(p)@.closed(*final(self)),
            old(p)@.closed_last(*old(self)) ==> final(p)@.closed_last(*final(self)),
            errors_after(old(p)@.events, old(self).finish as int) ==> errors_after(
                final(p)@.events,
                old(self).finish as int,
            ),
            final(p)@.same_place(old(p)@),
            final(p)@.events.len() == old(p)@.events.len() + if old(p)@.file_kind
                == FileKind::TypeScript {
                0int
            } else {
                1int
            },
            old(p)@.file_kind != FileKind::TypeScript ==> final(p)@.events.last() is Error
                && final(p)@.diagnostics.last() == DiagnosticView::error(err@).primary(
                old(p)@.span_range(old(self).token_start as int, old(self).token_end as int),
                Seq::empty(),
            ),
            final(p)@.diagnostics.len() == old(p)@.diagnostics.len() + if old(p)@.file_kind
                == FileKind::TypeScript {
                0int
            } else {
                1int
            },
            forall|base: ParserView|
                old(p)@.extends(base) && base.events.len() <= old(self).finish
                    ==> #[trigger] final(p)@.extends(base),
    {
        if p.typescript() {
            return ;
        }
        self.change_kind(p, SyntaxKind::ERROR);
        let empty = "";
        proof {
            reveal_strlit("");
            assert(empty@ =~= Seq::<char>::empty());
        }
        let builder = p.err_builder(err).primary(self.range(p), empty);
        let ghost mid = p@;
        p.error(builder);
        proof {
            lemma_closed_extends(mid, p@, *self);
            reveal(ParserView::with_event_at);
            reveal(ParserView::reported);
            reveal(leaves_after);
            reveal(errors_after);
            assert forall|base: ParserView|
                old(p)@.extends(base) && base.events.len() <= old(
                    self,
                ).finish implies #[trigger] p@.extends(base) by {
                assert(mid.extends(base));
            }
        }
    }
}

/// The guard of a loop that must consume a token in every round.
#[derive(Debug)]
pub struct ParserProgress {
    /// Where the cursor stood at the last check, if there was one.
    pub last: Option<usize>,
}

impl ParserProgress {
    /// A guard that has not checked yet.
    pub fn new() -> (g: ParserProgress)
        ensures
            g.last is None,
    {
        ParserProgress { last: None }
    }

    /// Checks that the cursor has moved since the last check. A caller that cannot
    /// show this has a loop that may not end.
    pub fn assert_progressing(&mut self, p: &Parser)
        requires
            old(self).last matches Some(before) ==> before < p@.pos,
        ensures
            final(self).last == Some(p@.pos as usize),
    {
        self.last = Some(p.pos);
    }
}

impl Default for ParserProgress {
    fn default() -> (g: ParserProgress)
        ensures
            g.last is None,
    {
        ParserProgress { last: None }
    }
}

impl ParserView {
    /// The texts of those of the first `n` tokens that lie within `range`, one after
    /// the other.
    pub open spec fn source_upto(self, range: TextRange, n: int) -> Seq<char>
        decreases n,
    {
        if n <= 0 || n > self.tokens.len() {
            Seq::empty()
        } else {
            let t = self.tokens[n - 1];
            self.source_upto(range, n - 1) + if range.start <= t.range.start && t.range.end
                <= range.end {
                t.text@
            } else {
                Seq::empty()
            }
        }
    }

    /// The source text within `range`, as far as the tokens hold it.
    pub open spec fn source(self, range: TextRange) -> Seq<char> {
        self.source_upto(range, self.tokens.len() as int)
    }
}

impl Parser {
    /// The source text within `range`: the texts of the tokens that lie within it.
    pub fn source(&self, range: TextRange) -> (s: String)
        ensures
            s@ == self@.source(range),
    {
        let mut s = String::new();
        let mut i: usize = 0;
        while i < self.tokens.len()
            invariant
                i <= self.tokens@.len(),
                s@ == self@.source_upto(range, i as int),
            decreases self.tokens@.len() - i,
        {
            let t = &self.tokens[i];
            if range.start <= t.range.start && t.range.end <= range.end {
                s.append(t.text.as_str());
            } else {
                assert(s@ + Seq::<char>::empty() =~= s@);
            }
            i = i + 1;
        }
        s
    }
}

} // verus!
