//! The result of a parse attempt and the combinators that decide what an absent or an
//! invalid result becomes.

use vstd::prelude::*;
use crate::diagnostic::{DiagnosticBuilder, DiagnosticView};
use crate::event::{fills_slot, only_errors, Event};
use crate::parser::{lemma_closed_extends, CompletedMarker, Parser, ParserView};
use crate::syntax_kind::SyntaxKind;
use crate::token::TextRange;

verus! {

/// What a rule found: something, or nothing. A rule that answers `Absent` has
/// consumed no token and recorded nothing.
#[derive(Debug, PartialEq, Eq, Structural)]
pub enum ParsedSyntax<T> {
    Present(T),
    Absent,
}

/// A node that was built, with the verdict of the checks that go beyond its shape.
/// An invalid node is in the tree all the same.
#[derive(Clone, Copy, Debug, PartialEq, Eq, Structural)]
pub enum ConditionalSyntax {
    Valid(CompletedMarker),
    Invalid(CompletedMarker),
}

/// What stands in a child slot: a node, or the placeholder of a missing one.
#[derive(Clone, Copy, Debug, PartialEq, Eq, Structural)]
pub enum CompletedNodeOrMissingMarker {
    NodeMarker(CompletedMarker),
    MissingMarker,
}

impl ConditionalSyntax {
    /// The node, whatever the verdict.
    pub open spec fn marker(self) -> CompletedMarker {
        match self {
            ConditionalSyntax::Valid(m) => m,
            ConditionalSyntax::Invalid(m) => m,
        }
    }

    /// The node, whatever the verdict.
    pub fn into_marker(self) -> (m: CompletedMarker)
        ensures
            m == self.marker(),
    {
        match self {
            ConditionalSyntax::Valid(m) => m,
            ConditionalSyntax::Invalid(m) => m,
        }
    }

    /// Reopens the node, whatever the verdict. As for
    /// [`CompletedMarker::undo_completion`], the node must be the one closed last,
    /// so that no node built after it changes its parent.
    pub fn undo_completion(self, p: &mut Parser) -> (m: crate::parser::Marker)
        requires
            old(p)@.wf(),
            old(p)@.closed_last(self.marker()),
        ensures
            final(p)@ == old(p)@.with_event_at(self.marker().finish as int, Event::Tombstone),
            final(p)@.wf(),
            final(p)@.open() == old(p)@.open().push(self.marker().start as int),
            final(p)@.open().drop_last() == old(p)@.open(),
            final(p)@.innermost(m.pos),
            m.pos == self.marker().start,
            m.token_start == self.marker().token_start,
            final(p)@.same_place(old(p)@),
            final(p)@.events.len() == old(p)@.events.len(),
            final(p)@.diagnostics == old(p)@.diagnostics,
            forall|base: ParserView|
                old(p)@.extends(base) && base.events.len() <= self.marker().finish
                    ==> #[trigger] final(p)@.extends(base),
    {
        self.into_marker().undo_completion(p)
    }
}

impl ParserView {
    /// The error for a node that is required and not there.
    #[verifier::opaque]
    pub open spec fn missing_node_error(self) -> DiagnosticView {
        DiagnosticView::error("expected a syntax node but found none"@).primary(
            self.cur_range(),
            Seq::empty(),
        )
    }

    /// This parser after an empty node of kind `kind` was built at the cursor and
    /// reported as standing for a node that is not there.
    #[verifier::opaque]
    pub open spec fn with_empty_node(self, kind: SyntaxKind) -> ParserView {
        self.with_event(Event::StartNode).with_event(Event::FinishNode { kind }).reported(
            self.missing_node_error(),
        )
    }
}

impl ParserView {
    /// What a rule that answers with a node owes its caller: the invariant, nothing
    /// of the caller's undone, the same nodes open; for a present answer a closed
    /// node that was built by the rule; for an absent answer a parser that is as
    /// it was.
    pub open spec fn answers(self, old: ParserView, r: ParsedSyntax<CompletedMarker>) -> bool {
        &&& self.follows(old)
        &&& match r {
            ParsedSyntax::Present(m) => self.built(old, m),
            ParsedSyntax::Absent => self == old,
        }
    }

    /// The same for a rule that answers with a node and a verdict.
    pub open spec fn answers_conditional(
        self,
        old: ParserView,
        r: ParsedSyntax<ConditionalSyntax>,
    ) -> bool {
        &&& self.follows(old)
        &&& match r {
            ParsedSyntax::Present(c) => self.built(old, c.marker()),
            ParsedSyntax::Absent => self == old,
        }
    }

    /// The same for a rule that answers with an optional node and may have recorded
    /// an error or a placeholder where it found nothing.
    pub open spec fn answers_option(self, old: ParserView, r: Option<CompletedMarker>) -> bool {
        &&& self.follows(old)
        &&& match r {
            Some(m) => self.built(old, m),
            None => true,
        }
    }
}

impl<T> ParsedSyntax<T> {
    pub fn is_present(&self) -> (b: bool)
        ensures
            b == (self is Present),
    {
        matches!(self, ParsedSyntax::Present(_))
    }

    pub fn is_absent(&self) -> (b: bool)
        ensures
            b == (self is Absent),
    {
        matches!(self, ParsedSyntax::Absent)
    }

    /// The value of a result that the caller knows to be present.
    pub fn unwrap(self) -> (t: T)
        requires
            self is Present,
        ensures
            self == ParsedSyntax::Present(t),
    {
        match self {
            ParsedSyntax::Present(t) => t,
            ParsedSyntax::Absent => vstd::pervasive::unreached(),
        }
    }

    /// The result as an `Option`.
    pub fn ok(self) -> (o: Option<T>)
        ensures
            o == match self {
                ParsedSyntax::Present(t) => Some(t),
                ParsedSyntax::Absent => None,
            },
    {
        match self {
            ParsedSyntax::Present(t) => Some(t),
            ParsedSyntax::Absent => None,
        }
    }
}

impl ParsedSyntax<CompletedMarker> {
    /// Declares the node valid. The tree is not touched.
    pub fn into_valid(self) -> (r: ParsedSyntax<ConditionalSyntax>)
        ensures
            r == match self {
                ParsedSyntax::Present(m) => ParsedSyntax::Present(ConditionalSyntax::Valid(m)),
                ParsedSyntax::Absent => ParsedSyntax::Absent,
            },
    {
        match self {
            ParsedSyntax::Present(m) => ParsedSyntax::Present(ConditionalSyntax::Valid(m)),
            ParsedSyntax::Absent => ParsedSyntax::Absent,
        }
    }

    /// Declares the node invalid. The tree is not touched.
    pub fn into_invalid(self) -> (r: ParsedSyntax<ConditionalSyntax>)
        ensures
            r == match self {
                ParsedSyntax::Present(m) => ParsedSyntax::Present(ConditionalSyntax::Invalid(m)),
                ParsedSyntax::Absent => ParsedSyntax::Absent,
            },
    {
        match self {
            ParsedSyntax::Present(m) => ParsedSyntax::Present(ConditionalSyntax::Invalid(m)),
            ParsedSyntax::Absent => ParsedSyntax::Absent,
        }
    }

    /// Fills the slot of a required child. A present node passes through and nothing
    /// changes. For an absent one, the error that `error_builder` builds for the range
    /// of the current token is reported, and a placeholder is recorded in the slot.
    pub fn or_missing_with_error<E>(
        self,
        p: &mut Parser,
        error_builder: E,
    ) -> (r: CompletedNodeOrMissingMarker) where E: FnOnce(&Parser, TextRange) -> DiagnosticBuilder
        requires
            old(p)@.wf(),
            self is Absent ==> call_requires(error_builder, (&*old(p), old(p)@.cur_range())),
        ensures
            match self {
                ParsedSyntax::Present(m) => {
                    &&& r == CompletedNodeOrMissingMarker::NodeMarker(m)
                    &&& final(p)@ == old(p)@
                },
                ParsedSyntax::Absent => {
                    &&& r == CompletedNodeOrMissingMarker::MissingMarker
                    &&& exists|b: DiagnosticBuilder|
                        {
                            &&& call_ensures(error_builder, (&*old(p), old(p)@.cur_range()), b)
                            &&& final(p)@ == old(p)@.reported(b@).with_event(Event::Placeholder)
                        }
                },
            },
            final(p)@.follows(old(p)@),
            final(p)@.pos == old(p)@.pos,
            final(p)@.state == old(p)@.state,
            self is Absent ==> final(p)@.adds_slot(old(p)@) && final(p)@.diagnostics.len() == old(
                p,
            )@.diagnostics.len() + 1,
    {
        match self {
            ParsedSyntax::Present(m) => CompletedNodeOrMissingMarker::NodeMarker(m),
            ParsedSyntax::Absent => {
                let range = p.cur_tok().range;
                let err = error_builder(&*p, range);
                p.error(err);
                p.missing();
                proof {
                    reveal(ParserView::reported);
                    reveal(ParserView::with_event);
                    reveal(only_errors);
                    assert(fills_slot(
                        p@.events,
                        old(p)@.events.len() as int + 1,
                        old(p)@.events.len() as int + 2,
                    ));
                }
                CompletedNodeOrMissingMarker::MissingMarker
            },
        }
    }

    /// Fills the slot of an optional child: records a placeholder if the node is
    /// absent, and nothing if it is present.
    pub fn or_missing(self, p: &mut Parser) -> (r: CompletedNodeOrMissingMarker)
        requires
            old(p)@.wf(),
        ensures
            match self {
                ParsedSyntax::Present(m) => {
                    &&& r == CompletedNodeOrMissingMarker::NodeMarker(m)
                    &&& final(p)@ == old(p)@
                },
                ParsedSyntax::Absent => {
                    &&& r == CompletedNodeOrMissingMarker::MissingMarker
                    &&& final(p)@ == old(p)@.with_event(Event::Placeholder)
                },
            },
            final(p)@.follows(old(p)@),
            final(p)@.same_place(old(p)@),
            final(p)@.diagnostics == old(p)@.diagnostics,
            self is Absent ==> final(p)@.adds_slot(old(p)@),
    {
        match self {
            ParsedSyntax::Present(m) => CompletedNodeOrMissingMarker::NodeMarker(m),
            ParsedSyntax::Absent => {
                p.missing();
                CompletedNodeOrMissingMarker::MissingMarker
            },
        }
    }
}

impl ParsedSyntax<ConditionalSyntax> {
    /// Declares the node valid, whatever the verdict was. The tree is not touched.
    pub fn into_valid(self) -> (r: ParsedSyntax<ConditionalSyntax>)
        ensures
            r == match self {
                ParsedSyntax::Present(c) => ParsedSyntax::Present(
                    ConditionalSyntax::Valid(c.marker()),
                ),
                ParsedSyntax::Absent => ParsedSyntax::Absent,
            },
    {
        match self {
            ParsedSyntax::Present(ConditionalSyntax::Valid(m)) => ParsedSyntax::Present(
                ConditionalSyntax::Valid(m),
            ),
            ParsedSyntax::Present(ConditionalSyntax::Invalid(m)) => ParsedSyntax::Present(
                ConditionalSyntax::Valid(m),
            ),
            ParsedSyntax::Absent => ParsedSyntax::Absent,
        }
    }

    /// Declares the node invalid, whatever the verdict was. The tree is not touched.
    pub fn into_invalid(self) -> (r: ParsedSyntax<ConditionalSyntax>)
        ensures
            r == match self {
                ParsedSyntax::Present(c) => ParsedSyntax::Present(
                    ConditionalSyntax::Invalid(c.marker()),
                ),
                ParsedSyntax::Absent => ParsedSyntax::Absent,
            },
    {
        match self {
            ParsedSyntax::Present(ConditionalSyntax::Valid(m)) => ParsedSyntax::Present(
                ConditionalSyntax::Invalid(m),
            ),
            ParsedSyntax::Present(ConditionalSyntax::Invalid(m)) => ParsedSyntax::Present(
                ConditionalSyntax::Invalid(m),
            ),
            ParsedSyntax::Absent => ParsedSyntax::Absent,
        }
    }

    /// Turns every outcome into a node of the tree. A valid node passes through. An
    /// invalid node is kept and retagged as `unknown_kind`. For an absent node, an
    /// empty node of kind `unknown_kind` is built at the cursor and an error is
    /// reported.
    pub fn or_invalid_to_unknown(self, p: &mut Parser, unknown_kind: SyntaxKind) -> (r:
        ParsedSyntax<CompletedMarker>)
        requires
            old(p)@.wf(),
            self matches ParsedSyntax::Present(c) ==> old(p)@.closed(c.marker()),
        ensures
            match self {
                ParsedSyntax::Present(ConditionalSyntax::Valid(m)) => {
                    &&& r == ParsedSyntax::Present(m)
                    &&& final(p)@ == old(p)@
                },
                ParsedSyntax::Present(ConditionalSyntax::Invalid(m)) => {
                    &&& r == ParsedSyntax::Present(CompletedMarker { kind: unknown_kind, ..m })
                    &&& final(p)@ == old(p)@.with_event_at(
                        m.finish as int,
                        Event::FinishNode { kind: unknown_kind },
                    )
                },
                ParsedSyntax::Absent => {
                    &&& r == ParsedSyntax::Present(
                        CompletedMarker {
                            start: old(p)@.events.len() as usize,
                            finish: (old(p)@.events.len() + 1) as usize,
                            kind: unknown_kind,
                            token_start: old(p)@.pos as usize,
                            token_end: old(p)@.pos as usize,
                        },
                    )
                    &&& final(p)@ == old(p)@.with_empty_node(unknown_kind)
                },
            },
            r is Present,
            final(p)@.wf(),
            final(p)@.open() == old(p)@.open(),
            final(p)@.closed(r->Present_0),
            self matches ParsedSyntax::Present(c) ==> (old(p)@.closed_last(c.marker())
                ==> final(p)@.closed_last(r->Present_0)),
            self is Absent ==> final(p)@.follows(old(p)@),
            final(p)@.same_place(old(p)@),
            forall|base: ParserView|
                old(p)@.extends(base) && (self matches ParsedSyntax::Present(c)
                    ==> base.events.len() <= c.marker().finish) ==> #[trigger] final(p)@.extends(
                    base,
                ),
    {
        proof {
            reveal(ParserView::missing_node_error);
            reveal(ParserView::with_empty_node);
        }
        match self {
            ParsedSyntax::Present(ConditionalSyntax::Valid(m)) => ParsedSyntax::Present(m),
            ParsedSyntax::Present(ConditionalSyntax::Invalid(m)) => {
                let mut m = m;
                m.change_kind(p, unknown_kind);
                ParsedSyntax::Present(m)
            },
            ParsedSyntax::Absent => {
                let empty = "";
                proof {
                    reveal_strlit("");
                    assert(empty@ =~= Seq::<char>::empty());
                }
                let err = p.err_builder("expected a syntax node but found none").primary(
                    p.cur_tok().range,
                    empty,
                );
                let marker = p.start();
                let m = marker.complete(p, unknown_kind);
                let ghost mid = p@;
                p.error(err);
                proof {
                    lemma_closed_extends(mid, p@, m);
                }
                ParsedSyntax::Present(m)
            },
        }
    }
}

} // verus!
