//! Recovery from a token that no rule accepts: the tokens up to the next safe place
//! are wrapped in a node of their own.

use vstd::prelude::*;
use crate::diagnostic::DiagnosticBuilder;
use crate::event::Event;
use crate::parsed_syntax::ParsedSyntax;
use crate::parser::{lemma_closed_extends, CompletedMarker, Parser, ParserView};
use crate::syntax_kind::SyntaxKind;
use crate::token::{TextRange, Token};

verus! {

/// Why nothing was skipped.
#[derive(Clone, Copy, Debug, PartialEq, Eq, Structural)]
pub enum RecoveryError {
    /// The tokens have ended.
    Eof,
    /// The parser stands at a safe place already.
    AlreadyRecovered,
}

/// How to recover: the kind of the node that wraps the skipped tokens, the kinds of
/// token at which it is safe to go on, and whether a line break is such a place too.
#[derive(Debug)]
pub struct ParseRecovery {
    pub node_kind: SyntaxKind,
    pub recovery_set: Vec<SyntaxKind>,
    pub line_break: bool,
}

/// The `Token` events for tokens `from .. to`, each under its own kind.
pub open spec fn skipped_events(tokens: Seq<Token>, from: int, to: int) -> Seq<Event> {
    Seq::new(
        (to - from) as nat,
        |j: int| Event::Token { index: (from + j) as usize, kind: tokens[from + j].kind },
    )
}

impl ParseRecovery {
    /// Whether token number `i` is a safe place. The end of the tokens is one.
    pub open spec fn safe_at(&self, tokens: Seq<Token>, i: int) -> bool {
        ||| !(0 <= i < tokens.len())
        ||| tokens[i].kind == SyntaxKind::EOF
        ||| self.recovery_set@.contains(tokens[i].kind)
        ||| self.line_break && tokens[i].after_newline
    }

    /// A recovery that stops at a token of one of the kinds in `recovery_set`.
    pub fn new(node_kind: SyntaxKind, recovery_set: Vec<SyntaxKind>) -> (r: ParseRecovery)
        ensures
            r == (ParseRecovery { node_kind, recovery_set, line_break: false }),
    {
        ParseRecovery { node_kind, recovery_set, line_break: false }
    }

    /// The same recovery, which also stops at a token that follows a line break.
    pub fn enable_recovery_on_line_break(self) -> (r: ParseRecovery)
        ensures
            r == (ParseRecovery { line_break: true, ..self }),
    {
        ParseRecovery { line_break: true, ..self }
    }

    /// Whether the parser stands at a safe place.
    pub fn recovered(&self, p: &Parser) -> (b: bool)
        ensures
            b == self.safe_at(p@.tokens, p@.pos as int),
    {
        let kind = p.cur();
        if p.at_end() || kind == SyntaxKind::EOF {
            return true;
        }
        if self.line_break && p.has_linebreak_before_n(0) {
            return true;
        }
        let mut i: usize = 0;
        while i < self.recovery_set.len()
            invariant
                i <= self.recovery_set@.len(),
                !p@.at_end(),
                kind == p@.cur_kind(),
                forall|j: int| 0 <= j < i ==> self.recovery_set@[j] != kind,
            decreases self.recovery_set@.len() - i,
        {
            if self.recovery_set[i] == kind {
                assert(self.recovery_set@[i as int] == kind);
                return true;
            }
            i = i + 1;
        }
        false
    }

    /// Skips to the next safe place and wraps what it skipped in a node of kind
    /// `node_kind`. At a safe place it does nothing and says why.
    pub fn recover(&self, p: &mut Parser) -> (r: Result<CompletedMarker, RecoveryError>)
        requires
            old(p)@.wf(),
        ensures
            r is Err <==> self.safe_at(old(p)@.tokens, old(p)@.pos as int),
            r matches Err(e) ==> final(p)@ == old(p)@ && (e == RecoveryError::Eof
                <==> old(p)@.cur_kind() == SyntaxKind::EOF),
            r matches Ok(m) ==> {
                &&& final(p)@.follows(old(p)@)
                &&& final(p)@.built(old(p)@, m)
                &&& old(p)@.pos < final(p)@.pos
                &&& final(p)@.state == old(p)@.state
                &&& final(p)@.diagnostics == old(p)@.diagnostics
                &&& final(p)@.events == old(p)@.events.push(Event::StartNode) + skipped_events(
                    old(p)@.tokens,
                    old(p)@.pos as int,
                    final(p)@.pos as int,
                ).push(Event::FinishNode { kind: self.node_kind })
                &&& m.kind == self.node_kind
                &&& m.token_start == old(p)@.pos
                &&& m.token_end == final(p)@.pos
                &&& self.safe_at(final(p)@.tokens, final(p)@.pos as int)
                &&& forall|i: int|
                    old(p)@.pos <= i < final(p)@.pos ==> !self.safe_at(old(p)@.tokens, i)
            },
    {
        proof {
            reveal(ParserView::with_event);
            reveal(ParserView::bumped);
        }
        if p.at(SyntaxKind::EOF) {
            return Err(RecoveryError::Eof);
        }
        if self.recovered(p) {
            return Err(RecoveryError::AlreadyRecovered);
        }
        let ghost entry = p@;
        let m = p.start();
        let ghost started = p@;
        assert(started.events + skipped_events(entry.tokens, entry.pos as int, entry.pos as int)
            =~= started.events);
        while !self.recovered(p)
            invariant
                p@.follows(started),
                started == entry.with_event(Event::StartNode),
                p@.state == entry.state,
                p@.diagnostics == entry.diagnostics,
                p@.events == started.events + skipped_events(
                    entry.tokens,
                    entry.pos as int,
                    p@.pos as int,
                ),
                forall|i: int| entry.pos <= i < p@.pos ==> !self.safe_at(entry.tokens, i),
                !self.safe_at(entry.tokens, entry.pos as int),
                p@.tokens == entry.tokens,
                entry.pos <= p@.pos,
            decreases p@.remaining(),
        {
            proof {
                reveal(ParserView::bumped);
            }
            p.bump_any();
            assert(p@.events =~= started.events + skipped_events(
                entry.tokens,
                entry.pos as int,
                p@.pos as int,
            ));
        }
        let completed = m.complete(p, self.node_kind);
        assert(p@.events =~= entry.events.push(Event::StartNode) + skipped_events(
            entry.tokens,
            entry.pos as int,
            p@.pos as int,
        ).push(Event::FinishNode { kind: self.node_kind }));
        Ok(completed)
    }
}

impl ParsedSyntax<CompletedMarker> {
    /// Passes a present node through. For an absent one, skips to the next safe place
    /// and reports the error that `error_builder` builds for the range of what was
    /// skipped; at a safe place it does nothing and says why.
    pub fn or_recover<E>(self, p: &mut Parser, recovery: &ParseRecovery, error_builder: E) -> (r:
        Result<CompletedMarker, RecoveryError>) where
        E: FnOnce(&Parser, TextRange) -> DiagnosticBuilder,

        requires
            old(p)@.wf(),
            forall|q: &Parser, range: TextRange| call_requires(error_builder, (q, range)),
        ensures
            self matches ParsedSyntax::Present(m) ==> r == Ok::<CompletedMarker, RecoveryError>(m)
                && final(p)@ == old(p)@,
            self is Absent ==> {
                &&& r is Err <==> recovery.safe_at(old(p)@.tokens, old(p)@.pos as int)
                &&& r is Err ==> final(p)@ == old(p)@
                &&& r matches Ok(m) ==> {
                    &&& final(p)@.built(old(p)@, m)
                    &&& old(p)@.pos < final(p)@.pos
                    &&& m.kind == recovery.node_kind
                    &&& final(p)@.diagnostics.len() == old(p)@.diagnostics.len() + 1
                    &&& recovery.safe_at(final(p)@.tokens, final(p)@.pos as int)
                }
            },
            final(p)@.follows(old(p)@),
            final(p)@.state == old(p)@.state,
    {
        match self {
            ParsedSyntax::Present(m) => Ok(m),
            ParsedSyntax::Absent => {
                match recovery.recover(p) {
                    Ok(recovered) => {
                        let err = error_builder(&*p, recovered.range(p));
                        let ghost mid = p@;
                        p.error(err);
                        proof {
                            lemma_closed_extends(mid, p@, recovered);
                        }
                        Ok(recovered)
                    },
                    Err(e) => Err(e),
                }
            },
        }
    }
}

} // verus!
