//! Identifiers and expressions.
//!
//! An operator chain of one level is one node: `a + b - c` is a single binary
//! expression with three operands, and `a.b(c)` a single call expression.

use vstd::prelude::*;
use crate::diagnostic::{DiagnosticBuilder, DiagnosticView};
use crate::event::Event;
use crate::parsed_syntax::{CompletedNodeOrMissingMarker, ConditionalSyntax, ParsedSyntax};
use crate::parser::{CompletedMarker, Parser, ParserView};
use crate::syntax::js_parse_error::expected_expression;
use crate::syntax::object::{is_at_object_member_name, parse_object_member_name};
use crate::syntax_kind::SyntaxKind;

verus! {

/// The kinds of token that can be read as an identifier.
pub open spec fn spec_is_identifier_kind(kind: SyntaxKind) -> bool {
    matches!(kind, SyntaxKind::IDENT | SyntaxKind::YIELD_KW | SyntaxKind::AWAIT_KW)
}

/// Whether the current token can be read as an identifier.
pub fn is_at_identifier(p: &Parser) -> (b: bool)
    ensures
        b == spec_is_identifier_kind(p@.cur_kind()),
{
    matches!(p.cur(), SyntaxKind::IDENT | SyntaxKind::YIELD_KW | SyntaxKind::AWAIT_KW)
}

/// The kinds of token that an identifier name can be: an identifier or any keyword.
pub open spec fn spec_is_identifier_name_kind(kind: SyntaxKind) -> bool {
    kind == SyntaxKind::IDENT || kind.spec_is_keyword()
}

/// Whether the token `offset` places ahead can be an identifier name.
pub fn nth_at_identifier_name(p: &Parser, offset: usize) -> (b: bool)
    ensures
        b == spec_is_identifier_name_kind(p@.nth_kind(offset as int)),
{
    let kind = p.nth(offset);
    kind == SyntaxKind::IDENT || kind.is_keyword()
}

/// Whether the current token can be an identifier name.
pub fn at_identifier_name(p: &Parser) -> (b: bool)
    ensures
        b == spec_is_identifier_name_kind(p@.cur_kind()),
{
    nth_at_identifier_name(p, 0)
}

/// Why the current token, read as an identifier, is not a valid one: `await` in an
/// async context, `yield` in a generator or in strict mode.
pub open spec fn identifier_error(p: ParserView) -> Option<DiagnosticView> {
    if p.cur_kind() == SyntaxKind::AWAIT_KW && p.state.in_async {
        Some(
            DiagnosticView::error(
                "Illegal use of `await` as an identifier in an async context"@,
            ).primary(p.cur_range(), Seq::empty()),
        )
    } else if p.cur_kind() == SyntaxKind::YIELD_KW && (p.state.in_generator || p.state.strict) {
        Some(
            DiagnosticView::error(
                "Illegal use of `yield` as an identifier in a generator function or in strict mode"@,
            ).primary(p.cur_range(), Seq::empty()),
        )
    } else {
        None
    }
}

/// The parser after the current token was made an identifier node of kind `kind`:
/// the node is opened, the error is reported if there is one, the token is attached
/// as an `IDENT`, and the node is closed.
#[verifier::opaque]
pub open spec fn with_identifier(p: ParserView, kind: SyntaxKind) -> ParserView {
    let started = p.with_event(Event::StartNode);
    let flagged = match identifier_error(p) {
        Some(d) => started.reported(d),
        None => started,
    };
    flagged.bumped(SyntaxKind::IDENT).with_event(Event::FinishNode { kind })
}

/// The node that [`with_identifier`] builds.
pub open spec fn identifier_marker(p: ParserView, kind: SyntaxKind, m: CompletedMarker) -> bool {
    &&& m.start == p.events.len()
    &&& m.finish == with_identifier(p, kind).events.len() - 1
    &&& m.kind == kind
    &&& m.token_start == p.pos
    &&& m.token_end == p.pos + 1
}

fn empty_label() -> (s: &'static str)
    ensures
        s@ == Seq::<char>::empty(),
{
    let s = "";
    proof {
        reveal_strlit("");
        assert(s@ =~= Seq::<char>::empty());
    }
    s
}

fn build_identifier_error(p: &Parser) -> (e: Option<DiagnosticBuilder>)
    ensures
        match (e, identifier_error(p@)) {
            (Some(b), Some(d)) => b@ == d,
            (None, None) => true,
            _ => false,
        },
{
    if p.at(SyntaxKind::AWAIT_KW) && p.state().in_async {
        Some(
            p.err_builder("Illegal use of `await` as an identifier in an async context").primary(
                p.cur_tok().range,
                empty_label(),
            ),
        )
    } else if p.at(SyntaxKind::YIELD_KW) && (p.state().in_generator || p.state().strict) {
        Some(
            p.err_builder(
                "Illegal use of `yield` as an identifier in a generator function or in strict mode",
            ).primary(p.cur_tok().range, empty_label()),
        )
    } else {
        None
    }
}

/// Reads the current token as an identifier and makes it a node of kind `kind`.
/// The answer is absent, and nothing happens, if the token cannot be an identifier.
/// The node is invalid where the word is reserved in the context.
pub fn parse_identifier(p: &mut Parser, kind: SyntaxKind) -> (r: ParsedSyntax<ConditionalSyntax>)
    requires
        old(p)@.wf(),
    ensures
        r is Present <==> spec_is_identifier_kind(old(p)@.cur_kind()),
        r is Absent ==> final(p)@ == old(p)@,
        r matches ParsedSyntax::Present(c) ==> {
            &&& final(p)@ == with_identifier(old(p)@, kind)
            &&& identifier_marker(old(p)@, kind, c.marker())
            &&& c is Valid <==> identifier_error(old(p)@) is None
            &&& final(p)@.closed_last(c.marker())
        },
        final(p)@.answers_conditional(old(p)@, r),
        final(p)@.state == old(p)@.state,
        final(p)@.pos == if r is Present {
            old(p)@.pos + 1
        } else {
            old(p)@.pos
        },
{
    proof {
        reveal(with_identifier);
        reveal(ParserView::after_bump_remap);
    }
    if !is_at_identifier(p) {
        return ParsedSyntax::Absent;
    }
    let error = build_identifier_error(p);
    let m = p.start();
    let valid = match error {
        Some(err) => {
            p.error(err);
            false
        },
        None => true,
    };
    p.bump_remap(SyntaxKind::IDENT);
    let completed = m.complete(p, kind);
    if valid {
        ParsedSyntax::Present(ConditionalSyntax::Valid(completed))
    } else {
        ParsedSyntax::Present(ConditionalSyntax::Invalid(completed))
    }
}

/// The parser after the current token, an identifier or a keyword, was made a `NAME`.
#[verifier::opaque]
pub open spec fn with_name(p: ParserView) -> ParserView {
    p.with_event(Event::StartNode).bumped(SyntaxKind::IDENT).with_event(
        Event::FinishNode { kind: SyntaxKind::NAME },
    )
}

/// The error of [`identifier_name`].
#[verifier::opaque]
pub open spec fn identifier_name_error(p: ParserView) -> DiagnosticView {
    DiagnosticView::error("Expected an identifier or keyword"@).primary(
        p.cur_range(),
        "Expected an identifier or keyword here"@,
    )
}

/// This parser after [`identifier_name`].
#[verifier::opaque]
pub open spec fn after_identifier_name(p: ParserView) -> ParserView {
    if spec_is_identifier_name_kind(p.cur_kind()) {
        with_name(p)
    } else {
        p.reported(identifier_name_error(p)).with_event(Event::Placeholder)
    }
}

/// Reads an identifier or a keyword as a name. Where there is neither, reports an
/// error and records a placeholder in the slot of the name.
pub fn identifier_name(p: &mut Parser) -> (r: Option<CompletedMarker>)
    requires
        old(p)@.wf(),
    ensures
        r is Some <==> spec_is_identifier_name_kind(old(p)@.cur_kind()),
        r matches Some(m) ==> {
            &&& final(p)@ == with_name(old(p)@)
            &&& m == (CompletedMarker {
                start: old(p)@.events.len() as usize,
                finish: (old(p)@.events.len() + 2) as usize,
                kind: SyntaxKind::NAME,
                token_start: old(p)@.pos as usize,
                token_end: (old(p)@.pos + 1) as usize,
            })
            &&& final(p)@.closed_last(m)
        },
        r is None ==> final(p)@ == old(p)@.reported(identifier_name_error(old(p)@)).with_event(
            Event::Placeholder,
        ),
        final(p)@ == after_identifier_name(old(p)@),
        final(p)@.answers_option(old(p)@, r),
        final(p)@.state == old(p)@.state,
        final(p)@.pos == if r is Some {
            old(p)@.pos + 1
        } else {
            old(p)@.pos
        },
{
    proof {
        reveal(with_name);
        reveal(identifier_name_error);
        reveal(after_identifier_name);
        reveal(ParserView::after_bump_remap);
    }
    if at_identifier_name(p) {
        let m = p.start();
        p.bump_remap(SyntaxKind::IDENT);
        Some(m.complete(p, SyntaxKind::NAME))
    } else {
        let err = p.err_builder("Expected an identifier or keyword").primary(
            p.cur_tok().range,
            "Expected an identifier or keyword here",
        );
        p.error(err);
        p.missing();
        None
    }
}

/// The kinds of token that can start a primary expression.
pub open spec fn spec_starts_primary(kind: SyntaxKind) -> bool {
    matches!(
        kind,
        SyntaxKind::IDENT | SyntaxKind::YIELD_KW | SyntaxKind::AWAIT_KW
            | SyntaxKind::JS_NUMBER_LITERAL | SyntaxKind::JS_STRING_LITERAL | SyntaxKind::TRUE_KW
            | SyntaxKind::FALSE_KW | SyntaxKind::NULL_KW | SyntaxKind::THIS_KW
            | SyntaxKind::L_PAREN | SyntaxKind::L_CURLY
    )
}

/// The prefix operators.
pub open spec fn spec_is_prefix_operator(kind: SyntaxKind) -> bool {
    matches!(
        kind,
        SyntaxKind::BANG | SyntaxKind::MINUS | SyntaxKind::PLUS | SyntaxKind::TYPEOF_KW
            | SyntaxKind::VOID_KW
    )
}

/// The kinds of token that can start an expression.
pub open spec fn spec_starts_expression(kind: SyntaxKind) -> bool {
    spec_starts_primary(kind) || spec_is_prefix_operator(kind)
}

/// The binary operators. `in` is one only where the context reads it as one.
pub open spec fn spec_is_binary_operator(kind: SyntaxKind, include_in: bool) -> bool {
    ||| matches!(
        kind,
        SyntaxKind::PLUS | SyntaxKind::MINUS | SyntaxKind::STAR | SyntaxKind::SLASH
            | SyntaxKind::PERCENT | SyntaxKind::EQ2 | SyntaxKind::NEQ | SyntaxKind::L_ANGLE
            | SyntaxKind::R_ANGLE | SyntaxKind::AMP2 | SyntaxKind::PIPE2
    )
    ||| kind == SyntaxKind::IN_KW && include_in
}

fn starts_primary(kind: SyntaxKind) -> (b: bool)
    ensures
        b == spec_starts_primary(kind),
{
    matches!(
        kind,
        SyntaxKind::IDENT | SyntaxKind::YIELD_KW | SyntaxKind::AWAIT_KW
            | SyntaxKind::JS_NUMBER_LITERAL | SyntaxKind::JS_STRING_LITERAL | SyntaxKind::TRUE_KW
            | SyntaxKind::FALSE_KW | SyntaxKind::NULL_KW | SyntaxKind::THIS_KW
            | SyntaxKind::L_PAREN | SyntaxKind::L_CURLY
    )
}

fn is_prefix_operator(kind: SyntaxKind) -> (b: bool)
    ensures
        b == spec_is_prefix_operator(kind),
{
    matches!(
        kind,
        SyntaxKind::BANG | SyntaxKind::MINUS | SyntaxKind::PLUS | SyntaxKind::TYPEOF_KW
            | SyntaxKind::VOID_KW
    )
}

/// Whether the current token can start an expression.
pub fn is_at_expression(p: &Parser) -> (b: bool)
    ensures
        b == spec_starts_expression(p@.cur_kind()),
{
    let kind = p.cur();
    starts_primary(kind) || is_prefix_operator(kind)
}

fn is_at_binary_operator(p: &Parser) -> (b: bool)
    ensures
        b == spec_is_binary_operator(p@.cur_kind(), p@.state.include_in),
{
    let kind = p.cur();
    matches!(
        kind,
        SyntaxKind::PLUS | SyntaxKind::MINUS | SyntaxKind::STAR | SyntaxKind::SLASH
            | SyntaxKind::PERCENT | SyntaxKind::EQ2 | SyntaxKind::NEQ | SyntaxKind::L_ANGLE
            | SyntaxKind::R_ANGLE | SyntaxKind::AMP2 | SyntaxKind::PIPE2
    ) || (kind == SyntaxKind::IN_KW && p.state().include_in)
}

/// An object expression: `{`, the members separated by commas, `}`. A member is a
/// name and a value, `a: 1`, or the shorthand `a`. A token that starts no member is
/// reported and wrapped in an unknown member.
fn parse_object_expression(p: &mut Parser) -> (m: CompletedMarker)
    requires
        old(p)@.wf(),
        old(p)@.cur_kind() == SyntaxKind::L_CURLY,
    ensures
        final(p)@.follows(old(p)@),
        final(p)@.state == old(p)@.state,
        final(p)@.built(old(p)@, m),
        old(p)@.pos < final(p)@.pos,
        m.kind == SyntaxKind::JS_OBJECT_EXPRESSION,
    decreases old(p)@.remaining(), 0int,
{
    let ghost entry = p@;
    let m = p.start();
    p.bump(SyntaxKind::L_CURLY);
    let list = p.start();
    let ghost inside = p@;
    while !p.at(SyntaxKind::EOF) && !p.at(SyntaxKind::R_CURLY)
        invariant
            entry == old(p)@,
            p@.state == entry.state,
            p@.follows(inside),
            inside.pos == entry.pos + 1,
            inside.tokens == entry.tokens,
        decreases p@.remaining(),
    {
        let ghost round = p@;
        let member = p.start();
        let ghost opened = p@;
        if is_at_identifier(p) && !p.nth_at(1, SyntaxKind::COLON) {
            parse_identifier(p, SyntaxKind::JS_REFERENCE_IDENTIFIER).or_invalid_to_unknown(
                p,
                SyntaxKind::JS_UNKNOWN_EXPRESSION,
            );
            assert(p@.extends(opened));
            member.complete(p, SyntaxKind::JS_SHORTHAND_PROPERTY_OBJECT_MEMBER);
        } else if is_at_object_member_name(p) {
            parse_object_member_name(p);
            p.expect_required(SyntaxKind::COLON);
            parse_expr_or_assignment(p).or_missing_with_error(p, expected_expression);
            member.complete(p, SyntaxKind::JS_PROPERTY_OBJECT_MEMBER);
        } else {
            let err = p.err_builder("expected an object member").primary(
                p.cur_tok().range,
                "this starts no member",
            );
            p.error(err);
            p.bump_any();
            member.complete(p, SyntaxKind::JS_UNKNOWN_MEMBER);
        }
        if !p.at(SyntaxKind::R_CURLY) && !p.at(SyntaxKind::EOF) {
            p.expect_required(SyntaxKind::COMMA);
        }
        assert(round.pos < p@.pos);
    }
    list.complete(p, SyntaxKind::JS_OBJECT_MEMBER_LIST);
    p.expect_required(SyntaxKind::R_CURLY);
    m.complete(p, SyntaxKind::JS_OBJECT_EXPRESSION)
}

/// The kinds of token that are a primary expression by themselves: a literal,
/// `this`, and an identifier.
pub open spec fn spec_is_atom_kind(kind: SyntaxKind) -> bool {
    matches!(
        kind,
        SyntaxKind::IDENT | SyntaxKind::YIELD_KW | SyntaxKind::AWAIT_KW
            | SyntaxKind::JS_NUMBER_LITERAL | SyntaxKind::JS_STRING_LITERAL | SyntaxKind::TRUE_KW
            | SyntaxKind::FALSE_KW | SyntaxKind::NULL_KW | SyntaxKind::THIS_KW
    )
}

/// The kind of the node that a literal or `this` becomes.
pub open spec fn spec_atom_node_kind(kind: SyntaxKind) -> SyntaxKind {
    match kind {
        SyntaxKind::JS_NUMBER_LITERAL => SyntaxKind::JS_NUMBER_LITERAL_EXPRESSION,
        SyntaxKind::JS_STRING_LITERAL => SyntaxKind::JS_STRING_LITERAL_EXPRESSION,
        SyntaxKind::TRUE_KW | SyntaxKind::FALSE_KW => SyntaxKind::JS_BOOLEAN_LITERAL_EXPRESSION,
        SyntaxKind::NULL_KW => SyntaxKind::JS_NULL_LITERAL_EXPRESSION,
        _ => SyntaxKind::JS_THIS_EXPRESSION,
    }
}

/// This parser after a primary expression of one token: a node around a literal or
/// `this`; a reference around an identifier, retagged as an unknown expression if
/// the identifier is reserved here.
pub open spec fn after_atom(p: ParserView) -> ParserView {
    if spec_is_identifier_kind(p.cur_kind()) {
        let named = with_identifier(p, SyntaxKind::JS_REFERENCE_IDENTIFIER);
        if identifier_error(p) is None {
            named
        } else {
            named.with_event_at(
                named.events.len() - 1,
                Event::FinishNode { kind: SyntaxKind::JS_UNKNOWN_EXPRESSION },
            )
        }
    } else {
        p.with_event(Event::StartNode).bumped(p.cur_kind()).with_event(
            Event::FinishNode { kind: spec_atom_node_kind(p.cur_kind()) },
        )
    }
}

/// Whether the expression at the cursor is one token and nothing more, read by a
/// rule that is `depth` levels above the primary expression: the token is a
/// primary expression, and the token after it continues no expression of a level
/// up to `depth`. The levels are the member access or call, the binary operator,
/// the conditional, the assignment, and the sequence.
pub open spec fn spec_is_atom(p: ParserView, depth: nat) -> bool {
    let next = p.nth_kind(1);
    &&& spec_is_atom_kind(p.cur_kind())
    &&& depth >= 1 ==> next != SyntaxKind::DOT && next != SyntaxKind::L_PAREN
    &&& depth >= 2 ==> !spec_is_binary_operator(next, p.state.include_in)
    &&& depth >= 3 ==> next != SyntaxKind::QUESTION
    &&& depth >= 4 ==> next != SyntaxKind::EQ
    &&& depth >= 5 ==> next != SyntaxKind::COMMA
}

/// This parser after an expression of one token was read by a rule `depth` levels
/// above the primary expression. Every level has opened a node for what might
/// follow, and has withdrawn it.
pub open spec fn after_wrapped_atom(p: ParserView, depth: nat) -> ParserView
    decreases depth,
{
    if depth == 0 {
        after_atom(p)
    } else {
        after_wrapped_atom(p.with_event(Event::StartNode), (depth - 1) as nat).with_event_at(
            p.events.len() as int,
            Event::Tombstone,
        )
    }
}

/// A literal, `this`, an identifier, an object expression, or an expression in
/// parentheses.
fn parse_primary_expression(p: &mut Parser) -> (r: ParsedSyntax<CompletedMarker>)
    requires
        old(p)@.wf(),
    ensures
        final(p)@.answers(old(p)@, r),
        final(p)@.state == old(p)@.state,
        r is Present <==> spec_starts_primary(old(p)@.cur_kind()),
        r is Present ==> old(p)@.pos < final(p)@.pos,
        spec_is_atom(old(p)@, 0) ==> final(p)@ == after_wrapped_atom(old(p)@, 0) && final(p)@.pos
            == old(p)@.pos + 1,
    decreases old(p)@.remaining(), 1int,
{
    proof {
        reveal(ParserView::with_event);
        reveal(ParserView::bumped);
    }
    let kind = p.cur();
    match kind {
        SyntaxKind::JS_NUMBER_LITERAL
        | SyntaxKind::JS_STRING_LITERAL
        | SyntaxKind::TRUE_KW
        | SyntaxKind::FALSE_KW
        | SyntaxKind::NULL_KW
        | SyntaxKind::THIS_KW => {
            let node_kind = match kind {
                SyntaxKind::JS_NUMBER_LITERAL => SyntaxKind::JS_NUMBER_LITERAL_EXPRESSION,
                SyntaxKind::JS_STRING_LITERAL => SyntaxKind::JS_STRING_LITERAL_EXPRESSION,
                SyntaxKind::TRUE_KW | SyntaxKind::FALSE_KW => {
                    SyntaxKind::JS_BOOLEAN_LITERAL_EXPRESSION
                },
                SyntaxKind::NULL_KW => SyntaxKind::JS_NULL_LITERAL_EXPRESSION,
                _ => SyntaxKind::JS_THIS_EXPRESSION,
            };
            let m = p.start();
            p.bump_any();
            ParsedSyntax::Present(m.complete(p, node_kind))
        },
        SyntaxKind::IDENT | SyntaxKind::YIELD_KW | SyntaxKind::AWAIT_KW => {
            parse_identifier(p, SyntaxKind::JS_REFERENCE_IDENTIFIER).or_invalid_to_unknown(
                p,
                SyntaxKind::JS_UNKNOWN_EXPRESSION,
            )
        },
        SyntaxKind::L_PAREN => {
            let m = p.start();
            p.bump(SyntaxKind::L_PAREN);
            parse_expression(p).or_missing_with_error(p, expected_expression);
            p.expect_required(SyntaxKind::R_PAREN);
            ParsedSyntax::Present(m.complete(p, SyntaxKind::JS_PARENTHESIZED_EXPRESSION))
        },
        SyntaxKind::L_CURLY => ParsedSyntax::Present(parse_object_expression(p)),
        _ => ParsedSyntax::Absent,
    }
}

/// The arguments of a call: `(`, expressions separated by commas, `)`.
fn parse_call_arguments(p: &mut Parser) -> (m: CompletedMarker)
    requires
        old(p)@.wf(),
        old(p)@.cur_kind() == SyntaxKind::L_PAREN,
    ensures
        final(p)@.follows(old(p)@),
        final(p)@.state == old(p)@.state,
        final(p)@.built(old(p)@, m),
        old(p)@.pos < final(p)@.pos,
    decreases old(p)@.remaining(), 0int,
{
    let ghost entry = p@;
    let m = p.start();
    p.bump(SyntaxKind::L_PAREN);
    let list = p.start();
    let ghost inside = p@;
    while !p.at(SyntaxKind::EOF) && !p.at(SyntaxKind::R_PAREN)
        invariant
            entry == old(p)@,
            p@.state == entry.state,
            p@.follows(inside),
            inside.pos == entry.pos + 1,
            inside.tokens == entry.tokens,
        decreases p@.remaining(),
    {
        let ghost round = p@;
        let argument = parse_expr_or_assignment(p);
        if argument.is_absent() {
            argument.or_missing_with_error(p, expected_expression);
            if !p.at(SyntaxKind::COMMA) {
                // Neither an argument nor a separator: leave the rest to the caller.
                break ;
            }
        }
        if !p.at(SyntaxKind::R_PAREN) {
            if !p.expect_required(SyntaxKind::COMMA) {
                break ;
            }
        }
        assert(round.pos < p@.pos);
    }
    list.complete(p, SyntaxKind::JS_CALL_ARGUMENT_LIST);
    p.expect_required(SyntaxKind::R_PAREN);
    m.complete(p, SyntaxKind::JS_CALL_ARGUMENTS)
}

/// A primary expression with the member accesses and calls that follow it.
fn parse_postfix_expression(p: &mut Parser) -> (r: ParsedSyntax<CompletedMarker>)
    requires
        old(p)@.wf(),
    ensures
        final(p)@.answers(old(p)@, r),
        final(p)@.state == old(p)@.state,
        r is Present <==> spec_starts_primary(old(p)@.cur_kind()),
        r is Present ==> old(p)@.pos < final(p)@.pos,
        spec_is_atom(old(p)@, 1) ==> final(p)@ == after_wrapped_atom(old(p)@, 1) && final(p)@.pos
            == old(p)@.pos + 1,
    decreases old(p)@.remaining(), 2int,
{
    if !starts_primary(p.cur()) {
        return ParsedSyntax::Absent;
    }
    let ghost entry = p@;
    let m = p.start();
    let ghost started = p@;
    let head = parse_primary_expression(p).unwrap();
    if !p.at(SyntaxKind::DOT) && !p.at(SyntaxKind::L_PAREN) {
        m.abandon(p);
        return ParsedSyntax::Present(head);
    }
    let mut called = false;
    while p.at(SyntaxKind::DOT) || p.at(SyntaxKind::L_PAREN)
        invariant
            entry == old(p)@,
            p@.state == entry.state,
            p@.follows(started),
            started.pos == entry.pos,
            started.tokens == entry.tokens,
            entry.pos < p@.pos,
        decreases p@.remaining(),
    {
        if p.at(SyntaxKind::DOT) {
            p.bump(SyntaxKind::DOT);
            identifier_name(p);
        } else {
            parse_call_arguments(p);
            called = true;
        }
    }
    let kind = if called {
        SyntaxKind::JS_CALL_EXPRESSION
    } else {
        SyntaxKind::JS_STATIC_MEMBER_EXPRESSION
    };
    ParsedSyntax::Present(m.complete(p, kind))
}

/// A postfix expression, or a prefix operator and its operand.
fn parse_unary_expression(p: &mut Parser) -> (r: ParsedSyntax<CompletedMarker>)
    requires
        old(p)@.wf(),
    ensures
        final(p)@.answers(old(p)@, r),
        final(p)@.state == old(p)@.state,
        r is Present <==> spec_starts_expression(old(p)@.cur_kind()),
        r is Present ==> old(p)@.pos < final(p)@.pos,
        spec_is_atom(old(p)@, 1) ==> final(p)@ == after_wrapped_atom(old(p)@, 1) && final(p)@.pos
            == old(p)@.pos + 1,
    decreases old(p)@.remaining(), 3int,
{
    if is_prefix_operator(p.cur()) {
        let m = p.start();
        p.bump_any();
        parse_unary_expression(p).or_missing_with_error(p, expected_expression);
        ParsedSyntax::Present(m.complete(p, SyntaxKind::JS_UNARY_EXPRESSION))
    } else {
        parse_postfix_expression(p)
    }
}

/// Unary expressions joined by binary operators.
fn parse_binary_expression(p: &mut Parser) -> (r: ParsedSyntax<CompletedMarker>)
    requires
        old(p)@.wf(),
    ensures
        final(p)@.answers(old(p)@, r),
        final(p)@.state == old(p)@.state,
        r is Present <==> spec_starts_expression(old(p)@.cur_kind()),
        r is Present ==> old(p)@.pos < final(p)@.pos,
        spec_is_atom(old(p)@, 2) ==> final(p)@ == after_wrapped_atom(old(p)@, 2) && final(p)@.pos
            == old(p)@.pos + 1,
    decreases old(p)@.remaining(), 4int,
{
    if !is_at_expression(p) {
        return ParsedSyntax::Absent;
    }
    let ghost entry = p@;
    let m = p.start();
    let ghost started = p@;
    let head = parse_unary_expression(p).unwrap();
    if !is_at_binary_operator(p) {
        m.abandon(p);
        return ParsedSyntax::Present(head);
    }
    while is_at_binary_operator(p)
        invariant
            entry == old(p)@,
            p@.state == entry.state,
            p@.follows(started),
            started.pos == entry.pos,
            started.tokens == entry.tokens,
            entry.pos < p@.pos,
        decreases p@.remaining(),
    {
        p.bump_any();
        parse_unary_expression(p).or_missing_with_error(p, expected_expression);
    }
    ParsedSyntax::Present(m.complete(p, SyntaxKind::JS_BINARY_EXPRESSION))
}

/// A binary expression, or a conditional expression with one as its test.
fn parse_conditional_expression(p: &mut Parser) -> (r: ParsedSyntax<CompletedMarker>)
    requires
        old(p)@.wf(),
    ensures
        final(p)@.answers(old(p)@, r),
        final(p)@.state == old(p)@.state,
        r is Present <==> spec_starts_expression(old(p)@.cur_kind()),
        r is Present ==> old(p)@.pos < final(p)@.pos,
        spec_is_atom(old(p)@, 3) ==> final(p)@ == after_wrapped_atom(old(p)@, 3) && final(p)@.pos
            == old(p)@.pos + 1,
    decreases old(p)@.remaining(), 5int,
{
    if !is_at_expression(p) {
        return ParsedSyntax::Absent;
    }
    let m = p.start();
    let test = parse_binary_expression(p).unwrap();
    if !p.at(SyntaxKind::QUESTION) {
        m.abandon(p);
        return ParsedSyntax::Present(test);
    }
    p.bump(SyntaxKind::QUESTION);
    parse_expr_or_assignment(p).or_missing_with_error(p, expected_expression);
    p.expect_required(SyntaxKind::COLON);
    parse_expr_or_assignment(p).or_missing_with_error(p, expected_expression);
    ParsedSyntax::Present(m.complete(p, SyntaxKind::JS_CONDITIONAL_EXPRESSION))
}

/// A conditional expression, or an assignment to one.
pub fn parse_expr_or_assignment(p: &mut Parser) -> (r: ParsedSyntax<CompletedMarker>)
    requires
        old(p)@.wf(),
    ensures
        final(p)@.answers(old(p)@, r),
        final(p)@.state == old(p)@.state,
        r is Present <==> spec_starts_expression(old(p)@.cur_kind()),
        r is Present ==> old(p)@.pos < final(p)@.pos,
        spec_is_atom(old(p)@, 4) ==> final(p)@ == after_wrapped_atom(old(p)@, 4) && final(p)@.pos
            == old(p)@.pos + 1,
    decreases old(p)@.remaining(), 6int,
{
    if !is_at_expression(p) {
        return ParsedSyntax::Absent;
    }
    let m = p.start();
    let target = parse_conditional_expression(p).unwrap();
    if !p.at(SyntaxKind::EQ) {
        m.abandon(p);
        return ParsedSyntax::Present(target);
    }
    p.bump(SyntaxKind::EQ);
    parse_expr_or_assignment(p).or_missing_with_error(p, expected_expression);
    ParsedSyntax::Present(m.complete(p, SyntaxKind::JS_ASSIGNMENT_EXPRESSION))
}

/// An expression, or several separated by commas.
pub fn parse_expression(p: &mut Parser) -> (r: ParsedSyntax<CompletedMarker>)
    requires
        old(p)@.wf(),
    ensures
        final(p)@.answers(old(p)@, r),
        final(p)@.state == old(p)@.state,
        r is Present <==> spec_starts_expression(old(p)@.cur_kind()),
        r is Present ==> old(p)@.pos < final(p)@.pos,
        spec_is_atom(old(p)@, 5) ==> final(p)@ == after_wrapped_atom(old(p)@, 5) && final(p)@.pos
            == old(p)@.pos + 1,
    decreases old(p)@.remaining(), 7int,
{
    if !is_at_expression(p) {
        return ParsedSyntax::Absent;
    }
    let ghost entry = p@;
    let m = p.start();
    let ghost started = p@;
    let first = parse_expr_or_assignment(p).unwrap();
    if !p.at(SyntaxKind::COMMA) {
        m.abandon(p);
        return ParsedSyntax::Present(first);
    }
    while p.at(SyntaxKind::COMMA)
        invariant
            entry == old(p)@,
            p@.state == entry.state,
            p@.follows(started),
            started.pos == entry.pos,
            started.tokens == entry.tokens,
            entry.pos < p@.pos,
        decreases p@.remaining(),
    {
        p.bump(SyntaxKind::COMMA);
        parse_expr_or_assignment(p).or_missing_with_error(p, expected_expression);
    }
    ParsedSyntax::Present(m.complete(p, SyntaxKind::JS_SEQUENCE_EXPRESSION))
}

/// An expression where one is required: where there is none, an error is reported
/// and a placeholder recorded.
pub fn expr(p: &mut Parser) -> (r: Option<CompletedMarker>)
    requires
        old(p)@.wf(),
    ensures
        final(p)@.answers_option(old(p)@, r),
        final(p)@.state == old(p)@.state,
        r is Some <==> spec_starts_expression(old(p)@.cur_kind()),
        r is Some ==> old(p)@.pos < final(p)@.pos,
        spec_is_atom(old(p)@, 5) ==> final(p)@ == after_wrapped_atom(old(p)@, 5) && final(p)@.pos
            == old(p)@.pos + 1,
{
    match parse_expression(p).or_missing_with_error(p, expected_expression) {
        CompletedNodeOrMissingMarker::NodeMarker(m) => Some(m),
        CompletedNodeOrMissingMarker::MissingMarker => None,
    }
}

/// An expression or an assignment where one is required: where there is none, an
/// error is reported and a placeholder recorded.
pub fn expr_or_assignment(p: &mut Parser) -> (r: Option<CompletedMarker>)
    requires
        old(p)@.wf(),
    ensures
        final(p)@.answers_option(old(p)@, r),
        final(p)@.state == old(p)@.state,
        r is Some <==> spec_starts_expression(old(p)@.cur_kind()),
        r is Some ==> old(p)@.pos < final(p)@.pos,
        spec_is_atom(old(p)@, 4) ==> final(p)@ == after_wrapped_atom(old(p)@, 4) && final(p)@.pos
            == old(p)@.pos + 1,
{
    match parse_expr_or_assignment(p).or_missing_with_error(p, expected_expression) {
        CompletedNodeOrMissingMarker::NodeMarker(m) => Some(m),
        CompletedNodeOrMissingMarker::MissingMarker => None,
    }
}

} // verus!
