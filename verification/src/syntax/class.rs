//! Initializer clauses and class declarations.

use vstd::prelude::*;
use crate::diagnostic::DiagnosticBuilder;
use crate::parsed_syntax::{ConditionalSyntax, ParsedSyntax};
use crate::event::Event;
use crate::parser::{CompletedMarker, Parser, ParserProgress, ParserView};
use crate::syntax::binding::{is_at_identifier_binding, parse_binding};
use crate::syntax::expr::{after_wrapped_atom, parse_expr_or_assignment, spec_is_atom};
use crate::syntax::function::{expected_function_body, parse_function_body, parse_parameter_list};
use crate::syntax::js_parse_error::{
    expected_expression, expected_expression_assignment, expected_identifier, expected_node,
    spec_expected_any, spec_expected_node, ToDiagnostic,
};
use crate::syntax::object::{is_at_object_member_name, parse_object_member_name};
use crate::syntax::stmt::semi;
use crate::syntax_kind::SyntaxKind;
use crate::token::TextRange;

verus! {

/// This parser after an initializer whose value is an expression of one token: a
/// node with the `=` and the value.
pub open spec fn after_atom_initializer(p: ParserView) -> ParserView {
    after_wrapped_atom(p.with_event(Event::StartNode).bumped(SyntaxKind::EQ), 4).with_event(
        Event::FinishNode { kind: SyntaxKind::JS_INITIALIZER_CLAUSE },
    )
}

/// Whether an initializer stands at the cursor whose value is an expression of one
/// token.
pub open spec fn spec_is_atom_initializer(p: ParserView) -> bool {
    p.cur_kind() == SyntaxKind::EQ && spec_is_atom(p.skipped(1), 4)
}

/// An initializer: `=` and the expression that gives the value.
pub fn parse_initializer_clause(p: &mut Parser) -> (r: ParsedSyntax<CompletedMarker>)
    requires
        old(p)@.wf(),
    ensures
        final(p)@.answers(old(p)@, r),
        final(p)@.state == old(p)@.state,
        r is Present <==> old(p)@.cur_kind() == SyntaxKind::EQ,
        r is Present ==> old(p)@.pos < final(p)@.pos,
        r matches ParsedSyntax::Present(m) ==> m.kind == SyntaxKind::JS_INITIALIZER_CLAUSE
            && final(p)@.one_node(old(p)@, m) && m.finish + 1 == final(p)@.events.len()
            && m.token_end == final(p)@.pos,
        spec_is_atom_initializer(old(p)@) ==> final(p)@ == after_atom_initializer(old(p)@),
{
    if p.at(SyntaxKind::EQ) {
        let m = p.start();
        p.bump(SyntaxKind::EQ);
        proof {
            assert(p@.cur_kind() == old(p)@.skipped(1).cur_kind());
            assert(p@.nth_kind(1) == old(p)@.skipped(1).nth_kind(1));
        }
        parse_expr_or_assignment(p).or_missing_with_error(p, expected_expression_assignment);
        ParsedSyntax::Present(m.complete(p, SyntaxKind::JS_INITIALIZER_CLAUSE))
    } else {
        ParsedSyntax::Absent
    }
}

/// A class member was expected at `range`.
pub fn expected_class_member(p: &Parser, range: TextRange) -> (b: DiagnosticBuilder)
    ensures
        b@ == spec_expected_node(p@, "class member"@, range),
{
    proof {
        reveal(spec_expected_any);
        reveal(spec_expected_node);
    }
    expected_node("class member", range).to_diagnostic(p)
}

/// Parses one member of a class: an empty member `;`, a method, or a property. A
/// token that starts no member is reported and wrapped in an unknown member.
fn parse_class_member(p: &mut Parser)
    requires
        old(p)@.wf(),
        !old(p)@.at_end(),
    ensures
        final(p)@.follows(old(p)@),
        final(p)@.state == old(p)@.state,
        old(p)@.pos < final(p)@.pos,
    decreases old(p)@.remaining(), 28int,
{
    let start = p.cur_tok().range.start;
    let m = p.start();
    if p.at(SyntaxKind::SEMICOLON) {
        p.bump(SyntaxKind::SEMICOLON);
        m.complete(p, SyntaxKind::JS_EMPTY_CLASS_MEMBER);
    } else if is_at_object_member_name(p) {
        parse_object_member_name(p);
        if p.at(SyntaxKind::L_PAREN) {
            let saved = p.state().clone();
            let mut header = p.state().clone();
            header.duplicate_binding_parent = None;
            p.set_state(header);
            parse_parameter_list(p);
            p.set_state(saved);
            parse_function_body(p, false, false).or_missing_with_error(p, expected_function_body);
            m.complete(p, SyntaxKind::JS_METHOD_CLASS_MEMBER);
        } else {
            parse_initializer_clause(p).or_missing(p);
            semi(p, TextRange::new(start, p.cur_tok().range.start));
            m.complete(p, SyntaxKind::JS_PROPERTY_CLASS_MEMBER);
        }
    } else {
        let err = expected_class_member(p, p.cur_tok().range);
        p.error(err);
        p.bump_any();
        m.complete(p, SyntaxKind::JS_UNKNOWN_MEMBER);
    }
}

/// Parses a class declaration: `class`, the name, an `extends` clause, and the
/// members in braces. The body of a class is strict. The node is invalid if the
/// class has no name where it needs one; that is reported.
#[verifier::rlimit(30)]
pub fn parse_class_declaration(p: &mut Parser) -> (r: ParsedSyntax<ConditionalSyntax>)
    requires
        old(p)@.wf(),
    ensures
        final(p)@.answers_conditional(old(p)@, r),
        final(p)@.state == old(p)@.state,
        r is Present <==> old(p)@.cur_kind() == SyntaxKind::CLASS_KW,
        r is Present ==> old(p)@.pos < final(p)@.pos,
        r matches ParsedSyntax::Present(c) ==> c.marker().kind == SyntaxKind::JS_CLASS_DECLARATION
            && final(p)@.closed_last(c.marker()),
    decreases old(p)@.remaining(), 30int,
{
    if !p.at(SyntaxKind::CLASS_KW) {
        return ParsedSyntax::Absent;
    }
    let ghost entry = p@;
    let saved = p.state().clone();
    let in_default = p.state().in_default;
    let m = p.start();
    p.bump(SyntaxKind::CLASS_KW);
    let mut valid = true;

    let mut inner = p.state().clone();
    inner.strict = true;
    inner.duplicate_binding_parent = None;
    inner.in_default = false;
    p.set_state(inner);

    if is_at_identifier_binding(p) {
        parse_binding(p);
    } else if in_default {
        p.missing();
    } else {
        let nothing: ParsedSyntax<CompletedMarker> = ParsedSyntax::Absent;
        nothing.or_missing_with_error(p, expected_identifier);
        valid = false;
    }

    if p.at(SyntaxKind::EXTENDS_KW) {
        let clause = p.start();
        p.bump(SyntaxKind::EXTENDS_KW);
        parse_expr_or_assignment(p).or_missing_with_error(p, expected_expression);
        clause.complete(p, SyntaxKind::JS_EXTENDS_CLAUSE);
    } else {
        p.missing();
    }

    let opened = p.expect_required(SyntaxKind::L_CURLY);
    let members = p.start();
    let ghost inside = p@;
    let ghost body_state = p@.state;
    let mut progress = ParserProgress::default();
    while opened && !p.at(SyntaxKind::EOF) && !p.at(SyntaxKind::R_CURLY)
        invariant
            entry == old(p)@,
            p@.follows(inside),
            p@.state == body_state,
            entry.pos < inside.pos,
            inside.tokens == entry.tokens,
            progress.last matches Some(before) ==> before < p@.pos,
        decreases p@.remaining(),
    {
        progress.assert_progressing(p);
        parse_class_member(p);
    }
    members.complete(p, SyntaxKind::JS_CLASS_MEMBER_LIST);
    p.expect_required(SyntaxKind::R_CURLY);
    p.set_state(saved);
    let completed = m.complete(p, SyntaxKind::JS_CLASS_DECLARATION);
    if valid {
        ParsedSyntax::Present(ConditionalSyntax::Valid(completed))
    } else {
        ParsedSyntax::Present(ConditionalSyntax::Invalid(completed))
    }
}

} // verus!
