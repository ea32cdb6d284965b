//! The names of object members.

use vstd::prelude::*;
use crate::parsed_syntax::ParsedSyntax;
use crate::event::Event;
use crate::parser::{CompletedMarker, Parser, ParserView};
use crate::syntax::expr::{parse_expr_or_assignment, spec_is_identifier_name_kind};
use crate::syntax::js_parse_error::expected_expression;
use crate::syntax_kind::SyntaxKind;

verus! {

/// The kinds of token that can start the name of an object member: an identifier or
/// a keyword, a string, a number, or the `[` of a computed name.
pub open spec fn spec_starts_object_member_name(kind: SyntaxKind) -> bool {
    ||| spec_is_identifier_name_kind(kind)
    ||| kind == SyntaxKind::JS_STRING_LITERAL
    ||| kind == SyntaxKind::JS_NUMBER_LITERAL
    ||| kind == SyntaxKind::L_BRACK
}

/// Whether the current token can start the name of an object member.
pub fn is_at_object_member_name(p: &Parser) -> (b: bool)
    ensures
        b == spec_starts_object_member_name(p@.cur_kind()),
{
    let kind = p.cur();
    kind == SyntaxKind::IDENT || kind.is_keyword() || kind == SyntaxKind::JS_STRING_LITERAL || kind
        == SyntaxKind::JS_NUMBER_LITERAL || kind == SyntaxKind::L_BRACK
}

/// This parser after a literal member name, which is one token: a string or a
/// number as it is, an identifier or a keyword as an identifier.
#[verifier::opaque]
pub open spec fn after_literal_member_name(p: ParserView) -> ParserView {
    let kind = if p.cur_kind() == SyntaxKind::JS_STRING_LITERAL || p.cur_kind()
        == SyntaxKind::JS_NUMBER_LITERAL {
        p.cur_kind()
    } else {
        SyntaxKind::IDENT
    };
    p.with_event(Event::StartNode).bumped(kind).with_event(
        Event::FinishNode { kind: SyntaxKind::JS_LITERAL_MEMBER_NAME },
    )
}

/// The name of an object member: a literal name, or an expression in brackets.
pub fn parse_object_member_name(p: &mut Parser) -> (r: ParsedSyntax<CompletedMarker>)
    requires
        old(p)@.wf(),
    ensures
        final(p)@.answers(old(p)@, r),
        final(p)@.state == old(p)@.state,
        r is Present <==> spec_starts_object_member_name(old(p)@.cur_kind()),
        r is Present ==> old(p)@.pos < final(p)@.pos,
        r matches ParsedSyntax::Present(m) ==> m.kind == if old(p)@.cur_kind()
            == SyntaxKind::L_BRACK {
            SyntaxKind::JS_COMPUTED_MEMBER_NAME
        } else {
            SyntaxKind::JS_LITERAL_MEMBER_NAME
        },
        r matches ParsedSyntax::Present(m) ==> final(p)@.one_node(old(p)@, m) && m.finish + 1
            == final(p)@.events.len(),
        r is Present && old(p)@.cur_kind() != SyntaxKind::L_BRACK ==> {
            &&& final(p)@ == after_literal_member_name(old(p)@)
            &&& final(p)@.pos == old(p)@.pos + 1
            &&& final(p)@.diagnostics == old(p)@.diagnostics
        },
    decreases old(p)@.remaining(), 0int,
{
    proof {
        reveal(after_literal_member_name);
        reveal(ParserView::after_bump_remap);
    }
    if p.at(SyntaxKind::L_BRACK) {
        let m = p.start();
        p.bump(SyntaxKind::L_BRACK);
        parse_expr_or_assignment(p).or_missing_with_error(p, expected_expression);
        p.expect_required(SyntaxKind::R_BRACK);
        ParsedSyntax::Present(m.complete(p, SyntaxKind::JS_COMPUTED_MEMBER_NAME))
    } else if is_at_object_member_name(p) {
        let m = p.start();
        if p.at(SyntaxKind::JS_STRING_LITERAL) || p.at(SyntaxKind::JS_NUMBER_LITERAL) {
            p.bump_any();
        } else {
            p.bump_remap(SyntaxKind::IDENT);
        }
        ParsedSyntax::Present(m.complete(p, SyntaxKind::JS_LITERAL_MEMBER_NAME))
    } else {
        ParsedSyntax::Absent
    }
}

} // verus!
