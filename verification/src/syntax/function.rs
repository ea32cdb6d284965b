//! Function declarations.

use vstd::prelude::*;
use crate::parsed_syntax::{ConditionalSyntax, ParsedSyntax};
use crate::parser::{CompletedMarker, Parser, ParserProgress, ParserView};
use crate::recovery::ParseRecovery;
use crate::syntax::binding::{
    is_at_identifier_binding, parse_binding, parse_binding_pattern,
    parse_binding_pattern_with_optional_default,
};
use crate::syntax::js_parse_error::{
    expected_binding, expected_identifier, expected_node, spec_expected_any, spec_expected_node,
    ToDiagnostic,
};
use crate::syntax::stmt::{directives, parse_statements};
use crate::diagnostic::DiagnosticBuilder;
use crate::syntax_kind::SyntaxKind;
use crate::token::{str_eq, TextRange};

verus! {

/// Whether a line break between `async` and `function` matters.
#[derive(Clone, Copy, Debug, PartialEq, Eq, Structural)]
pub enum LineBreak {
    DoCheck,
    DoNotCheck,
}

/// Whether `async function` stands at the cursor. With `DoCheck`, the two words
/// must stand on one line.
pub open spec fn spec_is_at_async_function(p: ParserView, line_break: LineBreak) -> bool {
    &&& p.cur_kind() == SyntaxKind::IDENT
    &&& p.cur_text() == "async"@
    &&& p.nth_kind(1) == SyntaxKind::FUNCTION_KW
    &&& line_break == LineBreak::DoNotCheck || !p.nth_after_newline(1)
}

/// Whether `async function` stands at the cursor.
pub fn is_at_async_function(p: &Parser, should_check_line_break: LineBreak) -> (b: bool)
    ensures
        b == spec_is_at_async_function(p@, should_check_line_break),
{
    p.at(SyntaxKind::IDENT) && str_eq(p.cur_src(), "async") && p.nth_at(1, SyntaxKind::FUNCTION_KW)
        && (matches!(should_check_line_break, LineBreak::DoNotCheck) || !p.has_linebreak_before_n(
        1,
    ))
}

/// A function body was expected at `range`.
pub fn expected_function_body(p: &Parser, range: TextRange) -> (b: DiagnosticBuilder)
    ensures
        b@ == spec_expected_node(p@, "function body"@, range),
{
    proof {
        reveal(spec_expected_any);
        reveal(spec_expected_node);
    }
    expected_node("function body", range).to_diagnostic(p)
}

/// Parses the parameters of a function: `(`, binding patterns with their defaults
/// separated by commas, a rest parameter, `)`.
pub fn parse_parameter_list(p: &mut Parser) -> (m: CompletedMarker)
    requires
        old(p)@.wf(),
    ensures
        final(p)@.follows(old(p)@),
        final(p)@.state.same_context(old(p)@.state),
        final(p)@.built(old(p)@, m),
        m.kind == SyntaxKind::JS_PARAMETERS,
{
    let ghost entry = p@;
    let m = p.start();
    let opened = p.expect_required(SyntaxKind::L_PAREN);
    let list = p.start();
    let ghost inside = p@;
    let mut progress = ParserProgress::default();
    while opened && !p.at(SyntaxKind::EOF) && !p.at(SyntaxKind::R_PAREN)
        invariant_except_break
            progress.last matches Some(before) ==> before < p@.pos,
        invariant
            p@.follows(inside),
            p@.state.same_context(entry.state),
        decreases p@.remaining(),
    {
        progress.assert_progressing(p);
        let ghost round = p@;
        let parameter = if p.at(SyntaxKind::DOT3) {
            let rest = p.start();
            p.bump(SyntaxKind::DOT3);
            parse_binding_pattern(p).or_missing_with_error(p, expected_binding);
            ParsedSyntax::Present(rest.complete(p, SyntaxKind::JS_REST_PARAMETER))
        } else {
            parse_binding_pattern_with_optional_default(p)
        };
        let recovery = ParseRecovery::new(
            SyntaxKind::JS_UNKNOWN_BINDING,
            vec![
                SyntaxKind::EOF,
                SyntaxKind::COMMA,
                SyntaxKind::R_PAREN,
                SyntaxKind::L_CURLY,
                SyntaxKind::SEMICOLON,
            ],
        ).enable_recovery_on_line_break();
        if parameter.or_recover(p, &recovery, expected_binding).is_err() {
            let nothing: ParsedSyntax<CompletedMarker> = ParsedSyntax::Absent;
            nothing.or_missing_with_error(p, expected_binding);
            break ;
        }
        if !p.at(SyntaxKind::R_PAREN) && !p.at(SyntaxKind::EOF) {
            p.expect_required(SyntaxKind::COMMA);
        }
        assert(round.pos < p@.pos);
    }
    list.complete(p, SyntaxKind::JS_PARAMETER_LIST);
    p.expect_required(SyntaxKind::R_PAREN);
    m.complete(p, SyntaxKind::JS_PARAMETERS)
}

/// Parses the body of a function: `{`, the directives, the statements, `}`. Inside,
/// the state says that a function is being parsed, and of which kind; after the
/// body the state is what it was before.
pub fn parse_function_body(p: &mut Parser, is_async: bool, is_generator: bool) -> (r:
    ParsedSyntax<CompletedMarker>)
    requires
        old(p)@.wf(),
    ensures
        final(p)@.answers(old(p)@, r),
        final(p)@.state == old(p)@.state,
        r is Present <==> old(p)@.cur_kind() == SyntaxKind::L_CURLY,
        r is Present ==> old(p)@.pos < final(p)@.pos,
        r matches ParsedSyntax::Present(m) ==> m.kind == SyntaxKind::JS_FUNCTION_BODY,
    decreases old(p)@.remaining(), 24int,
{
    if !p.at(SyntaxKind::L_CURLY) {
        return ParsedSyntax::Absent;
    }
    let m = p.start();
    p.bump(SyntaxKind::L_CURLY);
    let saved = p.state().clone();
    let mut inner = p.state().clone();
    inner.in_function = true;
    inner.in_async = is_async;
    inner.in_generator = is_generator;
    inner.duplicate_binding_parent = None;
    p.set_state(inner);
    directives(p);
    parse_statements(p, true);
    p.set_state(saved);
    p.expect_required(SyntaxKind::R_CURLY);
    ParsedSyntax::Present(m.complete(p, SyntaxKind::JS_FUNCTION_BODY))
}

/// Where a function declaration starts: at `function` and at `async function`.
pub open spec fn spec_starts_function_declaration(p: ParserView) -> bool {
    p.cur_kind() == SyntaxKind::FUNCTION_KW || spec_is_at_async_function(p, LineBreak::DoCheck)
}

/// Parses a function declaration. The node is invalid if the function has no name
/// where it needs one, or has a body inside an ambient context, where only the
/// signature is allowed; either is reported, and the declaration is in the tree with
/// everything it has.
#[verifier::rlimit(30)]
pub fn parse_function_declaration(p: &mut Parser) -> (r: ParsedSyntax<ConditionalSyntax>)
    requires
        old(p)@.wf(),
    ensures
        final(p)@.answers_conditional(old(p)@, r),
        final(p)@.state == old(p)@.state,
        r is Present <==> spec_starts_function_declaration(old(p)@),
        r is Present ==> old(p)@.pos < final(p)@.pos,
        r matches ParsedSyntax::Present(c) ==> c.marker().kind
            == SyntaxKind::JS_FUNCTION_DECLARATION && final(p)@.closed_last(c.marker()),
    decreases old(p)@.remaining(), 26int,
{
    if !p.at(SyntaxKind::FUNCTION_KW) && !is_at_async_function(p, LineBreak::DoCheck) {
        return ParsedSyntax::Absent;
    }
    let saved = p.state().clone();
    let ambient = p.state().in_ambient();
    let in_default = p.state().in_default;
    let m = p.start();
    let is_async = if p.at(SyntaxKind::FUNCTION_KW) {
        false
    } else {
        p.bump_remap(SyntaxKind::ASYNC_KW);
        true
    };
    p.bump(SyntaxKind::FUNCTION_KW);
    let is_generator = p.eat(SyntaxKind::STAR);
    let mut valid = true;

    let mut header = p.state().clone();
    header.duplicate_binding_parent = None;
    p.set_state(header);
    if is_at_identifier_binding(p) {
        parse_binding(p);
    } else if in_default {
        p.missing();
    } else {
        let nothing: ParsedSyntax<CompletedMarker> = ParsedSyntax::Absent;
        nothing.or_missing_with_error(p, expected_identifier);
        valid = false;
    }
    parse_parameter_list(p);
    p.set_state(saved);

    let body = parse_function_body(p, is_async, is_generator);
    if ambient {
        match body {
            ParsedSyntax::Present(body) => {
                let err = p.err_builder(
                    "An implementation cannot be declared in ambient contexts",
                ).primary(body.range(p), "only the signature is allowed here");
                p.error(err);
                valid = false;
            },
            ParsedSyntax::Absent => {
                p.missing();
                p.eat(SyntaxKind::SEMICOLON);
            },
        }
    } else {
        body.or_missing_with_error(p, expected_function_body);
    }
    let completed = m.complete(p, SyntaxKind::JS_FUNCTION_DECLARATION);
    if valid {
        ParsedSyntax::Present(ConditionalSyntax::Valid(completed))
    } else {
        ParsedSyntax::Present(ConditionalSyntax::Invalid(completed))
    }
}

} // verus!
