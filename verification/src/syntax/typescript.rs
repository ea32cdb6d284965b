//! The TypeScript declarations that can follow `export`, and the attempt that tries
//! them.

use vstd::prelude::*;
use crate::diagnostic::DiagnosticView;
use crate::event::Event;
use crate::parsed_syntax::ParsedSyntax;
use crate::parser::{CompletedMarker, Parser, ParserProgress, ParserView};
use crate::speculative::try_parse;
use crate::syntax::class::parse_initializer_clause;
use crate::syntax::expr::{at_identifier_name, identifier_name, spec_is_identifier_name_kind};
use crate::syntax::function::parse_parameter_list;
use crate::syntax::stmt::{
    is_at_variable_declaration, semi, spec_starts_variable_declaration,
    variable_declaration_statement,
};
use crate::syntax_kind::SyntaxKind;
use crate::token::{str_eq, TextRange, Token};

verus! {

/// Tries a rule for a TypeScript construct. If the rule answers `None`, nothing of
/// what it did is left.
pub fn try_parse_ts<F>(p: &mut Parser, func: F) -> (r: Option<CompletedMarker>) where
    F: FnOnce(&mut Parser) -> Option<CompletedMarker>,

    requires
        old(p)@.wf(),
        forall|q: &mut Parser| q@ == old(p)@ ==> call_requires(func, (q,)),
        forall|q: &mut Parser, r: Option<CompletedMarker>|
            q@ == old(p)@ && #[trigger] call_ensures(func, (q,), r) ==> final(q)@.answers_option(
                q@,
                r,
            ),
    ensures
        r is None ==> final(p)@ == old(p)@,
        exists|q: &mut Parser|
            {
                &&& q@ == old(p)@
                &&& #[trigger] call_ensures(func, (q,), r)
                &&& r is Some ==> final(q)@ == final(p)@
            },
        final(p)@.answers_option(old(p)@, r),
{
    try_parse(p, func)
}

/// Whether a type name can start at the current token: at an identifier, and at a
/// keyword where reserved words are allowed.
pub open spec fn spec_at_type_name(p: ParserView, allow_reserved: bool) -> bool {
    p.cur_kind() == SyntaxKind::IDENT || (allow_reserved && p.cur_kind().spec_is_keyword())
}

fn is_at_type_name(p: &Parser, allow_reserved: bool) -> (b: bool)
    ensures
        b == spec_at_type_name(p@, allow_reserved),
{
    p.at(SyntaxKind::IDENT) || (allow_reserved && p.cur().is_keyword())
}

/// The error for a type name that is not there.
pub open spec fn expected_type_name_error(p: ParserView) -> DiagnosticView {
    DiagnosticView::error("expected a type name"@).primary(
        p.cur_range(),
        "expected a name here"@,
    )
}

/// This parser after one name of a type: a node around the name, or, where there is
/// none, an error and a placeholder.
pub open spec fn after_type_name(p: ParserView, allow_reserved: bool) -> ParserView {
    if spec_at_type_name(p, allow_reserved) {
        p.with_event(Event::StartNode).bumped(SyntaxKind::IDENT).with_event(
            Event::FinishNode { kind: SyntaxKind::TS_TYPE_NAME },
        )
    } else {
        p.reported(expected_type_name_error(p)).with_event(Event::Placeholder)
    }
}

/// Parses one name of a type. Where there is none, reports an error and records a
/// placeholder.
pub fn ts_type_name(p: &mut Parser, allow_reserved: bool) -> (r: Option<CompletedMarker>)
    requires
        old(p)@.wf(),
    ensures
        final(p)@.answers_option(old(p)@, r),
        final(p)@.state == old(p)@.state,
        r is Some <==> spec_at_type_name(old(p)@, allow_reserved),
        r is Some ==> final(p)@.pos == old(p)@.pos + 1,
        r is None ==> final(p)@.pos == old(p)@.pos,
        r matches Some(m) ==> m.kind == SyntaxKind::TS_TYPE_NAME,
        final(p)@ == after_type_name(old(p)@, allow_reserved),
{
    proof {
        reveal(ParserView::after_bump_remap);
    }
    if is_at_type_name(p, allow_reserved) {
        let m = p.start();
        p.bump_remap(SyntaxKind::IDENT);
        Some(m.complete(p, SyntaxKind::TS_TYPE_NAME))
    } else {
        let err = p.err_builder("expected a type name").primary(
            p.cur_tok().range,
            "expected a name here",
        );
        p.error(err);
        p.missing();
        None
    }
}

/// The kind of the node that an entity name becomes: a path where a dot joins a
/// second name to the first, a type name where the first name stands alone.
pub open spec fn spec_entity_name_kind(p: ParserView, last_tok: Option<SyntaxKind>) -> SyntaxKind {
    if spec_at_path_dot(p.skipped(1), last_tok) {
        SyntaxKind::TS_QUALIFIED_PATH
    } else {
        SyntaxKind::TS_TYPE_NAME
    }
}

/// This parser after the names of a path that follow the first, at most `fuel` of
/// them: each a dot and a name.
pub open spec fn after_path_names(
    p: ParserView,
    last_tok: Option<SyntaxKind>,
    allow_reserved: bool,
    fuel: nat,
) -> ParserView
    decreases fuel,
{
    if fuel == 0 || !spec_at_path_dot(p, last_tok) {
        p
    } else {
        after_path_names(
            after_type_name(p.bumped(SyntaxKind::DOT), allow_reserved),
            last_tok,
            allow_reserved,
            (fuel - 1) as nat,
        )
    }
}

/// This parser after an entity name: where no name stands, an error and a
/// placeholder; a name alone, as its node, after the withdrawn start of a path; a
/// path, as one node that holds its names and dots.
pub open spec fn after_entity_name(
    p: ParserView,
    last_tok: Option<SyntaxKind>,
    allow_reserved: bool,
) -> ParserView {
    if !spec_at_type_name(p, allow_reserved) {
        after_type_name(p, allow_reserved)
    } else {
        let first = after_type_name(p.with_event(Event::StartNode), allow_reserved);
        if !spec_at_path_dot(first, last_tok) {
            first.with_event_at(p.events.len() as int, Event::Tombstone)
        } else {
            after_path_names(first, last_tok, allow_reserved, p.remaining() as nat).with_event(
                Event::FinishNode { kind: SyntaxKind::TS_QUALIFIED_PATH },
            )
        }
    }
}

/// Parses a name or a path of names joined by dots. With `last_tok`, the path ends
/// before a dot that a token of that kind follows.
pub fn ts_entity_name(p: &mut Parser, last_tok: Option<SyntaxKind>, allow_reserved: bool) -> (r:
    Option<CompletedMarker>)
    requires
        old(p)@.wf(),
    ensures
        final(p)@.answers_option(old(p)@, r),
        final(p)@.state == old(p)@.state,
        r is Some <==> spec_at_type_name(old(p)@, allow_reserved),
        r is Some ==> old(p)@.pos < final(p)@.pos,
        r matches Some(m) ==> m.kind == spec_entity_name_kind(old(p)@, last_tok),
        final(p)@ == after_entity_name(old(p)@, last_tok, allow_reserved),
{
    if !is_at_type_name(p, allow_reserved) {
        return ts_type_name(p, allow_reserved);
    }
    let ghost entry = p@;
    let m = p.start();
    let ghost started = p@;
    proof {
        reveal(ParserView::with_event);
        assert(spec_at_type_name(started, allow_reserved));
    }
    let first = ts_type_name(p, allow_reserved);
    if !at_path_dot(p, last_tok) {
        m.abandon(p);
        return first;
    }
    let ghost fuel = entry.remaining() as nat;
    let ghost target = after_path_names(p@, last_tok, allow_reserved, fuel);
    while at_path_dot(p, last_tok)
        invariant
            p@.follows(started),
            p@.state == entry.state,
            started.pos == entry.pos,
            entry.pos < p@.pos,
            fuel >= p@.remaining(),
            after_path_names(p@, last_tok, allow_reserved, fuel) == target,
        decreases p@.remaining(),
    {
        p.bump(SyntaxKind::DOT);
        ts_type_name(p, allow_reserved);
        proof {
            fuel = (fuel - 1) as nat;
        }
    }
    Some(m.complete(p, SyntaxKind::TS_QUALIFIED_PATH))
}

/// Whether a path goes on where `p` stands: a dot stands there, and a token of the
/// kind `last_tok`, if one is given, does not follow it.
pub open spec fn spec_at_path_dot(p: ParserView, last_tok: Option<SyntaxKind>) -> bool {
    &&& p.at(SyntaxKind::DOT)
    &&& match last_tok {
        Some(kind) => p.nth_kind(1) != kind,
        None => true,
    }
}

fn at_path_dot(p: &Parser, last_tok: Option<SyntaxKind>) -> (b: bool)
    ensures
        b == spec_at_path_dot(p@, last_tok),
{
    p.at(SyntaxKind::DOT) && !p.at_end() && match last_tok {
        Some(kind) => !p.nth_at(1, kind),
        None => true,
    }
}

/// Parses a type annotation, `:` and a type, where one stands.
fn ts_type_annotation(p: &mut Parser) -> (r: ParsedSyntax<CompletedMarker>)
    requires
        old(p)@.wf(),
    ensures
        final(p)@.answers(old(p)@, r),
        final(p)@.state == old(p)@.state,
        r is Present <==> old(p)@.cur_kind() == SyntaxKind::COLON,
        r is Present ==> old(p)@.pos < final(p)@.pos,
{
    if !p.at(SyntaxKind::COLON) {
        return ParsedSyntax::Absent;
    }
    let m = p.start();
    p.bump(SyntaxKind::COLON);
    ts_entity_name(p, None, true);
    ParsedSyntax::Present(m.complete(p, SyntaxKind::TS_TYPE_ANNOTATION))
}

/// Parses an enum: `enum`, with `const` before it or not, the name, and the members
/// in braces, each with an initializer or not.
pub fn ts_enum(p: &mut Parser) -> (m: CompletedMarker)
    requires
        old(p)@.wf(),
    ensures
        final(p)@.follows(old(p)@),
        final(p)@.state == old(p)@.state,
        final(p)@.built(old(p)@, m),
        final(p)@.closed_last(m),
        m.kind == SyntaxKind::TS_ENUM,
        old(p)@.at(SyntaxKind::CONST_KW) || old(p)@.at(SyntaxKind::ENUM_KW) ==> old(p)@.pos
            < final(p)@.pos,
{
    let ghost entry = p@;
    let m = p.start();
    p.eat_optional(SyntaxKind::CONST_KW);
    p.expect_required(SyntaxKind::ENUM_KW);
    identifier_name(p);
    let opened = p.expect_required(SyntaxKind::L_CURLY);
    let members = p.start();
    let ghost inside = p@;
    let mut progress = ParserProgress::default();
    while opened && !p.at(SyntaxKind::EOF) && !p.at(SyntaxKind::R_CURLY)
        invariant
            p@.follows(inside),
            p@.state == entry.state,
            progress.last matches Some(before) ==> before < p@.pos,
        decreases p@.remaining(),
    {
        progress.assert_progressing(p);
        let ghost round = p@;
        let member = p.start();
        if at_identifier_name(p) || p.at(SyntaxKind::JS_STRING_LITERAL) || p.at(SyntaxKind::EQ) {
            if p.at(SyntaxKind::JS_STRING_LITERAL) {
                p.bump_any();
            } else {
                identifier_name(p);
            }
            parse_initializer_clause(p).or_missing(p);
            member.complete(p, SyntaxKind::TS_ENUM_MEMBER);
            if !p.at(SyntaxKind::R_CURLY) {
                p.expect_required(SyntaxKind::COMMA);
            }
        } else {
            let err = p.err_builder("expected an enum member").primary(
                p.cur_tok().range,
                "this is no member name",
            );
            p.error(err);
            p.bump_any();
            member.complete(p, SyntaxKind::ERROR);
        }
        assert(round.pos < p@.pos);
    }
    members.complete(p, SyntaxKind::TS_ENUM_MEMBER_LIST);
    p.expect_required(SyntaxKind::R_CURLY);
    m.complete(p, SyntaxKind::TS_ENUM)
}

/// Whether the word `interface` stands at the cursor.
pub open spec fn spec_at_interface(p: ParserView) -> bool {
    p.cur_kind() == SyntaxKind::IDENT && p.cur_text() == "interface"@
}

/// Parses an interface: `interface`, the name, and the property signatures in
/// braces. The answer is `None`, and nothing happens, where the word `interface`
/// does not stand.
pub fn ts_interface(p: &mut Parser) -> (r: Option<CompletedMarker>)
    requires
        old(p)@.wf(),
    ensures
        final(p)@.answers_option(old(p)@, r),
        final(p)@.state == old(p)@.state,
        r is Some <==> spec_at_interface(old(p)@),
        r is None ==> final(p)@ == old(p)@,
        r matches Some(m) ==> m.kind == SyntaxKind::TS_INTERFACE_DECL && old(p)@.pos
            < final(p)@.pos && final(p)@.closed_last(m),
{
    if !(p.at(SyntaxKind::IDENT) && str_eq(p.cur_src(), "interface")) {
        return None;
    }
    let ghost entry = p@;
    let m = p.start();
    p.bump_remap(SyntaxKind::INTERFACE_KW);
    identifier_name(p);
    let opened = p.expect_required(SyntaxKind::L_CURLY);
    let members = p.start();
    let ghost inside = p@;
    let mut progress = ParserProgress::default();
    while opened && !p.at(SyntaxKind::EOF) && !p.at(SyntaxKind::R_CURLY)
        invariant
            p@.follows(inside),
            p@.state == entry.state,
            entry.pos < inside.pos,
            progress.last matches Some(before) ==> before < p@.pos,
        decreases p@.remaining(),
    {
        progress.assert_progressing(p);
        let ghost round = p@;
        let member = p.start();
        if at_identifier_name(p) {
            identifier_name(p);
            p.eat_optional(SyntaxKind::QUESTION);
            ts_type_annotation(p).or_missing(p);
            if !p.eat(SyntaxKind::SEMICOLON) {
                p.eat(SyntaxKind::COMMA);
            }
            member.complete(p, SyntaxKind::TS_PROPERTY_SIGNATURE);
        } else {
            let err = p.err_builder("expected a property signature").primary(
                p.cur_tok().range,
                "this is no property name",
            );
            p.error(err);
            p.bump_any();
            member.complete(p, SyntaxKind::ERROR);
        }
        assert(round.pos < p@.pos);
    }
    members.complete(p, SyntaxKind::TS_INTERFACE_MEMBER_LIST);
    p.expect_required(SyntaxKind::R_CURLY);
    Some(m.complete(p, SyntaxKind::TS_INTERFACE_DECL))
}

/// Whether a type alias starts at the cursor: the word `type` and an identifier.
pub open spec fn spec_at_type_alias(p: ParserView) -> bool {
    &&& p.cur_kind() == SyntaxKind::IDENT
    &&& p.cur_text() == "type"@
    &&& p.nth_kind(1) == SyntaxKind::IDENT
}

/// Parses a type alias: `type`, the name, `=`, the type, and the end of the
/// statement.
pub fn ts_type_alias(p: &mut Parser) -> (r: Option<CompletedMarker>)
    requires
        old(p)@.wf(),
    ensures
        final(p)@.answers_option(old(p)@, r),
        final(p)@.state == old(p)@.state,
        r is Some <==> spec_at_type_alias(old(p)@),
        r is None ==> final(p)@ == old(p)@,
        r matches Some(m) ==> m.kind == SyntaxKind::TS_TYPE_ALIAS_DECL && old(p)@.pos
            < final(p)@.pos && final(p)@.closed_last(m),
{
    if !(p.at(SyntaxKind::IDENT) && str_eq(p.cur_src(), "type") && p.nth_at(
        1,
        SyntaxKind::IDENT,
    )) {
        return None;
    }
    let start = p.cur_tok().range.start;
    let m = p.start();
    p.bump_remap(SyntaxKind::TYPE_KW);
    identifier_name(p);
    p.expect_required(SyntaxKind::EQ);
    ts_entity_name(p, None, true);
    semi(p, TextRange::new(start, p.cur_tok().range.start));
    Some(m.complete(p, SyntaxKind::TS_TYPE_ALIAS_DECL))
}

/// Where a TypeScript declaration starts: at `enum` or `const enum`, at
/// `interface`, and at a type alias.
pub open spec fn spec_at_ts_decl(p: ParserView) -> bool {
    ||| p.cur_kind() == SyntaxKind::ENUM_KW
    ||| p.cur_kind() == SyntaxKind::CONST_KW && p.nth_kind(1) == SyntaxKind::ENUM_KW
    ||| spec_at_interface(p)
    ||| spec_at_type_alias(p)
}

/// Parses a TypeScript declaration: an enum, an interface or a type alias. The
/// answer is `None`, and nothing happens, where none of them starts.
pub fn ts_decl(p: &mut Parser) -> (r: Option<CompletedMarker>)
    requires
        old(p)@.wf(),
    ensures
        final(p)@.answers_option(old(p)@, r),
        final(p)@.state == old(p)@.state,
        r is Some <==> spec_at_ts_decl(old(p)@),
        r is None ==> final(p)@ == old(p)@,
        r matches Some(m) ==> old(p)@.pos < final(p)@.pos && final(p)@.closed_last(m),
{
    if p.at(SyntaxKind::ENUM_KW) || (p.at(SyntaxKind::CONST_KW) && p.nth_at(
        1,
        SyntaxKind::ENUM_KW,
    )) {
        Some(ts_enum(p))
    } else if p.at(SyntaxKind::IDENT) && str_eq(p.cur_src(), "interface") {
        ts_interface(p)
    } else {
        ts_type_alias(p)
    }
}

/// Whether the word `declare` stands at the cursor.
pub open spec fn spec_at_declare(p: ParserView) -> bool {
    p.cur_kind() == SyntaxKind::IDENT && p.cur_text() == "declare"@
}

/// The kind of token number `i` of `tokens`; `EOF` where there is none.
pub open spec fn spec_kind_at(tokens: Seq<Token>, i: int) -> SyntaxKind {
    if 0 <= i < tokens.len() {
        tokens[i].kind
    } else {
        SyntaxKind::EOF
    }
}

/// The place after the `)` that closes the parentheses of which `depth` are open at
/// token number `i`; the end of the tokens if none closes them.
pub open spec fn spec_parens_end(tokens: Seq<Token>, i: int, depth: nat) -> int
    decreases tokens.len() - i,
{
    if i < 0 || i >= tokens.len() {
        tokens.len() as int
    } else if tokens[i].kind == SyntaxKind::L_PAREN {
        spec_parens_end(tokens, i + 1, depth + 1)
    } else if tokens[i].kind == SyntaxKind::R_PAREN {
        if depth <= 1 {
            i + 1
        } else {
            spec_parens_end(tokens, i + 1, (depth - 1) as nat)
        }
    } else {
        spec_parens_end(tokens, i + 1, depth)
    }
}

/// Whether the function whose keyword is token number `pos` has a body: after the
/// keyword, a name if one stands there, and the parameters in their parentheses if
/// they stand there, a `{` follows.
pub open spec fn spec_signature_has_body(tokens: Seq<Token>, pos: int) -> bool {
    let name = pos + 1;
    let open = if spec_is_identifier_name_kind(spec_kind_at(tokens, name)) {
        name + 1
    } else {
        name
    };
    if spec_kind_at(tokens, open) == SyntaxKind::L_PAREN {
        spec_kind_at(tokens, spec_parens_end(tokens, open + 1, 1)) == SyntaxKind::L_CURLY
    } else {
        spec_kind_at(tokens, open) == SyntaxKind::L_CURLY
    }
}

fn kind_at(tokens: &Vec<Token>, i: usize) -> (k: SyntaxKind)
    ensures
        k == spec_kind_at(tokens@, i as int),
{
    if i < tokens.len() {
        tokens[i].kind
    } else {
        SyntaxKind::EOF
    }
}

/// Whether the function whose keyword stands at the cursor has a body. The answer
/// is found by looking ahead; nothing is consumed.
pub fn signature_has_body(p: &Parser) -> (b: bool)
    ensures
        b == spec_signature_has_body(p@.tokens, p@.pos as int),
{
    let tokens = p.tokens();
    let len = tokens.len();
    let pos = p.position();
    if pos >= len {
        return false;
    }
    let name = pos + 1;
    let name_kind = kind_at(tokens, name);
    let open = if name < len && (name_kind == SyntaxKind::IDENT || name_kind.is_keyword()) {
        name + 1
    } else {
        name
    };
    if kind_at(tokens, open) != SyntaxKind::L_PAREN {
        return kind_at(tokens, open) == SyntaxKind::L_CURLY;
    }
    let mut i = open + 1;
    let mut depth: usize = 1;
    let mut end = len;
    while i < len
        invariant_except_break
            end == len,
            spec_parens_end(tokens@, open + 1, 1) == spec_parens_end(
                tokens@,
                i as int,
                depth as nat,
            ),
        invariant
            len == tokens@.len(),
            1 <= depth <= i <= len,
        ensures
            end == spec_parens_end(tokens@, open + 1, 1),
            end <= len,
        decreases len - i,
    {
        let kind = tokens[i].kind;
        if kind == SyntaxKind::L_PAREN {
            depth = depth + 1;
        } else if kind == SyntaxKind::R_PAREN {
            if depth <= 1 {
                end = i + 1;
                break ;
            }
            depth = depth - 1;
        }
        i = i + 1;
    }
    kind_at(tokens, end) == SyntaxKind::L_CURLY
}

/// What can follow `declare`: a TypeScript declaration, a variable statement, or a
/// function that has no body.
pub open spec fn spec_ambient_declaration_follows(p: ParserView) -> bool {
    ||| spec_at_ts_decl(p)
    ||| spec_starts_variable_declaration(p)
    ||| p.cur_kind() == SyntaxKind::FUNCTION_KW && !spec_signature_has_body(p.tokens, p.pos as int)
}

/// Where an ambient declaration stands: at `declare` with something after it that
/// can follow it.
pub open spec fn spec_at_ambient_declaration(p: ParserView) -> bool {
    spec_at_declare(p) && spec_ambient_declaration_follows(p.skipped(1))
}

/// Parses an ambient declaration: `declare` and a TypeScript declaration, a variable
/// statement, or the signature of a function. What follows `declare` is parsed in an
/// ambient context, which ends with the declaration.
///
/// The answer is a node exactly where an ambient declaration stands. It is `None`
/// where `declare` does not stand, and then nothing has happened; and where what
/// follows it is none of these, a function with a body among them, and then a
/// caller that tried the rule rewinds.
pub fn ts_declare(p: &mut Parser) -> (r: Option<CompletedMarker>)
    requires
        old(p)@.wf(),
    ensures
        r is Some <==> spec_at_ambient_declaration(old(p)@),
        !spec_at_declare(old(p)@) ==> final(p)@ == old(p)@,
        final(p)@.answers_option(old(p)@, r),
        final(p)@.state == old(p)@.state,
        r matches Some(m) ==> m.kind == SyntaxKind::TS_DECLARE && old(p)@.pos < final(p)@.pos
            && final(p)@.closed_last(m) && m.start == old(p)@.events.len(),
{
    if !(p.at(SyntaxKind::IDENT) && str_eq(p.cur_src(), "declare")) {
        return None;
    }
    let start = p.cur_tok().range.start;
    let saved = p.state().clone();
    let m = p.start();
    p.bump_remap(SyntaxKind::DECLARE_KW);
    let mut ambient = p.state().clone();
    ambient.enter_ambient();
    p.set_state(ambient);

    let found = if ts_decl(p).is_some() {
        true
    } else if is_at_variable_declaration(p) {
        variable_declaration_statement(p);
        true
    } else if p.at(SyntaxKind::FUNCTION_KW) && !signature_has_body(p) {
        let signature = p.start();
        p.bump(SyntaxKind::FUNCTION_KW);
        identifier_name(p);
        let mut header = p.state().clone();
        header.duplicate_binding_parent = None;
        let previous = p.swap_state(header);
        parse_parameter_list(p);
        p.set_state(previous);
        semi(p, TextRange::new(start, p.cur_tok().range.start));
        signature.complete(p, SyntaxKind::JS_FUNCTION_DECLARATION);
        true
    } else {
        false
    };
    p.set_state(saved);
    let completed = m.complete(p, SyntaxKind::TS_DECLARE);
    if found {
        Some(completed)
    } else {
        None
    }
}

} // verus!
