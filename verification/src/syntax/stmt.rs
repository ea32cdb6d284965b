//! Statements.

use vstd::prelude::*;
use crate::diagnostic::DiagnosticView;
use crate::parsed_syntax::ParsedSyntax;
use crate::event::Event;
use crate::parser::{CompletedMarker, Parser, ParserProgress, ParserView};
use crate::state::{BindingParent, NameMap, ParserState, ParserStateView};
use crate::syntax::binding::{
    after_plain_pattern, binding_error, parse_binding_pattern, spec_is_eval_or_arguments, spec_is_plain_pattern, spec_starts_unclosed,
    with_binding, with_identifier_binding,
};
use crate::syntax::class::{
    after_atom_initializer, parse_class_declaration, parse_initializer_clause,
    spec_is_atom_initializer,
};
use crate::syntax::expr::{
    after_wrapped_atom, expr, is_at_expression, spec_is_atom, spec_is_identifier_kind,
    spec_starts_expression, with_identifier,
};
use crate::syntax::function::{
    is_at_async_function, parse_function_declaration, spec_is_at_async_function, LineBreak,
};
use crate::syntax::js_parse_error::{expected_binding, expected_statement};
use crate::syntax::module::parse_import;
use crate::syntax::program::export_decl;
use crate::syntax_kind::{FileKind, SyntaxKind};
use crate::token::{str_eq, TextRange};

verus! {

/// The error for a statement that does not end where it should.
#[verifier::opaque]
pub open spec fn semi_error(p: ParserView, err_range: TextRange) -> DiagnosticView {
    DiagnosticView::error(
        "Expected a semicolon or an implicit semicolon after a statement, but found none"@,
    ).primary(
        p.cur_range(),
        "An explicit or implicit semicolon is expected here..."@,
    ).secondary(err_range, "...Which is required to end this statement"@)
}

/// Whether a statement can end where `p` stands: at a `;`, at the end of the file, at
/// a `}`, or before a token that a line break precedes.
pub open spec fn spec_can_end_statement(p: ParserView) -> bool {
    ||| p.cur_kind() == SyntaxKind::SEMICOLON
    ||| p.cur_kind() == SyntaxKind::EOF
    ||| p.cur_kind() == SyntaxKind::R_CURLY
    ||| p.nth_after_newline(0)
}

/// This parser after the end of a statement was asked for: a `;` is consumed; an
/// implicit end changes nothing; anything else is reported.
#[verifier::opaque]
pub open spec fn after_semi(p: ParserView, err_range: TextRange) -> ParserView {
    if p.at(SyntaxKind::SEMICOLON) {
        p.bumped(SyntaxKind::SEMICOLON)
    } else if spec_can_end_statement(p) {
        p
    } else {
        p.reported(semi_error(p, err_range))
    }
}

/// Ends a statement. `err_range` is the range of the statement, for the error.
pub fn semi(p: &mut Parser, err_range: TextRange) -> (ok: bool)
    requires
        old(p)@.wf(),
    ensures
        ok == spec_can_end_statement(old(p)@),
        final(p)@ == after_semi(old(p)@, err_range),
        final(p)@.follows(old(p)@),
        final(p)@.state == old(p)@.state,
{
    proof {
        reveal(semi_error);
        reveal(after_semi);
        reveal(ParserView::after_eat);
    }
    if p.eat(SyntaxKind::SEMICOLON) || p.at(SyntaxKind::EOF) || p.at(SyntaxKind::R_CURLY)
        || p.has_linebreak_before_n(0) {
        true
    } else {
        let err = p.err_builder(
            "Expected a semicolon or an implicit semicolon after a statement, but found none",
        ).primary(
            p.cur_tok().range,
            "An explicit or implicit semicolon is expected here...",
        ).secondary(err_range, "...Which is required to end this statement");
        p.error(err);
        false
    }
}

/// The kinds of token that can follow `let` where `let` starts a declaration.
pub open spec fn spec_follows_let(kind: SyntaxKind) -> bool {
    matches!(
        kind,
        SyntaxKind::L_CURLY | SyntaxKind::L_BRACK | SyntaxKind::IDENT | SyntaxKind::YIELD_KW
            | SyntaxKind::AWAIT_KW
    )
}

/// Whether a token of kind `kind` can follow `let` where `let` starts a declaration.
pub fn follows_let(kind: SyntaxKind) -> (b: bool)
    ensures
        b == spec_follows_let(kind),
{
    matches!(
        kind,
        SyntaxKind::L_CURLY | SyntaxKind::L_BRACK | SyntaxKind::IDENT | SyntaxKind::YIELD_KW
            | SyntaxKind::AWAIT_KW
    )
}

/// Where a variable declaration starts: at `var`, at `const`, and at the word `let`.
pub open spec fn spec_starts_variable_declaration(p: ParserView) -> bool {
    ||| p.cur_kind() == SyntaxKind::VAR_KW
    ||| p.cur_kind() == SyntaxKind::CONST_KW
    ||| p.cur_kind() == SyntaxKind::IDENT && p.cur_text() == "let"@
}

/// Whether a variable declaration starts at the current token.
pub fn is_at_variable_declaration(p: &Parser) -> (b: bool)
    ensures
        b == spec_starts_variable_declaration(p@),
{
    p.at(SyntaxKind::VAR_KW) || p.at(SyntaxKind::CONST_KW) || (p.at(SyntaxKind::IDENT) && str_eq(
        p.cur_src(),
        "let",
    ))
}

/// A variable declaration starts at the cursor whose first pattern is an array or
/// an object pattern that the source never closes.
pub open spec fn spec_starts_unclosed_pattern(p: ParserView) -> bool {
    &&& spec_starts_variable_declaration(p)
    &&& spec_starts_unclosed(p.skipped(1))
}

/// The keyword that the first token of a variable statement is attached as.
pub open spec fn spec_declaration_keyword(p: ParserView) -> SyntaxKind {
    if p.cur_kind() == SyntaxKind::VAR_KW {
        SyntaxKind::VAR_KW
    } else if p.cur_kind() == SyntaxKind::CONST_KW {
        SyntaxKind::CONST_KW
    } else {
        SyntaxKind::LET_KW
    }
}

/// The declaration that checks the bindings of a variable statement: `let` or
/// `const`, and none for `var`.
pub open spec fn spec_declaration_parent(p: ParserView) -> Option<BindingParent> {
    if p.cur_kind() == SyntaxKind::VAR_KW {
        None
    } else if p.cur_kind() == SyntaxKind::CONST_KW {
        Some(BindingParent::Const)
    } else {
        Some(BindingParent::Let)
    }
}

/// This parser where the declarations of a variable statement begin: the node of
/// the statement is open, the keyword is read, the binding list is a new one, and
/// the node of the list is open.
pub open spec fn after_declaration_keyword(p: ParserView) -> ParserView {
    p.with_event(Event::StartNode).bumped(spec_declaration_keyword(p)).with_state(
        ParserStateView {
            duplicate_binding_parent: spec_declaration_parent(p),
            name_map: Map::empty(),
            ..p.state
        },
    ).with_event(Event::StartNode)
}

/// This parser after one plain declaration, which is a plain pattern with no
/// initializer or with one whose value is an expression of one token: a node with
/// the pattern and the initializer, or a placeholder in its slot.
#[verifier::opaque]
pub open spec fn after_plain_declaration(p: ParserView) -> ParserView {
    let bound = after_plain_pattern(p.with_event(Event::StartNode));
    let valued = if spec_is_atom_initializer(bound) {
        after_atom_initializer(bound)
    } else {
        bound.with_event(Event::Placeholder)
    };
    valued.with_event(Event::FinishNode { kind: SyntaxKind::JS_VARIABLE_DECLARATION })
}

/// Whether the declaration at the cursor is plain: a plain pattern, and no
/// initializer after it or one whose value is an expression of one token.
#[verifier::opaque]
pub open spec fn spec_is_plain_declaration(p: ParserView) -> bool {
    let started = p.with_event(Event::StartNode);
    let bound = after_plain_pattern(started);
    &&& spec_is_plain_pattern(started)
    &&& bound.cur_kind() != SyntaxKind::EQ || spec_is_atom_initializer(bound)
}

/// Whether the declarations from the cursor on are plain, at most `fuel` of them,
/// with a `,` between one and the next.
pub open spec fn spec_plain_declarations(p: ParserView, fuel: nat) -> bool
    decreases fuel,
{
    &&& fuel > 0
    &&& spec_is_plain_declaration(p)
    &&& after_plain_declaration(p).cur_kind() == SyntaxKind::COMMA ==> spec_plain_declarations(
        after_plain_declaration(p).bumped(SyntaxKind::COMMA),
        (fuel - 1) as nat,
    )
}

/// This parser after the plain declarations from the cursor on, at most `fuel` of
/// them.
pub open spec fn after_plain_declarations(p: ParserView, fuel: nat) -> ParserView
    decreases fuel,
{
    if fuel == 0 {
        p
    } else if after_plain_declaration(p).cur_kind() == SyntaxKind::COMMA {
        after_plain_declarations(
            after_plain_declaration(p).bumped(SyntaxKind::COMMA),
            (fuel - 1) as nat,
        )
    } else {
        after_plain_declaration(p)
    }
}

/// Whether a plain variable statement starts at the cursor: `var`, `let` or `const`
/// and declarations that are plain.
pub open spec fn spec_plain_variable_statement(p: ParserView) -> bool {
    &&& spec_starts_variable_declaration(p)
    &&& spec_plain_declarations(after_declaration_keyword(p), p.remaining() as nat)
}

/// This parser after a plain variable statement: the keyword, the list of the
/// declarations, the state as it was before the statement, and the end of the
/// statement.
pub open spec fn after_plain_variable_statement(p: ParserView) -> ParserView {
    let listed = after_plain_declarations(
        after_declaration_keyword(p),
        p.remaining() as nat,
    ).with_event(Event::FinishNode { kind: SyntaxKind::JS_VARIABLE_DECLARATION_LIST }).with_state(
        p.state,
    );
    after_semi(
        listed,
        TextRange { start: p.cur_range().start, end: listed.cur_range().start },
    ).with_event(Event::FinishNode { kind: SyntaxKind::JS_VARIABLE_STATEMENT })
}

/// The error for a name that a `let` or `const` declaration binds a second time:
/// the secondary label points at the first declaration, the primary label at the
/// second.
pub open spec fn second_declaration_error(
    parent: BindingParent,
    name: Seq<char>,
    first: TextRange,
    second: TextRange,
) -> DiagnosticView {
    DiagnosticView::error(
        "Declarations inside of a `"@ + parent.spec_label()
            + "` declaration may not have duplicates"@,
    ).secondary(first, "`"@ + name + "` is first declared here"@).primary(
        second,
        "a second declaration of `"@ + name + "` is not allowed"@,
    )
}

/// Duplicate bindings in a statement. A `let` or `const` statement that declares two
/// plain names and ends where a statement can end: if the two names are the same
/// name, the statement adds exactly one diagnostic, whose secondary label points at
/// the first name and whose primary label points at the second; if they differ, it
/// adds none. The names are not `let`, and in strict mode not `eval` or
/// `arguments`, which are rejected for what they spell.
pub proof fn law_second_declaration_is_reported(p: ParserView)
    requires
        p.pos + 4 <= p.tokens.len(),
        spec_starts_variable_declaration(p),
        p.cur_kind() != SyntaxKind::VAR_KW,
        p.nth_kind(1) == SyntaxKind::IDENT,
        p.nth_kind(2) == SyntaxKind::COMMA,
        p.nth_kind(3) == SyntaxKind::IDENT,
        p.nth_kind(4) == SyntaxKind::SEMICOLON || p.nth_kind(4) == SyntaxKind::EOF,
        p.nth_text(1) != "let"@,
        p.nth_text(3) != "let"@,
        !(p.state.strict && (spec_is_eval_or_arguments(p.nth_text(1)) || spec_is_eval_or_arguments(
            p.nth_text(3),
        ))),
    ensures
        spec_plain_variable_statement(p),
        p.nth_text(1) == p.nth_text(3) ==> after_plain_variable_statement(p).diagnostics
            == p.diagnostics.push(
            second_declaration_error(
                spec_declaration_parent(p)->Some_0,
                p.nth_text(1),
                p.range_at(p.pos as int + 1),
                p.range_at(p.pos as int + 3),
            ),
        ),
        p.nth_text(1) != p.nth_text(3) ==> after_plain_variable_statement(p).diagnostics
            == p.diagnostics,
        after_plain_variable_statement(p).state == p.state,
        after_plain_variable_statement(p).tokens == p.tokens,
        after_plain_variable_statement(p).pos == p.pos + if p.nth_kind(4)
            == SyntaxKind::SEMICOLON {
            5int
        } else {
            4int
        },
{
    reveal(ParserView::with_event);
    reveal(ParserView::bumped);
    reveal(ParserView::reported);
    reveal(ParserView::with_state);
    reveal(ParserView::with_event_at);
    reveal(after_plain_declaration);
    reveal(spec_is_plain_declaration);
    reveal(with_binding);
    reveal(with_identifier_binding);
    reveal(with_identifier);
    reveal(binding_error);
    reveal(after_semi);
    reveal(semi_error);
    let parent = spec_declaration_parent(p)->Some_0;
    let inside = after_declaration_keyword(p);
    let fuel = p.remaining() as nat;
    assert(inside.pos == p.pos + 1);
    assert(inside.tokens == p.tokens);
    assert(inside.cur_kind() == SyntaxKind::IDENT);
    assert(inside.cur_text() == p.nth_text(1));
    assert(inside.cur_range() == p.range_at(p.pos as int + 1));
    assert(inside.state.name_map == Map::<Seq<char>, TextRange>::empty());
    assert(!inside.state.name_map.contains_key(inside.cur_text()));
    let started = inside.with_event(Event::StartNode);
    assert(binding_error(started.state, started.cur_text(), started.cur_range()) is None);
    let first = after_plain_declaration(inside);
    assert(first.pos == p.pos + 2);
    assert(first.diagnostics == p.diagnostics);
    assert(first.state.name_map == Map::<Seq<char>, TextRange>::empty().insert(
        p.nth_text(1),
        p.range_at(p.pos as int + 1),
    ));
    let second = first.bumped(SyntaxKind::COMMA);
    assert(second.pos == p.pos + 3);
    assert(second.cur_kind() == SyntaxKind::IDENT);
    assert(second.cur_text() == p.nth_text(3));
    assert(second.cur_range() == p.range_at(p.pos as int + 3));
    assert(second.nth_kind(1) == p.nth_kind(4));
    let last = after_plain_declaration(second);
    assert(last.pos == p.pos + 4);
    assert(spec_plain_declarations(second, (fuel - 1) as nat)) by {
        reveal_with_fuel(spec_plain_declarations, 2);
    }
    assert(spec_plain_declarations(inside, fuel)) by {
        reveal_with_fuel(spec_plain_declarations, 3);
    }
    assert(after_plain_declarations(inside, fuel) == last) by {
        reveal_with_fuel(after_plain_declarations, 3);
    }
    if p.nth_text(1) == p.nth_text(3) {
        assert(second.state.name_map.contains_key(second.cur_text()));
        assert(last.diagnostics == p.diagnostics.push(
            second_declaration_error(
                parent,
                p.nth_text(1),
                p.range_at(p.pos as int + 1),
                p.range_at(p.pos as int + 3),
            ),
        ));
    } else {
        assert(!second.state.name_map.contains_key(second.cur_text()));
        assert(last.diagnostics == p.diagnostics);
    }
    let listed = last.with_event(
        Event::FinishNode { kind: SyntaxKind::JS_VARIABLE_DECLARATION_LIST },
    ).with_state(p.state);
    assert(listed.cur_kind() == p.nth_kind(4));
    assert(listed.diagnostics == last.diagnostics);
}

/// Parses a variable statement: `var`, `let` or `const`, the declarations, and the
/// end of the statement.
///
/// A plain statement, whose declarations are identifiers without initializers, is
/// known event by event and diagnostic by diagnostic. A statement whose first
/// pattern is an array or object pattern that the source never closes is reported.
///
/// A `let` or `const` declaration is a binding list of its own: while it is parsed
/// the names it binds are checked against each other and against nothing else, and
/// when it ends the state is what it was before.
pub fn variable_declaration_statement(p: &mut Parser) -> (r: ParsedSyntax<CompletedMarker>)
    requires
        old(p)@.wf(),
    ensures
        final(p)@.answers(old(p)@, r),
        final(p)@.state == old(p)@.state,
        r is Present <==> spec_starts_variable_declaration(old(p)@),
        r is Present ==> old(p)@.pos < final(p)@.pos,
        r matches ParsedSyntax::Present(m) ==> m.kind == SyntaxKind::JS_VARIABLE_STATEMENT,
        spec_plain_variable_statement(old(p)@) ==> final(p)@ == after_plain_variable_statement(
            old(p)@,
        ),
        spec_starts_unclosed_pattern(old(p)@) ==> final(p)@.diagnostics.len() > old(
            p,
        )@.diagnostics.len(),
{
    if !is_at_variable_declaration(p) {
        return ParsedSyntax::Absent;
    }
    proof {
        reveal(ParserView::after_bump_remap);
    }
    let ghost entry = p@;
    let ghost plain = spec_plain_variable_statement(entry);
    let ghost unclosed = spec_starts_unclosed_pattern(entry);
    let start = p.cur_tok().range.start;
    let m = p.start();
    let parent = if p.at(SyntaxKind::VAR_KW) {
        p.bump(SyntaxKind::VAR_KW);
        None
    } else if p.at(SyntaxKind::CONST_KW) {
        p.bump(SyntaxKind::CONST_KW);
        Some(BindingParent::Const)
    } else {
        p.bump_remap(SyntaxKind::LET_KW);
        Some(BindingParent::Let)
    };
    let saved = p.state().clone();
    let mut scoped = p.state().clone();
    scoped.duplicate_binding_parent = parent;
    scoped.name_map = NameMap::new();
    p.set_state(scoped);

    let list = p.start();
    let ghost inside = p@;
    let ghost fuel = entry.remaining() as nat;
    let ghost target = after_plain_declarations(inside, fuel);
    let ghost first = true;
    assert(inside == after_declaration_keyword(entry));
    proof {
        reveal(ParserView::with_event);
        reveal(ParserView::bumped);
        reveal(ParserView::with_state);
        if unclosed {
            assert(inside.cur_kind() == entry.skipped(1).cur_kind());
            assert(inside.state.allow_object_expr == entry.state.allow_object_expr);
            assert(spec_starts_unclosed(inside));
        }
    }
    let mut more = true;
    while more
        invariant
            p@.follows(inside),
            inside.pos == entry.pos + 1,
            inside.tokens == entry.tokens,
            inside.diagnostics == entry.diagnostics,
            more || !first,
            plain ==> if more {
                spec_plain_declarations(p@, fuel) && after_plain_declarations(p@, fuel) == target
            } else {
                p@ == target
            },
            unclosed ==> if first {
                p@ == inside && spec_starts_unclosed(inside)
            } else {
                p@.diagnostics.len() > entry.diagnostics.len()
            },
        decreases p@.remaining() + if more { 1int } else { 0int },
    {
        let ghost round = p@;
        let declaration = p.start();
        proof {
            reveal(after_plain_declaration);
            reveal(spec_is_plain_declaration);
            reveal(ParserView::with_event);
            assert(p@.cur_kind() == round.cur_kind());
            assert(unclosed && first ==> spec_starts_unclosed(p@));
        }
        parse_binding_pattern(p).or_missing_with_error(p, expected_binding);
        parse_initializer_clause(p).or_missing(p);
        declaration.complete(p, SyntaxKind::JS_VARIABLE_DECLARATION);
        proof {
            assert(plain ==> p@ == after_plain_declaration(round));
            reveal(ParserView::after_eat);
        }
        more = p.eat(SyntaxKind::COMMA);
        proof {
            fuel = (fuel - 1) as nat;
            first = false;
        }
    }
    list.complete(p, SyntaxKind::JS_VARIABLE_DECLARATION_LIST);
    p.set_state(saved);

    semi(p, TextRange::new(start, p.cur_tok().range.start));
    ParsedSyntax::Present(m.complete(p, SyntaxKind::JS_VARIABLE_STATEMENT))
}

/// Whether the text of a string literal spells the `use strict` directive.
pub open spec fn spec_is_use_strict(text: Seq<char>) -> bool {
    text == "\"use strict\""@ || text == "'use strict'"@
}

/// Whether a directive stands at the cursor: a string literal that is a statement
/// of its own.
pub open spec fn spec_at_directive(p: ParserView) -> bool {
    &&& p.cur_kind() == SyntaxKind::JS_STRING_LITERAL
    &&& {
        ||| p.nth_kind(1) == SyntaxKind::SEMICOLON
        ||| p.nth_kind(1) == SyntaxKind::R_CURLY
        ||| p.nth_kind(1) == SyntaxKind::EOF
        ||| p.nth_after_newline(1)
    }
}

fn is_at_directive(p: &Parser) -> (b: bool)
    ensures
        b == spec_at_directive(p@),
{
    p.at(SyntaxKind::JS_STRING_LITERAL) && (p.nth_at(1, SyntaxKind::SEMICOLON) || p.nth_at(
        1,
        SyntaxKind::R_CURLY,
    ) || p.nth_at(1, SyntaxKind::EOF) || p.has_linebreak_before_n(1))
}

/// Parses the directives at the start of a script, a module or a function body.
/// If one of them is `use strict`, strict mode is on from then on, and the state
/// from before comes back as the answer, for the caller to install again at the end
/// of the body. The contract says so of the first directive.
pub fn directives(p: &mut Parser) -> (previous: Option<ParserState>)
    requires
        old(p)@.wf(),
    ensures
        final(p)@.follows(old(p)@),
        match previous {
            Some(s) => s@ == old(p)@.state && final(p)@.state == (ParserStateView {
                strict: true,
                ..old(p)@.state
            }),
            None => final(p)@.state == old(p)@.state,
        },
        !spec_at_directive(old(p)@) ==> previous is None && final(p)@.pos == old(p)@.pos
            && final(p)@.diagnostics == old(p)@.diagnostics && final(p)@ == old(p)@.with_event(
            Event::StartNode,
        ).with_event(Event::FinishNode { kind: SyntaxKind::JS_DIRECTIVE_LIST }),
        spec_at_directive(old(p)@) && spec_is_use_strict(old(p)@.cur_text()) ==> previous is Some,
{
    let ghost entry = p@;
    let list = p.start();
    let ghost inside = p@;
    let mut previous: Option<ParserState> = None;
    let mut progress = ParserProgress::default();
    while is_at_directive(p)
        invariant
            p@.follows(inside),
            inside.state == entry.state,
            inside.tokens == entry.tokens,
            inside.pos == entry.pos,
            inside.diagnostics == entry.diagnostics,
            !spec_at_directive(entry) ==> previous is None && p@.pos == entry.pos
                && p@.diagnostics == entry.diagnostics && p@ == inside,
            spec_at_directive(entry) && spec_is_use_strict(entry.cur_text()) ==> p@.pos
                == entry.pos || previous is Some,
            match previous {
                Some(s) => s@ == entry.state && p@.state == (ParserStateView {
                    strict: true,
                    ..entry.state
                }),
                None => p@.state == entry.state,
            },
            progress.last matches Some(before) ==> before < p@.pos,
        decreases p@.remaining(),
    {
        progress.assert_progressing(p);
        let is_use_strict = str_eq(p.cur_src(), "\"use strict\"") || str_eq(
            p.cur_src(),
            "'use strict'",
        );
        let directive = p.start();
        p.bump_any();
        p.eat(SyntaxKind::SEMICOLON);
        directive.complete(p, SyntaxKind::JS_DIRECTIVE);
        if is_use_strict && previous.is_none() {
            let mut strict = p.state().clone();
            strict.strict = true;
            previous = Some(p.swap_state(strict));
        }
    }
    list.complete(p, SyntaxKind::JS_DIRECTIVE_LIST);
    previous
}

/// Where a statement can start.
pub open spec fn spec_starts_statement(p: ParserView) -> bool {
    ||| matches!(
        p.cur_kind(),
        SyntaxKind::SEMICOLON | SyntaxKind::L_CURLY | SyntaxKind::FUNCTION_KW
            | SyntaxKind::CLASS_KW | SyntaxKind::RETURN_KW | SyntaxKind::FOR_KW
            | SyntaxKind::EXPORT_KW | SyntaxKind::IMPORT_KW
    )
    ||| spec_starts_variable_declaration(p)
    ||| spec_is_at_async_function(p, LineBreak::DoCheck)
    ||| spec_starts_expression(p.cur_kind())
}

/// Whether the statement at the cursor is an expression statement whose expression
/// is one token.
pub open spec fn spec_is_atom_statement(p: ParserView) -> bool {
    &&& spec_is_atom(p, 5)
    &&& !spec_starts_variable_declaration(p)
    &&& !spec_is_at_async_function(p, LineBreak::DoCheck)
}

/// Whether the statement at the cursor is plain: an empty statement, a plain
/// variable statement, or an expression statement whose expression is one token.
pub open spec fn spec_is_plain_statement(p: ParserView) -> bool {
    ||| p.cur_kind() == SyntaxKind::SEMICOLON
    ||| spec_plain_variable_statement(p)
    ||| spec_is_atom_statement(p)
}

/// This parser after a plain statement: the `;` of an empty statement in its node;
/// a plain variable statement; or the expression of one token and the end of the
/// statement in the node of an expression statement.
pub open spec fn after_plain_statement(p: ParserView) -> ParserView {
    if p.cur_kind() == SyntaxKind::SEMICOLON {
        p.with_event(Event::StartNode).bumped(SyntaxKind::SEMICOLON).with_event(
            Event::FinishNode { kind: SyntaxKind::JS_EMPTY_STATEMENT },
        )
    } else if spec_starts_variable_declaration(p) {
        after_plain_variable_statement(p)
    } else {
        let valued = after_wrapped_atom(p.with_event(Event::StartNode), 5);
        after_semi(
            valued,
            TextRange { start: p.cur_range().start, end: valued.cur_range().start },
        ).with_event(Event::FinishNode { kind: SyntaxKind::JS_EXPRESSION_STATEMENT })
    }
}

/// Parses one statement. The answer is absent, and nothing happens, where no
/// statement can start.
#[verifier::rlimit(30)]
pub fn parse_statement(p: &mut Parser) -> (r: ParsedSyntax<CompletedMarker>)
    requires
        old(p)@.wf(),
    ensures
        final(p)@.answers(old(p)@, r),
        final(p)@.state == old(p)@.state,
        r is Present <==> spec_starts_statement(old(p)@),
        r is Present ==> old(p)@.pos < final(p)@.pos,
        spec_is_plain_statement(old(p)@) ==> final(p)@ == after_plain_statement(old(p)@),
        spec_starts_unclosed_pattern(old(p)@) ==> final(p)@.diagnostics.len() > old(
            p,
        )@.diagnostics.len(),
    decreases old(p)@.remaining(), 38int,
{
    let start = p.cur_tok().range.start;
    match p.cur() {
        SyntaxKind::SEMICOLON => {
            let m = p.start();
            p.bump(SyntaxKind::SEMICOLON);
            ParsedSyntax::Present(m.complete(p, SyntaxKind::JS_EMPTY_STATEMENT))
        },
        SyntaxKind::L_CURLY => {
            let m = p.start();
            p.bump(SyntaxKind::L_CURLY);
            parse_statements(p, true);
            p.expect_required(SyntaxKind::R_CURLY);
            ParsedSyntax::Present(m.complete(p, SyntaxKind::JS_BLOCK_STATEMENT))
        },
        SyntaxKind::FUNCTION_KW => {
            parse_function_declaration(p).or_invalid_to_unknown(
                p,
                SyntaxKind::JS_UNKNOWN_STATEMENT,
            )
        },
        SyntaxKind::CLASS_KW => {
            parse_class_declaration(p).or_invalid_to_unknown(p, SyntaxKind::JS_UNKNOWN_STATEMENT)
        },
        SyntaxKind::RETURN_KW => {
            let m = p.start();
            p.bump(SyntaxKind::RETURN_KW);
            if is_at_expression(p) && !p.has_linebreak_before_n(0) {
                expr(p);
            } else {
                p.missing();
            }
            semi(p, TextRange::new(start, p.cur_tok().range.start));
            let mut completed = m.complete(p, SyntaxKind::JS_RETURN_STATEMENT);
            if !p.state().in_function {
                let err = p.err_builder("Illegal return statement outside of a function").primary(
                    completed.range(p),
                    "",
                );
                let ghost before = p@;
                p.error(err);
                proof {
                    crate::parser::lemma_closed_extends(before, p@, completed);
                }
            }
            ParsedSyntax::Present(completed)
        },
        SyntaxKind::FOR_KW => ParsedSyntax::Present(parse_for_in_statement(p)),
        SyntaxKind::EXPORT_KW | SyntaxKind::IMPORT_KW => {
            let completed = if p.at(SyntaxKind::EXPORT_KW) {
                export_decl(p)
            } else {
                parse_import(p)
            };
            if matches!(p.syntax().file_kind, FileKind::Script) {
                let err = p.err_builder(
                    "Illegal use of an import or export declaration outside of a module",
                ).primary(completed.range(p), "not allowed inside scripts");
                let ghost before = p@;
                p.error(err);
                proof {
                    crate::parser::lemma_closed_extends(before, p@, completed);
                }
            }
            ParsedSyntax::Present(completed)
        },
        _ => {
            if is_at_variable_declaration(p) {
                variable_declaration_statement(p)
            } else if is_at_async_function(p, LineBreak::DoCheck) {
                parse_function_declaration(p).or_invalid_to_unknown(
                    p,
                    SyntaxKind::JS_UNKNOWN_STATEMENT,
                )
            } else if is_at_expression(p) {
                let m = p.start();
                proof {
                    reveal(ParserView::with_event);
                }
                expr(p);
                semi(p, TextRange::new(start, p.cur_tok().range.start));
                ParsedSyntax::Present(m.complete(p, SyntaxKind::JS_EXPRESSION_STATEMENT))
            } else {
                ParsedSyntax::Absent
            }
        },
    }
}

/// Parses a `for`-`in` statement: `for`, and in parentheses what is bound or assigned
/// to, `in`, and the object whose keys are walked; then the body. What is bound is a
/// declaration without an initializer; what is assigned to is read with `in` as no
/// operator.
#[verifier::rlimit(30)]
pub fn parse_for_in_statement(p: &mut Parser) -> (m: CompletedMarker)
    requires
        old(p)@.wf(),
        old(p)@.cur_kind() == SyntaxKind::FOR_KW,
    ensures
        final(p)@.follows(old(p)@),
        final(p)@.state == old(p)@.state,
        final(p)@.built(old(p)@, m),
        old(p)@.pos < final(p)@.pos,
        m.kind == SyntaxKind::JS_FOR_IN_STATEMENT,
    decreases old(p)@.remaining(), 37int,
{
    let saved = p.state().clone();
    let m = p.start();
    p.bump(SyntaxKind::FOR_KW);
    p.expect_required(SyntaxKind::L_PAREN);

    let mut head = p.state().clone();
    head.duplicate_binding_parent = None;
    head.include_in = false;
    p.set_state(head);
    if is_at_variable_declaration(p) {
        let declaration = p.start();
        if p.at(SyntaxKind::IDENT) {
            p.bump_remap(SyntaxKind::LET_KW);
        } else {
            p.bump_any();
        }
        let binding = p.start();
        parse_binding_pattern(p).or_missing_with_error(p, expected_binding);
        binding.complete(p, SyntaxKind::JS_VARIABLE_DECLARATION);
        declaration.complete(p, SyntaxKind::JS_FOR_VARIABLE_DECLARATION);
    } else {
        expr(p);
    }
    p.set_state(saved);

    p.expect_required(SyntaxKind::IN_KW);
    expr(p);
    p.expect_required(SyntaxKind::R_PAREN);
    parse_statement(p).or_missing_with_error(p, expected_statement);
    m.complete(p, SyntaxKind::JS_FOR_IN_STATEMENT)
}

/// Whether a list of statements that starts where `p` stands starts with a token
/// that it cannot take: one that starts no statement and does not end the list.
pub open spec fn spec_starts_no_statement(p: ParserView, stop_on_r_curly: bool) -> bool {
    &&& !p.at_end()
    &&& !spec_starts_statement(p)
    &&& !(stop_on_r_curly && p.cur_kind() == SyntaxKind::R_CURLY)
}

/// Whether the statements from the cursor on, up to the end of the tokens, are
/// plain statements, at most `fuel` of them.
pub open spec fn spec_plain_statements(p: ParserView, fuel: nat) -> bool
    decreases fuel,
{
    p.at_end() || {
        &&& fuel > 0
        &&& spec_is_plain_statement(p)
        &&& spec_plain_statements(after_plain_statement(p), (fuel - 1) as nat)
    }
}

/// This parser after the plain statements from the cursor on, at most `fuel` of
/// them.
pub open spec fn after_plain_statements(p: ParserView, fuel: nat) -> ParserView
    decreases fuel,
{
    if p.at_end() || fuel == 0 {
        p
    } else {
        after_plain_statements(after_plain_statement(p), (fuel - 1) as nat)
    }
}

/// Parses statements up to the end of the tokens, or up to the `}` that closes the
/// block if `stop_on_r_curly` is set. A token that starts no statement is reported
/// and wrapped in an unknown statement, so every round consumes a token; if the
/// first token is such a token, the parse has a diagnostic more than before, and so
/// it has if the first statement declares an array or object pattern that the
/// source never closes. Where nothing stands, nothing is reported. A list of plain variable
/// statements is known event by event and diagnostic by diagnostic.
pub fn parse_statements(p: &mut Parser, stop_on_r_curly: bool)
    requires
        old(p)@.wf(),
    ensures
        final(p)@.follows(old(p)@),
        final(p)@.state == old(p)@.state,
        final(p)@.at_end() || (stop_on_r_curly && final(p)@.cur_kind() == SyntaxKind::R_CURLY),
        spec_starts_no_statement(old(p)@, stop_on_r_curly) ==> final(p)@.diagnostics.len() > old(
            p,
        )@.diagnostics.len(),
        spec_starts_unclosed_pattern(old(p)@) ==> final(p)@.diagnostics.len() > old(
            p,
        )@.diagnostics.len(),
        old(p)@.at_end() ==> final(p)@.diagnostics == old(p)@.diagnostics,
        spec_plain_statements(
            old(p)@.with_event(Event::StartNode),
            old(p)@.remaining() as nat,
        ) ==> final(p)@ == after_plain_statements(
            old(p)@.with_event(Event::StartNode),
            old(p)@.remaining() as nat,
        ).with_event(Event::FinishNode { kind: SyntaxKind::JS_STATEMENT_LIST }),
    decreases old(p)@.remaining(), 40int,
{
    let ghost entry = p@;
    let list = p.start();
    let ghost inside = p@;
    let ghost fuel = entry.remaining() as nat;
    let ghost plain = spec_plain_statements(inside, fuel);
    let ghost target = after_plain_statements(inside, fuel);
    proof {
        reveal(ParserView::with_event);
        assert(spec_starts_unclosed_pattern(entry) ==> spec_starts_unclosed_pattern(inside));
    }
    let mut progress = ParserProgress::default();
    while !p.at_end()
        invariant_except_break
            progress.last matches Some(before) ==> before < p@.pos,
        invariant
            entry == old(p)@,
            p@.follows(inside),
            p@.state == entry.state,
            inside.pos == entry.pos,
            inside.tokens == entry.tokens,
            inside.diagnostics == entry.diagnostics,
            spec_starts_no_statement(entry, stop_on_r_curly) ==> p@.pos == inside.pos
                || p@.diagnostics.len() > entry.diagnostics.len(),
            spec_starts_unclosed_pattern(entry) ==> p@ == inside || p@.diagnostics.len()
                > entry.diagnostics.len(),
            entry.at_end() ==> p@ == inside,
            plain ==> spec_plain_statements(p@, fuel) && after_plain_statements(p@, fuel)
                == target,
        ensures
            p@.at_end() || (stop_on_r_curly && p@.cur_kind() == SyntaxKind::R_CURLY),
            spec_starts_no_statement(entry, stop_on_r_curly) ==> p@.diagnostics.len()
                > entry.diagnostics.len(),
            spec_starts_unclosed_pattern(entry) ==> p@.diagnostics.len()
                > entry.diagnostics.len(),
            entry.at_end() ==> p@ == inside,
            plain ==> p@ == target,
        decreases p@.remaining(),
    {
        progress.assert_progressing(p);
        if stop_on_r_curly && p.at(SyntaxKind::R_CURLY) {
            break ;
        }
        proof {
            fuel = (fuel - 1) as nat;
        }
        if parse_statement(p).is_absent() {
            let m = p.start();
            let err = expected_statement(p, p.cur_tok().range);
            p.error(err);
            p.bump_any();
            m.complete(p, SyntaxKind::JS_UNKNOWN_STATEMENT);
        }
    }
    list.complete(p, SyntaxKind::JS_STATEMENT_LIST);
}

} // verus!
