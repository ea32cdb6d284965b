//! The rules for a whole script or module, and the export declarations of a module.

use vstd::prelude::*;
use crate::diagnostic::DiagnosticView;
use crate::event::{
    balanced, closes, iota, leaf_slots, leaf_tokens, lemma_closes_extends,
    lemma_leaf_slots_push, Event,
};
use crate::parser::{
    errors_after, lemma_closed_closes, lemma_closed_extends, CompletedMarker, Marker, Parser,
    ParserProgress, ParserView,
};
use crate::syntax::class::parse_class_declaration;
use crate::syntax::expr::{
    after_identifier_name, after_wrapped_atom, at_identifier_name, expr, expr_or_assignment,
    identifier_name, nth_at_identifier_name, spec_is_atom, spec_is_identifier_name_kind,
};
use crate::syntax::function::{
    is_at_async_function, parse_function_declaration, spec_starts_function_declaration, LineBreak,
};
use crate::syntax::module::parse_module_body;
use crate::syntax::js_parse_error::{expected_statement, spec_expected_node};
use crate::syntax::binding::spec_is_eval_or_arguments;
use crate::syntax::stmt::{
    after_plain_statement, after_plain_statements, after_declaration_keyword, after_plain_variable_statement, after_semi,
    directives, follows_let,
    law_second_declaration_is_reported, parse_statements, second_declaration_error, semi,
    spec_at_directive, spec_declaration_parent, spec_follows_let, spec_is_plain_declaration, spec_plain_statements, spec_plain_variable_statement,
    spec_starts_no_statement, spec_starts_unclosed_pattern, spec_starts_variable_declaration,
    variable_declaration_statement,
};
use crate::syntax::typescript::{
    after_entity_name, spec_at_ambient_declaration, spec_at_interface, spec_at_ts_decl, spec_at_type_name,
    spec_entity_name_kind, try_parse_ts, ts_decl, ts_declare, ts_entity_name, ts_enum,
    ts_interface,
};
use crate::syntax_kind::{FileKind, SyntaxKind};
use crate::token::{str_eq, TextRange};

verus! {

/// The error for a source that holds nothing.
pub open spec fn empty_source_error(p: ParserView) -> DiagnosticView {
    spec_expected_node(p.with_event(Event::StartNode), "statement"@, p.cur_range())
}

/// This parser where the statements of a file begin that has no shebang and no
/// directive: the root node is open, a placeholder stands in the slot of the
/// shebang, and the list of the directives is empty.
pub open spec fn after_program_head(p: ParserView) -> ParserView {
    p.with_event(Event::StartNode).with_event(Event::Placeholder).with_event(
        Event::StartNode,
    ).with_event(Event::FinishNode { kind: SyntaxKind::JS_DIRECTIVE_LIST })
}

/// Whether the source from the cursor on is a plain program: plain statements and
/// nothing else, and at least one of them.
pub open spec fn spec_plain_program(p: ParserView) -> bool {
    &&& !p.at_end()
    &&& p.cur_kind() != SyntaxKind::JS_SHEBANG
    &&& !spec_at_directive(p)
    &&& spec_plain_statements(
        after_program_head(p).with_event(Event::StartNode),
        p.remaining() as nat,
    )
}

/// This parser after a plain program: the head, the statements in their list, and
/// the end of the root node.
pub open spec fn after_plain_program(p: ParserView) -> ParserView {
    let body = after_plain_statements(
        after_program_head(p).with_event(Event::StartNode),
        p.remaining() as nat,
    );
    if p.file_kind == FileKind::Script {
        body.with_event(Event::FinishNode { kind: SyntaxKind::JS_STATEMENT_LIST }).with_event(
            Event::FinishNode { kind: SyntaxKind::JS_SCRIPT },
        )
    } else {
        body.with_event(Event::FinishNode { kind: SyntaxKind::JS_MODULE_ITEM_LIST }).with_event(
            Event::FinishNode { kind: SyntaxKind::JS_MODULE },
        )
    }
}

/// Duplicate bindings in a program. A source that is one `let` or `const` statement
/// of two plain names, with or without its `;`, is a plain program. Parsing it adds
/// exactly one diagnostic if the two names are the same name, with the secondary
/// label at the first name and the primary label at the second, and none if they
/// differ. The names are not `let`, and in strict mode not `eval` or `arguments`.
pub proof fn law_duplicate_binding_in_a_program(p: ParserView)
    requires
        spec_starts_variable_declaration(p),
        p.cur_kind() != SyntaxKind::VAR_KW,
        p.nth_kind(1) == SyntaxKind::IDENT,
        p.nth_kind(2) == SyntaxKind::COMMA,
        p.nth_kind(3) == SyntaxKind::IDENT,
        p.tokens.len() == p.pos + 4 || (p.tokens.len() == p.pos + 5 && p.nth_kind(4)
            == SyntaxKind::SEMICOLON),
        p.nth_text(1) != "let"@,
        p.nth_text(3) != "let"@,
        !(p.state.strict && (spec_is_eval_or_arguments(p.nth_text(1)) || spec_is_eval_or_arguments(
            p.nth_text(3),
        ))),
    ensures
        spec_plain_program(p),
        p.nth_text(1) == p.nth_text(3) ==> after_plain_program(p).diagnostics
            == p.diagnostics.push(
            second_declaration_error(
                spec_declaration_parent(p)->Some_0,
                p.nth_text(1),
                p.range_at(p.pos as int + 1),
                p.range_at(p.pos as int + 3),
            ),
        ),
        p.nth_text(1) != p.nth_text(3) ==> after_plain_program(p).diagnostics == p.diagnostics,
{
    reveal(ParserView::with_event);
    let head = after_program_head(p).with_event(Event::StartNode);
    assert(head.tokens == p.tokens);
    assert(head.pos == p.pos);
    assert(head.state == p.state);
    assert(head.diagnostics == p.diagnostics);
    law_second_declaration_is_reported(head);
    let fuel = p.remaining() as nat;
    let stated = after_plain_variable_statement(head);
    assert(stated == after_plain_statement(head));
    assert(stated.at_end());
    assert(spec_plain_statements(head, fuel)) by {
        reveal_with_fuel(spec_plain_statements, 2);
    }
    assert(after_plain_statements(head, fuel) == stated) by {
        reveal_with_fuel(after_plain_statements, 2);
    }
    assert(head.range_at(head.pos as int + 1) == p.range_at(p.pos as int + 1));
    assert(head.range_at(head.pos as int + 3) == p.range_at(p.pos as int + 3));
}

/// Parses a whole file: a script, or a module in a module or TypeScript file.
///
/// Every token is consumed, whatever the tokens are: what fits no rule is reported
/// and kept in the tree, so the leaves of the buffer are the tokens of the source,
/// each once and in order. The answer is the root node, which spans everything that
/// the parse recorded; in a buffer that was empty before, every node is closed.
///
/// A source that holds nothing has exactly one diagnostic, which says that a
/// statement was expected. A file whose first token starts no statement has a
/// diagnostic, and so has a file that starts with the declaration of an array or
/// object pattern that it never closes. A plain program is known event by event and
/// diagnostic by diagnostic.
///
/// If `use strict` stood among the directives, strict mode ends with the file: the
/// state is what it was before.
pub fn parse(p: &mut Parser) -> (root: CompletedMarker)
    requires
        old(p)@.wf(),
    ensures
        final(p)@.follows(old(p)@),
        final(p)@.state == old(p)@.state,
        final(p)@.at_end(),
        final(p)@.closed_last(root),
        root == (CompletedMarker {
            start: old(p)@.events.len() as usize,
            finish: (final(p)@.events.len() - 1) as usize,
            kind: if old(p)@.file_kind == FileKind::Script {
                SyntaxKind::JS_SCRIPT
            } else {
                SyntaxKind::JS_MODULE
            },
            token_start: old(p)@.pos as usize,
            token_end: final(p)@.tokens.len() as usize,
        }),
        closes(final(p)@.events, root.start as int, root.finish as int),
        leaf_tokens(final(p)@.events) == iota(final(p)@.tokens.len()),
        old(p)@.open().len() == 0 ==> balanced(final(p)@.events),
        spec_starts_no_statement(old(p)@, false) && old(p)@.cur_kind() != SyntaxKind::JS_SHEBANG
            ==> final(p)@.diagnostics.len() > old(p)@.diagnostics.len(),
        old(p)@.at_end() ==> final(p)@.diagnostics == old(p)@.diagnostics.push(
            empty_source_error(old(p)@),
        ),
        spec_starts_unclosed_pattern(old(p)@) ==> final(p)@.diagnostics.len() > old(
            p,
        )@.diagnostics.len(),
        spec_plain_program(old(p)@) ==> final(p)@ == after_plain_program(old(p)@),
{
    let ghost entry = p@;
    let nothing = p.at_end();
    let m = p.start();
    if nothing {
        let err = expected_statement(p, p.cur_tok().range);
        p.error(err);
    }
    p.eat_optional(SyntaxKind::JS_SHEBANG);
    proof {
        reveal(ParserView::with_event);
        reveal(ParserView::reported);
        if entry.cur_kind() != SyntaxKind::JS_SHEBANG {
            assert(p@.cur_kind() == entry.cur_kind());
            assert(spec_at_directive(p@) == spec_at_directive(entry));
            assert(spec_starts_unclosed_pattern(entry) ==> spec_starts_unclosed_pattern(p@));
        }
    }

    let old_parser_state = directives(p);
    proof {
        assert(spec_starts_unclosed_pattern(entry) ==> spec_starts_unclosed_pattern(p@));
        assert(spec_plain_program(entry) ==> p@ == after_program_head(entry));
    }

    let result = match p.syntax().file_kind {
        FileKind::Script => {
            parse_statements(p, false);
            m.complete(p, SyntaxKind::JS_SCRIPT)
        },
        FileKind::Module | FileKind::TypeScript => parse_module_body(p, m),
    };

    if let Some(old_parser_state) = old_parser_state {
        p.set_state(old_parser_state);
    }
    proof {
        lemma_closed_closes(p@, result);
    }
    result
}

/// This parser after [`named_export_specifier`]: a `SPECIFIER` node with three
/// slots, the name, the word `as`, and the name under which it is exported. Without
/// `as`, the last two are placeholders.
#[verifier::opaque]
pub open spec fn after_named_export_specifier(p: ParserView) -> ParserView {
    let named = after_identifier_name(p.with_event(Event::StartNode));
    let renamed = if named.cur_text() == "as"@ {
        after_identifier_name(named.after_bump_remap(SyntaxKind::AS_KW))
    } else {
        named.with_event(Event::Placeholder).with_event(Event::Placeholder)
    };
    renamed.with_event(Event::FinishNode { kind: SyntaxKind::SPECIFIER })
}

/// Parses one specifier of a named export: `name`, or `name as exported`.
pub fn named_export_specifier(p: &mut Parser) -> (completed: CompletedMarker)
    requires
        old(p)@.wf(),
    ensures
        final(p)@ == after_named_export_specifier(old(p)@),
        final(p)@.follows(old(p)@),
        final(p)@.state == old(p)@.state,
        final(p)@.built(old(p)@, completed),
        completed == (CompletedMarker {
            start: old(p)@.events.len() as usize,
            finish: (final(p)@.events.len() - 1) as usize,
            kind: SyntaxKind::SPECIFIER,
            token_start: old(p)@.pos as usize,
            token_end: final(p)@.pos as usize,
        }),
        spec_is_identifier_name_kind(old(p)@.cur_kind()) ==> old(p)@.pos < final(p)@.pos,
{
    proof {
        reveal(after_named_export_specifier);
    }
    let m = p.start();
    identifier_name(p);
    if str_eq(p.cur_src(), "as") {
        p.bump_remap(SyntaxKind::AS_KW);
        identifier_name(p);
    } else {
        p.missing();  // as
        p.missing();  // name
    }
    m.complete(p, SyntaxKind::SPECIFIER)
}

/// This parser after [`from_clause_and_semi`].
#[verifier::opaque]
pub open spec fn after_from_clause_and_semi(p: ParserView, start: usize) -> ParserView {
    let source = p.after_bump_remap(SyntaxKind::FROM_KW).after_expect_required(
        SyntaxKind::JS_STRING_LITERAL,
    );
    after_semi(source, TextRange { start, end: source.cur_range().start })
}

/// Parses the clause that names the source module, `from "module"`, and the end of
/// the statement, which started at offset `start`. The caller has seen the word
/// `from` at the cursor.
pub fn from_clause_and_semi(p: &mut Parser, start: usize)
    requires
        old(p)@.wf(),
        old(p)@.cur_text() == "from"@,
    ensures
        final(p)@ == after_from_clause_and_semi(old(p)@, start),
        final(p)@.follows(old(p)@),
        final(p)@.state == old(p)@.state,
        old(p)@.pos < final(p)@.pos,
        final(p)@.events.len() >= old(p)@.events.len() + 2,
{
    proof {
        reveal(after_from_clause_and_semi);
    }
    proof {
        reveal_strlit("from");
        assert("from"@.len() == 4);
        assert(!p@.at_end());
    }
    p.bump_remap(SyntaxKind::FROM_KW);
    p.expect_required(SyntaxKind::JS_STRING_LITERAL);
    semi(p, TextRange::new(start, p.cur_tok().range.start));
}

/// This parser after the name and the `=` of an import-equals declaration. A name
/// or a `=` that the source lacks is reported and leaves a placeholder in its slot.
pub open spec fn after_import_equals_head(p: ParserView) -> ParserView {
    after_identifier_name(p).after_expect_required(SyntaxKind::EQ)
}

/// Whether an external module reference stands at the cursor: the word `require`
/// with a `(` after it.
pub open spec fn spec_at_external_module_ref(p: ParserView) -> bool {
    p.cur_text() == "require"@ && p.nth_kind(1) == SyntaxKind::L_PAREN
}

/// This parser after an import-equals declaration: the name, the `=`, the module
/// reference, which is an external one with its four slots where `require` and `(`
/// follow the `=` and an entity name anywhere else, the end of the statement, and
/// the end of the node.
#[verifier::opaque]
pub open spec fn after_import_equals(p: ParserView) -> ParserView {
    let head = after_import_equals_head(p);
    let referred = if spec_at_external_module_ref(head) {
        after_ts_external_module_ref(head)
    } else {
        after_entity_name(head, None, false)
    };
    after_semi(
        referred,
        TextRange { start: p.cur_range().start, end: referred.cur_range().start },
    ).with_event(Event::FinishNode { kind: SyntaxKind::TS_IMPORT_EQUALS_DECL })
}

/// Parses an import-equals declaration after its `import`: the name, `=`, and an
/// external module reference or an entity name. Closes the node that `m` opened.
///
/// The module reference is an external one exactly where `require` and `(` follow
/// the `=`. Anywhere else it is an entity name, which is a node where a name
/// stands. The declaration is known event by event.
pub fn ts_import_equals_decl(p: &mut Parser, m: Marker) -> (completed: CompletedMarker)
    requires
        old(p)@.wf(),
        old(p)@.innermost(m.pos),
        m.token_start <= old(p)@.pos,
    ensures
        final(p)@.wf(),
        final(p)@.extends(old(p)@),
        final(p)@.open() == old(p)@.open().drop_last(),
        final(p)@.state == old(p)@.state,
        final(p)@.closed_last(completed),
        errors_after(final(p)@.events, completed.finish as int),
        completed == (CompletedMarker {
            start: m.pos,
            finish: (final(p)@.events.len() - 1) as usize,
            kind: SyntaxKind::TS_IMPORT_EQUALS_DECL,
            token_start: m.token_start,
            token_end: final(p)@.pos as usize,
        }),
        spec_is_identifier_name_kind(old(p)@.cur_kind()) ==> old(p)@.pos < final(p)@.pos,
        final(p)@.extends(after_import_equals_head(old(p)@)),
        final(p)@ == after_import_equals(old(p)@),
        !spec_at_external_module_ref(after_import_equals_head(old(p)@)) && spec_at_type_name(
            after_import_equals_head(old(p)@),
            false,
        ) ==> exists|name: CompletedMarker|
            {
                &&& #[trigger] final(p)@.built(after_import_equals_head(old(p)@), name)
                &&& name.kind == spec_entity_name_kind(after_import_equals_head(old(p)@), None)
            },
{
    proof {
        reveal(after_import_equals);
    }
    let start = p.cur_tok().range.start;
    identifier_name(p);
    p.expect_required(SyntaxKind::EQ);
    let ghost head = p@;
    let ghost entity: Option<CompletedMarker> = None;

    if str_eq(p.cur_src(), "require") && p.nth_at(1, SyntaxKind::L_PAREN) {
        ts_external_module_ref(p);
        semi(p, TextRange::new(start, p.cur_tok().range.start));
    } else {
        let name = ts_entity_name(p, None, false);
        let ghost named = p@;
        semi(p, TextRange::new(start, p.cur_tok().range.start));
        proof {
            entity = name;
            if let Some(name) = name {
                lemma_closed_extends(named, p@, name);
            }
        }
    }
    let ghost ended = p@;
    let completed = m.complete(p, SyntaxKind::TS_IMPORT_EQUALS_DECL);
    proof {
        if let Some(name) = entity {
            lemma_closed_extends(ended, p@, name);
            assert(p@.built(head, name));
        }
    }
    completed
}

/// The error for an external module reference that does not start with `require`.
#[verifier::opaque]
pub open spec fn expected_require_error(p: ParserView) -> DiagnosticView {
    DiagnosticView::error(
        "expected `require` for an external module reference, but found none"@,
    ).primary(p.cur_range(), Seq::empty())
}

/// This parser after [`ts_external_module_ref`]: a node with four slots, the word
/// `require`, `(`, the string that names the module, and `)`. A slot that the
/// source does not fill is reported and holds a placeholder.
#[verifier::opaque]
pub open spec fn after_ts_external_module_ref(p: ParserView) -> ParserView {
    let started = p.with_event(Event::StartNode);
    let required = if p.cur_text() == "require"@ {
        started.after_bump_remap(SyntaxKind::REQUIRE_KW)
    } else {
        started.reported(expected_require_error(p)).with_event(Event::Placeholder)
    };
    required.after_expect_required(SyntaxKind::L_PAREN).after_expect_required(
        SyntaxKind::JS_STRING_LITERAL,
    ).after_expect_required(SyntaxKind::R_PAREN).with_event(
        Event::FinishNode { kind: SyntaxKind::TS_EXTERNAL_MODULE_REF },
    )
}

/// The events that [`ParserView::after_expect_required`] adds: the token, or a
/// placeholder and the error.
proof fn lemma_expect_required_slot(p: ParserView, kind: SyntaxKind, base: int)
    requires
        0 <= base <= p.events.len(),
        forall|i: int| base <= i < p.events.len() ==> !(#[trigger] p.events[i]).is_bracket(),
    ensures
        ({
            let q = p.after_expect_required(kind);
            &&& q.events.len() > p.events.len()
            &&& q.events.take(p.events.len() as int) == p.events
            &&& forall|i: int| base <= i < q.events.len() ==> !(#[trigger] q.events[i]).is_bracket()
            &&& leaf_slots(q.events.subrange(base, q.events.len() as int)) == leaf_slots(
                p.events.subrange(base, p.events.len() as int),
            ) + 1
        }),
{
    reveal(ParserView::after_expect_required);
    reveal(ParserView::with_event);
    reveal(ParserView::bumped);
    reveal(ParserView::reported);
    let q = p.after_expect_required(kind);
    let before = p.events.subrange(base, p.events.len() as int);
    assert(q.events.take(p.events.len() as int) =~= p.events);
    if p.at(kind) {
        let e = Event::Token { index: p.pos as usize, kind };
        assert(q.events.subrange(base, q.events.len() as int) =~= before.push(e));
        lemma_leaf_slots_push(before, e);
    } else {
        let e = Event::Error { diagnostic: p.diagnostics.len() as usize };
        assert(q.events.subrange(base, q.events.len() as int) =~= before.push(
            Event::Placeholder,
        ).push(e));
        lemma_leaf_slots_push(before, Event::Placeholder);
        lemma_leaf_slots_push(before.push(Event::Placeholder), e);
    }
}

/// Recovery completeness of the external module reference: whatever the source
/// lacks, the node has its four child slots, each filled by a token or by a
/// placeholder, and nothing else but the diagnostics that report what is missing.
pub proof fn law_external_module_ref_has_four_slots(p: ParserView)
    ensures
        ({
            let q = after_ts_external_module_ref(p);
            let first: int = (p.events.len() + 1) as int;
            let last: int = q.events.len() - 1;
            &&& first <= last
            &&& q.events.take(p.events.len() as int) == p.events
            &&& q.events[p.events.len() as int] is StartNode
            &&& q.events[last] == (Event::FinishNode { kind: SyntaxKind::TS_EXTERNAL_MODULE_REF })
            &&& forall|i: int| first <= i < last ==> !(#[trigger] q.events[i]).is_bracket()
            &&& leaf_slots(q.events.subrange(first, last)) == 4
        }),
{
    reveal(after_ts_external_module_ref);
    reveal(ParserView::after_bump_remap);
    reveal(ParserView::with_event);
    reveal(ParserView::bumped);
    reveal(ParserView::reported);
    let first: int = (p.events.len() + 1) as int;
    let started = p.with_event(Event::StartNode);
    let required = if p.cur_text() == "require"@ {
        started.after_bump_remap(SyntaxKind::REQUIRE_KW)
    } else {
        started.reported(expected_require_error(p)).with_event(Event::Placeholder)
    };
    assert(started.events.subrange(first, first) =~= Seq::<Event>::empty());
    assert(leaf_slots(Seq::<Event>::empty()) == 0);
    if p.cur_text() == "require"@ {
        reveal_strlit("require");
        assert("require"@.len() == 7);
        assert(!started.at_end());
        let e = Event::Token { index: p.pos as usize, kind: SyntaxKind::REQUIRE_KW };
        assert(required.events.subrange(first, required.events.len() as int) =~= Seq::<
            Event,
        >::empty().push(e));
        lemma_leaf_slots_push(Seq::<Event>::empty(), e);
    } else {
        let e = Event::Error { diagnostic: p.diagnostics.len() as usize };
        assert(required.events.subrange(first, required.events.len() as int) =~= Seq::<
            Event,
        >::empty().push(e).push(Event::Placeholder));
        lemma_leaf_slots_push(Seq::<Event>::empty(), e);
        lemma_leaf_slots_push(Seq::<Event>::empty().push(e), Event::Placeholder);
    }
    assert(required.events.take(p.events.len() as int) =~= p.events);
    assert(required.events[p.events.len() as int] is StartNode);
    let opened = required.after_expect_required(SyntaxKind::L_PAREN);
    lemma_expect_required_slot(required, SyntaxKind::L_PAREN, first);
    let named = opened.after_expect_required(SyntaxKind::JS_STRING_LITERAL);
    lemma_expect_required_slot(opened, SyntaxKind::JS_STRING_LITERAL, first);
    let closed = named.after_expect_required(SyntaxKind::R_PAREN);
    lemma_expect_required_slot(named, SyntaxKind::R_PAREN, first);
    let q = after_ts_external_module_ref(p);
    assert(q.events == closed.events.push(
        Event::FinishNode { kind: SyntaxKind::TS_EXTERNAL_MODULE_REF },
    ));
    assert(q.events.subrange(first, q.events.len() - 1) =~= closed.events.subrange(
        first,
        closed.events.len() as int,
    ));
    assert forall|i: int| 0 <= i <= p.events.len() implies q.events[i] == required.events[i] by {
        assert(opened.events[i] == opened.events.take(required.events.len() as int)[i]);
        assert(named.events[i] == named.events.take(opened.events.len() as int)[i]);
        assert(closed.events[i] == closed.events.take(named.events.len() as int)[i]);
    }
    assert(q.events.take(p.events.len() as int) =~= p.events) by {
        assert forall|i: int| 0 <= i < p.events.len() implies q.events[i] == p.events[i] by {
            assert(required.events[i] == required.events.take(p.events.len() as int)[i]);
        }
    }
}

/// Parses an external module reference: `require("module")`.
pub fn ts_external_module_ref(p: &mut Parser) -> (completed: CompletedMarker)
    requires
        old(p)@.wf(),
    ensures
        final(p)@ == after_ts_external_module_ref(old(p)@),
        final(p)@.follows(old(p)@),
        final(p)@.state == old(p)@.state,
        final(p)@.built(old(p)@, completed),
        final(p)@.closed_last(completed),
        completed == (CompletedMarker {
            start: old(p)@.events.len() as usize,
            finish: (final(p)@.events.len() - 1) as usize,
            kind: SyntaxKind::TS_EXTERNAL_MODULE_REF,
            token_start: old(p)@.pos as usize,
            token_end: final(p)@.pos as usize,
        }),
{
    proof {
        reveal(after_ts_external_module_ref);
        reveal(expected_require_error);
    }
    let m = p.start();
    if !str_eq(p.cur_src(), "require") {
        let empty = "";
        proof {
            reveal_strlit("");
            assert(empty@ =~= Seq::<char>::empty());
        }
        let err = p.err_builder(
            "expected `require` for an external module reference, but found none",
        ).primary(p.cur_tok().range, empty);

        p.error(err);
        p.missing();
    } else {
        p.bump_remap(SyntaxKind::REQUIRE_KW);
    }

    p.expect_required(SyntaxKind::L_PAREN);
    p.expect_required(SyntaxKind::JS_STRING_LITERAL);
    p.expect_required(SyntaxKind::R_PAREN);
    m.complete(p, SyntaxKind::TS_EXTERNAL_MODULE_REF)
}

/// The kinds of node that an export declaration can be. It is an `ERROR` node where
/// a TypeScript form is used outside a TypeScript file.
pub open spec fn spec_is_export_kind(kind: SyntaxKind) -> bool {
    matches!(
        kind,
        SyntaxKind::EXPORT_DECL | SyntaxKind::EXPORT_WILDCARD | SyntaxKind::EXPORT_DEFAULT_DECL
            | SyntaxKind::EXPORT_DEFAULT_EXPR | SyntaxKind::TS_IMPORT_EQUALS_DECL
            | SyntaxKind::TS_EXPORT_ASSIGNMENT | SyntaxKind::TS_NAMESPACE_EXPORT_DECL
            | SyntaxKind::ERROR
    )
}

/// Consumes a `declare` that stands where none is allowed, and reports it.
fn err_if_declare(p: &mut Parser, declare: bool, message: &str)
    requires
        old(p)@.wf(),
    ensures
        final(p)@.follows(old(p)@),
        final(p)@.state == old(p)@.state,
        final(p)@.pos == if declare && !old(p)@.at_end() {
            old(p)@.pos + 1
        } else {
            old(p)@.pos
        },
        !declare ==> final(p)@ == old(p)@,
{
    if declare {
        let range = p.cur_tok().range;
        p.bump_remap(SyntaxKind::DECLARE_KW);
        let err = p.err_builder(message).primary(range, "");

        p.error(err);
    }
}

/// The error for a `from` clause that is not there.
#[verifier::opaque]
pub open spec fn missing_from_error(p: ParserView) -> DiagnosticView {
    DiagnosticView::error("expected a `from` clause, but found none"@).primary(
        p.cur_range(),
        Seq::empty(),
    )
}

/// This parser after [`missing_from_clause`]: the error, a placeholder in the slot
/// of `from` and one in the slot of the module, and the end of the statement.
#[verifier::opaque]
pub open spec fn after_missing_from_clause(p: ParserView, start: usize) -> ParserView {
    after_semi(
        p.reported(missing_from_error(p)).with_event(Event::Placeholder).with_event(
            Event::Placeholder,
        ),
        TextRange { start, end: p.cur_range().start },
    )
}

/// Reports that a `from` clause is missing, fills its two slots with placeholders,
/// and ends the statement.
fn missing_from_clause(p: &mut Parser, start: usize)
    requires
        old(p)@.wf(),
    ensures
        final(p)@ == after_missing_from_clause(old(p)@, start),
        final(p)@.follows(old(p)@),
        final(p)@.state == old(p)@.state,
        final(p)@.events.len() >= old(p)@.events.len() + 3,
        final(p)@.diagnostics.len() > old(p)@.diagnostics.len(),
{
    proof {
        reveal(missing_from_error);
        reveal(after_missing_from_clause);
    }
    let empty = "";
    proof {
        reveal_strlit("");
        assert(empty@ =~= Seq::<char>::empty());
    }
    let err = p.err_builder("expected a `from` clause, but found none").primary(
        p.cur_tok().range,
        empty,
    );
    p.error(err);
    p.missing();  // from token
    p.missing();  // module source
    semi(p, TextRange::new(start, p.cur_tok().range.start));
}

/// Where a declaration starts that `export default` exports: at `abstract class`,
/// at the word `interface`, at `class`, and where a function declaration starts.
///
/// A function after `default` is a declaration whether or not `async` stands before
/// it: the expressions of this grammar have no function expression, so it is never
/// read as the expression of a default export.
pub open spec fn spec_starts_default_declaration(p: ParserView) -> bool {
    ||| p.cur_text() == "abstract"@ && p.nth_kind(1) == SyntaxKind::CLASS_KW
    ||| p.cur_text() == "interface"@
    ||| p.cur_kind() == SyntaxKind::CLASS_KW
    ||| spec_starts_function_declaration(p)
}

/// Parses what follows `export default`, up to a declaration or an expression. The
/// answer says whether a declaration stood there and was parsed, so that the export
/// declaration is complete; if none did, nothing has happened, and what follows is
/// a `from` clause, a list of specifiers, or an expression. After the word
/// `interface` the export declaration is complete even where no interface can be
/// read.
fn export_default_clause(p: &mut Parser) -> (done: bool)
    requires
        old(p)@.wf(),
    ensures
        done == spec_starts_default_declaration(old(p)@),
        done ==> if old(p)@.cur_text() == "interface"@ && !spec_at_interface(old(p)@) {
            final(p)@ == old(p)@
        } else {
            old(p)@.pos < final(p)@.pos && old(p)@.events.len() < final(p)@.events.len()
        },
        final(p)@.follows(old(p)@),
        final(p)@.state == old(p)@.state,
        !done ==> final(p)@ == old(p)@,
    decreases old(p)@.remaining(), 32int,
{
    let ghost entry = p@;
    if str_eq(p.cur_src(), "abstract") && p.nth_at(1, SyntaxKind::CLASS_KW) {
        proof {
            reveal_strlit("abstract");
            reveal_strlit("interface");
            assert("abstract"@.len() == 8);
            assert("interface"@.len() == 9);
            assert(!p@.at_end());
        }
        let inner = p.start();
        if !p.typescript() {
            let err = p.err_builder(
                "`abstract` modifiers can only be used in TypeScript files",
            ).primary(p.cur_tok().range, "");

            p.error(err);
            let m = p.start();
            p.bump_any();
            m.complete(p, SyntaxKind::ERROR);
        } else {
            p.bump_remap(SyntaxKind::ABSTRACT_KW);
        }
        let mut state = p.state().clone();
        state.in_default = true;
        let previous = p.swap_state(state);
        let decl = parse_class_declaration(p).unwrap();
        p.set_state(previous);
        assert(p@.extends(entry));

        // The class becomes the node that holds the modifier too.
        let reopened = decl.undo_completion(p);
        assert(p@.extends(entry));
        reopened.abandon(p);
        assert(p@.extends(entry));
        inner.complete(p, SyntaxKind::JS_CLASS_DECLARATION);
        return true;
    }
    if str_eq(p.cur_src(), "interface") {
        proof {
            reveal_strlit("interface");
            reveal_strlit("abstract");
            assert("interface"@.len() == 9);
            assert("abstract"@.len() == 8);
        }
        if let Some(compl) = ts_interface(p) {
            let mut compl = compl;
            compl.err_if_not_ts(p, "interfaces can only be used in TypeScript files");
            assert(p@.extends(entry));
        }
        return true;
    }
    if p.at(SyntaxKind::CLASS_KW) {
        let mut state = p.state().clone();
        state.in_default = true;
        let previous = p.swap_state(state);
        let ghost scoped = p@;
        parse_class_declaration(p).or_invalid_to_unknown(p, SyntaxKind::JS_UNKNOWN_EXPRESSION);
        assert(p@.extends(scoped));
        p.set_state(previous);
        return true;
    }
    if p.at(SyntaxKind::FUNCTION_KW) || is_at_async_function(p, LineBreak::DoCheck) {
        let mut state = p.state().clone();
        state.in_default = true;
        let previous = p.swap_state(state);
        let ghost scoped = p@;
        parse_function_declaration(p).or_invalid_to_unknown(p, SyntaxKind::JS_UNKNOWN_STATEMENT);
        assert(p@.extends(scoped));
        p.set_state(previous);
        return true;
    }
    false
}

/// Where the list node of the specifiers starts in the buffer: after the `{`, or
/// after the placeholder and the error that stand for a `{` that is not there.
pub open spec fn spec_specifier_list_start(p: ParserView) -> int {
    p.events.len() + if p.at(SyntaxKind::L_CURLY) {
        1int
    } else {
        2int
    }
}

/// Where the list node of the specifiers ends in a buffer that ends with the
/// closing `}`, or with the placeholder and the error that stand for it.
pub open spec fn spec_specifier_list_end(events: Seq<Event>) -> int {
    events.len() - if events.last() is Token {
        2int
    } else {
        3int
    }
}

/// The error for a `,` in a list of export specifiers that no specifier stands
/// before.
pub open spec fn expected_specifier_error(p: ParserView) -> DiagnosticView {
    DiagnosticView::error("expected an export specifier"@).primary(p.cur_range(), Seq::empty())
}

/// This parser after the export specifiers and separators from the cursor on, at
/// most `fuel` of them; `first` says that no specifier has been read yet. A `,` is
/// attached, after an error and a placeholder if it is the first thing in the list;
/// a `}` after a `,` ends the list; anything else after a `,`, and every name, is
/// read as a specifier.
pub open spec fn after_specifier_items(p: ParserView, first: bool, fuel: nat) -> ParserView
    decreases fuel,
{
    if fuel == 0 || !(p.cur_kind() == SyntaxKind::COMMA || spec_is_identifier_name_kind(
        p.cur_kind(),
    )) {
        p
    } else if p.cur_kind() == SyntaxKind::COMMA {
        let reported = if first {
            p.reported(expected_specifier_error(p)).with_event(Event::Placeholder)
        } else {
            p
        };
        let separated = reported.bumped(SyntaxKind::COMMA);
        if separated.cur_kind() == SyntaxKind::R_CURLY {
            separated
        } else {
            after_specifier_items(
                after_named_export_specifier(separated),
                false,
                (fuel - 1) as nat,
            )
        }
    } else {
        after_specifier_items(after_named_export_specifier(p), false, (fuel - 1) as nat)
    }
}

/// This parser after the braces of a named export and the specifiers in them: the
/// `{`, the list node with the specifiers and their separators, and the `}`.
pub open spec fn after_export_specifiers(p: ParserView) -> ParserView {
    after_specifier_items(
        p.after_expect_required(SyntaxKind::L_CURLY).with_event(Event::StartNode),
        true,
        p.remaining() as nat,
    ).with_event(
        Event::FinishNode { kind: SyntaxKind::EXPORT_NAMED_SPECIFIER_LIST },
    ).after_expect_required(SyntaxKind::R_CURLY)
}

/// Parses the specifiers of a named export: `{`, the specifiers separated by
/// commas, `}`. A `,` with no specifier before it is reported.
///
/// What the rule adds to the buffer is the `{`, one node of kind
/// `EXPORT_NAMED_SPECIFIER_LIST` that holds the specifiers and their separators,
/// and the `}`; a brace that is not there is a placeholder and an error. Where the
/// `}` is not there, the rule has stopped at a token that is no separator and
/// starts no specifier.
fn export_specifiers(p: &mut Parser)
    requires
        old(p)@.wf(),
    ensures
        final(p)@.follows(old(p)@),
        final(p)@.state == old(p)@.state,
        spec_specifier_list_start(old(p)@) < spec_specifier_list_end(final(p)@.events),
        closes(
            final(p)@.events,
            spec_specifier_list_start(old(p)@),
            spec_specifier_list_end(final(p)@.events),
        ),
        final(p)@.events[spec_specifier_list_end(final(p)@.events)] == (Event::FinishNode {
            kind: SyntaxKind::EXPORT_NAMED_SPECIFIER_LIST,
        }),
        final(p)@.events.last() == if final(p)@.events.last() is Token {
            Event::Token { index: (final(p)@.pos - 1) as usize, kind: SyntaxKind::R_CURLY }
        } else {
            Event::Error { diagnostic: (final(p)@.diagnostics.len() - 1) as usize }
        },
        !(final(p)@.events.last() is Token) ==> final(p)@.cur_kind() != SyntaxKind::COMMA
            && !spec_is_identifier_name_kind(final(p)@.cur_kind()),
        final(p)@.events.len() >= old(p)@.events.len() + 4,
        old(p)@.at(SyntaxKind::L_CURLY) ==> old(p)@.pos < final(p)@.pos,
        !old(p)@.at(SyntaxKind::L_CURLY) ==> final(p)@.diagnostics.len() > old(
            p,
        )@.diagnostics.len(),
        final(p)@ == after_export_specifiers(old(p)@),
{
    let ghost entry = p@;
    p.expect_required(SyntaxKind::L_CURLY);

    let mut first = true;
    let specifiers = p.start();
    let ghost inside = p@;
    let ghost fuel = entry.remaining() as nat;
    let ghost target = after_specifier_items(inside, true, fuel);
    let mut progress = ParserProgress::default();
    let empty = "";
    proof {
        reveal_strlit("");
        assert(empty@ =~= Seq::<char>::empty());
    }

    while (!p.at(SyntaxKind::EOF) && p.at(SyntaxKind::COMMA)) || at_identifier_name(p)
        invariant_except_break
            progress.last matches Some(before) ==> before < p@.pos,
            after_specifier_items(p@, first, fuel) == target,
        invariant
            p@.follows(inside),
            p@.state == entry.state,
            fuel >= p@.remaining(),
            empty@ == Seq::<char>::empty(),
        ensures
            p@.cur_kind() == SyntaxKind::R_CURLY || (p@.cur_kind() != SyntaxKind::COMMA
                && !spec_is_identifier_name_kind(p@.cur_kind())),
            p@ == target,
        decreases p@.remaining(),
    {
        progress.assert_progressing(p);
        let ghost round = p@;
        proof {
            assert(fuel > 0);
            fuel = (fuel - 1) as nat;
        }

        if p.at(SyntaxKind::COMMA) {
            if first {
                // A separator with no specifier before it.
                let err = p.err_builder("expected an export specifier").primary(
                    p.cur_tok().range,
                    empty,
                );
                p.error(err);
                p.missing();
            }
            p.bump(SyntaxKind::COMMA);
            if p.at(SyntaxKind::R_CURLY) {
                break ;
            }
        }
        first = false;
        named_export_specifier(p);
        assert(round.pos < p@.pos);
    }
    let list = specifiers.complete(p, SyntaxKind::EXPORT_NAMED_SPECIFIER_LIST);
    let ghost listed = p@;
    p.expect_required(SyntaxKind::R_CURLY);
    proof {
        reveal(ParserView::after_expect_required);
        reveal(ParserView::with_event);
        reveal(ParserView::bumped);
        reveal(ParserView::reported);
        lemma_closed_extends(listed, p@, list);
        lemma_closed_closes(p@, list);
    }
}

/// The kind of the node that [`export_named_clause`] builds: a wildcard export where
/// a namespace is exported `from` a module, and where a `*` stands with nothing that
/// can follow it; a named export in every other case. A keyword at the cursor is
/// read as the name of a default export, unless one has been seen.
pub open spec fn spec_named_clause_kind(
    p: ParserView,
    has_star: bool,
    exports_ns: bool,
    export_default: bool,
) -> SyntaxKind {
    let keyword = !export_default && p.cur_kind().spec_is_keyword();
    let text = if keyword {
        p.nth_text(1)
    } else {
        p.cur_text()
    };
    if p.cur_text() == "from"@ && exports_ns {
        SyntaxKind::EXPORT_WILDCARD
    } else if text == "from"@ && (export_default || keyword) {
        SyntaxKind::EXPORT_NAMED
    } else if has_star && !exports_ns {
        SyntaxKind::EXPORT_WILDCARD
    } else {
        SyntaxKind::EXPORT_NAMED
    }
}

/// This parser after the clause of a named export: one node that holds, after the
/// name that a keyword at the cursor is read as, the `from` clause of a namespace or
/// of a default export, the placeholders of a `*` that nothing follows, or the
/// braces with the specifiers and what follows them.
pub open spec fn after_export_named_clause(
    p: ParserView,
    start: usize,
    has_star: bool,
    exports_ns: bool,
    export_default: bool,
) -> ParserView {
    let keyword = !export_default && p.cur_kind().spec_is_keyword();
    let named = p.with_event(Event::StartNode);
    let kind = spec_named_clause_kind(p, has_star, exports_ns, export_default);
    if p.cur_text() == "from"@ && exports_ns {
        after_from_clause_and_semi(named, start).with_event(Event::FinishNode { kind })
    } else {
        let read = if keyword {
            after_identifier_name(named)
        } else {
            named
        };
        if read.cur_text() == "from"@ && (export_default || keyword) {
            after_from_clause_and_semi(read, start).with_event(Event::FinishNode { kind })
        } else if has_star && !exports_ns {
            after_missing_from_clause(read, start).with_event(Event::FinishNode { kind })
        } else {
            after_export_named_specifiers(
                read,
                start,
                exports_ns || export_default || keyword,
            ).with_event(Event::FinishNode { kind })
        }
    }
}

/// Closes the node that `m` opened with kind `kind`, as the last event of the buffer.
fn close_clause(p: &mut Parser, m: Marker, kind: SyntaxKind)
    requires
        old(p)@.wf(),
        old(p)@.innermost(m.pos),
        m.token_start <= old(p)@.pos,
    ensures
        final(p)@ == old(p)@.with_event(Event::FinishNode { kind }),
        final(p)@.wf(),
        final(p)@.extends(old(p)@),
        final(p)@.open() == old(p)@.open().drop_last(),
        final(p)@.same_place(old(p)@),
        final(p)@.events.len() == old(p)@.events.len() + 1,
        final(p)@.diagnostics == old(p)@.diagnostics,
        final(p)@.events.last() == (Event::FinishNode { kind }),
        closes(final(p)@.events, m.pos as int, final(p)@.events.len() - 1),
{
    let completed = m.complete(p, kind);
    proof {
        lemma_closed_closes(p@, completed);
    }
}

/// Parses the specifiers of a named export and what follows them, as one node: the
/// list in braces, and the `from` clause or the end of the statement.
///
/// What the rule adds to the buffer is that one node, from its first event to its
/// last, and the kind of the node is [`spec_named_clause_kind`].
#[verifier::rlimit(30)]
fn export_named_clause(
    p: &mut Parser,
    start: usize,
    has_star: bool,
    exports_ns: bool,
    export_default: bool,
)
    requires
        old(p)@.wf(),
    ensures
        final(p)@.follows(old(p)@),
        final(p)@.state == old(p)@.state,
        closes(final(p)@.events, old(p)@.events.len() as int, final(p)@.events.len() - 1),
        final(p)@.events.last() == (Event::FinishNode {
            kind: spec_named_clause_kind(old(p)@, has_star, exports_ns, export_default),
        }),
        final(p)@ == after_export_named_clause(
            old(p)@,
            start,
            has_star,
            exports_ns,
            export_default,
        ),
{
    let keyword = !export_default && p.cur().is_keyword();
    let named = p.start();
    proof {
        reveal(ParserView::with_event);
    }

    if str_eq(p.cur_src(), "from") && exports_ns {
        from_clause_and_semi(p, start);
        close_clause(p, named, SyntaxKind::EXPORT_WILDCARD);
        return ;
    }
    if keyword {
        identifier_name(p);
    }
    let export_default = export_default || keyword;
    if str_eq(p.cur_src(), "from") && export_default {
        from_clause_and_semi(p, start);
        close_clause(p, named, SyntaxKind::EXPORT_NAMED);
        return ;
    }
    if has_star && !exports_ns {
        // `export *` with nothing that can follow it.
        missing_from_clause(p, start);
        close_clause(p, named, SyntaxKind::EXPORT_WILDCARD);
        return ;
    }
    export_named_specifiers(p, start, exports_ns || export_default);
    close_clause(p, named, SyntaxKind::EXPORT_NAMED);
}

/// Where the list node of the specifiers starts in the buffer, in a named export
/// that has a `,` before its braces if `after_export` is set: after the `,` and the
/// `{`, each of which is one event if it is there and two if it is not.
pub open spec fn spec_named_specifiers_start(p: ParserView, after_export: bool) -> int {
    if !after_export {
        spec_specifier_list_start(p)
    } else if p.at(SyntaxKind::COMMA) {
        1 + spec_specifier_list_start(p.skipped(1))
    } else {
        2 + spec_specifier_list_start(p)
    }
}

/// The error for a default export or a namespace export with specifiers and no
/// `from` clause.
pub open spec fn from_required_error(range: TextRange) -> DiagnosticView {
    DiagnosticView::error(
        "`export default` and `export as` declarations must have a `from` clause"@,
    ).primary(range, Seq::empty())
}

/// This parser after the braces of a named export and what follows them: after a
/// default export or a namespace the `,`; the braces with the specifiers; and the
/// `from` clause with the end of the statement, or two placeholders and the end of
/// the statement, and then the error if the `from` clause had to be there.
pub open spec fn after_export_named_specifiers(
    p: ParserView,
    start: usize,
    after_export: bool,
) -> ParserView {
    let separated = if after_export {
        p.after_expect_required(SyntaxKind::COMMA)
    } else {
        p
    };
    let listed = after_export_specifiers(separated);
    if listed.cur_text() == "from"@ {
        after_from_clause_and_semi(listed, start)
    } else {
        let ended = after_semi(
            listed.with_event(Event::Placeholder).with_event(Event::Placeholder),
            TextRange { start, end: listed.cur_range().start },
        );
        if after_export {
            ended.reported(from_required_error(TextRange { start, end: ended.cur_range().start }))
        } else {
            ended
        }
    }
}

/// Parses the braces of a named export with the specifiers in them and what
/// follows: the `from` clause, or two placeholders in its place and the end of the
/// statement. After a default export or a namespace, a `,` stands before the
/// braces, and the `from` clause must be there; if it is not, that is reported.
///
/// The specifiers are one node of kind `EXPORT_NAMED_SPECIFIER_LIST`, which starts
/// at [`spec_named_specifiers_start`].
fn export_named_specifiers(p: &mut Parser, start: usize, after_export: bool)
    requires
        old(p)@.wf(),
    ensures
        final(p)@.follows(old(p)@),
        final(p)@.state == old(p)@.state,
        final(p)@.events.len() >= old(p)@.events.len() + 6,
        exists|f: int|
            closes(final(p)@.events, spec_named_specifiers_start(old(p)@, after_export), f)
                && #[trigger] final(p)@.events[f] == (Event::FinishNode {
                kind: SyntaxKind::EXPORT_NAMED_SPECIFIER_LIST,
            }),
        after_export && !old(p)@.at(SyntaxKind::COMMA) ==> final(p)@.diagnostics.len() > old(
            p,
        )@.diagnostics.len(),
        final(p)@ == after_export_named_specifiers(old(p)@, start, after_export),
{
    let empty = "";
    proof {
        reveal_strlit("");
        assert(empty@ =~= Seq::<char>::empty());
        reveal(ParserView::with_event);
    }
    if after_export {
        p.expect_required(SyntaxKind::COMMA);
    }
    let ghost before = p@;
    export_specifiers(p);
    let ghost listed = p@;
    let ghost s = spec_specifier_list_start(before);
    let ghost f = spec_specifier_list_end(listed.events);
    assert(s == spec_named_specifiers_start(old(p)@, after_export));

    if str_eq(p.cur_src(), "from") {
        proof {
            reveal_strlit("from");
            assert("from"@.len() == 4);
        }
        from_clause_and_semi(p, start);
    } else {
        p.missing();  // from token
        p.missing();  // module source
        semi(p, TextRange::new(start, p.cur_tok().range.start));
        if after_export {
            let err = p.err_builder(
                "`export default` and `export as` declarations must have a `from` clause",
            ).primary(TextRange::new(start, p.cur_tok().range.start), empty);

            p.error(err);
        }
    }
    proof {
        lemma_closes_extends(listed.events, p@.events, s, f);
        assert(p@.events[f] == listed.events[f]);
    }
}

/// Where a declaration starts that an export declaration can export: at `class`,
/// where a function declaration starts, at `const enum`, at `var` and `const`, and at
/// a `let` that starts a declaration. After the modifier `type` none does.
pub open spec fn spec_exports_declaration(p: ParserView, only_ty: bool) -> bool {
    &&& !only_ty
    &&& {
        ||| p.cur_kind() == SyntaxKind::CLASS_KW
        ||| spec_starts_function_declaration(p)
        ||| p.cur_kind() == SyntaxKind::VAR_KW
        ||| p.cur_kind() == SyntaxKind::CONST_KW
        ||| p.cur_kind() == SyntaxKind::IDENT && p.cur_text() == "let"@ && spec_follows_let(
            p.nth_kind(1),
        )
    }
}

/// Whether a plain variable statement stands at the cursor that an export
/// declaration exports as it is: one that the word `enum` does not follow, and no
/// class or function.
pub open spec fn spec_is_plain_exported_variable(p: ParserView) -> bool {
    &&& spec_plain_variable_statement(p)
    &&& p.nth_text(1) != "enum"@
    &&& !spec_starts_function_declaration(p)
}

/// What a plain variable statement declares first starts a binding.
proof fn lemma_plain_variable_follows_let(p: ParserView)
    requires
        spec_plain_variable_statement(p),
    ensures
        spec_follows_let(p.nth_kind(1)),
        p.cur_kind() != SyntaxKind::CLASS_KW,
{
    reveal(spec_is_plain_declaration);
    reveal(ParserView::with_event);
    reveal(ParserView::bumped);
    reveal(ParserView::with_state);
    let inside = after_declaration_keyword(p);
    assert(spec_is_plain_declaration(inside));
    assert(inside.with_event(Event::StartNode).cur_kind() == p.nth_kind(1));
}

/// Parses what an export declaration exports: a class, a function, an enum or a
/// variable statement, or else named specifiers. What follows `declare` is declared
/// in an ambient context, which ends with the declaration.
///
/// Where a declaration starts, the rule consumes it and adds its node to the
/// buffer. Where none starts, what the rule adds is the one node of the named
/// clause, from its first event to its last, of the kind that
/// [`spec_named_clause_kind`] names.
fn export_declaration(
    p: &mut Parser,
    start: usize,
    declare: bool,
    only_ty: bool,
    has_star: bool,
    exports_ns: bool,
    export_default: bool,
)
    requires
        old(p)@.wf(),
    ensures
        final(p)@.follows(old(p)@),
        final(p)@.state == old(p)@.state,
        spec_exports_declaration(old(p)@, only_ty) ==> old(p)@.pos < final(p)@.pos
            && final(p)@.events.len() >= old(p)@.events.len() + 2,
        !spec_exports_declaration(old(p)@, only_ty) ==> closes(
            final(p)@.events,
            old(p)@.events.len() as int,
            final(p)@.events.len() - 1,
        ) && final(p)@.events.last() == (Event::FinishNode {
            kind: spec_named_clause_kind(old(p)@, has_star, exports_ns, export_default),
        }) && final(p)@ == after_export_named_clause(
            old(p)@,
            start,
            has_star,
            exports_ns,
            export_default,
        ),
        !declare && !only_ty && spec_is_plain_exported_variable(old(p)@) ==> final(p)@
            == after_plain_variable_statement(old(p)@),
    decreases old(p)@.remaining(), 33int,
{
    proof {
        reveal(ParserView::with_state);
        if spec_is_plain_exported_variable(old(p)@) {
            lemma_plain_variable_follows_let(old(p)@);
        }
    }
    let outer = p.state().clone();
    if declare {
        let mut ambient = p.state().clone();
        ambient.enter_ambient();
        p.set_state(ambient);
    }
    let ghost scoped = p@;
    if !only_ty && p.at(SyntaxKind::CLASS_KW) {
        parse_class_declaration(p).or_invalid_to_unknown(p, SyntaxKind::JS_UNKNOWN_EXPRESSION);
        assert(p@.extends(scoped));
        p.set_state(outer);
    } else if !only_ty && (p.at(SyntaxKind::FUNCTION_KW) || is_at_async_function(
        p,
        LineBreak::DoCheck,
    )) {
        parse_function_declaration(p).or_invalid_to_unknown(p, SyntaxKind::JS_UNKNOWN_STATEMENT);
        assert(p@.extends(scoped));
        p.set_state(outer);
    } else if !only_ty && p.at(SyntaxKind::CONST_KW) && str_eq(p.nth_src(1), "enum") {
        ts_enum(p).err_if_not_ts(p, "enums can only be used in TypeScript files");
        assert(p@.extends(scoped));
        p.set_state(outer);
    } else if !only_ty && (p.at(SyntaxKind::VAR_KW) || p.at(SyntaxKind::CONST_KW) || (p.at(
        SyntaxKind::IDENT,
    ) && str_eq(p.cur_src(), "let") && follows_let(p.nth(1)))) {
        variable_declaration_statement(p).unwrap();
        p.set_state(outer);
    } else {
        p.set_state(outer);
        export_named_clause(p, start, has_star, exports_ns, export_default);
    }
}

/// How many tokens the modifier `declare` takes: one if the caller has seen it, and
/// a token stands at the cursor.
pub open spec fn spec_declare_len(p: ParserView, declare: bool) -> int {
    if declare && !p.at_end() {
        1
    } else {
        0
    }
}

/// Whether the modifier `type` stands after the modifier `declare`, if that is
/// there: the word `type`, in a TypeScript file.
pub open spec fn spec_export_only_type(p: ParserView, declare: bool) -> bool {
    p.file_kind == FileKind::TypeScript && p.nth_text(spec_declare_len(p, declare)) == "type"@
}

/// The error for a `declare` outside a TypeScript file.
#[verifier::opaque]
pub open spec fn declare_outside_typescript_error(p: ParserView) -> DiagnosticView {
    DiagnosticView::error("declare modifiers can only be used in TypeScript files"@).primary(
        p.cur_range(),
        Seq::empty(),
    )
}

/// This parser after the modifier `declare`: in a TypeScript file the word is
/// attached as the keyword; in any other file it is reported and wrapped in an
/// `ERROR` node.
#[verifier::opaque]
pub open spec fn after_declare_modifier(p: ParserView, declare: bool) -> ParserView {
    if !declare {
        p
    } else if p.file_kind == FileKind::TypeScript {
        p.after_bump_remap(SyntaxKind::DECLARE_KW)
    } else {
        let reported = p.with_event(Event::StartNode).reported(
            declare_outside_typescript_error(p),
        );
        let wrapped = if p.at_end() {
            reported
        } else {
            reported.bumped(p.cur_kind())
        };
        wrapped.with_event(Event::FinishNode { kind: SyntaxKind::ERROR })
    }
}

/// This parser after [`export_modifiers`]: after the modifier `declare`, the word
/// `type` is attached as the keyword, or a placeholder stands in its slot.
#[verifier::opaque]
pub open spec fn after_export_modifiers(p: ParserView, declare: bool) -> ParserView {
    let declared = after_declare_modifier(p, declare);
    if spec_export_only_type(p, declare) {
        declared.after_bump_remap(SyntaxKind::TYPE_KW)
    } else {
        declared.with_event(Event::Placeholder)
    }
}

/// Parses the modifiers of an export declaration: `declare`, which the caller has
/// seen if `declare` is set, and `type`, whose slot holds a placeholder if it is not
/// there. The answer says whether `type` was there.
fn export_modifiers(p: &mut Parser, declare: bool) -> (only_ty: bool)
    requires
        old(p)@.wf(),
    ensures
        only_ty == spec_export_only_type(old(p)@, declare),
        final(p)@ == after_export_modifiers(old(p)@, declare),
        final(p)@.pos == old(p)@.pos + spec_declare_len(old(p)@, declare) + if only_ty {
            1int
        } else {
            0int
        },
        final(p)@.follows(old(p)@),
        final(p)@.state == old(p)@.state,
{
    proof {
        reveal(declare_outside_typescript_error);
        reveal(after_declare_modifier);
        reveal(after_export_modifiers);
        reveal(ParserView::after_bump_remap);
        reveal_strlit("type");
        assert("type"@.len() == 4);
    }
    let empty = "";
    proof {
        reveal_strlit("");
        assert(empty@ =~= Seq::<char>::empty());
    }
    if declare {
        if !p.typescript() {
            let m = p.start();
            let err = p.err_builder(
                "declare modifiers can only be used in TypeScript files",
            ).primary(p.cur_tok().range, empty);

            p.error(err);
            p.bump_any();
            m.complete(p, SyntaxKind::ERROR);
        } else {
            p.bump_remap(SyntaxKind::DECLARE_KW);
        }
    }
    let only_ty = if p.typescript() && str_eq(p.cur_src(), "type") {
        p.bump_remap(SyntaxKind::TYPE_KW);
        true
    } else {
        p.missing();
        false
    };
    only_ty
}

/// The kind of an export declaration that is none of the forms that only TypeScript
/// has. After the modifiers: `* from` is a wildcard export; `default` and a
/// declaration a default declaration; `default` and anything but a `from` clause or
/// a list of specifiers a default expression; everything else an export
/// declaration.
pub open spec fn spec_export_clause_kind(p: ParserView, declare: bool) -> SyntaxKind {
    let only_ty = spec_export_only_type(p, declare);
    let q = p.skipped(
        (spec_declare_len(p, declare) + if only_ty {
            1int
        } else {
            0int
        }) as nat,
    );
    if q.at(SyntaxKind::STAR) && q.nth_text(1) == "from"@ {
        SyntaxKind::EXPORT_WILDCARD
    } else {
        let exports_ns = q.at(SyntaxKind::STAR) && q.nth_text(1) == "as"@;
        let r = if !q.at(SyntaxKind::STAR) {
            q
        } else if !exports_ns {
            q.skipped(1)
        } else if spec_is_identifier_name_kind(q.nth_kind(2)) {
            q.skipped(3)
        } else {
            q.skipped(2)
        };
        if !only_ty && !exports_ns && r.at(SyntaxKind::DEFAULT_KW) {
            let d = r.skipped(1);
            if spec_starts_default_declaration(d) {
                SyntaxKind::EXPORT_DEFAULT_DECL
            } else if d.cur_text() == "from"@ || (d.at(SyntaxKind::COMMA) && d.nth_kind(1)
                == SyntaxKind::L_CURLY) {
                SyntaxKind::EXPORT_DECL
            } else {
                SyntaxKind::EXPORT_DEFAULT_EXPR
            }
        } else {
            SyntaxKind::EXPORT_DECL
        }
    }
}

/// This parser after a wildcard export, from its modifiers on: the modifiers, the
/// `*`, the `from` clause with the end of the statement, and the end of the node.
#[verifier::opaque]
pub open spec fn after_export_wildcard(p: ParserView, start: usize, declare: bool) -> ParserView {
    after_from_clause_and_semi(
        after_export_modifiers(p, declare).after_eat(SyntaxKind::STAR),
        start,
    ).with_event(Event::FinishNode { kind: SyntaxKind::EXPORT_WILDCARD })
}

/// Parses an export declaration after `export` and the TypeScript forms: the
/// modifiers, and then a declaration, a default export, a wildcard, or named
/// specifiers. Closes the node that `m` opened.
#[verifier::rlimit(50)]
fn export_clause(p: &mut Parser, m: Marker, start: usize, declare: bool) -> (completed:
    CompletedMarker)
    requires
        old(p)@.wf(),
        old(p)@.innermost(m.pos),
        m.token_start <= old(p)@.pos,
    ensures
        final(p)@.wf(),
        final(p)@.extends(old(p)@),
        final(p)@.open() == old(p)@.open().drop_last(),
        final(p)@.state == old(p)@.state,
        final(p)@.closed_last(completed),
        errors_after(final(p)@.events, completed.finish as int),
        completed.start == m.pos,
        completed.finish + 1 == final(p)@.events.len(),
        completed.token_start == m.token_start,
        completed.token_end == final(p)@.pos,
        spec_is_export_kind(completed.kind),
        completed.kind == spec_export_clause_kind(old(p)@, declare),
        spec_export_clause_kind(old(p)@, declare) == SyntaxKind::EXPORT_WILDCARD ==> final(p)@
            == after_export_wildcard(old(p)@, start, declare),
        spec_exports_named(old(p)@, start, declare) ==> final(p)@ == after_export_named(
            old(p)@,
            start,
            declare,
        ),
        spec_exports_default_atom(old(p)@, start, declare) ==> final(p)@
            == after_export_default_atom(old(p)@, start, declare),
        !declare && spec_exports_plain_variable(old(p)@) ==> final(p)@
            == after_export_plain_variable(old(p)@),
    decreases old(p)@.remaining(), 34int,
{
    proof {
        reveal(after_export_wildcard);
        reveal(ParserView::after_eat);
    }
    let only_ty = export_modifiers(p, declare);
    let (has_star, exports_ns, wildcard) = export_star(p, start);
    if wildcard {
        return m.complete(p, SyntaxKind::EXPORT_WILDCARD);
    }
    let (done, export_default) = export_default_part(p, start, only_ty, exports_ns);
    if let Some(kind) = done {
        return m.complete(p, kind);
    }
    export_declaration(p, start, declare, only_ty, has_star, exports_ns, export_default);
    m.complete(p, SyntaxKind::EXPORT_DECL)
}

/// Whether a wildcard export starts at the cursor: `*` and the word `from`.
pub open spec fn spec_star_is_wildcard(p: ParserView) -> bool {
    p.at(SyntaxKind::STAR) && p.nth_text(1) == "from"@
}

/// Whether the export of a namespace starts at the cursor: `*` and the word `as`.
pub open spec fn spec_star_exports_namespace(p: ParserView) -> bool {
    p.at(SyntaxKind::STAR) && p.nth_text(1) != "from"@ && p.nth_text(1) == "as"@
}

/// This parser after the `*` of an export and what belongs to it: the `from`
/// clause with the end of the statement, or the word `as` and the name of the
/// namespace. Without a `*` nothing happens.
pub open spec fn after_export_star(p: ParserView, start: usize) -> ParserView {
    let starred = p.after_eat(SyntaxKind::STAR);
    if spec_star_is_wildcard(p) {
        after_from_clause_and_semi(starred, start)
    } else if spec_star_exports_namespace(p) {
        after_identifier_name(starred.after_bump_remap(SyntaxKind::AS_KW))
    } else {
        starred
    }
}

/// Parses the `*` of an export, if it is there, and what belongs to it. The answer
/// says whether the `*` was there, whether it exports a namespace, and whether it
/// was a wildcard export, which is then complete but for the end of its node.
fn export_star(p: &mut Parser, start: usize) -> (r: (bool, bool, bool))
    requires
        old(p)@.wf(),
    ensures
        r.0 == old(p)@.at(SyntaxKind::STAR),
        r.1 == spec_star_exports_namespace(old(p)@),
        r.2 == spec_star_is_wildcard(old(p)@),
        final(p)@ == after_export_star(old(p)@, start),
        final(p)@.follows(old(p)@),
        final(p)@.state == old(p)@.state,
        !r.2 ==> final(p)@.pos == old(p)@.pos + if !r.0 {
            0int
        } else if !r.1 {
            1int
        } else if spec_is_identifier_name_kind(old(p)@.nth_kind(2)) {
            3int
        } else {
            2int
        },
{
    proof {
        reveal(ParserView::after_eat);
        reveal(ParserView::after_bump_remap);
        reveal(ParserView::bumped);
        reveal_strlit("as");
        assert("as"@.len() == 2);
        reveal_strlit("from");
        assert("from"@.len() == 4);
    }
    if !p.eat(SyntaxKind::STAR) {
        return (false, false, false);
    }
    if str_eq(p.cur_src(), "from") {
        from_clause_and_semi(p, start);
        return (true, false, true);
    }
    if str_eq(p.cur_src(), "as") {
        p.bump_remap(SyntaxKind::AS_KW);
        identifier_name(p);
        return (true, true, false);
    }
    (true, false, false)
}

/// What a `default` at the cursor exports, where the export has no modifier `type`
/// and exports no namespace: a declaration; or, unless a `from` clause or a list of
/// specifiers follows, an expression. The answer is the kind of the export
/// declaration, and `None` where no `default` stands or specifiers follow it.
pub open spec fn spec_default_export(p: ParserView, only_ty: bool, exports_ns: bool) -> Option<
    SyntaxKind,
> {
    let after = p.skipped(1);
    if only_ty || exports_ns || !p.at(SyntaxKind::DEFAULT_KW) {
        None
    } else if spec_starts_default_declaration(after) {
        Some(SyntaxKind::EXPORT_DEFAULT_DECL)
    } else if after.cur_text() == "from"@ || (after.cur_kind() == SyntaxKind::COMMA
        && after.nth_kind(1) == SyntaxKind::L_CURLY) {
        None
    } else {
        Some(SyntaxKind::EXPORT_DEFAULT_EXPR)
    }
}

/// Whether a `default` at the cursor is read, where the export has no modifier
/// `type` and exports no namespace.
pub open spec fn spec_takes_default(p: ParserView, only_ty: bool, exports_ns: bool) -> bool {
    !only_ty && !exports_ns && p.at(SyntaxKind::DEFAULT_KW)
}

/// This parser after a `default` and the expression of one token that it exports,
/// with the end of the statement.
pub open spec fn after_default_atom(p: ParserView, start: usize) -> ParserView {
    let valued = after_wrapped_atom(p.bumped(SyntaxKind::DEFAULT_KW), 4);
    after_semi(valued, TextRange { start, end: valued.cur_range().start })
}

/// Parses the `default` of an export, if it is read here, and the declaration or the
/// expression that it exports. The answer is the kind of the export declaration if
/// it is complete but for the end of its node, and whether a `default` was read
/// that specifiers or a `from` clause follow.
fn export_default_part(p: &mut Parser, start: usize, only_ty: bool, exports_ns: bool) -> (r: (
    Option<SyntaxKind>,
    bool,
))
    requires
        old(p)@.wf(),
    ensures
        r.0 == spec_default_export(old(p)@, only_ty, exports_ns),
        r.1 == (spec_takes_default(old(p)@, only_ty, exports_ns) && r.0 is None),
        r.0 is None ==> final(p)@ == if r.1 {
            old(p)@.bumped(SyntaxKind::DEFAULT_KW)
        } else {
            old(p)@
        },
        final(p)@.pos >= old(p)@.pos + if spec_takes_default(old(p)@, only_ty, exports_ns) {
            1int
        } else {
            0int
        },
        r.0 is None ==> final(p)@.pos == old(p)@.pos + if r.1 {
            1int
        } else {
            0int
        },
        r.0 == Some(SyntaxKind::EXPORT_DEFAULT_EXPR) && spec_is_atom(old(p)@.skipped(1), 4)
            ==> final(p)@ == after_default_atom(old(p)@, start),
        final(p)@.follows(old(p)@),
        final(p)@.state == old(p)@.state,
    decreases old(p)@.remaining(), 33int,
{
    proof {
        reveal(ParserView::after_eat);
        reveal(ParserView::bumped);
    }
    if only_ty || exports_ns || !p.eat(SyntaxKind::DEFAULT_KW) {
        return (None, false);
    }
    proof {
        assert(p@.cur_kind() == old(p)@.skipped(1).cur_kind());
        assert(p@.cur_text() == old(p)@.skipped(1).cur_text());
        assert(p@.nth_kind(1) == old(p)@.skipped(1).nth_kind(1));
        assert(p@.state == old(p)@.skipped(1).state);
    }
    if export_default_clause(p) {
        return (Some(SyntaxKind::EXPORT_DEFAULT_DECL), false);
    }
    if str_eq(p.cur_src(), "from") || (p.at(SyntaxKind::COMMA) && p.nth_at(
        1,
        SyntaxKind::L_CURLY,
    )) {
        return (None, true);
    }
    expr_or_assignment(p);
    semi(p, TextRange::new(start, p.cur_tok().range.start));
    (Some(SyntaxKind::EXPORT_DEFAULT_EXPR), false)
}

/// Whether what follows the modifiers of an export is the default export of an
/// expression of one token.
pub open spec fn spec_exports_default_atom(p: ParserView, start: usize, declare: bool) -> bool {
    let modified = after_export_modifiers(p, declare);
    let starred = after_export_star(modified, start);
    &&& !spec_star_is_wildcard(modified)
    &&& spec_default_export(
        starred,
        spec_export_only_type(p, declare),
        spec_star_exports_namespace(modified),
    ) == Some(SyntaxKind::EXPORT_DEFAULT_EXPR)
    &&& spec_is_atom(starred.skipped(1), 4)
}

/// This parser after the default export of an expression of one token, from its
/// modifiers on: the modifiers, the `default`, the expression, the end of the
/// statement, and the end of the node.
pub open spec fn after_export_default_atom(p: ParserView, start: usize, declare: bool)
    -> ParserView {
    after_default_atom(
        after_export_star(after_export_modifiers(p, declare), start),
        start,
    ).with_event(Event::FinishNode { kind: SyntaxKind::EXPORT_DEFAULT_EXPR })
}

/// Whether what follows `export`, where no modifier stands, is a plain variable
/// statement.
pub open spec fn spec_exports_plain_variable(p: ParserView) -> bool {
    let modified = after_export_modifiers(p, false);
    &&& !spec_export_only_type(p, false)
    &&& !modified.at(SyntaxKind::STAR)
    &&& !modified.at(SyntaxKind::DEFAULT_KW)
    &&& spec_is_plain_exported_variable(modified)
}

/// This parser after the export of a plain variable statement, from the modifiers
/// on: the placeholder in the slot of the modifier, the statement, and the end of
/// the node.
pub open spec fn after_export_plain_variable(p: ParserView) -> ParserView {
    after_plain_variable_statement(after_export_modifiers(p, false)).with_event(
        Event::FinishNode { kind: SyntaxKind::EXPORT_DECL },
    )
}

/// This parser where the clause of a named export begins: after the modifiers, a
/// `*` with the name of its namespace, and a `default`.
pub open spec fn before_export_named(p: ParserView, start: usize, declare: bool) -> ParserView {
    let modified = after_export_modifiers(p, declare);
    let starred = after_export_star(modified, start);
    if spec_takes_default(
        starred,
        spec_export_only_type(p, declare),
        spec_star_exports_namespace(modified),
    ) {
        starred.bumped(SyntaxKind::DEFAULT_KW)
    } else {
        starred
    }
}

/// Whether what follows the modifiers of an export is a named export: no wildcard
/// export, no default export of a declaration or an expression, and no
/// declaration.
pub open spec fn spec_exports_named(p: ParserView, start: usize, declare: bool) -> bool {
    let modified = after_export_modifiers(p, declare);
    let only_ty = spec_export_only_type(p, declare);
    &&& !spec_star_is_wildcard(modified)
    &&& spec_default_export(
        after_export_star(modified, start),
        only_ty,
        spec_star_exports_namespace(modified),
    ) is None
    &&& !spec_exports_declaration(before_export_named(p, start, declare), only_ty)
}

/// This parser after a named export, from its modifiers on: the modifiers, a `*`
/// with the name of its namespace, a `default`, the clause of the named export, and
/// the end of the node.
pub open spec fn after_export_named(p: ParserView, start: usize, declare: bool) -> ParserView {
    let modified = after_export_modifiers(p, declare);
    let starred = after_export_star(modified, start);
    let only_ty = spec_export_only_type(p, declare);
    let exports_ns = spec_star_exports_namespace(modified);
    after_export_named_clause(
        before_export_named(p, start, declare),
        start,
        modified.at(SyntaxKind::STAR),
        exports_ns,
        spec_takes_default(starred, only_ty, exports_ns),
    ).with_event(Event::FinishNode { kind: SyntaxKind::EXPORT_DECL })
}

/// This parser after a form that only TypeScript has was closed as the last node of
/// the buffer, with the kind `kind` and the tokens from `token_start` on: in a
/// TypeScript file nothing changes; in any other the node becomes an `ERROR` node
/// and is reported.
pub open spec fn after_typescript_only(p: ParserView, kind: SyntaxKind, token_start: int)
    -> ParserView {
    if p.file_kind == FileKind::TypeScript {
        p
    } else {
        p.with_event_at(
            p.events.len() - 1,
            Event::FinishNode { kind: SyntaxKind::ERROR },
        ).reported(typescript_only_error(kind, p.span_range(token_start, p.pos as int)))
    }
}

/// This parser after an export assignment without `declare` whose value is an
/// expression of one token: the `=`, the value, the end of the statement, and the
/// end of the node, which started at token `token_start`.
pub open spec fn after_export_assignment(p: ParserView, start: usize, token_start: int)
    -> ParserView {
    let valued = after_wrapped_atom(p.bumped(SyntaxKind::EQ), 5);
    after_typescript_only(
        after_semi(valued, TextRange { start, end: valued.cur_range().start }).with_event(
            Event::FinishNode { kind: SyntaxKind::TS_EXPORT_ASSIGNMENT },
        ),
        SyntaxKind::TS_EXPORT_ASSIGNMENT,
        token_start,
    )
}

/// Parses an export assignment, `export = value`, after `export`. Closes the node
/// that `m` opened.
fn export_assignment(p: &mut Parser, m: Marker, start: usize, declare: bool) -> (completed:
    CompletedMarker)
    requires
        old(p)@.wf(),
        old(p)@.innermost(m.pos),
        m.token_start <= old(p)@.pos,
        old(p)@.nth_kind(
            if declare {
                1int
            } else {
                0int
            },
        ) == SyntaxKind::EQ,
    ensures
        final(p)@.wf(),
        final(p)@.extends(old(p)@),
        final(p)@.open() == old(p)@.open().drop_last(),
        final(p)@.state == old(p)@.state,
        final(p)@.closed_last(completed),
        errors_after(final(p)@.events, completed.finish as int),
        completed.start == m.pos,
        completed.token_start == m.token_start,
        completed.token_end == final(p)@.pos,
        completed.kind == spec_export_form_kind(old(p)@, declare),
        final(p)@.events.len() == completed.finish + if old(p)@.file_kind
            != FileKind::TypeScript {
            2int
        } else {
            1int
        },
        old(p)@.file_kind != FileKind::TypeScript ==> final(p)@.events.last() is Error
            && final(p)@.diagnostics.len() > 0 && final(p)@.diagnostics.last()
            == typescript_only_error(
            SyntaxKind::TS_EXPORT_ASSIGNMENT,
            final(p)@.span_range(completed.token_start as int, completed.token_end as int),
        ),
        !declare && spec_is_atom(old(p)@.skipped(1), 5) ==> final(p)@ == after_export_assignment(
            old(p)@,
            start,
            m.token_start as int,
        ),
{
    let ghost entry = p@;
    err_if_declare(p, declare, "`declare` modifiers cannot be applied to export equals declarations");
    proof {
        reveal(ParserView::bumped);
    }
    p.bump_any();
    proof {
        if !declare {
            assert(p@.cur_kind() == entry.skipped(1).cur_kind());
            assert(p@.nth_kind(1) == entry.skipped(1).nth_kind(1));
            assert(p@.state == entry.skipped(1).state);
        }
    }
    expr(p);
    semi(p, TextRange::new(start, p.cur_tok().range.start));
    let mut complete = m.complete(p, SyntaxKind::TS_EXPORT_ASSIGNMENT);
    complete.err_if_not_ts(p, "export equals declarations can only be used in TypeScript files");
    assert(p@.extends(entry));
    complete
}

/// This parser after an exported import-equals declaration without `declare`: the
/// word `import`, the declaration, and the end of the node, which started at token
/// `token_start`.
pub open spec fn after_export_import_equals(p: ParserView, token_start: int) -> ParserView {
    after_typescript_only(
        after_import_equals(p.bumped(SyntaxKind::IMPORT_KW)),
        SyntaxKind::TS_IMPORT_EQUALS_DECL,
        token_start,
    )
}

/// Parses an exported import-equals declaration, `export import a = b`, after
/// `export`. Closes the node that `m` opened.
fn export_import_equals(p: &mut Parser, m: Marker, declare: bool) -> (completed: CompletedMarker)
    requires
        old(p)@.wf(),
        old(p)@.innermost(m.pos),
        m.token_start <= old(p)@.pos,
        old(p)@.nth_kind(
            if declare {
                1int
            } else {
                0int
            },
        ) == SyntaxKind::IMPORT_KW,
    ensures
        final(p)@.wf(),
        final(p)@.extends(old(p)@),
        final(p)@.open() == old(p)@.open().drop_last(),
        final(p)@.state == old(p)@.state,
        final(p)@.closed_last(completed),
        errors_after(final(p)@.events, completed.finish as int),
        completed.start == m.pos,
        completed.token_start == m.token_start,
        completed.token_end == final(p)@.pos,
        completed.kind == spec_export_form_kind(old(p)@, declare),
        final(p)@.events.len() == completed.finish + if old(p)@.file_kind
            != FileKind::TypeScript {
            2int
        } else {
            1int
        },
        old(p)@.file_kind != FileKind::TypeScript ==> final(p)@.events.last() is Error
            && final(p)@.diagnostics.len() > 0 && final(p)@.diagnostics.last()
            == typescript_only_error(
            SyntaxKind::TS_IMPORT_EQUALS_DECL,
            final(p)@.span_range(completed.token_start as int, completed.token_end as int),
        ),
        !declare ==> final(p)@ == after_export_import_equals(old(p)@, m.token_start as int),
{
    let ghost entry = p@;
    err_if_declare(p, declare, "`declare` modifiers cannot be applied to import declarations");
    proof {
        reveal(ParserView::bumped);
    }
    p.bump_any();
    let mut complete = ts_import_equals_decl(p, m);
    complete.err_if_not_ts(p, "import equals declarations can only be used in TypeScript files");
    assert(p@.extends(entry));
    complete
}

/// The error for an `export as` that the word `namespace` does not follow.
pub open spec fn expected_namespace_error(p: ParserView) -> DiagnosticView {
    DiagnosticView::error("expected `namespace`, but found none"@).primary(
        p.cur_range(),
        Seq::empty(),
    )
}

/// This parser after an `export as namespace` declaration without `declare`: the
/// word `as`, the word `namespace` or an error and a placeholder in its place, the
/// name, the end of the statement, and the end of the node, which started at token
/// `token_start`.
pub open spec fn after_export_as_namespace(p: ParserView, start: usize, token_start: int)
    -> ParserView {
    let read = p.after_bump_remap(SyntaxKind::AS_KW);
    let spaced = if read.cur_text() == "namespace"@ {
        read.after_bump_remap(SyntaxKind::NAMESPACE_KW)
    } else {
        read.reported(expected_namespace_error(read)).with_event(Event::Placeholder)
    };
    let named = after_identifier_name(spaced);
    after_typescript_only(
        after_semi(named, TextRange { start, end: named.cur_range().start }).with_event(
            Event::FinishNode { kind: SyntaxKind::TS_NAMESPACE_EXPORT_DECL },
        ),
        SyntaxKind::TS_NAMESPACE_EXPORT_DECL,
        token_start,
    )
}

/// Parses an `export as namespace` declaration after `export`. Closes the node that
/// `m` opened.
fn export_as_namespace(p: &mut Parser, m: Marker, start: usize, declare: bool) -> (completed:
    CompletedMarker)
    requires
        old(p)@.wf(),
        old(p)@.innermost(m.pos),
        m.token_start <= old(p)@.pos,
        spec_is_typescript_form(old(p)@, declare),
        spec_typescript_form_kind(old(p)@, declare) == SyntaxKind::TS_NAMESPACE_EXPORT_DECL,
    ensures
        final(p)@.wf(),
        final(p)@.extends(old(p)@),
        final(p)@.open() == old(p)@.open().drop_last(),
        final(p)@.state == old(p)@.state,
        final(p)@.closed_last(completed),
        errors_after(final(p)@.events, completed.finish as int),
        completed.start == m.pos,
        completed.token_start == m.token_start,
        completed.token_end == final(p)@.pos,
        completed.kind == spec_export_form_kind(old(p)@, declare),
        final(p)@.events.len() == completed.finish + if old(p)@.file_kind
            != FileKind::TypeScript {
            2int
        } else {
            1int
        },
        old(p)@.file_kind != FileKind::TypeScript ==> final(p)@.events.last() is Error
            && final(p)@.diagnostics.len() > 0 && final(p)@.diagnostics.last()
            == typescript_only_error(
            SyntaxKind::TS_NAMESPACE_EXPORT_DECL,
            final(p)@.span_range(completed.token_start as int, completed.token_end as int),
        ),
        !declare ==> final(p)@ == after_export_as_namespace(
            old(p)@,
            start,
            m.token_start as int,
        ),
{
    let ghost entry = p@;
    let empty = "";
    proof {
        reveal_strlit("");
        assert(empty@ =~= Seq::<char>::empty());
    }
    err_if_declare(
        p,
        declare,
        "`declare` modifiers cannot be applied to export as namespace declarations",
    );
    p.bump_remap(SyntaxKind::AS_KW);
    if !str_eq(p.cur_src(), "namespace") {
        let err = p.err_builder("expected `namespace`, but found none").primary(
            p.cur_tok().range,
            empty,
        );

        p.error(err);
        p.missing();
    } else {
        p.bump_remap(SyntaxKind::NAMESPACE_KW);
    }
    identifier_name(p);
    semi(p, TextRange::new(start, p.cur_tok().range.start));
    let mut complete = m.complete(p, SyntaxKind::TS_NAMESPACE_EXPORT_DECL);
    complete.err_if_not_ts(
        p,
        "export as namespace declarations can only be used in TypeScript files",
    );
    assert(p@.extends(entry));
    complete
}

/// Whether one of the forms of export that only TypeScript has stands after the
/// modifier `declare`, if the caller has seen one: `import`, `=`, or the word `as`.
pub open spec fn spec_is_typescript_form(p: ParserView, declare: bool) -> bool {
    let offset = if declare {
        1int
    } else {
        0int
    };
    ||| p.nth_kind(offset) == SyntaxKind::IMPORT_KW
    ||| p.nth_kind(offset) == SyntaxKind::EQ
    ||| p.nth_text(offset) == "as"@
}

/// The kind of the form of export that only TypeScript has and that stands after
/// the modifier `declare`, if the caller has seen one.
pub open spec fn spec_typescript_form_kind(p: ParserView, declare: bool) -> SyntaxKind {
    let offset = if declare {
        1int
    } else {
        0int
    };
    if p.nth_kind(offset) == SyntaxKind::IMPORT_KW {
        SyntaxKind::TS_IMPORT_EQUALS_DECL
    } else if p.nth_kind(offset) == SyntaxKind::EQ {
        SyntaxKind::TS_EXPORT_ASSIGNMENT
    } else {
        SyntaxKind::TS_NAMESPACE_EXPORT_DECL
    }
}

/// The error for a form of export that only TypeScript has, of kind `kind`, at
/// `range` in a file that is no TypeScript file.
pub open spec fn typescript_only_error(kind: SyntaxKind, range: TextRange) -> DiagnosticView {
    DiagnosticView::error(
        if kind == SyntaxKind::TS_IMPORT_EQUALS_DECL {
            "import equals declarations can only be used in TypeScript files"@
        } else if kind == SyntaxKind::TS_EXPORT_ASSIGNMENT {
            "export equals declarations can only be used in TypeScript files"@
        } else {
            "export as namespace declarations can only be used in TypeScript files"@
        },
    ).primary(range, Seq::empty())
}

/// The kind of an export declaration after `export`: a form that only TypeScript
/// has is that form in a TypeScript file and an `ERROR` node in any other; every
/// other form has the kind that [`spec_export_clause_kind`] names.
pub open spec fn spec_export_form_kind(p: ParserView, declare: bool) -> SyntaxKind {
    if !spec_is_typescript_form(p, declare) {
        spec_export_clause_kind(p, declare)
    } else if p.file_kind == FileKind::TypeScript {
        spec_typescript_form_kind(p, declare)
    } else {
        SyntaxKind::ERROR
    }
}

/// Parses the forms of export that only TypeScript has, `export import a = b`,
/// `export = a` and `export as namespace a`, and hands every other form on. A
/// `declare` before one of the three is reported. Closes the node that `m` opened.
#[verifier::rlimit(30)]
fn export_ts_form(p: &mut Parser, m: Marker, start: usize, declare: bool) -> (completed:
    CompletedMarker)
    requires
        old(p)@.wf(),
        old(p)@.innermost(m.pos),
        m.token_start <= old(p)@.pos,
    ensures
        final(p)@.wf(),
        final(p)@.extends(old(p)@),
        final(p)@.open() == old(p)@.open().drop_last(),
        final(p)@.state == old(p)@.state,
        final(p)@.closed_last(completed),
        errors_after(final(p)@.events, completed.finish as int),
        completed.start == m.pos,
        completed.token_start == m.token_start,
        completed.token_end == final(p)@.pos,
        spec_is_export_kind(completed.kind),
        completed.kind == spec_export_form_kind(old(p)@, declare),
        final(p)@.events.len() == completed.finish + if spec_is_typescript_form(
            old(p)@,
            declare,
        ) && old(p)@.file_kind != FileKind::TypeScript {
            2int
        } else {
            1int
        },
        spec_is_typescript_form(old(p)@, declare) && old(p)@.file_kind != FileKind::TypeScript
            ==> final(p)@.events.last() is Error && final(p)@.diagnostics.len() > 0
            && final(p)@.diagnostics.last() == typescript_only_error(
            spec_typescript_form_kind(old(p)@, declare),
            final(p)@.span_range(completed.token_start as int, completed.token_end as int),
        ),
        spec_export_form_kind(old(p)@, declare) == SyntaxKind::EXPORT_WILDCARD ==> final(p)@
            == after_export_wildcard(old(p)@, start, declare),
        !spec_is_typescript_form(old(p)@, declare) && spec_exports_named(old(p)@, start, declare)
            ==> final(p)@ == after_export_named(old(p)@, start, declare),
        !spec_is_typescript_form(old(p)@, declare) && spec_exports_default_atom(
            old(p)@,
            start,
            declare,
        ) ==> final(p)@ == after_export_default_atom(old(p)@, start, declare),
        !declare && !spec_is_typescript_form(old(p)@, declare) && spec_exports_plain_variable(
            old(p)@,
        ) ==> final(p)@ == after_export_plain_variable(old(p)@),
        !declare && old(p)@.cur_kind() == SyntaxKind::IMPORT_KW ==> final(p)@
            == after_export_import_equals(old(p)@, m.token_start as int),
        !declare && old(p)@.cur_kind() == SyntaxKind::EQ && spec_is_atom(old(p)@.skipped(1), 5)
            ==> final(p)@ == after_export_assignment(old(p)@, start, m.token_start as int),
        !declare && spec_is_typescript_form(old(p)@, declare) && spec_typescript_form_kind(
            old(p)@,
            declare,
        ) == SyntaxKind::TS_NAMESPACE_EXPORT_DECL ==> final(p)@ == after_export_as_namespace(
            old(p)@,
            start,
            m.token_start as int,
        ),
    decreases old(p)@.remaining(), 35int,
{
    let ghost entry = p@;
    let offset: usize = if declare {
        1
    } else {
        0
    };
    let ahead = p.nth(offset);
    if ahead == SyntaxKind::IMPORT_KW {
        return export_import_equals(p, m, declare);
    } else if ahead == SyntaxKind::EQ {
        return export_assignment(p, m, start, declare);
    } else if str_eq(p.nth_src(offset), "as") {
        return export_as_namespace(p, m, start, declare);
    }
    export_clause(p, m, start, declare)
}

/// This parser after the node of an export declaration was opened and the word
/// `export` read, or reported as missing.
pub open spec fn after_export_keyword(p: ParserView) -> ParserView {
    p.with_event(Event::StartNode).after_expect_required(SyntaxKind::EXPORT_KW)
}

/// Whether the modifier `declare` stands after `export`, in a TypeScript file.
pub open spec fn spec_export_declares(p: ParserView) -> bool {
    p.file_kind == FileKind::TypeScript && after_export_keyword(p).cur_text() == "declare"@
}

/// Whether what follows `export` is read as a declaration of TypeScript: an ambient
/// declaration after `declare`, or an enum, an interface or a type alias.
pub open spec fn spec_exports_typescript_declaration(p: ParserView) -> bool {
    let q = after_export_keyword(p);
    let offset = if spec_export_declares(p) {
        1int
    } else {
        0int
    };
    ||| spec_export_declares(p) && spec_at_ambient_declaration(q)
    ||| p.file_kind == FileKind::TypeScript && spec_is_identifier_name_kind(q.nth_kind(offset))
        && spec_at_ts_decl(q)
}

/// Whether what follows `export` is one of the forms that only TypeScript has.
pub open spec fn spec_exports_typescript_form(p: ParserView) -> bool {
    !spec_exports_typescript_declaration(p) && spec_is_typescript_form(
        after_export_keyword(p),
        spec_export_declares(p),
    )
}

/// Whether an export declaration is a named export: what follows `export` is no
/// declaration of TypeScript and none of the forms that only TypeScript has, and
/// after the modifiers stands a named export.
pub open spec fn spec_is_named_export(p: ParserView) -> bool {
    &&& !spec_exports_typescript_declaration(p)
    &&& !spec_exports_typescript_form(p)
    &&& spec_exports_named(
        after_export_keyword(p),
        p.cur_range().start,
        spec_export_declares(p),
    )
}

/// The kind of an export declaration: an export declaration where a declaration of
/// TypeScript follows `export`, and otherwise the kind that
/// [`spec_export_form_kind`] names for what follows `export`.
pub open spec fn spec_export_kind(p: ParserView) -> SyntaxKind {
    if spec_exports_typescript_declaration(p) {
        SyntaxKind::EXPORT_DECL
    } else {
        spec_export_form_kind(after_export_keyword(p), spec_export_declares(p))
    }
}

/// Parses an export declaration. The node is in the tree in every case: it is the
/// one node that the rule adds, it is the node closed last, and its kind is the
/// kind of the form that was found, which [`spec_export_kind`] names. A form that
/// only TypeScript has is reported outside a TypeScript file and becomes an `ERROR`
/// node, with the error as the last event of the buffer.
///
/// After `default`, a class, an `abstract class`, an interface and a function, with
/// `async` before it or without, are read as declarations, and need no name there;
/// the expressions of this grammar have no function expression. Anything else
/// after `default`, but for a `from` clause and a list of specifiers, is read as an
/// expression.
///
/// A wildcard export, a named export, an `export as namespace`, an exported
/// import-equals declaration, the export of a plain variable statement, and the
/// export of an expression of one token, by `default` or by `=`, are known event by
/// event and diagnostic by diagnostic.
#[verifier::rlimit(60)]
pub fn export_decl(p: &mut Parser) -> (completed: CompletedMarker)
    requires
        old(p)@.wf(),
    ensures
        final(p)@.follows(old(p)@),
        final(p)@.state == old(p)@.state,
        final(p)@.built(old(p)@, completed),
        final(p)@.closed_last(completed),
        final(p)@.one_node(old(p)@, completed),
        completed.start == old(p)@.events.len(),
        completed.token_start == old(p)@.pos,
        completed.token_end == final(p)@.pos,
        spec_is_export_kind(completed.kind),
        completed.kind == spec_export_kind(old(p)@),
        final(p)@.events.len() == completed.finish + if spec_exports_typescript_form(old(p)@)
            && old(p)@.file_kind != FileKind::TypeScript {
            2int
        } else {
            1int
        },
        spec_exports_typescript_form(old(p)@) && old(p)@.file_kind != FileKind::TypeScript
            ==> final(p)@.events.last() is Error && final(p)@.diagnostics.len() > 0
            && final(p)@.diagnostics.last() == typescript_only_error(
            spec_typescript_form_kind(after_export_keyword(old(p)@), false),
            final(p)@.span_range(completed.token_start as int, completed.token_end as int),
        ),
        spec_export_kind(old(p)@) == SyntaxKind::EXPORT_WILDCARD ==> final(p)@
            == after_export_wildcard(
            after_export_keyword(old(p)@),
            old(p)@.cur_range().start,
            spec_export_declares(old(p)@),
        ),
        spec_exports_typescript_form(old(p)@) && !spec_export_declares(old(p)@) ==> {
            let q = after_export_keyword(old(p)@);
            let start = old(p)@.cur_range().start;
            &&& q.cur_kind() == SyntaxKind::IMPORT_KW ==> final(p)@
                == after_export_import_equals(q, old(p)@.pos as int)
            &&& q.cur_kind() == SyntaxKind::EQ && spec_is_atom(q.skipped(1), 5) ==> final(p)@
                == after_export_assignment(q, start, old(p)@.pos as int)
            &&& spec_typescript_form_kind(q, false) == SyntaxKind::TS_NAMESPACE_EXPORT_DECL
                ==> final(p)@ == after_export_as_namespace(q, start, old(p)@.pos as int)
        },
        !spec_exports_typescript_declaration(old(p)@) && !spec_exports_typescript_form(old(p)@)
            && spec_exports_default_atom(
            after_export_keyword(old(p)@),
            old(p)@.cur_range().start,
            spec_export_declares(old(p)@),
        ) ==> final(p)@ == after_export_default_atom(
            after_export_keyword(old(p)@),
            old(p)@.cur_range().start,
            spec_export_declares(old(p)@),
        ),
        !spec_exports_typescript_declaration(old(p)@) && !spec_exports_typescript_form(old(p)@)
            && !spec_export_declares(old(p)@) && spec_exports_plain_variable(
            after_export_keyword(old(p)@),
        ) ==> final(p)@ == after_export_plain_variable(after_export_keyword(old(p)@)),
        spec_is_named_export(old(p)@) ==> final(p)@ == after_export_named(
            after_export_keyword(old(p)@),
            old(p)@.cur_range().start,
            spec_export_declares(old(p)@),
        ),
        old(p)@.at(SyntaxKind::EXPORT_KW) ==> old(p)@.pos < final(p)@.pos,
    decreases old(p)@.remaining(), 36int,
{
    proof {
        reveal(ParserView::after_expect_required);
        reveal(ParserView::with_event);
        reveal(ParserView::bumped);
        reveal(ParserView::reported);
    }
    let ghost entry = p@;
    let start = p.cur_tok().range.start;
    let m = p.start();
    p.expect_required(SyntaxKind::EXPORT_KW);

    let declare = p.typescript() && str_eq(p.cur_src(), "declare");

    if declare {
        if let Some(res) = try_parse_ts(p, ts_declare) {
            let mut res = res;
            res.err_if_not_ts(
                p,
                "TypeScript declarations can only be used in TypeScript files",
            );
            assert(p@.extends(entry));
            return m.complete(p, SyntaxKind::EXPORT_DECL);
        }
    }
    let offset: usize = if declare {
        1
    } else {
        0
    };

    if p.typescript() && nth_at_identifier_name(p, offset) {
        if let Some(res) = try_parse_ts(p, ts_decl) {
            let mut res = res;
            res.err_if_not_ts(
                p,
                "TypeScript declarations can only be used in TypeScript files",
            );
            assert(p@.extends(entry));
            return m.complete(p, SyntaxKind::EXPORT_DECL);
        }
    }
    export_ts_form(p, m, start, declare)
}

} // verus!
