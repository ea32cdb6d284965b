//! Module bodies and import declarations.

use vstd::prelude::*;
use crate::event::Event;
use crate::parser::{CompletedMarker, Marker, Parser, ParserProgress, ParserView};
use crate::syntax::expr::{at_identifier_name, identifier_name};
use crate::syntax::js_parse_error::expected_statement;
use crate::syntax::program::{from_clause_and_semi, ts_import_equals_decl};
use crate::syntax::stmt::{
    after_plain_statements, parse_statement, semi, spec_plain_statements,
    spec_starts_no_statement, spec_starts_unclosed_pattern,
};
use crate::syntax_kind::SyntaxKind;
use crate::token::{str_eq, TextRange};

verus! {

/// Parses an import declaration: `import "module"`, `import name from "module"`,
/// or the TypeScript form `import name = ...`, which is reported outside a
/// TypeScript file.
pub fn parse_import(p: &mut Parser) -> (m: CompletedMarker)
    requires
        old(p)@.wf(),
        old(p)@.cur_kind() == SyntaxKind::IMPORT_KW,
    ensures
        final(p)@.follows(old(p)@),
        final(p)@.state == old(p)@.state,
        final(p)@.built(old(p)@, m),
        old(p)@.pos < final(p)@.pos,
{
    let start = p.cur_tok().range.start;
    let m = p.start();
    p.bump(SyntaxKind::IMPORT_KW);
    if p.at(SyntaxKind::JS_STRING_LITERAL) {
        p.bump_any();
        semi(p, TextRange::new(start, p.cur_tok().range.start));
        return m.complete(p, SyntaxKind::JS_IMPORT);
    }
    if at_identifier_name(p) && p.nth_at(1, SyntaxKind::EQ) {
        let mut completed = ts_import_equals_decl(p, m);
        completed.err_if_not_ts(
            p,
            "import equals declarations can only be used in TypeScript files",
        );
        return completed;
    }
    identifier_name(p);
    if p.at(SyntaxKind::IDENT) && str_eq(p.cur_src(), "from") {
        proof {
            reveal_strlit("from");
        }
        from_clause_and_semi(p, start);
    } else {
        let err = p.err_builder("expected a `from` clause").primary(
            p.cur_tok().range,
            "an import names the module it takes from",
        );
        p.error(err);
        p.missing();
        p.missing();
        semi(p, TextRange::new(start, p.cur_tok().range.start));
    }
    m.complete(p, SyntaxKind::JS_IMPORT)
}

/// Parses the items of a module up to the end of the tokens and closes the module
/// node that `m` opened. A token that starts no item is reported and wrapped in an
/// unknown statement; if the first token is such a token, the parse has a diagnostic
/// more than before.
pub fn parse_module_body(p: &mut Parser, m: Marker) -> (completed: CompletedMarker)
    requires
        old(p)@.wf(),
        old(p)@.innermost(m.pos),
        m.token_start <= old(p)@.pos,
    ensures
        final(p)@.wf(),
        final(p)@.extends(old(p)@),
        final(p)@.open() == old(p)@.open().drop_last(),
        final(p)@.state == old(p)@.state,
        final(p)@.at_end(),
        final(p)@.closed_last(completed),
        completed == (CompletedMarker {
            start: m.pos,
            finish: (final(p)@.events.len() - 1) as usize,
            kind: SyntaxKind::JS_MODULE,
            token_start: m.token_start,
            token_end: final(p)@.pos as usize,
        }),
        spec_starts_no_statement(old(p)@, false) ==> final(p)@.diagnostics.len() > old(
            p,
        )@.diagnostics.len(),
        spec_starts_unclosed_pattern(old(p)@) ==> final(p)@.diagnostics.len() > old(
            p,
        )@.diagnostics.len(),
        old(p)@.at_end() ==> final(p)@.diagnostics == old(p)@.diagnostics,
        spec_plain_statements(
            old(p)@.with_event(Event::StartNode),
            old(p)@.remaining() as nat,
        ) ==> final(p)@ == after_plain_statements(
            old(p)@.with_event(Event::StartNode),
            old(p)@.remaining() as nat,
        ).with_event(Event::FinishNode { kind: SyntaxKind::JS_MODULE_ITEM_LIST }).with_event(
            Event::FinishNode { kind: SyntaxKind::JS_MODULE },
        ),
{
    let ghost entry = p@;
    let list = p.start();
    let ghost inside = p@;
    let ghost fuel = entry.remaining() as nat;
    let ghost plain = spec_plain_statements(inside, fuel);
    let ghost target = after_plain_statements(inside, fuel);
    proof {
        reveal(ParserView::with_event);
        assert(spec_starts_unclosed_pattern(entry) ==> spec_starts_unclosed_pattern(inside));
    }
    let mut progress = ParserProgress::default();
    while !p.at_end()
        invariant
            p@.follows(inside),
            p@.state == entry.state,
            progress.last matches Some(before) ==> before < p@.pos,
            inside.pos == entry.pos,
            inside.tokens == entry.tokens,
            inside.diagnostics == entry.diagnostics,
            spec_starts_no_statement(entry, false) ==> p@.pos == inside.pos
                || p@.diagnostics.len() > entry.diagnostics.len(),
            spec_starts_unclosed_pattern(entry) ==> p@ == inside || p@.diagnostics.len()
                > entry.diagnostics.len(),
            entry.at_end() ==> p@ == inside,
            plain ==> spec_plain_statements(p@, fuel) && after_plain_statements(p@, fuel)
                == target,
        decreases p@.remaining(),
    {
        progress.assert_progressing(p);
        proof {
            fuel = (fuel - 1) as nat;
        }
        if parse_statement(p).is_absent() {
            let unknown = p.start();
            let err = expected_statement(p, p.cur_tok().range);
            p.error(err);
            p.bump_any();
            unknown.complete(p, SyntaxKind::JS_UNKNOWN_STATEMENT);
        }
    }
    list.complete(p, SyntaxKind::JS_MODULE_ITEM_LIST);
    m.complete(p, SyntaxKind::JS_MODULE)
}

} // verus!
