//! Bindings: the identifiers and patterns that a declaration binds.

use vstd::prelude::*;
use crate::diagnostic::{DiagnosticBuilder, DiagnosticView};
use crate::feature::JsSyntaxFeature;
use crate::parsed_syntax::{CompletedNodeOrMissingMarker, ConditionalSyntax, ParsedSyntax};
use crate::event::{lemma_no_slots, lemma_slots_kept, slots_between, Event};
use crate::parser::{
    errors_after, lemma_closed_closes, lemma_closed_extends, lemma_node_is_slot,
    lemma_slot_grows, CompletedMarker, Parser, ParserProgress, ParserView,
};
use crate::recovery::ParseRecovery;
use crate::state::ParserStateView;
use crate::syntax::class::{
    after_atom_initializer, parse_initializer_clause, spec_is_atom_initializer,
};
use crate::syntax::expr::{
    after_wrapped_atom, identifier_error, identifier_marker, is_at_identifier, parse_expr_or_assignment,
    parse_identifier, spec_is_atom, spec_is_identifier_kind, with_identifier,
};
use crate::syntax::js_parse_error::{
    expected_any, expected_binding, expected_expression_assignment, expected_identifier,
    expected_object_member_name, spec_expected_any, spec_expected_node, ToDiagnostic,
};
use crate::syntax::object::{
    after_literal_member_name, is_at_object_member_name, parse_object_member_name,
    spec_starts_object_member_name,
};
use crate::syntax_kind::SyntaxKind;
use crate::token::{str_eq, TextRange};

verus! {

/// Whether the current token can be bound as an identifier.
pub fn is_at_identifier_binding(p: &Parser) -> (b: bool)
    ensures
        b == spec_is_identifier_kind(p@.cur_kind()),
{
    is_at_identifier(p)
}

/// The names that strict mode does not let a declaration bind.
pub open spec fn spec_is_eval_or_arguments(name: Seq<char>) -> bool {
    name == "eval"@ || name == "arguments"@
}

/// Why `name`, a well-formed identifier at `range`, cannot be bound in the context
/// `state`:
/// in strict mode, because it is `eval` or `arguments`;
/// in a declaration that checks its bindings, because it is `let`, or because the
/// declaration has bound the name before. The last error points at the first
/// declaration with a secondary label.
#[verifier::opaque]
pub open spec fn binding_error(state: ParserStateView, name: Seq<char>, range: TextRange)
    -> Option<DiagnosticView> {
    if state.strict && spec_is_eval_or_arguments(name) {
        Some(
            DiagnosticView::error(
                "Illegal use of `"@ + name + "` as an identifier in strict mode"@,
            ).primary(range, Seq::empty()),
        )
    } else {
        match state.duplicate_binding_parent {
            Some(parent) => {
                if name == "let"@ {
                    Some(
                        DiagnosticView::error(
                            "`let` cannot be declared as a variable name inside of a `"@
                                + parent.spec_label() + "` declaration"@,
                        ).primary(range, "Rename the let identifier here"@),
                    )
                } else if state.name_map.contains_key(name) {
                    Some(
                        DiagnosticView::error(
                            "Declarations inside of a `"@ + parent.spec_label()
                                + "` declaration may not have duplicates"@,
                        ).secondary(
                            state.name_map[name],
                            "`"@ + name + "` is first declared here"@,
                        ).primary(range, "a second declaration of `"@ + name + "` is not allowed"@),
                    )
                } else {
                    None
                }
            },
            None => None,
        }
    }
}

/// Whether the current token, an identifier, can be bound where `p` stands.
pub open spec fn identifier_binding_is_valid(p: ParserView) -> bool {
    identifier_error(p) is None && binding_error(p.state, p.cur_text(), p.cur_range()) is None
}

/// What binding the current token, an identifier, leaves of `p`.
///
/// The token becomes a node in every case. If it is not a well-formed identifier
/// here, that is all. If it cannot be bound, the reason is reported. Otherwise, in a
/// declaration that checks its bindings, the name is recorded with its range.
#[verifier::opaque]
pub open spec fn with_identifier_binding(p: ParserView) -> ParserView {
    let named = with_identifier(p, SyntaxKind::JS_IDENTIFIER_BINDING);
    if identifier_error(p) is Some {
        named
    } else {
        match binding_error(p.state, p.cur_text(), p.cur_range()) {
            Some(d) => named.reported(d),
            None => if p.state.duplicate_binding_parent is Some {
                named.with_state(
                    ParserStateView {
                        name_map: p.state.name_map.insert(p.cur_text(), p.cur_range()),
                        ..p.state
                    },
                )
            } else {
                named
            },
        }
    }
}

fn no_label() -> (s: &'static str)
    ensures
        s@ == Seq::<char>::empty(),
{
    let s = "";
    proof {
        reveal_strlit("");
        assert(s@ =~= Seq::<char>::empty());
    }
    s
}

/// Builds the error that says why `name` cannot be bound where `p` stands, if it
/// cannot.
fn build_binding_error(p: &Parser, name: &str, range: TextRange) -> (e: Option<DiagnosticBuilder>)
    ensures
        match (e, binding_error(p@.state, name@, range)) {
            (Some(b), Some(d)) => b@ == d,
            (None, None) => true,
            _ => false,
        },
{
    proof {
        reveal(binding_error);
    }
    if JsSyntaxFeature::StrictMode.is_supported(p) && (str_eq(name, "eval") || str_eq(
        name,
        "arguments",
    )) {
        let message = String::from_str("Illegal use of `").concat(name).concat(
            "` as an identifier in strict mode",
        );
        return Some(p.err_builder(message.as_str()).primary(range, no_label()));
    }
    if let Some(parent) = p.state().duplicate_binding_parent {
        if str_eq(name, "let") {
            let message = String::from_str(
                "`let` cannot be declared as a variable name inside of a `",
            ).concat(parent.label()).concat("` declaration");
            return Some(
                p.err_builder(message.as_str()).primary(range, "Rename the let identifier here"),
            );
        }
        if let Some(existing) = p.state().name_map.get(name) {
            let message = String::from_str("Declarations inside of a `").concat(
                parent.label(),
            ).concat("` declaration may not have duplicates");
            let first = String::from_str("`").concat(name).concat("` is first declared here");
            let second = String::from_str("a second declaration of `").concat(name).concat(
                "` is not allowed",
            );
            return Some(
                p.err_builder(message.as_str()).secondary(existing, first.as_str()).primary(
                    range,
                    second.as_str(),
                ),
            );
        }
    }
    None
}

/// Parses an identifier binding. The answer is absent if the current token is no
/// identifier, and an invalid node if the identifier cannot be bound here:
/// * it is `await` in an async context, or `yield` in a generator or in strict mode;
/// * it is `eval` or `arguments` in strict mode;
/// * it is `let` inside a `let` or `const` declaration;
/// * the same `let` or `const` declaration has bound it before.
pub fn parse_identifier_binding(p: &mut Parser) -> (r: ParsedSyntax<ConditionalSyntax>)
    requires
        old(p)@.wf(),
    ensures
        r is Present <==> spec_is_identifier_kind(old(p)@.cur_kind()),
        r is Absent ==> final(p)@ == old(p)@,
        r matches ParsedSyntax::Present(c) ==> {
            &&& final(p)@ == with_identifier_binding(old(p)@)
            &&& identifier_marker(old(p)@, SyntaxKind::JS_IDENTIFIER_BINDING, c.marker())
            &&& c is Valid <==> identifier_binding_is_valid(old(p)@)
            &&& final(p)@.pos == old(p)@.pos + 1
        },
        final(p)@.answers_conditional(old(p)@, r),
        final(p)@.state.same_context(old(p)@.state),
{
    proof {
        reveal(with_identifier_binding);
    }
    let parsed = parse_identifier(p, SyntaxKind::JS_IDENTIFIER_BINDING);
    if let ParsedSyntax::Present(ConditionalSyntax::Valid(identifier)) = parsed {
        let ghost named = p@;
        let identifier_name = identifier.text(p);
        let range = identifier.range(p);
        proof {
            reveal_with_fuel(ParserView::span_text, 2);
            assert(identifier_name@ =~= old(p)@.cur_text());
            assert(range == old(p)@.cur_range());
            assert(named.state == old(p)@.state);
        }
        match build_binding_error(p, identifier_name.as_str(), range) {
            Some(err) => {
                p.error(err);
                proof {
                    lemma_closed_extends(named, p@, identifier);
                }
                ParsedSyntax::Present(identifier).into_invalid()
            },
            None => {
                if p.state().duplicate_binding_parent.is_some() {
                    p.bind_name(identifier_name, range);
                }
                ParsedSyntax::Present(identifier).into_valid()
            },
        }
    } else {
        parsed
    }
}

/// Strict-mode rejection. Where an identifier token spells `eval` or `arguments`:
/// in strict mode binding it is invalid and adds exactly one diagnostic; outside
/// strict mode, where no binding list has bound the name before, binding it is valid
/// and adds none. In both cases the token becomes a node of the tree.
pub proof fn law_strict_mode_rejection(p: ParserView)
    requires
        p.cur_kind() == SyntaxKind::IDENT,
        spec_is_eval_or_arguments(p.cur_text()),
    ensures
        p.state.strict ==> !identifier_binding_is_valid(p) && with_identifier_binding(
            p,
        ).diagnostics == p.diagnostics.push(
            DiagnosticView::error(
                "Illegal use of `"@ + p.cur_text() + "` as an identifier in strict mode"@,
            ).primary(p.cur_range(), Seq::empty()),
        ),
        !p.state.strict && (p.state.duplicate_binding_parent is None
            || !p.state.name_map.contains_key(p.cur_text())) ==> identifier_binding_is_valid(p)
            && with_identifier_binding(p).diagnostics == p.diagnostics,
        with_identifier_binding(p).pos == p.pos + 1,
{
    reveal(binding_error);
    reveal(with_identifier_binding);
    reveal(with_identifier);
    reveal(ParserView::with_event);
    reveal(ParserView::bumped);
    reveal(ParserView::reported);
    reveal(ParserView::with_state);
    reveal_strlit("eval");
    reveal_strlit("arguments");
    reveal_strlit("let");
    assert("eval"@.len() == 4);
    assert("arguments"@.len() == 9);
    assert("let"@.len() == 3);
}

/// Duplicate bindings. Inside a binding list, where an identifier token is none of
/// the names that are rejected for what they spell: if the list has bound the name
/// before, binding it again is invalid and adds exactly one diagnostic, whose
/// secondary label points at the first declaration and whose primary label points at
/// this one; if it has not, binding it is valid, adds no diagnostic, and records the
/// name with the range of the token.
pub proof fn law_duplicate_binding(p: ParserView, parent: crate::state::BindingParent)
    requires
        p.cur_kind() == SyntaxKind::IDENT,
        p.state.duplicate_binding_parent == Some(parent),
        p.cur_text() != "let"@,
        !(p.state.strict && spec_is_eval_or_arguments(p.cur_text())),
    ensures
        p.state.name_map.contains_key(p.cur_text()) ==> !identifier_binding_is_valid(p)
            && with_identifier_binding(p).diagnostics == p.diagnostics.push(
            DiagnosticView::error(
                "Declarations inside of a `"@ + parent.spec_label()
                    + "` declaration may not have duplicates"@,
            ).secondary(
                p.state.name_map[p.cur_text()],
                "`"@ + p.cur_text() + "` is first declared here"@,
            ).primary(
                p.cur_range(),
                "a second declaration of `"@ + p.cur_text() + "` is not allowed"@,
            ),
        ) && with_identifier_binding(p).state == p.state,
        !p.state.name_map.contains_key(p.cur_text()) ==> identifier_binding_is_valid(p)
            && with_identifier_binding(p).diagnostics == p.diagnostics
            && with_identifier_binding(p).state.name_map == p.state.name_map.insert(
            p.cur_text(),
            p.cur_range(),
        ),
{
    reveal(binding_error);
    reveal(with_identifier_binding);
    reveal(with_identifier);
    reveal(ParserView::with_event);
    reveal(ParserView::bumped);
    reveal(ParserView::reported);
    reveal(ParserView::with_state);
}

/// What [`parse_binding`] leaves of `p`: the identifier binding, retagged as unknown
/// if it is invalid; where there is no identifier, an empty unknown binding and an
/// error.
#[verifier::opaque]
pub open spec fn with_binding(p: ParserView) -> ParserView {
    if spec_is_identifier_kind(p.cur_kind()) {
        let bound = with_identifier_binding(p);
        if identifier_binding_is_valid(p) {
            bound
        } else {
            bound.with_event_at(
                with_identifier(p, SyntaxKind::JS_IDENTIFIER_BINDING).events.len() - 1,
                Event::FinishNode { kind: SyntaxKind::JS_UNKNOWN_BINDING },
            )
        }
    } else {
        p.with_empty_node(SyntaxKind::JS_UNKNOWN_BINDING)
    }
}

/// The node that [`parse_binding`] answers with: the identifier node, of the kind
/// that says whether the binding is valid; where there is no identifier, the empty
/// node at the cursor.
pub open spec fn binding_marker(p: ParserView, m: CompletedMarker) -> bool {
    if spec_is_identifier_kind(p.cur_kind()) {
        &&& identifier_marker(
            p,
            SyntaxKind::JS_IDENTIFIER_BINDING,
            CompletedMarker { kind: SyntaxKind::JS_IDENTIFIER_BINDING, ..m },
        )
        &&& m.kind == if identifier_binding_is_valid(p) {
            SyntaxKind::JS_IDENTIFIER_BINDING
        } else {
            SyntaxKind::JS_UNKNOWN_BINDING
        }
    } else {
        m == (CompletedMarker {
            start: p.events.len() as usize,
            finish: (p.events.len() + 1) as usize,
            kind: SyntaxKind::JS_UNKNOWN_BINDING,
            token_start: p.pos as usize,
            token_end: p.pos as usize,
        })
    }
}

/// How many diagnostics [`parse_binding`] adds: one for an identifier that is not
/// well formed or cannot be bound, one where there is no identifier, none for a
/// valid binding.
pub open spec fn binding_diagnostics(p: ParserView) -> nat {
    if spec_is_identifier_kind(p.cur_kind()) && identifier_binding_is_valid(p) {
        0
    } else {
        1
    }
}

/// The shape of what [`with_binding`] adds: one node, with nothing but errors after
/// it, and at most one diagnostic.
pub proof fn lemma_binding_shape(p: ParserView, m: CompletedMarker)
    requires
        p.wf(),
        with_binding(p).wf(),
        binding_marker(p, m),
    ensures
        m.start == p.events.len(),
        m.token_start == p.pos,
        m.finish < with_binding(p).events.len() <= m.finish + 2,
        errors_after(with_binding(p).events, m.finish as int),
        with_binding(p).diagnostics.len() == p.diagnostics.len() + binding_diagnostics(p),
{
    reveal(with_binding);
    reveal(with_identifier_binding);
    reveal(with_identifier);
    reveal(errors_after);
    reveal(ParserView::with_event);
    reveal(ParserView::bumped);
    reveal(ParserView::reported);
    reveal(ParserView::with_state);
    reveal(ParserView::with_event_at);
    reveal(ParserView::with_empty_node);
}

/// Parses an identifier binding into a node in every case: a valid binding, an
/// unknown binding that keeps the tokens of an invalid one, or an empty unknown
/// binding with an error where there is no identifier.
pub fn parse_binding(p: &mut Parser) -> (r: ParsedSyntax<CompletedMarker>)
    requires
        old(p)@.wf(),
    ensures
        final(p)@ == with_binding(old(p)@),
        final(p)@.answers(old(p)@, r),
        final(p)@.state.same_context(old(p)@.state),
        r matches ParsedSyntax::Present(m) && m.kind == if spec_is_identifier_kind(
            old(p)@.cur_kind(),
        ) && identifier_binding_is_valid(old(p)@) {
            SyntaxKind::JS_IDENTIFIER_BINDING
        } else {
            SyntaxKind::JS_UNKNOWN_BINDING
        },
        r matches ParsedSyntax::Present(m) && binding_marker(old(p)@, m) && final(p)@.one_node(
            old(p)@,
            m,
        ),
        final(p)@.pos == if spec_is_identifier_kind(old(p)@.cur_kind()) {
            old(p)@.pos + 1
        } else {
            old(p)@.pos
        },
        final(p)@.diagnostics.len() == old(p)@.diagnostics.len() + binding_diagnostics(old(p)@),
{
    proof {
        reveal(with_binding);
    }
    let r = parse_identifier_binding(p).or_invalid_to_unknown(p, SyntaxKind::JS_UNKNOWN_BINDING);
    proof {
        lemma_binding_shape(old(p)@, r->Present_0);
    }
    r
}

/// Where a binding pattern can start: at `[`, at `{` where the context lets an object
/// pattern start, and at an identifier.
pub open spec fn spec_starts_binding_pattern(p: ParserView) -> bool {
    ||| p.cur_kind() == SyntaxKind::L_BRACK
    ||| p.cur_kind() == SyntaxKind::L_CURLY && p.state.allow_object_expr
    ||| spec_is_identifier_kind(p.cur_kind())
}

/// No token from the cursor on has kind `kind`.
pub open spec fn spec_lacks_kind(p: ParserView, kind: SyntaxKind) -> bool {
    forall|i: int| p.pos <= i < p.tokens.len() ==> (#[trigger] p.tokens[i]).kind != kind
}

/// Whether an array or an object pattern starts at the cursor that the source never
/// closes: no `]`, or no `}`, stands anywhere from the cursor on.
pub open spec fn spec_starts_unclosed(p: ParserView) -> bool {
    ||| p.cur_kind() == SyntaxKind::L_BRACK && spec_lacks_kind(p, SyntaxKind::R_BRACK)
    ||| p.cur_kind() == SyntaxKind::L_CURLY && p.state.allow_object_expr && spec_lacks_kind(
        p,
        SyntaxKind::R_CURLY,
    )
}

/// Whether an array or an object pattern starts at the cursor.
pub open spec fn spec_starts_nested_pattern(p: ParserView) -> bool {
    ||| p.cur_kind() == SyntaxKind::L_BRACK
    ||| p.cur_kind() == SyntaxKind::L_CURLY && p.state.allow_object_expr
}

/// The kind of the node that a binding pattern becomes: the kind of the pattern that
/// the first token starts; for an identifier, the kind that says whether the binding
/// is valid.
pub open spec fn spec_binding_pattern_kind(p: ParserView) -> SyntaxKind {
    if p.cur_kind() == SyntaxKind::L_BRACK {
        SyntaxKind::JS_ARRAY_BINDING_PATTERN
    } else if p.cur_kind() == SyntaxKind::L_CURLY {
        SyntaxKind::JS_OBJECT_BINDING_PATTERN
    } else if identifier_binding_is_valid(p) {
        SyntaxKind::JS_IDENTIFIER_BINDING
    } else {
        SyntaxKind::JS_UNKNOWN_BINDING
    }
}

/// Whether a plain pattern stands at the cursor: an identifier, a plain array
/// pattern, or, where the context lets an object pattern start, a plain object
/// pattern.
pub open spec fn spec_is_plain_pattern(p: ParserView) -> bool {
    if p.cur_kind() == SyntaxKind::L_BRACK {
        ArrayBindingPattern::spec_is_plain_array(p)
    } else if p.cur_kind() == SyntaxKind::L_CURLY {
        p.state.allow_object_expr && ObjectBindingPattern::spec_is_plain_object(p)
    } else {
        spec_is_identifier_kind(p.cur_kind())
    }
}

/// This parser after a plain pattern.
pub open spec fn after_plain_pattern(p: ParserView) -> ParserView {
    if p.cur_kind() == SyntaxKind::L_BRACK {
        ArrayBindingPattern::after_plain_array(p)
    } else if p.cur_kind() == SyntaxKind::L_CURLY {
        ObjectBindingPattern::after_plain_object(p)
    } else {
        with_binding(p)
    }
}

/// Parses a binding pattern: an array pattern, an object pattern, or an identifier.
/// A plain pattern is known event by event and diagnostic by diagnostic.
/// The answer is never an invalid node: an identifier that cannot be bound comes
/// back as an unknown binding that keeps its token.
pub fn parse_binding_pattern(p: &mut Parser) -> (r: ParsedSyntax<CompletedMarker>)
    requires
        old(p)@.wf(),
    ensures
        final(p)@.answers(old(p)@, r),
        final(p)@.state.same_context(old(p)@.state),
        r is Present <==> spec_starts_binding_pattern(old(p)@),
        r is Present ==> old(p)@.pos < final(p)@.pos,
        r matches ParsedSyntax::Present(m) ==> final(p)@.one_node(old(p)@, m) && m.kind
            == spec_binding_pattern_kind(old(p)@),
        r matches ParsedSyntax::Present(m) ==> spec_starts_nested_pattern(old(p)@) ==> m.finish
            + 1 == final(p)@.events.len() && m.token_end == final(p)@.pos,
        spec_starts_unclosed(old(p)@) ==> final(p)@.diagnostics.len() > old(
            p,
        )@.diagnostics.len(),
        spec_is_plain_pattern(old(p)@) ==> final(p)@ == after_plain_pattern(old(p)@),
        spec_is_identifier_kind(old(p)@.cur_kind()) ==> final(p)@ == with_binding(old(p)@)
            && binding_marker(old(p)@, r->Present_0) && final(p)@.diagnostics.len() == old(
            p,
        )@.diagnostics.len() + binding_diagnostics(old(p)@) && final(p)@.pos == old(p)@.pos + 1,
    decreases old(p)@.remaining(), 10int,
{
    match p.cur() {
        SyntaxKind::L_BRACK => ArrayBindingPattern.parse_array_pattern(p),
        SyntaxKind::L_CURLY => {
            if p.state().allow_object_expr {
                ObjectBindingPattern.parse_object_pattern(p)
            } else {
                ParsedSyntax::Absent
            }
        },
        SyntaxKind::IDENT | SyntaxKind::YIELD_KW | SyntaxKind::AWAIT_KW => parse_binding(p),
        _ => ParsedSyntax::Absent,
    }
}

/// Parses a binding pattern and the default value that may follow it.
pub fn parse_binding_pattern_with_optional_default(p: &mut Parser) -> (r: ParsedSyntax<
    CompletedMarker,
>)
    requires
        old(p)@.wf(),
    ensures
        final(p)@.answers(old(p)@, r),
        final(p)@.state.same_context(old(p)@.state),
        r is Present <==> spec_starts_binding_pattern(old(p)@) || old(p)@.cur_kind()
            == SyntaxKind::EQ,
        r is Present ==> old(p)@.pos < final(p)@.pos,
    decreases old(p)@.remaining(), 15int,
{
    BindingPatternWithDefault.parse_pattern_with_optional_default(p)
}

/// This parser after an identifier that no default follows was read as a pattern
/// that may have a default: the binding, after the withdrawn start of the node that
/// would have held the default.
pub open spec fn after_lone_identifier(p: ParserView) -> ParserView {
    with_binding(p.with_event(Event::StartNode)).with_event_at(
        p.events.len() as int,
        Event::Tombstone,
    )
}

/// This parser where the default of an identifier begins: the node is open, the
/// identifier is bound, the `=` is read, and `in` is read as an operator.
pub open spec fn before_default(p: ParserView) -> ParserView {
    let read = with_binding(p.with_event(Event::StartNode)).bumped(SyntaxKind::EQ);
    read.with_state(ParserStateView { include_in: true, ..read.state })
}

/// Whether an identifier stands at the cursor with a default that is an expression
/// of one token.
pub open spec fn spec_has_atom_default(p: ParserView) -> bool {
    &&& spec_is_identifier_kind(p.cur_kind())
    &&& p.nth_kind(1) == SyntaxKind::EQ
    &&& spec_is_atom(before_default(p), 4)
}

/// This parser after an identifier with a default that is an expression of one
/// token: one node with the binding, the `=` and the default; `in` is read again
/// as it was before.
pub open spec fn after_atom_default(p: ParserView) -> ParserView {
    let valued = after_wrapped_atom(before_default(p), 4);
    valued.with_state(
        ParserStateView {
            include_in: with_binding(p.with_event(Event::StartNode)).state.include_in,
            ..valued.state
        },
    ).with_event(Event::FinishNode { kind: SyntaxKind::JS_BINDING_PATTERN_WITH_DEFAULT })
}

/// A binding pattern that may have a default value.
#[derive(Clone, Copy, Debug)]
pub struct BindingPatternWithDefault;

impl BindingPatternWithDefault {
    #[inline]
    pub fn pattern_with_default_kind() -> (k: SyntaxKind)
        ensures
            k == SyntaxKind::JS_BINDING_PATTERN_WITH_DEFAULT,
    {
        SyntaxKind::JS_BINDING_PATTERN_WITH_DEFAULT
    }

    #[inline]
    pub fn expected_pattern_error(p: &Parser, range: TextRange) -> (b: DiagnosticBuilder)
        ensures
            b@ == spec_expected_any(
                p@,
                seq!["identifier"@, "object pattern"@, "array pattern"@],
                range,
            ),
    {
        proof {
            reveal(spec_expected_any);
        }
        expected_binding(p, range)
    }

    #[inline]
    pub fn parse_pattern(&self, p: &mut Parser) -> (r: ParsedSyntax<CompletedMarker>)
        requires
            old(p)@.wf(),
        ensures
            final(p)@.answers(old(p)@, r),
            final(p)@.state.same_context(old(p)@.state),
            r is Present <==> spec_starts_binding_pattern(old(p)@),
            r is Present ==> old(p)@.pos < final(p)@.pos,
            spec_is_identifier_kind(old(p)@.cur_kind()) ==> final(p)@ == with_binding(old(p)@)
                && final(p)@.pos == old(p)@.pos + 1,
        decreases old(p)@.remaining(), 11int,
    {
        parse_binding_pattern(p)
    }

    /// Parses the pattern and, where `=` follows, the default value; the two become
    /// one node. Where `=` stands without a pattern before it, the pattern is
    /// reported as missing.
    pub fn parse_pattern_with_optional_default(&self, p: &mut Parser) -> (r: ParsedSyntax<
        CompletedMarker,
    >)
        requires
            old(p)@.wf(),
        ensures
            final(p)@.answers(old(p)@, r),
            final(p)@.state.same_context(old(p)@.state),
            r is Present <==> spec_starts_binding_pattern(old(p)@) || old(p)@.cur_kind()
                == SyntaxKind::EQ,
            r is Present ==> old(p)@.pos < final(p)@.pos,
            spec_is_identifier_kind(old(p)@.cur_kind()) && old(p)@.nth_kind(1) != SyntaxKind::EQ
                ==> final(p)@ == after_lone_identifier(old(p)@),
            spec_has_atom_default(old(p)@) ==> final(p)@ == after_atom_default(old(p)@),
        decreases old(p)@.remaining(), 12int,
    {
        if !is_at_binding_pattern(p) && !p.at(SyntaxKind::EQ) {
            return ParsedSyntax::Absent;
        }
        let m = p.start();
        proof {
            reveal(ParserView::with_event);
        }
        let pattern = self.parse_pattern(p);
        if p.at(SyntaxKind::EQ) {
            pattern.or_missing_with_error(p, Self::expected_pattern_error);
            p.bump(SyntaxKind::EQ);
            let mut state = p.state().clone();
            state.include_in = true;
            let previous = p.swap_state(state);
            parse_expr_or_assignment(p).or_missing_with_error(
                p,
                expected_expression_assignment,
            );
            let mut restored = p.state().clone();
            restored.include_in = previous.include_in;
            p.set_state(restored);
            ParsedSyntax::Present(m.complete(p, Self::pattern_with_default_kind()))
        } else {
            m.abandon(p);
            pattern
        }
    }
}

fn is_at_binding_pattern(p: &Parser) -> (b: bool)
    ensures
        b == spec_starts_binding_pattern(p@),
{
    p.at(SyntaxKind::L_BRACK) || (p.at(SyntaxKind::L_CURLY) && p.state().allow_object_expr)
        || is_at_identifier(p)
}

/// An array binding pattern: `[a, , b = 1, ...rest]`.
#[derive(Clone, Copy, Debug)]
pub struct ArrayBindingPattern;

impl ArrayBindingPattern {
    #[inline]
    pub fn unknown_pattern_kind() -> (k: SyntaxKind)
        ensures
            k == SyntaxKind::JS_UNKNOWN_BINDING,
    {
        SyntaxKind::JS_UNKNOWN_BINDING
    }

    #[inline]
    pub fn array_pattern_kind() -> (k: SyntaxKind)
        ensures
            k == SyntaxKind::JS_ARRAY_BINDING_PATTERN,
    {
        SyntaxKind::JS_ARRAY_BINDING_PATTERN
    }

    #[inline]
    pub fn rest_pattern_kind() -> (k: SyntaxKind)
        ensures
            k == SyntaxKind::JS_ARRAY_BINDING_PATTERN_REST_ELEMENT,
    {
        SyntaxKind::JS_ARRAY_BINDING_PATTERN_REST_ELEMENT
    }

    pub fn list_kind() -> (k: SyntaxKind)
        ensures
            k == SyntaxKind::JS_ARRAY_BINDING_PATTERN_ELEMENT_LIST,
    {
        SyntaxKind::JS_ARRAY_BINDING_PATTERN_ELEMENT_LIST
    }

    #[inline]
    pub fn expected_element_error(p: &Parser, range: TextRange) -> (b: DiagnosticBuilder)
        ensures
            b@ == spec_expected_any(
                p@,
                seq!["identifier"@, "object pattern"@, "array pattern"@, "rest pattern"@],
                range,
            ),
    {
        proof {
            reveal(spec_expected_any);
        }
        let names = ["identifier", "object pattern", "array pattern", "rest pattern"];
        assert(names@.map_values(|s: &str| s@) =~= seq![
            "identifier"@,
            "object pattern"@,
            "array pattern"@,
            "rest pattern"@,
        ]);
        expected_any(&names, range).to_diagnostic(p)
    }

    #[inline]
    pub fn pattern_with_default(&self) -> BindingPatternWithDefault {
        BindingPatternWithDefault
    }

    /// Where an element of an array pattern can start: at a `,`, which stands for a
    /// hole; at `...`; and wherever a pattern with a default can.
    pub open spec fn spec_starts_element(p: ParserView) -> bool {
        ||| p.cur_kind() == SyntaxKind::COMMA
        ||| p.cur_kind() == SyntaxKind::DOT3
        ||| p.cur_kind() == SyntaxKind::EQ
        ||| spec_starts_binding_pattern(p)
    }

    /// Whether the element of an array pattern at the cursor is plain: a hole, an
    /// identifier with no default or with one that is an expression of one token,
    /// or a rest element that binds an identifier and has no default.
    pub open spec fn spec_is_plain_element(p: ParserView) -> bool {
        ||| p.cur_kind() == SyntaxKind::COMMA
        ||| spec_is_identifier_kind(p.cur_kind()) && p.nth_kind(1) != SyntaxKind::EQ
        ||| spec_has_atom_default(p)
        ||| p.cur_kind() == SyntaxKind::DOT3 && spec_is_identifier_kind(p.nth_kind(1))
            && p.nth_kind(2) != SyntaxKind::EQ
    }

    /// This parser after a plain element of an array pattern: the empty node of a
    /// hole; the binding of the identifier, with its default; or the rest element that binds an
    /// identifier, and, where a `,` follows it, the error that says that a rest
    /// element is the last one.
    pub open spec fn after_plain_element(p: ParserView) -> ParserView {
        if p.cur_kind() == SyntaxKind::COMMA {
            p.with_event(Event::StartNode).with_event(
                Event::FinishNode { kind: SyntaxKind::JS_ARRAY_HOLE },
            )
        } else if p.cur_kind() == SyntaxKind::DOT3 {
            ObjectBindingPattern::after_listed_rest(p, Self::after_rest_element(p))
        } else if p.nth_kind(1) == SyntaxKind::EQ {
            after_atom_default(p)
        } else {
            after_lone_identifier(p)
        }
    }

    /// This parser after the `,` that is expected after an element, unless the list
    /// ends there.
    pub open spec fn after_element_separator(p: ParserView) -> ParserView {
        if p.cur_kind() == SyntaxKind::R_BRACK || p.cur_kind() == SyntaxKind::EOF {
            p
        } else {
            p.after_expect_required(SyntaxKind::COMMA)
        }
    }

    /// Whether the elements from the cursor on, up to the `]` or the end of the
    /// tokens, are plain, at most `fuel` of them.
    pub open spec fn spec_plain_elements(p: ParserView, fuel: nat) -> bool
        decreases fuel,
    {
        p.cur_kind() == SyntaxKind::EOF || p.cur_kind() == SyntaxKind::R_BRACK || {
            &&& fuel > 0
            &&& Self::spec_is_plain_element(p)
            &&& Self::spec_plain_elements(
                Self::after_element_separator(Self::after_plain_element(p)),
                (fuel - 1) as nat,
            )
        }
    }

    /// This parser after the plain elements from the cursor on, at most `fuel` of
    /// them, each with the `,` after it.
    pub open spec fn after_plain_elements(p: ParserView, fuel: nat) -> ParserView
        decreases fuel,
    {
        if fuel == 0 || p.cur_kind() == SyntaxKind::EOF || p.cur_kind() == SyntaxKind::R_BRACK {
            p
        } else {
            Self::after_plain_elements(
                Self::after_element_separator(Self::after_plain_element(p)),
                (fuel - 1) as nat,
            )
        }
    }

    /// This parser where the elements of an array pattern begin: the node is open,
    /// the `[` is read, and the node of the list is open.
    pub open spec fn array_inside(p: ParserView) -> ParserView {
        p.with_event(Event::StartNode).bumped(SyntaxKind::L_BRACK).with_event(Event::StartNode)
    }

    /// Whether a plain array pattern stands at the cursor: `[` and plain elements.
    #[verifier::opaque]
    pub open spec fn spec_is_plain_array(p: ParserView) -> bool {
        &&& p.cur_kind() == SyntaxKind::L_BRACK
        &&& Self::spec_plain_elements(Self::array_inside(p), p.remaining() as nat)
    }

    /// This parser after a plain array pattern: the `[`, the list of the elements,
    /// the `]` or a placeholder and an error in its place, and the end of the node.
    #[verifier::opaque]
    pub open spec fn after_plain_array(p: ParserView) -> ParserView {
        Self::after_plain_elements(Self::array_inside(p), p.remaining() as nat).with_event(
            Event::FinishNode { kind: SyntaxKind::JS_ARRAY_BINDING_PATTERN_ELEMENT_LIST },
        ).after_expect_required(SyntaxKind::R_BRACK).with_event(
            Event::FinishNode { kind: SyntaxKind::JS_ARRAY_BINDING_PATTERN },
        )
    }

    /// Parses an array pattern. An element that cannot be parsed is skipped up to the
    /// next `,` or `]` and wrapped in an unknown binding. A plain array pattern is
    /// known event by event and diagnostic by diagnostic.
    pub fn parse_array_pattern(&self, p: &mut Parser) -> (r: ParsedSyntax<CompletedMarker>)
        requires
            old(p)@.wf(),
        ensures
            final(p)@.answers(old(p)@, r),
            final(p)@.state.same_context(old(p)@.state),
            r is Present <==> old(p)@.cur_kind() == SyntaxKind::L_BRACK,
            r is Present ==> old(p)@.pos < final(p)@.pos,
            r matches ParsedSyntax::Present(m) ==> m.kind == SyntaxKind::JS_ARRAY_BINDING_PATTERN
                && final(p)@.one_node(old(p)@, m) && m.finish + 1 == final(p)@.events.len()
                && m.token_end == final(p)@.pos,
            r is Present && spec_lacks_kind(old(p)@, SyntaxKind::R_BRACK)
                ==> final(p)@.diagnostics.len() > old(p)@.diagnostics.len(),
            Self::spec_is_plain_array(old(p)@) ==> final(p)@ == Self::after_plain_array(old(p)@),

        decreases old(p)@.remaining(), 9int,
    {
        proof {
            reveal(ArrayBindingPattern::spec_is_plain_array);
            reveal(ArrayBindingPattern::after_plain_array);
        }
        if !p.at(SyntaxKind::L_BRACK) {
            return ParsedSyntax::Absent;
        }
        let ghost entry = p@;
        let m = p.start();
        p.bump(SyntaxKind::L_BRACK);
        let elements = p.start();
        let ghost inside = p@;
        let ghost fuel = entry.remaining() as nat;
        let ghost plain = Self::spec_is_plain_array(entry);
        let ghost target = Self::after_plain_elements(inside, fuel);
        let mut progress = ParserProgress::default();
        while !p.at(SyntaxKind::EOF) && !p.at(SyntaxKind::R_BRACK)
            invariant_except_break
                progress.last matches Some(before) ==> before < p@.pos,
                plain ==> Self::spec_plain_elements(p@, fuel) && Self::after_plain_elements(
                    p@,
                    fuel,
                ) == target,
                fuel >= p@.remaining(),
            invariant
                entry == old(p)@,
                p@.state.same_context(entry.state),
                p@.follows(inside),
                inside.pos == entry.pos + 1,
                inside.tokens == entry.tokens,
            ensures
                plain ==> p@ == target,
            decreases p@.remaining(),
        {
            progress.assert_progressing(p);
            let ghost round = p@;
            proof {
                fuel = (fuel - 1) as nat;
            }
            let recovery = ParseRecovery::new(
                Self::unknown_pattern_kind(),
                vec![
                    SyntaxKind::EOF,
                    SyntaxKind::COMMA,
                    SyntaxKind::R_BRACK,
                    SyntaxKind::EQ,
                    SyntaxKind::SEMICOLON,
                    SyntaxKind::DOT3,
                    SyntaxKind::R_PAREN,
                ],
            ).enable_recovery_on_line_break();
            let element = self.parse_any_array_element(p);
            if element.or_recover(p, &recovery, Self::expected_element_error).is_err() {
                // Nothing that could be skipped: the slot of the element stays empty.
                let nothing: ParsedSyntax<CompletedMarker> = ParsedSyntax::Absent;
                nothing.or_missing_with_error(p, Self::expected_element_error);
                break ;
            }
            if !p.at(SyntaxKind::R_BRACK) && !p.at(SyntaxKind::EOF) {
                p.expect_required(SyntaxKind::COMMA);
            }
            assert(round.pos < p@.pos);
        }
        elements.complete(p, Self::list_kind());
        proof {
            if spec_lacks_kind(entry, SyntaxKind::R_BRACK) && !p@.at_end() {
                assert(p@.tokens[p@.pos as int].kind != SyntaxKind::R_BRACK);
            }
        }
        p.expect_required(SyntaxKind::R_BRACK);
        ParsedSyntax::Present(m.complete(p, Self::array_pattern_kind()))
    }

    /// Parses one element of an array pattern: a hole, a rest element, or a pattern
    /// with its default. A rest element is the last element of its pattern: a `,`
    /// after it is reported, at the range of the rest element.
    pub fn parse_any_array_element(&self, p: &mut Parser) -> (r: ParsedSyntax<CompletedMarker>)
        requires
            old(p)@.wf(),
        ensures
            final(p)@.answers(old(p)@, r),
            final(p)@.state.same_context(old(p)@.state),
            r is Present <==> Self::spec_starts_element(old(p)@),
            r is Present ==> if old(p)@.cur_kind() == SyntaxKind::COMMA {
                final(p)@.pos == old(p)@.pos
            } else {
                old(p)@.pos < final(p)@.pos
            },
            Self::spec_is_plain_element(old(p)@) ==> final(p)@ == Self::after_plain_element(
                old(p)@,
            ),
        decreases old(p)@.remaining(), 14int,
    {
        match p.cur() {
            SyntaxKind::COMMA => {
                let m = p.start();
                ParsedSyntax::Present(m.complete(p, SyntaxKind::JS_ARRAY_HOLE))
            },
            SyntaxKind::DOT3 => {
                let rest = self.parse_rest_pattern(p);
                if p.at(SyntaxKind::COMMA) {
                    if let ParsedSyntax::Present(completed) = rest {
                        let ghost closed = p@;
                        let err = p.err_builder("rest element must be the last element").primary(
                            completed.range(p),
                            no_label(),
                        );
                        p.error(err);
                        proof {
                            lemma_closed_extends(closed, p@, completed);
                        }
                    }
                }
                rest
            },
            _ => self.pattern_with_default().parse_pattern_with_optional_default(p),
        }
    }

    /// This parser after a rest element that binds an identifier and has no default:
    /// a node with the `...` and the binding.
    pub open spec fn after_rest_element(p: ParserView) -> ParserView {
        with_binding(p.with_event(Event::StartNode).bumped(SyntaxKind::DOT3)).with_event(
            Event::FinishNode { kind: SyntaxKind::JS_ARRAY_BINDING_PATTERN_REST_ELEMENT },
        )
    }

    /// Parses a rest element: `...` and the pattern that takes the rest. A rest element
    /// has no default; one that has is reported and becomes an unknown binding. The
    /// rule does not look at what follows the element.
    pub fn parse_rest_pattern(&self, p: &mut Parser) -> (r: ParsedSyntax<CompletedMarker>)
        requires
            old(p)@.wf(),
        ensures
            final(p)@.answers(old(p)@, r),
            final(p)@.state.same_context(old(p)@.state),
            r is Present <==> old(p)@.cur_kind() == SyntaxKind::DOT3,
            r is Present ==> old(p)@.pos < final(p)@.pos,
            r matches ParsedSyntax::Present(m) ==> final(p)@.one_node(old(p)@, m) && m.finish + 1
                == final(p)@.events.len() && m.token_end == final(p)@.pos,
            old(p)@.cur_kind() == SyntaxKind::DOT3 && spec_is_identifier_kind(old(p)@.nth_kind(1))
                && old(p)@.nth_kind(2) != SyntaxKind::EQ ==> final(p)@ == Self::after_rest_element(
                old(p)@,
            ),
        decreases old(p)@.remaining(), 13int,
    {
        if !p.at(SyntaxKind::DOT3) {
            return ParsedSyntax::Absent;
        }
        let m = p.start();
        p.bump(SyntaxKind::DOT3);
        proof {
            reveal(ParserView::with_event);
            reveal(ParserView::bumped);
        }
        self.pattern_with_default().parse_pattern(p).or_missing_with_error(
            p,
            BindingPatternWithDefault::expected_pattern_error,
        );
        let mut kind = Self::rest_pattern_kind();
        if p.at(SyntaxKind::EQ) {
            let default_value = p.start();
            p.bump(SyntaxKind::EQ);
            parse_expr_or_assignment(p).or_missing_with_error(
                p,
                expected_expression_assignment,
            );
            let default_value = default_value.complete(p, SyntaxKind::ERROR);
            let err = p.err_builder("rest element cannot have a default").primary(
                default_value.range(p),
                "Remove the default value here",
            );
            p.error(err);
            kind = Self::unknown_pattern_kind();
        }
        ParsedSyntax::Present(m.complete(p, kind))
    }
}

/// An object binding pattern: `{ a, b: c, d = 1, ...rest }`.
#[derive(Clone, Copy, Debug)]
pub struct ObjectBindingPattern;

impl ObjectBindingPattern {
    #[inline]
    pub fn unknown_pattern_kind() -> (k: SyntaxKind)
        ensures
            k == SyntaxKind::JS_UNKNOWN_BINDING,
    {
        SyntaxKind::JS_UNKNOWN_BINDING
    }

    #[inline]
    pub fn object_pattern_kind() -> (k: SyntaxKind)
        ensures
            k == SyntaxKind::JS_OBJECT_BINDING_PATTERN,
    {
        SyntaxKind::JS_OBJECT_BINDING_PATTERN
    }

    pub fn list_kind() -> (k: SyntaxKind)
        ensures
            k == SyntaxKind::JS_OBJECT_BINDING_PATTERN_PROPERTY_LIST,
    {
        SyntaxKind::JS_OBJECT_BINDING_PATTERN_PROPERTY_LIST
    }

    #[inline]
    pub fn expected_property_pattern_error(p: &Parser, range: TextRange) -> (b:
        DiagnosticBuilder)
        ensures
            b@ == spec_expected_any(
                p@,
                seq!["identifier"@, "member name"@, "rest pattern"@],
                range,
            ),
    {
        proof {
            reveal(spec_expected_any);
        }
        let names = ["identifier", "member name", "rest pattern"];
        assert(names@.map_values(|s: &str| s@) =~= seq![
            "identifier"@,
            "member name"@,
            "rest pattern"@,
        ]);
        expected_any(&names, range).to_diagnostic(p)
    }

    /// Where a property pattern can start: at a member name, and at the `:` or `=`
    /// that should follow one.
    pub open spec fn spec_starts_property(p: ParserView) -> bool {
        ||| spec_starts_object_member_name(p.cur_kind())
        ||| p.cur_kind() == SyntaxKind::COLON
        ||| p.cur_kind() == SyntaxKind::EQ
    }

    /// This parser after a `,` in an object pattern that no property stands before: a
    /// placeholder, the error, and the `,`.
    pub open spec fn after_stray_separator(p: ParserView) -> ParserView {
        let held = p.with_event(Event::Placeholder);
        held.reported(
            spec_expected_any(
                held,
                seq!["identifier"@, "member name"@, "rest pattern"@],
                held.cur_range(),
            ),
        ).bumped(SyntaxKind::COMMA)
    }

    /// This parser after the `,` that is expected after a property, unless the list
    /// ends there.
    pub open spec fn after_item_separator(p: ParserView) -> ParserView {
        if p.cur_kind() == SyntaxKind::R_CURLY || p.cur_kind() == SyntaxKind::EOF {
            p
        } else {
            p.after_expect_required(SyntaxKind::COMMA)
        }
    }

    /// This parser after one round of a plain object pattern: a stray `,`, or a plain
    /// item and the `,` after it.
    pub open spec fn after_plain_round(p: ParserView) -> ParserView {
        if p.cur_kind() == SyntaxKind::COMMA {
            Self::after_stray_separator(p)
        } else {
            Self::after_item_separator(Self::after_plain_item(p))
        }
    }

    /// Whether the items from the cursor on, up to the `}` or the end of the tokens,
    /// are plain, at most `fuel` of them.
    pub open spec fn spec_plain_items(p: ParserView, fuel: nat) -> bool
        decreases fuel,
    {
        p.cur_kind() == SyntaxKind::EOF || p.cur_kind() == SyntaxKind::R_CURLY || {
            &&& fuel > 0
            &&& p.cur_kind() == SyntaxKind::COMMA || Self::spec_is_plain_item(p)
            &&& Self::spec_plain_items(Self::after_plain_round(p), (fuel - 1) as nat)
        }
    }

    /// This parser after the plain items from the cursor on, at most `fuel` of them.
    pub open spec fn after_plain_items(p: ParserView, fuel: nat) -> ParserView
        decreases fuel,
    {
        if fuel == 0 || p.cur_kind() == SyntaxKind::EOF || p.cur_kind() == SyntaxKind::R_CURLY {
            p
        } else {
            Self::after_plain_items(Self::after_plain_round(p), (fuel - 1) as nat)
        }
    }

    /// This parser where the properties of an object pattern begin: the node is open,
    /// the `{` is read, and the node of the list is open.
    pub open spec fn object_inside(p: ParserView) -> ParserView {
        p.with_event(Event::StartNode).bumped(SyntaxKind::L_CURLY).with_event(Event::StartNode)
    }

    /// Whether a plain object pattern stands at the cursor: `{` and plain items.
    #[verifier::opaque]
    pub open spec fn spec_is_plain_object(p: ParserView) -> bool {
        &&& p.cur_kind() == SyntaxKind::L_CURLY
        &&& Self::spec_plain_items(Self::object_inside(p), p.remaining() as nat)
    }

    /// This parser after a plain object pattern: the `{`, the list of the
    /// properties, the `}` or a placeholder and an error in its place, and the end
    /// of the node.
    #[verifier::opaque]
    pub open spec fn after_plain_object(p: ParserView) -> ParserView {
        Self::after_plain_items(Self::object_inside(p), p.remaining() as nat).with_event(
            Event::FinishNode { kind: SyntaxKind::JS_OBJECT_BINDING_PATTERN_PROPERTY_LIST },
        ).after_expect_required(SyntaxKind::R_CURLY).with_event(
            Event::FinishNode { kind: SyntaxKind::JS_OBJECT_BINDING_PATTERN },
        )
    }

    /// Parses an object pattern. A `,` without a property before it is reported; a
    /// property that cannot be parsed is skipped up to the next `,` or `}` and
    /// wrapped in an unknown binding. A plain object pattern is known event by event
    /// and diagnostic by diagnostic.
    pub fn parse_object_pattern(&self, p: &mut Parser) -> (r: ParsedSyntax<CompletedMarker>)
        requires
            old(p)@.wf(),
        ensures
            final(p)@.answers(old(p)@, r),
            final(p)@.state.same_context(old(p)@.state),
            r is Present <==> old(p)@.cur_kind() == SyntaxKind::L_CURLY,
            r is Present ==> old(p)@.pos < final(p)@.pos,
            r matches ParsedSyntax::Present(m) ==> m.kind == SyntaxKind::JS_OBJECT_BINDING_PATTERN
                && final(p)@.one_node(old(p)@, m) && m.finish + 1 == final(p)@.events.len()
                && m.token_end == final(p)@.pos,
            r is Present && spec_lacks_kind(old(p)@, SyntaxKind::R_CURLY)
                ==> final(p)@.diagnostics.len() > old(p)@.diagnostics.len(),
            Self::spec_is_plain_object(old(p)@) ==> final(p)@ == Self::after_plain_object(
                old(p)@,
            ),
        decreases old(p)@.remaining(), 9int,
    {
        proof {
            reveal(ObjectBindingPattern::spec_is_plain_object);
            reveal(ObjectBindingPattern::after_plain_object);
        }
        if !p.at(SyntaxKind::L_CURLY) {
            return ParsedSyntax::Absent;
        }
        let ghost entry = p@;
        let m = p.start();
        p.bump(SyntaxKind::L_CURLY);
        let elements = p.start();
        let ghost inside = p@;
        let ghost fuel = entry.remaining() as nat;
        let ghost plain = Self::spec_is_plain_object(entry);
        let ghost target = Self::after_plain_items(inside, fuel);
        let mut progress = ParserProgress::default();
        while !p.at(SyntaxKind::EOF) && !p.at(SyntaxKind::R_CURLY)
            invariant_except_break
                progress.last matches Some(before) ==> before < p@.pos,
                plain ==> Self::spec_plain_items(p@, fuel) && Self::after_plain_items(p@, fuel)
                    == target,
                fuel >= p@.remaining(),
            invariant
                entry == old(p)@,
                p@.state.same_context(entry.state),
                p@.follows(inside),
                inside.pos == entry.pos + 1,
                inside.tokens == entry.tokens,
            ensures
                plain ==> p@ == target,
            decreases p@.remaining(),
        {
            progress.assert_progressing(p);
            let ghost round = p@;
            proof {
                fuel = (fuel - 1) as nat;
            }
            if p.at(SyntaxKind::COMMA) {
                // A separator with no property before it.
                p.missing();
                let err = Self::expected_property_pattern_error(p, p.cur_tok().range);
                p.error(err);
                p.bump_any();
                continue ;
            }
            let recovery = ParseRecovery::new(
                Self::unknown_pattern_kind(),
                vec![
                    SyntaxKind::EOF,
                    SyntaxKind::COMMA,
                    SyntaxKind::R_CURLY,
                    SyntaxKind::DOT3,
                    SyntaxKind::SEMICOLON,
                ],
            ).enable_recovery_on_line_break();
            let pattern = self.parse_any_property_pattern(p);
            if pattern.or_recover(p, &recovery, Self::expected_property_pattern_error).is_err() {
                let nothing: ParsedSyntax<CompletedMarker> = ParsedSyntax::Absent;
                nothing.or_missing_with_error(p, Self::expected_property_pattern_error);
                break ;
            }
            if !p.at(SyntaxKind::R_CURLY) && !p.at(SyntaxKind::EOF) {
                p.expect_required(SyntaxKind::COMMA);
            }
            assert(round.pos < p@.pos);
        }
        elements.complete(p, Self::list_kind());
        proof {
            if spec_lacks_kind(entry, SyntaxKind::R_CURLY) && !p@.at_end() {
                assert(p@.tokens[p@.pos as int].kind != SyntaxKind::R_CURLY);
            }
        }
        p.expect_required(SyntaxKind::R_CURLY);
        ParsedSyntax::Present(m.complete(p, Self::object_pattern_kind()))
    }

    /// Parses a rest property or a property pattern. A rest property is the last
    /// property of its pattern: a `,` after it is reported, at the range of the rest
    /// property.
    pub fn parse_any_property_pattern(&self, p: &mut Parser) -> (r: ParsedSyntax<
        CompletedMarker,
    >)
        requires
            old(p)@.wf(),
        ensures
            final(p)@.answers(old(p)@, r),
            final(p)@.state.same_context(old(p)@.state),
            r is Present <==> old(p)@.cur_kind() == SyntaxKind::DOT3 || Self::spec_starts_property(
                old(p)@,
            ),
            r is Present ==> old(p)@.pos < final(p)@.pos,
            r matches ParsedSyntax::Present(m) ==> final(p)@.one_node(old(p)@, m) && m.token_end
                == final(p)@.pos,
            r matches ParsedSyntax::Present(m) ==> if old(p)@.cur_kind() == SyntaxKind::DOT3
                && final(p)@.cur_kind() == SyntaxKind::COMMA {
                &&& final(p)@.events.len() == m.finish + 2
                &&& final(p)@.events.last() is Error
                &&& final(p)@.diagnostics.len() > 0
                &&& final(p)@.diagnostics.last() == Self::rest_not_last_error(
                    final(p)@.span_range(m.token_start as int, m.token_end as int),
                )
            } else {
                final(p)@.events.len() == m.finish + 1
            },
            Self::spec_is_plain_item(old(p)@) ==> final(p)@ == Self::after_plain_item(old(p)@),
        decreases old(p)@.remaining(), 15int,
    {
        if p.at(SyntaxKind::DOT3) {
            let rest = self.parse_rest_property_pattern(p);
            if p.at(SyntaxKind::COMMA) {
                if let ParsedSyntax::Present(completed) = rest {
                    let ghost closed = p@;
                    let err = p.err_builder("rest element must be the last element").primary(
                        completed.range(p),
                        no_label(),
                    );
                    p.error(err);
                    proof {
                        lemma_closed_extends(closed, p@, completed);
                        reveal(ParserView::reported);
                        reveal(errors_after);
                    }
                }
            }
            rest
        } else {
            self.parse_property_pattern(p)
        }
    }

    /// Whether the property pattern at the cursor is plain: it is flat, and it has no
    /// initializer or one whose value is an expression of one token.
    pub open spec fn spec_is_plain_property(p: ParserView) -> bool {
        let head = Self::after_flat_property_head(p);
        &&& Self::spec_is_flat_property(p)
        &&& head.cur_kind() != SyntaxKind::EQ || spec_is_atom_initializer(head)
    }

    /// This parser after a plain property pattern: its head, the initializer or a
    /// placeholder in its slot, and the end of the node.
    pub open spec fn after_plain_property(p: ParserView) -> ParserView {
        let head = Self::after_flat_property_head(p);
        let valued = if spec_is_atom_initializer(head) {
            after_atom_initializer(head)
        } else {
            head.with_event(Event::Placeholder)
        };
        valued.with_event(
            Event::FinishNode {
                kind: if Self::spec_is_shorthand(p) {
                    SyntaxKind::JS_OBJECT_BINDING_PATTERN_SHORTHAND_PROPERTY
                } else {
                    SyntaxKind::JS_OBJECT_BINDING_PATTERN_PROPERTY
                },
            },
        )
    }

    /// Whether the item of an object pattern at the cursor is plain: a plain property
    /// pattern, or a rest property with no array or object pattern after its `...`.
    pub open spec fn spec_is_plain_item(p: ParserView) -> bool {
        if p.cur_kind() == SyntaxKind::DOT3 {
            !spec_starts_nested_pattern(p.skipped(1))
        } else {
            Self::spec_is_plain_property(p)
        }
    }

    /// This parser after a plain item of an object pattern.
    pub open spec fn after_plain_item(p: ParserView) -> ParserView {
        if p.cur_kind() == SyntaxKind::DOT3 {
            Self::after_listed_rest(p, Self::after_rest_property(p))
        } else {
            Self::after_plain_property(p)
        }
    }

    /// Whether the property pattern at the cursor is a shorthand property: it starts
    /// with `=`, or with an identifier that no `:` follows.
    pub open spec fn spec_is_shorthand(p: ParserView) -> bool {
        p.cur_kind() == SyntaxKind::EQ || (spec_is_identifier_kind(p.cur_kind()) && p.nth_kind(1)
            != SyntaxKind::COLON)
    }

    /// This parser after the member name of a property that has no computed name:
    /// the name, or, where there is none, an error and a placeholder.
    pub open spec fn after_property_name(p: ParserView) -> ParserView {
        if spec_starts_object_member_name(p.cur_kind()) {
            after_literal_member_name(p)
        } else {
            p.reported(
                spec_expected_any(
                    p,
                    seq!["identifier"@, "string literal"@, "number literal"@, "computed property"@],
                    p.cur_range(),
                ),
            ).with_event(Event::Placeholder)
        }
    }

    /// This parser after the `:` of a property and a pattern that is no array or
    /// object pattern. A missing `:` is reported and leaves two placeholders, one
    /// for itself and one for the pattern; after a `:`, an identifier is bound, and
    /// anything else is reported and leaves a placeholder.
    pub open spec fn after_property_target(p: ParserView) -> ParserView {
        let colon = p.after_expect_required(SyntaxKind::COLON);
        if !p.at(SyntaxKind::COLON) {
            colon.with_event(Event::Placeholder)
        } else if spec_is_identifier_kind(colon.cur_kind()) {
            with_binding(colon)
        } else {
            colon.reported(
                spec_expected_any(
                    colon,
                    seq!["identifier"@, "object pattern"@, "array pattern"@],
                    colon.cur_range(),
                ),
            ).with_event(Event::Placeholder)
        }
    }

    /// Whether the property pattern at the cursor is flat before its initializer:
    /// its name is no computed name, and no array or object pattern follows its `:`.
    pub open spec fn spec_is_flat_property(p: ParserView) -> bool {
        &&& Self::spec_starts_property(p)
        &&& Self::spec_is_shorthand(p) || {
            let named = Self::after_property_name(p.with_event(Event::StartNode));
            &&& p.cur_kind() != SyntaxKind::L_BRACK
            &&& !(named.at(SyntaxKind::COLON) && spec_starts_nested_pattern(
                named.after_expect_required(SyntaxKind::COLON),
            ))
        }
    }

    /// This parser after a flat property pattern up to its initializer: the node is
    /// open, and the binding of a shorthand property, or the name, the `:` and the
    /// pattern of any other, have filled their slots.
    pub open spec fn after_flat_property_head(p: ParserView) -> ParserView {
        let started = p.with_event(Event::StartNode);
        if Self::spec_is_shorthand(p) {
            with_binding(started)
        } else {
            Self::after_property_target(Self::after_property_name(started))
        }
    }

    /// The last slot of the property pattern `m` holds its initializer: a node that
    /// starts at a `=`; or a placeholder, and then no `=` stands at the cursor.
    pub open spec fn holds_initializer_slot(p: ParserView, m: CompletedMarker) -> bool {
        ||| p.events[m.finish - 1] == Event::Placeholder && p.cur_kind() != SyntaxKind::EQ
        ||| exists|value: CompletedMarker|
            {
                &&& #[trigger] p.closed(value)
                &&& value.kind == SyntaxKind::JS_INITIALIZER_CLAUSE
                &&& value.finish + 1 == m.finish
                &&& value.token_end == m.token_end
                &&& value.token_start < p.tokens.len()
                &&& p.tokens[value.token_start as int].kind == SyntaxKind::EQ
            }
    }

    /// How many child slots a property pattern of kind `kind` has: the binding and
    /// the initializer of a shorthand property; the member name, the `:`, the
    /// pattern and the initializer of any other.
    pub open spec fn spec_property_slots(kind: SyntaxKind) -> nat {
        if kind == SyntaxKind::JS_OBJECT_BINDING_PATTERN_SHORTHAND_PROPERTY {
            2
        } else {
            4
        }
    }

    /// Parses a property pattern: the shorthand `a`, or `name: pattern`, each with an
    /// optional initializer. A property has its slots in every case, each filled
    /// with a token, a node or, for what the source lacks, a placeholder.
    #[verifier::rlimit(30)]
    pub fn parse_property_pattern(&self, p: &mut Parser) -> (r: ParsedSyntax<CompletedMarker>)
        requires
            old(p)@.wf(),
        ensures
            final(p)@.answers(old(p)@, r),
            final(p)@.state.same_context(old(p)@.state),
            r is Present <==> Self::spec_starts_property(old(p)@),
            r is Present ==> old(p)@.pos < final(p)@.pos,
            r matches ParsedSyntax::Present(m) ==> m.kind == if old(p)@.cur_kind()
                == SyntaxKind::EQ || (spec_is_identifier_kind(old(p)@.cur_kind())
                && old(p)@.nth_kind(1) != SyntaxKind::COLON) {
                SyntaxKind::JS_OBJECT_BINDING_PATTERN_SHORTHAND_PROPERTY
            } else {
                SyntaxKind::JS_OBJECT_BINDING_PATTERN_PROPERTY
            },
            r matches ParsedSyntax::Present(m) ==> {
                &&& final(p)@.one_node(old(p)@, m)
                &&& m.finish + 1 == final(p)@.events.len()
                &&& m.token_end == final(p)@.pos
                &&& slots_between(
                    final(p)@.events,
                    m.start + 1,
                    m.finish as int,
                    Self::spec_property_slots(m.kind),
                )
            },
            r matches ParsedSyntax::Present(m) ==> Self::holds_initializer_slot(final(p)@, m),
            Self::spec_is_flat_property(old(p)@) ==> {
                let head = Self::after_flat_property_head(old(p)@);
                &&& final(p)@.extends(head)
                &&& head.cur_kind() != SyntaxKind::EQ ==> final(p)@ == head.with_event(
                    Event::Placeholder,
                ).with_event(Event::FinishNode { kind: r->Present_0.kind })
                &&& spec_is_atom_initializer(head) ==> final(p)@ == after_atom_initializer(
                    head,
                ).with_event(Event::FinishNode { kind: r->Present_0.kind })
            },
        decreases old(p)@.remaining(), 14int,
    {
        if !is_at_object_member_name(p) && !(p.at(SyntaxKind::COLON) || p.at(SyntaxKind::EQ)) {
            return ParsedSyntax::Absent;
        }
        let m = p.start();
        let ghost first = p@.events.len() as int;
        proof {
            lemma_no_slots(p@.events, first);
        }

        let kind = if p.at(SyntaxKind::EQ) || (is_at_identifier_binding(p) && !p.nth_at(
            1,
            SyntaxKind::COLON,
        )) {
            self.parse_shorthand_head(p, Ghost(first));
            SyntaxKind::JS_OBJECT_BINDING_PATTERN_SHORTHAND_PROPERTY
        } else {
            self.parse_property_head(p, Ghost(first));
            SyntaxKind::JS_OBJECT_BINDING_PATTERN_PROPERTY
        };

        let ghost head = p@;
        proof {
            assert(Self::spec_is_flat_property(old(p)@) ==> head == Self::after_flat_property_head(
                old(p)@,
            ));
        }
        let initializer = parse_initializer_clause(p);
        let value = initializer.or_missing(p);
        proof {
            if let CompletedNodeOrMissingMarker::NodeMarker(value) = value {
                lemma_node_is_slot(head, p@, value);
            }
            lemma_slot_grows(head, p@, first, (Self::spec_property_slots(kind) - 1) as nat);
        }
        let ghost filled = p@;
        let completed = m.complete(p, kind);
        proof {
            reveal(ParserView::with_event);
            if let CompletedNodeOrMissingMarker::NodeMarker(value) = value {
                lemma_closed_extends(filled, p@, value);
                assert(head.cur_kind() == SyntaxKind::EQ);
                assert(head.tokens[head.pos as int].kind == SyntaxKind::EQ);
            } else {
                assert(filled.events.last() == Event::Placeholder);
            }
            assert(Self::holds_initializer_slot(p@, completed));
            lemma_slots_kept(
                filled.events,
                p@.events,
                first,
                filled.events.len() as int,
                Self::spec_property_slots(kind),
            );
        }
        ParsedSyntax::Present(completed)
    }

    /// The one slot of a shorthand property before its initializer: the binding.
    fn parse_shorthand_head(&self, p: &mut Parser, Ghost(first): Ghost<int>)
        requires
            old(p)@.wf(),
            slots_between(old(p)@.events, first, old(p)@.events.len() as int, 0),
        ensures
            final(p)@.follows(old(p)@),
            final(p)@.state.same_context(old(p)@.state),
            final(p)@.pos == if spec_is_identifier_kind(old(p)@.cur_kind()) {
                old(p)@.pos + 1
            } else {
                old(p)@.pos
            },
            slots_between(final(p)@.events, first, final(p)@.events.len() as int, 1),
            final(p)@ == with_binding(old(p)@),
    {
        let binding = parse_binding(p);
        proof {
            lemma_node_is_slot(old(p)@, p@, binding->Present_0);
            lemma_slot_grows(old(p)@, p@, first, 0);
        }
        // `parse_binding` answers with a node in every case, so the slot is filled.
        binding.or_missing_with_error(p, expected_identifier);
    }

    /// The three slots of a property before its initializer: the member name, the
    /// `:` and the pattern.
    fn parse_property_head(&self, p: &mut Parser, Ghost(first): Ghost<int>)
        requires
            old(p)@.wf(),
            slots_between(old(p)@.events, first, old(p)@.events.len() as int, 0),
        ensures
            final(p)@.follows(old(p)@),
            final(p)@.state.same_context(old(p)@.state),
            spec_starts_object_member_name(old(p)@.cur_kind()) || old(p)@.cur_kind()
                == SyntaxKind::COLON ==> old(p)@.pos < final(p)@.pos,
            slots_between(final(p)@.events, first, final(p)@.events.len() as int, 3),
            ({
                let named = Self::after_property_name(old(p)@);
                old(p)@.cur_kind() != SyntaxKind::L_BRACK && !(named.at(SyntaxKind::COLON)
                    && spec_starts_nested_pattern(named.after_expect_required(SyntaxKind::COLON)))
                    ==> final(p)@ == Self::after_property_target(named)
            }),
        decreases old(p)@.remaining(), 13int,
    {
        let name = parse_object_member_name(p);
        let name = name.or_missing_with_error(p, expected_object_member_name);
        proof {
            if let CompletedNodeOrMissingMarker::NodeMarker(node) = name {
                lemma_node_is_slot(old(p)@, p@, node);
            }
            lemma_slot_grows(old(p)@, p@, first, 0);
        }
        let ghost before_colon = p@;
        let colon = p.expect_required(SyntaxKind::COLON);
        proof {
            lemma_slot_grows(before_colon, p@, first, 1);
        }
        let ghost after_colon = p@;
        if colon {
            let pattern = parse_binding_pattern(p);
            let pattern = pattern.or_missing_with_error(p, expected_binding);
            proof {
                if let CompletedNodeOrMissingMarker::NodeMarker(node) = pattern {
                    lemma_node_is_slot(after_colon, p@, node);
                }
            }
        } else {
            p.missing();
        }
        proof {
            lemma_slot_grows(after_colon, p@, first, 2);
        }
    }

    /// The error for a rest property that binds a pattern and not an identifier.
    pub open spec fn rest_binding_error(range: TextRange) -> DiagnosticView {
        DiagnosticView::error("Expected identifier binding"@).primary(
            range,
            "Object rest patterns must bind to an identifier, other patterns are not allowed."@,
        )
    }

    /// The error for a rest property that is not the last property.
    pub open spec fn rest_not_last_error(range: TextRange) -> DiagnosticView {
        DiagnosticView::error("rest element must be the last element"@).primary(
            range,
            Seq::empty(),
        )
    }

    /// This parser where the binding of a rest property begins: the node is open and
    /// the `...` is read.
    pub open spec fn rest_inside(p: ParserView) -> ParserView {
        p.with_event(Event::StartNode).bumped(SyntaxKind::DOT3)
    }

    /// What a rest property leaves of `p`, which stands at `...`, where no array or
    /// object pattern follows the `...`: the node holds the `...` and then the
    /// binding of the identifier, or, where there is none, an error and a
    /// placeholder.
    #[verifier::opaque]
    pub open spec fn after_rest_property(p: ParserView) -> ParserView {
        let inside = Self::rest_inside(p);
        let bound = if spec_is_identifier_kind(inside.cur_kind()) {
            with_binding(inside)
        } else {
            inside.reported(
                spec_expected_node(inside, "identifier"@, inside.cur_range()),
            ).with_event(Event::Placeholder)
        };
        bound.with_event(Event::FinishNode { kind: SyntaxKind::JS_OBJECT_BINDING_PATTERN_REST })
    }

    /// How many diagnostics a rest property adds where no array or object pattern
    /// follows the `...`: one for an identifier that cannot be bound, one for a
    /// missing one, none for an identifier that is bound.
    pub open spec fn rest_property_diagnostics(p: ParserView) -> nat {
        let inner = p.skipped(1);
        if spec_is_identifier_kind(inner.cur_kind()) {
            binding_diagnostics(inner)
        } else {
            1
        }
    }

    /// This parser after a rest property or a rest element in its list: what the rest
    /// left, `rest`, and, where a `,` follows it, the error that says that it is the
    /// last of its list.
    pub open spec fn after_listed_rest(p: ParserView, rest: ParserView) -> ParserView {
        if rest.cur_kind() == SyntaxKind::COMMA {
            rest.reported(Self::rest_not_last_error(p.span_range(p.pos as int, rest.pos as int)))
        } else {
            rest
        }
    }

    /// What a rest property leaves of `p`, which stands at `...`, where a plain array
    /// or object pattern follows the `...`: the pattern, the error that reports it at
    /// its range, the kind of the pattern changed to an unknown binding, and the
    /// end of the node.
    pub open spec fn after_rest_over_pattern(p: ParserView) -> ParserView {
        let inner = after_plain_pattern(Self::rest_inside(p));
        inner.reported(
            Self::rest_binding_error(p.span_range(p.pos as int + 1, inner.pos as int)),
        ).with_event_at(
            inner.events.len() - 1,
            Event::FinishNode { kind: SyntaxKind::JS_UNKNOWN_BINDING },
        ).with_event(Event::FinishNode { kind: SyntaxKind::JS_OBJECT_BINDING_PATTERN_REST })
    }

    /// A rest property over a name in braces, `...{ a }`, where the name can be bound:
    /// the pattern in braces is a plain pattern, and the rest property adds exactly
    /// one diagnostic, which says that an identifier was expected, at the range of
    /// the pattern in braces; the cursor stands after the `}`.
    pub proof fn law_rest_over_a_name_in_braces(p: ParserView)
        requires
            p.pos + 4 <= p.tokens.len(),
            p.cur_kind() == SyntaxKind::DOT3,
            p.nth_kind(1) == SyntaxKind::L_CURLY,
            p.nth_kind(2) == SyntaxKind::IDENT,
            p.nth_kind(3) == SyntaxKind::R_CURLY,
            p.state.allow_object_expr,
            binding_error(p.state, p.nth_text(2), p.range_at(p.pos as int + 2)) is None,
        ensures
            spec_starts_nested_pattern(p.skipped(1)),
            spec_is_plain_pattern(Self::rest_inside(p)),
            Self::after_rest_over_pattern(p).diagnostics == p.diagnostics.push(
                Self::rest_binding_error(p.span_range(p.pos as int + 1, p.pos as int + 4)),
            ),
            Self::after_rest_over_pattern(p).pos == p.pos + 4,
    {
        reveal(ParserView::with_event);
        reveal(ParserView::bumped);
        reveal(ParserView::reported);
        reveal(ParserView::with_state);
        reveal(ParserView::with_event_at);
        reveal(ParserView::after_expect_required);
        reveal(with_binding);
        reveal(with_identifier_binding);
        reveal(with_identifier);
        reveal(ObjectBindingPattern::spec_is_plain_object);
        reveal(ObjectBindingPattern::after_plain_object);
        let inside = Self::rest_inside(p);
        let items = Self::object_inside(inside);
        let fuel = inside.remaining() as nat;
        assert(items.pos == p.pos + 2);
        assert(items.tokens == p.tokens);
        assert(items.state == p.state);
        assert(items.cur_kind() == SyntaxKind::IDENT);
        assert(items.nth_kind(1) == SyntaxKind::R_CURLY);
        let started = items.with_event(Event::StartNode);
        assert(started.cur_text() == p.nth_text(2));
        assert(started.cur_range() == p.range_at(p.pos as int + 2));
        assert(identifier_binding_is_valid(started));
        let head = Self::after_flat_property_head(items);
        assert(head == with_binding(started));
        assert(head.pos == p.pos + 3);
        assert(head.cur_kind() == SyntaxKind::R_CURLY);
        assert(head.diagnostics == p.diagnostics);
        assert(Self::spec_is_flat_property(items));
        assert(Self::spec_is_plain_item(items));
        let one = Self::after_plain_round(items);
        assert(one == Self::after_plain_property(items));
        assert(one.cur_kind() == SyntaxKind::R_CURLY);
        assert(Self::spec_plain_items(items, fuel)) by {
            reveal_with_fuel(ObjectBindingPattern::spec_plain_items, 2);
        }
        assert(Self::after_plain_items(items, fuel) == one) by {
            reveal_with_fuel(ObjectBindingPattern::after_plain_items, 2);
        }
        let inner = after_plain_pattern(inside);
        assert(inner.pos == p.pos + 4);
        assert(inner.diagnostics == p.diagnostics);
    }

    /// What a rest property holds where an array or an object pattern follows the
    /// `...`: the pattern is the node `inner`, retagged as an unknown binding, and
    /// the error that reports it stands between the end of `inner` and the end of
    /// the rest property `m`.
    pub open spec fn holds_rejected_pattern(
        p: ParserView,
        old: ParserView,
        m: CompletedMarker,
        inner: CompletedMarker,
    ) -> bool {
        &&& p.closed(inner)
        &&& inner.start == old.events.len() + 2
        &&& inner.token_start == old.pos + 1
        &&& inner.kind == SyntaxKind::JS_UNKNOWN_BINDING
        &&& inner.finish + 2 == m.finish
        &&& inner.token_end == m.token_end
        &&& p.events[m.finish - 1] is Error
        &&& 0 <= p.events[m.finish - 1]->diagnostic < p.diagnostics.len()
        &&& p.diagnostics[p.events[m.finish - 1]->diagnostic as int] == Self::rest_binding_error(
            p.span_range(inner.token_start as int, inner.token_end as int),
        )
    }

    /// Parses a rest property: `...` and the identifier that takes the rest. Any
    /// other pattern after `...` is reported and becomes an unknown binding. The
    /// rule does not look at what follows the property.
    pub fn parse_rest_property_pattern(&self, p: &mut Parser) -> (r: ParsedSyntax<
        CompletedMarker,
    >)
        requires
            old(p)@.wf(),
        ensures
            final(p)@.answers(old(p)@, r),
            final(p)@.state.same_context(old(p)@.state),
            r is Present <==> old(p)@.cur_kind() == SyntaxKind::DOT3,
            r is Present ==> old(p)@.pos < final(p)@.pos,
            r matches ParsedSyntax::Present(m) ==> {
                &&& m.kind == SyntaxKind::JS_OBJECT_BINDING_PATTERN_REST
                &&& final(p)@.one_node(old(p)@, m)
                &&& final(p)@.events.len() == m.finish + 1
                &&& m.token_end == final(p)@.pos
                &&& final(p)@.events[old(p)@.events.len() as int + 1] == (Event::Token {
                    index: old(p)@.pos as usize,
                    kind: SyntaxKind::DOT3,
                })
                &&& if spec_starts_nested_pattern(old(p)@.skipped(1)) {
                    &&& exists|inner: CompletedMarker|
                        Self::holds_rejected_pattern(final(p)@, old(p)@, m, inner)
                    &&& spec_is_plain_pattern(Self::rest_inside(old(p)@)) ==> final(p)@
                        == Self::after_rest_over_pattern(old(p)@)
                } else {
                    &&& final(p)@ == Self::after_rest_property(old(p)@)
                    &&& final(p)@.diagnostics.len() == old(p)@.diagnostics.len()
                        + Self::rest_property_diagnostics(old(p)@)
                    &&& final(p)@.pos == old(p)@.pos + if spec_is_identifier_kind(
                        old(p)@.nth_kind(1),
                    ) {
                        2int
                    } else {
                        1int
                    }
                }
            },
        decreases old(p)@.remaining(), 13int,
    {
        if p.at(SyntaxKind::DOT3) {
            let ghost entry = p@;
            let m = p.start();
            p.bump(SyntaxKind::DOT3);
            let ghost inside = p@;
            proof {
                reveal(ObjectBindingPattern::after_rest_property);
                reveal(ParserView::with_event);
                reveal(ParserView::bumped);
                reveal(ParserView::reported);
                reveal(ParserView::with_event_at);
                reveal(errors_after);
                assert(binding_diagnostics(inside) == binding_diagnostics(entry.skipped(1)));
                assert(inside.cur_kind() == entry.skipped(1).cur_kind());
                assert(inside.cur_text() == entry.skipped(1).cur_text());
                assert(inside.cur_range() == entry.skipped(1).cur_range());
                assert(inside.state == entry.skipped(1).state);
                assert(inside.events[entry.events.len() as int + 1] == (Event::Token {
                    index: entry.pos as usize,
                    kind: SyntaxKind::DOT3,
                }));
            }

            let inner = parse_binding_pattern(p).or_missing_with_error(p, expected_identifier);
            let ghost bound = p@;
            let ghost rejected: Option<CompletedMarker> = None;

            if let CompletedNodeOrMissingMarker::NodeMarker(inner) = inner {
                let mut inner = inner;
                if inner.kind() != SyntaxKind::JS_IDENTIFIER_BINDING {
                    let inner_range = inner.range(p);
                    // One error for one binding: an unknown binding has been reported.
                    if inner.kind() != SyntaxKind::JS_UNKNOWN_BINDING {
                        let ghost before = p@;
                        let err = p.err_builder("Expected identifier binding").primary(
                            inner_range,
                            "Object rest patterns must bind to an identifier, other patterns are not allowed.",
                        );
                        p.error(err);
                        proof {
                            lemma_closed_extends(before, p@, inner);
                        }
                    } else {
                        proof {
                            lemma_closed_closes(p@, inner);
                            assert(p@.events.update(
                                inner.finish as int,
                                Event::FinishNode { kind: SyntaxKind::JS_UNKNOWN_BINDING },
                            ) =~= p@.events);
                        }
                    }
                    inner.change_kind(p, SyntaxKind::JS_UNKNOWN_BINDING);
                    assert(p@.extends(entry));
                    assert(p@.extends(inside));
                    proof {
                        rejected = Some(inner);
                    }
                }
            }
            let ghost patched = p@;
            let completed = m.complete(p, SyntaxKind::JS_OBJECT_BINDING_PATTERN_REST);
            proof {
                if let Some(inner) = rejected {
                    lemma_closed_extends(patched, p@, inner);
                }
                let dots = entry.events.len() as int + 1;
                assert(p@.events[dots] == inside.events[dots]);
                if spec_starts_nested_pattern(entry.skipped(1)) {
                    assert(Self::holds_rejected_pattern(p@, entry, completed, rejected->Some_0));
                } else {
                    assert(p@.diagnostics == bound.diagnostics);
                }
            }
            ParsedSyntax::Present(completed)
        } else {
            ParsedSyntax::Absent
        }
    }
}

} // verus!
