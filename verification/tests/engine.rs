#![allow(dead_code, unused_imports)]

use rslint_parser::diagnostic::{DiagnosticBuilder, Severity};
use rslint_parser::event::Event;
use rslint_parser::feature::JsSyntaxFeature;
use rslint_parser::parsed_syntax::{CompletedNodeOrMissingMarker, ConditionalSyntax, ParsedSyntax};
use rslint_parser::parser::{CompletedMarker, Parser, ParserProgress};
use rslint_parser::recovery::{ParseRecovery, RecoveryError};
use rslint_parser::speculative::try_parse;
use rslint_parser::state::{BindingParent, NameMap, ParserState};
use rslint_parser::syntax_kind::{FileKind, Syntax, SyntaxKind};
use rslint_parser::token::{str_eq, TextRange, Token};
use rslint_parser::tree::{SyntaxElement, SyntaxTree};

fn keyword(word: &str) -> Option<SyntaxKind> {
    Some(match word {
        "await" => SyntaxKind::AWAIT_KW,
        "class" => SyntaxKind::CLASS_KW,
        "const" => SyntaxKind::CONST_KW,
        "default" => SyntaxKind::DEFAULT_KW,
        "enum" => SyntaxKind::ENUM_KW,
        "export" => SyntaxKind::EXPORT_KW,
        "extends" => SyntaxKind::EXTENDS_KW,
        "false" => SyntaxKind::FALSE_KW,
        "for" => SyntaxKind::FOR_KW,
        "function" => SyntaxKind::FUNCTION_KW,
        "import" => SyntaxKind::IMPORT_KW,
        "in" => SyntaxKind::IN_KW,
        "new" => SyntaxKind::NEW_KW,
        "null" => SyntaxKind::NULL_KW,
        "return" => SyntaxKind::RETURN_KW,
        "this" => SyntaxKind::THIS_KW,
        "true" => SyntaxKind::TRUE_KW,
        "typeof" => SyntaxKind::TYPEOF_KW,
        "var" => SyntaxKind::VAR_KW,
        "void" => SyntaxKind::VOID_KW,
        "yield" => SyntaxKind::YIELD_KW,
        _ => return None,
    })
}

fn punctuation(text: &str) -> Option<(SyntaxKind, usize)> {
    let table: [(&str, SyntaxKind); 25] = [
        ("...", SyntaxKind::DOT3),
        ("==", SyntaxKind::EQ2),
        ("!=", SyntaxKind::NEQ),
        ("&&", SyntaxKind::AMP2),
        ("||", SyntaxKind::PIPE2),
        (";", SyntaxKind::SEMICOLON),
        (",", SyntaxKind::COMMA),
        ("(", SyntaxKind::L_PAREN),
        (")", SyntaxKind::R_PAREN),
        ("{", SyntaxKind::L_CURLY),
        ("}", SyntaxKind::R_CURLY),
        ("[", SyntaxKind::L_BRACK),
        ("]", SyntaxKind::R_BRACK),
        (".", SyntaxKind::DOT),
        (":", SyntaxKind::COLON),
        ("?", SyntaxKind::QUESTION),
        ("=", SyntaxKind::EQ),
        ("<", SyntaxKind::L_ANGLE),
        (">", SyntaxKind::R_ANGLE),
        ("+", SyntaxKind::PLUS),
        ("-", SyntaxKind::MINUS),
        ("*", SyntaxKind::STAR),
        ("/", SyntaxKind::SLASH),
        ("%", SyntaxKind::PERCENT),
        ("!", SyntaxKind::BANG),
    ];
    for (spelling, kind) in table {
        if text.starts_with(spelling) {
            return Some((kind, spelling.len()));
        }
    }
    None
}

/// A lexer for the tests: words, numbers, strings and punctuation, with the line
/// breaks recorded on the token that follows them.
fn lex(source: &str) -> Vec<Token> {
    let bytes = source.as_bytes();
    let mut tokens = Vec::new();
    let mut i = 0;
    let mut after_newline = false;
    while i < bytes.len() {
        let c = bytes[i] as char;
        if c == '\n' {
            after_newline = true;
            i += 1;
            continue;
        }
        if c.is_whitespace() {
            i += 1;
            continue;
        }
        let start = i;
        let kind = if c.is_ascii_alphabetic() || c == '_' || c == '$' {
            while i < bytes.len()
                && ((bytes[i] as char).is_ascii_alphanumeric() || bytes[i] == b'_' || bytes[i] == b'$')
            {
                i += 1;
            }
            keyword(&source[start..i]).unwrap_or(SyntaxKind::IDENT)
        } else if c.is_ascii_digit() {
            while i < bytes.len() && (bytes[i] as char).is_ascii_digit() {
                i += 1;
            }
            SyntaxKind::JS_NUMBER_LITERAL
        } else if c == '"' || c == '\'' {
            i += 1;
            while i < bytes.len() && bytes[i] as char != c {
                i += 1;
            }
            if i < bytes.len() {
                i += 1;
            }
            SyntaxKind::JS_STRING_LITERAL
        } else if let Some((kind, len)) = punctuation(&source[i..]) {
            i += len;
            kind
        } else {
            i += 1;
            SyntaxKind::ERROR_TOKEN
        };
        tokens.push(Token::new(
            kind,
            TextRange::new(start, i),
            source[start..i].to_string(),
            after_newline,
        ));
        after_newline = false;
    }
    tokens
}

fn parser_for(source: &str, file_kind: FileKind) -> Parser {
    Parser::new(lex(source), Syntax { file_kind })
}

fn script(source: &str) -> Parser {
    parser_for(source, FileKind::Script)
}

fn module(source: &str) -> Parser {
    parser_for(source, FileKind::Module)
}

fn typescript(source: &str) -> Parser {
    parser_for(source, FileKind::TypeScript)
}

/// The token numbers that the buffer attaches, in order.
fn attached_tokens(events: &[Event]) -> Vec<usize> {
    events
        .iter()
        .filter_map(|e| match e {
            Event::Token { index, .. } => Some(*index),
            _ => None,
        })
        .collect()
}

/// Whether the brackets of the buffer nest and none is left open.
fn is_balanced(events: &[Event]) -> bool {
    let mut depth: usize = 0;
    for e in events {
        match e {
            Event::StartNode => depth += 1,
            Event::FinishNode { .. } => {
                if depth == 0 {
                    return false;
                }
                depth -= 1;
            }
            _ => {}
        }
    }
    depth == 0
}

/// The kinds of the nodes of the buffer, in the order in which they are closed.
fn closed_kinds(events: &[Event]) -> Vec<SyntaxKind> {
    events
        .iter()
        .filter_map(|e| match e {
            Event::FinishNode { kind } => Some(*kind),
            _ => None,
        })
        .collect()
}

fn messages(p: &Parser) -> Vec<String> {
    p.diagnostics().iter().map(|d| d.message().to_string()).collect()
}

fn render_element(tokens: &[Token], tree: &SyntaxTree, element: SyntaxElement) -> String {
    match element {
        SyntaxElement::Node { start, kind } => {
            let children: Vec<String> = tree
                .children(start)
                .into_iter()
                .map(|child| render_element(tokens, tree, child))
                .collect();
            format!("{:?}({})", kind, children.join(" "))
        }
        SyntaxElement::Token { index, .. } => tokens[index].text.clone(),
        SyntaxElement::Error { .. } => "!".to_string(),
        SyntaxElement::Placeholder => "_".to_string(),
    }
}

/// The tree of a finished parse, written out: a node as its kind and its children in
/// parentheses, a token as its text, an attached diagnostic as `!`, a placeholder as
/// `_`.
fn render(p: &Parser) -> String {
    let tree = SyntaxTree::new(p.events().clone()).expect("the buffer is balanced");
    let parts: Vec<String> = tree
        .roots()
        .into_iter()
        .map(|element| render_element(p.tokens(), &tree, element))
        .collect();
    parts.join(" ")
}

fn expected_thing(p: &Parser, range: TextRange) -> DiagnosticBuilder {
    p.err_builder("expected a thing").primary(range, "here")
}

#[test]
fn new_parser_is_empty() {
    let p = script("a b");
    assert_eq!(p.position(), 0);
    assert_eq!(p.events().len(), 0);
    assert_eq!(p.diagnostics().len(), 0);
    assert_eq!(p.tokens().len(), 2);
    assert!(!p.state().strict);
    assert_eq!(p.state().ambient_depth, 0);
    assert!(p.state().duplicate_binding_parent.is_none());
}

#[test]
fn module_is_strict_from_the_start() {
    assert!(module("a").state().strict);
    assert!(!typescript("a").state().strict);
    assert!(JsSyntaxFeature::StrictMode.is_supported(&module("a")));
    assert!(!JsSyntaxFeature::StrictMode.is_supported(&script("a")));
    assert!(JsSyntaxFeature::TypeScript.is_supported(&typescript("a")));
    assert!(!JsSyntaxFeature::TypeScript.is_supported(&module("a")));
}

#[test]
fn lookahead_reads_kinds_and_texts() {
    let p = script("let x = 1");
    assert_eq!(p.cur(), SyntaxKind::IDENT);
    assert_eq!(p.cur_src(), "let");
    assert_eq!(p.nth(1), SyntaxKind::IDENT);
    assert_eq!(p.nth_src(1), "x");
    assert_eq!(p.nth(2), SyntaxKind::EQ);
    assert_eq!(p.nth(3), SyntaxKind::JS_NUMBER_LITERAL);
    assert_eq!(p.nth(4), SyntaxKind::EOF);
    assert_eq!(p.nth_src(4), "");
    assert_eq!(p.nth(usize::MAX), SyntaxKind::EOF);
    assert!(p.nth_at(2, SyntaxKind::EQ));
    assert!(!p.at(SyntaxKind::EQ));
    assert_eq!(p.cur_tok().range, TextRange::new(0, 3));
}

#[test]
fn current_token_past_the_end_is_eof_at_the_end_of_the_source() {
    let mut p = script("ab cd");
    p.bump_any();
    p.bump_any();
    assert!(p.at_end());
    assert_eq!(p.cur(), SyntaxKind::EOF);
    assert_eq!(p.cur_src(), "");
    assert_eq!(p.cur_tok().range, TextRange::new(5, 5));
    let empty = script("");
    assert_eq!(empty.cur_tok().range, TextRange::new(0, 0));
}

#[test]
fn line_breaks_are_seen_before_the_token_that_follows() {
    let p = script("a\nb c");
    assert!(!p.has_linebreak_before_n(0));
    assert!(p.has_linebreak_before_n(1));
    assert!(!p.has_linebreak_before_n(2));
    assert!(!p.has_linebreak_before_n(3));
}

#[test]
fn start_and_complete_bracket_a_node() {
    let mut p = script("a");
    let m = p.start();
    assert_eq!(m.pos, 0);
    assert_eq!(m.token_start, 0);
    p.bump_any();
    let done = m.complete(&mut p, SyntaxKind::NAME);
    assert_eq!(
        done,
        CompletedMarker { start: 0, finish: 2, kind: SyntaxKind::NAME, token_start: 0, token_end: 1 }
    );
    assert_eq!(
        p.events().as_slice(),
        &[
            Event::StartNode,
            Event::Token { index: 0, kind: SyntaxKind::IDENT },
            Event::FinishNode { kind: SyntaxKind::NAME },
        ]
    );
    assert_eq!(done.kind(), SyntaxKind::NAME);
    assert_eq!(done.range(&p), TextRange::new(0, 1));
    assert_eq!(done.text(&p), "a");
}

#[test]
fn range_and_text_of_a_node_span_its_tokens() {
    let mut p = script("ab  cd ef");
    p.bump_any();
    let m = p.start();
    p.bump_any();
    p.bump_any();
    let done = m.complete(&mut p, SyntaxKind::LIST);
    assert_eq!(done.range(&p), TextRange::new(4, 9));
    assert_eq!(done.text(&p), "cdef");
}

#[test]
fn range_of_an_empty_node_is_empty_at_its_start() {
    let mut p = script("ab cd");
    p.bump_any();
    let m = p.start();
    let done = m.complete(&mut p, SyntaxKind::JS_ARRAY_HOLE);
    assert_eq!(done.range(&p), TextRange::new(3, 3));
    assert_eq!(done.text(&p), "");
}

#[test]
fn abandon_leaves_the_children_to_the_node_around() {
    let mut p = script("a b");
    let outer = p.start();
    let inner = p.start();
    p.bump_any();
    inner.abandon(&mut p);
    p.bump_any();
    outer.complete(&mut p, SyntaxKind::LIST);
    assert_eq!(
        p.events().as_slice(),
        &[
            Event::StartNode,
            Event::Tombstone,
            Event::Token { index: 0, kind: SyntaxKind::IDENT },
            Event::Token { index: 1, kind: SyntaxKind::IDENT },
            Event::FinishNode { kind: SyntaxKind::LIST },
        ]
    );
    assert!(is_balanced(p.events()));
}

#[test]
fn change_kind_retags_in_place() {
    let mut p = script("a b");
    let m = p.start();
    p.bump_any();
    let mut done = m.complete(&mut p, SyntaxKind::JS_IDENTIFIER_BINDING);
    p.bump_any();
    let before = p.events().len();
    done.change_kind(&mut p, SyntaxKind::JS_UNKNOWN_BINDING);
    assert_eq!(done.kind(), SyntaxKind::JS_UNKNOWN_BINDING);
    assert_eq!(p.events().len(), before);
    assert_eq!(p.events()[2], Event::FinishNode { kind: SyntaxKind::JS_UNKNOWN_BINDING });
    assert_eq!(p.events()[3], Event::Token { index: 1, kind: SyntaxKind::IDENT });
}

#[test]
fn undo_completion_reopens_the_node() {
    let mut p = script("a b");
    let m = p.start();
    p.bump_any();
    let done = m.complete(&mut p, SyntaxKind::NAME);
    let reopened = done.undo_completion(&mut p);
    assert_eq!(reopened.pos, 0);
    assert_eq!(p.events()[2], Event::Tombstone);
    p.bump_any();
    let wider = reopened.complete(&mut p, SyntaxKind::LIST);
    assert_eq!(wider.start, 0);
    assert_eq!(wider.finish, 4);
    assert_eq!(wider.text(&p), "ab");
    assert!(is_balanced(p.events()));
}

#[test]
fn bump_remap_retags_the_token() {
    let mut p = script("from");
    p.bump_remap(SyntaxKind::FROM_KW);
    assert_eq!(p.events().as_slice(), &[Event::Token { index: 0, kind: SyntaxKind::FROM_KW }]);
    p.bump_remap(SyntaxKind::FROM_KW);
    p.bump_any();
    assert_eq!(p.events().len(), 1);
    assert_eq!(p.position(), 1);
}

#[test]
fn eat_takes_only_the_kind_asked_for() {
    let mut p = script(", ;");
    assert!(!p.eat(SyntaxKind::SEMICOLON));
    assert_eq!(p.position(), 0);
    assert_eq!(p.events().len(), 0);
    assert!(p.eat(SyntaxKind::COMMA));
    assert!(p.eat(SyntaxKind::SEMICOLON));
    assert!(!p.eat(SyntaxKind::EOF));
    assert_eq!(p.position(), 2);
}

#[test]
fn eat_optional_fills_the_slot() {
    let mut p = script(";");
    assert!(!p.eat_optional(SyntaxKind::COMMA));
    assert_eq!(p.events().as_slice(), &[Event::Placeholder]);
    assert!(p.eat_optional(SyntaxKind::SEMICOLON));
    assert_eq!(p.diagnostics().len(), 0);
}

#[test]
fn expect_required_reports_and_fills_the_slot() {
    let mut p = script("x");
    assert!(!p.expect_required(SyntaxKind::L_PAREN));
    assert_eq!(p.position(), 0);
    assert_eq!(p.events().as_slice(), &[Event::Placeholder, Event::Error { diagnostic: 0 }]);
    let d = &p.diagnostics()[0];
    assert_eq!(d.severity(), Severity::Error);
    assert_eq!(d.message(), "expected `(` but instead found `x`");
    assert_eq!(d.primary_range(), Some(TextRange::new(0, 1)));
    assert_eq!(d.primary_message(), Some("unexpected"));
    assert_eq!(d.secondary_len(), 0);
}

#[test]
fn expect_at_the_end_says_that_the_file_ends() {
    let mut p = script("x");
    p.bump_any();
    assert!(!p.expect(SyntaxKind::R_CURLY));
    assert_eq!(p.events().len(), 2);
    let d = &p.diagnostics()[0];
    assert_eq!(d.message(), "expected `}` but instead the file ends");
    assert_eq!(d.primary_range(), Some(TextRange::new(1, 1)));
    assert_eq!(d.primary_message(), Some("the file ends here"));
}

#[test]
fn expect_eats_what_is_there() {
    let mut p = script("( )");
    assert!(p.expect(SyntaxKind::L_PAREN));
    assert!(p.expect_required(SyntaxKind::R_PAREN));
    assert_eq!(p.diagnostics().len(), 0);
    assert_eq!(attached_tokens(p.events()), vec![0, 1]);
}

#[test]
fn describe_spells_tokens_and_names_the_rest() {
    assert_eq!(SyntaxKind::DOT3.describe(), "...");
    assert_eq!(SyntaxKind::FUNCTION_KW.describe(), "function");
    assert_eq!(SyntaxKind::JS_STRING_LITERAL.describe(), "a string literal");
    assert_eq!(SyntaxKind::JS_SCRIPT.describe(), "a syntax node");
    assert!(SyntaxKind::FROM_KW.is_keyword());
    assert!(SyntaxKind::YIELD_KW.is_keyword());
    assert!(!SyntaxKind::IDENT.is_keyword());
    assert!(!SyntaxKind::SEMICOLON.is_keyword());
}

#[test]
fn error_appends_to_the_sink_and_attaches_to_the_buffer() {
    let mut p = script("a");
    let first = p.err_builder("one").primary(TextRange::new(0, 1), "first");
    p.error(first);
    p.bump_any();
    let second = p
        .err_builder("two")
        .secondary(TextRange::new(0, 1), "see")
        .secondary(TextRange::new(1, 1), "and see")
        .primary(TextRange::new(1, 1), "second");
    p.error(second);
    assert_eq!(
        p.events().as_slice(),
        &[
            Event::Error { diagnostic: 0 },
            Event::Token { index: 0, kind: SyntaxKind::IDENT },
            Event::Error { diagnostic: 1 },
        ]
    );
    assert_eq!(messages(&p), vec!["one", "two"]);
    let d = &p.diagnostics()[1];
    assert_eq!(d.secondary_len(), 2);
    assert_eq!(d.secondary_range(0), TextRange::new(0, 1));
    assert_eq!(d.secondary_message(0), "see");
    assert_eq!(d.secondary_message(1), "and see");
    assert_eq!(d.primary_message(), Some("second"));
}

#[test]
fn warnings_are_diagnostics_of_their_own_severity() {
    let mut p = script("a");
    p.error(DiagnosticBuilder::warning("careful").primary(TextRange::new(0, 1), "here"));
    let d = &p.diagnostics()[0];
    assert_eq!(d.severity(), Severity::Warning);
    assert_eq!(d.message(), "careful");
    assert_eq!(p.events().as_slice(), &[Event::Error { diagnostic: 0 }]);
}

#[test]
fn diagnostic_without_a_primary_label_has_none() {
    let d = DiagnosticBuilder::error("bare").build();
    assert_eq!(d.message(), "bare");
    assert_eq!(d.primary_range(), None);
    assert_eq!(d.primary_message(), None);
    assert_eq!(d.secondary_len(), 0);
}

#[test]
fn or_missing_with_error_passes_a_node_through() {
    let mut p = script("a");
    let m = p.start();
    p.bump_any();
    let done = m.complete(&mut p, SyntaxKind::NAME);
    let before = p.events().len();
    let slot = ParsedSyntax::Present(done).or_missing_with_error(&mut p, expected_thing);
    assert_eq!(slot, CompletedNodeOrMissingMarker::NodeMarker(done));
    assert_eq!(p.events().len(), before);
    assert_eq!(p.diagnostics().len(), 0);
}

#[test]
fn or_missing_with_error_reports_and_leaves_a_placeholder() {
    let mut p = script("a");
    let absent: ParsedSyntax<CompletedMarker> = ParsedSyntax::Absent;
    let slot = absent.or_missing_with_error(&mut p, expected_thing);
    assert_eq!(slot, CompletedNodeOrMissingMarker::MissingMarker);
    assert_eq!(p.events().as_slice(), &[Event::Error { diagnostic: 0 }, Event::Placeholder]);
    assert_eq!(p.diagnostics()[0].message(), "expected a thing");
    assert_eq!(p.diagnostics()[0].primary_range(), Some(TextRange::new(0, 1)));
    assert_eq!(p.position(), 0);
}

#[test]
fn or_missing_leaves_a_placeholder_and_no_error() {
    let mut p = script("a");
    let absent: ParsedSyntax<CompletedMarker> = ParsedSyntax::Absent;
    assert_eq!(absent.or_missing(&mut p), CompletedNodeOrMissingMarker::MissingMarker);
    assert_eq!(p.events().as_slice(), &[Event::Placeholder]);
    assert_eq!(p.diagnostics().len(), 0);
}

#[test]
fn or_invalid_to_unknown_keeps_a_valid_node() {
    let mut p = script("a");
    let m = p.start();
    p.bump_any();
    let done = m.complete(&mut p, SyntaxKind::JS_IDENTIFIER_BINDING);
    let r = ParsedSyntax::Present(ConditionalSyntax::Valid(done))
        .or_invalid_to_unknown(&mut p, SyntaxKind::JS_UNKNOWN_BINDING);
    assert_eq!(r, ParsedSyntax::Present(done));
    assert_eq!(p.events()[2], Event::FinishNode { kind: SyntaxKind::JS_IDENTIFIER_BINDING });
}

#[test]
fn or_invalid_to_unknown_demotes_an_invalid_node() {
    let mut p = script("a");
    let m = p.start();
    p.bump_any();
    let done = m.complete(&mut p, SyntaxKind::JS_IDENTIFIER_BINDING);
    let r = ParsedSyntax::Present(ConditionalSyntax::Invalid(done))
        .or_invalid_to_unknown(&mut p, SyntaxKind::JS_UNKNOWN_BINDING);
    assert_eq!(
        r,
        ParsedSyntax::Present(CompletedMarker { kind: SyntaxKind::JS_UNKNOWN_BINDING, ..done })
    );
    assert_eq!(p.events().len(), 3);
    assert_eq!(p.events()[1], Event::Token { index: 0, kind: SyntaxKind::IDENT });
    assert_eq!(p.events()[2], Event::FinishNode { kind: SyntaxKind::JS_UNKNOWN_BINDING });
    assert_eq!(p.diagnostics().len(), 0);
}

#[test]
fn or_invalid_to_unknown_builds_an_empty_node_for_nothing() {
    let mut p = script("= 1");
    let absent: ParsedSyntax<ConditionalSyntax> = ParsedSyntax::Absent;
    let r = absent.or_invalid_to_unknown(&mut p, SyntaxKind::JS_UNKNOWN_BINDING);
    assert_eq!(
        r,
        ParsedSyntax::Present(CompletedMarker {
            start: 0,
            finish: 1,
            kind: SyntaxKind::JS_UNKNOWN_BINDING,
            token_start: 0,
            token_end: 0,
        })
    );
    assert_eq!(
        p.events().as_slice(),
        &[
            Event::StartNode,
            Event::FinishNode { kind: SyntaxKind::JS_UNKNOWN_BINDING },
            Event::Error { diagnostic: 0 },
        ]
    );
    assert_eq!(p.diagnostics()[0].message(), "expected a syntax node but found none");
    assert_eq!(p.diagnostics()[0].primary_range(), Some(TextRange::new(0, 1)));
    assert_eq!(p.position(), 0);
}

#[test]
fn into_valid_and_into_invalid_set_the_verdict() {
    let done = CompletedMarker {
        start: 0,
        finish: 2,
        kind: SyntaxKind::NAME,
        token_start: 0,
        token_end: 1,
    };
    assert_eq!(
        ParsedSyntax::Present(done).into_valid(),
        ParsedSyntax::Present(ConditionalSyntax::Valid(done))
    );
    assert_eq!(
        ParsedSyntax::Present(done).into_invalid(),
        ParsedSyntax::Present(ConditionalSyntax::Invalid(done))
    );
    assert_eq!(
        ParsedSyntax::Present(ConditionalSyntax::Valid(done)).into_invalid(),
        ParsedSyntax::Present(ConditionalSyntax::Invalid(done))
    );
    assert_eq!(
        ParsedSyntax::Present(ConditionalSyntax::Invalid(done)).into_valid(),
        ParsedSyntax::Present(ConditionalSyntax::Valid(done))
    );
    let absent: ParsedSyntax<CompletedMarker> = ParsedSyntax::Absent;
    assert_eq!(absent.into_invalid(), ParsedSyntax::Absent);
    assert_eq!(ConditionalSyntax::Invalid(done).into_marker(), done);
    assert!(ParsedSyntax::Present(done).is_present());
    assert_eq!(ParsedSyntax::Present(done).ok(), Some(done));
    assert_eq!(ParsedSyntax::Present(done).unwrap(), done);
}

#[test]
fn checkpoint_and_rewind_restore_everything() {
    let mut p = script("a b c");
    let m = p.start();
    p.bump_any();
    let mut state = p.state().clone();
    state.strict = true;
    state.duplicate_binding_parent = Some(BindingParent::Let);
    p.set_state(state);
    p.bind_name("a".to_string(), TextRange::new(0, 1));

    let events = p.events().clone();
    let checkpoint = p.checkpoint();
    assert_eq!(checkpoint.pos, 1);
    assert_eq!(checkpoint.events_len, 2);
    assert_eq!(checkpoint.diagnostics_len, 0);

    let inner = p.start();
    p.bump_any();
    let err = p.err_builder("speculative").primary(TextRange::new(2, 3), "");
    p.error(err);
    inner.complete(&mut p, SyntaxKind::NAME);
    p.bind_name("b".to_string(), TextRange::new(2, 3));
    let mut changed = p.state().clone();
    changed.strict = false;
    changed.enter_ambient();
    p.set_state(changed);

    p.rewind(checkpoint);
    assert_eq!(p.position(), 1);
    assert_eq!(p.events(), &events);
    assert_eq!(p.diagnostics().len(), 0);
    assert!(p.state().strict);
    assert_eq!(p.state().ambient_depth, 0);
    assert_eq!(p.state().duplicate_binding_parent, Some(BindingParent::Let));
    assert_eq!(p.state().name_map.get("a"), Some(TextRange::new(0, 1)));
    assert_eq!(p.state().name_map.get("b"), None);

    p.bump_any();
    m.complete(&mut p, SyntaxKind::LIST);
    assert!(is_balanced(p.events()));
    assert_eq!(attached_tokens(p.events()), vec![0, 1]);
}

fn rule_that_gives_up(p: &mut Parser) -> Option<CompletedMarker> {
    let m = p.start();
    p.bump_any();
    p.expect_required(SyntaxKind::SEMICOLON);
    let err = p.err_builder("not this").primary(p.cur_tok().range, "");
    p.error(err);
    m.complete(p, SyntaxKind::ERROR);
    None
}

fn rule_that_succeeds_with_an_error(p: &mut Parser) -> Option<CompletedMarker> {
    let m = p.start();
    p.bump_any();
    p.expect_required(SyntaxKind::SEMICOLON);
    Some(m.complete(p, SyntaxKind::JS_EXPRESSION_STATEMENT))
}

#[test]
fn failed_attempt_leaves_nothing() {
    let mut p = script("a b");
    p.bump_any();
    let events = p.events().clone();
    assert_eq!(try_parse(&mut p, rule_that_gives_up), None);
    assert_eq!(p.position(), 1);
    assert_eq!(p.events(), &events);
    assert_eq!(p.diagnostics().len(), 0);
}

#[test]
fn successful_attempt_keeps_its_diagnostics() {
    let mut p = script("a b");
    let done = try_parse(&mut p, rule_that_succeeds_with_an_error);
    assert_eq!(
        done,
        Some(CompletedMarker {
            start: 0,
            finish: 4,
            kind: SyntaxKind::JS_EXPRESSION_STATEMENT,
            token_start: 0,
            token_end: 1,
        })
    );
    assert_eq!(p.position(), 1);
    assert_eq!(messages(&p), vec!["expected `;` but instead found `b`"]);
}

fn outer_rule_that_gives_up(p: &mut Parser) -> Option<CompletedMarker> {
    let kept = try_parse(p, rule_that_succeeds_with_an_error);
    assert!(kept.is_some());
    assert_eq!(p.diagnostics().len(), 1);
    None
}

#[test]
fn outer_rewind_discards_what_an_inner_attempt_kept() {
    let mut p = script("a b");
    assert_eq!(try_parse(&mut p, outer_rule_that_gives_up), None);
    assert_eq!(p.position(), 0);
    assert_eq!(p.events().len(), 0);
    assert_eq!(p.diagnostics().len(), 0);
}

#[test]
fn progress_guard_records_the_position() {
    let mut p = script("a b");
    let mut progress = ParserProgress::default();
    assert_eq!(progress.last, None);
    progress.assert_progressing(&p);
    assert_eq!(progress.last, Some(0));
    p.bump_any();
    progress.assert_progressing(&p);
    assert_eq!(progress.last, Some(1));
    assert_eq!(ParserProgress::new().last, None);
}

#[test]
fn recovery_skips_to_the_next_safe_token() {
    let mut p = script("1 2 , 3");
    let recovery = ParseRecovery::new(SyntaxKind::JS_UNKNOWN_BINDING, vec![SyntaxKind::COMMA]);
    let skipped = recovery.recover(&mut p);
    assert_eq!(
        skipped,
        Ok(CompletedMarker {
            start: 0,
            finish: 3,
            kind: SyntaxKind::JS_UNKNOWN_BINDING,
            token_start: 0,
            token_end: 2,
        })
    );
    assert_eq!(
        p.events().as_slice(),
        &[
            Event::StartNode,
            Event::Token { index: 0, kind: SyntaxKind::JS_NUMBER_LITERAL },
            Event::Token { index: 1, kind: SyntaxKind::JS_NUMBER_LITERAL },
            Event::FinishNode { kind: SyntaxKind::JS_UNKNOWN_BINDING },
        ]
    );
    assert!(p.at(SyntaxKind::COMMA));
    assert_eq!(recovery.recover(&mut p), Err(RecoveryError::AlreadyRecovered));
    assert_eq!(p.events().len(), 4);
}

#[test]
fn recovery_at_the_end_says_eof() {
    let mut p = script("");
    let recovery = ParseRecovery::new(SyntaxKind::ERROR, vec![SyntaxKind::COMMA]);
    assert_eq!(recovery.recover(&mut p), Err(RecoveryError::Eof));
    assert_eq!(p.events().len(), 0);
}

#[test]
fn recovery_stops_at_a_line_break_when_asked_to() {
    let mut p = script("1 2\n3 ,");
    let plain = ParseRecovery::new(SyntaxKind::ERROR, vec![SyntaxKind::COMMA]);
    assert!(!plain.line_break);
    let recovery = plain.enable_recovery_on_line_break();
    assert!(recovery.line_break);
    let skipped = recovery.recover(&mut p).unwrap();
    assert_eq!(skipped.token_end, 2);
    assert!(recovery.recovered(&p));
}

#[test]
fn or_recover_reports_what_it_skipped() {
    let mut p = script("1 2 , 3");
    let recovery = ParseRecovery::new(SyntaxKind::JS_UNKNOWN_BINDING, vec![SyntaxKind::COMMA]);
    let absent: ParsedSyntax<CompletedMarker> = ParsedSyntax::Absent;
    let r = absent.or_recover(&mut p, &recovery, expected_thing);
    assert_eq!(r.map(|m| m.kind), Ok(SyntaxKind::JS_UNKNOWN_BINDING));
    assert_eq!(p.diagnostics().len(), 1);
    assert_eq!(p.diagnostics()[0].primary_range(), Some(TextRange::new(0, 3)));
    let again: ParsedSyntax<CompletedMarker> = ParsedSyntax::Absent;
    assert_eq!(again.or_recover(&mut p, &recovery, expected_thing), Err(RecoveryError::AlreadyRecovered));
    assert_eq!(p.diagnostics().len(), 1);
}

#[test]
fn name_map_keeps_the_last_binding() {
    let mut names = NameMap::new();
    assert_eq!(names.get("a"), None);
    names.insert("a".to_string(), TextRange::new(0, 1));
    names.insert("b".to_string(), TextRange::new(2, 3));
    names.insert("a".to_string(), TextRange::new(4, 5));
    assert_eq!(names.get("a"), Some(TextRange::new(4, 5)));
    assert_eq!(names.get("b"), Some(TextRange::new(2, 3)));
    assert_eq!(names.get("c"), None);
    let copy = names.duplicate();
    names.clear();
    assert_eq!(names.get("a"), None);
    assert_eq!(copy.get("a"), Some(TextRange::new(4, 5)));
}

#[test]
fn ambient_depth_counts_up_and_down() {
    let mut state = ParserState::new(false);
    assert!(!state.in_ambient());
    state.exit_ambient();
    assert_eq!(state.ambient_depth, 0);
    state.enter_ambient();
    state.enter_ambient();
    assert_eq!(state.ambient_depth, 2);
    assert!(state.in_ambient());
    state.exit_ambient();
    assert_eq!(state.ambient_depth, 1);
    state.ambient_depth = usize::MAX;
    state.enter_ambient();
    assert_eq!(state.ambient_depth, usize::MAX);
}

#[test]
fn swap_state_hands_back_the_old_state() {
    let mut p = script("a");
    let mut inner = p.state().clone();
    inner.in_default = true;
    let previous = p.swap_state(inner);
    assert!(p.state().in_default);
    assert!(!previous.in_default);
    p.set_state(previous);
    assert!(!p.state().in_default);
}

#[test]
fn source_joins_the_tokens_within_a_range() {
    let p = script("ab cd ef");
    assert_eq!(p.source(TextRange::new(0, 5)), "abcd");
    assert_eq!(p.source(TextRange::new(3, 8)), "cdef");
    assert_eq!(p.source(TextRange::new(1, 4)), "");
    assert_eq!(p.source(TextRange::new(8, 8)), "");
}

#[test]
fn str_eq_compares_texts() {
    assert!(str_eq("from", "from"));
    assert!(!str_eq("from", "form"));
    assert!(!str_eq("from", "fro"));
    assert!(str_eq("", ""));
}

#[test]
fn finish_hands_over_the_buffer_and_the_sink() {
    let mut p = script("a");
    let m = p.start();
    p.expect_required(SyntaxKind::SEMICOLON);
    m.complete(&mut p, SyntaxKind::ERROR);
    let (events, diagnostics) = p.finish();
    assert_eq!(events.len(), 4);
    assert_eq!(diagnostics.len(), 1);
}
