#![allow(dead_code, unused_imports)]

use rslint_parser::event::Event;
use rslint_parser::parser::{CompletedMarker, Parser};
use rslint_parser::speculative::try_parse;
use rslint_parser::syntax::binding::parse_binding_pattern;
use rslint_parser::syntax::program::{export_decl, parse};
use rslint_parser::syntax::typescript::{try_parse_ts, ts_decl, ts_declare};
use rslint_parser::syntax_kind::{FileKind, Syntax, SyntaxKind};
use rslint_parser::token::{TextRange, Token};
use rslint_parser::tree::{SyntaxElement, SyntaxTree};

fn keyword(word: &str) -> Option<SyntaxKind> {
    Some(match word {
        "await" => SyntaxKind::AWAIT_KW,
        "class" => SyntaxKind::CLASS_KW,
        "const" => SyntaxKind::CONST_KW,
        "default" => SyntaxKind::DEFAULT_KW,
        "enum" => SyntaxKind::ENUM_KW,
        "export" => SyntaxKind::EXPORT_KW,
        "extends" => SyntaxKind::EXTENDS_KW,
        "false" => SyntaxKind::FALSE_KW,
        "for" => SyntaxKind::FOR_KW,
        "function" => SyntaxKind::FUNCTION_KW,
        "import" => SyntaxKind::IMPORT_KW,
        "in" => SyntaxKind::IN_KW,
        "new" => SyntaxKind::NEW_KW,
        "null" => SyntaxKind::NULL_KW,
        "return" => SyntaxKind::RETURN_KW,
        "this" => SyntaxKind::THIS_KW,
        "true" => SyntaxKind::TRUE_KW,
        "typeof" => SyntaxKind::TYPEOF_KW,
        "var" => SyntaxKind::VAR_KW,
        "void" => SyntaxKind::VOID_KW,
        "yield" => SyntaxKind::YIELD_KW,
        _ => return None,
    })
}

fn punctuation(text: &str) -> Option<(SyntaxKind, usize)> {
    let table: [(&str, SyntaxKind); 25] = [
        ("...", SyntaxKind::DOT3),
        ("==", SyntaxKind::EQ2),
        ("!=", SyntaxKind::NEQ),
        ("&&", SyntaxKind::AMP2),
        ("||", SyntaxKind::PIPE2),
        (";", SyntaxKind::SEMICOLON),
        (",", SyntaxKind::COMMA),
        ("(", SyntaxKind::L_PAREN),
        (")", SyntaxKind::R_PAREN),
        ("{", SyntaxKind::L_CURLY),
        ("}", SyntaxKind::R_CURLY),
        ("[", SyntaxKind::L_BRACK),
        ("]", SyntaxKind::R_BRACK),
        (".", SyntaxKind::DOT),
        (":", SyntaxKind::COLON),
        ("?", SyntaxKind::QUESTION),
        ("=", SyntaxKind::EQ),
        ("<", SyntaxKind::L_ANGLE),
        (">", SyntaxKind::R_ANGLE),
        ("+", SyntaxKind::PLUS),
        ("-", SyntaxKind::MINUS),
        ("*", SyntaxKind::STAR),
        ("/", SyntaxKind::SLASH),
        ("%", SyntaxKind::PERCENT),
        ("!", SyntaxKind::BANG),
    ];
    for (spelling, kind) in table {
        if text.starts_with(spelling) {
            return Some((kind, spelling.len()));
        }
    }
    None
}

/// A lexer for the tests: words, numbers, strings and punctuation, with the line
/// breaks recorded on the token that follows them.
fn lex(source: &str) -> Vec<Token> {
    let bytes = source.as_bytes();
    let mut tokens = Vec::new();
    let mut i = 0;
    let mut after_newline = false;
    while i < bytes.len() {
        let c = bytes[i] as char;
        if c == '\n' {
            after_newline = true;
            i += 1;
            continue;
        }
        if c.is_whitespace() {
            i += 1;
            continue;
        }
        let start = i;
        let kind = if c.is_ascii_alphabetic() || c == '_' || c == '$' {
            while i < bytes.len()
                && ((bytes[i] as char).is_ascii_alphanumeric() || bytes[i] == b'_' || bytes[i] == b'$')
            {
                i += 1;
            }
            keyword(&source[start..i]).unwrap_or(SyntaxKind::IDENT)
        } else if c.is_ascii_digit() {
            while i < bytes.len() && (bytes[i] as char).is_ascii_digit() {
                i += 1;
            }
            SyntaxKind::JS_NUMBER_LITERAL
        } else if c == '"' || c == '\'' {
            i += 1;
            while i < bytes.len() && bytes[i] as char != c {
                i += 1;
            }
            if i < bytes.len() {
                i += 1;
            }
            SyntaxKind::JS_STRING_LITERAL
        } else if let Some((kind, len)) = punctuation(&source[i..]) {
            i += len;
            kind
        } else {
            i += 1;
            SyntaxKind::ERROR_TOKEN
        };
        tokens.push(Token::new(
            kind,
            TextRange::new(start, i),
            source[start..i].to_string(),
            after_newline,
        ));
        after_newline = false;
    }
    tokens
}

fn parser_for(source: &str, file_kind: FileKind) -> Parser {
    Parser::new(lex(source), Syntax { file_kind })
}

fn script(source: &str) -> Parser {
    parser_for(source, FileKind::Script)
}

fn module(source: &str) -> Parser {
    parser_for(source, FileKind::Module)
}

fn typescript(source: &str) -> Parser {
    parser_for(source, FileKind::TypeScript)
}

/// The token numbers that the buffer attaches, in order.
fn attached_tokens(events: &[Event]) -> Vec<usize> {
    events
        .iter()
        .filter_map(|e| match e {
            Event::Token { index, .. } => Some(*index),
            _ => None,
        })
        .collect()
}

/// Whether the brackets of the buffer nest and none is left open.
fn is_balanced(events: &[Event]) -> bool {
    let mut depth: usize = 0;
    for e in events {
        match e {
            Event::StartNode => depth += 1,
            Event::FinishNode { .. } => {
                if depth == 0 {
                    return false;
                }
                depth -= 1;
            }
            _ => {}
        }
    }
    depth == 0
}

/// The kinds of the nodes of the buffer, in the order in which they are closed.
fn closed_kinds(events: &[Event]) -> Vec<SyntaxKind> {
    events
        .iter()
        .filter_map(|e| match e {
            Event::FinishNode { kind } => Some(*kind),
            _ => None,
        })
        .collect()
}

fn messages(p: &Parser) -> Vec<String> {
    p.diagnostics().iter().map(|d| d.message().to_string()).collect()
}

fn render_element(tokens: &[Token], tree: &SyntaxTree, element: SyntaxElement) -> String {
    match element {
        SyntaxElement::Node { start, kind } => {
            let children: Vec<String> = tree
                .children(start)
                .into_iter()
                .map(|child| render_element(tokens, tree, child))
                .collect();
            format!("{:?}({})", kind, children.join(" "))
        }
        SyntaxElement::Token { index, .. } => tokens[index].text.clone(),
        SyntaxElement::Error { .. } => "!".to_string(),
        SyntaxElement::Placeholder => "_".to_string(),
    }
}

/// The tree of a finished parse, written out: a node as its kind and its children in
/// parentheses, a token as its text, an attached diagnostic as `!`, a placeholder as
/// `_`.
fn render(p: &Parser) -> String {
    let tree = SyntaxTree::new(p.events().clone()).expect("the buffer is balanced");
    let parts: Vec<String> = tree
        .roots()
        .into_iter()
        .map(|element| render_element(p.tokens(), &tree, element))
        .collect();
    parts.join(" ")
}

const WELL_FORMED: [&str; 13] = [
    "let a = 1;",
    "let a, b;",
    "const { a, b: [c, ...d], ...e } = f(g, h.i);",
    "var x = a ? b : c, y = (1, 2);",
    "function f(a, b = 1, ...c) { return a + b; }",
    "class A extends B { x = 1; m(a) { return a; } }",
    "{ ; ; }",
    "a\nb\nc",
    "'use strict'; let x;",
    "export { a, b as c };",
    "export default a;",
    "export * from 'm';",
    "import a from 'm'; import 'n';",
];

const MALFORMED: [&str; 20] = [
    "",
    "let [a",
    "const { a",
    "var [[a, { b",
    "}",
    "let [",
    "let [a b] = [1, 2];",
    "let [=\"default\"] = [1, 2];",
    "let [[a ] = [];",
    "let { 5 } } = { eval: \"foo\" };",
    "let { default , eval: } = {};",
    "let { a b } = c",
    "let { ...rest, } = a;",
    "let a, a;",
    "function (",
    "class { + - }",
    "export",
    "export { a,, } from",
    "a + ;",
    ") ] } , = ...",
];

fn all_kinds() -> [FileKind; 3] {
    [FileKind::Script, FileKind::Module, FileKind::TypeScript]
}

fn leaves(tokens: &[Token], tree: &SyntaxTree, element: SyntaxElement, out: &mut Vec<usize>) {
    match element {
        SyntaxElement::Node { start, .. } => {
            for child in tree.children(start) {
                leaves(tokens, tree, child, out);
            }
        }
        SyntaxElement::Token { index, .. } => out.push(index),
        _ => {}
    }
}

fn inputs() -> Vec<&'static str> {
    WELL_FORMED.iter().chain(MALFORMED.iter()).copied().collect()
}

#[test]
fn every_token_is_a_leaf_once_and_in_order() {
    for source in inputs() {
        for kind in all_kinds() {
            let mut p = parser_for(source, kind);
            parse(&mut p);
            let n = p.tokens().len();
            assert!(p.at_end(), "{:?}", source);
            assert_eq!(attached_tokens(p.events()), (0..n).collect::<Vec<_>>(), "{:?}", source);

            let tree = SyntaxTree::new(p.events().clone()).unwrap();
            assert_eq!(tree.leaf_tokens(), (0..n).collect::<Vec<_>>());
            let mut walked = Vec::new();
            for root in tree.roots() {
                leaves(p.tokens(), &tree, root, &mut walked);
            }
            assert_eq!(walked, (0..n).collect::<Vec<_>>(), "{:?}", source);

            let text: String = walked.iter().map(|i| p.tokens()[*i].text.as_str()).collect();
            let whole: String = p.tokens().iter().map(|t| t.text.as_str()).collect();
            assert_eq!(text, whole);
        }
    }
}

#[test]
fn every_node_is_closed_and_nodes_nest() {
    for source in inputs() {
        for kind in all_kinds() {
            let mut p = parser_for(source, kind);
            let root = parse(&mut p);
            let events = p.events();
            assert!(is_balanced(events), "{:?}", source);
            let starts = events.iter().filter(|e| **e == Event::StartNode).count();
            let finishes =
                events.iter().filter(|e| matches!(e, Event::FinishNode { .. })).count();
            assert_eq!(starts, finishes);

            let tree = SyntaxTree::new(events.clone()).expect("balanced");
            assert_eq!(tree.len(), events.len());
            assert_eq!(tree.finish_of(root.start), root.finish);
            assert_eq!(tree.kind(root.start), root.kind);
            for i in 0..tree.len() {
                if tree.event(i) == Event::StartNode {
                    let f = tree.finish_of(i);
                    assert!(i < f && f < tree.len());
                    assert!(matches!(tree.event(f), Event::FinishNode { .. }));
                    for j in i + 1..f {
                        if tree.event(j) == Event::StartNode {
                            assert!(tree.finish_of(j) < f, "nodes overlap in {:?}", source);
                        }
                    }
                }
            }
        }
    }
}

#[test]
fn the_root_spans_the_parse() {
    for source in inputs() {
        for kind in all_kinds() {
            let mut p = parser_for(source, kind);
            let root = parse(&mut p);
            assert_eq!(root.start, 0);
            assert_eq!(root.finish, p.events().len() - 1);
            assert_eq!(root.token_start, 0);
            assert_eq!(root.token_end, p.tokens().len());
            let expected = if kind == FileKind::Script {
                SyntaxKind::JS_SCRIPT
            } else {
                SyntaxKind::JS_MODULE
            };
            assert_eq!(root.kind, expected);
            let tree = SyntaxTree::new(p.events().clone()).unwrap();
            assert_eq!(tree.roots(), vec![SyntaxElement::Node { start: 0, kind: expected }]);
        }
    }
}

#[test]
fn diagnostics_are_attached_in_the_order_of_the_sink() {
    for source in inputs() {
        for kind in all_kinds() {
            let mut p = parser_for(source, kind);
            parse(&mut p);
            let attached: Vec<usize> = p
                .events()
                .iter()
                .filter_map(|e| match e {
                    Event::Error { diagnostic } => Some(*diagnostic),
                    _ => None,
                })
                .collect();
            assert_eq!(attached, (0..p.diagnostics().len()).collect::<Vec<_>>());
        }
    }
}

#[test]
fn well_formed_input_has_no_diagnostics() {
    for source in WELL_FORMED {
        let mut p = module(source);
        parse(&mut p);
        assert_eq!(messages(&p), Vec::<String>::new(), "{:?}", source);
    }
}

#[test]
fn malformed_input_ends_with_a_tree_and_a_diagnostic() {
    for source in MALFORMED {
        for kind in all_kinds() {
            let mut p = parser_for(source, kind);
            parse(&mut p);
            assert!(p.events().len() >= 2);
            assert!(p.diagnostics().len() >= 1, "{:?}", source);
        }
    }
}

#[test]
fn a_required_binding_on_empty_input_is_reported() {
    let mut p = script("let");
    parse(&mut p);
    assert_eq!(
        messages(&p),
        vec![
            "expected an identifier, an object pattern, or an array pattern \
             but instead found the end of the file"
        ]
    );
    assert_eq!(
        render(&p),
        "JS_SCRIPT(_ JS_DIRECTIVE_LIST() JS_STATEMENT_LIST(JS_VARIABLE_STATEMENT(let \
         JS_VARIABLE_DECLARATION_LIST(JS_VARIABLE_DECLARATION(! _ _)))))"
    );
}

#[test]
fn the_state_after_a_parse_is_the_state_before() {
    for source in inputs() {
        for kind in all_kinds() {
            let mut p = parser_for(source, kind);
            let strict = p.state().strict;
            parse(&mut p);
            let state = p.state();
            assert_eq!(state.strict, strict);
            assert_eq!(state.ambient_depth, 0);
            assert!(state.duplicate_binding_parent.is_none());
            assert!(!state.in_function && !state.in_async && !state.in_generator);
            assert!(!state.in_default);
            assert!(state.include_in && state.allow_object_expr);
        }
    }
}

fn pattern_then_give_up(p: &mut Parser) -> Option<CompletedMarker> {
    parse_binding_pattern(p);
    export_decl(p);
    None
}

#[test]
fn a_failed_attempt_is_undone_whatever_it_did() {
    for source in inputs() {
        for kind in all_kinds() {
            for skipped in 0..3 {
                let mut p = parser_for(source, kind);
                let outer = p.start();
                for _ in 0..skipped {
                    p.bump_any();
                }
                let position = p.position();
                let events = p.events().clone();
                let diagnostics = p.diagnostics().len();
                let strict = p.state().strict;

                assert_eq!(try_parse(&mut p, pattern_then_give_up), None);

                assert_eq!(p.position(), position);
                assert_eq!(p.events(), &events);
                assert_eq!(p.diagnostics().len(), diagnostics);
                assert_eq!(p.state().strict, strict);
                assert_eq!(p.state().ambient_depth, 0);
                assert!(p.state().duplicate_binding_parent.is_none());
                outer.complete(&mut p, SyntaxKind::LIST);
                assert!(is_balanced(p.events()));
            }
        }
    }
}

#[test]
fn typescript_attempts_leave_nothing_when_they_fail() {
    for source in inputs() {
        let mut p = typescript(source);
        assert!(try_parse_ts(&mut p, ts_decl).is_none());
        assert!(try_parse_ts(&mut p, ts_declare).is_none());
        assert_eq!(p.position(), 0);
        assert_eq!(p.events().len(), 0);
        assert_eq!(p.diagnostics().len(), 0);
    }
}

#[test]
fn a_token_of_kind_eof_in_the_middle_is_kept() {
    let mut tokens = lex("a b");
    tokens.insert(
        1,
        Token::new(SyntaxKind::EOF, TextRange::new(1, 1), String::new(), false),
    );
    let mut p = Parser::new(tokens, Syntax { file_kind: FileKind::Script });
    parse(&mut p);
    assert!(p.at_end());
    assert_eq!(attached_tokens(p.events()), vec![0, 1, 2]);
    assert!(is_balanced(p.events()));
}

#[test]
fn unbalanced_buffers_are_no_trees() {
    assert!(SyntaxTree::new(vec![Event::StartNode]).is_none());
    assert!(SyntaxTree::new(vec![Event::FinishNode { kind: SyntaxKind::LIST }]).is_none());
    assert!(SyntaxTree::new(vec![
        Event::StartNode,
        Event::FinishNode { kind: SyntaxKind::LIST },
        Event::FinishNode { kind: SyntaxKind::LIST },
    ])
    .is_none());
    let empty = SyntaxTree::new(Vec::new()).unwrap();
    assert_eq!(empty.roots(), Vec::new());
}

#[test]
fn children_skip_tombstones_and_keep_nodes_whole() {
    let tree = SyntaxTree::new(vec![
        Event::StartNode,
        Event::Tombstone,
        Event::Token { index: 0, kind: SyntaxKind::IDENT },
        Event::StartNode,
        Event::Token { index: 1, kind: SyntaxKind::IDENT },
        Event::Placeholder,
        Event::FinishNode { kind: SyntaxKind::NAME },
        Event::Error { diagnostic: 0 },
        Event::Tombstone,
        Event::FinishNode { kind: SyntaxKind::LIST },
        Event::Placeholder,
    ])
    .unwrap();
    assert_eq!(
        tree.roots(),
        vec![SyntaxElement::Node { start: 0, kind: SyntaxKind::LIST }, SyntaxElement::Placeholder]
    );
    assert_eq!(
        tree.children(0),
        vec![
            SyntaxElement::Token { index: 0, kind: SyntaxKind::IDENT },
            SyntaxElement::Node { start: 3, kind: SyntaxKind::NAME },
            SyntaxElement::Error { diagnostic: 0 },
        ]
    );
    assert_eq!(
        tree.children(3),
        vec![SyntaxElement::Token { index: 1, kind: SyntaxKind::IDENT }, SyntaxElement::Placeholder]
    );
    assert_eq!(tree.finish_of(0), 9);
    assert_eq!(tree.finish_of(3), 6);
    assert_eq!(tree.kind(3), SyntaxKind::NAME);
}

#[test]
fn a_second_binding_is_reported_once_by_a_whole_parse() {
    for kind in all_kinds() {
        let mut p = parser_for("let a, a;", kind);
        parse(&mut p);
        assert_eq!(p.diagnostics().len(), 1);
        let d = &p.diagnostics()[0];
        assert_eq!(d.primary_range(), Some(TextRange::new(7, 8)));
        assert_eq!(d.secondary_len(), 1);
        assert_eq!(d.secondary_range(0), TextRange::new(4, 5));

        let mut q = parser_for("let a, b;", kind);
        parse(&mut q);
        assert_eq!(q.diagnostics().len(), 0);
    }
}

#[test]
fn plain_statements_are_bound_one_list_at_a_time() {
    let mut p = script("let a, b\nconst a, c, c\nvar d, d");
    parse(&mut p);
    assert_eq!(
        render(&p),
        "JS_SCRIPT(_ JS_DIRECTIVE_LIST() JS_STATEMENT_LIST(\
         JS_VARIABLE_STATEMENT(let JS_VARIABLE_DECLARATION_LIST(\
         JS_VARIABLE_DECLARATION(JS_IDENTIFIER_BINDING(a) _) , \
         JS_VARIABLE_DECLARATION(JS_IDENTIFIER_BINDING(b) _))) \
         JS_VARIABLE_STATEMENT(const JS_VARIABLE_DECLARATION_LIST(\
         JS_VARIABLE_DECLARATION(JS_IDENTIFIER_BINDING(a) _) , \
         JS_VARIABLE_DECLARATION(JS_IDENTIFIER_BINDING(c) _) , \
         JS_VARIABLE_DECLARATION(JS_UNKNOWN_BINDING(c) ! _))) \
         JS_VARIABLE_STATEMENT(var JS_VARIABLE_DECLARATION_LIST(\
         JS_VARIABLE_DECLARATION(JS_IDENTIFIER_BINDING(d) _) , \
         JS_VARIABLE_DECLARATION(JS_IDENTIFIER_BINDING(d) _)))))"
    );
    assert_eq!(
        messages(&p),
        vec!["Declarations inside of a `const` declaration may not have duplicates"]
    );
}

#[test]
fn an_array_pattern_that_is_never_closed_is_reported() {
    for kind in all_kinds() {
        let mut p = parser_for("let [a", kind);
        let root = parse(&mut p);
        assert_eq!(root.finish, p.events().len() - 1);
        assert!(p.diagnostics().len() >= 1);
        assert_eq!(attached_tokens(p.events()), vec![0, 1, 2]);
        assert!(is_balanced(p.events()));
    }
}

#[test]
fn a_source_that_holds_nothing_is_reported_once() {
    for kind in all_kinds() {
        let mut p = parser_for("", kind);
        parse(&mut p);
        assert!(!p.events().is_empty());
        assert!(is_balanced(p.events()));
        assert_eq!(
            messages(&p),
            vec!["expected a statement but instead found the end of the file"]
        );
    }
}

#[test]
fn the_node_of_an_export_ends_with_the_last_bracket() {
    let sources = [
        "export { a, };",
        "export * from 'a';",
        "export * as ns, { a };",
        "export = x;",
        "export as namespace n;",
        "export import a = require('m');",
        "export default class {}",
        "export default a + b",
        "export",
    ];
    for source in sources {
        for kind in [FileKind::Module, FileKind::TypeScript] {
            let mut p = parser_for(source, kind);
            let m = export_decl(&mut p);
            let last_bracket = p
                .events()
                .iter()
                .rposition(|e| matches!(e, Event::StartNode | Event::FinishNode { .. }))
                .unwrap();
            assert_eq!(m.start, 0, "{:?}", source);
            assert_eq!(m.finish, last_bracket, "{:?}", source);
            assert_eq!(p.events()[m.finish], Event::FinishNode { kind: m.kind }, "{:?}", source);
            if kind == FileKind::TypeScript {
                assert_eq!(m.finish + 1, p.events().len(), "{:?}", source);
            }
        }
    }
}

#[test]
fn the_kind_of_an_export_follows_its_form() {
    let cases = [
        ("export { a, };", SyntaxKind::EXPORT_DECL, 0),
        ("export * from 'a';", SyntaxKind::EXPORT_WILDCARD, 0),
        ("export * as ns, { a };", SyntaxKind::EXPORT_DECL, 1),
        ("export = x;", SyntaxKind::ERROR, 1),
        ("export as namespace n;", SyntaxKind::ERROR, 1),
        ("export default a;", SyntaxKind::EXPORT_DEFAULT_EXPR, 0),
        ("export default class {}", SyntaxKind::EXPORT_DEFAULT_DECL, 0),
        ("export default from 'm';", SyntaxKind::EXPORT_DECL, 0),
    ];
    for (source, kind, diagnostics) in cases {
        let mut p = module(source);
        let m = export_decl(&mut p);
        assert_eq!(m.kind, kind, "{:?}", source);
        assert_eq!(p.diagnostics().len(), diagnostics, "{:?}", source);
        assert_eq!(p.position(), p.tokens().len(), "{:?}", source);
    }
    let mut p = typescript("export = x;");
    assert_eq!(export_decl(&mut p).kind, SyntaxKind::TS_EXPORT_ASSIGNMENT);
    assert_eq!(p.diagnostics().len(), 0);
}

#[test]
fn a_rejected_identifier_keeps_its_token_and_its_range() {
    let mut p = module("eval");
    let m = match parse_binding_pattern(&mut p) {
        rslint_parser::parsed_syntax::ParsedSyntax::Present(m) => m,
        rslint_parser::parsed_syntax::ParsedSyntax::Absent => panic!("a binding stands here"),
    };
    assert_eq!(m.kind, SyntaxKind::JS_UNKNOWN_BINDING);
    assert_eq!(m.range(&p), TextRange::new(0, 4));
    assert_eq!(render(&p), "JS_UNKNOWN_BINDING(eval) !");
    assert_eq!(p.diagnostics().len(), 1);
}

#[test]
fn every_binding_pattern_is_one_node_of_its_own_kind() {
    let cases = [
        ("[a, b]", SyntaxKind::JS_ARRAY_BINDING_PATTERN),
        ("{ a, b }", SyntaxKind::JS_OBJECT_BINDING_PATTERN),
        ("a", SyntaxKind::JS_IDENTIFIER_BINDING),
        ("yield", SyntaxKind::JS_IDENTIFIER_BINDING),
    ];
    for (source, kind) in cases {
        let mut p = script(source);
        match parse_binding_pattern(&mut p) {
            rslint_parser::parsed_syntax::ParsedSyntax::Present(m) => {
                assert_eq!(m.kind, kind, "{:?}", source);
                assert_eq!(m.start, 0);
                assert_eq!(m.token_start, 0);
                assert!(p.position() > 0);
            },
            rslint_parser::parsed_syntax::ParsedSyntax::Absent => panic!("{:?}", source),
        }
    }
}

#[test]
fn plain_statements_of_every_form() {
    let mut p = script("a; ; 1\nlet b = 2, c\nthis");
    parse(&mut p);
    assert_eq!(
        render(&p),
        "JS_SCRIPT(_ JS_DIRECTIVE_LIST() JS_STATEMENT_LIST(\
         JS_EXPRESSION_STATEMENT(JS_REFERENCE_IDENTIFIER(a) ;) \
         JS_EMPTY_STATEMENT(;) \
         JS_EXPRESSION_STATEMENT(JS_NUMBER_LITERAL_EXPRESSION(1)) \
         JS_VARIABLE_STATEMENT(let JS_VARIABLE_DECLARATION_LIST(\
         JS_VARIABLE_DECLARATION(JS_IDENTIFIER_BINDING(b) \
         JS_INITIALIZER_CLAUSE(= JS_NUMBER_LITERAL_EXPRESSION(2))) , \
         JS_VARIABLE_DECLARATION(JS_IDENTIFIER_BINDING(c) _))) \
         JS_EXPRESSION_STATEMENT(JS_THIS_EXPRESSION(this))))"
    );
    assert_eq!(p.diagnostics().len(), 0);

    let mut q = script("a b");
    parse(&mut q);
    assert_eq!(
        messages(&q),
        vec!["Expected a semicolon or an implicit semicolon after a statement, but found none"]
    );
}
