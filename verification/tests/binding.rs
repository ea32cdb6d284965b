#![allow(dead_code, unused_imports)]

use rslint_parser::event::Event;
use rslint_parser::parsed_syntax::{ConditionalSyntax, ParsedSyntax};
use rslint_parser::parser::{CompletedMarker, Parser};
use rslint_parser::state::BindingParent;
use rslint_parser::syntax::binding::{
    is_at_identifier_binding, parse_binding, parse_binding_pattern,
    parse_binding_pattern_with_optional_default, parse_identifier_binding, ArrayBindingPattern,
    BindingPatternWithDefault, ObjectBindingPattern,
};
use rslint_parser::syntax::program::parse;
use rslint_parser::syntax_kind::{FileKind, Syntax, SyntaxKind};
use rslint_parser::token::{TextRange, Token};
use rslint_parser::tree::{SyntaxElement, SyntaxTree};

fn keyword(word: &str) -> Option<SyntaxKind> {
    Some(match word {
        "await" => SyntaxKind::AWAIT_KW,
        "class" => SyntaxKind::CLASS_KW,
        "const" => SyntaxKind::CONST_KW,
        "default" => SyntaxKind::DEFAULT_KW,
        "enum" => SyntaxKind::ENUM_KW,
        "export" => SyntaxKind::EXPORT_KW,
        "extends" => SyntaxKind::EXTENDS_KW,
        "false" => SyntaxKind::FALSE_KW,
        "for" => SyntaxKind::FOR_KW,
        "function" => SyntaxKind::FUNCTION_KW,
        "import" => SyntaxKind::IMPORT_KW,
        "in" => SyntaxKind::IN_KW,
        "new" => SyntaxKind::NEW_KW,
        "null" => SyntaxKind::NULL_KW,
        "return" => SyntaxKind::RETURN_KW,
        "this" => SyntaxKind::THIS_KW,
        "true" => SyntaxKind::TRUE_KW,
        "typeof" => SyntaxKind::TYPEOF_KW,
        "var" => SyntaxKind::VAR_KW,
        "void" => SyntaxKind::VOID_KW,
        "yield" => SyntaxKind::YIELD_KW,
        _ => return None,
    })
}

fn punctuation(text: &str) -> Option<(SyntaxKind, usize)> {
    let table: [(&str, SyntaxKind); 25] = [
        ("...", SyntaxKind::DOT3),
        ("==", SyntaxKind::EQ2),
        ("!=", SyntaxKind::NEQ),
        ("&&", SyntaxKind::AMP2),
        ("||", SyntaxKind::PIPE2),
        (";", SyntaxKind::SEMICOLON),
        (",", SyntaxKind::COMMA),
        ("(", SyntaxKind::L_PAREN),
        (")", SyntaxKind::R_PAREN),
        ("{", SyntaxKind::L_CURLY),
        ("}", SyntaxKind::R_CURLY),
        ("[", SyntaxKind::L_BRACK),
        ("]", SyntaxKind::R_BRACK),
        (".", SyntaxKind::DOT),
        (":", SyntaxKind::COLON),
        ("?", SyntaxKind::QUESTION),
        ("=", SyntaxKind::EQ),
        ("<", SyntaxKind::L_ANGLE),
        (">", SyntaxKind::R_ANGLE),
        ("+", SyntaxKind::PLUS),
        ("-", SyntaxKind::MINUS),
        ("*", SyntaxKind::STAR),
        ("/", SyntaxKind::SLASH),
        ("%", SyntaxKind::PERCENT),
        ("!", SyntaxKind::BANG),
    ];
    for (spelling, kind) in table {
        if text.starts_with(spelling) {
            return Some((kind, spelling.len()));
        }
    }
    None
}

/// A lexer for the tests: words, numbers, strings and punctuation, with the line
/// breaks recorded on the token that follows them.
fn lex(source: &str) -> Vec<Token> {
    let bytes = source.as_bytes();
    let mut tokens = Vec::new();
    let mut i = 0;
    let mut after_newline = false;
    while i < bytes.len() {
        let c = bytes[i] as char;
        if c == '\n' {
            after_newline = true;
            i += 1;
            continue;
        }
        if c.is_whitespace() {
            i += 1;
            continue;
        }
        let start = i;
        let kind = if c.is_ascii_alphabetic() || c == '_' || c == '$' {
            while i < bytes.len()
                && ((bytes[i] as char).is_ascii_alphanumeric() || bytes[i] == b'_' || bytes[i] == b'$')
            {
                i += 1;
            }
            keyword(&source[start..i]).unwrap_or(SyntaxKind::IDENT)
        } else if c.is_ascii_digit() {
            while i < bytes.len() && (bytes[i] as char).is_ascii_digit() {
                i += 1;
            }
            SyntaxKind::JS_NUMBER_LITERAL
        } else if c == '"' || c == '\'' {
            i += 1;
            while i < bytes.len() && bytes[i] as char != c {
                i += 1;
            }
            if i < bytes.len() {
                i += 1;
            }
            SyntaxKind::JS_STRING_LITERAL
        } else if let Some((kind, len)) = punctuation(&source[i..]) {
            i += len;
            kind
        } else {
            i += 1;
            SyntaxKind::ERROR_TOKEN
        };
        tokens.push(Token::new(
            kind,
            TextRange::new(start, i),
            source[start..i].to_string(),
            after_newline,
        ));
        after_newline = false;
    }
    tokens
}

fn parser_for(source: &str, file_kind: FileKind) -> Parser {
    Parser::new(lex(source), Syntax { file_kind })
}

fn script(source: &str) -> Parser {
    parser_for(source, FileKind::Script)
}

fn module(source: &str) -> Parser {
    parser_for(source, FileKind::Module)
}

fn typescript(source: &str) -> Parser {
    parser_for(source, FileKind::TypeScript)
}

/// The token numbers that the buffer attaches, in order.
fn attached_tokens(events: &[Event]) -> Vec<usize> {
    events
        .iter()
        .filter_map(|e| match e {
            Event::Token { index, .. } => Some(*index),
            _ => None,
        })
        .collect()
}

/// Whether the brackets of the buffer nest and none is left open.
fn is_balanced(events: &[Event]) -> bool {
    let mut depth: usize = 0;
    for e in events {
        match e {
            Event::StartNode => depth += 1,
            Event::FinishNode { .. } => {
                if depth == 0 {
                    return false;
                }
                depth -= 1;
            }
            _ => {}
        }
    }
    depth == 0
}

/// The kinds of the nodes of the buffer, in the order in which they are closed.
fn closed_kinds(events: &[Event]) -> Vec<SyntaxKind> {
    events
        .iter()
        .filter_map(|e| match e {
            Event::FinishNode { kind } => Some(*kind),
            _ => None,
        })
        .collect()
}

fn messages(p: &Parser) -> Vec<String> {
    p.diagnostics().iter().map(|d| d.message().to_string()).collect()
}

fn render_element(tokens: &[Token], tree: &SyntaxTree, element: SyntaxElement) -> String {
    match element {
        SyntaxElement::Node { start, kind } => {
            let children: Vec<String> = tree
                .children(start)
                .into_iter()
                .map(|child| render_element(tokens, tree, child))
                .collect();
            format!("{:?}({})", kind, children.join(" "))
        }
        SyntaxElement::Token { index, .. } => tokens[index].text.clone(),
        SyntaxElement::Error { .. } => "!".to_string(),
        SyntaxElement::Placeholder => "_".to_string(),
    }
}

/// The tree of a finished parse, written out: a node as its kind and its children in
/// parentheses, a token as its text, an attached diagnostic as `!`, a placeholder as
/// `_`.
fn render(p: &Parser) -> String {
    let tree = SyntaxTree::new(p.events().clone()).expect("the buffer is balanced");
    let parts: Vec<String> = tree
        .roots()
        .into_iter()
        .map(|element| render_element(p.tokens(), &tree, element))
        .collect();
    parts.join(" ")
}

fn in_declaration(source: &str, parent: BindingParent) -> Parser {
    let mut p = script(source);
    let mut state = p.state().clone();
    state.duplicate_binding_parent = Some(parent);
    p.set_state(state);
    p
}

#[test]
fn identifier_binding_is_a_node_around_the_token() {
    let mut p = script("a");
    let r = parse_identifier_binding(&mut p);
    assert_eq!(
        r,
        ParsedSyntax::Present(ConditionalSyntax::Valid(CompletedMarker {
            start: 0,
            finish: 2,
            kind: SyntaxKind::JS_IDENTIFIER_BINDING,
            token_start: 0,
            token_end: 1,
        }))
    );
    assert_eq!(
        p.events().as_slice(),
        &[
            Event::StartNode,
            Event::Token { index: 0, kind: SyntaxKind::IDENT },
            Event::FinishNode { kind: SyntaxKind::JS_IDENTIFIER_BINDING },
        ]
    );
    assert_eq!(p.diagnostics().len(), 0);
    assert_eq!(p.state().name_map.get("a"), None);
}

#[test]
fn identifier_binding_is_absent_where_no_identifier_stands() {
    let mut p = script("1");
    assert!(!is_at_identifier_binding(&p));
    assert_eq!(parse_identifier_binding(&mut p), ParsedSyntax::Absent);
    assert_eq!(p.events().len(), 0);
    assert_eq!(p.position(), 0);
    assert_eq!(p.diagnostics().len(), 0);
}

#[test]
fn eval_is_rejected_in_strict_mode() {
    let mut p = module("eval");
    let r = parse_identifier_binding(&mut p);
    assert!(matches!(r, ParsedSyntax::Present(ConditionalSyntax::Invalid(_))));
    assert_eq!(p.diagnostics().len(), 1);
    let d = &p.diagnostics()[0];
    assert_eq!(d.message(), "Illegal use of `eval` as an identifier in strict mode");
    assert_eq!(d.primary_range(), Some(TextRange::new(0, 4)));
    assert_eq!(d.primary_message(), Some(""));
    assert_eq!(attached_tokens(p.events()), vec![0]);
}

#[test]
fn arguments_is_rejected_in_strict_mode() {
    let mut p = module("arguments");
    let r = parse_identifier_binding(&mut p);
    assert!(matches!(r, ParsedSyntax::Present(ConditionalSyntax::Invalid(_))));
    assert_eq!(
        messages(&p),
        vec!["Illegal use of `arguments` as an identifier in strict mode"]
    );
}

#[test]
fn eval_and_arguments_are_bound_outside_strict_mode() {
    for name in ["eval", "arguments"] {
        let mut p = script(name);
        let r = parse_identifier_binding(&mut p);
        assert!(matches!(r, ParsedSyntax::Present(ConditionalSyntax::Valid(_))));
        assert_eq!(p.diagnostics().len(), 0);
    }
}

#[test]
fn other_names_are_bound_in_strict_mode() {
    let mut p = module("evaluate");
    let r = parse_identifier_binding(&mut p);
    assert!(matches!(r, ParsedSyntax::Present(ConditionalSyntax::Valid(_))));
    assert_eq!(p.diagnostics().len(), 0);
}

#[test]
fn let_is_rejected_as_a_name_in_a_let_declaration() {
    let mut p = in_declaration("let", BindingParent::Let);
    let r = parse_identifier_binding(&mut p);
    assert!(matches!(r, ParsedSyntax::Present(ConditionalSyntax::Invalid(_))));
    let d = &p.diagnostics()[0];
    assert_eq!(
        d.message(),
        "`let` cannot be declared as a variable name inside of a `let` declaration"
    );
    assert_eq!(d.primary_message(), Some("Rename the let identifier here"));
    assert_eq!(p.state().name_map.get("let"), None);
}

#[test]
fn let_is_rejected_as_a_name_in_a_const_declaration() {
    let mut p = in_declaration("let", BindingParent::Const);
    parse_identifier_binding(&mut p);
    assert_eq!(
        messages(&p),
        vec!["`let` cannot be declared as a variable name inside of a `const` declaration"]
    );
}

#[test]
fn a_bound_name_is_recorded_with_its_range() {
    let mut p = in_declaration("  a", BindingParent::Let);
    let r = parse_identifier_binding(&mut p);
    assert!(matches!(r, ParsedSyntax::Present(ConditionalSyntax::Valid(_))));
    assert_eq!(p.state().name_map.get("a"), Some(TextRange::new(2, 3)));
    assert_eq!(p.diagnostics().len(), 0);
}

#[test]
fn a_second_binding_of_a_name_points_at_the_first() {
    let mut p = in_declaration("a a", BindingParent::Const);
    parse_identifier_binding(&mut p);
    let r = parse_identifier_binding(&mut p);
    assert!(matches!(r, ParsedSyntax::Present(ConditionalSyntax::Invalid(_))));
    assert_eq!(p.diagnostics().len(), 1);
    let d = &p.diagnostics()[0];
    assert_eq!(d.message(), "Declarations inside of a `const` declaration may not have duplicates");
    assert_eq!(d.secondary_len(), 1);
    assert_eq!(d.secondary_range(0), TextRange::new(0, 1));
    assert_eq!(d.secondary_message(0), "`a` is first declared here");
    assert_eq!(d.primary_range(), Some(TextRange::new(2, 3)));
    assert_eq!(d.primary_message(), Some("a second declaration of `a` is not allowed"));
    assert_eq!(p.state().name_map.get("a"), Some(TextRange::new(0, 1)));
}

#[test]
fn await_is_rejected_in_an_async_context() {
    let mut p = script("await");
    let mut state = p.state().clone();
    state.in_async = true;
    p.set_state(state);
    let r = parse_identifier_binding(&mut p);
    assert!(matches!(r, ParsedSyntax::Present(ConditionalSyntax::Invalid(_))));
    assert_eq!(messages(&p), vec!["Illegal use of `await` as an identifier in an async context"]);
    assert_eq!(
        p.events().as_slice(),
        &[
            Event::StartNode,
            Event::Error { diagnostic: 0 },
            Event::Token { index: 0, kind: SyntaxKind::IDENT },
            Event::FinishNode { kind: SyntaxKind::JS_IDENTIFIER_BINDING },
        ]
    );
    let mut q = script("await");
    assert!(matches!(
        parse_identifier_binding(&mut q),
        ParsedSyntax::Present(ConditionalSyntax::Valid(_))
    ));
}

#[test]
fn yield_is_rejected_in_a_generator_and_in_strict_mode() {
    let mut p = script("yield");
    let mut state = p.state().clone();
    state.in_generator = true;
    p.set_state(state);
    assert!(matches!(
        parse_identifier_binding(&mut p),
        ParsedSyntax::Present(ConditionalSyntax::Invalid(_))
    ));
    assert_eq!(
        messages(&p),
        vec!["Illegal use of `yield` as an identifier in a generator function or in strict mode"]
    );
    let mut q = module("yield");
    assert!(matches!(
        parse_identifier_binding(&mut q),
        ParsedSyntax::Present(ConditionalSyntax::Invalid(_))
    ));
    let mut r = script("yield");
    assert!(matches!(
        parse_identifier_binding(&mut r),
        ParsedSyntax::Present(ConditionalSyntax::Valid(_))
    ));
}

#[test]
fn parse_binding_demotes_an_invalid_binding() {
    let mut p = module("eval");
    let r = parse_binding(&mut p);
    assert_eq!(r.unwrap().kind, SyntaxKind::JS_UNKNOWN_BINDING);
    assert_eq!(render(&p), "JS_UNKNOWN_BINDING(eval) !");
    assert_eq!(p.diagnostics().len(), 1);
}

#[test]
fn parse_binding_builds_an_empty_node_where_nothing_stands() {
    let mut p = script("=");
    let r = parse_binding(&mut p);
    assert_eq!(r.unwrap().kind, SyntaxKind::JS_UNKNOWN_BINDING);
    assert_eq!(render(&p), "JS_UNKNOWN_BINDING() !");
    assert_eq!(p.position(), 0);
    assert_eq!(messages(&p), vec!["expected a syntax node but found none"]);
}

#[test]
fn binding_pattern_is_absent_at_a_literal() {
    let mut p = script("5");
    assert_eq!(parse_binding_pattern(&mut p), ParsedSyntax::Absent);
    assert_eq!(parse_binding_pattern_with_optional_default(&mut p), ParsedSyntax::Absent);
    assert_eq!(p.events().len(), 0);
    assert_eq!(p.diagnostics().len(), 0);
}

#[test]
fn object_pattern_needs_the_context_to_allow_it() {
    let mut p = script("{ a }");
    let mut state = p.state().clone();
    state.allow_object_expr = false;
    p.set_state(state);
    assert_eq!(parse_binding_pattern(&mut p), ParsedSyntax::Absent);
    assert_eq!(p.events().len(), 0);
}

#[test]
fn array_pattern_with_elements() {
    let mut p = script("[a, b]");
    let r = parse_binding_pattern(&mut p).unwrap();
    assert_eq!(r.kind, SyntaxKind::JS_ARRAY_BINDING_PATTERN);
    assert_eq!(
        render(&p),
        "JS_ARRAY_BINDING_PATTERN([ JS_ARRAY_BINDING_PATTERN_ELEMENT_LIST(\
         JS_IDENTIFIER_BINDING(a) , JS_IDENTIFIER_BINDING(b)) ])"
    );
    assert_eq!(p.diagnostics().len(), 0);
}

#[test]
fn array_pattern_with_a_hole_and_a_rest() {
    let mut p = script("[, a, ...rest]");
    parse_binding_pattern(&mut p);
    assert_eq!(
        render(&p),
        "JS_ARRAY_BINDING_PATTERN([ JS_ARRAY_BINDING_PATTERN_ELEMENT_LIST(\
         JS_ARRAY_HOLE() , JS_IDENTIFIER_BINDING(a) , \
         JS_ARRAY_BINDING_PATTERN_REST_ELEMENT(... JS_IDENTIFIER_BINDING(rest))) ])"
    );
    assert_eq!(p.diagnostics().len(), 0);
}

#[test]
fn array_pattern_with_a_default() {
    let mut p = script("[a = 1, b]");
    parse_binding_pattern(&mut p);
    assert_eq!(
        render(&p),
        "JS_ARRAY_BINDING_PATTERN([ JS_ARRAY_BINDING_PATTERN_ELEMENT_LIST(\
         JS_BINDING_PATTERN_WITH_DEFAULT(JS_IDENTIFIER_BINDING(a) = JS_NUMBER_LITERAL_EXPRESSION(1)) , \
         JS_IDENTIFIER_BINDING(b)) ])"
    );
    assert_eq!(p.diagnostics().len(), 0);
}

#[test]
fn nested_patterns() {
    let mut p = script("[[...rest], { a }]");
    parse_binding_pattern(&mut p);
    assert_eq!(
        render(&p),
        "JS_ARRAY_BINDING_PATTERN([ JS_ARRAY_BINDING_PATTERN_ELEMENT_LIST(\
         JS_ARRAY_BINDING_PATTERN([ JS_ARRAY_BINDING_PATTERN_ELEMENT_LIST(\
         JS_ARRAY_BINDING_PATTERN_REST_ELEMENT(... JS_IDENTIFIER_BINDING(rest))) ]) , \
         JS_OBJECT_BINDING_PATTERN({ JS_OBJECT_BINDING_PATTERN_PROPERTY_LIST(\
         JS_OBJECT_BINDING_PATTERN_SHORTHAND_PROPERTY(JS_IDENTIFIER_BINDING(a) _)) })) ])"
    );
    assert_eq!(p.diagnostics().len(), 0);
}

#[test]
fn array_pattern_without_a_separator_reports_it() {
    let mut p = script("[a b]");
    parse_binding_pattern(&mut p);
    assert_eq!(messages(&p), vec!["expected `,` but instead found `b`"]);
    assert_eq!(attached_tokens(p.events()), vec![0, 1, 2, 3]);
    assert!(is_balanced(p.events()));
}

#[test]
fn array_pattern_skips_what_is_no_element() {
    let mut p = script("[\"default\"]");
    parse_binding_pattern(&mut p);
    assert_eq!(
        render(&p),
        "JS_ARRAY_BINDING_PATTERN([ JS_ARRAY_BINDING_PATTERN_ELEMENT_LIST(\
         JS_UNKNOWN_BINDING(\"default\") !) ])"
    );
    assert_eq!(
        messages(&p),
        vec![
            "expected an identifier, an object pattern, an array pattern, or a rest pattern \
             but instead found '\"default\"'"
        ]
    );
    assert_eq!(p.diagnostics()[0].primary_range(), Some(TextRange::new(1, 10)));
    assert_eq!(
        p.diagnostics()[0].primary_message(),
        Some("Expected an identifier, an object pattern, an array pattern, or a rest pattern here")
    );
}

#[test]
fn default_without_a_pattern_reports_the_pattern() {
    let mut p = script("[=1]");
    parse_binding_pattern(&mut p);
    assert_eq!(
        render(&p),
        "JS_ARRAY_BINDING_PATTERN([ JS_ARRAY_BINDING_PATTERN_ELEMENT_LIST(\
         JS_BINDING_PATTERN_WITH_DEFAULT(! _ = JS_NUMBER_LITERAL_EXPRESSION(1))) ])"
    );
    assert_eq!(
        messages(&p),
        vec!["expected an identifier, an object pattern, or an array pattern but instead found '='"]
    );
}

#[test]
fn rest_element_without_a_pattern() {
    let mut p = script("[ ... ]");
    parse_binding_pattern(&mut p);
    assert_eq!(
        render(&p),
        "JS_ARRAY_BINDING_PATTERN([ JS_ARRAY_BINDING_PATTERN_ELEMENT_LIST(\
         JS_ARRAY_BINDING_PATTERN_REST_ELEMENT(... ! _)) ])"
    );
    assert_eq!(p.diagnostics().len(), 1);
}

#[test]
fn rest_element_with_a_default_becomes_unknown() {
    let mut p = script("[ ...c = 1 ]");
    parse_binding_pattern(&mut p);
    assert_eq!(
        render(&p),
        "JS_ARRAY_BINDING_PATTERN([ JS_ARRAY_BINDING_PATTERN_ELEMENT_LIST(\
         JS_UNKNOWN_BINDING(... JS_IDENTIFIER_BINDING(c) \
         ERROR(= JS_NUMBER_LITERAL_EXPRESSION(1)) !)) ])"
    );
    assert_eq!(messages(&p), vec!["rest element cannot have a default"]);
    assert_eq!(p.diagnostics()[0].primary_range(), Some(TextRange::new(7, 10)));
}

#[test]
fn rest_element_must_be_last() {
    let mut p = script("[ ...rest, other ]");
    parse_binding_pattern(&mut p);
    assert_eq!(messages(&p), vec!["rest element must be the last element"]);
    assert_eq!(p.diagnostics()[0].primary_range(), Some(TextRange::new(2, 9)));
    assert_eq!(attached_tokens(p.events()), vec![0, 1, 2, 3, 4, 5]);
}

#[test]
fn unterminated_array_pattern_ends() {
    let mut p = script("[[a");
    let r = parse_binding_pattern(&mut p);
    assert!(r.is_present());
    assert!(p.at_end());
    assert!(is_balanced(p.events()));
    assert_eq!(
        messages(&p),
        vec!["expected `]` but instead the file ends", "expected `]` but instead the file ends"]
    );
}

#[test]
fn object_pattern_with_shorthands() {
    let mut p = script("{ a, b = 1 }");
    let r = parse_binding_pattern(&mut p).unwrap();
    assert_eq!(r.kind, SyntaxKind::JS_OBJECT_BINDING_PATTERN);
    assert_eq!(
        render(&p),
        "JS_OBJECT_BINDING_PATTERN({ JS_OBJECT_BINDING_PATTERN_PROPERTY_LIST(\
         JS_OBJECT_BINDING_PATTERN_SHORTHAND_PROPERTY(JS_IDENTIFIER_BINDING(a) _) , \
         JS_OBJECT_BINDING_PATTERN_SHORTHAND_PROPERTY(JS_IDENTIFIER_BINDING(b) \
         JS_INITIALIZER_CLAUSE(= JS_NUMBER_LITERAL_EXPRESSION(1)))) })"
    );
    assert_eq!(p.diagnostics().len(), 0);
}

#[test]
fn object_pattern_with_properties() {
    let mut p = script("{ foo: bar = baz }");
    parse_binding_pattern(&mut p);
    assert_eq!(
        render(&p),
        "JS_OBJECT_BINDING_PATTERN({ JS_OBJECT_BINDING_PATTERN_PROPERTY_LIST(\
         JS_OBJECT_BINDING_PATTERN_PROPERTY(JS_LITERAL_MEMBER_NAME(foo) : \
         JS_IDENTIFIER_BINDING(bar) JS_INITIALIZER_CLAUSE(= JS_REFERENCE_IDENTIFIER(baz)))) })"
    );
    assert_eq!(p.diagnostics().len(), 0);
}

#[test]
fn property_without_a_binding_has_a_placeholder_in_its_slot() {
    let mut p = script("{ foo: , bar }");
    parse_binding_pattern(&mut p);
    assert_eq!(
        render(&p),
        "JS_OBJECT_BINDING_PATTERN({ JS_OBJECT_BINDING_PATTERN_PROPERTY_LIST(\
         JS_OBJECT_BINDING_PATTERN_PROPERTY(JS_LITERAL_MEMBER_NAME(foo) : ! _ _) , \
         JS_OBJECT_BINDING_PATTERN_SHORTHAND_PROPERTY(JS_IDENTIFIER_BINDING(bar) _)) })"
    );
    assert_eq!(
        messages(&p),
        vec!["expected an identifier, an object pattern, or an array pattern but instead found ','"]
    );
}

#[test]
fn property_without_a_colon_has_placeholders_for_both_slots() {
    let mut p = script("{ 5 }");
    parse_binding_pattern(&mut p);
    assert_eq!(
        render(&p),
        "JS_OBJECT_BINDING_PATTERN({ JS_OBJECT_BINDING_PATTERN_PROPERTY_LIST(\
         JS_OBJECT_BINDING_PATTERN_PROPERTY(JS_LITERAL_MEMBER_NAME(5) _ ! _ _)) })"
    );
    assert_eq!(messages(&p), vec!["expected `:` but instead found `}`"]);
}

#[test]
fn property_without_a_name_reports_the_name() {
    let mut p = script("{ : bar }");
    ObjectBindingPattern.parse_object_pattern(&mut p);
    assert_eq!(
        render(&p),
        "JS_OBJECT_BINDING_PATTERN({ JS_OBJECT_BINDING_PATTERN_PROPERTY_LIST(\
         JS_OBJECT_BINDING_PATTERN_PROPERTY(! _ : JS_IDENTIFIER_BINDING(bar) _)) })"
    );
    assert_eq!(
        messages(&p),
        vec![
            "expected an identifier, a string literal, a number literal, or a computed property \
             but instead found ':'"
        ]
    );
}

#[test]
fn object_pattern_with_a_leading_separator() {
    let mut p = script("{ , a }");
    parse_binding_pattern(&mut p);
    assert_eq!(
        render(&p),
        "JS_OBJECT_BINDING_PATTERN({ JS_OBJECT_BINDING_PATTERN_PROPERTY_LIST(\
         _ ! , JS_OBJECT_BINDING_PATTERN_SHORTHAND_PROPERTY(JS_IDENTIFIER_BINDING(a) _)) })"
    );
    assert_eq!(
        messages(&p),
        vec!["expected an identifier, a member name, or a rest pattern but instead found ','"]
    );
}

#[test]
fn rest_property_binds_an_identifier() {
    let mut p = script("{ ...abcd }");
    parse_binding_pattern(&mut p);
    assert_eq!(
        render(&p),
        "JS_OBJECT_BINDING_PATTERN({ JS_OBJECT_BINDING_PATTERN_PROPERTY_LIST(\
         JS_OBJECT_BINDING_PATTERN_REST(... JS_IDENTIFIER_BINDING(abcd))) })"
    );
    assert_eq!(p.diagnostics().len(), 0);
}

#[test]
fn rest_property_with_a_pattern_is_reported_and_demoted() {
    let mut p = script("{ ...{a} }");
    parse_binding_pattern(&mut p);
    assert_eq!(
        render(&p),
        "JS_OBJECT_BINDING_PATTERN({ JS_OBJECT_BINDING_PATTERN_PROPERTY_LIST(\
         JS_OBJECT_BINDING_PATTERN_REST(... JS_UNKNOWN_BINDING({ \
         JS_OBJECT_BINDING_PATTERN_PROPERTY_LIST(\
         JS_OBJECT_BINDING_PATTERN_SHORTHAND_PROPERTY(JS_IDENTIFIER_BINDING(a) _)) }) !)) })"
    );
    assert_eq!(messages(&p), vec!["Expected identifier binding"]);
    assert_eq!(p.diagnostics()[0].primary_range(), Some(TextRange::new(5, 8)));
}

#[test]
fn rest_property_with_an_invalid_identifier_is_reported_once() {
    let mut p = module("{ ...eval }");
    parse_binding_pattern(&mut p);
    assert_eq!(messages(&p), vec!["Illegal use of `eval` as an identifier in strict mode"]);
    assert!(closed_kinds(p.events()).contains(&SyntaxKind::JS_UNKNOWN_BINDING));
}

#[test]
fn rest_property_without_a_binding() {
    let mut p = script("{ ... }");
    parse_binding_pattern(&mut p);
    assert_eq!(
        render(&p),
        "JS_OBJECT_BINDING_PATTERN({ JS_OBJECT_BINDING_PATTERN_PROPERTY_LIST(\
         JS_OBJECT_BINDING_PATTERN_REST(... ! _)) })"
    );
    assert_eq!(messages(&p), vec!["expected an identifier but instead found '}'"]);
    let mut q = script("x");
    assert_eq!(ObjectBindingPattern.parse_rest_property_pattern(&mut q), ParsedSyntax::Absent);
    assert_eq!(ObjectBindingPattern.parse_property_pattern(&mut script(")")), ParsedSyntax::Absent);
    assert_eq!(ArrayBindingPattern.parse_rest_pattern(&mut q), ParsedSyntax::Absent);
    assert_eq!(ArrayBindingPattern.parse_array_pattern(&mut q), ParsedSyntax::Absent);
    assert_eq!(q.events().len(), 0);
}

#[test]
fn pattern_kinds_are_those_of_bindings() {
    assert_eq!(BindingPatternWithDefault::pattern_with_default_kind(), SyntaxKind::JS_BINDING_PATTERN_WITH_DEFAULT);
    assert_eq!(ArrayBindingPattern::unknown_pattern_kind(), SyntaxKind::JS_UNKNOWN_BINDING);
    assert_eq!(ArrayBindingPattern::array_pattern_kind(), SyntaxKind::JS_ARRAY_BINDING_PATTERN);
    assert_eq!(ArrayBindingPattern::rest_pattern_kind(), SyntaxKind::JS_ARRAY_BINDING_PATTERN_REST_ELEMENT);
    assert_eq!(ArrayBindingPattern::list_kind(), SyntaxKind::JS_ARRAY_BINDING_PATTERN_ELEMENT_LIST);
    assert_eq!(ObjectBindingPattern::unknown_pattern_kind(), SyntaxKind::JS_UNKNOWN_BINDING);
    assert_eq!(ObjectBindingPattern::object_pattern_kind(), SyntaxKind::JS_OBJECT_BINDING_PATTERN);
    assert_eq!(ObjectBindingPattern::list_kind(), SyntaxKind::JS_OBJECT_BINDING_PATTERN_PROPERTY_LIST);
    let p = script("x");
    let d = ArrayBindingPattern::expected_element_error(&p, TextRange::new(0, 1)).build();
    assert_eq!(
        d.message(),
        "expected an identifier, an object pattern, an array pattern, or a rest pattern \
         but instead found 'x'"
    );
    let at_end = ObjectBindingPattern::expected_property_pattern_error(&p, TextRange::new(1, 1)).build();
    assert_eq!(
        at_end.message(),
        "expected an identifier, a member name, or a rest pattern but instead found the end of the file"
    );
    let e = BindingPatternWithDefault::expected_pattern_error(&p, TextRange::new(0, 1)).build();
    assert_eq!(
        e.message(),
        "expected an identifier, an object pattern, or an array pattern but instead found 'x'"
    );
}

#[test]
fn duplicate_binding_in_a_let_declaration() {
    let mut p = script("let a, a;");
    parse(&mut p);
    assert_eq!(p.diagnostics().len(), 1);
    let d = &p.diagnostics()[0];
    assert_eq!(d.message(), "Declarations inside of a `let` declaration may not have duplicates");
    assert_eq!(d.secondary_len(), 1);
    assert_eq!(d.secondary_range(0), TextRange::new(4, 5));
    assert_eq!(d.primary_range(), Some(TextRange::new(7, 8)));
    assert_eq!(
        render(&p),
        "JS_SCRIPT(_ JS_DIRECTIVE_LIST() JS_STATEMENT_LIST(JS_VARIABLE_STATEMENT(let \
         JS_VARIABLE_DECLARATION_LIST(JS_VARIABLE_DECLARATION(JS_IDENTIFIER_BINDING(a) _) , \
         JS_VARIABLE_DECLARATION(JS_UNKNOWN_BINDING(a) ! _)) ;)))"
    );
}

#[test]
fn distinct_bindings_in_a_let_declaration() {
    let mut p = script("let a, b;");
    parse(&mut p);
    assert_eq!(p.diagnostics().len(), 0);
}

#[test]
fn duplicate_binding_inside_patterns() {
    let mut p = script("const [a, { b: a }] = c;");
    parse(&mut p);
    assert_eq!(
        messages(&p),
        vec!["Declarations inside of a `const` declaration may not have duplicates"]
    );
    assert_eq!(p.diagnostics()[0].secondary_range(0), TextRange::new(7, 8));
    assert_eq!(p.diagnostics()[0].primary_range(), Some(TextRange::new(15, 16)));
}

#[test]
fn var_declarations_do_not_check_duplicates() {
    let mut p = script("var a, a;");
    parse(&mut p);
    assert_eq!(p.diagnostics().len(), 0);
}

#[test]
fn each_declaration_is_a_binding_list_of_its_own() {
    let mut p = script("let a; let a; const a = 1;");
    parse(&mut p);
    assert_eq!(p.diagnostics().len(), 0);
    assert!(p.state().duplicate_binding_parent.is_none());
    assert_eq!(p.state().name_map.get("a"), None);
}

#[test]
fn let_as_a_name_in_declarations() {
    let mut p = script("let let = 5; const let = 5;");
    parse(&mut p);
    assert_eq!(
        messages(&p),
        vec![
            "`let` cannot be declared as a variable name inside of a `let` declaration",
            "`let` cannot be declared as a variable name inside of a `const` declaration",
        ]
    );
}

#[test]
fn eval_in_a_module_declaration() {
    let mut p = module("let eval = 5;");
    parse(&mut p);
    assert_eq!(messages(&p), vec!["Illegal use of `eval` as an identifier in strict mode"]);
    let mut q = script("let eval = 5;");
    parse(&mut q);
    assert_eq!(q.diagnostics().len(), 0);
}

fn slots(tree: &SyntaxTree, node: usize) -> usize {
    tree.children(node)
        .into_iter()
        .filter(|child| !matches!(child, SyntaxElement::Error { .. }))
        .count()
}

#[test]
fn a_property_pattern_has_all_its_slots_whatever_the_source_lacks() {
    let cases = [
        ("a", SyntaxKind::JS_OBJECT_BINDING_PATTERN_SHORTHAND_PROPERTY, 2, 0, 1),
        ("a = 1", SyntaxKind::JS_OBJECT_BINDING_PATTERN_SHORTHAND_PROPERTY, 2, 0, 3),
        ("= 1", SyntaxKind::JS_OBJECT_BINDING_PATTERN_SHORTHAND_PROPERTY, 2, 1, 2),
        ("foo: bar", SyntaxKind::JS_OBJECT_BINDING_PATTERN_PROPERTY, 4, 0, 3),
        ("foo: ,", SyntaxKind::JS_OBJECT_BINDING_PATTERN_PROPERTY, 4, 1, 2),
        (": bar = 'test'", SyntaxKind::JS_OBJECT_BINDING_PATTERN_PROPERTY, 4, 1, 4),
        ("5 }", SyntaxKind::JS_OBJECT_BINDING_PATTERN_PROPERTY, 4, 1, 1),
        ("foo: [a, b] = c", SyntaxKind::JS_OBJECT_BINDING_PATTERN_PROPERTY, 4, 0, 9),
        ("[a + b]: { c }", SyntaxKind::JS_OBJECT_BINDING_PATTERN_PROPERTY, 4, 0, 9),
        (":", SyntaxKind::JS_OBJECT_BINDING_PATTERN_PROPERTY, 4, 2, 1),
    ];
    for (source, kind, expected, diagnostics, cursor) in cases {
        let mut p = script(source);
        let m = match ObjectBindingPattern.parse_property_pattern(&mut p) {
            ParsedSyntax::Present(m) => m,
            ParsedSyntax::Absent => panic!("{:?}", source),
        };
        assert_eq!(m.kind, kind, "{:?}", source);
        assert_eq!(m.start, 0, "{:?}", source);
        assert_eq!(m.finish + 1, p.events().len(), "{:?}", source);
        assert_eq!(p.diagnostics().len(), diagnostics, "{:?}", source);
        assert_eq!(p.position(), cursor, "{:?}", source);
        let tree = SyntaxTree::new(p.events().clone()).expect("the buffer is balanced");
        assert_eq!(slots(&tree, m.start), expected, "{:?}", source);
    }
}

#[test]
fn a_rest_property_starts_with_its_dots() {
    let cases = [
        ("...abcd }", SyntaxKind::JS_IDENTIFIER_BINDING, 0, 2),
        ("...{ a } }", SyntaxKind::JS_UNKNOWN_BINDING, 1, 4),
        ("...[a] }", SyntaxKind::JS_UNKNOWN_BINDING, 1, 4),
        ("...rest, a", SyntaxKind::JS_IDENTIFIER_BINDING, 0, 2),
        ("...eval, a", SyntaxKind::JS_IDENTIFIER_BINDING, 0, 2),
    ];
    for (source, inner, diagnostics, cursor) in cases {
        let mut p = script(source);
        let m = match ObjectBindingPattern.parse_rest_property_pattern(&mut p) {
            ParsedSyntax::Present(m) => m,
            ParsedSyntax::Absent => panic!("{:?}", source),
        };
        assert_eq!(m.kind, SyntaxKind::JS_OBJECT_BINDING_PATTERN_REST);
        assert_eq!(m.start, 0);
        assert_eq!(p.events()[1], Event::Token { index: 0, kind: SyntaxKind::DOT3 });
        assert_eq!(p.diagnostics().len(), diagnostics, "{:?}", source);
        assert_eq!(p.position(), cursor, "{:?}", source);
        let tree = SyntaxTree::new(p.events().clone()).expect("the buffer is balanced");
        let children = tree.children(0);
        assert_eq!(children[0], SyntaxElement::Token { index: 0, kind: SyntaxKind::DOT3 });
        assert_eq!(children[1], SyntaxElement::Node { start: 2, kind: inner }, "{:?}", source);
    }
    let mut strict = module("...eval }");
    ObjectBindingPattern.parse_rest_property_pattern(&mut strict);
    assert_eq!(strict.diagnostics().len(), 1);
    assert_eq!(render(&strict), "JS_OBJECT_BINDING_PATTERN_REST(... JS_UNKNOWN_BINDING(eval) !)");
    let mut missing = script("... }");
    ObjectBindingPattern.parse_rest_property_pattern(&mut missing);
    assert_eq!(render(&missing), "JS_OBJECT_BINDING_PATTERN_REST(... ! _)");
    assert_eq!(missing.diagnostics().len(), 1);
    assert_eq!(missing.position(), 1);
}

#[test]
fn a_rest_property_does_not_look_at_what_follows_it() {
    let mut p = module("...eval, a");
    let m = match ObjectBindingPattern.parse_rest_property_pattern(&mut p) {
        ParsedSyntax::Present(m) => m,
        ParsedSyntax::Absent => panic!("a rest property stands here"),
    };
    assert_eq!(m.kind, SyntaxKind::JS_OBJECT_BINDING_PATTERN_REST);
    assert_eq!(m.finish + 1, p.events().len());
    assert_eq!(messages(&p), vec!["Illegal use of `eval` as an identifier in strict mode"]);
    assert_eq!(render(&p), "JS_OBJECT_BINDING_PATTERN_REST(... JS_UNKNOWN_BINDING(eval) !)");
}

#[test]
fn a_separator_after_a_rest_property_is_reported_by_the_list() {
    let mut p = script("...rest, a");
    let m = match ObjectBindingPattern.parse_any_property_pattern(&mut p) {
        ParsedSyntax::Present(m) => m,
        ParsedSyntax::Absent => panic!("a rest property stands here"),
    };
    assert_eq!(m.kind, SyntaxKind::JS_OBJECT_BINDING_PATTERN_REST);
    assert_eq!(m.finish + 2, p.events().len());
    assert_eq!(messages(&p), vec!["rest element must be the last element"]);
    assert_eq!(p.diagnostics()[0].primary_range(), Some(TextRange::new(0, 7)));
    assert_eq!(p.position(), 2);

    let mut q = script("...rest }");
    ObjectBindingPattern.parse_any_property_pattern(&mut q);
    assert_eq!(q.diagnostics().len(), 0);

    let mut whole = script("let { ...rest, } = a;");
    parse(&mut whole);
    assert_eq!(messages(&whole), vec!["rest element must be the last element"]);
}

#[test]
fn a_rest_property_over_a_pattern_reports_the_pattern_once() {
    let mut p = script("let { ...{a} } = b;");
    parse(&mut p);
    assert_eq!(messages(&p), vec!["Expected identifier binding"]);
    assert_eq!(p.diagnostics()[0].primary_range(), Some(TextRange::new(9, 12)));
    assert_eq!(
        render(&p),
        "JS_SCRIPT(_ JS_DIRECTIVE_LIST() JS_STATEMENT_LIST(JS_VARIABLE_STATEMENT(let \
         JS_VARIABLE_DECLARATION_LIST(JS_VARIABLE_DECLARATION(JS_OBJECT_BINDING_PATTERN({ \
         JS_OBJECT_BINDING_PATTERN_PROPERTY_LIST(JS_OBJECT_BINDING_PATTERN_REST(... \
         JS_UNKNOWN_BINDING({ JS_OBJECT_BINDING_PATTERN_PROPERTY_LIST(\
         JS_OBJECT_BINDING_PATTERN_SHORTHAND_PROPERTY(JS_IDENTIFIER_BINDING(a) _)) }) !)) }) \
         JS_INITIALIZER_CLAUSE(= JS_REFERENCE_IDENTIFIER(b)))) ;)))"
    );

    let mut q = script("...[a, , b] }");
    ObjectBindingPattern.parse_rest_property_pattern(&mut q);
    assert_eq!(messages(&q), vec!["Expected identifier binding"]);
    assert_eq!(q.diagnostics()[0].primary_range(), Some(TextRange::new(3, 11)));
}

#[test]
fn plain_patterns_have_no_diagnostic_but_for_what_they_lack() {
    let cases = [
        ("[]", 0),
        ("[a, b]", 0),
        ("[a, , b,]", 0),
        ("[a b]", 1),
        ("[a", 1),
        ("[a, ...b]", 0),
        ("[a = 1, b = c]", 0),
        ("[...a, b]", 1),
        ("{}", 0),
        ("{ a, b }", 0),
        ("{ a, b: c, d = 1, ...e }", 0),
        ("{ a, }", 0),
        ("{ , a }", 1),
        ("{ a b }", 1),
        ("{ a", 1),
        ("{ ...a, b }", 1),
        ("{ a: }", 1),
    ];
    for (source, diagnostics) in cases {
        let mut p = script(source);
        let m = match parse_binding_pattern(&mut p) {
            ParsedSyntax::Present(m) => m,
            ParsedSyntax::Absent => panic!("{:?}", source),
        };
        assert_eq!(m.start, 0, "{:?}", source);
        assert_eq!(m.finish + 1, p.events().len(), "{:?}", source);
        assert_eq!(m.token_end, p.tokens().len(), "{:?}", source);
        assert_eq!(p.diagnostics().len(), diagnostics, "{:?}", source);
        assert!(is_balanced(p.events()), "{:?}", source);
    }
}

#[test]
fn a_rest_element_does_not_look_at_what_follows_it() {
    let mut p = script("...a, b");
    let m = match ArrayBindingPattern.parse_rest_pattern(&mut p) {
        ParsedSyntax::Present(m) => m,
        ParsedSyntax::Absent => panic!("a rest element stands here"),
    };
    assert_eq!(m.kind, SyntaxKind::JS_ARRAY_BINDING_PATTERN_REST_ELEMENT);
    assert_eq!(m.finish + 1, p.events().len());
    assert_eq!(p.diagnostics().len(), 0);
    assert_eq!(p.position(), 2);

    let mut q = script("...a, b");
    ArrayBindingPattern.parse_any_array_element(&mut q);
    assert_eq!(messages(&q), vec!["rest element must be the last element"]);
    assert_eq!(q.diagnostics()[0].primary_range(), Some(TextRange::new(0, 4)));

    let mut last = script("...a ]");
    ArrayBindingPattern.parse_any_array_element(&mut last);
    assert_eq!(last.diagnostics().len(), 0);
}
