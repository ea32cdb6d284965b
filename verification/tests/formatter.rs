#![allow(dead_code, unused_imports)]

use rslint_parser::event::Event;
use rslint_parser::formatter::element::{
    empty_element, format_elements, group_elements, if_group_breaks, join_elements, soft_indent,
    soft_line_break_or_space, space_token, token, FormatElement, FormatItem,
};
use rslint_parser::formatter::for_in_statement::{
    JsAnyForInOrOfInitializer, JsForInStatement, JsForVariableDeclaration,
};
use rslint_parser::formatter::node::{position, FormatError, Formatter, Wanted};
use rslint_parser::formatter::object_expression::JsObjectExpression;
use rslint_parser::parser::Parser;
use rslint_parser::syntax::program::parse;
use rslint_parser::syntax_kind::{FileKind, Syntax, SyntaxKind};
use rslint_parser::token::{TextRange, Token};
use rslint_parser::tree::{SyntaxElement, SyntaxTree};

fn keyword(word: &str) -> Option<SyntaxKind> {
    Some(match word {
        "await" => SyntaxKind::AWAIT_KW,
        "class" => SyntaxKind::CLASS_KW,
        "const" => SyntaxKind::CONST_KW,
        "default" => SyntaxKind::DEFAULT_KW,
        "enum" => SyntaxKind::ENUM_KW,
        "export" => SyntaxKind::EXPORT_KW,
        "extends" => SyntaxKind::EXTENDS_KW,
        "false" => SyntaxKind::FALSE_KW,
        "for" => SyntaxKind::FOR_KW,
        "function" => SyntaxKind::FUNCTION_KW,
        "import" => SyntaxKind::IMPORT_KW,
        "in" => SyntaxKind::IN_KW,
        "new" => SyntaxKind::NEW_KW,
        "null" => SyntaxKind::NULL_KW,
        "return" => SyntaxKind::RETURN_KW,
        "this" => SyntaxKind::THIS_KW,
        "true" => SyntaxKind::TRUE_KW,
        "typeof" => SyntaxKind::TYPEOF_KW,
        "var" => SyntaxKind::VAR_KW,
        "void" => SyntaxKind::VOID_KW,
        "yield" => SyntaxKind::YIELD_KW,
        _ => return None,
    })
}

fn punctuation(text: &str) -> Option<(SyntaxKind, usize)> {
    let table: [(&str, SyntaxKind); 25] = [
        ("...", SyntaxKind::DOT3),
        ("==", SyntaxKind::EQ2),
        ("!=", SyntaxKind::NEQ),
        ("&&", SyntaxKind::AMP2),
        ("||", SyntaxKind::PIPE2),
        (";", SyntaxKind::SEMICOLON),
        (",", SyntaxKind::COMMA),
        ("(", SyntaxKind::L_PAREN),
        (")", SyntaxKind::R_PAREN),
        ("{", SyntaxKind::L_CURLY),
        ("}", SyntaxKind::R_CURLY),
        ("[", SyntaxKind::L_BRACK),
        ("]", SyntaxKind::R_BRACK),
        (".", SyntaxKind::DOT),
        (":", SyntaxKind::COLON),
        ("?", SyntaxKind::QUESTION),
        ("=", SyntaxKind::EQ),
        ("<", SyntaxKind::L_ANGLE),
        (">", SyntaxKind::R_ANGLE),
        ("+", SyntaxKind::PLUS),
        ("-", SyntaxKind::MINUS),
        ("*", SyntaxKind::STAR),
        ("/", SyntaxKind::SLASH),
        ("%", SyntaxKind::PERCENT),
        ("!", SyntaxKind::BANG),
    ];
    for (spelling, kind) in table {
        if text.starts_with(spelling) {
            return Some((kind, spelling.len()));
        }
    }
    None
}

/// A lexer for the tests: words, numbers, strings and punctuation, with the line
/// breaks recorded on the token that follows them.
fn lex(source: &str) -> Vec<Token> {
    let bytes = source.as_bytes();
    let mut tokens = Vec::new();
    let mut i = 0;
    let mut after_newline = false;
    while i < bytes.len() {
        let c = bytes[i] as char;
        if c == '\n' {
            after_newline = true;
            i += 1;
            continue;
        }
        if c.is_whitespace() {
            i += 1;
            continue;
        }
        let start = i;
        let kind = if c.is_ascii_alphabetic() || c == '_' || c == '$' {
            while i < bytes.len()
                && ((bytes[i] as char).is_ascii_alphanumeric() || bytes[i] == b'_' || bytes[i] == b'$')
            {
                i += 1;
            }
            keyword(&source[start..i]).unwrap_or(SyntaxKind::IDENT)
        } else if c.is_ascii_digit() {
            while i < bytes.len() && (bytes[i] as char).is_ascii_digit() {
                i += 1;
            }
            SyntaxKind::JS_NUMBER_LITERAL
        } else if c == '"' || c == '\'' {
            i += 1;
            while i < bytes.len() && bytes[i] as char != c {
                i += 1;
            }
            if i < bytes.len() {
                i += 1;
            }
            SyntaxKind::JS_STRING_LITERAL
        } else if let Some((kind, len)) = punctuation(&source[i..]) {
            i += len;
            kind
        } else {
            i += 1;
            SyntaxKind::ERROR_TOKEN
        };
        tokens.push(Token::new(
            kind,
            TextRange::new(start, i),
            source[start..i].to_string(),
            after_newline,
        ));
        after_newline = false;
    }
    tokens
}

fn parser_for(source: &str, file_kind: FileKind) -> Parser {
    Parser::new(lex(source), Syntax { file_kind })
}

fn script(source: &str) -> Parser {
    parser_for(source, FileKind::Script)
}

fn module(source: &str) -> Parser {
    parser_for(source, FileKind::Module)
}

fn typescript(source: &str) -> Parser {
    parser_for(source, FileKind::TypeScript)
}

/// The token numbers that the buffer attaches, in order.
fn attached_tokens(events: &[Event]) -> Vec<usize> {
    events
        .iter()
        .filter_map(|e| match e {
            Event::Token { index, .. } => Some(*index),
            _ => None,
        })
        .collect()
}

/// Whether the brackets of the buffer nest and none is left open.
fn is_balanced(events: &[Event]) -> bool {
    let mut depth: usize = 0;
    for e in events {
        match e {
            Event::StartNode => depth += 1,
            Event::FinishNode { .. } => {
                if depth == 0 {
                    return false;
                }
                depth -= 1;
            }
            _ => {}
        }
    }
    depth == 0
}

/// The kinds of the nodes of the buffer, in the order in which they are closed.
fn closed_kinds(events: &[Event]) -> Vec<SyntaxKind> {
    events
        .iter()
        .filter_map(|e| match e {
            Event::FinishNode { kind } => Some(*kind),
            _ => None,
        })
        .collect()
}

fn messages(p: &Parser) -> Vec<String> {
    p.diagnostics().iter().map(|d| d.message().to_string()).collect()
}

fn render_element(tokens: &[Token], tree: &SyntaxTree, element: SyntaxElement) -> String {
    match element {
        SyntaxElement::Node { start, kind } => {
            let children: Vec<String> = tree
                .children(start)
                .into_iter()
                .map(|child| render_element(tokens, tree, child))
                .collect();
            format!("{:?}({})", kind, children.join(" "))
        }
        SyntaxElement::Token { index, .. } => tokens[index].text.clone(),
        SyntaxElement::Error { .. } => "!".to_string(),
        SyntaxElement::Placeholder => "_".to_string(),
    }
}

/// The tree of a finished parse, written out: a node as its kind and its children in
/// parentheses, a token as its text, an attached diagnostic as `!`, a placeholder as
/// `_`.
fn render(p: &Parser) -> String {
    let tree = SyntaxTree::new(p.events().clone()).expect("the buffer is balanced");
    let parts: Vec<String> = tree
        .roots()
        .into_iter()
        .map(|element| render_element(p.tokens(), &tree, element))
        .collect();
    parts.join(" ")
}

/// A format element written out: text in quotes, `_` for a space, `^` for a soft
/// line break, `|` for a soft line break or space, `>` and `<` around what is
/// indented, `[` and `]` around a group, `?(` and `?)` around what is printed only in
/// a broken group.
fn show(element: &FormatElement) -> String {
    element
        .items()
        .iter()
        .map(|item| match item {
            FormatItem::Text(text) => format!("{:?}", text),
            FormatItem::Space => "_".to_string(),
            FormatItem::SoftLineBreak => "^".to_string(),
            FormatItem::SoftLineBreakOrSpace => "|".to_string(),
            FormatItem::IndentStart => ">".to_string(),
            FormatItem::IndentEnd => "<".to_string(),
            FormatItem::GroupStart => "[".to_string(),
            FormatItem::GroupEnd => "]".to_string(),
            FormatItem::IfGroupBreaksStart => "?(".to_string(),
            FormatItem::IfGroupBreaksEnd => "?)".to_string(),
        })
        .collect::<Vec<_>>()
        .join(" ")
}

struct Parsed {
    tokens: Vec<Token>,
    tree: SyntaxTree,
}

fn parsed(source: &str) -> Parsed {
    let mut p = script(source);
    parse(&mut p);
    let (events, _) = p.finish();
    Parsed { tokens: lex(source), tree: SyntaxTree::new(events).unwrap() }
}

impl Parsed {
    fn formatter(&self) -> Formatter<'_> {
        Formatter::new(&self.tokens, &self.tree)
    }

    /// The first node of kind `kind`.
    fn find(&self, kind: SyntaxKind) -> usize {
        (0..self.tree.len())
            .find(|i| self.tree.event(*i) == Event::StartNode && self.tree.kind(*i) == kind)
            .expect("the tree has a node of the kind")
    }

    fn format(&self, kind: SyntaxKind) -> Result<String, FormatError> {
        self.formatter().format_node(self.find(kind)).map(|element| show(&element))
    }
}

#[test]
fn elements_are_sequences_of_items() {
    assert_eq!(show(&empty_element()), "");
    assert_eq!(empty_element().len(), 0);
    assert_eq!(show(&token("a")), "\"a\"");
    assert_eq!(show(&space_token()), "_");
    assert_eq!(show(&soft_line_break_or_space()), "|");
    assert_eq!(show(&token("a").followed_by(space_token()).followed_by(token("b"))), "\"a\" _ \"b\"");
    assert_eq!(show(&group_elements(token("a"))), "[ \"a\" ]");
    assert_eq!(show(&soft_indent(token("a"))), "> ^ \"a\" < ^");
    assert_eq!(show(&if_group_breaks(token(","))), "?( \",\" ?)");
    assert_eq!(show(&token("a").duplicate()), "\"a\"");
    assert_eq!(soft_indent(token("a")).len(), 5);
}

#[test]
fn format_elements_puts_one_after_the_other() {
    assert_eq!(show(&format_elements(Vec::new())), "");
    assert_eq!(show(&format_elements(vec![token("a")])), "\"a\"");
    assert_eq!(
        show(&format_elements(vec![token("a"), space_token(), empty_element(), token("b")])),
        "\"a\" _ \"b\""
    );
}

#[test]
fn join_elements_puts_the_separator_between() {
    let comma = token(",");
    assert_eq!(show(&join_elements(&comma, Vec::new())), "");
    assert_eq!(show(&join_elements(&comma, vec![token("a")])), "\"a\"");
    assert_eq!(
        show(&join_elements(&comma, vec![token("a"), token("b"), token("c")])),
        "\"a\" \",\" \"b\" \",\" \"c\""
    );
    let wide = token(",").followed_by(space_token());
    assert_eq!(
        show(&join_elements(&wide, vec![token("a"), token("b")])),
        "\"a\" \",\" _ \"b\""
    );
}

#[test]
fn position_finds_the_first_that_is_wanted() {
    let children = vec![
        SyntaxElement::Placeholder,
        SyntaxElement::Token { index: 0, kind: SyntaxKind::L_PAREN },
        SyntaxElement::Node { start: 3, kind: SyntaxKind::NAME },
        SyntaxElement::Token { index: 1, kind: SyntaxKind::IN_KW },
        SyntaxElement::Node { start: 7, kind: SyntaxKind::LIST },
    ];
    assert_eq!(position(&children, Wanted::AnyToken, 0), 1);
    assert_eq!(position(&children, Wanted::AnyToken, 2), 3);
    assert_eq!(position(&children, Wanted::Token(SyntaxKind::IN_KW), 0), 3);
    assert_eq!(position(&children, Wanted::Token(SyntaxKind::R_PAREN), 0), 5);
    assert_eq!(position(&children, Wanted::AnyNode, 0), 2);
    assert_eq!(position(&children, Wanted::AnyNode, 3), 4);
    assert_eq!(position(&children, Wanted::Node(SyntaxKind::LIST), 0), 4);
    assert_eq!(position(&children, Wanted::Node(SyntaxKind::ERROR), 0), 5);
    assert_eq!(position(&children, Wanted::AnyNode, 9), 5);
    assert!(Wanted::Token(SyntaxKind::IN_KW).accepts(children[3]));
    assert!(!Wanted::Token(SyntaxKind::IN_KW).accepts(children[1]));
    assert!(!Wanted::AnyNode.accepts(children[0]));
}

#[test]
fn object_expression_is_a_group_with_its_members_indented() {
    let p = parsed("x = { a: 1, b }");
    assert_eq!(
        p.format(SyntaxKind::JS_OBJECT_EXPRESSION),
        Ok("[ \"{\" > ^ \"a\" _ \":\" _ \"1\" \",\" | \"b\" ?( \",\" ?) < ^ \"}\" ]".to_string())
    );
    let object = JsObjectExpression { node: p.find(SyntaxKind::JS_OBJECT_EXPRESSION) };
    let formatter = p.formatter();
    let children = formatter.children(object.node);
    assert_eq!(object.members(&formatter, &children).len(), 3);
    assert_eq!(
        object.to_format_element(&formatter).map(|e| show(&e)),
        p.format(SyntaxKind::JS_OBJECT_EXPRESSION)
    );
}

#[test]
fn object_expression_without_members() {
    let p = parsed("x = {}");
    assert_eq!(
        p.format(SyntaxKind::JS_OBJECT_EXPRESSION),
        Ok("[ \"{\" > ^ ?( \",\" ?) < ^ \"}\" ]".to_string())
    );
}

#[test]
fn a_trailing_separator_of_the_source_is_not_repeated() {
    let p = parsed("x = { a, b, }");
    assert_eq!(
        p.format(SyntaxKind::JS_OBJECT_EXPRESSION),
        Ok("[ \"{\" > ^ \"a\" \",\" | \"b\" ?( \",\" ?) < ^ \"}\" ]".to_string())
    );
}

#[test]
fn nested_object_expressions() {
    let p = parsed("x = { a: { b } }");
    assert_eq!(
        p.format(SyntaxKind::JS_OBJECT_EXPRESSION),
        Ok(
            "[ \"{\" > ^ \"a\" _ \":\" _ [ \"{\" > ^ \"b\" ?( \",\" ?) < ^ \"}\" ] \
             ?( \",\" ?) < ^ \"}\" ]"
                .to_string()
        )
    );
}

#[test]
fn object_expression_without_its_closing_brace() {
    let p = parsed("x = { a");
    assert_eq!(
        p.format(SyntaxKind::JS_OBJECT_EXPRESSION),
        Err(FormatError::MissingRequiredChild(SyntaxKind::R_CURLY))
    );
}

#[test]
fn for_in_statement_with_a_declaration() {
    let p = parsed("for (const k in o) { k; }");
    assert_eq!(
        p.format(SyntaxKind::JS_FOR_IN_STATEMENT),
        Ok(
            "\"for\" _ \"(\" [ > ^ \"const\" _ \"k\" | \"in\" | \"o\" < ^ ] \")\" _ \
             \"{\" _ \"k\" _ \";\" _ \"}\""
                .to_string()
        )
    );
    assert_eq!(
        p.format(SyntaxKind::JS_FOR_VARIABLE_DECLARATION),
        Ok("\"const\" _ \"k\"".to_string())
    );
}

#[test]
fn for_in_statement_with_an_assignment_target() {
    let p = parsed("for (a.b in { c }) ;");
    assert_eq!(
        p.format(SyntaxKind::JS_FOR_IN_STATEMENT),
        Ok(
            "\"for\" _ \"(\" [ > ^ \"a\" _ \".\" _ \"b\" | \"in\" | \
             [ \"{\" > ^ \"c\" ?( \",\" ?) < ^ \"}\" ] < ^ ] \")\" _ \";\""
                .to_string()
        )
    );
}

#[test]
fn for_in_accessors() {
    let p = parsed("for (let k in o) ;");
    let statement = JsForInStatement { node: p.find(SyntaxKind::JS_FOR_IN_STATEMENT) };
    let formatter = p.formatter();
    let children = formatter.children(statement.node);
    let declaration = p.find(SyntaxKind::JS_FOR_VARIABLE_DECLARATION);
    assert_eq!(
        statement.initializer(&children),
        Some(JsAnyForInOrOfInitializer::JsForVariableDeclaration(JsForVariableDeclaration {
            node: declaration
        }))
    );
    assert_eq!(statement.expression(&children), Some(p.find(SyntaxKind::JS_REFERENCE_IDENTIFIER)));
    assert_eq!(statement.body(&children), Some(p.find(SyntaxKind::JS_EMPTY_STATEMENT)));
    let initializer = statement.initializer(&children).unwrap();
    assert_eq!(
        initializer.to_format_element(&formatter).map(|e| show(&e)),
        Ok("\"let\" _ \"k\"".to_string())
    );
    let target = JsAnyForInOrOfInitializer::JsAnyAssignmentPattern(
        p.find(SyntaxKind::JS_REFERENCE_IDENTIFIER),
    );
    assert_eq!(target.to_format_element(&formatter).map(|e| show(&e)), Ok("\"o\"".to_string()));
}

#[test]
fn for_in_statement_that_lacks_a_part_is_an_error() {
    for (source, missing) in [
        ("for x in o) ;", SyntaxKind::L_PAREN),
        ("for ( in o) ;", SyntaxKind::JS_FOR_VARIABLE_DECLARATION),
        ("for (x o) ;", SyntaxKind::IN_KW),
        ("for (x in ) ;", SyntaxKind::JS_UNKNOWN_EXPRESSION),
        ("for (x in o ;", SyntaxKind::R_PAREN),
        ("for (x in o)", SyntaxKind::JS_UNKNOWN_STATEMENT),
    ] {
        let p = parsed(source);
        assert_eq!(
            p.format(SyntaxKind::JS_FOR_IN_STATEMENT),
            Err(FormatError::MissingRequiredChild(missing)),
            "{}",
            source
        );
    }
}

#[test]
fn for_declaration_that_lacks_a_part_is_an_error() {
    let tree = SyntaxTree::new(vec![
        Event::StartNode,
        Event::FinishNode { kind: SyntaxKind::JS_FOR_VARIABLE_DECLARATION },
        Event::StartNode,
        Event::Token { index: 0, kind: SyntaxKind::VAR_KW },
        Event::FinishNode { kind: SyntaxKind::JS_FOR_VARIABLE_DECLARATION },
    ])
    .unwrap();
    let tokens = lex("var");
    let formatter = Formatter::new(&tokens, &tree);
    assert_eq!(
        formatter.format_node(0).map(|e| show(&e)),
        Err(FormatError::MissingRequiredChild(SyntaxKind::VAR_KW))
    );
    assert_eq!(
        formatter.format_node(2).map(|e| show(&e)),
        Err(FormatError::MissingRequiredChild(SyntaxKind::JS_VARIABLE_DECLARATION))
    );
}

#[test]
fn other_nodes_are_their_children_with_spaces_between() {
    let p = parsed("a + b;");
    assert_eq!(
        p.format(SyntaxKind::JS_EXPRESSION_STATEMENT),
        Ok("\"a\" _ \"+\" _ \"b\" _ \";\"".to_string())
    );
    assert_eq!(p.formatter().kind(p.find(SyntaxKind::JS_BINARY_EXPRESSION)), SyntaxKind::JS_BINARY_EXPRESSION);
}

#[test]
fn a_token_that_the_stream_lacks_is_an_error() {
    let p = parsed("a + b;");
    let none: Vec<Token> = Vec::new();
    let formatter = Formatter::new(&none, &p.tree);
    assert_eq!(
        formatter.format_node(p.find(SyntaxKind::JS_BINARY_EXPRESSION)).map(|e| show(&e)),
        Err(FormatError::MissingToken(0))
    );
    assert_eq!(formatter.format_token(3).map(|e| show(&e)), Err(FormatError::MissingToken(3)));
    assert_eq!(p.formatter().format_token(1).map(|e| show(&e)), Ok("\"+\"".to_string()));
}

#[test]
fn the_formatter_goes_no_deeper_than_it_is_told() {
    let p = parsed("x = { a: { b } }");
    let object = p.find(SyntaxKind::JS_OBJECT_EXPRESSION);
    for depth in 0..4 {
        let shallow = Formatter::with_depth(&p.tokens, &p.tree, depth);
        assert_eq!(shallow.format_node(object).map(|e| show(&e)), Err(FormatError::TooDeep));
    }
    let deep = Formatter::with_depth(&p.tokens, &p.tree, 6);
    assert!(deep.format_node(object).is_ok());
}

#[test]
fn a_whole_file_can_be_formatted() {
    let p = parsed("let o = { a: 1 }; for (var k in o) f(k);");
    let root = p.find(SyntaxKind::JS_SCRIPT);
    let formatted = p.formatter().format_node(root).map(|e| show(&e)).unwrap();
    assert!(formatted.contains("[ \"{\" > ^ \"a\" _ \":\" _ \"1\" ?( \",\" ?) < ^ \"}\" ]"));
    assert!(formatted.contains("\"for\" _ \"(\" [ > ^ \"var\" _ \"k\" | \"in\" | \"o\" < ^ ] \")\" _"));
}
