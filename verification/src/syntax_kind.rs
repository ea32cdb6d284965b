//! The kinds of tokens and tree nodes, and the kind of file being parsed.

use vstd::prelude::*;

verus! {

/// Every kind a token or a finished node can have.
///
/// Token kinds come first, then the contextual keywords that the lexer hands over as
/// `IDENT` and that a rule retags when it consumes them, then the node kinds.
#[allow(non_camel_case_types)]
#[derive(Clone, Copy, Debug, PartialEq, Eq, Structural, Hash)]
pub enum SyntaxKind {
    // Special tokens.
    EOF,
    ERROR_TOKEN,
    IDENT,
    JS_NUMBER_LITERAL,
    JS_STRING_LITERAL,
    JS_SHEBANG,
    // Punctuation.
    SEMICOLON,
    COMMA,
    L_PAREN,
    R_PAREN,
    L_CURLY,
    R_CURLY,
    L_BRACK,
    R_BRACK,
    DOT,
    DOT3,
    COLON,
    QUESTION,
    EQ,
    EQ2,
    NEQ,
    L_ANGLE,
    R_ANGLE,
    PLUS,
    MINUS,
    STAR,
    SLASH,
    PERCENT,
    BANG,
    AMP2,
    PIPE2,
    // Reserved words.
    AWAIT_KW,
    CLASS_KW,
    CONST_KW,
    DEFAULT_KW,
    ENUM_KW,
    EXPORT_KW,
    EXTENDS_KW,
    FALSE_KW,
    FOR_KW,
    FUNCTION_KW,
    IMPORT_KW,
    IN_KW,
    NEW_KW,
    NULL_KW,
    RETURN_KW,
    THIS_KW,
    TRUE_KW,
    TYPEOF_KW,
    VAR_KW,
    VOID_KW,
    YIELD_KW,
    // Contextual keywords: lexed as `IDENT`, retagged on consumption.
    ABSTRACT_KW,
    AS_KW,
    ASYNC_KW,
    DECLARE_KW,
    FROM_KW,
    INTERFACE_KW,
    LET_KW,
    NAMESPACE_KW,
    REQUIRE_KW,
    TYPE_KW,
    // Nodes.
    ERROR,
    LIST,
    NAME,
    JS_SCRIPT,
    JS_MODULE,
    JS_DIRECTIVE,
    JS_DIRECTIVE_LIST,
    JS_MODULE_ITEM_LIST,
    JS_STATEMENT_LIST,
    JS_BLOCK_STATEMENT,
    JS_EMPTY_STATEMENT,
    JS_EXPRESSION_STATEMENT,
    JS_RETURN_STATEMENT,
    JS_FOR_IN_STATEMENT,
    JS_FOR_VARIABLE_DECLARATION,
    JS_UNKNOWN_STATEMENT,
    JS_VARIABLE_STATEMENT,
    JS_VARIABLE_DECLARATION,
    JS_VARIABLE_DECLARATION_LIST,
    JS_INITIALIZER_CLAUSE,
    JS_IDENTIFIER_BINDING,
    JS_UNKNOWN_BINDING,
    JS_BINDING_PATTERN_WITH_DEFAULT,
    JS_ARRAY_BINDING_PATTERN,
    JS_ARRAY_BINDING_PATTERN_ELEMENT_LIST,
    JS_ARRAY_BINDING_PATTERN_REST_ELEMENT,
    JS_ARRAY_HOLE,
    JS_OBJECT_BINDING_PATTERN,
    JS_OBJECT_BINDING_PATTERN_PROPERTY_LIST,
    JS_OBJECT_BINDING_PATTERN_PROPERTY,
    JS_OBJECT_BINDING_PATTERN_SHORTHAND_PROPERTY,
    JS_OBJECT_BINDING_PATTERN_REST,
    JS_LITERAL_MEMBER_NAME,
    JS_COMPUTED_MEMBER_NAME,
    JS_REFERENCE_IDENTIFIER,
    JS_NUMBER_LITERAL_EXPRESSION,
    JS_STRING_LITERAL_EXPRESSION,
    JS_BOOLEAN_LITERAL_EXPRESSION,
    JS_NULL_LITERAL_EXPRESSION,
    JS_THIS_EXPRESSION,
    JS_PARENTHESIZED_EXPRESSION,
    JS_OBJECT_EXPRESSION,
    JS_OBJECT_MEMBER_LIST,
    JS_PROPERTY_OBJECT_MEMBER,
    JS_SHORTHAND_PROPERTY_OBJECT_MEMBER,
    JS_UNARY_EXPRESSION,
    JS_BINARY_EXPRESSION,
    JS_CONDITIONAL_EXPRESSION,
    JS_ASSIGNMENT_EXPRESSION,
    JS_SEQUENCE_EXPRESSION,
    JS_STATIC_MEMBER_EXPRESSION,
    JS_CALL_EXPRESSION,
    JS_CALL_ARGUMENTS,
    JS_CALL_ARGUMENT_LIST,
    JS_UNKNOWN_EXPRESSION,
    JS_FUNCTION_DECLARATION,
    JS_FUNCTION_BODY,
    JS_PARAMETERS,
    JS_PARAMETER_LIST,
    JS_CLASS_DECLARATION,
    JS_CLASS_MEMBER_LIST,
    JS_EXTENDS_CLAUSE,
    JS_UNKNOWN_MEMBER,
    JS_EMPTY_CLASS_MEMBER,
    JS_METHOD_CLASS_MEMBER,
    JS_PROPERTY_CLASS_MEMBER,
    JS_REST_PARAMETER,
    JS_IMPORT,
    EXPORT_DECL,
    EXPORT_NAMED,
    EXPORT_NAMED_SPECIFIER_LIST,
    EXPORT_DEFAULT_DECL,
    EXPORT_DEFAULT_EXPR,
    EXPORT_WILDCARD,
    SPECIFIER,
    TS_EXPORT_ASSIGNMENT,
    TS_NAMESPACE_EXPORT_DECL,
    TS_IMPORT_EQUALS_DECL,
    TS_EXTERNAL_MODULE_REF,
    TS_QUALIFIED_PATH,
    TS_TYPE_NAME,
    TS_TYPE_ALIAS_DECL,
    TS_INTERFACE_DECL,
    TS_INTERFACE_MEMBER_LIST,
    TS_ENUM,
    TS_ENUM_MEMBER,
    TS_ENUM_MEMBER_LIST,
    TS_DECLARE,
    TS_PROPERTY_SIGNATURE,
    TS_TYPE_ANNOTATION,
}

impl SyntaxKind {
    /// The reserved words and the contextual keywords.
    pub open spec fn spec_is_keyword(self) -> bool {
        matches!(
            self,
            SyntaxKind::AWAIT_KW | SyntaxKind::CLASS_KW | SyntaxKind::CONST_KW
                | SyntaxKind::DEFAULT_KW | SyntaxKind::ENUM_KW | SyntaxKind::EXPORT_KW
                | SyntaxKind::EXTENDS_KW | SyntaxKind::FALSE_KW | SyntaxKind::FOR_KW
                | SyntaxKind::FUNCTION_KW
                | SyntaxKind::IMPORT_KW | SyntaxKind::IN_KW | SyntaxKind::NEW_KW
                | SyntaxKind::NULL_KW | SyntaxKind::RETURN_KW | SyntaxKind::THIS_KW
                | SyntaxKind::TRUE_KW | SyntaxKind::TYPEOF_KW | SyntaxKind::VAR_KW
                | SyntaxKind::VOID_KW | SyntaxKind::YIELD_KW | SyntaxKind::ABSTRACT_KW
                | SyntaxKind::AS_KW | SyntaxKind::ASYNC_KW | SyntaxKind::DECLARE_KW
                | SyntaxKind::FROM_KW | SyntaxKind::INTERFACE_KW | SyntaxKind::LET_KW
                | SyntaxKind::NAMESPACE_KW | SyntaxKind::REQUIRE_KW | SyntaxKind::TYPE_KW
        )
    }

    /// Whether this kind is a keyword, reserved or contextual.
    #[verifier::when_used_as_spec(spec_is_keyword)]
    pub fn is_keyword(self) -> (b: bool)
        ensures
            b == self.spec_is_keyword(),
    {
        matches!(
            self,
            SyntaxKind::AWAIT_KW | SyntaxKind::CLASS_KW | SyntaxKind::CONST_KW
                | SyntaxKind::DEFAULT_KW | SyntaxKind::ENUM_KW | SyntaxKind::EXPORT_KW
                | SyntaxKind::EXTENDS_KW | SyntaxKind::FALSE_KW | SyntaxKind::FOR_KW
                | SyntaxKind::FUNCTION_KW
                | SyntaxKind::IMPORT_KW | SyntaxKind::IN_KW | SyntaxKind::NEW_KW
                | SyntaxKind::NULL_KW | SyntaxKind::RETURN_KW | SyntaxKind::THIS_KW
                | SyntaxKind::TRUE_KW | SyntaxKind::TYPEOF_KW | SyntaxKind::VAR_KW
                | SyntaxKind::VOID_KW | SyntaxKind::YIELD_KW | SyntaxKind::ABSTRACT_KW
                | SyntaxKind::AS_KW | SyntaxKind::ASYNC_KW | SyntaxKind::DECLARE_KW
                | SyntaxKind::FROM_KW | SyntaxKind::INTERFACE_KW | SyntaxKind::LET_KW
                | SyntaxKind::NAMESPACE_KW | SyntaxKind::REQUIRE_KW | SyntaxKind::TYPE_KW
        )
    }

    /// How a kind is written in a message: the source text of a punctuation mark or a
    /// keyword, and a short description of anything else.
    pub open spec fn spec_describe(self) -> Seq<char> {
        match self {
            SyntaxKind::EOF => "the end of the file"@,
            SyntaxKind::IDENT => "an identifier"@,
            SyntaxKind::JS_NUMBER_LITERAL => "a number literal"@,
            SyntaxKind::JS_STRING_LITERAL => "a string literal"@,
            SyntaxKind::JS_SHEBANG => "a shebang"@,
            SyntaxKind::SEMICOLON => ";"@,
            SyntaxKind::COMMA => ","@,
            SyntaxKind::L_PAREN => "("@,
            SyntaxKind::R_PAREN => ")"@,
            SyntaxKind::L_CURLY => "{"@,
            SyntaxKind::R_CURLY => "}"@,
            SyntaxKind::L_BRACK => "["@,
            SyntaxKind::R_BRACK => "]"@,
            SyntaxKind::DOT => "."@,
            SyntaxKind::DOT3 => "..."@,
            SyntaxKind::COLON => ":"@,
            SyntaxKind::QUESTION => "?"@,
            SyntaxKind::EQ => "="@,
            SyntaxKind::EQ2 => "=="@,
            SyntaxKind::NEQ => "!="@,
            SyntaxKind::L_ANGLE => "<"@,
            SyntaxKind::R_ANGLE => ">"@,
            SyntaxKind::PLUS => "+"@,
            SyntaxKind::MINUS => "-"@,
            SyntaxKind::STAR => "*"@,
            SyntaxKind::SLASH => "/"@,
            SyntaxKind::PERCENT => "%"@,
            SyntaxKind::BANG => "!"@,
            SyntaxKind::AMP2 => "&&"@,
            SyntaxKind::PIPE2 => "||"@,
            SyntaxKind::AWAIT_KW => "await"@,
            SyntaxKind::CLASS_KW => "class"@,
            SyntaxKind::CONST_KW => "const"@,
            SyntaxKind::DEFAULT_KW => "default"@,
            SyntaxKind::ENUM_KW => "enum"@,
            SyntaxKind::EXPORT_KW => "export"@,
            SyntaxKind::EXTENDS_KW => "extends"@,
            SyntaxKind::FALSE_KW => "false"@,
            SyntaxKind::FOR_KW => "for"@,
            SyntaxKind::FUNCTION_KW => "function"@,
            SyntaxKind::IMPORT_KW => "import"@,
            SyntaxKind::IN_KW => "in"@,
            SyntaxKind::NEW_KW => "new"@,
            SyntaxKind::NULL_KW => "null"@,
            SyntaxKind::RETURN_KW => "return"@,
            SyntaxKind::THIS_KW => "this"@,
            SyntaxKind::TRUE_KW => "true"@,
            SyntaxKind::TYPEOF_KW => "typeof"@,
            SyntaxKind::VAR_KW => "var"@,
            SyntaxKind::VOID_KW => "void"@,
            SyntaxKind::YIELD_KW => "yield"@,
            SyntaxKind::ABSTRACT_KW => "abstract"@,
            SyntaxKind::AS_KW => "as"@,
            SyntaxKind::ASYNC_KW => "async"@,
            SyntaxKind::DECLARE_KW => "declare"@,
            SyntaxKind::FROM_KW => "from"@,
            SyntaxKind::INTERFACE_KW => "interface"@,
            SyntaxKind::LET_KW => "let"@,
            SyntaxKind::NAMESPACE_KW => "namespace"@,
            SyntaxKind::REQUIRE_KW => "require"@,
            SyntaxKind::TYPE_KW => "type"@,
            _ => "a syntax node"@,
        }
    }

    /// The text that stands for this kind in a message.
    pub fn describe(self) -> (s: &'static str)
        ensures
            s@ == self.spec_describe(),
    {
        match self {
            SyntaxKind::EOF => "the end of the file",
            SyntaxKind::IDENT => "an identifier",
            SyntaxKind::JS_NUMBER_LITERAL => "a number literal",
            SyntaxKind::JS_STRING_LITERAL => "a string literal",
            SyntaxKind::JS_SHEBANG => "a shebang",
            SyntaxKind::SEMICOLON => ";",
            SyntaxKind::COMMA => ",",
            SyntaxKind::L_PAREN => "(",
            SyntaxKind::R_PAREN => ")",
            SyntaxKind::L_CURLY => "{",
            SyntaxKind::R_CURLY => "}",
            SyntaxKind::L_BRACK => "[",
            SyntaxKind::R_BRACK => "]",
            SyntaxKind::DOT => ".",
            SyntaxKind::DOT3 => "...",
            SyntaxKind::COLON => ":",
            SyntaxKind::QUESTION => "?",
            SyntaxKind::EQ => "=",
            SyntaxKind::EQ2 => "==",
            SyntaxKind::NEQ => "!=",
            SyntaxKind::L_ANGLE => "<",
            SyntaxKind::R_ANGLE => ">",
            SyntaxKind::PLUS => "+",
            SyntaxKind::MINUS => "-",
            SyntaxKind::STAR => "*",
            SyntaxKind::SLASH => "/",
            SyntaxKind::PERCENT => "%",
            SyntaxKind::BANG => "!",
            SyntaxKind::AMP2 => "&&",
            SyntaxKind::PIPE2 => "||",
            SyntaxKind::AWAIT_KW => "await",
            SyntaxKind::CLASS_KW => "class",
            SyntaxKind::CONST_KW => "const",
            SyntaxKind::DEFAULT_KW => "default",
            SyntaxKind::ENUM_KW => "enum",
            SyntaxKind::EXPORT_KW => "export",
            SyntaxKind::EXTENDS_KW => "extends",
            SyntaxKind::FALSE_KW => "false",
            SyntaxKind::FOR_KW => "for",
            SyntaxKind::FUNCTION_KW => "function",
            SyntaxKind::IMPORT_KW => "import",
            SyntaxKind::IN_KW => "in",
            SyntaxKind::NEW_KW => "new",
            SyntaxKind::NULL_KW => "null",
            SyntaxKind::RETURN_KW => "return",
            SyntaxKind::THIS_KW => "this",
            SyntaxKind::TRUE_KW => "true",
            SyntaxKind::TYPEOF_KW => "typeof",
            SyntaxKind::VAR_KW => "var",
            SyntaxKind::VOID_KW => "void",
            SyntaxKind::YIELD_KW => "yield",
            SyntaxKind::ABSTRACT_KW => "abstract",
            SyntaxKind::AS_KW => "as",
            SyntaxKind::ASYNC_KW => "async",
            SyntaxKind::DECLARE_KW => "declare",
            SyntaxKind::FROM_KW => "from",
            SyntaxKind::INTERFACE_KW => "interface",
            SyntaxKind::LET_KW => "let",
            SyntaxKind::NAMESPACE_KW => "namespace",
            SyntaxKind::REQUIRE_KW => "require",
            SyntaxKind::TYPE_KW => "type",
            _ => "a syntax node",
        }
    }
}

/// What kind of source file is parsed.
#[derive(Clone, Copy, Debug, PartialEq, Eq, Structural, Hash)]
pub enum FileKind {
    Script,
    Module,
    TypeScript,
}

/// The syntax options of one parse.
#[derive(Clone, Copy, Debug, PartialEq, Eq, Structural, Hash)]
pub struct Syntax {
    pub file_kind: FileKind,
}

} // verus!
