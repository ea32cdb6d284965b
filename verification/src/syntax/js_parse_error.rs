//! The errors that say which node was expected at a place.

use vstd::prelude::*;
use crate::diagnostic::{DiagnosticBuilder, DiagnosticView};
use crate::parser::{Parser, ParserView};
use crate::token::TextRange;

verus! {

/// Whether a name takes the article `an`.
pub open spec fn spec_starts_with_vowel(name: Seq<char>) -> bool {
    name.len() > 0 && (name[0] == 'a' || name[0] == 'e' || name[0] == 'i' || name[0] == 'o'
        || name[0] == 'u')
}

/// A name with its article: `an identifier`, `a binding`.
pub open spec fn spec_with_article(name: Seq<char>) -> Seq<char> {
    if spec_starts_with_vowel(name) {
        "an "@ + name
    } else {
        "a "@ + name
    }
}

/// The first `n` names, each with its article, as an enumeration that ends in `or`:
/// `a`, `a or b`, `a, b, or c`.
pub open spec fn spec_join_names(names: Seq<Seq<char>>, n: int) -> Seq<char>
    decreases n,
{
    if n <= 0 || n > names.len() {
        Seq::empty()
    } else if n == 1 {
        spec_with_article(names[0])
    } else if n == names.len() {
        spec_join_names(names, n - 1) + if names.len() == 2 {
            " or "@
        } else {
            ", or "@
        } + spec_with_article(names[n - 1])
    } else {
        spec_join_names(names, n - 1) + ", "@ + spec_with_article(names[n - 1])
    }
}

/// The error that says that `names` was expected at `range`, where the source holds
/// `found`.
#[verifier::opaque]
pub open spec fn spec_expected_error(names: Seq<char>, found: Seq<char>, range: TextRange)
    -> DiagnosticView {
    DiagnosticView::error(
        if found.len() == 0 {
            "expected "@ + names + " but instead found the end of the file"@
        } else {
            "expected "@ + names + " but instead found '"@ + found + "'"@
        },
    ).primary(range, "Expected "@ + names + " here"@)
}

/// The error that says that one of `names` was expected at `range`.
#[verifier::opaque]
pub open spec fn spec_expected_any(p: ParserView, names: Seq<Seq<char>>, range: TextRange)
    -> DiagnosticView {
    spec_expected_error(spec_join_names(names, names.len() as int), p.source(range), range)
}

/// The error that says that a node called `name` was expected at `range`.
#[verifier::opaque]
pub open spec fn spec_expected_node(p: ParserView, name: Seq<char>, range: TextRange)
    -> DiagnosticView {
    spec_expected_any(p, seq![name], range)
}

/// An expectation that has not been put into words for a parser yet.
#[derive(Debug)]
pub struct ExpectedNodeDiagnosticBuilder {
    pub names: String,
    pub range: TextRange,
}

fn with_article(name: &str) -> (s: String)
    ensures
        s@ == spec_with_article(name@),
{
    let vowel = if name.unicode_len() > 0 {
        let c = name.get_char(0);
        c == 'a' || c == 'e' || c == 'i' || c == 'o' || c == 'u'
    } else {
        false
    };
    if vowel {
        String::from_str("an ").concat(name)
    } else {
        String::from_str("a ").concat(name)
    }
}

/// Expects a node called `name` at `range`.
pub fn expected_node(name: &str, range: TextRange) -> (e: ExpectedNodeDiagnosticBuilder)
    ensures
        e.names@ == spec_join_names(seq![name@], 1),
        e.range == range,
{
    ExpectedNodeDiagnosticBuilder { names: with_article(name), range }
}

/// Expects one of the nodes called `names` at `range`.
pub fn expected_any(names: &[&str], range: TextRange) -> (e: ExpectedNodeDiagnosticBuilder)
    ensures
        e.names@ == spec_join_names(names@.map_values(|s: &str| s@), names@.len() as int),
        e.range == range,
{
    let ghost views = names@.map_values(|s: &str| s@);
    let mut joined = String::new();
    let mut i: usize = 0;
    while i < names.len()
        invariant
            i <= names@.len(),
            views == names@.map_values(|s: &str| s@),
            joined@ == spec_join_names(views, i as int),
        decreases names@.len() - i,
    {
        let part = with_article(names[i]);
        assert(views[i as int] == names@[i as int]@);
        if i == 0 {
            assert(Seq::<char>::empty() + part@ =~= part@);
        } else if i + 1 == names.len() {
            if names.len() == 2 {
                joined.append(" or ");
            } else {
                joined.append(", or ");
            }
        } else {
            joined.append(", ");
        }
        joined.append(part.as_str());
        i = i + 1;
    }
    ExpectedNodeDiagnosticBuilder { names: joined, range }
}

/// Something that becomes a diagnostic once it is told which parser it is for.
pub trait ToDiagnostic {
    spec fn spec_to_diagnostic(&self, p: ParserView) -> DiagnosticView;

    fn to_diagnostic(self, p: &Parser) -> (b: DiagnosticBuilder)
        ensures
            b@ == self.spec_to_diagnostic(p@),
    ;
}

impl ToDiagnostic for ExpectedNodeDiagnosticBuilder {
    open spec fn spec_to_diagnostic(&self, p: ParserView) -> DiagnosticView {
        spec_expected_error(self.names@, p.source(self.range), self.range)
    }

    fn to_diagnostic(self, p: &Parser) -> (b: DiagnosticBuilder) {
        proof {
            reveal(spec_expected_error);
        }
        let found = p.source(self.range);
        let head = String::from_str("expected ").concat(self.names.as_str());
        let message = if found.as_str().unicode_len() == 0 {
            head.concat(" but instead found the end of the file")
        } else {
            head.concat(" but instead found '").concat(found.as_str()).concat("'")
        };
        let label = String::from_str("Expected ").concat(self.names.as_str()).concat(" here");
        p.err_builder(message.as_str()).primary(self.range, label.as_str())
    }
}

/// An identifier was expected at `range`.
pub fn expected_identifier(p: &Parser, range: TextRange) -> (b: DiagnosticBuilder)
    ensures
        b@ == spec_expected_node(p@, "identifier"@, range),
{
    proof {
        reveal(spec_expected_any);
        reveal(spec_expected_node);
    }
    expected_node("identifier", range).to_diagnostic(p)
}

/// An identifier, an object pattern or an array pattern was expected at `range`.
pub fn expected_binding(p: &Parser, range: TextRange) -> (b: DiagnosticBuilder)
    ensures
        b@ == spec_expected_any(
            p@,
            seq!["identifier"@, "object pattern"@, "array pattern"@],
            range,
        ),
{
    proof {
        reveal(spec_expected_any);
        reveal(spec_expected_node);
    }
    let names = ["identifier", "object pattern", "array pattern"];
    assert(names@.map_values(|s: &str| s@) =~= seq![
        "identifier"@,
        "object pattern"@,
        "array pattern"@,
    ]);
    expected_any(&names, range).to_diagnostic(p)
}

/// The name of an object member was expected at `range`.
pub fn expected_object_member_name(p: &Parser, range: TextRange) -> (b: DiagnosticBuilder)
    ensures
        b@ == spec_expected_any(
            p@,
            seq!["identifier"@, "string literal"@, "number literal"@, "computed property"@],
            range,
        ),
{
    proof {
        reveal(spec_expected_any);
        reveal(spec_expected_node);
    }
    let names = ["identifier", "string literal", "number literal", "computed property"];
    assert(names@.map_values(|s: &str| s@) =~= seq![
        "identifier"@,
        "string literal"@,
        "number literal"@,
        "computed property"@,
    ]);
    expected_any(&names, range).to_diagnostic(p)
}

/// An expression was expected at `range`.
pub fn expected_expression(p: &Parser, range: TextRange) -> (b: DiagnosticBuilder)
    ensures
        b@ == spec_expected_node(p@, "expression"@, range),
{
    proof {
        reveal(spec_expected_any);
        reveal(spec_expected_node);
    }
    expected_node("expression", range).to_diagnostic(p)
}

/// An expression or an assignment was expected at `range`.
pub fn expected_expression_assignment(p: &Parser, range: TextRange) -> (b: DiagnosticBuilder)
    ensures
        b@ == spec_expected_any(p@, seq!["expression"@, "assignment"@], range),
{
    proof {
        reveal(spec_expected_any);
        reveal(spec_expected_node);
    }
    let names = ["expression", "assignment"];
    assert(names@.map_values(|s: &str| s@) =~= seq!["expression"@, "assignment"@]);
    expected_any(&names, range).to_diagnostic(p)
}

/// A statement was expected at `range`.
pub fn expected_statement(p: &Parser, range: TextRange) -> (b: DiagnosticBuilder)
    ensures
        b@ == spec_expected_node(p@, "statement"@, range),
{
    proof {
        reveal(spec_expected_any);
        reveal(spec_expected_node);
    }
    expected_node("statement", range).to_diagnostic(p)
}

} // verus!
