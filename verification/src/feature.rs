//! Syntax features that a rule can ask for.

use vstd::prelude::*;
use crate::parser::{Parser, ParserView};
use crate::syntax_kind::FileKind;

verus! {

/// A feature of the language that is on in some contexts and off in others.
#[derive(Clone, Copy, Debug, PartialEq, Eq, Structural)]
pub enum JsSyntaxFeature {
    /// The rules of strict mode.
    StrictMode,
    /// The TypeScript extensions.
    TypeScript,
}

impl JsSyntaxFeature {
    /// Whether the feature is on where `p` stands.
    pub open spec fn spec_is_supported(self, p: ParserView) -> bool {
        match self {
            JsSyntaxFeature::StrictMode => p.state.strict,
            JsSyntaxFeature::TypeScript => p.file_kind == FileKind::TypeScript,
        }
    }

    /// Whether the feature is on where `p` stands.
    pub fn is_supported(&self, p: &Parser) -> (b: bool)
        ensures
            b == self.spec_is_supported(p@),
    {
        match self {
            JsSyntaxFeature::StrictMode => p.state().strict,
            JsSyntaxFeature::TypeScript => p.typescript(),
        }
    }
}

} // verus!
