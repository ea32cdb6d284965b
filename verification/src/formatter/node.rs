//! The formatter itself, what it makes of a token and of a node of any kind, and
//! the lookups that find the children of a node.

use vstd::prelude::*;
use crate::event::Event;
use crate::formatter::element::{
    join_elements, space_token, spec_join_elements, token, views, FormatElement, FormatItemView,
};
use crate::formatter::for_in_statement::{
    spec_format_for_in_statement, spec_format_for_variable_declaration, JsForInStatement,
    JsForVariableDeclaration,
};
use crate::formatter::object_expression::{spec_format_object_expression, JsObjectExpression};
use crate::syntax_kind::SyntaxKind;
use crate::token::Token;
use crate::tree::{elements_from, finish_kind, SyntaxElement, SyntaxTree};

verus! {

/// Why a node could not be formatted.
#[derive(Clone, Copy, Debug, PartialEq, Eq, Structural)]
pub enum FormatError {
    /// The node lacks a child that its layout needs: a token or a node of this kind.
    MissingRequiredChild(SyntaxKind),
    /// The tree attaches a token with this number, and the token stream has none.
    MissingToken(usize),
    /// The nodes nest deeper than the formatter goes.
    TooDeep,
}

pub type FormatResult<T> = Result<T, FormatError>;

/// The mathematical value of the result of formatting one element.
pub type SpecResult = Result<Seq<FormatItemView>, FormatError>;

/// The mathematical value of the result of formatting several elements.
pub type SpecResults = Result<Seq<Seq<FormatItemView>>, FormatError>;

pub open spec fn result_view(r: FormatResult<FormatElement>) -> SpecResult {
    match r {
        Ok(e) => Ok(e@),
        Err(e) => Err(e),
    }
}

pub open spec fn results_view(r: FormatResult<Vec<FormatElement>>) -> SpecResults {
    match r {
        Ok(parts) => Ok(views(parts@)),
        Err(e) => Err(e),
    }
}

/// What a lookup among the children of a node looks for.
#[derive(Clone, Copy, Debug, PartialEq, Eq, Structural)]
pub enum Wanted {
    /// A token attached under this kind.
    Token(SyntaxKind),
    /// Any token.
    AnyToken,
    /// A node of this kind.
    Node(SyntaxKind),
    /// Any node.
    AnyNode,
}

impl Wanted {
    /// Whether `element` is what is looked for.
    pub open spec fn spec_accepts(self, element: SyntaxElement) -> bool {
        match (self, element) {
            (Wanted::Token(wanted), SyntaxElement::Token { kind, .. }) => kind == wanted,
            (Wanted::AnyToken, SyntaxElement::Token { .. }) => true,
            (Wanted::Node(wanted), SyntaxElement::Node { kind, .. }) => kind == wanted,
            (Wanted::AnyNode, SyntaxElement::Node { .. }) => true,
            _ => false,
        }
    }

    /// Whether `element` is what is looked for.
    pub fn accepts(self, element: SyntaxElement) -> (b: bool)
        ensures
            b == self.spec_accepts(element),
    {
        match (self, element) {
            (Wanted::Token(wanted), SyntaxElement::Token { kind, .. }) => kind == wanted,
            (Wanted::AnyToken, SyntaxElement::Token { .. }) => true,
            (Wanted::Node(wanted), SyntaxElement::Node { kind, .. }) => kind == wanted,
            (Wanted::AnyNode, SyntaxElement::Node { .. }) => true,
            _ => false,
        }
    }
}

/// The place of the first of `children`, from place `from` on, that is what is
/// looked for; the number of children if there is none.
pub open spec fn spec_position(children: Seq<SyntaxElement>, wanted: Wanted, from: int) -> int
    decreases children.len() - from,
{
    if from < 0 || from >= children.len() {
        children.len() as int
    } else if wanted.spec_accepts(children[from]) {
        from
    } else {
        spec_position(children, wanted, from + 1)
    }
}

/// The place of the first of `children`, from place `from` on, that is what is
/// looked for; the number of children if there is none.
pub fn position(children: &Vec<SyntaxElement>, wanted: Wanted, from: usize) -> (i: usize)
    ensures
        i == spec_position(children@, wanted, from as int),
        i <= children@.len(),
        i < children@.len() ==> from <= i && wanted.spec_accepts(children@[i as int]),
{
    let mut i = from;
    while i < children.len()
        invariant
            from <= i,
            spec_position(children@, wanted, from as int) == spec_position(
                children@,
                wanted,
                i as int,
            ),
        decreases children@.len() - i,
    {
        if wanted.accepts(children[i]) {
            return i;
        }
        i = i + 1;
    }
    children.len()
}

/// What the formatter reads: the tokens and the tree.
pub struct FormatContext {
    pub tokens: Seq<Token>,
    pub events: Seq<Event>,
    pub finishes: Seq<usize>,
}

impl FormatContext {
    /// The children of a node.
    pub open spec fn children(self, node: usize) -> Seq<SyntaxElement> {
        elements_from(self.events, self.finishes, node + 1)
    }

    /// The kind of a node.
    pub open spec fn kind(self, node: usize) -> SyntaxKind {
        if node < self.finishes.len() {
            finish_kind(self.events, self.finishes[node as int] as int)
        } else {
            SyntaxKind::ERROR
        }
    }

    /// A token, formatted: its text.
    pub open spec fn format_token(self, index: usize) -> SpecResult {
        if index < self.tokens.len() {
            Ok(seq![FormatItemView::Text(self.tokens[index as int].text@)])
        } else {
            Err(FormatError::MissingToken(index))
        }
    }

    /// The first of `children` that is a token of kind `kind`, formatted. It is an
    /// error if there is none.
    pub open spec fn format_required_token(
        self,
        children: Seq<SyntaxElement>,
        kind: SyntaxKind,
    ) -> SpecResult {
        let i = spec_position(children, Wanted::Token(kind), 0);
        if i < children.len() {
            self.format_token(children[i]->Token_index)
        } else {
            Err(FormatError::MissingRequiredChild(kind))
        }
    }

    /// A node, formatted. The formatter goes `depth` nodes deep. It knows the layout
    /// of some kinds of node; a node of any other kind is its children with spaces
    /// between them.
    pub open spec fn format_node(self, node: usize, depth: nat) -> SpecResult
        decreases depth, 0nat, 0nat,
    {
        if depth == 0 {
            Err(FormatError::TooDeep)
        } else {
            let deeper = (depth - 1) as nat;
            match self.kind(node) {
                SyntaxKind::JS_OBJECT_EXPRESSION => spec_format_object_expression(
                    self,
                    node,
                    deeper,
                ),
                SyntaxKind::JS_FOR_IN_STATEMENT => spec_format_for_in_statement(self, node, deeper),
                SyntaxKind::JS_FOR_VARIABLE_DECLARATION => spec_format_for_variable_declaration(
                    self,
                    node,
                    deeper,
                ),
                _ => match self.format_parts(self.children(node), 0, deeper, true) {
                    Ok(parts) => Ok(spec_join_elements(seq![FormatItemView::Space], parts)),
                    Err(e) => Err(e),
                },
            }
        }
    }

    /// The nodes among `children` from place `i` on, each formatted, and the tokens
    /// too if `tokens_too` is set. The first error is the error of the whole.
    pub open spec fn format_parts(
        self,
        children: Seq<SyntaxElement>,
        i: int,
        depth: nat,
        tokens_too: bool,
    ) -> SpecResults
        decreases depth, 1nat, children.len() - i,
    {
        if i < 0 || i >= children.len() {
            Ok(Seq::empty())
        } else {
            let first = match children[i] {
                SyntaxElement::Node { start, .. } => Some(self.format_node(start, depth)),
                SyntaxElement::Token { index, .. } => if tokens_too {
                    Some(self.format_token(index))
                } else {
                    None
                },
                _ => None,
            };
            match first {
                Some(Err(e)) => Err(e),
                Some(Ok(part)) => match self.format_parts(children, i + 1, depth, tokens_too) {
                    Ok(rest) => Ok(seq![part] + rest),
                    Err(e) => Err(e),
                },
                None => self.format_parts(children, i + 1, depth, tokens_too),
            }
        }
    }
}

/// What has been formatted so far, and then the rest.
pub open spec fn prepend(done: Seq<Seq<FormatItemView>>, rest: SpecResults) -> SpecResults {
    match rest {
        Ok(rest) => Ok(done + rest),
        Err(e) => Err(e),
    }
}

/// Every node among the elements that stand side by side is a node of the tree.
pub proof fn lemma_elements_are_nodes(ev: Seq<Event>, fin: Seq<usize>, from: int, k: int)
    requires
        ev.len() <= usize::MAX,
        0 <= k < elements_from(ev, fin, from).len(),
        elements_from(ev, fin, from)[k] is Node,
    ensures
        from <= elements_from(ev, fin, from)[k]->Node_start < ev.len(),
        ev[elements_from(ev, fin, from)[k]->Node_start as int] is StartNode,
    decreases ev.len() - from,
{
    let all = elements_from(ev, fin, from);
    if 0 <= from < ev.len() && fin.len() == ev.len() {
        match ev[from] {
            Event::FinishNode { .. } => {},
            Event::StartNode => {
                if from < fin[from] < ev.len() {
                    let rest = elements_from(ev, fin, fin[from] + 1);
                    assert(all == seq![all[0]] + rest);
                    if k > 0 {
                        assert(all[k] == rest[k - 1]);
                        lemma_elements_are_nodes(ev, fin, fin[from] + 1, k - 1);
                    }
                }
            },
            Event::Tombstone => {
                lemma_elements_are_nodes(ev, fin, from + 1, k);
            },
            _ => {
                let rest = elements_from(ev, fin, from + 1);
                assert(all == seq![all[0]] + rest);
                assert(!(all[0] is Node));
                assert(all[k] == rest[k - 1]);
                lemma_elements_are_nodes(ev, fin, from + 1, k - 1);
            },
        }
    }
}

/// The formatter: the tokens and the tree it reads, and how deep it still goes.
#[derive(Clone, Copy, Debug)]
pub struct Formatter<'a> {
    tokens: &'a Vec<Token>,
    tree: &'a SyntaxTree,
    depth: usize,
}

impl<'a> Formatter<'a> {
    /// What the formatter reads.
    pub closed spec fn context(&self) -> FormatContext {
        FormatContext {
            tokens: self.tokens@,
            events: self.tree.events(),
            finishes: self.tree.finishes(),
        }
    }

    /// How many nodes deep the formatter still goes.
    pub closed spec fn depth(&self) -> nat {
        self.depth as nat
    }

    /// The tree is well formed.
    pub closed spec fn wf(&self) -> bool {
        self.tree.wf()
    }

    /// Whether `node` is a node of the tree.
    pub closed spec fn is_node(&self, node: usize) -> bool {
        self.tree.is_node(node)
    }

    /// A formatter for a tree and the tokens that the tree was built from. It goes
    /// as deep as the tree has events, which is deeper than any tree nests.
    pub fn new(tokens: &'a Vec<Token>, tree: &'a SyntaxTree) -> (f: Formatter<'a>)
        requires
            tree.wf(),
        ensures
            f.wf(),
            f.context() == (FormatContext {
                tokens: tokens@,
                events: tree.events(),
                finishes: tree.finishes(),
            }),
            f.depth() == tree.events().len(),
            forall|node: usize| f.is_node(node) == tree.is_node(node),
    {
        Formatter { tokens, tree, depth: tree.len() }
    }

    /// A formatter that goes `depth` nodes deep and no deeper.
    pub fn with_depth(tokens: &'a Vec<Token>, tree: &'a SyntaxTree, depth: usize) -> (f: Formatter<
        'a,
    >)
        requires
            tree.wf(),
        ensures
            f.wf(),
            f.context() == (FormatContext {
                tokens: tokens@,
                events: tree.events(),
                finishes: tree.finishes(),
            }),
            f.depth() == depth,
            forall|node: usize| f.is_node(node) == tree.is_node(node),
    {
        Formatter { tokens, tree, depth }
    }

    /// This formatter, one node deeper.
    fn deeper(&self) -> (f: Formatter<'a>)
        requires
            self.wf(),
            self.depth() > 0,
        ensures
            f.wf(),
            f.context() == self.context(),
            f.depth() == self.depth() - 1,
            forall|node: usize| f.is_node(node) == self.is_node(node),
    {
        Formatter { tokens: self.tokens, tree: self.tree, depth: self.depth - 1 }
    }

    /// The children of a node.
    pub fn children(&self, node: usize) -> (c: Vec<SyntaxElement>)
        requires
            self.wf(),
            self.is_node(node),
        ensures
            c@ == self.context().children(node),
            forall|k: int|
                0 <= k < c@.len() && (#[trigger] c@[k]) is Node ==> self.is_node(
                    c@[k]->Node_start,
                ),
    {
        let c = self.tree.children(node);
        proof {
            assert forall|k: int| 0 <= k < c@.len() && (#[trigger] c@[k]) is Node implies self.is_node(
                c@[k]->Node_start,
            ) by {
                lemma_elements_are_nodes(
                    self.tree.events(),
                    self.tree.finishes(),
                    node + 1,
                    k,
                );
            }
        }
        c
    }

    /// The kind of a node.
    pub fn kind(&self, node: usize) -> (k: SyntaxKind)
        requires
            self.wf(),
            self.is_node(node),
        ensures
            k == self.context().kind(node),
    {
        self.tree.kind(node)
    }

    /// Formats the token with the number `index`: its text.
    pub fn format_token(&self, index: usize) -> (r: FormatResult<FormatElement>)
        ensures
            result_view(r) == self.context().format_token(index),
    {
        if index < self.tokens.len() {
            Ok(token(self.tokens[index].text.as_str()))
        } else {
            Err(FormatError::MissingToken(index))
        }
    }

    /// Formats the first of `children` that is a token of kind `kind`. It is an
    /// error if there is none.
    pub fn format_required_token(&self, children: &Vec<SyntaxElement>, kind: SyntaxKind) -> (r:
        FormatResult<FormatElement>)
        ensures
            result_view(r) == self.context().format_required_token(children@, kind),
    {
        let i = position(children, Wanted::Token(kind), 0);
        if i < children.len() {
            match children[i] {
                SyntaxElement::Token { index, .. } => self.format_token(index),
                _ => Err(FormatError::MissingRequiredChild(kind)),
            }
        } else {
            Err(FormatError::MissingRequiredChild(kind))
        }
    }

    /// Formats a node. The layout of an object expression, a `for`-`in` statement
    /// and the declaration in its head is known; a node of any other kind is
    /// formatted as its children with spaces between them.
    pub fn format_node(&self, node: usize) -> (r: FormatResult<FormatElement>)
        requires
            self.wf(),
            self.is_node(node),
        ensures
            result_view(r) == self.context().format_node(node, self.depth()),
        decreases self.depth(), 0nat, 0nat,
    {
        if self.depth == 0 {
            return Err(FormatError::TooDeep);
        }
        let deeper = self.deeper();
        match self.kind(node) {
            SyntaxKind::JS_OBJECT_EXPRESSION => JsObjectExpression { node }.to_format_element(
                &deeper,
            ),
            SyntaxKind::JS_FOR_IN_STATEMENT => JsForInStatement { node }.to_format_element(
                &deeper,
            ),
            SyntaxKind::JS_FOR_VARIABLE_DECLARATION => JsForVariableDeclaration {
                node,
            }.to_format_element(&deeper),
            _ => {
                let children = deeper.children(node);
                let parts = deeper.format_parts(&children, true)?;
                Ok(join_elements(&space_token(), parts))
            },
        }
    }

    /// Formats the nodes among `children`, and the tokens too if `tokens_too` is
    /// set. The first error is the error of the whole.
    pub fn format_parts(&self, children: &Vec<SyntaxElement>, tokens_too: bool) -> (r:
        FormatResult<Vec<FormatElement>>)
        requires
            self.wf(),
            forall|k: int|
                0 <= k < children@.len() && (#[trigger] children@[k]) is Node ==> self.is_node(
                    children@[k]->Node_start,
                ),
        ensures
            results_view(r) == self.context().format_parts(
                children@,
                0,
                self.depth(),
                tokens_too,
            ),
        decreases self.depth(), 1nat, children@.len(),
    {
        let ghost ctx = self.context();
        let ghost whole = ctx.format_parts(children@, 0, self.depth(), tokens_too);
        let mut parts: Vec<FormatElement> = Vec::new();
        let mut i: usize = 0;
        assert(views(parts@) =~= Seq::<Seq<FormatItemView>>::empty());
        assert(prepend(views(parts@), whole) == whole) by {
            if whole is Ok {
                assert(views(parts@) + whole->Ok_0 =~= whole->Ok_0);
            }
        }
        while i < children.len()
            invariant
                self.wf(),
                ctx == self.context(),
                forall|k: int|
                    0 <= k < children@.len() && (#[trigger] children@[k]) is Node
                        ==> self.is_node(children@[k]->Node_start),
                i <= children@.len(),
                whole == ctx.format_parts(children@, 0, self.depth(), tokens_too),
                whole == prepend(
                    views(parts@),
                    ctx.format_parts(children@, i as int, self.depth(), tokens_too),
                ),
            decreases children@.len() - i,
        {
            let ghost done = views(parts@);
            let ghost rest = ctx.format_parts(children@, i + 1, self.depth(), tokens_too);
            let part = match children[i] {
                SyntaxElement::Node { start, .. } => Some(self.format_node(start)),
                SyntaxElement::Token { index, .. } => {
                    if tokens_too {
                        Some(self.format_token(index))
                    } else {
                        None
                    }
                },
                _ => None,
            };
            match part {
                Some(Err(e)) => {
                    assert(ctx.format_parts(children@, i as int, self.depth(), tokens_too) == Err::<
                        Seq<Seq<FormatItemView>>,
                        FormatError,
                    >(e));
                    return Err(e);
                },
                Some(Ok(part)) => {
                    let ghost view = part@;
                    parts.push(part);
                    proof {
                        assert(views(parts@) =~= done.push(view));
                        if rest is Ok {
                            assert(done + (seq![view] + rest->Ok_0) =~= done.push(view)
                                + rest->Ok_0);
                        }
                    }
                },
                None => {},
            }
            i = i + 1;
        }
        proof {
            assert(views(parts@) + Seq::<Seq<FormatItemView>>::empty() =~= views(parts@));
        }
        Ok(parts)
    }
}

} // verus!
