//! The layout of a `for`-`in` statement and of the declaration in its head.

use vstd::prelude::*;
use crate::formatter::element::{
    group_elements, soft_indent, soft_line_break_or_space, space_token, spec_group,
    spec_soft_indent, FormatElement, FormatItemView,
};
use crate::formatter::node::{
    position, result_view, spec_position, FormatContext, FormatError, FormatResult, Formatter,
    SpecResult, Wanted,
};
use crate::syntax_kind::SyntaxKind;
use crate::tree::SyntaxElement;

verus! {

/// A `for`-`in` statement: the node at `node`.
#[derive(Clone, Copy, Debug, PartialEq, Eq, Structural)]
pub struct JsForInStatement {
    pub node: usize,
}

/// The declaration in the head of a `for`-`in` statement: the node at `node`.
#[derive(Clone, Copy, Debug, PartialEq, Eq, Structural)]
pub struct JsForVariableDeclaration {
    pub node: usize,
}

/// What a `for`-`in` statement walks with: a declaration, or what it assigns to.
#[derive(Clone, Copy, Debug, PartialEq, Eq, Structural)]
pub enum JsAnyForInOrOfInitializer {
    JsAnyAssignmentPattern(usize),
    JsForVariableDeclaration(JsForVariableDeclaration),
}

/// The initializer of a `for`-`in` statement with the children `children`: the
/// first node, if it stands before `in`.
pub open spec fn spec_initializer(children: Seq<SyntaxElement>) -> Option<
    JsAnyForInOrOfInitializer,
> {
    let i = spec_position(children, Wanted::AnyNode, 0);
    let stop = spec_position(children, Wanted::Token(SyntaxKind::IN_KW), 0);
    if i < stop {
        Some(
            if children[i]->Node_kind == SyntaxKind::JS_FOR_VARIABLE_DECLARATION {
                JsAnyForInOrOfInitializer::JsForVariableDeclaration(
                    JsForVariableDeclaration { node: children[i]->Node_start },
                )
            } else {
                JsAnyForInOrOfInitializer::JsAnyAssignmentPattern(children[i]->Node_start)
            },
        )
    } else {
        None
    }
}

/// The expression of a `for`-`in` statement with the children `children`: the first
/// node after `in`, if it stands before `)`.
pub open spec fn spec_expression(children: Seq<SyntaxElement>) -> Option<usize> {
    let start = spec_position(children, Wanted::Token(SyntaxKind::IN_KW), 0);
    let i = spec_position(children, Wanted::AnyNode, start + 1);
    let stop = spec_position(children, Wanted::Token(SyntaxKind::R_PAREN), 0);
    if start < children.len() && i < stop {
        Some(children[i]->Node_start)
    } else {
        None
    }
}

/// The body of a `for`-`in` statement with the children `children`: the first node
/// after `)`.
pub open spec fn spec_body(children: Seq<SyntaxElement>) -> Option<usize> {
    let start = spec_position(children, Wanted::Token(SyntaxKind::R_PAREN), 0);
    let i = spec_position(children, Wanted::AnyNode, start + 1);
    if start < children.len() && i < children.len() {
        Some(children[i]->Node_start)
    } else {
        None
    }
}

/// The declaration in the head of a `for`-`in` statement, formatted: `var`, `let` or
/// `const`, a space, and what is declared.
pub open spec fn spec_format_for_variable_declaration(
    ctx: FormatContext,
    node: usize,
    depth: nat,
) -> SpecResult
    decreases depth, 2nat, 0nat,
{
    let children = ctx.children(node);
    let t = spec_position(children, Wanted::AnyToken, 0);
    let d = spec_position(children, Wanted::Node(SyntaxKind::JS_VARIABLE_DECLARATION), 0);
    if t >= children.len() {
        Err(FormatError::MissingRequiredChild(SyntaxKind::VAR_KW))
    } else {
        match ctx.format_token(children[t]->Token_index) {
            Err(e) => Err(e),
            Ok(kind_token) => if d >= children.len() {
                Err(FormatError::MissingRequiredChild(SyntaxKind::JS_VARIABLE_DECLARATION))
            } else {
                match ctx.format_node(children[d]->Node_start, depth) {
                    Err(e) => Err(e),
                    Ok(declaration) => Ok(
                        kind_token + seq![FormatItemView::Space] + declaration,
                    ),
                }
            },
        }
    }
}

/// The initializer of a `for`-`in` statement, formatted.
pub open spec fn spec_format_initializer(
    ctx: FormatContext,
    initializer: JsAnyForInOrOfInitializer,
    depth: nat,
) -> SpecResult
    decreases depth, 3nat, 0nat,
{
    match initializer {
        JsAnyForInOrOfInitializer::JsAnyAssignmentPattern(node) => ctx.format_node(node, depth),
        JsAnyForInOrOfInitializer::JsForVariableDeclaration(declaration) => {
            spec_format_for_variable_declaration(ctx, declaration.node, depth)
        },
    }
}

/// A `for`-`in` statement, formatted: `for`, a space, and in parentheses a group
/// that holds, indented, the initializer, `in` and the expression, each on a line of
/// its own if the group breaks; then a space and the body.
pub open spec fn spec_format_for_in_statement(ctx: FormatContext, node: usize, depth: nat)
    -> SpecResult
    decreases depth, 4nat, 0nat,
{
    let children = ctx.children(node);
    match ctx.format_required_token(children, SyntaxKind::FOR_KW) {
        Err(e) => Err(e),
        Ok(for_token) => match ctx.format_required_token(children, SyntaxKind::L_PAREN) {
            Err(e) => Err(e),
            Ok(l_paren) => match spec_initializer(children) {
                None => Err(
                    FormatError::MissingRequiredChild(SyntaxKind::JS_FOR_VARIABLE_DECLARATION),
                ),
                Some(initializer) => match spec_format_initializer(ctx, initializer, depth) {
                    Err(e) => Err(e),
                    Ok(initializer) => match ctx.format_required_token(
                        children,
                        SyntaxKind::IN_KW,
                    ) {
                        Err(e) => Err(e),
                        Ok(in_token) => match spec_expression(children) {
                            None => Err(
                                FormatError::MissingRequiredChild(
                                    SyntaxKind::JS_UNKNOWN_EXPRESSION,
                                ),
                            ),
                            Some(expression) => match ctx.format_node(expression, depth) {
                                Err(e) => Err(e),
                                Ok(expression) => match ctx.format_required_token(
                                    children,
                                    SyntaxKind::R_PAREN,
                                ) {
                                    Err(e) => Err(e),
                                    Ok(r_paren) => match spec_body(children) {
                                        None => Err(
                                            FormatError::MissingRequiredChild(
                                                SyntaxKind::JS_UNKNOWN_STATEMENT,
                                            ),
                                        ),
                                        Some(body) => match ctx.format_node(body, depth) {
                                            Err(e) => Err(e),
                                            Ok(body) => Ok(
                                                for_token + seq![FormatItemView::Space] + l_paren
                                                    + spec_group(
                                                    spec_soft_indent(
                                                        initializer + seq![
                                                            FormatItemView::SoftLineBreakOrSpace,
                                                        ] + in_token + seq![
                                                            FormatItemView::SoftLineBreakOrSpace,
                                                        ] + expression,
                                                    ),
                                                ) + r_paren + seq![FormatItemView::Space] + body,
                                            ),
                                        },
                                    },
                                },
                            },
                        },
                    },
                },
            },
        },
    }
}

impl JsForInStatement {
    /// The initializer: the first node, if it stands before `in`.
    pub fn initializer(&self, children: &Vec<SyntaxElement>) -> (r: Option<
        JsAnyForInOrOfInitializer,
    >)
        ensures
            r == spec_initializer(children@),
            r matches Some(initializer) ==> exists|k: int|
                0 <= k < children@.len() && (#[trigger] children@[k]) is Node
                    && children@[k]->Node_start == initializer.node(),
    {
        let i = position(children, Wanted::AnyNode, 0);
        let stop = position(children, Wanted::Token(SyntaxKind::IN_KW), 0);
        if i < stop {
            match children[i] {
                SyntaxElement::Node { start, kind } => Some(
                    if kind == SyntaxKind::JS_FOR_VARIABLE_DECLARATION {
                        JsAnyForInOrOfInitializer::JsForVariableDeclaration(
                            JsForVariableDeclaration { node: start },
                        )
                    } else {
                        JsAnyForInOrOfInitializer::JsAnyAssignmentPattern(start)
                    },
                ),
                _ => None,
            }
        } else {
            None
        }
    }

    /// The expression: the first node after `in`, if it stands before `)`.
    pub fn expression(&self, children: &Vec<SyntaxElement>) -> (r: Option<usize>)
        ensures
            r == spec_expression(children@),
            r matches Some(node) ==> exists|k: int|
                0 <= k < children@.len() && (#[trigger] children@[k]) is Node
                    && children@[k]->Node_start == node,
    {
        let start = position(children, Wanted::Token(SyntaxKind::IN_KW), 0);
        if start >= children.len() {
            return None;
        }
        let i = position(children, Wanted::AnyNode, start + 1);
        let stop = position(children, Wanted::Token(SyntaxKind::R_PAREN), 0);
        if i < stop {
            match children[i] {
                SyntaxElement::Node { start, .. } => Some(start),
                _ => None,
            }
        } else {
            None
        }
    }

    /// The body: the first node after `)`.
    pub fn body(&self, children: &Vec<SyntaxElement>) -> (r: Option<usize>)
        ensures
            r == spec_body(children@),
            r matches Some(node) ==> exists|k: int|
                0 <= k < children@.len() && (#[trigger] children@[k]) is Node
                    && children@[k]->Node_start == node,
    {
        let start = position(children, Wanted::Token(SyntaxKind::R_PAREN), 0);
        if start >= children.len() {
            return None;
        }
        let i = position(children, Wanted::AnyNode, start + 1);
        if i < children.len() {
            match children[i] {
                SyntaxElement::Node { start, .. } => Some(start),
                _ => None,
            }
        } else {
            None
        }
    }

    /// Formats the statement.
    pub fn to_format_element(&self, formatter: &Formatter) -> (r: FormatResult<FormatElement>)
        requires
            formatter.wf(),
            formatter.is_node(self.node),
        ensures
            result_view(r) == spec_format_for_in_statement(
                formatter.context(),
                self.node,
                formatter.depth(),
            ),
        decreases formatter.depth(), 4nat, 0nat,
    {
        let children = formatter.children(self.node);
        let for_token = formatter.format_required_token(&children, SyntaxKind::FOR_KW)?;
        let l_paren = formatter.format_required_token(&children, SyntaxKind::L_PAREN)?;
        let initializer = match self.initializer(&children) {
            Some(initializer) => initializer.to_format_element(formatter)?,
            None => {
                return Err(
                    FormatError::MissingRequiredChild(SyntaxKind::JS_FOR_VARIABLE_DECLARATION),
                );
            },
        };
        let in_token = formatter.format_required_token(&children, SyntaxKind::IN_KW)?;
        let expression = match self.expression(&children) {
            Some(expression) => formatter.format_node(expression)?,
            None => {
                return Err(FormatError::MissingRequiredChild(SyntaxKind::JS_UNKNOWN_EXPRESSION));
            },
        };
        let r_paren = formatter.format_required_token(&children, SyntaxKind::R_PAREN)?;
        let body = match self.body(&children) {
            Some(body) => formatter.format_node(body)?,
            None => {
                return Err(FormatError::MissingRequiredChild(SyntaxKind::JS_UNKNOWN_STATEMENT));
            },
        };

        Ok(
            for_token.followed_by(space_token()).followed_by(l_paren).followed_by(
                group_elements(
                    soft_indent(
                        initializer.followed_by(soft_line_break_or_space()).followed_by(
                            in_token,
                        ).followed_by(soft_line_break_or_space()).followed_by(expression),
                    ),
                ),
            ).followed_by(r_paren).followed_by(space_token()).followed_by(body),
        )
    }
}

impl JsAnyForInOrOfInitializer {
    /// The node of the initializer.
    pub open spec fn node(self) -> usize {
        match self {
            JsAnyForInOrOfInitializer::JsAnyAssignmentPattern(node) => node,
            JsAnyForInOrOfInitializer::JsForVariableDeclaration(declaration) => declaration.node,
        }
    }

    /// Formats the initializer.
    pub fn to_format_element(&self, formatter: &Formatter) -> (r: FormatResult<FormatElement>)
        requires
            formatter.wf(),
            formatter.is_node(self.node()),
        ensures
            result_view(r) == spec_format_initializer(
                formatter.context(),
                *self,
                formatter.depth(),
            ),
        decreases formatter.depth(), 3nat, 0nat,
    {
        match self {
            JsAnyForInOrOfInitializer::JsAnyAssignmentPattern(assignment) => {
                formatter.format_node(*assignment)
            },
            JsAnyForInOrOfInitializer::JsForVariableDeclaration(decl) => {
                decl.to_format_element(formatter)
            },
        }
    }
}

impl JsForVariableDeclaration {
    /// Formats the declaration.
    pub fn to_format_element(&self, formatter: &Formatter) -> (r: FormatResult<FormatElement>)
        requires
            formatter.wf(),
            formatter.is_node(self.node),
        ensures
            result_view(r) == spec_format_for_variable_declaration(
                formatter.context(),
                self.node,
                formatter.depth(),
            ),
        decreases formatter.depth(), 2nat, 0nat,
    {
        let children = formatter.children(self.node);
        let t = position(&children, Wanted::AnyToken, 0);
        if t >= children.len() {
            return Err(FormatError::MissingRequiredChild(SyntaxKind::VAR_KW));
        }
        let kind_token = match children[t] {
            SyntaxElement::Token { index, .. } => formatter.format_token(index)?,
            _ => {
                return Err(FormatError::MissingRequiredChild(SyntaxKind::VAR_KW));
            },
        };
        let d = position(&children, Wanted::Node(SyntaxKind::JS_VARIABLE_DECLARATION), 0);
        if d >= children.len() {
            return Err(FormatError::MissingRequiredChild(SyntaxKind::JS_VARIABLE_DECLARATION));
        }
        let declaration = match children[d] {
            SyntaxElement::Node { start, .. } => formatter.format_node(start)?,
            _ => {
                return Err(
                    FormatError::MissingRequiredChild(SyntaxKind::JS_VARIABLE_DECLARATION),
                );
            },
        };
        Ok(kind_token.followed_by(space_token()).followed_by(declaration))
    }
}

} // verus!
