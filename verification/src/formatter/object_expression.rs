//! The layout of an object expression.

use vstd::prelude::*;
use crate::formatter::element::{
    group_elements, if_group_breaks, join_elements, soft_indent, soft_line_break_or_space,
    spec_group, spec_if_group_breaks, spec_join_elements, spec_soft_indent, token, views,
    FormatElement, FormatItemView,
};
use crate::formatter::node::{
    position, result_view, results_view, spec_position, FormatContext, FormatResult, Formatter, SpecResult,
    Wanted,
};
use crate::syntax_kind::SyntaxKind;
use crate::tree::SyntaxElement;

verus! {

/// An object expression, `{ a: 1, b }`: the node at `node`.
#[derive(Clone, Copy, Debug, PartialEq, Eq, Structural)]
pub struct JsObjectExpression {
    pub node: usize,
}

/// The elements of a list, each but the last with a `,` after it.
pub open spec fn spec_separated(parts: Seq<Seq<FormatItemView>>) -> Seq<Seq<FormatItemView>> {
    Seq::new(
        parts.len(),
        |k: int|
            if k + 1 < parts.len() {
                parts[k] + seq![FormatItemView::Text(","@)]
            } else {
                parts[k]
            },
    )
}

/// The members of an object expression with the children `children`: the children
/// of its member list.
pub open spec fn spec_members(ctx: FormatContext, children: Seq<SyntaxElement>) -> Seq<
    SyntaxElement,
> {
    let i = spec_position(children, Wanted::Node(SyntaxKind::JS_OBJECT_MEMBER_LIST), 0);
    if i < children.len() {
        ctx.children(children[i]->Node_start)
    } else {
        Seq::empty()
    }
}

/// An object expression, formatted: a group that holds the braces and, indented
/// between them, the members, one to a line if the group breaks. The members are
/// separated by commas, and the last has one if the group breaks.
pub open spec fn spec_format_object_expression(ctx: FormatContext, node: usize, depth: nat)
    -> SpecResult
    decreases depth, 2nat, 0nat,
{
    let children = ctx.children(node);
    match ctx.format_parts(spec_members(ctx, children), 0, depth, false) {
        Err(e) => Err(e),
        Ok(members) => match ctx.format_required_token(children, SyntaxKind::L_CURLY) {
            Err(e) => Err(e),
            Ok(l_curly) => match ctx.format_required_token(children, SyntaxKind::R_CURLY) {
                Err(e) => Err(e),
                Ok(r_curly) => Ok(
                    spec_group(
                        l_curly + spec_soft_indent(
                            spec_join_elements(
                                seq![FormatItemView::SoftLineBreakOrSpace],
                                spec_separated(members),
                            ) + spec_if_group_breaks(seq![FormatItemView::Text(","@)]),
                        ) + r_curly,
                    ),
                ),
            },
        },
    }
}

impl<'a> Formatter<'a> {
    /// Formats the nodes of a list whose elements are separated by commas: each but
    /// the last with a `,` after it.
    pub fn format_separated(&self, list: &Vec<SyntaxElement>) -> (r: FormatResult<
        Vec<FormatElement>,
    >)
        requires
            self.wf(),
            forall|k: int|
                0 <= k < list@.len() && (#[trigger] list@[k]) is Node ==> self.is_node(
                    list@[k]->Node_start,
                ),
        ensures
            results_view(r) == match self.context().format_parts(list@, 0, self.depth(), false) {
                Ok(parts) => Ok(spec_separated(parts)),
                Err(e) => Err(e),
            },
        decreases self.depth(), 1nat, list@.len() + 1,
    {
        let parts = self.format_parts(list, false)?;
        let mut separated: Vec<FormatElement> = Vec::new();
        let mut k: usize = 0;
        while k < parts.len()
            invariant
                k <= parts@.len(),
                separated@.len() == k,
                forall|j: int|
                    0 <= j < k ==> (#[trigger] separated@[j])@ == spec_separated(views(parts@))[j],
            decreases parts@.len() - k,
        {
            let part = parts[k].duplicate();
            assert(part@ == views(parts@)[k as int]);
            let part = if k + 1 < parts.len() {
                part.followed_by(token(","))
            } else {
                part
            };
            separated.push(part);
            k = k + 1;
        }
        assert(views(separated@) =~= spec_separated(views(parts@)));
        Ok(separated)
    }
}

impl JsObjectExpression {
    /// The members: the children of the member list.
    pub fn members(&self, formatter: &Formatter, children: &Vec<SyntaxElement>) -> (m: Vec<
        SyntaxElement,
    >)
        requires
            formatter.wf(),
            forall|k: int|
                0 <= k < children@.len() && (#[trigger] children@[k]) is Node
                    ==> formatter.is_node(children@[k]->Node_start),
        ensures
            m@ == spec_members(formatter.context(), children@),
            forall|k: int|
                0 <= k < m@.len() && (#[trigger] m@[k]) is Node ==> formatter.is_node(
                    m@[k]->Node_start,
                ),
    {
        let i = position(children, Wanted::Node(SyntaxKind::JS_OBJECT_MEMBER_LIST), 0);
        if i < children.len() {
            match children[i] {
                SyntaxElement::Node { start, .. } => formatter.children(start),
                _ => Vec::new(),
            }
        } else {
            Vec::new()
        }
    }

    /// Formats the object expression.
    pub fn to_format_element(&self, formatter: &Formatter) -> (r: FormatResult<FormatElement>)
        requires
            formatter.wf(),
            formatter.is_node(self.node),
        ensures
            result_view(r) == spec_format_object_expression(
                formatter.context(),
                self.node,
                formatter.depth(),
            ),
        decreases formatter.depth(), 2nat, 0nat,
    {
        let children = formatter.children(self.node);
        let props = formatter.format_separated(&self.members(formatter, &children))?;
        let l_curly = formatter.format_required_token(&children, SyntaxKind::L_CURLY)?;
        let r_curly = formatter.format_required_token(&children, SyntaxKind::R_CURLY)?;

        Ok(
            group_elements(
                l_curly.followed_by(
                    soft_indent(
                        join_elements(&soft_line_break_or_space(), props).followed_by(
                            if_group_breaks(token(",")),
                        ),
                    ),
                ).followed_by(r_curly),
            ),
        )
    }
}

} // verus!
