//! Format elements: what the formatter tells a printer.
//!
//! An element is a flat sequence of items, in the manner of the event buffer: text,
//! spaces and possible line breaks, and brackets that open and close a group, an
//! indentation, or content that is printed only in a broken group.

use vstd::prelude::*;

verus! {

/// One item of a format element.
#[derive(Debug)]
pub enum FormatItem {
    /// Text that is printed as it is.
    Text(String),
    /// A space.
    Space,
    /// A line break if the group around it breaks, nothing if it does not.
    SoftLineBreak,
    /// A line break if the group around it breaks, a space if it does not.
    SoftLineBreakOrSpace,
    /// What follows, up to `IndentEnd`, is indented by one level.
    IndentStart,
    IndentEnd,
    /// What follows, up to `GroupEnd`, is printed on one line if it fits, and with all
    /// its soft line breaks taken if it does not.
    GroupStart,
    GroupEnd,
    /// What follows, up to `IfGroupBreaksEnd`, is printed only if the group around
    /// it breaks.
    IfGroupBreaksStart,
    IfGroupBreaksEnd,
}

/// The mathematical value of a [`FormatItem`].
pub enum FormatItemView {
    Text(Seq<char>),
    Space,
    SoftLineBreak,
    SoftLineBreakOrSpace,
    IndentStart,
    IndentEnd,
    GroupStart,
    GroupEnd,
    IfGroupBreaksStart,
    IfGroupBreaksEnd,
}

impl View for FormatItem {
    type V = FormatItemView;

    open spec fn view(&self) -> FormatItemView {
        match self {
            FormatItem::Text(s) => FormatItemView::Text(s@),
            FormatItem::Space => FormatItemView::Space,
            FormatItem::SoftLineBreak => FormatItemView::SoftLineBreak,
            FormatItem::SoftLineBreakOrSpace => FormatItemView::SoftLineBreakOrSpace,
            FormatItem::IndentStart => FormatItemView::IndentStart,
            FormatItem::IndentEnd => FormatItemView::IndentEnd,
            FormatItem::GroupStart => FormatItemView::GroupStart,
            FormatItem::GroupEnd => FormatItemView::GroupEnd,
            FormatItem::IfGroupBreaksStart => FormatItemView::IfGroupBreaksStart,
            FormatItem::IfGroupBreaksEnd => FormatItemView::IfGroupBreaksEnd,
        }
    }
}

/// A format element: a sequence of items.
#[derive(Debug)]
pub struct FormatElement {
    items: Vec<FormatItem>,
}

impl View for FormatElement {
    type V = Seq<FormatItemView>;

    closed spec fn view(&self) -> Seq<FormatItemView> {
        self.items@.map_values(|i: FormatItem| i@)
    }
}

/// The content as a group.
pub open spec fn spec_group(content: Seq<FormatItemView>) -> Seq<FormatItemView> {
    seq![FormatItemView::GroupStart] + content + seq![FormatItemView::GroupEnd]
}

/// The content on lines of its own, indented, if the group around it breaks.
pub open spec fn spec_soft_indent(content: Seq<FormatItemView>) -> Seq<FormatItemView> {
    seq![FormatItemView::IndentStart, FormatItemView::SoftLineBreak] + content + seq![
        FormatItemView::IndentEnd,
        FormatItemView::SoftLineBreak,
    ]
}

/// The content, printed only if the group around it breaks.
pub open spec fn spec_if_group_breaks(content: Seq<FormatItemView>) -> Seq<FormatItemView> {
    seq![FormatItemView::IfGroupBreaksStart] + content + seq![FormatItemView::IfGroupBreaksEnd]
}

/// The elements one after the other.
pub open spec fn spec_format_elements(parts: Seq<Seq<FormatItemView>>) -> Seq<FormatItemView>
    decreases parts.len(),
{
    if parts.len() == 0 {
        Seq::empty()
    } else {
        spec_format_elements(parts.drop_last()) + parts.last()
    }
}

/// The elements with the separator between each two of them.
pub open spec fn spec_join_elements(
    separator: Seq<FormatItemView>,
    parts: Seq<Seq<FormatItemView>>,
) -> Seq<FormatItemView>
    decreases parts.len(),
{
    if parts.len() == 0 {
        Seq::empty()
    } else if parts.len() == 1 {
        parts[0]
    } else {
        spec_join_elements(separator, parts.drop_last()) + separator + parts.last()
    }
}

/// The views of the elements of a vector.
pub open spec fn views(parts: Seq<FormatElement>) -> Seq<Seq<FormatItemView>> {
    parts.map_values(|e: FormatElement| e@)
}

fn one(item: FormatItem) -> (e: FormatElement)
    ensures
        e@ == seq![item@],
{
    let mut items: Vec<FormatItem> = Vec::new();
    items.push(item);
    let e = FormatElement { items };
    assert(e@ =~= seq![item@]);
    e
}

/// The element that holds nothing.
pub fn empty_element() -> (e: FormatElement)
    ensures
        e@ == Seq::<FormatItemView>::empty(),
{
    let e = FormatElement { items: Vec::new() };
    assert(e@ =~= Seq::<FormatItemView>::empty());
    e
}

/// Text that is printed as it is.
pub fn token(text: &str) -> (e: FormatElement)
    ensures
        e@ == seq![FormatItemView::Text(text@)],
{
    one(FormatItem::Text(String::from_str(text)))
}

/// A space.
pub fn space_token() -> (e: FormatElement)
    ensures
        e@ == seq![FormatItemView::Space],
{
    one(FormatItem::Space)
}

/// A line break if the group around it breaks, a space if it does not.
pub fn soft_line_break_or_space() -> (e: FormatElement)
    ensures
        e@ == seq![FormatItemView::SoftLineBreakOrSpace],
{
    one(FormatItem::SoftLineBreakOrSpace)
}

impl FormatElement {
    /// The items of the element.
    pub fn items(&self) -> (items: &Vec<FormatItem>)
        ensures
            items@.map_values(|i: FormatItem| i@) == self@,
    {
        &self.items
    }

    /// How many items the element holds.
    pub fn len(&self) -> (n: usize)
        ensures
            n == self@.len(),
    {
        self.items.len()
    }

    /// This element and then `next`.
    pub fn followed_by(self, next: FormatElement) -> (e: FormatElement)
        ensures
            e@ == self@ + next@,
    {
        let mut items = self.items;
        let mut rest = next.items;
        let ghost first = items@;
        let ghost second = rest@;
        items.append(&mut rest);
        let e = FormatElement { items };
        assert(e@ =~= first.map_values(|i: FormatItem| i@) + second.map_values(
            |i: FormatItem| i@,
        ));
        e
    }

    fn bracketed(self, open: FormatItem, close: FormatItem) -> (e: FormatElement)
        ensures
            e@ == seq![open@] + self@ + seq![close@],
    {
        one(open).followed_by(self).followed_by(one(close))
    }
}

/// The content as a group.
pub fn group_elements(content: FormatElement) -> (e: FormatElement)
    ensures
        e@ == spec_group(content@),
{
    content.bracketed(FormatItem::GroupStart, FormatItem::GroupEnd)
}

/// The content on lines of its own, indented, if the group around it breaks.
pub fn soft_indent(content: FormatElement) -> (e: FormatElement)
    ensures
        e@ == spec_soft_indent(content@),
{
    let e = one(FormatItem::IndentStart).followed_by(one(FormatItem::SoftLineBreak)).followed_by(content).followed_by(
        one(FormatItem::IndentEnd),
    ).followed_by(one(FormatItem::SoftLineBreak));
    assert(e@ =~= spec_soft_indent(content@));
    e
}

/// The content, printed only if the group around it breaks.
pub fn if_group_breaks(content: FormatElement) -> (e: FormatElement)
    ensures
        e@ == spec_if_group_breaks(content@),
{
    content.bracketed(FormatItem::IfGroupBreaksStart, FormatItem::IfGroupBreaksEnd)
}

/// The elements one after the other.
pub fn format_elements(parts: Vec<FormatElement>) -> (e: FormatElement)
    ensures
        e@ == spec_format_elements(views(parts@)),
{
    let mut parts = parts;
    let ghost whole = views(parts@);
    let mut tail = empty_element();
    assert(spec_format_elements(whole) + tail@ =~= spec_format_elements(whole));
    while parts.len() > 0
        invariant
            spec_format_elements(whole) == spec_format_elements(views(parts@)) + tail@,
        decreases parts@.len(),
    {
        let ghost before = views(parts@);
        let ghost rest = tail@;
        let last = parts.pop().unwrap();
        assert(views(parts@) =~= before.drop_last());
        assert(last@ == before.last());
        tail = last.followed_by(tail);
        assert(spec_format_elements(before.drop_last()) + before.last() + rest
            =~= spec_format_elements(before.drop_last()) + (before.last() + rest));
    }
    assert(spec_format_elements(views(parts@)) + tail@ =~= tail@);
    tail
}

/// The elements with `separator` between each two of them.
pub fn join_elements(separator: &FormatElement, parts: Vec<FormatElement>) -> (e: FormatElement)
    ensures
        e@ == spec_join_elements(separator@, views(parts@)),
{
    let mut parts = parts;
    let ghost whole = views(parts@);
    if parts.len() == 0 {
        return empty_element();
    }
    let mut tail = empty_element();
    assert(spec_join_elements(separator@, whole) + tail@ =~= spec_join_elements(
        separator@,
        whole,
    ));
    while parts.len() > 1
        invariant
            parts@.len() >= 1,
            spec_join_elements(separator@, whole) == spec_join_elements(
                separator@,
                views(parts@),
            ) + tail@,
        decreases parts@.len(),
    {
        let ghost before = views(parts@);
        let ghost rest = tail@;
        let last = parts.pop().unwrap();
        assert(views(parts@) =~= before.drop_last());
        assert(last@ == before.last());
        tail = separator.duplicate().followed_by(last).followed_by(tail);
        assert(spec_join_elements(separator@, before.drop_last()) + separator@ + before.last()
            + rest =~= spec_join_elements(separator@, before.drop_last()) + (separator@
            + before.last() + rest));
    }
    let ghost single = views(parts@);
    let first = parts.pop().unwrap();
    assert(first@ == single[0]);
    first.followed_by(tail)
}

impl FormatElement {
    /// A copy that holds the same items.
    pub fn duplicate(&self) -> (e: FormatElement)
        ensures
            e@ == self@,
    {
        let mut items: Vec<FormatItem> = Vec::new();
        let mut i: usize = 0;
        while i < self.items.len()
            invariant
                i <= self.items@.len(),
                items@.len() == i,
                forall|j: int| 0 <= j < i ==> (#[trigger] items@[j])@ == self.items@[j]@,
            decreases self.items@.len() - i,
        {
            let item = match &self.items[i] {
                FormatItem::Text(s) => FormatItem::Text(s.clone()),
                FormatItem::Space => FormatItem::Space,
                FormatItem::SoftLineBreak => FormatItem::SoftLineBreak,
                FormatItem::SoftLineBreakOrSpace => FormatItem::SoftLineBreakOrSpace,
                FormatItem::IndentStart => FormatItem::IndentStart,
                FormatItem::IndentEnd => FormatItem::IndentEnd,
                FormatItem::GroupStart => FormatItem::GroupStart,
                FormatItem::GroupEnd => FormatItem::GroupEnd,
                FormatItem::IfGroupBreaksStart => FormatItem::IfGroupBreaksStart,
                FormatItem::IfGroupBreaksEnd => FormatItem::IfGroupBreaksEnd,
            };
            items.push(item);
            i = i + 1;
        }
        let e = FormatElement { items };
        assert(e@ =~= self@);
        e
    }
}

} // verus!
