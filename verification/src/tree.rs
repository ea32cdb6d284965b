//! The tree that a finished event buffer stands for, and the walk over it.
//!
//! The tree is not copied out of the buffer. A node is the position of its
//! `StartNode`; the tree knows for every node where its `FinishNode` stands, and
//! reads the children of a node off the buffer.

use vstd::prelude::*;
use crate::event::{
    balanced, closes, fills_slot, law_one_finish, leaf_tokens, lemma_open_starts_sorted,
    lemma_prefix_well_nested, lemma_push, only_errors, open_starts, slots_at, slots_between,
    well_nested, Event,
};
use crate::syntax_kind::SyntaxKind;

verus! {

/// A child of a node: a node, named by the position of its `StartNode`, or a leaf.
#[derive(Clone, Copy, Debug, PartialEq, Eq, Structural)]
pub enum SyntaxElement {
    Node { start: usize, kind: SyntaxKind },
    Token { index: usize, kind: SyntaxKind },
    Error { diagnostic: usize },
    Placeholder,
}

/// The kind that the event at `f` closes a node with.
pub open spec fn finish_kind(ev: Seq<Event>, f: int) -> SyntaxKind {
    if 0 <= f < ev.len() {
        match ev[f] {
            Event::FinishNode { kind } => kind,
            _ => SyntaxKind::ERROR,
        }
    } else {
        SyntaxKind::ERROR
    }
}

/// The elements that stand side by side in `ev` from position `i` on, up to the
/// `FinishNode` that closes the node around them or to the end of the buffer. A node
/// is one element, whatever it holds: the walk goes on after its `FinishNode`, which
/// `fin` names. A `Tombstone` is no element.
pub open spec fn elements_from(ev: Seq<Event>, fin: Seq<usize>, i: int) -> Seq<SyntaxElement>
    decreases ev.len() - i,
{
    if i < 0 || i >= ev.len() || fin.len() != ev.len() {
        Seq::empty()
    } else {
        match ev[i] {
            Event::FinishNode { .. } => Seq::empty(),
            Event::StartNode => {
                let node = SyntaxElement::Node {
                    start: i as usize,
                    kind: finish_kind(ev, fin[i] as int),
                };
                if i < fin[i] < ev.len() {
                    seq![node] + elements_from(ev, fin, fin[i] + 1)
                } else {
                    seq![node]
                }
            },
            Event::Token { index, kind } => seq![SyntaxElement::Token { index, kind }]
                + elements_from(ev, fin, i + 1),
            Event::Error { diagnostic } => seq![SyntaxElement::Error { diagnostic }]
                + elements_from(ev, fin, i + 1),
            Event::Placeholder => seq![SyntaxElement::Placeholder] + elements_from(
                ev,
                fin,
                i + 1,
            ),
            Event::Tombstone => elements_from(ev, fin, i + 1),
        }
    }
}

/// How many of `elements` fill a child slot: every element but the attached errors.
pub open spec fn slot_count(elements: Seq<SyntaxElement>) -> nat
    decreases elements.len(),
{
    if elements.len() == 0 {
        0
    } else {
        slot_count(elements.drop_first()) + if elements[0] is Error {
            0nat
        } else {
            1nat
        }
    }
}

/// What one element in front does to the number of slots.
proof fn lemma_slot_count_front(e: SyntaxElement, rest: Seq<SyntaxElement>)
    ensures
        slot_count(seq![e] + rest) == slot_count(rest) + if e is Error {
            0nat
        } else {
            1nat
        },
{
    assert((seq![e] + rest).drop_first() =~= rest);
}

/// A run of errors holds no slot: the elements from its start on fill as many slots
/// as the elements from its end on.
proof fn lemma_errors_fill_no_slot(ev: Seq<Event>, fin: Seq<usize>, a: int, b: int)
    requires
        0 <= a <= b <= ev.len(),
        fin.len() == ev.len(),
        only_errors(ev, a, b),
    ensures
        slot_count(elements_from(ev, fin, a)) == slot_count(elements_from(ev, fin, b)),
    decreases b - a,
{
    reveal(only_errors);
    if a < b {
        assert(ev[a] is Error);
        lemma_errors_fill_no_slot(ev, fin, a + 1, b);
        lemma_slot_count_front(
            SyntaxElement::Error { diagnostic: ev[a]->diagnostic },
            elements_from(ev, fin, a + 1),
        );
    }
}

/// `fin` names the `FinishNode` of every `StartNode` of `ev`.
pub open spec fn finishes_of(ev: Seq<Event>, fin: Seq<usize>) -> bool {
    &&& fin.len() == ev.len()
    &&& forall|s: int|
        0 <= s < ev.len() && ev[s] is StartNode ==> closes(ev, s, (#[trigger] fin[s]) as int)
}

/// One slot is one element: the walk finds it and goes on after it.
proof fn lemma_slot_is_element(ev: Seq<Event>, fin: Seq<usize>, a: int, b: int)
    requires
        fills_slot(ev, a, b),
        finishes_of(ev, fin),
    ensures
        slot_count(elements_from(ev, fin, a)) == 1 + slot_count(elements_from(ev, fin, b)),
{
    let rest = elements_from(ev, fin, b);
    match ev[a] {
        Event::StartNode => {
            assert(closes(ev, a, fin[a] as int));
            law_one_finish(ev, a, b - 1, fin[a] as int);
            lemma_slot_count_front(
                SyntaxElement::Node { start: a as usize, kind: finish_kind(ev, fin[a] as int) },
                rest,
            );
            if b >= ev.len() {
                assert(rest =~= Seq::<SyntaxElement>::empty());
                assert(seq![
                    SyntaxElement::Node { start: a as usize, kind: finish_kind(ev, fin[a] as int) },
                ] + rest =~= seq![
                    SyntaxElement::Node { start: a as usize, kind: finish_kind(ev, fin[a] as int) },
                ]);
            }
        },
        Event::Token { index, kind } => {
            lemma_slot_count_front(SyntaxElement::Token { index, kind }, rest);
        },
        _ => {
            lemma_slot_count_front(SyntaxElement::Placeholder, rest);
        },
    }
}

/// The slots that `cuts` names are the elements that a walk from `from` finds, but
/// for the errors, where the walk ends at a `FinishNode` at `to`.
proof fn lemma_slots_are_elements(
    ev: Seq<Event>,
    fin: Seq<usize>,
    from: int,
    to: int,
    cuts: Seq<(int, int)>,
)
    requires
        slots_at(ev, from, to, cuts),
        finishes_of(ev, fin),
        to < ev.len(),
        ev[to] is FinishNode,
    ensures
        slot_count(elements_from(ev, fin, from)) == cuts.len(),
    decreases cuts.len(),
{
    if cuts.len() == 0 {
        lemma_errors_fill_no_slot(ev, fin, from, to);
        assert(elements_from(ev, fin, to) =~= Seq::<SyntaxElement>::empty());
    } else {
        lemma_errors_fill_no_slot(ev, fin, from, cuts[0].0);
        lemma_slot_is_element(ev, fin, cuts[0].0, cuts[0].1);
        lemma_slots_are_elements(ev, fin, cuts[0].1, to, cuts.drop_first());
    }
}

/// A finished event buffer, read as a tree.
#[derive(Debug)]
pub struct SyntaxTree {
    events: Vec<Event>,
    finish_of: Vec<usize>,
}

impl SyntaxTree {
    /// The buffer of the tree.
    pub closed spec fn events(&self) -> Seq<Event> {
        self.events@
    }

    /// For the position of each `StartNode`, the position of its `FinishNode`.
    pub closed spec fn finishes(&self) -> Seq<usize> {
        self.finish_of@
    }

    /// The buffer is balanced and no longer than a machine word counts, and the tree
    /// knows the `FinishNode` of every node.
    pub open spec fn wf(&self) -> bool {
        &&& balanced(self.events())
        &&& self.events().len() <= usize::MAX
        &&& self.finishes().len() == self.events().len()
        &&& forall|s: int|
            0 <= s < self.events().len() && (#[trigger] self.events()[s]) is StartNode ==> closes(
                self.events(),
                s,
                self.finishes()[s] as int,
            )
    }

    /// Whether `node` is the position of a node.
    pub open spec fn is_node(&self, node: usize) -> bool {
        node < self.events().len() && self.events()[node as int] is StartNode
    }

    /// The children of `node`, in order.
    pub open spec fn spec_children(&self, node: usize) -> Seq<SyntaxElement> {
        elements_from(self.events(), self.finishes(), node + 1)
    }

    /// The elements at the top of the buffer, in order. The buffer of a whole parse
    /// has one, the root, and the diagnostics attached after it.
    pub open spec fn spec_roots(&self) -> Seq<SyntaxElement> {
        elements_from(self.events(), self.finishes(), 0)
    }

    /// The slots of a node are its children. Where the events between the two ends
    /// of a node fill `n` child slots, the node has `n` children besides the errors
    /// attached in it: a walk over a node of fixed arity finds every child in its
    /// place, as a token, a node or a placeholder.
    pub proof fn law_slots_are_children(&self, node: usize, finish: int, n: nat)
        requires
            self.wf(),
            closes(self.events(), node as int, finish),
            slots_between(self.events(), node + 1, finish, n),
        ensures
            slot_count(self.spec_children(node)) == n,
    {
        let cuts = choose|cuts: Seq<(int, int)>|
            cuts.len() == n && #[trigger] slots_at(self.events(), node + 1, finish, cuts);
        assert(finishes_of(self.events(), self.finishes())) by {
            assert forall|s: int|
                0 <= s < self.events().len() && self.events()[s] is StartNode implies closes(
                self.events(),
                s,
                (#[trigger] self.finishes()[s]) as int,
            ) by {}
        }
        lemma_slots_are_elements(self.events(), self.finishes(), node + 1, finish, cuts);
    }

    /// Reads a buffer as a tree. The answer is `None` for a buffer that is not
    /// balanced: one that closes a node where none is open, or leaves a node open.
    pub fn new(events: Vec<Event>) -> (t: Option<SyntaxTree>)
        ensures
            t is Some <==> balanced(events@),
            t matches Some(tree) ==> tree.events() == events@ && tree.wf(),
    {
        let n = events.len();
        let mut finish_of: Vec<usize> = Vec::new();
        let mut k: usize = 0;
        while k < n
            invariant
                k <= n,
                finish_of@.len() == k,
            decreases n - k,
        {
            finish_of.push(0);
            k = k + 1;
        }
        let mut stack: Vec<usize> = Vec::new();
        let mut i: usize = 0;
        proof {
            reveal(open_starts);
            reveal(well_nested);
            assert(events@.take(0) =~= Seq::<Event>::empty());
        }
        while i < n
            invariant
                i <= n,
                n == events@.len(),
                finish_of@.len() == n,
                stack@.len() == open_starts(events@.take(i as int)).len(),
                forall|j: int|
                    0 <= j < stack@.len() ==> (#[trigger] stack@[j]) as int == open_starts(
                        events@.take(i as int),
                    )[j],
                well_nested(events@.take(i as int)),
                forall|s: int|
                    0 <= s < i && (#[trigger] events@[s]) is StartNode && !open_starts(
                        events@.take(i as int),
                    ).contains(s) ==> closes(events@, s, finish_of@[s] as int),
            decreases n - i,
        {
            let ghost before = events@.take(i as int);
            let ghost open = open_starts(before);
            proof {
                assert(events@.take(i + 1) =~= before.push(events@[i as int]));
                lemma_push(before, events@[i as int]);
                lemma_open_starts_sorted(before);
            }
            match events[i] {
                Event::StartNode => {
                    stack.push(i);
                    proof {
                        let after = open_starts(events@.take(i + 1));
                        assert forall|s: int|
                            0 <= s < i + 1 && (#[trigger] events@[s]) is StartNode
                                && !after.contains(s) implies closes(
                            events@,
                            s,
                            finish_of@[s] as int,
                        ) by {
                            assert(after[open.len() as int] == i);
                            if open.contains(s) {
                                let j = open.index_of(s);
                                assert(after[j] == s);
                            }
                        }
                    }
                },
                Event::FinishNode { .. } => {
                    if stack.len() == 0 {
                        proof {
                            if well_nested(events@) {
                                lemma_prefix_well_nested(events@, i + 1);
                            }
                        }
                        return None;
                    }
                    let top = stack.pop().unwrap();
                    let ghost old_finish = finish_of@;
                    finish_of.set(top, i);
                    proof {
                        let after = open_starts(events@.take(i + 1));
                        assert(after =~= open.drop_last());
                        assert(open.last() == top);
                        assert(before[top as int] is StartNode);
                        assert(closes(events@, top as int, i as int));
                        assert forall|s: int|
                            0 <= s < i + 1 && (#[trigger] events@[s]) is StartNode
                                && !after.contains(s) implies closes(
                            events@,
                            s,
                            finish_of@[s] as int,
                        ) by {
                            if s != top {
                                if open.contains(s) {
                                    let j = open.index_of(s);
                                    assert(j < open.len() - 1);
                                    assert(after[j] == s);
                                }
                                assert(finish_of@[s] == old_finish[s]);
                            }
                        }
                    }
                },
                _ => {},
            }
            i = i + 1;
        }
        proof {
            assert(events@.take(n as int) =~= events@);
        }
        if stack.len() != 0 {
            return None;
        }
        let tree = SyntaxTree { events, finish_of };
        proof {
            assert forall|s: int|
                0 <= s < tree.events().len() && (#[trigger] tree.events()[s]) is StartNode implies closes(
                tree.events(),
                s,
                tree.finishes()[s] as int,
            ) by {
                assert(!open_starts(tree.events()).contains(s));
            }
        }
        Some(tree)
    }

    /// How many events the buffer holds.
    pub fn len(&self) -> (n: usize)
        ensures
            n == self.events().len(),
    {
        self.events.len()
    }

    /// The event at position `i`.
    pub fn event(&self, i: usize) -> (e: Event)
        requires
            i < self.events().len(),
        ensures
            e == self.events()[i as int],
    {
        self.events[i]
    }

    /// The position of the `FinishNode` of a node.
    pub fn finish_of(&self, node: usize) -> (f: usize)
        requires
            self.wf(),
            self.is_node(node),
        ensures
            f == self.finishes()[node as int],
            closes(self.events(), node as int, f as int),
    {
        self.finish_of[node]
    }

    /// The kind of a node.
    pub fn kind(&self, node: usize) -> (k: SyntaxKind)
        requires
            self.wf(),
            self.is_node(node),
        ensures
            k == finish_kind(self.events(), self.finishes()[node as int] as int),
            self.events()[self.finishes()[node as int] as int] == (Event::FinishNode { kind: k }),
    {
        match self.events[self.finish_of[node]] {
            Event::FinishNode { kind } => kind,
            _ => SyntaxKind::ERROR,
        }
    }

    fn walk(&self, from: usize) -> (c: Vec<SyntaxElement>)
        requires
            self.wf(),
        ensures
            c@ == elements_from(self.events(), self.finishes(), from as int),
    {
        let n = self.events.len();
        let mut c: Vec<SyntaxElement> = Vec::new();
        let mut i: usize = from;
        let ghost whole = elements_from(self.events(), self.finishes(), from as int);
        assert(c@ + whole =~= whole);
        while i < n
            invariant
                self.wf(),
                n == self.events().len(),
                whole == c@ + elements_from(self.events(), self.finishes(), i as int),
            ensures
                whole == c@,
            decreases n - i,
        {
            let ghost rest = elements_from(self.events(), self.finishes(), i as int);
            let ghost done = c@;
            match self.events[i] {
                Event::FinishNode { .. } => {
                    assert(done + rest =~= done);
                    break ;
                },
                Event::StartNode => {
                    let f = self.finish_of[i];
                    assert(closes(self.events(), i as int, f as int));
                    let kind = match self.events[f] {
                        Event::FinishNode { kind } => kind,
                        _ => SyntaxKind::ERROR,
                    };
                    let node = SyntaxElement::Node { start: i, kind };
                    c.push(node);
                    i = f + 1;
                    assert(done + rest =~= done.push(node) + elements_from(
                        self.events(),
                        self.finishes(),
                        i as int,
                    ));
                },
                Event::Token { index, kind } => {
                    let leaf = SyntaxElement::Token { index, kind };
                    c.push(leaf);
                    i = i + 1;
                    assert(done + rest =~= done.push(leaf) + elements_from(
                        self.events(),
                        self.finishes(),
                        i as int,
                    ));
                },
                Event::Error { diagnostic } => {
                    let leaf = SyntaxElement::Error { diagnostic };
                    c.push(leaf);
                    i = i + 1;
                    assert(done + rest =~= done.push(leaf) + elements_from(
                        self.events(),
                        self.finishes(),
                        i as int,
                    ));
                },
                Event::Placeholder => {
                    c.push(SyntaxElement::Placeholder);
                    i = i + 1;
                    assert(done + rest =~= done.push(SyntaxElement::Placeholder) + elements_from(
                        self.events(),
                        self.finishes(),
                        i as int,
                    ));
                },
                Event::Tombstone => {
                    i = i + 1;
                },
            }
        }
        proof {
            if i >= n {
                assert(c@ + elements_from(self.events(), self.finishes(), i as int) =~= c@);
            }
        }
        c
    }

    /// The numbers of the tokens that are leaves of the tree, from left to right.
    /// For the tree of a whole parse these are the numbers of all tokens of the
    /// source, in order.
    pub fn leaf_tokens(&self) -> (t: Vec<usize>)
        ensures
            t@.map_values(|i: usize| i as int) == leaf_tokens(self.events()),
    {
        let n = self.events.len();
        let mut t: Vec<usize> = Vec::new();
        let mut i: usize = 0;
        proof {
            reveal(leaf_tokens);
            assert(self.events().take(0) =~= Seq::<Event>::empty());
            assert(t@.map_values(|i: usize| i as int) =~= Seq::<int>::empty());
        }
        while i < n
            invariant
                i <= n,
                n == self.events().len(),
                t@.map_values(|i: usize| i as int) == leaf_tokens(self.events().take(i as int)),
            decreases n - i,
        {
            let ghost before = self.events().take(i as int);
            let ghost mapped = t@.map_values(|i: usize| i as int);
            proof {
                assert(self.events().take(i + 1) =~= before.push(self.events()[i as int]));
                lemma_push(before, self.events()[i as int]);
            }
            if let Event::Token { index, .. } = self.events[i] {
                t.push(index);
                assert(t@.map_values(|i: usize| i as int) =~= mapped.push(index as int));
            }
            i = i + 1;
        }
        proof {
            assert(self.events().take(n as int) =~= self.events());
        }
        t
    }

    /// The children of a node, in order.
    pub fn children(&self, node: usize) -> (c: Vec<SyntaxElement>)
        requires
            self.wf(),
            self.is_node(node),
        ensures
            c@ == self.spec_children(node),
    {
        self.walk(node + 1)
    }

    /// The elements at the top of the buffer, in order.
    pub fn roots(&self) -> (c: Vec<SyntaxElement>)
        requires
            self.wf(),
        ensures
            c@ == self.spec_roots(),
    {
        self.walk(0)
    }
}

} // verus!
