//! The event buffer: the flat, ordered record of tree construction.
//!
//! A buffer is read from left to right. `StartNode` opens a node, the next `FinishNode`
//! that is not claimed by a later `StartNode` closes it and names its kind, and the
//! leaves in between (`Token`, `Error`, `Placeholder`) are its children. `Tombstone`
//! marks a slot whose event was withdrawn; it stands for nothing in the tree.
//!
//! The functions here are the mathematical reading of a buffer: which nodes are still
//! open, whether the brackets nest, which tokens and which diagnostics it refers to.

use vstd::prelude::*;
use crate::syntax_kind::SyntaxKind;

verus! {

/// One tree-construction instruction.
#[derive(Clone, Copy, Debug, PartialEq, Eq, Structural)]
pub enum Event {
    /// Opens a node. Its kind is named by the `FinishNode` that closes it.
    StartNode,
    /// Closes the innermost open node and gives it `kind`.
    FinishNode { kind: SyntaxKind },
    /// Attaches token number `index` of the token stream as a leaf of kind `kind`.
    Token { index: usize, kind: SyntaxKind },
    /// Attaches diagnostic number `diagnostic` of the sink at this place.
    Error { diagnostic: usize },
    /// An empty child slot: a required child that the source does not have.
    Placeholder,
    /// A withdrawn `StartNode` or `FinishNode`.
    Tombstone,
}

impl Event {
    /// Whether the event opens or closes a node.
    pub open spec fn is_bracket(self) -> bool {
        self is StartNode || self is FinishNode
    }

    /// Two events that play the same part in every reading of a buffer: they open or
    /// close alike and refer to the same token or diagnostic.
    pub open spec fn same_role(self, other: Event) -> bool {
        &&& self is StartNode <==> other is StartNode
        &&& self is FinishNode <==> other is FinishNode
        &&& self is Token <==> other is Token
        &&& self is Token ==> self->index == other->index
        &&& self is Error <==> other is Error
        &&& self is Error ==> self->diagnostic == other->diagnostic
    }
}

/// The sequence `0, 1, .., n - 1`.
pub open spec fn iota(n: nat) -> Seq<int> {
    Seq::new(n, |i: int| i)
}

/// The positions of the `StartNode` events that are still open at the end of `ev`,
/// outermost first.
#[verifier::opaque]
pub open spec fn open_starts(ev: Seq<Event>) -> Seq<int>
    decreases ev.len(),
{
    if ev.len() == 0 {
        Seq::empty()
    } else {
        let before = open_starts(ev.drop_last());
        match ev.last() {
            Event::StartNode => before.push(ev.len() - 1),
            Event::FinishNode { .. } => if before.len() > 0 {
                before.drop_last()
            } else {
                before
            },
            _ => before,
        }
    }
}

/// No `FinishNode` of `ev` stands where no node is open.
#[verifier::opaque]
pub open spec fn well_nested(ev: Seq<Event>) -> bool
    decreases ev.len(),
{
    ev.len() == 0 || {
        &&& well_nested(ev.drop_last())
        &&& ev.last() is FinishNode ==> open_starts(ev.drop_last()).len() > 0
    }
}

/// Every node of `ev` that was opened has been closed, and the brackets nest.
pub open spec fn balanced(ev: Seq<Event>) -> bool {
    well_nested(ev) && open_starts(ev).len() == 0
}

/// The token numbers that the `Token` events of `ev` attach, in buffer order.
#[verifier::opaque]
pub open spec fn leaf_tokens(ev: Seq<Event>) -> Seq<int>
    decreases ev.len(),
{
    if ev.len() == 0 {
        Seq::empty()
    } else {
        let before = leaf_tokens(ev.drop_last());
        match ev.last() {
            Event::Token { index, .. } => before.push(index as int),
            _ => before,
        }
    }
}

/// The diagnostic numbers that the `Error` events of `ev` attach, in buffer order.
#[verifier::opaque]
pub open spec fn error_refs(ev: Seq<Event>) -> Seq<int>
    decreases ev.len(),
{
    if ev.len() == 0 {
        Seq::empty()
    } else {
        let before = error_refs(ev.drop_last());
        match ev.last() {
            Event::Error { diagnostic } => before.push(diagnostic as int),
            _ => before,
        }
    }
}

/// How many `StartNode` events `ev` holds.
pub open spec fn count_starts(ev: Seq<Event>) -> nat
    decreases ev.len(),
{
    if ev.len() == 0 {
        0
    } else {
        count_starts(ev.drop_last()) + if ev.last() is StartNode { 1nat } else { 0nat }
    }
}

/// How many `FinishNode` events `ev` holds.
pub open spec fn count_finishes(ev: Seq<Event>) -> nat
    decreases ev.len(),
{
    if ev.len() == 0 {
        0
    } else {
        count_finishes(ev.drop_last()) + if ev.last() is FinishNode { 1nat } else { 0nat }
    }
}

/// How many child slots the leaves of `ev` fill: one for each token and one for each
/// placeholder.
pub open spec fn leaf_slots(ev: Seq<Event>) -> nat
    decreases ev.len(),
{
    if ev.len() == 0 {
        0
    } else {
        leaf_slots(ev.drop_last()) + if ev.last() is Token || ev.last() is Placeholder {
            1nat
        } else {
            0nat
        }
    }
}

/// What one more event does to the number of slots that the leaves fill.
pub proof fn lemma_leaf_slots_push(ev: Seq<Event>, e: Event)
    ensures
        leaf_slots(ev.push(e)) == leaf_slots(ev) + if e is Token || e is Placeholder {
            1nat
        } else {
            0nat
        },
{
    assert(ev.push(e).drop_last() =~= ev);
}

/// What one more event does to each reading of the buffer.
pub proof fn lemma_push(ev: Seq<Event>, e: Event)
    ensures
        ev.push(e).drop_last() == ev,
        open_starts(ev.push(e)) == match e {
            Event::StartNode => open_starts(ev).push(ev.len() as int),
            Event::FinishNode { .. } => if open_starts(ev).len() > 0 {
                open_starts(ev).drop_last()
            } else {
                open_starts(ev)
            },
            _ => open_starts(ev),
        },
        well_nested(ev.push(e)) == (well_nested(ev) && (e is FinishNode ==> open_starts(ev).len()
            > 0)),
        leaf_tokens(ev.push(e)) == match e {
            Event::Token { index, .. } => leaf_tokens(ev).push(index as int),
            _ => leaf_tokens(ev),
        },
        error_refs(ev.push(e)) == match e {
            Event::Error { diagnostic } => error_refs(ev).push(diagnostic as int),
            _ => error_refs(ev),
        },
{
    reveal(open_starts);
    reveal(well_nested);
    reveal(leaf_tokens);
    reveal(error_refs);
    assert(ev.push(e).drop_last() =~= ev);
}

/// The open positions are positions of `StartNode` events, in increasing order.
pub proof fn lemma_open_starts_sorted(ev: Seq<Event>)
    ensures
        forall|k: int|
            0 <= k < open_starts(ev).len() ==> 0 <= #[trigger] open_starts(ev)[k] < ev.len()
                && ev[open_starts(ev)[k]] is StartNode,
        forall|j: int, k: int|
            0 <= j < k < open_starts(ev).len() ==> open_starts(ev)[j] < open_starts(ev)[k],
    decreases ev.len(),
{
    reveal(open_starts);
    reveal(well_nested);
    reveal(leaf_tokens);
    reveal(error_refs);
    if ev.len() > 0 {
        lemma_open_starts_sorted(ev.drop_last());
    }
}

/// Replacing events by events of the same role changes no reading of the buffer.
pub proof fn lemma_same_roles(a: Seq<Event>, b: Seq<Event>)
    requires
        a.len() == b.len(),
        forall|i: int| 0 <= i < a.len() ==> (#[trigger] a[i]).same_role(b[i]),
    ensures
        open_starts(a) == open_starts(b),
        well_nested(a) == well_nested(b),
        leaf_tokens(a) == leaf_tokens(b),
        error_refs(a) == error_refs(b),
    decreases a.len(),
{
    reveal(open_starts);
    reveal(well_nested);
    reveal(leaf_tokens);
    reveal(error_refs);
    if a.len() > 0 {
        lemma_same_roles(a.drop_last(), b.drop_last());
        assert(a.last().same_role(b.last()));
    }
}

/// Replacing one event that is no leaf by another that is no leaf keeps the tokens and
/// the diagnostics that the buffer refers to.
pub proof fn lemma_leaves_kept(ev: Seq<Event>, i: int, e: Event)
    requires
        0 <= i < ev.len(),
        !(ev[i] is Token) && !(ev[i] is Error),
        !(e is Token) && !(e is Error),
    ensures
        leaf_tokens(ev.update(i, e)) == leaf_tokens(ev),
        error_refs(ev.update(i, e)) == error_refs(ev),
    decreases ev.len(),
{
    reveal(open_starts);
    reveal(well_nested);
    reveal(leaf_tokens);
    reveal(error_refs);
    if i == ev.len() - 1 {
        assert(ev.update(i, e).drop_last() =~= ev.drop_last());
    } else {
        lemma_leaves_kept(ev.drop_last(), i, e);
        assert(ev.update(i, e).drop_last() =~= ev.drop_last().update(i, e));
    }
}

/// Withdrawing an open `StartNode` takes it off the open positions and nothing else.
pub proof fn lemma_withdraw_start(ev: Seq<Event>, k: int)
    requires
        well_nested(ev),
        0 <= k < open_starts(ev).len(),
    ensures
        0 <= open_starts(ev)[k] < ev.len(),
        open_starts(ev.update(open_starts(ev)[k], Event::Tombstone)) == open_starts(ev).remove(k),
        well_nested(ev.update(open_starts(ev)[k], Event::Tombstone)),
    decreases ev.len(),
{
    reveal(open_starts);
    reveal(well_nested);
    reveal(leaf_tokens);
    reveal(error_refs);
    lemma_open_starts_sorted(ev);
    let i = open_starts(ev)[k];
    let after = ev.update(i, Event::Tombstone);
    let before = open_starts(ev.drop_last());
    if i == ev.len() - 1 {
        assert(after.drop_last() =~= ev.drop_last());
        assert(ev.last() is StartNode);
        lemma_open_starts_sorted(ev.drop_last());
        assert(k == open_starts(ev).len() - 1) by {
            if k < open_starts(ev).len() - 1 {
                assert(open_starts(ev)[k] < open_starts(ev)[open_starts(ev).len() - 1]);
            }
        }
        assert(open_starts(ev).remove(k) =~= before);
    } else {
        assert(after.drop_last() =~= ev.drop_last().update(i, Event::Tombstone));
        assert(after.last() == ev.last());
        match ev.last() {
            Event::StartNode => {
                assert(k < before.len()) by {
                    if k == before.len() {
                        assert(open_starts(ev)[k] == ev.len() - 1);
                    }
                }
                assert(before[k] == i);
                lemma_withdraw_start(ev.drop_last(), k);
                assert(open_starts(ev).remove(k) =~= before.remove(k).push(ev.len() - 1));
            },
            Event::FinishNode { .. } => {
                assert(before.len() > 0);
                assert(before[k] == i);
                lemma_withdraw_start(ev.drop_last(), k);
                assert(before.remove(k).len() > 0);
                assert(open_starts(ev).remove(k) =~= before.remove(k).drop_last());
            },
            _ => {
                lemma_withdraw_start(ev.drop_last(), k);
            },
        }
    }
}

/// Withdrawing a `FinishNode` that only leaves follow reopens the node it closed:
/// the open positions are those from just before it.
pub proof fn lemma_withdraw_finish(ev: Seq<Event>, f: int)
    requires
        well_nested(ev),
        0 <= f < ev.len(),
        ev[f] is FinishNode,
        forall|j: int| f < j < ev.len() ==> !(#[trigger] ev[j]).is_bracket(),
    ensures
        open_starts(ev.take(f)).len() > 0,
        open_starts(ev) == open_starts(ev.take(f)).drop_last(),
        open_starts(ev.update(f, Event::Tombstone)) == open_starts(ev.take(f)),
        well_nested(ev.update(f, Event::Tombstone)),
    decreases ev.len(),
{
    reveal(open_starts);
    reveal(well_nested);
    reveal(leaf_tokens);
    reveal(error_refs);
    let after = ev.update(f, Event::Tombstone);
    if f == ev.len() - 1 {
        assert(after.drop_last() =~= ev.drop_last());
        assert(ev.take(f) =~= ev.drop_last());
    } else {
        assert(after.drop_last() =~= ev.drop_last().update(f, Event::Tombstone));
        assert(ev.drop_last().take(f) =~= ev.take(f));
        assert(!ev[ev.len() - 1].is_bracket());
        lemma_withdraw_finish(ev.drop_last(), f);
    }
}

/// A node that is open at the end of the buffer was open at every earlier point after
/// its `StartNode`.
pub proof fn lemma_open_persists(ev: Seq<Event>, i: int, n: int)
    requires
        open_starts(ev).contains(i),
        i < n <= ev.len(),
    ensures
        open_starts(ev.take(n)).contains(i),
    decreases ev.len(),
{
    reveal(open_starts);
    reveal(well_nested);
    reveal(leaf_tokens);
    reveal(error_refs);
    if n == ev.len() {
        assert(ev.take(n) =~= ev);
    } else {
        let before = open_starts(ev.drop_last());
        let k = open_starts(ev).index_of(i);
        assert(before.contains(i)) by {
            match ev.last() {
                Event::StartNode => {
                    assert(k < before.len());
                    assert(before[k] == i);
                },
                Event::FinishNode { .. } => {
                    if before.len() > 0 {
                        assert(before[k] == i);
                    }
                },
                _ => {},
            }
        }
        lemma_open_starts_sorted(ev);
        assert(0 <= i);
        assert(ev.drop_last().take(n) =~= ev.take(n));
        lemma_open_persists(ev.drop_last(), i, n);
    }
}

/// The `FinishNode` at `f` closes the `StartNode` at `s`: when the buffer is read up
/// to `f`, the node that `s` opened is the innermost one still open.
pub open spec fn closes(ev: Seq<Event>, s: int, f: int) -> bool {
    &&& 0 <= s < f < ev.len()
    &&& ev[s] is StartNode
    &&& ev[f] is FinishNode
    &&& open_starts(ev.take(f)).len() > 0
    &&& open_starts(ev.take(f)).last() == s
}

/// A node that is closed stays closed by the same event while events are added to
/// the buffer.
pub proof fn lemma_closes_extends(ev: Seq<Event>, longer: Seq<Event>, s: int, f: int)
    requires
        closes(ev, s, f),
        ev.len() <= longer.len(),
        forall|i: int| 0 <= i < ev.len() ==> #[trigger] ev[i] == longer[i],
    ensures
        closes(longer, s, f),
{
    assert(longer.take(f) =~= ev.take(f)) by {
        assert forall|i: int| 0 <= i < f implies longer.take(f)[i] == ev.take(f)[i] by {
            assert(ev[i] == longer[i]);
        }
    }
    assert(ev[s] == longer[s]);
    assert(ev[f] == longer[f]);
}

/// Only errors stand at the positions `a .. b` of `ev`.
#[verifier::opaque]
pub open spec fn only_errors(ev: Seq<Event>, a: int, b: int) -> bool {
    forall|j: int| a <= j < b && 0 <= j < ev.len() ==> (#[trigger] ev[j]) is Error
}

/// The events `a .. b` of `ev` fill one child slot: they are one token, one
/// placeholder, or one node with all that it holds.
pub open spec fn fills_slot(ev: Seq<Event>, a: int, b: int) -> bool {
    &&& 0 <= a < b <= ev.len()
    &&& match ev[a] {
        Event::StartNode => closes(ev, a, b - 1),
        Event::Token { .. } | Event::Placeholder => b == a + 1,
        _ => false,
    }
}

/// The events `from .. to` of `ev` are the child slots that `cuts` names by where
/// they begin and end, in order, and nothing but errors besides.
pub open spec fn slots_at(ev: Seq<Event>, from: int, to: int, cuts: Seq<(int, int)>) -> bool
    decreases cuts.len(),
{
    if cuts.len() == 0 {
        0 <= from <= to <= ev.len() && only_errors(ev, from, to)
    } else {
        &&& 0 <= from <= cuts[0].0
        &&& only_errors(ev, from, cuts[0].0)
        &&& fills_slot(ev, cuts[0].0, cuts[0].1)
        &&& slots_at(ev, cuts[0].1, to, cuts.drop_first())
    }
}

/// The events `from .. to` of `ev` fill exactly `n` child slots, each with a token,
/// a placeholder or a node, and hold nothing but errors besides.
pub open spec fn slots_between(ev: Seq<Event>, from: int, to: int, n: nat) -> bool {
    exists|cuts: Seq<(int, int)>| cuts.len() == n && #[trigger] slots_at(ev, from, to, cuts)
}

/// No events fill no slots.
pub proof fn lemma_no_slots(ev: Seq<Event>, from: int)
    requires
        0 <= from <= ev.len(),
    ensures
        slots_between(ev, from, from, 0),
{
    reveal(only_errors);
    assert(slots_at(ev, from, from, Seq::<(int, int)>::empty()));
}

/// A run of errors stays a run of errors when events are added to the buffer.
proof fn lemma_errors_kept(ev: Seq<Event>, longer: Seq<Event>, a: int, b: int)
    requires
        only_errors(ev, a, b),
        b <= ev.len() <= longer.len(),
        forall|i: int| 0 <= i < ev.len() ==> #[trigger] ev[i] == longer[i],
    ensures
        only_errors(longer, a, b),
{
    reveal(only_errors);
    assert forall|j: int| a <= j < b && 0 <= j < longer.len() implies (#[trigger] longer[j])
        is Error by {
        assert(ev[j] == longer[j]);
    }
}

/// A slot stays a slot when events are added to the buffer.
proof fn lemma_slot_kept(ev: Seq<Event>, longer: Seq<Event>, a: int, b: int)
    requires
        fills_slot(ev, a, b),
        ev.len() <= longer.len(),
        forall|i: int| 0 <= i < ev.len() ==> #[trigger] ev[i] == longer[i],
    ensures
        fills_slot(longer, a, b),
{
    assert(ev[a] == longer[a]);
    if ev[a] is StartNode {
        lemma_closes_extends(ev, longer, a, b - 1);
    }
}

/// The slots that `cuts` names are slots still when events are added to the buffer.
proof fn lemma_cuts_kept(
    ev: Seq<Event>,
    longer: Seq<Event>,
    from: int,
    to: int,
    cuts: Seq<(int, int)>,
)
    requires
        slots_at(ev, from, to, cuts),
        ev.len() <= longer.len(),
        forall|i: int| 0 <= i < ev.len() ==> #[trigger] ev[i] == longer[i],
    ensures
        slots_at(longer, from, to, cuts),
        from <= to <= ev.len(),
    decreases cuts.len(),
{
    if cuts.len() == 0 {
        lemma_errors_kept(ev, longer, from, to);
    } else {
        lemma_cuts_kept(ev, longer, cuts[0].1, to, cuts.drop_first());
        lemma_errors_kept(ev, longer, from, cuts[0].0);
        lemma_slot_kept(ev, longer, cuts[0].0, cuts[0].1);
    }
}

/// The slots of a buffer are its slots still when events are added to it.
pub proof fn lemma_slots_kept(ev: Seq<Event>, longer: Seq<Event>, from: int, to: int, n: nat)
    requires
        slots_between(ev, from, to, n),
        ev.len() <= longer.len(),
        forall|i: int| 0 <= i < ev.len() ==> #[trigger] ev[i] == longer[i],
    ensures
        slots_between(longer, from, to, n),
{
    let cuts = choose|cuts: Seq<(int, int)>| cuts.len() == n && #[trigger] slots_at(
        ev,
        from,
        to,
        cuts,
    );
    lemma_cuts_kept(ev, longer, from, to, cuts);
}

/// One more slot after the slots that `cuts` names: the slot `a .. b`, with nothing
/// but errors before it and after it.
proof fn lemma_cut_added(
    ev: Seq<Event>,
    from: int,
    mid: int,
    to: int,
    cuts: Seq<(int, int)>,
    a: int,
    b: int,
)
    requires
        slots_at(ev, from, mid, cuts),
        mid <= a,
        only_errors(ev, mid, a),
        fills_slot(ev, a, b),
        b <= to <= ev.len(),
        only_errors(ev, b, to),
    ensures
        slots_at(ev, from, to, cuts.push((a, b))),
    decreases cuts.len(),
{
    let more = cuts.push((a, b));
    if cuts.len() == 0 {
        reveal(only_errors);
        assert(more.drop_first() =~= Seq::<(int, int)>::empty());
        assert(slots_at(ev, b, to, more.drop_first()));
    } else {
        lemma_cut_added(ev, cuts[0].1, mid, to, cuts.drop_first(), a, b);
        assert(more.drop_first() =~= cuts.drop_first().push((a, b)));
        assert(more[0] == cuts[0]);
    }
}

/// One more slot: where the events `from .. ev.len()` fill `n` slots, and the longer
/// buffer adds to them the slot `a .. b` and nothing but errors before and after it,
/// its events from `from` on fill `n + 1` slots.
pub proof fn lemma_slot_added(
    ev: Seq<Event>,
    longer: Seq<Event>,
    from: int,
    n: nat,
    a: int,
    b: int,
)
    requires
        slots_between(ev, from, ev.len() as int, n),
        ev.len() <= longer.len(),
        forall|i: int| 0 <= i < ev.len() ==> #[trigger] ev[i] == longer[i],
        ev.len() <= a,
        only_errors(longer, ev.len() as int, a),
        fills_slot(longer, a, b),
        only_errors(longer, b, longer.len() as int),
    ensures
        slots_between(longer, from, longer.len() as int, n + 1),
{
    let cuts = choose|cuts: Seq<(int, int)>| cuts.len() == n && #[trigger] slots_at(
        ev,
        from,
        ev.len() as int,
        cuts,
    );
    lemma_cuts_kept(ev, longer, from, ev.len() as int, cuts);
    lemma_cut_added(longer, from, ev.len() as int, longer.len() as int, cuts, a, b);
    assert(slots_at(longer, from, longer.len() as int, cuts.push((a, b))));
}

/// A node has one `FinishNode` and no more: two events that close the same
/// `StartNode` are one event.
pub proof fn law_one_finish(ev: Seq<Event>, s: int, f1: int, f2: int)
    requires
        closes(ev, s, f1),
        closes(ev, s, f2),
    ensures
        f1 == f2,
{
    if f1 < f2 {
        lemma_closed_stays_closed(ev, s, f1, f2);
    } else if f2 < f1 {
        lemma_closed_stays_closed(ev, s, f2, f1);
    }
}

/// At every point after its `StartNode`, a node is open or has been closed.
pub proof fn lemma_open_or_closed(ev: Seq<Event>, s: int, i: int)
    requires
        well_nested(ev),
        0 <= s < i <= ev.len(),
        ev[s] is StartNode,
    ensures
        open_starts(ev.take(i)).contains(s) || exists|f: int| s < f < i && closes(ev, s, f),
    decreases i - s,
{
    let before = ev.take(i - 1);
    let e = ev[i - 1];
    assert(ev.take(i) =~= before.push(e));
    lemma_push(before, e);
    let open = open_starts(before);
    let after = open_starts(ev.take(i));
    if i == s + 1 {
        assert(after[open.len() as int] == s);
    } else {
        lemma_open_or_closed(ev, s, i - 1);
        if open.contains(s) {
            let k = open.index_of(s);
            match e {
                Event::StartNode => {
                    assert(after[k] == s);
                },
                Event::FinishNode { .. } => {
                    lemma_prefix_well_nested(ev, i);
                    if open.last() == s {
                        assert(closes(ev, s, i - 1));
                    } else {
                        assert(k < open.len() - 1);
                        assert(after[k] == s);
                    }
                },
                _ => {},
            }
        } else {
            let f = choose|f: int| s < f < i - 1 && closes(ev, s, f);
            assert(s < f < i && closes(ev, s, f));
        }
    }
}

/// In a finished buffer every node is closed: each `StartNode` has a `FinishNode`
/// after it that closes it. With [`law_one_finish`], it has exactly one.
pub proof fn law_every_node_is_closed(ev: Seq<Event>, s: int)
    requires
        balanced(ev),
        0 <= s < ev.len(),
        ev[s] is StartNode,
    ensures
        exists|f: int| closes(ev, s, f),
{
    lemma_open_or_closed(ev, s, ev.len() as int);
    assert(ev.take(ev.len() as int) =~= ev);
    if open_starts(ev).contains(s) {
        let k = open_starts(ev).index_of(s);
        assert(0 <= k < open_starts(ev).len());
    }
    let f = choose|f: int| s < f < ev.len() && closes(ev, s, f);
    assert(closes(ev, s, f));
}

/// Nodes nest: a node that starts inside another ends inside it. No two nodes
/// overlap without one holding the other.
pub proof fn law_nodes_nest(ev: Seq<Event>, outer: int, outer_end: int, inner: int, inner_end: int)
    requires
        closes(ev, outer, outer_end),
        closes(ev, inner, inner_end),
        outer < inner < outer_end,
    ensures
        inner_end < outer_end,
{
    if inner_end >= outer_end {
        let at_end = ev.take(outer_end);
        let open = open_starts(at_end);
        lemma_open_starts_sorted(at_end);
        if inner_end > outer_end {
            let later = ev.take(inner_end);
            assert(open_starts(later)[open_starts(later).len() - 1] == inner);
            lemma_open_persists(later, inner, outer_end);
            assert(later.take(outer_end) =~= at_end);
        }
        let k = open.index_of(inner);
        assert(open[k] == inner);
        if k < open.len() - 1 {
            assert(open[k] < open[open.len() - 1]);
        }
    }
}

/// Once a `FinishNode` has closed a node, the node is not open at any later point.
pub proof fn lemma_closed_stays_closed(ev: Seq<Event>, s: int, f: int, later: int)
    requires
        closes(ev, s, f),
        f < later <= ev.len(),
    ensures
        !open_starts(ev.take(later)).contains(s),
{
    let at_f = ev.take(f);
    let after = ev.take(f + 1);
    assert(after =~= at_f.push(ev[f]));
    lemma_push(at_f, ev[f]);
    lemma_open_starts_sorted(at_f);
    let open = open_starts(at_f);
    assert(!open_starts(after).contains(s)) by {
        if open_starts(after).contains(s) {
            let k = open_starts(after).index_of(s);
            assert(open[k] == s);
            assert(open[k] < open[open.len() - 1]);
        }
    }
    if open_starts(ev.take(later)).contains(s) {
        lemma_open_persists(ev.take(later), s, f + 1);
        assert(ev.take(later).take(f + 1) =~= after);
    }
}

/// In a buffer whose brackets nest, the number of open nodes is the number of
/// `StartNode` events less the number of `FinishNode` events.
pub proof fn lemma_open_count(ev: Seq<Event>)
    requires
        well_nested(ev),
    ensures
        open_starts(ev).len() == count_starts(ev) - count_finishes(ev),
    decreases ev.len(),
{
    reveal(open_starts);
    reveal(well_nested);
    reveal(leaf_tokens);
    reveal(error_refs);
    if ev.len() > 0 {
        lemma_open_count(ev.drop_last());
    }
}

/// Every prefix of a buffer whose brackets nest has brackets that nest.
pub proof fn lemma_prefix_well_nested(ev: Seq<Event>, n: int)
    requires
        well_nested(ev),
        0 <= n <= ev.len(),
    ensures
        well_nested(ev.take(n)),
    decreases ev.len(),
{
    reveal(open_starts);
    reveal(well_nested);
    reveal(leaf_tokens);
    reveal(error_refs);
    if n == ev.len() {
        assert(ev.take(n) =~= ev);
    } else {
        lemma_prefix_well_nested(ev.drop_last(), n);
        assert(ev.drop_last().take(n) =~= ev.take(n));
    }
}

/// The stack discipline of a finished buffer, stated by counting: as many nodes are
/// closed as were opened, and at no point of the buffer have more been closed than
/// opened. So each `StartNode` has its one `FinishNode` after it, and no two nodes
/// overlap without one holding the other.
pub proof fn law_stack_discipline(ev: Seq<Event>, n: int)
    requires
        balanced(ev),
        0 <= n <= ev.len(),
    ensures
        count_starts(ev) == count_finishes(ev),
        count_finishes(ev.take(n)) <= count_starts(ev.take(n)),
        ev.len() > 0 ==> ev[0] !is FinishNode && ev.last() !is StartNode,
{
    reveal(open_starts);
    reveal(well_nested);
    reveal(leaf_tokens);
    reveal(error_refs);
    lemma_open_count(ev);
    lemma_prefix_well_nested(ev, n);
    lemma_open_count(ev.take(n));
    if ev.len() > 0 {
        lemma_prefix_well_nested(ev, 1);
        assert(ev.take(1).drop_last() =~= Seq::<Event>::empty());
        assert(ev.take(1).last() == ev[0]);
    }
}

} // verus!
