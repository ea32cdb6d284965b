//! The contextual state that every rule consults: strict mode, the ambient nesting
//! depth, and the names bound so far in the current binding list.

use vstd::prelude::*;
use crate::token::TextRange;

verus! {

/// The declaration whose binding list is being parsed.
#[derive(Clone, Copy, Debug, PartialEq, Eq, Structural)]
pub enum BindingParent {
    Let,
    Const,
}

impl BindingParent {
    /// The keyword that introduces the declaration.
    pub open spec fn spec_label(self) -> Seq<char> {
        match self {
            BindingParent::Let => "let"@,
            BindingParent::Const => "const"@,
        }
    }

    pub fn label(self) -> (s: &'static str)
        ensures
            s@ == self.spec_label(),
    {
        match self {
            BindingParent::Let => "let",
            BindingParent::Const => "const",
        }
    }
}

/// One bound name and the range of its first declaration.
#[derive(Debug)]
pub struct NameEntry {
    pub name: String,
    pub range: TextRange,
}

/// The map that a sequence of bindings stands for: each name with the range it was
/// last bound to.
pub open spec fn bindings_map(s: Seq<(Seq<char>, TextRange)>) -> Map<Seq<char>, TextRange>
    decreases s.len(),
{
    if s.len() == 0 {
        Map::empty()
    } else {
        bindings_map(s.drop_last()).insert(s.last().0, s.last().1)
    }
}

/// A name that no binding of `s` has is no key of the map.
pub proof fn lemma_bindings_absent(s: Seq<(Seq<char>, TextRange)>, name: Seq<char>)
    requires
        forall|j: int| 0 <= j < s.len() ==> (#[trigger] s[j]).0 != name,
    ensures
        !bindings_map(s).contains_key(name),
    decreases s.len(),
{
    if s.len() > 0 {
        lemma_bindings_absent(s.drop_last(), name);
    }
}

/// The last binding of a name decides what the map holds for it.
pub proof fn lemma_bindings_last(s: Seq<(Seq<char>, TextRange)>, i: int)
    requires
        0 <= i < s.len(),
        forall|j: int| i < j < s.len() ==> (#[trigger] s[j]).0 != s[i].0,
    ensures
        bindings_map(s).contains_key(s[i].0),
        bindings_map(s)[s[i].0] == s[i].1,
    decreases s.len(),
{
    if i < s.len() - 1 {
        lemma_bindings_last(s.drop_last(), i);
    }
}

/// The names bound in the current binding list, each with the range of its declaration.
#[derive(Debug)]
pub struct NameMap {
    entries: Vec<NameEntry>,
}

impl View for NameMap {
    type V = Map<Seq<char>, TextRange>;

    closed spec fn view(&self) -> Map<Seq<char>, TextRange> {
        bindings_map(self.pairs())
    }
}

impl NameMap {
    closed spec fn pairs(&self) -> Seq<(Seq<char>, TextRange)> {
        self.entries@.map_values(|e: NameEntry| (e.name@, e.range))
    }

    /// The empty map.
    pub fn new() -> (m: NameMap)
        ensures
            m@ == Map::<Seq<char>, TextRange>::empty(),
    {
        NameMap { entries: Vec::new() }
    }

    /// Forgets every name.
    pub fn clear(&mut self)
        ensures
            final(self)@ == Map::<Seq<char>, TextRange>::empty(),
    {
        self.entries.clear();
    }

    /// The range that `name` is bound to, if it is bound.
    pub fn get(&self, name: &str) -> (r: Option<TextRange>)
        ensures
            r == if self@.contains_key(name@) {
                Some(self@[name@])
            } else {
                None
            },
    {
        let key = String::from_str(name);
        let mut i: usize = self.entries.len();
        while i > 0
            invariant
                i <= self.entries@.len(),
                key@ == name@,
                forall|j: int| i <= j < self.pairs().len() ==> (#[trigger] self.pairs()[j]).0 != name@,
            decreases i,
        {
            i = i - 1;
            if self.entries[i].name == key {
                proof {
                    assert(self.pairs()[i as int].0 == name@);
                    lemma_bindings_last(self.pairs(), i as int);
                }
                return Some(self.entries[i].range);
            }
        }
        proof {
            lemma_bindings_absent(self.pairs(), name@);
        }
        None
    }

    /// Binds `name` to `range`, in place of any earlier binding of it.
    pub fn insert(&mut self, name: String, range: TextRange)
        ensures
            final(self)@ == old(self)@.insert(name@, range),
    {
        let ghost before = self.pairs();
        self.entries.push(NameEntry { name, range });
        assert(self.pairs().drop_last() =~= before);
    }

    /// A copy that holds the same bindings.
    pub fn duplicate(&self) -> (m: NameMap)
        ensures
            m@ == self@,
    {
        let mut entries: Vec<NameEntry> = Vec::new();
        let mut i: usize = 0;
        while i < self.entries.len()
            invariant
                i <= self.entries@.len(),
                entries@.len() == i,
                forall|j: int|
                    0 <= j < i ==> (#[trigger] entries@[j]).name@ == self.entries@[j].name@
                        && entries@[j].range == self.entries@[j].range,
            decreases self.entries@.len() - i,
        {
            let name = self.entries[i].name.clone();
            entries.push(NameEntry { name, range: self.entries[i].range });
            i = i + 1;
        }
        let m = NameMap { entries };
        assert(m.pairs() =~= self.pairs());
        m
    }
}

/// The mathematical value of a [`ParserState`].
pub struct ParserStateView {
    pub strict: bool,
    pub ambient_depth: nat,
    pub duplicate_binding_parent: Option<BindingParent>,
    pub name_map: Map<Seq<char>, TextRange>,
    pub in_function: bool,
    pub in_generator: bool,
    pub in_async: bool,
    pub in_default: bool,
    pub include_in: bool,
    pub allow_object_expr: bool,
}

/// The context of the rule that is running.
#[derive(Debug)]
pub struct ParserState {
    /// Whether strict-mode rules apply.
    pub strict: bool,
    /// How many ambient (`declare`) contexts enclose the current position.
    pub ambient_depth: usize,
    /// The declaration whose bindings are checked for duplicates, if any.
    pub duplicate_binding_parent: Option<BindingParent>,
    /// The names bound so far in the current binding list.
    pub name_map: NameMap,
    pub in_function: bool,
    pub in_generator: bool,
    pub in_async: bool,
    /// Whether the declaration being parsed follows `export default`.
    pub in_default: bool,
    /// Whether `in` is read as a binary operator.
    pub include_in: bool,
    /// Whether a `{` may start an object pattern here.
    pub allow_object_expr: bool,
}

impl View for ParserState {
    type V = ParserStateView;

    open spec fn view(&self) -> ParserStateView {
        ParserStateView {
            strict: self.strict,
            ambient_depth: self.ambient_depth as nat,
            duplicate_binding_parent: self.duplicate_binding_parent,
            name_map: self.name_map@,
            in_function: self.in_function,
            in_generator: self.in_generator,
            in_async: self.in_async,
            in_default: self.in_default,
            include_in: self.include_in,
            allow_object_expr: self.allow_object_expr,
        }
    }
}

impl ParserStateView {
    /// The state at the start of a parse.
    pub open spec fn initial(strict: bool) -> ParserStateView {
        ParserStateView {
            strict,
            ambient_depth: 0,
            duplicate_binding_parent: None,
            name_map: Map::empty(),
            in_function: false,
            in_generator: false,
            in_async: false,
            in_default: false,
            include_in: true,
            allow_object_expr: true,
        }
    }

    /// Whether the position lies inside an ambient context.
    pub open spec fn in_ambient(self) -> bool {
        self.ambient_depth > 0
    }

    /// The two states differ at most in the names that have been bound.
    pub open spec fn same_context(self, other: ParserStateView) -> bool {
        self == (ParserStateView { name_map: self.name_map, ..other })
    }
}

impl ParserState {
    /// The state at the start of a parse. Modules are strict from the start.
    pub fn new(strict: bool) -> (s: ParserState)
        ensures
            s@ == ParserStateView::initial(strict),
    {
        ParserState {
            strict,
            ambient_depth: 0,
            duplicate_binding_parent: None,
            name_map: NameMap::new(),
            in_function: false,
            in_generator: false,
            in_async: false,
            in_default: false,
            include_in: true,
            allow_object_expr: true,
        }
    }

    /// Whether the position lies inside an ambient context.
    pub fn in_ambient(&self) -> (b: bool)
        ensures
            b == self@.in_ambient(),
    {
        self.ambient_depth > 0
    }

    /// Enters one more ambient context. The depth stays where it is once the
    /// counter is full.
    pub fn enter_ambient(&mut self)
        ensures
            final(self)@ == (ParserStateView {
                ambient_depth: if old(self)@.ambient_depth < usize::MAX {
                    old(self)@.ambient_depth + 1
                } else {
                    old(self)@.ambient_depth
                },
                ..old(self)@
            }),
    {
        if self.ambient_depth < usize::MAX {
            self.ambient_depth = self.ambient_depth + 1;
        }
    }

    /// Leaves the innermost ambient context, if there is one.
    pub fn exit_ambient(&mut self)
        ensures
            final(self)@ == (ParserStateView {
                ambient_depth: if old(self)@.ambient_depth > 0 {
                    (old(self)@.ambient_depth - 1) as nat
                } else {
                    0
                },
                ..old(self)@
            }),
    {
        if self.ambient_depth > 0 {
            self.ambient_depth = self.ambient_depth - 1;
        }
    }
}

impl Clone for ParserState {
    fn clone(&self) -> (s: ParserState)
        ensures
            s@ == self@,
    {
        ParserState {
            strict: self.strict,
            ambient_depth: self.ambient_depth,
            duplicate_binding_parent: self.duplicate_binding_parent,
            name_map: self.name_map.duplicate(),
            in_function: self.in_function,
            in_generator: self.in_generator,
            in_async: self.in_async,
            in_default: self.in_default,
            include_in: self.include_in,
            allow_object_expr: self.allow_object_expr,
        }
    }
}

} // verus!
