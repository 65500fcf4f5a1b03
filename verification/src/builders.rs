//! The objects the language bindings expose: graph, pipeline, relay and
//! colony builders, the tool registry, completion providers and prompt
//! templates. The builders record structure only: node and branch names,
//! edges, entry and exit, and the handler registered for each name.
//! Running handlers is the host language's work; a handler is any value
//! of type `H` (a host-language callable there).

use vstd::prelude::*;
use crate::json::JsonValue;
use crate::prompt::{
    names_of, render_spec, sanitize, template_variables, BeaconError, BeaconFault, PromptBuilder,
    PromptTemplate,
};
use crate::text::str_chars;

verus! {

/// The texts of a list of string pairs.
pub open spec fn pairs_of(v: Seq<(String, String)>) -> Seq<(Seq<char>, Seq<char>)> {
    v.map_values(|p: (String, String)| (p.0@, p.1@))
}

/// The targets of the edges leaving `source`, in the order they were added.
pub open spec fn targets_of(edges: Seq<(Seq<char>, Seq<char>)>, source: Seq<char>) -> Seq<Seq<char>>
    decreases edges.len(),
{
    if edges.len() == 0 {
        seq![]
    } else {
        let rest = targets_of(edges.drop_last(), source);
        if edges.last().0 == source {
            rest.push(edges.last().1)
        } else {
            rest
        }
    }
}

/// The handler stored for `name`: the one at the position of `name`
/// among `names`, whose entries are distinct.
pub open spec fn handler_for<H>(names: Seq<Seq<char>>, handlers: Seq<H>, name: Seq<char>) -> Option<H> {
    if names.contains(name) {
        Some(handlers[names.index_of(name)])
    } else {
        None
    }
}

proof fn lemma_handler_at<H>(names: Seq<Seq<char>>, handlers: Seq<H>, i: int)
    requires
        names.no_duplicates(),
        0 <= i < names.len(),
    ensures
        handler_for(names, handlers, names[i]) == Some(handlers[i]),
{
    assert(names.contains(names[i]));
    let j = names.index_of(names[i]);
    assert(names[j] == names[i]);
}

/// Copies a list of strings.
fn copy_strings(v: &Vec<String>) -> (r: Vec<String>)
    ensures
        r@ == v@,
{
    let mut r: Vec<String> = Vec::new();
    let mut i: usize = 0;
    while i < v.len()
        invariant
            i <= v@.len(),
            r@ == v@.take(i as int),
        decreases v@.len() - i,
    {
        r.push(v[i].clone());
        proof {
            assert(v@.take(i + 1) =~= v@.take(i as int).push(v@[i as int]));
        }
        i = i + 1;
    }
    proof {
        assert(v@.take(i as int) =~= v@);
    }
    r
}

/// Copies a list of string pairs.
fn copy_pairs(v: &Vec<(String, String)>) -> (r: Vec<(String, String)>)
    ensures
        r@ == v@,
{
    let mut r: Vec<(String, String)> = Vec::new();
    let mut i: usize = 0;
    while i < v.len()
        invariant
            i <= v@.len(),
            r@ == v@.take(i as int),
        decreases v@.len() - i,
    {
        let pair = (v[i].0.clone(), v[i].1.clone());
        r.push(pair);
        proof {
            assert(v@.take(i + 1) =~= v@.take(i as int).push(v@[i as int]));
        }
        i = i + 1;
    }
    proof {
        assert(v@.take(i as int) =~= v@);
    }
    r
}

/// The targets of the edges leaving `source`.
fn edge_targets_in(edges: &Vec<(String, String)>, source: &str) -> (r: Vec<String>)
    ensures
        names_of(r@) == targets_of(pairs_of(edges@), source@),
{
    let mut r: Vec<String> = Vec::new();
    let mut i: usize = 0;
    while i < edges.len()
        invariant
            i <= edges@.len(),
            names_of(r@) == targets_of(pairs_of(edges@).take(i as int), source@),
        decreases edges@.len() - i,
    {
        let ghost before = r@;
        let ghost pe = pairs_of(edges@);
        proof {
            assert(pe.take(i + 1).drop_last() =~= pe.take(i as int));
        }
        if crate::bridge::same(&edges[i].0, source) {
            r.push(edges[i].1.clone());
            proof {
                assert(names_of(r@) =~= names_of(before).push(edges@[i as int].1@));
            }
        }
        i = i + 1;
    }
    proof {
        assert(pairs_of(edges@).take(i as int) =~= pairs_of(edges@));
    }
    r
}

/// Index of `name` among `names`, if it is there.
fn position(names: &Vec<String>, name: &str) -> (r: Option<usize>)
    ensures
        match r {
            Some(i) => i < names@.len() && names@[i as int]@ == name@,
            None => !names_of(names@).contains(name@),
        },
{
    let mut i: usize = 0;
    while i < names.len()
        invariant
            i <= names@.len(),
            forall|j: int| 0 <= j < i ==> names@[j]@ != name@,
        decreases names@.len() - i,
    {
        if crate::bridge::same(&names[i], name) {
            return Some(i);
        }
        i = i + 1;
    }
    proof {
        if names_of(names@).contains(name@) {
            let j = choose|j: int| 0 <= j < names_of(names@).len() && names_of(names@)[j] == name@;
            assert(names@[j]@ == name@);
        }
    }
    None
}

// ---------------------------------------------------------------------
// Graphs
// ---------------------------------------------------------------------

/// A graph under construction: its nodes in the order they were first
/// added, one handler per node, its edges, entry and exit.
#[derive(Clone)]
pub struct PyGraphBuilder<H> {
    nodes: Vec<String>,
    handlers: Vec<H>,
    edges: Vec<(String, String)>,
    entry: Option<String>,
    exit: Option<String>,
}

/// The text of an optional string.
pub open spec fn opt_text(s: Option<String>) -> Option<Seq<char>> {
    match s {
        Some(t) => Some(t@),
        None => None,
    }
}

impl<H> PyGraphBuilder<H> {
    /// Node names are distinct and each has its handler.
    pub closed spec fn wf(&self) -> bool {
        &&& names_of(self.nodes@).no_duplicates()
        &&& self.handlers@.len() == self.nodes@.len()
    }

    /// The node names, in the order they were first added.
    pub closed spec fn node_list(&self) -> Seq<Seq<char>> {
        names_of(self.nodes@)
    }

    /// The handler registered for node `name`.
    pub closed spec fn handler_of(&self, name: Seq<char>) -> Option<H> {
        handler_for(names_of(self.nodes@), self.handlers@, name)
    }

    /// The edges, as (source, target), in the order they were added.
    pub closed spec fn edge_list(&self) -> Seq<(Seq<char>, Seq<char>)> {
        pairs_of(self.edges@)
    }

    pub closed spec fn entry_node(&self) -> Option<Seq<char>> {
        opt_text(self.entry)
    }

    pub closed spec fn exit_node(&self) -> Option<Seq<char>> {
        opt_text(self.exit)
    }

    pub fn new() -> (g: Self)
        ensures
            g.wf(),
            g.node_list() == Seq::<Seq<char>>::empty(),
            g.edge_list() == Seq::<(Seq<char>, Seq<char>)>::empty(),
            g.entry_node() is None,
            g.exit_node() is None,
    {
        let g = PyGraphBuilder {
            nodes: Vec::new(),
            handlers: Vec::new(),
            edges: Vec::new(),
            entry: None,
            exit: None,
        };
        proof {
            assert(names_of(g.nodes@) =~= Seq::<Seq<char>>::empty());
            assert(pairs_of(g.edges@) =~= Seq::<(Seq<char>, Seq<char>)>::empty());
        }
        g
    }

    /// Registers `handler` for node `name`: a new name is appended to the
    /// nodes, and a name added again keeps its place and takes the new
    /// handler.
    pub fn add_node(&mut self, name: &str, handler: H)
        requires
            old(self).wf(),
        ensures
            final(self).wf(),
            final(self).node_list() == if old(self).node_list().contains(name@) {
                old(self).node_list()
            } else {
                old(self).node_list().push(name@)
            },
            final(self).handler_of(name@) == Some(handler),
            forall|other: Seq<char>|
                other != name@ ==> #[trigger] final(self).handler_of(other) == old(self).handler_of(
                    other,
                ),
            final(self).edge_list() == old(self).edge_list(),
            final(self).entry_node() == old(self).entry_node(),
            final(self).exit_node() == old(self).exit_node(),
    {
        let ghost old_names = names_of(self.nodes@);
        let ghost old_handlers = self.handlers@;
        match position(&self.nodes, name) {
            Some(i) => {
                self.handlers.set(i, handler);
                proof {
                    let names = names_of(self.nodes@);
                    assert(names == old_names);
                    assert(names[i as int] == name@);
                    lemma_handler_at(names, self.handlers@, i as int);
                    assert forall|other: Seq<char>| other != name@ implies #[trigger] handler_for(
                        names,
                        self.handlers@,
                        other,
                    ) == handler_for(names, old_handlers, other) by {
                        if names.contains(other) {
                            let j = names.index_of(other);
                            assert(names[j] == other);
                            assert(j != i);
                        }
                    }
                }
            },
            None => {
                self.nodes.push(String::from_str(name));
                self.handlers.push(handler);
                proof {
                    let names = names_of(self.nodes@);
                    assert(names =~= old_names.push(name@));
                    assert forall|a: int, b: int| 0 <= a < b < names.len() implies names[a]
                        != names[b] by {
                        if b == names.len() - 1 {
                            assert(old_names[a] == names[a]);
                            assert(old_names.contains(names[a]));
                        }
                    }
                    let last = names.len() - 1;
                    lemma_handler_at(names, self.handlers@, last);
                    assert forall|other: Seq<char>| other != name@ implies #[trigger] handler_for(
                        names,
                        self.handlers@,
                        other,
                    ) == handler_for(old_names, old_handlers, other) by {
                        if old_names.contains(other) {
                            let j = old_names.index_of(other);
                            assert(names[j] == other);
                            lemma_handler_at(names, self.handlers@, j);
                            lemma_handler_at(old_names, old_handlers, j);
                        } else {
                            assert(!names.contains(other)) by {
                                if names.contains(other) {
                                    let k = names.index_of(other);
                                    assert(names[k] == other);
                                    assert(k != last);
                                    assert(old_names[k] == other);
                                }
                            }
                        }
                    }
                }
            },
        }
    }

    /// Adds an edge from `source` to `target`.
    pub fn add_edge(&mut self, source: &str, target: &str)
        requires
            old(self).wf(),
        ensures
            final(self).wf(),
            final(self).edge_list() == old(self).edge_list().push((source@, target@)),
            final(self).node_list() == old(self).node_list(),
            forall|n: Seq<char>| #[trigger] final(self).handler_of(n) == old(self).handler_of(n),
            final(self).entry_node() == old(self).entry_node(),
            final(self).exit_node() == old(self).exit_node(),
    {
        let ghost old_edges = pairs_of(self.edges@);
        self.edges.push((String::from_str(source), String::from_str(target)));
        proof {
            assert(pairs_of(self.edges@) =~= old_edges.push((source@, target@)));
        }
    }

    pub fn set_entry(&mut self, name: &str)
        requires
            old(self).wf(),
        ensures
            final(self).wf(),
            final(self).entry_node() == Some(name@),
            final(self).exit_node() == old(self).exit_node(),
            final(self).node_list() == old(self).node_list(),
            forall|n: Seq<char>| #[trigger] final(self).handler_of(n) == old(self).handler_of(n),
            final(self).edge_list() == old(self).edge_list(),
    {
        self.entry = Some(String::from_str(name));
    }

    pub fn set_exit(&mut self, name: &str)
        requires
            old(self).wf(),
        ensures
            final(self).wf(),
            final(self).exit_node() == Some(name@),
            final(self).entry_node() == old(self).entry_node(),
            final(self).node_list() == old(self).node_list(),
            forall|n: Seq<char>| #[trigger] final(self).handler_of(n) == old(self).handler_of(n),
            final(self).edge_list() == old(self).edge_list(),
    {
        self.exit = Some(String::from_str(name));
    }
}

impl<H: Clone> PyGraphBuilder<H> {
    /// The built graph: the same nodes and edges, each handler cloned,
    /// and an unset entry or exit read as the empty name.
    pub fn build(&self) -> (g: PyExecutionGraph<H>)
        requires
            self.wf(),
        ensures
            g.wf(),
            g.node_list() == self.node_list(),
            g.edge_list() == self.edge_list(),
            g.entry_node() == match self.entry_node() {
                Some(e) => e,
                None => Seq::<char>::empty(),
            },
            g.exit_node() == match self.exit_node() {
                Some(e) => e,
                None => Seq::<char>::empty(),
            },
            forall|n: Seq<char>|
                match (self.handler_of(n), #[trigger] g.handler_of(n)) {
                    (Some(a), Some(b)) => cloned(a, b),
                    (None, None) => true,
                    _ => false,
                },
    {
        let entry = match &self.entry {
            Some(e) => e.clone(),
            None => String::new(),
        };
        let exit = match &self.exit {
            Some(e) => e.clone(),
            None => String::new(),
        };
        let g = PyExecutionGraph {
            nodes: copy_strings(&self.nodes),
            handlers: self.handlers.clone(),
            edges: copy_pairs(&self.edges),
            entry,
            exit,
        };
        proof {
            let names = names_of(self.nodes@);
            assert forall|n: Seq<char>|
                match (self.handler_of(n), #[trigger] g.handler_of(n)) {
                    (Some(a), Some(b)) => cloned(a, b),
                    (None, None) => true,
                    _ => false,
                } by {
                if names.contains(n) {
                    let j = names.index_of(n);
                    assert(names[j] == n);
                    lemma_handler_at(names, self.handlers@, j);
                    lemma_handler_at(names, g.handlers@, j);
                    assert(cloned(self.handlers@[j], g.handlers@[j]));
                }
            }
        }
        g
    }
}

impl<H> Default for PyGraphBuilder<H> {
    fn default() -> (g: Self)
        ensures
            g.wf(),
            g.node_list() == Seq::<Seq<char>>::empty(),
            g.edge_list() == Seq::<(Seq<char>, Seq<char>)>::empty(),
            g.entry_node() is None,
            g.exit_node() is None,
    {
        PyGraphBuilder::new()
    }
}

/// A built graph: its nodes, the handler of each, its edges, entry and
/// exit.
#[derive(Clone)]
pub struct PyExecutionGraph<H> {
    nodes: Vec<String>,
    handlers: Vec<H>,
    edges: Vec<(String, String)>,
    entry: String,
    exit: String,
}

impl<H> PyExecutionGraph<H> {
    pub closed spec fn wf(&self) -> bool {
        &&& names_of(self.nodes@).no_duplicates()
        &&& self.handlers@.len() == self.nodes@.len()
    }

    pub closed spec fn node_list(&self) -> Seq<Seq<char>> {
        names_of(self.nodes@)
    }

    pub closed spec fn handler_of(&self, name: Seq<char>) -> Option<H> {
        handler_for(names_of(self.nodes@), self.handlers@, name)
    }

    pub closed spec fn edge_list(&self) -> Seq<(Seq<char>, Seq<char>)> {
        pairs_of(self.edges@)
    }

    pub closed spec fn entry_node(&self) -> Seq<char> {
        self.entry@
    }

    pub closed spec fn exit_node(&self) -> Seq<char> {
        self.exit@
    }

    pub fn entry(&self) -> (r: String)
        ensures
            r@ == self.entry_node(),
    {
        self.entry.clone()
    }

    pub fn exit(&self) -> (r: String)
        ensures
            r@ == self.exit_node(),
    {
        self.exit.clone()
    }

    pub fn node_names(&self) -> (r: Vec<String>)
        ensures
            names_of(r@) == self.node_list(),
    {
        copy_strings(&self.nodes)
    }

    /// The targets of the edges leaving `node`, in the order they were
    /// added.
    pub fn edge_targets(&self, node: &str) -> (r: Vec<String>)
        ensures
            names_of(r@) == targets_of(self.edge_list(), node@),
    {
        edge_targets_in(&self.edges, node)
    }

    /// The handler registered for `node`, if any.
    pub fn get_handler(&self, node: &str) -> (r: Option<&H>)
        requires
            self.wf(),
        ensures
            match r {
                Some(h) => self.handler_of(node@) == Some(*h),
                None => self.handler_of(node@) is None,
            },
    {
        match position(&self.nodes, node) {
            Some(i) => {
                proof {
                    lemma_handler_at(names_of(self.nodes@), self.handlers@, i as int);
                }
                Some(&self.handlers[i])
            },
            None => None,
        }
    }
}

// ---------------------------------------------------------------------
// Tool registry
// ---------------------------------------------------------------------

/// `a` comes strictly before `b` in the order of `String` (character by
/// character, a proper prefix first).
pub open spec fn precedes(a: Seq<char>, b: Seq<char>) -> bool
    decreases a.len(),
{
    if b.len() == 0 {
        false
    } else if a.len() == 0 {
        true
    } else if a[0] != b[0] {
        a[0] < b[0]
    } else {
        precedes(a.drop_first(), b.drop_first())
    }
}

/// Nothing comes before itself.
pub proof fn lemma_precedes_irreflexive(a: Seq<char>)
    ensures
        !precedes(a, a),
    decreases a.len(),
{
    if a.len() > 0 {
        lemma_precedes_irreflexive(a.drop_first());
    }
}

/// The order is transitive.
pub proof fn lemma_precedes_transitive(a: Seq<char>, b: Seq<char>, c: Seq<char>)
    requires
        precedes(a, b),
        precedes(b, c),
    ensures
        precedes(a, c),
    decreases a.len(),
{
    if a.len() > 0 && a[0] == b[0] && b[0] == c[0] {
        lemma_precedes_transitive(a.drop_first(), b.drop_first(), c.drop_first());
    }
}

/// Of two different strings one comes first, and never both.
pub proof fn lemma_precedes_total(a: Seq<char>, b: Seq<char>)
    ensures
        a != b ==> (precedes(a, b) || precedes(b, a)),
        !(precedes(a, b) && precedes(b, a)),
    decreases a.len(),
{
    if a.len() > 0 && b.len() > 0 && a[0] == b[0] {
        lemma_precedes_total(a.drop_first(), b.drop_first());
        if a != b {
            assert(a.drop_first() != b.drop_first()) by {
                if a.drop_first() == b.drop_first() {
                    assert(a =~= seq![a[0]] + a.drop_first());
                    assert(b =~= seq![b[0]] + b.drop_first());
                }
            }
        }
    } else if a.len() == 0 && b.len() == 0 {
        assert(a =~= b);
    }
}

/// Whether `a` comes strictly before `b`.
fn chars_precede(a: &Vec<char>, b: &Vec<char>) -> (r: bool)
    ensures
        r == precedes(a@, b@),
{
    let mut i: usize = 0;
    proof {
        assert(a@.skip(0) =~= a@);
        assert(b@.skip(0) =~= b@);
    }
    while i < a.len() && i < b.len()
        invariant
            i <= a@.len(),
            i <= b@.len(),
            precedes(a@, b@) == precedes(a@.skip(i as int), b@.skip(i as int)),
        decreases a@.len() - i,
    {
        if a[i] != b[i] {
            return a[i] < b[i];
        }
        proof {
            assert(a@.skip(i as int).drop_first() =~= a@.skip(i + 1));
            assert(b@.skip(i as int).drop_first() =~= b@.skip(i + 1));
        }
        i = i + 1;
    }
    i < b.len()
}

/// Whether text `a` comes strictly before text `b`.
fn text_precedes(a: &str, b: &str) -> (r: bool)
    ensures
        r == precedes(a@, b@),
{
    chars_precede(&str_chars(a), &str_chars(b))
}

/// The names of registry entries.
pub open spec fn entry_names<H>(entries: Seq<(String, H)>) -> Seq<Seq<char>> {
    entries.map_values(|e: (String, H)| e.0@)
}

/// The names come in strictly increasing order.
pub open spec fn strictly_sorted(names: Seq<Seq<char>>) -> bool {
    forall|i: int, j: int| 0 <= i < j < names.len() ==> precedes(#[trigger] names[i], #[trigger] names[j])
}

proof fn lemma_sorted_distinct(names: Seq<Seq<char>>)
    requires
        strictly_sorted(names),
    ensures
        names.no_duplicates(),
{
    assert forall|i: int, j: int| 0 <= i < names.len() && 0 <= j < names.len() && i != j implies names[i]
        != names[j] by {
        lemma_precedes_irreflexive(names[i]);
        if i < j {
            assert(precedes(names[i], names[j]));
        } else {
            assert(precedes(names[j], names[i]));
        }
    }
}

/// What a registry lookup refuses.
#[derive(Debug, Clone, PartialEq, Eq)]
pub enum RegistryError {
    UnknownTool(String),
}

impl RegistryError {
    pub open spec fn message_of(name: Seq<char>) -> Seq<char> {
        "unknown tool: "@ + name
    }

    /// The message: `unknown tool: <name>`.
    pub fn message(&self) -> (r: String)
        ensures
            match self {
                RegistryError::UnknownTool(name) => r@ == Self::message_of(name@),
            },
    {
        match self {
            RegistryError::UnknownTool(name) => {
                let mut r = String::from_str("unknown tool: ");
                r.append(name.as_str());
                r
            },
        }
    }
}

/// Tools by name, each with its handler, kept in name order.
#[derive(Clone)]
pub struct PyForgeRegistry<H> {
    entries: Vec<(String, H)>,
}

impl<H> PyForgeRegistry<H> {
    /// Names are kept in strictly increasing order.
    pub closed spec fn wf(&self) -> bool {
        strictly_sorted(entry_names(self.entries@))
    }

    /// The registered names, in increasing order.
    pub closed spec fn names(&self) -> Seq<Seq<char>> {
        entry_names(self.entries@)
    }

    /// The handler registered under `name`.
    pub closed spec fn tool(&self, name: Seq<char>) -> Option<H> {
        handler_for(entry_names(self.entries@), self.entries@.map_values(|e: (String, H)| e.1), name)
    }

    pub fn new() -> (r: Self)
        ensures
            r.wf(),
            r.names() == Seq::<Seq<char>>::empty(),
    {
        let r = PyForgeRegistry { entries: Vec::new() };
        proof {
            assert(entry_names(r.entries@) =~= Seq::<Seq<char>>::empty());
        }
        r
    }

    /// Where `name` stands or would stand: the first entry whose name
    /// does not come before it.
    fn slot(&self, name: &str) -> (r: usize)
        requires
            self.wf(),
        ensures
            r <= self.names().len(),
            forall|i: int| 0 <= i < r ==> precedes(#[trigger] self.names()[i], name@),
            r < self.names().len() ==> !precedes(self.names()[r as int], name@),
    {
        let ghost names = self.names();
        let mut i: usize = 0;
        while i < self.entries.len()
            invariant
                names == self.names(),
                names == entry_names(self.entries@),
                i <= names.len(),
                forall|k: int| 0 <= k < i ==> precedes(#[trigger] names[k], name@),
            decreases names.len() - i,
        {
            if !text_precedes(self.entries[i].0.as_str(), name) {
                return i;
            }
            i = i + 1;
        }
        i
    }

    /// Registers `handler` under `name`, replacing any handler already
    /// registered under it.
    pub fn register(&mut self, name: &str, handler: H)
        requires
            old(self).wf(),
        ensures
            final(self).wf(),
            final(self).names().to_set() == old(self).names().to_set().insert(name@),
            final(self).tool(name@) == Some(handler),
            forall|other: Seq<char>|
                other != name@ ==> #[trigger] final(self).tool(other) == old(self).tool(other),
    {
        let ghost old_entries = self.entries@;
        let ghost old_names = self.names();
        let ghost old_handlers = old_entries.map_values(|e: (String, H)| e.1);
        let i = self.slot(name);
        let exists = i < self.entries.len() && crate::bridge::same(&self.entries[i].0, name);
        proof {
            lemma_sorted_distinct(old_names);
        }
        if exists {
            self.entries.set(i, (String::from_str(name), handler));
            proof {
                let names = self.names();
                let handlers = self.entries@.map_values(|e: (String, H)| e.1);
                assert(names =~= old_names);
                assert(handlers =~= old_handlers.update(i as int, handler));
                lemma_handler_at(names, handlers, i as int);
                assert forall|other: Seq<char>| other != name@ implies #[trigger] handler_for(
                    names,
                    handlers,
                    other,
                ) == handler_for(old_names, old_handlers, other) by {
                    if names.contains(other) {
                        let j = names.index_of(other);
                        assert(names[j] == other);
                        assert(j != i);
                    }
                }
            }
        } else {
            self.entries.insert(i, (String::from_str(name), handler));
            proof {
                let names = self.names();
                let handlers = self.entries@.map_values(|e: (String, H)| e.1);
                assert(names =~= old_names.insert(i as int, name@));
                assert(handlers =~= old_handlers.insert(i as int, handler));
                if i < old_names.len() {
                    lemma_precedes_total(old_names[i as int], name@);
                }
                assert forall|a: int, b: int| 0 <= a < b < names.len() implies precedes(
                    #[trigger] names[a],
                    #[trigger] names[b],
                ) by {
                    if b < i {
                    } else if b == i {
                    } else if a < i {
                        assert(names[b] == old_names[b - 1]);
                        assert(precedes(old_names[a], old_names[b - 1]));
                    } else if a == i {
                        assert(names[b] == old_names[b - 1]);
                        if b - 1 > i {
                            assert(precedes(old_names[i as int], old_names[b - 1]));
                            lemma_precedes_transitive(name@, old_names[i as int], old_names[b - 1]);
                        }
                    } else {
                        assert(precedes(old_names[a - 1], old_names[b - 1]));
                    }
                }
                lemma_sorted_distinct(names);
                assert(names.to_set() =~= old_names.to_set().insert(name@)) by {
                    assert forall|x: Seq<char>| names.to_set().contains(x) == old_names.to_set().insert(name@).contains(x) by {
                        if names.contains(x) {
                            let k = choose|k: int| 0 <= k < names.len() && names[k] == x;
                            if k < i {
                                assert(old_names[k] == x);
                            } else if k > i {
                                assert(old_names[k - 1] == x);
                            }
                        }
                        if old_names.contains(x) {
                            let k = choose|k: int| 0 <= k < old_names.len() && old_names[k] == x;
                            if k < i {
                                assert(names[k] == x);
                            } else {
                                assert(names[k + 1] == x);
                            }
                        }
                        if x == name@ {
                            assert(names[i as int] == x);
                        }
                    }
                }
                lemma_handler_at(names, handlers, i as int);
                assert forall|other: Seq<char>| other != name@ implies #[trigger] handler_for(
                    names,
                    handlers,
                    other,
                ) == handler_for(old_names, old_handlers, other) by {
                    if old_names.contains(other) {
                        let j = old_names.index_of(other);
                        assert(old_names[j] == other);
                        lemma_handler_at(old_names, old_handlers, j);
                        if j < i {
                            lemma_handler_at(names, handlers, j);
                        } else {
                            assert(names[j + 1] == other);
                            lemma_handler_at(names, handlers, j + 1);
                        }
                    } else if names.contains(other) {
                        let k = names.index_of(other);
                        assert(names[k] == other);
                        if k < i {
                            assert(old_names[k] == other);
                        } else if k > i {
                            assert(old_names[k - 1] == other);
                        }
                    }
                }
            }
        }
    }

    /// Removes the handler registered under `name`; whether there was one.
    pub fn unregister(&mut self, name: &str) -> (removed: bool)
        requires
            old(self).wf(),
        ensures
            final(self).wf(),
            removed == old(self).names().contains(name@),
            final(self).names().to_set() == old(self).names().to_set().remove(name@),
            final(self).tool(name@) is None,
            forall|other: Seq<char>|
                other != name@ ==> #[trigger] final(self).tool(other) == old(self).tool(other),
    {
        let ghost old_names = self.names();
        let ghost old_handlers = self.entries@.map_values(|e: (String, H)| e.1);
        proof {
            lemma_sorted_distinct(old_names);
        }
        let i = self.slot(name);
        if i < self.entries.len() && crate::bridge::same(&self.entries[i].0, name) {
            self.entries.remove(i);
            proof {
                let names = self.names();
                let handlers = self.entries@.map_values(|e: (String, H)| e.1);
                assert(names =~= old_names.remove(i as int));
                assert(handlers =~= old_handlers.remove(i as int));
                assert(old_names.contains(name@)) by {
                    assert(old_names[i as int] == name@);
                }
                assert(strictly_sorted(names)) by {
                    assert forall|a: int, b: int| 0 <= a < b < names.len() implies precedes(
                        #[trigger] names[a],
                        #[trigger] names[b],
                    ) by {
                        let oa = if a < i { a } else { a + 1 };
                        let ob = if b < i { b } else { b + 1 };
                        assert(names[a] == old_names[oa]);
                        assert(names[b] == old_names[ob]);
                    }
                }
                lemma_sorted_distinct(names);
                assert(!names.contains(name@)) by {
                    if names.contains(name@) {
                        let k = names.index_of(name@);
                        assert(names[k] == name@);
                        let ok = if k < i { k } else { k + 1 };
                        assert(old_names[ok] == name@);
                    }
                }
                assert(names.to_set() =~= old_names.to_set().remove(name@)) by {
                    assert forall|x: Seq<char>| names.to_set().contains(x) == old_names.to_set().remove(name@).contains(x) by {
                        if names.contains(x) {
                            let k = choose|k: int| 0 <= k < names.len() && names[k] == x;
                            let ok = if k < i { k } else { k + 1 };
                            assert(old_names[ok] == x);
                        }
                        if old_names.contains(x) && x != name@ {
                            let k = choose|k: int| 0 <= k < old_names.len() && old_names[k] == x;
                            assert(k != i);
                            if k < i {
                                assert(names[k] == x);
                            } else {
                                assert(names[k - 1] == x);
                            }
                        }
                    }
                }
                assert forall|other: Seq<char>| other != name@ implies #[trigger] handler_for(
                    names,
                    handlers,
                    other,
                ) == handler_for(old_names, old_handlers, other) by {
                    if old_names.contains(other) {
                        let j = old_names.index_of(other);
                        assert(old_names[j] == other);
                        assert(j != i);
                        lemma_handler_at(old_names, old_handlers, j);
                        let nj = if j < i { j } else { j - 1 };
                        assert(names[nj] == other);
                        lemma_handler_at(names, handlers, nj);
                    } else if names.contains(other) {
                        let k = names.index_of(other);
                        assert(names[k] == other);
                        let ok = if k < i { k } else { k + 1 };
                        assert(old_names[ok] == other);
                    }
                }
            }
            true
        } else {
            proof {
                assert(!old_names.contains(name@)) by {
                    if old_names.contains(name@) {
                        let k = old_names.index_of(name@);
                        assert(old_names[k] == name@);
                        lemma_precedes_irreflexive(name@);
                        if k >= i && i < old_names.len() {
                            if k > i {
                                assert(precedes(old_names[i as int], old_names[k]));
                                lemma_precedes_total(old_names[i as int], name@);
                            }
                        }
                    }
                }
                assert(old_names.to_set().remove(name@) =~= old_names.to_set());
            }
            false
        }
    }

    /// Whether a handler is registered under `name`.
    pub fn contains(&self, name: &str) -> (r: bool)
        requires
            self.wf(),
        ensures
            r == self.names().contains(name@),
    {
        let ghost names = self.names();
        let i = self.slot(name);
        let found = i < self.entries.len() && crate::bridge::same(&self.entries[i].0, name);
        proof {
            if !found && names.contains(name@) {
                let k = names.index_of(name@);
                assert(names[k] == name@);
                lemma_precedes_irreflexive(name@);
                if k > i {
                    assert(precedes(names[i as int], names[k]));
                    lemma_precedes_total(names[i as int], name@);
                }
            }
            if found {
                assert(names[i as int] == name@);
            }
        }
        found
    }

    /// The number of registered tools.
    pub fn len(&self) -> (n: usize)
        ensures
            n == self.names().len(),
    {
        self.entries.len()
    }

    /// The registered names, in increasing order.
    pub fn tool_names(&self) -> (r: Vec<String>)
        ensures
            names_of(r@) == self.names(),
    {
        let mut r: Vec<String> = Vec::new();
        let mut i: usize = 0;
        while i < self.entries.len()
            invariant
                i <= self.entries@.len(),
                names_of(r@) == entry_names(self.entries@).take(i as int),
            decreases self.entries@.len() - i,
        {
            r.push(self.entries[i].0.clone());
            proof {
                assert(entry_names(self.entries@).take(i + 1) =~= entry_names(self.entries@).take(
                    i as int,
                ).push(self.entries@[i as int].0@));
                assert(names_of(r@) =~= entry_names(self.entries@).take(i + 1));
            }
            i = i + 1;
        }
        proof {
            assert(entry_names(self.entries@).take(i as int) =~= entry_names(self.entries@));
        }
        r
    }

    /// The handler to invoke for `name`, or the unknown-tool error.
    pub fn handler(&self, name: &str) -> (r: Result<&H, RegistryError>)
        requires
            self.wf(),
        ensures
            match self.tool(name@) {
                Some(h) => r matches Ok(x) && *x == h,
                None => r matches Err(RegistryError::UnknownTool(n)) && n@ == name@,
            },
    {
        let ghost names = self.names();
        let ghost handlers = self.entries@.map_values(|e: (String, H)| e.1);
        proof {
            lemma_sorted_distinct(names);
        }
        if self.contains(name) {
            let i = self.slot(name);
            proof {
                if !(i < names.len() && names[i as int] == name@) {
                    let k = names.index_of(name@);
                    assert(names[k] == name@);
                    lemma_precedes_irreflexive(name@);
                    if k > i && i < names.len() {
                        assert(precedes(names[i as int], names[k]));
                        lemma_precedes_total(names[i as int], name@);
                    }
                }
                lemma_handler_at(names, handlers, i as int);
            }
            Ok(&self.entries[i].1)
        } else {
            Err(RegistryError::UnknownTool(String::from_str(name)))
        }
    }
}

impl<H> Default for PyForgeRegistry<H> {
    fn default() -> (r: Self)
        ensures
            r.wf(),
            r.names() == Seq::<Seq<char>>::empty(),
    {
        PyForgeRegistry::new()
    }
}

// ---------------------------------------------------------------------
// Pipelines, relays and colonies
// ---------------------------------------------------------------------

/// A pipeline under construction: its node names in the order added.
/// Handlers are run by the host language and not kept here.
#[derive(Clone, Debug)]
pub struct PyPipelineBuilder {
    nodes: Vec<String>,
}

/// A built pipeline.
#[derive(Clone, Debug)]
pub struct PyPipeline {
    nodes: Vec<String>,
}

impl PyPipelineBuilder {
    pub closed spec fn node_list(&self) -> Seq<Seq<char>> {
        names_of(self.nodes@)
    }

    pub fn new() -> (b: Self)
        ensures
            b.node_list() == Seq::<Seq<char>>::empty(),
    {
        let b = PyPipelineBuilder { nodes: Vec::new() };
        proof {
            assert(names_of(b.nodes@) =~= Seq::<Seq<char>>::empty());
        }
        b
    }

    /// Appends node `name`; every call appends, a repeated name too.
    pub fn add_node<H>(&mut self, name: &str, _handler: H)
        ensures
            final(self).node_list() == old(self).node_list().push(name@),
    {
        let ghost before = names_of(self.nodes@);
        self.nodes.push(String::from_str(name));
        proof {
            assert(names_of(self.nodes@) =~= before.push(name@));
        }
    }

    pub fn build(&self) -> (p: PyPipeline)
        ensures
            p.node_list() == self.node_list(),
    {
        PyPipeline { nodes: copy_strings(&self.nodes) }
    }
}

impl Default for PyPipelineBuilder {
    fn default() -> (b: Self)
        ensures
            b.node_list() == Seq::<Seq<char>>::empty(),
    {
        PyPipelineBuilder::new()
    }
}

impl PyPipeline {
    pub closed spec fn node_list(&self) -> Seq<Seq<char>> {
        names_of(self.nodes@)
    }

    pub fn node_names(&self) -> (r: Vec<String>)
        ensures
            names_of(r@) == self.node_list(),
    {
        copy_strings(&self.nodes)
    }
}

/// A relay under construction: its branch names in the order added.
#[derive(Clone, Debug)]
pub struct PyRelayBuilder {
    branches: Vec<String>,
}

/// A built relay plan.
#[derive(Clone, Debug)]
pub struct PyRelayPlan {
    branches: Vec<String>,
}

impl PyRelayBuilder {
    pub closed spec fn branch_list(&self) -> Seq<Seq<char>> {
        names_of(self.branches@)
    }

    pub fn new() -> (b: Self)
        ensures
            b.branch_list() == Seq::<Seq<char>>::empty(),
    {
        let b = PyRelayBuilder { branches: Vec::new() };
        proof {
            assert(names_of(b.branches@) =~= Seq::<Seq<char>>::empty());
        }
        b
    }

    /// Appends branch `name`; handlers are run by the host language.
    pub fn add_branch<H>(&mut self, name: &str, _handler: H)
        ensures
            final(self).branch_list() == old(self).branch_list().push(name@),
    {
        let ghost before = names_of(self.branches@);
        self.branches.push(String::from_str(name));
        proof {
            assert(names_of(self.branches@) =~= before.push(name@));
        }
    }

    pub fn build(&self) -> (p: PyRelayPlan)
        ensures
            p.branch_list() == self.branch_list(),
    {
        PyRelayPlan { branches: copy_strings(&self.branches) }
    }
}

impl Default for PyRelayBuilder {
    fn default() -> (b: Self)
        ensures
            b.branch_list() == Seq::<Seq<char>>::empty(),
    {
        PyRelayBuilder::new()
    }
}

impl PyRelayPlan {
    pub closed spec fn branch_list(&self) -> Seq<Seq<char>> {
        names_of(self.branches@)
    }

    pub fn branch_names(&self) -> (r: Vec<String>)
        ensures
            names_of(r@) == self.branch_list(),
    {
        copy_strings(&self.branches)
    }
}

/// A colony under construction: its members, each a name and a role, in
/// the order added.
#[derive(Clone, Debug)]
pub struct PyColonyBuilder {
    members: Vec<(String, String)>,
}

impl PyColonyBuilder {
    pub closed spec fn member_list(&self) -> Seq<(Seq<char>, Seq<char>)> {
        pairs_of(self.members@)
    }

    pub fn new() -> (b: Self)
        ensures
            b.member_list() == Seq::<(Seq<char>, Seq<char>)>::empty(),
    {
        let b = PyColonyBuilder { members: Vec::new() };
        proof {
            assert(pairs_of(b.members@) =~= Seq::<(Seq<char>, Seq<char>)>::empty());
        }
        b
    }

    pub fn add_member(&mut self, name: &str, role: &str)
        ensures
            final(self).member_list() == old(self).member_list().push((name@, role@)),
    {
        let ghost before = pairs_of(self.members@);
        self.members.push((String::from_str(name), String::from_str(role)));
        proof {
            assert(pairs_of(self.members@) =~= before.push((name@, role@)));
        }
    }

    /// The members' names, in the order added.
    pub fn member_names(&self) -> (r: Vec<String>)
        ensures
            names_of(r@) == self.member_list().map_values(|m: (Seq<char>, Seq<char>)| m.0),
    {
        let mut r: Vec<String> = Vec::new();
        let mut i: usize = 0;
        while i < self.members.len()
            invariant
                i <= self.members@.len(),
                names_of(r@) == pairs_of(self.members@).take(i as int).map_values(
                    |m: (Seq<char>, Seq<char>)| m.0,
                ),
            decreases self.members@.len() - i,
        {
            let ghost before = r@;
            r.push(self.members[i].0.clone());
            proof {
                let f = |m: (Seq<char>, Seq<char>)| m.0;
                assert(pairs_of(self.members@).take(i + 1).map_values(f) =~= pairs_of(
                    self.members@,
                ).take(i as int).map_values(f).push(self.members@[i as int].0@));
                assert(names_of(r@) =~= names_of(before).push(self.members@[i as int].0@));
            }
            i = i + 1;
        }
        proof {
            assert(pairs_of(self.members@).take(i as int) =~= pairs_of(self.members@));
        }
        r
    }
}

impl Default for PyColonyBuilder {
    fn default() -> (b: Self)
        ensures
            b.member_list() == Seq::<(Seq<char>, Seq<char>)>::empty(),
    {
        PyColonyBuilder::new()
    }
}

// ---------------------------------------------------------------------
// Completion providers and prompt templates
// ---------------------------------------------------------------------

/// What a completion provider without a handler answers.
#[derive(Debug, Clone, PartialEq, Eq)]
pub enum ProviderError {
    NoHandler,
}

impl ProviderError {
    pub fn message(&self) -> (r: String)
        ensures
            r@ == "PyConduitProvider has no handler — pass `handler=` in the constructor or call `set_handler`"@,
    {
        String::from_str(
            "PyConduitProvider has no handler — pass `handler=` in the constructor or call `set_handler`",
        )
    }
}

/// A completion provider: an optional label and the optional handler
/// that completes messages.
#[derive(Clone)]
pub struct PyConduitProvider<H> {
    label: Option<String>,
    handler: Option<H>,
}

impl<H> PyConduitProvider<H> {
    pub closed spec fn label_text(&self) -> Option<Seq<char>> {
        opt_text(self.label)
    }

    pub closed spec fn current_handler(&self) -> Option<H> {
        self.handler
    }

    pub fn new(label: Option<String>, handler: Option<H>) -> (p: Self)
        ensures
            p.label_text() == opt_text(label),
            p.current_handler() == handler,
    {
        PyConduitProvider { label, handler }
    }

    pub fn label(&self) -> (r: Option<String>)
        ensures
            opt_text(r) == self.label_text(),
    {
        match &self.label {
            Some(l) => Some(l.clone()),
            None => None,
        }
    }

    /// Replaces the handler; whether there was one before.
    pub fn set_handler(&mut self, handler: H) -> (replaced: bool)
        ensures
            replaced == old(self).current_handler() is Some,
            final(self).current_handler() == Some(handler),
            final(self).label_text() == old(self).label_text(),
    {
        let replaced = self.handler.is_some();
        self.handler = Some(handler);
        replaced
    }

    pub fn has_handler(&self) -> (r: bool)
        ensures
            r == self.current_handler() is Some,
    {
        self.handler.is_some()
    }

    /// The handler that completes messages, or the error for a provider
    /// without one.
    pub fn handler(&self) -> (r: Result<&H, ProviderError>)
        ensures
            match self.current_handler() {
                Some(h) => r matches Ok(x) && *x == h,
                None => r matches Err(ProviderError::NoHandler),
            },
    {
        match &self.handler {
            Some(h) => Ok(h),
            None => Err(ProviderError::NoHandler),
        }
    }
}

impl<H> Default for PyConduitProvider<H> {
    fn default() -> (p: Self)
        ensures
            p.label_text() is None,
            p.current_handler() is None,
    {
        PyConduitProvider { label: None, handler: None }
    }
}

/// A prompt builder whose template can be set in place.
#[derive(Clone, Debug)]
pub struct PyPromptBuilder {
    template: Option<String>,
}

impl PyPromptBuilder {
    /// The template text set so far, if any.
    pub closed spec fn pending(&self) -> Option<Seq<char>> {
        opt_text(self.template)
    }

    pub fn new() -> (b: Self)
        ensures
            b.pending() is None,
    {
        PyPromptBuilder { template: None }
    }

    /// Sets (or replaces) the template text.
    pub fn template(&mut self, template: &str)
        ensures
            final(self).pending() == Some(template@),
    {
        self.template = Some(String::from_str(template));
    }

    /// Builds the template as [`PromptBuilder::build`] does, leaving this
    /// builder as it is.
    pub fn build(&self) -> (r: Result<PyPromptTemplate, BeaconError>)
        ensures
            match self.pending() {
                None => r matches Err(e) && e@ == BeaconFault::MissingTemplate,
                Some(t) => match template_variables(sanitize(t)) {
                    Ok(vars) => r matches Ok(p) && p.prompt().template@ == sanitize(t)
                        && crate::prompt::names_of(p.prompt().variables@) == vars,
                    Err(e) => r matches Err(err) && err@ == e,
                },
            },
    {
        let builder = match &self.template {
            Some(t) => PromptBuilder::new().template(t.as_str()),
            None => PromptBuilder::new(),
        };
        match builder.build() {
            Ok(inner) => Ok(PyPromptTemplate { inner }),
            Err(e) => Err(e),
        }
    }
}

impl Default for PyPromptBuilder {
    fn default() -> (b: Self)
        ensures
            b.pending() is None,
    {
        PyPromptBuilder::new()
    }
}

/// A built prompt template.
#[derive(Clone, Debug)]
pub struct PyPromptTemplate {
    inner: PromptTemplate,
}

impl PyPromptTemplate {
    pub closed spec fn prompt(&self) -> PromptTemplate {
        self.inner
    }

    /// Renders the template against a JSON object context.
    pub fn render(&self, context: &JsonValue) -> (r: Result<String, BeaconError>)
        ensures
            match render_spec(self.prompt().template@, names_of(self.prompt().variables@), *context) {
                Ok(t) => r matches Ok(s) && s@ == t,
                Err(e) => r matches Err(err) && err@ == e,
            },
    {
        self.inner.render(context)
    }
}

} // verus!
