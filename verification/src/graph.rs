//! An append-only graph of index roots, records and typed edges.
//!
//! Nothing is ever changed or removed: every operation appends one action to
//! a journal, and an address is the position of the action that created the
//! thing. An edge is removed by appending a tombstone that names it; readers
//! leave out every edge that a tombstone names.

use vstd::prelude::*;
use crate::integrity::{EntryTypes, EntryView, LinkTypes};
use crate::text::{copy_bytes, same_text};

verus! {

/// One entry of the journal.
#[derive(Debug)]
pub enum Action {
    /// An index root, identified by its path.
    Anchor { path: String },
    /// A published record.
    Publish { entry: EntryTypes },
    /// A directed edge between two earlier index roots or records.
    Link { source: usize, target: usize, relation: LinkTypes, tag: Vec<u8> },
    /// The tombstone of an earlier edge.
    Unlink { edge: usize },
}

/// The mathematical value of an [`Action`].
pub enum ActionView {
    Anchor { path: Seq<char> },
    Publish { entry: EntryView },
    Link { source: int, target: int, relation: LinkTypes, tag: Seq<u8> },
    Unlink { edge: int },
}

impl View for Action {
    type V = ActionView;

    open spec fn view(&self) -> ActionView {
        match self {
            Action::Anchor { path } => ActionView::Anchor { path: path@ },
            Action::Publish { entry } => ActionView::Publish { entry: entry@ },
            Action::Link { source, target, relation, tag } => ActionView::Link {
                source: *source as int,
                target: *target as int,
                relation: *relation,
                tag: tag@,
            },
            Action::Unlink { edge } => ActionView::Unlink { edge: *edge as int },
        }
    }
}

/// An edge as a reader sees it.
#[derive(Debug)]
pub struct Edge {
    /// The edge's own address: what `unlink` takes.
    pub address: usize,
    pub source: usize,
    pub target: usize,
    pub relation: LinkTypes,
    pub tag: Vec<u8>,
}

/// The mathematical value of an [`Edge`].
pub struct EdgeView {
    pub address: int,
    pub source: int,
    pub target: int,
    pub relation: LinkTypes,
    pub tag: Seq<u8>,
}

impl View for Edge {
    type V = EdgeView;

    open spec fn view(&self) -> EdgeView {
        EdgeView {
            address: self.address as int,
            source: self.source as int,
            target: self.target as int,
            relation: self.relation,
            tag: self.tag@,
        }
    }
}

impl DeepView for Edge {
    type V = EdgeView;

    open spec fn deep_view(&self) -> EdgeView {
        self@
    }
}

/// The journal as a sequence of action values.
pub type Journal = Seq<ActionView>;

/// `at` is the address of an index root or of a record.
pub open spec fn is_node(g: Journal, at: int) -> bool {
    0 <= at < g.len() && (g[at] is Anchor || g[at] is Publish)
}

/// `at` is the address of the index root for `path`.
pub open spec fn is_anchor(g: Journal, at: int, path: Seq<char>) -> bool {
    0 <= at < g.len() && g[at] == (ActionView::Anchor { path })
}

/// Some tombstone among the first `upto` actions names `edge`.
pub open spec fn is_tombstoned_by(g: Journal, edge: int, upto: int) -> bool {
    exists|j: int| 0 <= j < upto && j < g.len() && g[j] == (ActionView::Unlink { edge })
}

/// Some tombstone names `edge`.
pub open spec fn is_tombstoned(g: Journal, edge: int) -> bool {
    is_tombstoned_by(g, edge, g.len() as int)
}

/// `edge` is the address of an edge that no tombstone names.
pub open spec fn is_live_edge(g: Journal, edge: int) -> bool {
    0 <= edge < g.len() && g[edge] is Link && !is_tombstoned(g, edge)
}

/// `edge` is a live edge that leaves `source` under `relation`.
pub open spec fn leaves(g: Journal, edge: int, source: int, relation: LinkTypes) -> bool {
    &&& is_live_edge(g, edge)
    &&& g[edge]->source == source
    &&& g[edge]->relation == relation
}

/// The edge that the action at `edge` created.
pub open spec fn edge_at(g: Journal, edge: int) -> EdgeView {
    EdgeView {
        address: edge,
        source: g[edge]->source,
        target: g[edge]->target,
        relation: g[edge]->relation,
        tag: g[edge]->tag,
    }
}

/// The live edges that leave `source` under `relation` among the first `upto`
/// actions, in the order of their creation.
pub open spec fn live_edges(g: Journal, source: int, relation: LinkTypes, upto: int) -> Seq<EdgeView>
    decreases upto,
{
    if upto <= 0 {
        Seq::empty()
    } else {
        let earlier = live_edges(g, source, relation, upto - 1);
        if leaves(g, upto - 1, source, relation) {
            earlier.push(edge_at(g, upto - 1))
        } else {
            earlier
        }
    }
}

/// All live edges that leave `source` under `relation`.
pub open spec fn edges_from(g: Journal, source: int, relation: LinkTypes) -> Seq<EdgeView> {
    live_edges(g, source, relation, g.len() as int)
}

/// Position of the first index root with this path; `g.len()` when there is none.
pub open spec fn anchor_index(g: Journal, path: Seq<char>) -> int
    decreases g.len(),
{
    if g.len() == 0 || g[0] == (ActionView::Anchor { path }) {
        0
    } else {
        1 + anchor_index(g.drop_first(), path)
    }
}

/// The journal after the index root for `path` has been asked for.
pub open spec fn ensured(g: Journal, path: Seq<char>) -> Journal {
    if anchor_index(g, path) < g.len() {
        g
    } else {
        g.push(ActionView::Anchor { path })
    }
}

/// The journal after an edge has been asked for: unchanged unless both ends are nodes.
pub open spec fn linked(g: Journal, source: int, target: int, relation: LinkTypes, tag: Seq<u8>) -> Journal {
    if is_node(g, source) && is_node(g, target) {
        g.push(ActionView::Link { source, target, relation, tag })
    } else {
        g
    }
}

/// The journal after the removal of `edge` has been asked for: unchanged
/// unless `edge` is a live edge.
pub open spec fn unlinked(g: Journal, edge: int) -> Journal {
    if is_live_edge(g, edge) {
        g.push(ActionView::Unlink { edge })
    } else {
        g
    }
}

/// `a` can be appended to `g`: an edge joins two nodes of `g`, a tombstone
/// names an edge that is live in `g`, and an index root has a path that no
/// index root of `g` has.
pub open spec fn admissible(g: Journal, a: ActionView) -> bool {
    match a {
        ActionView::Anchor { path } => anchor_index(g, path) == g.len(),
        ActionView::Publish { .. } => true,
        ActionView::Link { source, target, .. } => is_node(g, source) && is_node(g, target),
        ActionView::Unlink { edge } => is_live_edge(g, edge),
    }
}

/// Every action of the journal could be appended to what stands before it.
pub open spec fn well_formed(g: Journal) -> bool {
    forall|at: int| 0 <= at < g.len() ==> admissible(#[trigger] g.take(at), g[at])
}

/// A well-formed journal stays so when an admissible action is appended.
pub proof fn lemma_well_formed_push(g: Journal, a: ActionView)
    requires
        well_formed(g),
        admissible(g, a),
    ensures
        well_formed(g.push(a)),
{
    let g2 = g.push(a);
    assert forall|at: int| 0 <= at < g2.len() implies admissible(#[trigger] g2.take(at), g2[at]) by {
        if at < g.len() {
            assert(g2.take(at) =~= g.take(at));
        } else {
            assert(g2.take(at) =~= g);
        }
    }
}

/// The record at `at`, if a record was published there.
pub open spec fn record_at(g: Journal, at: int) -> Option<EntryView> {
    if 0 <= at < g.len() && g[at] is Publish {
        Some(g[at]->entry)
    } else {
        None
    }
}

/// `anchor_index` is in range, finds an index root with the path, and none stands before it.
pub proof fn lemma_anchor_index(g: Journal, path: Seq<char>)
    ensures
        0 <= anchor_index(g, path) <= g.len(),
        anchor_index(g, path) < g.len() ==> g[anchor_index(g, path)] == (ActionView::Anchor { path }),
        forall|j: int| 0 <= j < anchor_index(g, path) ==> g[j] != (ActionView::Anchor { path }),
    decreases g.len(),
{
    if g.len() == 0 || g[0] == (ActionView::Anchor { path }) {
    } else {
        let t = g.drop_first();
        lemma_anchor_index(t, path);
        assert forall|j: int| 0 <= j < anchor_index(g, path) implies g[j] != (ActionView::Anchor {
            path,
        }) by {
            if j > 0 {
                assert(g[j] == t[j - 1]);
            }
        }
        if anchor_index(g, path) < g.len() {
            assert(g[anchor_index(g, path)] == t[anchor_index(t, path)]);
        }
    }
}

/// The first position that holds an index root with the path is `anchor_index`.
pub proof fn lemma_anchor_index_is(g: Journal, path: Seq<char>, at: int)
    requires
        0 <= at <= g.len(),
        at < g.len() ==> g[at] == (ActionView::Anchor { path }),
        forall|j: int| 0 <= j < at ==> g[j] != (ActionView::Anchor { path }),
    ensures
        anchor_index(g, path) == at,
{
    lemma_anchor_index(g, path);
}

/// The graph: a journal that only grows.
#[derive(Debug)]
pub struct GraphStore {
    journal: Vec<Action>,
}

impl View for GraphStore {
    type V = Journal;

    closed spec fn view(&self) -> Journal {
        Seq::new(self.journal@.len(), |i: int| self.journal@[i]@)
    }
}

impl GraphStore {
    /// What every graph satisfies: its journal is well formed.
    #[verifier::type_invariant]
    pub open spec fn inv(&self) -> bool {
        well_formed(self@)
    }

    /// An empty graph.
    pub fn new() -> (out: Self)
        ensures
            out@ == Seq::<ActionView>::empty(),
    {
        let out = GraphStore { journal: Vec::new() };
        assert(out@ =~= Seq::<ActionView>::empty());
        out
    }

    /// How many actions the journal holds. Every address is below this.
    pub fn len(&self) -> (n: usize)
        ensures
            n == self@.len(),
    {
        self.journal.len()
    }

    /// The action at `at`.
    pub fn action(&self, at: usize) -> (out: &Action)
        requires
            at < self@.len(),
        ensures
            out@ == self@[at as int],
    {
        &self.journal[at]
    }

    fn append(&mut self, action: Action)
        requires
            admissible(old(self)@, action@),
        ensures
            final(self)@ == old(self)@.push(action@),
    {
        proof {
            use_type_invariant(&*self);
            lemma_well_formed_push(self@, action@);
        }
        let ghost before = self@;
        let mut journal: Vec<Action> = Vec::new();
        assert(Seq::new(journal@.len(), |i: int| journal@[i]@) =~= Seq::<ActionView>::empty());
        std::mem::swap(&mut self.journal, &mut journal);
        journal.push(action);
        assert(Seq::new(journal@.len(), |i: int| journal@[i]@) =~= before.push(action@));
        std::mem::swap(&mut self.journal, &mut journal);
    }

    /// The address of the index root for `path`, if it exists.
    pub fn anchor(&self, path: &str) -> (at: Option<usize>)
        ensures
            match at {
                Some(at) => at == anchor_index(self@, path@) && at < self@.len(),
                None => anchor_index(self@, path@) == self@.len(),
            },
    {
        let n = self.journal.len();
        let mut i: usize = 0;
        while i < n
            invariant
                n == self.journal@.len(),
                i <= n,
                forall|j: int| 0 <= j < i ==> self@[j] != (ActionView::Anchor { path: path@ }),
            decreases n - i,
        {
            let found = match &self.journal[i] {
                Action::Anchor { path: p } => same_text(p.as_str(), path),
                _ => false,
            };
            assert(found == (self@[i as int] == (ActionView::Anchor { path: path@ })));
            if found {
                proof {
                    lemma_anchor_index_is(self@, path@, i as int);
                }
                return Some(i);
            }
            i += 1;
        }
        proof {
            lemma_anchor_index_is(self@, path@, n as int);
        }
        None
    }

    /// The address of the index root for `path`, which is created if it does
    /// not exist yet. Asking again gives the same address and changes nothing.
    pub fn ensure(&mut self, path: &str) -> (at: usize)
        ensures
            at == anchor_index(old(self)@, path@),
            final(self)@ == ensured(old(self)@, path@),
            is_anchor(final(self)@, at as int, path@),
    {
        match self.anchor(path) {
            Some(at) => {
                proof {
                    lemma_anchor_index(self@, path@);
                }
                at
            },
            None => {
                let at = self.journal.len();
                self.append(Action::Anchor { path: path.to_owned() });
                at
            },
        }
    }

    /// Publishes a record and gives its address.
    pub fn publish(&mut self, entry: EntryTypes) -> (at: usize)
        ensures
            at == old(self)@.len(),
            final(self)@ == old(self)@.push(ActionView::Publish { entry: entry@ }),
    {
        let at = self.journal.len();
        self.append(Action::Publish { entry });
        at
    }

    /// The record at `at`, if a record was published there.
    pub fn read(&self, at: usize) -> (out: Option<&EntryTypes>)
        ensures
            match out {
                Some(entry) => record_at(self@, at as int) == Some(entry@),
                None => record_at(self@, at as int) is None,
            },
    {
        if at >= self.journal.len() {
            return None;
        }
        match &self.journal[at] {
            Action::Publish { entry } => Some(entry),
            _ => None,
        }
    }

    /// Whether `at` is the address of an index root or of a record.
    pub fn is_node(&self, at: usize) -> (yes: bool)
        ensures
            yes == is_node(self@, at as int),
    {
        if at >= self.journal.len() {
            return false;
        }
        match &self.journal[at] {
            Action::Anchor { .. } => true,
            Action::Publish { .. } => true,
            _ => false,
        }
    }

    /// Creates an edge from `source` to `target` under `relation`. Succeeds
    /// exactly when both are addresses of index roots or records; what the
    /// target holds is not looked at.
    pub fn link(&mut self, source: usize, target: usize, relation: LinkTypes, tag: Vec<u8>) -> (at: Option<usize>)
        ensures
            final(self)@ == linked(old(self)@, source as int, target as int, relation, tag@),
            at is Some <==> is_node(old(self)@, source as int) && is_node(old(self)@, target as int),
            at is Some ==> at->0 == old(self)@.len(),
    {
        if self.is_node(source) && self.is_node(target) {
            let at = self.journal.len();
            self.append(Action::Link { source, target, relation, tag });
            Some(at)
        } else {
            None
        }
    }

    /// For every address, whether a tombstone names it.
    fn tombstones(&self) -> (marks: Vec<bool>)
        ensures
            marks@.len() == self@.len(),
            forall|e: int| 0 <= e < marks@.len() ==> marks@[e] == is_tombstoned(self@, e),
    {
        let n = self.journal.len();
        let mut marks: Vec<bool> = Vec::new();
        let mut k: usize = 0;
        while k < n
            invariant
                k <= n,
                marks@.len() == k,
                forall|e: int| 0 <= e < k ==> !marks@[e],
            decreases n - k,
        {
            marks.push(false);
            k += 1;
        }
        let mut j: usize = 0;
        while j < n
            invariant
                n == self@.len(),
                n == self.journal@.len(),
                marks@.len() == n,
                j <= n,
                forall|e: int| 0 <= e < n ==> marks@[e] == is_tombstoned_by(self@, e, j as int),
            decreases n - j,
        {
            let ghost before = marks@;
            match &self.journal[j] {
                Action::Unlink { edge } => {
                    if *edge < n {
                        marks.set(*edge, true);
                    }
                },
                _ => {},
            }
            proof {
                let g = self@;
                assert forall|e: int| 0 <= e < n implies marks@[e] == is_tombstoned_by(
                    g,
                    e,
                    j + 1,
                ) by {
                    let here = g[j as int] == (ActionView::Unlink { edge: e });
                    if is_tombstoned_by(g, e, j + 1) {
                        let w = choose|w: int|
                            0 <= w < j + 1 && w < g.len() && g[w] == (ActionView::Unlink {
                                edge: e,
                            });
                        if w < j {
                            assert(is_tombstoned_by(g, e, j as int));
                        }
                    }
                    if before[e] {
                        assert(is_tombstoned_by(g, e, j as int));
                        let w = choose|w: int|
                            0 <= w < j && w < g.len() && g[w] == (ActionView::Unlink {
                                edge: e,
                            });
                        assert(0 <= w < j + 1 && w < g.len() && g[w] == (ActionView::Unlink {
                            edge: e,
                        }));
                    }
                    if here {
                        assert(0 <= j < j + 1 && j < g.len() && g[j as int] == (ActionView::Unlink {
                            edge: e,
                        }));
                    }
                }
            }
            j += 1;
        }
        marks
    }

    /// Whether `edge` is the address of an edge that no tombstone names.
    pub fn is_live_edge(&self, edge: usize) -> (yes: bool)
        ensures
            yes == is_live_edge(self@, edge as int),
    {
        let n = self.journal.len();
        if edge >= n {
            return false;
        }
        match &self.journal[edge] {
            Action::Link { .. } => {},
            _ => {
                return false;
            },
        }
        let mut j: usize = 0;
        while j < n
            invariant
                n == self@.len(),
                n == self.journal@.len(),
                j <= n,
                !is_tombstoned_by(self@, edge as int, j as int),
            decreases n - j,
        {
            let hit = match &self.journal[j] {
                Action::Unlink { edge: named } => *named == edge,
                _ => false,
            };
            if hit {
                assert(self@[j as int] == (ActionView::Unlink { edge: edge as int }));
                assert(is_tombstoned(self@, edge as int));
                return false;
            }
            assert(!is_tombstoned_by(self@, edge as int, j + 1)) by {
                if is_tombstoned_by(self@, edge as int, j + 1) {
                    let w = choose|w: int|
                        0 <= w < j + 1 && w < self@.len() && self@[w] == (ActionView::Unlink {
                            edge: edge as int,
                        });
                    if w < j {
                        assert(is_tombstoned_by(self@, edge as int, j as int));
                    }
                }
            }
            j += 1;
        }
        true
    }

    /// The live edges that leave `source` under `relation`, in the order of
    /// their creation. Callers that need another order sort the result.
    pub fn edges_from(&self, source: usize, relation: LinkTypes) -> (out: Vec<Edge>)
        ensures
            out.deep_view() == edges_from(self@, source as int, relation),
    {
        let marks = self.tombstones();
        let n = self.journal.len();
        let mut out: Vec<Edge> = Vec::new();
        let mut i: usize = 0;
        assert(out.deep_view() =~= live_edges(self@, source as int, relation, 0));
        while i < n
            invariant
                n == self@.len(),
                n == self.journal@.len(),
                i <= n,
                marks@.len() == n,
                forall|e: int| 0 <= e < n ==> marks@[e] == is_tombstoned(self@, e),
                out.deep_view() == live_edges(self@, source as int, relation, i as int),
            decreases n - i,
        {
            let ghost before = out.deep_view();
            match &self.journal[i] {
                Action::Link { source: s, target, relation: r, tag } => {
                    if *s == source && *r == relation && !marks[i] {
                        out.push(
                            Edge {
                                address: i,
                                source: *s,
                                target: *target,
                                relation: *r,
                                tag: copy_bytes(tag.as_slice()),
                            },
                        );
                        assert(out.deep_view() =~= before.push(edge_at(self@, i as int)));
                    }
                },
                _ => {},
            }
            i += 1;
        }
        out
    }

    /// Removes an edge by appending its tombstone. Removing an edge that is
    /// already removed, or an address that is no edge, changes nothing.
    pub fn unlink(&mut self, edge: usize)
        ensures
            final(self)@ == unlinked(old(self)@, edge as int),
    {
        if self.is_live_edge(edge) {
            self.append(Action::Unlink { edge });
        }
    }
}

} // verus!
