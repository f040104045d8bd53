//! What holds of the graph whatever its history: how each appended action
//! changes what readers see, that asking for an index root is idempotent, and
//! that a removed edge stays removed.

use vstd::prelude::*;
use crate::graph::{
    admissible, anchor_index, edge_at, edges_from, ensured, is_live_edge, is_tombstoned,
    is_tombstoned_by, leaves, lemma_anchor_index, lemma_anchor_index_is, live_edges, unlinked,
    well_formed, ActionView, EdgeView, Journal,
};
use crate::integrity::LinkTypes;

verus! {

/// `edges` without the edge whose address is `address`.
pub open spec fn without(edges: Seq<EdgeView>, address: int) -> Seq<EdgeView>
    decreases edges.len(),
{
    if edges.len() == 0 {
        edges
    } else {
        let earlier = without(edges.drop_last(), address);
        if edges.last().address == address {
            earlier
        } else {
            earlier.push(edges.last())
        }
    }
}

/// Some edge of `edges` has the address `address`.
pub open spec fn has_address(edges: Seq<EdgeView>, address: int) -> bool {
    exists|k: int| 0 <= k < edges.len() && edges[k].address == address
}

/// Every listed edge is live, leaves the source under the relation, and
/// stands under its own address; each such edge below `upto` is listed.
pub proof fn lemma_live_edges(g: Journal, source: int, relation: LinkTypes, upto: int)
    requires
        upto <= g.len(),
    ensures
        forall|k: int|
            0 <= k < live_edges(g, source, relation, upto).len() ==> {
                let e = #[trigger] live_edges(g, source, relation, upto)[k];
                &&& 0 <= e.address < upto
                &&& leaves(g, e.address as int, source, relation)
                &&& e == edge_at(g, e.address as int)
            },
        forall|j: int|
            0 <= j < upto && leaves(g, j, source, relation) ==> has_address(
                live_edges(g, source, relation, upto),
                j,
            ),
    decreases upto,
{
    if upto > 0 {
        lemma_live_edges(g, source, relation, upto - 1);
        let earlier = live_edges(g, source, relation, upto - 1);
        let now = live_edges(g, source, relation, upto);
        assert forall|j: int| 0 <= j < upto && leaves(g, j, source, relation) implies has_address(
            now,
            j,
        ) by {
            if j < upto - 1 {
                assert(has_address(earlier, j));
                let k = choose|k: int| 0 <= k < earlier.len() && earlier[k].address == j;
                assert(now[k].address == j);
            } else {
                assert(now[now.len() - 1].address == j);
            }
        }
    }
}

/// After an action is appended, the tombstoned addresses are those that
/// were tombstoned before, and the one that the action names if it is a tombstone.
pub proof fn lemma_tombstones_after_push(g: Journal, a: ActionView, edge: int)
    ensures
        is_tombstoned(g.push(a), edge) <==> is_tombstoned(g, edge) || a == (ActionView::Unlink {
            edge,
        }),
{
    let g2 = g.push(a);
    let t = ActionView::Unlink { edge };
    if is_tombstoned(g, edge) {
        let j = choose|j: int| 0 <= j < g.len() && j < g.len() && g[j] == t;
        assert(0 <= j < g2.len() && j < g2.len() && g2[j] == t);
    }
    if a == t {
        assert(0 <= g.len() < g2.len() && g2[g.len() as int] == t);
    }
    if is_tombstoned(g2, edge) {
        let j = choose|j: int| 0 <= j < g2.len() && j < g2.len() && g2[j] == t;
        if j < g.len() {
            assert(g[j] == t);
            assert(is_tombstoned_by(g, edge, g.len() as int));
        }
    }
}

/// Appending an index root or a record changes no listing of edges.
pub proof fn lemma_push_node(g: Journal, a: ActionView, source: int, relation: LinkTypes)
    requires
        a is Anchor || a is Publish,
    ensures
        edges_from(g.push(a), source, relation) == edges_from(g, source, relation),
{
    lemma_push_keeps(g, a, source, relation, g.len() as int);
}

/// In a well-formed journal every edge joins two earlier nodes.
pub proof fn lemma_edges_point_back(g: Journal, e: int)
    requires
        well_formed(g),
        0 <= e < g.len(),
        g[e] is Link,
    ensures
        0 <= g[e]->source < e,
        0 <= g[e]->target < e,
{
    assert(admissible(g.take(e), g[e]));
}

/// In a well-formed journal no tombstone names an address at or beyond the end.
pub proof fn lemma_tombstones_name_earlier(g: Journal, edge: int)
    requires
        well_formed(g),
        is_tombstoned(g, edge),
    ensures
        0 <= edge < g.len(),
        g[edge] is Link,
{
    let t = ActionView::Unlink { edge };
    let j = choose|j: int| 0 <= j < g.len() && j < g.len() && g[j] == t;
    assert(admissible(g.take(j), g[j]));
}

/// Appending an edge adds it to the listing of its source and relation, at
/// the end, and changes no other listing.
pub proof fn lemma_push_link(g: Journal, a: ActionView, source: int, relation: LinkTypes)
    requires
        well_formed(g),
        a is Link,
    ensures
        edges_from(g.push(a), source, relation) == if a->source == source && a->relation
            == relation {
            edges_from(g, source, relation).push(edge_at(g.push(a), g.len() as int))
        } else {
            edges_from(g, source, relation)
        },
{
    lemma_push_keeps(g, a, source, relation, g.len() as int);
    lemma_tombstones_after_push(g, a, g.len() as int);
    if is_tombstoned(g, g.len() as int) {
        lemma_tombstones_name_earlier(g, g.len() as int);
    }
}

/// Appending a tombstone takes the edge it names out of every listing and
/// changes nothing else.
pub proof fn lemma_push_unlink(g: Journal, edge: int, source: int, relation: LinkTypes)
    ensures
        edges_from(g.push(ActionView::Unlink { edge }), source, relation) == without(
            edges_from(g, source, relation),
            edge,
        ),
{
    lemma_push_drops(g, edge, source, relation, g.len() as int);
}

proof fn lemma_push_drops(g: Journal, edge: int, source: int, relation: LinkTypes, upto: int)
    requires
        0 <= upto <= g.len(),
    ensures
        live_edges(g.push(ActionView::Unlink { edge }), source, relation, upto) == without(
            live_edges(g, source, relation, upto),
            edge,
        ),
    decreases upto,
{
    let a = ActionView::Unlink { edge };
    if upto > 0 {
        lemma_push_drops(g, edge, source, relation, upto - 1);
        lemma_tombstones_after_push(g, a, upto - 1);
        let earlier = live_edges(g, source, relation, upto - 1);
        if leaves(g, upto - 1, source, relation) {
            let e = edge_at(g, upto - 1);
            assert(earlier.push(e).drop_last() =~= earlier);
        }
    }
}

/// Where the index root of a path stands after an action is appended: where
/// it stood, or at the appended action if that is the first root of the path.
pub proof fn lemma_anchor_after_push(g: Journal, a: ActionView, path: Seq<char>)
    ensures
        anchor_index(g.push(a), path) == if anchor_index(g, path) < g.len() {
            anchor_index(g, path)
        } else if a == (ActionView::Anchor { path }) {
            g.len() as int
        } else {
            g.len() as int + 1
        },
{
    let g2 = g.push(a);
    lemma_anchor_index(g, path);
    let at = anchor_index(g, path);
    if at < g.len() {
        lemma_anchor_index_is(g2, path, at);
    } else if a == (ActionView::Anchor { path }) {
        lemma_anchor_index_is(g2, path, g.len() as int);
    } else {
        lemma_anchor_index_is(g2, path, g.len() as int + 1);
    }
}

/// In a well-formed journal no edge leaves an address at or beyond the end.
pub proof fn lemma_no_edges_from_beyond(g: Journal, source: int, relation: LinkTypes, upto: int)
    requires
        well_formed(g),
        source >= g.len(),
        upto <= g.len(),
    ensures
        live_edges(g, source, relation, upto) == Seq::<EdgeView>::empty(),
    decreases upto,
{
    if upto > 0 {
        lemma_no_edges_from_beyond(g, source, relation, upto - 1);
        if g[upto - 1] is Link {
            assert(admissible(g.take(upto - 1), g[upto - 1]));
        }
    }
}

/// Asking for the index root of a path a second time gives the address that
/// the first time gave, and changes nothing.
pub proof fn lemma_ensure_is_idempotent(g: Journal, path: Seq<char>)
    ensures
        anchor_index(ensured(g, path), path) == anchor_index(g, path),
        ensured(ensured(g, path), path) == ensured(g, path),
{
    lemma_anchor_index(g, path);
    if anchor_index(g, path) == g.len() {
        lemma_anchor_index_is(g.push(ActionView::Anchor { path }), path, g.len() as int);
    }
}

/// Once an edge has been removed, no listing shows it, every other edge is
/// listed as before, and removing it again changes nothing.
pub proof fn lemma_unlink_converges(g: Journal, edge: int, source: int, relation: LinkTypes)
    ensures
        edges_from(unlinked(g, edge), source, relation) == without(
            edges_from(g, source, relation),
            edge,
        ),
        !has_address(edges_from(unlinked(g, edge), source, relation), edge),
        unlinked(unlinked(g, edge), edge) == unlinked(g, edge),
{
    let listed = edges_from(g, source, relation);
    lemma_live_edges(g, source, relation, g.len() as int);
    lemma_without(listed, edge);
    if is_live_edge(g, edge) {
        lemma_push_unlink(g, edge, source, relation);
        lemma_tombstones_after_push(g, ActionView::Unlink { edge }, edge);
    } else {
        if has_address(listed, edge) {
            let k = choose|k: int| 0 <= k < listed.len() && listed[k].address == edge;
            assert(leaves(g, listed[k].address as int, source, relation));
        }
    }
}

/// Removing two edges shows the same listings whichever is removed first.
pub proof fn lemma_unlinks_commute(g: Journal, a: int, b: int, source: int, relation: LinkTypes)
    ensures
        edges_from(unlinked(unlinked(g, a), b), source, relation) == edges_from(
            unlinked(unlinked(g, b), a),
            source,
            relation,
        ),
{
    let listed = edges_from(g, source, relation);
    lemma_unlink_converges(g, a, source, relation);
    lemma_unlink_converges(unlinked(g, a), b, source, relation);
    lemma_unlink_converges(g, b, source, relation);
    lemma_unlink_converges(unlinked(g, b), a, source, relation);
    lemma_without_commutes(listed, a, b);
}

/// Dropping two addresses from a listing gives the same whichever is dropped first.
pub proof fn lemma_without_commutes(edges: Seq<EdgeView>, a: int, b: int)
    ensures
        without(without(edges, a), b) == without(without(edges, b), a),
    decreases edges.len(),
{
    if edges.len() > 0 {
        let front = edges.drop_last();
        let last = edges.last();
        lemma_without_commutes(front, a, b);
        if last.address != a {
            assert(without(front, a).push(last).drop_last() =~= without(front, a));
        }
        if last.address != b {
            assert(without(front, b).push(last).drop_last() =~= without(front, b));
        }
    }
}

/// Every edge that `without` keeps is an edge of the listing with another
/// address, and every such edge is kept.
pub proof fn lemma_without_keeps(edges: Seq<EdgeView>, address: int)
    ensures
        forall|k: int|
            0 <= k < without(edges, address).len() ==> {
                let e = #[trigger] without(edges, address)[k];
                e.address != address && edges.contains(e)
            },
        forall|k: int|
            0 <= k < edges.len() && edges[k].address != address ==> without(
                edges,
                address,
            ).contains(#[trigger] edges[k]),
    decreases edges.len(),
{
    let out = without(edges, address);
    if edges.len() > 0 {
        let front = edges.drop_last();
        let last = edges.last();
        let earlier = without(front, address);
        lemma_without_keeps(front, address);
        assert forall|k: int| 0 <= k < out.len() implies {
            let e = #[trigger] out[k];
            e.address != address && edges.contains(e)
        } by {
            if k < earlier.len() {
                let e = earlier[k];
                assert(front.contains(e));
                let m = choose|m: int| 0 <= m < front.len() && front[m] == e;
                assert(edges[m] == e);
            } else {
                assert(edges[edges.len() - 1] == last);
            }
        }
        assert forall|k: int| 0 <= k < edges.len() && edges[k].address != address implies out.contains(
            #[trigger] edges[k],
        ) by {
            if k < front.len() {
                assert(front[k] == edges[k]);
                assert(earlier.contains(front[k]));
                let m = choose|m: int| 0 <= m < earlier.len() && earlier[m] == front[k];
                assert(out[m] == edges[k]);
            } else {
                assert(out[out.len() - 1] == edges[k]);
            }
        }
    }
}

/// `without` leaves no edge with the address; where no edge has the address
/// it drops nothing.
pub proof fn lemma_without(edges: Seq<EdgeView>, address: int)
    ensures
        !has_address(without(edges, address), address),
        !has_address(edges, address) ==> without(edges, address) == edges,
    decreases edges.len(),
{
    let out = without(edges, address);
    if edges.len() == 0 {
    } else {
        let front = edges.drop_last();
        let last = edges.last();
        lemma_without(front, address);
        let earlier = without(front, address);
        if has_address(out, address) {
            let k = choose|k: int| 0 <= k < out.len() && out[k].address == address;
            if k < earlier.len() {
                assert(earlier[k].address == address);
            }
        }
        if !has_address(edges, address) {
            if has_address(front, address) {
                let k = choose|k: int| 0 <= k < front.len() && front[k].address == address;
                assert(edges[k].address == address);
            }
            assert(edges[edges.len() - 1].address != address);
            assert(earlier.push(last) =~= edges);
        }
    }
}

proof fn lemma_push_keeps(g: Journal, a: ActionView, source: int, relation: LinkTypes, upto: int)
    requires
        !(a is Unlink),
        0 <= upto <= g.len(),
    ensures
        live_edges(g.push(a), source, relation, upto) == live_edges(g, source, relation, upto),
    decreases upto,
{
    if upto > 0 {
        lemma_push_keeps(g, a, source, relation, upto - 1);
        lemma_tombstones_after_push(g, a, upto - 1);
    }
}

} // verus!
