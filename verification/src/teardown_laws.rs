//! What holds of taking a cart down: a cart is superseded once and no more,
//! in every state that the operations on carts lead to.

use vstd::prelude::*;
use crate::cart::{
    cart_entry_of, clones_path, filed, filed_at, handle_of, new_cart, owner_path, CartError,
};
use crate::cart_laws::{
    after_step, after_steps, all_open_free, at_most_one_active, filing_edge, is_active_on,
    lemma_at_most_one_active, lemma_filed, lemma_filed_index, lemma_paths_differ,
    lemma_steps_well_formed, one_edge_each, Step,
};
use crate::graph::{
    anchor_index, edge_at, edges_from, is_live_edge, is_node, lemma_anchor_index,
    lemma_well_formed_push, record_at, unlinked, well_formed, ActionView, EdgeView, Journal,
};
use crate::graph_laws::{
    has_address, lemma_anchor_after_push, lemma_edges_point_back, lemma_live_edges,
    lemma_push_link, lemma_push_node, lemma_push_unlink, lemma_tombstones_after_push,
    lemma_unlink_converges, lemma_without, lemma_without_keeps, without,
};
use crate::integrity::{CartStatus, EntryView, LinkTypes};
use crate::label::{label_partition, label_parts};
use crate::listing::{
    indexed, lemma_found_cart, lemma_found_handle, search_cart, search_handle,
};
use crate::platform::hash_text;
use crate::teardown::{cart_deleted, next_journal, superseded};

verus! {

/// Every record that is filed under `path` is a cart.
pub open spec fn only_carts_under(g: Journal, path: Seq<char>) -> bool {
    forall|k: int|
        0 <= k < indexed(g, path).len() ==> {
            let found = record_at(g, (#[trigger] indexed(g, path)[k]).target);
            found is None || found->0 is Cart
        }
}

/// Every record that is filed under `path` is a handle.
pub open spec fn only_handles_under(g: Journal, path: Seq<char>) -> bool {
    forall|k: int|
        0 <= k < indexed(g, path).len() ==> {
            let found = record_at(g, (#[trigger] indexed(g, path)[k]).target);
            found is None || found->0 is CloneEntry
        }
}

/// If the record at `at` is a cart, it was opened from `template`.
pub open spec fn is_cart_of(g: Journal, at: int, template: Seq<u8>) -> bool {
    record_at(g, at) matches Some(EntryView::Cart(cart)) ==> cart.original_dna_hash == template
}

/// Every cart on record was opened from `template`.
pub open spec fn carts_are_of(g: Journal, template: Seq<u8>) -> bool {
    forall|at: int| #[trigger] is_cart_of(g, at, template)
}

/// Handles, and nothing else, are filed under the root of all handles;
/// under every other root, carts and nothing else.
pub open spec fn filed_by_kind(g: Journal) -> bool {
    &&& only_handles_under(g, clones_path())
    &&& forall|path: Seq<char>| path != clones_path() ==> #[trigger] only_carts_under(g, path)
}

/// What is filed under `path` is of the kind that belongs there.
pub open spec fn is_of_kind(g: Journal, path: Seq<char>) -> bool {
    if path == clones_path() {
        only_handles_under(g, path)
    } else {
        only_carts_under(g, path)
    }
}

/// In a well-formed journal what is filed under a root stands before the
/// journal's end.
pub proof fn lemma_indexed_targets(g: Journal, path: Seq<char>)
    requires
        well_formed(g),
    ensures
        forall|k: int|
            0 <= k < indexed(g, path).len() ==> 0 <= (#[trigger] indexed(g, path)[k]).target
                < g.len(),
{
    lemma_anchor_index(g, path);
    lemma_live_edges(g, anchor_index(g, path), LinkTypes::CartToDocument, g.len() as int);
    assert forall|k: int| 0 <= k < indexed(g, path).len() implies 0 <= (#[trigger] indexed(
        g,
        path,
    )[k]).target < g.len() by {
        lemma_edges_point_back(g, indexed(g, path)[k].address);
    }
}

/// Filing a handle under the root of handles, or a cart under another root,
/// keeps what is filed under `other` to its kind.
pub proof fn lemma_filed_kind(g: Journal, path: Seq<char>, entry: EntryView, other: Seq<char>)
    requires
        well_formed(g),
        is_of_kind(g, other),
        if path == clones_path() {
            entry is CloneEntry
        } else {
            entry is Cart
        },
    ensures
        is_of_kind(filed(g, path, entry), other),
{
    let after = filed(g, path, entry);
    lemma_filed(g, path, entry);
    lemma_filed_index(g, path, entry, other);
    lemma_indexed_targets(g, other);
    let before = indexed(g, other);
    let now = indexed(after, other);
    assert forall|k: int| 0 <= k < now.len() implies {
        let found = record_at(after, (#[trigger] now[k]).target);
        if other == clones_path() {
            found is None || found->0 is CloneEntry
        } else {
            found is None || found->0 is Cart
        }
    } by {
        if k < before.len() {
            assert(now[k] == before[k]);
            assert(record_at(after, before[k].target) == record_at(g, before[k].target));
        } else {
            assert(now[k] == filing_edge(g, path));
        }
    }
}

/// Filing a handle under the root of handles, or a cart under another root,
/// keeps every root to its kind.
pub proof fn lemma_filed_by_kind(g: Journal, path: Seq<char>, entry: EntryView)
    requires
        well_formed(g),
        filed_by_kind(g),
        if path == clones_path() {
            entry is CloneEntry
        } else {
            entry is Cart
        },
    ensures
        filed_by_kind(filed(g, path, entry)),
{
    let after = filed(g, path, entry);
    lemma_filed_kind(g, path, entry, clones_path());
    assert forall|other: Seq<char>| other != clones_path() implies #[trigger] only_carts_under(
        after,
        other,
    ) by {
        assert(only_carts_under(g, other));
        lemma_filed_kind(g, path, entry, other);
    }
}

/// Removing an edge keeps what is filed under `other` to its kind.
pub proof fn lemma_unlinked_kind(g: Journal, edge: int, other: Seq<char>)
    requires
        well_formed(g),
        is_of_kind(g, other),
    ensures
        is_of_kind(unlinked(g, edge), other),
{
    let after = unlinked(g, edge);
    if after != g {
        let removed = ActionView::Unlink { edge };
        let before = indexed(g, other);
        let now = indexed(after, other);
        lemma_anchor_index(g, other);
        lemma_anchor_after_push(g, removed, other);
        lemma_indexed_targets(g, other);
        if anchor_index(g, other) < g.len() {
            lemma_unlink_converges(g, edge, anchor_index(g, other), LinkTypes::CartToDocument);
            lemma_without_keeps(before, edge);
        }
        assert forall|k: int| 0 <= k < now.len() implies {
            let found = record_at(after, (#[trigger] now[k]).target);
            if other == clones_path() {
                found is None || found->0 is CloneEntry
            } else {
                found is None || found->0 is Cart
            }
        } by {
            let e = now[k];
            assert(before.contains(e));
            let m = choose|m: int| 0 <= m < before.len() && before[m] == e;
            assert(record_at(after, before[m].target) == record_at(g, before[m].target));
        }
    }
}

/// Removing an edge keeps every root to its kind.
pub proof fn lemma_unlinked_by_kind(g: Journal, edge: int)
    requires
        well_formed(g),
        filed_by_kind(g),
    ensures
        filed_by_kind(unlinked(g, edge)),
{
    let after = unlinked(g, edge);
    lemma_unlinked_kind(g, edge, clones_path());
    assert forall|other: Seq<char>| other != clones_path() implies #[trigger] only_carts_under(
        after,
        other,
    ) by {
        assert(only_carts_under(g, other));
        lemma_unlinked_kind(g, edge, other);
    }
}

/// Superseding a cart keeps what is filed under `other` to its kind.
pub proof fn lemma_deleted_kind(g: Journal, owner: Seq<u8>, label: Seq<char>, other: Seq<char>)
    requires
        well_formed(g),
        is_of_kind(g, other),
    ensures
        is_of_kind(cart_deleted(g, owner, label).0, other),
{
    let after = cart_deleted(g, owner, label).0;
    if after != g {
        let path = owner_path(owner);
        let (partition, created_at) = label_parts(label)->0;
        let carts = indexed(g, path);
        let c = search_cart(g, carts, partition, created_at, true, 0)->Found_0;
        lemma_found_cart(g, carts, partition, created_at, true, 0);
        lemma_paths_differ(owner);
        let added = EdgeView {
            address: g.len() as int + 1,
            source: anchor_index(g, path),
            target: g.len() as int,
            relation: LinkTypes::CartToDocument,
            tag: Seq::empty(),
        };
        lemma_superseded_index(g, path, c, other);
        lemma_indexed_targets(g, other);
        let before = indexed(g, other);
        let now = indexed(after, other);
        if other == path {
            lemma_without_keeps(carts.push(added), carts[c].address);
        }
        assert forall|k: int| 0 <= k < now.len() implies {
            let found = record_at(after, (#[trigger] now[k]).target);
            if other == clones_path() {
                found is None || found->0 is CloneEntry
            } else {
                found is None || found->0 is Cart
            }
        } by {
            let e = now[k];
            if other == path {
                assert(carts.push(added).contains(e));
                let m = choose|m: int|
                    0 <= m < carts.push(added).len() && carts.push(added)[m] == e;
                if m < carts.len() {
                    assert(e == before[m]);
                    assert(record_at(after, before[m].target) == record_at(g, before[m].target));
                }
            } else {
                assert(e == before[k]);
                assert(record_at(after, before[k].target) == record_at(g, before[k].target));
            }
        }
    }
}

/// Superseding a cart keeps every root to its kind.
pub proof fn lemma_deleted_by_kind(g: Journal, owner: Seq<u8>, label: Seq<char>)
    requires
        well_formed(g),
        filed_by_kind(g),
    ensures
        filed_by_kind(cart_deleted(g, owner, label).0),
{
    let after = cart_deleted(g, owner, label).0;
    lemma_deleted_kind(g, owner, label, clones_path());
    assert forall|other: Seq<char>| other != clones_path() implies #[trigger] only_carts_under(
        after,
        other,
    ) by {
        assert(only_carts_under(g, other));
        lemma_deleted_kind(g, owner, label, other);
    }
}

/// One operation keeps every root to its kind.
pub proof fn lemma_step_by_kind(g: Journal, step: Step)
    requires
        well_formed(g),
        filed_by_kind(g),
    ensures
        filed_by_kind(after_step(g, step)),
{
    match step {
        Step::Provision { template, document, created_at, answer } => {
            if let Some(cloned) = answer {
                lemma_filed_by_kind(
                    g,
                    clones_path(),
                    EntryView::CloneEntry(handle_of(template, document, created_at, cloned)),
                );
            }
        },
        Step::Enter { template, owner, document, provisioned_at, created_at } => {
            lemma_paths_differ(owner);
            lemma_filed_by_kind(
                g,
                owner_path(owner),
                EntryView::Cart(
                    cart_entry_of(g, template, owner, document, provisioned_at, created_at),
                ),
            );
        },
        Step::Create { template, document, owner, created_at, answer } => {
            if let Some(cloned) = answer {
                let handle = EntryView::CloneEntry(
                    handle_of(template, document, created_at, cloned),
                );
                lemma_filed_by_kind(g, clones_path(), handle);
                lemma_filed(g, clones_path(), handle);
                lemma_paths_differ(owner);
                lemma_filed_by_kind(
                    filed(g, clones_path(), handle),
                    owner_path(owner),
                    EntryView::Cart(
                        new_cart(template, cloned.cell_id.dna_hash, document, owner, created_at),
                    ),
                );
            }
        },
        Step::Delete { owner, label } => {
            lemma_deleted_by_kind(g, owner, label);
        },
        Step::Reply { teardown, reply } => {
            if next_journal(g, teardown, reply) != g {
                lemma_unlinked_by_kind(g, teardown->Deleting_handle_edge);
            }
        },
    }
}

/// The operation opens carts from `template` only.
pub open spec fn is_of(step: Step, template: Seq<u8>) -> bool {
    match step {
        Step::Provision { template: from, .. } => from == template,
        Step::Enter { template: from, .. } => from == template,
        Step::Create { template: from, .. } => from == template,
        _ => true,
    }
}

/// Every operation of `steps` opens carts from `template` only.
pub open spec fn all_of(steps: Seq<Step>, template: Seq<u8>) -> bool {
    forall|k: int| 0 <= k < steps.len() ==> is_of(#[trigger] steps[k], template)
}

/// One operation on carts of one template leaves all carts of that template.
pub proof fn lemma_step_of_template(g: Journal, step: Step, template: Seq<u8>)
    requires
        well_formed(g),
        carts_are_of(g, template),
        is_of(step, template),
    ensures
        carts_are_of(after_step(g, step), template),
{
    let after = after_step(g, step);
    match step {
        Step::Provision { template: from, document, created_at, answer } => {
            if let Some(cloned) = answer {
                let handle = EntryView::CloneEntry(handle_of(from, document, created_at, cloned));
                lemma_filed_records(g, clones_path(), handle);
                assert forall|at: int| #[trigger] is_cart_of(after, at, template) by {
                    assert(is_cart_of(g, at, template));
                }
            }
        },
        Step::Enter { template: from, owner, document, provisioned_at, created_at } => {
            let cart = EntryView::Cart(
                cart_entry_of(g, from, owner, document, provisioned_at, created_at),
            );
            lemma_filed_records(g, owner_path(owner), cart);
            assert forall|at: int| #[trigger] is_cart_of(after, at, template) by {
                assert(is_cart_of(g, at, template));
            }
        },
        Step::Create { template: from, document, owner, created_at, answer } => {
            if let Some(cloned) = answer {
                let handle = EntryView::CloneEntry(handle_of(from, document, created_at, cloned));
                let cart = EntryView::Cart(
                    new_cart(from, cloned.cell_id.dna_hash, document, owner, created_at),
                );
                lemma_filed(g, clones_path(), handle);
                lemma_filed_records(g, clones_path(), handle);
                let g1 = filed(g, clones_path(), handle);
                lemma_filed_records(g1, owner_path(owner), cart);
                assert forall|at: int| #[trigger] is_cart_of(after, at, template) by {
                    assert(is_cart_of(g, at, template));
                    assert(record_at(g1, at) == if at == filed_at(g, clones_path()) {
                        Some(handle)
                    } else {
                        record_at(g, at)
                    });
                }
            }
        },
        Step::Delete { owner, label } => {
            if after != g {
                let path = owner_path(owner);
                let (partition, created_at) = label_parts(label)->0;
                let carts = indexed(g, path);
                let c = search_cart(g, carts, partition, created_at, true, 0)->Found_0;
                lemma_found_cart(g, carts, partition, created_at, true, 0);
                lemma_superseded_index(g, path, c, path);
                assert(is_cart_of(g, carts[c].target, template));
                assert forall|at: int| #[trigger] is_cart_of(after, at, template) by {
                    assert(is_cart_of(g, at, template));
                    if 0 <= at < g.len() {
                        assert(record_at(after, at) == record_at(g, at));
                    }
                }
            }
        },
        Step::Reply { teardown, reply } => {
            if after != g {
                assert forall|at: int| #[trigger] is_cart_of(after, at, template) by {
                    assert(is_cart_of(g, at, template));
                    if 0 <= at < g.len() {
                        assert(record_at(after, at) == record_at(g, at));
                    }
                }
            }
        },
    }
}

/// Filing a record adds that record and no other.
pub proof fn lemma_filed_records(g: Journal, path: Seq<char>, entry: EntryView)
    requires
        well_formed(g),
    ensures
        forall|at: int| #[trigger]
            record_at(filed(g, path, entry), at) == if at == filed_at(g, path) {
                Some(entry)
            } else {
                record_at(g, at)
            },
{
    let after = filed(g, path, entry);
    lemma_filed(g, path, entry);
    lemma_filed_index(g, path, entry, path);
    lemma_anchor_index(g, path);
    assert forall|at: int| #[trigger]
        record_at(after, at) == if at == filed_at(g, path) {
            Some(entry)
        } else {
            record_at(g, at)
        } by {
        if 0 <= at < g.len() {
            assert(record_at(after, at) == record_at(g, at));
        }
    }
}

/// After any sequence of operations handles, and nothing else, are filed
/// under the root of all handles, and carts under every other root; where
/// all operations open carts from one template, all carts on record are of it.
pub proof fn lemma_steps_keep_kinds(steps: Seq<Step>, template: Seq<u8>)
    ensures
        filed_by_kind(after_steps(steps)),
        all_of(steps, template) ==> carts_are_of(after_steps(steps), template),
    decreases steps.len(),
{
    if steps.len() > 0 {
        let earlier = steps.drop_last();
        let g = after_steps(earlier);
        lemma_steps_keep_kinds(earlier, template);
        lemma_steps_well_formed(earlier);
        lemma_step_by_kind(g, steps.last());
        if all_of(steps, template) {
            assert forall|k: int| 0 <= k < earlier.len() implies is_of(
                #[trigger] earlier[k],
                template,
            ) by {
                assert(earlier[k] == steps[k]);
            }
            assert(is_of(steps[steps.len() - 1], template));
            lemma_step_of_template(g, steps.last(), template);
        }
    } else {
        let g = after_steps(steps);
        assert(indexed(g, clones_path()) =~= Seq::<EdgeView>::empty());
        assert forall|path: Seq<char>| path != clones_path() implies #[trigger] only_carts_under(
            g,
            path,
        ) by {
            assert(indexed(g, path) =~= Seq::<EdgeView>::empty());
        }
    }
}

/// In every state that the operations on carts lead to, a cart is taken
/// down once: after a cart on a partition of its own has been superseded,
/// taking down the cart that the same label names writes nothing and fails
/// with `NotFound`.
///
/// The operations are those of one template, and each opens its cart on a
/// partition that backs no active cart.
pub proof fn lemma_second_attempt_finds_nothing(
    steps: Seq<Step>,
    template: Seq<u8>,
    owner: Seq<u8>,
    label: Seq<char>,
)
    requires
        all_open_free(steps),
        all_of(steps, template),
    ensures
        ({
            let g = after_steps(steps);
            let first = cart_deleted(g, owner, label);
            let second = cart_deleted(first.0, owner, label);
            first.0 != g && label_partition(label) != hash_text(template) ==> {
                &&& second.0 == first.0
                &&& second.1 matches Err(e)
                &&& e == CartError::NotFound
            }
        }),
{
    let g = after_steps(steps);
    lemma_at_most_one_active(steps);
    lemma_steps_keep_kinds(steps, template);
    lemma_superseded_once(g, template, owner, label);
    assert(only_carts_under(g, owner_path(owner))) by {
        lemma_paths_differ(owner);
    }
}

/// A search for a handle goes by the edges and by the records that they
/// lead to, and by nothing else of the journal.
pub proof fn lemma_search_handle_by_records(
    g: Journal,
    after: Journal,
    edges: Seq<EdgeView>,
    partition: Seq<char>,
    created_at: Seq<char>,
    from: int,
)
    requires
        0 <= from,
        forall|k: int|
            0 <= k < edges.len() ==> record_at(after, #[trigger] edges[k].target) == record_at(
                g,
                edges[k].target,
            ),
    ensures
        search_handle(after, edges, partition, created_at, from) == search_handle(
            g,
            edges,
            partition,
            created_at,
            from,
        ),
    decreases edges.len() - from,
{
    if from < edges.len() {
        lemma_search_handle_by_records(g, after, edges, partition, created_at, from + 1);
    }
}

/// A search for a cart through edges that lead to carts only, or to
/// nothing, is not stopped by a record of another kind.
pub proof fn lemma_search_cart_readable(
    g: Journal,
    edges: Seq<EdgeView>,
    partition: Seq<char>,
    created_at: Seq<char>,
    active: bool,
    from: int,
)
    requires
        0 <= from,
        forall|k: int|
            0 <= k < edges.len() ==> {
                let found = record_at(g, (#[trigger] edges[k]).target);
                found is None || found->0 is Cart
            },
    ensures
        !(search_cart(g, edges, partition, created_at, active, from) is Unreadable),
    decreases edges.len() - from,
{
    if from < edges.len() {
        let found = record_at(g, edges[from].target);
        assert(found is None || found->0 is Cart);
        lemma_search_cart_readable(g, edges, partition, created_at, active, from + 1);
    }
}

/// What superseding the cart behind `edge` does to the index: under the
/// owner's root the edge is gone and the edge to the new version stands at
/// the end; under every other root nothing has changed; every earlier record
/// is as it was, and the new version is not active.
pub proof fn lemma_superseded_index(g: Journal, path: Seq<char>, k: int, other: Seq<char>)
    requires
        well_formed(g),
        0 <= k < indexed(g, path).len(),
        record_at(g, indexed(g, path)[k].target) matches Some(EntryView::Cart(_)),
    ensures
        ({
            let listed = indexed(g, path);
            let cart = record_at(g, listed[k].target)->0->Cart_0;
            let after = superseded(g, anchor_index(g, path), listed[k].address, cart);
            let added = EdgeView {
                address: g.len() as int + 1,
                source: anchor_index(g, path),
                target: g.len() as int,
                relation: LinkTypes::CartToDocument,
                tag: Seq::empty(),
            };
            &&& well_formed(after)
            &&& indexed(after, path) == without(listed.push(added), listed[k].address)
            &&& other != path ==> indexed(after, other) == indexed(g, other)
            &&& forall|at: int| 0 <= at < g.len() ==> record_at(after, at) == record_at(g, at)
            &&& record_at(after, g.len() as int) == Some(
                EntryView::Cart(cart.with_status(CartStatus::Processed)),
            )
        }),
{
    let relation = LinkTypes::CartToDocument;
    let listed = indexed(g, path);
    let root = anchor_index(g, path);
    let edge = listed[k].address;
    let cart = record_at(g, listed[k].target)->0->Cart_0;
    let published = ActionView::Publish {
        entry: EntryView::Cart(cart.with_status(CartStatus::Processed)),
    };
    let linked = ActionView::Link { source: root, target: g.len() as int, relation, tag: Seq::empty() };
    let removed = ActionView::Unlink { edge };
    let g1 = g.push(published);
    let g2 = g1.push(linked);
    let after = g2.push(removed);
    lemma_anchor_index(g, path);
    lemma_live_edges(g, root, relation, g.len() as int);
    lemma_well_formed_push(g, published);
    assert(is_node(g1, root));
    assert(is_node(g1, g.len() as int));
    lemma_well_formed_push(g1, linked);
    lemma_tombstones_after_push(g, published, edge);
    lemma_tombstones_after_push(g1, linked, edge);
    assert(is_live_edge(g2, edge));
    lemma_well_formed_push(g2, removed);
    assert(after == superseded(g, root, edge, cart));

    lemma_anchor_after_push(g, published, path);
    lemma_anchor_after_push(g1, linked, path);
    lemma_anchor_after_push(g2, removed, path);
    lemma_push_node(g, published, root, relation);
    lemma_push_link(g1, linked, root, relation);
    lemma_push_unlink(g2, edge, root, relation);
    assert(edge_at(g2, g1.len() as int) == (EdgeView {
        address: g.len() as int + 1,
        source: root,
        target: g.len() as int,
        relation,
        tag: Seq::empty(),
    }));

    if other != path {
        lemma_anchor_index(g, other);
        lemma_anchor_after_push(g, published, other);
        lemma_anchor_after_push(g1, linked, other);
        lemma_anchor_after_push(g2, removed, other);
        let from = anchor_index(g, other);
        if from < g.len() {
            assert(from != root) by {
                if from == root {
                    assert(g[from] == (ActionView::Anchor { path }));
                    assert(g[from] == (ActionView::Anchor { path: other }));
                }
            }
            let elsewhere = edges_from(g, from, relation);
            lemma_live_edges(g, from, relation, g.len() as int);
            lemma_push_node(g, published, from, relation);
            lemma_push_link(g1, linked, from, relation);
            lemma_push_unlink(g2, edge, from, relation);
            if has_address(elsewhere, edge) {
                let m = choose|m: int| 0 <= m < elsewhere.len() && elsewhere[m].address == edge;
                assert(elsewhere[m] == edge_at(g, edge));
                assert(listed[k] == edge_at(g, edge));
            }
            lemma_without(elsewhere, edge);
        }
    }
}

/// A cart is superseded once: after a cart has been superseded, taking down
/// the cart that the same label names writes nothing and fails. It fails
/// with `NotFound` where only handles are on file and only carts are filed
/// under the owner.
///
/// This holds of every journal in which all carts come from one template,
/// no partition backs two active carts and every record is filed once, and
/// of every label that names a partition other than the template.
pub proof fn lemma_superseded_once(g: Journal, template: Seq<u8>, owner: Seq<u8>, label: Seq<char>)
    requires
        well_formed(g),
        at_most_one_active(g),
        one_edge_each(g),
        carts_are_of(g, template),
    ensures
        ({
            let first = cart_deleted(g, owner, label);
            let second = cart_deleted(first.0, owner, label);
            first.0 != g && label_partition(label) != hash_text(template) ==> {
                &&& second.0 == first.0
                &&& second.1 matches Err(e)
                &&& e == CartError::NotFound || e == CartError::SerializationError
                &&& only_handles_under(g, clones_path()) && only_carts_under(g, owner_path(owner))
                    ==> e == CartError::NotFound
            }
        }),
{
    let first = cart_deleted(g, owner, label);
    if first.0 != g && label_partition(label) != hash_text(template) {
        let relation = LinkTypes::CartToDocument;
        let path = owner_path(owner);
        let (partition, created_at) = label_parts(label)->0;
        let handles = indexed(g, clones_path());
        let carts = indexed(g, path);
        let c = search_cart(g, carts, partition, created_at, true, 0)->Found_0;
        lemma_found_handle(g, handles, partition, created_at, 0);
        lemma_found_cart(g, carts, partition, created_at, true, 0);
        let root = anchor_index(g, path);
        let edge = carts[c].address;
        let old = carts[c].target;
        let cart = record_at(g, old)->0->Cart_0;
        let after = first.0;
        let added = EdgeView {
            address: g.len() as int + 1,
            source: root,
            target: g.len() as int,
            relation,
            tag: Seq::empty(),
        };
        lemma_paths_differ(owner);
        lemma_superseded_index(g, path, c, clones_path());
        lemma_anchor_index(g, path);
        lemma_anchor_index(g, clones_path());
        lemma_live_edges(g, root, relation, g.len() as int);
        lemma_live_edges(g, anchor_index(g, clones_path()), relation, g.len() as int);
        let left = indexed(after, path);
        assert(left == without(carts.push(added), edge));
        lemma_without_keeps(carts.push(added), edge);

        // Handles are found as before.
        assert forall|k: int| 0 <= k < handles.len() implies record_at(
            after,
            #[trigger] handles[k].target,
        ) == record_at(g, handles[k].target) by {
            lemma_edges_point_back(g, handles[k].address);
        }
        lemma_search_handle_by_records(g, after, handles, partition, created_at, 0);

        // No edge that is left leads to an active cart that answers to the label.
        let again = search_cart(after, left, partition, created_at, true, 0);
        if again is Found {
            lemma_found_cart(after, left, partition, created_at, true, 0);
            let k = again->Found_0;
            let e = left[k];
            assert(e.address != edge && carts.push(added).contains(e));
            let m = choose|m: int| 0 <= m < carts.push(added).len() && carts.push(added)[m] == e;
            if m == carts.len() {
                assert(e == added);
            } else {
                assert(e == carts[m]);
                lemma_edges_point_back(g, e.address);
                assert(record_at(after, e.target) == record_at(g, e.target));
                assert(is_live_edge(g, e.address) && g[e.address]->target == e.target);
                assert(is_live_edge(g, edge) && g[edge]->target == old);
                assert(is_cart_of(g, e.target, template));
                assert(is_cart_of(g, old, template));
                assert(partition == label_partition(label));
                assert(is_active_on(g, e.target, partition));
                assert(is_active_on(g, old, partition));
                assert(e.target == old);
                assert(g[e.address]->target == g[edge]->target);
            }
        }
        if only_carts_under(g, path) {
            assert forall|k: int| 0 <= k < left.len() implies {
                let found = record_at(after, (#[trigger] left[k]).target);
                found is None || found->0 is Cart
            } by {
                let e = left[k];
                assert(carts.push(added).contains(e));
                let m = choose|m: int|
                    0 <= m < carts.push(added).len() && carts.push(added)[m] == e;
                if m < carts.len() {
                    assert(e == carts[m]);
                    lemma_edges_point_back(g, e.address);
                    let found = record_at(g, carts[m].target);
                    assert(found is None || found->0 is Cart);
                }
            }
            lemma_search_cart_readable(after, left, partition, created_at, true, 0);
        }
    }
}

} // verus!
