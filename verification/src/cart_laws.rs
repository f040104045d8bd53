//! What holds of the cart index whatever its history: no partition backs two
//! active carts at once, and the label of a cart leads back to its partition.
//!
//! Partitions are told apart as labels tell them apart: by their display form.
//! A cart that refers to the template has no partition of its own and is not
//! counted among the carts that a partition backs.

use vstd::prelude::*;
use crate::cart::{
    cart_created, cart_entry_of, clones_path, filed, filed_at, handle_of, new_cart, owner_path,
    partition_for, provisioned, CloneCellView, ClonedCellView,
};
use crate::graph::{
    admissible, anchor_index, edge_at, ensured, is_live_edge, is_node, is_tombstoned,
    lemma_anchor_index, lemma_well_formed_push, record_at, well_formed, ActionView,
    EdgeView, Journal,
};
use crate::graph_laws::{
    lemma_anchor_after_push, lemma_edges_point_back, lemma_live_edges,
    lemma_no_edges_from_beyond, lemma_push_link, lemma_push_node, lemma_tombstones_after_push,
    lemma_tombstones_name_earlier,
};
use crate::integrity::{CartCloneInfoView, CartStatus, CartView, EntryView, LinkTypes};
use crate::label::{label_of, label_parts, lemma_label_round_trip};
use crate::listing::{
    cart_answers, cart_clones, cell_for_cart, handles_among, indexed, lemma_found_cart,
    search_cart, Search,
};
use crate::platform::hash_text;
use crate::text::decimal;
use crate::teardown::{cart_deleted, next_journal, superseded, HostReply, TeardownView};

verus! {

/// Some live edge leads to `at`.
pub open spec fn is_indexed(g: Journal, at: int) -> bool {
    exists|e: int| is_live_edge(g, e) && g[e]->target == at
}

/// The cart refers to a partition of its own: to one that is not shown as
/// the template is.
pub open spec fn is_backed(cart: CartView) -> bool {
    hash_text(cart.cart_dna_hash) != hash_text(cart.original_dna_hash)
}

/// The record at `at` is an active cart that some live edge leads to, on a
/// partition of its own that is shown as `shown`.
pub open spec fn is_active_on(g: Journal, at: int, shown: Seq<char>) -> bool {
    &&& record_at(g, at) matches Some(EntryView::Cart(cart))
    &&& cart.status == CartStatus::Active
    &&& is_backed(cart)
    &&& hash_text(cart.cart_dna_hash) == shown
    &&& is_indexed(g, at)
}

/// No partition backs two active carts that the index leads to.
pub open spec fn at_most_one_active(g: Journal) -> bool {
    forall|a: int, b: int, shown: Seq<char>|
        #![trigger is_active_on(g, a, shown), is_active_on(g, b, shown)]
        is_active_on(g, a, shown) && is_active_on(g, b, shown) ==> a == b
}

/// No active cart that the index leads to is on a partition shown as `shown`.
pub open spec fn is_unused(g: Journal, shown: Seq<char>) -> bool {
    forall|at: int| !#[trigger] is_active_on(g, at, shown)
}

/// No two edges lead to the same place: every record is filed once.
pub open spec fn one_edge_each(g: Journal) -> bool {
    forall|e1: int, e2: int|
        #![trigger g[e1], g[e2]]
        0 <= e1 < g.len() && 0 <= e2 < g.len() && g[e1] is Link && g[e2] is Link && g[e1]->target
            == g[e2]->target ==> e1 == e2
}

/// Where no partition backs two active carts, two active carts that the
/// index leads to and that refer to the same partition, not to the
/// template, are one cart.
pub proof fn lemma_one_active_per_partition(g: Journal, a: int, b: int)
    requires
        at_most_one_active(g),
        record_at(g, a) matches Some(EntryView::Cart(first)) && first.status == CartStatus::Active
            && is_backed(first),
        record_at(g, b) matches Some(EntryView::Cart(second)) && second.status
            == CartStatus::Active && is_backed(second),
        is_indexed(g, a),
        is_indexed(g, b),
        record_at(g, a)->0->Cart_0.cart_dna_hash == record_at(g, b)->0->Cart_0.cart_dna_hash,
    ensures
        a == b,
{
    let shown = hash_text(record_at(g, a)->0->Cart_0.cart_dna_hash);
    assert(is_active_on(g, a, shown) && is_active_on(g, b, shown));
}

/// Appending an action that is no edge, or an edge to the record that was
/// published last, leaves every record filed once.
pub proof fn lemma_edges_stay_apart(g: Journal, a: ActionView)
    requires
        well_formed(g),
        one_edge_each(g),
        a is Link ==> a->target == g.len() - 1,
    ensures
        one_edge_each(g.push(a)),
{
    let g2 = g.push(a);
    assert forall|e1: int, e2: int|
        #![trigger g2[e1], g2[e2]]
        0 <= e1 < g2.len() && 0 <= e2 < g2.len() && g2[e1] is Link && g2[e2] is Link
            && g2[e1]->target == g2[e2]->target implies e1 == e2 by {
        if e1 < g.len() && e2 < g.len() {
            assert(g[e1] == g2[e1] && g[e2] == g2[e2]);
        } else if e1 < g.len() {
            lemma_edges_point_back(g, e1);
        } else if e2 < g.len() {
            lemma_edges_point_back(g, e2);
        }
    }
}

/// An appended action makes a record active and indexed only if it is an
/// edge that leads to the record: whatever else is active and indexed
/// afterwards was so before.
pub proof fn lemma_active_after_push(g: Journal, a: ActionView, at: int, shown: Seq<char>)
    requires
        well_formed(g),
        is_active_on(g.push(a), at, shown),
    ensures
        is_active_on(g, at, shown) || (a is Link && a->target == at),
        at < g.len(),
        record_at(g, at) == record_at(g.push(a), at),
{
    let g2 = g.push(a);
    let e = choose|e: int| is_live_edge(g2, e) && g2[e]->target == at;
    if e < g.len() {
        lemma_tombstones_after_push(g, a, e);
        lemma_edges_point_back(g, e);
        assert(is_live_edge(g, e) && g[e]->target == at);
    } else {
        assert(g2[e] == a);
    }
    if at == g.len() {
        if e < g.len() {
            lemma_edges_point_back(g, e);
        }
    }
}

/// Filing a record keeps the journal well formed. The only record that it
/// can make active and indexed is the one that it files.
pub proof fn lemma_filed(g: Journal, path: Seq<char>, entry: EntryView)
    requires
        well_formed(g),
    ensures
        well_formed(filed(g, path, entry)),
        record_at(filed(g, path, entry), filed_at(g, path)) == Some(entry),
        forall|at: int, shown: Seq<char>| #[trigger]
            is_active_on(filed(g, path, entry), at, shown) ==> is_active_on(g, at, shown) || at
                == filed_at(g, path),
        one_edge_each(g) ==> one_edge_each(filed(g, path, entry)),
{
    let rooted = ensured(g, path);
    let root = anchor_index(g, path);
    let at_new = rooted.len() as int;
    let published = ActionView::Publish { entry };
    let linked = ActionView::Link {
        source: root,
        target: at_new,
        relation: LinkTypes::CartToDocument,
        tag: Seq::empty(),
    };
    lemma_anchor_index(g, path);
    if root == g.len() {
        lemma_well_formed_push(g, ActionView::Anchor { path });
    }
    let g2 = rooted.push(published);
    lemma_well_formed_push(rooted, published);
    assert(is_node(g2, root));
    assert(is_node(g2, at_new));
    lemma_well_formed_push(g2, linked);
    let g3 = g2.push(linked);
    assert(g3 == filed(g, path, entry));
    assert forall|at: int, shown: Seq<char>| #[trigger]
        is_active_on(g3, at, shown) implies is_active_on(g, at, shown) || at == at_new by {
        lemma_active_after_push(g2, linked, at, shown);
        if at != at_new {
            lemma_active_after_push(rooted, published, at, shown);
            if root == g.len() {
                lemma_active_after_push(g, ActionView::Anchor { path }, at, shown);
            }
        }
    }
    if one_edge_each(g) {
        if root == g.len() {
            lemma_edges_stay_apart(g, ActionView::Anchor { path });
        }
        lemma_edges_stay_apart(rooted, published);
        lemma_edges_stay_apart(g2, linked);
    }
}

/// The partition backs no active cart, or is shown as the template is and
/// so backs none by definition.
pub open spec fn is_free(g: Journal, template: Seq<u8>, partition: Seq<u8>) -> bool {
    hash_text(partition) != hash_text(template) ==> is_unused(g, hash_text(partition))
}

/// Filing a cart on a partition that backs no active cart keeps the journal
/// well formed and leaves no partition with two active carts.
pub proof fn lemma_cart_filed(g: Journal, cart: CartView)
    requires
        well_formed(g),
    ensures
        well_formed(filed(g, owner_path(cart.owner), EntryView::Cart(cart))),
        at_most_one_active(g) && is_free(g, cart.original_dna_hash, cart.cart_dna_hash)
            ==> at_most_one_active(filed(g, owner_path(cart.owner), EntryView::Cart(cart))),
        one_edge_each(g) ==> one_edge_each(
            filed(g, owner_path(cart.owner), EntryView::Cart(cart)),
        ),
{
    let path = owner_path(cart.owner);
    let after = filed(g, path, EntryView::Cart(cart));
    let at_cart = filed_at(g, path);
    let shown = hash_text(cart.cart_dna_hash);
    lemma_filed(g, path, EntryView::Cart(cart));
    if at_most_one_active(g) && is_free(g, cart.original_dna_hash, cart.cart_dna_hash) {
        assert forall|a: int, b: int, p: Seq<char>|
            #![trigger is_active_on(after, a, p), is_active_on(after, b, p)]
            is_active_on(after, a, p) && is_active_on(after, b, p) implies a == b by {
            if a != b {
                if a == at_cart {
                    assert(is_active_on(g, b, shown));
                } else if b == at_cart {
                    assert(is_active_on(g, a, shown));
                } else {
                    assert(is_active_on(g, a, p) && is_active_on(g, b, p));
                }
            }
        }
    }
}

/// Filing a handle keeps the journal well formed and makes no cart active.
pub proof fn lemma_handle_filed(g: Journal, handle: CartCloneInfoView)
    requires
        well_formed(g),
    ensures
        well_formed(filed(g, clones_path(), EntryView::CloneEntry(handle))),
        forall|at: int, shown: Seq<char>| #[trigger]
            is_active_on(filed(g, clones_path(), EntryView::CloneEntry(handle)), at, shown)
                ==> is_active_on(g, at, shown),
        at_most_one_active(g) ==> at_most_one_active(
            filed(g, clones_path(), EntryView::CloneEntry(handle)),
        ),
        one_edge_each(g) ==> one_edge_each(
            filed(g, clones_path(), EntryView::CloneEntry(handle)),
        ),
{
    let entry = EntryView::CloneEntry(handle);
    let after = filed(g, clones_path(), entry);
    lemma_filed(g, clones_path(), entry);
    assert forall|at: int, shown: Seq<char>| #[trigger]
        is_active_on(after, at, shown) implies is_active_on(g, at, shown) by {
        if at == filed_at(g, clones_path()) {
            assert(record_at(after, at) == Some(entry));
        }
    }
    if at_most_one_active(g) {
        if at_most_one_active(g) {
            assert forall|a: int, b: int, p: Seq<char>|
                #![trigger is_active_on(after, a, p), is_active_on(after, b, p)]
                is_active_on(after, a, p) && is_active_on(after, b, p) implies a == b by {
                assert(is_active_on(g, a, p) && is_active_on(g, b, p));
            }
        }
    }
}

/// Keeping the handle of a partition that the host provisioned keeps the
/// journal well formed and leaves no partition with two active carts.
pub proof fn lemma_provision_keeps_one_active(
    g: Journal,
    template: Seq<u8>,
    document: Seq<u8>,
    created_at: i64,
    answer: Option<ClonedCellView>,
)
    requires
        well_formed(g),
    ensures
        well_formed(provisioned(g, template, document, created_at, answer)),
        at_most_one_active(g) ==> at_most_one_active(
            provisioned(g, template, document, created_at, answer),
        ),
        one_edge_each(g) ==> one_edge_each(
            provisioned(g, template, document, created_at, answer),
        ),
{
    if let Some(cloned) = answer {
        lemma_handle_filed(g, handle_of(template, document, created_at, cloned));
    }
}

/// Publishing the record of a cart whose partition backs no active cart
/// keeps the journal well formed and leaves no partition with two active
/// carts.
pub proof fn lemma_entry_keeps_one_active(
    g: Journal,
    template: Seq<u8>,
    owner: Seq<u8>,
    document: Seq<u8>,
    provisioned_at: i64,
    created_at: i64,
)
    requires
        well_formed(g),
    ensures
        well_formed(cart_entered(g, template, owner, document, provisioned_at, created_at)),
        at_most_one_active(g) && is_free(
            g,
            template,
            partition_for(g, template, owner, document, provisioned_at),
        ) ==> at_most_one_active(
            cart_entered(g, template, owner, document, provisioned_at, created_at),
        ),
        one_edge_each(g) ==> one_edge_each(
            cart_entered(g, template, owner, document, provisioned_at, created_at),
        ),
{
    lemma_cart_filed(g, cart_entry_of(g, template, owner, document, provisioned_at, created_at));
}

/// Opening a cart on a partition that backs no active cart keeps the
/// journal well formed and leaves no partition with two active carts.
pub proof fn lemma_create_keeps_one_active(
    g: Journal,
    template: Seq<u8>,
    document: Seq<u8>,
    owner: Seq<u8>,
    created_at: i64,
    answer: Option<ClonedCellView>,
)
    requires
        well_formed(g),
    ensures
        well_formed(cart_created(g, template, document, owner, created_at, answer)),
        at_most_one_active(g) && (answer matches Some(cloned) ==> is_free(
            g,
            template,
            cloned.cell_id.dna_hash,
        )) ==> at_most_one_active(
            cart_created(g, template, document, owner, created_at, answer),
        ),
        one_edge_each(g) ==> one_edge_each(
            cart_created(g, template, document, owner, created_at, answer),
        ),
{
    if let Some(cloned) = answer {
        let handle = handle_of(template, document, created_at, cloned);
        let cart = new_cart(template, cloned.cell_id.dna_hash, document, owner, created_at);
        let g1 = filed(g, clones_path(), EntryView::CloneEntry(handle));
        lemma_handle_filed(g, handle);
        lemma_cart_filed(g1, cart);
    }
}

/// Starting to take a cart down keeps the journal well formed and leaves no
/// partition with two active carts: the version that supersedes the cart is
/// not active.
pub proof fn lemma_delete_keeps_one_active(g: Journal, owner: Seq<u8>, label: Seq<char>)
    requires
        well_formed(g),
    ensures
        well_formed(cart_deleted(g, owner, label).0),
        at_most_one_active(g) ==> at_most_one_active(cart_deleted(g, owner, label).0),
        one_edge_each(g) ==> one_edge_each(cart_deleted(g, owner, label).0),
{
    let after = cart_deleted(g, owner, label).0;
    if after != g {
        let (partition, created_at) = label_parts(label)->0;
        let handles = indexed(g, clones_path());
        let carts = indexed(g, owner_path(owner));
        let c = search_cart(g, carts, partition, created_at, true, 0)->Found_0;
        lemma_found_cart(g, carts, partition, created_at, true, 0);
        let root = anchor_index(g, owner_path(owner));
        lemma_anchor_index(g, owner_path(owner));
        lemma_live_edges(g, root, LinkTypes::CartToDocument, g.len() as int);
        let edge = carts[c].address;
        let cart = record_at(g, carts[c].target)->0->Cart_0;
        let published = ActionView::Publish {
            entry: EntryView::Cart(cart.with_status(CartStatus::Processed)),
        };
        let linked = ActionView::Link {
            source: root,
            target: g.len() as int,
            relation: LinkTypes::CartToDocument,
            tag: Seq::empty(),
        };
        let g1 = g.push(published);
        let g2 = g1.push(linked);
        lemma_well_formed_push(g, published);
        assert(is_node(g1, root));
        assert(is_node(g1, g.len() as int));
        lemma_well_formed_push(g1, linked);
        lemma_tombstones_after_push(g, published, edge);
        lemma_tombstones_after_push(g1, linked, edge);
        assert(is_live_edge(g2, edge));
        lemma_well_formed_push(g2, ActionView::Unlink { edge });
        assert(after == superseded(g, root, edge, cart));
        if one_edge_each(g) {
            lemma_edges_stay_apart(g, published);
            lemma_edges_stay_apart(g1, linked);
            lemma_edges_stay_apart(g2, ActionView::Unlink { edge });
        }
        assert forall|at: int, p: Seq<char>| #[trigger] is_active_on(after, at, p) implies is_active_on(
            g,
            at,
            p,
        ) by {
            lemma_active_after_push(g2, ActionView::Unlink { edge }, at, p);
            lemma_active_after_push(g1, linked, at, p);
            if at != g.len() {
                lemma_active_after_push(g, published, at, p);
            }
        }
        if at_most_one_active(g) {
            assert forall|a: int, b: int, p: Seq<char>|
                #![trigger is_active_on(after, a, p), is_active_on(after, b, p)]
                is_active_on(after, a, p) && is_active_on(after, b, p) implies a == b by {
                assert(is_active_on(g, a, p) && is_active_on(g, b, p));
            }
        }
    }
}

/// Taking in a reply of the host keeps the journal well formed and leaves no
/// partition with two active carts.
pub proof fn lemma_reply_keeps_one_active(g: Journal, t: TeardownView, reply: HostReply)
    requires
        well_formed(g),
    ensures
        well_formed(next_journal(g, t, reply)),
        at_most_one_active(g) ==> at_most_one_active(next_journal(g, t, reply)),
        one_edge_each(g) ==> one_edge_each(next_journal(g, t, reply)),
{
    let after = next_journal(g, t, reply);
    if after != g {
        let edge = t->Deleting_handle_edge;
        lemma_well_formed_push(g, ActionView::Unlink { edge });
        if one_edge_each(g) {
            lemma_edges_stay_apart(g, ActionView::Unlink { edge });
        }
        assert forall|at: int, p: Seq<char>| #[trigger] is_active_on(after, at, p) implies is_active_on(
            g,
            at,
            p,
        ) by {
            lemma_active_after_push(g, ActionView::Unlink { edge }, at, p);
        }
        if at_most_one_active(g) {
            assert forall|a: int, b: int, p: Seq<char>|
                #![trigger is_active_on(after, a, p), is_active_on(after, b, p)]
                is_active_on(after, a, p) && is_active_on(after, b, p) implies a == b by {
                assert(is_active_on(g, a, p) && is_active_on(g, b, p));
            }
        }
    }
}

/// One operation on the cart index.
pub enum Step {
    /// The host's answer to a provisioning request is taken in.
    Provision { template: Seq<u8>, document: Seq<u8>, created_at: i64, answer: Option<ClonedCellView> },
    /// The record of a cart is published, for the partition that was
    /// provisioned for `owner` with `document` at `provisioned_at`.
    Enter {
        template: Seq<u8>,
        owner: Seq<u8>,
        document: Seq<u8>,
        provisioned_at: i64,
        created_at: i64,
    },
    /// A cart is opened in one go, with the host's answer to the
    /// provisioning request.
    Create {
        template: Seq<u8>,
        document: Seq<u8>,
        owner: Seq<u8>,
        created_at: i64,
        answer: Option<ClonedCellView>,
    },
    /// The cart that a label names starts to be taken down.
    Delete { owner: Seq<u8>, label: Seq<char> },
    /// A teardown takes in a reply of the host.
    Reply { teardown: TeardownView, reply: HostReply },
}

/// The journal after the record of a cart has been published.
pub open spec fn cart_entered(g: Journal, template: Seq<u8>, owner: Seq<u8>, document: Seq<u8>, provisioned_at: i64, created_at: i64) -> Journal {
    filed(
        g,
        owner_path(owner),
        EntryView::Cart(cart_entry_of(g, template, owner, document, provisioned_at, created_at)),
    )
}

/// The journal after one operation.
pub open spec fn after_step(g: Journal, step: Step) -> Journal {
    match step {
        Step::Provision { template, document, created_at, answer } => provisioned(
            g,
            template,
            document,
            created_at,
            answer,
        ),
        Step::Enter { template, owner, document, provisioned_at, created_at } => cart_entered(
            g,
            template,
            owner,
            document,
            provisioned_at,
            created_at,
        ),
        Step::Create { template, document, owner, created_at, answer } => cart_created(
            g,
            template,
            document,
            owner,
            created_at,
            answer,
        ),
        Step::Delete { owner, label } => cart_deleted(g, owner, label).0,
        Step::Reply { teardown, reply } => next_journal(g, teardown, reply),
    }
}

/// The journal after a sequence of operations on an empty graph.
pub open spec fn after_steps(steps: Seq<Step>) -> Journal
    decreases steps.len(),
{
    if steps.len() == 0 {
        Seq::empty()
    } else {
        after_step(after_steps(steps.drop_last()), steps.last())
    }
}

/// The operation opens no cart on a partition that backs an active cart.
pub open spec fn opens_free(g: Journal, step: Step) -> bool {
    match step {
        Step::Enter { template, owner, document, provisioned_at, .. } => is_free(
            g,
            template,
            partition_for(g, template, owner, document, provisioned_at),
        ),
        Step::Create { template, answer: Some(cloned), .. } => is_free(
            g,
            template,
            cloned.cell_id.dna_hash,
        ),
        _ => true,
    }
}

/// Every cart that is opened in the course of `steps` is opened on a
/// partition that backs no active cart at the time: each partition is
/// provisioned for one cart, and a cart's record is published once.
pub open spec fn all_open_free(steps: Seq<Step>) -> bool {
    forall|k: int|
        0 <= k < steps.len() ==> opens_free(after_steps(steps.take(k)), #[trigger] steps[k])
}

/// After any sequence of operations the journal is well formed and every
/// record is filed once.
pub proof fn lemma_steps_well_formed(steps: Seq<Step>)
    ensures
        well_formed(after_steps(steps)),
        one_edge_each(after_steps(steps)),
    decreases steps.len(),
{
    if steps.len() > 0 {
        lemma_steps_well_formed(steps.drop_last());
        lemma_step_keeps(after_steps(steps.drop_last()), steps.last());
    }
}

/// One operation keeps the journal well formed and every record filed once;
/// where it opens no cart on a partition that backs an active cart, it
/// leaves no partition with two active carts.
pub proof fn lemma_step_keeps(g: Journal, step: Step)
    requires
        well_formed(g),
    ensures
        well_formed(after_step(g, step)),
        one_edge_each(g) ==> one_edge_each(after_step(g, step)),
        at_most_one_active(g) && opens_free(g, step) ==> at_most_one_active(after_step(g, step)),
{
    match step {
        Step::Provision { template, document, created_at, answer } => {
            lemma_provision_keeps_one_active(g, template, document, created_at, answer);
        },
        Step::Enter { template, owner, document, provisioned_at, created_at } => {
            lemma_entry_keeps_one_active(g, template, owner, document, provisioned_at, created_at);
        },
        Step::Create { template, document, owner, created_at, answer } => {
            lemma_create_keeps_one_active(g, template, document, owner, created_at, answer);
        },
        Step::Delete { owner, label } => {
            lemma_delete_keeps_one_active(g, owner, label);
        },
        Step::Reply { teardown, reply } => {
            lemma_reply_keeps_one_active(g, teardown, reply);
        },
    }
}

/// A sequence that opens every cart on a free partition does so up to any point.
pub proof fn lemma_earlier_open_free(steps: Seq<Step>)
    requires
        all_open_free(steps),
        steps.len() > 0,
    ensures
        all_open_free(steps.drop_last()),
        opens_free(after_steps(steps.drop_last()), steps.last()),
{
    let earlier = steps.drop_last();
    assert forall|k: int| 0 <= k < earlier.len() implies opens_free(
        after_steps(earlier.take(k)),
        #[trigger] earlier[k],
    ) by {
        assert(earlier[k] == steps[k]);
        assert(earlier.take(k) =~= steps.take(k));
    }
    assert(steps.take(steps.len() - 1) =~= earlier);
    assert(opens_free(after_steps(steps.take(steps.len() - 1)), steps[steps.len() - 1]));
}

/// After any sequence of provisioning partitions, publishing carts and
/// taking carts down, in which every cart is opened on a partition that
/// backs no active cart, no partition backs two active carts.
pub proof fn lemma_at_most_one_active(steps: Seq<Step>)
    requires
        all_open_free(steps),
    ensures
        well_formed(after_steps(steps)),
        at_most_one_active(after_steps(steps)),
        one_edge_each(after_steps(steps)),
    decreases steps.len(),
{
    lemma_steps_well_formed(steps);
    if steps.len() > 0 {
        lemma_earlier_open_free(steps);
        lemma_at_most_one_active(steps.drop_last());
        lemma_step_keeps(after_steps(steps.drop_last()), steps.last());
    }
}

/// A cart that has just been opened on a partition of its own is active, and
/// the index leads to it.
pub proof fn lemma_created_cart_is_active(
    g: Journal,
    template: Seq<u8>,
    document: Seq<u8>,
    owner: Seq<u8>,
    created_at: i64,
    cloned: ClonedCellView,
)
    requires
        well_formed(g),
        hash_text(cloned.cell_id.dna_hash) != hash_text(template),
    ensures
        ({
            let handled = filed(
                g,
                clones_path(),
                EntryView::CloneEntry(handle_of(template, document, created_at, cloned)),
            );
            is_active_on(
                cart_created(g, template, document, owner, created_at, Some(cloned)),
                filed_at(handled, owner_path(owner)),
                hash_text(cloned.cell_id.dna_hash),
            )
        }),
{
    let handle = EntryView::CloneEntry(handle_of(template, document, created_at, cloned));
    let cart = EntryView::Cart(
        new_cart(template, cloned.cell_id.dna_hash, document, owner, created_at),
    );
    let g1 = filed(g, clones_path(), handle);
    lemma_filed(g, clones_path(), handle);
    lemma_filed(g1, owner_path(owner), cart);
    lemma_filed_edge(g1, owner_path(owner), cart);
}

/// The edge that files a record is live and leads to the record.
pub proof fn lemma_filed_edge(g: Journal, path: Seq<char>, entry: EntryView)
    requires
        well_formed(g),
    ensures
        ({
            let after = filed(g, path, entry);
            &&& is_live_edge(after, after.len() - 1)
            &&& after[after.len() - 1]->target == filed_at(g, path)
            &&& after[after.len() - 1]->source == anchor_index(g, path)
            &&& is_indexed(after, filed_at(g, path))
        }),
{
    lemma_filed(g, path, entry);
    let after = filed(g, path, entry);
    let e = after.len() - 1;
    if is_tombstoned(after, e) {
        lemma_tombstones_name_earlier(after, e);
        let j = choose|j: int|
            0 <= j < after.len() && j < after.len() && after[j] == (ActionView::Unlink { edge: e });
        assert(admissible(after.take(j), after[j]));
    }
    assert(after[e] is Link);
    assert(is_live_edge(after, e) && after[e]->target == filed_at(g, path));
}

/// The edge that files a record under the index root for `path`.
pub open spec fn filing_edge(g: Journal, path: Seq<char>) -> EdgeView {
    EdgeView {
        address: filed_at(g, path) + 1,
        source: anchor_index(g, path),
        target: filed_at(g, path),
        relation: LinkTypes::CartToDocument,
        tag: Seq::empty(),
    }
}

/// Filing a record under a root adds its edge at the end of what is filed
/// under that root, changes nothing under any other root, and leaves every
/// earlier record as it was.
pub proof fn lemma_filed_index(g: Journal, path: Seq<char>, entry: EntryView, other: Seq<char>)
    requires
        well_formed(g),
    ensures
        indexed(filed(g, path, entry), other) == if other == path {
            indexed(g, path).push(filing_edge(g, path))
        } else {
            indexed(g, other)
        },
        forall|at: int| 0 <= at < g.len() ==> record_at(filed(g, path, entry), at) == record_at(g, at),
{
    let rooted = ensured(g, path);
    let root = anchor_index(g, path);
    let published = ActionView::Publish { entry };
    let linked = ActionView::Link {
        source: root,
        target: rooted.len() as int,
        relation: LinkTypes::CartToDocument,
        tag: Seq::empty(),
    };
    let g2 = rooted.push(published);
    let g3 = g2.push(linked);
    let relation = LinkTypes::CartToDocument;
    lemma_filed(g, path, entry);
    lemma_anchor_index(g, path);
    lemma_anchor_index(g, other);
    if root == g.len() {
        lemma_well_formed_push(g, ActionView::Anchor { path });
        lemma_anchor_after_push(g, ActionView::Anchor { path }, other);
    }
    lemma_well_formed_push(rooted, published);
    lemma_anchor_after_push(rooted, published, other);
    lemma_anchor_after_push(g2, linked, other);
    let from = anchor_index(g3, other);
    if from < g3.len() {
        lemma_push_link(g2, linked, from, relation);
        lemma_push_node(rooted, published, from, relation);
        if root == g.len() {
            lemma_push_node(g, ActionView::Anchor { path }, from, relation);
        }
        if from >= g.len() {
            lemma_no_edges_from_beyond(g, from, relation, g.len() as int);
        }
        if other != path && from == root {
            assert(g3[from] == (ActionView::Anchor { path }));
            assert(g3[from] == (ActionView::Anchor { path: other }));
        }
        assert(edge_at(g3, g2.len() as int) == filing_edge(g, path));
    }
}

/// The paths of the owners' roots differ from the path of the handles' root.
pub proof fn lemma_paths_differ(owner: Seq<u8>)
    ensures
        owner_path(owner) != clones_path(),
{
    reveal_strlit("cart_clones");
    reveal_strlit("carts/owner/");
    assert(clones_path().len() == 11);
    assert(owner_path(owner).len() >= 12);
}

/// What stands at the end of a search's edges matters only if the search
/// has not ended before: a search through edges of which one more has been
/// filed, in a journal that has kept the earlier records, ends as before
/// where it found a cart or met a record of another kind, and else goes by
/// the record that the new edge leads to.
pub proof fn lemma_search_one_more(
    g: Journal,
    after: Journal,
    edges: Seq<EdgeView>,
    extra: EdgeView,
    partition: Seq<char>,
    created_at: Seq<char>,
    active: bool,
    from: int,
)
    requires
        0 <= from <= edges.len(),
        forall|k: int|
            0 <= k < edges.len() ==> record_at(after, #[trigger] edges[k].target) == record_at(
                g,
                edges[k].target,
            ),
    ensures
        search_cart(after, edges.push(extra), partition, created_at, active, from) == (
        match search_cart(g, edges, partition, created_at, active, from) {
            Search::Absent => search_cart(
                after,
                edges.push(extra),
                partition,
                created_at,
                active,
                edges.len() as int,
            ),
            ended => ended,
        }),
    decreases edges.len() - from,
{
    if from < edges.len() {
        assert(edges.push(extra)[from] == edges[from]);
        lemma_search_one_more(g, after, edges, extra, partition, created_at, active, from + 1);
    }
}

/// The label of a cart that has just been opened resolves to the cart's
/// partition.
///
/// Let a cart be opened for `owner` at `created_at` on the partition that
/// the host provisioned, in a journal in which no record of another kind
/// stands in the way of looking the cart up. Then the label written from the
/// partition's display form and `created_at` resolves, for that owner, to a
/// partition with the same display form; and to exactly the new partition
/// and the owner unless an earlier cart of the owner answers to the same label.
pub proof fn lemma_label_resolves(
    g: Journal,
    template: Seq<u8>,
    document: Seq<u8>,
    owner: Seq<u8>,
    created_at: i64,
    cloned: ClonedCellView,
)
    requires
        well_formed(g),
        !(search_cart(
            g,
            indexed(g, owner_path(owner)),
            hash_text(cloned.cell_id.dna_hash),
            decimal(created_at as int),
            false,
            0,
        ) is Unreadable),
    ensures
        ({
            let after = cart_created(g, template, document, owner, created_at, Some(cloned));
            let shown = hash_text(cloned.cell_id.dna_hash);
            let label = label_of(shown, created_at as int);
            let earlier = search_cart(
                g,
                indexed(g, owner_path(owner)),
                shown,
                decimal(created_at as int),
                false,
                0,
            );
            &&& cell_for_cart(after, owner, label) matches Ok(cell)
            &&& hash_text(cell.dna_hash) == shown
            &&& earlier is Absent ==> cell == (CloneCellView {
                dna_hash: cloned.cell_id.dna_hash,
                agent_key: owner,
            })
        }),
{
    let partition = cloned.cell_id.dna_hash;
    let shown = hash_text(partition);
    let written = decimal(created_at as int);
    let label = label_of(shown, created_at as int);
    let handle = EntryView::CloneEntry(handle_of(template, document, created_at, cloned));
    let cart = new_cart(template, partition, document, owner, created_at);
    let path = owner_path(owner);
    let g1 = filed(g, clones_path(), handle);
    let after = filed(g1, path, EntryView::Cart(cart));
    let edges = indexed(g, path);
    let extra = filing_edge(g1, path);
    lemma_label_round_trip(shown, created_at as int);
    lemma_paths_differ(owner);
    lemma_filed(g, clones_path(), handle);
    lemma_filed_index(g, clones_path(), handle, path);
    lemma_filed(g1, path, EntryView::Cart(cart));
    lemma_filed_index(g1, path, EntryView::Cart(cart), path);
    assert(indexed(after, path) == edges.push(extra));
    lemma_anchor_index(g, path);
    assert forall|k: int| 0 <= k < edges.len() implies record_at(
        after,
        #[trigger] edges[k].target,
    ) == record_at(g, edges[k].target) by {
        lemma_live_edges(g, anchor_index(g, path), LinkTypes::CartToDocument, g.len() as int);
        lemma_edges_point_back(g, edges[k].address);
        assert(edges[k].target < g.len());
        assert(g.len() <= g1.len());
    }
    lemma_search_one_more(g, after, edges, extra, shown, written, false, 0);
    assert(cart_answers(cart, shown, written));
    assert(record_at(after, extra.target) == Some(EntryView::Cart(cart)));
    let found = search_cart(after, edges.push(extra), shown, written, false, 0);
    assert(edges.push(extra)[edges.len() as int] == extra);
    assert(found is Found);
    lemma_found_cart(after, edges.push(extra), shown, written, false, 0);
}

/// The label of a cart whose record has just been published resolves to
/// the cart's partition.
///
/// Let the record of a cart be published for `owner`, in a journal in which
/// no record of another kind stands in the way of looking the cart up. Then
/// the label written from the display form of the cart's partition and from
/// the cart's time resolves, for that owner, to a partition with the same
/// display form; and to exactly the cart's partition and the owner unless
/// an earlier cart of the owner answers to the same label.
pub proof fn lemma_entry_label_resolves(
    g: Journal,
    template: Seq<u8>,
    owner: Seq<u8>,
    document: Seq<u8>,
    provisioned_at: i64,
    created_at: i64,
)
    requires
        well_formed(g),
        !(search_cart(
            g,
            indexed(g, owner_path(owner)),
            hash_text(partition_for(g, template, owner, document, provisioned_at)),
            decimal(created_at as int),
            false,
            0,
        ) is Unreadable),
    ensures
        ({
            let partition = partition_for(g, template, owner, document, provisioned_at);
            let after = cart_entered(g, template, owner, document, provisioned_at, created_at);
            let shown = hash_text(partition);
            let label = label_of(shown, created_at as int);
            let earlier = search_cart(
                g,
                indexed(g, owner_path(owner)),
                shown,
                decimal(created_at as int),
                false,
                0,
            );
            &&& cell_for_cart(after, owner, label) matches Ok(cell)
            &&& hash_text(cell.dna_hash) == shown
            &&& earlier is Absent ==> cell == (CloneCellView { dna_hash: partition, agent_key: owner })
        }),
{
    let cart = cart_entry_of(g, template, owner, document, provisioned_at, created_at);
    let shown = hash_text(cart.cart_dna_hash);
    let written = decimal(created_at as int);
    let path = owner_path(owner);
    let after = filed(g, path, EntryView::Cart(cart));
    let edges = indexed(g, path);
    let extra = filing_edge(g, path);
    lemma_label_round_trip(shown, created_at as int);
    lemma_filed(g, path, EntryView::Cart(cart));
    lemma_filed_index(g, path, EntryView::Cart(cart), path);
    lemma_anchor_index(g, path);
    assert forall|k: int| 0 <= k < edges.len() implies record_at(
        after,
        #[trigger] edges[k].target,
    ) == record_at(g, edges[k].target) by {
        lemma_live_edges(g, anchor_index(g, path), LinkTypes::CartToDocument, g.len() as int);
        lemma_edges_point_back(g, edges[k].address);
    }
    lemma_search_one_more(g, after, edges, extra, shown, written, false, 0);
    assert(cart_answers(cart, shown, written));
    assert(record_at(after, extra.target) == Some(EntryView::Cart(cart)));
    assert(edges.push(extra)[edges.len() as int] == extra);
    lemma_found_cart(after, edges.push(extra), shown, written, false, 0);
}

/// The handles that edges lead to go by the edges and by the records that
/// they lead to, and by nothing else of the journal.
pub proof fn lemma_handles_by_records(g: Journal, after: Journal, edges: Seq<EdgeView>)
    requires
        forall|k: int|
            0 <= k < edges.len() ==> record_at(after, #[trigger] edges[k].target) == record_at(
                g,
                edges[k].target,
            ),
    ensures
        handles_among(after, edges) == handles_among(g, edges),
    decreases edges.len(),
{
    if edges.len() > 0 {
        let front = edges.drop_last();
        assert forall|k: int| 0 <= k < front.len() implies record_at(
            after,
            #[trigger] front[k].target,
        ) == record_at(g, front[k].target) by {
            assert(front[k] == edges[k]);
        }
        lemma_handles_by_records(g, after, front);
        assert(edges.last() == edges[edges.len() - 1]);
    }
}

/// A handle that has just been kept stands last among the handles on file.
pub proof fn lemma_kept_handle_is_last(g: Journal, handle: CartCloneInfoView)
    requires
        well_formed(g),
    ensures
        cart_clones(filed(g, clones_path(), EntryView::CloneEntry(handle))) == cart_clones(g).push(
            handle,
        ),
{
    let entry = EntryView::CloneEntry(handle);
    let path = clones_path();
    let after = filed(g, path, entry);
    let edges = indexed(g, path);
    let extra = filing_edge(g, path);
    lemma_filed(g, path, entry);
    lemma_filed_index(g, path, entry, path);
    lemma_anchor_index(g, path);
    assert forall|k: int| 0 <= k < edges.len() implies record_at(
        after,
        #[trigger] edges[k].target,
    ) == record_at(g, edges[k].target) by {
        lemma_live_edges(g, anchor_index(g, path), LinkTypes::CartToDocument, g.len() as int);
        lemma_edges_point_back(g, edges[k].address);
    }
    lemma_handles_by_records(g, after, edges);
    assert(edges.push(extra).drop_last() =~= edges);
    assert(record_at(after, extra.target) == Some(entry));
}

/// A cart refers to the partition that was provisioned for it: once the
/// host's answer to the provisioning request for a cart has been taken in,
/// the record published for that cart, for the owner of the partition and
/// with the document and time of the request, refers to the new partition,
/// however many older handles are on file.
pub proof fn lemma_new_partition_is_taken(
    g: Journal,
    template: Seq<u8>,
    document: Seq<u8>,
    provisioned_at: i64,
    cloned: ClonedCellView,
)
    requires
        well_formed(g),
    ensures
        partition_for(
            provisioned(g, template, document, provisioned_at, Some(cloned)),
            template,
            cloned.cell_id.agent_key,
            document,
            provisioned_at,
        ) == cloned.cell_id.dna_hash,
{
    lemma_kept_handle_is_last(g, handle_of(template, document, provisioned_at, cloned));
}

} // verus!
