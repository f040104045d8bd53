//! Taking a cart down.
//!
//! A cart is taken down in phases. [`delete_cart`] locates the cart and its
//! partition's handle and supersedes the cart's record; from then on the cart
//! is no longer active, whatever happens next. The partition itself is torn
//! down by the host, which is outside this library: the [`Teardown`] that
//! `delete_cart` returns says which call the host is owed, and
//! [`Teardown::advance`] takes in the host's reply. The host is asked to
//! delete a partition only after it has disabled it.

use vstd::prelude::*;
use crate::cart::{
    clones_path, owner_anchor_path, owner_path, CartError, DeleteCartInput, Phase,
};
use crate::graph::{
    anchor_index, lemma_anchor_index, record_at, unlinked, ActionView, GraphStore, Journal,
};
use crate::graph_laws::{lemma_live_edges, lemma_tombstones_after_push};
use crate::integrity::{CartStatus, CartView, EntryTypes, EntryView, LinkTypes, RawHash};
use crate::label::{label_parts, parse_label};
use crate::listing::{
    find_cart, find_handle, indexed, indexed_edges, lemma_found_cart, lemma_found_handle,
    search_cart, search_error, search_handle, Search,
};
use crate::platform::{clone_id_text, parse_clone_id};

verus! {

/// A call that the host is owed.
#[derive(Debug)]
pub enum HostCall {
    /// Stop the partition from taking new work.
    Disable { clone_id: String },
    /// Reclaim the partition. Only ever owed after a `Disable` that succeeded.
    Delete { clone_id: String },
}

/// The mathematical value of a [`HostCall`].
pub enum HostCallView {
    Disable { clone_id: Seq<char> },
    Delete { clone_id: Seq<char> },
}

impl View for HostCall {
    type V = HostCallView;

    open spec fn view(&self) -> HostCallView {
        match self {
            HostCall::Disable { clone_id } => HostCallView::Disable { clone_id: clone_id@ },
            HostCall::Delete { clone_id } => HostCallView::Delete { clone_id: clone_id@ },
        }
    }
}

/// How the host answered the call that it was owed.
#[derive(Clone, Copy, Debug, PartialEq, Eq, Structural)]
pub enum HostReply {
    Done,
    Failed,
}

/// The teardown of one partition: what the host is owed next, or how it ended.
///
/// A teardown comes from [`delete_cart`] only, and moves on by
/// [`Teardown::advance`] only, so it owes a `Delete` only after a `Disable`
/// that the host reported done.
#[derive(Debug)]
pub struct Teardown {
    state: State,
}

#[derive(Debug)]
enum State {
    Disabling { clone_id: String, handle_edge: usize },
    Deleting { clone_id: String, handle_edge: usize },
    Finished,
    Failed { phase: Phase },
}

/// Where a teardown stands.
pub enum TeardownView {
    /// The cart's record is superseded; the host is owed a `Disable`.
    Disabling { clone_id: Seq<char>, handle_edge: int },
    /// The partition is disabled; the host is owed a `Delete`.
    Deleting { clone_id: Seq<char>, handle_edge: int },
    /// The partition is deleted and its handle is off the index.
    Finished,
    /// The host failed in the given phase; no further call is owed.
    Failed { phase: Phase },
}

impl View for Teardown {
    type V = TeardownView;

    closed spec fn view(&self) -> TeardownView {
        match self.state {
            State::Disabling { clone_id, handle_edge } => TeardownView::Disabling {
                clone_id: clone_id@,
                handle_edge: handle_edge as int,
            },
            State::Deleting { clone_id, handle_edge } => TeardownView::Deleting {
                clone_id: clone_id@,
                handle_edge: handle_edge as int,
            },
            State::Finished => TeardownView::Finished,
            State::Failed { phase } => TeardownView::Failed { phase },
        }
    }
}

/// The call that the host is owed in a state; none once the teardown has ended.
pub open spec fn owed(t: TeardownView) -> Option<HostCallView> {
    match t {
        TeardownView::Disabling { clone_id, .. } => Some(HostCallView::Disable { clone_id }),
        TeardownView::Deleting { clone_id, .. } => Some(HostCallView::Delete { clone_id }),
        _ => None,
    }
}

/// The state that follows `t` on the host's reply. A failed `Disable` ends
/// the teardown before any `Delete`; an ended teardown stays as it is.
pub open spec fn next_state(t: TeardownView, reply: HostReply) -> TeardownView {
    match t {
        TeardownView::Disabling { clone_id, handle_edge } => match reply {
            HostReply::Done => TeardownView::Deleting { clone_id, handle_edge },
            HostReply::Failed => TeardownView::Failed { phase: Phase::Disable },
        },
        TeardownView::Deleting { .. } => match reply {
            HostReply::Done => TeardownView::Finished,
            HostReply::Failed => TeardownView::Failed { phase: Phase::Delete },
        },
        ended => ended,
    }
}

/// The journal that follows on the host's reply: the handle's edge is
/// removed once the partition is deleted, and nothing is written otherwise.
pub open spec fn next_journal(g: Journal, t: TeardownView, reply: HostReply) -> Journal {
    match t {
        TeardownView::Deleting { handle_edge, .. } => match reply {
            HostReply::Done => unlinked(g, handle_edge),
            HostReply::Failed => g,
        },
        _ => g,
    }
}

/// What the teardown has come to: nothing while the host is owed a call.
pub open spec fn result_of(t: TeardownView) -> Option<Result<(), CartError>> {
    match t {
        TeardownView::Finished => Some(Ok(())),
        TeardownView::Failed { phase } => Some(Err(CartError::DecommissionFailed { phase })),
        _ => None,
    }
}

/// The mathematical value of an owed call.
pub open spec fn call_view(call: Option<HostCall>) -> Option<HostCallView> {
    match call {
        Some(call) => Some(call@),
        None => None,
    }
}

impl Teardown {
    /// The call that the host is owed now; none once the teardown has ended.
    pub fn pending(&self) -> (call: Option<HostCall>)
        ensures
            call_view(call) == owed(self@),
    {
        match &self.state {
            State::Disabling { clone_id, .. } => Some(
                HostCall::Disable { clone_id: clone_id.clone() },
            ),
            State::Deleting { clone_id, .. } => Some(HostCall::Delete { clone_id: clone_id.clone() }),
            _ => None,
        }
    }

    /// Takes in the host's reply to the call that it was owed.
    ///
    /// After a `Disable` that succeeded the host is owed a `Delete`; after
    /// one that failed the teardown has failed and no `Delete` is owed. After
    /// a `Delete` that succeeded the handle's edge is removed and the
    /// teardown is finished. A teardown that has ended takes in nothing.
    pub fn advance(self, store: &mut GraphStore, reply: HostReply) -> (next: Teardown)
        ensures
            next@ == next_state(self@, reply),
            final(store)@ == next_journal(old(store)@, self@, reply),
    {
        let state = match self.state {
            State::Disabling { clone_id, handle_edge } => match reply {
                HostReply::Done => State::Deleting { clone_id, handle_edge },
                HostReply::Failed => State::Failed { phase: Phase::Disable },
            },
            State::Deleting { clone_id, handle_edge } => match reply {
                HostReply::Done => {
                    store.unlink(handle_edge);
                    State::Finished
                },
                HostReply::Failed => State::Failed { phase: Phase::Delete },
            },
            State::Finished => State::Finished,
            State::Failed { phase } => State::Failed { phase },
        };
        Teardown { state }
    }

    /// What the teardown has come to: `None` while the host is owed a call.
    pub fn outcome(&self) -> (out: Option<Result<(), CartError>>)
        ensures
            out == result_of(self@),
    {
        match &self.state {
            State::Finished => Some(Ok(())),
            State::Failed { phase } => Some(Err(CartError::DecommissionFailed { phase: *phase })),
            _ => None,
        }
    }
}

/// The state that a teardown is in after the host's replies have been taken
/// in, one after the other.
pub open spec fn state_after(t: TeardownView, replies: Seq<HostReply>) -> TeardownView
    decreases replies.len(),
{
    if replies.len() == 0 {
        t
    } else {
        next_state(state_after(t, replies.drop_last()), replies.last())
    }
}

/// A `Delete` is owed only in the state that follows a `Disable` of the same
/// partition to which the host replied that it was done.
pub proof fn lemma_delete_follows_disable(t: TeardownView, reply: HostReply)
    ensures
        owed(next_state(t, reply)) matches Some(HostCallView::Delete { clone_id }) ==> reply
            == HostReply::Done && owed(t) == Some(HostCallView::Disable { clone_id }),
{
}

/// From its first state on, whatever the host replies, a teardown owes a
/// `Delete` at one point only: right after the first reply, if that reply
/// was that the `Disable` was done. A teardown whose `Disable` failed never
/// owes a `Delete`.
pub proof fn lemma_decommission_ordering(t: TeardownView, replies: Seq<HostReply>)
    requires
        t is Disabling,
    ensures
        owed(state_after(t, replies)) matches Some(HostCallView::Delete { clone_id }) ==> {
            &&& replies.len() == 1
            &&& replies[0] == HostReply::Done
            &&& owed(t) == Some(HostCallView::Disable { clone_id })
        },
        replies.len() > 0 && replies[0] == HostReply::Failed ==> state_after(t, replies) == (
        TeardownView::Failed { phase: Phase::Disable }),
    decreases replies.len(),
{
    if replies.len() > 0 {
        let earlier = replies.drop_last();
        lemma_decommission_ordering(t, earlier);
        lemma_delete_follows_disable(state_after(t, earlier), replies.last());
        if earlier.len() > 0 {
            assert(earlier[0] == replies[0]);
            lemma_settles(t, earlier);
        }
    }
}

/// After the first reply a teardown owes no `Disable` any more.
proof fn lemma_settles(t: TeardownView, replies: Seq<HostReply>)
    requires
        replies.len() > 0,
    ensures
        !(state_after(t, replies) is Disabling),
    decreases replies.len(),
{
    if replies.len() > 1 {
        lemma_settles(t, replies.drop_last());
    }
}

/// The journal after the cart that `edge` leads to has been superseded: a
/// version of the cart that is `Processed`, an edge from the owner's root to
/// that version, and the tombstone of the edge that led to the old version.
pub open spec fn superseded(g: Journal, root: int, edge: int, cart: CartView) -> Journal {
    g.push(ActionView::Publish { entry: EntryView::Cart(cart.with_status(CartStatus::Processed)) })
        .push(
        ActionView::Link {
            source: root,
            target: g.len() as int,
            relation: LinkTypes::CartToDocument,
            tag: Seq::empty(),
        },
    ).push(ActionView::Unlink { edge })
}

/// What taking down the cart that `label` names comes to, for the journal
/// and for the caller.
///
/// The label is read as `Cart_<partition>_<microseconds>`. The partition's
/// handle is looked for among all handles, then the cart among the carts of
/// `owner`: each must answer to both parts of the label, and the cart must
/// be active. Only then is anything written: the cart is superseded. What the
/// caller gets is the teardown in its first state, or the failure of the
/// `Disable` phase when the host would not know the partition by the name
/// that the handle keeps.
pub open spec fn cart_deleted(g: Journal, owner: Seq<u8>, label: Seq<char>) -> (
    Journal,
    Result<TeardownView, CartError>,
) {
    match label_parts(label) {
        None => (g, Err(CartError::MalformedLabel)),
        Some((partition, created_at)) => {
            let handles = indexed(g, clones_path());
            match search_handle(g, handles, partition, created_at, 0) {
                Search::Found(h) => {
                    let carts = indexed(g, owner_path(owner));
                    match search_cart(g, carts, partition, created_at, true, 0) {
                        Search::Found(c) => {
                            let cart = record_at(g, carts[c].target)->0->Cart_0;
                            let handle = record_at(g, handles[h].target)->0->CloneEntry_0;
                            let after = superseded(
                                g,
                                anchor_index(g, owner_path(owner)),
                                carts[c].address,
                                cart,
                            );
                            match clone_id_text(handle.holochain_clone_id) {
                                Some(clone_id) => (
                                    after,
                                    Ok(
                                        TeardownView::Disabling {
                                            clone_id,
                                            handle_edge: handles[h].address,
                                        },
                                    ),
                                ),
                                None => (
                                    after,
                                    Err(CartError::DecommissionFailed { phase: Phase::Disable }),
                                ),
                            }
                        },
                        missed => (g, Err(search_error(missed))),
                    }
                },
                missed => (g, Err(search_error(missed))),
            }
        },
    }
}

/// The mathematical value of what `delete_cart` returns.
pub open spec fn start_view(out: Result<Teardown, CartError>) -> Result<TeardownView, CartError> {
    match out {
        Ok(t) => Ok(t@),
        Err(e) => Err(e),
    }
}

/// Starts taking down the cart of `owner` that `input.cart_id` names.
///
/// Fails, with nothing written, with `MalformedLabel` when the label holds
/// no underscore, with `NotFound` when no handle or no active cart answers
/// to both parts of the label, and with `SerializationError` when a record of
/// another kind stands in the way of either search. Otherwise the cart is
/// superseded by a version that is `Processed`. The result is then the
/// teardown, which owes the host a `Disable`; or, when the handle keeps a
/// name by which the host cannot know the partition, the failure of the
/// `Disable` phase.
pub fn delete_cart(store: &mut GraphStore, owner: &RawHash, input: &DeleteCartInput) -> (out: Result<Teardown, CartError>)
    ensures
        final(store)@ == cart_deleted(old(store)@, owner@, input.cart_id@).0,
        start_view(out) == cart_deleted(old(store)@, owner@, input.cart_id@).1,
{
    let (partition, created_at) = match parse_label(input.cart_id.as_str()) {
        Some(parts) => parts,
        None => {
            return Err(CartError::MalformedLabel);
        },
    };
    let handles = indexed_edges(store, "cart_clones");
    let h = match find_handle(store, &handles, partition.as_str(), created_at.as_str()) {
        Ok(h) => h,
        Err(e) => {
            return Err(e);
        },
    };
    let path = owner_anchor_path(owner);
    let carts = indexed_edges(store, path.as_str());
    let c = match find_cart(store, &carts, partition.as_str(), created_at.as_str(), true) {
        Ok(c) => c,
        Err(e) => {
            return Err(e);
        },
    };
    let ghost g = store@;
    proof {
        lemma_found_handle(g, handles.deep_view(), partition@, created_at@, 0);
        lemma_found_cart(g, carts.deep_view(), partition@, created_at@, true, 0);
        lemma_anchor_index(g, path@);
        lemma_live_edges(g, anchor_index(g, path@), LinkTypes::CartToDocument, g.len() as int);
    }
    let root = carts[c].source;
    let old_edge = carts[c].address;
    let handle_edge = handles[h].address;
    let clone_name = match store.read(handles[h].target) {
        Some(EntryTypes::CloneEntry(entry)) => entry.clone_info.holochain_clone_id.clone(),
        _ => {
            return Err(CartError::NotFound);
        },
    };
    let processed = match store.read(carts[c].target) {
        Some(EntryTypes::Cart(cart)) => {
            let mut next = cart.clone();
            next.status = CartStatus::Processed;
            next
        },
        _ => {
            return Err(CartError::NotFound);
        },
    };
    let ghost published = ActionView::Publish { entry: EntryView::Cart(processed@) };
    let at = store.publish(EntryTypes::Cart(processed));
    let edge = store.link(root, at, LinkTypes::CartToDocument, Vec::new());
    proof {
        let linked = ActionView::Link {
            source: root as int,
            target: at as int,
            relation: LinkTypes::CartToDocument,
            tag: Seq::empty(),
        };
        lemma_tombstones_after_push(g, published, old_edge as int);
        lemma_tombstones_after_push(g.push(published), linked, old_edge as int);
    }
    store.unlink(old_edge);
    match parse_clone_id(clone_name.as_str()) {
        Some(clone_id) => Ok(Teardown { state: State::Disabling { clone_id, handle_edge } }),
        None => Err(CartError::DecommissionFailed { phase: Phase::Disable }),
    }
}

} // verus!
