//! Reading the index: the handles on file, the carts of an owner, and the
//! cart that a label names.
//!
//! Listings leave out what they cannot read and go on. A lookup of one cart
//! does not: a record in its way that is no cart ends it with an error.

use vstd::prelude::*;
use crate::cart::{
    clones_path, owner_anchor_path, owner_path, CartError, CloneCell, CloneCellView, Record,
    RecordView,
};
use crate::graph::{anchor_index, edges_from, record_at, Edge, EdgeView, GraphStore, Journal};
use crate::integrity::{
    CartCloneInfo, CartCloneInfoView, CartStatus, CartView, EntryTypes, EntryView, LinkTypes,
    RawHash,
};
use crate::label::{label_parts, parse_label};
use crate::platform::hash_text;
use crate::text::{decimal, decimal_text, same_text};

verus! {

/// The live edges filed under the index root for `path`; none when the root
/// does not exist.
pub open spec fn indexed(g: Journal, path: Seq<char>) -> Seq<EdgeView> {
    if anchor_index(g, path) < g.len() {
        edges_from(g, anchor_index(g, path), LinkTypes::CartToDocument)
    } else {
        Seq::empty()
    }
}

/// The live edges filed under the index root for `path`.
pub fn indexed_edges(store: &GraphStore, path: &str) -> (out: Vec<Edge>)
    ensures
        out.deep_view() == indexed(store@, path@),
{
    match store.anchor(path) {
        Some(root) => store.edges_from(root, LinkTypes::CartToDocument),
        None => {
            let out: Vec<Edge> = Vec::new();
            assert(out.deep_view() =~= Seq::<EdgeView>::empty());
            out
        },
    }
}

/// The handles that `edges` lead to, in the order of the edges. An edge
/// that leads to no record, or to a record that is no handle, gives none.
pub open spec fn handles_among(g: Journal, edges: Seq<EdgeView>) -> Seq<CartCloneInfoView>
    decreases edges.len(),
{
    if edges.len() == 0 {
        Seq::empty()
    } else {
        let earlier = handles_among(g, edges.drop_last());
        match record_at(g, edges.last().target) {
            Some(EntryView::CloneEntry(handle)) => earlier.push(handle),
            _ => earlier,
        }
    }
}

/// The handles of all partitions on file, whoever owns them.
pub open spec fn cart_clones(g: Journal) -> Seq<CartCloneInfoView> {
    handles_among(g, indexed(g, clones_path()))
}

/// The handles of all partitions on file, whoever owns them, in the order in
/// which they were filed. What is filed there and is no handle is left out.
pub fn get_cart_clones(store: &GraphStore) -> (out: Vec<CartCloneInfo>)
    ensures
        out.deep_view() == cart_clones(store@),
{
    let edges = indexed_edges(store, "cart_clones");
    let mut out: Vec<CartCloneInfo> = Vec::new();
    let mut i: usize = 0;
    assert(edges.deep_view().take(0) =~= Seq::<EdgeView>::empty());
    assert(out.deep_view() =~= Seq::<CartCloneInfoView>::empty());
    while i < edges.len()
        invariant
            i <= edges.len(),
            out.deep_view() == handles_among(store@, edges.deep_view().take(i as int)),
        decreases edges.len() - i,
    {
        let ghost before = out.deep_view();
        assert(edges.deep_view().take(i + 1).drop_last() =~= edges.deep_view().take(i as int));
        match store.read(edges[i].target) {
            Some(EntryTypes::CloneEntry(entry)) => {
                out.push(entry.clone_info.clone());
                assert(out.deep_view() =~= before.push(entry@));
            },
            _ => {},
        }
        i += 1;
    }
    assert(edges.deep_view().take(i as int) =~= edges.deep_view());
    out
}

/// The active carts that `edges` lead to, in the order of the edges. An edge
/// that leads to no record, to a record that is no cart, or to a cart that
/// is not active gives none.
pub open spec fn active_among(g: Journal, edges: Seq<EdgeView>) -> Seq<RecordView>
    decreases edges.len(),
{
    if edges.len() == 0 {
        Seq::empty()
    } else {
        let earlier = active_among(g, edges.drop_last());
        match record_at(g, edges.last().target) {
            Some(EntryView::Cart(cart)) => if cart.status == CartStatus::Active {
                earlier.push(
                    RecordView { address: edges.last().target, entry: EntryView::Cart(cart) },
                )
            } else {
                earlier
            },
            _ => earlier,
        }
    }
}

/// The active carts of `owner`.
pub open spec fn active_carts(g: Journal, owner: Seq<u8>) -> Seq<RecordView> {
    active_among(g, indexed(g, owner_path(owner)))
}

/// The active carts of `owner`, in the order in which they were filed. What
/// is filed under the owner and is no cart is left out.
pub fn get_all_carts(store: &GraphStore, owner: &RawHash) -> (out: Vec<Record>)
    ensures
        out.deep_view() == active_carts(store@, owner@),
{
    let path = owner_anchor_path(owner);
    let edges = indexed_edges(store, path.as_str());
    let mut out: Vec<Record> = Vec::new();
    let mut i: usize = 0;
    assert(edges.deep_view().take(0) =~= Seq::<EdgeView>::empty());
    assert(out.deep_view() =~= Seq::<RecordView>::empty());
    while i < edges.len()
        invariant
            i <= edges.len(),
            out.deep_view() == active_among(store@, edges.deep_view().take(i as int)),
        decreases edges.len() - i,
    {
        let ghost before = out.deep_view();
        assert(edges.deep_view().take(i + 1).drop_last() =~= edges.deep_view().take(i as int));
        let target = edges[i].target;
        match store.read(target) {
            Some(EntryTypes::Cart(cart)) => {
                if cart.status == CartStatus::Active {
                    out.push(Record { address: target, entry: EntryTypes::Cart(cart.clone()) });
                    assert(out.deep_view() =~= before.push(
                        RecordView { address: target as int, entry: EntryView::Cart(cart@) },
                    ));
                }
            },
            _ => {},
        }
        i += 1;
    }
    assert(edges.deep_view().take(i as int) =~= edges.deep_view());
    out
}

/// The records that `edges` lead to, in the order of the edges.
pub open spec fn records_among(g: Journal, edges: Seq<EdgeView>) -> Seq<RecordView>
    decreases edges.len(),
{
    if edges.len() == 0 {
        Seq::empty()
    } else {
        let earlier = records_among(g, edges.drop_last());
        match record_at(g, edges.last().target) {
            Some(entry) => earlier.push(RecordView { address: edges.last().target, entry }),
            None => earlier,
        }
    }
}

/// For each handle in turn, the records filed under the handle's owner.
pub open spec fn contents_for(g: Journal, handles: Seq<CartCloneInfoView>) -> Seq<RecordView>
    decreases handles.len(),
{
    if handles.len() == 0 {
        Seq::empty()
    } else {
        contents_for(g, handles.drop_last()) + records_among(
            g,
            indexed(g, owner_path(handles.last().agent_key)),
        )
    }
}

/// Every record filed under the owner of some partition on file: for each
/// handle in turn, all that is filed under the handle's owner.
pub open spec fn cart_contents(g: Journal) -> Seq<RecordView> {
    contents_for(g, cart_clones(g))
}

fn push_records(store: &GraphStore, edges: &Vec<Edge>, out: &mut Vec<Record>)
    ensures
        final(out).deep_view() == old(out).deep_view() + records_among(store@, edges.deep_view()),
{
    let ghost start = out.deep_view();
    let mut i: usize = 0;
    assert(edges.deep_view().take(0) =~= Seq::<EdgeView>::empty());
    assert(out.deep_view() =~= start + Seq::<RecordView>::empty());
    while i < edges.len()
        invariant
            i <= edges.len(),
            out.deep_view() == start + records_among(store@, edges.deep_view().take(i as int)),
        decreases edges.len() - i,
    {
        let ghost before = out.deep_view();
        assert(edges.deep_view().take(i + 1).drop_last() =~= edges.deep_view().take(i as int));
        let target = edges[i].target;
        match store.read(target) {
            Some(entry) => {
                out.push(Record { address: target, entry: entry.clone() });
                assert(out.deep_view() =~= before.push(
                    RecordView { address: target as int, entry: entry@ },
                ));
            },
            None => {},
        }
        i += 1;
    }
    assert(edges.deep_view().take(i as int) =~= edges.deep_view());
}

/// Every record filed under the owner of some partition on file: for each
/// handle in turn, all that is filed under the handle's owner, whatever its
/// kind and status.
pub fn get_cart_contents(store: &GraphStore) -> (out: Vec<Record>)
    ensures
        out.deep_view() == cart_contents(store@),
{
    let handles = get_cart_clones(store);
    let mut out: Vec<Record> = Vec::new();
    let mut i: usize = 0;
    assert(handles.deep_view().take(0) =~= Seq::<CartCloneInfoView>::empty());
    assert(out.deep_view() =~= Seq::<RecordView>::empty());
    while i < handles.len()
        invariant
            i <= handles.len(),
            out.deep_view() == contents_for(store@, handles.deep_view().take(i as int)),
        decreases handles.len() - i,
    {
        assert(handles.deep_view().take(i + 1).drop_last() =~= handles.deep_view().take(i as int));
        let path = owner_anchor_path(&handles[i].agent_key);
        let edges = indexed_edges(store, path.as_str());
        push_records(store, &edges, &mut out);
        i += 1;
    }
    assert(handles.deep_view().take(i as int) =~= handles.deep_view());
    out
}

/// Whether a cart is the one that a label's two parts name: its partition is
/// shown as the first part and its time of opening is written as the second.
pub open spec fn cart_answers(cart: CartView, partition: Seq<char>, created_at: Seq<char>) -> bool {
    hash_text(cart.cart_dna_hash) == partition && decimal(cart.created_at as int) == created_at
}

/// Whether a handle is the one that a label's two parts name.
pub open spec fn handle_answers(handle: CartCloneInfoView, partition: Seq<char>, created_at: Seq<char>) -> bool {
    hash_text(handle.cart_dna_hash) == partition && decimal(handle.created_at as int)
        == created_at
}

/// How a search through edges ended.
pub enum Search {
    /// The edge at this position leads to what was looked for.
    Found(int),
    /// No edge leads to it.
    Absent,
    /// An edge before any match leads to a record of another kind.
    Unreadable,
}

/// Looks from position `from` on for the first edge that leads to a cart
/// which answers to the label's parts and, if `active` is set, is active.
/// Edges that lead to no record are passed over.
pub open spec fn search_cart(
    g: Journal,
    edges: Seq<EdgeView>,
    partition: Seq<char>,
    created_at: Seq<char>,
    active: bool,
    from: int,
) -> Search
    decreases edges.len() - from,
{
    if from < 0 || from >= edges.len() {
        Search::Absent
    } else {
        match record_at(g, edges[from].target) {
            None => search_cart(g, edges, partition, created_at, active, from + 1),
            Some(EntryView::Cart(cart)) => if cart_answers(cart, partition, created_at) && (!active
                || cart.status == CartStatus::Active) {
                Search::Found(from)
            } else {
                search_cart(g, edges, partition, created_at, active, from + 1)
            },
            Some(_) => Search::Unreadable,
        }
    }
}

/// Looks from position `from` on for the first edge that leads to a handle
/// which answers to the label's parts.
pub open spec fn search_handle(
    g: Journal,
    edges: Seq<EdgeView>,
    partition: Seq<char>,
    created_at: Seq<char>,
    from: int,
) -> Search
    decreases edges.len() - from,
{
    if from < 0 || from >= edges.len() {
        Search::Absent
    } else {
        match record_at(g, edges[from].target) {
            None => search_handle(g, edges, partition, created_at, from + 1),
            Some(EntryView::CloneEntry(handle)) => if handle_answers(handle, partition, created_at) {
                Search::Found(from)
            } else {
                search_handle(g, edges, partition, created_at, from + 1)
            },
            Some(_) => Search::Unreadable,
        }
    }
}

/// The error that ends a search without a match.
pub open spec fn search_error(search: Search) -> CartError {
    match search {
        Search::Unreadable => CartError::SerializationError,
        _ => CartError::NotFound,
    }
}

/// Finds the first edge that leads to a cart which answers to the label's
/// parts and, if `active` is set, is active.
pub fn find_cart(
    store: &GraphStore,
    edges: &Vec<Edge>,
    partition: &str,
    created_at: &str,
    active: bool,
) -> (out: Result<usize, CartError>)
    ensures
        match search_cart(store@, edges.deep_view(), partition@, created_at@, active, 0) {
            Search::Found(at) => out == Ok::<usize, CartError>(at as usize) && 0 <= at
                < edges.len(),
            missed => out == Err::<usize, CartError>(search_error(missed)),
        },
{
    let mut i: usize = 0;
    while i < edges.len()
        invariant
            i <= edges.len(),
            search_cart(store@, edges.deep_view(), partition@, created_at@, active, 0)
                == search_cart(store@, edges.deep_view(), partition@, created_at@, active, i as int),
        decreases edges.len() - i,
    {
        match store.read(edges[i].target) {
            None => {},
            Some(EntryTypes::Cart(cart)) => {
                let shown = cart.cart_dna_hash.text();
                let written = decimal_text(cart.created_at);
                if same_text(shown.as_str(), partition) && same_text(written.as_str(), created_at)
                    && (!active || cart.status == CartStatus::Active) {
                    return Ok(i);
                }
            },
            Some(_) => {
                return Err(CartError::SerializationError);
            },
        }
        i += 1;
    }
    Err(CartError::NotFound)
}

/// Finds the first edge that leads to a handle which answers to the label's parts.
pub fn find_handle(store: &GraphStore, edges: &Vec<Edge>, partition: &str, created_at: &str) -> (out: Result<usize, CartError>)
    ensures
        match search_handle(store@, edges.deep_view(), partition@, created_at@, 0) {
            Search::Found(at) => out == Ok::<usize, CartError>(at as usize) && 0 <= at
                < edges.len(),
            missed => out == Err::<usize, CartError>(search_error(missed)),
        },
{
    let mut i: usize = 0;
    while i < edges.len()
        invariant
            i <= edges.len(),
            search_handle(store@, edges.deep_view(), partition@, created_at@, 0) == search_handle(
                store@,
                edges.deep_view(),
                partition@,
                created_at@,
                i as int,
            ),
        decreases edges.len() - i,
    {
        match store.read(edges[i].target) {
            None => {},
            Some(EntryTypes::CloneEntry(entry)) => {
                let shown = entry.clone_info.cart_dna_hash.text();
                let written = decimal_text(entry.clone_info.created_at);
                if same_text(shown.as_str(), partition) && same_text(written.as_str(), created_at) {
                    return Ok(i);
                }
            },
            Some(_) => {
                return Err(CartError::SerializationError);
            },
        }
        i += 1;
    }
    Err(CartError::NotFound)
}

/// The partition of the cart of `owner` that `label` names.
///
/// The label is read as `Cart_<partition>_<microseconds>`. The carts filed
/// under the owner are gone through in order; the first whose partition and
/// time of opening both answer to the label gives the result, whatever its
/// status. A cart that answers in one part only does not count.
pub open spec fn cell_for_cart(g: Journal, owner: Seq<u8>, label: Seq<char>) -> Result<CloneCellView, CartError> {
    match label_parts(label) {
        None => Err(CartError::MalformedLabel),
        Some((partition, created_at)) => {
            let edges = indexed(g, owner_path(owner));
            match search_cart(g, edges, partition, created_at, false, 0) {
                Search::Found(at) => {
                    let cart = record_at(g, edges[at].target)->0->Cart_0;
                    Ok(CloneCellView { dna_hash: cart.cart_dna_hash, agent_key: cart.owner })
                },
                missed => Err(search_error(missed)),
            }
        },
    }
}

/// The mathematical value of a lookup's result.
pub open spec fn cell_result_view(out: Result<CloneCell, CartError>) -> Result<CloneCellView, CartError> {
    match out {
        Ok(cell) => Ok(cell@),
        Err(e) => Err(e),
    }
}

/// Finds the partition of the cart of `owner` that the label `cart_id` names.
///
/// Fails with `MalformedLabel` when the label holds no underscore, with
/// `SerializationError` when a record that is no cart is filed under the
/// owner before any match, and with `NotFound` when no cart answers to both
/// parts of the label.
pub fn get_cell_for_cart(store: &GraphStore, owner: &RawHash, cart_id: &str) -> (out: Result<CloneCell, CartError>)
    ensures
        cell_result_view(out) == cell_for_cart(store@, owner@, cart_id@),
{
    let (partition, created_at) = match parse_label(cart_id) {
        Some(parts) => parts,
        None => {
            return Err(CartError::MalformedLabel);
        },
    };
    let path = owner_anchor_path(owner);
    let edges = indexed_edges(store, path.as_str());
    let at = match find_cart(store, &edges, partition.as_str(), created_at.as_str(), false) {
        Ok(at) => at,
        Err(e) => {
            return Err(e);
        },
    };
    match store.read(edges[at].target) {
        Some(EntryTypes::Cart(cart)) => Ok(
            CloneCell { dna_hash: cart.cart_dna_hash.clone(), agent_key: cart.owner.clone() },
        ),
        _ => {
            proof {
                lemma_found_cart(
                    store@,
                    edges.deep_view(),
                    partition@,
                    created_at@,
                    false,
                    0,
                );
            }
            Err(CartError::NotFound)
        },
    }
}

/// Where a search finds a cart, the edge leads to a cart that answers to the
/// label's parts (and is active if that was asked), at a position from
/// `from` on, and no edge between leads to such a cart.
pub proof fn lemma_found_cart(
    g: Journal,
    edges: Seq<EdgeView>,
    partition: Seq<char>,
    created_at: Seq<char>,
    active: bool,
    from: int,
)
    requires
        0 <= from,
        search_cart(g, edges, partition, created_at, active, from) is Found,
    ensures
        ({
            let at = search_cart(g, edges, partition, created_at, active, from)->Found_0;
            &&& from <= at < edges.len()
            &&& record_at(g, edges[at].target) matches Some(EntryView::Cart(cart))
            &&& cart_answers(cart, partition, created_at)
            &&& active ==> cart.status == CartStatus::Active
        }),
    decreases edges.len() - from,
{
    if from < edges.len() {
        match record_at(g, edges[from].target) {
            None => {
                lemma_found_cart(g, edges, partition, created_at, active, from + 1);
            },
            Some(EntryView::Cart(cart)) => {
                if cart_answers(cart, partition, created_at) && (!active || cart.status
                    == CartStatus::Active) {
                } else {
                    lemma_found_cart(g, edges, partition, created_at, active, from + 1);
                }
            },
            Some(_) => {},
        }
    }
}

/// Where a search finds a handle, the edge leads to a handle that answers to
/// the label's parts, at a position from `from` on.
pub proof fn lemma_found_handle(
    g: Journal,
    edges: Seq<EdgeView>,
    partition: Seq<char>,
    created_at: Seq<char>,
    from: int,
)
    requires
        0 <= from,
        search_handle(g, edges, partition, created_at, from) is Found,
    ensures
        ({
            let at = search_handle(g, edges, partition, created_at, from)->Found_0;
            &&& from <= at < edges.len()
            &&& record_at(g, edges[at].target) matches Some(EntryView::CloneEntry(handle))
            &&& handle_answers(handle, partition, created_at)
        }),
    decreases edges.len() - from,
{
    if from < edges.len() {
        match record_at(g, edges[from].target) {
            None => {
                lemma_found_handle(g, edges, partition, created_at, from + 1);
            },
            Some(EntryView::CloneEntry(handle)) => {
                if handle_answers(handle, partition, created_at) {
                } else {
                    lemma_found_handle(g, edges, partition, created_at, from + 1);
                }
            },
            Some(_) => {},
        }
    }
}

} // verus!
