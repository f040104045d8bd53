//! Opening carts: provisioning a partition, keeping its handle, publishing the
//! cart record and filing it under its owner.
//!
//! The host that provisions partitions is outside this library. A caller asks
//! the host with the request that [`clone_request`] builds and hands the
//! host's answer to [`clone_cart_dna`] or [`create_cart`].

use vstd::prelude::*;
use vstd::string::*;
use crate::graph::{anchor_index, ensured, ActionView, GraphStore, Journal};
use crate::integrity::{
    Cart, CartCloneInfo, CartCloneInfoView, CartStatus, CartView, CloneEntry, EntryTypes,
    EntryView, LinkTypes, RawHash,
};
use crate::label::label_head;
use crate::listing::{cart_clones, get_cart_clones};
use crate::platform::{base64_text, display_timestamp, encode_base64, hash_text, timestamp_text};
use crate::text::{copy_bytes, prefix_before, take_before};

verus! {

/// The phases of taking a cart down, in their order.
#[derive(Clone, Copy, Debug, PartialEq, Eq, Structural)]
pub enum Phase {
    Locate,
    Supersede,
    Disable,
    Delete,
}

/// Why an operation on carts failed.
#[derive(Clone, Copy, Debug, PartialEq, Eq, Structural)]
pub enum CartError {
    /// No cart or handle answers the query.
    NotFound,
    /// The host refused to provision a partition.
    ProvisionFailed,
    /// Taking a cart down failed in the given phase.
    DecommissionFailed { phase: Phase },
    /// The label holds no underscore, so it names neither partition nor time.
    MalformedLabel,
    /// A record that had to be read is not of the expected kind.
    SerializationError,
}

/// A partition as the host knows it: which code it runs and for whom.
#[derive(Debug)]
pub struct CloneCell {
    pub dna_hash: RawHash,
    pub agent_key: RawHash,
}

/// The mathematical value of a [`CloneCell`].
pub struct CloneCellView {
    pub dna_hash: Seq<u8>,
    pub agent_key: Seq<u8>,
}

impl View for CloneCell {
    type V = CloneCellView;

    open spec fn view(&self) -> CloneCellView {
        CloneCellView { dna_hash: self.dna_hash@, agent_key: self.agent_key@ }
    }
}

impl Clone for CloneCell {
    fn clone(&self) -> (out: Self)
        ensures
            out@ == self@,
    {
        CloneCell { dna_hash: self.dna_hash.clone(), agent_key: self.agent_key.clone() }
    }
}

/// What a caller says of the cart that it wants a partition for.
#[derive(Debug)]
pub struct CloneCartInput {
    pub document_hash: RawHash,
    pub cart_name: String,
    pub created_at: i64,
}

/// What provisioning gives back.
#[derive(Debug)]
pub struct CloneInfo {
    pub cell_id: CloneCell,
    pub original_dna_hash: RawHash,
    pub cart_dna_hash: RawHash,
    pub created_at: i64,
}

/// The mathematical value of a [`CloneInfo`].
pub struct CloneInfoView {
    pub cell_id: CloneCellView,
    pub original_dna_hash: Seq<u8>,
    pub cart_dna_hash: Seq<u8>,
    pub created_at: i64,
}

impl View for CloneInfo {
    type V = CloneInfoView;

    open spec fn view(&self) -> CloneInfoView {
        CloneInfoView {
            cell_id: self.cell_id@,
            original_dna_hash: self.original_dna_hash@,
            cart_dna_hash: self.cart_dna_hash@,
            created_at: self.created_at,
        }
    }
}

/// What a caller says of the cart record that it wants published.
#[derive(Debug)]
pub struct CreateCartEntryInput {
    pub input: CloneCartInput,
    pub created_at: i64,
}

/// Names the cart to take down, by its label.
#[derive(Debug)]
pub struct DeleteCartInput {
    pub cart_id: String,
}

/// A call that one peer asks another to make on its behalf.
#[derive(Debug)]
pub struct AppCallZomeRequest {
    pub role_name: String,
    pub zome_name: String,
    pub fn_name: String,
    pub payload: DeleteCartInput,
}

/// What the host is asked when a partition is provisioned.
#[derive(Debug)]
pub struct CloneRequest {
    /// The template and the peer that the partition is for.
    pub cell_id: CloneCell,
    /// The proof of membership: the owner's public key.
    pub membrane_proof: Vec<u8>,
    /// The label under which the partition is registered.
    pub name: String,
    /// What sets the partition apart from every other one.
    pub network_seed: String,
}

/// The mathematical value of a [`CloneRequest`].
pub struct CloneRequestView {
    pub cell_id: CloneCellView,
    pub membrane_proof: Seq<u8>,
    pub name: Seq<char>,
    pub network_seed: Seq<char>,
}

impl View for CloneRequest {
    type V = CloneRequestView;

    open spec fn view(&self) -> CloneRequestView {
        CloneRequestView {
            cell_id: self.cell_id@,
            membrane_proof: self.membrane_proof@,
            name: self.name@,
            network_seed: self.network_seed@,
        }
    }
}

/// What the host answers when it has provisioned a partition.
#[derive(Debug)]
pub struct ClonedCell {
    pub cell_id: CloneCell,
    /// The host's own name for the partition.
    pub clone_id: String,
}

/// The mathematical value of a [`ClonedCell`].
pub struct ClonedCellView {
    pub cell_id: CloneCellView,
    pub clone_id: Seq<char>,
}

impl View for ClonedCell {
    type V = ClonedCellView;

    open spec fn view(&self) -> ClonedCellView {
        ClonedCellView { cell_id: self.cell_id@, clone_id: self.clone_id@ }
    }
}

/// A published record together with its address.
#[derive(Debug)]
pub struct Record {
    pub address: usize,
    pub entry: EntryTypes,
}

/// The mathematical value of a [`Record`].
pub struct RecordView {
    pub address: int,
    pub entry: EntryView,
}

impl View for Record {
    type V = RecordView;

    open spec fn view(&self) -> RecordView {
        RecordView { address: self.address as int, entry: self.entry@ }
    }
}

impl DeepView for Record {
    type V = RecordView;

    open spec fn deep_view(&self) -> RecordView {
        self@
    }
}

/// The path of the index root under which every partition handle is filed.
pub open spec fn clones_path() -> Seq<char> {
    "cart_clones"@
}

/// The path of the index root under which the carts of `owner` are filed.
pub open spec fn owner_path(owner: Seq<u8>) -> Seq<char> {
    "carts/owner/"@ + hash_text(owner)
}

/// The name of a cart opened at `created_at`: the word `Cart_` and the
/// timestamp's display form up to its first dot, which cuts it to whole seconds.
pub open spec fn cart_name_of(created_at: int) -> Seq<char> {
    label_head() + prefix_before(timestamp_text(created_at), '.')
}

/// The path of the index root under which the carts of `owner` are filed.
pub fn owner_anchor_path(owner: &RawHash) -> (path: String)
    ensures
        path@ == owner_path(owner@),
{
    let text = owner.text();
    String::from_str("carts/owner/").concat(text.as_str())
}

/// The name of a cart opened at `created_at` (microseconds since the Unix epoch).
pub fn cart_name(created_at: i64) -> (name: String)
    ensures
        name@ == cart_name_of(created_at as int),
{
    proof {
        reveal_strlit("Cart_");
    }
    let shown = display_timestamp(created_at);
    let seconds = take_before(shown.as_str(), '.');
    let name = String::from_str("Cart_").concat(seconds.as_str());
    assert("Cart_"@ =~= label_head());
    name
}

/// The seed that sets a new partition apart: the base64 text of the random
/// bytes that the caller drew for it.
pub fn random_network_seed(random: &[u8]) -> (seed: String)
    ensures
        seed@ == base64_text(random@),
{
    encode_base64(random)
}

/// The request that asks the host for a partition of `template` owned by `owner`.
pub open spec fn request_of(template: Seq<u8>, owner: Seq<u8>, created_at: int, random: Seq<u8>) -> CloneRequestView {
    CloneRequestView {
        cell_id: CloneCellView { dna_hash: template, agent_key: owner },
        membrane_proof: owner,
        name: cart_name_of(created_at),
        network_seed: base64_text(random),
    }
}

/// Builds the request that asks the host for a new partition: the template
/// and the owner, the owner's key as proof of membership, a label made of
/// the time that `input` gives, and a seed made of the caller's random bytes.
pub fn clone_request(template: &RawHash, owner: &RawHash, input: &CloneCartInput, random: &[u8]) -> (request: CloneRequest)
    ensures
        request@ == request_of(template@, owner@, input.created_at as int, random@),
{
    CloneRequest {
        cell_id: CloneCell { dna_hash: template.clone(), agent_key: owner.clone() },
        membrane_proof: copy_bytes(owner.raw.as_slice()),
        name: cart_name(input.created_at),
        network_seed: random_network_seed(random),
    }
}

/// The handle that is kept of a partition provisioned at `created_at`.
pub open spec fn handle_of(template: Seq<u8>, document: Seq<u8>, created_at: i64, cloned: ClonedCellView) -> CartCloneInfoView {
    CartCloneInfoView {
        dna_hash: template,
        agent_key: cloned.cell_id.agent_key,
        cart_dna_hash: cloned.cell_id.dna_hash,
        original_dna_hash: template,
        document_hash: document,
        created_at,
        role_name: cart_name_of(created_at as int),
        holochain_clone_id: cloned.clone_id,
    }
}

/// The journal after `entry` has been published and filed under the index
/// root for `path`: the root if it was missing, the record, and the edge
/// from the one to the other.
pub open spec fn filed(g: Journal, path: Seq<char>, entry: EntryView) -> Journal {
    let rooted = ensured(g, path);
    rooted.push(ActionView::Publish { entry }).push(
        ActionView::Link {
            source: anchor_index(g, path),
            target: rooted.len() as int,
            relation: LinkTypes::CartToDocument,
            tag: Seq::empty(),
        },
    )
}

/// The address that `filed` gives the record.
pub open spec fn filed_at(g: Journal, path: Seq<char>) -> int {
    ensured(g, path).len() as int
}

/// Publishes `entry` and files it under the index root for `path`.
pub fn file_under(store: &mut GraphStore, path: &str, entry: EntryTypes) -> (at: usize)
    ensures
        final(store)@ == filed(old(store)@, path@, entry@),
        at == filed_at(old(store)@, path@),
{
    let root = store.ensure(path);
    let ghost rooted = store@;
    let at = store.publish(entry);
    let edge = store.link(root, at, LinkTypes::CartToDocument, Vec::new());
    assert(edge is Some);
    at
}

/// The journal after the host's answer to a provisioning request has been
/// taken in: unchanged when the host refused, else with the handle filed
/// under the root of all handles.
pub open spec fn provisioned(g: Journal, template: Seq<u8>, document: Seq<u8>, created_at: i64, answer: Option<ClonedCellView>) -> Journal {
    match answer {
        Some(cloned) => filed(
            g,
            clones_path(),
            EntryView::CloneEntry(handle_of(template, document, created_at, cloned)),
        ),
        None => g,
    }
}

/// The mathematical value of the host's answer.
pub open spec fn answer_view(answer: Option<ClonedCell>) -> Option<ClonedCellView> {
    match answer {
        Some(cloned) => Some(cloned@),
        None => None,
    }
}

/// Keeps the handle of the partition that the host has provisioned, if it
/// has, and reports the partition back.
fn keep_handle(
    store: &mut GraphStore,
    document: &RawHash,
    template: &RawHash,
    created_at: i64,
    answer: Option<ClonedCell>,
) -> (out: Result<CloneInfo, CartError>)
    ensures
        final(store)@ == provisioned(
            old(store)@,
            template@,
            document@,
            created_at,
            answer_view(answer),
        ),
        match out {
            Ok(info) => answer is Some && info@ == (CloneInfoView {
                cell_id: answer->0.cell_id@,
                original_dna_hash: template@,
                cart_dna_hash: answer->0.cell_id.dna_hash@,
                created_at,
            }),
            Err(e) => answer is None && e == CartError::ProvisionFailed,
        },
{
    let cloned = match answer {
        Some(cloned) => cloned,
        None => {
            return Err(CartError::ProvisionFailed);
        },
    };
    let handle = CartCloneInfo {
        dna_hash: template.clone(),
        agent_key: cloned.cell_id.agent_key.clone(),
        cart_dna_hash: cloned.cell_id.dna_hash.clone(),
        original_dna_hash: template.clone(),
        document_hash: document.clone(),
        created_at,
        role_name: cart_name(created_at),
        holochain_clone_id: cloned.clone_id,
    };
    let partition = cloned.cell_id.dna_hash.clone();
    file_under(store, "cart_clones", EntryTypes::CloneEntry(CloneEntry { clone_info: handle }));
    Ok(
        CloneInfo {
            cell_id: cloned.cell_id,
            original_dna_hash: template.clone(),
            cart_dna_hash: partition,
            created_at,
        },
    )
}

/// Takes in the host's answer to the request that [`clone_request`] built
/// for `input`.
///
/// When the host refused (`None`), provisioning has failed and nothing is
/// written. Otherwise the partition's handle is published and filed under the
/// root of all handles, and the partition is reported back. The handle keeps
/// the document and the time that `input` gives, and the label made of that
/// time; the name that `input` carries is not looked at.
pub fn clone_cart_dna(
    store: &mut GraphStore,
    input: &CloneCartInput,
    template: &RawHash,
    answer: Option<ClonedCell>,
) -> (out: Result<CloneInfo, CartError>)
    ensures
        final(store)@ == provisioned(
            old(store)@,
            template@,
            input.document_hash@,
            input.created_at,
            answer_view(answer),
        ),
        match out {
            Ok(info) => answer is Some && info@ == (CloneInfoView {
                cell_id: answer->0.cell_id@,
                original_dna_hash: template@,
                cart_dna_hash: answer->0.cell_id.dna_hash@,
                created_at: input.created_at,
            }),
            Err(e) => answer is None && e == CartError::ProvisionFailed,
        },
{
    keep_handle(store, &input.document_hash, template, input.created_at, answer)
}

/// The cart record that is published when a cart is opened.
pub open spec fn new_cart(template: Seq<u8>, partition: Seq<u8>, document: Seq<u8>, owner: Seq<u8>, created_at: i64) -> CartView {
    CartView {
        original_dna_hash: template,
        cart_dna_hash: partition,
        document_hash: document,
        owner,
        status: CartStatus::Active,
        created_at,
        cart_name: cart_name_of(created_at as int),
        meta: None,
    }
}

/// Publishes an active cart on `partition` and files it under its owner.
fn open_cart(
    store: &mut GraphStore,
    template: &RawHash,
    partition: RawHash,
    document: &RawHash,
    owner: &RawHash,
    created_at: i64,
) -> (out: Record)
    ensures
        final(store)@ == filed(
            old(store)@,
            owner_path(owner@),
            EntryView::Cart(new_cart(template@, partition@, document@, owner@, created_at)),
        ),
        out@ == (RecordView {
            address: filed_at(old(store)@, owner_path(owner@)),
            entry: EntryView::Cart(new_cart(template@, partition@, document@, owner@, created_at)),
        }),
{
    let cart = Cart {
        original_dna_hash: template.clone(),
        cart_dna_hash: partition,
        document_hash: document.clone(),
        owner: owner.clone(),
        status: CartStatus::Active,
        created_at,
        cart_name: cart_name(created_at),
        meta: None,
    };
    let path = owner_anchor_path(owner);
    let address = file_under(store, path.as_str(), EntryTypes::Cart(cart.clone()));
    Record { address, entry: EntryTypes::Cart(cart) }
}

/// Whether a handle is of a partition that was provisioned for `owner` with
/// an input that gives this document and this time.
pub open spec fn provisioned_for(handle: CartCloneInfoView, owner: Seq<u8>, document: Seq<u8>, created_at: i64) -> bool {
    handle.agent_key == owner && handle.document_hash == document && handle.created_at
        == created_at
}

/// Among `handles`, the one filed last that was provisioned for `owner` with
/// this document and time, if there is one.
pub open spec fn last_handle_for(handles: Seq<CartCloneInfoView>, owner: Seq<u8>, document: Seq<u8>, created_at: i64) -> Option<CartCloneInfoView>
    decreases handles.len(),
{
    if handles.len() == 0 {
        None
    } else if provisioned_for(handles.last(), owner, document, created_at) {
        Some(handles.last())
    } else {
        last_handle_for(handles.drop_last(), owner, document, created_at)
    }
}

/// The partition that a cart opened for `owner` refers to: that of the
/// handle on file that was provisioned for this cart, which is the one filed
/// last for the same owner, document and time; the template itself when no
/// partition was provisioned for the cart.
pub open spec fn partition_for(g: Journal, template: Seq<u8>, owner: Seq<u8>, document: Seq<u8>, created_at: i64) -> Seq<u8> {
    match last_handle_for(cart_clones(g), owner, document, created_at) {
        Some(handle) => handle.cart_dna_hash,
        None => template,
    }
}

/// The cart record that [`create_cart_entry`] publishes.
pub open spec fn cart_entry_of(g: Journal, template: Seq<u8>, owner: Seq<u8>, document: Seq<u8>, provisioned_at: i64, created_at: i64) -> CartView {
    new_cart(
        template,
        partition_for(g, template, owner, document, provisioned_at),
        document,
        owner,
        created_at,
    )
}

/// Finds the partition that a cart opened for `owner` refers to.
fn find_partition(store: &GraphStore, template: &RawHash, owner: &RawHash, input: &CloneCartInput) -> (out: RawHash)
    ensures
        out@ == partition_for(
            store@,
            template@,
            owner@,
            input.document_hash@,
            input.created_at,
        ),
{
    let handles = get_cart_clones(store);
    let ghost all = handles.deep_view();
    let mut i: usize = handles.len();
    assert(all.take(i as int) =~= all);
    while i > 0
        invariant
            i <= handles.len(),
            all == handles.deep_view(),
            all == cart_clones(store@),
            last_handle_for(all, owner@, input.document_hash@, input.created_at) == last_handle_for(
                all.take(i as int),
                owner@,
                input.document_hash@,
                input.created_at,
            ),
        decreases i,
    {
        i -= 1;
        let handle = &handles[i];
        assert(all.take(i + 1).last() == handle@);
        assert(all.take(i + 1).drop_last() =~= all.take(i as int));
        if handle.agent_key.same_as(owner) && handle.document_hash.same_as(&input.document_hash)
            && handle.created_at == input.created_at {
            return handle.cart_dna_hash.clone();
        }
    }
    template.clone()
}

/// Publishes the record of a cart that `owner` opens at
/// `entry_input.created_at`, and files it under the owner. The cart is
/// active. It refers to the partition that was provisioned for it: that of
/// the handle filed last for the same owner with the document and time of
/// `entry_input.input`, the input that its partition was provisioned with.
/// When no partition was provisioned for it, it refers to the template.
pub fn create_cart_entry(
    store: &mut GraphStore,
    entry_input: &CreateCartEntryInput,
    template: &RawHash,
    owner: &RawHash,
) -> (out: Record)
    ensures
        final(store)@ == filed(
            old(store)@,
            owner_path(owner@),
            EntryView::Cart(
                cart_entry_of(
                    old(store)@,
                    template@,
                    owner@,
                    entry_input.input.document_hash@,
                    entry_input.input.created_at,
                    entry_input.created_at,
                ),
            ),
        ),
        out@ == (RecordView {
            address: filed_at(old(store)@, owner_path(owner@)),
            entry: EntryView::Cart(
                cart_entry_of(
                    old(store)@,
                    template@,
                    owner@,
                    entry_input.input.document_hash@,
                    entry_input.input.created_at,
                    entry_input.created_at,
                ),
            ),
        }),
{
    let partition = find_partition(store, template, owner, &entry_input.input);
    open_cart(
        store,
        template,
        partition,
        &entry_input.input.document_hash,
        owner,
        entry_input.created_at,
    )
}

/// The journal after a cart has been opened: unchanged when the host refused
/// the partition, else with the handle filed and then the cart, which refers
/// to the new partition.
pub open spec fn cart_created(g: Journal, template: Seq<u8>, document: Seq<u8>, owner: Seq<u8>, created_at: i64, answer: Option<ClonedCellView>) -> Journal {
    match answer {
        Some(cloned) => filed(
            provisioned(g, template, document, created_at, answer),
            owner_path(owner),
            EntryView::Cart(
                new_cart(template, cloned.cell_id.dna_hash, document, owner, created_at),
            ),
        ),
        None => g,
    }
}

/// Opens a cart for `owner`: takes in the host's answer to the provisioning
/// request, keeps the new partition's handle, publishes an active cart that
/// refers to the new partition, and files it under the owner.
///
/// When the host refused (`None`), the cart is not opened and nothing is
/// written.
pub fn create_cart(
    store: &mut GraphStore,
    template: &RawHash,
    owner: &RawHash,
    document: &RawHash,
    created_at: i64,
    answer: Option<ClonedCell>,
) -> (out: Result<Record, CartError>)
    ensures
        final(store)@ == cart_created(
            old(store)@,
            template@,
            document@,
            owner@,
            created_at,
            answer_view(answer),
        ),
        match out {
            Ok(record) => answer is Some && record@ == (RecordView {
                address: filed_at(
                    provisioned(old(store)@, template@, document@, created_at, answer_view(answer)),
                    owner_path(owner@),
                ),
                entry: EntryView::Cart(
                    new_cart(
                        template@,
                        answer->0.cell_id.dna_hash@,
                        document@,
                        owner@,
                        created_at,
                    ),
                ),
            }),
            Err(e) => answer is None && e == CartError::ProvisionFailed,
        },
{
    match keep_handle(store, document, template, created_at, answer) {
        Ok(info) => Ok(open_cart(store, template, info.cart_dna_hash, document, owner, created_at)),
        Err(e) => Err(e),
    }
}

} // verus!
