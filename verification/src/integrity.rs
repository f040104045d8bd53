//! The durable entities of the cart subsystem and the relations that index them.

use vstd::prelude::*;
use crate::platform::{display_hash, hash_text};
use crate::text::{copy_bytes, same_bytes};

verus! {

/// The raw bytes of a platform hash: the identity of a peer, of a partition or
/// its template, or the address of a document.
#[derive(Debug)]
pub struct RawHash {
    pub raw: Vec<u8>,
}

impl View for RawHash {
    type V = Seq<u8>;

    open spec fn view(&self) -> Seq<u8> {
        self.raw@
    }
}

impl DeepView for RawHash {
    type V = Seq<u8>;

    open spec fn deep_view(&self) -> Seq<u8> {
        self@
    }
}

impl Clone for RawHash {
    fn clone(&self) -> (out: Self)
        ensures
            out@ == self@,
    {
        RawHash { raw: copy_bytes(self.raw.as_slice()) }
    }
}

impl RawHash {
    pub fn new(raw: Vec<u8>) -> (out: Self)
        ensures
            out@ == raw@,
    {
        RawHash { raw }
    }

    /// Whether both hashes hold the same bytes.
    pub fn same_as(&self, other: &RawHash) -> (same: bool)
        ensures
            same == (self@ == other@),
    {
        same_bytes(self.raw.as_slice(), other.raw.as_slice())
    }

    /// The display form under which the platform shows this hash.
    pub fn text(&self) -> (out: String)
        ensures
            out@ == hash_text(self@),
    {
        display_hash(self.raw.as_slice())
    }
}

/// A copy of optional bytes.
pub fn copy_optional_bytes(a: &Option<Vec<u8>>) -> (out: Option<Vec<u8>>)
    ensures
        bytes_view(out) == bytes_view(*a),
{
    match a {
        Some(bytes) => Some(copy_bytes(bytes.as_slice())),
        None => None,
    }
}

/// The mathematical value of optional bytes.
pub open spec fn bytes_view(a: Option<Vec<u8>>) -> Option<Seq<u8>> {
    match a {
        Some(bytes) => Some(bytes@),
        None => None,
    }
}

/// Where a cart stands in its life. A cart is opened `Active`; checking it out
/// or deleting it publishes a later version that is `Processed`.
#[derive(Clone, Copy, Debug, PartialEq, Eq, Structural)]
pub enum CartStatus {
    Active,
    CheckedOut,
    Processed,
}

/// One version of a cart. A version is never changed once published: a change
/// of status is a new version.
#[derive(Debug)]
pub struct Cart {
    /// The template that every partition is provisioned from.
    pub original_dna_hash: RawHash,
    /// The partition that backs this cart, or the template itself when no
    /// partition had been provisioned.
    pub cart_dna_hash: RawHash,
    /// The document that the cart was opened for.
    pub document_hash: RawHash,
    pub owner: RawHash,
    pub status: CartStatus,
    /// Microseconds since the Unix epoch.
    pub created_at: i64,
    pub cart_name: String,
    pub meta: Option<Vec<u8>>,
}

/// The mathematical value of a [`Cart`].
pub struct CartView {
    pub original_dna_hash: Seq<u8>,
    pub cart_dna_hash: Seq<u8>,
    pub document_hash: Seq<u8>,
    pub owner: Seq<u8>,
    pub status: CartStatus,
    pub created_at: i64,
    pub cart_name: Seq<char>,
    pub meta: Option<Seq<u8>>,
}

impl View for Cart {
    type V = CartView;

    open spec fn view(&self) -> CartView {
        CartView {
            original_dna_hash: self.original_dna_hash@,
            cart_dna_hash: self.cart_dna_hash@,
            document_hash: self.document_hash@,
            owner: self.owner@,
            status: self.status,
            created_at: self.created_at,
            cart_name: self.cart_name@,
            meta: bytes_view(self.meta),
        }
    }
}

impl DeepView for Cart {
    type V = CartView;

    open spec fn deep_view(&self) -> CartView {
        self@
    }
}

impl Clone for Cart {
    fn clone(&self) -> (out: Self)
        ensures
            out@ == self@,
    {
        Cart {
            original_dna_hash: self.original_dna_hash.clone(),
            cart_dna_hash: self.cart_dna_hash.clone(),
            document_hash: self.document_hash.clone(),
            owner: self.owner.clone(),
            status: self.status,
            created_at: self.created_at,
            cart_name: self.cart_name.clone(),
            meta: copy_optional_bytes(&self.meta),
        }
    }
}

impl CartView {
    /// The same cart with another status.
    pub open spec fn with_status(self, status: CartStatus) -> CartView {
        CartView { status, ..self }
    }
}

/// The handle of a provisioned partition.
#[derive(Debug)]
pub struct CartCloneInfo {
    /// The template as the provisioning peer saw it.
    pub dna_hash: RawHash,
    /// The peer that owns the partition.
    pub agent_key: RawHash,
    /// The partition itself.
    pub cart_dna_hash: RawHash,
    pub original_dna_hash: RawHash,
    pub document_hash: RawHash,
    /// Microseconds since the Unix epoch.
    pub created_at: i64,
    /// The label under which the partition was registered.
    pub role_name: String,
    /// The host's own name for the partition, by which it is disabled and deleted.
    pub holochain_clone_id: String,
}

/// The mathematical value of a [`CartCloneInfo`].
pub struct CartCloneInfoView {
    pub dna_hash: Seq<u8>,
    pub agent_key: Seq<u8>,
    pub cart_dna_hash: Seq<u8>,
    pub original_dna_hash: Seq<u8>,
    pub document_hash: Seq<u8>,
    pub created_at: i64,
    pub role_name: Seq<char>,
    pub holochain_clone_id: Seq<char>,
}

impl View for CartCloneInfo {
    type V = CartCloneInfoView;

    open spec fn view(&self) -> CartCloneInfoView {
        CartCloneInfoView {
            dna_hash: self.dna_hash@,
            agent_key: self.agent_key@,
            cart_dna_hash: self.cart_dna_hash@,
            original_dna_hash: self.original_dna_hash@,
            document_hash: self.document_hash@,
            created_at: self.created_at,
            role_name: self.role_name@,
            holochain_clone_id: self.holochain_clone_id@,
        }
    }
}

impl DeepView for CartCloneInfo {
    type V = CartCloneInfoView;

    open spec fn deep_view(&self) -> CartCloneInfoView {
        self@
    }
}

impl Clone for CartCloneInfo {
    fn clone(&self) -> (out: Self)
        ensures
            out@ == self@,
    {
        CartCloneInfo {
            dna_hash: self.dna_hash.clone(),
            agent_key: self.agent_key.clone(),
            cart_dna_hash: self.cart_dna_hash.clone(),
            original_dna_hash: self.original_dna_hash.clone(),
            document_hash: self.document_hash.clone(),
            created_at: self.created_at,
            role_name: self.role_name.clone(),
            holochain_clone_id: self.holochain_clone_id.clone(),
        }
    }
}

/// The record that keeps a partition's handle.
#[derive(Debug)]
pub struct CloneEntry {
    pub clone_info: CartCloneInfo,
}

impl View for CloneEntry {
    type V = CartCloneInfoView;

    open spec fn view(&self) -> CartCloneInfoView {
        self.clone_info@
    }
}

impl Clone for CloneEntry {
    fn clone(&self) -> (out: Self)
        ensures
            out@ == self@,
    {
        CloneEntry { clone_info: self.clone_info.clone() }
    }
}

/// What a published record holds. Documents, workspaces and commits belong to
/// other parts of the application; only their bytes pass through here.
#[derive(Debug)]
pub enum EntryTypes {
    Document(Vec<u8>),
    Workspace(Vec<u8>),
    Commit(Vec<u8>),
    Cart(Cart),
    CloneEntry(CloneEntry),
}

/// The mathematical value of an [`EntryTypes`].
pub enum EntryView {
    Document(Seq<u8>),
    Workspace(Seq<u8>),
    Commit(Seq<u8>),
    Cart(CartView),
    CloneEntry(CartCloneInfoView),
}

impl View for EntryTypes {
    type V = EntryView;

    open spec fn view(&self) -> EntryView {
        match self {
            EntryTypes::Document(bytes) => EntryView::Document(bytes@),
            EntryTypes::Workspace(bytes) => EntryView::Workspace(bytes@),
            EntryTypes::Commit(bytes) => EntryView::Commit(bytes@),
            EntryTypes::Cart(cart) => EntryView::Cart(cart@),
            EntryTypes::CloneEntry(entry) => EntryView::CloneEntry(entry@),
        }
    }
}

impl Clone for EntryTypes {
    fn clone(&self) -> (out: Self)
        ensures
            out@ == self@,
    {
        match self {
            EntryTypes::Document(bytes) => EntryTypes::Document(copy_bytes(bytes.as_slice())),
            EntryTypes::Workspace(bytes) => EntryTypes::Workspace(copy_bytes(bytes.as_slice())),
            EntryTypes::Commit(bytes) => EntryTypes::Commit(copy_bytes(bytes.as_slice())),
            EntryTypes::Cart(cart) => EntryTypes::Cart(cart.clone()),
            EntryTypes::CloneEntry(entry) => EntryTypes::CloneEntry(entry.clone()),
        }
    }
}

/// The relations under which edges are filed.
#[derive(Clone, Copy, Debug, PartialEq, Eq, Structural)]
pub enum LinkTypes {
    TagToDocument,
    DocumentToAuthors,
    DocumentToWorkspaces,
    DocumentToCommits,
    WorkspaceToTip,
    WorkspaceToParticipant,
    /// From an index root to a cart version or to a partition handle.
    CartToDocument,
    CartToParticipant,
    CartToSticky,
    /// The relation under which the per-owner index roots themselves are filed.
    CartPath,
}

} // verus!
