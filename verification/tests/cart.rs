use cart_clones::cart::{
    cart_name, clone_cart_dna, clone_request, create_cart, create_cart_entry, owner_anchor_path,
    random_network_seed, CartError, CloneCartInput, CloneCell, ClonedCell, CreateCartEntryInput,
    DeleteCartInput, Phase, Record,
};
use cart_clones::graph::GraphStore;
use cart_clones::integrity::{Cart, CartStatus, EntryTypes, LinkTypes, RawHash};
use cart_clones::label::cart_label;
use cart_clones::listing::{get_all_carts, get_cart_clones, get_cart_contents, get_cell_for_cart};
use cart_clones::teardown::{delete_cart, HostCall, HostReply};

fn hash(prefix: [u8; 3], fill: u8) -> RawHash {
    let mut raw = prefix.to_vec();
    raw.extend(std::iter::repeat(fill).take(36));
    RawHash::new(raw)
}

fn dna(fill: u8) -> RawHash {
    hash([132, 45, 36], fill)
}

fn agent(fill: u8) -> RawHash {
    hash([132, 32, 36], fill)
}

fn document(fill: u8) -> RawHash {
    hash([132, 41, 36], fill)
}

fn cloned(partition: &RawHash, owner: &RawHash, clone_id: &str) -> Option<ClonedCell> {
    Some(ClonedCell {
        cell_id: CloneCell { dna_hash: partition.clone(), agent_key: owner.clone() },
        clone_id: clone_id.to_string(),
    })
}

fn cart_of(record: &Record) -> &Cart {
    match &record.entry {
        EntryTypes::Cart(cart) => cart,
        other => panic!("not a cart: {:?}", other),
    }
}

fn label_for(partition: &RawHash, created_at: i64) -> String {
    cart_label(&partition.text(), created_at)
}

#[test]
fn hash_text_is_the_platform_form() {
    let zeros = RawHash::new(vec![0u8; 39]);
    assert_eq!(zeros.text(), format!("u{}", "A".repeat(52)));
    let partition = dna(0xdb);
    let text = partition.text();
    assert_eq!(text.len(), 53);
    assert!(text.starts_with("uhC0k"));
    assert!(agent(1).text().starts_with("uhCAk"));
    assert_ne!(dna(1).text(), dna(2).text());
}

#[test]
fn network_seed_is_base64_of_the_random_bytes() {
    assert_eq!(random_network_seed(b"hello"), "aGVsbG8=");
    assert_eq!(random_network_seed(&[]), "");
    assert_eq!(random_network_seed(&[0u8; 32]), format!("{}=", "A".repeat(43)));
    assert_eq!(random_network_seed(&[0xfb, 0xff]), "+/8=");
}

#[test]
fn cart_name_cuts_the_timestamp_to_whole_seconds() {
    assert_eq!(cart_name(1000), "Cart_1970-01-01T00:00:00");
    assert_eq!(cart_name(1_588_706_164_266_431), "Cart_2020-05-05T19:16:04");
    assert_eq!(cart_name(1_500_000), "Cart_1970-01-01T00:00:01");
}

#[test]
fn cart_name_keeps_a_timestamp_without_fraction_whole() {
    assert_eq!(cart_name(0), "Cart_1970-01-01T00:00:00Z");
    assert_eq!(cart_name(2_000_000), "Cart_1970-01-01T00:00:02Z");
}

#[test]
fn cart_name_of_a_time_that_has_no_date() {
    assert_eq!(cart_name(i64::MAX), format!("Cart_({}μs)", i64::MAX));
    assert_eq!(cart_name(-1), "Cart_(-1μs)");
}

#[test]
fn owner_path_holds_the_owner_text() {
    let owner = agent(7);
    assert_eq!(owner_anchor_path(&owner), format!("carts/owner/{}", owner.text()));
}

#[test]
fn clone_request_carries_seed_label_and_proof() {
    let template = dna(1);
    let owner = agent(2);
    let input = CloneCartInput {
        document_hash: document(4),
        cart_name: "not looked at".to_string(),
        created_at: 1000,
    };
    let request = clone_request(&template, &owner, &input, b"hello");
    assert_eq!(request.cell_id.dna_hash.raw, template.raw);
    assert_eq!(request.cell_id.agent_key.raw, owner.raw);
    assert_eq!(request.membrane_proof, owner.raw);
    assert_eq!(request.name, "Cart_1970-01-01T00:00:00");
    assert_eq!(request.network_seed, "aGVsbG8=");
}

#[test]
fn clone_cart_dna_files_the_handle() {
    let mut store = GraphStore::new();
    let (template, owner, partition) = (dna(1), agent(2), dna(3));
    let input = CloneCartInput {
        document_hash: document(4),
        cart_name: "not looked at".to_string(),
        created_at: 1000,
    };
    let info =
        clone_cart_dna(&mut store, &input, &template, cloned(&partition, &owner, "cart.0")).unwrap();
    assert_eq!(info.cart_dna_hash.raw, partition.raw);
    assert_eq!(info.original_dna_hash.raw, template.raw);
    assert_eq!(info.cell_id.dna_hash.raw, partition.raw);
    assert_eq!(info.cell_id.agent_key.raw, owner.raw);
    assert_eq!(info.created_at, 1000);
    let handles = get_cart_clones(&store);
    assert_eq!(handles.len(), 1);
    let handle = &handles[0];
    assert_eq!(handle.dna_hash.raw, template.raw);
    assert_eq!(handle.original_dna_hash.raw, template.raw);
    assert_eq!(handle.agent_key.raw, owner.raw);
    assert_eq!(handle.cart_dna_hash.raw, partition.raw);
    assert_eq!(handle.document_hash.raw, document(4).raw);
    assert_eq!(handle.created_at, 1000);
    assert_eq!(handle.role_name, "Cart_1970-01-01T00:00:00");
    assert_eq!(handle.holochain_clone_id, "cart.0");
    assert_eq!(store.len(), 3);
}

#[test]
fn clone_cart_dna_fails_when_the_host_refuses() {
    let mut store = GraphStore::new();
    let input = CloneCartInput {
        document_hash: document(4),
        cart_name: String::new(),
        created_at: 0,
    };
    let out = clone_cart_dna(&mut store, &input, &dna(1), None);
    assert_eq!(out.err(), Some(CartError::ProvisionFailed));
    assert_eq!(store.len(), 0);
    assert!(get_cart_clones(&store).is_empty());
}

#[test]
fn get_cart_clones_lists_every_owner_in_filing_order() {
    let mut store = GraphStore::new();
    let template = dna(1);
    create_cart(&mut store, &template, &agent(2), &document(9), 10, cloned(&dna(3), &agent(2), "cart.0"))
        .unwrap();
    create_cart(&mut store, &template, &agent(5), &document(9), 20, cloned(&dna(6), &agent(5), "cart.1"))
        .unwrap();
    let handles = get_cart_clones(&store);
    assert_eq!(handles.len(), 2);
    assert_eq!(handles[0].cart_dna_hash.raw, dna(3).raw);
    assert_eq!(handles[0].agent_key.raw, agent(2).raw);
    assert_eq!(handles[1].cart_dna_hash.raw, dna(6).raw);
    assert_eq!(handles[1].agent_key.raw, agent(5).raw);
}

#[test]
fn get_cart_clones_leaves_out_what_is_no_handle() {
    let mut store = GraphStore::new();
    let root = store.ensure("cart_clones");
    let stray = store.publish(EntryTypes::Document(vec![1, 2]));
    store.link(root, stray, LinkTypes::CartToDocument, vec![]).unwrap();
    store.link(root, root, LinkTypes::CartToDocument, vec![]).unwrap();
    create_cart(&mut store, &dna(1), &agent(2), &document(9), 10, cloned(&dna(3), &agent(2), "cart.0"))
        .unwrap();
    let handles = get_cart_clones(&store);
    assert_eq!(handles.len(), 1);
    assert_eq!(handles[0].cart_dna_hash.raw, dna(3).raw);
}

#[test]
fn a_created_cart_is_listed_as_active() {
    let mut store = GraphStore::new();
    let (template, owner, partition, doc) = (dna(1), agent(2), dna(3), document(4));
    let record =
        create_cart(&mut store, &template, &owner, &doc, 1000, cloned(&partition, &owner, "cart.0"))
            .unwrap();
    let cart = cart_of(&record);
    assert_eq!(cart.status, CartStatus::Active);
    assert_eq!(cart.owner.raw, owner.raw);
    assert_eq!(cart.cart_dna_hash.raw, partition.raw);
    assert_eq!(cart.original_dna_hash.raw, template.raw);
    assert_eq!(cart.document_hash.raw, doc.raw);
    assert_eq!(cart.created_at, 1000);
    assert_eq!(cart.cart_name, "Cart_1970-01-01T00:00:00");
    assert_eq!(cart.meta, None);
    let listed = get_all_carts(&store, &owner);
    assert_eq!(listed.len(), 1);
    assert_eq!(listed[0].address, record.address);
    let listed_cart = cart_of(&listed[0]);
    assert_eq!(listed_cart.status, CartStatus::Active);
    assert_eq!(listed_cart.cart_dna_hash.raw, partition.raw);
    assert_eq!(listed_cart.created_at, 1000);
    assert!(get_all_carts(&store, &agent(9)).is_empty());
}

#[test]
fn a_refused_partition_opens_no_cart() {
    let mut store = GraphStore::new();
    let owner = agent(2);
    let out = create_cart(&mut store, &dna(1), &owner, &document(4), 1000, None);
    assert_eq!(out.err(), Some(CartError::ProvisionFailed));
    assert!(get_all_carts(&store, &owner).is_empty());
    assert_eq!(store.len(), 0);
}

#[test]
fn a_label_that_answers_in_one_part_is_not_found() {
    let mut store = GraphStore::new();
    let (owner, partition) = (agent(2), dna(3));
    create_cart(&mut store, &dna(1), &owner, &document(4), 1000, cloned(&partition, &owner, "cart.0"))
        .unwrap();
    let len = store.len();
    let wrong_time = DeleteCartInput { cart_id: label_for(&partition, 1001) };
    assert_eq!(delete_cart(&mut store, &owner, &wrong_time).err(), Some(CartError::NotFound));
    let wrong_partition = DeleteCartInput { cart_id: label_for(&dna(8), 1000) };
    assert_eq!(delete_cart(&mut store, &owner, &wrong_partition).err(), Some(CartError::NotFound));
    assert_eq!(store.len(), len);
    assert_eq!(get_all_carts(&store, &owner).len(), 1);
    assert_eq!(
        get_cell_for_cart(&store, &owner, &label_for(&partition, 1001)).err(),
        Some(CartError::NotFound)
    );
}

#[test]
fn a_failed_disable_leaves_the_cart_processed() {
    let mut store = GraphStore::new();
    let (owner, partition) = (agent(2), dna(3));
    let created =
        create_cart(&mut store, &dna(1), &owner, &document(4), 1000, cloned(&partition, &owner, "cart.0"))
            .unwrap();
    let input = DeleteCartInput { cart_id: label_for(&partition, 1000) };
    let teardown = delete_cart(&mut store, &owner, &input).unwrap();
    assert!(matches!(teardown.pending(), Some(HostCall::Disable { clone_id }) if clone_id == "cart.0"));
    assert_eq!(teardown.outcome(), None);
    let failed = teardown.advance(&mut store, HostReply::Failed);
    assert_eq!(
        failed.outcome(),
        Some(Err(CartError::DecommissionFailed { phase: Phase::Disable }))
    );
    assert!(failed.pending().is_none());
    assert!(get_all_carts(&store, &owner).is_empty());
    let contents = get_cart_contents(&store);
    assert_eq!(contents.len(), 1);
    assert_ne!(contents[0].address, created.address);
    assert_eq!(cart_of(&contents[0]).status, CartStatus::Processed);
    assert_eq!(cart_of(&contents[0]).cart_dna_hash.raw, partition.raw);
    match store.read(created.address) {
        Some(EntryTypes::Cart(old)) => assert_eq!(old.status, CartStatus::Active),
        other => panic!("the old version is gone: {:?}", other),
    }
    assert_eq!(get_cart_clones(&store).len(), 1);
    assert_eq!(delete_cart(&mut store, &owner, &input).err(), Some(CartError::NotFound));
}

#[test]
fn teardown_deletes_only_after_disable() {
    let mut store = GraphStore::new();
    let (owner, partition) = (agent(2), dna(3));
    create_cart(&mut store, &dna(1), &owner, &document(4), 1000, cloned(&partition, &owner, "cart.0"))
        .unwrap();
    let input = DeleteCartInput { cart_id: label_for(&partition, 1000) };
    let teardown = delete_cart(&mut store, &owner, &input).unwrap();
    let deleting = teardown.advance(&mut store, HostReply::Done);
    assert!(matches!(deleting.pending(), Some(HostCall::Delete { clone_id }) if clone_id == "cart.0"));
    assert_eq!(get_cart_clones(&store).len(), 1);
    let finished = deleting.advance(&mut store, HostReply::Done);
    assert_eq!(finished.outcome(), Some(Ok(())));
    assert!(finished.pending().is_none());
    assert!(get_cart_clones(&store).is_empty());
    assert!(get_all_carts(&store, &owner).is_empty());
    let len = store.len();
    let still = finished.advance(&mut store, HostReply::Done);
    assert_eq!(still.outcome(), Some(Ok(())));
    assert!(still.pending().is_none());
    assert_eq!(store.len(), len);
}

#[test]
fn teardown_keeps_the_handle_when_delete_fails() {
    let mut store = GraphStore::new();
    let (owner, partition) = (agent(2), dna(3));
    create_cart(&mut store, &dna(1), &owner, &document(4), 1000, cloned(&partition, &owner, "cart.0"))
        .unwrap();
    let input = DeleteCartInput { cart_id: label_for(&partition, 1000) };
    let teardown = delete_cart(&mut store, &owner, &input).unwrap();
    let deleting = teardown.advance(&mut store, HostReply::Done);
    let failed = deleting.advance(&mut store, HostReply::Failed);
    assert_eq!(
        failed.outcome(),
        Some(Err(CartError::DecommissionFailed { phase: Phase::Delete }))
    );
    assert_eq!(get_cart_clones(&store).len(), 1);
    assert!(get_all_carts(&store, &owner).is_empty());
    let again = failed.advance(&mut store, HostReply::Done);
    assert_eq!(
        again.outcome(),
        Some(Err(CartError::DecommissionFailed { phase: Phase::Delete }))
    );
    assert!(again.pending().is_none());
}

#[test]
fn delete_cart_refuses_a_malformed_label() {
    let mut store = GraphStore::new();
    let owner = agent(2);
    create_cart(&mut store, &dna(1), &owner, &document(4), 1000, cloned(&dna(3), &owner, "cart.0"))
        .unwrap();
    let len = store.len();
    let input = DeleteCartInput { cart_id: "Cart".to_string() };
    assert_eq!(delete_cart(&mut store, &owner, &input).err(), Some(CartError::MalformedLabel));
    assert_eq!(
        get_cell_for_cart(&store, &owner, "nounderscore").err(),
        Some(CartError::MalformedLabel)
    );
    assert_eq!(store.len(), len);
}

#[test]
fn delete_cart_fails_in_the_disable_phase_on_a_clone_id_the_host_cannot_know() {
    for bad in ["no-dot", "two.dots.0", "cart.x", "cart.", "cart.-1", "cart.4294967296"] {
        let mut store = GraphStore::new();
        let (owner, partition) = (agent(2), dna(3));
        create_cart(&mut store, &dna(1), &owner, &document(4), 1000, cloned(&partition, &owner, bad))
            .unwrap();
        let input = DeleteCartInput { cart_id: label_for(&partition, 1000) };
        assert_eq!(
            delete_cart(&mut store, &owner, &input).err(),
            Some(CartError::DecommissionFailed { phase: Phase::Disable }),
            "clone id {:?}",
            bad
        );
        assert!(get_all_carts(&store, &owner).is_empty());
        assert_eq!(get_cart_clones(&store).len(), 1);
    }
}

#[test]
fn delete_cart_names_the_clone_in_the_platform_form() {
    for (kept, asked) in [("cart.0", "cart.0"), ("cart.+7", "cart.7"), ("cart.007", "cart.7"), (".4294967295", ".4294967295")] {
        let mut store = GraphStore::new();
        let (owner, partition) = (agent(2), dna(3));
        create_cart(&mut store, &dna(1), &owner, &document(4), 1000, cloned(&partition, &owner, kept))
            .unwrap();
        let input = DeleteCartInput { cart_id: label_for(&partition, 1000) };
        let teardown = delete_cart(&mut store, &owner, &input).unwrap();
        assert!(
            matches!(teardown.pending(), Some(HostCall::Disable { clone_id }) if clone_id == asked),
            "clone id {:?}",
            kept
        );
    }
}

#[test]
fn delete_cart_needs_the_handle() {
    let mut store = GraphStore::new();
    let (template, owner) = (dna(1), agent(2));
    let input = CreateCartEntryInput {
        input: CloneCartInput { document_hash: document(4), cart_name: String::new(), created_at: 0 },
        created_at: 1000,
    };
    create_cart_entry(&mut store, &input, &template, &owner);
    assert_eq!(get_all_carts(&store, &owner).len(), 1);
    let label = DeleteCartInput { cart_id: label_for(&template, 1000) };
    assert_eq!(delete_cart(&mut store, &owner, &label).err(), Some(CartError::NotFound));
    assert_eq!(get_all_carts(&store, &owner).len(), 1);
}

#[test]
fn delete_cart_is_stopped_by_a_record_of_another_kind() {
    let mut store = GraphStore::new();
    let (owner, partition) = (agent(2), dna(3));
    let root = store.ensure(&owner_anchor_path(&owner));
    let stray = store.publish(EntryTypes::Commit(vec![1]));
    store.link(root, stray, LinkTypes::CartToDocument, vec![]).unwrap();
    create_cart(&mut store, &dna(1), &owner, &document(4), 1000, cloned(&partition, &owner, "cart.0"))
        .unwrap();
    let len = store.len();
    let label = label_for(&partition, 1000);
    let input = DeleteCartInput { cart_id: label.clone() };
    assert_eq!(delete_cart(&mut store, &owner, &input).err(), Some(CartError::SerializationError));
    assert_eq!(
        get_cell_for_cart(&store, &owner, &label).err(),
        Some(CartError::SerializationError)
    );
    assert_eq!(store.len(), len);
    assert_eq!(get_all_carts(&store, &owner).len(), 1);
}

fn provision_input(doc: u8, created_at: i64) -> CloneCartInput {
    CloneCartInput { document_hash: document(doc), cart_name: String::new(), created_at }
}

#[test]
fn create_cart_entry_refers_to_the_template_when_nothing_was_provisioned() {
    let mut store = GraphStore::new();
    let (template, owner) = (dna(1), agent(2));
    let input = CreateCartEntryInput { input: provision_input(4, 7), created_at: 1000 };
    let cart = create_cart_entry(&mut store, &input, &template, &owner);
    assert_eq!(cart_of(&cart).cart_dna_hash.raw, template.raw);
    assert_eq!(cart_of(&cart).original_dna_hash.raw, template.raw);
    assert_eq!(cart_of(&cart).status, CartStatus::Active);
    assert_eq!(cart_of(&cart).created_at, 1000);
    assert_eq!(cart_of(&cart).document_hash.raw, document(4).raw);
    assert_eq!(cart_of(&cart).owner.raw, owner.raw);
    assert_eq!(cart_of(&cart).cart_name, "Cart_1970-01-01T00:00:00");
    assert_eq!(get_all_carts(&store, &owner).len(), 1);
}

#[test]
fn create_cart_entry_refers_to_the_partition_provisioned_for_the_cart() {
    let mut store = GraphStore::new();
    let (template, owner) = (dna(1), agent(2));
    clone_cart_dna(&mut store, &provision_input(4, 2000), &template, cloned(&dna(3), &owner, "cart.0"))
        .unwrap();
    let first = create_cart_entry(
        &mut store,
        &CreateCartEntryInput { input: provision_input(4, 2000), created_at: 2000 },
        &template,
        &owner,
    );
    assert_eq!(cart_of(&first).cart_dna_hash.raw, dna(3).raw);
    clone_cart_dna(&mut store, &provision_input(4, 3000), &template, cloned(&dna(5), &owner, "cart.1"))
        .unwrap();
    let second = create_cart_entry(
        &mut store,
        &CreateCartEntryInput { input: provision_input(4, 3000), created_at: 3000 },
        &template,
        &owner,
    );
    assert_eq!(cart_of(&second).cart_dna_hash.raw, dna(5).raw);
    let active = get_all_carts(&store, &owner);
    assert_eq!(active.len(), 2);
    assert_ne!(cart_of(&active[0]).cart_dna_hash.raw, cart_of(&active[1]).cart_dna_hash.raw);
}

#[test]
fn create_cart_entry_takes_the_handle_filed_last_for_the_cart() {
    let mut store = GraphStore::new();
    let (template, owner) = (dna(1), agent(2));
    clone_cart_dna(&mut store, &provision_input(4, 2000), &template, cloned(&dna(3), &owner, "cart.0"))
        .unwrap();
    clone_cart_dna(&mut store, &provision_input(4, 2000), &template, cloned(&dna(5), &owner, "cart.1"))
        .unwrap();
    clone_cart_dna(&mut store, &provision_input(9, 2000), &template, cloned(&dna(6), &owner, "cart.2"))
        .unwrap();
    let cart = create_cart_entry(
        &mut store,
        &CreateCartEntryInput { input: provision_input(4, 2000), created_at: 2000 },
        &template,
        &owner,
    );
    assert_eq!(cart_of(&cart).cart_dna_hash.raw, dna(5).raw);
}

#[test]
fn create_cart_entry_passes_over_handles_of_other_carts() {
    let mut store = GraphStore::new();
    let (template, owner) = (dna(1), agent(2));
    clone_cart_dna(&mut store, &provision_input(4, 2000), &template, cloned(&dna(3), &owner, "cart.0"))
        .unwrap();
    for (other_owner, doc, at) in [(agent(8), 4, 2000), (agent(2), 9, 2000), (agent(2), 4, 2001)] {
        let cart = create_cart_entry(
            &mut store,
            &CreateCartEntryInput { input: provision_input(doc, at), created_at: at },
            &template,
            &other_owner,
        );
        assert_eq!(cart_of(&cart).cart_dna_hash.raw, template.raw);
    }
}

#[test]
fn provisioning_and_publishing_a_cart_in_two_steps_can_be_taken_down() {
    let mut store = GraphStore::new();
    let (template, owner) = (dna(1), agent(2));
    create_cart(&mut store, &template, &owner, &document(4), 1000, cloned(&dna(3), &owner, "cart.0"))
        .unwrap();
    let info =
        clone_cart_dna(&mut store, &provision_input(4, 2000), &template, cloned(&dna(5), &owner, "cart.1"))
            .unwrap();
    assert_eq!(info.created_at, 2000);
    let cart = create_cart_entry(
        &mut store,
        &CreateCartEntryInput { input: provision_input(4, 2000), created_at: info.created_at },
        &template,
        &owner,
    );
    assert_eq!(cart_of(&cart).cart_dna_hash.raw, dna(5).raw);
    let active = get_all_carts(&store, &owner);
    assert_eq!(active.len(), 2);
    for partition in [dna(3), dna(5)] {
        let on_it = active.iter().filter(|r| cart_of(r).cart_dna_hash.raw == partition.raw).count();
        assert_eq!(on_it, 1);
    }
    let cell = get_cell_for_cart(&store, &owner, &label_for(&dna(5), 2000)).unwrap();
    assert_eq!(cell.dna_hash.raw, dna(5).raw);
    let teardown =
        delete_cart(&mut store, &owner, &DeleteCartInput { cart_id: label_for(&dna(5), 2000) })
            .unwrap();
    assert!(matches!(teardown.pending(), Some(HostCall::Disable { clone_id }) if clone_id == "cart.1"));
    assert_eq!(get_all_carts(&store, &owner).len(), 1);
}

#[test]
fn label_of_a_created_cart_resolves_to_its_partition() {
    let mut store = GraphStore::new();
    let (owner, partition) = (agent(2), dna(3));
    create_cart(&mut store, &dna(1), &owner, &document(4), 1000, cloned(&partition, &owner, "cart.0"))
        .unwrap();
    create_cart(&mut store, &dna(1), &owner, &document(4), 2000, cloned(&dna(5), &owner, "cart.1"))
        .unwrap();
    let cell = get_cell_for_cart(&store, &owner, &label_for(&partition, 1000)).unwrap();
    assert_eq!(cell.dna_hash.raw, partition.raw);
    assert_eq!(cell.agent_key.raw, owner.raw);
    let other = get_cell_for_cart(&store, &owner, &label_for(&dna(5), 2000)).unwrap();
    assert_eq!(other.dna_hash.raw, dna(5).raw);
    assert_eq!(
        get_cell_for_cart(&store, &agent(9), &label_for(&partition, 1000)).err(),
        Some(CartError::NotFound)
    );
    assert_eq!(
        get_cell_for_cart(&store, &owner, &label_for(&partition, 2000)).err(),
        Some(CartError::NotFound)
    );
}

#[test]
fn a_superseded_cart_still_resolves() {
    let mut store = GraphStore::new();
    let (owner, partition) = (agent(2), dna(3));
    create_cart(&mut store, &dna(1), &owner, &document(4), 1000, cloned(&partition, &owner, "cart.0"))
        .unwrap();
    let label = label_for(&partition, 1000);
    delete_cart(&mut store, &owner, &DeleteCartInput { cart_id: label.clone() }).unwrap();
    let cell = get_cell_for_cart(&store, &owner, &label).unwrap();
    assert_eq!(cell.dna_hash.raw, partition.raw);
}

#[test]
fn at_most_one_active_cart_per_partition() {
    let mut store = GraphStore::new();
    let owner = agent(2);
    let partitions = [dna(3), dna(4), dna(5)];
    for (i, partition) in partitions.iter().enumerate() {
        let id = format!("cart.{}", i);
        create_cart(&mut store, &dna(1), &owner, &document(9), 1000 + i as i64, cloned(partition, &owner, &id))
            .unwrap();
    }
    let input = DeleteCartInput { cart_id: label_for(&partitions[1], 1001) };
    let teardown = delete_cart(&mut store, &owner, &input).unwrap();
    let teardown = teardown.advance(&mut store, HostReply::Done);
    teardown.advance(&mut store, HostReply::Done);
    create_cart(&mut store, &dna(1), &owner, &document(9), 5000, cloned(&partitions[1], &owner, "cart.9"))
        .unwrap();
    let active = get_all_carts(&store, &owner);
    assert_eq!(active.len(), 3);
    for partition in &partitions {
        let on_it = active.iter().filter(|r| cart_of(r).cart_dna_hash.raw == partition.raw).count();
        assert_eq!(on_it, 1);
    }
}

#[test]
fn get_cart_contents_goes_through_the_owners_of_all_handles() {
    let mut store = GraphStore::new();
    let (alice, bob) = (agent(2), agent(5));
    assert!(get_cart_contents(&store).is_empty());
    let a = create_cart(&mut store, &dna(1), &alice, &document(9), 10, cloned(&dna(3), &alice, "cart.0"))
        .unwrap();
    let b = create_cart(&mut store, &dna(1), &bob, &document(9), 20, cloned(&dna(6), &bob, "cart.1"))
        .unwrap();
    let contents = get_cart_contents(&store);
    let addresses: Vec<usize> = contents.iter().map(|r| r.address).collect();
    assert_eq!(addresses, vec![a.address, b.address]);
    let a2 = create_cart(&mut store, &dna(1), &alice, &document(9), 30, cloned(&dna(7), &alice, "cart.2"))
        .unwrap();
    let contents = get_cart_contents(&store);
    let addresses: Vec<usize> = contents.iter().map(|r| r.address).collect();
    assert_eq!(
        addresses,
        vec![a.address, a2.address, b.address, a.address, a2.address]
    );
}

#[test]
fn a_cart_is_superseded_once() {
    let mut store = GraphStore::new();
    let (owner, partition) = (agent(2), dna(3));
    create_cart(&mut store, &dna(1), &owner, &document(4), 1000, cloned(&partition, &owner, "cart.0"))
        .unwrap();
    create_cart(&mut store, &dna(1), &owner, &document(4), 2000, cloned(&dna(5), &owner, "cart.1"))
        .unwrap();
    let input = DeleteCartInput { cart_id: label_for(&partition, 1000) };
    delete_cart(&mut store, &owner, &input).unwrap();
    let len = store.len();
    assert_eq!(delete_cart(&mut store, &owner, &input).err(), Some(CartError::NotFound));
    assert_eq!(store.len(), len);
    let active = get_all_carts(&store, &owner);
    assert_eq!(active.len(), 1);
    assert_eq!(cart_of(&active[0]).cart_dna_hash.raw, dna(5).raw);
}
