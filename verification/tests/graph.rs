use cart_clones::graph::{Action, GraphStore};
use cart_clones::integrity::{EntryTypes, LinkTypes};

fn document(bytes: &[u8]) -> EntryTypes {
    EntryTypes::Document(bytes.to_vec())
}

#[test]
fn ensure_twice_gives_the_same_address() {
    let mut store = GraphStore::new();
    let first = store.ensure("carts/owner/alice");
    let len = store.len();
    let second = store.ensure("carts/owner/alice");
    assert_eq!(first, second);
    assert_eq!(store.len(), len);
    let other = store.ensure("carts/owner/bob");
    assert_ne!(first, other);
    assert_eq!(store.ensure("carts/owner/alice"), first);
    assert_eq!(store.ensure("carts/owner/bob"), other);
    assert_eq!(store.len(), 2);
}

#[test]
fn anchor_looks_up_without_creating() {
    let mut store = GraphStore::new();
    assert_eq!(store.anchor("cart_clones"), None);
    assert_eq!(store.len(), 0);
    let root = store.ensure("cart_clones");
    assert_eq!(store.anchor("cart_clones"), Some(root));
    assert_eq!(store.anchor("cart_clone"), None);
}

#[test]
fn publish_and_read_round_trip() {
    let mut store = GraphStore::new();
    let at = store.publish(document(&[1, 2, 3]));
    match store.read(at) {
        Some(EntryTypes::Document(bytes)) => assert_eq!(bytes, &vec![1, 2, 3]),
        other => panic!("unexpected record: {:?}", other),
    }
    let root = store.ensure("root");
    assert!(store.read(root).is_none());
    assert!(store.read(99).is_none());
}

#[test]
fn link_needs_two_nodes() {
    let mut store = GraphStore::new();
    let root = store.ensure("root");
    let record = store.publish(document(&[1]));
    let edge = store.link(root, record, LinkTypes::CartToDocument, vec![]);
    assert_eq!(edge, Some(2));
    let len = store.len();
    assert_eq!(store.link(root, 99, LinkTypes::CartToDocument, vec![]), None);
    assert_eq!(store.link(99, record, LinkTypes::CartToDocument, vec![]), None);
    assert_eq!(store.link(root, edge.unwrap(), LinkTypes::CartToDocument, vec![]), None);
    assert_eq!(store.len(), len);
    assert!(store.is_node(root));
    assert!(store.is_node(record));
    assert!(!store.is_node(edge.unwrap()));
}

#[test]
fn edges_from_filters_by_source_and_relation() {
    let mut store = GraphStore::new();
    let a = store.ensure("a");
    let b = store.ensure("b");
    let r1 = store.publish(document(&[1]));
    let r2 = store.publish(document(&[2]));
    let e1 = store.link(a, r1, LinkTypes::CartToDocument, vec![7]).unwrap();
    let e2 = store.link(a, r2, LinkTypes::CartPath, vec![]).unwrap();
    let e3 = store.link(b, r1, LinkTypes::CartToDocument, vec![]).unwrap();
    let e4 = store.link(a, r2, LinkTypes::CartToDocument, vec![]).unwrap();
    let listed = store.edges_from(a, LinkTypes::CartToDocument);
    assert_eq!(listed.len(), 2);
    assert_eq!((listed[0].address, listed[0].source, listed[0].target), (e1, a, r1));
    assert_eq!(listed[0].tag, vec![7]);
    assert_eq!(listed[0].relation, LinkTypes::CartToDocument);
    assert_eq!((listed[1].address, listed[1].target), (e4, r2));
    let paths = store.edges_from(a, LinkTypes::CartPath);
    assert_eq!(paths.len(), 1);
    assert_eq!(paths[0].address, e2);
    let under_b = store.edges_from(b, LinkTypes::CartToDocument);
    assert_eq!(under_b.len(), 1);
    assert_eq!(under_b[0].address, e3);
    assert!(store.edges_from(r1, LinkTypes::CartToDocument).is_empty());
}

#[test]
fn unlink_hides_the_edge_and_only_it() {
    let mut store = GraphStore::new();
    let a = store.ensure("a");
    let r1 = store.publish(document(&[1]));
    let r2 = store.publish(document(&[2]));
    let e1 = store.link(a, r1, LinkTypes::CartToDocument, vec![]).unwrap();
    let e2 = store.link(a, r2, LinkTypes::CartToDocument, vec![]).unwrap();
    assert!(store.is_live_edge(e1));
    store.unlink(e1);
    assert!(!store.is_live_edge(e1));
    assert!(store.is_live_edge(e2));
    let listed = store.edges_from(a, LinkTypes::CartToDocument);
    assert_eq!(listed.len(), 1);
    assert_eq!(listed[0].address, e2);
    assert!(store.read(r1).is_some());
}

#[test]
fn a_second_unlink_changes_nothing() {
    let mut store = GraphStore::new();
    let a = store.ensure("a");
    let r1 = store.publish(document(&[1]));
    let e1 = store.link(a, r1, LinkTypes::CartToDocument, vec![]).unwrap();
    store.unlink(e1);
    let len = store.len();
    store.unlink(e1);
    assert_eq!(store.len(), len);
    assert!(store.edges_from(a, LinkTypes::CartToDocument).is_empty());
}

#[test]
fn unlink_of_what_is_no_edge_changes_nothing() {
    let mut store = GraphStore::new();
    let a = store.ensure("a");
    let r1 = store.publish(document(&[1]));
    store.unlink(a);
    store.unlink(r1);
    store.unlink(99);
    assert_eq!(store.len(), 2);
}

#[test]
fn the_journal_keeps_every_action_in_order() {
    let mut store = GraphStore::new();
    let a = store.ensure("a");
    let r1 = store.publish(document(&[1]));
    let e1 = store.link(a, r1, LinkTypes::CartToDocument, vec![]).unwrap();
    store.unlink(e1);
    assert_eq!(store.len(), 4);
    assert!(matches!(store.action(0), Action::Anchor { path } if path == "a"));
    assert!(matches!(store.action(1), Action::Publish { .. }));
    assert!(matches!(
        store.action(2),
        Action::Link { source, target, relation: LinkTypes::CartToDocument, .. }
            if *source == a && *target == r1
    ));
    assert!(matches!(store.action(3), Action::Unlink { edge } if *edge == e1));
}

#[test]
fn unlinks_show_the_same_in_either_order() {
    let build = || {
        let mut store = GraphStore::new();
        let a = store.ensure("a");
        let r1 = store.publish(document(&[1]));
        let r2 = store.publish(document(&[2]));
        let r3 = store.publish(document(&[3]));
        let e1 = store.link(a, r1, LinkTypes::CartToDocument, vec![]).unwrap();
        let e2 = store.link(a, r2, LinkTypes::CartToDocument, vec![]).unwrap();
        let e3 = store.link(a, r3, LinkTypes::CartToDocument, vec![]).unwrap();
        (store, a, e1, e2, e3)
    };
    let (mut one, a, e1, _, e3) = build();
    one.unlink(e1);
    one.unlink(e3);
    let (mut other, _, _, _, _) = build();
    other.unlink(e3);
    other.unlink(e1);
    let left: Vec<usize> =
        one.edges_from(a, LinkTypes::CartToDocument).iter().map(|e| e.address).collect();
    let right: Vec<usize> =
        other.edges_from(a, LinkTypes::CartToDocument).iter().map(|e| e.address).collect();
    assert_eq!(left, right);
    assert_eq!(left.len(), 1);
}
