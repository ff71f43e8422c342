use educhain::anchor::{AnchorError, AnchorEvent, EctAnchor};

const ALICE: [u8; 32] = [1u8; 32];
const BOB: [u8; 32] = [2u8; 32];

fn hash(n: u8) -> [u8; 32] {
    [n; 32]
}

#[test]
fn ect_anchor_scenario_rs_test_deploy_rs() {
    let registry = EctAnchor::init();
    assert!(registry.verify_anchor(hash(7)).is_none());
    assert!(registry.list_anchors_by_author(ALICE, 0, 10).is_empty());
}

#[test]
fn anchor_verify_rs() {
    let mut registry = EctAnchor::init();
    let uri = b"ipfs://curriculum-v1".to_vec();
    let event = registry.anchor_content(ALICE, 1_700_000_000, hash(9), 1, uri.clone()).unwrap();
    match event {
        AnchorEvent::ContentAnchored { hash: h, author, version, timestamp, metadata_uri } => {
            assert_eq!(h, hash(9));
            assert_eq!(author, ALICE);
            assert_eq!(version, 1);
            assert_eq!(timestamp, 1_700_000_000);
            assert_eq!(metadata_uri, uri);
        }
        other => panic!("unexpected event {other:?}"),
    }
    let record = registry.verify_anchor(hash(9)).expect("anchored hash must be found");
    assert_eq!(record.author, ALICE);
    assert_eq!(record.timestamp, 1_700_000_000);
    assert_eq!(record.version, 1);
    assert_eq!(record.metadata_uri, uri);
    assert!(!record.revoked);
    assert!(record.revocation_reason.is_empty());
    assert!(registry.verify_anchor(hash(10)).is_none());
}

#[test]
fn anchor_duplicate_negative_rs() {
    let mut registry = EctAnchor::init();
    assert!(registry.anchor_content(ALICE, 100, hash(3), 1, Vec::new()).is_ok());
    assert_eq!(
        registry.anchor_content(BOB, 200, hash(3), 2, b"other".to_vec()).unwrap_err(),
        AnchorError::AlreadyAnchored
    );
    let record = registry.verify_anchor(hash(3)).unwrap();
    assert_eq!(record.author, ALICE);
    assert_eq!(record.timestamp, 100);
    assert_eq!(record.version, 1);
    assert!(registry.list_anchors_by_author(BOB, 0, 10).is_empty());
}

#[test]
fn revoke_keeps_record_and_marks_it() {
    let mut registry = EctAnchor::init();
    registry.anchor_content(ALICE, 5, hash(4), 3, b"uri".to_vec()).unwrap();
    assert_eq!(registry.revoke_anchor(BOB, hash(4), b"spam".to_vec()).unwrap_err(), AnchorError::NotAuthor);
    match registry.revoke_anchor(ALICE, hash(4), b"outdated".to_vec()).unwrap() {
        AnchorEvent::ContentRevoked { hash: h, author, reason } => {
            assert_eq!(h, hash(4));
            assert_eq!(author, ALICE);
            assert_eq!(reason, b"outdated".to_vec());
        }
        other => panic!("unexpected event {other:?}"),
    }
    let record = registry.verify_anchor(hash(4)).unwrap();
    assert!(record.revoked);
    assert_eq!(record.revocation_reason, b"outdated".to_vec());
    assert_eq!(record.version, 3);
    assert_eq!(record.metadata_uri, b"uri".to_vec());
    assert_eq!(
        registry.revoke_anchor(ALICE, hash(4), b"again".to_vec()).unwrap_err(),
        AnchorError::AlreadyRevoked
    );
    assert_eq!(registry.list_anchors_by_author(ALICE, 0, 5), vec![hash(4)]);
}

#[test]
fn revoke_unknown_hash_fails() {
    let mut registry = EctAnchor::init();
    assert_eq!(registry.revoke_anchor(ALICE, hash(1), Vec::new()).unwrap_err(), AnchorError::HashNotFound);
}

#[test]
fn list_by_author_pages_in_order() {
    let mut registry = EctAnchor::init();
    for n in 1u8..=5 {
        registry.anchor_content(ALICE, n as u64, hash(n), 1, Vec::new()).unwrap();
    }
    registry.anchor_content(BOB, 9, hash(20), 1, Vec::new()).unwrap();
    assert_eq!(
        registry.list_anchors_by_author(ALICE, 0, 10),
        vec![hash(1), hash(2), hash(3), hash(4), hash(5)]
    );
    assert_eq!(registry.list_anchors_by_author(ALICE, 1, 2), vec![hash(2), hash(3)]);
    assert_eq!(registry.list_anchors_by_author(ALICE, 4, 3), vec![hash(5)]);
    assert!(registry.list_anchors_by_author(ALICE, 5, 3).is_empty());
    assert!(registry.list_anchors_by_author(ALICE, 0, 0).is_empty());
    assert_eq!(registry.list_anchors_by_author(BOB, 0, 1), vec![hash(20)]);
}

#[test]
fn pages_concatenate_on_concrete_list() {
    let mut registry = EctAnchor::init();
    for n in 1u8..=7 {
        registry.anchor_content(ALICE, 0, hash(n), 1, Vec::new()).unwrap();
    }
    let mut joined = registry.list_anchors_by_author(ALICE, 2, 3);
    joined.extend(registry.list_anchors_by_author(ALICE, 5, 4));
    assert_eq!(joined, registry.list_anchors_by_author(ALICE, 2, 7));
}
