use s3util::error::EngineError;
use s3util::purge::{
    build_deletion_batches, check_purge_precondition, page_identifiers, ObjectIdent,
    MAX_DELETE_BATCH,
};
use s3util::records::{VersionPage, VersionRecord, VersioningStatus};

fn ident(n: usize) -> ObjectIdent {
    ObjectIdent { key: format!("key-{}", n), version_id: Some(format!("v-{}", n)) }
}

#[test]
fn purge_batching_splits_at_the_ceiling() {
    // 2500 identifiers must go out as exactly three calls: 1000, 1000, 500.
    let idents: Vec<ObjectIdent> = (0..2500).map(ident).collect();
    let batches = build_deletion_batches(idents);
    assert_eq!(batches.len(), 3);
    assert_eq!(batches[0].identifiers.len(), 1000);
    assert_eq!(batches[1].identifiers.len(), 1000);
    assert_eq!(batches[2].identifiers.len(), 500);
    // Every identifier is submitted exactly once, in order.
    let mut n: usize = 0;
    for batch in &batches {
        for id in &batch.identifiers {
            assert_eq!(id.key, format!("key-{}", n));
            assert_eq!(id.version_id.as_deref(), Some(format!("v-{}", n).as_str()));
            n += 1;
        }
    }
    assert_eq!(n, 2500);
}

#[test]
fn purge_batching_exact_multiple() {
    let idents: Vec<ObjectIdent> = (0..2 * MAX_DELETE_BATCH).map(ident).collect();
    let batches = build_deletion_batches(idents);
    assert_eq!(batches.len(), 2);
    assert!(batches.iter().all(|b| b.identifiers.len() == MAX_DELETE_BATCH));
}

#[test]
fn purge_batching_empty_issues_no_call() {
    let batches = build_deletion_batches(Vec::new());
    assert!(batches.is_empty());
}

#[test]
fn purge_batching_small_page() {
    let idents: Vec<ObjectIdent> = (0..3).map(ident).collect();
    let batches = build_deletion_batches(idents);
    assert_eq!(batches.len(), 1);
    assert_eq!(batches[0].identifiers.len(), 3);
}

#[test]
fn page_identifiers_take_markers_then_versions() {
    let page = VersionPage {
        versions: vec![VersionRecord {
            key: String::from("a"),
            version_id: Some(String::from("v1")),
            is_latest: true,
            size_bytes: Some(1),
            is_delete_marker: false,
        }],
        delete_markers: vec![VersionRecord {
            key: String::from("gone"),
            version_id: Some(String::from("v2")),
            is_latest: true,
            size_bytes: Some(0),
            is_delete_marker: true,
        }],
        next_key_marker: None,
        next_version_marker: None,
    };
    let idents = page_identifiers(page);
    assert_eq!(idents.len(), 2);
    assert_eq!(idents[0].key, "gone");
    assert_eq!(idents[0].version_id.as_deref(), Some("v2"));
    assert_eq!(idents[1].key, "a");
    assert_eq!(idents[1].version_id.as_deref(), Some("v1"));
}

#[test]
fn precondition_enforcement() {
    // A purge that requires versioning is refused outright on a suspended
    // store, before any delete call could be issued.
    assert_eq!(
        check_purge_precondition(true, VersioningStatus::Suspended),
        Err(EngineError::Precondition)
    );
    assert_eq!(
        check_purge_precondition(true, VersioningStatus::Unset),
        Err(EngineError::Precondition)
    );
    assert_eq!(check_purge_precondition(true, VersioningStatus::Enabled), Ok(()));
    assert_eq!(check_purge_precondition(false, VersioningStatus::Suspended), Ok(()));
    assert_eq!(check_purge_precondition(false, VersioningStatus::Unset), Ok(()));
}
