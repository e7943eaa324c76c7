use s3util::records::{ObjectPage, ObjectRecord, VersionPage, VersionRecord};
use s3util::walk::{flatten_object_pages, flatten_version_pages, ObjectWalk, VersionWalk};

fn version(key: &str, version_id: &str, is_latest: bool, size: u64) -> VersionRecord {
    VersionRecord {
        key: String::from(key),
        version_id: Some(String::from(version_id)),
        is_latest,
        size_bytes: Some(size),
        is_delete_marker: false,
    }
}

fn version_page(
    keys: &[&str],
    next_key_marker: Option<&str>,
    next_version_marker: Option<&str>,
) -> VersionPage {
    VersionPage {
        versions: keys.iter().map(|k| version(*k, "v1", true, 1)).collect(),
        delete_markers: Vec::new(),
        next_key_marker: next_key_marker.map(String::from),
        next_version_marker: next_version_marker.map(String::from),
    }
}

fn object_page(keys: &[&str], next_token: Option<&str>) -> ObjectPage {
    ObjectPage {
        objects: keys
            .iter()
            .map(|k| ObjectRecord { key: String::from(*k), size_bytes: Some(1) })
            .collect(),
        next_token: next_token.map(String::from),
    }
}

#[test]
fn version_walk_threads_both_markers() {
    let mut walk = VersionWalk::new();
    // The first request carries no markers.
    assert_eq!(walk.next_request(), Some((None, None)));
    walk.push_page(version_page(&["a"], Some("a"), Some("v9")));
    assert!(!walk.is_finished());
    // The next request carries exactly the markers of the page just fetched.
    assert_eq!(
        walk.next_request(),
        Some((Some(String::from("a")), Some(String::from("v9"))))
    );
    walk.push_page(version_page(&["b"], Some("b"), None));
    // One marker alone keeps the walk going.
    assert!(!walk.is_finished());
    assert_eq!(walk.next_request(), Some((Some(String::from("b")), None)));
    walk.push_page(version_page(&["c"], None, None));
    assert!(walk.is_finished());
    assert_eq!(walk.next_request(), None);
    let pages = walk.into_pages();
    assert_eq!(pages.len(), 3);
    assert_eq!(pages[0].versions[0].key, "a");
    assert_eq!(pages[1].versions[0].key, "b");
    assert_eq!(pages[2].versions[0].key, "c");
}

#[test]
fn object_walk_threads_token() {
    let mut walk = ObjectWalk::new();
    assert_eq!(walk.next_request(), Some(None));
    walk.push_page(object_page(&["a", "b"], Some("tok1")));
    assert!(!walk.is_finished());
    assert_eq!(walk.next_request(), Some(Some(String::from("tok1"))));
    walk.push_page(object_page(&["c"], None));
    assert!(walk.is_finished());
    assert_eq!(walk.next_request(), None);
    let pages = walk.into_pages();
    assert_eq!(pages.len(), 2);
}

#[test]
fn flatten_preserves_page_order() {
    let pages = vec![
        VersionPage {
            versions: vec![version("a", "v1", true, 1), version("b", "v1", true, 2)],
            delete_markers: vec![version("dm1", "v1", false, 0)],
            next_key_marker: Some(String::from("b")),
            next_version_marker: Some(String::from("v1")),
        },
        VersionPage {
            versions: vec![version("c", "v1", true, 3)],
            delete_markers: Vec::new(),
            next_key_marker: None,
            next_version_marker: None,
        },
    ];
    let records = flatten_version_pages(pages);
    let keys: Vec<&str> = records.iter().map(|r| r.key.as_str()).collect();
    // Each page contributes its versions, then its delete markers.
    assert_eq!(keys, vec!["a", "b", "dm1", "c"]);
}

#[test]
fn flatten_objects_concatenates_in_order() {
    let pages = vec![
        object_page(&["a", "b"], Some("t")),
        object_page(&[], Some("t2")),
        object_page(&["c"], None),
    ];
    let objects = flatten_object_pages(pages);
    let keys: Vec<&str> = objects.iter().map(|o| o.key.as_str()).collect();
    assert_eq!(keys, vec!["a", "b", "c"]);
}
