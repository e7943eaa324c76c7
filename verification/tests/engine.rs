use s3util::classify::classify;
use s3util::error::EngineError;
use s3util::location::S3Location;
use s3util::records::{ObjectRecord, VersionRecord};
use s3util::report::{build_size_report, CSVSizeReport, Listing, SizeReport, VersionData};
use s3util::stats::Stats;

fn version(key: &str, version_id: &str, is_latest: bool, size: u64) -> VersionRecord {
    VersionRecord {
        key: String::from(key),
        version_id: Some(String::from(version_id)),
        is_latest,
        size_bytes: Some(size),
        is_delete_marker: false,
    }
}

fn delete_marker(key: &str, version_id: &str, is_latest: bool) -> VersionRecord {
    VersionRecord {
        key: String::from(key),
        version_id: Some(String::from(version_id)),
        is_latest,
        size_bytes: Some(0),
        is_delete_marker: true,
    }
}

fn object(key: &str, size: u64) -> ObjectRecord {
    ObjectRecord { key: String::from(key), size_bytes: Some(size) }
}

fn location(bucket: &str, prefix: &str) -> S3Location {
    S3Location { bucket: String::from(bucket), prefix: String::from(prefix) }
}

#[test]
fn aggregate_empty_is_zero() {
    let none: Vec<VersionRecord> = Vec::new();
    let stats = Stats::from_object_versions(&none).unwrap();
    assert_eq!(stats, Stats { num_objects: 0, size_bytes: 0 });
    let none: Vec<ObjectRecord> = Vec::new();
    let stats = Stats::from_objects(&none).unwrap();
    assert_eq!(stats, Stats { num_objects: 0, size_bytes: 0 });
}

#[test]
fn aggregate_sums_counts_and_bytes() {
    let items = vec![version("a", "v1", true, 38), version("b", "v1", true, 78)];
    let stats = Stats::from_object_versions(&items).unwrap();
    assert_eq!(stats, Stats { num_objects: 2, size_bytes: 116 });
}

#[test]
fn aggregate_missing_size_is_data_error() {
    let items = vec![
        version("a", "v1", true, 38),
        VersionRecord {
            key: String::from("b"),
            version_id: Some(String::from("v1")),
            is_latest: true,
            size_bytes: None,
            is_delete_marker: false,
        },
    ];
    assert_eq!(Stats::from_object_versions(&items), Err(EngineError::Data));
}

#[test]
fn aggregate_overflow_is_data_error() {
    let items = vec![version("a", "v1", true, u64::MAX), version("b", "v1", true, 1)];
    assert_eq!(Stats::from_object_versions(&items), Err(EngineError::Data));
}

#[test]
fn classify_delete_marker_keeps_key_present() {
    let records = vec![
        version("b", "v1", false, 50),
        delete_marker("b", "v2", true),
        version("c", "v1", false, 9),
    ];
    let classified = classify(records);
    // The delete marker is b's latest state, so b's old version is kept,
    // while c has no latest record at all and its version is orphaned.
    assert_eq!(classified.current_objects.len(), 1);
    assert!(classified.current_objects[0].is_delete_marker);
    assert_eq!(classified.current_noncurrent_versions.len(), 1);
    assert_eq!(classified.current_noncurrent_versions[0].key, "b");
    assert_eq!(classified.orphaned_versions.len(), 1);
    assert_eq!(classified.orphaned_versions[0].key, "c");
}

#[test]
fn classify_empty_input_yields_empty_classes() {
    let classified = classify(Vec::new());
    assert!(classified.current_objects.is_empty());
    assert!(classified.current_noncurrent_versions.is_empty());
    assert!(classified.orphaned_versions.is_empty());
}

#[test]
fn plain_listing_report() {
    let listing = Listing::Plain(vec![object("x", 38), object("y", 78)]);
    let report = build_size_report(location("bucket", ""), listing).unwrap();
    assert_eq!(report.total, Stats { num_objects: 2, size_bytes: 116 });
    assert!(report.versions.is_none());
}

#[test]
fn versioned_one_overwrite() {
    let listing = Listing::Versioned(vec![
        version("a", "v1", false, 38),
        version("a", "v2", true, 78),
    ]);
    let report = build_size_report(location("bucket", ""), listing).unwrap();
    assert_eq!(report.total, Stats { num_objects: 2, size_bytes: 116 });
    assert_eq!(
        report.versions.unwrap(),
        VersionData {
            current_objects: Stats { num_objects: 1, size_bytes: 78 },
            current_obj_vers: Stats { num_objects: 1, size_bytes: 38 },
            orphaned_vers: Stats { num_objects: 0, size_bytes: 0 },
        }
    );
}

#[test]
fn versioned_deleted_key() {
    let listing = Listing::Versioned(vec![
        version("b", "v1", false, 50),
        delete_marker("b", "v2", true),
    ]);
    let report = build_size_report(location("bucket", ""), listing).unwrap();
    // The delete marker counts for key presence but not as a current object,
    // so b's old version is a current-object version, not an orphan.
    assert_eq!(report.total, Stats { num_objects: 2, size_bytes: 50 });
    assert_eq!(
        report.versions.unwrap(),
        VersionData {
            current_objects: Stats { num_objects: 0, size_bytes: 0 },
            current_obj_vers: Stats { num_objects: 1, size_bytes: 50 },
            orphaned_vers: Stats { num_objects: 0, size_bytes: 0 },
        }
    );
}

#[test]
fn report_missing_size_is_data_error() {
    let listing = Listing::Versioned(vec![VersionRecord {
        key: String::from("a"),
        version_id: None,
        is_latest: true,
        size_bytes: None,
        is_delete_marker: false,
    }]);
    assert_eq!(
        build_size_report(location("bucket", ""), listing).unwrap_err(),
        EngineError::Data
    );
}

#[test]
fn test_basic_upload() {
    let listing = Listing::Versioned(vec![
        version("data/one", "v1", true, 38),
        version("data/two", "v1", true, 78),
    ]);
    let report = build_size_report(location("bucket", "test_basic_upload"), listing).unwrap();
    let expected = Stats { num_objects: 2, size_bytes: 38 + 78 };
    assert_eq!(expected, report.total);
}

#[test]
fn test_with_versions() {
    let listing = Listing::Versioned(vec![
        version("data/two", "v2", true, 152),
        version("data/two", "v1", false, 78),
        version("data/one", "v1", false, 38),
    ]);
    let report = build_size_report(location("bucket", "test_with_versions"), listing).unwrap();
    let expected_versions = VersionData {
        current_objects: Stats { num_objects: 1, size_bytes: 152 },
        current_obj_vers: Stats { num_objects: 1, size_bytes: 78 },
        orphaned_vers: Stats { num_objects: 1, size_bytes: 38 },
    };
    assert_eq!(expected_versions, report.versions.unwrap());
}

#[test]
fn csv_row_carries_totals_and_human_sizes() {
    let report = build_size_report(
        location("bucket", "a/b"),
        Listing::Versioned(vec![
            version("a/b/x", "v1", false, 38),
            version("a/b/x", "v2", true, 78),
        ]),
    )
    .unwrap();
    let row = CSVSizeReport::from_report(&report);
    assert_eq!(row.url, "s3://bucket/a/b");
    assert_eq!(row.total_b, 116);
    assert_eq!(row.total_qty, 2);
    assert_eq!(row.total_human, "116 B");
    assert!(row.versioning_active);
    assert_eq!(row.current_obj_b, 78);
    assert_eq!(row.current_obj_qty, 1);
    assert_eq!(row.current_obj_human, "78 B");
    assert_eq!(row.current_ver_b, 38);
    assert_eq!(row.current_ver_qty, 1);
    assert_eq!(row.current_ver_human, "38 B");
    assert_eq!(row.orphan_ver_b, 0);
    assert_eq!(row.orphan_ver_qty, 0);
    assert_eq!(row.orphan_ver_human, "0 B");
}

#[test]
fn csv_row_scales_large_sizes() {
    let report = SizeReport {
        location: location("bucket", ""),
        total: Stats { num_objects: 1, size_bytes: 1024 * 1024 },
        versions: None,
    };
    let row = CSVSizeReport::from_report(&report);
    assert_eq!(row.total_human, "1.0 MiB");
    assert!(!row.versioning_active);
    assert_eq!(row.current_obj_human, "");
    assert_eq!(row.current_obj_b, 0);
}
