use s3util::error::EngineError;
use s3util::location::S3Location;
use s3util::records::VersioningStatus;
use s3util::report::versioning_active;

#[test]
fn parse_scheme_bucket_prefix() {
    let loc = S3Location::parse("s3://bucket/some/prefix").unwrap();
    assert_eq!(loc.bucket, "bucket");
    assert_eq!(loc.prefix, "some/prefix");
}

#[test]
fn parse_scheme_is_case_insensitive() {
    let loc = S3Location::parse("S3://bucket/p").unwrap();
    assert_eq!(loc.bucket, "bucket");
    assert_eq!(loc.prefix, "p");
}

#[test]
fn parse_without_scheme() {
    let loc = S3Location::parse("bucket/p/q").unwrap();
    assert_eq!(loc.bucket, "bucket");
    assert_eq!(loc.prefix, "p/q");
}

#[test]
fn parse_whole_bucket_scope() {
    let loc = S3Location::parse("s3://bucket").unwrap();
    assert_eq!(loc.bucket, "bucket");
    assert_eq!(loc.prefix, "");
    let loc = S3Location::parse("s3://bucket/").unwrap();
    assert_eq!(loc.bucket, "bucket");
    assert_eq!(loc.prefix, "");
}

#[test]
fn parse_normalizes_slashes() {
    let loc = S3Location::parse("s3://bucket//a/b//").unwrap();
    assert_eq!(loc.bucket, "bucket");
    assert_eq!(loc.prefix, "a/b");
}

#[test]
fn parse_rejects_empty_and_missing_bucket() {
    assert_eq!(S3Location::parse(""), Err(EngineError::Format));
    assert_eq!(S3Location::parse("s3://"), Err(EngineError::Format));
    assert_eq!(S3Location::parse("s3:///prefix"), Err(EngineError::Format));
    assert_eq!(S3Location::parse("/prefix"), Err(EngineError::Format));
}

#[test]
fn url_round_trip() {
    let loc = S3Location::parse("s3://bucket/a/b/").unwrap();
    assert_eq!(loc.url(), "s3://bucket/a/b");
}

#[test]
fn only_enabled_status_is_active() {
    assert!(versioning_active(VersioningStatus::Enabled));
    assert!(!versioning_active(VersioningStatus::Suspended));
    assert!(!versioning_active(VersioningStatus::Unset));
}
