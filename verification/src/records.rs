use vstd::prelude::*;

verus! {

/// One historical state of one key in a versioned store: an object version
/// or a delete marker. Delete markers carry a size of zero.
#[derive(Debug, PartialEq, Eq)]
pub struct VersionRecord {
    pub key: String,
    pub version_id: Option<String>,
    pub is_latest: bool,
    /// Size in bytes as reported by the store; `None` when the store failed
    /// to populate the field, which the aggregator surfaces as an error.
    pub size_bytes: Option<u64>,
    pub is_delete_marker: bool,
}

/// A live object of an unversioned listing.
#[derive(Debug, PartialEq, Eq)]
pub struct ObjectRecord {
    pub key: String,
    /// Size in bytes as reported by the store; `None` when the store failed
    /// to populate the field.
    pub size_bytes: Option<u64>,
}

/// One page of a version listing, with the dual continuation markers the
/// store hands back. The listing is exhausted exactly when both markers are
/// absent.
pub struct VersionPage {
    pub versions: Vec<VersionRecord>,
    pub delete_markers: Vec<VersionRecord>,
    pub next_key_marker: Option<String>,
    pub next_version_marker: Option<String>,
}

/// One page of a plain object listing, with its continuation token. The
/// listing is exhausted exactly when the token is absent.
pub struct ObjectPage {
    pub objects: Vec<ObjectRecord>,
    pub next_token: Option<String>,
}

/// The versioning status a store reports for a bucket.
#[derive(Clone, Copy, Debug, PartialEq, Eq, Structural)]
pub enum VersioningStatus {
    Enabled,
    Suspended,
    Unset,
}

/// Clones an optional string, preserving the value exactly.
pub fn clone_opt_string(o: &Option<String>) -> (r: Option<String>)
    ensures
        r == *o,
{
    match o {
        Some(s) => Some(s.clone()),
        None => None,
    }
}

impl Clone for VersionRecord {
    fn clone(&self) -> (r: Self)
        ensures
            r == *self,
    {
        VersionRecord {
            key: self.key.clone(),
            version_id: clone_opt_string(&self.version_id),
            is_latest: self.is_latest,
            size_bytes: self.size_bytes,
            is_delete_marker: self.is_delete_marker,
        }
    }
}

impl Clone for ObjectRecord {
    fn clone(&self) -> (r: Self)
        ensures
            r == *self,
    {
        ObjectRecord { key: self.key.clone(), size_bytes: self.size_bytes }
    }
}

} // verus!
