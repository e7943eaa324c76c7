use vstd::prelude::*;

use crate::error::EngineError;
use crate::records::{ObjectRecord, VersionRecord};

verus! {

/// Count and total byte size of a collection of records. Immutable once
/// computed.
#[derive(Clone, Copy, Debug, PartialEq, Eq, Structural)]
pub struct Stats {
    pub num_objects: usize,
    pub size_bytes: u64,
}

/// The size the store reported for one version record; zero when absent.
pub open spec fn version_size(v: VersionRecord) -> int {
    match v.size_bytes {
        Some(n) => n as int,
        None => 0,
    }
}

/// The size the store reported for one object record; zero when absent.
pub open spec fn object_size(o: ObjectRecord) -> int {
    match o.size_bytes {
        Some(n) => n as int,
        None => 0,
    }
}

/// Sum of the reported sizes of a sequence of version records.
pub open spec fn versions_total_size(s: Seq<VersionRecord>) -> int
    decreases s.len(),
{
    if s.len() == 0 {
        0
    } else {
        versions_total_size(s.drop_last()) + version_size(s.last())
    }
}

/// Sum of the reported sizes of a sequence of object records.
pub open spec fn objects_total_size(s: Seq<ObjectRecord>) -> int
    decreases s.len(),
{
    if s.len() == 0 {
        0
    } else {
        objects_total_size(s.drop_last()) + object_size(s.last())
    }
}

/// Whether every version record carries a size.
pub open spec fn versions_all_sized(s: Seq<VersionRecord>) -> bool {
    forall|i: int| 0 <= i < s.len() ==> (#[trigger] s[i].size_bytes) is Some
}

/// Whether every object record carries a size.
pub open spec fn objects_all_sized(s: Seq<ObjectRecord>) -> bool {
    forall|i: int| 0 <= i < s.len() ==> (#[trigger] s[i].size_bytes) is Some
}

pub proof fn lemma_versions_total_size_push(s: Seq<VersionRecord>, v: VersionRecord)
    ensures
        versions_total_size(s.push(v)) == versions_total_size(s) + version_size(v),
{
    assert(s.push(v).drop_last() =~= s);
    assert(s.push(v).last() == v);
}

pub proof fn lemma_objects_total_size_push(s: Seq<ObjectRecord>, o: ObjectRecord)
    ensures
        objects_total_size(s.push(o)) == objects_total_size(s) + object_size(o),
{
    assert(s.push(o).drop_last() =~= s);
    assert(s.push(o).last() == o);
}

/// A prefix of a sequence never sums to more than the whole sequence,
/// because reported sizes are non-negative.
pub proof fn lemma_versions_prefix_size_le(s: Seq<VersionRecord>, j: int)
    requires
        0 <= j <= s.len(),
    ensures
        versions_total_size(s.take(j)) <= versions_total_size(s),
    decreases s.len() - j,
{
    if j == s.len() {
        assert(s.take(j) =~= s);
    } else {
        assert(s.take(j + 1) =~= s.take(j).push(s[j]));
        lemma_versions_total_size_push(s.take(j), s[j]);
        lemma_versions_prefix_size_le(s, j + 1);
    }
}

pub proof fn lemma_objects_prefix_size_le(s: Seq<ObjectRecord>, j: int)
    requires
        0 <= j <= s.len(),
    ensures
        objects_total_size(s.take(j)) <= objects_total_size(s),
    decreases s.len() - j,
{
    if j == s.len() {
        assert(s.take(j) =~= s);
    } else {
        assert(s.take(j + 1) =~= s.take(j).push(s[j]));
        lemma_objects_total_size_push(s.take(j), s[j]);
        lemma_objects_prefix_size_le(s, j + 1);
    }
}

impl Stats {
    /// Reduces a version record collection to `{count, total size}`.
    ///
    /// Fails with a data error when the store left any record's size absent,
    /// or when the total exceeds the representable range; both are store
    /// contract violations, never silently treated as zero.
    pub fn from_object_versions(items: &Vec<VersionRecord>) -> (r: Result<Stats, EngineError>)
        ensures
            r is Ok <==> versions_all_sized(items@) && versions_total_size(items@) <= u64::MAX,
            r matches Ok(s) ==> s.num_objects == items@.len() && s.size_bytes
                == versions_total_size(items@),
            r is Err ==> r->Err_0 == EngineError::Data,
    {
        let mut total: u64 = 0;
        let mut i: usize = 0;
        while i < items.len()
            invariant
                0 <= i <= items@.len(),
                versions_all_sized(items@.take(i as int)),
                total == versions_total_size(items@.take(i as int)),
            decreases items@.len() - i,
        {
            proof {
                assert(items@.take(i + 1) =~= items@.take(i as int).push(items@[i as int]));
                lemma_versions_total_size_push(items@.take(i as int), items@[i as int]);
            }
            match items[i].size_bytes {
                None => {
                    proof {
                        assert(!versions_all_sized(items@)) by {
                            assert(items@[i as int].size_bytes is None);
                        }
                    }
                    return Err(EngineError::Data);
                },
                Some(n) => {
                    if n > u64::MAX - total {
                        proof {
                            lemma_versions_prefix_size_le(items@, i + 1);
                        }
                        return Err(EngineError::Data);
                    }
                    total = total + n;
                },
            }
            i = i + 1;
        }
        proof {
            assert(items@.take(i as int) =~= items@);
        }
        Ok(Stats { num_objects: items.len(), size_bytes: total })
    }

    /// Reduces an object record collection to `{count, total size}`, with the
    /// same failure conditions as the version form.
    pub fn from_objects(items: &Vec<ObjectRecord>) -> (r: Result<Stats, EngineError>)
        ensures
            r is Ok <==> objects_all_sized(items@) && objects_total_size(items@) <= u64::MAX,
            r matches Ok(s) ==> s.num_objects == items@.len() && s.size_bytes
                == objects_total_size(items@),
            r is Err ==> r->Err_0 == EngineError::Data,
    {
        let mut total: u64 = 0;
        let mut i: usize = 0;
        while i < items.len()
            invariant
                0 <= i <= items@.len(),
                objects_all_sized(items@.take(i as int)),
                total == objects_total_size(items@.take(i as int)),
            decreases items@.len() - i,
        {
            proof {
                assert(items@.take(i + 1) =~= items@.take(i as int).push(items@[i as int]));
                lemma_objects_total_size_push(items@.take(i as int), items@[i as int]);
            }
            match items[i].size_bytes {
                None => {
                    proof {
                        assert(!objects_all_sized(items@)) by {
                            assert(items@[i as int].size_bytes is None);
                        }
                    }
                    return Err(EngineError::Data);
                },
                Some(n) => {
                    if n > u64::MAX - total {
                        proof {
                            lemma_objects_prefix_size_le(items@, i + 1);
                        }
                        return Err(EngineError::Data);
                    }
                    total = total + n;
                },
            }
            i = i + 1;
        }
        proof {
            assert(items@.take(i as int) =~= items@);
        }
        Ok(Stats { num_objects: items.len(), size_bytes: total })
    }
}

} // verus!
