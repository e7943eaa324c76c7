use vstd::prelude::*;

use crate::classify::{
    classify, current_noncurrent_of, current_of, kept_pred, latest_pred, lemma_filter_push,
    orphaned_of, orphaned_pred,
};
use crate::error::EngineError;
use crate::location::S3Location;
use crate::records::{ObjectRecord, VersionRecord, VersioningStatus};
use crate::stats::{
    lemma_versions_total_size_push, objects_all_sized, objects_total_size, versions_all_sized,
    versions_total_size, Stats,
};

verus! {

/// Per-class statistics of a versioned location.
#[derive(Clone, Copy, Debug, PartialEq, Eq, Structural)]
pub struct VersionData {
    /// Latest records that are real objects, delete markers excluded.
    pub current_objects: Stats,
    /// Non-latest versions of keys that still have a latest record.
    pub current_obj_vers: Stats,
    /// Non-latest versions of keys with no latest record at all.
    pub orphaned_vers: Stats,
}

/// The size report for one location: the grand total, and the per-class
/// breakdown exactly when the store reported versioning active.
#[derive(Debug, PartialEq, Eq)]
pub struct SizeReport {
    pub location: S3Location,
    pub total: Stats,
    pub versions: Option<VersionData>,
}

/// A complete listing fetched for one location: version records (delete
/// markers included) when the store has versioning active, plain objects
/// otherwise.
pub enum Listing {
    Versioned(Vec<VersionRecord>),
    Plain(Vec<ObjectRecord>),
}

/// Whether a versioning status takes the versioned path: exactly `Enabled`.
/// A `Suspended` or absent status means no active versioning.
pub fn versioning_active(status: VersioningStatus) -> (r: bool)
    ensures
        r == (status == VersioningStatus::Enabled),
{
    match status {
        VersioningStatus::Enabled => true,
        _ => false,
    }
}

/// Selects the records that are not delete markers.
pub open spec fn not_marker_pred() -> spec_fn(VersionRecord) -> bool {
    |v: VersionRecord| !v.is_delete_marker
}

/// The latest records that are real objects: delete markers report no
/// content, so they are excluded from the current-objects statistics.
pub open spec fn current_objects_data_of(vs: Seq<VersionRecord>) -> Seq<VersionRecord> {
    current_of(vs).filter(not_marker_pred())
}

/// Whether `st` is the correct aggregate of the records `s`.
pub open spec fn stats_for(s: Seq<VersionRecord>, st: Stats) -> bool {
    st.num_objects == s.len() && st.size_bytes == versions_total_size(s)
}

/// Filtering never increases the total size, reported sizes being
/// non-negative.
proof fn lemma_filter_size_le(s: Seq<VersionRecord>, pred: spec_fn(VersionRecord) -> bool)
    ensures
        versions_total_size(s.filter(pred)) <= versions_total_size(s),
    decreases s.len(),
{
    reveal(Seq::filter);
    if s.len() == 0 {
    } else {
        lemma_filter_size_le(s.drop_last(), pred);
        if pred(s.last()) {
            lemma_versions_total_size_push(s.drop_last().filter(pred), s.last());
        }
    }
}

/// Filtering keeps every record sized when the whole collection is.
proof fn lemma_filter_all_sized(s: Seq<VersionRecord>, pred: spec_fn(VersionRecord) -> bool)
    requires
        versions_all_sized(s),
    ensures
        versions_all_sized(s.filter(pred)),
    decreases s.len(),
{
    reveal(Seq::filter);
    if s.len() == 0 {
    } else {
        assert(versions_all_sized(s.drop_last())) by {
            assert forall|i: int| 0 <= i < s.drop_last().len() implies (#[trigger] s.drop_last()[i].size_bytes) is Some by {
                assert(s.drop_last()[i] == s[i]);
            }
        }
        lemma_filter_all_sized(s.drop_last(), pred);
        if pred(s.last()) {
            let sub = s.drop_last().filter(pred);
            assert(s.filter(pred) == sub.push(s.last()));
            assert forall|i: int| 0 <= i < sub.push(s.last()).len() implies (#[trigger] sub.push(
                s.last(),
            )[i].size_bytes) is Some by {
                if i < sub.len() {
                    assert(sub.push(s.last())[i] == sub[i]);
                } else {
                    assert(sub.push(s.last())[i] == s.last());
                    assert(s[s.len() - 1].size_bytes is Some);
                }
            }
        }
    }
}

/// Keeps the records that are not delete markers, in order.
fn without_delete_markers(items: Vec<VersionRecord>) -> (r: Vec<VersionRecord>)
    ensures
        r@ == items@.filter(not_marker_pred()),
{
    let ghost vs = items@;
    let mut out: Vec<VersionRecord> = Vec::new();
    for v in it: items.into_iter()
        invariant
            it.seq() == vs,
            out@ == vs.take(it.index()).filter(not_marker_pred()),
    {
        proof {
            let ghost i = it.index();
            assert(vs.take(i + 1) =~= vs.take(i).push(v));
            lemma_filter_push(vs.take(i), not_marker_pred(), v);
        }
        if !v.is_delete_marker {
            out.push(v);
        }
    }
    proof {
        assert(vs.take(vs.len() as int) =~= vs);
    }
    out
}

/// Builds the size report for one location from its complete listing.
///
/// On the versioned path the report carries four aggregates: the total over
/// every record, and the three classification classes, with delete markers
/// excluded from the current-objects figures. On the plain path only the
/// total is reported and the `versions` field is absent. Fails with a data
/// error exactly when some record's size is absent or a total exceeds the
/// representable range.
pub fn build_size_report(location: S3Location, listing: Listing) -> (r: Result<
    SizeReport,
    EngineError,
>)
    ensures
        match listing {
            Listing::Versioned(records) => {
                &&& (r is Ok <==> versions_all_sized(records@) && versions_total_size(records@)
                    <= u64::MAX)
                &&& r matches Ok(rep) ==> {
                    &&& rep.location == location
                    &&& stats_for(records@, rep.total)
                    &&& rep.versions matches Some(vd) && stats_for(
                        current_objects_data_of(records@),
                        vd.current_objects,
                    ) && stats_for(current_noncurrent_of(records@), vd.current_obj_vers)
                        && stats_for(orphaned_of(records@), vd.orphaned_vers)
                }
            },
            Listing::Plain(objects) => {
                &&& (r is Ok <==> objects_all_sized(objects@) && objects_total_size(objects@)
                    <= u64::MAX)
                &&& r matches Ok(rep) ==> {
                    &&& rep.location == location
                    &&& rep.total.num_objects == objects@.len()
                    &&& rep.total.size_bytes == objects_total_size(objects@)
                    &&& rep.versions is None
                }
            },
        },
        r is Err ==> r->Err_0 == EngineError::Data,
{
    match listing {
        Listing::Versioned(records) => {
            let total = match Stats::from_object_versions(&records) {
                Ok(t) => t,
                Err(e) => {
                    return Err(e);
                },
            };
            let ghost vs = records@;
            proof {
                lemma_filter_size_le(vs, latest_pred());
                lemma_filter_all_sized(vs, latest_pred());
                lemma_filter_size_le(current_of(vs), not_marker_pred());
                lemma_filter_all_sized(current_of(vs), not_marker_pred());
                lemma_filter_size_le(vs, kept_pred(vs));
                lemma_filter_all_sized(vs, kept_pred(vs));
                lemma_filter_size_le(vs, orphaned_pred(vs));
                lemma_filter_all_sized(vs, orphaned_pred(vs));
            }
            let classified = classify(records);
            let current_data = without_delete_markers(classified.current_objects);
            let current_objects = match Stats::from_object_versions(&current_data) {
                Ok(t) => t,
                Err(e) => {
                    proof {
                        assert(false);
                    }
                    return Err(e);
                },
            };
            let current_obj_vers = match Stats::from_object_versions(
                &classified.current_noncurrent_versions,
            ) {
                Ok(t) => t,
                Err(e) => {
                    proof {
                        assert(false);
                    }
                    return Err(e);
                },
            };
            let orphaned_vers = match Stats::from_object_versions(&classified.orphaned_versions) {
                Ok(t) => t,
                Err(e) => {
                    proof {
                        assert(false);
                    }
                    return Err(e);
                },
            };
            Ok(
                SizeReport {
                    location,
                    total,
                    versions: Some(
                        VersionData { current_objects, current_obj_vers, orphaned_vers },
                    ),
                },
            )
        },
        Listing::Plain(objects) => {
            let total = match Stats::from_objects(&objects) {
                Ok(t) => t,
                Err(e) => {
                    return Err(e);
                },
            };
            Ok(SizeReport { location, total, versions: None })
        },
    }
}

/// The human-readable rendering of a byte count, as the formatting library
/// produces it. The rendering is a function of the count alone.
pub uninterp spec fn human_bytes_of(bytes: u64) -> Seq<char>;

/// The decimal digit character for `d`.
pub open spec fn dec_digit(d: nat) -> char {
    if d == 0 {
        '0'
    } else if d == 1 {
        '1'
    } else if d == 2 {
        '2'
    } else if d == 3 {
        '3'
    } else if d == 4 {
        '4'
    } else if d == 5 {
        '5'
    } else if d == 6 {
        '6'
    } else if d == 7 {
        '7'
    } else if d == 8 {
        '8'
    } else {
        '9'
    }
}

/// The decimal digits of `n`, most significant first.
pub open spec fn dec_chars(n: nat) -> Seq<char>
    decreases n,
{
    if n < 10 {
        seq![dec_digit(n)]
    } else {
        dec_chars(n / 10).push(dec_digit(n % 10))
    }
}

/// Relies on `bytesize::ByteSize`'s default display (reached through
/// `to_string`): a byte count below 1024 renders as its decimal digits, a
/// space, and `B`; larger counts use scaled binary units with one decimal.
/// The rendering depends on the byte count alone.
#[verifier::external_body]
fn human_bytes(bytes: u64) -> (r: String)
    ensures
        r@ == human_bytes_of(bytes),
        bytes < 1024 ==> r@ == dec_chars(bytes as nat) + " B"@,
{
    bytesize::ByteSize::b(bytes).to_string()
}

/// The flattened, human-annotated form of a size report: one CSV row,
/// rendered and persisted by an external writer.
pub struct CSVSizeReport {
    pub url: String,
    pub total_human: String,
    pub total_b: u64,
    pub total_qty: usize,
    pub versioning_active: bool,
    pub current_obj_human: String,
    pub current_ver_human: String,
    pub orphan_ver_human: String,
    pub current_obj_b: u64,
    pub current_ver_b: u64,
    pub orphan_ver_b: u64,
    pub current_ver_qty: usize,
    pub current_obj_qty: usize,
    pub orphan_ver_qty: usize,
}

impl CSVSizeReport {
    /// Flattens a report into one row: the location's URL, the grand total
    /// with its human rendering, and the per-class figures, with zeros and
    /// empty strings standing in when versioning was not active.
    pub fn from_report(report: &SizeReport) -> (r: CSVSizeReport)
        ensures
            r.url@ == crate::location::url_chars(report.location),
            r.total_human@ == human_bytes_of(report.total.size_bytes),
            r.total_b == report.total.size_bytes,
            r.total_qty == report.total.num_objects,
            r.versioning_active == (report.versions is Some),
            report.versions matches Some(vd) ==> {
                &&& r.current_obj_human@ == human_bytes_of(vd.current_objects.size_bytes)
                &&& r.current_ver_human@ == human_bytes_of(vd.current_obj_vers.size_bytes)
                &&& r.orphan_ver_human@ == human_bytes_of(vd.orphaned_vers.size_bytes)
                &&& r.current_obj_b == vd.current_objects.size_bytes
                &&& r.current_ver_b == vd.current_obj_vers.size_bytes
                &&& r.orphan_ver_b == vd.orphaned_vers.size_bytes
                &&& r.current_obj_qty == vd.current_objects.num_objects
                &&& r.current_ver_qty == vd.current_obj_vers.num_objects
                &&& r.orphan_ver_qty == vd.orphaned_vers.num_objects
            },
            report.versions is None ==> {
                &&& r.current_obj_human@ == Seq::<char>::empty()
                &&& r.current_ver_human@ == Seq::<char>::empty()
                &&& r.orphan_ver_human@ == Seq::<char>::empty()
                &&& r.current_obj_b == 0 && r.current_ver_b == 0 && r.orphan_ver_b == 0
                &&& r.current_obj_qty == 0 && r.current_ver_qty == 0 && r.orphan_ver_qty == 0
            },
    {
        let url = report.location.url();
        let total_human = human_bytes(report.total.size_bytes);
        match &report.versions {
            Some(vd) => CSVSizeReport {
                url,
                total_human,
                total_b: report.total.size_bytes,
                total_qty: report.total.num_objects,
                versioning_active: true,
                current_obj_human: human_bytes(vd.current_objects.size_bytes),
                current_ver_human: human_bytes(vd.current_obj_vers.size_bytes),
                orphan_ver_human: human_bytes(vd.orphaned_vers.size_bytes),
                current_obj_b: vd.current_objects.size_bytes,
                current_ver_b: vd.current_obj_vers.size_bytes,
                orphan_ver_b: vd.orphaned_vers.size_bytes,
                current_obj_qty: vd.current_objects.num_objects,
                current_ver_qty: vd.current_obj_vers.num_objects,
                orphan_ver_qty: vd.orphaned_vers.num_objects,
            },
            None => CSVSizeReport {
                url,
                total_human,
                total_b: report.total.size_bytes,
                total_qty: report.total.num_objects,
                versioning_active: false,
                current_obj_human: String::new(),
                current_ver_human: String::new(),
                orphan_ver_human: String::new(),
                current_obj_b: 0,
                current_ver_b: 0,
                orphan_ver_b: 0,
                current_obj_qty: 0,
                current_ver_qty: 0,
                orphan_ver_qty: 0,
            },
        }
    }
}

} // verus!
