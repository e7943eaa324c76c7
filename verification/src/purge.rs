use vstd::prelude::*;

use crate::error::EngineError;
use crate::records::{VersionPage, VersionRecord, VersioningStatus};

verus! {

/// The store's hard ceiling on identifiers per bulk-delete request.
pub const MAX_DELETE_BATCH: usize = 1000;

/// One `(key, optional version id)` deletion identifier. Identifier pairs
/// are globally unique by construction of the version listing, so no
/// deduplication across pages is needed.
pub struct ObjectIdent {
    pub key: String,
    pub version_id: Option<String>,
}

/// One bulk-delete request's worth of identifiers: never empty, and never
/// more than `MAX_DELETE_BATCH` of them. Batches are independent; a failed
/// batch does not roll prior batches back.
pub struct DeletionBatch {
    pub identifiers: Vec<ObjectIdent>,
}

/// The deletion identifier of one version record.
pub open spec fn ident_of(v: VersionRecord) -> ObjectIdent {
    ObjectIdent { key: v.key, version_id: v.version_id }
}

/// The identifiers one version page contributes: its delete markers, then
/// its object versions.
pub open spec fn page_idents(p: VersionPage) -> Seq<ObjectIdent> {
    p.delete_markers@.map_values(|v: VersionRecord| ident_of(v)) + p.versions@.map_values(
        |v: VersionRecord| ident_of(v),
    )
}

/// All identifiers of a batch sequence, in batch order.
pub open spec fn batch_idents(batches: Seq<DeletionBatch>) -> Seq<ObjectIdent>
    decreases batches.len(),
{
    if batches.len() == 0 {
        Seq::empty()
    } else {
        batch_idents(batches.drop_last()) + batches.last().identifiers@
    }
}

pub proof fn lemma_batch_idents_push(batches: Seq<DeletionBatch>, b: DeletionBatch)
    ensures
        batch_idents(batches.push(b)) == batch_idents(batches) + b.identifiers@,
{
    assert(batches.push(b).drop_last() =~= batches);
    assert(batches.push(b).last() == b);
}

/// Confirms the purge precondition before any deletion is attempted: when
/// `require_versioning` is set, the location's versioning status must be
/// exactly `Enabled`, else the irreversible bulk delete is refused.
pub fn check_purge_precondition(require_versioning: bool, status: VersioningStatus) -> (r: Result<
    (),
    EngineError,
>)
    ensures
        r is Ok <==> (!require_versioning || status == VersioningStatus::Enabled),
        r is Err ==> r->Err_0 == EngineError::Precondition,
{
    if require_versioning {
        match status {
            VersioningStatus::Enabled => Ok(()),
            _ => Err(EngineError::Precondition),
        }
    } else {
        Ok(())
    }
}

/// Collects one page's deletion identifiers: its delete markers, then its
/// object versions, both carrying their key and version id.
pub fn page_identifiers(page: VersionPage) -> (r: Vec<ObjectIdent>)
    ensures
        r@ == page_idents(page),
{
    let VersionPage { versions, delete_markers, next_key_marker: _, next_version_marker: _ } =
        page;
    let ghost dm = delete_markers@;
    let ghost ov = versions@;
    let mut out: Vec<ObjectIdent> = Vec::new();
    for v in it: delete_markers.into_iter()
        invariant
            it.seq() == dm,
            out@ == dm.take(it.index()).map_values(|v: VersionRecord| ident_of(v)),
    {
        let ghost i = it.index();
        out.push(ObjectIdent { key: v.key, version_id: v.version_id });
        proof {
            assert(out@ =~= dm.take(i + 1).map_values(|v: VersionRecord| ident_of(v)));
        }
    }
    proof {
        assert(dm.take(dm.len() as int) =~= dm);
    }
    for v in it: versions.into_iter()
        invariant
            it.seq() == ov,
            out@ == dm.map_values(|v: VersionRecord| ident_of(v)) + ov.take(
                it.index(),
            ).map_values(|v: VersionRecord| ident_of(v)),
    {
        let ghost i = it.index();
        out.push(ObjectIdent { key: v.key, version_id: v.version_id });
        proof {
            assert(out@ =~= dm.map_values(|v: VersionRecord| ident_of(v)) + ov.take(
                i + 1,
            ).map_values(|v: VersionRecord| ident_of(v)));
        }
    }
    proof {
        assert(ov.take(ov.len() as int) =~= ov);
    }
    out
}

/// Splits identifiers into deletion batches respecting the per-request
/// ceiling: every batch but the last holds exactly `MAX_DELETE_BATCH`
/// identifiers, no batch is empty, their concatenation is the input in
/// order, and the number of batches is the input length divided by the
/// ceiling, rounded up.
pub fn build_deletion_batches(idents: Vec<ObjectIdent>) -> (r: Vec<DeletionBatch>)
    ensures
        batch_idents(r@) == idents@,
        forall|i: int|
            0 <= i < r@.len() ==> 0 < (#[trigger] r@[i]).identifiers@.len() <= MAX_DELETE_BATCH,
        forall|i: int|
            0 <= i < r@.len() - 1 ==> (#[trigger] r@[i]).identifiers@.len() == MAX_DELETE_BATCH,
        r@.len() == (idents@.len() + MAX_DELETE_BATCH - 1) as int / (MAX_DELETE_BATCH as int),
{
    let ghost all = idents@;
    let mut rest = idents;
    let mut batches: Vec<DeletionBatch> = Vec::new();
    while rest.len() > MAX_DELETE_BATCH
        invariant
            batch_idents(batches@) + rest@ == all,
            forall|i: int|
                0 <= i < batches@.len() ==> (#[trigger] batches@[i]).identifiers@.len()
                    == MAX_DELETE_BATCH,
            batches@.len() * MAX_DELETE_BATCH + rest@.len() == all.len(),
        decreases rest@.len(),
    {
        let ghost before = batches@;
        let ghost whole = rest@;
        let tail = rest.split_off(MAX_DELETE_BATCH);
        batches.push(DeletionBatch { identifiers: rest });
        rest = tail;
        proof {
            lemma_batch_idents_push(before, batches@.last());
            assert(batches@ =~= before.push(batches@.last()));
            assert(batches@.last().identifiers@ == whole.take(MAX_DELETE_BATCH as int));
            assert(batch_idents(batches@) + rest@ =~= all);
        }
    }
    if rest.len() > 0 {
        let ghost before = batches@;
        let ghost last_len = rest@.len();
        batches.push(DeletionBatch { identifiers: rest });
        proof {
            lemma_batch_idents_push(before, batches@.last());
            assert(batch_idents(batches@) =~= all);
            assert(batches@.len() == (all.len() + MAX_DELETE_BATCH - 1) as int / (
            MAX_DELETE_BATCH as int)) by {
                assert(before.len() * MAX_DELETE_BATCH + last_len == all.len());
                assert(0 < last_len <= MAX_DELETE_BATCH);
                assert((before.len() * MAX_DELETE_BATCH + last_len + MAX_DELETE_BATCH - 1) as int
                    / (MAX_DELETE_BATCH as int) == before.len() + 1) by (nonlinear_arith)
                    requires
                        0 < last_len <= MAX_DELETE_BATCH,
                        before.len() >= 0,
                        MAX_DELETE_BATCH == 1000,
                ;
            }
        }
    } else {
        proof {
            assert(batch_idents(batches@) + rest@ =~= batch_idents(batches@));
            assert(batches@.len() == (all.len() + MAX_DELETE_BATCH - 1) as int / (
            MAX_DELETE_BATCH as int)) by {
                assert(batches@.len() * MAX_DELETE_BATCH == all.len());
                assert((batches@.len() * MAX_DELETE_BATCH + MAX_DELETE_BATCH - 1) as int / (
                MAX_DELETE_BATCH as int) == batches@.len()) by (nonlinear_arith)
                    requires
                        batches@.len() >= 0,
                        MAX_DELETE_BATCH == 1000,
                ;
            }
        }
    }
    batches
}

} // verus!
