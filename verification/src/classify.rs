use vstd::prelude::*;

use crate::records::VersionRecord;

verus! {

/// The three disjoint classes derived from one version record collection.
///
/// Every input record lands in exactly one of the three vectors: latest
/// records (delete markers included) in `current_objects`, and non-latest
/// records in `current_noncurrent_versions` or `orphaned_versions` according
/// to whether their key still has a latest record.
pub struct ClassifiedVersions {
    pub current_objects: Vec<VersionRecord>,
    pub current_noncurrent_versions: Vec<VersionRecord>,
    pub orphaned_versions: Vec<VersionRecord>,
}

/// Whether some record of `vs` before position `n` is latest and has key `k`.
pub open spec fn has_latest_key_upto(vs: Seq<VersionRecord>, n: int, k: Seq<char>) -> bool {
    exists|i: int| 0 <= i < n && (#[trigger] vs[i]).is_latest && vs[i].key@ == k
}

/// Whether key `k` has a latest record anywhere in `vs`. A delete marker
/// that is latest counts: the key is then still present for membership
/// purposes, and its older versions are not orphaned.
pub open spec fn has_latest_key(vs: Seq<VersionRecord>, k: Seq<char>) -> bool {
    has_latest_key_upto(vs, vs.len() as int, k)
}

/// Selects the latest records.
pub open spec fn latest_pred() -> spec_fn(VersionRecord) -> bool {
    |v: VersionRecord| v.is_latest
}

/// Selects the non-latest records.
pub open spec fn noncurrent_pred() -> spec_fn(VersionRecord) -> bool {
    |v: VersionRecord| !v.is_latest
}

/// Selects the non-latest records whose key still has a latest record in
/// `vs`.
pub open spec fn kept_pred(vs: Seq<VersionRecord>) -> spec_fn(VersionRecord) -> bool {
    |v: VersionRecord| !v.is_latest && has_latest_key(vs, v.key@)
}

/// Selects the non-latest records whose key has no latest record in `vs`.
pub open spec fn orphaned_pred(vs: Seq<VersionRecord>) -> spec_fn(VersionRecord) -> bool {
    |v: VersionRecord| !v.is_latest && !has_latest_key(vs, v.key@)
}

/// The latest records of `vs`, in order.
pub open spec fn current_of(vs: Seq<VersionRecord>) -> Seq<VersionRecord> {
    vs.filter(latest_pred())
}

/// The non-latest records of `vs` whose key still has a latest record.
pub open spec fn current_noncurrent_of(vs: Seq<VersionRecord>) -> Seq<VersionRecord> {
    vs.filter(kept_pred(vs))
}

/// The non-latest records of `vs` whose key has no latest record.
pub open spec fn orphaned_of(vs: Seq<VersionRecord>) -> Seq<VersionRecord> {
    vs.filter(orphaned_pred(vs))
}

/// Whether one of the strings of `ks` reads `k`.
pub open spec fn contains_string(ks: Seq<String>, k: Seq<char>) -> bool {
    exists|j: int| 0 <= j < ks.len() && (#[trigger] ks[j])@ == k
}

/// Filtering a sequence extended by one element keeps the old result and
/// appends the element exactly when the predicate holds of it.
pub proof fn lemma_filter_push<A>(s: Seq<A>, pred: spec_fn(A) -> bool, x: A)
    ensures
        s.push(x).filter(pred) == if pred(x) {
            s.filter(pred).push(x)
        } else {
            s.filter(pred)
        },
{
    reveal(Seq::filter);
    assert(s.push(x).drop_last() =~= s);
    assert(s.push(x).last() == x);
}

/// The two non-current classes together hold exactly the non-latest records
/// of `s`, each as often as it occurs, whatever membership sequence `vs` they
/// are classified against.
proof fn lemma_partition_multiset(s: Seq<VersionRecord>, vs: Seq<VersionRecord>)
    ensures
        s.filter(kept_pred(vs)).to_multiset().add(s.filter(orphaned_pred(vs)).to_multiset())
            == s.filter(noncurrent_pred()).to_multiset(),
    decreases s.len(),
{
    broadcast use vstd::seq_lib::group_to_multiset_ensures;

    reveal(Seq::filter);
    if s.len() == 0 {
        assert(s.filter(kept_pred(vs)).to_multiset().add(
            s.filter(orphaned_pred(vs)).to_multiset(),
        ) =~= s.filter(noncurrent_pred()).to_multiset());
    } else {
        let dl = s.drop_last();
        let x = s.last();
        lemma_partition_multiset(dl, vs);
        if x.is_latest {
            assert(s.filter(kept_pred(vs)).to_multiset().add(
                s.filter(orphaned_pred(vs)).to_multiset(),
            ) =~= s.filter(noncurrent_pred()).to_multiset());
        } else if has_latest_key(vs, x.key@) {
            assert(s.filter(kept_pred(vs)).to_multiset() =~= dl.filter(
                kept_pred(vs),
            ).to_multiset().insert(x));
            assert(s.filter(noncurrent_pred()).to_multiset() =~= dl.filter(
                noncurrent_pred(),
            ).to_multiset().insert(x));
            assert(s.filter(kept_pred(vs)).to_multiset().add(
                s.filter(orphaned_pred(vs)).to_multiset(),
            ) =~= s.filter(noncurrent_pred()).to_multiset());
        } else {
            assert(s.filter(orphaned_pred(vs)).to_multiset() =~= dl.filter(
                orphaned_pred(vs),
            ).to_multiset().insert(x));
            assert(s.filter(noncurrent_pred()).to_multiset() =~= dl.filter(
                noncurrent_pred(),
            ).to_multiset().insert(x));
            assert(s.filter(kept_pred(vs)).to_multiset().add(
                s.filter(orphaned_pred(vs)).to_multiset(),
            ) =~= s.filter(noncurrent_pred()).to_multiset());
        }
    }
}

/// Classification partition law.
///
/// For every version record collection: the current objects carry every key
/// that has at least one latest record; the two non-current classes together
/// are exactly the non-latest records, each as often as it occurs; and no
/// record value lies in both non-current classes.
pub proof fn lemma_classification_partition(vs: Seq<VersionRecord>)
    ensures
        forall|i: int|
            0 <= i < vs.len() && (#[trigger] vs[i]).is_latest ==> exists|j: int|
                0 <= j < current_of(vs).len() && (#[trigger] current_of(vs)[j]).key@ == vs[i].key@,
        current_noncurrent_of(vs).to_multiset().add(orphaned_of(vs).to_multiset()) == vs.filter(
            noncurrent_pred(),
        ).to_multiset(),
        forall|x: VersionRecord|
            !(#[trigger] current_noncurrent_of(vs).contains(x) && orphaned_of(vs).contains(x)),
{
    assert forall|i: int| 0 <= i < vs.len() && (#[trigger] vs[i]).is_latest implies exists|j: int|
        0 <= j < current_of(vs).len() && (#[trigger] current_of(vs)[j]).key@ == vs[i].key@ by {
        assert(latest_pred()(vs[i]));
        vs.lemma_filter_contains(latest_pred(), i);
        let j = choose|j: int| 0 <= j < current_of(vs).len() && current_of(vs)[j] == vs[i];
        assert((current_of(vs)[j]).key@ == vs[i].key@);
    }
    lemma_partition_multiset(vs, vs);
    assert forall|x: VersionRecord|
        !(#[trigger] current_noncurrent_of(vs).contains(x) && orphaned_of(vs).contains(x)) by {
        if current_noncurrent_of(vs).contains(x) && orphaned_of(vs).contains(x) {
            let j1 = choose|j: int|
                0 <= j < current_noncurrent_of(vs).len() && current_noncurrent_of(vs)[j] == x;
            vs.lemma_filter_pred(kept_pred(vs), j1);
            let j2 = choose|j: int| 0 <= j < orphaned_of(vs).len() && orphaned_of(vs)[j] == x;
            vs.lemma_filter_pred(orphaned_pred(vs), j2);
        }
    }
}

/// Collects one clone of the key of every latest record.
fn latest_keys(versions: &Vec<VersionRecord>) -> (keys: Vec<String>)
    ensures
        forall|k: Seq<char>| #[trigger] contains_string(keys@, k) <==> has_latest_key(
            versions@,
            k,
        ),
{
    let mut keys: Vec<String> = Vec::new();
    let mut i: usize = 0;
    while i < versions.len()
        invariant
            i <= versions@.len(),
            forall|k: Seq<char>| #[trigger] contains_string(keys@, k) <==> has_latest_key_upto(
                versions@,
                i as int,
                k,
            ),
        decreases versions@.len() - i,
    {
        let ghost prev = keys@;
        if versions[i].is_latest {
            keys.push(versions[i].key.clone());
            proof {
                assert forall|k: Seq<char>| #[trigger] contains_string(keys@, k)
                    <==> has_latest_key_upto(versions@, i as int + 1, k) by {
                    if contains_string(keys@, k) {
                        let j = choose|j: int| 0 <= j < keys@.len() && (keys@[j])@ == k;
                        if j < prev.len() {
                            assert(prev[j]@ == k);
                            assert(contains_string(prev, k));
                            let idx = choose|idx: int|
                                0 <= idx < i && (versions@[idx]).is_latest && versions@[idx].key@
                                    == k;
                            assert((versions@[idx]).is_latest && versions@[idx].key@ == k);
                        } else {
                            assert((versions@[i as int]).is_latest && versions@[i as int].key@
                                == k);
                        }
                    }
                    if has_latest_key_upto(versions@, i as int + 1, k) {
                        let idx = choose|idx: int|
                            0 <= idx < i + 1 && (versions@[idx]).is_latest && versions@[idx].key@
                                == k;
                        if idx < i {
                            assert((versions@[idx]).is_latest && versions@[idx].key@ == k);
                            assert(has_latest_key_upto(versions@, i as int, k));
                            assert(contains_string(prev, k));
                            let j = choose|j: int| 0 <= j < prev.len() && (prev[j])@ == k;
                            assert((keys@[j])@ == k);
                        } else {
                            assert((keys@[keys@.len() - 1])@ == k);
                        }
                    }
                }
            }
        } else {
            proof {
                assert forall|k: Seq<char>| #[trigger] contains_string(keys@, k)
                    <==> has_latest_key_upto(versions@, i as int + 1, k) by {
                    if contains_string(keys@, k) {
                        let idx = choose|idx: int|
                            0 <= idx < i && (versions@[idx]).is_latest && versions@[idx].key@ == k;
                        assert((versions@[idx]).is_latest && versions@[idx].key@ == k);
                    }
                    if has_latest_key_upto(versions@, i as int + 1, k) {
                        let idx = choose|idx: int|
                            0 <= idx < i + 1 && (versions@[idx]).is_latest && versions@[idx].key@
                                == k;
                        assert(idx != i);
                        assert(has_latest_key_upto(versions@, i as int, k));
                    }
                }
            }
        }
        i = i + 1;
    }
    keys
}

/// Linear search for `k` among the collected keys.
fn contains_key(keys: &Vec<String>, k: &String) -> (r: bool)
    ensures
        r == contains_string(keys@, k@),
{
    let mut j: usize = 0;
    while j < keys.len()
        invariant
            j <= keys@.len(),
            forall|jj: int| 0 <= jj < j ==> (#[trigger] keys@[jj])@ != k@,
        decreases keys@.len() - j,
    {
        if keys[j].eq(k) {
            proof {
                assert((keys@[j as int])@ == k@);
            }
            return true;
        }
        j = j + 1;
    }
    proof {
        if contains_string(keys@, k@) {
            let jj = choose|jj: int| 0 <= jj < keys@.len() && (keys@[jj])@ == k@;
            assert((keys@[jj])@ != k@);
        }
    }
    false
}

/// Partitions a version record collection into current objects, non-current
/// versions of still-present keys, and orphaned versions.
///
/// A key whose only latest state is a delete marker still counts as present,
/// so its older versions are kept, not orphaned. An empty input yields three
/// empty classes; no input is rejected.
pub fn classify(versions: Vec<VersionRecord>) -> (r: ClassifiedVersions)
    ensures
        r.current_objects@ == current_of(versions@),
        r.current_noncurrent_versions@ == current_noncurrent_of(versions@),
        r.orphaned_versions@ == orphaned_of(versions@),
{
    let keys = latest_keys(&versions);
    let ghost vs = versions@;
    let mut current: Vec<VersionRecord> = Vec::new();
    let mut kept: Vec<VersionRecord> = Vec::new();
    let mut orphaned: Vec<VersionRecord> = Vec::new();
    for v in it: versions.into_iter()
        invariant
            it.seq() == vs,
            forall|k: Seq<char>| #[trigger] contains_string(keys@, k) <==> has_latest_key(vs, k),
            current@ == vs.take(it.index()).filter(latest_pred()),
            kept@ == vs.take(it.index()).filter(kept_pred(vs)),
            orphaned@ == vs.take(it.index()).filter(orphaned_pred(vs)),
    {
        proof {
            let ghost i = it.index();
            assert(vs.take(i + 1) =~= vs.take(i).push(v));
            lemma_filter_push(vs.take(i), latest_pred(), v);
            lemma_filter_push(vs.take(i), kept_pred(vs), v);
            lemma_filter_push(vs.take(i), orphaned_pred(vs), v);
        }
        if v.is_latest {
            current.push(v);
        } else if contains_key(&keys, &v.key) {
            kept.push(v);
        } else {
            orphaned.push(v);
        }
    }
    proof {
        assert(vs.take(vs.len() as int) =~= vs);
    }
    ClassifiedVersions {
        current_objects: current,
        current_noncurrent_versions: kept,
        orphaned_versions: orphaned,
    }
}

} // verus!
