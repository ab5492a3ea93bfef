//! The whole pipeline: feature extraction, reduction, assignment and
//! aggregation composed over one record sequence, and the summary rows
//! derived from the result.

use vstd::multiset::Multiset;
use vstd::prelude::*;

use crate::aggregate::{aggregate_clusters, aggregate_ok, sum_counts};
use crate::record::{avg_val, ClusterStats, Song, MAX_ABS, MAX_RECORDS};
use crate::stages::{cluster_id, features_of, k_means, normalize_features, pca, row_wf};

verus! {

/// The reduced vector of one record: the first `target_dims` elements of
/// its feature vector (all five when `target_dims` exceeds the width).
pub open spec fn reduced_of(s: Song, target_dims: int) -> Seq<i64> {
    features_of(s).take(if target_dims <= 5 { target_dims } else { 5int })
}

/// The cluster id the pipeline assigns to one record.
pub open spec fn assignment_of(s: Song, target_dims: int, k: int) -> int {
    cluster_id(reduced_of(s, target_dims), k)
}

/// The assignment sequence of a record sequence: one id per record, in
/// order, each a pure function of its own record, `target_dims` and `k`.
pub open spec fn assignments(songs: Seq<Song>, target_dims: int, k: int) -> Seq<usize> {
    Seq::new(songs.len(), |i: int| assignment_of(songs[i], target_dims, k) as usize)
}

/// Runs the four stages over `songs`: extracts each record's feature
/// vector, truncates it to `target_dims` elements, assigns the cluster id
/// from the truncated sum modulo `k`, and aggregates per-cluster sums and
/// counts. The result is the aggregation of `songs` under the assignment
/// sequence, one accumulator per observed cluster id in order of first
/// appearance, with counts adding up to the number of records.
pub fn run_pipeline(songs: &Vec<Song>, target_dims: usize, k: usize) -> (r: Vec<ClusterStats>)
    requires
        k >= 1,
        songs@.len() <= MAX_RECORDS,
        forall|i: int| 0 <= i < songs@.len() ==> (#[trigger] songs@[i]).wf(),
    ensures
        aggregate_ok(songs@, assignments(songs@, target_dims as int, k as int), r@),
        sum_counts(r@) == songs@.len(),
        forall|j: int| 0 <= j < r@.len() ==> (#[trigger] r@[j]).wf(),
        forall|j1: int, j2: int| 0 <= j1 < j2 < r@.len() ==> r@[j1].cluster != r@[j2].cluster,
{
    let feats = normalize_features(songs);
    let reduced = pca(&feats, target_dims);
    proof {
        assert forall|i: int| 0 <= i < reduced@.len() implies row_wf(#[trigger] reduced@[i]@) by {
            assert(feats@[i]@ == features_of(songs@[i]));
            assert(songs@[i].wf());
            assert forall|m: int| 0 <= m < reduced@[i]@.len()
                implies -MAX_ABS <= #[trigger] reduced@[i]@[m] <= MAX_ABS by {
                assert(reduced@[i]@[m] == features_of(songs@[i])[m]);
            }
        }
    }
    let ids = k_means(&reduced, k);
    proof {
        assert forall|i: int| 0 <= i < ids@.len()
            implies #[trigger] ids@[i] == assignments(songs@, target_dims as int, k as int)[i] by {
            assert(reduced@[i]@ == features_of(songs@[i]).take(
                if target_dims <= 5 { target_dims as int } else { 5int },
            ));
            assert(ids@[i] == cluster_id(reduced@[i]@, k as int));
        }
        assert(ids@ =~= assignments(songs@, target_dims as int, k as int));
    }
    aggregate_clusters(songs, &ids)
}

/// Finds an index of a smallest cluster id in a non-empty sequence.
fn find_min_cluster(stats: &Vec<ClusterStats>) -> (r: usize)
    requires
        stats@.len() > 0,
    ensures
        0 <= r < stats@.len(),
        forall|m: int| 0 <= m < stats@.len() ==> stats@[r as int].cluster <= (#[trigger] stats@[m]).cluster,
{
    let mut best: usize = 0;
    let mut j: usize = 1;
    while j < stats.len()
        invariant
            0 <= best < stats@.len(),
            j <= stats@.len(),
            forall|m: int| 0 <= m < j ==> stats@[best as int].cluster <= (#[trigger] stats@[m]).cluster,
        decreases stats@.len() - j,
    {
        if stats[j].cluster < stats[best].cluster {
            best = j;
        }
        j = j + 1;
    }
    best
}

/// The same accumulators reordered by cluster id, ascending: the order to
/// emit when a caller wants reproducible, sorted output.
pub fn sorted_by_cluster(stats: &Vec<ClusterStats>) -> (r: Vec<ClusterStats>)
    ensures
        r@.to_multiset() == stats@.to_multiset(),
        forall|j1: int, j2: int| 0 <= j1 < j2 < r@.len() ==> r@[j1].cluster <= r@[j2].cluster,
        forall|j: int| 0 <= j < r@.len() ==> stats@.contains(#[trigger] r@[j]),
{
    let mut work: Vec<ClusterStats> = Vec::new();
    let mut i: usize = 0;
    while i < stats.len()
        invariant
            i <= stats@.len(),
            work@ =~= stats@.take(i as int),
        decreases stats@.len() - i,
    {
        work.push(stats[i]);
        proof {
            assert(work@ =~= stats@.take(i as int + 1));
        }
        i = i + 1;
    }
    proof {
        assert(stats@.take(stats@.len() as int) =~= stats@);
    }
    let mut out: Vec<ClusterStats> = Vec::new();
    proof {
        broadcast use vstd::seq_lib::group_to_multiset_ensures;

        assert(work@ == stats@);
        assert(out@ =~= Seq::<ClusterStats>::empty());
        assert(out@.to_multiset() =~= Multiset::empty());
        assert(out@.to_multiset().add(work@.to_multiset()) =~= stats@.to_multiset());
    }
    while work.len() > 0
        invariant
            out@.to_multiset().add(work@.to_multiset()) =~= stats@.to_multiset(),
            forall|j1: int, j2: int| 0 <= j1 < j2 < out@.len() ==> out@[j1].cluster <= out@[j2].cluster,
            forall|j: int, m: int|
                0 <= j < out@.len() && 0 <= m < work@.len()
                    ==> out@[j].cluster <= work@[m].cluster,
        decreases work@.len(),
    {
        let idx = find_min_cluster(&work);
        let st = work[idx];
        let ghost pre_out = out@;
        let ghost pre_work = work@;
        out.push(st);
        work.remove(idx);
        proof {
            broadcast use vstd::seq_lib::group_to_multiset_ensures;

            assert(out@.to_multiset() =~= pre_out.to_multiset().insert(st));
            assert(work@.to_multiset() =~= pre_work.to_multiset().remove(st));
            assert(pre_work.to_multiset().contains(st)) by {
                assert(pre_work.contains(st));
            }
            assert(out@.to_multiset().add(work@.to_multiset())
                =~= pre_out.to_multiset().add(pre_work.to_multiset()));
            assert forall|j: int, m: int|
                0 <= j < out@.len() && 0 <= m < work@.len()
                    implies out@[j].cluster <= work@[m].cluster by {
                if m < idx {
                    assert(work@[m] == pre_work[m]);
                } else {
                    assert(work@[m] == pre_work[m + 1]);
                }
            }
            assert forall|j1: int, j2: int| 0 <= j1 < j2 < out@.len()
                implies out@[j1].cluster <= out@[j2].cluster by {
                if j2 == out@.len() - 1 {
                    assert(out@[j1] == pre_out[j1]);
                    assert(out@[j2] == st);
                    assert(pre_out[j1].cluster <= pre_work[idx as int].cluster);
                }
            }
        }
    }
    proof {
        broadcast use vstd::seq_lib::group_to_multiset_ensures;

        assert(work@ =~= Seq::empty());
        assert(work@.to_multiset() =~= Multiset::empty());
        assert(out@.to_multiset().add(work@.to_multiset()) =~= out@.to_multiset());
        assert forall|j: int| 0 <= j < out@.len()
            implies stats@.contains(#[trigger] out@[j]) by {
            assert(out@.contains(out@[j]));
            assert(out@.to_multiset().count(out@[j]) > 0);
            assert(stats@.to_multiset().count(out@[j]) > 0);
        }
    }
    out
}

/// One output row: the cluster id, the five per-cluster averages in
/// hundredths of a unit, and the record count.
#[derive(Clone, Copy, Debug, PartialEq, Eq, Structural)]
pub struct SummaryRow {
    pub cluster: usize,
    pub danceability: i64,
    pub acousticness: i64,
    pub energy: i64,
    pub valence: i64,
    pub tempo: i64,
    pub count: usize,
}

/// Derives one summary row per accumulator, in order: each average is the
/// attribute's sum divided by the count, truncated toward zero.
pub fn summarize(stats: &Vec<ClusterStats>) -> (r: Vec<SummaryRow>)
    requires
        forall|j: int| 0 <= j < stats@.len() ==> (#[trigger] stats@[j]).wf(),
    ensures
        r@.len() == stats@.len(),
        forall|j: int| 0 <= j < stats@.len() ==> {
            let st = stats@[j];
            let row = #[trigger] r@[j];
            &&& row.cluster == st.cluster
            &&& row.danceability as int == avg_val(st.danceability as int, st.count as int)
            &&& row.acousticness as int == avg_val(st.acousticness as int, st.count as int)
            &&& row.energy as int == avg_val(st.energy as int, st.count as int)
            &&& row.valence as int == avg_val(st.valence as int, st.count as int)
            &&& row.tempo as int == avg_val(st.tempo as int, st.count as int)
            &&& row.count == st.count
        },
{
    let mut r: Vec<SummaryRow> = Vec::new();
    let mut j: usize = 0;
    while j < stats.len()
        invariant
            j <= stats@.len(),
            r@.len() == j,
            forall|m: int| 0 <= m < stats@.len() ==> (#[trigger] stats@[m]).wf(),
            forall|m: int| 0 <= m < j ==> {
                let st = stats@[m];
                let row = #[trigger] r@[m];
                &&& row.cluster == st.cluster
                &&& row.danceability as int == avg_val(st.danceability as int, st.count as int)
                &&& row.acousticness as int == avg_val(st.acousticness as int, st.count as int)
                &&& row.energy as int == avg_val(st.energy as int, st.count as int)
                &&& row.valence as int == avg_val(st.valence as int, st.count as int)
                &&& row.tempo as int == avg_val(st.tempo as int, st.count as int)
                &&& row.count == st.count
            },
        decreases stats@.len() - j,
    {
        let st = stats[j];
        let (danceability, acousticness, energy, valence, tempo) = st.averages();
        r.push(SummaryRow {
            cluster: st.cluster,
            danceability,
            acousticness,
            energy,
            valence,
            tempo,
            count: st.count,
        });
        j = j + 1;
    }
    r
}

} // verus!
