//! Properties of the pipeline that relate several of its functions,
//! stated and proved over the spec functions of the other modules.

use vstd::prelude::*;

use crate::aggregate::{aggregate_ok, attr_of, fold_count, fold_sum, ids_of, observed_ids, stats_match};
use crate::record::{ClusterStats, Song};
use crate::pipeline::assignments;

verus! {

/// The records among the first `n` positions that are assigned to cluster
/// `id`, in order.
pub open spec fn matching_songs(songs: Seq<Song>, clusters: Seq<usize>, n: int, id: usize) -> Seq<Song>
    decreases n,
{
    if n <= 0 {
        Seq::empty()
    } else {
        let p = matching_songs(songs, clusters, n - 1, id);
        if clusters[n - 1] == id {
            p.push(songs[n - 1])
        } else {
            p
        }
    }
}

/// Sum of one attribute over a record sequence.
pub open spec fn attr_sum(songs: Seq<Song>, attr: int) -> int
    decreases songs.len(),
{
    if songs.len() == 0 {
        0
    } else {
        attr_sum(songs.drop_last(), attr) + attr_of(songs.last(), attr)
    }
}

/// A cluster's folded statistics equal an independent recomputation over
/// exactly the records assigned to it: the count is the number of matching
/// records, and each sum is the sum of that attribute over them alone.
pub proof fn lemma_fold_matches_selection(songs: Seq<Song>, clusters: Seq<usize>, n: int, id: usize)
    requires
        0 <= n <= songs.len(),
        clusters.len() == songs.len(),
    ensures
        fold_count(clusters, n, id) == matching_songs(songs, clusters, n, id).len(),
        forall|attr: int| #[trigger] fold_sum(songs, clusters, n, id, attr)
            == attr_sum(matching_songs(songs, clusters, n, id), attr),
    decreases n,
{
    if n > 0 {
        lemma_fold_matches_selection(songs, clusters, n - 1, id);
        let p = matching_songs(songs, clusters, n - 1, id);
        if clusters[n - 1] == id {
            assert(matching_songs(songs, clusters, n, id) == p.push(songs[n - 1]));
            assert(p.push(songs[n - 1]).drop_last() =~= p);
            assert(p.push(songs[n - 1]).last() == songs[n - 1]);
            assert forall|attr: int| #[trigger] fold_sum(songs, clusters, n, id, attr)
                == attr_sum(matching_songs(songs, clusters, n, id), attr) by {
                assert(fold_sum(songs, clusters, n, id, attr)
                    == fold_sum(songs, clusters, n - 1, id, attr) + attr_of(songs[n - 1], attr));
                assert(attr_sum(p.push(songs[n - 1]), attr)
                    == attr_sum(p, attr) + attr_of(songs[n - 1], attr));
            }
        } else {
            assert forall|attr: int| #[trigger] fold_sum(songs, clusters, n, id, attr)
                == attr_sum(matching_songs(songs, clusters, n, id), attr) by {
                assert(fold_sum(songs, clusters, n, id, attr)
                    == fold_sum(songs, clusters, n - 1, id, attr));
            }
        }
    }
}

/// Each emitted accumulator holds the statistics of exactly the records
/// whose assignment equals its cluster id: its count is their number, and
/// each of its sums is the sum of that attribute over them, so each
/// emitted average is the truncated arithmetic mean over those records.
pub proof fn lemma_emitted_stats_are_means(
    songs: Seq<Song>,
    clusters: Seq<usize>,
    r: Seq<ClusterStats>,
    j: int,
)
    requires
        songs.len() == clusters.len(),
        aggregate_ok(songs, clusters, r),
        0 <= j < r.len(),
    ensures
        r[j].count == matching_songs(songs, clusters, songs.len() as int, r[j].cluster).len(),
        r[j].danceability == attr_sum(matching_songs(songs, clusters, songs.len() as int, r[j].cluster), 0),
        r[j].acousticness == attr_sum(matching_songs(songs, clusters, songs.len() as int, r[j].cluster), 1),
        r[j].energy == attr_sum(matching_songs(songs, clusters, songs.len() as int, r[j].cluster), 2),
        r[j].valence == attr_sum(matching_songs(songs, clusters, songs.len() as int, r[j].cluster), 3),
        r[j].tempo == attr_sum(matching_songs(songs, clusters, songs.len() as int, r[j].cluster), 4),
{
    assert(stats_match(songs, clusters, clusters.len() as int, r[j]));
    lemma_fold_matches_selection(songs, clusters, songs.len() as int, r[j].cluster);
}

/// The pipeline is deterministic: two results of a run over the same
/// records, with the same `target_dims` and the same `k`, are equal.
pub proof fn lemma_pipeline_deterministic(
    songs: Seq<Song>,
    target_dims: int,
    k: int,
    r1: Seq<ClusterStats>,
    r2: Seq<ClusterStats>,
)
    requires
        aggregate_ok(songs, assignments(songs, target_dims, k), r1),
        aggregate_ok(songs, assignments(songs, target_dims, k), r2),
    ensures
        r1 == r2,
{
    let asg = assignments(songs, target_dims, k);
    let obs = observed_ids(asg, asg.len() as int);
    assert(ids_of(r1).len() == r1.len());
    assert(ids_of(r2).len() == r2.len());
    assert(r1.len() == obs.len());
    assert(r2.len() == obs.len());
    assert forall|j: int| 0 <= j < r1.len() implies r1[j] == r2[j] by {
        assert(ids_of(r1)[j] == r1[j].cluster);
        assert(ids_of(r2)[j] == r2[j].cluster);
        assert(r1[j].cluster == obs[j]);
        assert(r2[j].cluster == obs[j]);
        assert(stats_match(songs, asg, asg.len() as int, r1[j]));
        assert(stats_match(songs, asg, asg.len() as int, r2[j]));
    }
    assert(r1 =~= r2);
}

} // verus!
