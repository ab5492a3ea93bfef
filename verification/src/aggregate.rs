//! Per-cluster aggregation: folding records into their clusters'
//! statistics, paired by position with the assignment sequence.

use vstd::prelude::*;

use crate::record::{ClusterStats, Song, MAX_RECORDS};

verus! {

/// One attribute of a record, selected by position in the fixed field
/// order: danceability, acousticness, energy, valence, tempo.
pub open spec fn attr_of(s: Song, attr: int) -> int {
    if attr == 0 {
        s.danceability as int
    } else if attr == 1 {
        s.acousticness as int
    } else if attr == 2 {
        s.energy as int
    } else if attr == 3 {
        s.valence as int
    } else {
        s.tempo as int
    }
}

/// How many of the first `n` positions are assigned to cluster `id`.
pub open spec fn fold_count(clusters: Seq<usize>, n: int, id: usize) -> int
    decreases n,
{
    if n <= 0 {
        0
    } else {
        fold_count(clusters, n - 1, id) + if clusters[n - 1] == id { 1int } else { 0int }
    }
}

/// Sum of one attribute over the records among the first `n` positions
/// that are assigned to cluster `id`.
pub open spec fn fold_sum(songs: Seq<Song>, clusters: Seq<usize>, n: int, id: usize, attr: int) -> int
    decreases n,
{
    if n <= 0 {
        0
    } else {
        fold_sum(songs, clusters, n - 1, id, attr)
            + if clusters[n - 1] == id { attr_of(songs[n - 1], attr) } else { 0int }
    }
}

/// The distinct cluster ids among the first `n` positions, in order of
/// first appearance.
pub open spec fn observed_ids(clusters: Seq<usize>, n: int) -> Seq<usize>
    decreases n,
{
    if n <= 0 {
        Seq::empty()
    } else {
        let p = observed_ids(clusters, n - 1);
        if p.contains(clusters[n - 1]) {
            p
        } else {
            p.push(clusters[n - 1])
        }
    }
}

/// The cluster ids of a statistics sequence, in order.
pub open spec fn ids_of(r: Seq<ClusterStats>) -> Seq<usize> {
    r.map_values(|st: ClusterStats| st.cluster)
}

/// Total record count over a statistics sequence.
pub open spec fn sum_counts(r: Seq<ClusterStats>) -> int
    decreases r.len(),
{
    if r.len() == 0 {
        0
    } else {
        sum_counts(r.drop_last()) + r.last().count
    }
}

/// The accumulator `st` holds exactly the statistics of cluster
/// `st.cluster` over the first `n` positions.
pub open spec fn stats_match(songs: Seq<Song>, clusters: Seq<usize>, n: int, st: ClusterStats) -> bool {
    &&& st.count == fold_count(clusters, n, st.cluster)
    &&& st.danceability == fold_sum(songs, clusters, n, st.cluster, 0)
    &&& st.acousticness == fold_sum(songs, clusters, n, st.cluster, 1)
    &&& st.energy == fold_sum(songs, clusters, n, st.cluster, 2)
    &&& st.valence == fold_sum(songs, clusters, n, st.cluster, 3)
    &&& st.tempo == fold_sum(songs, clusters, n, st.cluster, 4)
}

/// `r` is the aggregation of `songs` under the assignment `clusters`: one
/// accumulator per observed id, in order of first appearance, each holding
/// exactly its cluster's sums and count.
pub open spec fn aggregate_ok(songs: Seq<Song>, clusters: Seq<usize>, r: Seq<ClusterStats>) -> bool {
    &&& ids_of(r) == observed_ids(clusters, clusters.len() as int)
    &&& forall|j: int| 0 <= j < r.len() ==> stats_match(songs, clusters, clusters.len() as int, #[trigger] r[j])
}

proof fn lemma_sum_counts_push(r: Seq<ClusterStats>, st: ClusterStats)
    ensures
        sum_counts(r.push(st)) == sum_counts(r) + st.count,
{
    assert(r.push(st).drop_last() =~= r);
    assert(r.push(st).last() == st);
}

proof fn lemma_sum_counts_update(r: Seq<ClusterStats>, j: int, st: ClusterStats)
    requires
        0 <= j < r.len(),
    ensures
        sum_counts(r.update(j, st)) == sum_counts(r) + st.count - r[j].count,
    decreases r.len(),
{
    if j == r.len() - 1 {
        assert(r.update(j, st).drop_last() =~= r.drop_last());
        assert(r.update(j, st).last() == st);
    } else {
        assert(r.update(j, st).drop_last() =~= r.drop_last().update(j, st));
        assert(r.update(j, st).last() == r.last());
        lemma_sum_counts_update(r.drop_last(), j, st);
    }
}

/// A cluster id that has not appeared among the first `n` positions has a
/// zero count and zero sums there.
proof fn lemma_unobserved_zero(songs: Seq<Song>, clusters: Seq<usize>, n: int, id: usize)
    requires
        n <= clusters.len(),
        !observed_ids(clusters, n).contains(id),
    ensures
        fold_count(clusters, n, id) == 0,
        forall|attr: int| #[trigger] fold_sum(songs, clusters, n, id, attr) == 0,
    decreases n,
{
    if n > 0 {
        let p = observed_ids(clusters, n - 1);
        let c = clusters[n - 1];
        if p.contains(c) {
            assert(observed_ids(clusters, n) == p);
        } else {
            assert(observed_ids(clusters, n) == p.push(c));
            assert forall|x: usize| p.contains(x) implies p.push(c).contains(x) by {
                let w = choose|w: int| 0 <= w < p.len() && p[w] == x;
                assert(p.push(c)[w] == x);
            }
            assert(p.push(c)[p.len() as int] == c);
            assert(p.push(c).contains(c));
        }
        assert(!p.contains(id));
        assert(c != id);
        lemma_unobserved_zero(songs, clusters, n - 1, id);
        assert forall|attr: int| #[trigger] fold_sum(songs, clusters, n, id, attr) == 0 by {
            assert(fold_sum(songs, clusters, n, id, attr)
                == fold_sum(songs, clusters, n - 1, id, attr));
        }
    }
}

/// Every id assigned among the first `n` positions appears in
/// `observed_ids(clusters, n)`, and everything there was assigned.
proof fn lemma_observed_sound_complete(clusters: Seq<usize>, n: int)
    requires
        n <= clusters.len(),
    ensures
        forall|i: int| 0 <= i < n ==> observed_ids(clusters, n).contains(#[trigger] clusters[i]),
        forall|x: usize| observed_ids(clusters, n).contains(x)
            ==> exists|i: int| 0 <= i < n && #[trigger] clusters[i] == x,
    decreases n,
{
    if n > 0 {
        lemma_observed_sound_complete(clusters, n - 1);
        let p = observed_ids(clusters, n - 1);
        let c = clusters[n - 1];
        let q = observed_ids(clusters, n);
        if p.contains(c) {
            assert(q == p);
        } else {
            assert(q == p.push(c));
            assert forall|x: usize| p.contains(x) implies q.contains(x) by {
                let w = choose|w: int| 0 <= w < p.len() && p[w] == x;
                assert(q[w] == x);
            }
            assert(q[p.len() as int] == c);
            assert(q.contains(c));
            assert forall|x: usize| q.contains(x) && !p.contains(x) implies x == c by {
                let w = choose|w: int| 0 <= w < q.len() && q[w] == x;
                if w < p.len() {
                    assert(p[w] == x);
                }
            }
        }
        assert(q.contains(c));
    }
}

/// Finds the accumulator whose cluster id is `id`, if one exists.
fn find_cluster(stats: &Vec<ClusterStats>, id: usize) -> (r: Option<usize>)
    ensures
        match r {
            Some(j) => 0 <= j < stats@.len() && stats@[j as int].cluster == id,
            None => forall|j: int| 0 <= j < stats@.len() ==> (#[trigger] stats@[j]).cluster != id,
        },
{
    let mut j: usize = 0;
    while j < stats.len()
        invariant
            j <= stats@.len(),
            forall|m: int| 0 <= m < j ==> (#[trigger] stats@[m]).cluster != id,
        decreases stats@.len() - j,
    {
        if stats[j].cluster == id {
            return Some(j);
        }
        j = j + 1;
    }
    None
}

/// Walks the records together with their positionally paired cluster ids
/// and accumulates per-cluster statistics: the accumulator of an id is
/// created, all-zero, when the id is first observed, and each record is
/// folded into its cluster's accumulator exactly once. The result holds
/// one accumulator per observed id, in order of first appearance, and the
/// counts add up to the number of records.
pub fn aggregate_clusters(songs: &Vec<Song>, clusters: &Vec<usize>) -> (r: Vec<ClusterStats>)
    requires
        songs@.len() == clusters@.len(),
        songs@.len() <= MAX_RECORDS,
        forall|i: int| 0 <= i < songs@.len() ==> (#[trigger] songs@[i]).wf(),
    ensures
        aggregate_ok(songs@, clusters@, r@),
        sum_counts(r@) == songs@.len(),
        forall|j: int| 0 <= j < r@.len() ==> (#[trigger] r@[j]).wf(),
        forall|j1: int, j2: int| 0 <= j1 < j2 < r@.len() ==> r@[j1].cluster != r@[j2].cluster,
        forall|i: int| 0 <= i < clusters@.len()
            ==> exists|j: int| 0 <= j < r@.len() && r@[j].cluster == #[trigger] clusters@[i],
        forall|j: int| 0 <= j < r@.len()
            ==> exists|i: int| 0 <= i < clusters@.len() && clusters@[i] == (#[trigger] r@[j]).cluster,
{
    let n = songs.len();
    let mut r: Vec<ClusterStats> = Vec::new();
    let mut i: usize = 0;
    while i < n
        invariant
            n == songs@.len(),
            songs@.len() == clusters@.len(),
            songs@.len() <= MAX_RECORDS,
            forall|m: int| 0 <= m < songs@.len() ==> (#[trigger] songs@[m]).wf(),
            i <= n,
            ids_of(r@) == observed_ids(clusters@, i as int),
            forall|j: int| 0 <= j < r@.len()
                ==> stats_match(songs@, clusters@, i as int, #[trigger] r@[j]),
            forall|j: int| 0 <= j < r@.len() ==> (#[trigger] r@[j]).wf(),
            forall|j: int| 0 <= j < r@.len() ==> (#[trigger] r@[j]).count <= i,
            forall|j1: int, j2: int| 0 <= j1 < j2 < r@.len() ==> r@[j1].cluster != r@[j2].cluster,
            sum_counts(r@) == i,
        decreases n - i,
    {
        let id = clusters[i];
        let ghost pre = r@;
        let ghost gi = i as int;
        match find_cluster(&r, id) {
            Some(j) => {
                let mut st = r[j];
                st.update(&songs[i]);
                r.set(j, st);
                proof {
                    assert(r@ == pre.update(j as int, st));
                    lemma_sum_counts_update(pre, j as int, st);
                    assert(ids_of(pre)[j as int] == id);
                    assert(observed_ids(clusters@, gi).contains(id));
                    assert(observed_ids(clusters@, gi + 1) == observed_ids(clusters@, gi));
                    assert(ids_of(r@) =~= ids_of(pre));
                    assert forall|m: int| 0 <= m < r@.len()
                        implies stats_match(songs@, clusters@, gi + 1, #[trigger] r@[m]) by {
                        let c = r@[m].cluster;
                        assert(fold_count(clusters@, gi + 1, c)
                            == fold_count(clusters@, gi, c) + if clusters@[gi] == c { 1int } else { 0int });
                        assert(forall|attr: int| #[trigger] fold_sum(songs@, clusters@, gi + 1, c, attr)
                            == fold_sum(songs@, clusters@, gi, c, attr)
                                + if clusters@[gi] == c { attr_of(songs@[gi], attr) } else { 0int });
                        if m != j as int {
                            assert(r@[m] == pre[m]);
                            assert(pre[m].cluster != id);
                        }
                    }
                }
            },
            None => {
                let mut st = ClusterStats::new(id);
                st.update(&songs[i]);
                r.push(st);
                proof {
                    assert(r@ == pre.push(st));
                    lemma_sum_counts_push(pre, st);
                    assert forall|x: usize| observed_ids(clusters@, gi).contains(x)
                        implies exists|m: int| 0 <= m < pre.len() && pre[m].cluster == x by {
                        let w = choose|w: int|
                            0 <= w < observed_ids(clusters@, gi).len()
                                && observed_ids(clusters@, gi)[w] == x;
                        assert(ids_of(pre)[w] == x);
                        assert(pre[w].cluster == x);
                    }
                    assert(!observed_ids(clusters@, gi).contains(id));
                    lemma_unobserved_zero(songs@, clusters@, gi, id);
                    assert(observed_ids(clusters@, gi + 1)
                        == observed_ids(clusters@, gi).push(id));
                    assert(ids_of(r@) =~= ids_of(pre).push(id));
                    assert forall|m: int| 0 <= m < r@.len()
                        implies stats_match(songs@, clusters@, gi + 1, #[trigger] r@[m]) by {
                        let c = r@[m].cluster;
                        assert(fold_count(clusters@, gi + 1, c)
                            == fold_count(clusters@, gi, c) + if clusters@[gi] == c { 1int } else { 0int });
                        assert(forall|attr: int| #[trigger] fold_sum(songs@, clusters@, gi + 1, c, attr)
                            == fold_sum(songs@, clusters@, gi, c, attr)
                                + if clusters@[gi] == c { attr_of(songs@[gi], attr) } else { 0int });
                        if m < pre.len() {
                            assert(r@[m] == pre[m]);
                            assert(pre[m].cluster != id);
                        } else {
                            assert(r@[m] == st);
                        }
                    }
                    assert forall|j1: int, j2: int| 0 <= j1 < j2 < r@.len()
                        implies r@[j1].cluster != r@[j2].cluster by {
                        if j2 == pre.len() as int {
                            assert(pre[j1].cluster != id);
                        }
                    }
                }
            },
        }
        i = i + 1;
    }
    proof {
        lemma_observed_sound_complete(clusters@, clusters@.len() as int);
        assert forall|m: int| 0 <= m < clusters@.len()
            implies exists|j: int| 0 <= j < r@.len() && r@[j].cluster == #[trigger] clusters@[m] by {
            let x = clusters@[m];
            assert(observed_ids(clusters@, clusters@.len() as int).contains(x));
            let w = choose|w: int|
                0 <= w < observed_ids(clusters@, clusters@.len() as int).len()
                    && observed_ids(clusters@, clusters@.len() as int)[w] == x;
            assert(ids_of(r@)[w] == x);
            assert(r@[w].cluster == x);
        }
        assert forall|j: int| 0 <= j < r@.len()
            implies exists|i2: int|
                0 <= i2 < clusters@.len() && clusters@[i2] == (#[trigger] r@[j]).cluster by {
            assert(ids_of(r@)[j] == r@[j].cluster);
            assert(observed_ids(clusters@, clusters@.len() as int).contains(r@[j].cluster));
        }
    }
    r
}

} // verus!
