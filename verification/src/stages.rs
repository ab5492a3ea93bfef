//! The three per-record stages: feature extraction, dimensionality
//! reduction, and cluster assignment.

use vstd::prelude::*;

use crate::record::{Song, MAX_ABS};

verus! {

/// The feature vector of one record: its five attributes in the fixed order
/// danceability, acousticness, energy, valence, tempo.
pub open spec fn features_of(s: Song) -> Seq<i64> {
    seq![s.danceability, s.acousticness, s.energy, s.valence, s.tempo]
}

/// Every element of the row lies in the representable range, and the row is
/// no wider than a feature vector.
pub open spec fn row_wf(row: Seq<i64>) -> bool {
    &&& row.len() <= 5
    &&& forall|j: int| 0 <= j < row.len() ==> -MAX_ABS <= #[trigger] row[j] <= MAX_ABS
}

/// Sum of the elements of a row.
pub open spec fn seq_sum(row: Seq<i64>) -> int
    decreases row.len(),
{
    if row.len() == 0 {
        0
    } else {
        seq_sum(row.drop_last()) + row.last()
    }
}

/// The cluster id of a row: sum the elements, truncate the sum toward zero
/// to whole units (negative sums truncate to zero), and reduce modulo `k`.
/// The result therefore always lies in `[0, k)`.
pub open spec fn cluster_id(row: Seq<i64>, k: int) -> int
    recommends
        k >= 1,
{
    let s = seq_sum(row);
    let units = if s <= 0 { 0int } else { s / (100 as int) };
    units % k
}

/// Projects each record onto its feature vector, in order, one vector per
/// record. A pure field selection: no scaling or centering.
pub fn normalize_features(songs: &Vec<Song>) -> (r: Vec<Vec<i64>>)
    ensures
        r@.len() == songs@.len(),
        forall|i: int| 0 <= i < songs@.len() ==> #[trigger] r@[i]@ == features_of(songs@[i]),
{
    let mut r: Vec<Vec<i64>> = Vec::new();
    let mut i: usize = 0;
    while i < songs.len()
        invariant
            i <= songs@.len(),
            r@.len() == i,
            forall|j: int| 0 <= j < i ==> #[trigger] r@[j]@ == features_of(songs@[j]),
        decreases songs@.len() - i,
    {
        let s = &songs[i];
        let mut row: Vec<i64> = Vec::new();
        row.push(s.danceability);
        row.push(s.acousticness);
        row.push(s.energy);
        row.push(s.valence);
        row.push(s.tempo);
        proof {
            assert(row@ =~= features_of(songs@[i as int]));
        }
        r.push(row);
        i = i + 1;
    }
    r
}

/// Truncates each row to its first `target_dims` elements, in order, one
/// output row per input row. A row shorter than `target_dims` is kept whole,
/// so each output row has length `min(target_dims, input length)`.
pub fn pca(data: &Vec<Vec<i64>>, target_dims: usize) -> (r: Vec<Vec<i64>>)
    ensures
        r@.len() == data@.len(),
        forall|i: int| 0 <= i < data@.len() ==> #[trigger] r@[i]@ == data@[i]@.take(
            if target_dims <= data@[i]@.len() { target_dims as int } else { data@[i]@.len() as int },
        ),
{
    let mut r: Vec<Vec<i64>> = Vec::new();
    let mut i: usize = 0;
    while i < data.len()
        invariant
            i <= data@.len(),
            r@.len() == i,
            forall|j: int| 0 <= j < i ==> #[trigger] r@[j]@ == data@[j]@.take(
                if target_dims <= data@[j]@.len() { target_dims as int } else { data@[j]@.len() as int },
            ),
        decreases data@.len() - i,
    {
        let row = &data[i];
        let keep: usize = if target_dims <= row.len() { target_dims } else { row.len() };
        let mut out: Vec<i64> = Vec::new();
        let mut j: usize = 0;
        while j < keep
            invariant
                j <= keep,
                keep <= row@.len(),
                out@ =~= row@.take(j as int),
            decreases keep - j,
        {
            out.push(row[j]);
            proof {
                assert(out@ =~= row@.take(j as int + 1));
            }
            j = j + 1;
        }
        proof {
            assert(out@ =~= data@[i as int]@.take(keep as int));
        }
        r.push(out);
        i = i + 1;
    }
    r
}

/// Assigns each row its cluster id, in order, one id per row. Each id is a
/// pure function of the row and `k` alone, and lies in `[0, k)`.
pub fn k_means(data: &Vec<Vec<i64>>, k: usize) -> (r: Vec<usize>)
    requires
        k >= 1,
        forall|i: int| 0 <= i < data@.len() ==> row_wf(#[trigger] data@[i]@),
    ensures
        r@.len() == data@.len(),
        forall|i: int| 0 <= i < data@.len() ==> #[trigger] r@[i] == cluster_id(data@[i]@, k as int),
        forall|i: int| 0 <= i < data@.len() ==> #[trigger] r@[i] < k,
    {
    let mut r: Vec<usize> = Vec::new();
    let mut i: usize = 0;
    while i < data.len()
        invariant
            i <= data@.len(),
            k >= 1,
            forall|n: int| 0 <= n < data@.len() ==> row_wf(#[trigger] data@[n]@),
            r@.len() == i,
            forall|n: int| 0 <= n < i ==> #[trigger] r@[n] == cluster_id(data@[n]@, k as int),
            forall|n: int| 0 <= n < i ==> #[trigger] r@[n] < k,
        decreases data@.len() - i,
    {
        let row = &data[i];
        let mut sum: i64 = 0;
        let mut j: usize = 0;
        while j < row.len()
            invariant
                j <= row@.len(),
                row_wf(row@),
                sum == seq_sum(row@.take(j as int)),
                -((j as int) * (MAX_ABS as int)) <= sum as int <= (j as int) * (MAX_ABS as int),
            decreases row@.len() - j,
        {
            proof {
                assert(row@.take(j as int + 1).drop_last() =~= row@.take(j as int));
                assert(row@.take(j as int + 1).last() == row@[j as int]);
            }
            sum = sum + row[j];
            j = j + 1;
        }
        proof {
            assert(row@.take(row@.len() as int) =~= row@);
        }
        let id: usize = if sum <= 0 {
            proof {
                assert(0int % (k as int) == 0) by (nonlinear_arith)
                    requires k >= 1;
                assert(cluster_id(row@, k as int) == 0);
            }
            0
        } else {
            let units: u64 = (sum as u64) / 100;
            let id64: u64 = units % (k as u64);
            proof {
                assert(sum as int / 100int <= sum as int) by (nonlinear_arith)
                    requires sum >= 1;
                assert(units as int == seq_sum(row@) / 100int);
                assert(id64 as int == (seq_sum(row@) / 100int) % (k as int));
                assert(id64 < k as u64);
                assert(cluster_id(row@, k as int) == id64 as int);
            }
            id64 as usize
        };
        proof {
            assert(id == cluster_id(data@[i as int]@, k as int));
        }
        r.push(id);
        i = i + 1;
    }
    r
}

} // verus!
