//! The record model: one input row, and one cluster's running statistics.

use vstd::prelude::*;

verus! {

/// Largest magnitude, in hundredths, that an attribute value may have.
/// Keeps every sum of up to `MAX_RECORDS` attributes inside `i64`.
pub const MAX_ABS: i64 = 1_000_000_000_000;

/// Largest number of records one pipeline run accepts, so that per-cluster
/// sums stay inside `i64`.
pub const MAX_RECORDS: usize = 1_000_000;

/// One input row: five audio attributes in hundredths of a unit, and a
/// decade label that the numeric pipeline carries along unused.
#[derive(Clone, Debug, PartialEq)]
pub struct Song {
    pub danceability: i64,
    pub acousticness: i64,
    pub energy: i64,
    pub valence: i64,
    pub tempo: i64,
    pub decade: String,
}

impl Song {
    /// All five attributes lie in the representable range.
    pub open spec fn wf(&self) -> bool {
        &&& -MAX_ABS <= self.danceability <= MAX_ABS
        &&& -MAX_ABS <= self.acousticness <= MAX_ABS
        &&& -MAX_ABS <= self.energy <= MAX_ABS
        &&& -MAX_ABS <= self.valence <= MAX_ABS
        &&& -MAX_ABS <= self.tempo <= MAX_ABS
    }

    pub fn new(
        danceability: i64,
        acousticness: i64,
        energy: i64,
        valence: i64,
        tempo: i64,
        decade: String,
    ) -> (r: Song)
        requires
            -MAX_ABS <= danceability <= MAX_ABS,
            -MAX_ABS <= acousticness <= MAX_ABS,
            -MAX_ABS <= energy <= MAX_ABS,
            -MAX_ABS <= valence <= MAX_ABS,
            -MAX_ABS <= tempo <= MAX_ABS,
        ensures
            r.danceability == danceability,
            r.acousticness == acousticness,
            r.energy == energy,
            r.valence == valence,
            r.tempo == tempo,
            r.decade == decade,
            r.wf(),
    {
        Song { danceability, acousticness, energy, valence, tempo, decade }
    }
}

/// The running statistics of one cluster: the cluster id, the sum of each
/// attribute over the records folded in so far, and their count.
#[derive(Clone, Copy, Debug, PartialEq, Eq, Structural)]
pub struct ClusterStats {
    pub cluster: usize,
    pub danceability: i64,
    pub acousticness: i64,
    pub energy: i64,
    pub valence: i64,
    pub tempo: i64,
    pub count: usize,
}

/// Truncated-toward-zero quotient, and `0` for an empty cluster: the
/// convention this library uses for an emitted average.
pub open spec fn avg_val(sum: int, count: int) -> int {
    if count <= 0 {
        0
    } else if sum >= 0 {
        sum / count
    } else {
        -((-sum) / count)
    }
}

impl ClusterStats {
    /// The sums stay bounded by the count, so that folding one more record
    /// cannot overflow.
    pub open spec fn wf(&self) -> bool {
        &&& self.count <= MAX_RECORDS
        &&& -((self.count as int) * (MAX_ABS as int)) <= self.danceability as int
            <= (self.count as int) * (MAX_ABS as int)
        &&& -((self.count as int) * (MAX_ABS as int)) <= self.acousticness as int
            <= (self.count as int) * (MAX_ABS as int)
        &&& -((self.count as int) * (MAX_ABS as int)) <= self.energy as int
            <= (self.count as int) * (MAX_ABS as int)
        &&& -((self.count as int) * (MAX_ABS as int)) <= self.valence as int
            <= (self.count as int) * (MAX_ABS as int)
        &&& -((self.count as int) * (MAX_ABS as int)) <= self.tempo as int
            <= (self.count as int) * (MAX_ABS as int)
    }

    /// A fresh accumulator: all-zero sums, count zero.
    pub fn new(cluster: usize) -> (r: ClusterStats)
        ensures
            r.cluster == cluster,
            r.danceability == 0,
            r.acousticness == 0,
            r.energy == 0,
            r.valence == 0,
            r.tempo == 0,
            r.count == 0,
            r.wf(),
    {
        ClusterStats {
            cluster,
            danceability: 0,
            acousticness: 0,
            energy: 0,
            valence: 0,
            tempo: 0,
            count: 0,
        }
    }

    /// Folds one record in: adds its five attributes to the sums and
    /// increments the count.
    pub fn update(&mut self, song: &Song)
        requires
            old(self).wf(),
            old(self).count < MAX_RECORDS,
            song.wf(),
        ensures
            final(self).cluster == old(self).cluster,
            final(self).danceability == old(self).danceability + song.danceability,
            final(self).acousticness == old(self).acousticness + song.acousticness,
            final(self).energy == old(self).energy + song.energy,
            final(self).valence == old(self).valence + song.valence,
            final(self).tempo == old(self).tempo + song.tempo,
            final(self).count == old(self).count + 1,
            final(self).wf(),
    {
        self.danceability = self.danceability + song.danceability;
        self.acousticness = self.acousticness + song.acousticness;
        self.energy = self.energy + song.energy;
        self.valence = self.valence + song.valence;
        self.tempo = self.tempo + song.tempo;
        self.count = self.count + 1;
    }

    /// The five averages: each attribute's sum divided by the count,
    /// truncated toward zero, or all zero when the count is zero.
    pub fn averages(&self) -> (r: (i64, i64, i64, i64, i64))
        requires
            self.wf(),
        ensures
            r.0 == avg_val(self.danceability as int, self.count as int),
            r.1 == avg_val(self.acousticness as int, self.count as int),
            r.2 == avg_val(self.energy as int, self.count as int),
            r.3 == avg_val(self.valence as int, self.count as int),
            r.4 == avg_val(self.tempo as int, self.count as int),
    {
        if self.count == 0 {
            return (0, 0, 0, 0, 0);
        }
        (
            div_trunc(self.danceability, self.count),
            div_trunc(self.acousticness, self.count),
            div_trunc(self.energy, self.count),
            div_trunc(self.valence, self.count),
            div_trunc(self.tempo, self.count),
        )
    }
}

/// Quotient of `sum` by `count`, truncated toward zero.
fn div_trunc(sum: i64, count: usize) -> (r: i64)
    requires
        1 <= count,
        -((MAX_RECORDS as int) * (MAX_ABS as int)) <= sum as int <= (MAX_RECORDS as int) * (MAX_ABS as int),
    ensures
        r == avg_val(sum as int, count as int),
{
    if sum >= 0 {
        let q: u64 = (sum as u64) / (count as u64);
        proof {
            assert(sum as int / count as int <= sum as int) by (nonlinear_arith)
                requires sum >= 0 && count >= 1;
        }
        q as i64
    } else {
        let neg: i64 = -sum;
        let q: u64 = (neg as u64) / (count as u64);
        proof {
            assert(neg as int / count as int <= neg as int) by (nonlinear_arith)
                requires neg >= 0 && count >= 1;
        }
        -(q as i64)
    }
}

} // verus!
