//! The bookkeeping of the spectrum analyser: the sliding window of samples,
//! the current spectrum and its peak hold. The transform itself is computed
//! from [`SpectrumAnalyzer::frame`] and handed back to
//! [`SpectrumAnalyzer::apply_row`].
//!
//! Levels are in millionths of a decibel, other fractions in millionths.

use std::collections::VecDeque;
use vstd::prelude::*;

use crate::colormap::ONE;
#[allow(unused_imports)]
use crate::{colormap, ring};

verus! {

/// The floor of the spectrum, on which silence lies (-120 dB).
pub const DB_FLOOR: i32 = -120_000_000;

/// The heaviest smoothing that can be set (0.99).
pub const MAX_AVERAGING: i32 = 990_000;

/// A sliding window over the samples, the spectrum that was last computed
/// from it and the highest level that each bin has had.
pub struct SpectrumAnalyzer {
    size: usize,
    ring: VecDeque<i16>,
    row: Vec<i32>,
    peak: Vec<i32>,
    alpha: i32,
    primed: bool,
}

/// What a [`SpectrumAnalyzer`] holds.
pub struct SpectrumState {
    /// The length of the transform.
    pub size: nat,
    /// The newest samples, at most `size`.
    pub samples: Seq<i16>,
    /// The current level of each bin.
    pub row: Seq<i32>,
    /// The highest level of each bin.
    pub peak: Seq<i32>,
    /// The weight of the past in the running average.
    pub alpha: int,
    /// Whether a spectrum has been computed.
    pub primed: bool,
}

impl View for SpectrumAnalyzer {
    type V = SpectrumState;

    closed spec fn view(&self) -> SpectrumState {
        SpectrumState {
            size: self.size as nat,
            samples: self.ring@,
            row: self.row@,
            peak: self.peak@,
            alpha: self.alpha as int,
            primed: self.primed,
        }
    }
}

impl SpectrumState {
    /// The size is at least 16, the window never longer than that, and there
    /// is a level and a peak for each of the `size / 2` bins.
    pub open spec fn wf(self) -> bool {
        &&& self.size >= 16
        &&& self.samples.len() <= self.size
        &&& self.row.len() == self.size / 2
        &&& self.peak.len() == self.size / 2
        &&& 0 <= self.alpha <= MAX_AVERAGING
    }
}

/// The higher of two levels.
pub open spec fn higher(a: i32, b: i32) -> i32 {
    if b > a {
        b
    } else {
        a
    }
}

/// Bin by bin the higher of the held peak and the new level.
pub open spec fn held(peak: Seq<i32>, row: Seq<i32>) -> Seq<i32> {
    Seq::new(peak.len(), |i: int| higher(peak[i], row[i]))
}

fn filled(v: i32, n: usize) -> (r: Vec<i32>)
    ensures
        r@ == Seq::new(n as nat, |i: int| v),
{
    let mut r: Vec<i32> = Vec::new();
    let mut i: usize = 0;
    while i < n
        invariant
            i <= n,
            r@ == Seq::new(i as nat, |j: int| v),
        decreases n - i,
    {
        r.push(v);
        i = i + 1;
        assert(r@ =~= Seq::new(i as nat, |j: int| v));
    }
    r
}

impl SpectrumAnalyzer {
    /// An analyser without samples; `size` is the length of the transform
    /// (512, 1024 or 2048) and is raised to 16.
    pub fn new(size: usize) -> (r: Self)
        ensures
            r@.wf(),
            r@.size == if size < 16 { 16 } else { size as nat },
            r@.samples == Seq::<i16>::empty(),
            r@.row == Seq::new((r@.size / 2) as nat, |i: int| DB_FLOOR),
            r@.peak == Seq::new((r@.size / 2) as nat, |i: int| DB_FLOOR),
            r@.alpha == 500_000,
            !r@.primed,
    {
        let size: usize = if size < 16 {
            16
        } else {
            size
        };
        SpectrumAnalyzer {
            size,
            ring: VecDeque::new(),
            row: filled(DB_FLOOR, size / 2),
            peak: filled(DB_FLOOR, size / 2),
            alpha: 500_000,
            primed: false,
        }
    }

    /// The length of the transform.
    pub fn size(&self) -> (r: usize)
        ensures
            r == self@.size,
    {
        self.size
    }

    /// The number of bins.
    pub fn n_bins(&self) -> (r: usize)
        ensures
            r == self@.size / 2,
    {
        self.size / 2
    }

    /// Sets the weight of the past in the running average, in millionths: 0
    /// does not smooth; it is moved into `0..=MAX_AVERAGING`.
    pub fn set_averaging(&mut self, alpha: i32)
        requires
            old(self)@.wf(),
        ensures
            final(self)@ == (SpectrumState {
                alpha: colormap::clamped(alpha as int, 0, MAX_AVERAGING as int),
                ..old(self)@
            }),
    {
        self.alpha = if alpha < 0 {
            0
        } else if alpha > MAX_AVERAGING {
            MAX_AVERAGING
        } else {
            alpha
        };
    }

    /// The weight of the past in the running average, in millionths.
    pub fn averaging(&self) -> (r: i32)
        ensures
            r == self@.alpha,
    {
        self.alpha
    }

    /// Whether a spectrum has been computed: the first one is not averaged.
    pub fn is_primed(&self) -> (r: bool)
        ensures
            r == self@.primed,
    {
        self.primed
    }

    /// Lets every peak fall back to the floor.
    pub fn reset_peak(&mut self)
        requires
            old(self)@.wf(),
        ensures
            final(self)@ == (SpectrumState {
                peak: Seq::new(old(self)@.peak.len(), |i: int| DB_FLOOR),
                ..old(self)@
            }),
    {
        self.peak = filled(DB_FLOOR, self.size / 2);
    }

    /// The frequency of a bin in millionths of a hertz, rounded.
    pub fn bin_hz(&self, bin: usize, sample_rate: u32) -> (r: u128)
        requires
            self@.wf(),
        ensures
            r == colormap::nearest(bin * sample_rate * 1_000_000, self@.size as int),
    {
        assert(0 <= bin * sample_rate <= usize::MAX * u32::MAX) by (nonlinear_arith)
            requires
                0 <= bin <= usize::MAX,
                0 <= sample_rate <= u32::MAX,
        ;
        let num: u128 = bin as u128 * sample_rate as u128 * 1_000_000;
        (2 * num + self.size as u128) / (2 * self.size as u128)
    }

    /// Appends samples to the window; the oldest leave it. The result says
    /// whether the window is full, so that a new spectrum is due.
    pub fn feed_i16(&mut self, samples: &[i16]) -> (due: bool)
        requires
            old(self)@.wf(),
        ensures
            final(self)@ == (SpectrumState {
                samples: ring::newest(old(self)@.samples + samples@, old(self)@.size),
                ..old(self)@
            }),
            final(self)@.wf(),
            due == (final(self)@.samples.len() == final(self)@.size),
    {
        let ghost start = self.ring@;
        let ghost cap = self.size as nat;
        let ghost before = self@;
        let mut i: usize = 0;
        assert(ring::newest(start + samples@.take(0), cap) =~= start);
        while i < samples.len()
            invariant
                i <= samples@.len(),
                self.size == cap,
                cap >= 16,
                self.ring@.len() <= cap,
                self.ring@ == ring::newest(start + samples@.take(i as int), cap),
                self@ == (SpectrumState { samples: self.ring@, ..before }),
            decreases samples@.len() - i,
        {
            if self.ring.len() == self.size {
                self.ring.pop_front();
            }
            self.ring.push_back(samples[i]);
            assert(samples@.take(i + 1) =~= samples@.take(i as int).push(samples@[i as int]));
            assert(self.ring@ =~= ring::newest(start + samples@.take(i + 1), cap));
            i = i + 1;
        }
        assert(samples@.take(samples@.len() as int) =~= samples@);
        self.ring.len() == self.size
    }

    /// The samples of the window, oldest first.
    pub fn frame(&self) -> (r: Vec<i16>)
        ensures
            r@ == self@.samples,
    {
        let mut r: Vec<i16> = Vec::new();
        let mut i: usize = 0;
        while i < self.ring.len()
            invariant
                i <= self.ring@.len(),
                r@ == self.ring@.take(i as int),
            decreases self.ring@.len() - i,
        {
            r.push(self.ring[i]);
            i = i + 1;
            assert(r@ =~= self.ring@.take(i as int));
        }
        assert(r@ =~= self.ring@);
        r
    }

    /// Takes over a computed spectrum, one level for each bin, and raises the
    /// peaks that it exceeds.
    pub fn apply_row(&mut self, row: &[i32])
        requires
            old(self)@.wf(),
            row@.len() == old(self)@.size / 2,
        ensures
            final(self)@ == (SpectrumState {
                row: row@,
                peak: held(old(self)@.peak, row@),
                primed: true,
                ..old(self)@
            }),
            final(self)@.wf(),
    {
        let n: usize = self.size / 2;
        let mut current: Vec<i32> = Vec::new();
        let mut peak: Vec<i32> = Vec::new();
        let mut i: usize = 0;
        while i < n
            invariant
                i <= n,
                n == row@.len(),
                n == self.peak@.len(),
                current@ == row@.take(i as int),
                peak@ == held(self.peak@, row@).take(i as int),
            decreases n - i,
        {
            let v: i32 = row[i];
            let p: i32 = self.peak[i];
            current.push(v);
            peak.push(
                if v > p {
                    v
                } else {
                    p
                },
            );
            i = i + 1;
            assert(current@ =~= row@.take(i as int));
            assert(peak@ =~= held(self.peak@, row@).take(i as int));
        }
        assert(current@ =~= row@);
        assert(peak@ =~= held(self.peak@, row@));
        self.row = current;
        self.peak = peak;
        self.primed = true;
    }

    /// The current level of each bin; the floor before the first spectrum.
    pub fn magnitudes_db(&self) -> (r: &Vec<i32>)
        ensures
            r@ == self@.row,
    {
        &self.row
    }

    /// The highest level that each bin has had.
    pub fn peak_db(&self) -> (r: &Vec<i32>)
        ensures
            r@ == self@.peak,
    {
        &self.peak
    }
}

/// Where `db` lies between `floor_db` and `ceil_db`, as a fraction.
pub open spec fn unit_of(db: int, floor_db: int, ceil_db: int) -> int {
    if ceil_db <= floor_db {
        0
    } else {
        colormap::clamped(colormap::nearest((db - floor_db) * ONE, ceil_db - floor_db), 0, ONE as int)
    }
}

/// Where `db` lies between `floor_db` and `ceil_db`, in millionths from 0 to
/// [`ONE`]; 0 where the range is empty.
pub fn db_to_unit(db: i32, floor_db: i32, ceil_db: i32) -> (r: i32)
    ensures
        r == unit_of(db as int, floor_db as int, ceil_db as int),
{
    if ceil_db <= floor_db || db <= floor_db {
        proof {
            if ceil_db > floor_db {
                let den = ceil_db - floor_db;
                let num = (db - floor_db) * ONE;
                assert((2 * num + den) / (2 * den) <= 0) by (nonlinear_arith)
                    requires
                        num <= 0,
                        den > 0,
                ;
            }
        }
        return 0;
    }
    let num: i64 = (db as i64 - floor_db as i64) * ONE as i64;
    let den: i64 = ceil_db as i64 - floor_db as i64;
    if db >= ceil_db {
        proof {
            assert((2 * num + den) / (2 * den) >= 1_000_000) by (nonlinear_arith)
                requires
                    num >= den * 1_000_000,
                    den > 0,
            ;
        }
        return ONE;
    }
    proof {
        assert(0 <= (2 * num + den) / (2 * den) <= 1_000_000) by (nonlinear_arith)
            requires
                0 <= num < den * 1_000_000,
                den > 0,
        ;
    }
    ((2 * num + den) / (2 * den)) as i32
}

/// A held peak never falls and is never below the new level.
pub proof fn law_peak_hold_is_sticky(peak: Seq<i32>, row: Seq<i32>, i: int)
    requires
        row.len() == peak.len(),
        0 <= i < peak.len(),
    ensures
        held(peak, row)[i] >= peak[i],
        held(peak, row)[i] >= row[i],
        held(peak, row)[i] == peak[i] || held(peak, row)[i] == row[i],
{
}

/// Over any run of spectra, the peak of a bin stays at or above the peak that
/// it started from and above every level that it has seen.
pub proof fn law_peak_bounds_history(peak: Seq<i32>, rows: Seq<Seq<i32>>, i: int)
    requires
        forall|k: int| 0 <= k < rows.len() ==> #[trigger] rows[k].len() == peak.len(),
        0 <= i < peak.len(),
    ensures
        held_over(peak, rows).len() == peak.len(),
        held_over(peak, rows)[i] >= peak[i],
        forall|k: int| 0 <= k < rows.len() ==> held_over(peak, rows)[i] >= #[trigger] rows[k][i],
    decreases rows.len(),
{
    if rows.len() > 0 {
        let init = rows.drop_last();
        assert forall|k: int| 0 <= k < init.len() implies #[trigger] init[k].len()
            == peak.len() by {
            assert(init[k] == rows[k]);
        }
        law_peak_bounds_history(peak, init, i);
        law_peak_hold_is_sticky(held_over(peak, init), rows.last(), i);
        assert forall|k: int| 0 <= k < rows.len() implies held_over(peak, rows)[i]
            >= #[trigger] rows[k][i] by {
            if k < rows.len() - 1 {
                assert(init[k][i] == rows[k][i]);
            }
        }
    }
}

/// The peaks after a run of spectra.
pub open spec fn held_over(peak: Seq<i32>, rows: Seq<Seq<i32>>) -> Seq<i32>
    decreases rows.len(),
{
    if rows.len() == 0 {
        peak
    } else {
        held(held_over(peak, rows.drop_last()), rows.last())
    }
}

/// A louder level never maps to a smaller fraction; the floor maps to zero
/// and the ceiling to one.
pub proof fn law_unit_is_monotonic(a: int, b: int, floor_db: int, ceil_db: int)
    requires
        a <= b,
        floor_db < ceil_db,
    ensures
        0 <= unit_of(a, floor_db, ceil_db) <= unit_of(b, floor_db, ceil_db) <= ONE,
        unit_of(floor_db, floor_db, ceil_db) == 0,
        unit_of(ceil_db, floor_db, ceil_db) == ONE,
{
    let den = ceil_db - floor_db;
    let x = (a - floor_db) * ONE;
    let y = (b - floor_db) * ONE;
    assert((2 * x + den) / (2 * den) <= (2 * y + den) / (2 * den)) by (nonlinear_arith)
        requires
            x <= y,
            den > 0,
    ;
    assert((2 * 0 + den) / (2 * den) == 0) by (nonlinear_arith)
        requires
            den > 0,
    ;
    let z = den * ONE;
    assert((2 * z + den) / (2 * den) == ONE) by (nonlinear_arith)
        requires
            z == den * ONE,
            den > 0,
    ;
}

/// A level between floor and ceiling maps to its share of the way, in
/// millionths and off by at most a half; one below the floor to zero, one
/// above the ceiling to one, and all to zero where there is no way between.
pub proof fn law_unit_is_the_share_of_the_way(db: int, floor_db: int, ceil_db: int)
    ensures
        ceil_db <= floor_db ==> unit_of(db, floor_db, ceil_db) == 0,
        floor_db < ceil_db && db <= floor_db ==> unit_of(db, floor_db, ceil_db) == 0,
        floor_db < ceil_db && db >= ceil_db ==> unit_of(db, floor_db, ceil_db) == 1_000_000,
        floor_db <= db <= ceil_db && floor_db < ceil_db ==> {
            let off = unit_of(db, floor_db, ceil_db) * (ceil_db - floor_db) - (db - floor_db)
                * 1_000_000;
            -(ceil_db - floor_db) <= 2 * off <= ceil_db - floor_db
        },
{
    if floor_db < ceil_db {
        if db <= floor_db {
            law_unit_is_monotonic(db, floor_db, floor_db, ceil_db);
        }
        if db >= ceil_db {
            law_unit_is_monotonic(ceil_db, db, floor_db, ceil_db);
        }
        if floor_db <= db <= ceil_db {
            let den = ceil_db - floor_db;
            let num = (db - floor_db) * ONE;
            colormap::law_nearest_is_off_by_a_half(num, den);
            let r = colormap::nearest(num, den);
            assert(0 <= r <= ONE) by (nonlinear_arith)
                requires
                    2 * num - den < 2 * (r * den) <= 2 * num + den,
                    0 <= num <= den * 1_000_000,
                    den > 0,
                    ONE == 1_000_000,
            ;
        }
    }
}

/// Holding keeps a peak for every bin.
pub proof fn law_held_keeps_the_bins(peak: Seq<i32>, row: Seq<i32>)
    ensures
        held(peak, row).len() == peak.len(),
{
}

/// The floor is -120 dB and the heaviest smoothing 99 parts of 100.
pub proof fn law_limits_of_the_analyser()
    ensures
        DB_FLOOR == -120 * 1_000_000,
        100 * MAX_AVERAGING == 99 * 1_000_000,
{
}

} // verus!
