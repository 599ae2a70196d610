//! The monitor panel: samples from the air feed the scope, the spectrum and
//! the waterfall.

use std::collections::VecDeque;
use vstd::prelude::*;

use crate::colormap::Colormap;
use crate::scope::ScopeBuf;
use crate::spectrum::{db_to_unit, SpectrumAnalyzer};
use crate::view::{spectrum_bin, view_bins};
use crate::waterfall::Waterfall;
#[allow(unused_imports)]
use crate::{colormap, ring, scope, spectrum, view, waterfall};

verus! {

/// Pixels in a row of the waterfall.
pub const WF_W: usize = 480;

/// Rows of the waterfall.
pub const WF_H: usize = 256;

/// Samples that the scope keeps.
pub const SCOPE_CAP: usize = 16_000;

/// The lengths of the transform that can be chosen.
pub const FFT_SIZES: [usize; 3] = [512, 1024, 2048];

/// Takes everything out of a ring of samples.
pub fn drain_ring(r: &mut VecDeque<i16>) -> (chunk: Vec<i16>)
    ensures
        chunk@ == old(r)@,
        final(r)@ == Seq::<i16>::empty(),
{
    let mut chunk: Vec<i16> = Vec::new();
    let ghost all = r@;
    assert(all.skip(0) =~= all);
    while r.len() > 0
        invariant
            chunk@.len() <= all.len(),
            chunk@ == all.take(chunk@.len() as int),
            r@ == all.skip(chunk@.len() as int),
        decreases r@.len(),
    {
        match r.pop_front() {
            Some(s) => {
                chunk.push(s);
                assert(chunk@ =~= all.take(chunk@.len() as int));
                assert(r@ =~= all.skip(chunk@.len() as int));
            },
            None => {},
        }
    }
    assert(chunk@ =~= all);
    chunk
}

/// What is to be done after samples came in.
#[derive(Debug, Clone, Copy, PartialEq, Eq, Structural)]
pub enum Feed {
    /// Nothing: there were none.
    Idle,
    /// The waterfall scrolls.
    Scroll,
    /// The spectrum is computed anew, and then the waterfall scrolls.
    Transform,
}

/// The scope, the spectrum and the waterfall with their controls. Levels are
/// in millionths of a decibel, the scope window in microseconds.
pub struct MonitorPanel {
    /// The scope.
    pub scope: ScopeBuf,
    /// The spectrum.
    pub spectrum: SpectrumAnalyzer,
    /// The waterfall.
    pub waterfall: Waterfall,
    /// The length of the transform.
    pub fft_size: usize,
    /// The weight of the past in the running average, in millionths.
    pub avg_alpha: i32,
    /// The colours of the waterfall.
    pub cmap: Colormap,
    /// The level that is drawn darkest.
    pub wf_floor: i32,
    /// The level that is drawn brightest.
    pub wf_ceil: i32,
    /// The time that the scope shows.
    pub scope_us: u64,
    /// Whether spectrum and waterfall show the data band alone.
    pub freq_zoom: bool,
}

/// The part of a spectrum that is shown.
pub open spec fn shown_row(row: Seq<i32>, zoom: bool) -> Seq<i32> {
    row.take(view::shown_bins(zoom, row.len() as int))
}

impl MonitorPanel {
    /// The parts of the panel are well-formed.
    pub open spec fn wf(&self) -> bool {
        &&& self.scope.wf()
        &&& self.spectrum@.wf()
        &&& self.waterfall@.wf()
    }

    /// Whether the controls of two panels agree.
    pub open spec fn same_controls(&self, other: &MonitorPanel) -> bool {
        &&& self.fft_size == other.fft_size
        &&& self.avg_alpha == other.avg_alpha
        &&& self.cmap == other.cmap
        &&& self.wf_floor == other.wf_floor
        &&& self.wf_ceil == other.wf_ceil
        &&& self.scope_us == other.scope_us
        &&& self.freq_zoom == other.freq_zoom
    }

    /// An empty panel with the controls as they are at first.
    pub fn new() -> (r: Self)
        ensures
            r.wf(),
            r.scope@ == Seq::<i16>::empty(),
            r.scope.spec_capacity() == SCOPE_CAP,
            r.spectrum@.size == 1024,
            r.spectrum@.samples == Seq::<i16>::empty(),
            r.spectrum@.row == Seq::new(512, |i: int| spectrum::DB_FLOOR),
            r.spectrum@.peak == Seq::new(512, |i: int| spectrum::DB_FLOOR),
            r.spectrum@.alpha == 500_000,
            !r.spectrum@.primed,
            r.waterfall@.width == WF_W,
            r.waterfall@.height == WF_H,
            r.waterfall@.rows == Seq::<Seq<u8>>::empty(),
            r.fft_size == 1024,
            r.avg_alpha == 500_000,
            r.cmap == Colormap::Turbo,
            r.wf_floor == -95_000_000,
            r.wf_ceil == -20_000_000,
            r.scope_us == 250_000,
            !r.freq_zoom,
    {
        let fft_size: usize = 1024;
        let mut spectrum = SpectrumAnalyzer::new(fft_size);
        spectrum.set_averaging(500_000);
        MonitorPanel {
            scope: ScopeBuf::new(SCOPE_CAP),
            spectrum,
            waterfall: Waterfall::new(WF_W, WF_H),
            fft_size,
            avg_alpha: 500_000,
            cmap: Colormap::Turbo,
            wf_floor: -95_000_000,
            wf_ceil: -20_000_000,
            scope_us: 250_000,
            freq_zoom: false,
        }
    }

    /// Whether this panel is the other one after `chunk` went to its scope and
    /// its spectrum.
    pub open spec fn has_taken(&self, before: &MonitorPanel, chunk: Seq<i16>) -> bool {
        &&& self.same_controls(before)
        &&& self.scope@ == ring::newest(before.scope@ + chunk, before.scope.spec_capacity())
        &&& self.scope.spec_capacity() == before.scope.spec_capacity()
        &&& self.spectrum@ == (spectrum::SpectrumState {
            samples: ring::newest(before.spectrum@.samples + chunk, before.spectrum@.size),
            ..before.spectrum@
        })
        &&& self.waterfall == before.waterfall
    }

    /// Feeds samples from the air to scope and spectrum, and says what is to
    /// be done next. Without samples nothing happens.
    pub fn drain_monitor_samples(&mut self, chunk: &[i16]) -> (r: Feed)
        requires
            old(self).wf(),
        ensures
            final(self).wf(),
            r is Idle <==> chunk@.len() == 0,
            chunk@.len() == 0 ==> *final(self) == *old(self),
            chunk@.len() > 0 ==> final(self).has_taken(old(self), chunk@),
            r is Transform <==> chunk@.len() > 0 && final(self).spectrum@.samples.len()
                == final(self).spectrum@.size,
    {
        if chunk.len() == 0 {
            return Feed::Idle;
        }
        self.scope.push_i16(chunk);
        if self.spectrum.feed_i16(chunk) {
            Feed::Transform
        } else {
            Feed::Scroll
        }
    }

    /// Adds the current spectrum, as far as it is shown, to the waterfall.
    pub fn scroll(&mut self)
        requires
            old(self).wf(),
        ensures
            final(self).wf(),
            final(self).same_controls(old(self)),
            final(self).scope == old(self).scope,
            final(self).spectrum == old(self).spectrum,
            final(self).waterfall@ == old(self).waterfall@.pushed(
                Seq::new(
                    old(self).waterfall@.width,
                    |x: int|
                        waterfall::cell(
                            shown_row(old(self).spectrum@.row, old(self).freq_zoom),
                            old(self).waterfall@.width as int,
                            old(self).wf_floor as int,
                            old(self).wf_ceil as int,
                            x,
                        ) as u8,
                ),
            ),
    {
        let n: usize = self.spectrum.n_bins();
        let vb: usize = view_bins(self.freq_zoom, n);
        let mut row: Vec<i32> = Vec::new();
        let ghost all = self.spectrum@.row;
        let mut i: usize = 0;
        while i < vb
            invariant
                i <= vb <= n,
                n == all.len(),
                all == self.spectrum@.row,
                row@ == all.take(i as int),
            decreases vb - i,
        {
            let v: i32 = self.spectrum.magnitudes_db()[i];
            row.push(v);
            i = i + 1;
            assert(row@ =~= all.take(i as int));
        }
        self.waterfall.push_row_db(row.as_slice(), self.wf_floor, self.wf_ceil);
    }

    /// Chooses another length of the transform: the spectrum starts anew with
    /// the same smoothing.
    pub fn set_fft_size(&mut self, size: usize)
        requires
            old(self).wf(),
        ensures
            final(self).wf(),
            final(self).same_controls(&(MonitorPanel { fft_size: size, ..*old(self) })),
            final(self).scope == old(self).scope,
            final(self).waterfall == old(self).waterfall,
            final(self).spectrum@.size == if size < 16 { 16 } else { size as nat },
            final(self).spectrum@.samples == Seq::<i16>::empty(),
            final(self).spectrum@.alpha == colormap::clamped(
                old(self).avg_alpha as int,
                0,
                spectrum::MAX_AVERAGING as int,
            ),
            final(self).spectrum@.row == Seq::new(
                (final(self).spectrum@.size / 2) as nat,
                |i: int| spectrum::DB_FLOOR,
            ),
            final(self).spectrum@.peak == Seq::new(
                (final(self).spectrum@.size / 2) as nat,
                |i: int| spectrum::DB_FLOOR,
            ),
            !final(self).spectrum@.primed,
    {
        let mut spectrum = SpectrumAnalyzer::new(size);
        spectrum.set_averaging(self.avg_alpha);
        self.fft_size = size;
        self.spectrum = spectrum;
    }

    /// Sets the smoothing of the spectrum.
    pub fn set_averaging(&mut self, alpha: i32)
        requires
            old(self).wf(),
        ensures
            final(self).wf(),
            final(self).same_controls(&(MonitorPanel { avg_alpha: alpha, ..*old(self) })),
            final(self).scope == old(self).scope,
            final(self).waterfall == old(self).waterfall,
            final(self).spectrum@ == (spectrum::SpectrumState {
                alpha: colormap::clamped(alpha as int, 0, spectrum::MAX_AVERAGING as int),
                ..old(self).spectrum@
            }),
    {
        self.avg_alpha = alpha;
        self.spectrum.set_averaging(alpha);
    }

    /// Switches between the full band and the data band. The rows of the
    /// waterfall no longer fit and are dropped.
    pub fn set_zoom(&mut self, zoom: bool)
        requires
            old(self).wf(),
        ensures
            final(self).wf(),
            final(self).same_controls(&(MonitorPanel { freq_zoom: zoom, ..*old(self) })),
            final(self).scope == old(self).scope,
            final(self).spectrum == old(self).spectrum,
            final(self).waterfall@ == (waterfall::WaterfallState {
                rows: Seq::<Seq<u8>>::empty(),
                ..old(self).waterfall@
            }),
    {
        self.freq_zoom = zoom;
        self.waterfall.clear();
    }

    /// The heights of the spectrum and of its peaks in each of `width` pixel
    /// columns, in millionths of the height of the view.
    pub fn traces(&self, width: usize) -> (r: Vec<(i32, i32)>)
        requires
            self.wf(),
        ensures
            r@.len() == width,
            forall|x: int|
                0 <= x < width ==> {
                    let bins = view::shown_bins(
                        self.freq_zoom,
                        (self.spectrum@.size / 2) as int,
                    );
                    let bin = (x * (bins - 1)) / (width as int);
                    &&& (#[trigger] r@[x]).0 == spectrum::unit_of(
                        self.spectrum@.row[bin] as int,
                        self.wf_floor as int,
                        self.wf_ceil as int,
                    )
                    &&& r@[x].1 == spectrum::unit_of(
                        self.spectrum@.peak[bin] as int,
                        self.wf_floor as int,
                        self.wf_ceil as int,
                    )
                },
    {
        let max_bin: usize = view_bins(self.freq_zoom, self.spectrum.n_bins());
        let mut r: Vec<(i32, i32)> = Vec::new();
        let mut x: usize = 0;
        while x < width
            invariant
                x <= width,
                self.wf(),
                max_bin == view::shown_bins(self.freq_zoom, (self.spectrum@.size / 2) as int),
                1 <= max_bin <= self.spectrum@.size / 2,
                r@.len() == x,
                forall|k: int|
                    0 <= k < x ==> {
                        let bin = (k * (max_bin - 1)) / (width as int);
                        &&& (#[trigger] r@[k]).0 == spectrum::unit_of(
                            self.spectrum@.row[bin] as int,
                            self.wf_floor as int,
                            self.wf_ceil as int,
                        )
                        &&& r@[k].1 == spectrum::unit_of(
                            self.spectrum@.peak[bin] as int,
                            self.wf_floor as int,
                            self.wf_ceil as int,
                        )
                    },
            decreases width - x,
        {
            let bin: usize = spectrum_bin(x, max_bin, width);
            let db: i32 = self.spectrum.magnitudes_db()[bin];
            let pk: i32 = self.spectrum.peak_db()[bin];
            r.push(
                (
                    db_to_unit(db, self.wf_floor, self.wf_ceil),
                    db_to_unit(pk, self.wf_floor, self.wf_ceil),
                ),
            );
            x = x + 1;
        }
        r
    }
}

/// What is shown of a spectrum is its lower end: the bins keep their places,
/// and all are there unless the data band is chosen.
pub proof fn law_shown_row_is_the_lower_end(row: Seq<i32>, zoom: bool)
    requires
        row.len() >= 1,
    ensures
        1 <= shown_row(row, zoom).len() <= row.len(),
        !zoom ==> shown_row(row, zoom) == row,
        zoom ==> -4000 <= 2 * (4000 * shown_row(row, zoom).len() - 2760 * row.len()) <= 4000,
        forall|i: int|
            0 <= i < shown_row(row, zoom).len() ==> #[trigger] shown_row(row, zoom)[i] == row[i],
{
    view::law_zoom_shows_a_part(row.len() as int);
    view::law_zoom_reaches_the_data_band(row.len() as int);
    if !zoom {
        assert(shown_row(row, zoom) =~= row);
    }
}

/// Samples go to the scope and to the spectrum, each of which keeps the newest
/// that it has room for; nothing else changes.
pub proof fn law_samples_reach_scope_and_spectrum(
    before: &MonitorPanel,
    after: &MonitorPanel,
    chunk: Seq<i16>,
)
    requires
        after.has_taken(before, chunk),
    ensures
        after.scope@ == ring::newest(before.scope@ + chunk, before.scope.spec_capacity()),
        after.scope.spec_capacity() == before.scope.spec_capacity(),
        after.spectrum@.samples == ring::newest(
            before.spectrum@.samples + chunk,
            before.spectrum@.size,
        ),
        after.spectrum@.size == before.spectrum@.size,
        after.spectrum@.row == before.spectrum@.row,
        after.spectrum@.peak == before.spectrum@.peak,
        after.spectrum@.alpha == before.spectrum@.alpha,
        after.spectrum@.primed == before.spectrum@.primed,
        after.waterfall == before.waterfall,
        after.same_controls(before),
{
}

/// Controls agree where each of them does.
pub proof fn law_same_controls_agree(a: &MonitorPanel, b: &MonitorPanel)
    ensures
        a.same_controls(b) <==> a.fft_size == b.fft_size && a.avg_alpha == b.avg_alpha && a.cmap
            == b.cmap && a.wf_floor == b.wf_floor && a.wf_ceil == b.wf_ceil && a.scope_us
            == b.scope_us && a.freq_zoom == b.freq_zoom,
{
}

/// The panel is 480 pixels wide and 256 rows high and keeps two seconds of
/// samples; the lengths of the transform are powers of two from 512.
pub proof fn law_sizes_of_the_panel(i: int)
    ensures
        WF_W == 480 && WF_H == 256,
        SCOPE_CAP == 2 * 8000,
        FFT_SIZES@.len() == 3,
        FFT_SIZES@[0] == 512,
        0 <= i < 2 ==> FFT_SIZES@[i + 1] == 2 * FFT_SIZES@[i],
{
}

} // verus!
