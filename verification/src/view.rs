//! The frequency axis of the spectrum view and the time window of the scope.

use vstd::prelude::*;
use vstd::string::*;

use crate::text::{push_decimal, push_tenths};
#[allow(unused_imports)]
use crate::{colormap, text};

verus! {

/// The highest frequency of the full band (half of the sample rate), in hertz.
pub const FULL_BAND_HZ: u32 = 4000;

/// The highest frequency shown when zoomed to the data band, in hertz.
pub const ZOOM_BAND_HZ: u32 = 2760;

/// The lower edge of the data band, in hertz.
pub const DATA_BAND_LOW_HZ: u32 = 312;

/// The upper edge of the data band, in hertz.
pub const DATA_BAND_HIGH_HZ: u32 = 2688;

/// The highest frequency shown, in hertz.
pub open spec fn shown_hz(zoom: bool) -> int {
    if zoom {
        ZOOM_BAND_HZ as int
    } else {
        FULL_BAND_HZ as int
    }
}

/// The share of `n` bins that is shown: those up to 2760 of 4000 Hz, rounded,
/// but at least one, or all.
pub open spec fn shown_bins(zoom: bool, n: int) -> int {
    if zoom {
        colormap::clamped((2760 * n + 2000) / 4000, 1, n)
    } else {
        n
    }
}

/// The highest frequency shown, in hertz.
pub fn view_hz(zoom: bool) -> (r: u32)
    ensures
        r == shown_hz(zoom),
{
    if zoom {
        ZOOM_BAND_HZ
    } else {
        FULL_BAND_HZ
    }
}

/// How many of `n_bins` bins are shown; an empty spectrum counts as one bin.
pub fn view_bins(zoom: bool, n_bins: usize) -> (r: usize)
    ensures
        r == shown_bins(zoom, if n_bins < 1 { 1 } else { n_bins as int }),
        1 <= r,
        n_bins >= 1 ==> r <= n_bins,
{
    let n: usize = if n_bins < 1 {
        1
    } else {
        n_bins
    };
    let hz: u128 = view_hz(zoom) as u128;
    let num: u128 = hz * n as u128;
    let bins: u128 = (2 * num + FULL_BAND_HZ as u128) / (2 * FULL_BAND_HZ as u128);
    if bins < 1 {
        1
    } else if bins > n as u128 {
        n
    } else {
        bins as usize
    }
}

/// The full band shows every bin; the data band shows the lower part of them.
pub proof fn law_zoom_shows_a_part(n: int)
    requires
        n >= 1,
    ensures
        shown_bins(false, n) == n,
        1 <= shown_bins(true, n) <= n,
        n >= 2 ==> shown_bins(true, n) < n,
{
}

/// The bin drawn in pixel column `x` of `width`, when `max_bin` bins are
/// shown.
pub fn spectrum_bin(x: usize, max_bin: usize, width: usize) -> (r: usize)
    requires
        x < width,
    ensures
        max_bin >= 1 ==> r as int == (x * (max_bin - 1)) / (width as int) && r < max_bin,
        max_bin == 0 ==> r == 0,
{
    if max_bin == 0 {
        return 0;
    }
    proof {
        assert(0 <= x * (max_bin - 1) <= u128::MAX) by (nonlinear_arith)
            requires
                0 <= x <= 0xffff_ffff_ffff_ffff,
                1 <= max_bin <= 0xffff_ffff_ffff_ffff,
        ;
        assert(0 <= (x * (max_bin - 1)) / (width as int) <= max_bin - 1) by (nonlinear_arith)
            requires
                0 <= x < width,
                1 <= max_bin,
        ;
    }
    ((x as u128 * (max_bin as u128 - 1)) / width as u128) as usize
}

/// A column further right never shows a lower bin.
pub proof fn law_columns_ascend(x1: int, x2: int, max_bin: int, width: int)
    requires
        0 <= x1 <= x2,
        1 <= max_bin,
        1 <= width,
    ensures
        (x1 * (max_bin - 1)) / width <= (x2 * (max_bin - 1)) / width,
{
    assert((x1 * (max_bin - 1)) / width <= (x2 * (max_bin - 1)) / width) by (nonlinear_arith)
        requires
            0 <= x1 <= x2,
            1 <= max_bin,
            1 <= width,
    ;
}

/// The frequencies of the vertical guides: the multiples of 500 Hz that lie
/// more than 1 Hz below the end of the view.
pub open spec fn is_guide(hz: int, end_hz: int) -> bool {
    500 <= hz && hz % 500 == 0 && hz + 1 < end_hz
}

/// The vertical guides of a view that ends at `end_hz`, in ascending order.
pub fn grid_lines(end_hz: u32) -> (r: Vec<u32>)
    ensures
        forall|i: int| 0 <= i < r@.len() ==> #[trigger] r@[i] == 500 * (i + 1),
        forall|hz: u32| is_guide(hz as int, end_hz as int) <==> #[trigger] r@.contains(hz),
{
    let mut r: Vec<u32> = Vec::new();
    let mut hz: u64 = 500;
    while hz + 1 < end_hz as u64
        invariant
            hz == 500 * (r@.len() + 1),
            hz <= end_hz as u64 + 500,
            forall|i: int| 0 <= i < r@.len() ==> #[trigger] r@[i] == 500 * (i + 1),
            r@.len() > 0 ==> 500 * r@.len() + 1 < end_hz,
        decreases end_hz as u64 + 1000 - hz,
    {
        r.push(hz as u32);
        hz = hz + 500;
    }
    proof {
        assert forall|f: u32|
            is_guide(f as int, end_hz as int) <==> #[trigger] r@.contains(f) by {
            if is_guide(f as int, end_hz as int) {
                let i = f as int / 500 - 1;
                assert(0 <= i < r@.len());
                assert(r@[i] == f);
            }
            if r@.contains(f) {
                let i = choose|i: int| 0 <= i < r@.len() && r@[i] == f;
                assert(500 * (i + 1) <= 500 * r@.len());
            }
        }
    }
    r
}

/// `hz` hertz in kilohertz with one fractional digit.
pub open spec fn kilo_text(hz: int) -> Seq<char> {
    text::tenths(colormap::nearest(hz, 100) as nat)
}

fn push_kilo(out: &mut String, hz: u32)
    ensures
        final(out)@ == old(out)@ + kilo_text(hz as int),
{
    push_tenths(out, (2 * hz as u64 + 100) / 200);
}

/// The label of a guide: whole hertz below one kilohertz, else kilohertz.
pub fn grid_label(hz: u32) -> (r: String)
    ensures
        hz >= 1000 ==> r@ == kilo_text(hz as int) + "k"@,
        hz < 1000 ==> r@ == text::decimal(hz as nat),
{
    let mut r = String::new();
    if hz >= 1000 {
        push_kilo(&mut r, hz);
        r.append("k");
        assert(r@ =~= kilo_text(hz as int) + "k"@);
    } else {
        push_decimal(&mut r, hz as u64);
        assert(r@ =~= text::decimal(hz as nat));
    }
    r
}

/// The caption of the spectrum view.
pub fn spectrum_caption(zoom: bool) -> (r: String)
    ensures
        r@ == "Spektrum (0–"@ + kilo_text(shown_hz(zoom))
            + " kHz, gölge = 312–2688 Hz veri bandı)"@,
{
    let mut r = "Spektrum (0–".to_string();
    push_kilo(&mut r, view_hz(zoom));
    r.append(" kHz, gölge = 312–2688 Hz veri bandı)");
    r
}

/// The number of samples in a scope window of `micros` microseconds at
/// 8 kHz.
pub fn scope_window(micros: u64) -> (r: u64)
    ensures
        r == micros as int * 8000 / 1_000_000,
{
    micros / 125
}

/// The bins shown in the data band reach up to 2760 of 4000 Hz, off by at most
/// half a bin.
pub proof fn law_zoom_reaches_the_data_band(n: int)
    requires
        n >= 1,
    ensures
        -4000 <= 2 * (4000 * shown_bins(true, n) - 2760 * n) <= 4000,
        shown_hz(true) == 2760,
        shown_hz(false) == 4000,
        DATA_BAND_LOW_HZ == 312,
        DATA_BAND_HIGH_HZ == 2688,
        DATA_BAND_HIGH_HZ < shown_hz(true),
{
}

/// A guide stands at every 500 Hz that is at least 2 Hz below the end.
pub proof fn law_guides_stand_every_500_hz(m: int, hz: int, end_hz: int)
    requires
        500 * m <= hz < 500 * (m + 1),
    ensures
        is_guide(hz, end_hz) <==> hz == 500 * m && m >= 1 && hz <= end_hz - 2,
{
    assert(hz % 500 == hz - 500 * m);
}

/// A frequency in kilohertz has one digit behind the point and is off by at
/// most half of it.
pub proof fn law_kilohertz_read_back(hz: int)
    requires
        hz >= 0,
    ensures
        ({
            let t = kilo_text(hz);
            let k = t.len() - 2;
            let tenths = 10 * text::read_decimal(t.take(k)) + text::read_decimal(t.skip(k + 1));
            &&& k >= 1
            &&& t[k] == '.'
            &&& -100 <= 2 * (100 * tenths - hz) <= 100
        }),
{
    colormap::law_nearest_is_off_by_a_half(hz, 100);
    text::law_tenths_read_back(colormap::nearest(hz, 100) as nat);
}

} // verus!
