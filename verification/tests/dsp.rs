use atchat::colormap::ONE;
use atchat::scope::ScopeBuf;
use atchat::spectrum::{db_to_unit, SpectrumAnalyzer, DB_FLOOR};
use atchat::waterfall::Waterfall;
use atchat::Colormap;
use num_complex::Complex64;
use rustfft::FftPlanner;

/// Millionths of a decibel as decibels.
fn db(v: i32) -> f32 {
    v as f32 / 1e6
}

/// Feeds samples; where a spectrum is due, computes it without smoothing.
fn feed(sa: &mut SpectrumAnalyzer, samples: &[i16]) {
    if !sa.feed_i16(samples) {
        return;
    }
    let size = sa.size();
    let window: Vec<f64> = (0..size)
        .map(|n| {
            let s = (std::f64::consts::PI * n as f64 / (size as f64 - 1.0)).sin();
            s * s
        })
        .collect();
    let power: f64 = window.iter().map(|w| w * w).sum();
    let mut buf: Vec<Complex64> = sa
        .frame()
        .iter()
        .zip(&window)
        .map(|(&s, &w)| Complex64::new((s as f32 / 32768.0) as f64 * w, 0.0))
        .collect();
    FftPlanner::<f64>::new().plan_fft_forward(size).process(&mut buf);
    let row: Vec<i32> = buf
        .iter()
        .take(sa.n_bins())
        .map(|b| {
            let p = (b.norm_sqr() / (power + 1e-12)) as f32;
            (10.0 * p.max(1e-12).log10() * 1e6).round() as i32
        })
        .collect();
    sa.apply_row(&row);
}

fn sine(freq: f32, sr: u32, n: usize) -> Vec<i16> {
    (0..n)
        .map(|i| {
            let t = i as f32 / sr as f32;
            (20000.0 * (2.0 * std::f32::consts::PI * freq * t).sin()) as i16
        })
        .collect()
}

#[test]
fn peak_bin_matches_tone() {
    let sr = 8000;
    let size = 1024;
    let mut sa = SpectrumAnalyzer::new(size);
    sa.set_averaging(0);
    for chunk in sine(1500.0, sr, size * 4).chunks(160) {
        feed(&mut sa, chunk);
    }
    let (peak_bin, _) = sa
        .magnitudes_db()
        .iter()
        .enumerate()
        .max_by(|a, b| a.1.partial_cmp(b.1).unwrap())
        .unwrap();
    let peak_hz = sa.bin_hz(peak_bin, sr) as f64 / 1e6;
    assert!((peak_hz - 1500.0).abs() < 40.0, "tepe {peak_hz} Hz");
}

#[test]
fn silence_is_near_floor() {
    let mut sa = SpectrumAnalyzer::new(512);
    sa.set_averaging(0);
    for _ in 0..8 {
        feed(&mut sa, &[0i16; 160]);
    }
    assert!(sa.magnitudes_db().iter().all(|&d| db(d) < -100.0));
}

#[test]
fn peak_hold_is_sticky() {
    let sr = 8000;
    let mut sa = SpectrumAnalyzer::new(512);
    sa.set_averaging(0);
    for chunk in sine(1000.0, sr, 512 * 4).chunks(160) {
        feed(&mut sa, chunk);
    }
    let peak_after_tone: Vec<i32> = sa.peak_db().to_vec();
    assert!(peak_after_tone.iter().any(|&d| db(d) > -40.0));
    for _ in 0..40 {
        feed(&mut sa, &[0i16; 160]);
    }
    for (after, before) in sa.peak_db().iter().zip(&peak_after_tone) {
        assert!(db(*after) >= db(*before) - 1e-3, "peak düştü: {after} < {before}");
    }
    assert!(sa.peak_db().iter().any(|&d| db(d) > -40.0));
    assert!(sa.magnitudes_db().iter().all(|&d| db(d) < -100.0));
}

#[test]
fn analyser_starts_on_the_floor() {
    let mut sa = SpectrumAnalyzer::new(4);
    assert_eq!(sa.size(), 16);
    assert_eq!(sa.n_bins(), 8);
    assert_eq!(sa.averaging(), 500_000);
    assert!(!sa.is_primed());
    assert_eq!(sa.magnitudes_db(), &vec![DB_FLOOR; 8]);
    assert_eq!(sa.peak_db(), &vec![DB_FLOOR; 8]);
    assert!(!sa.feed_i16(&[1; 15]));
    assert!(sa.feed_i16(&[2, 3]));
    let mut window = vec![1i16; 14];
    window.extend([2, 3]);
    assert_eq!(sa.frame(), window);
}

#[test]
fn averaging_is_clamped() {
    let mut sa = SpectrumAnalyzer::new(512);
    sa.set_averaging(-3);
    assert_eq!(sa.averaging(), 0);
    sa.set_averaging(ONE);
    assert_eq!(sa.averaging(), 990_000);
    sa.set_averaging(250_000);
    assert_eq!(sa.averaging(), 250_000);
}

#[test]
fn rows_raise_peaks_until_they_are_reset() {
    let mut sa = SpectrumAnalyzer::new(16);
    let low = [-90_000_000; 8];
    let mut mixed = [-95_000_000; 8];
    mixed[3] = -10_000_000;
    sa.apply_row(&low);
    assert!(sa.is_primed());
    sa.apply_row(&mixed);
    assert_eq!(sa.magnitudes_db(), &mixed.to_vec());
    let mut peak = low;
    peak[3] = -10_000_000;
    assert_eq!(sa.peak_db(), &peak.to_vec());
    sa.reset_peak();
    assert_eq!(sa.peak_db(), &vec![DB_FLOOR; 8]);
    assert_eq!(sa.magnitudes_db(), &mixed.to_vec());
}

#[test]
fn bins_have_frequencies() {
    let sa = SpectrumAnalyzer::new(1024);
    assert_eq!(sa.bin_hz(192, 8000), 1_500_000_000);
    assert_eq!(sa.bin_hz(1, 8000), 7_812_500);
    assert_eq!(SpectrumAnalyzer::new(18).bin_hz(1, 8000), 444_444_444);
}

#[test]
fn levels_map_to_the_unit_range() {
    let m = 1_000_000;
    assert_eq!(db_to_unit(-50 * m, -100 * m, 0), 500_000);
    assert_eq!(db_to_unit(-200 * m, -100 * m, 0), 0);
    assert_eq!(db_to_unit(7 * m, -100 * m, 0), ONE);
    assert_eq!(db_to_unit(-50 * m, 0, 0), 0);
    assert_eq!(db_to_unit(-50 * m, 0, -100 * m), 0);
    assert_eq!(db_to_unit(1, 0, 3), 333_333);
    assert_eq!(db_to_unit(2, 0, 3), 666_667);
}

#[test]
fn capacity_is_bounded() {
    let mut s = ScopeBuf::new(100);
    let block: Vec<i16> = (0..500).map(|i| i as i16).collect();
    s.push_i16(&block);
    assert_eq!(s.len(), 100);
}

#[test]
fn envelope_tracks_extremes() {
    let mut s = ScopeBuf::new(2000);
    let block: Vec<i16> = (0..1000)
        .map(|i| (20000.0 * (i as f32 * 0.2).sin()) as i16)
        .collect();
    s.push_i16(&block);
    let env: Vec<(f32, f32)> = s
        .envelope(1000, 50)
        .iter()
        .map(|(mn, mx)| (*mn as f32 / 32768.0, *mx as f32 / 32768.0))
        .collect();
    assert_eq!(env.len(), 50);
    assert!(env.iter().all(|(mn, mx)| mx >= mn));
    assert!(env.iter().any(|(_, mx)| *mx > 0.3));
    assert!(env.iter().any(|(mn, _)| *mn < -0.3));
}

#[test]
fn empty_returns_zeros() {
    let s = ScopeBuf::new(100);
    let env: Vec<(f32, f32)> = s
        .envelope(50, 10)
        .iter()
        .map(|(mn, mx)| (*mn as f32 / 32768.0, *mx as f32 / 32768.0))
        .collect();
    assert_eq!(env, vec![(0.0, 0.0); 10]);
}

#[test]
fn scope_shows_the_newest_window() {
    let mut s = ScopeBuf::new(8);
    s.push_i16(&[1, 2, 3, 4, 5, 6, 7, 8, 9, -10]);
    assert_eq!(s.len(), 8);
    assert_eq!(s.envelope(4, 2), vec![(7, 8), (-10, 9)]);
    assert_eq!(s.envelope(100, 1), vec![(-10, 9)]);
    assert!(!s.is_empty());
    s.clear();
    assert!(s.is_empty());
    assert_eq!(s.len(), 0);
}

#[test]
fn endpoints_and_monotonic_gray() {
    for cm in Colormap::ALL {
        let lo = cm.sample(0);
        let hi = cm.sample(ONE);
        assert_ne!(lo, hi, "{}", cm.name());
    }
    let g = Colormap::Gray.lut();
    for w in g.windows(2) {
        assert!(w[1][0] >= w[0][0]);
    }
}

#[test]
fn clamps_out_of_range() {
    assert_eq!(Colormap::Turbo.sample(-5 * ONE), Colormap::Turbo.sample(0));
    assert_eq!(Colormap::Turbo.sample(9 * ONE), Colormap::Turbo.sample(ONE));
}

#[test]
fn colors_have_names_and_values() {
    let names: Vec<&str> = Colormap::ALL.iter().map(|c| c.name()).collect();
    assert_eq!(names, ["Viridis", "Inferno", "Turbo", "Gri"]);
    let g = Colormap::Gray.lut();
    assert_eq!(g[0], [0, 0, 0]);
    assert_eq!(g[255], [255, 255, 255]);
    assert_eq!(g[128], [128, 128, 128]);
    assert_eq!(Colormap::Gray.sample(500_000), [128, 128, 128]);
    for cm in Colormap::ALL {
        assert_eq!(cm.sample(0), cm.lut()[0]);
        assert_eq!(cm.sample(ONE), cm.lut()[255]);
    }
}

const DB: i32 = 1_000_000;

#[test]
fn rgb_buffer_has_expected_size() {
    let mut wf = Waterfall::new(64, 32);
    for _ in 0..10 {
        wf.push_row_db(&[-20 * DB; 40], -100 * DB, 0);
    }
    let rgb = wf.to_rgb(Colormap::Viridis, true);
    assert_eq!(rgb.len(), 64 * 32 * 3);
}

#[test]
fn ring_is_bounded_and_newest_on_top() {
    let mut wf = Waterfall::new(8, 4);
    for k in 0..6 {
        let level = -100 * DB + k * 10 * DB;
        wf.push_row_db(&[level; 8], -100 * DB, 0);
    }
    assert_eq!(wf.rows_filled(), 4);
    let rgb = wf.to_rgb(Colormap::Gray, true);
    let top = rgb[0];
    let second = rgb[8 * 3];
    assert!(top > second, "en yeni satır en üstte ve en parlak olmalı");
}

#[test]
fn empty_rows_are_base_color() {
    let wf = Waterfall::new(4, 4);
    let rgb = wf.to_rgb(Colormap::Inferno, true);
    let base = Colormap::Inferno.lut()[0];
    assert_eq!(&rgb[0..3], &base);
}

#[test]
fn rows_have_exact_colors_in_both_orientations() {
    let mut wf = Waterfall::new(2, 3);
    wf.push_row_db(&[-100 * DB, 0], -100 * DB, 0);
    wf.push_row_db(&[-50 * DB, -100 * DB], -100 * DB, 0);
    assert_eq!((wf.width(), wf.height(), wf.rows_filled()), (2, 3, 2));
    let top = wf.to_rgb(Colormap::Gray, true);
    assert_eq!(top, [128, 128, 128, 0, 0, 0, 0, 0, 0, 255, 255, 255, 0, 0, 0, 0, 0, 0]);
    let bottom = wf.to_rgb(Colormap::Gray, false);
    assert_eq!(bottom, [0, 0, 0, 0, 0, 0, 0, 0, 0, 255, 255, 255, 128, 128, 128, 0, 0, 0]);
    wf.clear();
    assert_eq!(wf.rows_filled(), 0);
}

#[test]
fn rows_are_resampled_to_the_width() {
    let mut wf = Waterfall::new(3, 1);
    wf.push_row_db(&[-100 * DB, 0], -100 * DB, 0);
    let rgb = wf.to_rgb(Colormap::Gray, true);
    assert_eq!((rgb[0], rgb[6]), (0, 255));
    assert_eq!(rgb[3], 128);
}

#[test]
fn an_empty_spectrum_gives_a_dark_row() {
    let mut wf = Waterfall::new(3, 2);
    wf.push_row_db(&[], -100 * DB, 0);
    assert_eq!(wf.rows_filled(), 1);
    assert_eq!(wf.to_rgb(Colormap::Gray, true), vec![0; 18]);
}
