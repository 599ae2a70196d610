//! The waterfall: a scrolling spectrogram. Spectra become rows of
//! intensities from 0 to 255, a bounded number of rows is kept, and a colour
//! map turns them into an RGB image.
//!
//! Levels are in millionths of a decibel.

use std::collections::VecDeque;
use vstd::prelude::*;

use crate::colormap::Colormap;
#[allow(unused_imports)]
use crate::{colormap, ring};

verus! {

/// The rows of the waterfall, oldest first.
pub struct Waterfall {
    width: usize,
    height: usize,
    rows: VecDeque<Vec<u8>>,
}

/// What a [`Waterfall`] holds.
pub struct WaterfallState {
    /// Pixels in a row.
    pub width: nat,
    /// The most rows that are kept.
    pub height: nat,
    /// The intensities, oldest row first.
    pub rows: Seq<Seq<u8>>,
}

impl View for Waterfall {
    type V = WaterfallState;

    closed spec fn view(&self) -> WaterfallState {
        WaterfallState {
            width: self.width as nat,
            height: self.height as nat,
            rows: Seq::new(self.rows@.len(), |i: int| self.rows@[i]@),
        }
    }
}

impl WaterfallState {
    /// Neither side is zero, there are at most `height` rows, and each is
    /// `width` wide.
    pub open spec fn wf(self) -> bool {
        &&& self.width >= 1
        &&& self.height >= 1
        &&& self.rows.len() <= self.height
        &&& forall|i: int| 0 <= i < self.rows.len() ==> #[trigger] self.rows[i].len() == self.width
    }

    /// The intensity of the pixel in line `y` and column `x` of the image.
    /// The newest row is at the top or at the bottom; lines without a row
    /// have the intensity 0.
    pub open spec fn level(self, newest_on_top: bool, y: int, x: int) -> int {
        let filled = self.rows.len();
        if newest_on_top {
            if y < filled {
                self.rows[filled - 1 - y][x] as int
            } else {
                0
            }
        } else {
            if y >= self.height - filled {
                self.rows[y - (self.height - filled)][x] as int
            } else {
                0
            }
        }
    }

    /// The state after another row; the oldest leaves where there is no room.
    pub open spec fn pushed(self, row: Seq<u8>) -> WaterfallState {
        WaterfallState { rows: ring::newest(self.rows.push(row), self.height), ..self }
    }
}

/// By what the resampled levels of a row are scaled, so that they are whole.
pub open spec fn scale(width: int) -> int {
    if width == 1 {
        1
    } else {
        width - 1
    }
}

/// The spectrum `db`, resampled linearly to `width` pixels: the level at pixel
/// `x`, times [`scale`].
pub open spec fn resampled(db: Seq<i32>, width: int, x: int) -> int {
    let k = scale(width);
    let pos = if width == 1 { 0 } else { x * (db.len() - 1) };
    let i = pos / k;
    if i + 1 < db.len() {
        db[i] * (k - pos % k) + db[i + 1] * (pos % k)
    } else {
        db[i] * k
    }
}

/// The intensity of a level that is `num / den` of the way from the floor to
/// the ceiling: 255 times the fraction, rounded.
pub open spec fn intensity(num: int, den: int) -> int {
    colormap::nearest(colormap::clamped(num, 0, den) * 255, den)
}

/// The intensity of pixel `x` for the spectrum `db`; 0 without a spectrum or
/// without a range.
pub open spec fn cell(db: Seq<i32>, width: int, floor_db: int, ceil_db: int, x: int) -> int {
    if db.len() == 0 || ceil_db <= floor_db {
        0
    } else {
        intensity(
            resampled(db, width, x) - floor_db * scale(width),
            (ceil_db - floor_db) * scale(width),
        )
    }
}

/// The three bytes of pixel `k`.
pub open spec fn rgb_at(image: Seq<u8>, k: int) -> Seq<u8> {
    seq![image[3 * k], image[3 * k + 1], image[3 * k + 2]]
}

/// An intensity lies in `0..=255`.
proof fn lemma_intensity_range(num: int, den: int)
    requires
        den > 0,
    ensures
        0 <= intensity(num, den) <= 255,
{
    let v = colormap::clamped(num, 0, den);
    assert(0 <= (2 * (v * 255) + den) / (2 * den) <= 255) by (nonlinear_arith)
        requires
            0 <= v <= den,
            den > 0,
    ;
}

/// Where pixel `x` lies in the spectrum: between which bins, and how far.
proof fn lemma_position(n: int, width: int, x: int)
    requires
        n >= 1,
        width >= 2,
        0 <= x < width,
    ensures
        0 <= x * (n - 1) <= (width - 1) * (n - 1),
        0 <= (x * (n - 1)) / (width - 1) <= n - 1,
        0 <= (x * (n - 1)) % (width - 1) < width - 1,
{
    let k = width - 1;
    assert(0 <= x * (n - 1) <= k * (n - 1)) by (nonlinear_arith)
        requires
            0 <= x <= k,
            n >= 1,
    ;
    let p = x * (n - 1);
    assert(0 <= p / k <= n - 1) by (nonlinear_arith)
        requires
            0 <= p <= k * (n - 1),
            k >= 1,
            n >= 1,
    ;
}

/// The intensity of pixel `x`, computed without overflow.
fn cell_of(db: &[i32], width: usize, floor_db: i32, ceil_db: i32, x: usize) -> (r: u8)
    requires
        width >= 1,
        x < width,
    ensures
        r == cell(db@, width as int, floor_db as int, ceil_db as int, x as int),
{
    let n: usize = db.len();
    if n == 0 || ceil_db <= floor_db {
        return 0;
    }
    let k: usize = if width == 1 {
        1
    } else {
        width - 1
    };
    proof {
        if width >= 2 {
            lemma_position(n as int, width as int, x as int);
        }
        assert(0 <= x * (n - 1) <= u128::MAX) by (nonlinear_arith)
            requires
                0 <= x <= 0xffff_ffff_ffff_ffff,
                1 <= n <= 0xffff_ffff_ffff_ffff,
        ;
    }
    let pos: u128 = if width == 1 {
        0
    } else {
        x as u128 * (n as u128 - 1)
    };
    let i: usize = (pos / k as u128) as usize;
    let rem: u128 = pos % k as u128;
    let a: i128 = db[i] as i128;
    let kk: i128 = k as i128;
    let r: i128 = rem as i128;
    let ghost bound: int = 0x8000_0000int * 0x1_0000_0000_0000_0000int;
    proof {
        assert(-bound <= a * (kk - r) <= bound && -bound <= a * kk <= bound) by (nonlinear_arith)
            requires
                -0x8000_0000 <= a <= 0x8000_0000,
                0 <= r < kk <= 0x1_0000_0000_0000_0000,
                bound == 0x8000_0000int * 0x1_0000_0000_0000_0000int,
        ;
    }
    let v: i128 = if i < n - 1 {
        let b: i128 = db[i + 1] as i128;
        assert(-bound <= b * r <= bound) by (nonlinear_arith)
            requires
                -0x8000_0000 <= b <= 0x8000_0000,
                0 <= r <= 0x1_0000_0000_0000_0000,
                bound == 0x8000_0000int * 0x1_0000_0000_0000_0000int,
        ;
        a * (kk - r) + b * r
    } else {
        a * kk
    };
    assert(v == resampled(db@, width as int, x as int));
    let fl: i128 = floor_db as i128;
    let span: i128 = ceil_db as i128 - fl;
    proof {
        assert(-bound <= fl * kk <= bound && 0 < span * kk <= 2 * bound) by (nonlinear_arith)
            requires
                -0x8000_0000 <= fl <= 0x8000_0000,
                0 < span <= 2 * 0x8000_0000,
                0 < kk <= 0x1_0000_0000_0000_0000,
                bound == 0x8000_0000int * 0x1_0000_0000_0000_0000int,
        ;
    }
    let num: i128 = v - fl * kk;
    let den: i128 = span * kk;
    proof {
        lemma_intensity_range(num as int, den as int);
    }
    let c: i128 = if num < 0 {
        0
    } else if num > den {
        den
    } else {
        num
    };
    ((2 * (c * 255) + den) / (2 * den)) as u8
}

impl Waterfall {
    /// An empty waterfall; neither side is less than one.
    pub fn new(width: usize, height: usize) -> (r: Self)
        ensures
            r@.wf(),
            r@.width == if width < 1 { 1 } else { width as nat },
            r@.height == if height < 1 { 1 } else { height as nat },
            r@.rows == Seq::<Seq<u8>>::empty(),
    {
        let r = Waterfall {
            width: if width < 1 {
                1
            } else {
                width
            },
            height: if height < 1 {
                1
            } else {
                height
            },
            rows: VecDeque::new(),
        };
        assert(r@.rows =~= Seq::<Seq<u8>>::empty());
        r
    }

    /// Pixels in a row.
    pub fn width(&self) -> (r: usize)
        ensures
            r == self@.width,
    {
        self.width
    }

    /// The most rows that are kept.
    pub fn height(&self) -> (r: usize)
        ensures
            r == self@.height,
    {
        self.height
    }

    /// The number of rows.
    pub fn rows_filled(&self) -> (r: usize)
        ensures
            r == self@.rows.len(),
    {
        self.rows.len()
    }

    /// Drops every row.
    pub fn clear(&mut self)
        ensures
            final(self)@ == (WaterfallState { rows: Seq::<Seq<u8>>::empty(), ..old(self)@ }),
    {
        self.rows.clear();
        assert(self@.rows =~= Seq::<Seq<u8>>::empty());
    }

    /// Appends a spectrum, resampled linearly to the width; the oldest row
    /// leaves where there is no room.
    pub fn push_row_db(&mut self, db: &[i32], floor_db: i32, ceil_db: i32)
        requires
            old(self)@.wf(),
        ensures
            final(self)@.wf(),
            final(self)@ == old(self)@.pushed(
                Seq::new(
                    old(self)@.width,
                    |x: int|
                        cell(
                            db@,
                            old(self)@.width as int,
                            floor_db as int,
                            ceil_db as int,
                            x,
                        ) as u8,
                ),
            ),
    {
        let ghost before = self@;
        let ghost target = Seq::new(
            before.width,
            |x: int|
                cell(db@, before.width as int, floor_db as int, ceil_db as int, x) as u8,
        );
        let mut row: Vec<u8> = Vec::new();
        let mut x: usize = 0;
        while x < self.width
            invariant
                x <= self.width,
                self.width >= 1,
                self.width == before.width,
                target == Seq::new(
                    before.width,
                    |x: int|
                        cell(
                            db@,
                            before.width as int,
                            floor_db as int,
                            ceil_db as int,
                            x,
                        ) as u8,
                ),
                row@ == target.take(x as int),
            decreases self.width - x,
        {
            let c: u8 = cell_of(db, self.width, floor_db, ceil_db, x);
            row.push(c);
            x = x + 1;
            assert(row@ =~= target.take(x as int));
        }
        assert(row@ =~= target);
        if self.rows.len() == self.height {
            self.rows.pop_front();
        }
        self.rows.push_back(row);
        assert(self@.rows =~= before.pushed(target).rows);
        assert forall|i: int| 0 <= i < self@.rows.len() implies #[trigger] self@.rows[i].len()
            == self@.width by {
            let d = before.rows.len() + 1 - self@.rows.len();
            if i + d < before.rows.len() {
                assert(self@.rows[i] == before.rows[i + d]);
            }
        }
    }

    /// The image: RGB bytes, line by line from the top.
    pub fn to_rgb(&self, cmap: Colormap, newest_on_top: bool) -> (out: Vec<u8>)
        requires
            self@.wf(),
            self@.width * self@.height * 3 <= isize::MAX,
        ensures
            out@.len() == self@.width * self@.height * 3,
            forall|y: int, x: int|
                0 <= y < self@.height && 0 <= x < self@.width ==> cmap.is_color(
                    #[trigger] self@.level(newest_on_top, y, x),
                    rgb_at(out@, y * self@.width + x),
                ),
    {
        let lut = cmap.lut();
        let mut out: Vec<u8> = Vec::new();
        let filled: usize = self.rows.len();
        let pad: usize = self.height - filled;
        let ghost w = self.width as int;
        let ghost h = self.height as int;
        let mut y: usize = 0;
        assert(0 * w == 0);
        while y < self.height
            invariant
                y <= self.height,
                self@.wf(),
                w == self.width,
                h == self.height,
                filled == self.rows@.len(),
                pad == self.height - filled,
                forall|i: int| 0 <= i < 256 ==> cmap.is_color(i, (#[trigger] lut@[i])@),
                out@.len() == 3 * (y * w),
                forall|k: int|
                    0 <= k < y * w ==> cmap.is_color(
                        self@.level(newest_on_top, k / w, k % w),
                        #[trigger] rgb_at(out@, k),
                    ),
            decreases self.height - y,
        {
            let source: Option<usize> = if newest_on_top {
                if y < filled {
                    Some(filled - 1 - y)
                } else {
                    None
                }
            } else {
                if y >= pad {
                    Some(y - pad)
                } else {
                    None
                }
            };
            let mut x: usize = 0;
            while x < self.width
                invariant
                    x <= self.width,
                    y < self.height,
                    self@.wf(),
                    w == self.width,
                    h == self.height,
                    filled == self.rows@.len(),
                    pad == self.height - filled,
                    source == (if newest_on_top {
                        if y < filled {
                            Some((filled - 1 - y) as usize)
                        } else {
                            None
                        }
                    } else {
                        if y >= pad {
                            Some((y - pad) as usize)
                        } else {
                            None
                        }
                    }),
                    forall|i: int| 0 <= i < 256 ==> cmap.is_color(i, (#[trigger] lut@[i])@),
                    out@.len() == 3 * (y * w + x),
                    forall|k: int|
                        0 <= k < y * w + x ==> cmap.is_color(
                            self@.level(newest_on_top, k / w, k % w),
                            #[trigger] rgb_at(out@, k),
                        ),
                decreases self.width - x,
            {
                let ghost before = out@;
                let level: u8 = match source {
                    Some(r) => {
                        assert(self@.rows[r as int].len() == self.width);
                        self.rows[r][x]
                    },
                    None => 0,
                };
                assert(level == self@.level(newest_on_top, y as int, x as int));
                let px: [u8; 3] = lut[level as usize];
                out.push(px[0]);
                out.push(px[1]);
                out.push(px[2]);
                proof {
                    let k0 = y * w + x;
                    lemma_row_major(y as int, x as int, w);
                    assert forall|k: int| 0 <= k < y * w + x + 1 implies cmap.is_color(
                        self@.level(newest_on_top, k / w, k % w),
                        #[trigger] rgb_at(out@, k),
                    ) by {
                        if k < k0 {
                            assert(rgb_at(out@, k) =~= rgb_at(before, k));
                        } else {
                            assert(rgb_at(out@, k) =~= px@);
                        }
                    }
                }
                x = x + 1;
            }
            assert(y * w + w == (y + 1) * w) by (nonlinear_arith);
            y = y + 1;
        }
        proof {
            assert(3 * (h * w) == w * h * 3) by (nonlinear_arith);
            assert forall|yy: int, xx: int| 0 <= yy < h && 0 <= xx < w implies cmap.is_color(
                #[trigger] self@.level(newest_on_top, yy, xx),
                rgb_at(out@, yy * w + xx),
            ) by {
                lemma_row_major(yy, xx, w);
                assert(0 <= yy * w + xx < h * w) by (nonlinear_arith)
                    requires
                        0 <= yy < h,
                        0 <= xx < w,
                ;
                let c = rgb_at(out@, yy * w + xx);
            }
        }
        out
    }
}

/// Line and column of a pixel in row-major order.
proof fn lemma_row_major(y: int, x: int, w: int)
    requires
        0 <= y,
        0 <= x < w,
    ensures
        (y * w + x) / w == y,
        (y * w + x) % w == x,
{
    vstd::arithmetic::div_mod::lemma_fundamental_div_mod_converse(y * w + x, w, y, x);
}

/// With the newest row on top, a push puts the new row into the first line
/// and moves every other line down by one.
pub proof fn law_push_scrolls_down(s: WaterfallState, row: Seq<u8>, y: int, x: int)
    requires
        s.wf(),
        row.len() == s.width,
        0 <= y < s.height,
        0 <= x < s.width,
    ensures
        s.pushed(row).wf(),
        s.pushed(row).level(true, 0, x) == row[x],
        y + 1 < s.height ==> s.pushed(row).level(true, y + 1, x) == s.level(true, y, x),
{
    let p = s.pushed(row);
    assert forall|i: int| 0 <= i < p.rows.len() implies #[trigger] p.rows[i].len() == p.width by {
        let d = s.rows.len() + 1 - p.rows.len();
        if i + d < s.rows.len() {
            assert(p.rows[i] == s.rows[i + d]);
        }
    }
}

/// The two orientations of the image mirror each other.
pub proof fn law_orientations_mirror(s: WaterfallState, y: int, x: int)
    requires
        s.wf(),
        0 <= y < s.height,
        0 <= x < s.width,
    ensures
        s.level(true, y, x) == s.level(false, s.height - 1 - y, x),
{
}

/// A louder level is never darker; the floor is 0 and the ceiling 255.
pub proof fn law_intensity_is_monotonic(a: int, b: int, den: int)
    requires
        a <= b,
        den > 0,
    ensures
        0 <= intensity(a, den) <= intensity(b, den) <= 255,
        intensity(0, den) == 0,
        intensity(den, den) == 255,
{
    lemma_intensity_range(a, den);
    lemma_intensity_range(b, den);
    let x = colormap::clamped(a, 0, den) * 255;
    let y = colormap::clamped(b, 0, den) * 255;
    assert((2 * x + den) / (2 * den) <= (2 * y + den) / (2 * den)) by (nonlinear_arith)
        requires
            x <= y,
            den > 0,
    ;
    assert((2 * (0 * 255) + den) / (2 * den) == 0) by (nonlinear_arith)
        requires
            den > 0,
    ;
    assert((2 * (den * 255) + den) / (2 * den) == 255) by (nonlinear_arith)
        requires
            den > 0,
    ;
}

/// The intensity of an interpolated level does not depend on the scale.
proof fn lemma_intensity_scales(num: int, den: int, k: int)
    requires
        den > 0,
        k > 0,
    ensures
        intensity(num * k, den * k) == intensity(num, den),
{
    let v = colormap::clamped(num, 0, den);
    assert(den * k > 0 && colormap::clamped(num * k, 0, den * k) == v * k) by (nonlinear_arith)
        requires
            den > 0,
            k > 0,
            v == colormap::clamped(num, 0, den),
    ;
    let n = 2 * (v * 255) + den;
    let d = 2 * den;
    assert(2 * (v * k * 255) + den * k == n * k) by (nonlinear_arith)
        requires
            n == 2 * (v * 255) + den,
    ;
    assert(2 * (den * k) == d * k) by (nonlinear_arith)
        requires
            d == 2 * den,
    ;
    assert(n >= 0);
    vstd::arithmetic::div_mod::lemma_div_multiples_vanish_quotient(k, n, d);
    assert(k * n == n * k && k * d == d * k) by (nonlinear_arith);
}

/// A spectrum that is as wide as the waterfall is taken over bin by bin.
pub proof fn law_same_width_is_not_resampled(
    db: Seq<i32>,
    floor_db: int,
    ceil_db: int,
    x: int,
)
    requires
        floor_db < ceil_db,
        0 <= x < db.len(),
    ensures
        cell(db, db.len() as int, floor_db, ceil_db, x) == intensity(
            db[x] - floor_db,
            ceil_db - floor_db,
        ),
{
    let w = db.len() as int;
    let k = scale(w);
    if w >= 2 {
        assert(x * k / k == x && x * k % k == 0) by (nonlinear_arith)
            requires
                k >= 1,
        ;
    }
    assert(resampled(db, w, x) == db[x] * k) by {
        if w >= 2 && x + 1 < w {
            assert(db[x] * (k - 0) + db[x + 1] * 0 == db[x] * k);
        }
    }
    assert(db[x] * k - floor_db * k == (db[x] - floor_db) * k) by (nonlinear_arith);
    lemma_intensity_scales(db[x] - floor_db, ceil_db - floor_db, k);
}

/// A spectrum of one level fills the row with one intensity, whatever its
/// number of bins.
pub proof fn law_constant_spectrum_is_flat(
    db: Seq<i32>,
    level: i32,
    width: int,
    floor_db: int,
    ceil_db: int,
    x: int,
)
    requires
        db.len() >= 1,
        forall|i: int| 0 <= i < db.len() ==> #[trigger] db[i] == level,
        floor_db < ceil_db,
        0 <= x < width,
    ensures
        cell(db, width, floor_db, ceil_db, x) == intensity(level - floor_db, ceil_db - floor_db),
{
    let k = scale(width);
    if width >= 2 {
        lemma_position(db.len() as int, width, x);
    }
    let pos = if width == 1 { 0 } else { x * (db.len() - 1) };
    let i = pos / k;
    let r = pos % k;
    assert(0 <= i < db.len());
    assert(db[i] == level);
    assert(level * (k - r) + level * r == level * k) by (nonlinear_arith);
    assert(resampled(db, width, x) == level * k) by {
        if i + 1 < db.len() {
            assert(db[i + 1] == level);
        }
    }
    assert(level * k - floor_db * k == (level - floor_db) * k) by (nonlinear_arith);
    lemma_intensity_scales(level - floor_db, ceil_db - floor_db, k);
}

/// The first pixel shows the first bin and, where there is more than one
/// pixel, the last shows the last bin.
pub proof fn law_resampling_keeps_the_ends(
    db: Seq<i32>,
    width: int,
    floor_db: int,
    ceil_db: int,
)
    requires
        db.len() >= 1,
        floor_db < ceil_db,
        width >= 1,
    ensures
        cell(db, width, floor_db, ceil_db, 0) == intensity(db[0] - floor_db, ceil_db - floor_db),
        width >= 2 ==> cell(db, width, floor_db, ceil_db, width - 1) == intensity(
            db.last() - floor_db,
            ceil_db - floor_db,
        ),
{
    let k = scale(width);
    let n = db.len() as int;
    assert(0 * (n - 1) == 0);
    assert(0int / k == 0 && 0int % k == 0);
    assert(resampled(db, width, 0) == db[0] * k) by {
        if n >= 2 {
            assert(db[0] * (k - 0) + db[1] * 0 == db[0] * k);
        }
    }
    assert(db[0] * k - floor_db * k == (db[0] - floor_db) * k) by (nonlinear_arith);
    lemma_intensity_scales(db[0] - floor_db, ceil_db - floor_db, k);
    if width >= 2 {
        assert(k * (n - 1) / k == n - 1 && k * (n - 1) % k == 0) by (nonlinear_arith)
            requires
                k >= 1,
        ;
        assert(resampled(db, width, width - 1) == db[n - 1] * k);
        assert(db[n - 1] * k - floor_db * k == (db[n - 1] - floor_db) * k) by (nonlinear_arith);
        lemma_intensity_scales(db[n - 1] - floor_db, ceil_db - floor_db, k);
    }
}

/// Where pixel `x` of `width` pixels lies among `n` bins, and its resampled
/// level: it divides the way between two neighbouring bins.
proof fn lemma_resampled(db: Seq<i32>, width: int, x: int)
    requires
        db.len() >= 1,
        width >= 2,
        0 <= x < width,
    ensures
        ({
            let n = db.len() as int;
            let k = width - 1;
            let b = (x * (n - 1)) / k;
            let r = (x * (n - 1)) % k;
            let next = if b + 1 < n {
                b + 1
            } else {
                n - 1
            };
            &&& 0 <= b < n
            &&& 0 <= r < k
            &&& b == n - 1 ==> r == 0
            &&& resampled(db, width, x) == db[b] * (k - r) + db[next] * r
            &&& db[b] <= db[next] ==> db[b] * k <= resampled(db, width, x) <= db[next] * k
            &&& db[next] <= db[b] ==> db[next] * k <= resampled(db, width, x) <= db[b] * k
        }),
{
    lemma_position(db.len() as int, width, x);
    let n = db.len() as int;
    let k = width - 1;
    let p = x * (n - 1);
    let b = p / k;
    let r = p % k;
    vstd::arithmetic::div_mod::lemma_fundamental_div_mod(p, k);
    if b == n - 1 {
        assert(r == 0) by (nonlinear_arith)
            requires
                p == k * b + r,
                p <= k * (n - 1),
                b == n - 1,
                0 <= r,
        ;
    }
    let next = if b + 1 < n {
        b + 1
    } else {
        n - 1
    };
    let (u, v) = (db[b] as int, db[next] as int);
    assert(u * (k - r) + v * r == u * k + (v - u) * r) by (nonlinear_arith);
    assert(b == n - 1 ==> u * (k - r) + v * r == u * k) by (nonlinear_arith)
        requires
            b == n - 1 ==> r == 0,
    ;
    assert(u <= v ==> u * k <= u * k + (v - u) * r <= v * k) by (nonlinear_arith)
        requires
            0 <= r <= k,
    ;
    assert(v <= u ==> v * k <= u * k + (v - u) * r <= u * k) by (nonlinear_arith)
        requires
            0 <= r <= k,
    ;
}

/// The intensity of a level, a bin's or an interpolated one, does not depend
/// on the scale.
proof fn lemma_bin_intensity(level: int, k: int, floor_db: int, ceil_db: int)
    requires
        floor_db < ceil_db,
        k >= 1,
    ensures
        intensity(level * k - floor_db * k, (ceil_db - floor_db) * k) == intensity(
            level - floor_db,
            ceil_db - floor_db,
        ),
        (ceil_db - floor_db) * k > 0,
{
    assert(level * k - floor_db * k == (level - floor_db) * k) by (nonlinear_arith);
    assert((ceil_db - floor_db) * k > 0) by (nonlinear_arith)
        requires
            floor_db < ceil_db,
            k >= 1,
    ;
    lemma_intensity_scales(level - floor_db, ceil_db - floor_db, k);
}

/// A pixel shows the bins around its place in the spectrum: pixel `x` lies at
/// the share `x / (width - 1)` of the way through the bins, and its intensity
/// lies between those of the bin there and of the next one.
pub proof fn law_pixel_lies_between_its_bins(
    db: Seq<i32>,
    width: int,
    floor_db: int,
    ceil_db: int,
    x: int,
)
    requires
        db.len() >= 1,
        width >= 2,
        floor_db < ceil_db,
        0 <= x < width,
    ensures
        ({
            let n = db.len() as int;
            let b = (x * (n - 1)) / (width - 1);
            let next = if b + 1 < n {
                b + 1
            } else {
                n - 1
            };
            let here = intensity(db[b] - floor_db, ceil_db - floor_db);
            let there = intensity(db[next] - floor_db, ceil_db - floor_db);
            let shown = cell(db, width, floor_db, ceil_db, x);
            &&& 0 <= b < n
            &&& here <= shown <= there || there <= shown <= here
        }),
{
    lemma_resampled(db, width, x);
    let n = db.len() as int;
    let k = width - 1;
    let b = (x * (n - 1)) / k;
    let next = if b + 1 < n {
        b + 1
    } else {
        n - 1
    };
    let den = (ceil_db - floor_db) * k;
    lemma_bin_intensity(db[b] as int, k, floor_db, ceil_db);
    lemma_bin_intensity(db[next] as int, k, floor_db, ceil_db);
    let m = resampled(db, width, x) - floor_db * k;
    let p = db[b] * k - floor_db * k;
    let q = db[next] * k - floor_db * k;
    if db[b] <= db[next] {
        law_intensity_is_monotonic(p, m, den);
        law_intensity_is_monotonic(m, q, den);
    } else {
        law_intensity_is_monotonic(q, m, den);
        law_intensity_is_monotonic(m, p, den);
    }
}

/// Louder to the right stays louder to the right: where the levels rise from
/// bin to bin, the intensities of the row never fall from left to right.
pub proof fn law_rising_spectrum_rises(
    db: Seq<i32>,
    width: int,
    floor_db: int,
    ceil_db: int,
    x: int,
    y: int,
)
    requires
        db.len() >= 1,
        forall|i: int, j: int| 0 <= i <= j < db.len() ==> #[trigger] db[i] <= #[trigger] db[j],
        floor_db < ceil_db,
        0 <= x <= y < width,
    ensures
        cell(db, width, floor_db, ceil_db, x) <= cell(db, width, floor_db, ceil_db, y),
{
    if width >= 2 && x < y {
        lemma_resampled(db, width, x);
        lemma_resampled(db, width, y);
        let n = db.len() as int;
        let k = width - 1;
        let (px, py) = (x * (n - 1), y * (n - 1));
        assert(px <= py) by (nonlinear_arith)
            requires
                x <= y,
                n >= 1,
                px == x * (n - 1),
                py == y * (n - 1),
        ;
        vstd::arithmetic::div_mod::lemma_div_is_ordered(px, py, k);
        let (b, c) = (px / k, py / k);
        let (r, s) = (px % k, py % k);
        vstd::arithmetic::div_mod::lemma_fundamental_div_mod(px, k);
        vstd::arithmetic::div_mod::lemma_fundamental_div_mod(py, k);
        let next = if b + 1 < n {
            b + 1
        } else {
            n - 1
        };
        let (u, v) = (db[b] as int, db[next] as int);
        if b == c {
            assert(u * (k - r) + v * r <= u * (k - s) + v * s) by (nonlinear_arith)
                requires
                    u <= v,
                    r <= s,
            ;
        } else {
            let w = db[c] as int;
            assert(v <= w);
            assert(v * k <= w * k) by (nonlinear_arith)
                requires
                    v <= w,
                    k >= 1,
            ;
        }
        lemma_bin_intensity(0, k, floor_db, ceil_db);
        law_intensity_is_monotonic(
            resampled(db, width, x) - floor_db * k,
            resampled(db, width, y) - floor_db * k,
            (ceil_db - floor_db) * k,
        );
    }
}

/// Between two bins a pixel divides the way as its place does. Where the level
/// there lies between floor and ceiling, its intensity is 255 times the share
/// of the way from floor to ceiling, off by at most a half; below the floor it
/// is 0 and above the ceiling 255.
pub proof fn law_pixel_divides_the_way(
    db: Seq<i32>,
    width: int,
    floor_db: int,
    ceil_db: int,
    x: int,
)
    requires
        db.len() >= 1,
        width >= 2,
        floor_db < ceil_db,
        0 <= x < width,
    ensures
        ({
            let n = db.len() as int;
            let k = width - 1;
            let b = (x * (n - 1)) / k;
            let behind = x * (n - 1) - b * k;
            let next = if b + 1 < n {
                b + 1
            } else {
                n - 1
            };
            let level = (db[b] - floor_db) * (k - behind) + (db[next] - floor_db) * behind;
            let full = (ceil_db - floor_db) * k;
            let shown = cell(db, width, floor_db, ceil_db, x);
            &&& level <= 0 ==> shown == 0
            &&& level >= full ==> shown == 255
            &&& 0 <= level <= full ==> -full <= 2 * (shown * full - 255 * level) <= full
        }),
{
    lemma_resampled(db, width, x);
    let n = db.len() as int;
    let k = width - 1;
    let p = x * (n - 1);
    let b = p / k;
    let r = p % k;
    let next = if b + 1 < n {
        b + 1
    } else {
        n - 1
    };
    vstd::arithmetic::div_mod::lemma_fundamental_div_mod(p, k);
    assert(b * k == k * b) by (nonlinear_arith);
    let (u, v) = (db[b] as int, db[next] as int);
    let level = (u - floor_db) * (k - r) + (v - floor_db) * r;
    let full = (ceil_db - floor_db) * k;
    assert(level == u * (k - r) + v * r - floor_db * k) by (nonlinear_arith)
        requires
            level == (u - floor_db) * (k - r) + (v - floor_db) * r,
    ;
    lemma_bin_intensity(0, k, floor_db, ceil_db);
    if level <= 0 {
        law_intensity_is_monotonic(level, 0, full);
    }
    if level >= full {
        law_intensity_is_monotonic(full, level, full);
    }
    if 0 <= level <= full {
        law_intensity_is_the_share_of_the_way(level, full);
    }
}

/// An intensity is 255 times the share of the way from floor to ceiling, off
/// by at most a half.
pub proof fn law_intensity_is_the_share_of_the_way(num: int, den: int)
    requires
        den > 0,
        0 <= num <= den,
    ensures
        -den <= 2 * (intensity(num, den) * den - 255 * num) <= den,
{
    colormap::law_nearest_is_off_by_a_half(num * 255, den);
}

/// Without a spectrum, and without a range, a row is dark.
pub proof fn law_nothing_to_show_is_dark(
    db: Seq<i32>,
    width: int,
    floor_db: int,
    ceil_db: int,
    x: int,
)
    requires
        db.len() == 0 || ceil_db <= floor_db,
    ensures
        cell(db, width, floor_db, ceil_db, x) == 0,
{
}

/// A pixel of the image shows the row that is as many rows old as it is lines
/// away from the edge where the newest row is; lines beyond the oldest row are
/// dark.
pub proof fn law_lines_show_the_rows_by_age(s: WaterfallState, age: int, x: int)
    requires
        s.wf(),
        0 <= age < s.height,
        0 <= x < s.width,
    ensures
        age < s.rows.len() ==> s.level(true, age, x) == s.rows[s.rows.len() - 1 - age][x]
            && s.level(false, s.height - 1 - age, x) == s.rows[s.rows.len() - 1 - age][x],
        age >= s.rows.len() ==> s.level(true, age, x) == 0 && s.level(
            false,
            s.height - 1 - age,
            x,
        ) == 0,
{
}

/// A new row stands behind the others, of which at most the oldest leaves; the
/// size of the image stays.
pub proof fn law_push_appends_a_row(s: WaterfallState, row: Seq<u8>)
    requires
        s.wf(),
    ensures
        ring::appended(s.rows, s.pushed(row).rows, row, s.height),
        s.pushed(row).width == s.width,
        s.pushed(row).height == s.height,
{
    ring::law_push_appends(s.rows, row, s.height);
}

/// A pixel has three bytes, one behind the other.
pub proof fn law_pixels_have_three_bytes(image: Seq<u8>, k: int, c: int)
    requires
        0 <= c < 3,
    ensures
        rgb_at(image, k).len() == 3,
        rgb_at(image, k)[c] == image[3 * k + c],
{
}

} // verus!
