//! Colour maps: tables of 256 colours, interpolated linearly between a few
//! anchor colours.

use vstd::prelude::*;

verus! {

/// The colour maps of the waterfall.
#[derive(Debug, Clone, Copy, PartialEq, Eq, Structural)]
pub enum Colormap {
    Viridis,
    Inferno,
    Turbo,
    Gray,
}

/// The number one in the millionths that stand for fractions.
pub const ONE: i32 = 1_000_000;

/// The integer nearest to `num / den`; halves are rounded up.
pub open spec fn nearest(num: int, den: int) -> int {
    (2 * num + den) / (2 * den)
}

/// `x`, moved into the range from `lo` to `hi`.
pub open spec fn clamped(x: int, lo: int, hi: int) -> int {
    if x < lo {
        lo
    } else if x > hi {
        hi
    } else {
        x
    }
}

/// The pair of anchors between which entry `i` of a table lies: the index of
/// the first, when `segs + 1` anchors stand at equal distances.
pub open spec fn segment(segs: int, i: int) -> int {
    if i * segs / 255 < segs - 1 {
        i * segs / 255
    } else {
        segs - 1
    }
}

/// Channel `c` of entry `i` in a table of 256 colours over `anchors`: the
/// linear interpolation between the two nearest anchors, rounded.
pub open spec fn interpolated(anchors: Seq<[u8; 3]>, i: int, c: int) -> int {
    let segs = anchors.len() - 1;
    let s = segment(segs, i);
    let rem = i * segs - s * 255;
    nearest(anchors[s]@[c] * (255 - rem) + anchors[s + 1]@[c] * rem, 255)
}

/// The anchors of the viridis map.
pub open spec fn viridis_anchors() -> Seq<[u8; 3]> {
    seq![
        [68, 1, 84],
        [72, 40, 120],
        [62, 74, 137],
        [49, 104, 142],
        [38, 130, 142],
        [31, 158, 137],
        [53, 183, 121],
        [110, 206, 88],
        [181, 222, 43],
        [253, 231, 37],
    ]
}

/// The anchors of the inferno map.
pub open spec fn inferno_anchors() -> Seq<[u8; 3]> {
    seq![
        [0, 0, 4],
        [31, 12, 72],
        [85, 15, 109],
        [136, 34, 106],
        [186, 54, 85],
        [227, 89, 51],
        [249, 140, 10],
        [249, 201, 50],
        [252, 255, 164],
    ]
}

/// The anchors of the turbo map.
pub open spec fn turbo_anchors() -> Seq<[u8; 3]> {
    seq![
        [48, 18, 59],
        [64, 91, 191],
        [61, 152, 246],
        [42, 204, 204],
        [76, 231, 137],
        [161, 248, 66],
        [227, 227, 39],
        [253, 165, 43],
        [232, 86, 24],
        [169, 24, 8],
        [122, 4, 3],
    ]
}

impl Colormap {
    /// Every colour map.
    pub const ALL: [Colormap; 4] = [
        Colormap::Viridis,
        Colormap::Inferno,
        Colormap::Turbo,
        Colormap::Gray,
    ];

    /// Channel `c` of entry `i` of the table.
    pub open spec fn channel(self, i: int, c: int) -> int {
        match self {
            Colormap::Viridis => interpolated(viridis_anchors(), i, c),
            Colormap::Inferno => interpolated(inferno_anchors(), i, c),
            Colormap::Turbo => interpolated(turbo_anchors(), i, c),
            Colormap::Gray => i,
        }
    }

    /// Whether `px` is the colour of entry `i`.
    pub open spec fn is_color(self, i: int, px: Seq<u8>) -> bool {
        &&& px.len() == 3
        &&& px[0] == self.channel(i, 0)
        &&& px[1] == self.channel(i, 1)
        &&& px[2] == self.channel(i, 2)
    }

    /// The entry that a fraction `t`, in millionths, selects.
    pub open spec fn entry(t: int) -> int {
        nearest(clamped(t, 0, ONE as int) * 255, ONE as int)
    }

    /// The name shown for the map.
    pub fn name(self) -> (r: &'static str)
        ensures
            r@ == match self {
                Colormap::Viridis => "Viridis"@,
                Colormap::Inferno => "Inferno"@,
                Colormap::Turbo => "Turbo"@,
                Colormap::Gray => "Gri"@,
            },
    {
        match self {
            Colormap::Viridis => "Viridis",
            Colormap::Inferno => "Inferno",
            Colormap::Turbo => "Turbo",
            Colormap::Gray => "Gri",
        }
    }

    /// The table of 256 colours.
    pub fn lut(self) -> (lut: [[u8; 3]; 256])
        ensures
            forall|i: int| 0 <= i < 256 ==> self.is_color(i, (#[trigger] lut@[i])@),
    {
        match self {
            Colormap::Viridis => viridis(),
            Colormap::Inferno => inferno(),
            Colormap::Turbo => turbo(),
            Colormap::Gray => gray(),
        }
    }

    /// The colour at the fraction `t`, in millionths; what lies outside
    /// `0..=ONE` takes the colour of the nearer end.
    pub fn sample(self, t: i32) -> (px: [u8; 3])
        ensures
            self.is_color(Self::entry(t as int), px@),
    {
        let t: i64 = if t < 0 {
            0
        } else if t > ONE {
            ONE as i64
        } else {
            t as i64
        };
        let idx: usize = ((2 * (t * 255) + ONE as i64) / (2 * ONE as i64)) as usize;
        self.lut()[idx]
    }
}

proof fn lemma_interpolated_range(anchors: Seq<[u8; 3]>, i: int, c: int)
    requires
        2 <= anchors.len() <= 256,
        0 <= i < 256,
        0 <= c < 3,
    ensures
        ({
            let segs = anchors.len() - 1;
            let s = segment(segs, i);
            let rem = i * segs - s * 255;
            let a = anchors[s]@[c];
            let b = anchors[s + 1]@[c];
            &&& 0 <= s < segs
            &&& 0 <= rem <= 255
            &&& a <= b ==> a <= interpolated(anchors, i, c) <= b
            &&& b <= a ==> b <= interpolated(anchors, i, c) <= a
            &&& 0 <= a * (255 - rem) <= 255 * 255
            &&& 0 <= b * rem <= 255 * 255
            &&& 0 <= i * segs <= 255 * 255
        }),
{
    let segs = anchors.len() - 1;
    let s = segment(segs, i);
    let rem = i * segs - s * 255;
    assert(0 <= i * segs <= 255 * segs) by (nonlinear_arith)
        requires
            0 <= i <= 255,
            1 <= segs,
    ;
    let a = anchors[s]@[c] as int;
    let b = anchors[s + 1]@[c] as int;
    assert(0 <= a * (255 - rem) <= 255 * 255 && 0 <= b * rem <= 255 * 255) by (nonlinear_arith)
        requires
            0 <= a <= 255,
            0 <= b <= 255,
            0 <= rem <= 255,
    ;
    let n = a * (255 - rem) + b * rem;
    if a <= b {
        assert(255 * a <= n <= 255 * b) by (nonlinear_arith)
            requires
                n == a * (255 - rem) + b * rem,
                a <= b,
                0 <= rem <= 255,
        ;
    } else {
        assert(255 * b <= n <= 255 * a) by (nonlinear_arith)
            requires
                n == a * (255 - rem) + b * rem,
                b <= a,
                0 <= rem <= 255,
        ;
    }
}

/// The table of 256 colours over `anchors`.
fn build(anchors: &[[u8; 3]]) -> (lut: [[u8; 3]; 256])
    requires
        2 <= anchors@.len() <= 256,
    ensures
        forall|i: int, c: int|
            0 <= i < 256 && 0 <= c < 3 ==> #[trigger] lut@[i]@[c] == interpolated(anchors@, i, c),
{
    let mut lut: [[u8; 3]; 256] = [[0u8; 3]; 256];
    let segs: usize = anchors.len() - 1;
    let mut i: usize = 0;
    while i < 256
        invariant
            i <= 256,
            2 <= anchors@.len() <= 256,
            segs == anchors@.len() - 1,
            forall|j: int, c: int|
                0 <= j < i && 0 <= c < 3 ==> #[trigger] lut@[j]@[c] == interpolated(
                    anchors@,
                    j,
                    c,
                ),
        decreases 256 - i,
    {
        proof {
            lemma_interpolated_range(anchors@, i as int, 0);
            lemma_interpolated_range(anchors@, i as int, 1);
            lemma_interpolated_range(anchors@, i as int, 2);
        }
        let pos: usize = i * segs;
        let s: usize = if pos / 255 < segs - 1 {
            pos / 255
        } else {
            segs - 1
        };
        let rem: u32 = (pos - s * 255) as u32;
        let r: u8 = blend(anchors[s][0], anchors[s + 1][0], rem);
        let g: u8 = blend(anchors[s][1], anchors[s + 1][1], rem);
        let b: u8 = blend(anchors[s][2], anchors[s + 1][2], rem);
        lut[i] = [r, g, b];
        i = i + 1;
    }
    lut
}

/// The mean of `a` and `b` in the proportion `255 - rem` to `rem`, rounded.
fn blend(a: u8, b: u8, rem: u32) -> (r: u8)
    requires
        rem <= 255,
    ensures
        r == nearest(a * (255 - rem) + b * rem, 255),
{
    assert(0 <= a * (255 - rem) && 0 <= b * rem && a * (255 - rem) + b * rem <= 255 * 255)
        by (nonlinear_arith)
        requires
            0 <= a <= 255,
            0 <= b <= 255,
            0 <= rem <= 255,
    ;
    let n: u32 = a as u32 * (255 - rem) + b as u32 * rem;
    ((2 * n + 255) / 510) as u8
}

fn viridis() -> (lut: [[u8; 3]; 256])
    ensures
        forall|i: int| 0 <= i < 256 ==> Colormap::Viridis.is_color(i, (#[trigger] lut@[i])@),
{
    let anchors: [[u8; 3]; 10] = [
        [68, 1, 84],
        [72, 40, 120],
        [62, 74, 137],
        [49, 104, 142],
        [38, 130, 142],
        [31, 158, 137],
        [53, 183, 121],
        [110, 206, 88],
        [181, 222, 43],
        [253, 231, 37],
    ];
    assert(anchors@ =~= viridis_anchors());
    build(&anchors)
}

fn inferno() -> (lut: [[u8; 3]; 256])
    ensures
        forall|i: int| 0 <= i < 256 ==> Colormap::Inferno.is_color(i, (#[trigger] lut@[i])@),
{
    let anchors: [[u8; 3]; 9] = [
        [0, 0, 4],
        [31, 12, 72],
        [85, 15, 109],
        [136, 34, 106],
        [186, 54, 85],
        [227, 89, 51],
        [249, 140, 10],
        [249, 201, 50],
        [252, 255, 164],
    ];
    assert(anchors@ =~= inferno_anchors());
    build(&anchors)
}

fn turbo() -> (lut: [[u8; 3]; 256])
    ensures
        forall|i: int| 0 <= i < 256 ==> Colormap::Turbo.is_color(i, (#[trigger] lut@[i])@),
{
    let anchors: [[u8; 3]; 11] = [
        [48, 18, 59],
        [64, 91, 191],
        [61, 152, 246],
        [42, 204, 204],
        [76, 231, 137],
        [161, 248, 66],
        [227, 227, 39],
        [253, 165, 43],
        [232, 86, 24],
        [169, 24, 8],
        [122, 4, 3],
    ];
    assert(anchors@ =~= turbo_anchors());
    build(&anchors)
}

fn gray() -> (lut: [[u8; 3]; 256])
    ensures
        forall|i: int| 0 <= i < 256 ==> Colormap::Gray.is_color(i, (#[trigger] lut@[i])@),
{
    let mut lut: [[u8; 3]; 256] = [[0u8; 3]; 256];
    let mut i: usize = 0;
    while i < 256
        invariant
            i <= 256,
            forall|j: int| 0 <= j < i ==> Colormap::Gray.is_color(j, (#[trigger] lut@[j])@),
        decreases 256 - i,
    {
        let v: u8 = i as u8;
        lut[i] = [v, v, v];
        i = i + 1;
    }
    lut
}

/// The table starts with the first anchor and ends with the last.
pub proof fn law_ends_are_anchors(anchors: Seq<[u8; 3]>, c: int)
    requires
        2 <= anchors.len() <= 256,
        0 <= c < 3,
    ensures
        interpolated(anchors, 0, c) == anchors[0]@[c],
        interpolated(anchors, 255, c) == anchors.last()@[c],
{
    let segs = anchors.len() - 1;
    assert(0 * segs == 0 && 255 * segs / 255 == segs);
    let a = anchors[0]@[c] as int;
    let b = anchors[1]@[c] as int;
    assert(a * 255 + b * 0 == 255 * a);
    let y = anchors[segs - 1]@[c] as int;
    let z = anchors[segs]@[c] as int;
    assert(y * 0 + z * 255 == 255 * z);
}

/// No entry leaves the range of the two anchors between which it lies.
pub proof fn law_no_overshoot(anchors: Seq<[u8; 3]>, i: int, c: int)
    requires
        2 <= anchors.len() <= 256,
        0 <= i < 256,
        0 <= c < 3,
    ensures
        ({
            let s = segment(anchors.len() - 1, i);
            let a = anchors[s]@[c];
            let b = anchors[s + 1]@[c];
            ||| a <= interpolated(anchors, i, c) <= b
            ||| b <= interpolated(anchors, i, c) <= a
        }),
{
    lemma_interpolated_range(anchors, i, c);
}

/// In every map the colours of silence and of full scale differ.
pub proof fn law_ends_differ(cm: Colormap)
    ensures
        exists|c: int| 0 <= c < 3 && #[trigger] cm.channel(0, c) != cm.channel(255, c),
{
    law_ends_are_anchors(viridis_anchors(), 0);
    law_ends_are_anchors(inferno_anchors(), 0);
    law_ends_are_anchors(turbo_anchors(), 0);
    assert(cm.channel(0, 0) != cm.channel(255, 0));
}

/// The gray map gets brighter from entry to entry.
pub proof fn law_gray_is_monotonic(i: int, j: int, c: int)
    requires
        0 <= i <= j < 256,
    ensures
        Colormap::Gray.channel(i, c) <= Colormap::Gray.channel(j, c),
{
}

/// What lies below zero samples like zero, what lies above one like one.
pub proof fn law_sample_clamps(t: int)
    ensures
        t <= 0 ==> Colormap::entry(t) == 0,
        t >= ONE ==> Colormap::entry(t) == 255,
        0 <= Colormap::entry(t) <= 255,
{
}

/// A rounded quotient is off by at most a half, and a half is rounded up.
pub proof fn law_nearest_is_off_by_a_half(num: int, den: int)
    requires
        den > 0,
    ensures
        2 * (nearest(num, den) * den) <= 2 * num + den,
        2 * num - den < 2 * (nearest(num, den) * den),
{
    let r = nearest(num, den);
    vstd::arithmetic::div_mod::lemma_fundamental_div_mod(2 * num + den, 2 * den);
    let m = (2 * num + den) % (2 * den);
    assert(2 * num + den == 2 * (r * den) + m) by (nonlinear_arith)
        requires
            2 * num + den == (2 * den) * r + m,
    ;
}

/// Clamping leaves what lies in the range and moves the rest to the nearer
/// end.
pub proof fn law_clamped_moves_to_the_nearer_end(x: int, lo: int, hi: int)
    requires
        lo <= hi,
    ensures
        lo <= clamped(x, lo, hi) <= hi,
        lo <= x <= hi ==> clamped(x, lo, hi) == x,
        x < lo ==> clamped(x, lo, hi) == lo,
        x > hi ==> clamped(x, lo, hi) == hi,
{
}

/// Entry `i` of a table lies between the anchors `s` and `s + 1` where the
/// fraction `i / 255` of the way lies between theirs, divides the way between
/// them as that fraction does, and is off by at most a half.
pub proof fn law_entries_divide_the_way(anchors: Seq<[u8; 3]>, i: int, c: int, s: int)
    requires
        2 <= anchors.len() <= 256,
        0 <= i < 256,
        0 <= c < 3,
        0 <= s < anchors.len() - 1,
        s * 255 <= i * (anchors.len() - 1) < (s + 1) * 255,
    ensures
        ({
            let segs = anchors.len() - 1;
            let before = i * segs - s * 255;
            let behind = (s + 1) * 255 - i * segs;
            let exact = anchors[s]@[c] * behind + anchors[s + 1]@[c] * before;
            -255 <= 2 * (255 * interpolated(anchors, i, c) - exact) <= 255
        }),
{
    let segs = anchors.len() - 1;
    let p = i * segs;
    assert(p / 255 == s) by (nonlinear_arith)
        requires
            s * 255 <= p < (s + 1) * 255,
    ;
    assert(segment(segs, i) == s);
    let rem = p - s * 255;
    assert((s + 1) * 255 - p == 255 - rem);
    law_nearest_is_off_by_a_half(
        anchors[s]@[c] * (255 - rem) + anchors[s + 1]@[c] * rem,
        255,
    );
}

/// The channels of the anchors of each map, one list for each of red, green
/// and blue.
pub proof fn law_anchors_of_the_maps(i: int)
    ensures
        viridis_anchors().len() == 10,
        inferno_anchors().len() == 9,
        turbo_anchors().len() == 11,
        0 <= i < 10 ==> {
            &&& viridis_anchors()[i]@[0] == seq![
                68int, 72, 62, 49, 38, 31, 53, 110, 181, 253,
            ][i]
            &&& viridis_anchors()[i]@[1] == seq![
                1int, 40, 74, 104, 130, 158, 183, 206, 222, 231,
            ][i]
            &&& viridis_anchors()[i]@[2] == seq![
                84int, 120, 137, 142, 142, 137, 121, 88, 43, 37,
            ][i]
        },
        0 <= i < 9 ==> {
            &&& inferno_anchors()[i]@[0] == seq![0int, 31, 85, 136, 186, 227, 249, 249, 252][i]
            &&& inferno_anchors()[i]@[1] == seq![0int, 12, 15, 34, 54, 89, 140, 201, 255][i]
            &&& inferno_anchors()[i]@[2] == seq![4int, 72, 109, 106, 85, 51, 10, 50, 164][i]
        },
        0 <= i < 11 ==> {
            &&& turbo_anchors()[i]@[0] == seq![
                48int, 64, 61, 42, 76, 161, 227, 253, 232, 169, 122,
            ][i]
            &&& turbo_anchors()[i]@[1] == seq![
                18int, 91, 152, 204, 231, 248, 227, 165, 86, 24, 4,
            ][i]
            &&& turbo_anchors()[i]@[2] == seq![
                59int, 191, 246, 204, 137, 66, 39, 43, 24, 8, 3,
            ][i]
        },
{
}

/// Each map interpolates between its own anchors; the gray map has the entry
/// itself in every channel.
pub proof fn law_maps_use_their_anchors(i: int, c: int)
    ensures
        Colormap::Viridis.channel(i, c) == interpolated(viridis_anchors(), i, c),
        Colormap::Inferno.channel(i, c) == interpolated(inferno_anchors(), i, c),
        Colormap::Turbo.channel(i, c) == interpolated(turbo_anchors(), i, c),
        Colormap::Gray.channel(i, c) == i,
{
}

/// A pixel has the colour of an entry where red, green and blue, in this
/// order, are those of the entry.
pub proof fn law_colors_are_red_green_blue(cm: Colormap, i: int, px: Seq<u8>)
    ensures
        cm.is_color(i, px) <==> px.len() == 3 && forall|c: int|
            0 <= c < 3 ==> #[trigger] px[c] == cm.channel(i, c),
{
    if px.len() == 3 && (forall|c: int| 0 <= c < 3 ==> #[trigger] px[c] == cm.channel(i, c)) {
        assert(px[0] == cm.channel(i, 0) && px[1] == cm.channel(i, 1) && px[2] == cm.channel(i, 2));
    }
}

/// A fraction selects the entry that lies at that fraction of the table, off
/// by at most a half.
pub proof fn law_sample_selects_its_fraction(t: int)
    requires
        0 <= t <= 1_000_000,
    ensures
        -1_000_000 <= 2 * (Colormap::entry(t) * 1_000_000 - t * 255) <= 1_000_000,
        ONE == 1_000_000,
{
    law_nearest_is_off_by_a_half(t * 255, 1_000_000);
}

} // verus!
