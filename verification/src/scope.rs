//! The time-domain scope: a rolling buffer of samples and, for each pixel
//! column, the smallest and the largest sample that falls on it. Both are
//! kept, so that a short transient stays visible on a single pixel.
//!
//! Samples are 16-bit: sample `s` stands for the amplitude `s / 32768`.

use std::collections::VecDeque;
use vstd::prelude::*;

#[allow(unused_imports)]
use crate::ring;

verus! {

/// The rolling sample buffer of the scope.
pub struct ScopeBuf {
    ring: VecDeque<i16>,
    capacity: usize,
}

impl View for ScopeBuf {
    type V = Seq<i16>;

    closed spec fn view(&self) -> Seq<i16> {
        self.ring@
    }
}

/// How many of `len` samples a window of `window` samples shows.
pub open spec fn shown(window: nat, len: nat) -> nat {
    let w = if window < 1 { 1 } else { window };
    if w < len { w } else { len }
}

/// The first sample of column `col`, of `width` columns over the newest
/// `window` of `len` samples.
pub open spec fn column_start(len: nat, window: nat, width: nat, col: nat) -> nat {
    ((len - window) + (col * window) / width) as nat
}

/// The end of column `col`: the start of the next, but at least one sample.
pub open spec fn column_end(len: nat, window: nat, width: nat, col: nat) -> nat {
    let a = column_start(len, window, width, col);
    let b = column_start(len, window, width, col + 1);
    if b < a + 1 { a + 1 } else { b }
}

/// Whether `v` is the smallest of the samples `a..b`.
pub open spec fn is_min(s: Seq<i16>, a: int, b: int, v: i16) -> bool {
    &&& exists|i: int| a <= i < b && #[trigger] s[i] == v
    &&& forall|i: int| a <= i < b ==> v <= #[trigger] s[i]
}

/// Whether `v` is the largest of the samples `a..b`.
pub open spec fn is_max(s: Seq<i16>, a: int, b: int, v: i16) -> bool {
    &&& exists|i: int| a <= i < b && #[trigger] s[i] == v
    &&& forall|i: int| a <= i < b ==> #[trigger] s[i] <= v
}

/// Whether `out` is the envelope of `s`: `(0, 0)` throughout without samples,
/// else the extremes of each column.
pub open spec fn is_envelope(s: Seq<i16>, window: nat, width: nat, out: Seq<(i16, i16)>) -> bool {
    let w = if width < 1 { 1 } else { width };
    let win = shown(window, s.len());
    &&& out.len() == w
    &&& s.len() == 0 ==> forall|col: int| 0 <= col < w ==> #[trigger] out[col] == (0i16, 0i16)
    &&& s.len() > 0 ==> forall|col: int|
        0 <= col < w ==> {
            let a = column_start(s.len(), win, w, col as nat) as int;
            let b = column_end(s.len(), win, w, col as nat) as int;
            &&& is_min(s, a, b, (#[trigger] out[col]).0)
            &&& is_max(s, a, b, out[col].1)
        }
}

/// A column starts inside the window, never before the column to its left.
proof fn lemma_column_bounds(len: nat, window: nat, width: nat, col: nat)
    requires
        1 <= window <= len,
        1 <= width,
        col < width,
    ensures
        len - window <= column_start(len, window, width, col) < len,
        column_start(len, window, width, col) < column_end(len, window, width, col) <= len,
        column_start(len, window, width, col + 1) <= len,
{
    assert(0 <= (col * window) / width < window) by (nonlinear_arith)
        requires
            1 <= window,
            1 <= width,
            0 <= col < width,
    ;
    assert((col * window) / width <= ((col + 1) * window) / width <= window) by (nonlinear_arith)
        requires
            1 <= window,
            1 <= width,
            0 <= col < width,
    ;
}

impl ScopeBuf {
    /// The most samples that the buffer keeps.
    pub closed spec fn spec_capacity(&self) -> nat {
        self.capacity as nat
    }

    /// The capacity is at least one sample and is never exceeded.
    pub closed spec fn wf(&self) -> bool {
        &&& self.capacity >= 1
        &&& self.ring@.len() <= self.capacity
    }

    /// An empty buffer that keeps `capacity_samples` samples, at least one
    /// (1 s at 8 kHz: 8000).
    pub fn new(capacity_samples: usize) -> (r: Self)
        ensures
            r.wf(),
            r@ == Seq::<i16>::empty(),
            r.spec_capacity() == if capacity_samples < 1 { 1 } else { capacity_samples as nat },
    {
        ScopeBuf {
            ring: VecDeque::new(),
            capacity: if capacity_samples < 1 {
                1
            } else {
                capacity_samples
            },
        }
    }

    /// Appends samples; the oldest make room.
    pub fn push_i16(&mut self, samples: &[i16])
        requires
            old(self).wf(),
        ensures
            final(self).wf(),
            final(self).spec_capacity() == old(self).spec_capacity(),
            final(self)@ == ring::newest(old(self)@ + samples@, old(self).spec_capacity()),
    {
        let ghost start = self.ring@;
        let ghost cap = self.capacity as nat;
        let mut i: usize = 0;
        assert(ring::newest(start + samples@.take(0), cap) =~= start);
        while i < samples.len()
            invariant
                i <= samples@.len(),
                self.wf(),
                self.capacity == cap,
                self.ring@ == ring::newest(start + samples@.take(i as int), cap),
            decreases samples@.len() - i,
        {
            if self.ring.len() == self.capacity {
                self.ring.pop_front();
            }
            self.ring.push_back(samples[i]);
            assert(samples@.take(i + 1) =~= samples@.take(i as int).push(samples@[i as int]));
            assert(self.ring@ =~= ring::newest(start + samples@.take(i + 1), cap));
            i = i + 1;
        }
        assert(samples@.take(samples@.len() as int) =~= samples@);
    }

    /// The number of buffered samples.
    pub fn len(&self) -> (r: usize)
        ensures
            r == self@.len(),
    {
        self.ring.len()
    }

    /// Whether no sample is buffered.
    pub fn is_empty(&self) -> (r: bool)
        ensures
            r == (self@.len() == 0),
    {
        self.ring.len() == 0
    }

    /// Drops every sample.
    pub fn clear(&mut self)
        requires
            old(self).wf(),
        ensures
            final(self).wf(),
            final(self)@ == Seq::<i16>::empty(),
            final(self).spec_capacity() == old(self).spec_capacity(),
    {
        self.ring.clear();
    }

    /// Reduces the newest `window` samples to `width` columns, each with its
    /// smallest and largest sample; `(0, 0)` throughout without samples.
    pub fn envelope(&self, window: usize, width: usize) -> (out: Vec<(i16, i16)>)
        ensures
            is_envelope(self@, window as nat, width as nat, out@),
    {
        let width: usize = if width < 1 {
            1
        } else {
            width
        };
        let len: usize = self.ring.len();
        let mut out: Vec<(i16, i16)> = Vec::new();
        if len == 0 {
            let mut k: usize = 0;
            while k < width
                invariant
                    k <= width,
                    out@.len() == k,
                    forall|col: int| 0 <= col < k ==> #[trigger] out@[col] == (0i16, 0i16),
                decreases width - k,
            {
                out.push((0, 0));
                k = k + 1;
            }
            return out;
        }
        let at_least: usize = if window < 1 {
            1
        } else {
            window
        };
        let win: usize = if at_least < len {
            at_least
        } else {
            len
        };
        let mut col: usize = 0;
        while col < width
            invariant
                col <= width,
                1 <= width,
                1 <= win <= len,
                len == self.ring@.len(),
                out@.len() == col,
                forall|c: int|
                    0 <= c < col ==> {
                        let a = column_start(len as nat, win as nat, width as nat, c as nat) as int;
                        let b = column_end(len as nat, win as nat, width as nat, c as nat) as int;
                        &&& is_min(self.ring@, a, b, (#[trigger] out@[c]).0)
                        &&& is_max(self.ring@, a, b, out@[c].1)
                    },
            decreases width - col,
        {
            let (a, b) = column_range(len, win, width, col);
            let mut mn: i16 = self.ring[a];
            let mut mx: i16 = self.ring[a];
            let mut i: usize = a + 1;
            while i < b
                invariant
                    a < i <= b <= len,
                    len == self.ring@.len(),
                    is_min(self.ring@, a as int, i as int, mn),
                    is_max(self.ring@, a as int, i as int, mx),
                decreases b - i,
            {
                let ghost (mn0, mx0) = (mn, mx);
                let v: i16 = self.ring[i];
                if v < mn {
                    mn = v;
                }
                if v > mx {
                    mx = v;
                }
                i = i + 1;
                proof {
                    let jn = choose|j: int| a <= j < i - 1 && #[trigger] self.ring@[j] == mn0;
                    let jx = choose|j: int| a <= j < i - 1 && #[trigger] self.ring@[j] == mx0;
                    assert(self.ring@[i - 1] == v);
                }
            }
            out.push((mn, mx));
            col = col + 1;
        }
        out
    }
}

/// The samples of column `col`, computed without overflow.
fn column_range(len: usize, window: usize, width: usize, col: usize) -> (r: (usize, usize))
    requires
        1 <= window <= len,
        1 <= width,
        col < width,
    ensures
        r.0 == column_start(len as nat, window as nat, width as nat, col as nat),
        r.1 == column_end(len as nat, window as nat, width as nat, col as nat),
        r.0 < r.1 <= len,
{
    proof {
        lemma_column_bounds(len as nat, window as nat, width as nat, col as nat);
        assert(col * window <= (col + 1) * window <= u128::MAX) by (nonlinear_arith)
            requires
                0 <= col < width <= 0xffff_ffff_ffff_ffff,
                0 <= window <= 0xffff_ffff_ffff_ffff,
        ;
        assert(col * window >= 0) by (nonlinear_arith)
            requires
                0 <= col,
                0 <= window,
        ;
    }
    let from: u128 = (col as u128 * window as u128) / width as u128;
    let to: u128 = ((col as u128 + 1) * window as u128) / width as u128;
    let start: usize = len - window;
    let a: usize = start + from as usize;
    let b: usize = start + to as usize;
    (
        a,
        if b < a + 1 {
            a + 1
        } else {
            b
        },
    )
}

/// Every sample of the window falls on a column: no transient is lost.
pub proof fn law_columns_cover_window(len: nat, window: nat, width: nat, i: nat)
    requires
        1 <= window <= len,
        1 <= width,
        len - window <= i < len,
    ensures
        exists|col: nat|
            col < width && #[trigger] column_start(len, window, width, col) <= i < column_end(
                len,
                window,
                width,
                col,
            ),
{
    lemma_cover_from(len, window, width, i, 0);
}

proof fn lemma_cover_from(len: nat, window: nat, width: nat, i: nat, col: nat)
    requires
        1 <= window <= len,
        1 <= width,
        col < width,
        column_start(len, window, width, col) <= i < len,
    ensures
        exists|c: nat|
            c < width && #[trigger] column_start(len, window, width, c) <= i < column_end(
                len,
                window,
                width,
                c,
            ),
    decreases width - col,
{
    lemma_column_bounds(len, window, width, col);
    if i >= column_end(len, window, width, col) {
        if col + 1 == width {
            assert(((col + 1) * window) / width == window) by (nonlinear_arith)
                requires
                    col + 1 == width,
                    1 <= width,
            ;
        } else {
            lemma_cover_from(len, window, width, i, col + 1);
        }
    }
}

/// The envelope bounds every sample of the window: whatever the width, some
/// column reaches at least as far up and some at least as far down.
pub proof fn law_envelope_bounds_samples(
    s: Seq<i16>,
    window: nat,
    width: nat,
    out: Seq<(i16, i16)>,
    i: nat,
)
    requires
        s.len() > 0,
        is_envelope(s, window, width, out),
        s.len() - shown(window, s.len()) <= i < s.len(),
    ensures
        exists|col: int| 0 <= col < out.len() && (#[trigger] out[col]).0 <= s[i as int] <= out[col].1,
{
    let w: nat = if width < 1 { 1 } else { width };
    let win = shown(window, s.len());
    law_columns_cover_window(s.len(), win, w, i);
    let col = choose|col: nat|
        col < w && #[trigger] column_start(s.len(), win, w, col) <= i < column_end(
            s.len(),
            win,
            w,
            col,
        );
    assert(out[col as int].0 <= s[i as int] <= out[col as int].1);
}

/// In every column the smallest sample is at most the largest.
pub proof fn law_envelope_is_ordered(
    s: Seq<i16>,
    window: nat,
    width: nat,
    out: Seq<(i16, i16)>,
    col: int,
)
    requires
        is_envelope(s, window, width, out),
        0 <= col < out.len(),
    ensures
        out[col].0 <= out[col].1,
{
    if s.len() > 0 {
        let w: nat = if width < 1 { 1 } else { width };
        let win = shown(window, s.len());
        lemma_column_bounds(s.len(), win, w, col as nat);
        let a = column_start(s.len(), win, w, col as nat) as int;
        let b = column_end(s.len(), win, w, col as nat) as int;
        assert(is_min(s, a, b, out[col].0));
        let i = choose|i: int| a <= i < b && #[trigger] s[i] == out[col].0;
        assert(s[i] <= out[col].1);
    }
}

/// Where there are at least as many samples as columns, the columns lie side
/// by side: the first starts with the window, each starts where the one to its
/// left ends, the last ends with the newest sample, and all are as long as
/// each other but for one sample.
pub proof fn law_columns_lie_side_by_side(len: nat, window: nat, width: nat, col: nat)
    requires
        1 <= width <= window <= len,
        col < width,
    ensures
        column_start(len, window, width, 0) == len - window,
        col + 1 < width ==> column_start(len, window, width, col + 1) == column_end(
            len,
            window,
            width,
            col,
        ),
        column_end(len, window, width, (width - 1) as nat) == len,
        window / width <= column_end(len, window, width, col) - column_start(
            len,
            window,
            width,
            col,
        ) <= window / width + 1,
{
    lemma_column_step(window, width, col);
    lemma_column_step(window, width, (width - 1) as nat);
    assert(0 * window == 0 && 0nat / width == 0) by (nonlinear_arith)
        requires
            1 <= width,
    ;
    assert((width * window) / width == window) by (nonlinear_arith)
        requires
            1 <= width,
    ;
    assert(window / width >= 1) by (nonlinear_arith)
        requires
            1 <= width <= window,
    ;
    assert((width - 1) as nat + 1 == width);
    lemma_column_bounds(len, window, width, (width - 1) as nat);
}

/// The next column starts a column's length further on, give or take one.
proof fn lemma_column_step(window: nat, width: nat, col: nat)
    requires
        1 <= width,
    ensures
        0 <= (col * window) / width,
        window / width <= ((col + 1) * window) / width - (col * window) / width <= window / width
            + 1,
{
    let p = col * window;
    assert((col + 1) * window == p + window) by (nonlinear_arith)
        requires
            p == col * window,
    ;
    assert(p >= 0) by (nonlinear_arith)
        requires
            p == col * window,
    ;
    let (q, r) = (p / width, p % width);
    let (a, b) = (window / width, window % width);
    vstd::arithmetic::div_mod::lemma_fundamental_div_mod(p as int, width as int);
    vstd::arithmetic::div_mod::lemma_fundamental_div_mod(window as int, width as int);
    let c: nat = if r + b < width { 0 } else { 1 };
    assert(p + window == (q + a + c) * width + (r + b - c * width)) by (nonlinear_arith)
        requires
            p == width * q + r,
            window == width * a + b,
    ;
    vstd::arithmetic::div_mod::lemma_fundamental_div_mod_converse(
        (p + window) as int,
        width as int,
        (q + a + c) as int,
        r + b - c * width,
    );
}

/// Columns never go back: one further right starts no earlier, and where there
/// are at least as many samples as columns not before the other ends.
pub proof fn law_columns_go_right(len: nat, window: nat, width: nat, col: nat, other: nat)
    requires
        1 <= window <= len,
        1 <= width,
        col < other < width,
    ensures
        column_start(len, window, width, col) <= column_start(len, window, width, other),
        width <= window ==> column_end(len, window, width, col) <= column_start(
            len,
            window,
            width,
            other,
        ),
    decreases other - col,
{
    lemma_column_step(window, width, col);
    lemma_column_step(window, width, (other - 1) as nat);
    if col + 1 < other {
        law_columns_go_right(len, window, width, col, (other - 1) as nat);
    }
    if width <= window {
        law_columns_lie_side_by_side(len, window, width, col);
    }
}

/// Where there are at least as many samples as columns, a sample falls on one
/// column only: a burst is not drawn where it is not.
pub proof fn law_sample_falls_on_one_column(
    len: nat,
    window: nat,
    width: nat,
    i: nat,
    col: nat,
    other: nat,
)
    requires
        1 <= width <= window <= len,
        col < width,
        other < width,
        column_start(len, window, width, col) <= i < column_end(len, window, width, col),
        column_start(len, window, width, other) <= i < column_end(len, window, width, other),
    ensures
        col == other,
{
    if col < other {
        law_columns_go_right(len, window, width, col, other);
    } else if other < col {
        law_columns_go_right(len, window, width, other, col);
    }
}

/// Where there are more columns than samples, each column shows one sample.
pub proof fn law_narrow_columns_show_one_sample(len: nat, window: nat, width: nat, col: nat)
    requires
        1 <= window < width,
        window <= len,
        col < width,
    ensures
        column_end(len, window, width, col) == column_start(len, window, width, col) + 1,
{
    lemma_column_step(window, width, col);
    assert(window / width == 0) by (nonlinear_arith)
        requires
            0 <= window < width,
    ;
}

/// Column `col` of an envelope shows the extremes of the samples from the
/// fraction `col / width` of the window to the fraction `(col + 1) / width`,
/// and of no others; without samples it shows silence.
pub proof fn law_envelope_shows_its_columns(
    s: Seq<i16>,
    window: nat,
    width: nat,
    out: Seq<(i16, i16)>,
    col: int,
)
    requires
        is_envelope(s, window, width, out),
        width >= 1,
        window >= 1,
        0 <= col < width,
    ensures
        out.len() == width,
        s.len() == 0 ==> out[col] == (0i16, 0i16),
        s.len() > 0 ==> {
            let win: int = if window < s.len() {
                window as int
            } else {
                s.len() as int
            };
            let a = s.len() - win + (col * win) / (width as int);
            let next = s.len() - win + ((col + 1) * win) / (width as int);
            let b = if next > a {
                next
            } else {
                a + 1
            };
            &&& 0 <= a < b <= s.len()
            &&& forall|i: int| a <= i < b ==> out[col].0 <= #[trigger] s[i] <= out[col].1
            &&& exists|i: int| a <= i < b && #[trigger] s[i] == out[col].0
            &&& exists|i: int| a <= i < b && #[trigger] s[i] == out[col].1
        },
{
    if s.len() > 0 {
        let win = shown(window, s.len());
        lemma_column_bounds(s.len(), win, width, col as nat);
        let a = column_start(s.len(), win, width, col as nat) as int;
        let b = column_end(s.len(), win, width, col as nat) as int;
        lemma_column_step(win, width, col as nat);
        assert(is_min(s, a, b, out[col].0));
        assert(is_max(s, a, b, out[col].1));
    }
}

/// A window or a width of zero counts as one.
pub proof fn law_empty_view_counts_as_one(s: Seq<i16>, out: Seq<(i16, i16)>, n: nat)
    ensures
        is_envelope(s, 0, n, out) == is_envelope(s, 1, n, out),
        is_envelope(s, n, 0, out) == is_envelope(s, n, 1, out),
{
}

impl ScopeBuf {
    /// The buffer always has room for a sample and never holds more than it
    /// has room for.
    pub proof fn law_capacity_bounds_the_buffer(&self)
        requires
            self.wf(),
        ensures
            self.spec_capacity() >= 1,
            self@.len() <= self.spec_capacity(),
    {
    }
}

} // verus!
