//! Window table and magnitude averaging for the spectral stage.
//!
//! Amplitudes and scale factors are integers throughout: the window
//! table holds `sin(pi * i / n)` squared in 16.16 fixed point, computed
//! with integer arithmetic only (a quarter-turn cosine series plus the
//! symmetries of the cosine), and magnitudes are averaged with integer
//! sums. The fixed-point table is pinned exactly by [`hann_scale_spec`],
//! so its boundary values and symmetry are proved, not sampled.

use vstd::prelude::*;

verus! {

/// Sum of a sequence of magnitudes, as an unbounded integer.
pub open spec fn seq_sum(s: Seq<u64>) -> int
    decreases s.len(),
{
    if s.len() == 0 {
        0
    } else {
        s[0] + seq_sum(s.skip(1))
    }
}

/// Arithmetic mean of a sequence of magnitudes, rounded down; the mean
/// of an empty sequence is zero.
pub open spec fn mean_of(s: Seq<u64>) -> u64 {
    if s.len() == 0 {
        0
    } else {
        (seq_sum(s) / s.len() as int) as u64
    }
}

/// A sum of magnitudes is nonnegative and at most one maximal magnitude
/// per element.
pub proof fn lemma_seq_sum_bounds(s: Seq<u64>)
    ensures
        0 <= seq_sum(s) <= s.len() * 0xffff_ffff_ffff_ffff,
    decreases s.len(),
{
    if s.len() == 0 {
    } else {
        lemma_seq_sum_bounds(s.skip(1));
    }
}

/// Summing one more element extends the sum by that element.
proof fn lemma_seq_sum_snoc(s: Seq<u64>, j: int)
    requires
        0 <= j < s.len(),
    ensures
        seq_sum(s.take(j + 1)) == seq_sum(s.take(j)) + s[j],
    decreases j,
{
    if j == 0 {
        assert(s.take(1)[0] == s[0]);
        assert(s.take(1).skip(1) =~= Seq::<u64>::empty());
        assert(s.take(0) =~= Seq::<u64>::empty());
        assert(seq_sum(s.take(1)) == s[0] + seq_sum(Seq::<u64>::empty()));
    } else {
        lemma_seq_sum_snoc(s.skip(1), j - 1);
        assert(s.take(j + 1)[0] == s[0]);
        assert(s.take(j + 1).skip(1) =~= s.skip(1).take(j));
        assert(s.take(j)[0] == s[0]);
        assert(s.take(j).skip(1) =~= s.skip(1).take(j - 1));
        assert(s.skip(1)[j - 1] == s[j]);
        assert(seq_sum(s.take(j + 1)) == s[0] + seq_sum(s.skip(1).take(j)));
        assert(seq_sum(s.take(j)) == s[0] + seq_sum(s.skip(1).take(j - 1)));
    }
}

/// Extending a subrange by one element extends its sum by that element.
proof fn lemma_seq_sum_subrange_snoc(s: Seq<u64>, a: int, k: int)
    requires
        0 <= a <= k < s.len(),
    ensures
        seq_sum(s.subrange(a, k + 1)) == seq_sum(s.subrange(a, k)) + s[k],
{
    let t = s.subrange(a, k + 1);
    assert(t.take(k - a) =~= s.subrange(a, k));
    assert(t.take(k + 1 - a) =~= t);
    lemma_seq_sum_snoc(t, k - a);
    assert(t[k - a] == s[k]);
}

/// Averaging zero elements yields zero, never a division fault.
pub proof fn lemma_empty_mean()
    ensures
        mean_of(Seq::<u64>::empty()) == 0,
{
}

/// An all-zero magnitude sequence sums to zero.
proof fn lemma_zero_sum(s: Seq<u64>)
    requires
        forall|i: int| 0 <= i < s.len() ==> s[i] == 0,
    ensures
        seq_sum(s) == 0,
    decreases s.len(),
{
    if s.len() == 0 {
    } else {
        assert(forall|i: int| 0 <= i < s.skip(1).len() ==> s.skip(1)[i] == s[i + 1]);
        lemma_zero_sum(s.skip(1));
    }
}

/// Silence averages to silence: the mean of an all-zero magnitude
/// sequence is zero.
pub proof fn lemma_zero_mean(s: Seq<u64>)
    requires
        forall|i: int| 0 <= i < s.len() ==> s[i] == 0,
    ensures
        mean_of(s) == 0,
{
    lemma_zero_sum(s);
}

/// Values that can be averaged over a range of a vector.
pub trait Mean: Sized {
    /// The mathematical mean that `mean` computes.
    spec fn mean_spec(s: Seq<Self>) -> Self;

    /// The mean of `v[start..end]`.
    fn mean(v: &Vec<Self>, start: usize, end: usize) -> (r: Self)
        requires
            start <= end <= v@.len(),
        ensures
            r == Self::mean_spec(v@.subrange(start as int, end as int)),
    ;
}

impl Mean for u64 {
    open spec fn mean_spec(s: Seq<u64>) -> u64 {
        mean_of(s)
    }

    /// Mean of `v[start..end]`, rounded down; zero when the range is
    /// empty.
    fn mean(v: &Vec<u64>, start: usize, end: usize) -> (r: u64) {
        let mut sum: u128 = 0;
        let mut k: usize = start;
        while k < end
            invariant
                start <= k <= end,
                end <= v@.len(),
                sum as int == seq_sum(v@.subrange(start as int, k as int)),
                sum as int <= (k - start) * 0xffff_ffff_ffff_ffff,
            decreases end - k,
        {
            proof {
                lemma_seq_sum_subrange_snoc(v@, start as int, k as int);
            }
            sum = sum + v[k] as u128;
            k = k + 1;
        }
        if end > start {
            proof {
                lemma_seq_sum_bounds(v@.subrange(start as int, end as int));
                assert(sum as int / (end - start) as int <= 0xffff_ffff_ffff_ffff)
                    by (nonlinear_arith)
                    requires
                        0 <= sum as int <= (end as int - start as int) * 0xffff_ffff_ffff_ffff,
                        end as int - start as int >= 1,
                ;
            }
            (sum / (end - start) as u128) as u64
        } else {
            0
        }
    }
}

/// Containers whose magnitude contents can be averaged over a range.
pub trait MeanExt {
    /// The magnitudes the container holds.
    spec fn mean_view(&self) -> Seq<u64>;

    /// The mean of the contents between `start` and `end`.
    fn mean_range(&self, start: usize, end: usize) -> (r: u64)
        requires
            start <= end <= self.mean_view().len(),
        ensures
            r == mean_of(self.mean_view().subrange(start as int, end as int)),
    ;
}

impl MeanExt for Vec<u64> {
    open spec fn mean_view(&self) -> Seq<u64> {
        self@
    }

    fn mean_range(&self, start: usize, end: usize) -> (r: u64) {
        Mean::mean(self, start, end)
    }
}

/// The phase folded into the first half turn: `min(i, n - i)`, using the
/// mirror symmetry of the cosine around half a turn.
pub open spec fn half_phase(n: int, i: int) -> int {
    if 2 * i <= n {
        i
    } else {
        n - i
    }
}

/// Whether the phase lands in the second quarter turn, where the cosine
/// is the negated cosine of the mirrored angle.
pub open spec fn quarter_negated(n: int, i: int) -> bool {
    4 * half_phase(n, i) > n
}

/// The angle within the first quarter turn, in 16.16 fixed point
/// (205887 is pi scaled by 65536, 411774 is two pi).
pub open spec fn quarter_theta(n: int, i: int) -> int {
    let r = half_phase(n, i);
    if 4 * r <= n {
        (411774 * r) / n
    } else {
        (205887 * (n - 2 * r)) / n
    }
}

/// The positive terms of the quarter-turn cosine series, in 16.16 fixed
/// point.
pub open spec fn cos_terms_pos(t2: int) -> int {
    65536 + (t2 * t2) / ((24 * 65536) as int)
}

/// The magnitude of the negative terms of the quarter-turn cosine
/// series, in 16.16 fixed point.
pub open spec fn cos_terms_neg(t2: int) -> int {
    t2 / 2 + ((t2 * t2) * t2) / ((720 * 65536 * 65536) as int)
}

/// `cos(2 * pi * i / n)` in 16.16 fixed point: the quarter-turn series
/// applied to the reduced angle, with the sign of the quarter.
pub open spec fn cos_turn_spec(n: int, i: int) -> int {
    let th = quarter_theta(n, i);
    let t2 = (th * th) / 65536;
    let c = cos_terms_pos(t2) - cos_terms_neg(t2);
    if quarter_negated(n, i) {
        -c
    } else {
        c
    }
}

/// One entry of the raised-sine window table: `sin(pi * i / n)` squared
/// as `(1 - cos(2 * pi * i / n)) / 2`, scaled to 16.16 fixed point and
/// clamped to the unit range.
pub open spec fn hann_scale_spec(n: int, i: int) -> int {
    let c = cos_turn_spec(n, i);
    let cc = if c > 65536 {
        65536
    } else if c < -65536 {
        -65536
    } else {
        c
    };
    (65536 - cc) / 2
}

/// Every window scale factor is within the 16.16 unit range.
pub proof fn lemma_hann_scale_range(n: int, i: int)
    ensures
        0 <= hann_scale_spec(n, i) <= 65536,
{
}

/// Windowing boundary: the very first scale factor is exactly zero, so
/// the taper starts at silence.
pub proof fn lemma_window_first_zero(n: int)
    requires
        n >= 1,
    ensures
        hann_scale_spec(n, 0) == 0,
{
    assert((0int) / n == 0) by (nonlinear_arith)
        requires
            n >= 1,
    ;
    assert(quarter_theta(n, 0) == 0);
    assert(cos_turn_spec(n, 0) == 65536);
}

/// Windowing peak: for an even window size the scale factor at the
/// midpoint is exactly full scale.
pub proof fn lemma_window_midpoint_peak(n: int)
    requires
        n >= 2,
        n % 2 == 0,
    ensures
        hann_scale_spec(n, n / 2) == 65536,
{
    let i = n / 2;
    assert(2 * i == n);
    assert(half_phase(n, i) == i);
    assert(4 * i > n);
    assert(n - 2 * i == 0);
    assert((0int) / n == 0) by (nonlinear_arith)
        requires
            n >= 1,
    ;
    assert(quarter_theta(n, i) == 0);
    assert(cos_turn_spec(n, i) == -65536);
}

/// The window table is symmetric: entry `i` equals entry `n - i`.
pub proof fn lemma_window_symmetry(n: int, i: int)
    requires
        1 <= i < n,
    ensures
        hann_scale_spec(n, i) == hann_scale_spec(n, n - i),
{
    assert(half_phase(n, i) == half_phase(n, n - i));
}

/// One entry of the raised-sine window table, computed with integer
/// arithmetic only and equal to its specification.
pub fn hann_scale(n: usize, i: usize) -> (s: u32)
    requires
        1 <= n <= 0x1_0000_0000,
        i < n,
    ensures
        s == hann_scale_spec(n as int, i as int),
        s <= 65536,
{
    proof {
        lemma_hann_scale_range(n as int, i as int);
    }
    let nn: u64 = n as u64;
    let ii: u64 = i as u64;
    let r: u64 = if 2 * ii <= nn {
        ii
    } else {
        nn - ii
    };
    let neg: bool = 4 * r > nn;
    let theta: u64 = if !neg {
        let p: u64 = 411774 * r;
        proof {
            assert(p / nn <= 411774) by (nonlinear_arith)
                requires
                    0 <= r <= nn,
                    1 <= nn,
                    p == 411774 * r,
            ;
        }
        p / nn
    } else {
        let p: u64 = 205887 * (nn - 2 * r);
        proof {
            assert(p / nn <= 205887) by (nonlinear_arith)
                requires
                    0 <= nn - 2 * r <= nn,
                    1 <= nn,
                    p == 205887 * (nn - 2 * r),
            ;
        }
        p / nn
    };
    let th: u128 = theta as u128;
    proof {
        assert(th * th <= 411774 * 411774) by (nonlinear_arith)
            requires
                0 <= th <= 411774,
        ;
    }
    let t2: u128 = (th * th) / 65536;
    proof {
        assert(t2 <= th * th);
        assert(t2 * t2 <= 169577827076 * 169577827076) by (nonlinear_arith)
            requires
                0 <= t2 <= 169577827076,
        ;
        assert((t2 * t2) * t2 <= 28756640415519255029769776 * 169577827076)
            by (nonlinear_arith)
            requires
                0 <= t2 * t2 <= 28756640415519255029769776,
                0 <= t2 <= 169577827076,
        ;
    }
    let pos: u128 = 65536 + (t2 * t2) / (24 * 65536);
    let negp: u128 = t2 / 2 + ((t2 * t2) * t2) / (720 * 65536 * 65536);
    let ghost c = cos_turn_spec(n as int, i as int);
    proof {
        assert(quarter_theta(n as int, i as int) == th);
        assert(if neg {
            c == negp - pos
        } else {
            c == pos - negp
        });
    }
    if !neg {
        if pos >= negp {
            let mag: u128 = pos - negp;
            let cc: u128 = if mag > 65536 {
                65536
            } else {
                mag
            };
            ((65536 - cc) / 2) as u32
        } else {
            let mag: u128 = negp - pos;
            let cc: u128 = if mag > 65536 {
                65536
            } else {
                mag
            };
            ((65536 + cc) / 2) as u32
        }
    } else {
        if pos >= negp {
            let mag: u128 = pos - negp;
            let cc: u128 = if mag > 65536 {
                65536
            } else {
                mag
            };
            ((65536 + cc) / 2) as u32
        } else {
            let mag: u128 = negp - pos;
            let cc: u128 = if mag > 65536 {
                65536
            } else {
                mag
            };
            ((65536 - cc) / 2) as u32
        }
    }
}

/// The precomputed raised-sine window table: scale factor `i` tapers
/// sample `i` of a block of `window_size` samples.
pub struct HannWindow {
    scales: Vec<u32>,
}

impl View for HannWindow {
    type V = Seq<u32>;

    closed spec fn view(&self) -> Seq<u32> {
        self.scales@
    }
}

impl HannWindow {
    /// Every entry equals its fixed-point specification, so the table's
    /// boundary and symmetry laws apply to it.
    pub open spec fn wf(self) -> bool {
        forall|k: int|
            0 <= k < self@.len() ==> self@[k] == hann_scale_spec(self@.len() as int, k)
    }

    /// The table for one window size, computed once at construction.
    pub fn new(window_size: usize) -> (w: HannWindow)
        requires
            1 <= window_size <= 0x1_0000_0000,
        ensures
            w@.len() == window_size,
            w.wf(),
    {
        let mut scales: Vec<u32> = Vec::new();
        let mut k: usize = 0;
        while k < window_size
            invariant
                k <= window_size,
                1 <= window_size <= 0x1_0000_0000,
                scales@.len() == k,
                forall|j: int|
                    0 <= j < k ==> scales@[j] == hann_scale_spec(window_size as int, j),
            decreases window_size - k,
        {
            let s = hann_scale(window_size, k);
            scales.push(s);
            k = k + 1;
        }
        let w = HannWindow { scales };
        proof {
            assert(w@ =~= scales@);
        }
        w
    }

    /// One sample tapered: the amplitude at index `i` times the 16.16
    /// fixed-point scale factor for that index.
    pub fn process(&self, sample: (usize, i16)) -> (r: i64)
        requires
            self.wf(),
            sample.0 < self@.len(),
        ensures
            r == sample.1 as int * self@[sample.0 as int] as int,
    {
        let (i, amp) = sample;
        let scale = self.scales[i];
        proof {
            lemma_hann_scale_range(self@.len() as int, i as int);
            assert(-32768 * 65536 <= amp as int * scale as int <= 32767 * 65536)
                by (nonlinear_arith)
                requires
                    -32768 <= amp as int <= 32767,
                    0 <= scale as int <= 65536,
            ;
        }
        amp as i64 * scale as i64
    }
}

} // verus!
