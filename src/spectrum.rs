//! Analysis configuration, frame layout, and the dominant-bin estimator.
//!
//! Magnitudes are handed in as the raw IEEE-754 bit patterns of `f32` values,
//! so that the estimator can order them exactly and set not-a-number aside.
use vstd::prelude::*;
use crate::note::UNITS_PER_HZ;

verus! {

/// Largest window size accepted.
pub const MAX_WINDOW_SIZE: usize = 1048576;

pub open spec fn is_power_of_two(n: nat) -> bool
    decreases n,
{
    if n <= 1 {
        n == 1
    } else {
        n % 2 == 0 && is_power_of_two(n / 2)
    }
}

/// Number of frames that one pass takes from `len` samples: frames start at
/// `0, hop, 2 * hop, ...` and each must lie wholly inside the buffer.
pub open spec fn frame_count_spec(len: int, window: int, hop: int) -> int {
    if len < window {
        0
    } else {
        (len - window) / hop + 1
    }
}

/// `a / b` rounded to the nearest integer, halves upward.
pub open spec fn round_div(a: int, b: int) -> int {
    (2 * a + b) / (2 * b)
}

/// Frequency of `bin`, in units, for a given sample rate and window size.
pub open spec fn bin_frequency_spec(bin: int, sample_rate: int, window: int) -> int {
    round_div(bin * sample_rate * UNITS_PER_HZ, window)
}

/// Settings of the spectral analysis.
#[derive(Clone, Copy, Debug, PartialEq, Eq, Structural)]
pub struct AnalysisConfig {
    /// Samples per second of the input.
    pub sample_rate: u32,
    /// Samples per frame: a power of two.
    pub window_size: usize,
    /// Offset between consecutive frames: half a window.
    pub hop_size: usize,
}

impl AnalysisConfig {
    pub open spec fn wf(&self) -> bool {
        &&& self.sample_rate > 0
        &&& 2 <= self.window_size <= MAX_WINDOW_SIZE
        &&& is_power_of_two(self.window_size as nat)
        &&& self.hop_size == self.window_size / 2
    }

    /// Settings for `sample_rate` and `window_size`, with 50% overlap. There are
    /// none where the rate is zero or the window is not a power of two between
    /// 2 and `MAX_WINDOW_SIZE`.
    pub fn new(sample_rate: u32, window_size: usize) -> (r: Option<AnalysisConfig>)
        ensures
            r is Some <==> (sample_rate > 0 && 2 <= window_size <= MAX_WINDOW_SIZE
                && is_power_of_two(window_size as nat)),
            r matches Some(c) ==> c.wf() && c.sample_rate == sample_rate && c.window_size
                == window_size,
    {
        if sample_rate == 0 || window_size < 2 || window_size > MAX_WINDOW_SIZE {
            return None;
        }
        if !power_of_two(window_size) {
            return None;
        }
        Some(AnalysisConfig { sample_rate, window_size, hop_size: window_size / 2 })
    }

    /// Number of meaningful bins of each spectrum: the lower half.
    pub fn bin_count(&self) -> (r: usize)
        requires
            self.wf(),
        ensures
            r == self.window_size / 2,
    {
        self.window_size / 2
    }

    /// Width of one bin, in units.
    pub fn bin_width(&self) -> (r: u64)
        requires
            self.wf(),
        ensures
            r == bin_frequency_spec(1, self.sample_rate as int, self.window_size as int),
    {
        bin_frequency(1, self.sample_rate, self.window_size)
    }
}

/// Whether `n` is a power of two.
pub fn power_of_two(n: usize) -> (r: bool)
    ensures
        r == is_power_of_two(n as nat),
{
    let mut m = n;
    while m > 1 && m % 2 == 0
        invariant
            is_power_of_two(m as nat) == is_power_of_two(n as nat),
        decreases m,
    {
        m = m / 2;
    }
    m == 1
}

/// Number of frames that one pass takes from `len` samples.
pub fn frame_count(len: usize, window: usize, hop: usize) -> (r: usize)
    requires
        window > 0,
        hop > 0,
    ensures
        r == frame_count_spec(len as int, window as int, hop as int),
{
    if len < window {
        0
    } else {
        (len - window) / hop + 1
    }
}

/// Start offsets of the frames that one pass takes from `len` samples.
pub fn frame_offsets(len: usize, config: &AnalysisConfig) -> (r: Vec<usize>)
    requires
        config.wf(),
    ensures
        r@.len() == frame_count_spec(len as int, config.window_size as int, config.hop_size as int),
        forall|k: int| 0 <= k < r@.len() ==> #[trigger] r@[k] == k * config.hop_size,
        forall|k: int| 0 <= k < r@.len() ==> #[trigger] r@[k] + config.window_size <= len,
{
    let window = config.window_size;
    let hop = config.hop_size;
    let mut offsets: Vec<usize> = Vec::new();
    let mut pos: usize = 0;
    proof {
        assert(0 * (hop as int) == 0);
        lemma_frame_count_step(len as int, window as int, hop as int, 0);
    }
    while pos <= len && len - pos >= window
        invariant
            config.wf(),
            window == config.window_size,
            hop == config.hop_size,
            pos == offsets@.len() * hop,
            offsets@.len() <= frame_count_spec(len as int, window as int, hop as int),
            pos <= len ==> (len - pos >= window <==> offsets@.len() < frame_count_spec(
                len as int,
                window as int,
                hop as int,
            )),
            forall|k: int| 0 <= k < offsets@.len() ==> #[trigger] offsets@[k] == k * hop,
            forall|k: int| 0 <= k < offsets@.len() ==> #[trigger] offsets@[k] + window <= len,
        decreases len - pos,
    {
        proof {
            let n = offsets@.len() as int;
            let h = hop as int;
            assert((n + 1) * h == n * h + h) by (nonlinear_arith);
            lemma_frame_count_step(len as int, window as int, h, n + 1);
        }
        offsets.push(pos);
        pos = pos + hop;
    }
    proof {
        if pos > len {
            let n = offsets@.len() as int;
            lemma_frame_count_step(len as int, window as int, hop as int, n);
        }
    }
    offsets
}

/// The `n`-th frame lies inside the buffer exactly when fewer than `n` frames
/// precede it in the count.
proof fn lemma_frame_count_step(len: int, window: int, hop: int, n: int)
    requires
        hop > 0,
        window > 0,
        len >= 0,
        n >= 0,
    ensures
        (len - n * hop >= window) <==> n < frame_count_spec(len, window, hop),
{
    if len < window {
        assert(n * hop >= 0) by (nonlinear_arith)
            requires
                n >= 0,
                hop > 0,
        ;
    } else {
        let q = (len - window) / hop;
        let r = (len - window) % hop;
        vstd::arithmetic::div_mod::lemma_fundamental_div_mod(len - window, hop);
        vstd::arithmetic::div_mod::lemma_mod_bound(len - window, hop);
        assert(len - window == hop * q + r && 0 <= r < hop);
        assert(q * hop == hop * q) by (nonlinear_arith);
        if n <= q {
            assert(n * hop <= q * hop) by (nonlinear_arith)
                requires
                    n <= q,
                    hop > 0,
            ;
        } else {
            assert(n * hop >= (q + 1) * hop) by (nonlinear_arith)
                requires
                    n >= q + 1,
                    hop > 0,
            ;
            assert((q + 1) * hop == q * hop + hop) by (nonlinear_arith);
        }
    }
}

/// A buffer shorter than one window yields no frame.
pub proof fn lemma_short_buffer_no_frames(len: int, config: AnalysisConfig)
    requires
        config.wf(),
        0 <= len < config.window_size,
    ensures
        frame_count_spec(len, config.window_size as int, config.hop_size as int) == 0,
{
}

/// A buffer of exactly one window yields one frame; one of a window and a hop
/// yields two.
pub proof fn lemma_one_and_two_frames(config: AnalysisConfig)
    requires
        config.wf(),
    ensures
        frame_count_spec(config.window_size as int, config.window_size as int, config.hop_size as int)
            == 1,
        frame_count_spec(
            config.window_size + config.hop_size,
            config.window_size as int,
            config.hop_size as int,
        ) == 2,
{
    assert(config.hop_size > 0);
    assert(0int / (config.hop_size as int) == 0);
    assert((config.hop_size as int) / (config.hop_size as int) == 1);
}

/// Frequency of `bin`, in units, rounded to the nearest unit.
pub fn bin_frequency(bin: usize, sample_rate: u32, window_size: usize) -> (r: u64)
    requires
        bin <= MAX_WINDOW_SIZE,
        1 <= window_size <= MAX_WINDOW_SIZE,
    ensures
        r == bin_frequency_spec(bin as int, sample_rate as int, window_size as int),
        r <= i64::MAX,
{
    let b = bin as u64;
    let s = sample_rate as u64;
    let w = window_size as u64;
    assert(b * s <= 1048576 * 4294967295) by (nonlinear_arith)
        requires
            b <= 1048576,
            s <= 4294967295,
    ;
    let scaled = b * s * UNITS_PER_HZ;
    let r = (2 * scaled + w) / (2 * w);
    proof {
        let x = (2 * scaled + w) as int;
        let d = (2 * w) as int;
        vstd::arithmetic::div_mod::lemma_fundamental_div_mod(x, d);
        vstd::arithmetic::div_mod::lemma_mod_bound(x, d);
        let q = r as int;
        assert(q == x / d);
        assert(d * q <= x);
        assert(q * 2 <= d * q) by (nonlinear_arith)
            requires
                d >= 2,
                q >= 0,
        ;
        assert(x < 0x1_0000_0000_0000_0000);
    }
    r
}

/// Whether a bit pattern is a not-a-number `f32`.
pub open spec fn is_nan_bits(b: u32) -> bool {
    b % 0x8000_0000 > 0x7f80_0000
}

/// Position of a non-NaN `f32` bit pattern in the numeric order: the two zeros
/// share a key, and the order of keys is the order of the values.
pub open spec fn order_key(b: u32) -> int {
    if b >= 0x8000_0000 {
        0 - (b - 0x8000_0000)
    } else {
        b as int
    }
}

/// Bin `i` holds the greatest comparable magnitude, and no earlier bin holds as
/// great a one. Not-a-number magnitudes are never greatest.
pub open spec fn is_dominant(mags: Seq<u32>, i: int) -> bool {
    &&& 0 <= i < mags.len()
    &&& !is_nan_bits(mags[i])
    &&& forall|j: int|
        0 <= j < mags.len() && !is_nan_bits(#[trigger] mags[j]) ==> order_key(mags[j]) <= order_key(
            mags[i],
        )
    &&& forall|j: int|
        0 <= j < i && !is_nan_bits(#[trigger] mags[j]) ==> order_key(mags[j]) < order_key(mags[i])
}

pub open spec fn all_nan(mags: Seq<u32>) -> bool {
    forall|j: int| 0 <= j < mags.len() ==> is_nan_bits(#[trigger] mags[j])
}

fn nan_bits(b: u32) -> (r: bool)
    ensures
        r == is_nan_bits(b),
{
    b % 0x8000_0000 > 0x7f80_0000
}

/// Compares two non-NaN bit patterns: whether `a` is strictly greater.
fn greater_bits(a: u32, b: u32) -> (r: bool)
    ensures
        r == (order_key(a) > order_key(b)),
{
    let a_neg = a >= 0x8000_0000;
    let b_neg = b >= 0x8000_0000;
    if !a_neg && !b_neg {
        a > b
    } else if a_neg && b_neg {
        a < b
    } else if a_neg {
        false
    } else {
        a > 0 || b > 0x8000_0000
    }
}

/// The strongest bin of a magnitude spectrum, given as `f32` bit patterns; of
/// equal magnitudes the lowest bin wins, and not-a-number is never chosen.
/// There is none when no magnitude is comparable (in particular when the
/// spectrum is empty).
pub fn dominant_bin(mags: &Vec<u32>) -> (r: Option<usize>)
    ensures
        r is None <==> all_nan(mags@),
        r matches Some(i) ==> is_dominant(mags@, i as int),
{
    let mut best: Option<usize> = None;
    let mut k: usize = 0;
    while k < mags.len()
        invariant
            k <= mags@.len(),
            best is None ==> forall|j: int| 0 <= j < k ==> is_nan_bits(#[trigger] mags@[j]),
            best matches Some(i) ==> is_dominant(mags@.subrange(0, k as int), i as int),
        decreases mags@.len() - k,
    {
        let v = mags[k];
        let ghost prev = mags@.subrange(0, k as int);
        let ghost next = mags@.subrange(0, k + 1);
        assert(forall|j: int| 0 <= j < k ==> next[j] == prev[j]);
        if !nan_bits(v) {
            match best {
                None => {
                    best = Some(k);
                },
                Some(i) => {
                    if greater_bits(v, mags[i]) {
                        best = Some(k);
                    }
                },
            }
        }
        k = k + 1;
    }
    assert(mags@.subrange(0, k as int) =~= mags@);
    best
}

/// At most one bin is dominant.
pub proof fn lemma_dominant_unique(mags: Seq<u32>, i: int, j: int)
    requires
        is_dominant(mags, i),
        is_dominant(mags, j),
    ensures
        i == j,
{
    if i < j {
        assert(order_key(mags[i]) < order_key(mags[j]));
    } else if j < i {
        assert(order_key(mags[j]) < order_key(mags[i]));
    }
}

} // verus!
