use vstd::prelude::*;
use crate::pcm::{PcmStream, PcmView, SAMPLE_MAX, clamp16, trunc_div};

verus! {

/// Effect settings. Fractional settings are exact ratios of two integers:
/// the playback speed is `speed_num / speed_den`, the distortion threshold
/// `threshold_num / threshold_den` and the modulation depth
/// `depth_num / depth_den`. The depth is checked and carried with the other
/// settings; the modulation blend itself uses fixed weights.
///
/// All stages compute with exact rationals and truncate toward zero once, when
/// a sample is written back.
#[derive(Clone, Copy, Debug, PartialEq, Eq)]
pub struct EffectParameters {
    pub speed_num: u32,
    pub speed_den: u32,
    pub threshold_num: u32,
    pub threshold_den: u32,
    pub modulation_period: u32,
    pub depth_num: u32,
    pub depth_den: u32,
}

impl EffectParameters {
    /// Speed above zero, threshold in (0, 1], period above zero, depth in [0, 1].
    pub open spec fn valid(&self) -> bool {
        &&& self.speed_num > 0 && self.speed_den > 0
        &&& self.threshold_den > 0 && self.threshold_num > 0
        &&& self.threshold_num <= self.threshold_den
        &&& self.modulation_period > 0
        &&& self.depth_den > 0 && self.depth_num <= self.depth_den
    }

    pub fn is_valid(&self) -> (r: bool)
        ensures
            r == self.valid(),
    {
        self.speed_num > 0 && self.speed_den > 0 && self.threshold_den > 0 && self.threshold_num > 0
            && self.threshold_num <= self.threshold_den && self.modulation_period > 0
            && self.depth_den > 0 && self.depth_num <= self.depth_den
    }
}

/// Frames produced when `frames` frames are played at speed `num / den`.
pub open spec fn tempo_frames(frames: nat, num: nat, den: nat) -> nat {
    (frames * den) / num
}

/// Playback-rate change: output frame `j` is input frame `floor(j * num / den)`,
/// so duration and pitch move together.
pub open spec fn tempo_seq(s: Seq<i16>, channels: nat, num: nat, den: nat) -> Seq<i16> {
    Seq::new(
        tempo_frames(s.len() / channels, num, den) * channels,
        |k: int| s[((k / channels as int) * num / den as int) * channels + k % channels as int],
    )
}

/// Soft-knee distortion of one sample against threshold `tn / td`: a sample whose
/// normalised magnitude `|x| / 32767` exceeds the threshold `t` is brought to
/// `sign(x) * (t + (|x| / 32767 - t) / 1.3) * 32767`, truncated toward zero.
pub open spec fn distort_value(x: int, tn: int, td: int) -> int {
    let mag = if x >= 0 { x } else { -x };
    if mag * td <= tn * SAMPLE_MAX {
        x
    } else {
        let out = (3 * tn * SAMPLE_MAX + 10 * mag * td) / (13 * td);
        if x >= 0 { out } else { -out }
    }
}

pub open spec fn distort_seq(s: Seq<i16>, tn: int, td: int) -> Seq<i16> {
    Seq::new(s.len(), |k: int| clamp16(distort_value(s[k] as int, tn, td)))
}

/// At every position `i` that is a multiple of `period` the sample becomes
/// `0.7 * x + 0.3 * x * (i % 3)`, truncated toward zero and saturated.
pub open spec fn modulate_value(x: int, i: int, period: int) -> i16 {
    if i % period == 0 {
        clamp16(trunc_div(x * (7 + 3 * (i % 3)), 10))
    } else {
        x as i16
    }
}

pub open spec fn modulate_seq(s: Seq<i16>, period: int) -> Seq<i16> {
    Seq::new(s.len(), |k: int| modulate_value(s[k] as int, k, period))
}


proof fn lemma_tempo_source(j: int, frames: int, num: int, den: int, c: int)
    requires
        num > 0, den > 0, c > 0, 0 <= j, 0 <= frames,
        j < (frames * den) / num,
    ensures
        0 <= (j * num) / den < frames,
        0 <= ((j * num) / den) * c < frames * c,
{
    assert((j + 1) * num <= frames * den) by (nonlinear_arith)
        requires j + 1 <= (frames * den) / num, num > 0, frames * den >= 0;
    assert(j * num < frames * den) by (nonlinear_arith)
        requires (j + 1) * num <= frames * den, num > 0;
    assert((j * num) / den < frames) by (nonlinear_arith)
        requires j * num < frames * den, den > 0, j * num >= 0;
    assert(0 <= (j * num) / den) by (nonlinear_arith)
        requires j >= 0, num > 0, den > 0;
    let q = (j * num) / den;
    assert(0 <= q * c < frames * c) by (nonlinear_arith)
        requires 0 <= q < frames, c > 0;
}

/// Changes the playback rate of `stream` by `num / den` (above one is faster).
pub fn tempo_shift(stream: &PcmStream, num: u32, den: u32) -> (r: PcmStream)
    requires
        stream.wf(),
        num > 0,
        den > 0,
        tempo_frames(stream.frame_count(), num as nat, den as nat) * (stream.channels as nat)
            <= usize::MAX,
    ensures
        r.wf(),
        r.sample_rate == stream.sample_rate,
        r.channels == stream.channels,
        r.samples@ == tempo_seq(stream.samples@, stream.channels as nat, num as nat, den as nat),
{
    let c: usize = stream.channels as usize;
    let frames: usize = stream.samples.len() / c;
    proof {
        assert(frames * den <= usize::MAX * u32::MAX) by (nonlinear_arith)
            requires frames <= usize::MAX, den <= u32::MAX;
    }
    let out_frames: u128 = (frames as u128 * den as u128) / num as u128;
    let out_len: usize = (out_frames * c as u128) as usize;
    let ghost s = stream.samples@;
    let ghost spec_out = tempo_seq(s, c as nat, num as nat, den as nat);
    proof {
        assert(s.len() == frames * c) by (nonlinear_arith)
            requires s.len() % (c as nat) == 0, frames == s.len() / (c as nat), c > 0;
    }
    let mut out: Vec<i16> = Vec::new();
    let mut k: usize = 0;
    while k < out_len
        invariant
            k <= out_len,
            out_len == spec_out.len(),
            c > 0,
            c == stream.channels,
            frames == s.len() / (c as nat),
            s.len() == frames * c,
            s.len() <= usize::MAX,
            out_frames == (frames * den) / (num as int),
            out_len == out_frames * c,
            s == stream.samples@,
            spec_out == tempo_seq(s, c as nat, num as nat, den as nat),
            num > 0,
            den > 0,
            out@.len() == k,
            forall|i: int| 0 <= i < k ==> out@[i] == spec_out[i],
        decreases out_len - k,
    {
        let j: usize = k / c;
        let ch: usize = k % c;
        proof {
            assert(j < out_frames) by (nonlinear_arith)
                requires j == k / c, k < out_frames * c, c > 0;
            lemma_tempo_source(j as int, frames as int, num as int, den as int, c as int);
        }
        proof {
            assert(j * num <= usize::MAX * u32::MAX) by (nonlinear_arith)
                requires j <= usize::MAX, num <= u32::MAX;
        }
        let src_frame: u128 = (j as u128 * num as u128) / den as u128;
        assert(src_frame < frames);
        let sf: usize = src_frame as usize;
        proof {
            assert(sf * c + ch < s.len()) by (nonlinear_arith)
                requires sf < frames, ch < c, s.len() == frames * c, c > 0;
            assert(sf * c <= sf * c + ch);
        }
        let src: usize = sf * c + ch;
        out.push(stream.samples[src]);
        k = k + 1;
    }
    proof {
        assert(out@ =~= spec_out);
        assert(out@.len() % (c as nat) == 0) by (nonlinear_arith)
            requires out@.len() == out_frames * c, c > 0, out_frames >= 0;
    }
    PcmStream { samples: out, sample_rate: stream.sample_rate, channels: stream.channels }
}


proof fn lemma_knee_in_range(mag: int, tn: int, td: int)
    requires
        0 <= mag <= 32768,
        0 < tn <= td,
    ensures
        0 <= (3 * tn * SAMPLE_MAX + 10 * mag * td) / (13 * td) <= 32767,
{
    let n = 3 * tn * SAMPLE_MAX + 10 * mag * td;
    let d = 13 * td;
    assert(0 <= n <= 425981 * td) by (nonlinear_arith)
        requires 0 <= mag <= 32768, 0 < tn <= td, n == 3 * tn * 32767 + 10 * mag * td;
    assert(0 <= n / d) by (nonlinear_arith)
        requires n >= 0, d > 0;
    assert((n / d) * d <= n) by (nonlinear_arith)
        requires n >= 0, d > 0;
    assert(n / d <= 32767) by (nonlinear_arith)
        requires (n / d) * d <= n, n <= 425981 * td, d == 13 * td, td > 0;
}

/// Soft-knee distortion of a single sample against threshold `tn / td`.
pub fn distort_sample(x: i16, tn: u32, td: u32) -> (r: i16)
    requires
        0 < tn <= td,
    ensures
        r == clamp16(distort_value(x as int, tn as int, td as int)),
        r as int == distort_value(x as int, tn as int, td as int),
{
    let mag: u64 = if x >= 0 { x as u64 } else { (-(x as i64)) as u64 };
    proof {
        assert(mag * td <= 32768 * u32::MAX) by (nonlinear_arith)
            requires mag <= 32768, td <= u32::MAX;
        assert(tn * 32767 <= 32767 * u32::MAX) by (nonlinear_arith)
            requires tn <= u32::MAX;
    }
    if mag * (td as u64) <= (tn as u64) * 32767 {
        x
    } else {
        proof {
            lemma_knee_in_range(mag as int, tn as int, td as int);
            assert(3 * tn * 32767 + 10 * mag * td <= 425981 * u32::MAX) by (nonlinear_arith)
                requires mag <= 32768, tn <= td, td <= u32::MAX;
        }
        let out: u64 = (3 * (tn as u64) * 32767 + 10 * mag * (td as u64)) / (13 * (td as u64));
        if x >= 0 { out as i16 } else { -(out as i16) }
    }
}

/// Applies the soft-knee distortion to every sample of `stream`.
pub fn distort(stream: &PcmStream, tn: u32, td: u32) -> (r: PcmStream)
    requires
        stream.wf(),
        0 < tn <= td,
    ensures
        r.wf(),
        r.sample_rate == stream.sample_rate,
        r.channels == stream.channels,
        r.samples@ == distort_seq(stream.samples@, tn as int, td as int),
{
    let ghost spec_out = distort_seq(stream.samples@, tn as int, td as int);
    let mut out: Vec<i16> = Vec::new();
    let mut k: usize = 0;
    while k < stream.samples.len()
        invariant
            k <= stream.samples@.len(),
            0 < tn <= td,
            spec_out == distort_seq(stream.samples@, tn as int, td as int),
            out@.len() == k,
            forall|i: int| 0 <= i < k ==> out@[i] == spec_out[i],
        decreases stream.samples@.len() - k,
    {
        let v = distort_sample(stream.samples[k], tn, td);
        out.push(v);
        k = k + 1;
    }
    assert(out@ =~= spec_out);
    PcmStream { samples: out, sample_rate: stream.sample_rate, channels: stream.channels }
}

/// Value of a modulated sample at position `i`.
pub fn modulate_sample(x: i16, i: usize, period: u32) -> (r: i16)
    requires
        period > 0,
    ensures
        r == modulate_value(x as int, i as int, period as int),
{
    if i % (period as usize) == 0 {
        let k: i64 = (i % 3) as i64;
        proof {
            assert(-32768 * 13 <= x * (7 + 3 * k) <= 32767 * 13) by (nonlinear_arith)
                requires -32768 <= x <= 32767, 0 <= k < 3;
        }
        let prod: i64 = (x as i64) * (7 + 3 * k);
        let mag: i64 = if prod >= 0 { prod / 10 } else { -((-prod) / 10) };
        if mag > 32767 {
            32767
        } else if mag < -32768 {
            -32768
        } else {
            mag as i16
        }
    } else {
        x
    }
}

/// Applies the periodic modulation to every sample of `stream`, by position.
pub fn modulate(stream: &PcmStream, period: u32) -> (r: PcmStream)
    requires
        stream.wf(),
        period > 0,
    ensures
        r.wf(),
        r.sample_rate == stream.sample_rate,
        r.channels == stream.channels,
        r.samples@ == modulate_seq(stream.samples@, period as int),
{
    let ghost spec_out = modulate_seq(stream.samples@, period as int);
    let mut out: Vec<i16> = Vec::new();
    let mut k: usize = 0;
    while k < stream.samples.len()
        invariant
            k <= stream.samples@.len(),
            period > 0,
            spec_out == modulate_seq(stream.samples@, period as int),
            out@.len() == k,
            forall|i: int| 0 <= i < k ==> out@[i] == spec_out[i],
        decreases stream.samples@.len() - k,
    {
        let v = modulate_sample(stream.samples[k], k, period);
        out.push(v);
        k = k + 1;
    }
    assert(out@ =~= spec_out);
    PcmStream { samples: out, sample_rate: stream.sample_rate, channels: stream.channels }
}


/// Number of samples that the tempo stage makes of `s`.
pub open spec fn tempo_len(s: PcmView, p: EffectParameters) -> nat {
    tempo_frames(s.frame_count(), p.speed_num as nat, p.speed_den as nat) * (s.channels as nat)
}

/// The effect chain in its fixed order: tempo, then distortion, then
/// modulation indexed by position in the distorted stream.
pub open spec fn effect_chain(s: PcmView, p: EffectParameters) -> PcmView {
    let tempo = tempo_seq(s.samples, s.channels as nat, p.speed_num as nat, p.speed_den as nat);
    let distorted = distort_seq(tempo, p.threshold_num as int, p.threshold_den as int);
    PcmView {
        samples: modulate_seq(distorted, p.modulation_period as int),
        sample_rate: s.sample_rate,
        channels: s.channels,
    }
}

/// Runs the whole effect chain over `stream`.
pub fn apply_effects(stream: &PcmStream, params: &EffectParameters) -> (r: PcmStream)
    requires
        stream.wf(),
        params.valid(),
        tempo_len(stream@, *params) <= usize::MAX,
    ensures
        r.wf(),
        r@ == effect_chain(stream@, *params),
{
    let shifted = tempo_shift(stream, params.speed_num, params.speed_den);
    let distorted = distort(&shifted, params.threshold_num, params.threshold_den);
    modulate(&distorted, params.modulation_period)
}


/// Silence stays silence through the distortion stage, whatever the threshold.
pub proof fn lemma_distort_silence(s: Seq<i16>, tn: int, td: int)
    requires
        0 < tn <= td,
        forall|k: int| 0 <= k < s.len() ==> s[k] == 0,
    ensures
        distort_seq(s, tn, td).len() == s.len(),
        forall|k: int| 0 <= k < s.len() ==> distort_seq(s, tn, td)[k] == 0,
{
    assert forall|k: int| 0 <= k < s.len() implies distort_seq(s, tn, td)[k] == 0 by {
        assert(0 * td <= tn * SAMPLE_MAX) by (nonlinear_arith)
            requires tn > 0, td > 0;
    }
}

/// With a threshold of one, every sample whose normalised magnitude is at most
/// one (all but -32768) comes out of the distortion stage unchanged.
pub proof fn lemma_distort_unit_threshold(s: Seq<i16>, t: int)
    requires
        t > 0,
    ensures
        distort_seq(s, t, t).len() == s.len(),
        forall|k: int|
            0 <= k < s.len() && -SAMPLE_MAX <= s[k] ==> distort_seq(s, t, t)[k] == s[k],
{
    assert forall|k: int| 0 <= k < s.len() && -SAMPLE_MAX <= s[k] implies distort_seq(s, t, t)[k]
        == s[k] by {
        let x = s[k] as int;
        let mag = if x >= 0 { x } else { -x };
        assert(mag * t <= t * SAMPLE_MAX) by (nonlinear_arith)
            requires 0 <= mag <= 32767, t > 0;
    }
}

/// At speed one the tempo stage hands the samples back as they are.
pub proof fn lemma_tempo_unit_speed(s: Seq<i16>, channels: nat, n: nat)
    requires
        channels > 0,
        n > 0,
        s.len() % channels == 0,
    ensures
        tempo_seq(s, channels, n, n) == s,
{
    let c = channels as int;
    let frames = s.len() / channels;
    assert((frames * n) / n == frames) by (nonlinear_arith)
        requires n > 0, frames >= 0;
    assert(frames * channels == s.len()) by (nonlinear_arith)
        requires s.len() % channels == 0, frames == s.len() / channels, channels > 0;
    let t = tempo_seq(s, channels, n, n);
    assert forall|k: int| 0 <= k < s.len() implies t[k] == s[k] by {
        let j = k / c;
        assert((j * n) / (n as int) == j) by (nonlinear_arith)
            requires n > 0, j >= 0;
        vstd::arithmetic::div_mod::lemma_fundamental_div_mod(k, c);
    }
    assert(t =~= s);
}

} // verus!
