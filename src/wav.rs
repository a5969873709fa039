use vstd::prelude::*;
use crate::pcm::{PcmStream, PcmView};

verus! {

/// Why a stream could not be written as a WAVE file.
#[derive(Clone, Copy, Debug, PartialEq, Eq)]
pub enum EncodeError {
    /// A size or rate field of the header cannot hold the stream's value.
    WriteFailed,
}

pub open spec fn le16(v: nat) -> Seq<u8> {
    seq![(v % 256) as u8, ((v / 256) % 256) as u8]
}

pub open spec fn le32(v: nat) -> Seq<u8> {
    seq![
        (v % 256) as u8,
        ((v / 256) % 256) as u8,
        ((v / 65536) % 256) as u8,
        ((v / 16777216) % 256) as u8,
    ]
}

/// Little-endian 16-bit value at position `i`.
pub open spec fn read16(b: Seq<u8>, i: int) -> nat {
    b[i] as nat + 256 * (b[i + 1] as nat)
}

/// Little-endian 32-bit value at position `i`.
pub open spec fn read32(b: Seq<u8>, i: int) -> nat {
    b[i] as nat + 256 * (b[i + 1] as nat) + 65536 * (b[i + 2] as nat) + 16777216 * (b[i + 3] as nat)
}

pub open spec fn riff_tag() -> Seq<u8> {
    seq![82u8, 73u8, 70u8, 70u8]
}

pub open spec fn wave_tag() -> Seq<u8> {
    seq![87u8, 65u8, 86u8, 69u8]
}

pub open spec fn fmt_tag() -> Seq<u8> {
    seq![102u8, 109u8, 116u8, 32u8]
}

pub open spec fn data_tag() -> Seq<u8> {
    seq![100u8, 97u8, 116u8, 97u8]
}

/// The four bytes at `i` spell `t`.
pub open spec fn tag_at(b: Seq<u8>, i: int, t: Seq<u8>) -> bool {
    b[i] == t[0] && b[i + 1] == t[1] && b[i + 2] == t[2] && b[i + 3] == t[3]
}

/// Two's complement code of a sample as an unsigned 16-bit value.
pub open spec fn sample_code(x: i16) -> nat {
    if x >= 0 { x as nat } else { (x + 65536) as nat }
}

/// The sample whose two's complement code is `code`.
pub open spec fn sample_of(code: nat) -> i16 {
    if code >= 32768 { (code - 65536) as i16 } else { code as i16 }
}

/// Samples as little-endian byte pairs.
pub open spec fn payload(s: Seq<i16>) -> Seq<u8> {
    Seq::new(
        2 * s.len(),
        |k: int|
            if k % 2 == 0 {
                (sample_code(s[k / 2]) % 256) as u8
            } else {
                (sample_code(s[k / 2]) / 256) as u8
            },
    )
}

/// The 44-byte header of an integer PCM file with 16 bits per sample and
/// `data` bytes of samples.
pub open spec fn header(rate: nat, channels: nat, data: nat) -> Seq<u8> {
    riff_tag() + le32(36 + data) + wave_tag() + fmt_tag() + le32(16) + le16(1) + le16(channels)
        + le32(rate) + le32(rate * channels * 2) + le16(channels * 2) + le16(16) + data_tag()
        + le32(data)
}

/// Every header field can hold the stream's value.
pub open spec fn encodable(s: PcmView) -> bool {
    &&& 2 * s.samples.len() + 36 <= u32::MAX
    &&& s.sample_rate * s.channels * 2 <= u32::MAX
    &&& s.channels * 2 <= u16::MAX
}

/// The file that `encode` writes for `s`.
pub open spec fn wav_bytes(s: PcmView) -> Seq<u8> {
    header(s.sample_rate as nat, s.channels as nat, 2 * s.samples.len()) + payload(s.samples)
}

/// A canonical WAVE file: RIFF/WAVE with a 16-byte `fmt ` chunk for integer
/// PCM at 16 bits per sample, a positive rate and channel count, and a `data`
/// chunk right after it holding whole frames, all present in `b`.
pub open spec fn is_wav(b: Seq<u8>) -> bool {
    &&& b.len() >= 44
    &&& tag_at(b, 0, riff_tag())
    &&& tag_at(b, 8, wave_tag())
    &&& tag_at(b, 12, fmt_tag())
    &&& read32(b, 16) == 16
    &&& read16(b, 20) == 1
    &&& read16(b, 22) > 0
    &&& read32(b, 24) > 0
    &&& read16(b, 34) == 16
    &&& tag_at(b, 36, data_tag())
    &&& read32(b, 40) % (2 * read16(b, 22)) == 0
    &&& 44 + read32(b, 40) <= b.len()
}

/// Channel count, sample rate and data size declared by a header.
pub open spec fn wav_channels(b: Seq<u8>) -> nat {
    read16(b, 22)
}

pub open spec fn wav_rate(b: Seq<u8>) -> nat {
    read32(b, 24)
}

pub open spec fn wav_data_size(b: Seq<u8>) -> nat {
    read32(b, 40)
}

/// The samples held by the `data` chunk.
pub open spec fn wav_samples(b: Seq<u8>) -> Seq<i16> {
    Seq::new(wav_data_size(b) / 2, |k: int| sample_of(read16(b, 44 + 2 * k)))
}

/// The stream that a canonical WAVE file holds.
pub open spec fn wav_stream(b: Seq<u8>) -> PcmView {
    PcmView {
        samples: wav_samples(b),
        sample_rate: wav_rate(b) as u32,
        channels: wav_channels(b) as u16,
    }
}

fn push_le16(out: &mut Vec<u8>, v: u16)
    ensures
        final(out)@ == old(out)@ + le16(v as nat),
{
    out.push((v % 256) as u8);
    out.push((v / 256) as u8);
    assert(final(out)@ =~= old(out)@ + le16(v as nat));
}

fn push_le32(out: &mut Vec<u8>, v: u32)
    ensures
        final(out)@ == old(out)@ + le32(v as nat),
{
    out.push((v % 256) as u8);
    out.push(((v / 256) % 256) as u8);
    out.push(((v / 65536) % 256) as u8);
    out.push((v / 16777216) as u8);
    assert(final(out)@ =~= old(out)@ + le32(v as nat));
}

fn push_tag(out: &mut Vec<u8>, a: u8, b: u8, c: u8, d: u8)
    ensures
        final(out)@ == old(out)@ + seq![a, b, c, d],
{
    out.push(a);
    out.push(b);
    out.push(c);
    out.push(d);
    assert(final(out)@ =~= old(out)@ + seq![a, b, c, d]);
}


/// Writes `stream` as a canonical WAVE file: the 44-byte header, then each
/// sample as two little-endian bytes. Fails exactly when a header field
/// cannot hold the stream's size, byte rate or block alignment.
pub fn encode(stream: &PcmStream) -> (r: Result<Vec<u8>, EncodeError>)
    requires
        stream.wf(),
    ensures
        r.is_ok() <==> encodable(stream@),
        r matches Ok(bytes) ==> bytes@ == wav_bytes(stream@),
        r matches Err(e) ==> e == EncodeError::WriteFailed,
{
    let n: usize = stream.samples.len();
    let rate: u64 = stream.sample_rate as u64;
    let ch: u64 = stream.channels as u64;
    proof {
        assert(rate * ch * 2 <= u32::MAX * u16::MAX * 2) by (nonlinear_arith)
            requires rate <= u32::MAX, ch <= u16::MAX;
    }
    if n as u64 > (u32::MAX as u64 - 36) / 2 || rate * ch * 2 > u32::MAX as u64 || ch * 2
        > u16::MAX as u64 {
        return Err(EncodeError::WriteFailed);
    }
    let data: u32 = (2 * n) as u32;
    let ghost s = stream.samples@;
    let mut out: Vec<u8> = Vec::new();
    push_tag(&mut out, 82, 73, 70, 70);
    push_le32(&mut out, 36 + data);
    push_tag(&mut out, 87, 65, 86, 69);
    push_tag(&mut out, 102, 109, 116, 32);
    push_le32(&mut out, 16);
    push_le16(&mut out, 1);
    push_le16(&mut out, stream.channels);
    push_le32(&mut out, stream.sample_rate);
    push_le32(&mut out, (rate * ch * 2) as u32);
    push_le16(&mut out, (ch * 2) as u16);
    push_le16(&mut out, 16);
    push_tag(&mut out, 100, 97, 116, 97);
    push_le32(&mut out, data);
    let ghost hdr = header(stream.sample_rate as nat, stream.channels as nat, 2 * s.len());
    assert(out@ =~= hdr);
    let mut i: usize = 0;
    while i < n
        invariant
            i <= n,
            n == s.len(),
            s == stream.samples@,
            hdr.len() == 44,
            out@ =~= hdr + payload(s.subrange(0, i as int)),
        decreases n - i,
    {
        let x: i16 = stream.samples[i];
        let code: u16 = if x >= 0 { x as u16 } else { (x as i32 + 65536) as u16 };
        out.push((code % 256) as u8);
        out.push((code / 256) as u8);
        proof {
            let done = payload(s.subrange(0, i as int));
            let next = payload(s.subrange(0, i + 1));
            assert(next =~= done + seq![(code % 256) as u8, (code / 256) as u8]) by {
                assert forall|k: int| 0 <= k < next.len() implies next[k] == (done + seq![
                    (code % 256) as u8,
                    (code / 256) as u8,
                ])[k] by {
                    if k < 2 * i {
                        assert(s.subrange(0, i + 1)[k / 2] == s.subrange(0, i as int)[k / 2]);
                    } else {
                        assert(k / 2 == i);
                    }
                }
            }
        }
        i = i + 1;
    }
    assert(s.subrange(0, n as int) =~= s);
    Ok(out)
}


fn read16_at(b: &[u8], i: usize) -> (r: u16)
    requires
        i + 1 < b@.len(),
    ensures
        r as nat == read16(b@, i as int),
{
    b[i] as u16 + 256 * (b[i + 1] as u16)
}

fn read32_at(b: &[u8], i: usize) -> (r: u32)
    requires
        i + 3 < b@.len(),
    ensures
        r as nat == read32(b@, i as int),
{
    b[i] as u32 + 256 * (b[i + 1] as u32) + 65536 * (b[i + 2] as u32) + 16777216 * (b[i + 3] as u32)
}

fn tag_matches(b: &[u8], i: usize, t0: u8, t1: u8, t2: u8, t3: u8) -> (r: bool)
    requires
        i + 3 < b@.len(),
    ensures
        r == tag_at(b@, i as int, seq![t0, t1, t2, t3]),
{
    b[i] == t0 && b[i + 1] == t1 && b[i + 2] == t2 && b[i + 3] == t3
}

/// Reads a canonical WAVE file. Returns `None` exactly when `bytes` is not one;
/// otherwise the stream carries the header's rate and channel count and the
/// samples of the `data` chunk.
pub fn decode_wav(bytes: &[u8]) -> (r: Option<PcmStream>)
    ensures
        r.is_some() <==> is_wav(bytes@),
        r matches Some(s) ==> {
            &&& s.wf()
            &&& s.sample_rate as nat == wav_rate(bytes@)
            &&& s.channels as nat == wav_channels(bytes@)
            &&& s.samples@ == wav_samples(bytes@)
            &&& s@ == wav_stream(bytes@)
        },
{
    let b = bytes;
    if b.len() < 44 {
        return None;
    }
    assert(riff_tag() == seq![82u8, 73u8, 70u8, 70u8]);
    assert(wave_tag() == seq![87u8, 65u8, 86u8, 69u8]);
    assert(fmt_tag() == seq![102u8, 109u8, 116u8, 32u8]);
    assert(data_tag() == seq![100u8, 97u8, 116u8, 97u8]);
    let channels: u16 = read16_at(b, 22);
    let rate: u32 = read32_at(b, 24);
    let data: u32 = read32_at(b, 40);
    let ok = tag_matches(b, 0, 82, 73, 70, 70) && tag_matches(b, 8, 87, 65, 86, 69)
        && tag_matches(b, 12, 102, 109, 116, 32) && read32_at(b, 16) == 16 && read16_at(b, 20)
        == 1 && channels > 0 && rate > 0 && read16_at(b, 34) == 16 && tag_matches(
        b,
        36,
        100,
        97,
        116,
        97,
    ) && (data as u64) % (2 * channels as u64) == 0 && 44 + (data as u64) <= b.len() as u64;
    if !ok {
        return None;
    }
    let count: usize = (data / 2) as usize;
    let ghost expect = wav_samples(b@);
    let mut samples: Vec<i16> = Vec::new();
    let mut k: usize = 0;
    while k < count
        invariant
            k <= count,
            count == data / 2,
            44 + data <= b@.len(),
            b@.len() <= usize::MAX,
            data == wav_data_size(b@),
            expect == wav_samples(b@),
            samples@.len() == k,
            forall|j: int| 0 <= j < k ==> samples@[j] == expect[j],
        decreases count - k,
    {
        let code: u16 = read16_at(b, 44 + 2 * k);
        let x: i16 = if code >= 32768 { (code as i32 - 65536) as i16 } else { code as i16 };
        samples.push(x);
        k = k + 1;
    }
    assert(samples@ =~= expect);
    proof {
        let d = data as int;
        let c = channels as int;
        let q = d / (2 * c);
        vstd::arithmetic::div_mod::lemma_fundamental_div_mod(d, 2 * c);
        assert(d / 2 == q * c) by (nonlinear_arith)
            requires d == 2 * c * q + 0;
        vstd::arithmetic::div_mod::lemma_mod_multiples_basic(q, c);
    }
    Some(PcmStream { samples, sample_rate: rate, channels })
}


proof fn lemma_le16_read(v: nat)
    requires
        v <= u16::MAX,
    ensures
        read16(le16(v), 0) == v,
{
    let w = v as u16;
    assert(w == (w % 256) + 256 * ((w / 256) % 256)) by (bit_vector);
}

proof fn lemma_le32_read(v: nat)
    requires
        v <= u32::MAX,
    ensures
        read32(le32(v), 0) == v,
{
    let w = v as u32;
    assert(w == (w % 256) + 256 * ((w / 256) % 256) + 65536 * ((w / 65536) % 256) + 16777216 * ((
    w / 16777216) % 256)) by (bit_vector);
}


proof fn lemma_header_fields(rate: nat, channels: nat, data: nat, rest: Seq<u8>)
    requires
        36 + data <= u32::MAX,
        0 < rate <= u32::MAX,
        0 < channels,
        rate * channels * 2 <= u32::MAX,
        channels * 2 <= u16::MAX,
    ensures
        ({
            let w = header(rate, channels, data) + rest;
            &&& w.len() == 44 + rest.len()
            &&& tag_at(w, 0, riff_tag())
            &&& tag_at(w, 8, wave_tag())
            &&& tag_at(w, 12, fmt_tag())
            &&& read32(w, 4) == 36 + data
            &&& read32(w, 16) == 16
            &&& read16(w, 20) == 1
            &&& read16(w, 22) == channels
            &&& read32(w, 24) == rate
            &&& read32(w, 28) == rate * channels * 2
            &&& read16(w, 32) == channels * 2
            &&& read16(w, 34) == 16
            &&& tag_at(w, 36, data_tag())
            &&& read32(w, 40) == data
            &&& forall|k: int| 0 <= k < rest.len() ==> w[44 + k] == rest[k]
        }),
{
    let w = header(rate, channels, data) + rest;
    lemma_le32_read(36 + data);
    lemma_le32_read(rate * channels * 2);
    lemma_le16_read(channels * 2);
    lemma_le32_read(16);
    lemma_le16_read(1);
    lemma_le16_read(channels);
    lemma_le32_read(rate);
    lemma_le16_read(16);
    lemma_le32_read(data);
    assert(w.subrange(4, 8) =~= le32(36 + data));
    assert(w.subrange(28, 32) =~= le32(rate * channels * 2));
    assert(w.subrange(32, 34) =~= le16(channels * 2));
    assert(w.subrange(16, 20) =~= le32(16));
    assert(w.subrange(20, 22) =~= le16(1));
    assert(w.subrange(22, 24) =~= le16(channels));
    assert(w.subrange(24, 28) =~= le32(rate));
    assert(w.subrange(34, 36) =~= le16(16));
    assert(w.subrange(40, 44) =~= le32(data));
}

proof fn lemma_sample_code(x: i16)
    ensures
        sample_code(x) < 65536,
        sample_of(sample_code(x)) == x,
        (sample_code(x) % 256) + 256 * (sample_code(x) / 256) == sample_code(x),
{
}

/// Reading back what `encode` writes for a stream gives the stream's sample
/// rate, channel count and samples, and a data size of two bytes per sample;
/// the file size, byte rate and block alignment fields agree with them.
pub proof fn lemma_encode_then_parse(s: PcmView)
    requires
        s.wf(),
        encodable(s),
    ensures
        is_wav(wav_bytes(s)),
        wav_rate(wav_bytes(s)) == s.sample_rate,
        wav_channels(wav_bytes(s)) == s.channels,
        wav_data_size(wav_bytes(s)) == 2 * s.samples.len(),
        wav_data_size(wav_bytes(s)) / 2 == s.samples.len(),
        wav_samples(wav_bytes(s)) == s.samples,
        wav_stream(wav_bytes(s)) == s,
        wav_bytes(s).len() == 44 + 2 * s.samples.len(),
        read32(wav_bytes(s), 4) == 36 + 2 * s.samples.len(),
        read32(wav_bytes(s), 28) == s.sample_rate * s.channels * 2,
        read16(wav_bytes(s), 32) == s.channels * 2,
{
    let n = s.samples.len();
    let p = payload(s.samples);
    let w = wav_bytes(s);
    lemma_header_fields(s.sample_rate as nat, s.channels as nat, 2 * n, p);
    let c = s.channels as int;
    let q = (n as int) / c;
    vstd::arithmetic::div_mod::lemma_fundamental_div_mod(n as int, c);
    assert(2 * (n as int) == q * (2 * c)) by (nonlinear_arith)
        requires n as int == c * q + 0;
    vstd::arithmetic::div_mod::lemma_mod_multiples_basic(q, 2 * c);
    assert forall|k: int| 0 <= k < n implies sample_of(read16(w, 44 + 2 * k)) == s.samples[k] by {
        lemma_sample_code(s.samples[k]);
        assert(w[44 + 2 * k] == p[2 * k]);
        assert(w[44 + 2 * k + 1] == p[2 * k + 1]);
        assert((2 * k) / 2 == k);
        assert((2 * k + 1) / 2 == k);
    }
    assert(wav_samples(w) =~= s.samples);
}

} // verus!
