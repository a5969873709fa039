use vstd::prelude::*;
use crate::mp3::{Mp3Step, mp3_failed_at, mp3_frame_at, mp3_next, mp3_open};
use crate::pcm::{PcmStream, PcmView};

verus! {

/// Joins the decoder's answers from the `k`-th on, with `budget` frames still
/// allowed, onto the samples `acc` gathered at rate `rate` with `channels`
/// channels (zero before the first frame). A frame with no samples, a
/// non-positive rate, no channels, more than 65535 channels or a partial last
/// frame fails the decoding, as does a frame whose rate or channel count
/// differs from the first one's, an error other than the end of the input, or
/// reaching the end with no frame.
pub open spec fn mp3_join_from(
    b: Seq<u8>,
    k: nat,
    budget: nat,
    acc: Seq<i16>,
    rate: int,
    channels: nat,
) -> Option<PcmView>
    decreases budget,
{
    match mp3_frame_at(b, k) {
        Some((fs, fr, fc)) => {
            if budget == 0 || fr <= 0 || fc == 0 || fc > 65535 || fs.len() == 0 || fs.len() % fc != 0 {
                None
            } else if channels != 0 && (rate != fr || channels != fc) {
                None
            } else {
                mp3_join_from(b, k + 1, (budget - 1) as nat, acc + fs, fr, fc)
            }
        },
        None => {
            if mp3_failed_at(b, k) || channels == 0 {
                None
            } else {
                Some(PcmView { samples: acc, sample_rate: rate as u32, channels: channels as u16 })
            }
        },
    }
}

/// The stream that MP3 decoding makes of `b`. Each frame takes at least one
/// byte of input, so at most `b.len()` frames are taken.
pub open spec fn mp3_join(b: Seq<u8>) -> Option<PcmView> {
    mp3_join_from(b, 0, b.len(), Seq::empty(), 0, 0)
}

pub open spec fn stream_view(r: Option<PcmStream>) -> Option<PcmView> {
    match r {
        Some(s) => Some(s@),
        None => None,
    }
}

/// Decodes `bytes` as MP3: the frames' samples in order, with the rate and
/// channel count that all frames share (see `mp3_join_from`).
pub fn decode_mp3(bytes: &[u8]) -> (r: Option<PcmStream>)
    ensures
        stream_view(r) == mp3_join(bytes@),
        r matches Some(s) ==> s.wf() && s.samples@.len() > 0,
{
    let mut d = mp3_open(bytes);
    let mut samples: Vec<i16> = Vec::new();
    let mut rate: u32 = 0;
    let mut channels: u16 = 0;
    let mut budget: usize = bytes.len();
    assert(samples@ =~= Seq::<i16>::empty());
    loop
        invariant
            d.source() == bytes@,
            mp3_join(bytes@) == mp3_join_from(
                bytes@,
                d.position(),
                budget as nat,
                samples@,
                rate as int,
                channels as nat,
            ),
            rate <= i32::MAX,
            (rate == 0) == (channels == 0),
            channels > 0 ==> samples@.len() % (channels as nat) == 0,
            channels > 0 ==> samples@.len() > 0,
            channels == 0 ==> samples@.len() == 0,
        decreases budget,
    {
        let ghost k = d.position();
        match mp3_next(&mut d) {
            Mp3Step::Frame { samples: frame, sample_rate, channels: ch } => {
                if budget == 0 || sample_rate <= 0 || ch == 0 || ch > 65535 || frame.len() == 0
                    || frame.len() % ch != 0 {
                    return None;
                }
                if channels != 0 && (rate != sample_rate as u32 || channels as usize != ch) {
                    return None;
                }
                rate = sample_rate as u32;
                channels = ch as u16;
                let ghost before = samples@;
                let mut i: usize = 0;
                while i < frame.len()
                    invariant
                        i <= frame@.len(),
                        samples@ == before + frame@.subrange(0, i as int),
                    decreases frame@.len() - i,
                {
                    samples.push(frame[i]);
                    i = i + 1;
                    assert(samples@ =~= before + frame@.subrange(0, i as int));
                }
                proof {
                    assert(frame@.subrange(0, frame@.len() as int) =~= frame@);
                    let c = channels as int;
                    let a = before.len() as int;
                    let b = frame@.len() as int;
                    vstd::arithmetic::div_mod::lemma_fundamental_div_mod(a, c);
                    vstd::arithmetic::div_mod::lemma_fundamental_div_mod(b, c);
                    let q = a / c + b / c;
                    assert(a + b == q * c) by (nonlinear_arith)
                        requires a == c * (a / c) + 0, b == c * (b / c) + 0, q == a / c + b / c;
                    vstd::arithmetic::div_mod::lemma_mod_multiples_basic(q, c);
                }
                budget = budget - 1;
            },
            Mp3Step::End => {
                if channels == 0 {
                    return None;
                }
                return Some(PcmStream { samples, sample_rate: rate, channels });
            },
            Mp3Step::Failed => {
                return None;
            },
        }
    }
}

} // verus!
