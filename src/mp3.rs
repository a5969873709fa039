use vstd::prelude::*;

verus! {

#[verifier::external_type_specification]
#[verifier::external_body]
#[verifier::reject_recursive_types(R)]
pub struct ExMp3Decoder<R>(minimp3::Decoder<R>);

/// The frame that the `k`-th call of `next_frame` returns on a fresh decoder
/// over `b`: interleaved samples, sample rate and channel count; `None` when
/// that call returns an error.
pub uninterp spec fn mp3_frame_at(b: Seq<u8>, k: nat) -> Option<(Seq<i16>, int, nat)>;

/// The `k`-th call of `next_frame` on a fresh decoder over `b` returns an
/// error other than the end of the input.
pub uninterp spec fn mp3_failed_at(b: Seq<u8>, k: nat) -> bool;

/// One answer of the decoder.
pub enum Mp3Step {
    /// A decoded frame: interleaved samples, its sample rate and channel count.
    Frame { samples: Vec<i16>, sample_rate: i32, channels: usize },
    /// The input is used up.
    End,
    /// The decoder failed for another reason.
    Failed,
}

/// A decoder over a byte buffer, with the buffer and the number of frames
/// asked for so far.
pub struct Mp3Reader<'a> {
    decoder: minimp3::Decoder<&'a [u8]>,
    source: Ghost<Seq<u8>>,
    position: Ghost<nat>,
}

impl<'a> Mp3Reader<'a> {
    pub closed spec fn source(&self) -> Seq<u8> {
        self.source@
    }

    pub closed spec fn position(&self) -> nat {
        self.position@
    }
}

/// Relies on minimp3::Decoder::new: a fresh decoder reading from `bytes`.
#[verifier::external_body]
pub fn mp3_open<'a>(bytes: &'a [u8]) -> (r: Mp3Reader<'a>)
    ensures
        r.source() == bytes@,
        r.position() == 0,
{
    Mp3Reader { decoder: minimp3::Decoder::new(bytes), source: Ghost(bytes@), position: Ghost(0) }
}

/// Relies on minimp3::Decoder::next_frame: each answer on a fresh decoder over
/// a buffer depends on the buffer and on how many answers came before it.
#[verifier::external_body]
pub fn mp3_next<'a>(d: &mut Mp3Reader<'a>) -> (r: Mp3Step)
    ensures
        final(d).source() == old(d).source(),
        final(d).position() == old(d).position() + 1,
        match r {
            Mp3Step::Frame { samples, sample_rate, channels } => mp3_frame_at(
                old(d).source(),
                old(d).position(),
            ) == Some((samples@, sample_rate as int, channels as nat)),
            Mp3Step::End => mp3_frame_at(old(d).source(), old(d).position()) is None
                && !mp3_failed_at(old(d).source(), old(d).position()),
            Mp3Step::Failed => mp3_frame_at(old(d).source(), old(d).position()) is None
                && mp3_failed_at(old(d).source(), old(d).position()),
        },
{
    d.position = Ghost((d.position@ + 1) as nat);
    match d.decoder.next_frame() {
        Ok(f) => Mp3Step::Frame { samples: f.data, sample_rate: f.sample_rate, channels: f.channels },
        Err(minimp3::Error::Eof) => Mp3Step::End,
        Err(_) => Mp3Step::Failed,
    }
}

} // verus!
