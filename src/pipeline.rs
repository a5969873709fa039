use vstd::prelude::*;
use crate::effects::{EffectParameters, apply_effects, effect_chain, tempo_len};
use crate::codec::{decode_mp3, mp3_join};
use crate::pcm::{PcmStream, PcmView};
use crate::wav::{EncodeError, decode_wav, encode, encodable, is_wav, wav_bytes, wav_stream};

verus! {

/// Why an input buffer could not be decoded.
#[derive(Clone, Copy, Debug, PartialEq, Eq)]
pub enum DecodeError {
    /// Neither the compressed codec nor the WAVE reader accepted the bytes.
    UnsupportedFormat,
}

/// The failure of a pipeline run, tagged with the stage it came from.
#[derive(Clone, Copy, Debug, PartialEq, Eq)]
pub enum PipelineError {
    Decode(DecodeError),
    InvalidParameters,
    Encode(EncodeError),
}

pub open spec fn primary_view(primary: Option<PcmStream>) -> Option<PcmView> {
    match primary {
        Some(p) => Some(p@),
        None => None,
    }
}

pub open spec fn decoded_view(r: Result<PcmStream, DecodeError>) -> Option<PcmView> {
    match r {
        Ok(s) => Some(s@),
        Err(_) => None,
    }
}

pub open spec fn output_view(r: Result<Vec<u8>, PipelineError>) -> Result<Seq<u8>, PipelineError> {
    match r {
        Ok(out) => Ok(out@),
        Err(e) => Err(e),
    }
}

/// Decoding with fallback: the compressed codec's stream when it produced one,
/// else the WAVE file's stream when the bytes are one, else nothing.
pub open spec fn decode_spec(primary: Option<PcmView>, b: Seq<u8>) -> Option<PcmView> {
    match primary {
        Some(p) => Some(p),
        None => if is_wav(b) { Some(wav_stream(b)) } else { None },
    }
}

/// The result of a pipeline run: parameters are checked first, then the input
/// is decoded, the effects applied and the result written.
pub open spec fn transform_spec(
    primary: Option<PcmView>,
    b: Seq<u8>,
    p: EffectParameters,
) -> Result<Seq<u8>, PipelineError> {
    if !p.valid() {
        Err(PipelineError::InvalidParameters)
    } else {
        match decode_spec(primary, b) {
            None => Err(PipelineError::Decode(DecodeError::UnsupportedFormat)),
            Some(s) => {
                let out = effect_chain(s, p);
                if encodable(out) {
                    Ok(wav_bytes(out))
                } else {
                    Err(PipelineError::Encode(EncodeError::WriteFailed))
                }
            },
        }
    }
}

/// The result of a run on fetched bytes.
pub open spec fn bytes_run(b: Seq<u8>, p: EffectParameters) -> Result<Seq<u8>, PipelineError> {
    transform_spec(mp3_join(b), b, p)
}

/// Decodes `bytes`. `primary` is what the compressed codec made of the same
/// bytes (`None` when it rejected them); it takes priority, and the WAVE reader
/// is tried only when it failed.
pub fn decode(primary: Option<PcmStream>, bytes: &[u8]) -> (r: Result<PcmStream, DecodeError>)
    requires
        primary matches Some(p) ==> p.wf(),
    ensures
        r matches Ok(s) ==> s.wf() && decode_spec(primary_view(primary), bytes@) == Some(s@),
        r.is_err() <==> decode_spec(primary_view(primary), bytes@).is_none(),
        r matches Err(e) ==> e == DecodeError::UnsupportedFormat,
{
    match primary {
        Some(p) => Ok(p),
        None => match decode_wav(bytes) {
            Some(s) => Ok(s),
            None => Err(DecodeError::UnsupportedFormat),
        },
    }
}

/// Decodes `bytes` as MP3 first and, when that fails, as a WAVE file.
pub fn decode_bytes(bytes: &[u8]) -> (r: Result<PcmStream, DecodeError>)
    ensures
        decoded_view(r) == decode_spec(mp3_join(bytes@), bytes@),
        r matches Ok(s) ==> s.wf(),
        r matches Err(e) ==> e == DecodeError::UnsupportedFormat,
{
    let primary = decode_mp3(bytes);
    decode(primary, bytes)
}

/// A whole run on fetched bytes: MP3 decoding first, the WAVE reader as
/// fallback, then the effects and the WAVE writer.
pub fn transform_bytes(bytes: &[u8], params: &EffectParameters) -> (r: Result<Vec<u8>, PipelineError>)
    ensures
        output_view(r) == bytes_run(bytes@, *params),
{
    let primary = decode_mp3(bytes);
    transform(primary, bytes, params)
}

/// Number of samples that the tempo stage will produce, computed without
/// running it.
fn shifted_len(stream: &PcmStream, params: &EffectParameters) -> (r: u128)
    requires
        stream.wf(),
        params.valid(),
    ensures
        r as nat == tempo_len(stream@, *params),
{
    let c: usize = stream.channels as usize;
    let frames: usize = stream.samples.len() / c;
    proof {
        assert(frames * params.speed_den <= usize::MAX * u32::MAX) by (nonlinear_arith)
            requires frames <= usize::MAX, params.speed_den <= u32::MAX;
    }
    let out_frames: u128 = (frames as u128 * params.speed_den as u128) / params.speed_num as u128;
    proof {
        assert(out_frames <= usize::MAX * u32::MAX) by (nonlinear_arith)
            requires out_frames == (frames * params.speed_den) / (params.speed_num as int),
            frames * params.speed_den <= usize::MAX * u32::MAX, params.speed_num > 0;
        assert(out_frames * c <= usize::MAX * u32::MAX * u16::MAX) by (nonlinear_arith)
            requires out_frames <= usize::MAX * u32::MAX, c <= u16::MAX;
    }
    out_frames * c as u128
}

/// Decodes `bytes` (see `decode`), applies the effect chain and writes the
/// result as a WAVE file. Invalid parameters are reported before anything else.
pub fn transform(primary: Option<PcmStream>, bytes: &[u8], params: &EffectParameters) -> (r: Result<
    Vec<u8>,
    PipelineError,
>)
    requires
        primary matches Some(p) ==> p.wf(),
    ensures
        r matches Ok(out) ==> transform_spec(primary_view(primary), bytes@, *params) == Ok::<
            Seq<u8>,
            PipelineError,
        >(out@),
        r matches Err(e) ==> transform_spec(primary_view(primary), bytes@, *params) == Err::<
            Seq<u8>,
            PipelineError,
        >(e),
{
    if !params.is_valid() {
        return Err(PipelineError::InvalidParameters);
    }
    let stream = match decode(primary, bytes) {
        Ok(s) => s,
        Err(e) => return Err(PipelineError::Decode(e)),
    };
    let n: u128 = shifted_len(&stream, params);
    if n > (u32::MAX as u128 - 36) / 2 {
        return Err(PipelineError::Encode(EncodeError::WriteFailed));
    }
    let shaped = apply_effects(&stream, params);
    match encode(&shaped) {
        Ok(out) => Ok(out),
        Err(e) => Err(PipelineError::Encode(e)),
    }
}


/// Two runs on the same bytes with the same parameters end the same way: with
/// byte-identical files or with the same error.
pub proof fn lemma_runs_agree(
    bytes: Seq<u8>,
    params: EffectParameters,
    first: Result<Seq<u8>, PipelineError>,
    second: Result<Seq<u8>, PipelineError>,
)
    requires
        first == bytes_run(bytes, params),
        second == bytes_run(bytes, params),
    ensures
        first == second,
        first matches Ok(a) ==> second matches Ok(b) && a == b,
{
}

/// Bytes that the MP3 decoder accepts are taken as MP3, even when they also
/// form a WAVE file.
pub proof fn lemma_mp3_first(b: Seq<u8>)
    requires
        mp3_join(b) is Some,
    ensures
        decode_spec(mp3_join(b), b) == mp3_join(b),
{
}

/// Bytes that the MP3 decoder rejects but that form a WAVE file decode
/// through the fallback, with the rate and channel count of the WAVE header.
pub proof fn lemma_fallback_to_wav(b: Seq<u8>)
    requires
        mp3_join(b) is None,
        is_wav(b),
    ensures
        decode_spec(mp3_join(b), b) == Some(wav_stream(b)),
        decode_spec(None, b) == Some(wav_stream(b)),
        decode_spec(None, b).unwrap().sample_rate as nat == crate::wav::wav_rate(b),
        decode_spec(None, b).unwrap().channels as nat == crate::wav::wav_channels(b),
{
}

} // verus!
