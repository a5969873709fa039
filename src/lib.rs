//! Voice transformation pipeline: decode an audio buffer into 16-bit PCM,
//! run a fixed chain of effects over it and write the result as a WAVE file.
//!
//! - `pcm`: the sample stream and its model.
//! - `effects`: tempo change, soft-knee distortion and periodic modulation.
//! - `wav`: the WAVE writer and reader, with the round-trip law.
//! - `mp3`: the MP3 decoder's answers, frame by frame.
//! - `codec`: MP3 decoding into a stream, with the rules for joining frames.
//! - `pipeline`: decoding with fallback (MP3 first, then WAVE), and the whole
//!   run with its errors.
//!
//! Around the pipeline sit the pieces of the desktop application that hold
//! logic of their own: the HTTP client and its proxy (`http`), the speech
//! request and the stored token (`request`), ping reports (`telemetry`), listed data and parent directories (`model`) and
//! the order of a directory listing (`listing`).

pub mod pcm;
pub mod effects;
pub mod wav;
pub mod pipeline;
pub mod mp3;
pub mod codec;
pub mod http;
pub mod request;
pub mod telemetry;
pub mod model;
pub mod listing;
mod text;
