use vstd::prelude::*;

verus! {

/// Largest magnitude of a positive 16-bit sample, used to normalise samples.
pub const SAMPLE_MAX: i64 = 32767;

/// A decoded stream of interleaved signed 16-bit samples.
#[derive(Clone, Debug)]
pub struct PcmStream {
    pub samples: Vec<i16>,
    pub sample_rate: u32,
    pub channels: u16,
}

/// The mathematical value of a stream.
pub struct PcmView {
    pub samples: Seq<i16>,
    pub sample_rate: u32,
    pub channels: u16,
}

impl PcmView {
    /// A stream is well formed when its rate and channel count are positive and
    /// it holds a whole number of frames.
    pub open spec fn wf(self) -> bool {
        &&& self.sample_rate > 0
        &&& self.channels > 0
        &&& self.samples.len() % (self.channels as nat) == 0
    }

    /// Number of frames (one sample per channel) in the stream.
    pub open spec fn frame_count(self) -> nat {
        self.samples.len() / (self.channels as nat)
    }
}

impl View for PcmStream {
    type V = PcmView;

    open spec fn view(&self) -> PcmView {
        PcmView { samples: self.samples@, sample_rate: self.sample_rate, channels: self.channels }
    }
}

impl PcmStream {
    pub open spec fn wf(&self) -> bool {
        self@.wf()
    }

    pub open spec fn frame_count(&self) -> nat {
        self@.frame_count()
    }

    pub fn new(samples: Vec<i16>, sample_rate: u32, channels: u16) -> (r: Option<PcmStream>)
        ensures
            r.is_some() <==> (sample_rate > 0 && channels > 0 && samples@.len() % (channels as nat) == 0),
            r matches Some(s) ==> s.samples@ == samples@ && s.sample_rate == sample_rate
                && s.channels == channels,
    {
        if sample_rate == 0 || channels == 0 || samples.len() % (channels as usize) != 0 {
            None
        } else {
            Some(PcmStream { samples, sample_rate, channels })
        }
    }
}

/// Truncating integer division (rounds toward zero), for a positive divisor.
pub open spec fn trunc_div(a: int, b: int) -> int {
    if a >= 0 { a / b } else { -((-a) / b) }
}

/// Saturates an integer into the signed 16-bit range.
pub open spec fn clamp16(v: int) -> i16 {
    if v > 32767 { 32767i16 } else if v < -32768 { -32768i16 } else { v as i16 }
}

} // verus!
