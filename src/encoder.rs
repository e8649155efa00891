pub mod flac;
pub mod mp3;
pub mod tags;

use vstd::prelude::*;

use crate::encoder::flac::FlacEncoder;
use crate::encoder::mp3::Mp3Encoder;

verus! {

/// The output formats.
#[derive(Debug, Clone, Copy, PartialEq, Eq, Hash, Structural)]
pub enum Format {
    Flac,
    Mp3,
}

/// Why a format name was refused.
#[derive(Debug, Clone, Copy, PartialEq, Eq, Structural)]
pub enum FormatError {
    Unsupported,
}

/// Why encoding failed.
#[derive(Debug, Clone, Copy, PartialEq, Eq, Structural)]
pub enum EncodeError {
    /// The codec could not be set up with the sample format.
    Config,
    /// The codec refused the samples or failed while encoding them.
    Codec,
    /// The samples do not fit the codec's input layout.
    InvalidInput,
}

pub open spec fn extension_of(f: Format) -> Seq<char> {
    match f {
        Format::Flac => "flac"@,
        Format::Mp3 => "mp3"@,
    }
}

/// Whether two strings hold the same characters.
pub fn str_equal(a: &str, b: &str) -> (r: bool)
    ensures
        r == (a@ == b@),
{
    let n = a.unicode_len();
    if n != b.unicode_len() {
        return false;
    }
    let mut i: usize = 0;
    while i < n
        invariant
            n == a@.len(),
            n == b@.len(),
            i <= n,
            forall|j: int| 0 <= j < i ==> a@[j] == b@[j],
        decreases n - i,
    {
        if a.get_char(i) != b.get_char(i) {
            return false;
        }
        i = i + 1;
    }
    proof {
        assert(a@ =~= b@);
    }
    true
}

impl Format {
    /// The file name extension of the format.
    pub fn extension(&self) -> (r: &'static str)
        ensures
            r@ == extension_of(*self),
    {
        match self {
            Format::Flac => "flac",
            Format::Mp3 => "mp3",
        }
    }

    /// The format of the given name: "flac" or "mp3".
    pub fn parse(s: &str) -> (r: Result<Format, FormatError>)
        ensures
            s@ == "flac"@ ==> r == Ok::<Format, FormatError>(Format::Flac),
            s@ == "mp3"@ ==> r == Ok::<Format, FormatError>(Format::Mp3),
            s@ != "flac"@ && s@ != "mp3"@ ==> r == Err::<Format, FormatError>(FormatError::Unsupported),
    {
        proof {
            reveal_strlit("flac");
            reveal_strlit("mp3");
            assert("flac"@.len() != "mp3"@.len());
        }
        if str_equal(s, "flac") {
            Ok(Format::Flac)
        } else if str_equal(s, "mp3") {
            Ok(Format::Mp3)
        } else {
            Err(FormatError::Unsupported)
        }
    }
}

impl std::str::FromStr for Format {
    type Err = FormatError;

    fn from_str(s: &str) -> Result<Format, FormatError> {
        Format::parse(s)
    }
}

pub const SAMPLE_RATE: u32 = 44100;

pub const CHANNELS: u32 = 2;

pub const BITS_PER_SAMPLE: u32 = 16;

/// Interleaved integer samples and their layout.
pub struct Samples {
    pub samples: Vec<i32>,
    pub sample_rate: u32,
    pub channels: u32,
    pub bits_per_sample: u32,
}

/// A sample shifted down by eight bits, rounding toward negative infinity.
pub open spec fn shifted_down(x: i32) -> i32 {
    (x as int / 256) as i32
}

impl Samples {
    pub fn new(samples: Vec<i32>, sample_rate: u32, channels: u32, bits_per_sample: u32) -> (r: Samples)
        ensures
            r.samples@ == samples@,
            r.sample_rate == sample_rate,
            r.channels == channels,
            r.bits_per_sample == bits_per_sample,
    {
        Samples { samples, sample_rate, channels, bits_per_sample }
    }

    /// Each sample shifted down by eight bits.
    pub fn to_s24(&self) -> (r: Vec<i32>)
        ensures
            r@.len() == self.samples@.len(),
            forall|i: int| 0 <= i < r@.len() ==> #[trigger] r@[i] == shifted_down(self.samples@[i]),
    {
        let mut out: Vec<i32> = Vec::new();
        let n = self.samples.len();
        for i in 0..n
            invariant
                n == self.samples@.len(),
                out@.len() == i,
                forall|j: int| 0 <= j < i ==> #[trigger] out@[j] == shifted_down(self.samples@[j]),
        {
            let x = self.samples[i];
            let y = x >> 8u32;
            assert(y == x / 256) by (bit_vector)
                requires
                    y == x >> 8u32,
            ;
            out.push(y);
        }
        out
    }
}

/// Encoded bytes of a track.
pub struct EncodedStream {
    pub stream: Vec<u8>,
}

impl EncodedStream {
    pub fn new(stream: Vec<u8>) -> (r: EncodedStream)
        ensures
            r.stream@ == stream@,
    {
        EncodedStream { stream }
    }
}

/// The bytes of an encoding result, or its error.
pub open spec fn stream_view(r: Result<EncodedStream, EncodeError>) -> Result<Seq<u8>, EncodeError> {
    match r {
        Ok(s) => Ok(s.stream@),
        Err(e) => Err(e),
    }
}

/// What encoding samples in a format gives.
pub open spec fn encode_outcome(
    format: Format,
    samples: Seq<i32>,
    rate: u32,
    channels: u32,
    bits: u32,
    r: Result<Seq<u8>, EncodeError>,
) -> bool {
    match format {
        Format::Flac => flac::flac_outcome(samples, rate, channels, bits, r),
        Format::Mp3 => mp3::mp3_outcome(samples, rate, channels, r),
    }
}

/// Turns samples into the bytes of an audio file of one format.
pub trait Encoder {
    spec fn format_of(&self) -> Format;

    fn encode(&self, samples: Samples) -> (r: Result<EncodedStream, EncodeError>)
        ensures
            encode_outcome(
                self.format_of(),
                samples.samples@,
                samples.sample_rate,
                samples.channels,
                samples.bits_per_sample,
                stream_view(r),
            ),
    ;
}

impl Encoder for FlacEncoder {
    open spec fn format_of(&self) -> Format {
        Format::Flac
    }

    fn encode(&self, samples: Samples) -> (r: Result<EncodedStream, EncodeError>) {
        self.encode_samples(samples)
    }
}

impl Encoder for Mp3Encoder {
    open spec fn format_of(&self) -> Format {
        Format::Mp3
    }

    fn encode(&self, samples: Samples) -> (r: Result<EncodedStream, EncodeError>) {
        self.encode_samples(samples)
    }
}

/// The encoder of one of the formats.
pub enum AudioEncoder {
    Flac(FlacEncoder),
    Mp3(Mp3Encoder),
}

impl Encoder for AudioEncoder {
    open spec fn format_of(&self) -> Format {
        match self {
            AudioEncoder::Flac(_) => Format::Flac,
            AudioEncoder::Mp3(_) => Format::Mp3,
        }
    }

    fn encode(&self, samples: Samples) -> (r: Result<EncodedStream, EncodeError>) {
        match self {
            AudioEncoder::Flac(e) => e.encode(samples),
            AudioEncoder::Mp3(e) => e.encode(samples),
        }
    }
}

/// The encoder for the format.
pub fn get_encoder(format: Format) -> (r: AudioEncoder)
    ensures
        r.format_of() == format,
{
    match format {
        Format::Flac => AudioEncoder::Flac(FlacEncoder),
        Format::Mp3 => AudioEncoder::Mp3(Mp3Encoder),
    }
}

} // verus!
