use vstd::prelude::*;

use mp3lame_encoder::Encoder as LameEncoder;

use crate::encoder::{EncodedStream, Samples};

verus! {

#[verifier::external_type_specification]
#[verifier::external_body]
pub struct ExLameBuilder(mp3lame_encoder::Builder);

#[verifier::external_type_specification]
#[verifier::external_body]
pub struct ExLameEncoder(LameEncoder);

#[verifier::external_type_specification]
#[verifier::external_body]
pub struct ExLameBuildError(mp3lame_encoder::BuildError);

/// The bytes that a fresh 320 kbit/s LAME encoder for the sample rate and
/// channel count produces when it encodes the interleaved samples.
pub uninterp spec fn lame_frames(samples: Seq<i32>, rate: u32, channels: u8) -> Seq<u8>;

/// The bytes that such an encoder produces when flushed after encoding
/// exactly those samples.
pub uninterp spec fn lame_tail(samples: Seq<i32>, rate: u32, channels: u8) -> Seq<u8>;

/// A LAME builder, with the settings made on it so far.
pub struct LameBuilder {
    builder: mp3lame_encoder::Builder,
    rate: Option<u32>,
    channels: Option<u8>,
    kbps320: bool,
}

impl LameBuilder {
    pub closed spec fn rate(&self) -> Option<u32> {
        self.rate
    }

    pub closed spec fn channels(&self) -> Option<u8> {
        self.channels
    }

    pub closed spec fn kbps320(&self) -> bool {
        self.kbps320
    }
}

/// A built LAME encoder, its settings, and the samples it has encoded.
pub struct LameSession {
    encoder: LameEncoder,
    rate: u32,
    channels: u8,
    fed: Option<Vec<i32>>,
}

impl LameSession {
    pub closed spec fn rate(&self) -> u32 {
        self.rate
    }

    pub closed spec fn channels(&self) -> u8 {
        self.channels
    }

    pub closed spec fn fed(&self) -> Option<Seq<i32>> {
        match self.fed {
            Some(v) => Some(v@),
            None => None,
        }
    }
}

/// Relies on mp3lame_encoder::Builder::new: a builder with LAME's defaults,
/// unless LAME could not allocate one.
#[verifier::external_body]
fn new_builder() -> (r: Option<LameBuilder>)
    ensures
        r matches Some(b) ==> b.rate() is None && b.channels() is None && !b.kbps320(),
{
    mp3lame_encoder::Builder::new().map(|builder| LameBuilder { builder, rate: None, channels: None, kbps320: false })
}

/// Relies on mp3lame_encoder::Builder::set_sample_rate.
#[verifier::external_body]
fn set_sample_rate(b: &mut LameBuilder, rate: u32) -> (r: Result<(), mp3lame_encoder::BuildError>)
    ensures
        r is Ok ==> final(b).rate() == Some(rate),
        r is Err ==> final(b).rate() == old(b).rate(),
        final(b).channels() == old(b).channels(),
        final(b).kbps320() == old(b).kbps320(),
{
    b.builder.set_sample_rate(rate).map(|()| b.rate = Some(rate))
}

/// Relies on mp3lame_encoder::Builder::set_num_channels.
#[verifier::external_body]
fn set_num_channels(b: &mut LameBuilder, num: u8) -> (r: Result<(), mp3lame_encoder::BuildError>)
    ensures
        r is Ok ==> final(b).channels() == Some(num),
        r is Err ==> final(b).channels() == old(b).channels(),
        final(b).rate() == old(b).rate(),
        final(b).kbps320() == old(b).kbps320(),
{
    b.builder.set_num_channels(num).map(|()| b.channels = Some(num))
}

/// Relies on mp3lame_encoder::Builder::set_brate, with `Bitrate::Kbps320`.
#[verifier::external_body]
fn set_brate_320(b: &mut LameBuilder) -> (r: Result<(), mp3lame_encoder::BuildError>)
    ensures
        r is Ok ==> final(b).kbps320(),
        r is Err ==> final(b).kbps320() == old(b).kbps320(),
        final(b).rate() == old(b).rate(),
        final(b).channels() == old(b).channels(),
{
    b.builder.set_brate(mp3lame_encoder::Bitrate::Kbps320).map(|()| b.kbps320 = true)
}

/// Relies on mp3lame_encoder::Builder::build: an encoder with the builder's
/// settings, that has encoded nothing yet, unless LAME refuses them.
#[verifier::external_body]
fn build(b: LameBuilder) -> (r: Result<LameSession, mp3lame_encoder::BuildError>)
    requires
        b.rate() is Some,
        b.channels() is Some,
        b.kbps320(),
    ensures
        r matches Ok(s) ==> s.rate() == b.rate()->0 && s.channels() == b.channels()->0 && s.fed() is None,
{
    let (rate, channels) = (b.rate.unwrap_or(0), b.channels.unwrap_or(0));
    b.builder.build().map(|encoder| LameSession { encoder, rate, channels, fed: None })
}

/// The output room that mp3lame_encoder's documentation asks for when
/// encoding `n` samples: `n`, a quarter of `n` rounded up, and 7200 bytes.
pub open spec fn lame_buffer_size(n: nat) -> nat {
    n + (n + 3) / 4 + 7200
}

/// The output room for encoding `n` samples, if it fits a `usize`.
pub fn max_required_buffer_size(n: usize) -> (r: Option<usize>)
    ensures
        r matches Some(c) ==> c == lame_buffer_size(n as nat),
        r is None ==> lame_buffer_size(n as nat) > usize::MAX,
{
    let quarter = n / 4 + if n % 4 > 0 {
        1usize
    } else {
        0usize
    };
    assert(quarter == (n + 3) / 4);
    if n > usize::MAX - quarter || n + quarter > usize::MAX - 7200 {
        None
    } else {
        Some(n + quarter + 7200)
    }
}

/// The output room that mp3lame_encoder's documentation asks for a flush.
pub const LAME_FLUSH_BYTES: usize = 7200;

/// Relies on mp3lame_encoder::Encoder::encode_to_vec with interleaved
/// samples, into a buffer with the room its documentation asks for: on
/// success the bytes LAME wrote for them.
#[verifier::external_body]
fn encode_frames(s: &mut LameSession, samples: Vec<i32>, capacity: usize) -> (r: Option<Vec<u8>>)
    requires
        old(s).fed() is None,
        samples@.len() % 2 == 0,
        capacity == lame_buffer_size(samples@.len()),
    ensures
        r matches Some(b) ==> b@ == lame_frames(samples@, old(s).rate(), old(s).channels()),
        r is Some ==> final(s).fed() == Some(samples@),
        r is None ==> final(s).fed() == old(s).fed(),
        final(s).rate() == old(s).rate(),
        final(s).channels() == old(s).channels(),
{
    let mut out = Vec::with_capacity(capacity);
    let r = s.encoder.encode_to_vec(mp3lame_encoder::InterleavedPcm(samples.as_slice()), &mut out);
    r.ok().map(|_| {
        s.fed = Some(samples);
        out
    })
}

/// Relies on mp3lame_encoder::Encoder::flush_to_vec with `FlushNoGap`, into
/// a buffer with the room its documentation asks for: on success the last
/// bytes of the stream.
#[verifier::external_body]
fn flush_frames(s: &mut LameSession, capacity: usize) -> (r: Option<Vec<u8>>)
    requires
        old(s).fed() is Some,
        capacity == LAME_FLUSH_BYTES,
    ensures
        r matches Some(b) ==> b@ == lame_tail(old(s).fed()->0, old(s).rate(), old(s).channels()),
{
    let mut out = Vec::with_capacity(capacity);
    s.encoder.flush_to_vec::<mp3lame_encoder::FlushNoGap>(&mut out).ok().map(|_| out)
}

/// What encoding samples as MP3 gives: `InvalidInput` for an odd sample
/// count or more than 255 channels; on success LAME's frames then its tail.
pub open spec fn mp3_outcome(samples: Seq<i32>, rate: u32, channels: u32, r: Result<Seq<u8>, super::EncodeError>) -> bool {
    if samples.len() % 2 == 1 || channels > 255 {
        r == Err::<Seq<u8>, super::EncodeError>(super::EncodeError::InvalidInput)
    } else {
        match r {
            Ok(b) => b == lame_frames(samples, rate, channels as u8) + lame_tail(samples, rate, channels as u8),
            Err(e) => e == super::EncodeError::Config || e == super::EncodeError::Codec,
        }
    }
}

/// The MP3 stream made of LAME's encoded frames and its flushed tail: both
/// present gives their concatenation, a missing one gives `Codec`.
pub fn mp3_stream_from(frames: Option<Vec<u8>>, tail: Option<Vec<u8>>) -> (r: Result<
    EncodedStream,
    super::EncodeError,
>)
    ensures
        (frames, tail) matches (Some(f), Some(t)) ==> super::stream_view(r) == Ok::<
            Seq<u8>,
            super::EncodeError,
        >(f@ + t@),
        (frames is None || tail is None) ==> r == Err::<EncodedStream, super::EncodeError>(
            super::EncodeError::Codec,
        ),
{
    match (frames, tail) {
        (Some(mut f), Some(mut t)) => {
            f.append(&mut t);
            Ok(EncodedStream::new(f))
        },
        _ => Err(super::EncodeError::Codec),
    }
}

/// Encodes samples as 320 kbit/s MP3.
pub struct Mp3Encoder;

impl Mp3Encoder {
    /// A LAME encoder for the sample rate and channel count, at 320 kbit/s.
    fn build_encoder(sample_rate: u32, channels: u8) -> (r: Result<LameSession, super::EncodeError>)
        ensures
            r matches Ok(s) ==> s.rate() == sample_rate && s.channels() == channels && s.fed() is None,
            r matches Err(e) ==> e == super::EncodeError::Config,
    {
        let mut builder = match new_builder() {
            Some(b) => b,
            None => return Err(super::EncodeError::Config),
        };
        if set_sample_rate(&mut builder, sample_rate).is_err() {
            return Err(super::EncodeError::Config);
        }
        if set_num_channels(&mut builder, channels).is_err() {
            return Err(super::EncodeError::Config);
        }
        if set_brate_320(&mut builder).is_err() {
            return Err(super::EncodeError::Config);
        }
        match build(builder) {
            Ok(s) => Ok(s),
            Err(_) => Err(super::EncodeError::Config),
        }
    }

    /// Encodes the samples, which LAME reads as interleaved stereo: an odd
    /// count of samples, or more than 255 channels, is refused.
    pub fn encode_samples(&self, samples: Samples) -> (r: Result<EncodedStream, super::EncodeError>)
        ensures
            mp3_outcome(samples.samples@, samples.sample_rate, samples.channels, super::stream_view(r)),
    {
        if samples.samples.len() % 2 == 1 || samples.channels > 255 {
            return Err(super::EncodeError::InvalidInput);
        }
        let mut session = match Self::build_encoder(samples.sample_rate, samples.channels as u8) {
            Ok(s) => s,
            Err(e) => return Err(e),
        };
        let capacity = match max_required_buffer_size(samples.samples.len()) {
            Some(c) => c,
            None => return Err(super::EncodeError::Codec),
        };
        let frames = encode_frames(&mut session, samples.samples, capacity);
        let tail = if frames.is_some() {
            flush_frames(&mut session, LAME_FLUSH_BYTES)
        } else {
            None
        };
        mp3_stream_from(frames, tail)
    }
}

} // verus!
