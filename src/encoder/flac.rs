use vstd::prelude::*;

use flacenc::config::Encoder as FlacConfig;

use crate::encoder::{EncodedStream, Samples};
use crate::stream::session::pow2;

verus! {

/// The bytes of the FLAC stream that flacenc's default configuration, run on
/// one thread, makes of interleaved samples, or `None` where flacenc refuses
/// them.
pub uninterp spec fn flac_bytes(samples: Seq<i32>, channels: usize, bits: usize, rate: usize) -> Option<Seq<u8>>;

/// The four bytes "fLaC" that open every FLAC stream.
pub open spec fn flac_marker() -> Seq<u8> {
    seq![0x66u8, 0x4cu8, 0x61u8, 0x43u8]
}

/// Whether a sample fits in a signed integer of `bits` bits.
pub open spec fn fits_bits(x: i32, bits: nat) -> bool {
    bits >= 1 && -(pow2((bits - 1) as nat) as int) <= x && x < pow2((bits - 1) as nat)
}

/// Interleaved samples in a layout that FLAC can hold: one to eight
/// channels, 8 to 24 bits, whole frames, every sample within its depth.
pub open spec fn flac_input_ok(samples: Seq<i32>, channels: nat, bits: nat) -> bool {
    &&& 1 <= channels <= 8
    &&& 8 <= bits <= 24
    &&& samples.len() % channels == 0
    &&& forall|i: int| 0 <= i < samples.len() ==> fits_bits(#[trigger] samples[i], bits)
}

/// Relies on flacenc: `Encoder::default` with `multithread` off, checked by
/// `Verify::into_verified`; `encode_with_fixed_block_size` over a
/// `MemSource` of the samples; `BitRepr::write` into a `ByteSink`, whose
/// first bytes are "fLaC". On one thread the encoder neither reads the
/// environment nor asks the machine for its parallelism, so its outcome
/// depends on the arguments alone.
#[verifier::external_body]
fn flac_encode(samples: &Vec<i32>, channels: usize, bits: usize, rate: usize) -> (r: Option<Vec<u8>>)
    requires
        flac_input_ok(samples@, channels as nat, bits as nat),
    ensures
        r matches Some(b) ==> flac_bytes(samples@, channels, bits, rate) == Some(b@),
        r is None <==> flac_bytes(samples@, channels, bits, rate) is None,
        r matches Some(b) ==> b@.len() >= 4 && b@.take(4) == flac_marker(),
{
    let mut config = FlacConfig::default();
    config.multithread = false;
    let config = flacenc::error::Verify::into_verified(config).ok()?;
    let source = flacenc::source::MemSource::from_samples(samples, channels, bits, rate);
    let stream = flacenc::encode_with_fixed_block_size(&config, source, config.block_size).ok()?;
    let mut sink = flacenc::bitsink::ByteSink::new();
    flacenc::component::BitRepr::write(&stream, &mut sink).ok()?;
    Some(sink.into_inner())
}

/// Whether every sample fits in a signed integer of `bits` bits.
pub fn samples_fit(samples: &Vec<i32>, bits: u32) -> (r: bool)
    requires
        1 <= bits <= 24,
    ensures
        r == forall|i: int| 0 <= i < samples@.len() ==> fits_bits(#[trigger] samples@[i], bits as nat),
{
    let mut bound: i64 = 1;
    let mut k: u32 = 1;
    while k < bits
        invariant
            1 <= k <= bits <= 24,
            bound == pow2((k - 1) as nat),
            bound <= 0x80_0000,
        decreases bits - k,
    {
        proof {
            assert(pow2(k as nat) == 2 * pow2((k - 1) as nat));
            lemma_pow2_bound(k as nat);
        }
        bound = bound * 2;
        k = k + 1;
    }
    let n = samples.len();
    for i in 0..n
        invariant
            n == samples@.len(),
            k == bits,
            1 <= bits <= 24,
            bound == pow2((bits - 1) as nat),
            forall|j: int| 0 <= j < i ==> fits_bits(#[trigger] samples@[j], bits as nat),
    {
        let x = samples[i] as i64;
        if x < -bound || x >= bound {
            proof {
                assert(!fits_bits(samples@[i as int], bits as nat));
            }
            return false;
        }
        assert(fits_bits(samples@[i as int], bits as nat));
    }
    true
}

proof fn lemma_pow2_mono(k: nat, j: nat)
    requires
        k <= j,
    ensures
        pow2(k) <= pow2(j),
    decreases j,
{
    if k < j {
        lemma_pow2_mono(k, (j - 1) as nat);
    }
}

proof fn lemma_pow2_bound(k: nat)
    requires
        k <= 23,
    ensures
        pow2(k) <= 0x80_0000,
{
    lemma_pow2_mono(k, 23);
    assert(pow2(23) == 0x80_0000) by {
        reveal_with_fuel(pow2, 24);
    }
}

/// Whether samples are in a layout that FLAC can hold.
pub fn flac_layout_ok(samples: &Samples) -> (r: bool)
    ensures
        r == flac_input_ok(samples.samples@, samples.channels as nat, samples.bits_per_sample as nat),
{
    if samples.channels < 1 || samples.channels > 8 || samples.bits_per_sample < 8 || samples.bits_per_sample > 24 {
        return false;
    }
    if samples.samples.len() % (samples.channels as usize) != 0 {
        return false;
    }
    samples_fit(&samples.samples, samples.bits_per_sample)
}

/// What encoding samples as FLAC gives: `InvalidInput` for a layout FLAC
/// cannot hold, else flacenc's stream, or `Codec` where flacenc refuses.
pub open spec fn flac_outcome(
    samples: Seq<i32>,
    rate: u32,
    channels: u32,
    bits: u32,
    r: Result<Seq<u8>, super::EncodeError>,
) -> bool {
    if !flac_input_ok(samples, channels as nat, bits as nat) {
        r == Err::<Seq<u8>, super::EncodeError>(super::EncodeError::InvalidInput)
    } else {
        match flac_bytes(samples, channels as usize, bits as usize, rate as usize) {
            Some(b) => r == Ok::<Seq<u8>, super::EncodeError>(b),
            None => r == Err::<Seq<u8>, super::EncodeError>(super::EncodeError::Codec),
        }
    }
}

/// Encodes samples as FLAC.
#[derive(Debug)]
pub struct FlacEncoder;

impl FlacEncoder {
    /// Encodes the samples with flacenc's default configuration.
    pub fn encode_samples(&self, samples: Samples) -> (r: Result<EncodedStream, super::EncodeError>)
        ensures
            flac_outcome(
                samples.samples@,
                samples.sample_rate,
                samples.channels,
                samples.bits_per_sample,
                super::stream_view(r),
            ),
            r matches Ok(s) ==> s.stream@.len() >= 4 && s.stream@.take(4) == flac_marker(),
    {
        if !flac_layout_ok(&samples) {
            return Err(super::EncodeError::InvalidInput);
        }
        match flac_encode(
            &samples.samples,
            samples.channels as usize,
            samples.bits_per_sample as usize,
            samples.sample_rate as usize,
        ) {
            Some(bytes) => Ok(EncodedStream::new(bytes)),
            None => Err(super::EncodeError::Codec),
        }
    }
}

} // verus!
