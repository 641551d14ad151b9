//! The container that a recording is handed over in: RIFF/WAVE, one channel,
//! 32-bit IEEE-754 samples, uncompressed. Writing it is left to `hound`.

use crate::audio::AudioError;
use vstd::prelude::*;

verus! {

/// The number of channels of a recording.
pub const CHANNELS: u16 = 1;

/// The number of bits of a sample.
pub const BITS_PER_SAMPLE: u16 = 32;

/// The length of what precedes the samples in a container.
pub const HEADER_LEN: usize = 68;

/// The most frames that a container holds: with more, its 32-bit length
/// fields overflow.
pub const MAX_FRAMES: usize = 1_073_741_808;

/// The highest sample rate that a container states: above it, its 32-bit
/// count of bytes per second overflows.
pub const MAX_SAMPLE_RATE: u32 = 1_073_741_823;

/// The number that the four bytes from `at` on spell, least significant byte
/// first.
pub open spec fn le_u32(bytes: Seq<u8>, at: int) -> int {
    bytes[at] + 256 * bytes[at + 1] + 65536 * bytes[at + 2] + 16777216 * bytes[at + 3]
}

/// The number of frames that a container of this length holds.
pub open spec fn frame_count(bytes: Seq<u8>) -> int {
    (bytes.len() - HEADER_LEN) / 4
}

/// Whether `bytes` are laid out as a container of `samples` at `sample_rate`:
/// the header, with the rate in its place, then each sample's four bytes in
/// order.
pub open spec fn is_container_of(bytes: Seq<u8>, sample_rate: u32, samples: Seq<u32>) -> bool {
    &&& bytes.len() == HEADER_LEN + 4 * samples.len()
    &&& le_u32(bytes, 24) == sample_rate
    &&& forall|i: int|
        0 <= i < samples.len() ==> le_u32(bytes, HEADER_LEN + 4 * i) == #[trigger] samples[i]
}

/// `hound::SampleFormat`, with its two variants `Float` and `Int`.
#[verifier::external_type_specification]
pub struct ExSampleFormat(hound::SampleFormat);

/// What `hound` writes for these settings and samples, each sample given as
/// its bit pattern: the bytes of the container, or `None` where it reports an
/// error.
pub uninterp spec fn wav_container(
    channels: u16,
    sample_rate: u32,
    bits_per_sample: u16,
    float: bool,
    samples: Seq<u32>,
) -> Option<Seq<u8>>;

/// Whether a recording can be written at all: the rate is not zero, and rate
/// and length fit the container's 32-bit fields.
pub open spec fn is_encodable(samples: Seq<u32>, sample_rate: u32) -> bool {
    0 < sample_rate <= MAX_SAMPLE_RATE && samples.len() <= MAX_FRAMES
}

/// Runs `hound::WavWriter` over a buffer in memory: `new`, `write_sample` for
/// each sample, `finalize`. A sample is handed over as the 32-bit integer with
/// its bits, which the writer stores as the same four bytes, least significant
/// first. Trusted: the bytes depend on the arguments alone; a 68-byte header
/// precedes the samples and states the rate at offset 24. The `requires` keeps
/// out what makes the writer divide by zero or overflow.
#[verifier::external_body]
fn write_container(
    channels: u16,
    sample_rate: u32,
    bits_per_sample: u16,
    sample_format: hound::SampleFormat,
    samples: &Vec<u32>,
) -> (r: Option<Vec<u8>>)
    requires
        channels == 1,
        bits_per_sample == 32,
        is_encodable(samples@, sample_rate),
    ensures
        match r {
            Some(bytes) => wav_container(
                channels,
                sample_rate,
                bits_per_sample,
                sample_format is Float,
                samples@,
            ) == Some(bytes@) && is_container_of(bytes@, sample_rate, samples@),
            None => wav_container(
                channels,
                sample_rate,
                bits_per_sample,
                sample_format is Float,
                samples@,
            ) is None,
        },
{
    let spec = hound::WavSpec { channels, sample_rate, bits_per_sample, sample_format };
    let mut cursor = std::io::Cursor::new(Vec::new());
    let mut writer = hound::WavWriter::new(&mut cursor, spec).ok()?;
    for bits in samples {
        writer.write_sample(*bits as i32).ok()?;
    }
    writer.finalize().ok()?;
    Some(cursor.into_inner())
}

/// What the writer's outcome is reported as.
pub fn container_result(written: Option<Vec<u8>>) -> (r: Result<Vec<u8>, AudioError>)
    ensures
        r == match written {
            Some(bytes) => Ok::<Vec<u8>, AudioError>(bytes),
            None => Err::<Vec<u8>, AudioError>(AudioError::EncodingError),
        },
{
    match written {
        Some(bytes) => Ok(bytes),
        None => Err(AudioError::EncodingError),
    }
}

/// Whether `r` is the encoding of `samples` at `sample_rate`: the container
/// that the writer gives, laid out with the samples in input order; or
/// `EncodingError`, where the recording cannot be written or the writer fails.
pub open spec fn is_encoding(
    samples: Seq<u32>,
    sample_rate: u32,
    r: Result<Vec<u8>, AudioError>,
) -> bool {
    let written = wav_container(CHANNELS, sample_rate, BITS_PER_SAMPLE, true, samples);
    match r {
        Ok(bytes) => is_encodable(samples, sample_rate) && written == Some(bytes@)
            && is_container_of(bytes@, sample_rate, samples),
        Err(e) => e == AudioError::EncodingError && (!is_encodable(samples, sample_rate)
            || written is None),
    }
}

/// Encodes `samples`, each the bit pattern of a 32-bit IEEE-754 number, as a
/// container of one channel at `sample_rate`.
pub fn encode_wav(samples: &Vec<u32>, sample_rate: u32) -> (r: Result<Vec<u8>, AudioError>)
    ensures
        is_encoding(samples@, sample_rate, r),
{
    if sample_rate == 0 || sample_rate > MAX_SAMPLE_RATE || samples.len() > MAX_FRAMES {
        return Err(AudioError::EncodingError);
    }
    container_result(
        write_container(
            CHANNELS,
            sample_rate,
            BITS_PER_SAMPLE,
            hound::SampleFormat::Float,
            samples,
        ),
    )
}

/// A container gives back what was encoded: as many frames as there were
/// samples, each with the bits of its sample, at the rate that was given.
pub proof fn lemma_container_holds_samples(bytes: Seq<u8>, sample_rate: u32, samples: Seq<u32>)
    requires
        is_container_of(bytes, sample_rate, samples),
    ensures
        frame_count(bytes) == samples.len(),
        samples.len() == 0 ==> bytes.len() == HEADER_LEN,
        forall|other: Seq<u32>| #[trigger]
            is_container_of(bytes, sample_rate, other) ==> other == samples,
{
    assert forall|other: Seq<u32>| #[trigger]
        is_container_of(bytes, sample_rate, other) implies other == samples by {
        assert(other.len() == samples.len());
        assert forall|i: int| 0 <= i < samples.len() implies other[i] == samples[i] by {
            assert(le_u32(bytes, HEADER_LEN + 4 * i) == other[i]);
            assert(le_u32(bytes, HEADER_LEN + 4 * i) == samples[i]);
        }
        assert(other =~= samples);
    }
}

} // verus!
