//! Packing of a recording into a WAV container, done by `hound`.

use vstd::prelude::*;

verus! {

#[verifier::external_type_specification]
#[verifier::external_body]
pub struct ExWavError(hound::Error);

/// The greatest sample rate whose byte rate still fits the container's
/// 32-bit field for 16-bit mono audio.
pub const MAX_SAMPLE_RATE: u32 = 2_147_483_647;

/// The greatest number of 16-bit samples whose container still has a 32-bit
/// size.
pub const MAX_SAMPLES: usize = 2_147_483_629;

/// The WAV file that `hound` writes for integer PCM audio of the given
/// layout; `None` where the writer reports an error.
pub uninterp spec fn wav_file(
    channels: u16,
    sample_rate: u32,
    bits_per_sample: u16,
    samples: Seq<i16>,
) -> Option<Seq<u8>>;

/// Whether `hound` can be asked for a 16-bit file of this layout and length:
/// the rate is not zero, and the byte rate and the file size fit in the 32
/// bits the header gives them.
pub open spec fn wav_in_range(channels: u16, sample_rate: u32, samples: nat) -> bool {
    &&& 1 <= channels <= 2
    &&& sample_rate > 0
    &&& sample_rate * 2 * channels <= u32::MAX
    &&& 2 * samples + 36 <= u32::MAX
}

/// Writes `samples` through a `hound::WavWriter` into memory and hands out
/// the bytes: `WavWriter::new`, then `write_sample` for each sample in order,
/// then `finalize`. The writer borrows its buffer until it is finalized, so
/// the three calls stand together.
///
/// Trusted: the bytes are a function of the layout and the samples alone,
/// which [`wav_file`] names. Nothing is claimed about what the file looks
/// like, nor that writing succeeds. The precondition leaves out the inputs on
/// which the writer divides by a zero rate or overflows its 32-bit counters.
#[verifier::external_body]
pub(crate) fn write_wav(
    channels: u16,
    sample_rate: u32,
    bits_per_sample: u16,
    samples: &[i16],
) -> (r: Result<Vec<u8>, hound::Error>)
    requires
        bits_per_sample == 16,
        wav_in_range(channels, sample_rate, samples@.len()),
    ensures
        match r {
            Ok(bytes) => wav_file(channels, sample_rate, bits_per_sample, samples@) == Some(
                bytes@,
            ),
            Err(_) => wav_file(channels, sample_rate, bits_per_sample, samples@) is None,
        },
{
    let sample_format = hound::SampleFormat::Int;
    let spec = hound::WavSpec { channels, sample_rate, bits_per_sample, sample_format };
    let mut cursor = std::io::Cursor::new(Vec::new());
    let mut writer = hound::WavWriter::new(&mut cursor, spec)?;
    for sample in samples {
        writer.write_sample(*sample)?;
    }
    writer.finalize()?;
    Ok(cursor.into_inner())
}

/// Why a recording could not be packed.
#[derive(Debug, Clone, Copy, PartialEq, Eq, Structural)]
pub enum WavError {
    /// The sample rate is zero or above [`MAX_SAMPLE_RATE`].
    UnsupportedRate,
    /// The recording has more than [`MAX_SAMPLES`] samples.
    TooLong,
    /// The writer reported an error.
    Encoder,
}

/// Packs a mono recording of 16-bit samples into a WAV file.
///
/// A rate of zero or above [`MAX_SAMPLE_RATE`] is `UnsupportedRate`;
/// otherwise more than [`MAX_SAMPLES`] samples are `TooLong`; otherwise the
/// result is what the writer gives.
pub fn samples_to_wav(samples: &[i16], sample_rate: u32) -> (r: Result<Vec<u8>, WavError>)
    ensures
        match r {
            Ok(bytes) => wav_in_range(1, sample_rate, samples@.len()) && wav_file(
                1,
                sample_rate,
                16,
                samples@,
            ) == Some(bytes@),
            Err(WavError::UnsupportedRate) => sample_rate == 0 || sample_rate > MAX_SAMPLE_RATE,
            Err(WavError::TooLong) => 0 < sample_rate <= MAX_SAMPLE_RATE && samples@.len()
                > MAX_SAMPLES,
            Err(WavError::Encoder) => wav_in_range(1, sample_rate, samples@.len()) && wav_file(
                1,
                sample_rate,
                16,
                samples@,
            ) is None,
        },
{
    if sample_rate == 0 || sample_rate > MAX_SAMPLE_RATE {
        return Err(WavError::UnsupportedRate);
    }
    if samples.len() > MAX_SAMPLES {
        return Err(WavError::TooLong);
    }
    match write_wav(1, sample_rate, 16, samples) {
        Ok(bytes) => Ok(bytes),
        Err(_) => Err(WavError::Encoder),
    }
}

} // verus!
