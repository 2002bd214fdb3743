use vstd::prelude::*;

use crate::assemble::has_plain_header;

verus! {

#[verifier::external_type_specification]
#[verifier::external_body]
pub struct ExFlacError(claxon::Error);

#[verifier::external_type_specification]
#[verifier::external_body]
pub struct ExWavError(hound::Error);

/// Channel count, sample rate and bits per sample that claxon reads from the
/// STREAMINFO block of FLAC data; `None` when claxon refuses the data.
pub uninterp spec fn flac_stream_info(data: Seq<u8>) -> Option<(u32, u32, u32)>;

/// The interleaved samples that claxon decodes from FLAC data; `None` when
/// claxon refuses the data.
pub uninterp spec fn flac_samples(data: Seq<u8>) -> Option<Seq<i32>>;

/// The WAV file that hound writes for integer samples in the given format;
/// `None` when hound refuses them.
pub uninterp spec fn wav_file(
    channels: u16,
    sample_rate: u32,
    bits_per_sample: u16,
    samples: Seq<i32>,
) -> Option<Seq<u8>>;

/// Relies on claxon's `FlacReader::new` and `FlacReader::streaminfo`: the
/// numbers of the STREAMINFO block, which a FLAC stream starts with.
#[verifier::external_body]
fn read_flac_info(data: &[u8]) -> (r: Result<(u32, u32, u32), claxon::Error>)
    ensures
        r is Ok <==> flac_stream_info(data@) is Some,
        r matches Ok(info) ==> flac_stream_info(data@) == Some(info),
{
    let reader = claxon::FlacReader::new(std::io::Cursor::new(data))?;
    let info = reader.streaminfo();
    Ok((info.channels, info.sample_rate, info.bits_per_sample))
}

/// Relies on claxon's `FlacReader::new` and `FlacReader::samples`: every sample
/// of the stream, channels interleaved.
#[verifier::external_body]
fn read_flac_samples(data: &[u8]) -> (r: Result<Vec<i32>, claxon::Error>)
    ensures
        r is Ok <==> flac_samples(data@) is Some,
        r matches Ok(samples) ==> flac_samples(data@) == Some(samples@),
{
    let mut reader = claxon::FlacReader::new(std::io::Cursor::new(data))?;
    reader.samples().collect()
}

/// Relies on hound's `WavWriter::new`, `WavWriter::write_sample` and
/// `WavWriter::finalize`, writing into memory: a WAV file of the samples. The
/// bounds keep hound clear of its divisions by the sample rate and the bytes
/// per sample, and keep its header arithmetic within its integer types. For at
/// most two channels and at most 16 bits hound writes the plain PCM header
/// (`write_headers` with `write_pcmwaveformat`), of which `finalize` rewrites
/// only the two length fields.
#[verifier::external_body]
fn write_wav(channels: u16, sample_rate: u32, bits_per_sample: u16, samples: &[i32]) -> (r: Result<
    Vec<u8>,
    hound::Error,
>)
    requires
        1 <= channels,
        1 <= sample_rate,
        sample_rate * 4 * channels <= u32::MAX,
        1 <= bits_per_sample <= 32,
        samples@.len() * 4 + 60 <= u32::MAX,
    ensures
        r is Ok <==> wav_file(channels, sample_rate, bits_per_sample, samples@) is Some,
        r matches Ok(bytes) ==> wav_file(channels, sample_rate, bits_per_sample, samples@) == Some(
            bytes@,
        ),
        r matches Ok(bytes) ==> (channels <= 2 && bits_per_sample <= 16 ==> has_plain_header(
            bytes@,
        )),
{
    let spec = hound::WavSpec { channels, sample_rate, bits_per_sample, sample_format: hound::SampleFormat::Int };
    let mut bytes = Vec::new();
    let mut writer = hound::WavWriter::new(std::io::Cursor::new(&mut bytes), spec)?;
    for s in samples {
        writer.write_sample(*s)?;
    }
    writer.finalize()?;
    Ok(bytes)
}

/// Why FLAC data could not be turned into WAV.
#[derive(Clone, Copy, Debug, PartialEq, Eq, Structural)]
pub enum TranscodeError {
    /// The FLAC decoder refused the data.
    Flac,
    /// The stream's format or length is beyond what a WAV file can declare.
    Unsupported,
    /// The WAV encoder refused the samples.
    Wav,
}

/// Whether a stream with this format and number of samples fits a WAV file:
/// at least one channel, a sample rate above zero, 1 to 32 bits per sample, and
/// a byte rate and a length that the header can declare.
pub open spec fn wav_can_hold(channels: u32, sample_rate: u32, bits_per_sample: u32, n_samples: nat) -> bool {
    &&& 1 <= channels <= u16::MAX
    &&& 1 <= sample_rate
    &&& sample_rate * 4 * channels <= u32::MAX
    &&& 1 <= bits_per_sample <= 32
    &&& n_samples * 4 + 60 <= u32::MAX
}

/// Whether a stream with this format and number of samples fits a WAV file.
pub fn fits_wav(channels: u32, sample_rate: u32, bits_per_sample: u32, n_samples: usize) -> (r: bool)
    ensures
        r == wav_can_hold(channels, sample_rate, bits_per_sample, n_samples as nat),
{
    if channels < 1 || channels > 65535 || sample_rate < 1 || bits_per_sample < 1
        || bits_per_sample > 32 {
        return false;
    }
    assert(sample_rate as u64 * 4 * channels as u64 <= u32::MAX as u64 * 4 * 65535) by (
    nonlinear_arith)
        requires
            channels <= 65535,
    ;
    let rate_bytes: u64 = sample_rate as u64 * 4 * channels as u64;
    rate_bytes <= u32::MAX as u64 && n_samples <= (u32::MAX as usize - 60) / 4
}

/// The WAV file for the FLAC stream `data`, when each step accepts it.
pub open spec fn wav_of_flac(data: Seq<u8>) -> Option<Seq<u8>> {
    match (flac_stream_info(data), flac_samples(data)) {
        (Some((channels, sample_rate, bits)), Some(samples)) => if wav_can_hold(
            channels,
            sample_rate,
            bits,
            samples.len(),
        ) {
            wav_file(channels as u16, sample_rate, bits as u16, samples)
        } else {
            None
        },
        _ => None,
    }
}

/// Whether claxon decodes the FLAC stream `data` and the result fits a WAV file
/// with the plain header.
pub open spec fn flac_fits_wav(data: Seq<u8>) -> bool {
    match (flac_stream_info(data), flac_samples(data)) {
        (Some((channels, sample_rate, bits)), Some(samples)) => wav_can_hold(
            channels,
            sample_rate,
            bits,
            samples.len(),
        ),
        _ => false,
    }
}

/// Decodes the FLAC stream `data` into a WAV file with the same format and
/// samples. A mono or stereo stream of at most 16 bits gets the plain 44-byte
/// header that the stream assembler takes.
pub fn decode_flac(data: &[u8]) -> (r: Result<Vec<u8>, TranscodeError>)
    ensures
        r is Ok <==> wav_of_flac(data@) is Some,
        r matches Ok(bytes) ==> wav_of_flac(data@) == Some(bytes@),
        r matches Ok(bytes) ==> (flac_stream_info(data@) matches Some((channels, _, bits)) ==> (
        channels <= 2 && bits <= 16 ==> has_plain_header(bytes@))),
        r == Err::<Vec<u8>, TranscodeError>(TranscodeError::Flac) <==> (flac_stream_info(data@) is None
            || flac_samples(data@) is None),
        r == Err::<Vec<u8>, TranscodeError>(TranscodeError::Unsupported) <==> (flac_stream_info(
            data@,
        ) is Some && flac_samples(data@) is Some && !flac_fits_wav(data@)),
        r == Err::<Vec<u8>, TranscodeError>(TranscodeError::Wav) <==> (flac_fits_wav(data@)
            && wav_of_flac(data@) is None),
{
    let (channels, sample_rate, bits) = match read_flac_info(data) {
        Ok(info) => info,
        Err(_) => {
            return Err(TranscodeError::Flac);
        },
    };
    let samples = match read_flac_samples(data) {
        Ok(s) => s,
        Err(_) => {
            return Err(TranscodeError::Flac);
        },
    };
    if !fits_wav(channels, sample_rate, bits, samples.len()) {
        return Err(TranscodeError::Unsupported);
    }
    match write_wav(channels as u16, sample_rate, bits as u16, samples.as_slice()) {
        Ok(bytes) => Ok(bytes),
        Err(_) => Err(TranscodeError::Wav),
    }
}

} // verus!
