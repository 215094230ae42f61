//! WAV encoding for raw PCM samples.

use crate::audio::capture::{CHANNELS, SAMPLE_RATE};
use crate::config::types::WhisrsError;
use vstd::prelude::*;

verus! {

/// The number of bytes before the samples.
pub const HEADER_LEN: usize = 44;

/// The most samples that a file can hold: its length is kept in 32 bits.
pub const MAX_SAMPLES: usize = 0x7fff_ffed;

/// A 16-bit number, its low byte first.
pub open spec fn le16(n: int) -> Seq<u8> {
    seq![(n % 256) as u8, (n / 256 % 256) as u8]
}

/// A 32-bit number, its low byte first.
pub open spec fn le32(n: int) -> Seq<u8> {
    seq![
        (n % 256) as u8,
        (n / 256 % 256) as u8,
        (n / 65536 % 256) as u8,
        (n / 16777216 % 256) as u8,
    ]
}

/// A sample as an unsigned number of 16 bits.
pub open spec fn unsigned16(sample: i16) -> int {
    if sample < 0 {
        sample + 65536
    } else {
        sample as int
    }
}

/// The header of a file with `n` samples of 16-bit PCM, counted over all
/// channels.
pub open spec fn wav_header(n: int, channels: int, sample_rate: int) -> Seq<u8> {
    seq![0x52u8, 0x49, 0x46, 0x46] + le32(36 + 2 * n) + seq![0x57u8, 0x41, 0x56, 0x45] + seq![
        0x66u8,
        0x6d,
        0x74,
        0x20,
    ] + le32(16) + le16(1) + le16(channels) + le32(sample_rate) + le32(2 * sample_rate * channels)
        + le16(2 * channels) + le16(16) + seq![0x64u8, 0x61, 0x74, 0x61] + le32(2 * n)
}

/// The first `n` samples, two bytes each.
pub open spec fn wav_data(samples: Seq<i16>, n: nat) -> Seq<u8>
    decreases n,
{
    if n == 0 {
        seq![]
    } else {
        wav_data(samples, (n - 1) as nat) + le16(unsigned16(samples[n - 1]))
    }
}

/// The file of 16-bit PCM that holds the samples.
pub open spec fn pcm_file(samples: Seq<i16>, channels: int, sample_rate: int) -> Seq<u8> {
    wav_header(samples.len() as int, channels, sample_rate) + wav_data(samples, samples.len())
}

/// The file that holds the samples as they are captured: mono, 16 kHz.
pub open spec fn wav_file(samples: Seq<i16>) -> Seq<u8> {
    pcm_file(samples, CHANNELS as int, SAMPLE_RATE as int)
}

/// Why `hound` could not write a file.
#[verifier::external_type_specification]
#[verifier::external_body]
pub struct ExHoundError(hound::Error);

/// Write samples of 16-bit PCM into memory with `hound::WavWriter`: its `new`,
/// its `write_sample` for each sample in turn, and its `finalize`.
///
/// Claimed of it: the file is written, and has the bytes of [`pcm_file`].
/// `hound` fails only where writing to the buffer does, which a buffer in
/// memory never does, for a width of samples that it does not support, and for
/// a last frame that lacks a channel. It counts in 32 bits, with no test for
/// overflow.
#[verifier::external_body]
fn write_pcm(samples: &[i16], channels: u16, sample_rate: u32) -> (r: Result<
    Vec<u8>,
    hound::Error,
>)
    requires
        1 <= channels <= 2,
        0 < sample_rate,
        2 * sample_rate * channels <= u32::MAX,
        samples@.len() <= MAX_SAMPLES,
        samples@.len() % (channels as nat) == 0,
    ensures
        r is Ok,
        r->Ok_0@ == pcm_file(samples@, channels as int, sample_rate as int),
{
    let bits_per_sample = i16::BITS as u16;
    let sample_format = hound::SampleFormat::Int;
    let spec = hound::WavSpec { channels, sample_rate, bits_per_sample, sample_format };
    let mut buffer = std::io::Cursor::new(Vec::new());
    let mut writer = hound::WavWriter::new(&mut buffer, spec)?;
    for &sample in samples {
        writer.write_sample(sample)?;
    }
    writer.finalize()?;
    Ok(buffer.into_inner())
}

/// Encode raw PCM samples (16kHz, mono, i16) to a WAV byte buffer.
pub fn encode_wav(samples: &[i16]) -> (r: Result<Vec<u8>, WhisrsError>)
    requires
        samples@.len() <= MAX_SAMPLES,
    ensures
        r matches Ok(v) && v@ == wav_file(samples@),
{
    match write_pcm(samples, CHANNELS, SAMPLE_RATE) {
        Ok(v) => Ok(v),
        Err(_) => Err(WhisrsError::Audio("failed to encode WAV".to_owned())),
    }
}

/// The sample that two bytes stand for, the low one first.
pub open spec fn sample_of(lo: u8, hi: u8) -> int {
    let n = 256 * hi + lo;
    if n >= 32768 {
        n - 65536
    } else {
        n
    }
}

proof fn sample_survives(s: i16)
    ensures
        sample_of(le16(unsigned16(s))[0], le16(unsigned16(s))[1]) == s,
{
    let n = unsigned16(s);
    assert(n == 256 * (n / 256) + n % 256);
    assert(n / 256 % 256 == n / 256);
}

proof fn data_reads_back(samples: Seq<i16>, n: nat)
    requires
        n <= samples.len(),
    ensures
        wav_data(samples, n).len() == 2 * n,
        forall|i: int|
            0 <= i < n ==> sample_of(
                wav_data(samples, n)[2 * i],
                wav_data(samples, n)[2 * i + 1],
            ) == #[trigger] samples[i],
    decreases n,
{
    if n > 0 {
        data_reads_back(samples, (n - 1) as nat);
        let before = wav_data(samples, (n - 1) as nat);
        let now = wav_data(samples, n);
        sample_survives(samples[n - 1]);
        assert forall|i: int| 0 <= i < n implies sample_of(now[2 * i], now[2 * i + 1])
            == #[trigger] samples[i] by {
            if i < n - 1 {
                assert(now[2 * i] == before[2 * i]);
                assert(now[2 * i + 1] == before[2 * i + 1]);
            }
        }
    }
}

/// A file gives back the samples it was made from: it is as long as the header
/// says, and the two bytes at the place of each sample stand for that sample.
pub proof fn wav_reads_back(samples: Seq<i16>)
    ensures
        wav_file(samples).len() == HEADER_LEN + 2 * samples.len(),
        wav_file(samples).subrange(4, 8) == le32(wav_file(samples).len() - 8),
        wav_file(samples).subrange(40, 44) == le32((2 * samples.len()) as int),
        forall|i: int|
            0 <= i < samples.len() ==> sample_of(
                wav_file(samples)[HEADER_LEN + 2 * i],
                wav_file(samples)[HEADER_LEN + 2 * i + 1],
            ) == #[trigger] samples[i],
{
    data_reads_back(samples, samples.len());
    let n = samples.len() as int;
    let head = wav_header(n, CHANNELS as int, SAMPLE_RATE as int);
    let data = wav_data(samples, samples.len());
    let file = wav_file(samples);
    assert(head.len() == 44);
    assert(file.subrange(4, 8) =~= le32(36 + 2 * n));
    assert(file.subrange(40, 44) =~= le32(2 * n));
    assert forall|i: int| 0 <= i < n implies sample_of(
        file[HEADER_LEN + 2 * i],
        file[HEADER_LEN + 2 * i + 1],
    ) == #[trigger] samples[i] by {
        assert(file[44 + 2 * i] == data[2 * i]);
        assert(file[44 + 2 * i + 1] == data[2 * i + 1]);
    }
}

/// The number that four bytes stand for, the low one first.
pub open spec fn number_at(file: Seq<u8>, at: int) -> int {
    file[at] + 256 * file[at + 1] + 65536 * file[at + 2] + 16777216 * file[at + 3]
}

/// The number that two bytes stand for, the low one first.
pub open spec fn short_at(file: Seq<u8>, at: int) -> int {
    file[at] + 256 * file[at + 1]
}

proof fn four_bytes_read_back(n: int)
    requires
        0 <= n <= u32::MAX,
    ensures
        number_at(le32(n), 0) == n,
{
    let a = n % 256;
    let b = n / 256 % 256;
    let c = n / 65536 % 256;
    let d = n / 16777216 % 256;
    assert(n == a + 256 * b + 65536 * c + 16777216 * d);
}

/// The header says what follows: PCM with one channel, 16000 samples a second
/// of 16 bits each, and how many bytes there are.
pub proof fn header_says_what_follows(samples: Seq<i16>)
    requires
        samples.len() <= MAX_SAMPLES,
    ensures
        ({
            let f = wav_file(samples);
            &&& f.subrange(0, 4) == seq![0x52u8, 0x49, 0x46, 0x46]
            &&& number_at(f, 4) == f.len() - 8
            &&& f.subrange(8, 16) == seq![0x57u8, 0x41, 0x56, 0x45, 0x66, 0x6d, 0x74, 0x20]
            &&& number_at(f, 16) == 16
            &&& short_at(f, 20) == 1
            &&& short_at(f, 22) == 1
            &&& number_at(f, 24) == 16000
            &&& number_at(f, 28) == 32000
            &&& short_at(f, 32) == 2
            &&& short_at(f, 34) == 16
            &&& f.subrange(36, 40) == seq![0x64u8, 0x61, 0x74, 0x61]
            &&& number_at(f, 40) == 2 * samples.len()
        }),
{
    wav_reads_back(samples);
    let f = wav_file(samples);
    let n = samples.len() as int;
    let head = wav_header(n, CHANNELS as int, SAMPLE_RATE as int);
    assert(head.len() == 44);
    assert forall|i: int| 0 <= i < 44 implies #[trigger] f[i] == head[i] by {}
    assert(f.subrange(0, 4) =~= seq![0x52u8, 0x49, 0x46, 0x46]);
    assert(f.subrange(8, 16) =~= seq![0x57u8, 0x41, 0x56, 0x45, 0x66, 0x6d, 0x74, 0x20]);
    assert(f.subrange(36, 40) =~= seq![0x64u8, 0x61, 0x74, 0x61]);
    four_bytes_read_back(36 + 2 * n);
    four_bytes_read_back(2 * n);
    assert(f.subrange(4, 8) =~= le32(36 + 2 * n));
    assert(f.subrange(40, 44) =~= le32(2 * n));
    assert forall|at: int| 0 <= at && at + 4 <= f.len() implies #[trigger] number_at(f, at)
        == number_at(f.subrange(at, at + 4), 0) by {
        let t = f.subrange(at, at + 4);
        assert(t[0] == f[at] && t[1] == f[at + 1] && t[2] == f[at + 2] && t[3] == f[at + 3]);
    }
    four_bytes_read_back(16);
    four_bytes_read_back(16000);
    four_bytes_read_back(32000);
    assert(f.subrange(16, 20) =~= le32(16));
    assert(f.subrange(24, 28) =~= le32(16000));
    assert(f.subrange(28, 32) =~= le32(32000));
}

} // verus!
