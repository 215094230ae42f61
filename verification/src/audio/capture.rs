//! Audio capture: the format that is asked for, and the collected samples.

use vstd::prelude::*;

verus! {

/// Desired sample rate for speech recognition.
pub const SAMPLE_RATE: u32 = 16_000;

/// Number of channels (mono).
pub const CHANNELS: u16 = 1;

/// The sample formats that matter here.
#[derive(Debug, Clone, Copy, PartialEq, Eq, Structural)]
pub enum SampleKind {
    I16,
    F32,
    Other,
}

/// A range of formats that a device supports.
#[derive(Debug, Clone, Copy, PartialEq, Eq, Structural)]
pub struct FormatRange {
    pub channels: u16,
    pub min_sample_rate: u32,
    pub max_sample_rate: u32,
    pub format: SampleKind,
}

/// Whether a range holds the format of the capture.
pub open spec fn fits_capture(r: FormatRange) -> bool {
    &&& r.channels == CHANNELS
    &&& r.min_sample_rate <= SAMPLE_RATE <= r.max_sample_rate
    &&& r.format == SampleKind::I16
}

/// Whether a device supports the format of the capture itself; where it does
/// not, the samples have to be converted.
pub fn supports_capture(ranges: &[FormatRange]) -> (r: bool)
    ensures
        r == exists|i: int| 0 <= i < ranges@.len() && fits_capture(#[trigger] ranges@[i]),
{
    let mut i: usize = 0;
    while i < ranges.len()
        invariant
            i <= ranges@.len(),
            forall|j: int| 0 <= j < i ==> !fits_capture(#[trigger] ranges@[j]),
        decreases ranges@.len() - i,
    {
        let range = ranges[i];
        if range.channels == CHANNELS && range.min_sample_rate <= SAMPLE_RATE
            && range.max_sample_rate >= SAMPLE_RATE && range.format == SampleKind::I16 {
            assert(fits_capture(ranges@[i as int]));
            return true;
        }
        i += 1;
    }
    false
}

/// The samples of the first `n` chunks, in order.
pub open spec fn joined(chunks: Seq<Vec<i16>>, n: nat) -> Seq<i16>
    decreases n,
{
    if n == 0 {
        seq![]
    } else {
        joined(chunks, (n - 1) as nat) + chunks[n - 1]@
    }
}

/// All samples that were captured, from the chunks in which they came.
pub fn collect_samples(chunks: &[Vec<i16>]) -> (r: Vec<i16>)
    ensures
        r@ == joined(chunks@, chunks@.len()),
{
    let mut r: Vec<i16> = Vec::new();
    let mut i: usize = 0;
    while i < chunks.len()
        invariant
            i <= chunks@.len(),
            r@ == joined(chunks@, i as nat),
        decreases chunks@.len() - i,
    {
        let ghost before = r@;
        let mut k: usize = 0;
        assert(before + chunks@[i as int]@.take(0) =~= before);
        while k < chunks[i].len()
            invariant
                i < chunks@.len(),
                k <= chunks@[i as int]@.len(),
                r@ == before + chunks@[i as int]@.take(k as int),
            decreases chunks@[i as int]@.len() - k,
        {
            r.push(chunks[i][k]);
            k += 1;
            assert(r@ =~= before + chunks@[i as int]@.take(k as int));
        }
        assert(chunks@[i as int]@.take(chunks@[i as int]@.len() as int) =~= chunks@[i as int]@);
        i += 1;
    }
    r
}

/// No sample is lost or moved: the samples of the chunks follow each other.
/// What is collected is as long as all chunks together, and each chunk stands
/// in it behind those before it.
pub proof fn chunks_stand_in_order(chunks: Seq<Vec<i16>>, k: int, n: nat)
    requires
        0 <= k < n <= chunks.len(),
    ensures
        joined(chunks, k as nat).len() + chunks[k]@.len() <= joined(chunks, n).len(),
        joined(chunks, n).subrange(
            joined(chunks, k as nat).len() as int,
            (joined(chunks, k as nat).len() + chunks[k]@.len()) as int,
        ) == chunks[k]@,
        joined(chunks, (k + 1) as nat).len() == joined(chunks, k as nat).len() + chunks[k]@.len(),
        joined(chunks, 0).len() == 0,
    decreases n,
{
    let at = joined(chunks, k as nat).len() as int;
    if k < n - 1 {
        chunks_stand_in_order(chunks, k, (n - 1) as nat);
        let before = joined(chunks, (n - 1) as nat);
        assert(joined(chunks, n).subrange(at, at + chunks[k]@.len()) =~= before.subrange(
            at,
            at + chunks[k]@.len(),
        ));
    } else {
        assert(joined(chunks, n).subrange(at, at + chunks[k]@.len()) =~= chunks[k]@);
    }
}

/// Audio is captured in mono, at 16 kHz, in samples of 16 bits: a range of
/// formats will do exactly where it has that one.
pub proof fn one_format_is_captured(r: FormatRange)
    ensures
        fits_capture(r) <==> r.channels == 1 && r.min_sample_rate <= 16000 && 16000
            <= r.max_sample_rate && r.format == SampleKind::I16,
{
}

} // verus!
