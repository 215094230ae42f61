//! Silence detection: when the user has stopped speaking.

use crate::ieee::{is_less, less};
use vstd::prelude::*;

verus! {

/// Tracks consecutive silent samples and signals when silence has exceeded a
/// configured timeout, enabling auto-stop of recording.
#[derive(Debug, Clone, Copy, PartialEq, Eq, Structural)]
pub struct AutoStopDetector {
    /// Silence threshold, as the bits of a double.
    pub threshold_bits: u64,
    /// Number of consecutive silent samples accumulated.
    pub silent_samples: u64,
    /// Number of consecutive silent samples required to trigger auto-stop.
    pub timeout_samples: u64,
    /// Whether any speech has been detected yet (avoid auto-stop before the
    /// user starts speaking).
    pub speech_detected: bool,
}

impl AutoStopDetector {
    /// Create a new auto-stop detector.
    ///
    /// - `threshold_bits`: energy below which a chunk is silent, as the bits of
    ///   a double.
    /// - `timeout_ms`: duration of continuous silence (in milliseconds) to
    ///   trigger the stop.
    /// - `sample_rate`: audio sample rate.
    pub fn new(threshold_bits: u64, timeout_ms: u64, sample_rate: u32) -> (r: Self)
        requires
            timeout_ms * sample_rate <= u64::MAX,
        ensures
            r == (AutoStopDetector {
                threshold_bits,
                silent_samples: 0,
                timeout_samples: (timeout_ms * sample_rate / 1000) as u64,
                speech_detected: false,
            }),
    {
        let timeout_samples: u64 = timeout_ms * (sample_rate as u64) / 1000;
        AutoStopDetector {
            threshold_bits,
            silent_samples: 0,
            timeout_samples,
            speech_detected: false,
        }
    }

    /// The detector after a chunk of `samples` samples with an energy.
    pub open spec fn after(self, energy_bits: u64, samples: int) -> AutoStopDetector {
        if less(energy_bits, self.threshold_bits) {
            AutoStopDetector { silent_samples: (self.silent_samples + samples) as u64, ..self }
        } else {
            AutoStopDetector { silent_samples: 0, speech_detected: true, ..self }
        }
    }

    /// Whether the recording is to be stopped: there was speech, and after it
    /// silence for as long as the timeout.
    pub open spec fn stops(self) -> bool {
        self.speech_detected && self.silent_samples >= self.timeout_samples
    }

    /// Feed a chunk of audio, by its energy (as the bits of a double) and its
    /// number of samples, and return `true` if auto-stop should be triggered.
    pub fn feed(&mut self, energy_bits: u64, samples: usize) -> (r: bool)
        requires
            old(self).silent_samples + samples <= u64::MAX,
        ensures
            *final(self) == old(self).after(energy_bits, samples as int),
            r == final(self).stops(),
    {
        if is_less(energy_bits, self.threshold_bits) {
            self.silent_samples = self.silent_samples + samples as u64;
        } else {
            self.silent_samples = 0;
            self.speech_detected = true;
        }
        self.speech_detected && self.silent_samples >= self.timeout_samples
    }

    /// Reset the detector state.
    pub fn reset(&mut self)
        ensures
            *final(self) == (AutoStopDetector {
                silent_samples: 0,
                speech_detected: false,
                ..*old(self)
            }),
    {
        self.silent_samples = 0;
        self.speech_detected = false;
    }

    /// Whether any speech has been detected since creation or last reset.
    pub fn has_speech(&self) -> (r: bool)
        ensures
            r == self.speech_detected,
    {
        self.speech_detected
    }
}

/// A chunk of audio: the bits of its energy, and its number of samples.
pub struct Chunk {
    pub energy_bits: u64,
    pub samples: int,
}

/// The detector after the first `n` chunks.
pub open spec fn after_chunks(d: AutoStopDetector, chunks: Seq<Chunk>, n: nat) -> AutoStopDetector
    decreases n,
{
    if n == 0 {
        d
    } else {
        after_chunks(d, chunks, (n - 1) as nat).after(
            chunks[n - 1].energy_bits,
            chunks[n - 1].samples,
        )
    }
}

/// The recording is never stopped before the user has spoken: however long the
/// silence, as long as every chunk since the start was silent.
pub proof fn no_stop_before_speech(d: AutoStopDetector, chunks: Seq<Chunk>, n: nat)
    requires
        !d.speech_detected,
        n <= chunks.len(),
        forall|i: int|
            0 <= i < n ==> less((#[trigger] chunks[i]).energy_bits, d.threshold_bits),
    ensures
        !after_chunks(d, chunks, n).stops(),
        !after_chunks(d, chunks, n).speech_detected,
        after_chunks(d, chunks, n).threshold_bits == d.threshold_bits,
    decreases n,
{
    if n > 0 {
        no_stop_before_speech(d, chunks, (n - 1) as nat);
        assert(less(chunks[n - 1].energy_bits, d.threshold_bits));
    }
}

/// The samples of the first `n` chunks.
pub open spec fn samples_in(chunks: Seq<Chunk>, n: nat) -> int
    decreases n,
{
    if n == 0 {
        0
    } else {
        samples_in(chunks, (n - 1) as nat) + chunks[n - 1].samples
    }
}

/// Silence after speech stops the recording exactly when it has lasted as long
/// as the timeout, however it is cut into chunks.
pub proof fn silence_after_speech_stops(d: AutoStopDetector, chunks: Seq<Chunk>, n: nat)
    requires
        d.speech_detected,
        n <= chunks.len(),
        forall|i: int|
            0 <= i < n ==> less((#[trigger] chunks[i]).energy_bits, d.threshold_bits)
                && chunks[i].samples >= 0,
        d.silent_samples + samples_in(chunks, n) <= u64::MAX,
    ensures
        after_chunks(d, chunks, n) == (AutoStopDetector {
            silent_samples: (d.silent_samples + samples_in(chunks, n)) as u64,
            ..d
        }),
        after_chunks(d, chunks, n).stops() == (d.silent_samples + samples_in(chunks, n)
            >= d.timeout_samples),
        samples_in(chunks, n) >= 0,
    decreases n,
{
    if n > 0 {
        assert(chunks[n - 1].samples >= 0);
        silence_after_speech_stops(d, chunks, (n - 1) as nat);
        assert(less(chunks[n - 1].energy_bits, d.threshold_bits));
    }
}

/// Speech starts the timeout over: after a chunk that is not silent the
/// recording goes on, unless the timeout is zero.
pub proof fn speech_restarts_the_timeout(d: AutoStopDetector, energy_bits: u64, samples: int)
    requires
        !less(energy_bits, d.threshold_bits),
    ensures
        d.after(energy_bits, samples).silent_samples == 0,
        d.after(energy_bits, samples).stops() == (d.timeout_samples == 0),
{
}

/// A chunk that is not silent counts as speech, whatever was before it, and
/// the count of silence starts over. The threshold and the timeout stay.
pub proof fn loud_chunk_is_speech(d: AutoStopDetector, energy_bits: u64, samples: int)
    requires
        !less(energy_bits, d.threshold_bits),
    ensures
        d.after(energy_bits, samples).speech_detected,
        d.after(energy_bits, samples).silent_samples == 0,
        d.after(energy_bits, samples).threshold_bits == d.threshold_bits,
        d.after(energy_bits, samples).timeout_samples == d.timeout_samples,
{
}

/// A silent chunk adds its samples to the silence, and nothing else changes.
pub proof fn silent_chunk_adds_silence(d: AutoStopDetector, energy_bits: u64, samples: int)
    requires
        less(energy_bits, d.threshold_bits),
        samples >= 0,
        d.silent_samples + samples <= u64::MAX,
    ensures
        d.after(energy_bits, samples).silent_samples == d.silent_samples + samples,
        d.after(energy_bits, samples).speech_detected == d.speech_detected,
        d.after(energy_bits, samples).threshold_bits == d.threshold_bits,
        d.after(energy_bits, samples).timeout_samples == d.timeout_samples,
{
}

proof fn limits_stay(d: AutoStopDetector, chunks: Seq<Chunk>, n: nat)
    requires
        n <= chunks.len(),
    ensures
        after_chunks(d, chunks, n).threshold_bits == d.threshold_bits,
        after_chunks(d, chunks, n).timeout_samples == d.timeout_samples,
    decreases n,
{
    if n > 0 {
        limits_stay(d, chunks, (n - 1) as nat);
    }
}

proof fn chunks_go_on(d: AutoStopDetector, chunks: Seq<Chunk>, k: nat, n: nat)
    requires
        k <= n <= chunks.len(),
    ensures
        after_chunks(d, chunks, n) == after_chunks(
            after_chunks(d, chunks, k),
            chunks.skip(k as int),
            (n - k) as nat,
        ),
    decreases n - k,
{
    if k < n {
        chunks_go_on(d, chunks, k, (n - 1) as nat);
        assert(chunks.skip(k as int)[n - k - 1] == chunks[n - 1]);
    }
}

/// Whatever came before: once some chunk was not silent, the recording is to
/// be stopped exactly where the silence since the last such chunk, the one at
/// `last`, has lasted as long as the timeout.
pub proof fn stops_after_the_last_speech(
    d: AutoStopDetector,
    chunks: Seq<Chunk>,
    last: int,
    n: nat,
)
    requires
        0 <= last < n <= chunks.len(),
        !less(chunks[last].energy_bits, d.threshold_bits),
        forall|i: int|
            last < i < n ==> less((#[trigger] chunks[i]).energy_bits, d.threshold_bits)
                && chunks[i].samples >= 0,
        samples_in(chunks.skip(last + 1), (n - last - 1) as nat) <= u64::MAX,
    ensures
        after_chunks(d, chunks, n).stops() == (samples_in(
            chunks.skip(last + 1),
            (n - last - 1) as nat,
        ) >= d.timeout_samples),
        after_chunks(d, chunks, n).speech_detected,
{
    let before = after_chunks(d, chunks, last as nat);
    limits_stay(d, chunks, last as nat);
    loud_chunk_is_speech(before, chunks[last].energy_bits, chunks[last].samples);
    let then = after_chunks(d, chunks, (last + 1) as nat);
    assert(then == before.after(chunks[last].energy_bits, chunks[last].samples));
    chunks_go_on(d, chunks, (last + 1) as nat, n);
    let rest = chunks.skip(last + 1);
    let m = (n - last - 1) as nat;
    assert forall|i: int| 0 <= i < m implies less((#[trigger] rest[i]).energy_bits, then.threshold_bits)
        && rest[i].samples >= 0 by {
        assert(rest[i] == chunks[last + 1 + i]);
    }
    silence_after_speech_stops(then, rest, m);
}

} // verus!
