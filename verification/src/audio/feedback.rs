//! Feedback tones: the envelope that keeps them free of clicks, and how their
//! samples are handed to the output.

use vstd::prelude::*;

verus! {

/// Sample rate for generated tones.
pub const TONE_SAMPLE_RATE: u32 = 44_100;

/// How long playback is waited for, in milliseconds.
pub const PLAYBACK_TIMEOUT_MS: u128 = 2000;

/// The weight of sample `i` of `n` as a fraction: it rises over the first
/// `fade` samples, falls over the last, and is one between them.
pub open spec fn weight(i: int, n: int, fade: int) -> (int, int) {
    if i < fade {
        (i, fade)
    } else if i > n - fade {
        (n - i, fade)
    } else {
        (1, 1)
    }
}

/// The weight of sample `i` of `n`, as its numerator and denominator.
pub fn envelope(i: usize, n: usize, fade: usize) -> (r: (usize, usize))
    requires
        i < n,
        fade <= n,
    ensures
        (r.0 as int, r.1 as int) == weight(i as int, n as int, fade as int),
{
    if i < fade {
        (i, fade)
    } else if i > n - fade {
        (n - i, fade)
    } else {
        (1, 1)
    }
}

/// The weight of every sample is between zero and one, and a faded tone starts
/// from silence.
pub proof fn envelope_is_a_weight(i: int, n: int, fade: int)
    requires
        0 <= i < n,
        0 <= fade <= n,
    ensures
        ({
            let w = weight(i, n, fade);
            &&& 0 <= w.0 <= w.1
            &&& w.1 > 0
            &&& i == 0 && fade > 0 ==> w.0 == 0
        }),
{
}

/// A tone that is being played. Its samples are kept as the bits of singles.
#[derive(Debug, Clone)]
pub struct Playback {
    pub samples: Vec<u32>,
    /// The next sample to hand out.
    pub position: usize,
    /// Whether the output has asked for more than there is.
    pub finished: bool,
}

impl Playback {
    /// A tone from its start.
    pub fn new(samples: Vec<u32>) -> (r: Self)
        ensures
            r == (Playback { samples, position: 0, finished: false }),
    {
        Playback { samples, position: 0, finished: false }
    }

    /// Whether the position is a place in the tone, or its end.
    pub open spec fn well_formed(self) -> bool {
        self.position <= self.samples@.len()
    }

    /// The next `count` samples for the output; past the end of the tone there
    /// is silence, and the tone is finished once that was asked for.
    pub fn fill(&mut self, count: usize) -> (r: Vec<u32>)
        requires
            old(self).well_formed(),
        ensures
            r@ == Seq::new(
                count as nat,
                |i: int|
                    if old(self).position + i < old(self).samples@.len() {
                        old(self).samples@[old(self).position + i]
                    } else {
                        0u32
                    },
            ),
            final(self).samples == old(self).samples,
            final(self).well_formed(),
            final(self).position == (if old(self).position + count
                <= old(self).samples@.len() {
                old(self).position + count
            } else {
                old(self).samples@.len() as int
            }),
            final(self).finished == (old(self).finished || old(self).position + count
                > old(self).samples@.len()),
    {
        let mut r: Vec<u32> = Vec::new();
        let mut k: usize = 0;
        let ghost start = self.position;
        let ghost was_finished = self.finished;
        while k < count
            invariant
                k <= count,
                self.samples == old(self).samples,
                start == old(self).position <= old(self).samples@.len(),
                was_finished == old(self).finished,
                self.position == (if start + k <= self.samples@.len() {
                    start + k
                } else {
                    self.samples@.len() as int
                }),
                self.finished == (was_finished || start + k > self.samples@.len()),
                r@ == Seq::new(
                    k as nat,
                    |i: int|
                        if start + i < old(self).samples@.len() {
                            old(self).samples@[start + i]
                        } else {
                            0u32
                        },
                ),
            decreases count - k,
        {
            let ghost before = r@;
            if self.position < self.samples.len() {
                r.push(self.samples[self.position]);
                self.position = self.position + 1;
            } else {
                r.push(0);
                self.finished = true;
            }
            k += 1;
            assert(r@ =~= Seq::new(
                k as nat,
                |i: int|
                    if start + i < old(self).samples@.len() {
                        old(self).samples@[start + i]
                    } else {
                        0u32
                    },
            ));
        }
        r
    }
}

/// Whether playback is waited for no longer: it is finished, or the time is
/// up.
pub fn playback_over(finished: bool, elapsed_ms: u128) -> (r: bool)
    ensures
        r == (finished || elapsed_ms > PLAYBACK_TIMEOUT_MS),
{
    finished || elapsed_ms > PLAYBACK_TIMEOUT_MS
}

/// A tone fades in as it fades out: sample `i` weighs as much as the sample
/// as far from the end, and between the fades every sample counts in full.
pub proof fn fades_mirror_each_other(i: int, n: int, fade: int)
    requires
        0 < i < n,
        0 < fade,
        2 * fade <= n,
    ensures
        ({
            let a = weight(i, n, fade);
            let b = weight(n - i, n, fade);
            &&& a.0 * b.1 == b.0 * a.1
            &&& fade <= i <= n - fade ==> a.0 == a.1
            &&& i < fade ==> a.0 * fade == i * a.1
        }),
{
}

/// A tone rises in equal steps to full strength, keeps it, and falls in the
/// same steps.
pub proof fn tone_rises_keeps_and_falls(i: int, n: int, fade: int)
    requires
        0 <= i < n,
        0 < fade,
        2 * fade <= n,
    ensures
        ({
            let w = weight(i, n, fade);
            &&& i < fade ==> w.0 * fade == i * w.1
            &&& fade <= i <= n - fade ==> w.0 == w.1
            &&& i > n - fade ==> w.0 * fade == (n - i) * w.1
        }),
{
}

} // verus!
