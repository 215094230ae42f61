//! Deduplication by per-word timestamps.
//!
//! Times are doubles, carried as their bits and only ever compared. The sums
//! and differences of times are formed by whoever hands the words in.

use crate::ieee::{at_least, is_at_least};
use vstd::prelude::*;

verus! {

/// A word of a chunk with its times on the common time axis, in seconds.
#[derive(Debug)]
pub struct Word {
    pub text: String,
    /// The word's start: its start in the chunk plus the chunk's offset.
    pub start_bits: u64,
    /// Where new words may start once this one has been accepted: its end in
    /// the chunk plus the chunk's offset, minus the overlap tolerance.
    pub resume_bits: u64,
}

/// Tracks transcription progress across multiple chunks using per-word
/// timestamps. Words that start in the range that has already been
/// transcribed are dropped.
#[derive(Debug, Clone, Copy)]
pub struct TimestampDedup {
    /// Where new words may start: the end of the last accepted word minus the
    /// overlap tolerance.
    pub resume_bits: u64,
}

/// Which of the first `n` words are accepted, in order, and where new words
/// may start after them.
pub open spec fn accepted(words: Seq<Word>, resume: u64, n: nat) -> (Seq<int>, u64)
    decreases n,
{
    if n == 0 {
        (seq![], resume)
    } else {
        let before = accepted(words, resume, (n - 1) as nat);
        let w = words[n - 1];
        if at_least(w.start_bits, before.1) {
            (before.0.push(n - 1), w.resume_bits)
        } else {
            before
        }
    }
}

impl TimestampDedup {
    /// A tracker that accepts words from the given time on.
    pub fn starting_at(resume_bits: u64) -> (r: Self)
        ensures
            r.resume_bits == resume_bits,
    {
        TimestampDedup { resume_bits }
    }

    /// Filter words from a new chunk: the indices of those that are not
    /// duplicates, in order.
    pub fn filter_words(&mut self, words: &[Word]) -> (r: Vec<usize>)
        ensures
            r@.len() == accepted(words@, old(self).resume_bits, words@.len()).0.len(),
            forall|i: int|
                0 <= i < r@.len() ==> #[trigger] r@[i] == accepted(
                    words@,
                    old(self).resume_bits,
                    words@.len(),
                ).0[i],
            final(self).resume_bits == accepted(words@, old(self).resume_bits, words@.len()).1,
    {
        let mut out: Vec<usize> = Vec::new();
        let mut i: usize = 0;
        while i < words.len()
            invariant
                i <= words@.len(),
                out@.len() == accepted(words@, old(self).resume_bits, i as nat).0.len(),
                forall|k: int|
                    0 <= k < out@.len() ==> #[trigger] out@[k] == accepted(
                        words@,
                        old(self).resume_bits,
                        i as nat,
                    ).0[k],
                self.resume_bits == accepted(words@, old(self).resume_bits, i as nat).1,
            decreases words@.len() - i,
        {
            if is_at_least(words[i].start_bits, self.resume_bits) {
                out.push(i);
                self.resume_bits = words[i].resume_bits;
            }
            i += 1;
        }
        out
    }
}

/// The accepted words are a subsequence of the words: their indices increase.
pub proof fn accepted_in_order(words: Seq<Word>, resume: u64, n: nat, i: int, j: int)
    requires
        n <= words.len(),
        0 <= i < j < accepted(words, resume, n).0.len(),
    ensures
        accepted(words, resume, n).0[i] < accepted(words, resume, n).0[j] < n,
    decreases n,
{
    if n > 0 {
        let before = accepted(words, resume, (n - 1) as nat);
        if j < before.0.len() {
            accepted_in_order(words, resume, (n - 1) as nat, i, j);
        } else {
            accepted_below(words, resume, (n - 1) as nat, i);
        }
    }
}

proof fn accepted_below(words: Seq<Word>, resume: u64, n: nat, i: int)
    requires
        0 <= i < accepted(words, resume, n).0.len(),
    ensures
        0 <= accepted(words, resume, n).0[i] < n,
    decreases n,
{
    if n > 0 {
        let before = accepted(words, resume, (n - 1) as nat);
        if i < before.0.len() {
            accepted_below(words, resume, (n - 1) as nat, i);
        }
    }
}

/// A word that starts in the range that was already transcribed when its
/// turn came is dropped, and a dropped word leaves the boundary where it was.
pub proof fn overlapping_word_is_dropped(words: Seq<Word>, resume: u64, n: nat)
    requires
        n < words.len(),
        !at_least(words[n as int].start_bits, accepted(words, resume, n).1),
    ensures
        accepted(words, resume, n + 1) == accepted(words, resume, n),
{
}

/// Where new words may start after the first `k` of the accepted ones: where
/// the last of them left off, or where the chunk began.
pub open spec fn boundary_after(words: Seq<Word>, resume: u64, taken: Seq<int>, k: int) -> u64 {
    if k == 0 {
        resume
    } else {
        words[taken[k - 1]].resume_bits
    }
}

/// Every accepted word starts no earlier than the word accepted before it left
/// off, and after the chunk the last accepted word is the boundary.
pub proof fn accepted_words_follow_each_other(words: Seq<Word>, resume: u64, n: nat)
    requires
        n <= words.len(),
    ensures
        ({
            let taken = accepted(words, resume, n).0;
            &&& forall|k: int|
                0 <= k < taken.len() ==> 0 <= #[trigger] taken[k] < n && at_least(
                    words[taken[k]].start_bits,
                    boundary_after(words, resume, taken, k),
                )
            &&& accepted(words, resume, n).1 == boundary_after(
                words,
                resume,
                taken,
                taken.len() as int,
            )
        }),
    decreases n,
{
    if n > 0 {
        accepted_words_follow_each_other(words, resume, (n - 1) as nat);
        let before = accepted(words, resume, (n - 1) as nat).0;
        let taken = accepted(words, resume, n).0;
        assert forall|k: int| 0 <= k < taken.len() implies 0 <= #[trigger] taken[k] < n && at_least(
            words[taken[k]].start_bits,
            boundary_after(words, resume, taken, k),
        ) by {
            if k < before.len() {
                assert(taken[k] == before[k]);
                if k > 0 {
                    assert(taken[k - 1] == before[k - 1]);
                }
            } else if k > 0 {
                assert(taken[k - 1] == before[k - 1]);
            }
        }
    }
}

/// No word is dropped that starts after what was transcribed: a word that is
/// not among the accepted ones starts before the last accepted word before it
/// left off.
pub proof fn only_overlapping_words_are_dropped(words: Seq<Word>, resume: u64, n: nat, i: int)
    requires
        0 <= i < n <= words.len(),
        !accepted(words, resume, n).0.contains(i),
    ensures
        ({
            let taken = accepted(words, resume, n).0;
            exists|k: int|
                0 <= k <= taken.len() && (k > 0 ==> taken[k - 1] < i) && (k < taken.len() ==> i
                    < taken[k]) && !at_least(
                    words[i].start_bits,
                    #[trigger] boundary_after(words, resume, taken, k),
                )
        }),
    decreases n,
{
    let before = accepted(words, resume, (n - 1) as nat).0;
    let taken = accepted(words, resume, n).0;
    accepted_words_follow_each_other(words, resume, (n - 1) as nat);
    if i < n - 1 {
        if before.contains(i) {
            let q = choose|q: int| 0 <= q < before.len() && before[q] == i;
            assert(taken[q] == i);
        }
        only_overlapping_words_are_dropped(words, resume, (n - 1) as nat, i);
        let k = choose|k: int|
            0 <= k <= before.len() && (k > 0 ==> before[k - 1] < i) && (k < before.len() ==> i
                < before[k]) && !at_least(
                words[i].start_bits,
                #[trigger] boundary_after(words, resume, before, k),
            );
        assert(k > 0 ==> taken[k - 1] == before[k - 1]);
        assert(k < before.len() ==> taken[k] == before[k]);
        assert(boundary_after(words, resume, taken, k) == boundary_after(words, resume, before, k));
    } else {
        if at_least(words[i].start_bits, accepted(words, resume, (n - 1) as nat).1) {
            assert(taken[before.len() as int] == i);
        }
        let k = before.len() as int;
        assert(k > 0 ==> before[k - 1] < n - 1);
        assert(!at_least(words[i].start_bits, boundary_after(words, resume, taken, k)));
    }
}

/// Two chunks after each other are filtered as one would be.
pub proof fn chunks_are_filtered_as_one(a: Seq<Word>, b: Seq<Word>, resume: u64, n: nat)
    requires
        n <= b.len(),
    ensures
        ({
            let first = accepted(a, resume, a.len());
            let second = accepted(b, first.1, n);
            let whole = accepted(a + b, resume, a.len() + n);
            &&& whole.1 == second.1
            &&& whole.0 == first.0 + Seq::new(second.0.len(), |i: int| second.0[i] + a.len())
        }),
    decreases n,
{
    let first = accepted(a, resume, a.len());
    if n > 0 {
        chunks_are_filtered_as_one(a, b, resume, (n - 1) as nat);
        let second = accepted(b, first.1, n);
        let whole = accepted(a + b, resume, a.len() + n);
        assert((a + b)[a.len() + n - 1] == b[n - 1]);
        assert(whole.0 =~= first.0 + Seq::new(second.0.len(), |i: int| second.0[i] + a.len()));
    } else {
        same_words_same_result(a, a + b, resume, a.len());
        let second = accepted(b, first.1, 0);
        assert(first.0 =~= first.0 + Seq::new(second.0.len(), |i: int| second.0[i] + a.len()));
    }
}

proof fn same_words_same_result(a: Seq<Word>, b: Seq<Word>, resume: u64, n: nat)
    requires
        n <= a.len() <= b.len(),
        forall|i: int| 0 <= i < n ==> a[i] == b[i],
    ensures
        accepted(a, resume, n) == accepted(b, resume, n),
    decreases n,
{
    if n > 0 {
        same_words_same_result(a, b, resume, (n - 1) as nat);
    }
}

} // verus!
