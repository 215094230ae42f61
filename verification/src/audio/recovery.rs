//! Audio recovery: save unprocessed audio to disk when transcription fails.

use crate::audio::wav::{encode_wav, wav_file, MAX_SAMPLES};
use crate::config::types::{join_path, path_join, WhisrsError};
use crate::text::{ends_with, opt_text, starts_with, text_ends_with, text_starts_with};
use vstd::prelude::*;

verus! {

/// The directory of recovered audio, below the user's cache directory.
pub open spec fn recovery_place(cache_dir: Option<Seq<char>>) -> Seq<char> {
    let dir = match cache_dir {
        Some(d) => d,
        None => "/tmp"@,
    };
    path_join(path_join(dir, "whisrs"@), "recovery"@)
}

/// Return the recovery directory path.
pub fn recovery_dir(cache_dir: &Option<String>) -> (r: String)
    ensures
        r@ == recovery_place(opt_text(*cache_dir)),
{
    let dir: &str = match cache_dir {
        Some(d) => d.as_str(),
        None => "/tmp",
    };
    let sub = join_path(dir, "whisrs");
    join_path(sub.as_str(), "recovery")
}

/// The name of the file for audio that was recovered at a time.
pub open spec fn recovery_name(timestamp: Seq<char>) -> Seq<char> {
    "recovery_"@ + timestamp + ".wav"@
}

fn recovery_file_name(timestamp: &str) -> (r: String)
    ensures
        r@ == recovery_name(timestamp@),
{
    let mut r = "recovery_".to_owned();
    r.push_str(timestamp);
    r.push_str(".wav");
    r
}

/// A file to be written.
#[derive(Debug)]
pub struct RecoveryFile {
    pub dir: String,
    pub path: String,
    pub contents: Vec<u8>,
}

/// The file that saves raw PCM samples: a WAV file in the recovery directory,
/// named after the time. There is none where there are no samples.
pub fn save_recovery_audio(
    samples: &[i16],
    cache_dir: &Option<String>,
    timestamp: &str,
) -> (r: Result<RecoveryFile, WhisrsError>)
    requires
        samples@.len() <= MAX_SAMPLES,
    ensures
        if samples@.len() == 0 {
            r matches Err(e) && e is Audio && e.text() == "no audio samples to save for recovery"@
        } else {
            &&& r matches Ok(f)
            &&& f.dir@ == recovery_place(opt_text(*cache_dir))
            &&& f.path@ == path_join(
                recovery_place(opt_text(*cache_dir)),
                recovery_name(timestamp@),
            )
            &&& f.contents@ == wav_file(samples@)
        },
{
    if samples.len() == 0 {
        return Err(WhisrsError::Audio("no audio samples to save for recovery".to_owned()));
    }
    let dir = recovery_dir(cache_dir);
    let path = join_path(dir.as_str(), recovery_file_name(timestamp).as_str());
    match encode_wav(samples) {
        Ok(contents) => Ok(RecoveryFile { dir, path, contents }),
        Err(_) => Err(WhisrsError::Audio("failed to encode recovery audio as WAV".to_owned())),
    }
}

/// A file in the recovery directory.
#[derive(Debug, Clone)]
pub struct RecoveryEntry {
    pub name: String,
    /// When it was modified, in nanoseconds since the epoch.
    pub modified: i128,
}

/// Whether a file holds recovered audio, by its name.
pub open spec fn is_recovery(name: Seq<char>) -> bool {
    starts_with(name, "recovery_"@) && ends_with(name, ".wav"@)
}

/// How many of `order`, from `k` on, were modified no later than entry `x`
/// before the first that was modified later.
pub open spec fn older_run(e: Seq<RecoveryEntry>, order: Seq<int>, x: int, k: int) -> int
    decreases order.len() - k,
{
    if 0 <= k < order.len() && e[order[k]].modified <= e[x].modified {
        older_run(e, order, x, k + 1)
    } else {
        k
    }
}

/// The recovered audio among the first `n` entries, oldest first; entries of
/// the same age stay in the order given.
pub open spec fn by_age(e: Seq<RecoveryEntry>, n: nat) -> Seq<int>
    decreases n,
{
    if n == 0 {
        seq![]
    } else {
        let before = by_age(e, (n - 1) as nat);
        if is_recovery(e[n - 1].name@) {
            before.insert(older_run(e, before, n - 1, 0), n - 1)
        } else {
            before
        }
    }
}

/// The entries to remove so that only the most recent `keep` are left.
pub open spec fn outdated(e: Seq<RecoveryEntry>, keep: int) -> Seq<int> {
    let order = by_age(e, e.len());
    if order.len() <= keep {
        seq![]
    } else {
        order.take(order.len() - keep)
    }
}

/// The indices as mathematical integers.
pub open spec fn ints(v: Seq<usize>) -> Seq<int> {
    Seq::new(v.len(), |i: int| v[i] as int)
}

proof fn older_run_bounds(e: Seq<RecoveryEntry>, order: Seq<int>, x: int, k: int)
    requires
        0 <= k <= order.len(),
    ensures
        k <= older_run(e, order, x, k) <= order.len(),
        forall|i: int|
            k <= i < older_run(e, order, x, k) ==> e[#[trigger] order[i]].modified <= e[x].modified,
        older_run(e, order, x, k) < order.len() ==> e[order[older_run(e, order, x, k)]].modified
            > e[x].modified,
    decreases order.len() - k,
{
    if k < order.len() && e[order[k]].modified <= e[x].modified {
        older_run_bounds(e, order, x, k + 1);
    }
}

proof fn by_age_is_sorted(e: Seq<RecoveryEntry>, n: nat)
    requires
        n <= e.len(),
    ensures
        by_age(e, n).len() <= n,
        forall|i: int|
            0 <= i < by_age(e, n).len() ==> 0 <= #[trigger] by_age(e, n)[i] < n && is_recovery(
                e[by_age(e, n)[i]].name@,
            ),
        forall|i: int, j: int|
            0 <= i < j < by_age(e, n).len() ==> e[#[trigger] by_age(e, n)[i]].modified
                <= e[#[trigger] by_age(e, n)[j]].modified,
        by_age(e, n).no_duplicates(),
        forall|x: int|
            0 <= x < n && #[trigger] is_recovery(e[x].name@) ==> by_age(e, n).contains(x),
    decreases n,
{
    if n > 0 {
        by_age_is_sorted(e, (n - 1) as nat);
        let before = by_age(e, (n - 1) as nat);
        let now = by_age(e, n);
        let x = n - 1;
        if is_recovery(e[x].name@) {
            let p = older_run(e, before, x, 0);
            older_run_bounds(e, before, x, 0);
            assert(now == before.insert(p, x));
            assert forall|i: int, j: int| 0 <= i < j < now.len() implies e[#[trigger] now[i]].modified
                <= e[#[trigger] now[j]].modified by {
                let a = if i < p {
                    i
                } else {
                    i - 1
                };
                let b = if j < p {
                    j
                } else {
                    j - 1
                };
                if i == p {
                    assert(now[j] == before[j - 1]);
                    if j - 1 > p {
                        assert(e[before[p]].modified <= e[before[j - 1]].modified);
                    }
                } else if j == p {
                    assert(now[i] == before[i]);
                } else {
                    assert(now[i] == before[a]);
                    assert(now[j] == before[b]);
                }
            }
            assert forall|i: int| 0 <= i < now.len() implies 0 <= #[trigger] now[i] < n
                && is_recovery(e[now[i]].name@) by {
                if i < p {
                    assert(now[i] == before[i]);
                } else if i > p {
                    assert(now[i] == before[i - 1]);
                }
            }
            assert forall|i: int, j: int| 0 <= i < j < now.len() implies now[i] != now[j] by {
                let a = if i < p {
                    i
                } else {
                    i - 1
                };
                let b = if j < p {
                    j
                } else {
                    j - 1
                };
                if i == p {
                    assert(now[j] == before[b] && before[b] < x);
                } else if j == p {
                    assert(now[i] == before[a] && before[a] < x);
                } else {
                    assert(now[i] == before[a] && now[j] == before[b]);
                    assert(before[a] != before[b]);
                }
            }
            assert(now.no_duplicates());
            assert forall|y: int| 0 <= y < n && #[trigger] is_recovery(
                e[y].name@,
            ) implies now.contains(y) by {
                if y == x {
                    assert(now[p] == x);
                } else {
                    assert(before.contains(y));
                    let q = choose|q: int| 0 <= q < before.len() && before[q] == y;
                    if q < p {
                        assert(now[q] == y);
                    } else {
                        assert(now[q + 1] == y);
                    }
                }
            }
        }
    }
}

fn is_recovery_name(name: &str) -> (r: bool)
    ensures
        r == is_recovery(name@),
{
    text_starts_with(name, "recovery_") && text_ends_with(name, ".wav")
}

fn place_by_age(entries: &[RecoveryEntry], order: &[usize], x: usize) -> (k: usize)
    requires
        x < entries@.len(),
        forall|j: int| 0 <= j < order@.len() ==> #[trigger] order@[j] < entries@.len(),
    ensures
        k == older_run(entries@, ints(order@), x as int, 0),
{
    let mut k: usize = 0;
    while k < order.len()
        invariant
            x < entries@.len(),
            k <= order@.len(),
            forall|j: int| 0 <= j < order@.len() ==> #[trigger] order@[j] < entries@.len(),
            older_run(entries@, ints(order@), x as int, 0) == older_run(
                entries@,
                ints(order@),
                x as int,
                k as int,
            ),
        decreases order@.len() - k,
    {
        assert(ints(order@)[k as int] == order@[k as int]);
        if entries[order[k]].modified > entries[x].modified {
            return k;
        }
        k += 1;
    }
    k
}

/// Choose the old recovery files that are removed, so that only the most
/// recent `keep` files are left: their indices, oldest first.
pub fn cleanup_old_recoveries(entries: &[RecoveryEntry], keep: usize) -> (r: Vec<usize>)
    ensures
        ints(r@) == outdated(entries@, keep as int),
{
    let mut order: Vec<usize> = Vec::new();
    let mut i: usize = 0;
    assert(ints(order@) =~= by_age(entries@, 0));
    while i < entries.len()
        invariant
            i <= entries@.len(),
            ints(order@) == by_age(entries@, i as nat),
        decreases entries@.len() - i,
    {
        if is_recovery_name(entries[i].name.as_str()) {
            let ghost before = ints(order@);
            proof {
                by_age_is_sorted(entries@, i as nat);
                assert forall|j: int| 0 <= j < order@.len() implies #[trigger] order@[j]
                    < entries@.len() by {
                    assert(before[j] == order@[j]);
                }
                older_run_bounds(entries@, before, i as int, 0);
            }
            let k: usize = place_by_age(entries, &order, i);
            order.insert(k, i);
            assert(ints(order@) =~= before.insert(k as int, i as int));
        }
        i += 1;
    }
    let total: usize = order.len();
    if total <= keep {
        let r: Vec<usize> = Vec::new();
        assert(ints(r@) =~= seq![]);
        return r;
    }
    order.truncate(total - keep);
    assert(ints(order@) =~= by_age(entries@, entries@.len()).take(total - keep));
    order
}

/// Cleaning up removes only recovered audio, leaves the `keep` most recent
/// files or all there are, and removes no file that is newer than one it
/// leaves.
pub proof fn newest_recoveries_are_kept(e: Seq<RecoveryEntry>, keep: nat)
    ensures
        ({
            let order = by_age(e, e.len());
            let gone = outdated(e, keep as int);
            &&& gone.len() == (if order.len() <= keep {
                0
            } else {
                order.len() - keep
            })
            &&& forall|i: int|
                0 <= i < gone.len() ==> 0 <= #[trigger] gone[i] < e.len() && is_recovery(
                    e[gone[i]].name@,
                )
            &&& forall|i: int, x: int|
                0 <= i < gone.len() && 0 <= x < e.len() && #[trigger] is_recovery(e[x].name@)
                    && !gone.contains(x) ==> e[#[trigger] gone[i]].modified <= e[x].modified
        }),
{
    by_age_is_sorted(e, e.len());
    let order = by_age(e, e.len());
    let gone = outdated(e, keep as int);
    assert forall|i: int| 0 <= i < gone.len() implies 0 <= #[trigger] gone[i] < e.len()
        && is_recovery(e[gone[i]].name@) by {
        assert(gone[i] == order[i]);
    }
    assert forall|i: int, x: int|
        0 <= i < gone.len() && 0 <= x < e.len() && #[trigger] is_recovery(e[x].name@)
            && !gone.contains(x) implies e[#[trigger] gone[i]].modified <= e[x].modified by {
        assert(order.contains(x));
        let q = choose|q: int| 0 <= q < order.len() && order[q] == x;
        if q < gone.len() {
            assert(gone[q] == x);
        }
        assert(gone[i] == order[i]);
        assert(e[order[i]].modified <= e[order[q]].modified);
    }
}

/// Which of the first `n` entries hold recovered audio.
pub open spec fn recoveries(e: Seq<RecoveryEntry>, n: nat) -> Set<int> {
    Set::new(
        |x: int|
            0 <= x < n && starts_with(e[x].name@, "recovery_"@) && ends_with(e[x].name@, ".wav"@),
    )
}

proof fn ages_count(e: Seq<RecoveryEntry>, n: nat)
    requires
        n <= e.len(),
    ensures
        recoveries(e, n).finite(),
        recoveries(e, n).len() == by_age(e, n).len(),
    decreases n,
{
    if n > 0 {
        ages_count(e, (n - 1) as nat);
        older_run_bounds(e, by_age(e, (n - 1) as nat), n - 1, 0);
        let before = recoveries(e, (n - 1) as nat);
        if is_recovery(e[n - 1].name@) {
            assert(recoveries(e, n) =~= before.insert(n - 1));
        } else {
            assert(recoveries(e, n) =~= before);
        }
    } else {
        assert(recoveries(e, 0) =~= Set::<int>::empty());
    }
}

/// Exactly `keep` recovered files are left, or all where there are no more:
/// as many are removed as there are too many, each once, and none that is no
/// recovered audio.
pub proof fn as_many_are_left_as_are_kept(e: Seq<RecoveryEntry>, keep: nat)
    ensures
        ({
            let gone = outdated(e, keep as int);
            let there = recoveries(e, e.len());
            &&& gone.len() == (if there.len() > keep {
                there.len() - keep
            } else {
                0
            })
            &&& gone.no_duplicates()
            &&& forall|i: int| 0 <= i < gone.len() ==> there.contains(#[trigger] gone[i])
        }),
{
    ages_count(e, e.len());
    by_age_is_sorted(e, e.len());
    let order = by_age(e, e.len());
    let gone = outdated(e, keep as int);
    assert forall|i: int| 0 <= i < gone.len() implies recoveries(e, e.len()).contains(
        #[trigger] gone[i],
    ) by {
        assert(gone[i] == order[i]);
    }
    assert forall|i: int, j: int| 0 <= i < gone.len() && 0 <= j < gone.len() && i != j implies gone[i]
        != gone[j] by {
        assert(gone[i] == order[i] && gone[j] == order[j]);
    }
}

/// A recording that is set aside has a name by which it is found again, and
/// the names of two differ where their times do.
pub proof fn recordings_are_found_by_name(a: Seq<char>, b: Seq<char>)
    ensures
        is_recovery(recovery_name(a)),
        recovery_name(a) == recovery_name(b) ==> a == b,
        recovery_name(a).len() == a.len() + 13,
        recovery_name(a).subrange(9, (9 + a.len()) as int) == a,
{
    reveal_strlit("recovery_");
    reveal_strlit(".wav");
    let x = recovery_name(a);
    let y = recovery_name(b);
    let n = "recovery_"@.len() as int;
    assert(x.take(n) =~= "recovery_"@);
    assert(x.skip(x.len() - ".wav"@.len()) =~= ".wav"@);
    assert(a =~= x.subrange(n, n + a.len()));
    assert(b =~= y.subrange(n, n + b.len()));
}

/// Recordings are set aside in a directory of their own, below the user's
/// cache, or below the place for temporary files where that is not known.
pub proof fn recordings_have_their_place(dir: Seq<char>)
    requires
        dir.len() > 0,
        dir.last() != '/',
    ensures
        recovery_place(Some(dir)) == dir + "/whisrs/recovery"@,
        recovery_place(None) == "/tmp/whisrs/recovery"@,
{
    reveal_strlit("/");
    reveal_strlit("whisrs");
    reveal_strlit("recovery");
    reveal_strlit("/whisrs/recovery");
    reveal_strlit("/tmp");
    reveal_strlit("/tmp/whisrs/recovery");
    let sub = path_join(dir, "whisrs"@);
    assert(sub.last() == 's');
    assert(recovery_place(Some(dir)) =~= dir + "/whisrs/recovery"@);
    let home = path_join("/tmp"@, "whisrs"@);
    assert(home.last() == 's');
    assert(recovery_place(None) =~= "/tmp/whisrs/recovery"@);
}

/// Recordings of the same age keep the order in which they were listed.
pub proof fn equal_ages_keep_their_order(e: Seq<RecoveryEntry>, n: nat, i: int, j: int)
    requires
        n <= e.len(),
        0 <= i < j < by_age(e, n).len(),
        e[by_age(e, n)[i]].modified == e[by_age(e, n)[j]].modified,
    ensures
        by_age(e, n)[i] < by_age(e, n)[j],
    decreases n,
{
    let before = by_age(e, (n - 1) as nat);
    let now = by_age(e, n);
    by_age_is_sorted(e, (n - 1) as nat);
    if is_recovery(e[n - 1].name@) {
        let k = older_run(e, before, n - 1, 0);
        older_run_bounds(e, before, n - 1, 0);
        assert(now == before.insert(k, n - 1));
        if i < k && j < k {
            equal_ages_keep_their_order(e, (n - 1) as nat, i, j);
        } else if i > k && j > k {
            assert(now[i] == before[i - 1] && now[j] == before[j - 1]);
            equal_ages_keep_their_order(e, (n - 1) as nat, i - 1, j - 1);
        } else if i < k && j > k {
            assert(now[i] == before[i] && now[j] == before[j - 1]);
            equal_ages_keep_their_order(e, (n - 1) as nat, i, j - 1);
        } else if j == k {
            assert(now[i] == before[i]);
            assert(0 <= before[i] < n - 1);
        } else {
            assert(now[j] == before[j - 1]);
            assert(e[before[k]].modified > e[n - 1].modified);
            assert(e[before[j - 1]].modified >= e[before[k]].modified);
        }
    } else {
        equal_ages_keep_their_order(e, (n - 1) as nat, i, j);
    }
}

} // verus!
