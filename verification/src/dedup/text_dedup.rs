//! Deduplication by text: the end of the previous window is searched in the
//! new one, and only what follows it is kept.

use crate::ieee::{at_least, is_at_least};
use crate::text::{
    join, join_texts, lowercase, range_of, same_text, split_words, texts, to_chars, to_text,
    utf8_len, words,
};
use vstd::prelude::*;
use vstd::utf8::{
    decode_utf8, decode_utf8_split, encode_utf8, encode_utf8_decode_utf8, encode_utf8_valid_utf8,
    is_char_boundary, is_char_boundary_start_end_of_seq, length_of_first_scalar, pop_first_scalar,
    valid_utf8,
};

verus! {

/// Default maximum number of bytes to keep in [`TextDedup`]'s recent-text
/// buffer between calls.
pub const DEFAULT_MAX_RECENT_CHARS: usize = 500;

/// The bits of 0.85, the least similarity at which two words match.
pub const MATCH_THRESHOLD_BITS: u64 = 0x3feb_3333_3333_3333;

/// The bits of the Jaro-Winkler similarity of two texts, as
/// `strsim::jaro_winkler` computes it.
pub uninterp spec fn jaro_winkler_bits(a: Seq<char>, b: Seq<char>) -> u64;

/// `strsim::jaro_winkler`: the similarity of two texts as the bits of a
/// double. It depends on the characters of the two texts alone.
#[verifier::external_body]
fn similarity_bits(a: &str, b: &str) -> (r: u64)
    ensures
        r == jaro_winkler_bits(a@, b@),
{
    strsim::jaro_winkler(a, b).to_bits()
}

/// ASCII punctuation: the printable ASCII characters that are no letters,
/// digits or spaces.
pub open spec fn is_ascii_punct(c: char) -> bool {
    ||| '!' <= c <= '/'
    ||| ':' <= c <= '@'
    ||| '[' <= c <= '`'
    ||| '{' <= c <= '~'
}

/// `s` without the ASCII punctuation at its end.
pub open spec fn strip_punct(s: Seq<char>) -> Seq<char>
    decreases s.len(),
{
    if s.len() > 0 && is_ascii_punct(s.last()) {
        strip_punct(s.drop_last())
    } else {
        s
    }
}

/// A word as it is compared: in lower case, without trailing punctuation.
pub open spec fn normalized(w: Seq<char>) -> Seq<char> {
    strip_punct(lowercase(w))
}

/// Whether two words are taken for the same word: equal once normalized, or
/// similar enough.
pub open spec fn words_agree(a: Seq<char>, b: Seq<char>) -> bool {
    ||| normalized(a) == normalized(b)
    ||| at_least(jaro_winkler_bits(normalized(a), normalized(b)), MATCH_THRESHOLD_BITS)
}

/// `s` without the ASCII punctuation at its end.
pub fn strip_punctuation(s: &str) -> (r: String)
    ensures
        r@ == strip_punct(s@),
{
    let v = to_chars(s);
    let mut n: usize = v.len();
    assert(v@.take(n as int) =~= v@);
    while n > 0 && (('!' <= v[n - 1] && v[n - 1] <= '/') || (':' <= v[n - 1] && v[n - 1] <= '@')
        || ('[' <= v[n - 1] && v[n - 1] <= '`') || ('{' <= v[n - 1] && v[n - 1] <= '~'))
        invariant
            n <= v@.len(),
            strip_punct(v@) == strip_punct(v@.take(n as int)),
        decreases n,
    {
        let ghost t = v@.take(n as int);
        assert(t.last() == v@[n - 1]);
        assert(t.drop_last() =~= v@.take(n - 1));
        n -= 1;
    }
    let ghost t = v@.take(n as int);
    assert(n > 0 ==> t.last() == v@[n - 1]);
    assert(v@.subrange(0, n as int) =~= t);
    to_text(&range_of(&v, 0, n))
}

/// Whether a similarity with these bits is enough for two words to match.
pub fn is_similar(bits: u64) -> (r: bool)
    ensures
        r == at_least(bits, MATCH_THRESHOLD_BITS),
{
    is_at_least(bits, MATCH_THRESHOLD_BITS)
}

/// Normalize a word for comparison: lowercase, strip trailing punctuation.
pub fn normalize_word(word: &str) -> (r: String)
    ensures
        r@ == normalized(word@),
{
    strip_punctuation(word.to_lowercase().as_str())
}

/// Check if two words match, allowing for minor differences in punctuation
/// and small edit distances.
pub fn words_match(a: &str, b: &str) -> (r: bool)
    ensures
        r == words_agree(a@, b@),
{
    let na = normalize_word(a);
    let nb = normalize_word(b);
    same_text(na.as_str(), nb.as_str()) || is_similar(similarity_bits(na.as_str(), nb.as_str()))
}

/// Check if two word lists match word by word.
pub fn ngram_match(a: &[String], b: &[String]) -> (r: bool)
    ensures
        r == (a@.len() == b@.len() && forall|i: int|
            0 <= i < a@.len() ==> words_agree(#[trigger] a@[i]@, b@[i]@)),
{
    if a.len() != b.len() {
        return false;
    }
    let mut i: usize = 0;
    while i < a.len()
        invariant
            i <= a@.len() == b@.len(),
            forall|k: int| 0 <= k < i ==> words_agree(#[trigger] a@[k]@, b@[k]@),
        decreases a@.len() - i,
    {
        if !words_match(a[i].as_str(), b[i].as_str()) {
            assert(!words_agree(a@[i as int]@, b@[i as int]@));
            return false;
        }
        i += 1;
    }
    true
}

/// For every word of the previous window and every word of the new one,
/// whether the two match.
pub open spec fn agreement(prev: Seq<Seq<char>>, new: Seq<Seq<char>>) -> Seq<Seq<bool>> {
    Seq::new(
        prev.len(),
        |i: int| Seq::new(new.len(), |j: int| words_agree(prev[i], new[j])),
    )
}

/// Whether the last `len` previous words match the new words from `pos` on.
pub open spec fn anchored(agree: Seq<Seq<bool>>, len: int, pos: int) -> bool {
    forall|k: int| 0 <= k < len ==> #[trigger] agree[agree.len() - len + k][pos + k]
}

/// The first place from `pos` on where the last `len` previous words match.
/// Only the first three quarters of the new words are searched.
pub open spec fn anchor_from(agree: Seq<Seq<bool>>, new_len: int, len: int, pos: int) -> Option<int>
    decreases new_len - pos,
{
    if pos + len > new_len || (pos >= new_len * 3 / 4 && pos >= 1) || pos >= new_len {
        None
    } else if anchored(agree, len, pos) {
        Some(pos)
    } else {
        anchor_from(agree, new_len, len, pos + 1)
    }
}

/// Where the longest anchor of `3..=len` previous words that occurs ends.
pub open spec fn anchor_end(agree: Seq<Seq<bool>>, new_len: int, len: int) -> Option<int>
    decreases len,
{
    if len < 3 {
        None
    } else {
        match anchor_from(agree, new_len, len, 0) {
            Some(pos) => Some(pos + len),
            None => anchor_end(agree, new_len, len - 1),
        }
    }
}

/// The longest of `1..=len` words with which the new window repeats the end
/// of the previous one.
pub open spec fn prefix_end(agree: Seq<Seq<bool>>, len: int) -> Option<int>
    decreases len,
{
    if len < 1 {
        None
    } else if anchored(agree, len, 0) {
        Some(len)
    } else {
        prefix_end(agree, len - 1)
    }
}

/// How many words of a previous window of `n` words are searched at most.
pub open spec fn longest_anchor(n: int) -> int {
    if n < 8 {
        n
    } else {
        8
    }
}

/// How many of the new words belong to the overlap with the previous window:
/// through the end of the longest anchor (at most 8 words) that is found, or
/// else the longest aligned prefix (at most 50 words).
pub open spec fn overlap(agree: Seq<Seq<bool>>, new_len: int) -> Option<int> {
    let prev_len = agree.len() as int;
    let aligned = if prev_len < new_len {
        prev_len
    } else {
        new_len
    };
    let max_prefix = if aligned < 50 {
        aligned
    } else {
        50
    };
    match anchor_end(agree, new_len, longest_anchor(prev_len)) {
        Some(end) => Some(end),
        None => prefix_end(agree, max_prefix),
    }
}

/// What a new window adds to the previous one.
pub open spec fn remaining(prev: Seq<char>, new: Seq<char>) -> Seq<char> {
    let pw = words(prev);
    let nw = words(new);
    if pw.len() == 0 || nw.len() == 0 {
        new
    } else {
        match overlap(agreement(pw, nw), nw.len() as int) {
            Some(end) => join(nw.skip(end), " "@),
            None => new,
        }
    }
}

/// The rows of a table.
pub open spec fn table(t: Seq<Vec<bool>>) -> Seq<Seq<bool>> {
    Seq::new(t.len(), |i: int| t[i]@)
}

fn is_anchored(agree: &[Vec<bool>], new_len: usize, len: usize, pos: usize) -> (r: bool)
    requires
        len <= agree@.len(),
        pos + len <= new_len,
        forall|i: int| 0 <= i < agree@.len() ==> (#[trigger] agree@[i])@.len() == new_len,
    ensures
        r == anchored(table(agree@), len as int, pos as int),
{
    let rows: usize = agree.len();
    let base: usize = rows - len;
    let mut k: usize = 0;
    while k < len
        invariant
            k <= len <= agree@.len() == rows,
            base == rows - len,
            pos + len <= new_len,
            forall|i: int| 0 <= i < agree@.len() ==> (#[trigger] agree@[i])@.len() == new_len,
            forall|q: int|
                0 <= q < k ==> #[trigger] table(agree@)[table(agree@).len() - len + q][pos + q],
        decreases len - k,
    {
        assert(table(agree@)[base + k] == agree@[base + k]@);
        if !agree[base + k][pos + k] {
            assert(!table(agree@)[table(agree@).len() - len + k][pos + k]);
            return false;
        }
        k += 1;
    }
    true
}

/// How many of the new words belong to the overlap with the previous window,
/// given which words match.
pub fn overlap_end(agree: &[Vec<bool>], new_len: usize) -> (r: Option<usize>)
    requires
        forall|i: int| 0 <= i < agree@.len() ==> (#[trigger] agree@[i])@.len() == new_len,
    ensures
        match r {
            Some(end) => overlap(table(agree@), new_len as int) == Some(end as int) && end
                <= new_len,
            None => overlap(table(agree@), new_len as int) is None,
        },
{
    let prev_len: usize = agree.len();
    let ghost t = table(agree@);
    let max_anchor: usize = if prev_len < 8 {
        prev_len
    } else {
        8
    };
    let aligned: usize = if prev_len < new_len {
        prev_len
    } else {
        new_len
    };
    let max_prefix: usize = if aligned < 50 {
        aligned
    } else {
        50
    };
    let mut len: usize = max_anchor;
    while len >= 3
        invariant
            t == table(agree@),
            len <= max_anchor <= agree@.len() == t.len(),
            max_anchor <= 8,
            forall|i: int| 0 <= i < agree@.len() ==> (#[trigger] agree@[i])@.len() == new_len,
            anchor_end(t, new_len as int, max_anchor as int) == anchor_end(
                t,
                new_len as int,
                len as int,
            ),
            overlap(t, new_len as int) == (match anchor_end(t, new_len as int, max_anchor as int) {
                Some(end) => Some(end),
                None => prefix_end(t, max_prefix as int),
            }),
        decreases len,
    {
        let mut pos: usize = 0;
        while pos < new_len && len <= new_len - pos && ((pos as u128) < (new_len as u128) * 3 / 4
            || pos < 1)
            invariant
                t == table(agree@),
                pos <= new_len,
                3 <= len <= max_anchor <= agree@.len() == t.len(),
                max_anchor <= 8,
                forall|i: int| 0 <= i < agree@.len() ==> (#[trigger] agree@[i])@.len() == new_len,
                anchor_end(t, new_len as int, max_anchor as int) == anchor_end(
                    t,
                    new_len as int,
                    len as int,
                ),
                anchor_from(t, new_len as int, len as int, 0) == anchor_from(
                    t,
                    new_len as int,
                    len as int,
                    pos as int,
                ),
                overlap(t, new_len as int) == (match anchor_end(
                    t,
                    new_len as int,
                    max_anchor as int,
                ) {
                    Some(end) => Some(end),
                    None => prefix_end(t, max_prefix as int),
                }),
            decreases new_len - pos,
        {
            if is_anchored(agree, new_len, len, pos) {
                return Some(pos + len);
            }
            pos += 1;
        }
        len -= 1;
    }
    let mut len: usize = max_prefix;
    while len >= 1
        invariant
            t == table(agree@),
            len <= max_prefix <= agree@.len() == t.len(),
            max_prefix <= new_len,
            forall|i: int| 0 <= i < agree@.len() ==> (#[trigger] agree@[i])@.len() == new_len,
            overlap(t, new_len as int) == prefix_end(t, max_prefix as int),
            prefix_end(t, max_prefix as int) == prefix_end(t, len as int),
        decreases len,
    {
        if is_anchored(agree, new_len, len, 0) {
            return Some(len);
        }
        len -= 1;
    }
    None
}

/// The words of `s`.
fn word_list(s: &str) -> (r: Vec<String>)
    ensures
        texts(r@) == words(s@),
{
    let parts = split_words(&to_chars(s));
    let mut r: Vec<String> = Vec::new();
    let mut i: usize = 0;
    while i < parts.len()
        invariant
            i <= parts@.len(),
            parts@.len() == words(s@).len(),
            forall|k: int| 0 <= k < parts@.len() ==> (#[trigger] parts@[k])@ == words(s@)[k],
            r@.len() == i,
            forall|k: int| 0 <= k < i ==> (#[trigger] r@[k])@ == words(s@)[k],
        decreases parts@.len() - i,
    {
        r.push(to_text(&parts[i]));
        i += 1;
    }
    assert(texts(r@) =~= words(s@));
    r
}

fn match_table(prev: &[String], new: &[String]) -> (t: Vec<Vec<bool>>)
    ensures
        table(t@) == agreement(texts(prev@), texts(new@)),
        forall|i: int| 0 <= i < t@.len() ==> (#[trigger] t@[i])@.len() == new@.len(),
{
    let mut t: Vec<Vec<bool>> = Vec::new();
    let mut i: usize = 0;
    while i < prev.len()
        invariant
            i <= prev@.len(),
            t@.len() == i,
            forall|k: int| 0 <= k < i ==> (#[trigger] t@[k])@.len() == new@.len(),
            forall|k: int, j: int|
                0 <= k < i && 0 <= j < new@.len() ==> #[trigger] t@[k]@[j] == words_agree(
                    prev@[k]@,
                    new@[j]@,
                ),
        decreases prev@.len() - i,
    {
        let mut row: Vec<bool> = Vec::new();
        let mut j: usize = 0;
        while j < new.len()
            invariant
                i < prev@.len(),
                j <= new@.len(),
                row@.len() == j,
                forall|q: int|
                    0 <= q < j ==> #[trigger] row@[q] == words_agree(prev@[i as int]@, new@[q]@),
            decreases new@.len() - j,
        {
            row.push(words_match(prev[i].as_str(), new[j].as_str()));
            j += 1;
        }
        t.push(row);
        i += 1;
    }
    proof {
        let a = agreement(texts(prev@), texts(new@));
        assert forall|k: int| 0 <= k < t@.len() implies #[trigger] table(t@)[k] == a[k] by {
            assert(table(t@)[k] =~= a[k]);
        }
        assert(table(t@) =~= a);
    }
    t
}

/// Remove overlapping text between the end of `previous` and `new`.
///
/// The last words of `previous` (at most 8, at least 3) are searched in the
/// first three quarters of `new`; where they are not found, the end of
/// `previous` is aligned with the start of `new`. Without any overlap, `new`
/// comes back as it is.
pub fn remove_overlap(previous: &str, new: &str) -> (r: String)
    ensures
        r@ == remaining(previous@, new@),
{
    let prev_words = word_list(previous);
    let new_words = word_list(new);
    if prev_words.len() == 0 || new_words.len() == 0 {
        return new.to_owned();
    }
    let t = match_table(&prev_words, &new_words);
    match overlap_end(&t, new_words.len()) {
        Some(end) => {
            let mut rest: Vec<String> = Vec::new();
            let mut i: usize = end;
            while i < new_words.len()
                invariant
                    end <= i <= new_words@.len(),
                    rest@ == new_words@.subrange(end as int, i as int),
                decreases new_words@.len() - i,
            {
                rest.push(new_words[i].clone());
                i += 1;
                assert(rest@ =~= new_words@.subrange(end as int, i as int));
            }
            assert(texts(rest@) =~= words(new@).skip(end as int));
            join_texts(&rest, " ")
        },
        None => new.to_owned(),
    }
}

/// The greatest boundary between characters that is not after `index`, or the
/// end of the text.
pub open spec fn floor_boundary(bytes: Seq<u8>, index: int) -> int
    decreases index,
{
    if index >= bytes.len() {
        bytes.len() as int
    } else if index <= 0 || is_char_boundary(bytes, index) {
        index
    } else {
        floor_boundary(bytes, index - 1)
    }
}

/// Round `index` down to the nearest UTF-8 char boundary in `s`.
pub fn floor_char_boundary(s: &str, index: usize) -> (r: usize)
    ensures
        r == floor_boundary(encode_utf8(s@), index as int),
{
    let n: usize = s.as_bytes().len();
    if index >= n {
        return n;
    }
    let mut i: usize = index;
    while i > 0 && !s.is_char_boundary(i)
        invariant
            i <= index < n == encode_utf8(s@).len(),
            floor_boundary(encode_utf8(s@), index as int) == floor_boundary(
                encode_utf8(s@),
                i as int,
            ),
        decreases i,
    {
        i -= 1;
    }
    i
}

/// The end of a text that is kept for the next window: the whole text where it
/// has at most `max` bytes, else its last `max` bytes and what is missing to
/// the start of a character.
pub open spec fn kept(text: Seq<char>, max: int) -> Seq<char> {
    let bytes = encode_utf8(text);
    if bytes.len() <= max {
        text
    } else {
        decode_utf8(
            bytes.subrange(floor_boundary(bytes, bytes.len() - max), bytes.len() as int),
        )
    }
}

proof fn floor_boundary_is_boundary(bytes: Seq<u8>, index: int)
    requires
        valid_utf8(bytes),
        0 <= index,
    ensures
        0 <= floor_boundary(bytes, index) <= bytes.len(),
        is_char_boundary(bytes, floor_boundary(bytes, index)),
        index < bytes.len() ==> floor_boundary(bytes, index) <= index,
    decreases index,
{
    if index >= bytes.len() {
        is_char_boundary_start_end_of_seq(bytes);
    } else if index > 0 && !is_char_boundary(bytes, index) {
        floor_boundary_is_boundary(bytes, index - 1);
    }
}

/// Some boundary lies within three bytes below any index of a text.
proof fn boundary_within_three(bytes: Seq<u8>, index: int) -> (b: int)
    requires
        valid_utf8(bytes),
        0 <= index < bytes.len(),
    ensures
        index - 3 <= b <= index,
        0 <= b,
        is_char_boundary(bytes, b),
    decreases bytes.len(),
{
    let len = length_of_first_scalar(bytes);
    if index < len {
        0
    } else {
        let rest = pop_first_scalar(bytes);
        let b = boundary_within_three(rest, index - len);
        b + len
    }
}

proof fn floor_boundary_not_below(bytes: Seq<u8>, index: int, b: int)
    requires
        0 <= b <= index < bytes.len(),
        is_char_boundary(bytes, b),
    ensures
        floor_boundary(bytes, index) >= b,
    decreases index,
{
    if index > b && index > 0 && !is_char_boundary(bytes, index) {
        floor_boundary_not_below(bytes, index - 1, b);
    }
}

/// What is kept of a text is a suffix of it, has at most three bytes more than
/// the limit, and no fewer than the limit where something was cut off.
pub proof fn kept_is_bounded_suffix(text: Seq<char>, max: nat)
    ensures
        exists|i: int| 0 <= i <= text.len() && kept(text, max as int) == #[trigger] text.skip(i),
        utf8_len(kept(text, max as int)) <= max + 3,
        utf8_len(text) > max ==> utf8_len(kept(text, max as int)) >= max,
{
    let bytes = encode_utf8(text);
    if bytes.len() <= max {
        assert(text.skip(0) =~= text);
    } else {
        encode_utf8_valid_utf8(text);
        let target = bytes.len() - max;
        let at = floor_boundary(bytes, target);
        floor_boundary_is_boundary(bytes, target);
        if target < bytes.len() {
            let b = boundary_within_three(bytes, target);
            floor_boundary_not_below(bytes, target, b);
        }
        let head = bytes.subrange(0, at);
        let tail = bytes.subrange(at, bytes.len() as int);
        vstd::utf8::valid_utf8_split(bytes, at);
        decode_utf8_split(bytes, at);
        encode_utf8_decode_utf8(text);
        vstd::utf8::decode_utf8_encode_utf8(tail);
        let i = decode_utf8(head).len() as int;
        assert(text =~= decode_utf8(head) + decode_utf8(tail));
        assert(text.skip(i) =~= decode_utf8(tail));
    }
}

/// Tracks transcription progress across sliding windows using text-anchor
/// matching.
///
/// Use this when you only get full-text output per window (no timestamps).
/// Call [`TextDedup::filter_text`] with each window's complete transcription
/// and receive only the novel suffix.
#[derive(Debug, Clone)]
pub struct TextDedup {
    /// Previous window's transcription, as far as it is kept.
    pub recent_text: String,
    /// Maximum number of bytes to keep in `recent_text` for matching.
    pub max_recent_chars: usize,
}

impl TextDedup {
    /// Create a new tracker with the default recent-text capacity
    /// ([`DEFAULT_MAX_RECENT_CHARS`]).
    pub fn new() -> (r: Self)
        ensures
            r.recent_text@ == Seq::<char>::empty(),
            r.max_recent_chars == DEFAULT_MAX_RECENT_CHARS,
    {
        TextDedup { recent_text: String::new(), max_recent_chars: DEFAULT_MAX_RECENT_CHARS }
    }

    /// Builder-style setter: configure the maximum byte length of the
    /// recent-text buffer kept between calls.
    pub fn with_max_recent_chars(self, max_recent_chars: usize) -> (r: Self)
        ensures
            r.recent_text == self.recent_text,
            r.max_recent_chars == max_recent_chars,
    {
        TextDedup { recent_text: self.recent_text, max_recent_chars }
    }

    /// Filter text from a sliding window transcription.
    ///
    /// Finds where the previous output ends within the new transcription
    /// (anchor search) and returns only the text after that point. Keeps the
    /// end of the new transcription as the reference for the next window.
    pub fn filter_text(&mut self, new_text: &str) -> (r: String)
        ensures
            r@ == (if old(self).recent_text@.len() == 0 {
                new_text@
            } else {
                remaining(old(self).recent_text@, new_text@)
            }),
            final(self).recent_text@ == kept(new_text@, old(self).max_recent_chars as int),
            final(self).max_recent_chars == old(self).max_recent_chars,
    {
        let result = if self.recent_text.as_str().is_empty() {
            new_text.to_owned()
        } else {
            remove_overlap(self.recent_text.as_str(), new_text)
        };
        let n: usize = new_text.as_bytes().len();
        if n > self.max_recent_chars {
            let target: usize = n - self.max_recent_chars;
            let trim_at: usize = floor_char_boundary(new_text, target);
            proof {
                encode_utf8_valid_utf8(new_text@);
                floor_boundary_is_boundary(encode_utf8(new_text@), target as int);
            }
            let (_, tail) = new_text.split_at(trim_at);
            proof {
                encode_utf8_decode_utf8(tail@);
            }
            self.recent_text = tail.to_owned();
        } else {
            self.recent_text = new_text.to_owned();
        }
        result
    }
}

impl Default for TextDedup {
    fn default() -> (r: Self)
        ensures
            r.recent_text@ == Seq::<char>::empty(),
            r.max_recent_chars == DEFAULT_MAX_RECENT_CHARS,
    {
        TextDedup::new()
    }
}

proof fn word_agrees_with_itself(w: Seq<char>)
    ensures
        words_agree(w, w),
{
}

/// A window of at most 8 words that repeats the previous window word for word
/// adds nothing.
pub proof fn short_repeat_adds_nothing(text: Seq<char>)
    requires
        1 <= words(text).len() <= 8,
    ensures
        remaining(text, text) == Seq::<char>::empty(),
{
    let w = words(text);
    let n = w.len() as int;
    let a = agreement(w, w);
    assert(anchored(a, n, 0)) by {
        assert forall|k: int| 0 <= k < n implies #[trigger] a[a.len() - n + k][0 + k] by {
            word_agrees_with_itself(w[k]);
        }
    }
    if n >= 3 {
        assert(anchor_from(a, n, n, 0) == Some(0int));
        assert(anchor_end(a, n, n) == Some(n));
    } else {
        assert(anchor_end(a, n, n) is None);
        assert(prefix_end(a, n) == Some(n));
    }
    assert(w.skip(n) =~= Seq::<Seq<char>>::empty());
}

/// A window of at most 50 words that repeats the previous window word for word
/// adds nothing, unless the end of it, of three to eight words, already occurs
/// before.
pub proof fn repeat_adds_nothing(text: Seq<char>)
    requires
        1 <= words(text).len() <= 50,
        forall|len: int, pos: int|
            3 <= len <= 8 && 0 <= pos < words(text).len() - len ==> !(#[trigger] anchored(
                agreement(words(text), words(text)),
                len,
                pos,
            )),
    ensures
        remaining(text, text) == Seq::<char>::empty(),
{
    let w = words(text);
    let n = w.len() as int;
    let a = agreement(w, w);
    repeat_is_aligned(w);
    only_end_anchored(a, n, longest_anchor(n));
    assert(w.skip(n) =~= Seq::<Seq<char>>::empty());
}

proof fn repeat_is_aligned(w: Seq<Seq<char>>)
    ensures
        anchored(agreement(w, w), w.len() as int, 0),
        w.len() > 0 ==> prefix_end(agreement(w, w), w.len() as int) == Some(w.len() as int),
{
    let n = w.len() as int;
    let a = agreement(w, w);
    assert forall|k: int| 0 <= k < n implies #[trigger] a[a.len() - n + k][0 + k] by {
        word_agrees_with_itself(w[k]);
    }
}

proof fn only_end_anchored(a: Seq<Seq<bool>>, n: int, len: int)
    requires
        len <= 8,
        len <= n,
        forall|l: int, pos: int|
            3 <= l <= 8 && 0 <= pos < n - l ==> !(#[trigger] anchored(a, l, pos)),
    ensures
        anchor_end(a, n, len) is None || anchor_end(a, n, len) == Some(n),
    decreases len,
{
    if len >= 3 {
        first_anchor_at_end(a, n, len, 0);
        only_end_anchored(a, n, len - 1);
    }
}

proof fn first_anchor_at_end(a: Seq<Seq<bool>>, n: int, len: int, pos: int)
    requires
        0 <= pos,
        forall|q: int| 0 <= q < n - len ==> !(#[trigger] anchored(a, len, q)),
    ensures
        anchor_from(a, n, len, pos) matches Some(p) ==> p == n - len,
    decreases n - pos,
{
    if pos + len <= n && pos < n {
        first_anchor_at_end(a, n, len, pos + 1);
    }
}

/// Where the end of the previous window, its last eight words or all of them,
/// is found in the first three quarters of the new one, exactly what follows
/// it there is new.
pub proof fn words_after_the_anchor_are_new(prev: Seq<char>, new: Seq<char>, pos: int)
    requires
        words(prev).len() >= 3,
        0 <= pos <= words(new).len() - longest_anchor(words(prev).len() as int),
        pos < words(new).len() * 3 / 4 || pos == 0,
        anchored(
            agreement(words(prev), words(new)),
            longest_anchor(words(prev).len() as int),
            pos,
        ),
        forall|q: int|
            0 <= q < pos ==> !(#[trigger] anchored(
                agreement(words(prev), words(new)),
                longest_anchor(words(prev).len() as int),
                q,
            )),
    ensures
        remaining(prev, new) == join(
            words(new).skip(pos + longest_anchor(words(prev).len() as int)),
            " "@,
        ),
{
    let a = agreement(words(prev), words(new));
    let n = words(new).len() as int;
    first_anchor_found(a, n, longest_anchor(words(prev).len() as int), 0, pos);
}

proof fn first_anchor_found(a: Seq<Seq<bool>>, n: int, len: int, from: int, pos: int)
    requires
        0 <= from <= pos <= n - len,
        len > 0,
        pos < n * 3 / 4 || pos == 0,
        anchored(a, len, pos),
        forall|q: int| 0 <= q < pos ==> !(#[trigger] anchored(a, len, q)),
    ensures
        anchor_from(a, n, len, from) == Some(pos),
    decreases pos - from,
{
    if from < pos {
        first_anchor_found(a, n, len, from + 1, pos);
    }
}

/// What a window adds is the window itself, or what is left once at least one
/// word was taken from its front: nothing is invented, and no word is
/// reordered.
pub proof fn remaining_is_suffix(prev: Seq<char>, new: Seq<char>)
    ensures
        remaining(prev, new) == new || exists|i: int|
            1 <= i <= words(new).len() && remaining(prev, new) == join(
                #[trigger] words(new).skip(i),
                " "@,
            ),
{
    let pw = words(prev);
    let nw = words(new);
    if pw.len() > 0 && nw.len() > 0 {
        let a = agreement(pw, nw);
        overlap_in_range(a, nw.len() as int);
        match overlap(a, nw.len() as int) {
            Some(end) => {
                assert(remaining(prev, new) == join(nw.skip(end), " "@));
            },
            None => {},
        }
    }
}

proof fn anchor_from_in_range(agree: Seq<Seq<bool>>, new_len: int, len: int, pos: int)
    requires
        0 <= pos,
    ensures
        anchor_from(agree, new_len, len, pos) matches Some(p) ==> pos <= p && p + len <= new_len,
    decreases new_len - pos,
{
    if !(pos + len > new_len || (pos >= new_len * 3 / 4 && pos >= 1) || pos >= new_len) {
        anchor_from_in_range(agree, new_len, len, pos + 1);
    }
}

proof fn anchor_end_in_range(agree: Seq<Seq<bool>>, new_len: int, len: int)
    ensures
        anchor_end(agree, new_len, len) matches Some(e) ==> 1 <= e <= new_len,
    decreases len,
{
    if len >= 3 {
        anchor_from_in_range(agree, new_len, len, 0);
        anchor_end_in_range(agree, new_len, len - 1);
    }
}

proof fn prefix_end_in_range(agree: Seq<Seq<bool>>, len: int)
    ensures
        prefix_end(agree, len) matches Some(e) ==> 1 <= e <= len,
    decreases len,
{
    if len >= 1 {
        prefix_end_in_range(agree, len - 1);
    }
}

proof fn overlap_in_range(agree: Seq<Seq<bool>>, new_len: int)
    requires
        new_len >= 0,
    ensures
        overlap(agree, new_len) matches Some(e) ==> 1 <= e <= new_len,
{
    anchor_end_in_range(agree, new_len, longest_anchor(agree.len() as int));
    let aligned = if agree.len() < new_len {
        agree.len() as int
    } else {
        new_len
    };
    prefix_end_in_range(
        agree,
        if aligned < 50 {
            aligned
        } else {
            50
        },
    );
}

/// A text that is not too long is kept whole, and of a longer one no more is
/// dropped than has to be.
pub proof fn no_more_is_dropped_than_has_to_be(text: Seq<char>, max: nat)
    ensures
        utf8_len(text) <= max ==> kept(text, max as int) == text,
        utf8_len(text) > max ==> max <= utf8_len(kept(text, max as int)) <= max + 3,
{
    kept_is_bounded_suffix(text, max);
}

} // verus!
