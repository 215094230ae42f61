use whisrs::dedup::text_dedup::{
    floor_char_boundary, ngram_match, normalize_word, overlap_end, remove_overlap,
    strip_punctuation, words_match, TextDedup,
};
use whisrs::dedup::timestamp_dedup::{TimestampDedup, Word};

/// Words with times in seconds, handed to the tracker as it wants them.
struct Tracker {
    inner: TimestampDedup,
    offset: f64,
    tolerance: f64,
}

impl Tracker {
    fn new() -> Self {
        Tracker::with_tolerance(0.05)
    }

    fn with_tolerance(tolerance: f64) -> Self {
        Tracker {
            inner: TimestampDedup::starting_at((0.0f64 - tolerance).to_bits()),
            offset: 0.0,
            tolerance,
        }
    }

    fn advance_offset(&mut self, secs: f64) {
        self.offset += secs;
    }

    fn filter_words(&mut self, words: &[(&str, f64, f64)]) -> Vec<(String, f64)> {
        let chunk: Vec<Word> = words
            .iter()
            .map(|(text, start, end)| Word {
                text: text.to_string(),
                start_bits: (start + self.offset).to_bits(),
                resume_bits: (end + self.offset - self.tolerance).to_bits(),
            })
            .collect();
        self.inner
            .filter_words(&chunk)
            .into_iter()
            .map(|i| (words[i].0.to_string(), words[i].1 + self.offset))
            .collect()
    }
}

#[test]
fn timestamp_dedup_no_overlap() {
    let mut tracker = Tracker::new();
    let accepted = tracker.filter_words(&[("Hello", 0.0, 0.5), ("world", 0.6, 1.0)]);
    assert_eq!(accepted.len(), 2);
    assert_eq!(accepted[0].0, "Hello");
    assert_eq!(accepted[1].0, "world");
}

#[test]
fn timestamp_dedup_skips_overlapping() {
    let mut tracker = Tracker::new();

    // First chunk.
    let accepted1 = tracker.filter_words(&[("Hello", 0.0, 0.5), ("world", 0.6, 1.0)]);
    assert_eq!(accepted1.len(), 2);

    // Second chunk with overlap, and no offset advance.
    let accepted2 = tracker.filter_words(&[("world", 0.6, 1.0), ("how", 1.1, 1.3)]);
    assert_eq!(accepted2.len(), 1);
    assert_eq!(accepted2[0].0, "how");
}

#[test]
fn timestamp_dedup_with_offset() {
    let mut tracker = Tracker::new();
    tracker.filter_words(&[("Hello", 0.0, 0.5)]);

    // Advance offset by 1 second (first chunk was 1s of audio).
    tracker.advance_offset(1.0);

    // Second chunk: timestamps restart from 0 but offset adjusts them.
    let accepted = tracker.filter_words(&[("world", 0.1, 0.5)]);
    assert_eq!(accepted.len(), 1);
    assert_eq!(accepted[0].0, "world");
    // Adjusted start should be ~1.1.
    assert!((accepted[0].1 - 1.1).abs() < 0.01);
}

#[test]
fn timestamp_dedup_custom_overlap_tolerance() {
    // With a tight tolerance of 0.001s, a word that starts exactly 0.01s
    // before the boundary is rejected; the default tolerance accepts it.
    let mut tracker = Tracker::with_tolerance(0.001);
    let accepted1 = tracker.filter_words(&[("first", 0.0, 1.0)]);
    assert_eq!(accepted1.len(), 1);
    let accepted2 = tracker.filter_words(&[("second", 0.99, 1.5)]);
    assert!(
        accepted2.is_empty(),
        "expected word to be rejected with tight tolerance, got {accepted2:?}"
    );

    let mut lenient = Tracker::new();
    assert_eq!(lenient.filter_words(&[("first", 0.0, 1.0)]).len(), 1);
    assert_eq!(lenient.filter_words(&[("second", 0.99, 1.5)]).len(), 1);
}

#[test]
fn a_time_that_is_no_number_is_dropped() {
    let mut tracker = TimestampDedup::starting_at(0.0f64.to_bits());
    let word = |start: f64| Word {
        text: "x".to_string(),
        start_bits: start.to_bits(),
        resume_bits: 0.0f64.to_bits(),
    };
    let kept = tracker.filter_words(&[
        word(f64::NAN),
        word(-0.0),
        word(-1.0),
        word(f64::INFINITY),
    ]);
    assert_eq!(kept, vec![1, 3]);
}

#[test]
fn text_dedup_no_previous() {
    let mut tracker = TextDedup::new();
    let result = tracker.filter_text("Hello world");
    assert_eq!(result, "Hello world");
}

#[test]
fn text_dedup_removes_overlap_prefix() {
    // Simulates sliding window: window 2 re-transcribes window 1 + new text.
    let mut tracker = TextDedup::new();
    tracker.filter_text("the quick brown fox");
    let result = tracker.filter_text("the quick brown fox jumps over");
    assert_eq!(result, "jumps over");
}

#[test]
fn text_dedup_handles_whisper_rephrase() {
    // Whisper changes "to see" → "and see" in the overlap region.
    // The anchor (last 3+ words of prev) should still find the match.
    let mut tracker = TextDedup::new();
    tracker.filter_text("trying to test it to see if it works");
    // Window 2 rephrased slightly but the end of prev ("if it works") is intact.
    let result =
        tracker.filter_text("trying to test it and see if it works right now I am speaking");
    assert_eq!(result, "right now I am speaking");
}

#[test]
fn text_dedup_no_overlap_found() {
    let mut tracker = TextDedup::new();
    tracker.filter_text("Hello world");
    let result = tracker.filter_text("completely different text");
    assert_eq!(result, "completely different text");
}

#[test]
fn text_dedup_full_overlap() {
    let mut tracker = TextDedup::new();
    tracker.filter_text("Hello world foo bar baz");
    let result = tracker.filter_text("Hello world foo bar baz");
    assert_eq!(result, "");
}

#[test]
fn text_dedup_sliding_window_sequence() {
    // Simulate 3 overlapping windows.
    let mut tracker = TextDedup::new();

    let r1 = tracker.filter_text("A B C D E F");
    assert_eq!(r1, "A B C D E F");

    let r2 = tracker.filter_text("A B C D E F G H I");
    assert_eq!(r2, "G H I");

    let r3 = tracker.filter_text("D E F G H I J K L");
    assert_eq!(r3, "J K L");
}

#[test]
fn text_dedup_custom_max_recent_chars() {
    // Configure a tiny buffer (16 bytes) and confirm the recent_text is
    // trimmed to at most that many bytes after a long input.
    let mut tracker = TextDedup::new().with_max_recent_chars(16);
    tracker.filter_text("the quick brown fox jumps over the lazy dog");
    assert!(
        tracker.recent_text.len() <= 16,
        "expected trim to ≤16 bytes, got {} bytes ({:?})",
        tracker.recent_text.len(),
        tracker.recent_text
    );
}

#[test]
fn text_dedup_trim_respects_utf8_boundary() {
    // Multi-byte characters, so that a cut at a fixed number of bytes lands
    // inside one of them. Each "é" is 2 bytes, "中" is 3 bytes.
    let mut tracker = TextDedup::new().with_max_recent_chars(32);
    let input = "é中é中é中é中é中é中é中é中é中é中é中é中é中é中é中é中";
    // Sanity: our input is non-trivially long.
    assert!(input.len() > 32);
    // This must not panic.
    let _ = tracker.filter_text(input);
    // We floor `trim_at` down to a char boundary, so the surviving buffer
    // is at least max_recent_chars bytes and never more than
    // max_recent_chars + (max UTF-8 char len - 1) = max + 3.
    let len = tracker.recent_text.len();
    assert!(
        (32..=32 + 3).contains(&len),
        "expected trimmed buffer in 32..=35 bytes, got {len} ({:?})",
        tracker.recent_text
    );
    // The surviving String must be valid UTF-8 with a clean prefix —
    // re-decoding from its bytes must round-trip.
    let bytes = tracker.recent_text.as_bytes().to_vec();
    assert_eq!(std::str::from_utf8(&bytes).unwrap(), tracker.recent_text);
}

#[test]
fn normalize_word_strips_punctuation() {
    assert_eq!(normalize_word("Hello,"), "hello");
    assert_eq!(normalize_word("world."), "world");
    assert_eq!(normalize_word("test"), "test");
}

#[test]
fn words_match_exact() {
    assert!(words_match("hello", "hello"));
    assert!(words_match("Hello", "hello"));
}

#[test]
fn words_match_with_punctuation() {
    assert!(words_match("hello,", "hello"));
    assert!(words_match("world.", "world"));
}

#[test]
fn words_match_fuzzy() {
    // Small edit distance should still match.
    assert!(words_match("hello", "helo"));
}

#[test]
fn words_dont_match_very_different() {
    assert!(!words_match("hello", "world"));
}

#[test]
fn remove_overlap_anchor_search() {
    // Anchor "three four" from end of prev, found in new text.
    let result = remove_overlap("one two three four", "two three four five six");
    assert_eq!(result, "five six");
}

#[test]
fn remove_overlap_with_inserted_word() {
    // Whisper inserted "really" but the end anchor still matches.
    let result = remove_overlap(
        "I think it is going to work",
        "I really think it is going to work now",
    );
    assert_eq!(result, "now");
}

#[test]
fn remove_overlap_none() {
    let result = remove_overlap("hello world", "completely different");
    assert_eq!(result, "completely different");
}

#[test]
fn remove_overlap_prefix_fallback() {
    // Short prev — falls back to prefix alignment.
    let result = remove_overlap("brown fox", "brown fox jumps");
    assert_eq!(result, "jumps");
}

#[test]
fn floor_char_boundary_handles_multibyte() {
    let s = "é中é"; // 2 + 3 + 2 = 7 bytes
                    // Index 1 is inside "é" (which spans bytes 0..2) → floor to 0.
    assert_eq!(floor_char_boundary(s, 1), 0);
    // Index 2 is the start of "中" → already a boundary.
    assert_eq!(floor_char_boundary(s, 2), 2);
    // Index 3 is inside "中" (which spans bytes 2..5) → floor to 2.
    assert_eq!(floor_char_boundary(s, 3), 2);
    // Index 4 is also inside "中" → floor to 2.
    assert_eq!(floor_char_boundary(s, 4), 2);
    // Index 5 is the start of "é" → boundary.
    assert_eq!(floor_char_boundary(s, 5), 5);
    // Index past the end clamps to len.
    assert_eq!(floor_char_boundary(s, 100), s.len());
}

#[test]
fn issue_55_repro_rephrased_tail_fails_open() {
    let mut tracker = TextDedup::new();
    tracker.filter_text("Well, let me try to figure out if this is...");
    let result = tracker.filter_text(
        "Well, let me try to figure out if this might be actually enough. \
         So anyways, I typed my code in the description.",
    );
    assert_eq!(
        result,
        "Well, let me try to figure out if this might be actually enough. \
         So anyways, I typed my code in the description."
    );
}

#[test]
fn issue_55_surviving_tail_anchor_still_matches() {
    let mut tracker = TextDedup::new();
    tracker.filter_text(
        "Well, let me try to figure out if this is... might be actually enough.",
    );
    let result = tracker.filter_text(
        "Well, let me try to figure out if this might be actually enough. \
         So anyways, I typed my code in the description.",
    );
    assert_eq!(result, "So anyways, I typed my code in the description.");
}

#[test]
fn issue_55_repro_long_overlap_beyond_search_limit_fails_open() {
    let prev = "Okay so today I want to walk through the entire deployment \
                pipeline because several people asked how the staging \
                environment gets promoted into production and honestly the \
                documentation we have right now does not explain any of it \
                clearly";
    let new = "Look, so today I want to walk through the entire deployment \
               pipeline because several people asked how the staging \
               environment gets promoted into production and honestly the \
               documentation we have right now does not explain any of it \
               clearly which hurts.";
    let mut tracker = TextDedup::new();
    tracker.filter_text(prev);
    let result = tracker.filter_text(new);
    assert_eq!(result, new);
}

#[test]
fn issue_55_repro_resurrected_earlier_phrase_passes_dedup() {
    let mut tracker = TextDedup::new();
    tracker.filter_text("So anyways, I typed my code in the description.");
    let result = tracker
        .filter_text("I typed my code in the description. Might be actually enough.");
    assert_eq!(result, "Might be actually enough.");
}

#[test]
fn issue_55_repro_stale_anchor_after_pause_deletes_novel_words() {
    let mut tracker = TextDedup::new();
    tracker.filter_text("Please remember to check the reports");
    let result = tracker
        .filter_text("Yesterday I asked him to check the reports again before the meeting");
    assert_eq!(result, "again before the meeting");
}

#[test]
fn punctuation_is_stripped_at_the_end_only() {
    assert_eq!(strip_punctuation("don't?!"), "don't");
    assert_eq!(strip_punctuation("..."), "");
    assert_eq!(strip_punctuation("«é»"), "«é»");
    assert_eq!(normalize_word("ÀB."), "àb");
}

#[test]
fn phrases_match_word_by_word() {
    let words = |s: &str| -> Vec<String> { s.split(' ').map(str::to_string).collect() };
    assert!(ngram_match(&words("The quick fox."), &words("the quick fox")));
    assert!(!ngram_match(&words("the quick"), &words("the quick fox")));
    assert!(!ngram_match(&words("the slow fox"), &words("the quick fox")));
}

#[test]
fn the_overlap_is_read_off_a_table_of_matching_words() {
    // Three words before, four after; the last two words before are the
    // second and third after, and no three words in a row agree.
    let table = vec![
        vec![false, false, false, false],
        vec![false, true, false, false],
        vec![false, false, true, false],
    ];
    assert_eq!(overlap_end(&table, 4), None);

    // All three words are found one place further on.
    let anchored = vec![
        vec![false, true, false, false, false],
        vec![false, false, true, false, false],
        vec![false, false, false, true, false],
    ];
    assert_eq!(overlap_end(&anchored, 5), Some(4));

    // One word before: only the prefix can match.
    assert_eq!(overlap_end(&[vec![true, false]], 2), Some(1));
}

#[test]
fn nothing_is_removed_from_or_by_an_empty_text() {
    assert_eq!(remove_overlap("", "a  b"), "a  b");
    assert_eq!(remove_overlap("a b", "   "), "   ");
}

#[test]
fn a_repeated_window_adds_nothing() {
    let mut tracker = TextDedup::default();
    assert_eq!(tracker.filter_text("one two"), "one two");
    assert_eq!(tracker.filter_text("one two"), "");
    assert_eq!(tracker.recent_text, "one two");
}

#[test]
fn windows_of_up_to_fifty_words_repeat_without_effect() {
    for n in [1, 2, 5, 8, 9, 20, 40, 50] {
        let words: Vec<String> = (0..n).map(|i| format!("{i:03}{i:03}{i:03}")).collect();
        let text = words.join(" ");
        let mut tracker = TextDedup::new().with_max_recent_chars(10_000);
        assert_eq!(tracker.filter_text(&text), text);
        assert_eq!(tracker.filter_text(&text), "", "{n} words");
    }
    // An end that occurs before is taken for the end.
    let text = "xxxx yyyy zzzz qqqq wwww eeee rrrr tttt uuuu \
                xxxx yyyy zzzz qqqq wwww eeee rrrr tttt";
    assert_eq!(
        remove_overlap(text, text),
        "uuuu xxxx yyyy zzzz qqqq wwww eeee rrrr tttt"
    );
}
