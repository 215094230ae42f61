use whisrs::audio::capture::{collect_samples, supports_capture, FormatRange, SampleKind};
use whisrs::audio::feedback::{envelope, playback_over, Playback, TONE_SAMPLE_RATE};
use whisrs::audio::recovery::{
    cleanup_old_recoveries, recovery_dir, save_recovery_audio, RecoveryEntry,
};
use whisrs::audio::silence::AutoStopDetector;
use whisrs::audio::wav::encode_wav;
use whisrs::config::types::WhisrsError;
use whisrs::ieee::{is_at_least, is_less};

fn read_back(wav: &[u8]) -> (hound::WavSpec, Vec<i16>) {
    let reader = hound::WavReader::new(std::io::Cursor::new(wav)).unwrap();
    let spec = reader.spec();
    (spec, reader.into_samples::<i16>().map(|s| s.unwrap()).collect())
}

#[test]
fn wav_encode_wav_produces_valid_output() {
    let samples: Vec<i16> = (0..1600).map(|i| (i % 256) as i16).collect();
    let wav = encode_wav(&samples).unwrap();

    // WAV files start with "RIFF".
    assert_eq!(&wav[..4], b"RIFF");

    // Verify we can read it back with hound.
    let (spec, read_samples) = read_back(&wav);
    assert_eq!(spec.channels, 1);
    assert_eq!(spec.sample_rate, 16_000);
    assert_eq!(spec.bits_per_sample, 16);
    assert_eq!(read_samples.len(), 1600);
    assert_eq!(read_samples, samples);
}

#[test]
fn wav_encode_wav_empty_samples() {
    let wav = encode_wav(&[]).unwrap();
    assert_eq!(&wav[..4], b"RIFF");
}

#[test]
fn capture_encode_wav_produces_valid_output() {
    let samples: Vec<i16> = (0..1600).map(|i| (i % 256) as i16).collect();
    let wav = encode_wav(&samples).unwrap();
    assert_eq!(&wav[..4], b"RIFF");
    let (spec, read_samples) = read_back(&wav);
    assert_eq!(spec.channels, 1);
    assert_eq!(spec.sample_rate, 16_000);
    assert_eq!(spec.bits_per_sample, 16);
    assert_eq!(read_samples.len(), 1600);
    assert_eq!(read_samples, samples);
}

#[test]
fn capture_encode_wav_empty_samples() {
    let wav = encode_wav(&[]).unwrap();
    assert_eq!(&wav[..4], b"RIFF");
}

#[test]
fn the_file_has_exactly_these_bytes() {
    let mut expected: Vec<u8> = Vec::new();
    expected.extend_from_slice(b"RIFF");
    expected.extend_from_slice(&[48, 0, 0, 0]);
    expected.extend_from_slice(b"WAVEfmt ");
    expected.extend_from_slice(&[16, 0, 0, 0, 1, 0, 1, 0]);
    expected.extend_from_slice(&[0x80, 0x3e, 0, 0, 0x00, 0x7d, 0, 0]);
    expected.extend_from_slice(&[2, 0, 16, 0]);
    expected.extend_from_slice(b"data");
    expected.extend_from_slice(&[12, 0, 0, 0]);
    expected.extend_from_slice(&[0, 0, 1, 0, 0xff, 0xff, 0xff, 0x7f, 0x00, 0x80, 0x34, 0x12]);
    let samples = [0, 1, -1, i16::MAX, i16::MIN, 0x1234];
    assert_eq!(encode_wav(&samples).unwrap(), expected);

    let long: Vec<i16> = (0..70_000).map(|i| (i % 40_000 - 20_000) as i16).collect();
    let wav = encode_wav(&long).unwrap();
    assert_eq!(wav.len(), 44 + 140_000);
    assert_eq!(wav[4..8], 140_036u32.to_le_bytes());
    assert_eq!(wav[40..44], 140_000u32.to_le_bytes());
    assert_eq!(read_back(&wav).1, long);
}

#[test]
fn recovery_dir_is_under_cache() {
    let dir_str = recovery_dir(&Some("/home/u/.cache".to_string()));
    assert!(
        dir_str.contains("whisrs") && dir_str.contains("recovery"),
        "unexpected recovery dir: {dir_str}"
    );
    assert_eq!(dir_str, "/home/u/.cache/whisrs/recovery");
    assert_eq!(recovery_dir(&None), "/tmp/whisrs/recovery");
}

#[test]
fn save_recovery_rejects_empty_samples() {
    let err = save_recovery_audio(&[], &None, "now").unwrap_err();
    assert!(err.message().contains("no audio samples"));
    assert!(matches!(err, WhisrsError::Audio(_)));
}

#[test]
fn save_and_read_recovery_audio() {
    let samples: Vec<i16> = (0..1600).map(|i| (i % 256) as i16).collect();
    let file = save_recovery_audio(&samples, &None, "2026-01-02T03-04-05").unwrap();
    assert_eq!(file.dir, "/tmp/whisrs/recovery");
    assert_eq!(
        file.path,
        "/tmp/whisrs/recovery/recovery_2026-01-02T03-04-05.wav"
    );
    assert_eq!(read_back(&file.contents).1, samples);
}

fn entry(name: &str, modified: i128) -> RecoveryEntry {
    RecoveryEntry {
        name: name.to_string(),
        modified,
    }
}

#[test]
fn only_the_newest_recoveries_are_kept() {
    let entries = [
        entry("recovery_c.wav", 30),
        entry("notes.txt", 1),
        entry("recovery_a.wav", 10),
        entry("recovery_b.wav", 10),
        entry("recovery_broken.mp3", 0),
        entry("recovery_d.wav", -5),
    ];
    // The oldest go first, and files of the same age in the order given.
    assert_eq!(cleanup_old_recoveries(&entries, 1), [5, 2, 3]);
    assert_eq!(cleanup_old_recoveries(&entries, 3), [5]);
    assert_eq!(cleanup_old_recoveries(&entries, 0), [5, 2, 3, 0]);
    assert!(cleanup_old_recoveries(&entries, 4).is_empty());
    assert!(cleanup_old_recoveries(&[], 0).is_empty());
}

/// The energy of a chunk, between 0 and 1.
fn rms_energy(samples: &[i16]) -> f64 {
    if samples.is_empty() {
        return 0.0;
    }
    let sum_squares: f64 = samples.iter().map(|&s| (s as f64) * (s as f64)).sum();
    (sum_squares / samples.len() as f64).sqrt() / i16::MAX as f64
}

struct Detector(AutoStopDetector);

impl Detector {
    fn new(threshold: f64, timeout_ms: u64, sample_rate: u32) -> Self {
        Detector(AutoStopDetector::new(
            threshold.to_bits(),
            timeout_ms,
            sample_rate,
        ))
    }

    fn feed(&mut self, samples: &[i16]) -> bool {
        self.0.feed(rms_energy(samples).to_bits(), samples.len())
    }
}

#[test]
fn auto_stop_not_triggered_without_speech() {
    // 16kHz, 2000ms timeout, threshold 0.01.
    let mut detector = Detector::new(0.01, 2000, 16_000);

    // Feed 3 seconds of silence — should NOT trigger because no speech detected.
    let silence = vec![0i16; 16_000]; // 1 second
    assert!(!detector.feed(&silence));
    assert!(!detector.feed(&silence));
    assert!(!detector.feed(&silence));
    assert!(!detector.0.has_speech());
}

#[test]
fn auto_stop_triggered_after_speech_then_silence() {
    let mut detector = Detector::new(0.01, 2000, 16_000);

    // Feed some loud audio (speech).
    let loud: Vec<i16> = vec![10000; 16_000]; // 1 second of speech
    assert!(!detector.feed(&loud));
    assert!(detector.0.has_speech());

    // Feed 1 second of silence — not enough yet (need 2000ms).
    let silence = vec![0i16; 16_000];
    assert!(!detector.feed(&silence));

    // Feed another second — now 2 seconds of silence, should trigger.
    assert!(detector.feed(&silence));
}

#[test]
fn auto_stop_resets_on_speech() {
    let mut detector = Detector::new(0.01, 2000, 16_000);

    let loud: Vec<i16> = vec![10000; 16_000];
    let silence = vec![0i16; 16_000];

    // Speech, then 1.5s silence.
    detector.feed(&loud);
    detector.feed(&silence);
    // Half second more silence.
    let half_sec = vec![0i16; 8_000];
    assert!(!detector.feed(&half_sec));

    // More speech — resets silence counter.
    assert!(!detector.feed(&loud));

    // 1.5s silence again — not enough.
    detector.feed(&silence);
    assert!(!detector.feed(&half_sec));

    // Another 0.5s — now 2s total since last speech.
    assert!(detector.feed(&half_sec));
}

#[test]
fn auto_stop_reset() {
    let mut detector = Detector::new(0.01, 2000, 16_000);

    let loud: Vec<i16> = vec![10000; 16_000];
    detector.feed(&loud);
    assert!(detector.0.has_speech());

    detector.0.reset();
    assert!(!detector.0.has_speech());
}

#[test]
fn auto_stop_exact_threshold() {
    // Timeout of exactly 1600 samples (100ms at 16kHz).
    let mut detector = Detector::new(0.01, 100, 16_000);
    assert_eq!(detector.0.timeout_samples, 1600);

    let loud: Vec<i16> = vec![10000; 1600];
    detector.feed(&loud);

    // Feed exactly 1600 silent samples.
    let silence = vec![0i16; 1600];
    assert!(detector.feed(&silence));
}

#[test]
fn silence_is_counted_alike_however_it_is_cut() {
    let loud = 0.5f64.to_bits();
    let quiet = 0.0f64.to_bits();
    for cut in [1usize, 7, 160, 800, 1600] {
        let mut detector = AutoStopDetector::new(0.01f64.to_bits(), 100, 16_000);
        assert!(!detector.feed(loud, 320));
        let mut fed = 0;
        while fed + cut < 1600 {
            assert!(!detector.feed(quiet, cut));
            fed += cut;
        }
        assert_eq!(detector.silent_samples, fed as u64);
        assert!(detector.feed(quiet, 1600 - fed));
        assert_eq!(detector.silent_samples, 1600);
    }
}

#[test]
fn energy_at_the_threshold_is_speech() {
    let mut detector = AutoStopDetector::new(0.25f64.to_bits(), 1000, 16_000);
    detector.feed(0.25f64.to_bits(), 10);
    assert!(detector.has_speech());
}

#[test]
fn doubles_compare_by_their_bits() {
    let values = [
        f64::NEG_INFINITY,
        -1.5,
        -f64::MIN_POSITIVE,
        -0.0,
        0.0,
        5e-324,
        0.85,
        1.0,
        f64::INFINITY,
        f64::NAN,
        -f64::NAN,
    ];
    for a in values {
        for b in values {
            assert_eq!(is_at_least(a.to_bits(), b.to_bits()), a >= b, "{a} >= {b}");
            assert_eq!(is_less(a.to_bits(), b.to_bits()), a < b, "{a} < {b}");
        }
    }
}

#[test]
fn a_capture_format_is_looked_for_in_every_range() {
    let range = |channels, min_sample_rate, max_sample_rate, format| FormatRange {
        channels,
        min_sample_rate,
        max_sample_rate,
        format,
    };
    let good = range(1, 8_000, 48_000, SampleKind::I16);
    for bad in [
        range(2, 8_000, 48_000, SampleKind::I16),
        range(1, 16_001, 48_000, SampleKind::I16),
        range(1, 8_000, 15_999, SampleKind::I16),
        range(1, 8_000, 48_000, SampleKind::F32),
        range(1, 8_000, 48_000, SampleKind::Other),
    ] {
        assert!(!supports_capture(&[bad]));
        assert!(supports_capture(&[bad, good]));
    }
    assert!(!supports_capture(&[]));
}

#[test]
fn chunks_are_joined_in_order() {
    assert_eq!(
        collect_samples(&[vec![1, 2], vec![], vec![3]]),
        vec![1, 2, 3]
    );
    assert!(collect_samples(&[]).is_empty());
}

#[test]
fn a_tone_is_handed_out_once_and_then_silence() {
    let tone: Vec<u32> = [0.5f32, -0.5, 0.25].iter().map(|s| s.to_bits()).collect();
    let mut playback = Playback::new(tone.clone());
    assert_eq!(playback.fill(2), tone[..2]);
    assert!(!playback.finished);
    assert_eq!(playback.fill(1), tone[2..]);
    assert!(!playback.finished);
    assert_eq!(playback.fill(2), [0, 0]);
    assert!(playback.finished);
    assert_eq!(f32::from_bits(0), 0.0);
}

#[test]
fn playback_is_waited_for_two_seconds_at_most() {
    assert!(playback_over(true, 0));
    assert!(!playback_over(false, 2000));
    assert!(playback_over(false, 2001));
}

#[test]
fn a_tone_fades_in_and_out() {
    let n = TONE_SAMPLE_RATE as usize / 10;
    let fade = 441;
    assert_eq!(envelope(0, n, fade), (0, fade));
    assert_eq!(envelope(440, n, fade), (440, fade));
    assert_eq!(envelope(441, n, fade), (1, 1));
    assert_eq!(envelope(n - fade, n, fade), (1, 1));
    assert_eq!(envelope(n - 1, n, fade), (1, fade));
}
