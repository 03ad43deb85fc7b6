//! End-to-end tests of the decoding controller over mocked collaborators.

use whisper_decoder::decoder::{AcousticModel, Decoder, Task};
use whisper_decoder::errors::DecodeError;
use whisper_decoder::vocab::Tokenizer;

// Synthetic vocabulary of 16 ids used by the mocks:
// 10 = start-of-transcript, 11 = transcribe, 12 = translate,
// 13 = end-of-transcript, 14 = no-speech, 15 = no-timestamps.
const VOCAB: usize = 16;
const SOT: u32 = 10;
const TRANSCRIBE: u32 = 11;
const EOT: u32 = 13;
const NO_SPEECH: u32 = 14;
const NTS: u32 = 15;

const S: i64 = 65536;

struct MockTok;

impl Tokenizer for MockTok {
    fn token_to_id(&self, name: &str) -> Option<u32> {
        match name {
            "<|startoftranscript|>" => Some(SOT),
            "<|transcribe|>" => Some(TRANSCRIBE),
            "<|translate|>" => Some(12),
            "<|endoftext|>" => Some(EOT),
            "<|nospeech|>" => Some(NO_SPEECH),
            "<|notimestamps|>" => Some(NTS),
            _ => None,
        }
    }

    fn decode(&self, ids: &Vec<u32>, skip_special: bool) -> Option<String> {
        let mut out = String::new();
        for &id in ids.iter() {
            if skip_special && id >= 10 {
                continue;
            }
            out.push_str(&format!("[{id}]"));
        }
        Some(out)
    }
}

/// A deterministic model: `first_rows[w]` is the first-position row the
/// no-speech probability is read from in the `w`-th encoded window (the
/// last row repeats); `rows[k]` is the last-position row of step `k` (the
/// last row repeats when the loop runs longer).
struct MockModel {
    first_rows: Vec<Vec<i64>>,
    rows: Vec<Vec<i64>>,
    prime_len: usize,
    encode_calls: usize,
    fail_encodes: usize,
}

impl MockModel {
    fn new(first_logits: Vec<i64>, rows: Vec<Vec<i64>>, prime_len: usize) -> Self {
        MockModel {
            first_rows: vec![first_logits],
            rows,
            prime_len,
            encode_calls: 0,
            fail_encodes: 0,
        }
    }
}

impl AcousticModel for MockModel {
    type Features = ();
    type Hidden = usize;

    fn encode(&mut self, _seek: usize, _frames: usize) -> Result<(), DecodeError> {
        self.encode_calls += 1;
        if self.encode_calls <= self.fail_encodes {
            return Err(DecodeError::ModelForward);
        }
        Ok(())
    }

    fn decode_step(
        &mut self,
        tokens: &Vec<u32>,
        _features: &(),
        _first: bool,
    ) -> Result<usize, DecodeError> {
        Ok(tokens.len())
    }

    fn project_to_logits(&self, hidden: &usize, at_start: bool) -> Result<Vec<i64>, DecodeError> {
        if at_start {
            let w = self.encode_calls.saturating_sub(1).min(self.first_rows.len() - 1);
            return Ok(self.first_rows[w].clone());
        }
        let step = hidden.saturating_sub(self.prime_len);
        let row = step.min(self.rows.len() - 1);
        Ok(self.rows[row].clone())
    }
}

fn session(seed: u64, mtp: usize, suppressed: Vec<u32>, timestamps: bool) -> Decoder {
    Decoder::new(&MockTok, VOCAB, mtp, &suppressed, seed, None, Some(Task::Transcribe),
        timestamps, false)
        .unwrap()
}

fn row_with(peaks: &[(usize, i64)]) -> Vec<i64> {
    let mut v = vec![0i64; VOCAB];
    for &(i, x) in peaks {
        v[i] = x;
    }
    v
}

#[test]
fn single_segment_two_sampled_tokens() {
    // 30 content frames, one 30-frame window, ladder [0.0]; the model emits
    // id 5 then end-of-transcript: exactly one segment, token list two
    // beyond the priming tokens, average log-probability from exactly the
    // sampled tokens.
    let mut model = MockModel::new(
        row_with(&[]),
        vec![row_with(&[(5, 3 * S)]), row_with(&[(EOT as usize, 3 * S)])],
        3,
    );
    let mut d = session(7, 200, vec![], false);
    let ladder = vec![0i64];
    let segs = d.run(&mut model, &MockTok, 30, &ladder).unwrap();
    assert_eq!(segs.len(), 1);
    assert_eq!(segs[0].start, 0);
    assert_eq!(segs[0].duration, 30);
    let dr = &segs[0].dr;
    assert_eq!(dr.tokens, vec![SOT, TRANSCRIBE, NTS, 5, EOT]);
    assert_eq!(dr.temperature, 0);
    // Two accumulated tokens (the terminating one included), each with
    // probability 8/23 of the pseudo-softmax, magnitude 65299 apiece,
    // averaged over the 5 tokens.
    assert_eq!(dr.avg_logprob, -(2 * 65299 / 5));
    // All-equal first-position row: no-speech probability is exactly 1/16.
    assert_eq!(dr.no_speech_prob, Some(4096));
    assert_eq!(dr.compression_ratio, None);
}

#[test]
fn silent_low_quality_window_is_skipped() {
    // High no-speech probability (32/47 of the scale) and a low average
    // log-probability: the only window is processed but discarded.
    let mut model = MockModel::new(
        row_with(&[(NO_SPEECH as usize, 5 * S)]),
        vec![row_with(&[])],
        3,
    );
    let mut d = session(7, 8, vec![], false);
    let ladder = vec![0i64];
    let segs = d.run(&mut model, &MockTok, 30, &ladder).unwrap();
    assert_eq!(model.encode_calls, 1);
    assert_eq!(segs.len(), 0);
}

#[test]
fn fallback_escalates_to_second_temperature() {
    // The attempt at temperature 0 is below the log-probability threshold
    // while the no-speech probability stays below its threshold, so the
    // controller retries at 0.2 and returns that attempt.
    let mut model = MockModel::new(row_with(&[]), vec![row_with(&[])], 3);
    let mut d = session(7, 8, vec![], false);
    let ladder = vec![0i64, 13107];
    let dr = d
        .decode_with_fallback(&mut model, &MockTok, 0, 30, &ladder)
        .unwrap();
    assert_eq!(dr.temperature, 13107);
}

#[test]
fn empty_audio_returns_no_segments_without_model_calls() {
    let mut model = MockModel::new(row_with(&[]), vec![row_with(&[])], 3);
    let mut d = session(7, 8, vec![], false);
    let ladder = vec![0i64];
    let segs = d.run(&mut model, &MockTok, 0, &ladder).unwrap();
    assert_eq!(segs.len(), 0);
    assert_eq!(model.encode_calls, 0);
}

#[test]
fn suppressed_id_is_never_emitted() {
    // The model's favourite id is suppressed; the decode must never emit it.
    let mut model = MockModel::new(
        row_with(&[]),
        vec![row_with(&[(5, 3 * S), (EOT as usize, 2 * S)])],
        3,
    );
    let mut d = session(7, 200, vec![5], false);
    let ladder = vec![0i64];
    let segs = d.run(&mut model, &MockTok, 30, &ladder).unwrap();
    assert_eq!(segs.len(), 1);
    for &t in segs[0].dr.tokens.iter() {
        assert_ne!(t, 5);
    }
    // With id 5 masked, end-of-transcript is the argmax immediately.
    assert_eq!(segs[0].dr.tokens, vec![SOT, TRANSCRIBE, NTS, EOT]);
}

#[test]
fn no_timestamps_id_suppressed_in_timestamp_mode() {
    // In timestamp mode the no-timestamps id is masked even though the
    // model favours it.
    let mut model = MockModel::new(
        row_with(&[]),
        vec![row_with(&[(NTS as usize, 3 * S), (EOT as usize, 2 * S)])],
        2,
    );
    let mut d = session(7, 200, vec![], true);
    let ladder = vec![0i64];
    let segs = d.run(&mut model, &MockTok, 30, &ladder).unwrap();
    assert_eq!(segs.len(), 1);
    // Priming without the no-timestamps token, then end-of-transcript.
    assert_eq!(segs[0].dr.tokens, vec![SOT, TRANSCRIBE, EOT]);
}

#[test]
fn fixed_seed_decode_is_reproducible() {
    // A ladder that ends at temperature 0 but passes through a random
    // attempt first: two sessions with the same seed agree byte for byte.
    let ladder = vec![13107i64, 0];
    let mut out = Vec::new();
    for _ in 0..2 {
        let mut model = MockModel::new(row_with(&[]), vec![row_with(&[])], 3);
        let mut d = session(42, 8, vec![], false);
        let segs = d.run(&mut model, &MockTok, 6030, &ladder).unwrap();
        let flat: Vec<(u64, u64, Vec<u32>, String, i64, Option<i64>, i64)> = segs
            .iter()
            .map(|s| {
                (
                    s.start,
                    s.duration,
                    s.dr.tokens.clone(),
                    s.dr.text.clone(),
                    s.dr.avg_logprob,
                    s.dr.no_speech_prob,
                    s.dr.temperature,
                )
            })
            .collect();
        out.push(flat);
    }
    assert_eq!(out[0], out[1]);
}

#[test]
fn durations_cover_the_whole_timeline() {
    // 4500 frames split into a full 3000-frame window and a 1500-frame
    // remainder; nothing is skipped, and the durations sum to the total.
    let mut model = MockModel::new(row_with(&[]), vec![row_with(&[])], 3);
    // max_target_positions 0: no sampling steps, every window kept.
    let mut d = session(7, 0, vec![], false);
    let ladder = vec![0i64];
    let segs = d.run(&mut model, &MockTok, 4500, &ladder).unwrap();
    assert_eq!(segs.len(), 2);
    assert_eq!((segs[0].start, segs[0].duration), (0, 3000));
    assert_eq!((segs[1].start, segs[1].duration), (3000, 1500));
    let total: u64 = segs.iter().map(|s| s.duration).sum();
    assert_eq!(total, 4500);
}

#[test]
fn model_failure_on_first_attempt_is_recovered() {
    let mut model = MockModel::new(
        row_with(&[]),
        vec![row_with(&[(EOT as usize, 2 * S)])],
        3,
    );
    model.fail_encodes = 1;
    let mut d = session(7, 200, vec![], false);
    let ladder = vec![0i64, 0];
    let dr = d
        .decode_with_fallback(&mut model, &MockTok, 0, 30, &ladder)
        .unwrap();
    assert_eq!(dr.tokens, vec![SOT, TRANSCRIBE, NTS, EOT]);
}

#[test]
fn model_failure_on_last_attempt_aborts_the_run() {
    let mut model = MockModel::new(row_with(&[]), vec![row_with(&[])], 3);
    model.fail_encodes = 1000;
    let mut d = session(7, 8, vec![], false);
    let ladder = vec![0i64];
    let r = d.run(&mut model, &MockTok, 30, &ladder);
    assert_eq!(r.unwrap_err(), DecodeError::ModelForward);
}

#[test]
fn session_construction_fails_without_required_tokens() {
    struct EmptyTok;
    impl Tokenizer for EmptyTok {
        fn token_to_id(&self, _name: &str) -> Option<u32> {
            None
        }
        fn decode(&self, _ids: &Vec<u32>, _skip_special: bool) -> Option<String> {
            Some(String::new())
        }
    }
    let r = Decoder::new(&EmptyTok, VOCAB, 8, &vec![], 7, None, None, false, false);
    assert!(matches!(r, Err(DecodeError::MissingToken)));

    struct NoSilenceTok;
    impl Tokenizer for NoSilenceTok {
        fn token_to_id(&self, name: &str) -> Option<u32> {
            match name {
                "<|nocaptions|>" | "<|nospeech|>" => None,
                other => MockTok.token_to_id(other),
            }
        }
        fn decode(&self, _ids: &Vec<u32>, _skip_special: bool) -> Option<String> {
            Some(String::new())
        }
    }
    let r = Decoder::new(&NoSilenceTok, VOCAB, 8, &vec![], 7, None, None, false, false);
    assert!(matches!(r, Err(DecodeError::NoSpeechTokenUnavailable)));
}

#[test]
fn priming_carries_language_and_task() {
    // A multilingual session with an explicit language token and the
    // translate task primes with exactly those ids.
    let mut model = MockModel::new(
        row_with(&[]),
        vec![row_with(&[(EOT as usize, 2 * S)])],
        4,
    );
    let mut d = Decoder::new(
        &MockTok,
        VOCAB,
        200,
        &vec![],
        7,
        Some(9),
        Some(Task::Translate),
        false,
        false,
    )
    .unwrap();
    let ladder = vec![0i64];
    let segs = d.run(&mut model, &MockTok, 30, &ladder).unwrap();
    assert_eq!(segs.len(), 1);
    assert_eq!(segs[0].dr.tokens, vec![SOT, 9, 12, NTS, EOT]);
}

#[test]
fn silent_window_removes_exactly_one_segment() {
    // Two windows; the first is confidently silent with low quality and is
    // skipped, the second is kept: the result has one element fewer than
    // the number of windows processed, and carries the second window's
    // coordinates.
    let mut model = MockModel::new(row_with(&[]), vec![row_with(&[])], 3);
    model.first_rows = vec![row_with(&[(NO_SPEECH as usize, 5 * S)]), row_with(&[])];
    let mut d = session(7, 8, vec![], false);
    let ladder = vec![0i64];
    let segs = d.run(&mut model, &MockTok, 6000, &ladder).unwrap();
    assert_eq!(model.encode_calls, 2);
    assert_eq!(segs.len(), 1);
    assert_eq!((segs[0].start, segs[0].duration), (3000, 3000));
}
