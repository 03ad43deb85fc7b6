//! Unit tests of the sampler, the fixed-point kernels, the timestamp
//! parser and the model catalogue.

use whisper_decoder::catalog::WhichModel;
use whisper_decoder::errors::DecodeError;
use whisper_decoder::fallback::default_temperatures;
use whisper_decoder::fixed::{exp2_fp, log2_fp, MASKED_SCORE};
use whisper_decoder::sampler::{prob_of, rng_from_seed, sample, sample_argmax};
use whisper_decoder::timeline::frames_to_centiseconds;
use whisper_decoder::timestamps::parse_timestamps;
use whisper_decoder::vocab::{build_suppress_mask, first_resolved, resolve_token, token_id, Tokenizer};
use whisper_decoder::decoder::DecodingResult;
use whisper_decoder::fallback::accepts;
use whisper_decoder::{check_sample_rate, SAMPLE_RATE};

const S: i64 = 65536;

#[test]
fn argmax_breaks_ties_toward_lowest_index() {
    assert_eq!(sample_argmax(&vec![1, 9, 9, 3]), 1);
    assert_eq!(sample_argmax(&vec![7]), 0);
    assert_eq!(sample_argmax(&vec![-5, -5, -5]), 0);
}

#[test]
fn zero_temperature_sampling_is_deterministic_and_ignores_rng() {
    let scores = vec![0i64, 2 * S, 2 * S, S];
    let mut rng_a = rng_from_seed(1);
    let mut rng_b = rng_from_seed(999);
    let a = sample(&scores, 0, &mut rng_a).unwrap();
    let b = sample(&scores, 0, &mut rng_b).unwrap();
    assert_eq!(a, 1);
    assert_eq!(b, 1);
    // A second draw from the same generator still agrees: the state was
    // not consumed.
    assert_eq!(sample(&scores, 0, &mut rng_a).unwrap(), 1);
}

#[test]
fn positive_temperature_never_draws_a_masked_id() {
    // Index 0 is masked (zero weight); if the weighted draw handed its
    // input through unchanged this would pick index 0 almost always.
    let scores = vec![MASKED_SCORE, -2 * S];
    let mut rng = rng_from_seed(3);
    for _ in 0..100 {
        let t = sample(&scores, 13107, &mut rng).unwrap();
        assert_eq!(t, 1);
    }
}

#[test]
fn fully_masked_scores_fail_with_invalid_distribution() {
    let scores = vec![MASKED_SCORE, MASKED_SCORE];
    let mut rng = rng_from_seed(3);
    assert_eq!(sample(&scores, 13107, &mut rng).unwrap_err(), DecodeError::InvalidDistribution);
}

#[test]
fn fixed_point_exponential_and_logarithm_agree() {
    assert_eq!(exp2_fp(0), 65536);
    assert_eq!(exp2_fp(S), 131072);
    assert_eq!(exp2_fp(16 * S), 1u64 << 32);
    assert_eq!(log2_fp(1u128 << 32), 32 * 65536);
    assert_eq!(log2_fp(1), 0);
    // Linear interpolation between powers of two: log2(3) ~ 1.5.
    assert_eq!(log2_fp(3), 65536 + 32768);
    // The exponential's result carries the 2^16 fixed-point unit, so the
    // logarithm of the raw integer is the argument shifted by 16.0.
    assert_eq!(log2_fp(exp2_fp(5 * S + 123) as u128), (21 * S + 123) as u64);
}

#[test]
fn probability_of_uniform_scores_is_uniform() {
    let scores = vec![0i64; 16];
    assert_eq!(prob_of(&scores, 3), S / 16);
}

#[test]
fn timestamp_parse_splits_at_markers() {
    // sot = 1, eot = 2, no-timestamps = 10; ids above 10 are markers.
    let tokens = vec![1u32, 5, 6, 12, 7, 14, 2, 8];
    let spans = parse_timestamps(&tokens, 1, 2, 10);
    assert_eq!(spans.len(), 3);
    assert_eq!(spans[0].start_ticks, 0);
    assert_eq!(spans[0].end_ticks, Some(3));
    assert_eq!(spans[0].tokens, vec![5, 6]);
    assert_eq!(spans[1].start_ticks, 3);
    assert_eq!(spans[1].end_ticks, Some(5));
    assert_eq!(spans[1].tokens, vec![7]);
    assert_eq!(spans[2].start_ticks, 5);
    assert_eq!(spans[2].end_ticks, None);
    assert_eq!(spans[2].tokens, vec![8]);
    // Round trip: the concatenated buffers are the text tokens in order.
    let flat: Vec<u32> = spans.iter().flat_map(|s| s.tokens.clone()).collect();
    assert_eq!(flat, vec![5, 6, 7, 8]);
}

#[test]
fn timestamp_parse_without_text_emits_nothing() {
    let spans = parse_timestamps(&vec![1u32, 12, 14, 2], 1, 2, 10);
    assert_eq!(spans.len(), 0);
}

#[test]
fn consecutive_markers_only_advance_the_clock() {
    let spans = parse_timestamps(&vec![11u32, 13, 5, 15], 1, 2, 10);
    assert_eq!(spans.len(), 1);
    assert_eq!(spans[0].start_ticks, 4);
    assert_eq!(spans[0].end_ticks, Some(6));
    assert_eq!(spans[0].tokens, vec![5]);
}

#[test]
fn ladder_and_conversions_match_the_reference_constants() {
    assert_eq!(default_temperatures(), vec![0, 13107, 26214, 39322, 52429, 65536]);
    assert_eq!(frames_to_centiseconds(3000), 3000);
    assert_eq!(frames_to_centiseconds(0), 0);
    assert!(check_sample_rate(SAMPLE_RATE));
    assert!(!check_sample_rate(44100));
}

#[test]
fn catalogue_reports_language_support_and_repositories() {
    assert!(WhichModel::Tiny.is_multilingual());
    assert!(!WhichModel::TinyEn.is_multilingual());
    assert!(WhichModel::DistilLargeV3.is_multilingual());
    assert!(!WhichModel::DistilMediumEn.is_multilingual());
    assert_eq!(WhichModel::Tiny.model_and_revision(), ("openai/whisper-tiny", "main"));
    assert_eq!(WhichModel::LargeV2.model_and_revision(), ("openai/whisper-large-v2", "refs/pr/57"));
}

#[test]
fn error_descriptions_are_stable() {
    assert_eq!(
        DecodeError::NoSpeechTokenUnavailable.describe(),
        "unable to find any non-speech token"
    );
    assert_eq!(DecodeError::MissingToken.describe(), "no token-id for a required special token");
}

#[test]
fn mask_construction_follows_the_configuration() {
    // Ids 2 and 5 are configured; id 7 is the no-timestamps id.
    let mask = build_suppress_mask(8, &vec![2, 5], true, 7);
    assert_eq!(mask, vec![false, false, true, false, false, true, false, true]);
    let mask_plain = build_suppress_mask(8, &vec![2, 5], false, 7);
    assert_eq!(mask_plain, vec![false, false, true, false, false, true, false, false]);
}

#[test]
fn token_lookup_decides_exactly() {
    assert_eq!(resolve_token(Some(3)), Ok(3));
    assert_eq!(resolve_token(None), Err(DecodeError::MissingToken));
    assert_eq!(first_resolved(&vec![None, Some(4), Some(9)]), Ok(4));
    assert_eq!(
        first_resolved(&vec![None, None]),
        Err(DecodeError::NoSpeechTokenUnavailable)
    );
    struct OneTok;
    impl Tokenizer for OneTok {
        fn token_to_id(&self, name: &str) -> Option<u32> {
            if name == "<|endoftext|>" { Some(2) } else { None }
        }
        fn decode(&self, _ids: &Vec<u32>, _skip: bool) -> Option<String> {
            Some(String::new())
        }
    }
    assert_eq!(token_id(&OneTok, "<|endoftext|>"), Ok(2));
    assert_eq!(token_id(&OneTok, "<|nospeech|>"), Err(DecodeError::MissingToken));
}

#[test]
fn fallback_trigger_reads_both_signals() {
    let good = DecodingResult { avg_logprob: -1000, ..Default::default() };
    assert!(accepts(&good));
    let degenerate = DecodingResult { avg_logprob: -2 * S, ..Default::default() };
    assert!(!accepts(&degenerate));
    let silent = DecodingResult {
        avg_logprob: -2 * S,
        no_speech_prob: Some(50000),
        ..Default::default()
    };
    assert!(accepts(&silent));
}
