//! Decode session and the single-segment autoregressive decoder.

use vstd::prelude::*;

use crate::errors::DecodeError;
use crate::fixed::{FP_SCALE, MASKED_SCORE, SCORE_MAX, SCORE_MIN};
use crate::sampler::{neg_logprob_of, prob_of, rng_from_seed, sample, spec_neg_logprob_of,
    spec_score_ok};
use crate::vocab::{build_suppress_mask, first_resolved, resolve_token, spec_suppressed,
    Tokenizer, VOCAB_LIMIT};

verus! {

/// Largest `max_target_positions` the controller accepts; keeps the running
/// log-probability sum representable in a machine integer.
pub const POS_LIMIT: usize = 0x10_0000;

/// Log-probability magnitude recorded for a token whose weight is zero (the
/// analogue of a probability of zero); larger than any finite magnitude the
/// sampler can produce.
pub const NEG_LOGPROB_FLOOR: u64 = 0x100_0000_0000;

/// The decoding task requested for a session.
#[derive(Clone, Copy, Debug, PartialEq, Eq, Structural)]
pub enum Task {
    Transcribe,
    Translate,
}

/// Capability interface of the acoustic model collaborator, satisfied
/// identically by the full-precision and the quantized variant.
///
/// `encode` runs the encoder once over the mel window starting at frame
/// `seek`, `frames` frames wide (the mel tensor itself is owned by the
/// implementation; this controller sees only frame coordinates).
/// `decode_step` runs one decoder step over the full token prefix;
/// `first` signals the model to flush its incremental cache.
/// `project_to_logits` projects a hidden state to a logits vector in
/// fixed-point units, at the first sequence position when `at_start` is set
/// and at the last position otherwise.
pub trait AcousticModel {
    type Features;

    type Hidden;

    fn encode(&mut self, seek: usize, frames: usize) -> Result<Self::Features, DecodeError>;

    fn decode_step(&mut self, tokens: &Vec<u32>, features: &Self::Features, first: bool) -> Result<
        Self::Hidden,
        DecodeError,
    >;

    fn project_to_logits(&self, hidden: &Self::Hidden, at_start: bool) -> Result<
        Vec<i64>,
        DecodeError,
    >;
}

/// Result of one decode attempt over one audio window.
///
/// `avg_logprob`, `no_speech_prob` and `temperature` are fixed-point values
/// (`FP_SCALE` units per 1.0). `no_speech_prob` is `None` until the first
/// decode step has run. `compression_ratio` is never computed, as in the
/// reference Whisper decoder, which leaves it unset; the fallback trigger
/// that reads it can therefore never fire through it.
#[derive(Clone, Debug, Default)]
pub struct DecodingResult {
    pub tokens: Vec<u32>,
    pub text: String,
    pub avg_logprob: i64,
    pub no_speech_prob: Option<i64>,
    pub temperature: i64,
    pub compression_ratio: Option<i64>,
}

/// One decode session: the resolved special token ids, the suppression mask,
/// the session-owned random generator and the static model configuration,
/// all fixed at construction (only the random state advances).
pub struct Decoder {
    pub rng: rand::rngs::StdRng,
    pub task: Option<Task>,
    pub timestamps: bool,
    pub verbose: bool,
    pub suppress_tokens: Vec<bool>,
    pub sot_token: u32,
    pub transcribe_token: u32,
    pub translate_token: u32,
    pub eot_token: u32,
    pub no_speech_token: u32,
    pub no_timestamps_token: u32,
    pub language_token: Option<u32>,
    pub vocab_size: usize,
    pub max_target_positions: usize,
}

impl Decoder {
    /// Internal invariant of a session.
    pub open spec fn wf(self) -> bool {
        &&& self.suppress_tokens@.len() == self.vocab_size
        &&& 1 <= self.vocab_size <= VOCAB_LIMIT
        &&& self.max_target_positions <= POS_LIMIT
    }

    /// Everything but the random state is unchanged.
    pub open spec fn same_session(self, other: Decoder) -> bool {
        &&& self.task == other.task
        &&& self.timestamps == other.timestamps
        &&& self.verbose == other.verbose
        &&& self.suppress_tokens == other.suppress_tokens
        &&& self.sot_token == other.sot_token
        &&& self.transcribe_token == other.transcribe_token
        &&& self.translate_token == other.translate_token
        &&& self.eot_token == other.eot_token
        &&& self.no_speech_token == other.no_speech_token
        &&& self.no_timestamps_token == other.no_timestamps_token
        &&& self.language_token == other.language_token
        &&& self.vocab_size == other.vocab_size
        &&& self.max_target_positions == other.max_target_positions
    }

    /// The priming tokens that open every attempt: start-of-transcript, the
    /// optional language id, the task id (transcribe by default), and the
    /// no-timestamps id when timestamp mode is off.
    pub open spec fn spec_priming(self) -> Seq<u32> {
        let lang: Seq<u32> = match self.language_token {
            Some(l) => seq![l],
            None => seq![],
        };
        let task: Seq<u32> = match self.task {
            Some(Task::Translate) => seq![self.translate_token],
            _ => seq![self.transcribe_token],
        };
        let nts: Seq<u32> = if self.timestamps {
            seq![]
        } else {
            seq![self.no_timestamps_token]
        };
        seq![self.sot_token] + lang + task + nts
    }

    /// What every successful attempt guarantees: the token list opens with
    /// the priming tokens; every sampled token is a vocabulary id, and — as
    /// long as any id is unsuppressed — never a suppressed one; only the
    /// last sampled token can be end-of-transcript; the length is bounded;
    /// the compression ratio is left unset and the average log-probability
    /// is never positive.
    pub open spec fn spec_result_ok(self, dr: DecodingResult) -> bool {
        let p = self.spec_priming().len() as int;
        &&& dr.tokens@.len() >= p
        &&& dr.tokens@.take(p) == self.spec_priming()
        &&& dr.tokens@.len() <= p + self.max_target_positions / 2
        &&& forall|i: int|
            p <= i < dr.tokens@.len() ==> (dr.tokens@[i] as int) < self.vocab_size
        &&& (exists|v: int| 0 <= v < self.vocab_size && !self.suppress_tokens@[v]) ==> forall|
            i: int,
        |
            p <= i < dr.tokens@.len() ==> !self.suppress_tokens@[dr.tokens@[i] as int]
        &&& forall|i: int| p <= i < dr.tokens@.len() - 1 ==> dr.tokens@[i] != self.eot_token
        &&& dr.compression_ratio is None
        &&& dr.avg_logprob <= 0
    }

    /// Builds a decode session: resolves the special token ids through the
    /// tokenizer, picks the first resolvable no-speech token from the
    /// candidate list, seeds the session random generator, and builds the
    /// suppression mask over the vocabulary.
    pub fn new<T: Tokenizer>(
        tokenizer: &T,
        vocab_size: usize,
        max_target_positions: usize,
        suppressed_ids: &Vec<u32>,
        seed: u64,
        language_token: Option<u32>,
        task: Option<Task>,
        timestamps: bool,
        verbose: bool,
    ) -> (r: Result<Decoder, DecodeError>)
        requires
            1 <= vocab_size <= VOCAB_LIMIT,
            max_target_positions <= POS_LIMIT,
        ensures
            r matches Ok(d) ==> {
                &&& d.wf()
                &&& d.task == task
                &&& d.timestamps == timestamps
                &&& d.verbose == verbose
                &&& d.language_token == language_token
                &&& d.vocab_size == vocab_size
                &&& d.max_target_positions == max_target_positions
                &&& forall|i: int|
                    0 <= i < vocab_size ==> d.suppress_tokens@[i] == spec_suppressed(
                        suppressed_ids@,
                        timestamps,
                        d.no_timestamps_token,
                        i as u32,
                    )
            },
            r matches Err(e) ==> (e == DecodeError::MissingToken
                || e == DecodeError::NoSpeechTokenUnavailable),
    {
        let no_timestamps_token = match resolve_token(tokenizer.token_to_id("<|notimestamps|>")) {
            Ok(t) => t,
            Err(e) => { return Err(e) },
        };
        let suppress_tokens = build_suppress_mask(
            vocab_size,
            suppressed_ids,
            timestamps,
            no_timestamps_token,
        );
        let sot_token = match resolve_token(tokenizer.token_to_id("<|startoftranscript|>")) {
            Ok(t) => t,
            Err(e) => { return Err(e) },
        };
        let transcribe_token = match resolve_token(tokenizer.token_to_id("<|transcribe|>")) {
            Ok(t) => t,
            Err(e) => { return Err(e) },
        };
        let translate_token = match resolve_token(tokenizer.token_to_id("<|translate|>")) {
            Ok(t) => t,
            Err(e) => { return Err(e) },
        };
        let eot_token = match resolve_token(tokenizer.token_to_id("<|endoftext|>")) {
            Ok(t) => t,
            Err(e) => { return Err(e) },
        };
        let mut candidates: Vec<Option<u32>> = Vec::new();
        candidates.push(tokenizer.token_to_id("<|nocaptions|>"));
        candidates.push(tokenizer.token_to_id("<|nospeech|>"));
        let no_speech_token = match first_resolved(&candidates) {
            Ok(t) => t,
            Err(e) => { return Err(e) },
        };
        Ok(
            Decoder {
                rng: rng_from_seed(seed),
                task,
                timestamps,
                verbose,
                suppress_tokens,
                sot_token,
                transcribe_token,
                translate_token,
                eot_token,
                no_speech_token,
                no_timestamps_token,
                language_token,
                vocab_size,
                max_target_positions,
            },
        )
    }
}

/// A masked score row as the sampler sees it: one entry per vocabulary id,
/// the masked sentinel exactly at the suppressed ids, everything else
/// clamped into the admissible range.
pub open spec fn spec_row_matches_mask(row: Seq<i64>, mask: Seq<bool>) -> bool {
    &&& row.len() == mask.len()
    &&& forall|v: int|
        0 <= v < row.len() ==> ((#[trigger] row[v] == MASKED_SCORE) == mask[v] && spec_score_ok(
            row[v],
        ))
}

/// The log-probability magnitude one sampled token contributes to the
/// running sum: its cost under the step's masked score row, or the floor
/// value when its weight there is zero.
pub open spec fn spec_step_cost(row: Seq<i64>, tok: u32) -> int {
    if row[tok as int] == MASKED_SCORE {
        NEG_LOGPROB_FLOOR as int
    } else {
        spec_neg_logprob_of(row, tok as int)
    }
}

/// Total log-probability magnitude of the sampled tokens, one masked score
/// row per token.
pub open spec fn spec_costs_total(rows: Seq<Seq<i64>>, toks: Seq<u32>) -> int
    recommends
        rows.len() == toks.len(),
    decreases rows.len(),
{
    if rows.len() == 0 {
        0
    } else {
        spec_costs_total(rows.drop_last(), toks.drop_last()) + spec_step_cost(
            rows.last(),
            toks.last(),
        )
    }
}

/// A logit clamped into the admissible score range, or the masked sentinel
/// when the id is suppressed.
pub open spec fn spec_masked_score(logit: i64, suppressed: bool) -> i64 {
    if suppressed {
        MASKED_SCORE
    } else if logit < SCORE_MIN {
        SCORE_MIN
    } else if logit > SCORE_MAX {
        SCORE_MAX
    } else {
        logit
    }
}

/// Adds the suppression mask to a logits vector: suppressed ids fall to the
/// masked sentinel (unreachable by sampling), others are clamped into the
/// admissible score range.
pub fn apply_mask(logits: &Vec<i64>, mask: &Vec<bool>) -> (r: Vec<i64>)
    requires
        logits@.len() == mask@.len(),
    ensures
        r@.len() == logits@.len(),
        forall|i: int| 0 <= i < r@.len() ==> r@[i] == spec_masked_score(logits@[i], mask@[i]),
        forall|i: int| 0 <= i < r@.len() ==> spec_score_ok(r@[i]),
        forall|i: int| 0 <= i < r@.len() ==> ((r@[i] == MASKED_SCORE) == mask@[i]),
{
    let n = logits.len();
    let mut r: Vec<i64> = Vec::new();
    let mut i: usize = 0;
    while i < n
        invariant
            i <= n,
            n == logits@.len() == mask@.len(),
            r@.len() == i,
            forall|j: int| 0 <= j < i ==> r@[j] == spec_masked_score(logits@[j], mask@[j]),
        decreases n - i,
    {
        let s = if mask[i] {
            MASKED_SCORE
        } else if logits[i] < SCORE_MIN {
            SCORE_MIN
        } else if logits[i] > SCORE_MAX {
            SCORE_MAX
        } else {
            logits[i]
        };
        r.push(s);
        i = i + 1;
    }
    r
}

/// Clamps a raw logits vector into the admissible score range without any
/// suppression; used for the first-position logits that the no-speech
/// probability is read from.
pub fn clamp_scores(logits: &Vec<i64>) -> (r: Vec<i64>)
    ensures
        r@.len() == logits@.len(),
        forall|i: int| 0 <= i < r@.len() ==> r@[i] == spec_masked_score(logits@[i], false),
        forall|i: int| 0 <= i < r@.len() ==> spec_score_ok(r@[i]) && r@[i] != MASKED_SCORE,
{
    let n = logits.len();
    let mut r: Vec<i64> = Vec::new();
    let mut i: usize = 0;
    while i < n
        invariant
            i <= n,
            n == logits@.len(),
            r@.len() == i,
            forall|j: int| 0 <= j < i ==> r@[j] == spec_masked_score(logits@[j], false),
        decreases n - i,
    {
        let s = if logits[i] < SCORE_MIN {
            SCORE_MIN
        } else if logits[i] > SCORE_MAX {
            SCORE_MAX
        } else {
            logits[i]
        };
        r.push(s);
        i = i + 1;
    }
    r
}

impl Decoder {
    /// Runs the autoregressive loop for one audio window at one temperature:
    /// encode once, prime the token sequence, then sample step by step with
    /// the suppression mask added to every logits vector, reading the
    /// no-speech probability at the first step only. Each sampled token's
    /// log-probability — the terminating token's included — is accumulated
    /// before the stop check (end-of-transcript or the position cap). Any
    /// model, shape or tokenizer failure is surfaced as the recoverable
    /// per-attempt `ModelForward` error; a degenerate sampling distribution
    /// as `InvalidDistribution`.
    pub fn decode<M: AcousticModel, T: Tokenizer>(
        &mut self,
        model: &mut M,
        tokenizer: &T,
        seek: usize,
        frames: usize,
        t: i64,
    ) -> (r: Result<DecodingResult, DecodeError>)
        requires
            old(self).wf(),
        ensures
            old(self).same_session(*final(self)),
            final(self).wf(),
            t <= 0 ==> final(self).rng == old(self).rng,
            r matches Ok(dr) ==> {
                &&& old(self).spec_result_ok(dr)
                &&& dr.temperature == t
                &&& (dr.no_speech_prob matches Some(p) ==> 0 <= p <= FP_SCALE)
                &&& (dr.no_speech_prob is Some <==> old(self).max_target_positions >= 2)
                &&& exists|rows: Seq<Seq<i64>>|
                    #![trigger spec_costs_total(rows, dr.tokens@.skip(old(self).spec_priming().len() as int))]
                    {
                        &&& rows.len() == dr.tokens@.len() - old(self).spec_priming().len()
                        &&& (forall|j: int|
                            0 <= j < rows.len() ==> #[trigger] spec_row_matches_mask(
                                rows[j],
                                old(self).suppress_tokens@,
                            ))
                        &&& dr.avg_logprob == -(spec_costs_total(
                            rows,
                            dr.tokens@.skip(old(self).spec_priming().len() as int),
                        ) / (dr.tokens@.len() as int))
                    }
            },
            r matches Err(e) ==> (e == DecodeError::ModelForward || e
                == DecodeError::InvalidDistribution),
    {
        let ghost self0 = *self;
        let features = match model.encode(seek, frames) {
            Ok(f) => f,
            Err(_) => { return Err(DecodeError::ModelForward) },
        };
        let sample_len = self.max_target_positions / 2;
        let mut sum_neg: u64 = 0;
        let mut no_speech_prob: Option<i64> = None;
        let mut tokens: Vec<u32> = Vec::new();
        tokens.push(self.sot_token);
        if let Some(l) = self.language_token {
            tokens.push(l);
        }
        match self.task {
            None | Some(Task::Transcribe) => tokens.push(self.transcribe_token),
            Some(Task::Translate) => tokens.push(self.translate_token),
        }
        if !self.timestamps {
            tokens.push(self.no_timestamps_token);
        }
        proof {
            assert(tokens@ =~= self0.spec_priming());
        }
        let prime_len = tokens.len();
        let ghost p = prime_len as int;
        let ghost mut rows: Seq<Seq<i64>> = Seq::empty();
        let mut i: usize = 0;
        while i < sample_len
            invariant_except_break
                i <= sample_len,
                tokens@.len() == p + i,
                forall|j: int| p <= j < tokens@.len() ==> tokens@[j] != self0.eot_token,
                sum_neg <= (i as int) * 0x100_0000_0000int,
                (no_speech_prob is Some) <==> i > 0,
            invariant
                self0 == *old(self),
                self.wf(),
                self0.same_session(*self),
                self0.wf(),
                sample_len == self0.max_target_positions / 2,
                prime_len == p,
                p == self0.spec_priming().len(),
                tokens@.len() >= p,
                tokens@.take(p) == self0.spec_priming(),
                tokens@.len() <= p + sample_len,
                forall|j: int| p <= j < tokens@.len() ==> (tokens@[j] as int) < self0.vocab_size,
                (exists|v: int| 0 <= v < self0.vocab_size && !self0.suppress_tokens@[v])
                    ==> forall|j: int|
                    p <= j < tokens@.len() ==> !self0.suppress_tokens@[tokens@[j] as int],
                forall|j: int| p <= j < tokens@.len() - 1 ==> tokens@[j] != self0.eot_token,
                i <= sample_len,
                t <= 0 ==> self.rng == self0.rng,
                no_speech_prob matches Some(pr) ==> 0 <= pr <= FP_SCALE,
                sum_neg <= (sample_len as int) * 0x100_0000_0000int,
                rows.len() == tokens@.len() - p,
                forall|j: int|
                    0 <= j < rows.len() ==> #[trigger] spec_row_matches_mask(
                        rows[j],
                        self0.suppress_tokens@,
                    ),
                sum_neg == spec_costs_total(rows, tokens@.skip(p)),
            ensures
                tokens@.len() <= p + sample_len,
                sum_neg <= (sample_len as int) * 0x100_0000_0000int,
                (no_speech_prob is Some) <==> sample_len > 0,
            decreases sample_len - i,
        {
            let hidden = match model.decode_step(&tokens, &features, i == 0) {
                Ok(h) => h,
                Err(_) => { return Err(DecodeError::ModelForward) },
            };
            if i == 0 {
                let fl = match model.project_to_logits(&hidden, true) {
                    Ok(v) => v,
                    Err(_) => { return Err(DecodeError::ModelForward) },
                };
                if fl.len() != self.vocab_size || self.no_speech_token as usize >= self.vocab_size
                {
                    return Err(DecodeError::ModelForward);
                }
                let clamped = clamp_scores(&fl);
                no_speech_prob = Some(prob_of(&clamped, self.no_speech_token as usize));
            }
            let ll = match model.project_to_logits(&hidden, false) {
                Ok(v) => v,
                Err(_) => { return Err(DecodeError::ModelForward) },
            };
            if ll.len() != self.vocab_size {
                return Err(DecodeError::ModelForward);
            }
            let scores = apply_mask(&ll, &self.suppress_tokens);
            let next = match sample(&scores, t, &mut self.rng) {
                Ok(tok) => tok,
                Err(e) => { return Err(e) },
            };
            let ghost toks0 = tokens@;
            let ghost old_rows = rows;
            tokens.push(next);
            let np: u64 = if scores[next as usize] == MASKED_SCORE {
                NEG_LOGPROB_FLOOR
            } else {
                neg_logprob_of(&scores, next as usize)
            };
            proof {
                rows = rows.push(scores@);
                assert(rows.drop_last() =~= old_rows);
                assert(tokens@.skip(p) =~= toks0.skip(p).push(next));
                assert(tokens@.skip(p).drop_last() =~= toks0.skip(p));
                assert(tokens@.skip(p).last() == next);
                assert(np == spec_step_cost(scores@, next));
                assert(spec_costs_total(rows, tokens@.skip(p)) == spec_costs_total(
                    old_rows,
                    toks0.skip(p),
                ) + spec_step_cost(scores@, next));
            }
            sum_neg = sum_neg + np;
            if next == self.eot_token || tokens.len() > self.max_target_positions {
                break ;
            }
            i = i + 1;
        }
        let text = match tokenizer.decode(&tokens, true) {
            Some(s) => s,
            None => { return Err(DecodeError::ModelForward) },
        };
        let count = tokens.len() as u64;
        let avg_neg = sum_neg / count;
        let avg_logprob = -(avg_neg as i64);
        let result = DecodingResult {
            tokens,
            text,
            avg_logprob,
            no_speech_prob,
            temperature: t,
            compression_ratio: None,
        };
        proof {
            let pl = old(self).spec_priming().len() as int;
            assert(pl == p);
            assert(rows.len() == result.tokens@.len() - pl);
            assert(forall|j: int|
                0 <= j < rows.len() ==> #[trigger] spec_row_matches_mask(
                    rows[j],
                    old(self).suppress_tokens@,
                ));
            assert(result.tokens@.skip(pl) == tokens@.skip(p));
            assert(result.avg_logprob == -(spec_costs_total(rows, result.tokens@.skip(pl)) / (
            result.tokens@.len() as int)));
        }
        Ok(result)
    }
}

} // verus!
