//! Timeline segmenter: walks the mel timeline in fixed-size windows, runs
//! the fallback controller on each, applies the no-speech skip policy and
//! assembles the ordered segment list.

use vstd::prelude::*;

use crate::decoder::{AcousticModel, Decoder, DecodingResult};
use crate::errors::DecodeError;
use crate::fallback::{LOGPROB_THRESHOLD_FP, NO_SPEECH_THRESHOLD_FP};
use crate::vocab::Tokenizer;

verus! {

/// Audio samples per mel frame.
pub const HOP_LENGTH: usize = 160;

/// Frames in one full decoding window (30 seconds of audio).
pub const N_FRAMES: usize = 3000;

/// One kept audio window: its start and duration in centiseconds (one mel
/// frame spans exactly one centisecond at the fixed sample rate) and the
/// decode attempt that produced it.
#[derive(Clone, Debug)]
pub struct Segment {
    pub start: u64,
    pub duration: u64,
    pub dr: DecodingResult,
}

/// Seconds-to-frames bookkeeping: a frame covers `HOP_LENGTH` samples at
/// 16000 samples per second, i.e. exactly one centisecond.
pub open spec fn spec_frames_to_centiseconds(f: int) -> int {
    (f * 160 * 100) / 16000
}

/// Converts a frame count to centiseconds (the conversion is exact).
pub fn frames_to_centiseconds(f: usize) -> (r: u64)
    ensures
        r == spec_frames_to_centiseconds(f as int),
        r == f,
{
    proof {
        assert((f as int * 160 * 100) / 16000 == f as int) by (nonlinear_arith);
    }
    (((f as u128) * 160 * 100) / 16000) as u64
}

/// The fixed window schedule over a timeline: starting at `from`, each
/// window takes `window` frames or whatever remains, until the timeline is
/// exhausted. Each entry is (start frame, width in frames). The segmenter
/// walks the schedule for `window == N_FRAMES`.
pub open spec fn spec_windows(content_frames: int, from: int, window: int) -> Seq<(int, int)>
    decreases content_frames - from
        when window >= 1
{
    if from >= content_frames {
        Seq::empty()
    } else {
        let size = if content_frames - from < window {
            content_frames - from
        } else {
            window
        };
        seq![(from, size)] + spec_windows(content_frames, from + size, window)
    }
}

/// Total width of a window schedule.
pub open spec fn spec_windows_total(ws: Seq<(int, int)>) -> int
    decreases ws.len(),
{
    if ws.len() == 0 {
        0
    } else {
        ws.first().1 + spec_windows_total(ws.drop_first())
    }
}

/// The window schedule covers the timeline exactly: the widths of all
/// windows — kept or skipped — sum to the whole frame count, for any
/// window size of at least one frame, any schedule start and any content
/// length.
pub proof fn lemma_windows_cover_timeline(content_frames: int, from: int, window: int)
    requires
        0 <= from <= content_frames,
        window >= 1,
    ensures
        spec_windows_total(spec_windows(content_frames, from, window)) == content_frames - from,
    decreases content_frames - from,
{
    if from < content_frames {
        let size = if content_frames - from < window {
            content_frames - from
        } else {
            window
        };
        lemma_windows_cover_timeline(content_frames, from + size, window);
        let ws = spec_windows(content_frames, from, window);
        assert(ws.drop_first() =~= spec_windows(content_frames, from + size, window));
    }
}

/// The skip policy: a window's result is discarded when the model is
/// confident there is no speech and the decode quality is low at the same
/// time.
pub open spec fn spec_keep(dr: DecodingResult) -> bool {
    !((dr.no_speech_prob matches Some(p) && p > NO_SPEECH_THRESHOLD_FP) && dr.avg_logprob
        < LOGPROB_THRESHOLD_FP)
}

/// A segment's mathematical view: start frame, width in frames, result.
pub open spec fn spec_segment_view(s: Segment) -> (int, int, DecodingResult) {
    (s.start as int, s.duration as int, s.dr)
}

/// View of a built segment list as its mathematical model.
pub open spec fn spec_segments_view(v: Seq<Segment>) -> Seq<(int, int, DecodingResult)> {
    v.map_values(|s: Segment| spec_segment_view(s))
}

/// The segments the skip policy keeps, given one decode result per window of
/// a schedule, in schedule order: window `j` contributes `(start, width,
/// drs[j])` exactly when `drs[j]` passes the keep policy.
pub open spec fn spec_kept_segments(ws: Seq<(int, int)>, drs: Seq<DecodingResult>) -> Seq<
    (int, int, DecodingResult),
>
    recommends
        ws.len() == drs.len(),
    decreases ws.len(),
{
    if ws.len() == 0 {
        Seq::empty()
    } else {
        spec_kept_segments(ws.drop_last(), drs.drop_last()) + (if spec_keep(drs.last()) {
            seq![(ws.last().0, ws.last().1, drs.last())]
        } else {
            Seq::empty()
        })
    }
}

/// Exact decision of the skip policy.
pub fn keep_segment(dr: &DecodingResult) -> (r: bool)
    ensures
        r == spec_keep(*dr),
{
    let silent = match dr.no_speech_prob {
        Some(p) => p > NO_SPEECH_THRESHOLD_FP,
        None => false,
    };
    !(silent && dr.avg_logprob < LOGPROB_THRESHOLD_FP)
}

impl Decoder {
    /// Walks the timeline window by window: slices the current window,
    /// runs the fallback controller on it, advances the cursor
    /// unconditionally, and keeps the window's segment unless the skip
    /// policy discards it. On success the result accounts for every window
    /// of the fixed schedule: there is one decode result per window, each
    /// meeting the per-attempt guarantee, and the returned list is exactly
    /// the kept windows in schedule order — so a skipped window removes
    /// exactly one entry. Empty audio succeeds with an empty list and
    /// touches neither the model nor the session state; the first failing
    /// window aborts the whole walk (no partial list is returned).
    pub fn run<M: AcousticModel, T: Tokenizer>(
        &mut self,
        model: &mut M,
        tokenizer: &T,
        content_frames: usize,
        temperatures: &Vec<i64>,
    ) -> (r: Result<Vec<Segment>, DecodeError>)
        requires
            old(self).wf(),
            temperatures@.len() >= 1,
        ensures
            old(self).same_session(*final(self)),
            final(self).wf(),
            (forall|i: int| 0 <= i < temperatures@.len() ==> temperatures@[i] <= 0) ==> final(self).rng == old(self).rng,
            content_frames == 0 ==> (r matches Ok(segs) && segs@.len() == 0 && *final(self)
                == *old(self)),
            r matches Err(e) ==> (e == DecodeError::ModelForward || e
                == DecodeError::InvalidDistribution),
            r matches Ok(segs) ==> {
                &&& (content_frames == 0 ==> segs@.len() == 0)
                &&& forall|k: int|
                    0 <= k < segs@.len() ==> #[trigger] old(self).spec_result_ok(segs@[k].dr)
                        && spec_keep(segs@[k].dr) && spec_windows(content_frames as int,
                        0,
                        N_FRAMES as int,
                    ).contains((segs@[k].start as int, segs@[k].duration as int))
                &&& forall|k: int, l: int|
                    0 <= k < l < segs@.len() ==> segs@[k].start < segs@[l].start
                &&& exists|drs: Seq<DecodingResult>|
                    #![trigger spec_kept_segments(spec_windows(content_frames as int, 0, N_FRAMES as int), drs)]
                    {
                        &&& drs.len() == spec_windows(
                            content_frames as int,
                            0,
                            N_FRAMES as int,
                        ).len()
                        &&& (forall|j: int|
                            0 <= j < drs.len() ==> #[trigger] old(self).spec_result_ok(drs[j]))
                        &&& spec_segments_view(segs@) == spec_kept_segments(
                            spec_windows(content_frames as int, 0, N_FRAMES as int),
                            drs,
                        )
                    }
            },
    {
        let ghost self0 = *self;
        let mut seek: usize = 0;
        let mut segments: Vec<Segment> = Vec::new();
        let ghost mut done: Seq<(int, int)> = Seq::empty();
        let ghost mut drs: Seq<DecodingResult> = Seq::empty();
        while seek < content_frames
            invariant
                self0 == *old(self),
                content_frames == 0 ==> (*self == self0 && segments@.len() == 0),
                self0.same_session(*self),
                self.wf(),
                temperatures@.len() >= 1,
                (forall|j: int| 0 <= j < temperatures@.len() ==> temperatures@[j] <= 0)
                    ==> self.rng == self0.rng,
                seek <= content_frames,
                spec_windows(content_frames as int, 0, N_FRAMES as int) == done + spec_windows(
                    content_frames as int,
                    seek as int,
                    N_FRAMES as int,
                ),
                forall|k: int|
                    0 <= k < segments@.len() ==> #[trigger] self0.spec_result_ok(
                        segments@[k].dr,
                    ),
                forall|k: int| 0 <= k < segments@.len() ==> spec_keep(#[trigger] segments@[k].dr),
                forall|k: int|
                    0 <= k < segments@.len() ==> #[trigger] done.contains(
                        (segments@[k].start as int, segments@[k].duration as int),
                    ),
                forall|k: int| 0 <= k < segments@.len() ==> segments@[k].start < seek,
                forall|k: int, l: int|
                    0 <= k < l < segments@.len() ==> segments@[k].start < segments@[l].start,
                drs.len() == done.len(),
                forall|j: int| 0 <= j < drs.len() ==> #[trigger] self0.spec_result_ok(drs[j]),
                spec_segments_view(segments@) == spec_kept_segments(done, drs),
            decreases content_frames - seek,
        {
            let remaining = content_frames - seek;
            let segment_size = if remaining < N_FRAMES {
                remaining
            } else {
                N_FRAMES
            };
            let time_offset = frames_to_centiseconds(seek);
            let segment_duration = frames_to_centiseconds(segment_size);
            let ghost old_done = done;
            let ghost old_drs = drs;
            let ghost old_seek = seek as int;
            let ghost self_pre = *self;
            let dr = match self.decode_with_fallback(
                model,
                tokenizer,
                seek,
                segment_size,
                temperatures,
            ) {
                Ok(dr) => dr,
                Err(e) => { return Err(e) },
            };
            proof {
                assert(self_pre.spec_result_ok(dr));
                assert(self_pre.spec_priming() == self0.spec_priming());
                assert(self0.spec_result_ok(dr));
                done = done + seq![(seek as int, segment_size as int)];
                drs = drs.push(dr);
                assert(spec_windows(content_frames as int, old_seek, N_FRAMES as int) == seq![
                    (old_seek, segment_size as int),
                ] + spec_windows(
                    content_frames as int,
                    old_seek + segment_size as int,
                    N_FRAMES as int,
                ));
                assert(done + spec_windows(
                    content_frames as int,
                    old_seek + segment_size as int,
                    N_FRAMES as int,
                ) =~= old_done + spec_windows(content_frames as int, old_seek, N_FRAMES as int));
                assert forall|k: int| 0 <= k < segments@.len() implies done.contains(
                    (segments@[k].start as int, segments@[k].duration as int),
                ) by {
                    let x = (segments@[k].start as int, segments@[k].duration as int);
                    assert(self0.spec_result_ok(segments@[k].dr));
                    assert(old_done.contains(x));
                    let idx = choose|idx: int| 0 <= idx < old_done.len() && old_done[idx] == x;
                    assert(done[idx] == x);
                }
                assert(done.drop_last() =~= old_done);
                assert(drs.drop_last() =~= old_drs);
                assert(done.last() == (old_seek, segment_size as int));
                assert(drs.last() == dr);
            }
            seek = seek + segment_size;
            if keep_segment(&dr) {
                let segment = Segment { start: time_offset, duration: segment_duration, dr };
                proof {
                    assert(done[done.len() - 1] == (old_seek, segment_size as int));
                    assert(done.contains((segment.start as int, segment.duration as int)));
                    assert(spec_segment_view(segment) == (old_seek, segment_size as int,
                    segment.dr));
                    assert(spec_segments_view(segments@.push(segment)) =~= spec_segments_view(
                        segments@,
                    ) + seq![spec_segment_view(segment)]);
                    assert(spec_kept_segments(done, drs) == spec_kept_segments(old_done, old_drs)
                        + seq![(old_seek, segment_size as int, segment.dr)]);
                }
                let ghost segs0 = segments@;
                segments.push(segment);
                proof {
                    assert forall|k: int|
                        0 <= k < segments@.len() implies #[trigger] self0.spec_result_ok(
                        segments@[k].dr,
                    ) && spec_keep(segments@[k].dr) && done.contains(
                        (segments@[k].start as int, segments@[k].duration as int),
                    ) by {
                        if k < segs0.len() {
                            assert(segments@[k] == segs0[k]);
                            assert(self0.spec_result_ok(segs0[k].dr));
                        } else {
                            assert(segments@[k] == segment);
                        }
                    }
                }
            } else {
                proof {
                    assert(spec_kept_segments(done, drs) =~= spec_kept_segments(
                        old_done,
                        old_drs,
                    ) + Seq::<(int, int, DecodingResult)>::empty());
                }
            }
        }
        proof {
            assert(spec_windows(content_frames as int, seek as int, N_FRAMES as int)
                =~= Seq::<(int, int)>::empty());
            assert(done =~= spec_windows(content_frames as int, 0, N_FRAMES as int) + Seq::<
                (int, int),
            >::empty());
            assert(done =~= spec_windows(content_frames as int, 0, N_FRAMES as int));
            if content_frames == 0 && segments@.len() > 0 {
                assert(segments@[0].start < 0);
            }
            assert(spec_segments_view(segments@) == spec_kept_segments(
                spec_windows(content_frames as int, 0, N_FRAMES as int),
                drs,
            ));
        }
        Ok(segments)
    }
}

} // verus!
