//! Timestamp parser: splits one segment's token stream into sub-spans at
//! timestamp-token boundaries.
//!
//! Every token id above the no-timestamps id is a timestamp marker worth
//! `(id - no_timestamps_id + 1)` ticks of 1/50 s. Text tokens accumulate
//! into a pending buffer; a marker closes the pending buffer into a span,
//! and a non-empty buffer left at the end becomes a trailing open-ended
//! span (a caller that prints spans shows the trailing one only when its
//! decoded text is non-empty).

use vstd::prelude::*;

verus! {

/// One sub-span of a segment: start tick, end tick (`None` for the trailing
/// open-ended span) and the text tokens between the two markers. A tick is
/// 1/50 s, i.e. two centiseconds.
#[derive(Clone, Debug)]
pub struct TimedSpan {
    pub start_ticks: u64,
    pub end_ticks: Option<u64>,
    pub tokens: Vec<u32>,
}

/// A token that carries text: neither start-of-transcript, nor
/// end-of-transcript, nor a timestamp marker.
pub open spec fn spec_is_text(tok: u32, sot: u32, eot: u32, nts: u32) -> bool {
    tok != sot && tok != eot && tok <= nts
}

/// The spans emitted by scanning `toks` from position `i` with pending
/// state (`prev` tick, pending `buf`).
pub open spec fn spec_parse_from(
    toks: Seq<u32>,
    i: int,
    sot: u32,
    eot: u32,
    nts: u32,
    prev: u64,
    buf: Seq<u32>,
) -> Seq<(u64, Option<u64>, Seq<u32>)>
    decreases toks.len() - i,
{
    if i < 0 || i >= toks.len() {
        if buf.len() > 0 {
            seq![(prev, None::<u64>, buf)]
        } else {
            seq![]
        }
    } else {
        let tok = toks[i];
        if tok == sot || tok == eot {
            spec_parse_from(toks, i + 1, sot, eot, nts, prev, buf)
        } else if tok > nts {
            let ts = (tok - nts + 1) as u64;
            if buf.len() > 0 {
                seq![(prev, Some(ts), buf)] + spec_parse_from(
                    toks,
                    i + 1,
                    sot,
                    eot,
                    nts,
                    ts,
                    Seq::empty(),
                )
            } else {
                spec_parse_from(toks, i + 1, sot, eot, nts, ts, buf)
            }
        } else {
            spec_parse_from(toks, i + 1, sot, eot, nts, prev, buf.push(tok))
        }
    }
}

/// View of a built span list as its mathematical model.
pub open spec fn spec_spans_view(v: Seq<TimedSpan>) -> Seq<(u64, Option<u64>, Seq<u32>)> {
    v.map_values(|s: TimedSpan| (s.start_ticks, s.end_ticks, s.tokens@))
}

/// Splits a segment's token list into timed spans. The scan skips
/// start-of-transcript and end-of-transcript, closes the pending buffer at
/// every timestamp marker, and emits a trailing open-ended span for a
/// non-empty leftover buffer.
pub fn parse_timestamps(tokens: &Vec<u32>, sot: u32, eot: u32, no_timestamps: u32) -> (r: Vec<
    TimedSpan,
>)
    ensures
        spec_spans_view(r@) == spec_parse_from(
            tokens@,
            0,
            sot,
            eot,
            no_timestamps,
            0,
            Seq::empty(),
        ),
{
    let n = tokens.len();
    let mut out: Vec<TimedSpan> = Vec::new();
    let mut pending: Vec<u32> = Vec::new();
    let mut prev_ts: u64 = 0;
    let mut i: usize = 0;
    while i < n
        invariant
            i <= n,
            n == tokens@.len(),
            spec_spans_view(out@) + spec_parse_from(
                tokens@,
                i as int,
                sot,
                eot,
                no_timestamps,
                prev_ts,
                pending@,
            ) == spec_parse_from(tokens@, 0, sot, eot, no_timestamps, 0, Seq::empty()),
        decreases n - i,
    {
        let tok = tokens[i];
        if tok == sot || tok == eot {
        } else if tok > no_timestamps {
            let ts: u64 = ((tok - no_timestamps) as u64) + 1;
            if pending.len() > 0 {
                let span = TimedSpan {
                    start_ticks: prev_ts,
                    end_ticks: Some(ts),
                    tokens: pending,
                };
                proof {
                    assert(spec_spans_view(out@.push(span)) =~= spec_spans_view(out@) + seq![
                        (span.start_ticks, span.end_ticks, span.tokens@),
                    ]);
                    assert((spec_spans_view(out@) + seq![
                        (span.start_ticks, span.end_ticks, span.tokens@),
                    ]) + spec_parse_from(
                        tokens@,
                        i + 1,
                        sot,
                        eot,
                        no_timestamps,
                        ts,
                        Seq::empty(),
                    ) =~= spec_spans_view(out@) + (seq![
                        (span.start_ticks, span.end_ticks, span.tokens@),
                    ] + spec_parse_from(
                        tokens@,
                        i + 1,
                        sot,
                        eot,
                        no_timestamps,
                        ts,
                        Seq::empty(),
                    )));
                }
                out.push(span);
                pending = Vec::new();
            }
            prev_ts = ts;
        } else {
            pending.push(tok);
        }
        i = i + 1;
    }
    if pending.len() > 0 {
        let span = TimedSpan { start_ticks: prev_ts, end_ticks: None, tokens: pending };
        proof {
            assert(spec_spans_view(out@.push(span)) =~= spec_spans_view(out@) + seq![
                (span.start_ticks, span.end_ticks, span.tokens@),
            ]);
        }
        out.push(span);
    } else {
        proof {
            assert(spec_spans_view(out@) + Seq::<(u64, Option<u64>, Seq<u32>)>::empty()
                =~= spec_spans_view(out@));
        }
    }
    out
}

/// The text-token subsequence of `toks` from position `i` on.
pub open spec fn spec_text_tokens(toks: Seq<u32>, i: int, sot: u32, eot: u32, nts: u32) -> Seq<
    u32,
>
    decreases toks.len() - i,
{
    if i < 0 || i >= toks.len() {
        seq![]
    } else if spec_is_text(toks[i], sot, eot, nts) {
        seq![toks[i]] + spec_text_tokens(toks, i + 1, sot, eot, nts)
    } else {
        spec_text_tokens(toks, i + 1, sot, eot, nts)
    }
}

/// Concatenation of the token buffers of a span list, in order.
pub open spec fn spec_spans_tokens(spans: Seq<(u64, Option<u64>, Seq<u32>)>) -> Seq<u32>
    decreases spans.len(),
{
    if spans.len() == 0 {
        seq![]
    } else {
        spans.first().2 + spec_spans_tokens(spans.drop_first())
    }
}

/// Generalised round trip: scanning from position `i` with pending buffer
/// `buf`, the concatenated span buffers are exactly `buf` followed by the
/// remaining text tokens.
pub proof fn lemma_parse_round_trip_from(
    toks: Seq<u32>,
    i: int,
    sot: u32,
    eot: u32,
    nts: u32,
    prev: u64,
    buf: Seq<u32>,
)
    requires
        0 <= i <= toks.len(),
    ensures
        spec_spans_tokens(spec_parse_from(toks, i, sot, eot, nts, prev, buf)) == buf
            + spec_text_tokens(toks, i, sot, eot, nts),
    decreases toks.len() - i,
{
    if i >= toks.len() {
        if buf.len() > 0 {
            let spans = seq![(prev, None::<u64>, buf)];
            assert(spans.drop_first() =~= Seq::<(u64, Option<u64>, Seq<u32>)>::empty());
            assert(spec_spans_tokens(Seq::<(u64, Option<u64>, Seq<u32>)>::empty())
                =~= Seq::<u32>::empty());
            assert(spec_spans_tokens(spans) =~= buf);
            assert(buf + spec_text_tokens(toks, i, sot, eot, nts) =~= buf);
        } else {
            assert(spec_spans_tokens(spec_parse_from(toks, i, sot, eot, nts, prev, buf))
                =~= Seq::<u32>::empty());
            assert(buf + spec_text_tokens(toks, i, sot, eot, nts) =~= Seq::<u32>::empty());
        }
    } else {
        let tok = toks[i];
        if tok == sot || tok == eot {
            lemma_parse_round_trip_from(toks, i + 1, sot, eot, nts, prev, buf);
        } else if tok > nts {
            let ts = (tok - nts + 1) as u64;
            if buf.len() > 0 {
                lemma_parse_round_trip_from(toks, i + 1, sot, eot, nts, ts, Seq::empty());
                let head = seq![(prev, Some(ts), buf)];
                let rest = spec_parse_from(toks, i + 1, sot, eot, nts, ts, Seq::empty());
                assert(spec_parse_from(toks, i, sot, eot, nts, prev, buf) == head + rest);
                assert((head + rest).len() > 0);
                assert((head + rest).first() == (prev, Some(ts), buf));
                assert((head + rest).drop_first() =~= rest);
                assert(spec_spans_tokens(head + rest) == buf + spec_spans_tokens(rest));
                assert(buf + (Seq::<u32>::empty() + spec_text_tokens(toks, i + 1, sot, eot, nts))
                    =~= buf + spec_text_tokens(toks, i, sot, eot, nts));
            } else {
                lemma_parse_round_trip_from(toks, i + 1, sot, eot, nts, ts, buf);
            }
        } else {
            lemma_parse_round_trip_from(toks, i + 1, sot, eot, nts, prev, buf.push(tok));
            assert(spec_is_text(toks[i], sot, eot, nts));
            assert(spec_text_tokens(toks, i, sot, eot, nts) == seq![toks[i]] + spec_text_tokens(
                toks,
                i + 1,
                sot,
                eot,
                nts,
            ));
            assert(buf.push(tok) + spec_text_tokens(toks, i + 1, sot, eot, nts) =~= buf + (seq![
                tok,
            ] + spec_text_tokens(toks, i + 1, sot, eot, nts)));
        }
    }
}

/// Round trip of the timestamp parse: concatenating the token buffers of
/// all emitted spans, in order, reconstructs exactly the text-token
/// subsequence of the whole input — the same tokens a direct decode of the
/// non-special sequence would see.
pub proof fn lemma_parse_round_trip(toks: Seq<u32>, sot: u32, eot: u32, nts: u32)
    ensures
        spec_spans_tokens(spec_parse_from(toks, 0, sot, eot, nts, 0, Seq::empty()))
            == spec_text_tokens(toks, 0, sot, eot, nts),
{
    lemma_parse_round_trip_from(toks, 0, sot, eot, nts, 0, Seq::empty());
    assert(Seq::<u32>::empty() + spec_text_tokens(toks, 0, sot, eot, nts) =~= spec_text_tokens(
        toks,
        0,
        sot,
        eot,
        nts,
    ));
}

} // verus!
