//! The decisions of the three pipeline stages, and a model of what the whole
//! pipeline reports for a pre-loaded batch of samples.
//!
//! Stage 1 drains the source, stage 2 decodes each raw sample into a
//! fixed-point angle triplet, and stage 3 reports each triplet. Every message
//! between two stages is wrapped in an [`Envelope`]; the end of the stream is
//! signalled by an explicit sentinel, never by closing a channel.
use crate::conversion::{bits_to_u32_triplet, triplet_result, ConversionError};
use crate::source::{pop_front, queued_samples};
use crossbeam_channel::Sender;
use crossbeam_queue::SegQueue;
use vstd::prelude::*;

verus! {

/// Number of fractional bits in the fixed-point angles that the pipeline
/// carries.
pub const FRACTIONAL_BITS: u32 = 16;

/// A message between two stages: an item, or the end-of-stream sentinel.
#[derive(Debug, PartialEq, Eq)]
pub enum Envelope<T> {
    Present(T),
    EndOfStream,
}

impl<T> Envelope<T> {
    /// Whether this is the end-of-stream sentinel, after which the receiving
    /// stage forwards nothing more and stops.
    pub fn is_end_of_stream(&self) -> (r: bool)
        ensures
            r == (self is EndOfStream),
    {
        match self {
            Envelope::Present(_) => false,
            Envelope::EndOfStream => true,
        }
    }
}

/// The raw-sample envelope with the sample seen as a sequence.
pub open spec fn sample_envelope(e: Envelope<Vec<u32>>) -> Envelope<Seq<u32>> {
    match e {
        Envelope::Present(v) => Envelope::Present(v@),
        Envelope::EndOfStream => Envelope::EndOfStream,
    }
}

/// What stage 2 sends on for one received message, or the error that stops it.
pub open spec fn convert_result(msg: Envelope<Seq<u32>>) -> Result<
    Envelope<(u32, u32, u32)>,
    ConversionError,
> {
    match msg {
        Envelope::Present(bits) => match triplet_result(bits) {
            Ok(t) => Ok(Envelope::Present(t)),
            Err(e) => Err(e),
        },
        Envelope::EndOfStream => Ok(Envelope::EndOfStream),
    }
}

/// What stage 3 reports for one received message; `None` on the sentinel.
pub open spec fn report_result(msg: Envelope<(u32, u32, u32)>) -> Option<(u32, u32, u32)> {
    match msg {
        Envelope::Present(t) => Some(t),
        Envelope::EndOfStream => None,
    }
}

/// Stage 1: the message to send for the next sample of `source`, which is
/// taken off it; the sentinel once the source is exhausted.
pub fn acquire_next(source: &mut SegQueue<Vec<u32>>) -> (r: Envelope<Vec<u32>>)
    ensures
        queued_samples(*old(source)).len() == 0 ==> r is EndOfStream && queued_samples(
            *final(source),
        ) == queued_samples(*old(source)),
        queued_samples(*old(source)).len() > 0 ==> r is Present && r->Present_0@
            == queued_samples(*old(source))[0] && queued_samples(*final(source))
            == queued_samples(*old(source)).drop_first(),
        r is Present ==> acquired_stream(queued_samples(*old(source))) == seq![
            sample_envelope(r),
        ] + acquired_stream(queued_samples(*final(source))),
        r is EndOfStream ==> acquired_stream(queued_samples(*old(source))) == seq![
            sample_envelope(r),
        ],
{
    match pop_front(source) {
        Some(sample) => Envelope::Present(sample),
        None => Envelope::EndOfStream,
    }
}

/// The sending end of a channel between two stages, opaque to proofs.
#[verifier::external_type_specification]
#[verifier::external_body]
#[verifier::reject_recursive_types(T)]
pub struct ExSender<T>(Sender<T>);

/// The receiving stage has gone away, so a message could not be sent.
#[derive(Debug, Clone, Copy, PartialEq, Eq, Structural)]
pub struct Disconnected;

/// Relies on `crossbeam_channel::Sender::send`: hands the message to the
/// channel, and gives `false` when every receiver is gone. Whether it is sent
/// depends on the receiving side, so nothing is promised of the result.
#[verifier::external_body]
fn send_sample(channel: &Sender<Envelope<Vec<u32>>>, message: Envelope<Vec<u32>>) -> (sent: bool) {
    channel.send(message).is_ok()
}

/// `rest` is what is left of `all` once some samples were taken off its front.
pub open spec fn is_remainder(all: Seq<Seq<u32>>, rest: Seq<Seq<u32>>) -> bool {
    rest.len() <= all.len() && rest == all.subrange(all.len() - rest.len(), all.len() as int)
}

/// Stage 1: drains `source` into `channel`, one message per sample in queue
/// order, then the sentinel once. It fails only when the receiving stage is
/// gone; the samples handed to the channel, the refused one included, are then
/// off the source and the others still on it.
pub fn acquire_stage(source: &mut SegQueue<Vec<u32>>, channel: &Sender<Envelope<Vec<u32>>>) -> (r:
    Result<(), Disconnected>)
    ensures
        r is Ok ==> queued_samples(*final(source)).len() == 0,
        is_remainder(queued_samples(*old(source)), queued_samples(*final(source))),
{
    proof {
        let all = queued_samples(*source);
        assert(all.subrange(0, all.len() as int) =~= all);
    }
    loop
        invariant
            is_remainder(queued_samples(*old(source)), queued_samples(*source)),
        decreases queued_samples(*source).len(),
    {
        let message = acquire_next(source);
        let end = message.is_end_of_stream();
        proof {
            let all = queued_samples(*old(source));
            let now = queued_samples(*source);
            if !end {
                assert(now =~= all.subrange(all.len() - now.len(), all.len() as int));
            }
        }
        if !send_sample(channel, message) {
            return Err(Disconnected);
        }
        if end {
            return Ok(());
        }
    }
}

/// Stage 2: decodes a received raw sample into the fixed-point triplet to
/// send on, and passes the sentinel through. A sample that cannot be decoded
/// gives the error, which stops the stage.
pub fn convert_message(msg: Envelope<Vec<u32>>) -> (r: Result<
    Envelope<(u32, u32, u32)>,
    ConversionError,
>)
    ensures
        r == convert_result(sample_envelope(msg)),
{
    match msg {
        Envelope::Present(bits) => {
            // Each component is below 256, so a round trip through a float
            // with `FRACTIONAL_BITS` fractional bits would give it back
            // unchanged: the decoded bytes are the fixed-point values.
            let triplet = bits_to_u32_triplet(bits.as_slice())?;
            Ok(Envelope::Present(triplet))
        },
        Envelope::EndOfStream => Ok(Envelope::EndOfStream),
    }
}

/// Stage 3: the fixed-point triplet to report for a received message, or
/// `None` on the sentinel, after which the stage stops.
pub fn report_message(msg: Envelope<(u32, u32, u32)>) -> (r: Option<(u32, u32, u32)>)
    ensures
        r == report_result(msg),
{
    match msg {
        Envelope::Present(t) => Some(t),
        Envelope::EndOfStream => None,
    }
}

/// The messages that stage 1 sends, in order, while draining a source that
/// holds `samples`: one per sample, then the sentinel.
pub open spec fn acquired_stream(samples: Seq<Seq<u32>>) -> Seq<Envelope<Seq<u32>>>
    decreases samples.len(),
{
    if samples.len() == 0 {
        seq![Envelope::EndOfStream]
    } else {
        seq![Envelope::Present(samples[0])] + acquired_stream(samples.drop_first())
    }
}

/// The messages that stage 2 sends, in order, for the messages `msgs` that it
/// receives, with the error that stopped it, if one did. It stops after
/// forwarding the sentinel, or at the first sample it cannot decode.
pub open spec fn converted_stream(msgs: Seq<Envelope<Seq<u32>>>) -> (
    Seq<Envelope<(u32, u32, u32)>>,
    Option<ConversionError>,
)
    decreases msgs.len(),
{
    if msgs.len() == 0 {
        (seq![], None)
    } else {
        match convert_result(msgs[0]) {
            Err(e) => (seq![], Some(e)),
            Ok(Envelope::EndOfStream) => (seq![Envelope::EndOfStream], None),
            Ok(Envelope::Present(t)) => {
                let rest = converted_stream(msgs.drop_first());
                (seq![Envelope::Present(t)] + rest.0, rest.1)
            },
        }
    }
}

/// The triplets that stage 3 reports, in order, for the messages `msgs` that
/// it receives; it stops at the sentinel.
pub open spec fn reported(msgs: Seq<Envelope<(u32, u32, u32)>>) -> Seq<(u32, u32, u32)>
    decreases msgs.len(),
{
    if msgs.len() == 0 {
        seq![]
    } else {
        match report_result(msgs[0]) {
            None => seq![],
            Some(t) => seq![t] + reported(msgs.drop_first()),
        }
    }
}

/// The triplets that the pipeline reports for a source pre-loaded with
/// `samples`.
pub open spec fn pipeline_reports(samples: Seq<Seq<u32>>) -> Seq<(u32, u32, u32)> {
    reported(converted_stream(acquired_stream(samples)).0)
}

/// The decoding error that stops the pipeline for a source pre-loaded with
/// `samples`, if any.
pub open spec fn pipeline_failure(samples: Seq<Seq<u32>>) -> Option<ConversionError> {
    converted_stream(acquired_stream(samples)).1
}

/// A sample that decodes.
pub open spec fn valid_sample(bits: Seq<u32>) -> bool {
    triplet_result(bits) is Ok
}

proof fn lemma_stream_step(samples: Seq<Seq<u32>>)
    requires
        samples.len() > 0,
        valid_sample(samples[0]),
    ensures
        pipeline_failure(samples) == pipeline_failure(samples.drop_first()),
        pipeline_reports(samples) == seq![triplet_result(samples[0])->Ok_0] + pipeline_reports(
            samples.drop_first(),
        ),
{
    let msgs = acquired_stream(samples);
    assert(msgs.drop_first() =~= acquired_stream(samples.drop_first()));
    let out = converted_stream(msgs).0;
    assert(out.drop_first() =~= converted_stream(acquired_stream(samples.drop_first())).0);
}

/// For a source pre-loaded with samples that all decode, the pipeline stops
/// without error and reports exactly one triplet per sample, in the order in
/// which the samples were queued; for an empty source it reports nothing.
pub proof fn lemma_valid_batch_reported_in_order(samples: Seq<Seq<u32>>)
    requires
        forall|i: int| 0 <= i < samples.len() ==> valid_sample(#[trigger] samples[i]),
    ensures
        pipeline_failure(samples) is None,
        pipeline_reports(samples).len() == samples.len(),
        forall|i: int|
            0 <= i < samples.len() ==> #[trigger] pipeline_reports(samples)[i] == triplet_result(
                samples[i],
            )->Ok_0,
        samples.len() == 0 ==> pipeline_reports(samples) == Seq::<(u32, u32, u32)>::empty(),
    decreases samples.len(),
{
    if samples.len() > 0 {
        let rest = samples.drop_first();
        assert forall|i: int| 0 <= i < rest.len() implies valid_sample(#[trigger] rest[i]) by {
            assert(rest[i] == samples[i + 1]);
        }
        lemma_valid_batch_reported_in_order(rest);
        lemma_stream_step(samples);
        assert forall|i: int| 0 < i < samples.len() implies #[trigger] pipeline_reports(
            samples,
        )[i] == triplet_result(samples[i])->Ok_0 by {
            assert(pipeline_reports(samples)[i] == pipeline_reports(rest)[i - 1]);
            assert(rest[i - 1] == samples[i]);
        }
    } else {
        assert(acquired_stream(samples) == seq![Envelope::<Seq<u32>>::EndOfStream]);
        let out = converted_stream(acquired_stream(samples)).0;
        assert(out == seq![Envelope::<(u32, u32, u32)>::EndOfStream]);
        assert(reported(out.drop_first()) == Seq::<(u32, u32, u32)>::empty());
    }
}

/// When the sample at `k` is the first of a pre-loaded batch that does not
/// decode, the pipeline stops with that sample's error, after reporting the
/// triplets of the `k` samples before it, in order: fewer triplets than
/// samples.
pub proof fn lemma_invalid_sample_stops_pipeline(samples: Seq<Seq<u32>>, k: int)
    requires
        0 <= k < samples.len(),
        !valid_sample(samples[k]),
        forall|i: int| 0 <= i < k ==> valid_sample(#[trigger] samples[i]),
    ensures
        pipeline_failure(samples) == Some(triplet_result(samples[k])->Err_0),
        pipeline_reports(samples).len() == k,
        pipeline_reports(samples).len() < samples.len(),
        forall|i: int|
            0 <= i < k ==> #[trigger] pipeline_reports(samples)[i] == triplet_result(
                samples[i],
            )->Ok_0,
    decreases k,
{
    if k == 0 {
        assert(acquired_stream(samples)[0] == Envelope::Present(samples[0]));
        assert(converted_stream(acquired_stream(samples)).0 == Seq::<
            Envelope<(u32, u32, u32)>,
        >::empty());
    } else {
        let rest = samples.drop_first();
        assert forall|i: int| 0 <= i < k - 1 implies valid_sample(#[trigger] rest[i]) by {
            assert(rest[i] == samples[i + 1]);
        }
        assert(rest[k - 1] == samples[k]);
        lemma_invalid_sample_stops_pipeline(rest, k - 1);
        lemma_stream_step(samples);
        assert forall|i: int| 0 < i < k implies #[trigger] pipeline_reports(samples)[i]
            == triplet_result(samples[i])->Ok_0 by {
            assert(pipeline_reports(samples)[i] == pipeline_reports(rest)[i - 1]);
            assert(rest[i - 1] == samples[i]);
        }
    }
}

} // verus!
