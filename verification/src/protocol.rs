//! What holds of a run of the whole pipeline, with one first-in-first-out
//! channel in each direction between producer and consumer.

use vstd::prelude::*;
use crate::consumer::{
    consumer_start, indices_increase, lemma_presented_in_arrival_order, presented_frames,
    received_frames, ConsumerEventModel,
};
use crate::producer::{
    lemma_sent_frames_consecutive, producer_start, sent_frames, ProducerEventModel,
};

verus! {

/// The frames reach the consumer in order.  Whatever the producer and the
/// consumer are told, as long as the frames that arrive are the first of the
/// frames that were sent, in the order of sending: the `k`-th frame that the
/// consumer sees has index `k`, so the indices it sees grow strictly, and so
/// do the indices it presents.
pub proof fn lemma_pipeline_frame_order(
    frame_budget: u64,
    lag_threshold: u64,
    produced: Seq<ProducerEventModel>,
    consumed: Seq<ConsumerEventModel>,
)
    requires
        received_frames(consumed).is_prefix_of(
            sent_frames(producer_start(frame_budget, lag_threshold).0, produced),
        ),
    ensures
        forall|k: int|
            0 <= k < received_frames(consumed).len() ==> (#[trigger] received_frames(
                consumed,
            )[k]).index == k,
        indices_increase(received_frames(consumed)),
        indices_increase(presented_frames(consumer_start().0, consumed)),
{
    let start = producer_start(frame_budget, lag_threshold).0;
    let sent = sent_frames(start, produced);
    let seen = received_frames(consumed);
    lemma_sent_frames_consecutive(start, produced);
    assert forall|k: int| 0 <= k < seen.len() implies (#[trigger] seen[k]).index == k by {
        assert(seen[k] == sent[k]);
    }
    lemma_presented_in_arrival_order(consumer_start().0, consumed, 0);
}

} // verus!
