//! The frame pipeline: the messages that travel between the side that
//! renders frames and the side that presents them.

use vstd::prelude::*;

verus! {

/// One rendered frame: its index in the run and its intensities in
/// row-major order.
#[derive(Clone, Debug, PartialEq, Eq)]
pub struct Frame {
    pub index: u64,
    pub pixels: Vec<u8>,
}

/// The model of a [`Frame`].
pub struct FrameModel {
    pub index: u64,
    pub pixels: Seq<u8>,
}

impl View for Frame {
    type V = FrameModel;

    open spec fn view(&self) -> FrameModel {
        FrameModel { index: self.index, pixels: self.pixels@ }
    }
}

/// What the producer sends to the consumer.
#[derive(Debug, PartialEq, Eq)]
pub enum PipelineMessage {
    /// Present this frame.
    Render(Frame),
    /// No more frames follow.
    Shutdown,
}

/// The model of a [`PipelineMessage`].
pub enum MessageModel {
    Render(FrameModel),
    Shutdown,
}

impl View for PipelineMessage {
    type V = MessageModel;

    open spec fn view(&self) -> MessageModel {
        match self {
            PipelineMessage::Render(frame) => MessageModel::Render(frame@),
            PipelineMessage::Shutdown => MessageModel::Shutdown,
        }
    }
}

/// What the consumer sends back to the producer.
#[derive(Clone, Copy, Debug, PartialEq, Eq, Structural)]
pub enum PipelineAck {
    /// The frame with this index has been presented.
    Rendered(u64),
    /// The display is up and frames may come.
    SinkReady,
    /// The consumer has stopped and takes no more frames.
    SinkShutdown,
}

/// How far presentation trails behind generation: the distance between the
/// index being generated and an acknowledged index.
pub open spec fn frame_lag(current: u64, acked: u64) -> int {
    if current >= acked {
        current - acked
    } else {
        acked - current
    }
}

/// Computes the lag between the frame being generated and an acknowledged
/// frame.
pub fn lag_between(current: u64, acked: u64) -> (lag: u64)
    ensures
        lag == frame_lag(current, acked),
{
    if current >= acked {
        current - acked
    } else {
        acked - current
    }
}

/// A notice that presentation lags behind generation by more than the
/// configured threshold.
#[derive(Clone, Copy, Debug, PartialEq, Eq, Structural)]
pub struct LagWarning {
    /// Index of the frame being generated.
    pub current_index: u64,
    /// Index that the consumer acknowledged.
    pub acked_index: u64,
    /// Distance between the two.
    pub lag: u64,
}

/// The warnings that a batch of acknowledgements gives rise to, in the order
/// of the acknowledgements: one for each `Rendered(i)` whose lag behind
/// `current` exceeds `threshold`.
pub open spec fn lag_warnings(acks: Seq<PipelineAck>, current: u64, threshold: u64) -> Seq<LagWarning>
    decreases acks.len(),
{
    if acks.len() == 0 {
        Seq::empty()
    } else {
        let earlier = lag_warnings(acks.drop_last(), current, threshold);
        match acks.last() {
            PipelineAck::Rendered(acked) => if frame_lag(current, acked) > threshold {
                earlier.push(
                    LagWarning {
                        current_index: current,
                        acked_index: acked,
                        lag: frame_lag(current, acked) as u64,
                    },
                )
            } else {
                earlier
            },
            _ => earlier,
        }
    }
}

/// The index acknowledged last: that of the last `Rendered` in the batch,
/// or `before` if the batch has none.
pub open spec fn last_acked(acks: Seq<PipelineAck>, before: Option<u64>) -> Option<u64>
    decreases acks.len(),
{
    if acks.len() == 0 {
        before
    } else {
        match acks.last() {
            PipelineAck::Rendered(acked) => Some(acked),
            _ => last_acked(acks.drop_last(), before),
        }
    }
}

/// The batch holds a `SinkShutdown`.
pub open spec fn saw_shutdown(acks: Seq<PipelineAck>) -> bool {
    exists|i: int| 0 <= i < acks.len() && acks[i] == PipelineAck::SinkShutdown
}

/// What a batch of acknowledgements tells the producer.
#[derive(Debug, PartialEq, Eq)]
pub struct AckSummary {
    /// The index acknowledged last, if any ever was.
    pub last_acked_index: Option<u64>,
    /// The consumer has announced that it stopped.
    pub sink_shutdown: bool,
    /// The lag warnings to surface.
    pub warnings: Vec<LagWarning>,
}

/// Reads a batch of acknowledgements in order.
pub fn summarize_acks(
    acks: &Vec<PipelineAck>,
    before: Option<u64>,
    current: u64,
    threshold: u64,
) -> (summary: AckSummary)
    ensures
        summary.last_acked_index == last_acked(acks@, before),
        summary.sink_shutdown == saw_shutdown(acks@),
        summary.warnings@ == lag_warnings(acks@, current, threshold),
{
    let mut last: Option<u64> = before;
    let mut shutdown: bool = false;
    let mut warnings: Vec<LagWarning> = Vec::new();
    let mut i: usize = 0;
    while i < acks.len()
        invariant
            i <= acks.len(),
            last == last_acked(acks@.take(i as int), before),
            shutdown == saw_shutdown(acks@.take(i as int)),
            warnings@ == lag_warnings(acks@.take(i as int), current, threshold),
        decreases acks.len() - i,
    {
        let ack: PipelineAck = acks[i];
        proof {
            let longer = acks@.take(i + 1);
            assert(longer.drop_last() == acks@.take(i as int));
            assert(longer.last() == ack);
            if saw_shutdown(acks@.take(i as int)) {
                let k: int = choose|k: int|
                    0 <= k < acks@.take(i as int).len() && acks@.take(i as int)[k]
                        == PipelineAck::SinkShutdown;
                assert(longer[k] == PipelineAck::SinkShutdown);
            }
            if ack == PipelineAck::SinkShutdown {
                assert(longer[i as int] == PipelineAck::SinkShutdown);
            }
            if saw_shutdown(longer) && ack != PipelineAck::SinkShutdown {
                let k: int = choose|k: int| 0 <= k < longer.len() && longer[k] == PipelineAck::SinkShutdown;
                assert(acks@.take(i as int)[k] == PipelineAck::SinkShutdown);
            }
        }
        match ack {
            PipelineAck::Rendered(acked) => {
                last = Some(acked);
                let lag: u64 = lag_between(current, acked);
                if lag > threshold {
                    warnings.push(LagWarning { current_index: current, acked_index: acked, lag });
                }
            },
            PipelineAck::SinkReady => {},
            PipelineAck::SinkShutdown => {
                shutdown = true;
            },
        }
        i = i + 1;
    }
    proof {
        assert(acks@.take(acks.len() as int) == acks@);
    }
    AckSummary { last_acked_index: last, sink_shutdown: shutdown, warnings }
}

} // verus!
