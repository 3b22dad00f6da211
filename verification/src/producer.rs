//! The producing side of the pipeline as a state machine.  The caller
//! performs each action (render, drain the acknowledgements, send) and
//! reports what came of it as the next event.

use vstd::prelude::*;
use crate::pipeline::{
    lag_warnings, last_acked, saw_shutdown, summarize_acks, AckSummary, Frame, FrameModel,
    LagWarning, PipelineAck,
};

verus! {

/// Where the producer is in its cycle.
#[derive(Clone, Copy, Debug, PartialEq, Eq, Structural)]
pub enum ProducerPhase {
    /// A frame is being rendered.
    Generating,
    /// The frame is rendered; the acknowledgements are being collected.
    DrainingAcks,
    /// The frame has been handed out for sending.
    Sending,
    /// The producer has stopped for good.
    Terminated,
}

/// What the caller reports to the producer.
#[derive(Debug, PartialEq, Eq)]
pub enum ProducerEvent {
    /// The frame asked for has been rendered; these are its pixels.
    FrameRendered(Vec<u8>),
    /// These acknowledgements were waiting, oldest first.
    AcksDrained(Vec<PipelineAck>),
    /// The frame has been sent.
    FrameSent,
    /// The frame could not be sent: the consumer is gone.
    SendFailed,
}

/// The model of a [`ProducerEvent`].
pub enum ProducerEventModel {
    FrameRendered(Seq<u8>),
    AcksDrained(Seq<PipelineAck>),
    FrameSent,
    SendFailed,
}

impl View for ProducerEvent {
    type V = ProducerEventModel;

    open spec fn view(&self) -> ProducerEventModel {
        match self {
            ProducerEvent::FrameRendered(pixels) => ProducerEventModel::FrameRendered(pixels@),
            ProducerEvent::AcksDrained(acks) => ProducerEventModel::AcksDrained(acks@),
            ProducerEvent::FrameSent => ProducerEventModel::FrameSent,
            ProducerEvent::SendFailed => ProducerEventModel::SendFailed,
        }
    }
}

/// What the producer asks the caller to do next.
#[derive(Debug, PartialEq, Eq)]
pub enum ProducerAction {
    /// Render the frame with this index and report `FrameRendered`.
    Render { index: u64 },
    /// Collect the acknowledgements that are waiting, without blocking, and
    /// report `AcksDrained`.
    DrainAcks,
    /// Send this frame and report `FrameSent` or `SendFailed`.
    Send { frame: Frame },
    /// Stop.  Send `Shutdown` to the consumer first if `notify_consumer`.
    Stop { notify_consumer: bool },
    /// The event was not awaited in this phase and has been dropped.
    Ignored,
}

/// The model of a [`ProducerAction`].
pub enum ProducerActionModel {
    Render { index: u64 },
    DrainAcks,
    Send { frame: FrameModel },
    Stop { notify_consumer: bool },
    Ignored,
}

impl View for ProducerAction {
    type V = ProducerActionModel;

    open spec fn view(&self) -> ProducerActionModel {
        match self {
            ProducerAction::Render { index } => ProducerActionModel::Render { index: *index },
            ProducerAction::DrainAcks => ProducerActionModel::DrainAcks,
            ProducerAction::Send { frame } => ProducerActionModel::Send { frame: frame@ },
            ProducerAction::Stop { notify_consumer } => ProducerActionModel::Stop {
                notify_consumer: *notify_consumer,
            },
            ProducerAction::Ignored => ProducerActionModel::Ignored,
        }
    }
}

/// What one step of the producer gives: the next action, and the lag
/// warnings to surface.
#[derive(Debug, PartialEq, Eq)]
pub struct ProducerOutput {
    pub action: ProducerAction,
    pub lag_warnings: Vec<LagWarning>,
}

/// The model of a [`ProducerOutput`].
pub struct ProducerOutputModel {
    pub action: ProducerActionModel,
    pub lag_warnings: Seq<LagWarning>,
}

impl View for ProducerOutput {
    type V = ProducerOutputModel;

    open spec fn view(&self) -> ProducerOutputModel {
        ProducerOutputModel { action: self.action@, lag_warnings: self.lag_warnings@ }
    }
}

/// The model of a [`Producer`].
pub struct ProducerModel {
    pub phase: ProducerPhase,
    /// Index of the frame in the making; also the number of frames sent.
    pub current_index: u64,
    /// Number of frames after which the producer stops.
    pub frame_budget: u64,
    /// Lag above which a warning is surfaced.
    pub lag_threshold: u64,
    /// The index that the consumer acknowledged last.
    pub last_acked_index: Option<u64>,
    /// Pixels of the rendered frame that has not been handed out yet.
    pub pending: Option<Seq<u8>>,
    /// The consumer has stopped, by its own say or by being gone.
    pub consumer_stopped: bool,
}

impl ProducerModel {
    /// A running producer is within its budget, and holds a rendered frame
    /// exactly while it collects acknowledgements.
    pub open spec fn wf(self) -> bool {
        &&& self.phase != ProducerPhase::Terminated ==> self.current_index < self.frame_budget
        &&& self.pending.is_some() <==> self.phase == ProducerPhase::DrainingAcks
    }

    /// The same producer in another phase, holding no frame.
    pub open spec fn moved_to(self, phase: ProducerPhase) -> ProducerModel {
        ProducerModel { phase, pending: None, ..self }
    }
}

/// An output with an action and no warnings.
pub open spec fn plain_output(action: ProducerActionModel) -> ProducerOutputModel {
    ProducerOutputModel { action, lag_warnings: Seq::empty() }
}

/// The producer at the start of a run and its first action.  With an empty
/// budget it stops at once and tells the consumer so.
pub open spec fn producer_start(frame_budget: u64, lag_threshold: u64) -> (
    ProducerModel,
    ProducerOutputModel,
) {
    let fresh = ProducerModel {
        phase: ProducerPhase::Generating,
        current_index: 0,
        frame_budget,
        lag_threshold,
        last_acked_index: None,
        pending: None,
        consumer_stopped: false,
    };
    if frame_budget == 0 {
        (
            fresh.moved_to(ProducerPhase::Terminated),
            plain_output(ProducerActionModel::Stop { notify_consumer: true }),
        )
    } else {
        (fresh, plain_output(ProducerActionModel::Render { index: 0 }))
    }
}

/// One step of the producer: the state after `event` and what to do next.
///
/// * While generating, a rendered frame is kept and the acknowledgements
///   are asked for.
/// * While draining, the acknowledgements are read.  If the consumer has
///   stopped, so does the producer, sending nothing more.  Otherwise the
///   frame is handed out for sending under the current index.
/// * While sending, success moves on to the next index, or stops with a
///   notice to the consumer when the budget is used up; failure stops
///   without one.
/// * Any other event is dropped.
pub open spec fn producer_step(state: ProducerModel, event: ProducerEventModel) -> (
    ProducerModel,
    ProducerOutputModel,
) {
    match (state.phase, event) {
        (ProducerPhase::Generating, ProducerEventModel::FrameRendered(pixels)) => (
            ProducerModel { phase: ProducerPhase::DrainingAcks, pending: Some(pixels), ..state },
            plain_output(ProducerActionModel::DrainAcks),
        ),
        (ProducerPhase::DrainingAcks, ProducerEventModel::AcksDrained(acks)) => {
            let informed = ProducerModel {
                last_acked_index: last_acked(acks, state.last_acked_index),
                consumer_stopped: state.consumer_stopped || saw_shutdown(acks),
                ..state
            };
            let warnings = lag_warnings(acks, state.current_index, state.lag_threshold);
            if saw_shutdown(acks) {
                (
                    informed.moved_to(ProducerPhase::Terminated),
                    ProducerOutputModel {
                        action: ProducerActionModel::Stop { notify_consumer: false },
                        lag_warnings: warnings,
                    },
                )
            } else {
                (
                    informed.moved_to(ProducerPhase::Sending),
                    ProducerOutputModel {
                        action: ProducerActionModel::Send {
                            frame: FrameModel {
                                index: state.current_index,
                                pixels: state.pending.unwrap(),
                            },
                        },
                        lag_warnings: warnings,
                    },
                )
            }
        },
        (ProducerPhase::Sending, ProducerEventModel::FrameSent) => {
            let next: u64 = (state.current_index + 1) as u64;
            if next >= state.frame_budget {
                (
                    ProducerModel {
                        phase: ProducerPhase::Terminated,
                        current_index: next,
                        ..state
                    },
                    plain_output(ProducerActionModel::Stop { notify_consumer: true }),
                )
            } else {
                (
                    ProducerModel {
                        phase: ProducerPhase::Generating,
                        current_index: next,
                        ..state
                    },
                    plain_output(ProducerActionModel::Render { index: next }),
                )
            }
        },
        (ProducerPhase::Sending, ProducerEventModel::SendFailed) => (
            ProducerModel { phase: ProducerPhase::Terminated, consumer_stopped: true, ..state },
            plain_output(ProducerActionModel::Stop { notify_consumer: false }),
        ),
        _ => (state, plain_output(ProducerActionModel::Ignored)),
    }
}

/// The phase of a producer together with what it holds in that phase.
#[derive(Debug)]
enum Stage {
    Generating,
    DrainingAcks(Vec<u8>),
    Sending,
    Terminated,
}

impl Stage {
    spec fn phase(self) -> ProducerPhase {
        match self {
            Stage::Generating => ProducerPhase::Generating,
            Stage::DrainingAcks(_) => ProducerPhase::DrainingAcks,
            Stage::Sending => ProducerPhase::Sending,
            Stage::Terminated => ProducerPhase::Terminated,
        }
    }

    spec fn pending(self) -> Option<Seq<u8>> {
        match self {
            Stage::DrainingAcks(pixels) => Some(pixels@),
            _ => None,
        }
    }
}

/// Puts a stage in the place of another and hands out the old one.
fn replace_stage(slot: &mut Stage, next: Stage) -> (previous: Stage)
    ensures
        previous == *old(slot),
        *final(slot) == next,
    no_unwind
{
    let mut held: Stage = next;
    core::mem::swap(slot, &mut held);
    held
}

/// The producing side of the pipeline.
#[derive(Debug)]
pub struct Producer {
    stage: Stage,
    current_index: u64,
    frame_budget: u64,
    lag_threshold: u64,
    last_acked_index: Option<u64>,
    consumer_stopped: bool,
}

impl View for Producer {
    type V = ProducerModel;

    closed spec fn view(&self) -> ProducerModel {
        ProducerModel {
            phase: self.stage.phase(),
            current_index: self.current_index,
            frame_budget: self.frame_budget,
            lag_threshold: self.lag_threshold,
            last_acked_index: self.last_acked_index,
            pending: self.stage.pending(),
            consumer_stopped: self.consumer_stopped,
        }
    }
}

impl Producer {
    #[verifier::type_invariant]
    closed spec fn inv(self) -> bool {
        self@.wf()
    }

    /// A producer that will send `frame_budget` frames and warns of lag above
    /// `lag_threshold`, together with its first action.
    pub fn start(frame_budget: u64, lag_threshold: u64) -> (started: (Producer, ProducerOutput))
        ensures
            started.0@ == producer_start(frame_budget, lag_threshold).0,
            started.1@ == producer_start(frame_budget, lag_threshold).1,
            started.0@.wf(),
    {
        let stage = if frame_budget == 0 {
            Stage::Terminated
        } else {
            Stage::Generating
        };
        let action = if frame_budget == 0 {
            ProducerAction::Stop { notify_consumer: true }
        } else {
            ProducerAction::Render { index: 0 }
        };
        let producer = Producer {
            stage,
            current_index: 0,
            frame_budget,
            lag_threshold,
            last_acked_index: None,
            consumer_stopped: false,
        };
        (producer, ProducerOutput { action, lag_warnings: Vec::new() })
    }

    /// The phase the producer is in.
    pub fn phase(&self) -> (phase: ProducerPhase)
        ensures
            phase == self@.phase,
    {
        match &self.stage {
            Stage::Generating => ProducerPhase::Generating,
            Stage::DrainingAcks(_) => ProducerPhase::DrainingAcks,
            Stage::Sending => ProducerPhase::Sending,
            Stage::Terminated => ProducerPhase::Terminated,
        }
    }

    /// Index of the frame in the making, which is also the number of frames
    /// sent so far.
    pub fn current_index(&self) -> (index: u64)
        ensures
            index == self@.current_index,
    {
        self.current_index
    }

    /// The index that the consumer acknowledged last, if it acknowledged any.
    pub fn last_acked_index(&self) -> (index: Option<u64>)
        ensures
            index == self@.last_acked_index,
    {
        self.last_acked_index
    }

    /// The consumer has stopped, by its own say or by being gone.
    pub fn consumer_stopped(&self) -> (stopped: bool)
        ensures
            stopped == self@.consumer_stopped,
    {
        self.consumer_stopped
    }

    /// Takes an event and says what to do next.
    pub fn step(&mut self, event: ProducerEvent) -> (output: ProducerOutput)
        ensures
            final(self)@ == producer_step(old(self)@, event@).0,
            output@ == producer_step(old(self)@, event@).1,
            final(self)@.wf(),
    {
        proof {
            use_type_invariant(&*self);
        }
        let phase: ProducerPhase = self.phase();
        match event {
            ProducerEvent::FrameRendered(pixels) => {
                if phase == ProducerPhase::Generating {
                    self.stage = Stage::DrainingAcks(pixels);
                    ProducerOutput { action: ProducerAction::DrainAcks, lag_warnings: Vec::new() }
                } else {
                    ProducerOutput { action: ProducerAction::Ignored, lag_warnings: Vec::new() }
                }
            },
            ProducerEvent::AcksDrained(acks) => {
                if phase == ProducerPhase::DrainingAcks {
                    let summary: AckSummary = summarize_acks(
                        &acks,
                        self.last_acked_index,
                        self.current_index,
                        self.lag_threshold,
                    );
                    self.last_acked_index = summary.last_acked_index;
                    if summary.sink_shutdown {
                        self.consumer_stopped = true;
                        self.stage = Stage::Terminated;
                        ProducerOutput {
                            action: ProducerAction::Stop { notify_consumer: false },
                            lag_warnings: summary.warnings,
                        }
                    } else {
                        let previous: Stage = replace_stage(&mut self.stage, Stage::Sending);
                        match previous {
                            Stage::DrainingAcks(pixels) => ProducerOutput {
                                action: ProducerAction::Send {
                                    frame: Frame { index: self.current_index, pixels },
                                },
                                lag_warnings: summary.warnings,
                            },
                            _ => {
                                proof {
                                    assert(false);
                                }
                                vstd::pervasive::unreached()
                            },
                        }
                    }
                } else {
                    ProducerOutput { action: ProducerAction::Ignored, lag_warnings: Vec::new() }
                }
            },
            ProducerEvent::FrameSent => {
                if phase == ProducerPhase::Sending {
                    let next: u64 = self.current_index + 1;
                    if next >= self.frame_budget {
                        self.stage = Stage::Terminated;
                        self.current_index = next;
                        ProducerOutput {
                            action: ProducerAction::Stop { notify_consumer: true },
                            lag_warnings: Vec::new(),
                        }
                    } else {
                        self.current_index = next;
                        self.stage = Stage::Generating;
                        ProducerOutput {
                            action: ProducerAction::Render { index: next },
                            lag_warnings: Vec::new(),
                        }
                    }
                } else {
                    ProducerOutput { action: ProducerAction::Ignored, lag_warnings: Vec::new() }
                }
            },
            ProducerEvent::SendFailed => {
                if phase == ProducerPhase::Sending {
                    self.consumer_stopped = true;
                    self.stage = Stage::Terminated;
                    ProducerOutput {
                        action: ProducerAction::Stop { notify_consumer: false },
                        lag_warnings: Vec::new(),
                    }
                } else {
                    ProducerOutput { action: ProducerAction::Ignored, lag_warnings: Vec::new() }
                }
            },
        }
    }
}

/// A step keeps a producer well formed.
pub proof fn lemma_producer_step_wf(state: ProducerModel, event: ProducerEventModel)
    requires
        state.wf(),
    ensures
        producer_step(state, event).0.wf(),
{
}

/// The state of a producer after a sequence of events.
pub open spec fn producer_run(state: ProducerModel, events: Seq<ProducerEventModel>) -> ProducerModel
    decreases events.len(),
{
    if events.len() == 0 {
        state
    } else {
        producer_run(producer_step(state, events.first()).0, events.drop_first())
    }
}

/// The frames that a producer hands out for sending over a sequence of
/// events, in order.
pub open spec fn sent_frames(state: ProducerModel, events: Seq<ProducerEventModel>) -> Seq<FrameModel>
    decreases events.len(),
{
    if events.len() == 0 {
        Seq::empty()
    } else {
        let (next, output) = producer_step(state, events.first());
        let later = sent_frames(next, events.drop_first());
        match output.action {
            ProducerActionModel::Send { frame } => seq![frame] + later,
            _ => later,
        }
    }
}

/// Index of the next frame that the producer will hand out, if it hands out
/// any more.
pub open spec fn next_unsent(state: ProducerModel) -> int {
    if state.phase == ProducerPhase::Sending {
        state.current_index + 1
    } else {
        state.current_index as int
    }
}

/// The producer numbers its frames consecutively: from any state on, the
/// frames handed out carry the indices `next_unsent`, `next_unsent + 1`, and
/// so on, none repeated and none skipped, and all within the budget.
pub proof fn lemma_sent_frames_consecutive(state: ProducerModel, events: Seq<ProducerEventModel>)
    requires
        state.wf(),
    ensures
        forall|k: int|
            0 <= k < sent_frames(state, events).len() ==> #[trigger] sent_frames(
                state,
                events,
            )[k].index == next_unsent(state) + k,
        forall|k: int|
            0 <= k < sent_frames(state, events).len() ==> #[trigger] sent_frames(
                state,
                events,
            )[k].index < state.frame_budget,
    decreases events.len(),
{
    if events.len() > 0 {
        let (next, output) = producer_step(state, events.first());
        let later = sent_frames(next, events.drop_first());
        lemma_producer_step_wf(state, events.first());
        lemma_sent_frames_consecutive(next, events.drop_first());
        assert(next.frame_budget == state.frame_budget);
        match output.action {
            ProducerActionModel::Send { frame } => {
                assert(frame.index == next_unsent(state));
                assert(next_unsent(next) == next_unsent(state) + 1);
                assert forall|k: int| 0 <= k < sent_frames(state, events).len() implies (
                #[trigger] sent_frames(state, events)[k]).index == next_unsent(state) + k
                    && sent_frames(state, events)[k].index < state.frame_budget by {
                    if k > 0 {
                        assert(sent_frames(state, events)[k] == later[k - 1]);
                    }
                }
            },
            _ => {
                assert(next_unsent(next) == next_unsent(state) || later.len() == 0) by {
                    if next.phase == ProducerPhase::Terminated {
                        lemma_terminated_producer_is_final(next, events.drop_first());
                    }
                }
            },
        }
    }
}

/// The indices that a producer sends grow strictly: no frame is sent twice
/// and none out of order.
pub proof fn lemma_sent_frames_increase(
    state: ProducerModel,
    events: Seq<ProducerEventModel>,
    i: int,
    j: int,
)
    requires
        state.wf(),
        0 <= i < j < sent_frames(state, events).len(),
    ensures
        sent_frames(state, events)[i].index < sent_frames(state, events)[j].index,
{
    lemma_sent_frames_consecutive(state, events);
}

/// A producer that has stopped stays as it is and hands out nothing.
pub proof fn lemma_terminated_producer_is_final(state: ProducerModel, events: Seq<ProducerEventModel>)
    requires
        state.phase == ProducerPhase::Terminated,
    ensures
        producer_run(state, events) == state,
        sent_frames(state, events).len() == 0,
    decreases events.len(),
{
    if events.len() > 0 {
        lemma_terminated_producer_is_final(state, events.drop_first());
    }
}

/// When the consumer has announced its shutdown, the producer stops at the
/// next drain: it sends neither the frame it holds nor a `Shutdown`.
pub proof fn lemma_producer_heeds_sink_shutdown(state: ProducerModel, acks: Seq<PipelineAck>)
    requires
        state.phase == ProducerPhase::DrainingAcks,
        saw_shutdown(acks),
    ensures
        producer_step(state, ProducerEventModel::AcksDrained(acks)).0.phase
            == ProducerPhase::Terminated,
        producer_step(state, ProducerEventModel::AcksDrained(acks)).1.action
            == (ProducerActionModel::Stop { notify_consumer: false }),
{
}

/// A failed send stops the producer without a notice to the consumer.
pub proof fn lemma_producer_stops_when_peer_gone(state: ProducerModel)
    requires
        state.phase == ProducerPhase::Sending,
    ensures
        producer_step(state, ProducerEventModel::SendFailed).0.phase == ProducerPhase::Terminated,
        producer_step(state, ProducerEventModel::SendFailed).1.action
            == (ProducerActionModel::Stop { notify_consumer: false }),
{
}

/// The producer stops exactly when its budget is used up, and then tells
/// the consumer: after the last frame of the budget has been sent, the next
/// action is to stop with a notice.
pub proof fn lemma_producer_stops_at_budget(state: ProducerModel)
    requires
        state.wf(),
        state.phase == ProducerPhase::Sending,
    ensures
        state.current_index + 1 == state.frame_budget ==> producer_step(
            state,
            ProducerEventModel::FrameSent,
        ).1.action == (ProducerActionModel::Stop { notify_consumer: true }),
        state.current_index + 1 < state.frame_budget ==> producer_step(
            state,
            ProducerEventModel::FrameSent,
        ).1.action == (ProducerActionModel::Render { index: (state.current_index + 1) as u64 }),
{
}

/// The event answers the action that the producer gave last.
pub open spec fn producer_awaits(state: ProducerModel, event: ProducerEventModel) -> bool {
    match (state.phase, event) {
        (ProducerPhase::Generating, ProducerEventModel::FrameRendered(_)) => true,
        (ProducerPhase::DrainingAcks, ProducerEventModel::AcksDrained(_)) => true,
        (ProducerPhase::Sending, ProducerEventModel::FrameSent) => true,
        (ProducerPhase::Sending, ProducerEventModel::SendFailed) => true,
        _ => false,
    }
}

/// Every event of the sequence answers the action given just before it.
pub open spec fn producer_conforms(state: ProducerModel, events: Seq<ProducerEventModel>) -> bool
    decreases events.len(),
{
    events.len() == 0 || (producer_awaits(state, events.first()) && producer_conforms(
        producer_step(state, events.first()).0,
        events.drop_first(),
    ))
}

/// The event is a batch of acknowledgements with a `SinkShutdown` in it.
pub open spec fn brings_sink_shutdown(event: ProducerEventModel) -> bool {
    event matches ProducerEventModel::AcksDrained(acks) && saw_shutdown(acks)
}

/// Once the consumer's `SinkShutdown` has reached a producer that is driven
/// as it asks, the producer has stopped, and the frame it held at that
/// moment was never handed out: what it sent is what it had sent before.
pub proof fn lemma_sink_shutdown_is_heeded(
    state: ProducerModel,
    events: Seq<ProducerEventModel>,
    at: int,
)
    requires
        producer_conforms(state, events),
        0 <= at < events.len(),
        brings_sink_shutdown(events[at]),
    ensures
        producer_run(state, events).phase == ProducerPhase::Terminated,
        producer_run(state, events).consumer_stopped,
        sent_frames(state, events) == sent_frames(state, events.take(at)),
    decreases events.len(),
{
    let (next, output) = producer_step(state, events.first());
    if at == 0 {
        lemma_terminated_producer_is_final(next, events.drop_first());
        assert(events.take(0).len() == 0);
    } else {
        assert(events.drop_first()[at - 1] == events[at]);
        lemma_sink_shutdown_is_heeded(next, events.drop_first(), at - 1);
        assert(events.take(at).first() == events.first());
        assert(events.take(at).drop_first() == events.drop_first().take(at - 1));
    }
}

} // verus!
