//! The presenting side of the pipeline as a state machine.  The caller
//! performs each command (receive, poll the display, present) and reports
//! what came of it as the next event.

use vstd::prelude::*;
use crate::pipeline::{Frame, FrameModel, MessageModel, PipelineAck, PipelineMessage};

verus! {

/// Where the consumer is in its cycle.
#[derive(Clone, Copy, Debug, PartialEq, Eq, Structural)]
pub enum ConsumerPhase {
    /// Waiting for the next message.
    AwaitingMessage,
    /// A frame has arrived and is on its way to the display.
    Presenting,
    /// The consumer has stopped for good.
    Terminated,
}

/// What the caller reports to the consumer.
#[derive(Debug, PartialEq, Eq)]
pub enum ConsumerEvent {
    /// This message has arrived.
    Received(PipelineMessage),
    /// The channel is closed: the producer is gone.
    PeerGone,
    /// The display was asked whether it wants to close; this is its answer.
    ClosePolled(bool),
    /// The frame handed out has been presented.
    Presented,
    /// The display failed to present the frame.
    PresentFailed,
}

/// The model of a [`ConsumerEvent`].
pub enum ConsumerEventModel {
    Received(MessageModel),
    PeerGone,
    ClosePolled(bool),
    Presented,
    PresentFailed,
}

impl View for ConsumerEvent {
    type V = ConsumerEventModel;

    open spec fn view(&self) -> ConsumerEventModel {
        match self {
            ConsumerEvent::Received(message) => ConsumerEventModel::Received(message@),
            ConsumerEvent::PeerGone => ConsumerEventModel::PeerGone,
            ConsumerEvent::ClosePolled(close) => ConsumerEventModel::ClosePolled(*close),
            ConsumerEvent::Presented => ConsumerEventModel::Presented,
            ConsumerEvent::PresentFailed => ConsumerEventModel::PresentFailed,
        }
    }
}

/// What the consumer asks the caller to do next.
#[derive(Debug, PartialEq, Eq)]
pub enum ConsumerCommand {
    /// Wait for the next message and report `Received`, or `PeerGone`.
    Receive,
    /// Ask the display, without blocking, whether it wants to close, and
    /// report `ClosePolled`.
    PollSink,
    /// Hand this frame to the display and report `Presented` or
    /// `PresentFailed`.
    Present(Frame),
    /// Stop.
    Stop,
    /// The event was not awaited in this phase and has been dropped.
    Ignored,
}

/// The model of a [`ConsumerCommand`].
pub enum ConsumerCommandModel {
    Receive,
    PollSink,
    Present(FrameModel),
    Stop,
    Ignored,
}

impl View for ConsumerCommand {
    type V = ConsumerCommandModel;

    open spec fn view(&self) -> ConsumerCommandModel {
        match self {
            ConsumerCommand::Receive => ConsumerCommandModel::Receive,
            ConsumerCommand::PollSink => ConsumerCommandModel::PollSink,
            ConsumerCommand::Present(frame) => ConsumerCommandModel::Present(frame@),
            ConsumerCommand::Stop => ConsumerCommandModel::Stop,
            ConsumerCommand::Ignored => ConsumerCommandModel::Ignored,
        }
    }
}

/// What one step of the consumer gives: an acknowledgement to send back, if
/// any, and then the next command.
#[derive(Debug, PartialEq, Eq)]
pub struct ConsumerOutput {
    pub reply: Option<PipelineAck>,
    pub command: ConsumerCommand,
}

/// The model of a [`ConsumerOutput`].
pub struct ConsumerOutputModel {
    pub reply: Option<PipelineAck>,
    pub command: ConsumerCommandModel,
}

impl View for ConsumerOutput {
    type V = ConsumerOutputModel;

    open spec fn view(&self) -> ConsumerOutputModel {
        ConsumerOutputModel { reply: self.reply, command: self.command@ }
    }
}

/// The model of a [`Consumer`].
pub struct ConsumerModel {
    pub phase: ConsumerPhase,
    /// The frame that has arrived and waits for the display's answer to the
    /// close poll.
    pub held: Option<FrameModel>,
    /// Index of the frame that arrived last.
    pub latest_index: Option<u64>,
}

impl ConsumerModel {
    /// A frame is held only while presenting, and a consumer that presents
    /// knows the index of its frame.
    pub open spec fn wf(self) -> bool {
        &&& self.held.is_some() ==> self.phase == ConsumerPhase::Presenting
        &&& self.held matches Some(frame) ==> self.latest_index == Some(frame.index)
        &&& self.phase == ConsumerPhase::Presenting ==> self.latest_index.is_some()
    }

    /// The same consumer, stopped and holding nothing.
    pub open spec fn stopped(self) -> ConsumerModel {
        ConsumerModel { phase: ConsumerPhase::Terminated, held: None, ..self }
    }
}

/// The consumer at the start of a run and its first output: it announces
/// that the display is ready and waits for a message.
pub open spec fn consumer_start() -> (ConsumerModel, ConsumerOutputModel) {
    (
        ConsumerModel { phase: ConsumerPhase::AwaitingMessage, held: None, latest_index: None },
        ConsumerOutputModel {
            reply: Some(PipelineAck::SinkReady),
            command: ConsumerCommandModel::Receive,
        },
    )
}

/// The output that ends a run with a last word to the producer.
pub open spec fn farewell() -> ConsumerOutputModel {
    ConsumerOutputModel {
        reply: Some(PipelineAck::SinkShutdown),
        command: ConsumerCommandModel::Stop,
    }
}

/// An output without a reply.
pub open spec fn silent(command: ConsumerCommandModel) -> ConsumerOutputModel {
    ConsumerOutputModel { reply: None, command }
}

/// One step of the consumer: the state after `event`, and what to reply and
/// do next.
///
/// * `Shutdown` ends a running consumer with the reply `SinkShutdown`; a
///   closed channel ends it without a reply.
/// * A frame that arrives while the consumer waits is held, and the display
///   is polled.  If the display wants to close, the consumer ends with
///   `SinkShutdown` and the frame is never presented.  Otherwise the frame is
///   handed to the display.
/// * Once presented, the frame is acknowledged with `Rendered` and its
///   index, and the consumer waits again.  If the display fails, the consumer
///   ends with `SinkShutdown`.
/// * Any other event is dropped.
pub open spec fn consumer_step(state: ConsumerModel, event: ConsumerEventModel) -> (
    ConsumerModel,
    ConsumerOutputModel,
) {
    if state.phase == ConsumerPhase::Terminated {
        (state, silent(ConsumerCommandModel::Ignored))
    } else {
        match event {
            ConsumerEventModel::Received(MessageModel::Shutdown) => (state.stopped(), farewell()),
            ConsumerEventModel::PeerGone => (state.stopped(), silent(ConsumerCommandModel::Stop)),
            ConsumerEventModel::Received(MessageModel::Render(frame)) => {
                if state.phase == ConsumerPhase::AwaitingMessage {
                    (
                        ConsumerModel {
                            phase: ConsumerPhase::Presenting,
                            held: Some(frame),
                            latest_index: Some(frame.index),
                        },
                        silent(ConsumerCommandModel::PollSink),
                    )
                } else {
                    (state, silent(ConsumerCommandModel::Ignored))
                }
            },
            ConsumerEventModel::ClosePolled(close) => {
                match state.held {
                    Some(frame) => if close {
                        (state.stopped(), farewell())
                    } else {
                        (
                            ConsumerModel { held: None, ..state },
                            silent(ConsumerCommandModel::Present(frame)),
                        )
                    },
                    None => (state, silent(ConsumerCommandModel::Ignored)),
                }
            },
            ConsumerEventModel::Presented => {
                if state.phase == ConsumerPhase::Presenting && state.held.is_none() {
                    (
                        ConsumerModel { phase: ConsumerPhase::AwaitingMessage, ..state },
                        ConsumerOutputModel {
                            reply: Some(PipelineAck::Rendered(state.latest_index.unwrap())),
                            command: ConsumerCommandModel::Receive,
                        },
                    )
                } else {
                    (state, silent(ConsumerCommandModel::Ignored))
                }
            },
            ConsumerEventModel::PresentFailed => {
                if state.phase == ConsumerPhase::Presenting && state.held.is_none() {
                    (state.stopped(), farewell())
                } else {
                    (state, silent(ConsumerCommandModel::Ignored))
                }
            },
        }
    }
}

/// The phase of a consumer together with what it holds in that phase.
#[derive(Debug)]
enum Stage {
    AwaitingMessage,
    Polling(Frame),
    Presenting,
    Terminated,
}

impl Stage {
    spec fn phase(self) -> ConsumerPhase {
        match self {
            Stage::AwaitingMessage => ConsumerPhase::AwaitingMessage,
            Stage::Polling(_) => ConsumerPhase::Presenting,
            Stage::Presenting => ConsumerPhase::Presenting,
            Stage::Terminated => ConsumerPhase::Terminated,
        }
    }

    spec fn held(self) -> Option<FrameModel> {
        match self {
            Stage::Polling(frame) => Some(frame@),
            _ => None,
        }
    }
}

/// Puts a stage in the place of another and hands out the old one.
fn replace_stage(slot: &mut Stage, next: Stage) -> (previous: Stage)
    ensures
        previous == *old(slot),
        *final(slot) == next,
    no_unwind
{
    let mut held: Stage = next;
    core::mem::swap(slot, &mut held);
    held
}

/// The presenting side of the pipeline.
#[derive(Debug)]
pub struct Consumer {
    stage: Stage,
    latest_index: Option<u64>,
}

impl View for Consumer {
    type V = ConsumerModel;

    closed spec fn view(&self) -> ConsumerModel {
        ConsumerModel {
            phase: self.stage.phase(),
            held: self.stage.held(),
            latest_index: self.latest_index,
        }
    }
}

impl Consumer {
    #[verifier::type_invariant]
    closed spec fn inv(self) -> bool {
        self@.wf()
    }

    /// A consumer at the start of a run, together with its first output.
    pub fn start() -> (started: (Consumer, ConsumerOutput))
        ensures
            started.0@ == consumer_start().0,
            started.1@ == consumer_start().1,
            started.0@.wf(),
    {
        (
            Consumer { stage: Stage::AwaitingMessage, latest_index: None },
            ConsumerOutput {
                reply: Some(PipelineAck::SinkReady),
                command: ConsumerCommand::Receive,
            },
        )
    }

    /// The phase the consumer is in.
    pub fn phase(&self) -> (phase: ConsumerPhase)
        ensures
            phase == self@.phase,
    {
        match &self.stage {
            Stage::AwaitingMessage => ConsumerPhase::AwaitingMessage,
            Stage::Polling(_) => ConsumerPhase::Presenting,
            Stage::Presenting => ConsumerPhase::Presenting,
            Stage::Terminated => ConsumerPhase::Terminated,
        }
    }

    /// Index of the frame that arrived last, if any has arrived.
    pub fn latest_index(&self) -> (index: Option<u64>)
        ensures
            index == self@.latest_index,
    {
        self.latest_index
    }

    /// Takes an event and says what to reply and do next.
    pub fn step(&mut self, event: ConsumerEvent) -> (output: ConsumerOutput)
        ensures
            final(self)@ == consumer_step(old(self)@, event@).0,
            output@ == consumer_step(old(self)@, event@).1,
            final(self)@.wf(),
    {
        proof {
            use_type_invariant(&*self);
        }
        let ignored = ConsumerOutput { reply: None, command: ConsumerCommand::Ignored };
        let farewell = ConsumerOutput {
            reply: Some(PipelineAck::SinkShutdown),
            command: ConsumerCommand::Stop,
        };
        if self.phase() == ConsumerPhase::Terminated {
            return ignored;
        }
        match event {
            ConsumerEvent::Received(PipelineMessage::Shutdown) => {
                self.stage = Stage::Terminated;
                farewell
            },
            ConsumerEvent::PeerGone => {
                self.stage = Stage::Terminated;
                ConsumerOutput { reply: None, command: ConsumerCommand::Stop }
            },
            ConsumerEvent::Received(PipelineMessage::Render(frame)) => {
                if self.phase() == ConsumerPhase::AwaitingMessage {
                    let index: u64 = frame.index;
                    self.latest_index = Some(index);
                    self.stage = Stage::Polling(frame);
                    ConsumerOutput { reply: None, command: ConsumerCommand::PollSink }
                } else {
                    ignored
                }
            },
            ConsumerEvent::ClosePolled(close) => {
                let polling: bool = match &self.stage {
                    Stage::Polling(_) => true,
                    _ => false,
                };
                if !polling {
                    ignored
                } else if close {
                    self.stage = Stage::Terminated;
                    farewell
                } else {
                    let previous: Stage = replace_stage(&mut self.stage, Stage::Presenting);
                    match previous {
                        Stage::Polling(frame) => ConsumerOutput {
                            reply: None,
                            command: ConsumerCommand::Present(frame),
                        },
                        _ => {
                            proof {
                                assert(false);
                            }
                            vstd::pervasive::unreached()
                        },
                    }
                }
            },
            ConsumerEvent::Presented => {
                let presenting: bool = match &self.stage {
                    Stage::Presenting => true,
                    _ => false,
                };
                match self.latest_index {
                    Some(index) => {
                        if presenting {
                            self.stage = Stage::AwaitingMessage;
                            ConsumerOutput {
                                reply: Some(PipelineAck::Rendered(index)),
                                command: ConsumerCommand::Receive,
                            }
                        } else {
                            ignored
                        }
                    },
                    None => ignored,
                }
            },
            ConsumerEvent::PresentFailed => {
                let presenting: bool = match &self.stage {
                    Stage::Presenting => true,
                    _ => false,
                };
                if presenting {
                    self.stage = Stage::Terminated;
                    farewell
                } else {
                    ignored
                }
            },
        }
    }
}

/// A step keeps a consumer well formed.
pub proof fn lemma_consumer_step_wf(state: ConsumerModel, event: ConsumerEventModel)
    requires
        state.wf(),
    ensures
        consumer_step(state, event).0.wf(),
{
}

/// The state of a consumer after a sequence of events.
pub open spec fn consumer_run(state: ConsumerModel, events: Seq<ConsumerEventModel>) -> ConsumerModel
    decreases events.len(),
{
    if events.len() == 0 {
        state
    } else {
        consumer_run(consumer_step(state, events.first()).0, events.drop_first())
    }
}

/// The acknowledgements that a consumer sends over a sequence of events, in
/// order.
pub open spec fn replies(state: ConsumerModel, events: Seq<ConsumerEventModel>) -> Seq<PipelineAck>
    decreases events.len(),
{
    if events.len() == 0 {
        Seq::empty()
    } else {
        let (next, output) = consumer_step(state, events.first());
        let later = replies(next, events.drop_first());
        match output.reply {
            Some(ack) => seq![ack] + later,
            None => later,
        }
    }
}

/// The frames that a consumer hands to the display over a sequence of
/// events, in order.
pub open spec fn presented_frames(state: ConsumerModel, events: Seq<ConsumerEventModel>) -> Seq<
    FrameModel,
>
    decreases events.len(),
{
    if events.len() == 0 {
        Seq::empty()
    } else {
        let (next, output) = consumer_step(state, events.first());
        let later = presented_frames(next, events.drop_first());
        match output.command {
            ConsumerCommandModel::Present(frame) => seq![frame] + later,
            _ => later,
        }
    }
}

/// The frames that arrive in a sequence of events, in order.
pub open spec fn received_frames(events: Seq<ConsumerEventModel>) -> Seq<FrameModel>
    decreases events.len(),
{
    if events.len() == 0 {
        Seq::empty()
    } else {
        let later = received_frames(events.drop_first());
        match events.first() {
            ConsumerEventModel::Received(MessageModel::Render(frame)) => seq![frame] + later,
            _ => later,
        }
    }
}

/// The indices of a sequence of frames grow strictly.
pub open spec fn indices_increase(frames: Seq<FrameModel>) -> bool {
    forall|i: int, j: int| 0 <= i < j < frames.len() ==> frames[i].index < frames[j].index
}

/// `Shutdown` ends a running consumer at once, and the consumer says so.
pub proof fn lemma_shutdown_ends_consumer(state: ConsumerModel)
    requires
        state.phase != ConsumerPhase::Terminated,
    ensures
        consumer_step(state, ConsumerEventModel::Received(MessageModel::Shutdown)).0.phase
            == ConsumerPhase::Terminated,
        consumer_step(state, ConsumerEventModel::Received(MessageModel::Shutdown)).1 == farewell(),
{
}

/// When the display asks to close, the consumer ends, says so, and does not
/// present the frame it holds.
pub proof fn lemma_close_ends_consumer(state: ConsumerModel)
    requires
        state.wf(),
        state.held.is_some(),
    ensures
        consumer_step(state, ConsumerEventModel::ClosePolled(true)).0.phase
            == ConsumerPhase::Terminated,
        consumer_step(state, ConsumerEventModel::ClosePolled(true)).1 == farewell(),
{
}

/// A frame is acknowledged under its own index once it has been presented.
pub proof fn lemma_presented_frame_is_acknowledged(
    state: ConsumerModel,
    frame: FrameModel,
    events: Seq<ConsumerEventModel>,
)
    requires
        state.phase == ConsumerPhase::AwaitingMessage,
        events == seq![
            ConsumerEventModel::Received(MessageModel::Render(frame)),
            ConsumerEventModel::ClosePolled(false),
            ConsumerEventModel::Presented,
        ],
    ensures
        presented_frames(state, events) == seq![frame],
        replies(state, events) == seq![PipelineAck::Rendered(frame.index)],
        consumer_run(state, events).phase == ConsumerPhase::AwaitingMessage,
{
    reveal_with_fuel(presented_frames, 4);
    reveal_with_fuel(replies, 4);
    reveal_with_fuel(consumer_run, 4);
    let e1 = events.drop_first();
    let e2 = e1.drop_first();
    let e3 = e2.drop_first();
    assert(e1.first() == ConsumerEventModel::ClosePolled(false));
    assert(e2.first() == ConsumerEventModel::Presented);
    assert(e3.len() == 0);
    assert(presented_frames(state, events) =~= seq![frame]);
    assert(replies(state, events) =~= seq![PipelineAck::Rendered(frame.index)]);
}

/// A consumer that has stopped stays as it is, replies nothing and presents
/// nothing.
pub proof fn lemma_terminated_consumer_is_final(state: ConsumerModel, events: Seq<ConsumerEventModel>)
    requires
        state.phase == ConsumerPhase::Terminated,
    ensures
        consumer_run(state, events) == state,
        replies(state, events).len() == 0,
        presented_frames(state, events).len() == 0,
    decreases events.len(),
{
    if events.len() > 0 {
        lemma_terminated_consumer_is_final(state, events.drop_first());
    }
}

/// None of the events reports a closed channel.
pub open spec fn peer_stays(events: Seq<ConsumerEventModel>) -> bool {
    forall|i: int| 0 <= i < events.len() ==> events[i] != ConsumerEventModel::PeerGone
}

/// Once `Shutdown` has reached a consumer whose channel stayed open, the
/// consumer has stopped and has told the producer so with `SinkShutdown`,
/// whatever else happened before and after.
pub proof fn lemma_shutdown_is_answered(
    state: ConsumerModel,
    events: Seq<ConsumerEventModel>,
    at: int,
)
    requires
        state.phase != ConsumerPhase::Terminated,
        peer_stays(events),
        0 <= at < events.len(),
        events[at] == ConsumerEventModel::Received(MessageModel::Shutdown),
    ensures
        consumer_run(state, events).phase == ConsumerPhase::Terminated,
        replies(state, events).contains(PipelineAck::SinkShutdown),
    decreases events.len(),
{
    let (next, output) = consumer_step(state, events.first());
    let later = replies(next, events.drop_first());
    assert(events[0] != ConsumerEventModel::PeerGone);
    if next.phase == ConsumerPhase::Terminated {
        lemma_terminated_consumer_is_final(next, events.drop_first());
        assert(output.reply == Some(PipelineAck::SinkShutdown));
        assert(replies(state, events)[0] == PipelineAck::SinkShutdown);
    } else {
        assert(at > 0);
        assert(events.drop_first()[at - 1] == events[at]);
        assert(peer_stays(events.drop_first())) by {
            assert forall|i: int| 0 <= i < events.drop_first().len() implies events.drop_first()[i]
                != ConsumerEventModel::PeerGone by {
                assert(events.drop_first()[i] == events[i + 1]);
            }
        }
        lemma_shutdown_is_answered(next, events.drop_first(), at - 1);
        let w: int = choose|w: int| 0 <= w < later.len() && later[w] == PipelineAck::SinkShutdown;
        match output.reply {
            Some(ack) => {
                assert(replies(state, events)[w + 1] == PipelineAck::SinkShutdown);
            },
            None => {
                assert(replies(state, events)[w] == PipelineAck::SinkShutdown);
            },
        }
    }
}

/// `SinkShutdown` is the consumer's last word: it is said at most once, and
/// no acknowledgement follows it.
pub proof fn lemma_sink_shutdown_is_last(
    state: ConsumerModel,
    events: Seq<ConsumerEventModel>,
    at: int,
)
    requires
        0 <= at < replies(state, events).len(),
        replies(state, events)[at] == PipelineAck::SinkShutdown,
    ensures
        at == replies(state, events).len() - 1,
    decreases events.len(),
{
    let (next, output) = consumer_step(state, events.first());
    let later = replies(next, events.drop_first());
    match output.reply {
        Some(ack) => {
            assert(replies(state, events) == seq![ack] + later);
            if at == 0 {
                assert(next.phase == ConsumerPhase::Terminated);
                lemma_terminated_consumer_is_final(next, events.drop_first());
            } else {
                assert(later[at - 1] == PipelineAck::SinkShutdown);
                lemma_sink_shutdown_is_last(next, events.drop_first(), at - 1);
            }
        },
        None => {
            lemma_sink_shutdown_is_last(next, events.drop_first(), at);
        },
    }
}

/// The consumer presents frames in the order of their arrival.  If the
/// arriving indices grow strictly and lie at or above `floor`, and a held
/// frame lies below `floor`, then the presented indices grow strictly too,
/// and none lies below the held frame, or below `floor` if none is held.
pub proof fn lemma_presented_in_arrival_order(
    state: ConsumerModel,
    events: Seq<ConsumerEventModel>,
    floor: int,
)
    requires
        state.wf(),
        indices_increase(received_frames(events)),
        forall|i: int|
            0 <= i < received_frames(events).len() ==> floor <= (#[trigger] received_frames(
                events,
            )[i]).index,
        state.held matches Some(frame) ==> frame.index < floor,
    ensures
        indices_increase(presented_frames(state, events)),
        forall|i: int|
            0 <= i < presented_frames(state, events).len() ==> (#[trigger] presented_frames(
                state,
                events,
            )[i]).index >= (match state.held {
                Some(frame) => frame.index as int,
                None => floor,
            }),
    decreases events.len(),
{
    if events.len() > 0 {
        let (next, output) = consumer_step(state, events.first());
        let rest = events.drop_first();
        let later = presented_frames(next, rest);
        let arriving = received_frames(events);
        let arriving_later = received_frames(rest);
        lemma_consumer_step_wf(state, events.first());
        match events.first() {
            ConsumerEventModel::Received(MessageModel::Render(frame)) => {
                assert(arriving == seq![frame] + arriving_later);
                assert(arriving[0] == frame);
                assert forall|i: int, j: int| 0 <= i < j < arriving_later.len() implies arriving_later[i].index
                    < arriving_later[j].index by {
                    assert(arriving_later[i] == arriving[i + 1]);
                    assert(arriving_later[j] == arriving[j + 1]);
                }
                assert forall|i: int| 0 <= i < arriving_later.len() implies frame.index + 1 <= (
                #[trigger] arriving_later[i]).index by {
                    assert(arriving_later[i] == arriving[i + 1]);
                }
                lemma_presented_in_arrival_order(next, rest, frame.index + 1);
                assert(presented_frames(state, events) == later);
            },
            _ => {
                assert(arriving == arriving_later);
                lemma_presented_in_arrival_order(next, rest, floor);
                match output.command {
                    ConsumerCommandModel::Present(frame) => {
                        let shown = presented_frames(state, events);
                        assert(shown == seq![frame] + later);
                        assert(state.held == Some(frame));
                        assert(next.held.is_none());
                        assert forall|i: int, j: int| 0 <= i < j < shown.len() implies shown[i].index
                            < shown[j].index by {
                            assert(shown[j] == later[j - 1]);
                            if i > 0 {
                                assert(shown[i] == later[i - 1]);
                            }
                        }
                        assert forall|i: int| 0 <= i < shown.len() implies (#[trigger] shown[i]).index
                            >= frame.index by {
                            if i > 0 {
                                assert(shown[i] == later[i - 1]);
                            }
                        }
                    },
                    _ => {
                        assert(presented_frames(state, events) == later);
                        if next.phase == ConsumerPhase::Terminated {
                            lemma_terminated_consumer_is_final(next, rest);
                        }
                    },
                }
            },
        }
    }
}

} // verus!
