//! The ingestion loop as a state machine: what to do next, given what just
//! happened on the serial connection. Whoever owns the connection performs the
//! actions and reports the events.

use vstd::prelude::*;
use crate::framing::{SentenceBuffer, complete_lines, lossy_texts, partial_line};
use crate::state::{IngestionState, StateView, after_cycle, reading_after_start, start_permitted};

verus! {

/// Baud rate at which the port is opened.
pub const BAUD_RATE: u32 = 9600;

/// Size of the buffer that one read fills at most.
pub const READ_BUFFER_SIZE: usize = 1024;

/// Time after which a read gives up, in milliseconds.
pub const READ_TIMEOUT_MS: u64 = 1000;

/// Pause between two read cycles, in milliseconds.
pub const CYCLE_PAUSE_MS: u64 = 200;

/// Where a session stands.
#[derive(Clone, Copy, Debug, PartialEq, Eq, Structural)]
pub enum Phase {
    /// No start was granted yet.
    Idle,
    /// A start was granted; the port is being opened.
    Opening,
    /// The port is open and read cycle follows read cycle.
    Streaming,
    /// The session is over, for good.
    Stopped,
}

/// What happened outside.
pub enum Event {
    /// A start was requested, on the port named if any.
    Start(Option<String>),
    /// The port was opened.
    Opened,
    /// The port could not be opened.
    OpenFailed,
    /// A read returned these bytes.
    Chunk(Vec<u8>),
    /// A read failed or timed out.
    ReadFailed,
}

/// What to do next.
#[derive(Clone, Copy, Debug, PartialEq, Eq, Structural)]
pub enum Action {
    /// Nothing: the event does not concern the session as it stands.
    Nothing,
    /// Open the port that the start request named.
    Open,
    /// Read from the port.
    Read,
    /// Pause for the cycle interval, then read from the port.
    PauseThenRead,
    /// Leave the loop; the session is over.
    Finish,
}

/// The phase that follows `phase` on `event`, given the published reading flag.
pub open spec fn next_phase(phase: Phase, event: Event, is_reading: bool) -> Phase {
    match (phase, event) {
        (Phase::Idle, Event::Start(port)) => if start_permitted(is_reading, port.is_some()) {
            Phase::Opening
        } else {
            Phase::Idle
        },
        (Phase::Opening, Event::Opened) => Phase::Streaming,
        (Phase::Opening, Event::OpenFailed) => Phase::Stopped,
        (Phase::Streaming, Event::ReadFailed) => Phase::Stopped,
        _ => phase,
    }
}

/// The action that `event` calls for in `phase`.
pub open spec fn next_action(phase: Phase, event: Event, is_reading: bool) -> Action {
    match (phase, event) {
        (Phase::Stopped, _) => Action::Finish,
        (Phase::Idle, Event::Start(port)) => if start_permitted(is_reading, port.is_some()) {
            Action::Open
        } else {
            Action::Nothing
        },
        (Phase::Opening, Event::Opened) => Action::Read,
        (Phase::Opening, Event::OpenFailed) => Action::Finish,
        (Phase::Streaming, Event::Chunk(_)) => Action::PauseThenRead,
        (Phase::Streaming, Event::ReadFailed) => Action::Finish,
        _ => Action::Nothing,
    }
}

/// The published state after `event` in `phase`, with `pending` the bytes that
/// wait in the sentence buffer. A granted start sets the reading flag, a failed
/// open clears it again, a chunk is one read cycle, and a failed read leaves
/// everything as it was last published.
pub open spec fn next_state(
    phase: Phase,
    event: Event,
    pending: Seq<u8>,
    state: StateView,
) -> StateView {
    match (phase, event) {
        (Phase::Idle, Event::Start(port)) => StateView {
            is_reading: reading_after_start(state.is_reading, port.is_some()),
            ..state
        },
        (Phase::Opening, Event::OpenFailed) => StateView { is_reading: false, ..state },
        (Phase::Streaming, Event::Chunk(bytes)) => after_cycle(
            state,
            lossy_texts(complete_lines(pending + bytes@)),
        ),
        _ => state,
    }
}

/// The bytes that wait in the sentence buffer after `event` in `phase`.
pub open spec fn next_pending(phase: Phase, event: Event, pending: Seq<u8>) -> Seq<u8> {
    match (phase, event) {
        (Phase::Streaming, Event::Chunk(bytes)) => partial_line(pending + bytes@),
        _ => pending,
    }
}

/// A stopped session stays stopped, publishes nothing more and only ever asks
/// to leave the loop.
pub proof fn lemma_stopped_is_terminal(event: Event, pending: Seq<u8>, state: StateView)
    ensures
        next_phase(Phase::Stopped, event, state.is_reading) == Phase::Stopped,
        next_action(Phase::Stopped, event, state.is_reading) == Action::Finish,
        next_state(Phase::Stopped, event, pending, state) == state,
        next_pending(Phase::Stopped, event, pending) == pending,
{
}

/// A port that cannot be opened ends the session with the reading flag clear
/// and with the log and the satellites untouched; a read that fails ends it
/// with everything as last published.
pub proof fn lemma_failures_end_the_session(pending: Seq<u8>, state: StateView)
    ensures
        next_phase(Phase::Opening, Event::OpenFailed, state.is_reading) == Phase::Stopped,
        !next_state(Phase::Opening, Event::OpenFailed, pending, state).is_reading,
        next_state(Phase::Opening, Event::OpenFailed, pending, state).log == state.log,
        next_state(Phase::Opening, Event::OpenFailed, pending, state).satellites
            == state.satellites,
        next_phase(Phase::Streaming, Event::ReadFailed, state.is_reading) == Phase::Stopped,
        next_state(Phase::Streaming, Event::ReadFailed, pending, state) == state,
{
}

/// Streaming is only ever entered from an opening session whose port was
/// opened, and opening only from an idle one whose start was permitted.
pub proof fn lemma_phases_follow_in_order(phase: Phase, event: Event, is_reading: bool)
    ensures
        next_phase(phase, event, is_reading) == Phase::Streaming ==> phase == Phase::Streaming || (
        phase == Phase::Opening && event is Opened),
        next_phase(phase, event, is_reading) == Phase::Opening ==> phase == Phase::Opening || (
        phase == Phase::Idle && !is_reading && event matches Event::Start(Some(_))),
        next_phase(phase, event, is_reading) == Phase::Idle ==> phase == Phase::Idle,
{
}

/// One session's ingestion loop: its phase and its sentence buffer.
pub struct IngestionLoop {
    phase: Phase,
    buffer: SentenceBuffer,
}

/// What an ingestion loop holds, as plain values.
pub struct LoopView {
    pub phase: Phase,
    pub pending: Seq<u8>,
}

impl View for IngestionLoop {
    type V = LoopView;

    closed spec fn view(&self) -> LoopView {
        LoopView { phase: self.phase, pending: self.buffer@ }
    }
}

impl IngestionLoop {
    /// The sentence buffer is well formed.
    pub closed spec fn wf(&self) -> bool {
        self.buffer.wf()
    }

    /// An idle loop with an empty buffer.
    pub fn new() -> (session: IngestionLoop)
        ensures
            session.wf(),
            session@.phase == Phase::Idle,
            session@.pending == Seq::<u8>::empty(),
    {
        IngestionLoop { phase: Phase::Idle, buffer: SentenceBuffer::new() }
    }

    /// The phase in which the loop stands.
    pub fn phase(&self) -> (phase: Phase)
        ensures
            phase == self@.phase,
    {
        self.phase
    }

    /// Takes in an event, updates the loop and the published state, and says
    /// what to do next.
    pub fn step(&mut self, state: &mut IngestionState, event: Event) -> (action: Action)
        requires
            old(self).wf(),
            old(state).wf(),
        ensures
            final(self).wf(),
            final(state).wf(),
            final(self)@.phase == next_phase(old(self)@.phase, event, old(state)@.is_reading),
            final(self)@.pending == next_pending(old(self)@.phase, event, old(self)@.pending),
            final(state)@ == next_state(
                old(self)@.phase,
                event,
                old(self)@.pending,
                old(state)@,
            ),
            action == next_action(old(self)@.phase, event, old(state)@.is_reading),
    {
        match self.phase {
            Phase::Stopped => Action::Finish,
            Phase::Idle => match event {
                Event::Start(port) => {
                    if state.start_if_idle(&port) {
                        self.phase = Phase::Opening;
                        Action::Open
                    } else {
                        Action::Nothing
                    }
                },
                _ => Action::Nothing,
            },
            Phase::Opening => match event {
                Event::Opened => {
                    self.phase = Phase::Streaming;
                    Action::Read
                },
                Event::OpenFailed => {
                    state.set_is_reading(false);
                    self.phase = Phase::Stopped;
                    Action::Finish
                },
                _ => Action::Nothing,
            },
            Phase::Streaming => match event {
                Event::Chunk(bytes) => {
                    state.ingest_chunk(&mut self.buffer, bytes.as_slice());
                    Action::PauseThenRead
                },
                Event::ReadFailed => {
                    self.phase = Phase::Stopped;
                    Action::Finish
                },
                _ => Action::Nothing,
            },
        }
    }
}

} // verus!
