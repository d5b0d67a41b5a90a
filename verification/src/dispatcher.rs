//! The frame dispatcher: the per-connection protocol state machine. It is
//! fed every inbound read in order, tracks the last dispatch sequence, drives
//! the handshake (hello in, identify out, heartbeat cadence started), and
//! tells the caller what to do after each frame — send, deliver, or tear the
//! connection down. The caller owns the I/O: it performs each action and
//! keeps the shared sequence cell the heartbeat task reads in step with
//! last_sequence.

use vstd::prelude::*;

use crate::codec::DecodeError;
use crate::codec::DispatchEvent;
use crate::codec::EventModel;
use crate::codec::InFrameModel;
use crate::codec::InboundFrame;
use crate::codec::OutFrameModel;
use crate::codec::OutboundFrame;
use crate::codec::decode_frame;
use crate::codec::spec_decode;
use crate::codec::view_decoded;
use crate::json::clone_chars;

verus! {

/// The connection-lifetime states: a fresh connection awaits the hello, a
/// session past the handshake runs until a close signal, and a closed
/// connection is terminal — its loop exits and a new connection follows.
#[derive(Clone, Copy, Debug, PartialEq, Eq, Structural)]
pub enum State {
    AwaitingHello,
    Identified,
    Closed,
}

/// Why the current connection must end. Both are expected protocol signals,
/// not failures: the caller tears the connection down and reconnects.
#[derive(Clone, Copy, Debug, PartialEq, Eq, Structural)]
pub enum CloseReason {
    /// The server asked for a reconnect and is about to drop the line.
    ServerRequestedReconnect,
    /// The session is no longer valid; where resumable is false, the next
    /// connection must identify afresh.
    SessionInvalid { resumable: bool },
}

pub ghost struct DispatcherModel {
    pub state: State,
    pub sequence: Option<u64>,
    pub heartbeat_running: bool,
    pub token: Seq<char>,
    pub intents: u64,
    pub device: Seq<char>,
}

/// One input consumed by a session: an inbound read (a decoded frame or a
/// decode failure) or a tick of the heartbeat timer.
pub ghost enum SessionInput {
    Inbound(Result<InFrameModel, DecodeError>),
    Tick,
}

/// What one step does besides moving to the next state: at most one frame to
/// send, a heartbeat task to start, an event for the application, a close
/// signal for the caller.
pub ghost struct StepEffect {
    pub next: DispatcherModel,
    pub emit: Option<OutFrameModel>,
    pub start_heartbeat: Option<u64>,
    pub deliver: Option<EventModel>,
    pub close: Option<CloseReason>,
}

pub open spec fn no_effect(m: DispatcherModel) -> StepEffect {
    StepEffect { next: m, emit: None, start_heartbeat: None, deliver: None, close: None }
}

pub open spec fn close_effect(m: DispatcherModel, r: CloseReason) -> StepEffect {
    StepEffect {
        next: DispatcherModel { state: State::Closed, heartbeat_running: false, ..m },
        emit: None,
        start_heartbeat: None,
        deliver: None,
        close: Some(r),
    }
}

pub open spec fn identify_frame(m: DispatcherModel) -> OutFrameModel {
    OutFrameModel::Identify { token: m.token, intents: m.intents, device: m.device }
}

/// The transition on one well-decoded frame. A dispatch always records its
/// sequence (it must happen before any later heartbeat reads it) and is
/// delivered once the session is identified; a heartbeat request is answered
/// at once with the current sequence; a hello is honoured only while one is
/// awaited; reconnect and invalid-session close the connection and stop the
/// heartbeat; an ack changes nothing; anything unexpected for the state is
/// tolerated and dropped, never an abort.
pub open spec fn step_frame(m: DispatcherModel, f: InFrameModel) -> StepEffect {
    if m.state == State::Closed {
        no_effect(m)
    } else {
        match f {
            InFrameModel::Dispatch { event, sequence } => StepEffect {
                next: DispatcherModel { sequence: Some(sequence), ..m },
                emit: None,
                start_heartbeat: None,
                deliver: if m.state == State::Identified {
                    Some(event)
                } else {
                    None
                },
                close: None,
            },
            InFrameModel::HeartbeatRequest => {
                if m.state == State::Identified {
                    StepEffect {
                        next: m,
                        emit: Some(OutFrameModel::Heartbeat { last_sequence: m.sequence }),
                        start_heartbeat: None,
                        deliver: None,
                        close: None,
                    }
                } else {
                    no_effect(m)
                }
            },
            InFrameModel::Hello { heartbeat_interval_ms } => {
                if m.state == State::AwaitingHello {
                    StepEffect {
                        next: DispatcherModel {
                            state: State::Identified,
                            heartbeat_running: true,
                            ..m
                        },
                        emit: Some(identify_frame(m)),
                        start_heartbeat: Some(heartbeat_interval_ms),
                        deliver: None,
                        close: None,
                    }
                } else {
                    no_effect(m)
                }
            },
            InFrameModel::Reconnect => close_effect(m, CloseReason::ServerRequestedReconnect),
            InFrameModel::InvalidSession { resumable } => close_effect(
                m,
                CloseReason::SessionInvalid { resumable },
            ),
            InFrameModel::HeartbeatAck => no_effect(m),
        }
    }
}

/// The transition on one session input. A decode failure changes nothing; a
/// tick emits one heartbeat carrying the sequence value at this instant,
/// and only while the heartbeat task runs.
pub open spec fn step(m: DispatcherModel, inp: SessionInput) -> StepEffect {
    match inp {
        SessionInput::Tick => {
            if m.heartbeat_running {
                StepEffect {
                    next: m,
                    emit: Some(OutFrameModel::Heartbeat { last_sequence: m.sequence }),
                    start_heartbeat: None,
                    deliver: None,
                    close: None,
                }
            } else {
                no_effect(m)
            }
        },
        SessionInput::Inbound(r) => match r {
            Err(_) => no_effect(m),
            Ok(f) => step_frame(m, f),
        },
    }
}

/// The model a fresh connection's dispatcher starts in: awaiting hello, no
/// heartbeat task, and the sequence unset — never carried over.
pub open spec fn fresh_model(token: Seq<char>, intents: u64, device: Seq<char>) -> DispatcherModel {
    DispatcherModel {
        state: State::AwaitingHello,
        sequence: None,
        heartbeat_running: false,
        token,
        intents,
        device,
    }
}

// ---------------------------------------------------------------------------
// The executable dispatcher
// ---------------------------------------------------------------------------

/// What the caller must do after one inbound read is handled.
#[derive(Debug)]
pub enum Action {
    /// Nothing: the frame was an ack, was unexpected for the state, failed
    /// to decode, or arrived after close.
    Ignore,
    /// Send this frame; where start_heartbeat_ms is set, also start the
    /// periodic heartbeat task at that cadence, after enqueueing the frame.
    Send { frame: OutboundFrame, start_heartbeat_ms: Option<u64> },
    /// Hand this event to the application handler.
    Deliver { event: DispatchEvent },
    /// Tear this connection down: cancel the heartbeat task, drop the
    /// socket, and let the caller decide about reconnecting.
    Close { reason: CloseReason },
}

pub ghost struct ActionModel {
    pub emit: Option<OutFrameModel>,
    pub start_heartbeat: Option<u64>,
    pub deliver: Option<EventModel>,
    pub close: Option<CloseReason>,
}

impl View for Action {
    type V = ActionModel;

    open spec fn view(&self) -> ActionModel {
        match self {
            Action::Ignore => ActionModel {
                emit: None,
                start_heartbeat: None,
                deliver: None,
                close: None,
            },
            Action::Send { frame, start_heartbeat_ms } => ActionModel {
                emit: Some(frame@),
                start_heartbeat: *start_heartbeat_ms,
                deliver: None,
                close: None,
            },
            Action::Deliver { event } => ActionModel {
                emit: None,
                start_heartbeat: None,
                deliver: Some(event@),
                close: None,
            },
            Action::Close { reason } => ActionModel {
                emit: None,
                start_heartbeat: None,
                deliver: None,
                close: Some(*reason),
            },
        }
    }
}

pub open spec fn action_of(e: StepEffect) -> ActionModel {
    ActionModel {
        emit: e.emit,
        start_heartbeat: e.start_heartbeat,
        deliver: e.deliver,
        close: e.close,
    }
}

/// The frame dispatcher, one per connection.
#[derive(Debug)]
pub struct Dispatcher {
    state: State,
    sequence: Option<u64>,
    heartbeat_running: bool,
    token: Vec<char>,
    intents: u64,
    device: Vec<char>,
}

impl View for Dispatcher {
    type V = DispatcherModel;

    closed spec fn view(&self) -> DispatcherModel {
        DispatcherModel {
            state: self.state,
            sequence: self.sequence,
            heartbeat_running: self.heartbeat_running,
            token: self.token@,
            intents: self.intents,
            device: self.device@,
        }
    }
}

impl Dispatcher {
    /// A dispatcher for a fresh connection, with the identify credentials it
    /// will announce. The sequence starts unset, whatever any earlier
    /// session saw.
    pub fn new(token: Vec<char>, intents: u64, device: Vec<char>) -> (d: Dispatcher)
        ensures
            d@ == fresh_model(token@, intents, device@),
    {
        Dispatcher {
            state: State::AwaitingHello,
            sequence: None,
            heartbeat_running: false,
            token,
            intents,
            device,
        }
    }

    pub fn current_state(&self) -> (s: State)
        ensures
            s == self@.state,
    {
        self.state
    }

    /// The last dispatch sequence seen on this connection, None while none
    /// has been. The caller mirrors this into the cell the heartbeat task
    /// reads, after every handled frame.
    pub fn last_sequence(&self) -> (r: Option<u64>)
        ensures
            r == self@.sequence,
    {
        self.sequence
    }

    pub fn is_heartbeat_running(&self) -> (r: bool)
        ensures
            r == self@.heartbeat_running,
    {
        self.heartbeat_running
    }

    /// Handles one decoded read. The state moves and the action reads
    /// exactly as the step transition says.
    pub fn handle_frame(&mut self, input: Result<InboundFrame, DecodeError>) -> (a: Action)
        ensures
            ({
                let eff = step(old(self)@, SessionInput::Inbound(view_decoded(input)));
                final(self)@ == eff.next && a@ == action_of(eff)
            }),
    {
        match input {
            Err(_) => Action::Ignore,
            Ok(f) => {
                if self.state == State::Closed {
                    Action::Ignore
                } else {
                    match f {
                        InboundFrame::Dispatch { event, sequence } => {
                            self.sequence = Some(sequence);
                            if self.state == State::Identified {
                                Action::Deliver { event }
                            } else {
                                Action::Ignore
                            }
                        },
                        InboundFrame::HeartbeatRequest => {
                            if self.state == State::Identified {
                                Action::Send {
                                    frame: OutboundFrame::Heartbeat {
                                        last_sequence: self.sequence,
                                    },
                                    start_heartbeat_ms: None,
                                }
                            } else {
                                Action::Ignore
                            }
                        },
                        InboundFrame::Hello { heartbeat_interval_ms } => {
                            if self.state == State::AwaitingHello {
                                let frame = OutboundFrame::Identify {
                                    token: clone_chars(&self.token),
                                    intents: self.intents,
                                    device: clone_chars(&self.device),
                                };
                                self.state = State::Identified;
                                self.heartbeat_running = true;
                                Action::Send {
                                    frame,
                                    start_heartbeat_ms: Some(heartbeat_interval_ms),
                                }
                            } else {
                                Action::Ignore
                            }
                        },
                        InboundFrame::Reconnect => {
                            self.state = State::Closed;
                            self.heartbeat_running = false;
                            Action::Close { reason: CloseReason::ServerRequestedReconnect }
                        },
                        InboundFrame::InvalidSession { resumable } => {
                            self.state = State::Closed;
                            self.heartbeat_running = false;
                            Action::Close { reason: CloseReason::SessionInvalid { resumable } }
                        },
                        InboundFrame::HeartbeatAck => Action::Ignore,
                    }
                }
            },
        }
    }

    /// Handles one inbound wire text: decode, then dispatch. A text that
    /// fails to decode is dropped and nothing changes — the connection does
    /// not abort for a single bad frame.
    pub fn handle_text(&mut self, text: &Vec<char>) -> (a: Action)
        ensures
            ({
                let eff = step(old(self)@, SessionInput::Inbound(spec_decode(text@)));
                final(self)@ == eff.next && a@ == action_of(eff)
            }),
    {
        let decoded = decode_frame(text);
        self.handle_frame(decoded)
    }

    /// One heartbeat timer tick: the frame to send now, carrying the current
    /// sequence value — None once the heartbeat task has been cancelled.
    pub fn on_tick(&self) -> (r: Option<OutboundFrame>)
        ensures
            ({
                let eff = step(self@, SessionInput::Tick);
                match r {
                    Some(fr) => eff.emit == Some(fr@),
                    None => eff.emit is None,
                }
            }),
    {
        if self.heartbeat_running {
            Some(OutboundFrame::Heartbeat { last_sequence: self.sequence })
        } else {
            None
        }
    }
}

// ---------------------------------------------------------------------------
// Session laws
// ---------------------------------------------------------------------------

pub open spec fn opt_frame_seq(o: Option<OutFrameModel>) -> Seq<OutFrameModel> {
    match o {
        None => Seq::empty(),
        Some(f) => seq![f],
    }
}

/// A whole run: the model after consuming the inputs in order, and every
/// frame emitted along the way, in order.
pub open spec fn run_model(m: DispatcherModel, inputs: Seq<SessionInput>) -> (
    DispatcherModel,
    Seq<OutFrameModel>,
)
    decreases inputs.len(),
{
    if inputs.len() == 0 {
        (m, Seq::<OutFrameModel>::empty())
    } else {
        let e = step(m, inputs[0]);
        let rest = run_model(e.next, inputs.drop_first());
        (rest.0, opt_frame_seq(e.emit) + rest.1)
    }
}

/// The sequence a dispatch input carries, None for every other input.
pub open spec fn dispatch_seq_of(inp: SessionInput) -> Option<u64> {
    match inp {
        SessionInput::Inbound(Ok(InFrameModel::Dispatch { event, sequence })) => Some(sequence),
        _ => None,
    }
}

pub open spec fn is_close_signal(inp: SessionInput) -> bool {
    match inp {
        SessionInput::Inbound(Ok(InFrameModel::Reconnect)) => true,
        SessionInput::Inbound(Ok(InFrameModel::InvalidSession { .. })) => true,
        _ => false,
    }
}

/// The s of the last dispatch among the inputs, or init where none occurs.
pub open spec fn last_dispatch_seq(init: Option<u64>, inputs: Seq<SessionInput>) -> Option<u64>
    decreases inputs.len(),
{
    if inputs.len() == 0 {
        init
    } else {
        let next = match dispatch_seq_of(inputs[0]) {
            Some(n) => Some(n),
            None => init,
        };
        last_dispatch_seq(next, inputs.drop_first())
    }
}

/// Sequence tracking: over any run in which the server does not close the
/// session, the sequence afterwards is exactly the s of the last dispatch
/// frame seen, or stays as it began — unset on a fresh connection — where
/// none was seen. Decode failures, heartbeats, hellos, acks and ticks never
/// touch it.
pub proof fn lemma_sequence_tracks_last_dispatch(m: DispatcherModel, inputs: Seq<SessionInput>)
    requires
        m.state != State::Closed,
        forall|i: int| 0 <= i < inputs.len() ==> !is_close_signal(#[trigger] inputs[i]),
    ensures
        run_model(m, inputs).0.sequence == last_dispatch_seq(m.sequence, inputs),
    decreases inputs.len(),
{
    if inputs.len() > 0 {
        let e = step(m, inputs[0]);
        assert(!is_close_signal(inputs[0]));
        assert forall|i: int|
            0 <= i < inputs.drop_first().len() implies !is_close_signal(
            #[trigger] inputs.drop_first()[i],
        ) by {
            assert(inputs.drop_first()[i] == inputs[i + 1]);
        }
        lemma_sequence_tracks_last_dispatch(e.next, inputs.drop_first());
    }
}

pub open spec fn is_identify(f: OutFrameModel) -> bool {
    f matches OutFrameModel::Identify { .. }
}

pub open spec fn is_heartbeat(f: OutFrameModel) -> bool {
    f matches OutFrameModel::Heartbeat { .. }
}

proof fn lemma_outputs_identify_shape(m: DispatcherModel, inputs: Seq<SessionInput>)
    ensures
        ({
            let outs = run_model(m, inputs).1;
            &&& (m.state == State::AwaitingHello && !m.heartbeat_running) ==> ((forall|i: int|
                0 <= i < outs.len() && is_identify(#[trigger] outs[i]) ==> i == 0) && (forall|
                i: int,
            |
                0 <= i < outs.len() && is_heartbeat(#[trigger] outs[i]) ==> 0 < i && is_identify(
                    outs[0],
                )))
            &&& m.state != State::AwaitingHello ==> (forall|i: int|
                0 <= i < outs.len() ==> !is_identify(#[trigger] outs[i]))
            &&& (m.state == State::Closed && !m.heartbeat_running) ==> outs.len() == 0
        }),
    decreases inputs.len(),
{
    if inputs.len() > 0 {
        let e = step(m, inputs[0]);
        let rest = run_model(e.next, inputs.drop_first());
        lemma_outputs_identify_shape(e.next, inputs.drop_first());
        let outs = run_model(m, inputs).1;
        assert(outs == opt_frame_seq(e.emit) + rest.1);
        match e.emit {
            None => {
                assert(outs =~= rest.1);
            },
            Some(fr) => {
                assert(outs.len() == 1 + rest.1.len());
                assert(outs[0] == fr);
                assert(forall|i: int| 1 <= i < outs.len() ==> outs[i] == rest.1[i - 1]);
            },
        }
    }
}

/// Handshake order: from a fresh connection, over any inputs whatever, at
/// most one identify is ever emitted, nothing is emitted before it, and
/// every heartbeat comes after it. (That each heartbeat carries the
/// sequence value current at its own step is how the step transition
/// defines its emission.)
pub proof fn lemma_identify_once_before_heartbeats(
    token: Seq<char>,
    intents: u64,
    device: Seq<char>,
    inputs: Seq<SessionInput>,
)
    ensures
        ({
            let outs = run_model(fresh_model(token, intents, device), inputs).1;
            &&& forall|i: int| 0 <= i < outs.len() && is_identify(#[trigger] outs[i]) ==> i == 0
            &&& forall|i: int|
                0 <= i < outs.len() && is_heartbeat(#[trigger] outs[i]) ==> 0 < i && is_identify(
                    outs[0],
                )
        }),
{
    lemma_outputs_identify_shape(fresh_model(token, intents, device), inputs);
}

/// A decode failure is inert: with the bad text dropped, the run goes on
/// exactly as if the frame had never arrived — the same model afterwards
/// (sequence untouched, heartbeat still running) and the same frames
/// emitted, in the same order.
pub proof fn lemma_decode_failure_inert(
    m: DispatcherModel,
    e: DecodeError,
    rest: Seq<SessionInput>,
)
    ensures
        run_model(m, seq![SessionInput::Inbound(Err(e))] + rest).0 == run_model(m, rest).0,
        run_model(m, seq![SessionInput::Inbound(Err(e))] + rest).1 == run_model(m, rest).1,
{
    let inputs = seq![SessionInput::Inbound(Err::<InFrameModel, DecodeError>(e))] + rest;
    assert(inputs[0] == SessionInput::Inbound(Err::<InFrameModel, DecodeError>(e)));
    assert(step(m, inputs[0]) == no_effect(m));
    assert(inputs.drop_first() =~= rest);
    assert(run_model(m, inputs).1 =~= run_model(m, rest).1);
}

} // verus!
