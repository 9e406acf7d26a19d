//! The server side: the acceptor that starts up and takes sockets, and the
//! task of one accepted connection, from upgrade to frame dispatch.

use crate::dispatch::{handle_frame, reply_to};
use crate::error::LoquiError;
use crate::frames::{FrameView, LoquiFrame};
use crate::upgrade::{
    contains_upgrade_marker,
    has_upgrade_marker,
    lemma_marker_is_seven_letters,
    upgrade_response,
    upgrade_response_bytes,
};
use vstd::prelude::*;

verus! {

/// Largest frame, in bytes, that the codec of a connection accepts.
pub const MAX_FRAME_SIZE: usize = 50000;

/// Where the task of one connection stands.
#[derive(Clone, Copy, Debug, PartialEq, Eq, Structural)]
pub enum ConnectionPhase {
    /// Raw bytes are read until a chunk holds the upgrade marker.
    AwaitingUpgrade,
    /// The upgrade response is being written and flushed.
    SendingUpgrade,
    /// The stream is framed; the next inbound frame is awaited.
    AwaitingFrame,
    /// The answer to the last inbound frame is being written.
    SendingReply,
    /// The task has ended.
    Closed,
}

/// How a piece of outside work on the socket ended.
#[derive(Clone, Debug, PartialEq, Eq)]
pub enum ConnectionOutcome {
    /// A read returned these bytes; none at all means that the peer closed.
    Chunk(Vec<u8>),
    /// A read of raw bytes failed.
    ReadFailed,
    /// What was to be sent is written.
    Written,
    /// A write or flush failed.
    WriteFailed,
    /// The codec decoded one inbound frame.
    Frame(LoquiFrame),
    /// The codec could not decode what came in.
    DecodeFailed,
    /// The framed stream has ended.
    StreamEnded,
}

/// The outside work to perform next on the socket.
#[derive(Clone, Debug, PartialEq, Eq)]
pub enum ConnectionAction {
    /// Read one chunk of at most `UPGRADE_CHUNK_SIZE` raw bytes.
    ReadChunk,
    /// Write these bytes and flush; from then on the stream is framed.
    SendUpgrade(Vec<u8>),
    /// Await the next inbound frame.
    ReadFrame,
    /// Write this frame before anything else is read.
    SendFrame(LoquiFrame),
    /// End the task and drop the socket.
    Close,
}

/// Mathematical value of a `ConnectionOutcome`.
pub enum ConnectionOutcomeView {
    Chunk(Seq<u8>),
    ReadFailed,
    Written,
    WriteFailed,
    Frame(FrameView),
    DecodeFailed,
    StreamEnded,
}

/// Mathematical value of a `ConnectionAction`.
pub enum ConnectionActionView {
    ReadChunk,
    SendUpgrade(Seq<u8>),
    ReadFrame,
    SendFrame(FrameView),
    Close,
}

impl View for ConnectionOutcome {
    type V = ConnectionOutcomeView;

    open spec fn view(&self) -> ConnectionOutcomeView {
        match *self {
            ConnectionOutcome::Chunk(bytes) => ConnectionOutcomeView::Chunk(bytes@),
            ConnectionOutcome::ReadFailed => ConnectionOutcomeView::ReadFailed,
            ConnectionOutcome::Written => ConnectionOutcomeView::Written,
            ConnectionOutcome::WriteFailed => ConnectionOutcomeView::WriteFailed,
            ConnectionOutcome::Frame(frame) => ConnectionOutcomeView::Frame(frame@),
            ConnectionOutcome::DecodeFailed => ConnectionOutcomeView::DecodeFailed,
            ConnectionOutcome::StreamEnded => ConnectionOutcomeView::StreamEnded,
        }
    }
}

impl View for ConnectionAction {
    type V = ConnectionActionView;

    open spec fn view(&self) -> ConnectionActionView {
        match *self {
            ConnectionAction::ReadChunk => ConnectionActionView::ReadChunk,
            ConnectionAction::SendUpgrade(bytes) => ConnectionActionView::SendUpgrade(bytes@),
            ConnectionAction::ReadFrame => ConnectionActionView::ReadFrame,
            ConnectionAction::SendFrame(frame) => ConnectionActionView::SendFrame(frame@),
            ConnectionAction::Close => ConnectionActionView::Close,
        }
    }
}

/// One decision of a connection's task: the next phase and the next outside
/// work, or `None` where the outcome is not one that the phase awaits.
///
/// Before the upgrade, a chunk with the marker is answered with the upgrade
/// response, a chunk without it is followed by another read, and a closed or
/// failed read ends the task. Once framed, each inbound frame is answered as
/// the dispatcher says, the answer being written before the next frame is
/// read; a failed write, a failed decode or the end of the stream ends the
/// task.
pub open spec fn connection_step(phase: ConnectionPhase, outcome: ConnectionOutcomeView) -> Option<
    (ConnectionPhase, ConnectionActionView),
> {
    match (phase, outcome) {
        (ConnectionPhase::AwaitingUpgrade, ConnectionOutcomeView::Chunk(bytes)) => Some(
            if bytes.len() == 0 {
                (ConnectionPhase::Closed, ConnectionActionView::Close)
            } else if has_upgrade_marker(bytes) {
                (
                    ConnectionPhase::SendingUpgrade,
                    ConnectionActionView::SendUpgrade(upgrade_response_bytes()),
                )
            } else {
                (ConnectionPhase::AwaitingUpgrade, ConnectionActionView::ReadChunk)
            },
        ),
        (ConnectionPhase::AwaitingUpgrade, ConnectionOutcomeView::ReadFailed) => Some(
            (ConnectionPhase::Closed, ConnectionActionView::Close),
        ),
        (ConnectionPhase::SendingUpgrade, ConnectionOutcomeView::Written) => Some(
            (ConnectionPhase::AwaitingFrame, ConnectionActionView::ReadFrame),
        ),
        (ConnectionPhase::SendingUpgrade, ConnectionOutcomeView::WriteFailed) => Some(
            (ConnectionPhase::Closed, ConnectionActionView::Close),
        ),
        (ConnectionPhase::AwaitingFrame, ConnectionOutcomeView::Frame(frame)) => Some(
            match reply_to(frame) {
                Some(reply) => (
                    ConnectionPhase::SendingReply,
                    ConnectionActionView::SendFrame(reply),
                ),
                None => (ConnectionPhase::AwaitingFrame, ConnectionActionView::ReadFrame),
            },
        ),
        (ConnectionPhase::AwaitingFrame, ConnectionOutcomeView::DecodeFailed) => Some(
            (ConnectionPhase::Closed, ConnectionActionView::Close),
        ),
        (ConnectionPhase::AwaitingFrame, ConnectionOutcomeView::StreamEnded) => Some(
            (ConnectionPhase::Closed, ConnectionActionView::Close),
        ),
        (ConnectionPhase::SendingReply, ConnectionOutcomeView::Written) => Some(
            (ConnectionPhase::AwaitingFrame, ConnectionActionView::ReadFrame),
        ),
        (ConnectionPhase::SendingReply, ConnectionOutcomeView::WriteFailed) => Some(
            (ConnectionPhase::Closed, ConnectionActionView::Close),
        ),
        _ => None,
    }
}

/// The decisions of the task that serves one accepted socket. The task
/// itself runs outside: it performs the action that `step` returns and
/// reports the outcome to the next `step`. A new task awaits the upgrade:
/// the first thing to do is `ConnectionAction::ReadChunk`.
#[derive(Clone, Copy, Debug, PartialEq, Eq)]
pub struct ServerConnection {
    phase: ConnectionPhase,
}

impl View for ServerConnection {
    type V = ConnectionPhase;

    closed spec fn view(&self) -> ConnectionPhase {
        self.phase
    }
}

impl ServerConnection {
    /// The task of a socket that was just accepted.
    pub fn new() -> (made: ServerConnection)
        ensures
            made@ == ConnectionPhase::AwaitingUpgrade,
    {
        ServerConnection { phase: ConnectionPhase::AwaitingUpgrade }
    }

    /// The phase that the task is in.
    pub fn phase(&self) -> (phase: ConnectionPhase)
        ensures
            phase == self@,
    {
        self.phase
    }

    fn close(&mut self) -> (action: ConnectionAction)
        ensures
            final(self)@ == ConnectionPhase::Closed,
            action == ConnectionAction::Close,
    {
        self.phase = ConnectionPhase::Closed;
        ConnectionAction::Close
    }

    fn read_frame(&mut self) -> (action: ConnectionAction)
        ensures
            final(self)@ == ConnectionPhase::AwaitingFrame,
            action == ConnectionAction::ReadFrame,
    {
        self.phase = ConnectionPhase::AwaitingFrame;
        ConnectionAction::ReadFrame
    }

    /// Takes the outcome of the outside work that was asked for last and
    /// decides what follows. An outcome that the current phase does not
    /// await is handed back, and the task stays as it was.
    pub fn step(&mut self, outcome: ConnectionOutcome) -> (result: Result<
        ConnectionAction,
        ConnectionOutcome,
    >)
        ensures
            match connection_step(old(self)@, outcome@) {
                Some((next, action)) => final(self)@ == next && (result matches Ok(asked)
                    && asked@ == action),
                None => final(self)@ == old(self)@ && result == Err::<
                    ConnectionAction,
                    ConnectionOutcome,
                >(outcome),
            },
    {
        match (self.phase, outcome) {
            (ConnectionPhase::AwaitingUpgrade, ConnectionOutcome::Chunk(bytes)) => {
                if bytes.len() == 0 {
                    Ok(self.close())
                } else if contains_upgrade_marker(bytes.as_slice()) {
                    self.phase = ConnectionPhase::SendingUpgrade;
                    Ok(ConnectionAction::SendUpgrade(upgrade_response()))
                } else {
                    Ok(ConnectionAction::ReadChunk)
                }
            },
            (ConnectionPhase::AwaitingUpgrade, ConnectionOutcome::ReadFailed) => Ok(self.close()),
            (ConnectionPhase::SendingUpgrade, ConnectionOutcome::Written) => Ok(self.read_frame()),
            (ConnectionPhase::SendingUpgrade, ConnectionOutcome::WriteFailed) => Ok(self.close()),
            (ConnectionPhase::AwaitingFrame, ConnectionOutcome::Frame(frame)) => {
                match handle_frame(frame) {
                    Some(reply) => {
                        self.phase = ConnectionPhase::SendingReply;
                        Ok(ConnectionAction::SendFrame(reply))
                    },
                    None => Ok(ConnectionAction::ReadFrame),
                }
            },
            (ConnectionPhase::AwaitingFrame, ConnectionOutcome::DecodeFailed) => Ok(self.close()),
            (ConnectionPhase::AwaitingFrame, ConnectionOutcome::StreamEnded) => Ok(self.close()),
            (ConnectionPhase::SendingReply, ConnectionOutcome::Written) => Ok(self.read_frame()),
            (ConnectionPhase::SendingReply, ConnectionOutcome::WriteFailed) => Ok(self.close()),
            (_, other) => Err(other),
        }
    }
}

/// Where the acceptor stands.
#[derive(Clone, Copy, Debug, PartialEq, Eq, Structural)]
pub enum AcceptorPhase {
    /// The listen address is being parsed.
    Parsing,
    /// The listener is being bound to the parsed address.
    Binding,
    /// The listener is bound; sockets are accepted, without end.
    Accepting,
    /// Startup failed; the error went to the caller.
    Failed,
}

/// How a piece of the acceptor's outside work ended.
#[derive(Clone, Copy, Debug, PartialEq, Eq, Structural)]
pub enum AcceptorOutcome {
    /// The address string is a socket address.
    AddressParsed,
    /// The address string is no socket address.
    AddressInvalid,
    /// The listener is bound.
    Bound,
    /// The listener could not be bound.
    BindFailed,
    /// An accept gave a usable socket.
    Accepted,
    /// An accept gave anything else.
    AcceptFailed,
}

/// The outside work that the acceptor performs next.
#[derive(Clone, Copy, Debug, PartialEq, Eq, Structural)]
pub enum AcceptorAction {
    /// Bind a listener to the parsed address.
    Bind,
    /// Accept the next socket.
    Accept,
    /// Start an independent task for the socket just accepted, then accept
    /// the next one.
    SpawnConnection,
    /// Report what the last accept gave, then accept the next socket.
    ReportAndAccept,
    /// Give up and return this error to the caller.
    Abort(LoquiError),
}

/// One decision of the acceptor, or `None` where the outcome is not one
/// that the phase awaits. Only a bad address or a failed bind is fatal, and
/// only before the first accept: once sockets are accepted, nothing ends
/// the loop.
pub open spec fn acceptor_step(phase: AcceptorPhase, outcome: AcceptorOutcome) -> Option<
    (AcceptorPhase, AcceptorAction),
> {
    match (phase, outcome) {
        (AcceptorPhase::Parsing, AcceptorOutcome::AddressParsed) => Some(
            (AcceptorPhase::Binding, AcceptorAction::Bind),
        ),
        (AcceptorPhase::Parsing, AcceptorOutcome::AddressInvalid) => Some(
            (AcceptorPhase::Failed, AcceptorAction::Abort(LoquiError::InvalidAddress)),
        ),
        (AcceptorPhase::Binding, AcceptorOutcome::Bound) => Some(
            (AcceptorPhase::Accepting, AcceptorAction::Accept),
        ),
        (AcceptorPhase::Binding, AcceptorOutcome::BindFailed) => Some(
            (AcceptorPhase::Failed, AcceptorAction::Abort(LoquiError::BindFailed)),
        ),
        (AcceptorPhase::Accepting, AcceptorOutcome::Accepted) => Some(
            (AcceptorPhase::Accepting, AcceptorAction::SpawnConnection),
        ),
        (AcceptorPhase::Accepting, AcceptorOutcome::AcceptFailed) => Some(
            (AcceptorPhase::Accepting, AcceptorAction::ReportAndAccept),
        ),
        _ => None,
    }
}

/// The decisions of the server's accept loop. A new acceptor is `Parsing`:
/// the first thing to do is to parse the listen address.
#[derive(Clone, Copy, Debug, PartialEq, Eq)]
pub struct Acceptor {
    phase: AcceptorPhase,
}

impl View for Acceptor {
    type V = AcceptorPhase;

    closed spec fn view(&self) -> AcceptorPhase {
        self.phase
    }
}

impl Acceptor {
    /// An acceptor that has done nothing yet.
    pub fn new() -> (made: Acceptor)
        ensures
            made@ == AcceptorPhase::Parsing,
    {
        Acceptor { phase: AcceptorPhase::Parsing }
    }

    /// The phase that the acceptor is in.
    pub fn phase(&self) -> (phase: AcceptorPhase)
        ensures
            phase == self@,
    {
        self.phase
    }

    fn enter(&mut self, phase: AcceptorPhase, action: AcceptorAction) -> (asked: Option<
        AcceptorAction,
    >)
        ensures
            final(self)@ == phase,
            asked == Some(action),
    {
        self.phase = phase;
        Some(action)
    }

    /// Takes the outcome of the outside work that was asked for last and
    /// decides what follows. On an outcome that the current phase does not
    /// await, nothing is asked for and the acceptor stays as it was.
    pub fn step(&mut self, outcome: AcceptorOutcome) -> (asked: Option<AcceptorAction>)
        ensures
            match acceptor_step(old(self)@, outcome) {
                Some((next, action)) => final(self)@ == next && asked == Some(action),
                None => final(self)@ == old(self)@ && asked is None,
            },
    {
        match (self.phase, outcome) {
            (AcceptorPhase::Parsing, AcceptorOutcome::AddressParsed) => self.enter(
                AcceptorPhase::Binding,
                AcceptorAction::Bind,
            ),
            (AcceptorPhase::Parsing, AcceptorOutcome::AddressInvalid) => self.enter(
                AcceptorPhase::Failed,
                AcceptorAction::Abort(LoquiError::InvalidAddress),
            ),
            (AcceptorPhase::Binding, AcceptorOutcome::Bound) => self.enter(
                AcceptorPhase::Accepting,
                AcceptorAction::Accept,
            ),
            (AcceptorPhase::Binding, AcceptorOutcome::BindFailed) => self.enter(
                AcceptorPhase::Failed,
                AcceptorAction::Abort(LoquiError::BindFailed),
            ),
            (AcceptorPhase::Accepting, AcceptorOutcome::Accepted) => Some(
                AcceptorAction::SpawnConnection,
            ),
            (AcceptorPhase::Accepting, AcceptorOutcome::AcceptFailed) => Some(
                AcceptorAction::ReportAndAccept,
            ),
            _ => None,
        }
    }
}

/// No single socket ends the accept loop: whatever an accept gives, the
/// acceptor goes on accepting, and starts a task exactly for the usable
/// sockets.
pub proof fn lemma_accept_loop_never_ends(outcome: AcceptorOutcome)
    requires
        outcome == AcceptorOutcome::Accepted || outcome == AcceptorOutcome::AcceptFailed,
    ensures
        acceptor_step(AcceptorPhase::Accepting, outcome) matches Some((next, action)) && next
            == AcceptorPhase::Accepting && (action == AcceptorAction::SpawnConnection <==> outcome
            == AcceptorOutcome::Accepted),
{
}

/// Frames are dispatched only on an upgraded stream: a frame is taken in
/// no phase but `AwaitingFrame`, which is entered only once the upgrade
/// response is written or an answer is written, and what answers the frame
/// is what the dispatcher says.
pub proof fn lemma_dispatch_only_after_upgrade(
    phase: ConnectionPhase,
    outcome: ConnectionOutcomeView,
)
    ensures
        outcome matches ConnectionOutcomeView::Frame(frame) ==> (connection_step(phase, outcome)
            is Some <==> phase == ConnectionPhase::AwaitingFrame),
        connection_step(phase, outcome) matches Some((next, action)) ==> {
            &&& action matches ConnectionActionView::SendFrame(reply) ==> outcome
                matches ConnectionOutcomeView::Frame(frame) && reply_to(frame) == Some(reply)
            &&& next == ConnectionPhase::AwaitingFrame ==> phase != ConnectionPhase::AwaitingUpgrade
            &&& action matches ConnectionActionView::SendUpgrade(bytes) ==> phase
                == ConnectionPhase::AwaitingUpgrade && bytes == upgrade_response_bytes()
        },
{
}

/// A chunk that holds the upgrade marker is answered with exactly the fixed
/// response, and once that is written the stream is handed to frame
/// decoding.
pub proof fn lemma_upgrade_switches_to_frames(chunk: Seq<u8>)
    requires
        has_upgrade_marker(chunk),
    ensures
        connection_step(ConnectionPhase::AwaitingUpgrade, ConnectionOutcomeView::Chunk(chunk))
            == Some(
            (
                ConnectionPhase::SendingUpgrade,
                ConnectionActionView::SendUpgrade(upgrade_response_bytes()),
            ),
        ),
        connection_step(ConnectionPhase::SendingUpgrade, ConnectionOutcomeView::Written) == Some(
            (ConnectionPhase::AwaitingFrame, ConnectionActionView::ReadFrame),
        ),
{
    lemma_marker_is_seven_letters(chunk);
}

/// The task after a whole history of outcomes, together with the actions it
/// asked for, one per outcome; `None` where some outcome came in a phase
/// that does not await it.
pub open spec fn connection_run(
    phase: ConnectionPhase,
    outcomes: Seq<ConnectionOutcomeView>,
) -> Option<(ConnectionPhase, Seq<ConnectionActionView>)>
    decreases outcomes.len(),
{
    if outcomes.len() == 0 {
        Some((phase, Seq::empty()))
    } else {
        match connection_run(phase, outcomes.drop_last()) {
            Some((before, actions)) => match connection_step(before, outcomes.last()) {
                Some((next, action)) => Some((next, actions.push(action))),
                None => None,
            },
            None => None,
        }
    }
}

/// The frames that came in during a history, oldest first.
pub open spec fn frames_taken(outcomes: Seq<ConnectionOutcomeView>) -> Seq<FrameView>
    decreases outcomes.len(),
{
    if outcomes.len() == 0 {
        Seq::empty()
    } else {
        let before = frames_taken(outcomes.drop_last());
        match outcomes.last() {
            ConnectionOutcomeView::Frame(frame) => before.push(frame),
            _ => before,
        }
    }
}

/// The frames that the task asked to send, oldest first.
pub open spec fn frames_sent(actions: Seq<ConnectionActionView>) -> Seq<FrameView>
    decreases actions.len(),
{
    if actions.len() == 0 {
        Seq::empty()
    } else {
        let before = frames_sent(actions.drop_last());
        match actions.last() {
            ConnectionActionView::SendFrame(frame) => before.push(frame),
            _ => before,
        }
    }
}

/// The dispatcher's answers to a list of frames, in the order of the frames;
/// a frame that nothing answers leaves no gap.
pub open spec fn replies_to(frames: Seq<FrameView>) -> Seq<FrameView>
    decreases frames.len(),
{
    if frames.len() == 0 {
        Seq::empty()
    } else {
        let before = replies_to(frames.drop_last());
        match reply_to(frames.last()) {
            Some(reply) => before.push(reply),
            None => before,
        }
    }
}

/// Over any history that the task accepts, the frames it sends are exactly
/// the dispatcher's answers to the frames that came in, in their order:
/// every answer is sent once, none is sent unasked, and an answer is asked
/// to be sent in the very step that takes its frame.
pub proof fn lemma_replies_in_frame_order(
    phase: ConnectionPhase,
    outcomes: Seq<ConnectionOutcomeView>,
)
    ensures
        connection_run(phase, outcomes) matches Some((_, actions)) ==> actions.len()
            == outcomes.len() && frames_sent(actions) == replies_to(frames_taken(outcomes)),
    decreases outcomes.len(),
{
    if outcomes.len() > 0 {
        lemma_replies_in_frame_order(phase, outcomes.drop_last());
        match connection_run(phase, outcomes.drop_last()) {
            Some((before, earlier)) => match connection_step(before, outcomes.last()) {
                Some((_, action)) => {
                    let actions = earlier.push(action);
                    assert(actions.drop_last() =~= earlier);
                    match outcomes.last() {
                        ConnectionOutcomeView::Frame(frame) => {
                            let taken = frames_taken(outcomes.drop_last()).push(frame);
                            assert(taken.drop_last() =~= frames_taken(outcomes.drop_last()));
                        },
                        _ => {},
                    }
                },
                None => {},
            },
            None => {},
        }
    }
}

} // verus!
