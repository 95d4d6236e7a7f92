//! The decisions of one connection, from the opening handshake to the
//! close.
//!
//! A connection is served by a reader flow and a writer flow that run side
//! by side. Neither decides anything by itself: each reports what happened
//! to the [`Session`] and gets back the actions to perform. A flow performs
//! its actions itself, in the order given, before it reports again; so a
//! reply to a control frame goes out before the reader looks at the next
//! frame, and is never queued behind messages of the application.

use vstd::prelude::*;
use crate::handshake::{has_usable_key, is_upgrade_request, negotiation, try_negotiate, HandshakeContext,
    HandshakeContextView, HandshakeResponse, HandshakeResponseView};
use crate::message::{Message, MessageView};
use crate::opcode::Opcode;

verus! {

/// Where a connection stands.
#[derive(Clone, Copy, Debug, PartialEq, Eq, Structural)]
pub enum SessionState {
    /// Accepted; no upgrade request has been answered yet.
    Handshaking,
    /// Upgraded: frames flow in both directions.
    Open,
    /// A Close frame has been sent to the peer; the peer's own is awaited.
    Closing,
    /// Over: the socket is released, nothing is read or written any more.
    Closed,
}

impl SessionState {
    /// The states in which frames are read and written.
    pub open spec fn is_live(self) -> bool {
        self is Open || self is Closing
    }
}

/// One thing for a flow to do.
#[derive(Debug, PartialEq, Eq)]
pub enum Action {
    /// Push the message on the inbound queue, for the application.
    Deliver(Message),
    /// Write the frame of the message to the peer and flush.
    Send(Message),
    /// Shut down the write half of the socket.
    ShutdownWrite,
    /// Shut down the read half of the socket.
    ShutdownRead,
}

/// The mathematical value of an [`Action`].
pub enum ActionView {
    Deliver(MessageView),
    Send(MessageView),
    ShutdownWrite,
    ShutdownRead,
}

impl View for Action {
    type V = ActionView;

    open spec fn view(&self) -> ActionView {
        match self {
            Action::Deliver(message) => ActionView::Deliver(message@),
            Action::Send(message) => ActionView::Send(message@),
            Action::ShutdownWrite => ActionView::ShutdownWrite,
            Action::ShutdownRead => ActionView::ShutdownRead,
        }
    }
}

/// The values of a list of actions, in order.
pub open spec fn action_views(actions: Seq<Action>) -> Seq<ActionView> {
    actions.map_values(|action: Action| action@)
}

/// What to do with an HTTP request that arrived while handshaking.
#[derive(Debug, PartialEq, Eq)]
pub enum HandshakeStep {
    /// Answer with this response, call the application's hook once with
    /// the two fresh queues, then start the reader and the writer flow.
    Upgrade(HandshakeResponse),
    /// Leave the request to the plain HTTP handler.
    PlainHttp,
    /// Close the connection without serving the request.
    Reject,
}

/// The mathematical value of a [`HandshakeStep`].
pub enum HandshakeStepView {
    Upgrade(HandshakeResponseView),
    PlainHttp,
    Reject,
}

impl View for HandshakeStep {
    type V = HandshakeStepView;

    open spec fn view(&self) -> HandshakeStepView {
        match self {
            HandshakeStep::Upgrade(response) => HandshakeStepView::Upgrade(response@),
            HandshakeStep::PlainHttp => HandshakeStepView::PlainHttp,
            HandshakeStep::Reject => HandshakeStepView::Reject,
        }
    }
}

/// What is done with a request. Only a connection that is still
/// handshaking serves requests. There, an upgrade request with a usable
/// key is answered, one without is rejected, and every other request is
/// plain HTTP.
pub open spec fn request_step(
    state: SessionState,
    request: HandshakeContextView,
) -> HandshakeStepView {
    if state != SessionState::Handshaking {
        HandshakeStepView::Reject
    } else {
        match negotiation(request) {
            Ok(response) => HandshakeStepView::Upgrade(response),
            Err(e) => if e.fatal() {
                HandshakeStepView::Reject
            } else {
                HandshakeStepView::PlainHttp
            },
        }
    }
}

/// Where a connection stands after a request. An answered upgrade request
/// opens it; a rejected one closes it; after a plain HTTP request it goes
/// on handshaking, unless the request asked to close the connection.
pub open spec fn state_after_request(
    state: SessionState,
    request: HandshakeContextView,
    close_connection: bool,
) -> SessionState {
    if state != SessionState::Handshaking {
        state
    } else {
        match request_step(state, request) {
            HandshakeStepView::Upgrade(_) => SessionState::Open,
            HandshakeStepView::Reject => SessionState::Closed,
            HandshakeStepView::PlainHttp => if close_connection {
                SessionState::Closed
            } else {
                SessionState::Handshaking
            },
        }
    }
}

/// The Pong that answers a Ping: the same payload under the other opcode.
pub open spec fn pong_for(ping: MessageView) -> MessageView {
    MessageView { payload: ping.payload, opcode: Opcode::PongOp }
}

/// What the reader flow does with a message it has decoded.
///
/// - Text and Binary messages are delivered to the application.
/// - A Ping is answered with a Pong of the same payload.
/// - A Pong is dropped.
/// - A Close is echoed; then the write half is shut down, then the read
///   half.
/// - A Continuation message, which no decoder produces, is dropped.
///
/// Outside the live states nothing is done.
pub open spec fn reader_actions(state: SessionState, message: MessageView) -> Seq<ActionView> {
    if !state.is_live() {
        Seq::empty()
    } else {
        match message.opcode {
            Opcode::TextOp | Opcode::BinaryOp => seq![ActionView::Deliver(message)],
            Opcode::PingOp => seq![ActionView::Send(pong_for(message))],
            Opcode::PongOp | Opcode::ContinuationOp => Seq::empty(),
            Opcode::CloseOp => seq![
                ActionView::Send(message),
                ActionView::ShutdownWrite,
                ActionView::ShutdownRead,
            ],
        }
    }
}

/// Where a connection stands after the reader flow has decoded a message:
/// closed after a Close, as before after anything else.
pub open spec fn state_after_message(state: SessionState, message: MessageView) -> SessionState {
    if state.is_live() && message.opcode == Opcode::CloseOp {
        SessionState::Closed
    } else {
        state
    }
}

/// What the writer flow does with a message of the application: in the
/// live states it sends it, elsewhere it drops it.
pub open spec fn writer_actions(state: SessionState, message: MessageView) -> Seq<ActionView> {
    if state.is_live() {
        seq![ActionView::Send(message)]
    } else {
        Seq::empty()
    }
}

/// Where a connection stands after the writer flow has taken a message of
/// the application: closing once a Close has gone out, as before after
/// anything else.
pub open spec fn state_after_outbound(state: SessionState, message: MessageView) -> SessionState {
    if state == SessionState::Open && message.opcode == Opcode::CloseOp {
        SessionState::Closing
    } else {
        state
    }
}

/// What a flow does when a read, a write or the decoding of a frame has
/// failed: in the live states it releases the socket, write half first,
/// which ends the other flow as well; elsewhere nothing is left to do.
pub open spec fn failure_actions(state: SessionState) -> Seq<ActionView> {
    if state.is_live() {
        seq![ActionView::ShutdownWrite, ActionView::ShutdownRead]
    } else {
        Seq::empty()
    }
}

/// The state of one connection.
#[derive(Debug)]
pub struct Session {
    state: SessionState,
}

impl View for Session {
    type V = SessionState;

    closed spec fn view(&self) -> SessionState {
        self.state
    }
}

impl Session {
    /// The session of a connection that has just been accepted.
    pub fn new() -> (session: Session)
        ensures
            session@ == SessionState::Handshaking,
    {
        Session { state: SessionState::Handshaking }
    }

    /// Where the connection stands.
    pub fn state(&self) -> (state: SessionState)
        ensures
            state == self@,
    {
        self.state
    }

    /// Whether frames are read and written: the flows go on while this
    /// holds, and end when it does not.
    pub fn is_live(&self) -> (live: bool)
        ensures
            live == self@.is_live(),
    {
        match self.state {
            SessionState::Open | SessionState::Closing => true,
            _ => false,
        }
    }

    /// Takes an HTTP request that arrived on the connection, and says what
    /// to do with it. `close_connection` tells whether the request asked
    /// for the connection to be closed once it is served.
    pub fn on_request(&mut self, request: &HandshakeContext, close_connection: bool) -> (step:
        HandshakeStep)
        ensures
            step@ == request_step(old(self)@, request@),
            final(self)@ == state_after_request(old(self)@, request@, close_connection),
    {
        match self.state {
            SessionState::Handshaking => {},
            _ => {
                return HandshakeStep::Reject;
            },
        }
        match try_negotiate(request) {
            Ok(response) => {
                self.state = SessionState::Open;
                HandshakeStep::Upgrade(response)
            },
            Err(e) => {
                if e.is_fatal() {
                    self.state = SessionState::Closed;
                    HandshakeStep::Reject
                } else {
                    if close_connection {
                        self.state = SessionState::Closed;
                    }
                    HandshakeStep::PlainHttp
                }
            },
        }
    }

    /// Takes a message that the reader flow has decoded, and says what the
    /// reader flow is to do.
    pub fn on_message(&mut self, message: Message) -> (actions: Vec<Action>)
        ensures
            action_views(actions@) == reader_actions(old(self)@, message@),
            actions@.len() == reader_actions(old(self)@, message@).len(),
            final(self)@ == state_after_message(old(self)@, message@),
    {
        let mut actions: Vec<Action> = Vec::new();
        if !self.is_live() {
            assert(action_views(actions@) =~= reader_actions(old(self)@, message@));
            return actions;
        }
        let ghost given = message@;
        match message.opcode {
            Opcode::TextOp | Opcode::BinaryOp => {
                actions.push(Action::Deliver(message));
            },
            Opcode::PingOp => {
                let pong = Message { payload: message.payload, opcode: Opcode::PongOp };
                actions.push(Action::Send(pong));
            },
            Opcode::PongOp | Opcode::ContinuationOp => {},
            Opcode::CloseOp => {
                actions.push(Action::Send(message));
                actions.push(Action::ShutdownWrite);
                actions.push(Action::ShutdownRead);
                self.state = SessionState::Closed;
            },
        }
        assert(action_views(actions@) =~= reader_actions(old(self)@, given));
        actions
    }

    /// Takes a message that the application has put on the outbound queue,
    /// and says what the writer flow is to do.
    pub fn on_outbound(&mut self, message: Message) -> (actions: Vec<Action>)
        ensures
            action_views(actions@) == writer_actions(old(self)@, message@),
            actions@.len() == writer_actions(old(self)@, message@).len(),
            final(self)@ == state_after_outbound(old(self)@, message@),
    {
        let mut actions: Vec<Action> = Vec::new();
        if !self.is_live() {
            assert(action_views(actions@) =~= writer_actions(old(self)@, message@));
            return actions;
        }
        let ghost given = message@;
        match (self.state, message.opcode) {
            (SessionState::Open, Opcode::CloseOp) => {
                self.state = SessionState::Closing;
            },
            _ => {},
        }
        actions.push(Action::Send(message));
        assert(action_views(actions@) =~= writer_actions(old(self)@, given));
        actions
    }

    /// Takes the failure of a read, of a write or of the decoding of a
    /// frame, and says what the flow that met it is to do. The connection
    /// is closed afterwards.
    pub fn on_failure(&mut self) -> (actions: Vec<Action>)
        ensures
            action_views(actions@) == failure_actions(old(self)@),
            actions@.len() == failure_actions(old(self)@).len(),
            final(self)@ == SessionState::Closed,
    {
        let mut actions: Vec<Action> = Vec::new();
        if self.is_live() {
            actions.push(Action::ShutdownWrite);
            actions.push(Action::ShutdownRead);
        }
        self.state = SessionState::Closed;
        assert(action_views(actions@) =~= failure_actions(old(self)@));
        actions
    }
}

/// A Ping is answered at once, by the reader flow itself, with one Pong
/// that carries the payload of the Ping; the connection stays as it was.
pub proof fn lemma_ping_answered(state: SessionState, ping: MessageView)
    requires
        state.is_live(),
        ping.opcode == Opcode::PingOp,
    ensures
        reader_actions(state, ping) == seq![
            ActionView::Send(MessageView { payload: ping.payload, opcode: Opcode::PongOp }),
        ],
        state_after_message(state, ping) == state,
{
}

/// Messages pass through unchanged and one at a time: what the reader
/// delivers is the Text or Binary message it was given, what the writer
/// sends is the message it was given, and neither does so twice. Steps
/// taken in order therefore deliver and send in order.
pub proof fn lemma_messages_pass_unchanged(state: SessionState, message: MessageView, i: int)
    ensures
        0 <= i < reader_actions(state, message).len() && reader_actions(state, message)[i]
            is Deliver ==> i == 0 && reader_actions(state, message) == seq![
            ActionView::Deliver(message),
        ] && (message.opcode == Opcode::TextOp || message.opcode == Opcode::BinaryOp),
        state.is_live() && (message.opcode == Opcode::TextOp || message.opcode
            == Opcode::BinaryOp) ==> reader_actions(state, message) == seq![
            ActionView::Deliver(message),
        ],
        state.is_live() ==> writer_actions(state, message) == seq![ActionView::Send(message)],
{
}

/// A Close from the peer ends the connection in this order: the same
/// Close goes back to the peer, the write half is shut down, the read
/// half is shut down. The connection is closed then, and in a closed
/// connection no message is acted on and none is sent.
pub proof fn lemma_close_received(state: SessionState, close: MessageView, later: MessageView)
    requires
        state.is_live(),
        close.opcode == Opcode::CloseOp,
    ensures
        reader_actions(state, close) == seq![
            ActionView::Send(close),
            ActionView::ShutdownWrite,
            ActionView::ShutdownRead,
        ],
        state_after_message(state, close) == SessionState::Closed,
        reader_actions(state_after_message(state, close), later) == Seq::<ActionView>::empty(),
        writer_actions(state_after_message(state, close), later) == Seq::<ActionView>::empty(),
{
}

/// A closed connection stays closed, whatever is reported to it, and
/// nothing is done on it.
pub proof fn lemma_closed_is_terminal(
    message: MessageView,
    request: HandshakeContextView,
    close_connection: bool,
)
    ensures
        state_after_message(SessionState::Closed, message) == SessionState::Closed,
        state_after_outbound(SessionState::Closed, message) == SessionState::Closed,
        state_after_request(SessionState::Closed, request, close_connection)
            == SessionState::Closed,
        reader_actions(SessionState::Closed, message) == Seq::<ActionView>::empty(),
        writer_actions(SessionState::Closed, message) == Seq::<ActionView>::empty(),
        failure_actions(SessionState::Closed) == Seq::<ActionView>::empty(),
        request_step(SessionState::Closed, request) == HandshakeStepView::Reject,
{
}

/// A connection is upgraded at most once, so the application's hook is
/// called at most once for it: only a handshaking connection is upgraded,
/// the upgrade ends the handshake, and nothing brings a connection back
/// to the handshake.
pub proof fn lemma_upgraded_once(
    state: SessionState,
    request: HandshakeContextView,
    close_connection: bool,
    message: MessageView,
)
    ensures
        request_step(state, request) is Upgrade ==> state == SessionState::Handshaking
            && state_after_request(state, request, close_connection) == SessionState::Open,
        state != SessionState::Handshaking ==> {
            &&& !(request_step(state, request) is Upgrade)
            &&& state_after_request(state, request, close_connection) != SessionState::Handshaking
            &&& state_after_message(state, message) != SessionState::Handshaking
            &&& state_after_outbound(state, message) != SessionState::Handshaking
        },
{
}

/// A connection is opened by nothing but an upgrade request with a key
/// that arrives while it is handshaking.
pub proof fn lemma_open_only_by_upgrade(
    state: SessionState,
    request: HandshakeContextView,
    close_connection: bool,
)
    ensures
        state != SessionState::Open && state_after_request(state, request, close_connection)
            == SessionState::Open <==> state == SessionState::Handshaking && is_upgrade_request(
            request,
        ) && has_usable_key(request),
{
}

} // verus!
