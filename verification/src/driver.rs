//! The transport driver, as a state machine.
//!
//! Whoever owns the connection tells the driver what happened on it, one event at a time, and
//! is told what to do about it. The driver itself touches no socket and sends nothing.

use vstd::prelude::*;
use crate::commit::{decode_commit, decoded_commit};
use crate::dispatch::{
    delivery_views, handled, Delivery, DeliveryView, DispatchError, DispatchErrorView, Handler,
};
use crate::frame::{
    decode, decoded, kind_of, Frame, FrameError, FrameErrorView, MessageKind,
};
use crate::record::DecodeError;

verus! {

/// Why a stream session failed.
#[derive(Debug, Clone, Copy, PartialEq, Eq, Structural)]
pub enum TransportError {
    /// The connection could not be set up.
    Connect,
    /// The socket reported an error.
    Socket,
    /// The stream broke the rules of the transport.
    Protocol,
}

/// Where a stream session stands.
#[derive(Debug, Clone, Copy, PartialEq, Eq, Structural)]
pub enum StreamState {
    /// The connection is being set up.
    Connecting,
    /// Messages are coming in.
    Streaming,
    /// The session ended in good order.
    Closed,
    /// The session ended on an error. Whether to connect again is for the caller to decide.
    Failed(TransportError),
}

/// What happened on the connection.
#[derive(Debug, Clone, PartialEq, Eq)]
pub enum StreamEvent {
    /// The connection stands.
    Connected,
    /// The connection could not be set up.
    ConnectFailed,
    /// A binary message came in.
    Binary(Vec<u8>),
    /// A message came in that is not binary.
    Other,
    /// The other side ended the stream.
    Ended,
    /// The socket reported an error.
    SocketError,
    /// The stream reported that the rules of the transport were broken.
    ProtocolError,
}

/// The mathematical value of a [`StreamEvent`].
pub enum StreamEventView {
    Connected,
    ConnectFailed,
    Binary(Seq<u8>),
    Other,
    Ended,
    SocketError,
    ProtocolError,
}

impl View for StreamEvent {
    type V = StreamEventView;

    open spec fn view(&self) -> StreamEventView {
        match self {
            StreamEvent::Connected => StreamEventView::Connected,
            StreamEvent::ConnectFailed => StreamEventView::ConnectFailed,
            StreamEvent::Binary(raw) => StreamEventView::Binary(raw@),
            StreamEvent::Other => StreamEventView::Other,
            StreamEvent::Ended => StreamEventView::Ended,
            StreamEvent::SocketError => StreamEventView::SocketError,
            StreamEvent::ProtocolError => StreamEventView::ProtocolError,
        }
    }
}

/// What went wrong with one message. The message is dropped and the stream goes on.
#[derive(Debug, Clone, PartialEq, Eq)]
pub enum Diagnostic {
    /// The message gave no frame.
    Frame(FrameError),
    /// The body of a commit frame is no commit.
    Body(DecodeError),
    /// The commit could not be dispatched, or not to its end.
    Dispatch(DispatchError),
}

/// The mathematical value of a [`Diagnostic`].
pub enum DiagnosticView {
    Frame(FrameErrorView),
    Body(DecodeError),
    Dispatch(DispatchErrorView),
}

impl View for Diagnostic {
    type V = DiagnosticView;

    open spec fn view(&self) -> DiagnosticView {
        match self {
            Diagnostic::Frame(e) => DiagnosticView::Frame(e@),
            Diagnostic::Body(e) => DiagnosticView::Body(*e),
            Diagnostic::Dispatch(e) => DiagnosticView::Dispatch(e@),
        }
    }
}

/// What the owner of the connection is to do after an event: first hand the deliveries to
/// the notification sink, one by one and in this order, then log the report.
#[derive(Debug, Clone, PartialEq, Eq)]
pub struct Action {
    pub deliveries: Vec<Delivery>,
    pub report: Option<Diagnostic>,
}

/// The mathematical value of an [`Action`].
pub struct ActionView {
    pub deliveries: Seq<DeliveryView>,
    pub report: Option<DiagnosticView>,
}

impl View for Action {
    type V = ActionView;

    open spec fn view(&self) -> ActionView {
        ActionView {
            deliveries: delivery_views(self.deliveries@),
            report: match self.report {
                Some(diagnostic) => Some(diagnostic@),
                None => None,
            },
        }
    }
}

/// The action that asks for nothing.
pub open spec fn nothing() -> ActionView {
    ActionView { deliveries: Seq::empty(), report: None }
}

/// The action that asks for a report and nothing else.
pub open spec fn report_of(diagnostic: DiagnosticView) -> ActionView {
    ActionView { deliveries: Seq::empty(), report: Some(diagnostic) }
}

/// What a binary message asks for.
///
/// A message that gives no frame is reported. A frame that is no commit is passed over. The
/// body of a commit frame is decoded, and a body that is no commit is reported. A commit is
/// dispatched: what is due is handed out, and the failure on which the dispatch ended, where
/// it ended on one, is reported. Whatever the message holds, it is dealt with and dropped.
pub open spec fn reaction(handler: &Handler, raw: Seq<u8>) -> ActionView {
    match decoded(raw) {
        Err(e) => report_of(DiagnosticView::Frame(e)),
        Ok(frame) => if kind_of(frame) == MessageKind::Commit {
            match decoded_commit(frame->body) {
                Err(e) => report_of(DiagnosticView::Body(e)),
                Ok(commit) => {
                    let dispatch = handled(handler.subscribers_of(commit.author_id), commit);
                    ActionView {
                        deliveries: dispatch.deliveries,
                        report: match dispatch.failure {
                            Some(e) => Some(DiagnosticView::Dispatch(e)),
                            None => None,
                        },
                    }
                },
            }
        } else {
            nothing()
        },
    }
}

/// The state after `event`, and what is to be done.
///
/// A session starts connecting and streams once the connection stands. While it streams, a
/// binary message leads to its [`reaction`] and leaves the session streaming; the end of the
/// stream, or a message that is not binary, closes the session; an error of the socket or of
/// the transport's protocol fails it. A session that is closed or failed stays so.
pub open spec fn stepped(state: StreamState, handler: &Handler, event: StreamEventView) -> (
    StreamState,
    ActionView,
) {
    match state {
        StreamState::Connecting => match event {
            StreamEventView::Connected => (StreamState::Streaming, nothing()),
            StreamEventView::ConnectFailed => (
                StreamState::Failed(TransportError::Connect),
                nothing(),
            ),
            _ => (StreamState::Connecting, nothing()),
        },
        StreamState::Streaming => match event {
            StreamEventView::Binary(raw) => (StreamState::Streaming, reaction(handler, raw)),
            StreamEventView::Other => (StreamState::Closed, nothing()),
            StreamEventView::Ended => (StreamState::Closed, nothing()),
            StreamEventView::SocketError => (StreamState::Failed(TransportError::Socket), nothing()),
            StreamEventView::ProtocolError => (
                StreamState::Failed(TransportError::Protocol),
                nothing(),
            ),
            _ => (StreamState::Streaming, nothing()),
        },
        StreamState::Closed => (StreamState::Closed, nothing()),
        StreamState::Failed(e) => (StreamState::Failed(e), nothing()),
    }
}

/// The action that asks for nothing.
fn idle() -> (action: Action)
    ensures
        action@ == nothing(),
{
    let action = Action { deliveries: Vec::new(), report: None };
    assert(action@.deliveries =~= Seq::<DeliveryView>::empty());
    action
}

/// The action that asks for a report and nothing else.
fn report(diagnostic: Diagnostic) -> (action: Action)
    ensures
        action@ == report_of(diagnostic@),
{
    let action = Action { deliveries: Vec::new(), report: Some(diagnostic) };
    assert(action@.deliveries =~= Seq::<DeliveryView>::empty());
    action
}

/// Decides what a binary message asks for.
fn react(handler: &Handler, raw: &[u8]) -> (action: Action)
    ensures
        action@ == reaction(handler, raw@),
{
    match decode(raw) {
        Err(e) => report(Diagnostic::Frame(e)),
        Ok(frame) => match frame.kind() {
            MessageKind::Commit => match &frame {
                Frame::Message(_, message) => match decode_commit(message.body.as_slice()) {
                    Err(e) => report(Diagnostic::Body(e)),
                    Ok(commit) => {
                        let dispatch = handler.handle_commit(&commit);
                        Action {
                            deliveries: dispatch.deliveries,
                            report: match dispatch.result {
                                Ok(_) => None,
                                Err(e) => Some(Diagnostic::Dispatch(e)),
                            },
                        }
                    },
                },
                Frame::Error(_) => idle(),
            },
            MessageKind::Unknown => idle(),
        },
    }
}

/// Takes the session one event further: returns the state after `event` and what the owner of
/// the connection is to do.
pub fn advance(state: StreamState, handler: &Handler, event: &StreamEvent) -> (next: (
    StreamState,
    Action,
))
    ensures
        (next.0, next.1@) == stepped(state, handler, event@),
{
    match state {
        StreamState::Connecting => match event {
            StreamEvent::Connected => (StreamState::Streaming, idle()),
            StreamEvent::ConnectFailed => (StreamState::Failed(TransportError::Connect), idle()),
            _ => (StreamState::Connecting, idle()),
        },
        StreamState::Streaming => match event {
            StreamEvent::Binary(raw) => (StreamState::Streaming, react(handler, raw.as_slice())),
            StreamEvent::Other => (StreamState::Closed, idle()),
            StreamEvent::Ended => (StreamState::Closed, idle()),
            StreamEvent::SocketError => (StreamState::Failed(TransportError::Socket), idle()),
            StreamEvent::ProtocolError => (StreamState::Failed(TransportError::Protocol), idle()),
            _ => (StreamState::Streaming, idle()),
        },
        StreamState::Closed => (StreamState::Closed, idle()),
        StreamState::Failed(e) => (StreamState::Failed(e), idle()),
    }
}

/// How a session ended: `None` while it goes on.
pub open spec fn ended(state: StreamState) -> Option<Result<(), TransportError>> {
    match state {
        StreamState::Closed => Some(Ok(())),
        StreamState::Failed(e) => Some(Err(e)),
        _ => None,
    }
}

/// Says how a session ended, or that it goes on.
pub fn outcome(state: StreamState) -> (result: Option<Result<(), TransportError>>)
    ensures
        result == ended(state),
{
    match state {
        StreamState::Closed => Some(Ok(())),
        StreamState::Failed(e) => Some(Err(e)),
        _ => None,
    }
}

/// A session that is closed or failed stays as it is and asks for nothing.
pub proof fn lemma_ended_session_stays(
    state: StreamState,
    handler: &Handler,
    event: StreamEventView,
)
    requires
        state is Closed || state is Failed,
    ensures
        stepped(state, handler, event) == (state, nothing()),
{
}

/// A session moves forward only: it never comes back to connecting, and leaves streaming only
/// to end.
pub proof fn lemma_session_moves_forward(
    state: StreamState,
    handler: &Handler,
    event: StreamEventView,
)
    ensures
        stepped(state, handler, event).0 == StreamState::Connecting ==> state
            == StreamState::Connecting,
        stepped(state, handler, event).0 == StreamState::Streaming ==> state
            == StreamState::Connecting || state == StreamState::Streaming,
{
}

/// No message ends the session, whatever it holds: a message without a frame, a commit frame
/// whose body is no commit and a commit that cannot be dispatched all leave it streaming.
pub proof fn lemma_message_keeps_streaming(handler: &Handler, raw: Seq<u8>)
    ensures
        stepped(StreamState::Streaming, handler, StreamEventView::Binary(raw)).0
            == StreamState::Streaming,
{
}

/// A session fails only on an event of the connection itself: it never fails on a message.
pub proof fn lemma_only_the_transport_fails(
    state: StreamState,
    handler: &Handler,
    event: StreamEventView,
)
    requires
        !(state is Failed),
        stepped(state, handler, event).0 is Failed,
    ensures
        event is ConnectFailed || event is SocketError || event is ProtocolError,
{
}

} // verus!
