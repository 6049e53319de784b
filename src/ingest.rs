//! The collector's side of a streaming connection: a state machine that checks
//! single ownership of the session, hands each binary frame on to be decoded
//! and stored, and decides how and why the connection closes.
use vstd::prelude::*;
use vstd::string::StringExecFns;

verus! {

/// Close code of a normal closure.
pub const CLOSE_NORMAL: u16 = 1000;

/// Close code of an endpoint going away (the collector shuts down).
pub const CLOSE_AWAY: u16 = 1001;

/// Close code of a message type that is not accepted.
pub const CLOSE_UNSUPPORTED: u16 = 1003;

/// Close code of an internal error.
pub const CLOSE_ERROR: u16 = 1011;

/// Close code of a conflict: the session is already owned by another live
/// connection (application range, after HTTP's 409).
pub const CLOSE_CONFLICT: u16 = 4409;

/// Why the collector closes a streaming connection.
pub enum IngressWsError {
    /// The session is already owned by another live connection.
    Conflict,
    /// The collector is shutting down.
    Shutdown,
    /// The client sent a text frame.
    UnexpectedMessage,
    /// Reading, decoding or storing failed.
    Internal(String),
}

/// A close frame: code and reason.
pub struct CloseFrame {
    pub code: u16,
    pub reason: String,
}

/// The code and the reason text sent for each closing cause.
pub open spec fn close_frame_spec(e: IngressWsError) -> (u16, Seq<char>) {
    match e {
        IngressWsError::Conflict => (CLOSE_CONFLICT, "session already owned by another connection"@),
        IngressWsError::Shutdown => (CLOSE_AWAY, "server shutting down"@),
        IngressWsError::UnexpectedMessage => (CLOSE_UNSUPPORTED, "unexpected message from client"@),
        IngressWsError::Internal(reason) => (CLOSE_ERROR, "internal error: "@ + reason@),
    }
}

impl IngressWsError {
    /// The close frame that reports this cause to the client.
    pub fn into_close_frame(self) -> (r: CloseFrame)
        ensures
            (r.code, r.reason@) == close_frame_spec(self),
    {
        match self {
            IngressWsError::Conflict => CloseFrame {
                code: CLOSE_CONFLICT,
                reason: String::from_str("session already owned by another connection"),
            },
            IngressWsError::Shutdown => CloseFrame {
                code: CLOSE_AWAY,
                reason: String::from_str("server shutting down"),
            },
            IngressWsError::UnexpectedMessage => CloseFrame {
                code: CLOSE_UNSUPPORTED,
                reason: String::from_str("unexpected message from client"),
            },
            IngressWsError::Internal(reason) => CloseFrame {
                code: CLOSE_ERROR,
                reason: String::from_str("internal error: ").concat(reason.as_str()),
            },
        }
    }
}

/// What happened on a streaming connection.
pub enum IngressEvent {
    /// A binary frame arrived.
    Binary,
    /// A text frame arrived.
    Text,
    /// The peer sent a close frame.
    Close,
    /// A ping, pong or other control frame arrived.
    Control,
    /// Reading from the connection failed.
    ReadFailed(String),
    /// The connection ended without a close frame.
    Ended,
    /// The sample of the last binary frame was decoded and stored.
    Stored,
    /// Decoding or storing the sample of the last binary frame failed.
    StoreFailed(String),
    /// The shutdown signal fired.
    Cancelled,
}

/// What the connection handler is to do.
pub enum IngressAction {
    /// Wait for the next frame, or for the shutdown signal.
    AwaitFrame,
    /// Decode the binary frame as a sample and store it as one transaction;
    /// report `Stored` or `StoreFailed`.
    DecodeAndStore,
    /// Send this close frame if any (errors are ignored), close the
    /// connection and release the session.
    Finish(Option<CloseFrame>),
}

/// Where a connection stands.
#[derive(PartialEq, Eq, Structural, Debug, Clone, Copy)]
pub enum IngressState {
    /// Waiting for a frame.
    Streaming,
    /// A sample is being decoded and stored.
    Storing,
    /// The connection is closed.
    Closed,
}

/// The action an event leads to, as code, reason and next state: `None` for
/// no close frame.
pub open spec fn ingress_step(s: IngressState, e: IngressEvent) -> (IngressState, Option<Option<(u16, Seq<char>)>>) {
    match (s, e) {
        (IngressState::Streaming, IngressEvent::Binary) => (IngressState::Storing, None),
        (IngressState::Streaming, IngressEvent::Control) => (IngressState::Streaming, None),
        (IngressState::Storing, IngressEvent::Stored) => (IngressState::Streaming, None),
        (_, IngressEvent::Text) => (IngressState::Closed, Some(Some(close_frame_spec(IngressWsError::UnexpectedMessage)))),
        (_, IngressEvent::Close) => (IngressState::Closed, Some(None)),
        (_, IngressEvent::Ended) => (IngressState::Closed, Some(None)),
        (_, IngressEvent::ReadFailed(m)) => (IngressState::Closed, Some(Some(close_frame_spec(IngressWsError::Internal(m))))),
        (_, IngressEvent::StoreFailed(m)) => (IngressState::Closed, Some(Some(close_frame_spec(IngressWsError::Internal(m))))),
        (_, IngressEvent::Cancelled) => (IngressState::Closed, Some(Some(close_frame_spec(IngressWsError::Shutdown)))),
        _ => (IngressState::Closed, Some(None)),
    }
}

/// The events that can come in a state: frames and the shutdown signal while
/// waiting for a frame, the outcome of storing while storing.
pub open spec fn ingress_accepts(s: IngressState, e: IngressEvent) -> bool {
    match s {
        IngressState::Streaming => !(e is Stored) && !(e is StoreFailed),
        IngressState::Storing => e is Stored || e is StoreFailed,
        IngressState::Closed => false,
    }
}

/// The action in the form `ingress_step` gives it.
pub open spec fn action_view(a: IngressAction) -> Option<Option<(u16, Seq<char>)>> {
    match a {
        IngressAction::AwaitFrame => None,
        IngressAction::DecodeAndStore => None,
        IngressAction::Finish(None) => Some(None),
        IngressAction::Finish(Some(f)) => Some(Some((f.code, f.reason@))),
    }
}

/// Samples of one connection are stored one at a time and in order: storing
/// is asked for only on entering `Storing`, and while a sample is stored no
/// frame is read, so the next one is handled only after the store finished.
pub proof fn lemma_one_store_at_a_time(s: IngressState, e: IngressEvent)
    requires
        ingress_accepts(s, e),
    ensures
        ingress_step(s, e).0 is Storing ==> s is Streaming && e is Binary,
        s is Storing ==> !ingress_accepts(s, IngressEvent::Binary),
        s is Storing ==> !ingress_accepts(s, IngressEvent::Text),
{
}

/// Every closing cause has its own close code: a conflict is told apart from
/// an internal error, from a shutdown and from an unsupported message.
pub proof fn lemma_close_codes_distinct(reason: String)
    ensures
        close_frame_spec(IngressWsError::Conflict).0 != close_frame_spec(IngressWsError::Internal(reason)).0,
        close_frame_spec(IngressWsError::Conflict).0 != close_frame_spec(IngressWsError::Shutdown).0,
        close_frame_spec(IngressWsError::Conflict).0 != close_frame_spec(IngressWsError::UnexpectedMessage).0,
        close_frame_spec(IngressWsError::Internal(reason)).0 != close_frame_spec(IngressWsError::Shutdown).0,
        close_frame_spec(IngressWsError::Internal(reason)).0 != close_frame_spec(IngressWsError::UnexpectedMessage).0,
        close_frame_spec(IngressWsError::Shutdown).0 != close_frame_spec(IngressWsError::UnexpectedMessage).0,
{
}

/// The decisions of one streaming connection.
pub struct IngressController {
    state: IngressState,
}

impl IngressController {
    pub closed spec fn state(&self) -> IngressState {
        self.state
    }

    /// A new connection for a session: streaming when this connection took
    /// ownership of the session, otherwise closed at once with the conflict
    /// reason.
    pub fn connect(owned: bool) -> (r: (IngressController, IngressAction))
        ensures
            owned ==> r.0.state() == IngressState::Streaming && r.1 is AwaitFrame,
            !owned ==> r.0.state() == IngressState::Closed
                && action_view(r.1) == Some(Some(close_frame_spec(IngressWsError::Conflict))),
    {
        if owned {
            (IngressController { state: IngressState::Streaming }, IngressAction::AwaitFrame)
        } else {
            (
                IngressController { state: IngressState::Closed },
                IngressAction::Finish(Some(IngressWsError::Conflict.into_close_frame())),
            )
        }
    }

    /// The current state.
    pub fn current_state(&self) -> (r: IngressState)
        ensures
            r == self.state(),
    {
        self.state
    }

    /// Whether `e` can be handed to the controller now.
    pub fn accepts(&self, e: &IngressEvent) -> (r: bool)
        ensures
            r == ingress_accepts(self.state(), *e),
    {
        match self.state {
            IngressState::Streaming => !matches!(e, IngressEvent::Stored | IngressEvent::StoreFailed(_)),
            IngressState::Storing => matches!(e, IngressEvent::Stored | IngressEvent::StoreFailed(_)),
            IngressState::Closed => false,
        }
    }

    /// Hands the controller one event and returns what to do next. Binary
    /// frames are stored one at a time, in order; a text frame, a read,
    /// decode or store failure, the end of the stream, a close frame from the
    /// peer and the shutdown signal each close the connection.
    pub fn next(&mut self, e: IngressEvent) -> (a: IngressAction)
        requires
            ingress_accepts(old(self).state(), e),
        ensures
            (final(self).state(), action_view(a)) == ingress_step(old(self).state(), e),
    {
        match e {
            IngressEvent::Binary => {
                self.state = IngressState::Storing;
                IngressAction::DecodeAndStore
            },
            IngressEvent::Control => IngressAction::AwaitFrame,
            IngressEvent::Stored => {
                self.state = IngressState::Streaming;
                IngressAction::AwaitFrame
            },
            IngressEvent::Text => self.close(IngressWsError::UnexpectedMessage),
            IngressEvent::Close => {
                self.state = IngressState::Closed;
                IngressAction::Finish(None)
            },
            IngressEvent::Ended => {
                self.state = IngressState::Closed;
                IngressAction::Finish(None)
            },
            IngressEvent::ReadFailed(m) => self.close(IngressWsError::Internal(m)),
            IngressEvent::StoreFailed(m) => self.close(IngressWsError::Internal(m)),
            IngressEvent::Cancelled => self.close(IngressWsError::Shutdown),
        }
    }

    fn close(&mut self, cause: IngressWsError) -> (a: IngressAction)
        ensures
            final(self).state() == IngressState::Closed,
            action_view(a) == Some(Some(close_frame_spec(cause))),
    {
        self.state = IngressState::Closed;
        IngressAction::Finish(Some(cause.into_close_frame()))
    }
}

} // verus!
