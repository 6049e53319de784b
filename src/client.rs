//! The agent side: the requests it sends to open a session and to stream
//! samples, and the state machine that drives authentication, streaming and
//! reconnection with backoff.
use vstd::prelude::*;
use vstd::string::StringSliceAdditionalSpecFns;

use crate::backoff::{
    backoff_interval, backoff_step, backoff_steps, lemma_backoff_closed_form, ReconnectTimer,
};
use crate::wire::{
    build_request, build_result, header, headers_view, is_success, push_all, HttpRequest,
    HttpResponse, RequestView, WireError,
};

verus! {

/// The decimal digits of `n`, most significant first.
pub open spec fn decimal(n: nat) -> Seq<u8>
    decreases n,
{
    if n < 10 {
        seq![(48 + n) as u8]
    } else {
        decimal(n / 10).push((48 + n % 10) as u8)
    }
}

/// The decimal digits of `n`.
pub fn decimal_bytes(n: usize) -> (r: Vec<u8>)
    ensures
        r@ == decimal(n as nat),
    decreases n,
{
    if n < 10 {
        vec![(48 + n) as u8]
    } else {
        let mut r = decimal_bytes(n / 10);
        r.push((48 + n % 10) as u8);
        r
    }
}

pub open spec fn scheme_prefix(secure: bool, web_socket: bool) -> Seq<u8> {
    if web_socket {
        if secure { seq![119u8, 115, 115, 58, 47, 47] } else { seq![119u8, 115, 58, 47, 47] }
    } else {
        if secure { seq![104u8, 116, 116, 112, 115, 58, 47, 47] } else { seq![104u8, 116, 116, 112, 58, 47, 47] }
    }
}

/// `/api/v1/sessions`
pub open spec fn sessions_path() -> Seq<u8> {
    seq![47u8, 97, 112, 105, 47, 118, 49, 47, 115, 101, 115, 115, 105, 111, 110, 115]
}

/// `/ws/v1/metrics/ingress`
pub open spec fn ingress_path() -> Seq<u8> {
    seq![47u8, 119, 115, 47, 118, 49, 47, 109, 101, 116, 114, 105, 99, 115, 47, 105, 110, 103, 114, 101, 115, 115]
}

/// `POST`
pub open spec fn post_method() -> Seq<u8> {
    seq![80u8, 79, 83, 84]
}

pub open spec fn content_type_header() -> (Seq<u8>, Seq<u8>) {
    (
        seq![99u8, 111, 110, 116, 101, 110, 116, 45, 116, 121, 112, 101],
        seq![97u8, 112, 112, 108, 105, 99, 97, 116, 105, 111, 110, 47, 112, 111, 115, 116, 99, 97, 114, 100],
    )
}

pub open spec fn content_length_name() -> Seq<u8> {
    seq![99u8, 111, 110, 116, 101, 110, 116, 45, 108, 101, 110, 103, 116, 104]
}

/// The address of the session endpoint of the collector at `server_addr`.
pub fn session_uri(server_addr: &str, tls: bool) -> (r: Vec<u8>)
    ensures
        r@ == scheme_prefix(tls, false) + server_addr.spec_bytes() + sessions_path(),
{
    let mut r: Vec<u8> = if tls {
        vec![104u8, 116, 116, 112, 115, 58, 47, 47]
    } else {
        vec![104u8, 116, 116, 112, 58, 47, 47]
    };
    push_all(&mut r, server_addr.as_bytes());
    push_all(&mut r, &[47u8, 97, 112, 105, 47, 118, 49, 47, 115, 101, 115, 115, 105, 111, 110, 115]);
    r
}

/// The address of the streaming endpoint of the collector at `server_addr`.
pub fn ingress_uri(server_addr: &str, tls: bool) -> (r: Vec<u8>)
    ensures
        r@ == scheme_prefix(tls, true) + server_addr.spec_bytes() + ingress_path(),
{
    let mut r: Vec<u8> = if tls {
        vec![119u8, 115, 115, 58, 47, 47]
    } else {
        vec![119u8, 115, 58, 47, 47]
    };
    push_all(&mut r, server_addr.as_bytes());
    push_all(&mut r, &[47u8, 119, 115, 47, 118, 49, 47, 109, 101, 116, 114, 105, 99, 115, 47, 105, 110, 103, 114, 101, 115, 115]);
    r
}

/// The session request: a `POST` to the session endpoint with the encoded
/// credential and system descriptor as body, typed and sized.
pub open spec fn session_request_result(server_addr: Seq<u8>, tls: bool, body: Seq<u8>) -> Result<RequestView, WireError> {
    match build_result(scheme_prefix(tls, false) + server_addr + sessions_path(), post_method()) {
        Err(e) => Err(e),
        Ok(r) => Ok(RequestView {
            headers: r.headers.push(content_type_header()).push((content_length_name(), decimal(body.len()))),
            body,
            ..r
        }),
    }
}

/// Builds the request that opens a session; `body` is the encoded
/// credential and system descriptor.
pub fn session_request(server_addr: &str, tls: bool, body: Vec<u8>) -> (r: Result<HttpRequest, WireError>)
    ensures
        match r {
            Ok(req) => session_request_result(server_addr.spec_bytes(), tls, body@) == Ok::<RequestView, WireError>(req@),
            Err(e) => session_request_result(server_addr.spec_bytes(), tls, body@) == Err::<RequestView, WireError>(e),
        },
{
    let uri = session_uri(server_addr, tls);
    let mut req = match build_request(uri.as_slice(), &[80u8, 79, 83, 84]) {
        Ok(req) => req,
        Err(e) => return Err(e),
    };
    let ghost before = req@;
    req.headers.push(header(&[99u8, 111, 110, 116, 101, 110, 116, 45, 116, 121, 112, 101], vec![97u8, 112, 112, 108, 105, 99, 97, 116, 105, 111, 110, 47, 112, 111, 115, 116, 99, 97, 114, 100]));
    req.headers.push(header(&[99u8, 111, 110, 116, 101, 110, 116, 45, 108, 101, 110, 103, 116, 104], decimal_bytes(body.len())));
    req.body = body;
    assert(req@.headers =~= before.headers.push(content_type_header()).push((content_length_name(), decimal(body@.len()))));
    Ok(req)
}

/// Why opening a session failed.
pub enum SessionError {
    /// The collector answered with a status other than success.
    Rejected { status: u16, body: Vec<u8> },
}

/// The body of the collector's answer to a session request, which holds
/// the token and the sample interval; the answer is refused unless its status
/// reports success.
pub fn session_reply(resp: HttpResponse) -> (r: Result<Vec<u8>, SessionError>)
    ensures
        is_success(resp.status) ==> (r matches Ok(b) && b@ == resp.body@),
        !is_success(resp.status) ==> (r matches Err(SessionError::Rejected { status, body })
            && status == resp.status && body@ == resp.body@),
{
    if resp.status >= 200 && resp.status <= 299 {
        Ok(resp.body)
    } else {
        Err(SessionError::Rejected { status: resp.status, body: resp.body })
    }
}

/// Where the agent stands.
#[derive(PartialEq, Eq, Structural, Debug, Clone, Copy)]
pub enum ClientState {
    /// Waiting out the backoff interval before the next attempt.
    Disconnected,
    /// Opening a session.
    Authenticating,
    /// Streaming: waiting for the next tick, one every `interval` seconds.
    Streaming { interval: u64 },
    /// Streaming: a sample is being sent.
    Sending { interval: u64 },
    /// Shut down on request; nothing follows.
    Stopped,
}

/// What the driver of the agent reports.
#[derive(PartialEq, Eq, Structural, Debug, Clone, Copy)]
pub enum ClientEvent {
    /// The backoff interval was waited out.
    BackoffElapsed,
    /// A session was opened; samples go out every `interval` seconds.
    SessionOpened { interval: u64 },
    /// Opening the session, or the streaming channel, failed, or the peer
    /// closed it.
    Failed,
    /// A sample was sent.
    SampleSent,
    /// The sample interval elapsed.
    TickElapsed,
    /// A local shutdown was requested.
    ShutdownRequested,
}

/// What the driver is to do next.
#[derive(PartialEq, Eq, Structural, Debug, Clone, Copy)]
pub enum ClientAction {
    /// Sleep this many seconds, then report `BackoffElapsed`.
    WaitBackoff(u64),
    /// Open a session; report `SessionOpened` or `Failed`.
    Authenticate,
    /// Take a sample and send it; report `SampleSent` or `Failed`.
    SendSample,
    /// Wait this many seconds from the last sample, or for a shutdown request.
    WaitTick(u64),
    /// Close the channel and end with success.
    Stop,
}

/// Whether `e` can happen in state `s`: a shutdown request at any time
/// before the end, and otherwise the outcomes of the action asked for.
pub open spec fn client_accepts(s: ClientState, e: ClientEvent) -> bool {
    match (s, e) {
        (ClientState::Stopped, _) => false,
        (_, ClientEvent::ShutdownRequested) => true,
        (ClientState::Disconnected, ClientEvent::BackoffElapsed) => true,
        (ClientState::Authenticating, ClientEvent::SessionOpened { .. }) => true,
        (ClientState::Authenticating, ClientEvent::Failed) => true,
        (ClientState::Sending { .. }, ClientEvent::SampleSent) => true,
        (ClientState::Sending { .. }, ClientEvent::Failed) => true,
        (ClientState::Streaming { .. }, ClientEvent::TickElapsed) => true,
        (ClientState::Streaming { .. }, ClientEvent::Failed) => true,
        _ => false,
    }
}

/// One transition: the next state, the backoff interval after it, and the
/// action. `current` and `maximum` are the backoff's current and maximum
/// interval, `minimum` its minimum.
pub open spec fn client_step(s: ClientState, e: ClientEvent, minimum: nat, current: nat, maximum: nat) -> (ClientState, nat, ClientAction) {
    match e {
        ClientEvent::ShutdownRequested => (ClientState::Stopped, current, ClientAction::Stop),
        ClientEvent::BackoffElapsed => (ClientState::Authenticating, backoff_step(current, maximum), ClientAction::Authenticate),
        ClientEvent::SessionOpened { interval } => (ClientState::Sending { interval }, minimum, ClientAction::SendSample),
        ClientEvent::Failed => (ClientState::Disconnected, current, ClientAction::WaitBackoff(current as u64)),
        ClientEvent::SampleSent => match s {
            ClientState::Sending { interval } => (ClientState::Streaming { interval }, current, ClientAction::WaitTick(interval)),
            _ => (s, current, ClientAction::Stop),
        },
        ClientEvent::TickElapsed => match s {
            ClientState::Streaming { interval } => (ClientState::Sending { interval }, current, ClientAction::SendSample),
            _ => (s, current, ClientAction::Stop),
        },
    }
}

/// However many failures came before, opening a session puts the backoff
/// back at its minimum and starts streaming at once; the failures that follow
/// then back off along `min(minimum * 2^n, maximum)` again.
pub proof fn lemma_success_resets_backoff(
    s: ClientState,
    interval: u64,
    minimum: nat,
    current: nat,
    maximum: nat,
    failures: nat,
)
    requires
        minimum <= maximum,
        client_accepts(s, ClientEvent::SessionOpened { interval }),
    ensures
        client_step(s, ClientEvent::SessionOpened { interval }, minimum, current, maximum)
            == (ClientState::Sending { interval }, minimum, ClientAction::SendSample),
        backoff_steps(minimum, maximum, failures) == backoff_interval(minimum, maximum, failures),
{
    lemma_backoff_closed_form(minimum, maximum, failures);
}

/// Samples never overlap: a send is asked for only on entering `Sending`,
/// and in `Sending` no tick is taken until the send has been reported, so at
/// most one sample is in flight and a slow send delays the next tick.
pub proof fn lemma_one_sample_in_flight(s: ClientState, e: ClientEvent, minimum: nat, current: nat, maximum: nat)
    requires
        client_accepts(s, e),
    ensures
        client_step(s, e, minimum, current, maximum).2 == ClientAction::SendSample
            ==> client_step(s, e, minimum, current, maximum).0 is Sending,
        s is Sending ==> !client_accepts(s, ClientEvent::TickElapsed),
        s is Sending ==> !client_accepts(s, ClientEvent::SessionOpened { interval: 0 }),
{
}

/// The agent's decisions: when to authenticate, stream, back off or stop.
pub struct SessionClient {
    state: ClientState,
    timer: ReconnectTimer,
}

impl SessionClient {
    pub closed spec fn state(&self) -> ClientState {
        self.state
    }

    pub closed spec fn timer(&self) -> ReconnectTimer {
        self.timer
    }

    pub open spec fn wf(&self) -> bool {
        self.timer().wf()
    }

    /// A client about to open its first session; the backoff runs from
    /// `minimal_interval` to `maximal_interval` seconds.
    pub fn new(minimal_interval: u64, maximal_interval: u64) -> (r: (SessionClient, ClientAction))
        requires
            minimal_interval <= maximal_interval,
        ensures
            r.0.wf(),
            r.0.state() == ClientState::Authenticating,
            r.0.timer()@.minimum == minimal_interval,
            r.0.timer()@.maximum == maximal_interval,
            r.0.timer()@.current == minimal_interval,
            r.1 == ClientAction::Authenticate,
    {
        (
            SessionClient {
                state: ClientState::Authenticating,
                timer: ReconnectTimer::new(minimal_interval, maximal_interval),
            },
            ClientAction::Authenticate,
        )
    }

    /// The current state.
    pub fn current_state(&self) -> (r: ClientState)
        ensures
            r == self.state(),
    {
        self.state
    }

    /// Whether `e` can be handed to the client now.
    pub fn accepts(&self, e: ClientEvent) -> (r: bool)
        ensures
            r == client_accepts(self.state(), e),
    {
        match (self.state, e) {
            (ClientState::Stopped, _) => false,
            (_, ClientEvent::ShutdownRequested) => true,
            (ClientState::Disconnected, ClientEvent::BackoffElapsed) => true,
            (ClientState::Authenticating, ClientEvent::SessionOpened { .. }) => true,
            (ClientState::Authenticating, ClientEvent::Failed) => true,
            (ClientState::Sending { .. }, ClientEvent::SampleSent) => true,
            (ClientState::Sending { .. }, ClientEvent::Failed) => true,
            (ClientState::Streaming { .. }, ClientEvent::TickElapsed) => true,
            (ClientState::Streaming { .. }, ClientEvent::Failed) => true,
            _ => false,
        }
    }

    /// Hands the client one event and returns what to do next. A failure
    /// leads to a backoff wait at the current interval; the wait doubles it;
    /// an opened session resets it to the minimum.
    pub fn on_event(&mut self, e: ClientEvent) -> (a: ClientAction)
        requires
            old(self).wf(),
            client_accepts(old(self).state(), e),
        ensures
            final(self).wf(),
            final(self).timer()@.minimum == old(self).timer()@.minimum,
            final(self).timer()@.maximum == old(self).timer()@.maximum,
            (final(self).state(), final(self).timer()@.current, a) == client_step(
                old(self).state(),
                e,
                old(self).timer()@.minimum,
                old(self).timer()@.current,
                old(self).timer()@.maximum,
            ),
    {
        match e {
            ClientEvent::ShutdownRequested => {
                self.state = ClientState::Stopped;
                ClientAction::Stop
            },
            ClientEvent::BackoffElapsed => {
                self.timer.advance();
                self.state = ClientState::Authenticating;
                ClientAction::Authenticate
            },
            ClientEvent::SessionOpened { interval } => {
                self.timer.reset();
                self.state = ClientState::Sending { interval };
                ClientAction::SendSample
            },
            ClientEvent::Failed => {
                self.state = ClientState::Disconnected;
                ClientAction::WaitBackoff(self.timer.interval())
            },
            ClientEvent::SampleSent => match self.state {
                ClientState::Sending { interval } => {
                    self.state = ClientState::Streaming { interval };
                    ClientAction::WaitTick(interval)
                },
                _ => ClientAction::Stop,
            },
            ClientEvent::TickElapsed => match self.state {
                ClientState::Streaming { interval } => {
                    self.state = ClientState::Sending { interval };
                    ClientAction::SendSample
                },
                _ => ClientAction::Stop,
            },
        }
    }
}

} // verus!
