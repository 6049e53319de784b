//! Verified core of a small telemetry agent and collector: session tokens,
//! reconnect backoff, request framing, address racing, session ownership and
//! the per-connection ingestion state machine.

pub mod backoff;
pub mod token;
pub mod racer;
pub mod wire;
pub mod client;
pub mod lock;
pub mod registry;
pub mod auth;
pub mod ingest;
pub mod proto;
pub mod content;

pub use backoff::{BackoffState, ReconnectTimer};
pub use token::{SessionToken, TOKEN_LENGTH};
pub use racer::{order_candidates, RaceAction, RaceEvent, RaceState, Racer, Resolved, STAGGER_DELAY_MS};
pub use wire::{
    assemble_http_request, basic_request_builder, connect_target, parse_http_response, Header,
    HttpRequest, HttpResponse, HttpVersion, UriParts, WireError,
};
pub use client::{
    decimal_bytes, ingress_uri, session_reply, session_request, session_uri, ClientAction,
    ClientEvent, ClientState, SessionClient, SessionError,
};
pub use lock::{OwnershipGuard, SharedOwnable};
pub use registry::{Session, SessionManager, SessionMutexRejection};
pub use auth::{
    credential_lookup_index, find_client, index_client_token, issue_session, ClientRecord,
    CreateSessionError, CreateSessionResp, CLIENT_TOKEN_LENGTH, SCRAPE_INTERVAL,
};
pub use ingest::{
    CloseFrame, IngressAction, IngressController, IngressEvent, IngressState, IngressWsError,
    CLOSE_AWAY, CLOSE_CONFLICT, CLOSE_ERROR, CLOSE_NORMAL, CLOSE_UNSUPPORTED,
};
pub use proto::{
    memory_row, network_counters, to_stored, AdminCommands, ClientCommands, CreateSessionReq,
    MemoryMetrics, NetworkMetrics, Postcard, StaticMetrics, SystemInfo,
};
pub use content::postcard_content_type;
