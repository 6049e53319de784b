//! The collector's session endpoint: a client credential is checked against
//! the stored salted hashes, found through a short index derived from its
//! first bytes, and a session token is issued for it.
use vstd::prelude::*;
use vstd::string::StringSliceAdditionalSpecFns;

use crate::registry::{Session, SessionManager};
use crate::token::{SessionToken, TOKEN_LENGTH};

verus! {

/// Length in bytes of a client credential.
pub const CLIENT_TOKEN_LENGTH: usize = 16;

/// Seconds between two samples, as recommended to agents.
pub const SCRAPE_INTERVAL: u64 = 5;

/// The SHA-256 digest of the given bytes.
pub uninterp spec fn sha256_of(b: Seq<u8>) -> Seq<u8>;

/// Relies on `sha2::Sha256::digest`: the 32-byte SHA-256 digest of the input.
#[verifier::external_body]
fn sha256(b: &[u8]) -> (r: [u8; 32])
    ensures
        r@ == sha256_of(b@),
{
    <sha2::Sha256 as sha2::Digest>::digest(b).into()
}

/// Whether a password hash in PHC string form parses and verifies `password`.
pub uninterp spec fn password_matches(password: Seq<u8>, hash: Seq<char>) -> bool;

/// Relies on `password_auth::verify_password`: `Ok` exactly when the hash
/// parses and the password verifies against it.
#[verifier::external_body]
fn verify_password(password: &[u8], hash: &str) -> (r: bool)
    ensures
        r == password_matches(password@, hash@),
{
    password_auth::verify_password(password, hash).is_ok()
}

/// The index of a credential: the first four bytes of the SHA-256 digest of
/// its first four bytes, read big-endian.
pub open spec fn credential_index(token: Seq<u8>) -> u32 {
    let d = sha256_of(token.subrange(0, 4));
    (d[0] as u32 * 0x1000000 + d[1] as u32 * 0x10000 + d[2] as u32 * 0x100 + d[3] as u32) as u32
}

/// The index under which the hash of a credential is stored; the credential
/// holds at least four bytes.
pub fn index_client_token(token: &str) -> (r: u32)
    requires
        token.spec_bytes().len() >= 4,
    ensures
        r == credential_index(token.spec_bytes()),
{
    let bytes = token.as_bytes();
    let prefix: [u8; 4] = [bytes[0], bytes[1], bytes[2], bytes[3]];
    assert(prefix@ =~= bytes@.subrange(0, 4));
    let d = sha256(prefix.as_slice());
    let (a, b, c, e) = (d[0] as u32, d[1] as u32, d[2] as u32, d[3] as u32);
    assert(a * 0x1000000 + b * 0x10000 + c * 0x100 + e <= u32::MAX) by (nonlinear_arith)
        requires
            a <= 255,
            b <= 255,
            c <= 255,
            e <= 255,
    ;
    a * 0x1000000 + b * 0x10000 + c * 0x100 + e
}

/// A stored client: its identifier and the salted hash of its credential.
pub struct ClientRecord {
    pub id: i64,
    pub token_hash: String,
}

/// Why a session was refused.
#[derive(PartialEq, Eq, Structural, Debug, Clone, Copy)]
pub enum CreateSessionError {
    /// The credential has the wrong length or matches no stored client.
    InvalidToken,
}

/// Checks the length of a credential and gives the index under which its
/// candidates are stored.
pub fn credential_lookup_index(token: &str) -> (r: Result<u32, CreateSessionError>)
    ensures
        token.spec_bytes().len() == CLIENT_TOKEN_LENGTH ==> r == Ok::<u32, CreateSessionError>(credential_index(token.spec_bytes())),
        token.spec_bytes().len() != CLIENT_TOKEN_LENGTH ==> r == Err::<u32, CreateSessionError>(CreateSessionError::InvalidToken),
{
    if token.as_bytes().len() != CLIENT_TOKEN_LENGTH {
        return Err(CreateSessionError::InvalidToken);
    }
    Ok(index_client_token(token))
}

/// Whether none of the first `n` records verifies `token`.
pub open spec fn none_match(token: Seq<u8>, records: Seq<ClientRecord>, n: int) -> bool {
    forall|j: int| 0 <= j < n ==> !password_matches(token, #[trigger] records[j].token_hash@)
}

/// The client whose stored hash verifies the credential, trying the
/// candidates in order and stopping at the first that verifies.
pub fn find_client(token: &str, candidates: &Vec<ClientRecord>) -> (r: Result<i64, CreateSessionError>)
    ensures
        match r {
            Ok(id) => exists|i: int|
                0 <= i < candidates@.len() && candidates@[i].id == id
                && password_matches(token.spec_bytes(), candidates@[i].token_hash@)
                && none_match(token.spec_bytes(), candidates@, i),
            Err(e) => e == CreateSessionError::InvalidToken
                && none_match(token.spec_bytes(), candidates@, candidates@.len() as int),
        },
{
    let mut i: usize = 0;
    while i < candidates.len()
        invariant
            0 <= i <= candidates@.len(),
            none_match(token.spec_bytes(), candidates@, i as int),
        decreases candidates@.len() - i,
    {
        if verify_password(token.as_bytes(), candidates[i].token_hash.as_str()) {
            return Ok(candidates[i].id);
        }
        i += 1;
    }
    Err(CreateSessionError::InvalidToken)
}

/// What the session endpoint answers: the new token and the sample interval.
pub struct CreateSessionResp {
    pub session_token: SessionToken,
    pub scrape_interval: u64,
}

/// Registers a stored session and answers with its fresh token and the
/// recommended sample interval.
pub fn issue_session(manager: &mut SessionManager, session: Session) -> (r: CreateSessionResp)
    requires
        old(manager).wf(),
        old(manager).tokens().len() < u64::MAX,
    ensures
        final(manager).wf(),
        !old(manager).tokens().contains(r.session_token@),
        final(manager).tokens() == old(manager).tokens().push(r.session_token@),
        final(manager).session_id_at(old(manager).tokens().len() as int) == session.id,
        r.session_token@.len() == TOKEN_LENGTH,
        r.scrape_interval == SCRAPE_INTERVAL,
{
    let token = manager.add_session(session);
    CreateSessionResp { session_token: token, scrape_interval: SCRAPE_INTERVAL }
}

} // verus!
