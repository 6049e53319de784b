//! Session tokens: fixed-length bearer credentials issued by the collector.
use vstd::prelude::*;
use vstd::string::StringSliceAdditionalSpecFns;

verus! {

/// Number of bytes in a session token.
pub const TOKEN_LENGTH: usize = 32;

/// An ASCII letter or digit.
pub open spec fn is_alphanumeric(b: u8) -> bool {
    (0x30 <= b <= 0x39) || (0x41 <= b <= 0x5a) || (0x61 <= b <= 0x7a)
}

/// A token drawn at random: `TOKEN_LENGTH` letters and digits.
pub open spec fn is_alphanumeric_token(t: Seq<u8>) -> bool {
    t.len() == TOKEN_LENGTH && forall|i: int| 0 <= i < TOKEN_LENGTH ==> is_alphanumeric(#[trigger] t[i])
}

/// Opaque session identifier; equality and hashing go by the raw bytes.
#[derive(Eq, Hash, Clone, Copy, Debug)]
pub struct SessionToken([u8; 32]);

impl View for SessionToken {
    type V = Seq<u8>;

    closed spec fn view(&self) -> Seq<u8> {
        self.0@
    }
}

/// Relies on rand's `Alphanumeric` distribution drawn from the thread-local
/// generator: every byte it yields is one of `A-Z`, `a-z`, `0-9`.
#[verifier::external_body]
fn random_alphanumeric() -> (r: [u8; 32])
    ensures
        forall|i: int| 0 <= i < 32 ==> is_alphanumeric(#[trigger] r@[i]),
{
    let mut bytes = [0u8; 32];
    let draws = rand::Rng::sample_iter(rand::rng(), rand::distr::Alphanumeric);
    for (slot, c) in bytes.iter_mut().zip(draws) {
        *slot = c;
    }
    bytes
}

impl SessionToken {
    /// A fresh token of alphanumeric bytes from a cryptographically secure
    /// generator.
    pub fn random() -> (r: SessionToken)
        ensures
            r@.len() == TOKEN_LENGTH,
            forall|i: int| 0 <= i < TOKEN_LENGTH ==> is_alphanumeric(#[trigger] r@[i]),
    {
        SessionToken(random_alphanumeric())
    }

    /// The token whose bytes are those of `s`; fails unless `s` is exactly
    /// 32 bytes long.
    pub fn parse(s: &str) -> (r: Result<SessionToken, &'static str>)
        ensures
            r is Ok <==> s.spec_bytes().len() == TOKEN_LENGTH,
            r matches Ok(t) ==> t@ == s.spec_bytes(),
            r matches Err(e) ==> e@ == "SessionToken must be 32 bytes long"@,
    {
        let bytes = s.as_bytes();
        if bytes.len() != TOKEN_LENGTH {
            return Err("SessionToken must be 32 bytes long");
        }
        let mut token_bytes = [0u8; 32];
        let mut i: usize = 0;
        while i < TOKEN_LENGTH
            invariant
                bytes@.len() == TOKEN_LENGTH,
                bytes@ == s.spec_bytes(),
                0 <= i <= TOKEN_LENGTH,
                token_bytes@.len() == TOKEN_LENGTH,
                forall|j: int| 0 <= j < i ==> token_bytes@[j] == bytes@[j],
            decreases TOKEN_LENGTH - i,
        {
            token_bytes[i] = bytes[i];
            i += 1;
        }
        let t = SessionToken(token_bytes);
        assert(t@ =~= s.spec_bytes());
        Ok(t)
    }

    /// The token made of these bytes.
    pub fn from_array(bytes: [u8; 32]) -> (r: SessionToken)
        ensures
            r@ == bytes@,
    {
        SessionToken(bytes)
    }

    /// The raw bytes of the token.
    pub fn as_bytes(&self) -> (r: &[u8])
        ensures
            r@ == self@,
    {
        self.0.as_slice()
    }

    /// Value of an `Authorization` header that presents this token:
    /// `Bearer ` followed by the token bytes.
    pub fn bearer_header(&self) -> (r: Vec<u8>)
        ensures
            r@ == bearer_prefix() + self@,
    {
        let mut r: Vec<u8> = vec![0x42u8, 0x65, 0x61, 0x72, 0x65, 0x72, 0x20];
        let mut i: usize = 0;
        while i < TOKEN_LENGTH
            invariant
                self@.len() == TOKEN_LENGTH,
                0 <= i <= TOKEN_LENGTH,
                r@ == bearer_prefix() + self@.subrange(0, i as int),
            decreases TOKEN_LENGTH - i,
        {
            r.push(self.0[i]);
            assert(self@.subrange(0, i + 1) =~= self@.subrange(0, i as int).push(self@[i as int]));
            i += 1;
        }
        assert(self@.subrange(0, TOKEN_LENGTH as int) =~= self@);
        r
    }
}

/// The bytes of `Bearer ` (with its trailing space).
pub open spec fn bearer_prefix() -> Seq<u8> {
    seq![0x42u8, 0x65, 0x61, 0x72, 0x65, 0x72, 0x20]
}

/// The token whose first eight bytes are those of `k`, least significant
/// first, and whose other bytes are `0`.
pub open spec fn counter_token(k: u64) -> Seq<u8> {
    Seq::new(32, |j: int| counter_byte(k, j))
}

/// Byte `j` of `counter_token(k)`.
pub open spec fn counter_byte(k: u64, j: int) -> u8 {
    if j == 0 {
        (k & 0xff) as u8
    } else if j == 1 {
        ((k >> 8u64) & 0xff) as u8
    } else if j == 2 {
        ((k >> 16u64) & 0xff) as u8
    } else if j == 3 {
        ((k >> 24u64) & 0xff) as u8
    } else if j == 4 {
        ((k >> 32u64) & 0xff) as u8
    } else if j == 5 {
        ((k >> 40u64) & 0xff) as u8
    } else if j == 6 {
        ((k >> 48u64) & 0xff) as u8
    } else if j == 7 {
        ((k >> 56u64) & 0xff) as u8
    } else {
        0x30u8
    }
}

/// Distinct counters give distinct tokens.
pub proof fn lemma_counter_token_injective(a: u64, b: u64)
    requires
        counter_token(a) == counter_token(b),
    ensures
        a == b,
{
    let ta = counter_token(a);
    let tb = counter_token(b);
    assert forall|i: int| 0 <= i < 8 implies counter_byte(a, i) == counter_byte(b, i) by {
        assert(ta[i] == counter_byte(a, i));
        assert(tb[i] == counter_byte(b, i));
    }
    assert(counter_byte(a, 0) == counter_byte(b, 0));
    assert(counter_byte(a, 1) == counter_byte(b, 1));
    assert(counter_byte(a, 2) == counter_byte(b, 2));
    assert(counter_byte(a, 3) == counter_byte(b, 3));
    assert(counter_byte(a, 4) == counter_byte(b, 4));
    assert(counter_byte(a, 5) == counter_byte(b, 5));
    assert(counter_byte(a, 6) == counter_byte(b, 6));
    assert(counter_byte(a, 7) == counter_byte(b, 7));
    assert((a & 0xff) as u8 == (b & 0xff) as u8);
    assert(((a >> 8u64) & 0xff) as u8 == ((b >> 8u64) & 0xff) as u8);
    assert(((a >> 16u64) & 0xff) as u8 == ((b >> 16u64) & 0xff) as u8);
    assert(((a >> 24u64) & 0xff) as u8 == ((b >> 24u64) & 0xff) as u8);
    assert(((a >> 32u64) & 0xff) as u8 == ((b >> 32u64) & 0xff) as u8);
    assert(((a >> 40u64) & 0xff) as u8 == ((b >> 40u64) & 0xff) as u8);
    assert(((a >> 48u64) & 0xff) as u8 == ((b >> 48u64) & 0xff) as u8);
    assert(((a >> 56u64) & 0xff) as u8 == ((b >> 56u64) & 0xff) as u8);
    assert(a == b) by (bit_vector)
        requires
            (a & 0xff) as u8 == (b & 0xff) as u8,
            ((a >> 8u64) & 0xff) as u8 == ((b >> 8u64) & 0xff) as u8,
            ((a >> 16u64) & 0xff) as u8 == ((b >> 16u64) & 0xff) as u8,
            ((a >> 24u64) & 0xff) as u8 == ((b >> 24u64) & 0xff) as u8,
            ((a >> 32u64) & 0xff) as u8 == ((b >> 32u64) & 0xff) as u8,
            ((a >> 40u64) & 0xff) as u8 == ((b >> 40u64) & 0xff) as u8,
            ((a >> 48u64) & 0xff) as u8 == ((b >> 48u64) & 0xff) as u8,
            ((a >> 56u64) & 0xff) as u8 == ((b >> 56u64) & 0xff) as u8,
    ;
}

impl SessionToken {
    /// The token of `counter_token(k)`.
    pub(crate) fn from_counter(k: u64) -> (r: SessionToken)
        ensures
            r@ == counter_token(k),
            r@.len() == TOKEN_LENGTH,
    {
        let mut bytes = [0x30u8; 32];
        bytes[0] = (k & 0xff) as u8;
        bytes[1] = ((k >> 8u64) & 0xff) as u8;
        bytes[2] = ((k >> 16u64) & 0xff) as u8;
        bytes[3] = ((k >> 24u64) & 0xff) as u8;
        bytes[4] = ((k >> 32u64) & 0xff) as u8;
        bytes[5] = ((k >> 40u64) & 0xff) as u8;
        bytes[6] = ((k >> 48u64) & 0xff) as u8;
        bytes[7] = ((k >> 56u64) & 0xff) as u8;
        let t = SessionToken(bytes);
        assert(t@ =~= counter_token(k));
        t
    }
}

/// Byte-wise comparison of two tokens.
pub(crate) fn same_token(a: &SessionToken, b: &SessionToken) -> (r: bool)
    ensures
        r == (a@ == b@),
{
    let mut i: usize = 0;
    while i < TOKEN_LENGTH
        invariant
            a@.len() == TOKEN_LENGTH,
            b@.len() == TOKEN_LENGTH,
            0 <= i <= TOKEN_LENGTH,
            forall|j: int| 0 <= j < i ==> a@[j] == b@[j],
        decreases TOKEN_LENGTH - i,
    {
        if a.0[i] != b.0[i] {
            return false;
        }
        i += 1;
    }
    assert(a@ =~= b@);
    true
}

impl PartialEq for SessionToken {
    fn eq(&self, other: &SessionToken) -> (r: bool) {
        same_token(self, other)
    }
}

impl vstd::std_specs::cmp::PartialEqSpecImpl for SessionToken {
    open spec fn obeys_eq_spec() -> bool {
        true
    }

    open spec fn eq_spec(&self, other: &SessionToken) -> bool {
        self@ == other@
    }
}

impl std::str::FromStr for SessionToken {
    type Err = &'static str;

    fn from_str(s: &str) -> Result<SessionToken, &'static str> {
        SessionToken::parse(s)
    }
}

} // verus!
