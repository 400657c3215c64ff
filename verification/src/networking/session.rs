//! Session identification and lifecycle.
//!
//! A session is named by a human-readable code (`abc-def-234`: three groups
//! of three characters from an alphabet without look-alikes, joined by
//! dashes). Its identifier is derived from the code by hashing, so every peer
//! that knows the code derives the same identifier, the same network
//! protocol name (ALPN) and the same discovery keypair.

use vstd::prelude::*;
use vstd::string::StringSliceAdditionalSpecFns;
use vstd::utf8::encode_utf8;

use crate::networking::vector_clock::VectorClock;
use crate::ids::{be_value, u128_from_be_bytes};
use crate::time::unix_now_secs;
use crate::text::{ascii_string, str_eq};

verus! {

// ---------------------------------------------------------------------------
// Outside calls
// ---------------------------------------------------------------------------

/// The BLAKE3 digest of `data`, as the `blake3` crate computes it.
pub uninterp spec fn blake3_digest(data: Seq<u8>) -> Seq<u8>;

/// Hashes `data` with BLAKE3.
///
/// Calls `blake3::hash` and returns the 32 bytes of the digest. The digest is
/// a function of `data` alone, named `blake3_digest`.
#[verifier::external_body]
fn blake3_hash(data: &[u8]) -> (h: [u8; 32])
    ensures
        h@ == blake3_digest(data@),
{
    *blake3::hash(data).as_bytes()
}

/// A discovery keypair, as the `pkarr` crate holds it.
#[verifier::external_type_specification]
#[verifier::external_body]
pub struct ExKeypair(pkarr::Keypair);

/// The keypair that `pkarr` builds from a 32-byte secret key.
pub uninterp spec fn pkarr_keypair_of(secret: Seq<u8>) -> pkarr::Keypair;

/// Builds a keypair from a 32-byte secret.
///
/// Calls `pkarr::Keypair::from_secret_key`, which derives the ed25519
/// signing key from the secret bytes alone: the same secret gives the same
/// keypair, named `pkarr_keypair_of`.
#[verifier::external_body]
fn keypair_from_secret(secret: &[u8; 32]) -> (k: pkarr::Keypair)
    ensures
        k == pkarr_keypair_of(secret@),
{
    pkarr::Keypair::from_secret_key(secret)
}

/// Draws a random index below `n`.
///
/// Calls `rand::Rng::gen_range` on the thread-local generator; the result
/// is random, so only its range is claimed, as `gen_range` documents it.
#[verifier::external_body]
fn random_below(n: usize) -> (r: usize)
    requires
        n > 0,
    ensures
        r < n,
{
    rand::Rng::gen_range(&mut rand::thread_rng(), 0..n)
}

/// The ASCII lower-case form of a character: `A`-`Z` become `a`-`z`, every
/// other character stays.
pub open spec fn ascii_lower(c: char) -> char {
    if 'A' <= c && c <= 'Z' {
        ((c as u32) + 32) as char
    } else {
        c
    }
}

/// Lower-cases the ASCII letters of `s`.
///
/// Calls `str::to_ascii_lowercase`, which std documents as mapping `A`-`Z`
/// to `a`-`z` and leaving every other character unchanged.
#[verifier::external_body]
fn to_ascii_lowercase(s: &str) -> (r: String)
    ensures
        r@ == s@.map_values(|c: char| ascii_lower(c)),
{
    s.to_ascii_lowercase()
}


// ---------------------------------------------------------------------------
// Session codes
// ---------------------------------------------------------------------------

/// Whether `c` may appear in a (lower-case) session code.
pub open spec fn code_char(c: char) -> bool {
    ||| ('a' <= c && c <= 'h')
    ||| c == 'j'
    ||| c == 'k'
    ||| c == 'm'
    ||| c == 'n'
    ||| ('p' <= c && c <= 'z')
    ||| ('2' <= c && c <= '9')
}

/// Whether `s`, whose UTF-8 form has `byte_len` bytes, is a session code:
/// eleven characters with dashes at the fourth and eighth place and,
/// everywhere else, characters that, lower-cased, may appear in a code.
pub open spec fn valid_code(s: Seq<char>, byte_len: nat) -> bool {
    &&& byte_len == 11
    &&& s.len() == 11
    &&& s[3] == '-'
    &&& s[7] == '-'
    &&& forall|i: int| 0 <= i < 11 && i != 3 && i != 7 ==> code_char(#[trigger] ascii_lower(s[i]))
}

/// The byte of the code alphabet `abcdefghjkmnpqrstuvwxyz23456789` at index
/// `j` (below 31).
pub open spec fn code_byte(j: int) -> u8 {
    if j < 8 {
        (97 + j) as u8
    } else if j < 10 {
        (106 + (j - 8)) as u8
    } else if j < 12 {
        (109 + (j - 10)) as u8
    } else if j < 23 {
        (112 + (j - 12)) as u8
    } else {
        (50 + (j - 23)) as u8
    }
}

/// Whether nine draws each pick a letter of the code alphabet.
pub open spec fn draws_ok(d: Seq<usize>) -> bool {
    d.len() == 9 && forall|i: int| 0 <= i < 9 ==> #[trigger] d[i] < 31
}

/// The code spelled by nine draws from the alphabet: three letters, a dash,
/// three letters, a dash, three letters.
pub open spec fn code_text(d: Seq<usize>) -> Seq<char> {
    seq![
        code_byte(d[0] as int) as char,
        code_byte(d[1] as int) as char,
        code_byte(d[2] as int) as char,
        '-',
        code_byte(d[3] as int) as char,
        code_byte(d[4] as int) as char,
        code_byte(d[5] as int) as char,
        '-',
        code_byte(d[6] as int) as char,
        code_byte(d[7] as int) as char,
        code_byte(d[8] as int) as char,
    ]
}

/// The alphabet's letters may appear in a code and are their own lower-case
/// form.
proof fn lemma_code_byte(j: int)
    requires
        0 <= j < 31,
    ensures
        code_char(code_byte(j) as char),
        ascii_lower(code_byte(j) as char) == code_byte(j) as char,
        code_byte(j) < 128,
        code_byte(j) != 45,
{
}

/// The code of valid draws is a valid lower-case code.
proof fn lemma_code_text_valid(d: Seq<usize>)
    requires
        draws_ok(d),
    ensures
        valid_code(code_text(d), 11),
        forall|i: int| 0 <= i < 11 ==> #[trigger] ascii_lower(code_text(d)[i]) == code_text(d)[i],
{
    let c = code_text(d);
    assert forall|i: int| 0 <= i < 11 implies #[trigger] ascii_lower(c[i]) == c[i] && (i != 3 && i != 7
        ==> code_char(ascii_lower(c[i]))) by {
        if i < 3 {
            lemma_code_byte(d[i] as int);
        } else if 3 < i < 7 {
            lemma_code_byte(d[i - 1] as int);
        } else if i > 7 {
            lemma_code_byte(d[i - 2] as int);
        }
    }
}

/// The byte of the code alphabet at index `j`.
fn code_byte_at(j: usize) -> (b: u8)
    requires
        j < 31,
    ensures
        b == code_byte(j as int),
{
    if j < 8 {
        97 + j as u8
    } else if j < 10 {
        106 + (j - 8) as u8
    } else if j < 12 {
        109 + (j - 10) as u8
    } else if j < 23 {
        112 + (j - 12) as u8
    } else {
        50 + (j - 23) as u8
    }
}

/// The code spelled by nine draws from the code alphabet.
pub fn code_from_draws(draws: &Vec<usize>) -> (s: String)
    requires
        draws_ok(draws@),
    ensures
        s@ == code_text(draws@),
{
    let mut bytes: Vec<u8> = Vec::new();
    let mut i: usize = 0;
    while i < 9
        invariant
            i <= 9,
            draws_ok(draws@),
            bytes@.len() == i + (if i >= 6 { 2int } else if i >= 3 { 1int } else { 0int }),
            forall|k: int| 0 <= k < bytes@.len() ==> #[trigger] bytes@[k] < 128,
            forall|k: int|
                0 <= k < bytes@.len() ==> #[trigger] bytes@[k] as char == code_text(draws@)[k],
        decreases 9 - i,
    {
        proof {
            lemma_code_byte(draws@[i as int] as int);
        }
        bytes.push(code_byte_at(draws[i]));
        if i == 2 || i == 5 {
            bytes.push(45u8);
        }
        i = i + 1;
    }
    let s = ascii_string(bytes);
    assert(s@ =~= code_text(draws@));
    s
}

/// The bytes hashed ahead of a code to derive a session's identifier.
pub open spec fn code_domain() -> Seq<u8> {
    "/app/v1/session-code/".spec_bytes()
}

/// The bytes hashed ahead of an identifier to derive a session's ALPN.
pub open spec fn alpn_domain() -> Seq<u8> {
    "/app/v1/session-id/".spec_bytes()
}

/// The bytes hashed ahead of an identifier to derive a discovery secret.
pub open spec fn pkarr_domain() -> Seq<u8> {
    "/app/v1/session-pkarr-key/".spec_bytes()
}

/// The identifier of the session with (lower-case) code `code`: the first
/// sixteen bytes of the BLAKE3 digest of the code's domain and UTF-8 bytes.
pub open spec fn code_uuid(code: Seq<char>) -> Seq<u8> {
    blake3_digest(code_domain() + encode_utf8(code)).subrange(0, 16)
}

/// A character takes at most four bytes in UTF-8.
proof fn lemma_utf8_len_bound(c: Seq<char>)
    ensures
        encode_utf8(c).len() <= 4 * c.len(),
    decreases c.len(),
{
    if c.len() > 0 {
        lemma_utf8_len_bound(c.drop_first());
    }
}

/// Session identifier: derived from a human-readable code.
#[derive(PartialEq, Eq, Debug)]
pub struct SessionId {
    uuid: [u8; 16],
    code: String,
}

impl Clone for SessionId {
    fn clone(&self) -> (r: Self)
        ensures
            r == *self,
    {
        SessionId { uuid: self.uuid, code: self.code.clone() }
    }
}

/// Errors about sessions.
#[derive(Clone, PartialEq, Eq, Debug)]
pub enum SessionError {
    /// Invalid session code format (expected: abc-def-234).
    InvalidCodeFormat,
    /// Session not found.
    NotFound,
    /// Database error.
    Database(String),
}

impl SessionError {
    /// The error's message.
    pub fn message(&self) -> (s: String)
        ensures
            s@ == (match self {
                SessionError::InvalidCodeFormat => "Invalid session code format (expected: abc-def-123)"@,
                SessionError::NotFound => "Session not found"@,
                SessionError::Database(msg) => "Database error: "@ + msg@,
            }),
    {
        match self {
            SessionError::InvalidCodeFormat => String::from_str(
                "Invalid session code format (expected: abc-def-123)",
            ),
            SessionError::NotFound => String::from_str("Session not found"),
            SessionError::Database(msg) => {
                let mut s = String::from_str("Database error: ");
                s.append(msg.as_str());
                s
            },
        }
    }
}

impl SessionId {
    /// The session's code, lower case.
    pub closed spec fn code_view(&self) -> Seq<char> {
        self.code@
    }

    /// The session's identifier bytes.
    pub closed spec fn uuid_view(&self) -> Seq<u8> {
        self.uuid@
    }

    /// The identifier belongs to the code, and the code is a valid one in
    /// lower case.
    pub closed spec fn wf(&self) -> bool {
        &&& valid_code(self.code@, 11)
        &&& forall|i: int| 0 <= i < 11 ==> #[trigger] ascii_lower(self.code@[i]) == self.code@[i]
        &&& self.uuid@ == code_uuid(self.code@)
    }

    /// The session of a lower-case code already checked.
    fn from_checked_code(code: String) -> (id: Self)
        requires
            valid_code(code@, 11),
            forall|i: int| 0 <= i < 11 ==> #[trigger] ascii_lower(code@[i]) == code@[i],
        ensures
            id.wf(),
            id.code_view() == code@,
    {
        let domain = "/app/v1/session-code/".as_bytes();
        let bytes = code.as_str().as_bytes();
        let mut data: Vec<u8> = Vec::new();
        let mut i: usize = 0;
        while i < domain.len()
            invariant
                i <= domain@.len(),
                data@ == domain@.take(i as int),
            decreases domain@.len() - i,
        {
            data.push(domain[i]);
            assert(data@ =~= domain@.take(i + 1));
            i = i + 1;
        }
        let mut j: usize = 0;
        while j < bytes.len()
            invariant
                j <= bytes@.len(),
                data@ == domain@ + bytes@.take(j as int),
            decreases bytes@.len() - j,
        {
            data.push(bytes[j]);
            assert(data@ =~= domain@ + bytes@.take(j + 1));
            j = j + 1;
        }
        assert(bytes@.take(bytes@.len() as int) =~= bytes@);
        let digest = blake3_hash(data.as_slice());
        let mut uuid = [0u8; 16];
        let mut k: usize = 0;
        while k < 16
            invariant
                k <= 16,
                digest@.len() == 32,
                forall|m: int| 0 <= m < k ==> uuid@[m] == digest@[m],
            decreases 16 - k,
        {
            uuid.set(k, digest[k]);
            k = k + 1;
        }
        assert(uuid@ =~= digest@.subrange(0, 16));
        SessionId { uuid, code }
    }

    /// Parse a session code (format: abc-def-234), case-insensitively.
    ///
    /// The identifier is derived from the lower-case code, so every spelling
    /// of a code gives the same session.
    pub fn from_code(code: &str) -> (r: Result<Self, SessionError>)
        ensures
            r is Ok <==> valid_code(code@, code.spec_bytes().len()),
            r is Err ==> r == Err::<Self, SessionError>(SessionError::InvalidCodeFormat),
            r matches Ok(id) ==> id.wf() && id.code_view() == code@.map_values(
                |c: char| ascii_lower(c),
            ),
    {
        if code.len() != 11 {
            return Err(SessionError::InvalidCodeFormat);
        }
        let n = code.unicode_len();
        if n != 11 {
            return Err(SessionError::InvalidCodeFormat);
        }
        if code.get_char(3) != '-' || code.get_char(7) != '-' {
            return Err(SessionError::InvalidCodeFormat);
        }
        let lower = to_ascii_lowercase(code);
        let ls = lower.as_str();
        let mut i: usize = 0;
        while i < 11
            invariant
                i <= 11,
                ls@ == code@.map_values(|c: char| ascii_lower(c)),
                code@.len() == 11,
                forall|k: int| 0 <= k < i && k != 3 && k != 7 ==> code_char(#[trigger] ascii_lower(code@[k])),
            decreases 11 - i,
        {
            let c = ls.get_char(i);
            let ok = i == 3 || i == 7 || ('a' <= c && c <= 'h') || c == 'j' || c == 'k' || c == 'm'
                || c == 'n' || ('p' <= c && c <= 'z') || ('2' <= c && c <= '9');
            if !ok {
                proof {
                    assert(ls@[i as int] == ascii_lower(code@[i as int]));
                    assert(!code_char(ascii_lower(code@[i as int])));
                }
                return Err(SessionError::InvalidCodeFormat);
            }
            i = i + 1;
        }
        proof {
            lemma_utf8_len_bound(code@);
            assert forall|k: int| 0 <= k < 11 implies #[trigger] ascii_lower(lower@[k]) == lower@[k] by {
                assert(lower@[k] == ascii_lower(code@[k]));
            }
            assert(valid_code(lower@, 11)) by {
                assert forall|k: int| 0 <= k < 11 && k != 3 && k != 7 implies code_char(
                    #[trigger] ascii_lower(lower@[k]),
                ) by {
                    assert(lower@[k] == ascii_lower(code@[k]));
                    assert(ascii_lower(lower@[k]) == lower@[k]);
                }
            }
        }
        Ok(SessionId::from_checked_code(lower))
    }

    /// Create a new session with a random code: nine letters drawn from the
    /// code alphabet, in groups of three joined by dashes.
    pub fn new() -> (id: Self)
        ensures
            id.wf(),
            exists|d: Seq<usize>| draws_ok(d) && id.code_view() == #[trigger] code_text(d),
    {
        let mut draws: Vec<usize> = Vec::new();
        let mut i: usize = 0;
        while i < 9
            invariant
                i <= 9,
                draws@.len() == i,
                forall|k: int| 0 <= k < i ==> #[trigger] draws@[k] < 31,
            decreases 9 - i,
        {
            draws.push(random_below(31));
            i = i + 1;
        }
        let code = code_from_draws(&draws);
        proof {
            lemma_code_text_valid(draws@);
        }
        SessionId::from_checked_code(code)
    }

    /// The human-readable code (abc-def-234 format).
    pub fn to_code(&self) -> (s: &str)
        ensures
            s@ == self.code_view(),
    {
        self.code.as_str()
    }

    /// The code as a string.
    pub fn to_string(&self) -> (s: String)
        ensures
            s@ == self.code_view(),
    {
        self.code.clone()
    }

    /// The ALPN protocol name for the session: the BLAKE3 digest of its
    /// identifier under its own domain prefix.
    pub fn to_alpn(&self) -> (a: [u8; 32])
        ensures
            a@ == blake3_digest(alpn_domain() + self.uuid_view()),
    {
        let domain = "/app/v1/session-id/".as_bytes();
        self.hash_with_domain(domain)
    }

    /// The secret of the session's discovery keypair: the BLAKE3 digest of
    /// its identifier under its own domain prefix.
    fn pkarr_secret(&self) -> (a: [u8; 32])
        ensures
            a@ == blake3_digest(pkarr_domain() + self.uuid_view()),
    {
        let domain = "/app/v1/session-pkarr-key/".as_bytes();
        self.hash_with_domain(domain)
    }

    /// The digest of `domain` followed by the identifier.
    fn hash_with_domain(&self, domain: &[u8]) -> (a: [u8; 32])
        ensures
            a@ == blake3_digest(domain@ + self.uuid_view()),
    {
        let mut data: Vec<u8> = Vec::new();
        let mut i: usize = 0;
        while i < domain.len()
            invariant
                i <= domain@.len(),
                data@ == domain@.take(i as int),
            decreases domain@.len() - i,
        {
            data.push(domain[i]);
            assert(data@ =~= domain@.take(i + 1));
            i = i + 1;
        }
        let mut j: usize = 0;
        while j < 16
            invariant
                j <= 16,
                self.uuid@.len() == 16,
                data@ == domain@ + self.uuid@.take(j as int),
            decreases 16 - j,
        {
            data.push(self.uuid[j]);
            assert(data@ =~= domain@ + self.uuid@.take(j + 1));
            j = j + 1;
        }
        assert(self.uuid@.take(16) =~= self.uuid@);
        blake3_hash(data.as_slice())
    }

    /// The discovery keypair that every peer of the session derives alike:
    /// the one built from the BLAKE3 digest of the session's identifier under
    /// the discovery domain prefix.
    pub fn to_pkarr_keypair(&self) -> (k: pkarr::Keypair)
        ensures
            k == pkarr_keypair_of(blake3_digest(pkarr_domain() + self.uuid_view())),
    {
        let secret = self.pkarr_secret();
        keypair_from_secret(&secret)
    }

    /// The identifier as a 128-bit number (big-endian bytes).
    pub fn as_uuid(&self) -> (u: u128)
        ensures
            u == be_value(self.uuid_view()),
    {
        u128_from_be_bytes(&self.uuid)
    }
}

/// Session lifecycle states.
#[derive(Clone, Copy, PartialEq, Eq, Structural, Debug)]
pub enum SessionState {
    /// Session exists in the database but has not connected yet.
    Created,
    /// Joining the network and syncing state.
    Joining,
    /// Fully synchronized and collaborating.
    Active,
    /// Temporarily offline; will rejoin when the network returns.
    Disconnected,
    /// The user left the session.
    Left,
}

/// The name of a state, as stored and displayed.
pub open spec fn state_name(s: SessionState) -> Seq<char> {
    match s {
        SessionState::Created => "created"@,
        SessionState::Joining => "joining"@,
        SessionState::Active => "active"@,
        SessionState::Disconnected => "disconnected"@,
        SessionState::Left => "left"@,
    }
}

impl SessionState {
    /// Parse a state from its name; `None` for any other string.
    pub fn from_str(s: &str) -> (r: Option<Self>)
        ensures
            r matches Some(st) ==> state_name(st) == s@,
            r is None ==> forall|st: SessionState| state_name(st) != s@,
    {
        if str_eq(s, "created") {
            Some(SessionState::Created)
        } else if str_eq(s, "joining") {
            Some(SessionState::Joining)
        } else if str_eq(s, "active") {
            Some(SessionState::Active)
        } else if str_eq(s, "disconnected") {
            Some(SessionState::Disconnected)
        } else if str_eq(s, "left") {
            Some(SessionState::Left)
        } else {
            None
        }
    }

    /// The state's name.
    pub fn to_string(&self) -> (r: String)
        ensures
            r@ == state_name(*self),
    {
        match self {
            SessionState::Created => String::from_str("created"),
            SessionState::Joining => String::from_str("joining"),
            SessionState::Active => String::from_str("active"),
            SessionState::Disconnected => String::from_str("disconnected"),
            SessionState::Left => String::from_str("left"),
        }
    }
}

/// Session metadata: identity, times, entity count and lifecycle state.
#[derive(Clone, Debug)]
pub struct Session {
    /// Unique session identifier.
    pub id: SessionId,
    /// Optional human-readable name.
    pub name: Option<String>,
    /// When the session was created (Unix timestamp, seconds).
    pub created_at: i64,
    /// When this node was last active in the session (Unix timestamp).
    pub last_active: i64,
    /// Cached count of entities in this session.
    pub entity_count: usize,
    /// Current lifecycle state.
    pub state: SessionState,
    /// Optional encrypted session secret for access control.
    pub secret: Option<Vec<u8>>,
}

impl Session {
    /// A new session created at Unix time `now`.
    pub fn new_at(id: SessionId, now: i64) -> (s: Self)
        ensures
            s.id == id,
            s.name is None,
            s.created_at == now,
            s.last_active == now,
            s.entity_count == 0,
            s.state == SessionState::Created,
            s.secret is None,
    {
        Session {
            id,
            name: None,
            created_at: now,
            last_active: now,
            entity_count: 0,
            state: SessionState::Created,
            secret: None,
        }
    }

    /// Create a new session now.
    pub fn new(id: SessionId) -> (s: Self)
        ensures
            s.id == id,
            s.name is None,
            s.created_at == s.last_active,
            s.entity_count == 0,
            s.state == SessionState::Created,
            s.secret is None,
    {
        Session::new_at(id, unix_now_secs())
    }

    /// Record activity at Unix time `now`.
    pub fn touch_at(&mut self, now: i64)
        ensures
            *final(self) == (Session { last_active: now, ..*old(self) }),
    {
        self.last_active = now;
    }

    /// Record activity now.
    pub fn touch(&mut self)
        ensures
            final(self).id == old(self).id,
            final(self).name == old(self).name,
            final(self).created_at == old(self).created_at,
            final(self).entity_count == old(self).entity_count,
            final(self).state == old(self).state,
            final(self).secret == old(self).secret,
    {
        self.touch_at(unix_now_secs());
    }

    /// Move to a new state, recording activity at Unix time `now`.
    pub fn transition_to_at(&mut self, new_state: SessionState, now: i64)
        ensures
            *final(self) == (Session { state: new_state, last_active: now, ..*old(self) }),
    {
        self.state = new_state;
        self.touch_at(now);
    }

    /// Move to a new state, recording activity now.
    pub fn transition_to(&mut self, new_state: SessionState)
        ensures
            final(self).state == new_state,
            final(self).id == old(self).id,
            final(self).name == old(self).name,
            final(self).created_at == old(self).created_at,
            final(self).entity_count == old(self).entity_count,
            final(self).secret == old(self).secret,
    {
        self.transition_to_at(new_state, unix_now_secs());
    }
}

/// The session a node is in, with the vector clock from when it last joined
/// or left (to ask only for what it missed).
#[derive(Clone, Debug)]
pub struct CurrentSession {
    /// Session metadata.
    pub session: Session,
    /// Vector clock when we last left or joined this session.
    pub last_known_clock: VectorClock,
}

impl CurrentSession {
    /// Create a new current session.
    pub fn new(session: Session, last_known_clock: VectorClock) -> (c: Self)
        ensures
            c.session == session,
            c.last_known_clock == last_known_clock,
    {
        CurrentSession { session, last_known_clock }
    }

    /// Move the session to a new state.
    pub fn transition_to(&mut self, new_state: SessionState)
        ensures
            final(self).session.state == new_state,
            final(self).session.id == old(self).session.id,
            final(self).last_known_clock == old(self).last_known_clock,
    {
        self.session.transition_to(new_state);
    }
}

/// Codes that differ only in the case of their letters name the same
/// session.
pub proof fn lemma_code_case_insensitive(a: Seq<char>, b: Seq<char>)
    requires
        a.map_values(|c: char| ascii_lower(c)) == b.map_values(|c: char| ascii_lower(c)),
    ensures
        code_uuid(a.map_values(|c: char| ascii_lower(c))) == code_uuid(
            b.map_values(|c: char| ascii_lower(c)),
        ),
{
}

/// A session's code parses back to the same session: the code is valid, is
/// its own lower-case form, and names the session's identifier.
pub proof fn lemma_code_roundtrip(id: SessionId)
    requires
        id.wf(),
    ensures
        valid_code(id.code_view(), encode_utf8(id.code_view()).len()),
        id.code_view().map_values(|c: char| ascii_lower(c)) == id.code_view(),
        id.uuid_view() == code_uuid(id.code_view().map_values(|c: char| ascii_lower(c))),
{
    let c = id.code_view();
    assert(vstd::utf8::is_ascii_chars(c)) by {
        assert forall|i: int| 0 <= i < c.len() implies '\0' <= #[trigger] c[i] <= '\u{7f}' by {
            if i != 3 && i != 7 {
                assert(code_char(ascii_lower(c[i])));
                assert(ascii_lower(c[i]) == c[i]);
            }
        }
    }
    vstd::utf8::is_ascii_chars_encode_utf8(c);
    assert(c.map_values(|ch: char| ascii_lower(ch)) =~= c) by {
        assert forall|i: int| 0 <= i < c.len() implies c.map_values(|ch: char| ascii_lower(ch))[i] == c[i] by {
            assert(ascii_lower(c[i]) == c[i]);
        }
    }
}

/// Every peer that knows a session's code derives the same discovery
/// keypair: sessions with the same code have the same identifier, and so the
/// keypair that `to_pkarr_keypair` builds is the same.
pub proof fn lemma_same_code_same_keypair(a: SessionId, b: SessionId)
    requires
        a.wf(),
        b.wf(),
        a.code_view() == b.code_view(),
    ensures
        a.uuid_view() == b.uuid_view(),
        pkarr_keypair_of(blake3_digest(pkarr_domain() + a.uuid_view())) == pkarr_keypair_of(
            blake3_digest(pkarr_domain() + b.uuid_view()),
        ),
{
}

/// Every state's name parses back to that state.
pub proof fn lemma_state_name_roundtrip(s: SessionState, t: SessionState)
    ensures
        state_name(s) == state_name(t) ==> s == t,
{
    reveal_strlit("created");
    reveal_strlit("joining");
    reveal_strlit("active");
    reveal_strlit("disconnected");
    reveal_strlit("left");
    if state_name(s) == state_name(t) && s != t {
        assert(state_name(s).len() != state_name(t).len() || state_name(s)[0] != state_name(t)[0]
            || state_name(s)[1] != state_name(t)[1]);
    }
}

} // verus!
