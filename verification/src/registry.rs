//! Enrollment tokens and agent registration: issuing tokens, admitting
//! them, and recording the agents that enroll with them.

use vstd::prelude::*;
use vstd::string::StrSliceExecFns;

use crate::codec::{
    base64_standard, base64_standard_encode, base64_url, base64_url_decode, base64_url_decoded,
    base64_url_encode, ed25519_public_key, ed25519_verifying_key, hex_encode, hex_lower,
    is_safe_id_char, random_secret_key, safe_nanoid, sha256, sha256_digest, utc_now, CLOCK_SECONDS_BOUND, unpadded_base64_len, is_base64_url_char,
};
use crate::config::ProfileId;

verus! {

/// The error type of the token store, carried through unread.
#[verifier::external_type_specification]
#[verifier::external_body]
pub struct ExSqliteError(rusqlite::Error);

/// An enrollment token as issued: the secret `token` is handed to the
/// operator, and `uses` counts the enrollments it has admitted.
#[derive(Debug, PartialEq, Eq)]
pub struct EnrollmentToken {
    pub id: String,
    pub token: String,
    pub profile_id: ProfileId,
    pub expires_at: i64,
    pub created_at: i64,
    pub max_uses: i64,
    pub uses: i64,
    pub revoked: bool,
}

/// A registered agent, known by the identifier its collector chose. It was
/// registered `registered_at` seconds and `registered_at_nanos` nanoseconds
/// after the epoch.
#[derive(Debug, PartialEq, Eq)]
pub struct Agent {
    pub id: String,
    pub profile_id: ProfileId,
    pub public_key: Vec<u8>,
    pub registered_at: i64,
    pub registered_at_nanos: u32,
    pub revoked: bool,
}

/// The columns stored for an enrollment token. The token itself is never
/// stored, only its SHA-256 digest.
#[derive(Debug, PartialEq, Eq)]
pub struct TokenRow {
    pub id_bytes: Vec<u8>,
    pub token_hash: Vec<u8>,
    pub profile_id: ProfileId,
    pub created_at: i64,
    pub expires_at: i64,
    pub max_uses: i64,
    pub uses: i64,
    pub revoked: i64,
}

/// The stored state of a token, as looked up by its digest.
#[derive(Debug, PartialEq, Eq)]
pub struct TokenRecord {
    pub profile_id: ProfileId,
    pub expires_at: i64,
    pub revoked: i64,
    pub uses: i64,
    pub max_uses: Option<i64>,
}

/// Why an enrollment token was refused.
#[derive(Debug)]
pub enum TokenError {
    NotFound,
    Expired,
    Revoked,
    UsageExceeded,
    Database(rusqlite::Error),
}

/// Why a public key could not be read.
#[derive(Debug)]
pub enum PublicKeyError {
    /// The text is not unpadded URL-safe Base64.
    InvalidBase64(base64::DecodeError),
}

/// The digest under which a token is stored and looked up.
pub open spec fn stored_digest(token: Seq<char>) -> Seq<u8> {
    sha256(vstd::utf8::encode_utf8(token))
}

/// Whether a stored token admits an enrollment at instant `now`: it has not
/// expired, is not revoked, and has uses left.
pub open spec fn admits(rec: TokenRecord, now: i64) -> bool {
    &&& rec.expires_at >= now
    &&& rec.revoked == 0
    &&& rec.max_uses matches Some(m) ==> rec.uses < m
}

/// What a lookup of a stored token answers at instant `now`: the first
/// refusal that applies, in the order expiry, revocation, usage; or the
/// token's profile.
pub open spec fn token_result(rec: TokenRecord, now: i64) -> Result<Seq<char>, TokenError> {
    if rec.expires_at < now {
        Err(TokenError::Expired)
    } else if rec.revoked != 0 {
        Err(TokenError::Revoked)
    } else if rec.max_uses matches Some(m) && rec.uses >= m {
        Err(TokenError::UsageExceeded)
    } else {
        Ok(rec.profile_id@)
    }
}

/// Whether `r` is the answer to a token lookup at instant `now`: `NotFound`
/// when nothing is stored, else `token_result`.
pub open spec fn token_answer(record: Option<TokenRecord>, now: i64, r: Result<ProfileId, TokenError>) -> bool {
    match record {
        None => r matches Err(TokenError::NotFound),
        Some(rec) => match token_result(rec, now) {
            Ok(p) => (r matches Ok(q) && q@ == p),
            Err(e) => r == Err::<ProfileId, TokenError>(e),
        },
    }
}

/// The stored record after a lookup at instant `now`: an admitted token has
/// one more use counted (a count already at `i64::MAX` stays there), a
/// refused one is left as it was.
pub open spec fn after_lookup(rec: TokenRecord, now: i64) -> TokenRecord {
    if admits(rec, now) {
        TokenRecord {
            profile_id: rec.profile_id,
            expires_at: rec.expires_at,
            revoked: rec.revoked,
            uses: if rec.uses < i64::MAX {
                (rec.uses + 1) as i64
            } else {
                rec.uses
            },
            max_uses: rec.max_uses,
        }
    } else {
        rec
    }
}

/// The stored state after a lookup at instant `now`.
pub open spec fn next_record(record: Option<TokenRecord>, now: i64) -> Option<TokenRecord> {
    match record {
        Some(rec) => Some(after_lookup(rec, now)),
        None => None,
    }
}

/// Whether `t` is a token just issued for `profile_id`, expiring at
/// `expiration` and allowed `max_uses` uses.
pub open spec fn freshly_issued(t: EnrollmentToken, profile_id: Seq<char>, expiration: i64, max_uses: i64) -> bool {
    &&& t.profile_id@ == profile_id
    &&& t.expires_at == expiration
    &&& t.max_uses == max_uses
    &&& t.uses == 0
    &&& !t.revoked
    &&& t.token@.len() == 32
    &&& forall|i: int| 0 <= i < 32 ==> is_safe_id_char(#[trigger] t.token@[i])
    &&& t.id@.len() == 16
    &&& forall|i: int| 0 <= i < 16 ==> is_safe_id_char(#[trigger] t.id@[i])
}

/// Whether `row` is the row stored for token `t`.
pub open spec fn row_of(row: TokenRow, t: EnrollmentToken) -> bool {
    &&& row.id_bytes@ == vstd::utf8::encode_utf8(t.id@)
    &&& row.token_hash@ == stored_digest(t.token@)
    &&& row.profile_id@ == t.profile_id@
    &&& row.created_at == t.created_at
    &&& row.expires_at == t.expires_at
    &&& row.max_uses == t.max_uses
    &&& row.uses == t.uses
    &&& row.revoked == (if t.revoked { 1i64 } else { 0i64 })
}

/// What a lookup by digest reads back from a stored row.
pub open spec fn stored_record(row: TokenRow) -> TokenRecord {
    TokenRecord {
        profile_id: row.profile_id,
        expires_at: row.expires_at,
        revoked: row.revoked,
        uses: row.uses,
        max_uses: Some(row.max_uses),
    }
}

/// The digest of a token, under which it is stored.
pub fn token_hash(token: &str) -> (r: Vec<u8>)
    ensures
        r@ == stored_digest(token@),
        r@.len() == 32,
{
    sha256_digest(token.as_bytes())
}

/// Issues a token for a profile at instant `created_at` (seconds since the
/// epoch): a fresh 32-character secret and a 16-character identifier, both
/// over nanoid's URL-safe alphabet, not yet used.
pub fn enrollment_token_at(profile_id: ProfileId, expiration: i64, max_uses: i64, created_at: i64) -> (r:
    EnrollmentToken)
    ensures
        freshly_issued(r, profile_id@, expiration, max_uses),
        r.created_at == created_at,
{
    let token = safe_nanoid(32);
    let id = safe_nanoid(16);
    EnrollmentToken {
        id,
        token,
        profile_id,
        expires_at: expiration,
        created_at,
        max_uses,
        uses: 0,
        revoked: false,
    }
}

/// Issues a token for a profile, stamped with the current time.
pub fn create_enrollment_token(profile_id: ProfileId, expiration: i64, max_uses: i64) -> (r:
    EnrollmentToken)
    ensures
        freshly_issued(r, profile_id@, expiration, max_uses),
        0 <= r.created_at <= CLOCK_SECONDS_BOUND,
{
    let created_at = utc_now().0;
    enrollment_token_at(profile_id, expiration, max_uses, created_at)
}

/// The row stored for an issued token.
pub fn enrollment_token_row(t: &EnrollmentToken) -> (r: TokenRow)
    ensures
        row_of(r, *t),
{
    TokenRow {
        id_bytes: t.id.as_str().as_bytes_vec(),
        token_hash: token_hash(t.token.as_str()),
        profile_id: t.profile_id.clone(),
        created_at: t.created_at,
        expires_at: t.expires_at,
        max_uses: t.max_uses,
        uses: t.uses,
        revoked: if t.revoked { 1 } else { 0 },
    }
}

/// Judges a token lookup at instant `now`.
pub fn check_token(record: Option<TokenRecord>, now: i64) -> (r: Result<ProfileId, TokenError>)
    ensures
        token_answer(record, now, r),
{
    match record {
        None => Err(TokenError::NotFound),
        Some(rec) => {
            if rec.expires_at < now {
                return Err(TokenError::Expired);
            }
            if rec.revoked != 0 {
                return Err(TokenError::Revoked);
            }
            if let Some(max_uses) = rec.max_uses {
                if rec.uses >= max_uses {
                    return Err(TokenError::UsageExceeded);
                }
            }
            Ok(rec.profile_id)
        },
    }
}

/// Judges a token lookup at instant `now` and gives the record as the store
/// keeps it afterwards: one more use counted when the token is admitted.
pub fn redeem_step(record: Option<TokenRecord>, now: i64) -> (r: (Result<ProfileId, TokenError>, Option<TokenRecord>))
    ensures
        token_answer(record, now, r.0),
        r.1 == next_record(record, now),
{
    match record {
        None => (Err(TokenError::NotFound), None),
        Some(rec) => {
            let copy = TokenRecord {
                profile_id: rec.profile_id.clone(),
                expires_at: rec.expires_at,
                revoked: rec.revoked,
                uses: rec.uses,
                max_uses: rec.max_uses,
            };
            let answer = check_token(Some(copy), now);
            let admitted = answer.is_ok();
            let uses = if admitted && rec.uses < i64::MAX {
                rec.uses + 1
            } else {
                rec.uses
            };
            let next = TokenRecord {
                profile_id: rec.profile_id,
                expires_at: rec.expires_at,
                revoked: rec.revoked,
                uses,
                max_uses: rec.max_uses,
            };
            (answer, Some(next))
        },
    }
}

/// Judges a token lookup against the current time, in seconds since the
/// epoch (never before the epoch), and gives the record as the store keeps
/// it afterwards.
pub fn redeem_token(record: Option<TokenRecord>) -> (r: (Result<ProfileId, TokenError>, Option<TokenRecord>))
    ensures
        exists|now: i64|
            0 <= now <= CLOCK_SECONDS_BOUND && token_answer(record, now, r.0) && r.1 == next_record(
                record,
                now,
            ),
{
    let now = utc_now().0;
    redeem_step(record, now)
}

/// What token validation reports: whether the token was admitted, and the
/// profile it enrolls into (empty when refused).
pub fn token_check_outcome(result: Result<ProfileId, TokenError>) -> (r: (bool, ProfileId))
    ensures
        match result {
            Ok(p) => r.0 && r.1@ == p@,
            Err(_) => !r.0 && r.1@ == Seq::<char>::empty(),
        },
{
    match result {
        Ok(profile_id) => (true, profile_id),
        Err(_) => (false, String::new()),
    }
}

/// The digests of stored tokens, as lower-case hexadecimal.
pub fn hex_token_hashes(hashes: &Vec<Vec<u8>>) -> (r: Vec<String>)
    ensures
        r@.len() == hashes@.len(),
        forall|i: int| 0 <= i < hashes@.len() ==> #[trigger] r@[i]@ == hex_lower(hashes@[i]@),
{
    let mut r: Vec<String> = Vec::new();
    let mut i: usize = 0;
    while i < hashes.len()
        invariant
            i <= hashes@.len(),
            r@.len() == i,
            forall|k: int| 0 <= k < i ==> #[trigger] r@[k]@ == hex_lower(hashes@[k]@),
        decreases hashes@.len() - i,
    {
        r.push(hex_encode(hashes[i].as_slice()));
        i = i + 1;
    }
    r
}

/// Writes a public key as padded standard Base64.
pub fn encode_public_key(public_key: &[u8]) -> (r: String)
    ensures
        r@ == base64_standard(public_key@),
{
    base64_standard_encode(public_key)
}

/// Reads a public key written as URL-safe Base64 (padding optional).
pub fn decode_public_key(public_key: &str) -> (r: Result<Vec<u8>, PublicKeyError>)
    ensures
        r is Ok <==> base64_url_decoded(public_key@) is Some,
        r matches Ok(bytes) ==> base64_url_decoded(public_key@) == Some(bytes@),
{
    match base64_url_decode(public_key) {
        Ok(bytes) => Ok(bytes),
        Err(e) => Err(PublicKeyError::InvalidBase64(e)),
    }
}

/// The agent record for an enrollment registered at `registered_at` seconds
/// and `registered_at_nanos` nanoseconds after the epoch: the agent is known
/// by the identifier its collector sent, holds the decoded public key, and
/// starts unrevoked. Fails exactly when the key is not Base64.
pub fn agent_at(public_key: &str, agent_id: &str, profile: &str, registered_at: i64, registered_at_nanos: u32) -> (r: Result<Agent, PublicKeyError>)
    ensures
        r is Ok <==> base64_url_decoded(public_key@) is Some,
        r matches Ok(agent) ==> {
            &&& agent.id@ == agent_id@
            &&& agent.profile_id@ == profile@
            &&& base64_url_decoded(public_key@) == Some(agent.public_key@)
            &&& !agent.revoked
            &&& agent.registered_at == registered_at
            &&& agent.registered_at_nanos == registered_at_nanos
        },
{
    let key = match decode_public_key(public_key) {
        Ok(k) => k,
        Err(e) => return Err(e),
    };
    Ok(
        Agent {
            id: String::from_str(agent_id),
            profile_id: String::from_str(profile),
            public_key: key,
            registered_at,
            registered_at_nanos,
            revoked: false,
        },
    )
}

/// The agent record for an enrollment, stamped with the current time.
pub fn new_agent(public_key: &str, agent_id: &str, profile: &str) -> (r: Result<Agent, PublicKeyError>)
    ensures
        r is Ok <==> base64_url_decoded(public_key@) is Some,
        r matches Ok(agent) ==> {
            &&& agent.id@ == agent_id@
            &&& agent.profile_id@ == profile@
            &&& base64_url_decoded(public_key@) == Some(agent.public_key@)
            &&& !agent.revoked
            &&& 0 <= agent.registered_at <= CLOCK_SECONDS_BOUND
            &&& agent.registered_at_nanos < 1_000_000_000
        },
{
    let (registered_at, registered_at_nanos) = utc_now();
    agent_at(public_key, agent_id, profile, registered_at, registered_at_nanos)
}

/// The public half of an Ed25519 secret key, written as unpadded URL-safe
/// Base64; the server's key reader turns it back into the 32 key bytes.
pub fn encode_verifying_key(secret: &[u8; 32]) -> (r: String)
    ensures
        r@ == base64_url(ed25519_public_key(secret@)),
        base64_url_decoded(r@) == Some(ed25519_public_key(secret@)),
        ed25519_public_key(secret@).len() == 32,
        r@.len() == 43,
        forall|i: int| 0 <= i < r@.len() ==> is_base64_url_char(#[trigger] r@[i]),
{
    let public_key = ed25519_verifying_key(secret);
    base64_url_encode(public_key.as_slice())
}

/// Generates the collector's Ed25519 key pair from operating-system
/// randomness and returns the public key as unpadded URL-safe Base64.
pub fn generate_key_pair(agent_id: &str) -> (r: String)
    ensures
        exists|secret: Seq<u8>|
            #![trigger ed25519_public_key(secret)]
            secret.len() == 32 && r@ == base64_url(ed25519_public_key(secret))
                && base64_url_decoded(r@) == Some(ed25519_public_key(secret))
                && ed25519_public_key(secret).len() == 32,
        r@.len() == 43,
        forall|i: int| 0 <= i < r@.len() ==> is_base64_url_char(#[trigger] r@[i]),
{
    let secret = random_secret_key();
    let r = encode_verifying_key(&secret);
    assert(secret@.len() == 32);
    r
}

// ---------------------------------------------------------------------------
// Laws of token admission
// ---------------------------------------------------------------------------

/// A token is admitted exactly when `admits` holds, and then yields its
/// profile.
pub proof fn lemma_answer_ok_iff_admits(record: TokenRecord, now: i64, r: Result<ProfileId, TokenError>)
    requires
        token_answer(Some(record), now, r),
    ensures
        r is Ok <==> admits(record, now),
{
}

/// A token admitted at some instant is admitted at every earlier instant.
pub proof fn lemma_admission_earlier(record: TokenRecord, now: i64, earlier: i64)
    requires
        admits(record, now),
        earlier <= now,
    ensures
        admits(record, earlier),
{
}

/// A token with a use limit admits no enrollment once its count of uses has
/// reached the limit, whatever the time.
pub proof fn lemma_usage_cap(record: TokenRecord, now: i64)
    requires
        record.max_uses matches Some(m) && record.uses >= m,
    ensures
        !admits(record, now),
{
}

/// A freshly issued token (unused, unrevoked, with at least one use allowed)
/// is admitted until it expires.
pub proof fn lemma_fresh_token_admitted(record: TokenRecord, now: i64)
    requires
        record.uses == 0,
        record.revoked == 0,
        record.max_uses matches Some(m) ==> m > 0,
        now <= record.expires_at,
    ensures
        admits(record, now),
{
}

/// The record before the `k`-th of a series of lookups at the given
/// instants, each lookup leaving the record as `after_lookup` says.
pub open spec fn record_before(rec: TokenRecord, instants: Seq<i64>, k: nat) -> TokenRecord
    decreases k,
{
    if k == 0 {
        rec
    } else {
        after_lookup(record_before(rec, instants, (k - 1) as nat), instants[k - 1])
    }
}

proof fn lemma_record_before(rec: TokenRecord, instants: Seq<i64>, m: i64, k: nat)
    requires
        rec.revoked == 0,
        rec.max_uses == Some(m),
        k <= instants.len(),
        forall|j: int| 0 <= j < instants.len() ==> #[trigger] instants[j] <= rec.expires_at,
    ensures
        record_before(rec, instants, k).profile_id == rec.profile_id,
        record_before(rec, instants, k).expires_at == rec.expires_at,
        record_before(rec, instants, k).revoked == 0,
        record_before(rec, instants, k).max_uses == Some(m),
        record_before(rec, instants, k).uses == (if rec.uses >= m {
            rec.uses as int
        } else if rec.uses + k <= m {
            rec.uses + k
        } else {
            m as int
        }),
    decreases k,
{
    if k > 0 {
        lemma_record_before(rec, instants, m, (k - 1) as nat);
        assert(instants[k - 1] <= rec.expires_at);
    }
}

/// A token limited to `m` uses that has been used `u` times, looked up at a
/// series of instants before it expires and while it is not revoked: the
/// first `m - u` lookups (all of them if fewer) are admitted, every later one
/// is refused for usage, and the count of uses never passes `max(u, m)`.
pub proof fn lemma_usage_cap_over_lookups(rec: TokenRecord, instants: Seq<i64>, m: i64)
    requires
        rec.revoked == 0,
        rec.max_uses == Some(m),
        forall|j: int| 0 <= j < instants.len() ==> #[trigger] instants[j] <= rec.expires_at,
    ensures
        forall|k: nat|
            k < instants.len() ==> (#[trigger] token_result(record_before(rec, instants, k), instants[k as int])
                == if k < m - rec.uses {
                Ok::<Seq<char>, TokenError>(rec.profile_id@)
            } else {
                Err::<Seq<char>, TokenError>(TokenError::UsageExceeded)
            }),
        forall|k: nat|
            k <= instants.len() ==> #[trigger] record_before(rec, instants, k).uses <= (if rec.uses
                >= m {
                rec.uses
            } else {
                m
            }),
{
    assert forall|k: nat| k < instants.len() implies #[trigger] token_result(
        record_before(rec, instants, k),
        instants[k as int],
    ) == if k < m - rec.uses {
        Ok::<Seq<char>, TokenError>(rec.profile_id@)
    } else {
        Err::<Seq<char>, TokenError>(TokenError::UsageExceeded)
    } by {
        lemma_record_before(rec, instants, m, k);
        assert(instants[k as int] <= rec.expires_at);
    }
    assert forall|k: nat| k <= instants.len() implies #[trigger] record_before(
        rec,
        instants,
        k,
    ).uses <= (if rec.uses >= m {
        rec.uses
    } else {
        m
    }) by {
        lemma_record_before(rec, instants, m, k);
    }
}

/// A token just issued with at least one use allowed, stored and looked up
/// before it expires, admits the lookup into its profile and then counts one
/// use.
pub proof fn lemma_issue_then_redeem(
    t: EnrollmentToken,
    row: TokenRow,
    profile_id: Seq<char>,
    expiration: i64,
    max_uses: i64,
    now: i64,
)
    requires
        freshly_issued(t, profile_id, expiration, max_uses),
        row_of(row, t),
        max_uses >= 1,
        now <= expiration,
    ensures
        token_result(stored_record(row), now) == Ok::<Seq<char>, TokenError>(profile_id),
        after_lookup(stored_record(row), now).uses == 1,
{
}

} // verus!
