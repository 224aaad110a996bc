//! Sign-in-with-wallet decisions: issuing single-use nonces, checking a
//! wallet's ed25519 signature over one, issuing session tokens, and reading
//! bearer tokens and expiry timestamps.

use vstd::prelude::*;
use rand::RngCore;
use std::time::SystemTime;
use crate::codec::{base64_decode, base64_decoded, decodable_text, encodable_length, hex_lower, hex_lower_encode, is_lower_hex};
use crate::ed25519::{ed25519_key_accepted, ed25519_strict_accepts, Ed25519PublicKey};
use crate::strkey::{decode_stellar_public_key, strkey_decoding};
use crate::text::{starts_with, string_of, text_less, text_lt};
use crate::timefmt::{format_unix_secs, unix_timestamp_text};
use crate::timeorder::{first_four_digit_year_secs, lemma_timestamps_sort_like_instants, past_four_digit_years_secs};

verus! {

/// How long an issued sign-in nonce stays valid (5 minutes).
pub const NONCE_TTL_SECS: i64 = 300i64;

/// How long a session token stays valid (24 hours).
pub const SESSION_TTL_SECS: i64 = 86400i64;

#[verifier::external_type_specification]
#[verifier::external_body]
pub struct ExSystemTime(std::time::SystemTime);

/// `std::time::SystemTime::now`: the current time of the system clock.
/// Nothing is claimed of the value.
#[verifier::external_body]
fn system_time_now() -> SystemTime {
    SystemTime::now()
}

/// `SystemTime::duration_since(UNIX_EPOCH)` in whole seconds, `None` where
/// the time lies before the epoch. Nothing is claimed of the value.
#[verifier::external_body]
fn whole_secs_since_unix_epoch(t: &SystemTime) -> Option<u64> {
    match t.duration_since(std::time::UNIX_EPOCH) {
        Ok(d) => Some(d.as_secs()),
        Err(_) => None,
    }
}

/// Seconds since the Unix epoch for a clock reading in whole seconds:
/// none for a clock set before the epoch (`None`), the reading itself up
/// to `i64::MAX`, and `i64::MAX` beyond.
pub open spec fn unix_secs_of_reading(reading: Option<u64>) -> Option<i64> {
    match reading {
        Some(s) => Some(if s <= i64::MAX { s as i64 } else { i64::MAX }),
        None => None,
    }
}

/// The Unix time of a clock reading, as `now_unix` reports it.
pub fn unix_secs_from_reading(reading: Option<u64>) -> (secs: Option<i64>)
    ensures
        secs == unix_secs_of_reading(reading),
{
    match reading {
        Some(s) => if s <= 0x7fff_ffff_ffff_ffffu64 {
            Some(s as i64)
        } else {
            Some(0x7fff_ffff_ffff_ffffi64)
        },
        None => None,
    }
}

/// Seconds since the Unix epoch by the system clock, at most `i64::MAX`;
/// `None` for a clock set before the epoch, where there is no such time
/// and the caller must fail. The clock reading itself is whatever the
/// system reports; `unix_secs_from_reading` states how it is turned into
/// the result.
pub fn now_unix() -> (secs: Option<i64>)
    ensures
        secs matches Some(v) ==> v >= 0,
{
    let now = system_time_now();
    let reading = whole_secs_since_unix_epoch(&now);
    unix_secs_from_reading(reading)
}

/// `len` bytes from `rand::thread_rng().fill_bytes`. Only the length is
/// claimed: the bytes are random.
#[verifier::external_body]
fn random_bytes(len: usize) -> (bytes: Vec<u8>)
    ensures
        bytes@.len() == len,
{
    let mut bytes = vec![0u8; len];
    rand::thread_rng().fill_bytes(&mut bytes);
    bytes
}

/// Whether `text` is the lowercase hex of some `len_bytes` bytes.
pub open spec fn is_hex_token(text: Seq<char>, len_bytes: nat) -> bool {
    exists|b: Seq<u8>| b.len() == len_bytes && text == #[trigger] hex_lower(b)
}

/// Lowercase hex text has two digits per byte, all in `0-9a-f`.
pub proof fn lemma_hex_lower_shape(b: Seq<u8>)
    ensures
        hex_lower(b).len() == 2 * b.len(),
        forall|i: int| 0 <= i < hex_lower(b).len() ==> is_lower_hex(#[trigger] hex_lower(b)[i]),
    decreases b.len(),
{
    if b.len() > 0 {
        lemma_hex_lower_shape(b.drop_last());
        let prev = hex_lower(b.drop_last());
        let hi = (b.last() / 16) as nat;
        let lo = (b.last() % 16) as nat;
        assert(hex_lower(b) == prev + seq![crate::codec::hex_digit(hi), crate::codec::hex_digit(lo)]);
        assert forall|i: int| 0 <= i < hex_lower(b).len() implies is_lower_hex(
            #[trigger] hex_lower(b)[i],
        ) by {
            if i < prev.len() {
                assert(hex_lower(b)[i] == prev[i]);
            }
        }
    }
}

/// A fresh random token: the lowercase hex of `len_bytes` random bytes.
pub fn random_token_hex(len_bytes: usize) -> (token: String)
    requires
        encodable_length(len_bytes as int),
    ensures
        is_hex_token(token@, len_bytes as nat),
        token@.len() == 2 * len_bytes,
{
    let bytes = random_bytes(len_bytes);
    let token = hex_lower_encode(bytes.as_slice());
    proof {
        lemma_hex_lower_shape(bytes@);
    }
    token
}

/// The message a wallet signs to sign in with the nonce `nonce`.
pub open spec fn nonce_message_text(nonce: Seq<char>) -> Seq<char> {
    "Sign in to Zenith\nNonce: "@ + nonce
}

/// Why a sign-in step is refused: a malformed request (HTTP 400) or a
/// failed authentication (HTTP 401).
#[derive(Debug, Clone, Copy, PartialEq, Eq, Structural)]
pub enum AuthRejection {
    BadRequest,
    Unauthorized,
}

impl AuthRejection {
    /// The HTTP status code of the rejection.
    pub fn status_code(&self) -> (code: u16)
        ensures
            code == (match *self {
                AuthRejection::BadRequest => 400u16,
                AuthRejection::Unauthorized => 401u16,
            }),
    {
        match self {
            AuthRejection::BadRequest => 400,
            AuthRejection::Unauthorized => 401,
        }
    }
}

/// Body of `POST /api/v1/auth/nonce`.
pub struct NonceRequest {
    pub wallet_address: String,
}

/// Answer to `POST /api/v1/auth/nonce`.
pub struct NonceResponse {
    pub nonce: String,
    pub message: String,
}

/// Body of `POST /api/v1/auth/verify`; `signature` is the base64 of a
/// 64-byte ed25519 signature over `message`.
pub struct VerifyRequest {
    pub wallet_address: String,
    pub message: String,
    pub signature: String,
}

/// Answer to `POST /api/v1/auth/verify`.
pub struct VerifyResponse {
    pub token: String,
    pub wallet_address: String,
}

/// The wallet address of the session a request authenticated with.
pub struct AuthUser(pub String);

/// A freshly issued sign-in nonce: the nonce, the message to sign (which is
/// also the key the nonce is stored under) and its expiry timestamp.
pub struct NonceIssue {
    pub nonce: String,
    pub message: String,
    pub expires_at: String,
}

/// The expiry timestamp `ttl` seconds after `now`.
pub fn expiry_timestamp(now: i64, ttl: i64) -> (text: String)
    requires
        i64::MIN <= now + ttl <= i64::MAX,
    ensures
        text@ == unix_timestamp_text(now + ttl),
{
    format_unix_secs(now + ttl)
}

/// Issues a sign-in nonce for `wallet_address` at time `now`: refused with
/// `BadRequest` exactly when the address is not a valid ed25519 strkey;
/// otherwise a random 16-byte hex nonce, the message embedding it, and an
/// expiry `NONCE_TTL_SECS` after `now`.
pub fn issue_nonce(wallet_address: &str, now: i64) -> (res: Result<NonceIssue, AuthRejection>)
    requires
        decodable_text(wallet_address@),
        now <= i64::MAX - NONCE_TTL_SECS,
    ensures
        res is Err <==> strkey_decoding(wallet_address@) is Err,
        res matches Err(e) ==> e == AuthRejection::BadRequest,
        res matches Ok(issue) ==> {
            &&& is_hex_token(issue.nonce@, 16)
            &&& issue.nonce@.len() == 32
            &&& issue.message@ == nonce_message_text(issue.nonce@)
            &&& issue.expires_at@ == unix_timestamp_text(now + NONCE_TTL_SECS)
        },
{
    if decode_stellar_public_key(wallet_address).is_err() {
        return Err(AuthRejection::BadRequest);
    }
    let nonce = random_token_hex(16);
    let mut message = string_of("Sign in to Zenith\nNonce: ");
    message.append(nonce.as_str());
    let expires_at = expiry_timestamp(now, NONCE_TTL_SECS);
    Ok(NonceIssue { nonce, message, expires_at })
}

/// Whether the stored expiry timestamp `expires_at` lies before the
/// timestamp of `now` (the two compared as strings).
pub fn is_expired(expires_at: &str, now: i64) -> (expired: bool)
    ensures
        expired == text_lt(expires_at@, unix_timestamp_text(now as int)),
{
    let now_text = format_unix_secs(now);
    text_less(expires_at, now_text.as_str())
}

/// The 64 signature bytes, if the decoded signature has exactly 64.
pub fn signature_from_decoded(decoded: &[u8]) -> (sig: Option<[u8; 64]>)
    ensures
        sig is Some == (decoded@.len() == 64),
        sig matches Some(s) ==> s@ == decoded@,
{
    if decoded.len() != 64 {
        return None;
    }
    let mut sig = [0u8; 64];
    let mut i: usize = 0;
    while i < 64
        invariant
            i <= 64,
            decoded@.len() == 64,
            forall|j: int| 0 <= j < i ==> sig@[j] == decoded@[j],
        decreases 64 - i,
    {
        sig[i] = decoded[i];
        i = i + 1;
    }
    assert(sig@ =~= decoded@);
    Some(sig)
}

/// What checking a signed sign-in message gives: `BadRequest` for an
/// address that is no ed25519 strkey, a key that does not decode, or a
/// signature that is not the base64 of 64 bytes; `Unauthorized` for a
/// signature that strict ed25519 verification refuses over the message's
/// UTF-8 bytes; `Ok` otherwise.
pub open spec fn login_signature_outcome(
    wallet_address: Seq<char>,
    message: Seq<char>,
    signature_b64: Seq<char>,
) -> Result<(), AuthRejection> {
    match strkey_decoding(wallet_address) {
        Err(_) => Err(AuthRejection::BadRequest),
        Ok(pk) => if !ed25519_key_accepted(pk) {
            Err(AuthRejection::BadRequest)
        } else {
            match base64_decoded(signature_b64) {
                None => Err(AuthRejection::BadRequest),
                Some(sig) => if sig.len() != 64 {
                    Err(AuthRejection::BadRequest)
                } else if !ed25519_strict_accepts(pk, vstd::utf8::encode_utf8(message), sig) {
                    Err(AuthRejection::Unauthorized)
                } else {
                    Ok(())
                },
            }
        },
    }
}

/// Whether the signature check gets as far as decoding the signature: the
/// address decodes to a key that `ed25519_dalek` accepts.
pub open spec fn login_decodes_signature(wallet_address: Seq<char>) -> bool {
    strkey_decoding(wallet_address) matches Ok(pk) && ed25519_key_accepted(pk)
}

/// Whether every text that the signature check decodes is within the
/// decoders' limit: the address always, the signature where the check
/// gets to it.
pub open spec fn login_check_decodable(wallet_address: Seq<char>, signature_b64: Seq<char>) -> bool {
    decodable_text(wallet_address) && (login_decodes_signature(wallet_address) ==> decodable_text(
        signature_b64,
    ))
}

/// Checks that `signature_b64` is the wallet's strict ed25519 signature over
/// `message`.
pub fn check_login_signature(wallet_address: &str, message: &str, signature_b64: &str) -> (res: Result<
    (),
    AuthRejection,
>)
    requires
        login_check_decodable(wallet_address@, signature_b64@),
    ensures
        res == login_signature_outcome(wallet_address@, message@, signature_b64@),
{
    let pubkey_bytes = match decode_stellar_public_key(wallet_address) {
        Ok(k) => k,
        Err(_) => return Err(AuthRejection::BadRequest),
    };
    let key = match Ed25519PublicKey::from_bytes(&pubkey_bytes) {
        Some(k) => k,
        None => return Err(AuthRejection::BadRequest),
    };
    let sig_bytes = match base64_decode(signature_b64) {
        Some(b) => b,
        None => return Err(AuthRejection::BadRequest),
    };
    let signature = match signature_from_decoded(sig_bytes.as_slice()) {
        Some(s) => s,
        None => return Err(AuthRejection::BadRequest),
    };
    if !key.verify_strict(message.as_bytes(), &signature) {
        return Err(AuthRejection::Unauthorized);
    }
    Ok(())
}

/// What a sign-in attempt decides: whether the stored nonce is consumed
/// (deleted, so that it can never be used again) and what is answered.
pub struct VerifyDecision {
    pub consume_nonce: bool,
    pub outcome: Result<(), AuthRejection>,
}

/// The stored expiry of a nonce, by its text.
pub open spec fn stored_expiry_text(stored_expiry: Option<&str>) -> Option<Seq<char>> {
    match stored_expiry {
        Some(e) => Some(e@),
        None => None,
    }
}

/// The decision on a sign-in attempt at time `now`, given the expiry stored
/// with the nonce for this message and wallet (`None`: no such nonce).
/// A missing or expired nonce is refused with `Unauthorized` and left as it
/// is. A live nonce is consumed whatever the signature turns out to be, so
/// that a leaked signature cannot be replayed, and the answer is that of
/// the signature check.
pub open spec fn nonce_verify_decision(
    stored_expiry: Option<Seq<char>>,
    now: int,
    wallet_address: Seq<char>,
    message: Seq<char>,
    signature_b64: Seq<char>,
) -> VerifyDecision {
    match stored_expiry {
        None => VerifyDecision { consume_nonce: false, outcome: Err(AuthRejection::Unauthorized) },
        Some(expires_at) => if text_lt(expires_at, unix_timestamp_text(now)) {
            VerifyDecision { consume_nonce: false, outcome: Err(AuthRejection::Unauthorized) }
        } else {
            VerifyDecision {
                consume_nonce: true,
                outcome: login_signature_outcome(wallet_address, message, signature_b64),
            }
        },
    }
}

/// Decides a sign-in attempt: `stored_expiry` is the expiry stored with the
/// nonce keyed by `message` for `wallet_address`, if there is one.
pub fn nonce_verify_outcome(
    stored_expiry: Option<&str>,
    now: i64,
    wallet_address: &str,
    message: &str,
    signature_b64: &str,
) -> (d: VerifyDecision)
    requires
        nonce_verify_decision(
            stored_expiry_text(stored_expiry),
            now as int,
            wallet_address@,
            message@,
            signature_b64@,
        ).consume_nonce ==> login_check_decodable(wallet_address@, signature_b64@),
    ensures
        d == nonce_verify_decision(
            stored_expiry_text(stored_expiry),
            now as int,
            wallet_address@,
            message@,
            signature_b64@,
        ),
{
    let expires_at = match stored_expiry {
        Some(e) => e,
        None => return VerifyDecision { consume_nonce: false, outcome: Err(AuthRejection::Unauthorized) },
    };
    if is_expired(expires_at, now) {
        return VerifyDecision { consume_nonce: false, outcome: Err(AuthRejection::Unauthorized) };
    }
    let outcome = check_login_signature(wallet_address, message, signature_b64);
    VerifyDecision { consume_nonce: true, outcome }
}

/// A nonce is good for one sign-in: once a live nonce has been consumed,
/// every later attempt with the same message finds none and is refused
/// with `Unauthorized`, whatever signature it carries and whenever it
/// comes, and a refused attempt on an expired nonce consumes nothing.
pub proof fn lemma_nonce_single_use(
    expires_at: Seq<char>,
    now: int,
    later: int,
    wallet_address: Seq<char>,
    message: Seq<char>,
    signature_b64: Seq<char>,
    replayed_signature_b64: Seq<char>,
)
    requires
        !text_lt(expires_at, unix_timestamp_text(now)),
    ensures
        nonce_verify_decision(Some(expires_at), now, wallet_address, message, signature_b64).consume_nonce,
        nonce_verify_decision(None, later, wallet_address, message, replayed_signature_b64)
            == (VerifyDecision { consume_nonce: false, outcome: Err(AuthRejection::Unauthorized) }),
{
}

/// A freshly issued session: its bearer token and expiry timestamp.
pub struct SessionIssue {
    pub token: String,
    pub expires_at: String,
}

/// Issues a session at time `now`: a random 32-byte hex token that expires
/// `SESSION_TTL_SECS` after `now`.
pub fn issue_session(now: i64) -> (s: SessionIssue)
    requires
        now <= i64::MAX - SESSION_TTL_SECS,
    ensures
        is_hex_token(s.token@, 32),
        s.token@.len() == 64,
        s.expires_at@ == unix_timestamp_text(now + SESSION_TTL_SECS),
{
    let token = random_token_hex(32);
    let expires_at = expiry_timestamp(now, SESSION_TTL_SECS);
    SessionIssue { token, expires_at }
}

/// The bearer token of an `Authorization` header value: what follows a
/// leading `"Bearer "`, if there is one.
pub open spec fn bearer_token_of(header: Seq<char>) -> Option<Seq<char>> {
    if 7 <= header.len() && header.take(7) == "Bearer "@ {
        Some(header.skip(7))
    } else {
        None
    }
}

/// The bearer token of an `Authorization` header value.
pub fn bearer_token(header: &str) -> (token: Option<String>)
    ensures
        match token {
            Some(t) => bearer_token_of(header@) == Some(t@),
            None => bearer_token_of(header@) is None,
        },
{
    let prefix = "Bearer ";
    proof {
        reveal_strlit("Bearer ");
    }
    if !starts_with(header, prefix) {
        return None;
    }
    let n = header.unicode_len();
    let rest = header.substring_char(7, n);
    Some(string_of(rest))
}

/// A stored expiry timestamp `ttl` seconds after `issued` counts as
/// expired at `now` exactly when `now` lies past `issued + ttl`, for
/// instants of four-digit years.
pub proof fn lemma_expiry_check_compares_instants(issued: int, ttl: int, now: int)
    requires
        first_four_digit_year_secs() <= issued + ttl < past_four_digit_years_secs(),
        first_four_digit_year_secs() <= now < past_four_digit_years_secs(),
    ensures
        text_lt(unix_timestamp_text(issued + ttl), unix_timestamp_text(now)) == (issued + ttl < now),
{
    lemma_timestamps_sort_like_instants(issued + ttl, now);
}

/// A bearer header reads back exactly the token it carries: `"Bearer "`
/// followed by any text `t` gives `t`, whole; and whatever token is read
/// from a header, the header is `"Bearer "` followed by that token.
pub proof fn lemma_bearer_token_read_back(t: Seq<char>, header: Seq<char>)
    ensures
        bearer_token_of("Bearer "@ + t) == Some(t),
        bearer_token_of(header) matches Some(u) ==> header == "Bearer "@ + u,
{
    reveal_strlit("Bearer ");
    let h = "Bearer "@ + t;
    assert(h.take(7) =~= "Bearer "@);
    assert(h.skip(7) =~= t);
    if bearer_token_of(header) is Some {
        assert(header =~= header.take(7) + header.skip(7));
    }
}

/// An expired nonce is always refused with `Unauthorized` and left in
/// place, whatever the address, message and signature.
pub proof fn lemma_expired_nonce_refused(
    expires_at: Seq<char>,
    now: int,
    wallet_address: Seq<char>,
    message: Seq<char>,
    signature_b64: Seq<char>,
)
    requires
        text_lt(expires_at, unix_timestamp_text(now)),
    ensures
        nonce_verify_decision(Some(expires_at), now, wallet_address, message, signature_b64)
            == (VerifyDecision { consume_nonce: false, outcome: Err(AuthRejection::Unauthorized) }),
{
}

/// By instants: a nonce stored with the expiry timestamp of `expiry` is
/// refused, and not consumed, exactly when `now` lies past `expiry`; up to
/// and at its expiry it is consumed and the answer is the signature
/// check's. (For instants of four-digit years, which the timestamps order.)
pub proof fn lemma_nonce_expiry_by_instants(
    expiry: int,
    now: int,
    wallet_address: Seq<char>,
    message: Seq<char>,
    signature_b64: Seq<char>,
)
    requires
        first_four_digit_year_secs() <= expiry < past_four_digit_years_secs(),
        first_four_digit_year_secs() <= now < past_four_digit_years_secs(),
    ensures
        now > expiry ==> nonce_verify_decision(
            Some(unix_timestamp_text(expiry)),
            now,
            wallet_address,
            message,
            signature_b64,
        ) == (VerifyDecision { consume_nonce: false, outcome: Err(AuthRejection::Unauthorized) }),
        now <= expiry ==> nonce_verify_decision(
            Some(unix_timestamp_text(expiry)),
            now,
            wallet_address,
            message,
            signature_b64,
        ) == (VerifyDecision {
            consume_nonce: true,
            outcome: login_signature_outcome(wallet_address, message, signature_b64),
        }),
{
    lemma_timestamps_sort_like_instants(expiry, now);
}

/// A sign-in signature is accepted exactly when the address decodes to a
/// key that `ed25519_dalek` accepts, the signature decodes from base64 to
/// 64 bytes, and strict verification under that key accepts it over the
/// message's UTF-8 bytes; it is `Unauthorized` exactly when everything
/// decodes and strict verification refuses it; every other case is
/// `BadRequest`.
pub proof fn lemma_login_signature_accepts_only_verified(
    wallet_address: Seq<char>,
    message: Seq<char>,
    signature_b64: Seq<char>,
)
    ensures
        ({
            let decoded = match strkey_decoding(wallet_address) {
                Ok(pk) => ed25519_key_accepted(pk) && match base64_decoded(signature_b64) {
                    Some(sig) => sig.len() == 64,
                    None => false,
                },
                Err(_) => false,
            };
            let verified = match (strkey_decoding(wallet_address), base64_decoded(signature_b64)) {
                (Ok(pk), Some(sig)) => ed25519_strict_accepts(pk, vstd::utf8::encode_utf8(message), sig),
                _ => false,
            };
            let outcome = login_signature_outcome(wallet_address, message, signature_b64);
            &&& outcome == Ok::<(), AuthRejection>(()) <==> (decoded && verified)
            &&& outcome == Err::<(), AuthRejection>(AuthRejection::Unauthorized) <==> (decoded && !verified)
            &&& outcome == Err::<(), AuthRejection>(AuthRejection::BadRequest) <==> !decoded
        }),
{
}

} // verus!
