//! Session identifiers and the session window.
//!
//! A session id is a ULID: a 128-bit value whose top 48 bits are the
//! creation time in milliseconds since the Unix epoch, rendered as 26
//! Crockford base32 characters. The id's embedded timestamp is the sole
//! source of truth for session freshness: a tally is accepted up to and
//! including `creation + GAME_DURATION_MS` and rejected as expired after
//! that (the boundary instant itself still counts as fresh).
use vstd::prelude::*;

verus! {

/// Length of the game window in milliseconds.
pub const GAME_DURATION_MS: u64 = 30_000;

/// Why a tally submission was rejected.
#[derive(Clone, Copy, Debug, PartialEq, Eq, Structural)]
pub enum TallyError {
    /// The session id could not be parsed.
    InvalidSession,
    /// The session's game window has elapsed.
    SessionExpired,
    /// A required query parameter was absent.
    MissingParam,
}

/// What parsing a candidate ULID string yields: the 128-bit value as a
/// (high, low) pair of 64-bit halves when the string is a valid ULID,
/// nothing otherwise. Parsing depends on the characters alone.
pub uninterp spec fn ulid_parse(s: Seq<char>) -> Option<(u64, u64)>;

/// Relies on `rusty_ulid::Ulid`'s `FromStr` to decode a Crockford base32
/// string, and on `From<Ulid> for (u64, u64)` to split the 128-bit value
/// into its halves; the outcome depends on the input characters alone.
#[verifier::external_body]
pub(crate) fn parse_ulid(s: &str) -> (r: Option<(u64, u64)>)
    ensures
        r == ulid_parse(s@),
{
    s.parse::<rusty_ulid::Ulid>().ok().map(|u| u.into())
}

/// The canonical 26-character Crockford base32 rendering of the 128-bit
/// value given as (high, low) halves.
pub uninterp spec fn ulid_text(hi: u64, lo: u64) -> Seq<char>;

/// Relies on `rusty_ulid::Ulid::to_string`, which always renders exactly
/// 26 Crockford base32 characters determined by the value alone.
#[verifier::external_body]
pub(crate) fn ulid_to_string(hi: u64, lo: u64) -> (r: String)
    ensures
        r@ == ulid_text(hi, lo),
        r@.len() == 26,
{
    rusty_ulid::Ulid::from((hi, lo)).to_string()
}

/// Relies on `chrono::Utc::now` for the current time, reported as
/// milliseconds since the Unix epoch. Nothing is promised of the clock.
#[verifier::external_body]
pub(crate) fn now_ms() -> (r: i64) {
    chrono::Utc::now().timestamp_millis()
}

/// The creation timestamp embedded in a ULID: the top 48 bits of the
/// 128-bit value, i.e. the top 48 bits of its high half, in milliseconds.
pub open spec fn ulid_timestamp(hi: u64) -> u64 {
    hi >> 16
}

/// A session created at `ts_ms` is still fresh at `now`: the game window
/// has not yet elapsed. The boundary instant `ts_ms + GAME_DURATION_MS`
/// itself still counts as fresh.
pub open spec fn fresh_at(ts_ms: u64, now: i64) -> bool {
    !(ts_ms + GAME_DURATION_MS < now)
}

/// The freshness decision for a parsed (or unparseable) session id at a
/// given clock reading.
pub open spec fn check_session_spec(bits: Option<(u64, u64)>, now: i64) -> Result<
    (u64, u64),
    TallyError,
> {
    match bits {
        None => Err(TallyError::InvalidSession),
        Some(b) => if fresh_at(ulid_timestamp(b.0), now) {
            Ok(b)
        } else {
            Err(TallyError::SessionExpired)
        },
    }
}

/// Decides whether a parsed session id is still within its game window at
/// the given clock reading: unparseable ids are invalid, stale ones are
/// expired, and fresh ones are returned unchanged.
pub fn check_session(bits: Option<(u64, u64)>, now: i64) -> (r: Result<(u64, u64), TallyError>)
    ensures
        r == check_session_spec(bits, now),
{
    match bits {
        None => Err(TallyError::InvalidSession),
        Some(b) => {
            let h: u64 = b.0;
            let ts: u64 = h >> 16;
            proof {
                assert(h >> 16 < 0x1000000000000u64) by (bit_vector);
            }
            if now <= 0 {
                Ok(b)
            } else if (now as u64) <= ts + GAME_DURATION_MS {
                Ok(b)
            } else {
                Err(TallyError::SessionExpired)
            }
        },
    }
}

/// Parses a candidate session id and checks it against the clock:
/// `InvalidSession` when the string is not a ULID, `SessionExpired` when
/// the game window has elapsed, the id's halves otherwise.
pub fn validate_ulid(ulid: &str) -> (r: Result<(u64, u64), TallyError>)
    ensures
        exists|now: i64| r == #[trigger] check_session_spec(ulid_parse(ulid@), now),
        r matches Ok(bits) ==> ulid_parse(ulid@) == Some(bits),
        r == Err::<(u64, u64), TallyError>(TallyError::InvalidSession) <==> ulid_parse(ulid@) is None,
{
    let bits = parse_ulid(ulid);
    let now = now_ms();
    let r = check_session(bits, now);
    proof {
        assert(r == check_session_spec(ulid_parse(ulid@), now));
    }
    r
}

/// A tally checked strictly after the session's creation time plus the
/// game duration is rejected as expired, and one checked at or before
/// that boundary passes the freshness check.
pub proof fn lemma_session_window(bits: (u64, u64), now: i64)
    ensures
        now > ulid_timestamp(bits.0) + GAME_DURATION_MS ==> check_session_spec(
            Some(bits),
            now,
        ) == Err::<(u64, u64), TallyError>(TallyError::SessionExpired),
        now <= ulid_timestamp(bits.0) + GAME_DURATION_MS ==> check_session_spec(
            Some(bits),
            now,
        ) == Ok::<(u64, u64), TallyError>(bits),
{
}

} // verus!
