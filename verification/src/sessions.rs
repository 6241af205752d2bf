//! Session records and their lifecycle: creation, lookup, and the validity
//! rule over expiry and revocation.

use vstd::prelude::*;
use crate::crypto::crockford32_of;
use crate::crypto::generate_short_token;
use crate::crypto::is_crockford_char;
use crate::db::SessionRow;
use crate::db::db_insert_session;
use crate::db::db_session_by_id;
use crate::db::db_session_by_token;
use crate::ids::new_time_ordered_id;
use crate::ids::parse_uuid;
use crate::ids::uuid_of;
use crate::ids::uuid_timestamp_secs;
use crate::ids::uuid_to_string;
use crate::ids::uuid_unix_secs_of;

verus! {

/// How long a fresh session lives, in seconds: thirty days.
pub const SESSION_LIFETIME_SECS: i64 = 30 * 24 * 60 * 60;

/// One authenticated browser/client continuity.  The client holds only the
/// `token`; the `id` is never transmitted.  Instants are Unix seconds.
#[derive(Debug, Clone, PartialEq, Eq)]
pub struct Session {
    /// Time-ordered unique identifier; its creation instant is derivable
    /// from the identifier itself.
    pub id: u128,
    /// The owning user; many sessions per user are expected.
    pub user_id: u128,
    /// Absolute instant after which the session is invalid.
    pub expiry: i64,
    /// Instant of the most recent successful use (advisory).
    pub last_access: i64,
    /// Explicit server-side invalidation flag.
    pub revoked: bool,
    /// Instant the revocation flag was set, if it was.
    pub revoked_at: Option<i64>,
}

/// Failure of a session operation.
#[derive(Debug, Clone, PartialEq, Eq)]
pub enum SessionStructError {
    /// The store failed: fatal to the request, never "unauthenticated".
    UserSqlError,
    /// No session matches: a normal, expected outcome.
    NotFound,
    /// The stored session key is not a well-formed unique identifier.
    NonUuidPrimaryKey,
    /// The stored owner reference is not a well-formed unique identifier.
    NonUuidUserId,
}

/// The session a stored row denotes: both identifiers must parse as
/// UUIDs, else the row is corrupt.
pub open spec fn session_of_row(
    id: Seq<char>,
    user_id: Seq<char>,
    expiry: i64,
    last_access: i64,
    revoked: bool,
    revoked_at: Option<i64>,
) -> Result<Session, SessionStructError> {
    match uuid_of(id) {
        None => Err(SessionStructError::NonUuidPrimaryKey),
        Some(sid) => match uuid_of(user_id) {
            None => Err(SessionStructError::NonUuidUserId),
            Some(uid) => Ok(
                Session { id: sid, user_id: uid, expiry, last_access, revoked, revoked_at },
            ),
        },
    }
}

/// The session a stored lookup outcome denotes: a found row converts (or
/// is rejected as corrupt), a miss is `NotFound` — a normal outcome — and
/// a storage failure is `UserSqlError`.
pub open spec fn session_lookup_s(found: Result<Option<SessionRow>, rusqlite::Error>) -> Result<
    Session,
    SessionStructError,
> {
    match found {
        Ok(opt) => match opt {
            Some(row) => session_of_row(
                row.id@,
                row.user_id@,
                row.expiry,
                row.last_access,
                row.revoked,
                row.revoked_at,
            ),
            None => Err(SessionStructError::NotFound),
        },
        Err(_) => Err(SessionStructError::UserSqlError),
    }
}

/// Converts one stored row into a session, rejecting corrupt identifiers.
fn session_from_row(row: SessionRow) -> (r: Result<Session, SessionStructError>)
    ensures
        r == session_of_row(
            row.id@,
            row.user_id@,
            row.expiry,
            row.last_access,
            row.revoked,
            row.revoked_at,
        ),
{
    let sid = match parse_uuid(row.id.as_str()) {
        Some(v) => v,
        None => {
            return Err(SessionStructError::NonUuidPrimaryKey);
        },
    };
    let uid = match parse_uuid(row.user_id.as_str()) {
        Some(v) => v,
        None => {
            return Err(SessionStructError::NonUuidUserId);
        },
    };
    Ok(
        Session {
            id: sid,
            user_id: uid,
            expiry: row.expiry,
            last_access: row.last_access,
            revoked: row.revoked,
            revoked_at: row.revoked_at,
        },
    )
}

/// Decides one lookup outcome: exactly the split `session_lookup_s` states.
fn session_from_lookup(found: Result<Option<SessionRow>, rusqlite::Error>) -> (r: Result<
    Session,
    SessionStructError,
>)
    ensures
        r == session_lookup_s(found),
{
    match found {
        Ok(Some(row)) => session_from_row(row),
        Ok(None) => Err(SessionStructError::NotFound),
        Err(_) => Err(SessionStructError::UserSqlError),
    }
}

/// The instant a session created at instant `now` expires: thirty days
/// later, saturated at the largest representable instant.
pub open spec fn expiry_at(now: i64) -> i64 {
    if now + SESSION_LIFETIME_SECS <= i64::MAX {
        (now + SESSION_LIFETIME_SECS) as i64
    } else {
        i64::MAX
    }
}

/// Computes the expiry a session created at `now` is persisted with.
pub fn expiry_of_creation(now: i64) -> (r: i64)
    ensures
        r == expiry_at(now),
{
    if now <= i64::MAX - SESSION_LIFETIME_SECS {
        now + SESSION_LIFETIME_SECS
    } else {
        i64::MAX
    }
}

/// Relies on `chrono::Utc::now`: the current wall-clock instant as Unix
/// seconds.  Nothing is promised of the value.
#[verifier::external_body]
pub(crate) fn now_ts() -> (r: i64) {
    chrono::Utc::now().timestamp()
}

impl Session {
    /// A session is valid at instant `now` iff it is not revoked and `now`
    /// lies before its expiry.
    pub open spec fn valid_at(self, now: int) -> bool {
        !self.revoked && now < self.expiry
    }

    /// The owning user's identifier.
    pub fn user_id(&self) -> (r: u128)
        ensures
            r == self.user_id,
    {
        self.user_id
    }

    /// Whether the session must be refused at instant `now`: the exact
    /// negation of the validity rule.
    pub fn is_expired_or_revoked(&self, now: i64) -> (r: bool)
        ensures
            r == !self.valid_at(now as int),
    {
        self.expiry <= now || self.revoked
    }

    /// The session's creation instant in Unix seconds, derived from its
    /// time-ordered identifier alone.
    pub fn issued(&self) -> (r: Option<i64>)
        ensures
            r == uuid_unix_secs_of(self.id),
    {
        uuid_timestamp_secs(self.id)
    }

    /// Creates a session for `user_id`: a fresh time-ordered identifier, a
    /// fresh token, expiry thirty days from now, and one all-or-nothing
    /// insert.  Returns the token the client is to present; on a storage
    /// failure nothing was written and no token leaves.
    pub fn create(user_id: u128, conn: &rusqlite::Connection) -> (r: Result<
        String,
        SessionStructError,
    >)
        ensures
            r matches Ok(t) ==> t@.len() == 13 && (exists|b: Seq<u8>|
                b.len() == 8 && t@ == crockford32_of(b)) && (forall|i: int|
                0 <= i < t@.len() ==> is_crockford_char(t@[i])),
            r matches Err(e) ==> e == SessionStructError::UserSqlError,
    {
        let session_id = new_time_ordered_id();
        let token = generate_short_token();
        let now = now_ts();
        let expiry = expiry_of_creation(now);
        let sid = uuid_to_string(session_id);
        let uid = uuid_to_string(user_id);
        match db_insert_session(conn, sid.as_str(), token.as_str(), uid.as_str(), expiry, now) {
            Ok(_) => Ok(token),
            Err(_) => Err(SessionStructError::UserSqlError),
        }
    }

    /// Looks the session up by its exact token: no partial or prefix
    /// matching.  A miss is `NotFound`, a normal outcome distinct from a
    /// storage failure.  Any session returned converts cleanly from a
    /// stored row whose token column equals `token` byte for byte.
    pub fn get_by_token(token: &str, conn: &rusqlite::Connection) -> (r: Result<
        Session,
        SessionStructError,
    >)
        ensures
            r matches Ok(s) ==> exists|row: SessionRow|
                row.token@ == token@ && session_of_row(
                    row.id@,
                    row.user_id@,
                    row.expiry,
                    row.last_access,
                    row.revoked,
                    row.revoked_at,
                ) == Ok::<Session, SessionStructError>(s),
    {
        let found = db_session_by_token(conn, token);
        let ghost gfound = found;
        let r = session_from_lookup(found);
        proof {
            if r is Ok {
                match gfound {
                    Ok(opt) => match opt {
                        Some(row) => {
                            assert(row.token@ == token@ && session_of_row(
                                row.id@,
                                row.user_id@,
                                row.expiry,
                                row.last_access,
                                row.revoked,
                                row.revoked_at,
                            ) == Ok::<Session, SessionStructError>(r->Ok_0));
                        },
                        None => {},
                    },
                    Err(_) => {},
                }
            }
        }
        r
    }

    /// Looks the session up by its exact identifier text, for
    /// administrative and introspection paths.  Any session returned
    /// carries the identifier asked for and converts cleanly from a
    /// stored row.
    pub fn get_by_id(id: u128, conn: &rusqlite::Connection) -> (r: Result<
        Session,
        SessionStructError,
    >)
        ensures
            r matches Ok(s) ==> s.id == id && (exists|row: SessionRow|
                session_of_row(
                    row.id@,
                    row.user_id@,
                    row.expiry,
                    row.last_access,
                    row.revoked,
                    row.revoked_at,
                ) == Ok::<Session, SessionStructError>(s)),
    {
        let pk = uuid_to_string(id);
        let found = db_session_by_id(conn, pk.as_str());
        let ghost gfound = found;
        let r = session_from_lookup(found);
        proof {
            if r is Ok {
                match gfound {
                    Ok(opt) => match opt {
                        Some(row) => {
                            assert(row.id@ == pk@);
                            assert(uuid_of(row.id@) == Some(id));
                            assert(session_of_row(
                                row.id@,
                                row.user_id@,
                                row.expiry,
                                row.last_access,
                                row.revoked,
                                row.revoked_at,
                            ) == Ok::<Session, SessionStructError>(r->Ok_0));
                        },
                        None => {},
                    },
                    Err(_) => {},
                }
            }
        }
        r
    }
}

/// Law: session validity.  At any instant, a session whose expiry has
/// passed is invalid regardless of its revocation flag; a revoked session
/// is invalid regardless of its expiry; and a session with a future expiry
/// that is not revoked is valid.
pub proof fn lemma_session_validity(s: Session, now: int)
    ensures
        s.expiry <= now ==> !s.valid_at(now),
        s.revoked ==> !s.valid_at(now),
        (!s.revoked && now < s.expiry) ==> s.valid_at(now),
{
}

} // verus!
