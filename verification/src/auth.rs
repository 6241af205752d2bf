//! The authenticator: answers "who, if anyone, is making this request".
//!
//! Exactly one outcome is produced per call: no credentials (`Ok(None)`),
//! an authenticated user (`Ok(Some(_))`), or one typed error — invalid
//! credentials, a malformed credential, or an internal failure.

use vstd::prelude::*;
use vstd::utf8::valid_utf8;
use vstd::utf8::decode_utf8;
use vstd::string::StrSliceExecFns;
use vstd::string::StringExecFns;
use crate::db::db_user_by_handle;
use crate::ids::parse_uuid;
use crate::ids::uuid_of;
use crate::pwd::PwdError;
use crate::pwd::verify_outcome;
use crate::pwd::verify_password;
use crate::resolver::AuthScheme;
use crate::resolver::SpecCredential;
use crate::resolver::resolve;
use crate::resolver::resolve_s;
use crate::sessions::Session;
use crate::sessions::SessionStructError;
use crate::sessions::now_ts;
use crate::users::User;
use crate::users::UserStructError;

verus! {

/// The fixed, process-wide name of the session cookie.
pub const COOKIE_NAME: &'static str = "wpikzbiorauth";

/// The cookie fragments the resolver treats as bearer candidates are
/// exactly those whose name is `COOKIE_NAME`.
pub proof fn lemma_cookie_prefix_is_cookie_name()
    ensures
        crate::resolver::cookie_prefix() == COOKIE_NAME@ + "="@,
{
    reveal_strlit("wpikzbiorauth=");
    reveal_strlit("wpikzbiorauth");
    reveal_strlit("=");
    assert(crate::resolver::cookie_prefix() =~= COOKIE_NAME@ + "="@);
}

/// Why a request failed to authenticate.
#[derive(Debug, Clone, PartialEq, Eq)]
pub enum AuthError {
    /// Credential present but wrong: unknown handle, wrong password, or an
    /// expired, revoked or unknown session.  Collapsed to one generic
    /// message before reaching the end user.
    InvalidCredentials,
    /// The session store failed.
    SessionError(SessionStructError),
    /// The user store failed or holds a corrupt record.
    UserError(UserStructError),
    /// A Basic payload decoded but carries no `:` separator.
    InvalidFormat,
    /// A Basic payload is not valid base64.
    InvalidBase64,
    /// A Basic payload decoded to bytes that are not valid UTF-8.
    InvalidUtf8,
    /// The user store was unreachable during the handle lookup.
    DatabaseError,
}

/// The HTTP status an error maps to: 401 for wrong credentials, 400 for a
/// malformed credential, 500 for internal failures.
pub open spec fn status_code_s(e: AuthError) -> u16 {
    match e {
        AuthError::InvalidCredentials => 401,
        AuthError::SessionError(_) => 500,
        AuthError::UserError(_) => 500,
        AuthError::DatabaseError => 500,
        AuthError::InvalidFormat => 400,
        AuthError::InvalidBase64 => 400,
        AuthError::InvalidUtf8 => 400,
    }
}

impl AuthError {
    /// The HTTP status code this error is surfaced as.
    pub fn status_code(&self) -> (r: u16)
        ensures
            r == status_code_s(*self),
    {
        match self {
            AuthError::InvalidCredentials => 401,
            AuthError::SessionError(_) => 500,
            AuthError::UserError(_) => 500,
            AuthError::DatabaseError => 500,
            AuthError::InvalidFormat => 400,
            AuthError::InvalidBase64 => 400,
            AuthError::InvalidUtf8 => 400,
        }
    }
}

/// The bytes that standard base64 (with padding) decodes `s` to, if `s` is
/// a valid encoding, as `base64`'s standard engine decides it.
pub uninterp spec fn b64_decode_of(s: Seq<char>) -> Option<Seq<u8>>;

/// Relies on `base64::Engine::decode` with the standard engine: decoding
/// depends on the characters alone and fails exactly on text that is not a
/// valid standard base64 encoding.
#[verifier::external_body]
fn b64_decode(s: &str) -> (r: Option<Vec<u8>>)
    ensures
        match r {
            Some(v) => b64_decode_of(s@) == Some(v@),
            None => b64_decode_of(s@) is None,
        },
{
    match base64::Engine::decode(&base64::engine::general_purpose::STANDARD, s) {
        Ok(v) => Some(v),
        Err(_) => None,
    }
}

/// Relies on `String::from_utf8`: succeeds exactly on valid UTF-8 and
/// decodes it, per vstd's model of UTF-8.
#[verifier::external_body]
fn utf8_to_string(bytes: Vec<u8>) -> (r: Option<String>)
    ensures
        match r {
            Some(s) => valid_utf8(bytes@) && s@ == decode_utf8(bytes@),
            None => !valid_utf8(bytes@),
        },
{
    match String::from_utf8(bytes) {
        Ok(s) => Some(s),
        Err(_) => None,
    }
}

/// `s` split once at its first occurrence of `sep`: the part before and
/// the part after, or nothing if `sep` does not occur.
pub open spec fn split_once_s(s: Seq<char>, sep: char) -> Option<(Seq<char>, Seq<char>)>
    decreases s.len(),
{
    if s.len() == 0 {
        None
    } else if s[0] == sep {
        Some((Seq::<char>::empty(), s.drop_first()))
    } else {
        match split_once_s(s.drop_first(), sep) {
            Some(p) => Some((seq![s[0]] + p.0, p.1)),
            None => None,
        }
    }
}

proof fn lemma_split_once_at(s: Seq<char>, sep: char, m: int)
    requires
        0 <= m <= s.len(),
        forall|k: int| 0 <= k < m ==> s[k] != sep,
        m == s.len() || s[m] == sep,
    ensures
        m == s.len() ==> split_once_s(s, sep) is None,
        m < s.len() ==> split_once_s(s, sep) == Some((s.take(m), s.skip(m + 1))),
    decreases m,
{
    if m == 0 {
        if s.len() > 0 {
            assert(s[0] == sep);
            assert(s.take(0) =~= Seq::<char>::empty());
            assert(s.skip(1) =~= s.drop_first());
        }
    } else {
        let d = s.drop_first();
        assert(forall|k: int| 0 <= k < m - 1 ==> d[k] == s[k + 1] && d[k] != sep);
        lemma_split_once_at(d, sep, m - 1);
        if m == s.len() {
        } else {
            assert(d[m - 1] == s[m]);
            assert(split_once_s(d, sep) == Some((d.take(m - 1), d.skip(m))));
            assert(seq![s[0]] + d.take(m - 1) =~= s.take(m));
            assert(d.skip(m) =~= s.skip(m + 1));
        }
    }
}

/// Splits `s` once at its first `:`, into username and password.
pub fn split_once_colon(s: &str) -> (r: Option<(String, String)>)
    ensures
        match r {
            Some(p) => split_once_s(s@, ':') == Some((p.0@, p.1@)),
            None => split_once_s(s@, ':') is None,
        },
{
    let n: usize = s.unicode_len();
    let mut m: usize = 0;
    loop
        invariant
            0 <= m <= n,
            n == s@.len(),
            forall|q: int| 0 <= q < m ==> s@[q] != ':',
        ensures
            0 <= m <= n,
            forall|q: int| 0 <= q < m ==> s@[q] != ':',
            m == n || s@[m as int] == ':',
        decreases n - m,
    {
        if m < n {
            if s.get_char(m) != ':' {
                m = m + 1;
            } else {
                break ;
            }
        } else {
            break ;
        }
    }
    proof {
        lemma_split_once_at(s@, ':', m as int);
    }
    if m == n {
        None
    } else {
        let before = String::from_str(s.substring_char(0, m));
        let after = String::from_str(s.substring_char(m + 1, n));
        proof {
            assert(before@ =~= s@.take(m as int));
            assert(after@ =~= s@.skip(m as int + 1));
        }
        Some((before, after))
    }
}

/// What parsing a Basic payload yields: the username and password, or the
/// exact malformed-input error.  The payload must be valid base64 of valid
/// UTF-8 holding at least one `:`; the first `:` separates username from
/// password.
pub open spec fn basic_parse(p: Seq<char>) -> Result<(Seq<char>, Seq<char>), AuthError> {
    match b64_decode_of(p) {
        None => Err(AuthError::InvalidBase64),
        Some(bytes) => if !valid_utf8(bytes) {
            Err(AuthError::InvalidUtf8)
        } else {
            match split_once_s(decode_utf8(bytes), ':') {
                None => Err(AuthError::InvalidFormat),
                Some(up) => Ok(up),
            }
        },
    }
}

/// The view of one looked-up `users` row: stored identifier text and
/// password hash.
pub open spec fn user_row_view(row: Option<(String, String)>) -> Option<(Seq<char>, Seq<char>)> {
    match row {
        Some(p) => Some((p.0@, p.1@)),
        None => None,
    }
}

/// The outcome owed once the handle lookup returned `row` for a submitted
/// password `pw`: a missing row, a mismatching password and a malformed
/// stored hash all collapse to the same invalid-credentials error, so the
/// outcome reveals nothing about which handles exist; a match whose stored
/// identifier does not parse is an internal error; a match yields the
/// owner's identifier.  A malformed stored hash is a distinct error at
/// `verify_password`, where the caller can log it; toward the client it is
/// deliberately an authentication failure, not a server error, so that the
/// refusal carries no detail.
pub open spec fn basic_decision(row: Option<(Seq<char>, Seq<char>)>, pw: Seq<char>) -> Result<
    u128,
    AuthError,
> {
    match row {
        None => Err(AuthError::InvalidCredentials),
        Some(p) => match verify_outcome(pw, p.1) {
            Ok(true) => match uuid_of(p.0) {
                Some(uid) => Ok(uid),
                None => Err(AuthError::UserError(UserStructError::NonUuidPrimaryKey)),
            },
            Ok(false) => Err(AuthError::InvalidCredentials),
            Err(_) => Err(AuthError::InvalidCredentials),
        },
    }
}

/// Law: no account enumeration.  Whether the handle is unknown (no row)
/// or a row exists whose password verification does not succeed — wrong
/// password or malformed stored hash — the decision is one and the same
/// invalid-credentials error.
pub proof fn lemma_no_account_enumeration(id: Seq<char>, hash: Seq<char>, pw: Seq<char>)
    requires
        verify_outcome(pw, hash) != Ok::<bool, PwdError>(true),
    ensures
        basic_decision(Some((id, hash)), pw) == basic_decision(None, pw),
        basic_decision(None, pw) == Err::<u128, AuthError>(AuthError::InvalidCredentials),
{
}

/// The outcome owed once an accepted credential's owner was looked up:
/// the user on success, and on any failure — a missing or corrupt user
/// record — an internal `UserError`, never invalid credentials.  The
/// Invalid/InternalError line is drawn here: a credential that already
/// passed is never re-reported as wrong.
pub open spec fn found_user_outcome(found: Result<User, UserStructError>) -> Result<
    Option<User>,
    AuthError,
> {
    match found {
        Ok(u) => Ok(Some(u)),
        Err(e) => Err(AuthError::UserError(e)),
    }
}

/// Decides one owner-lookup outcome: exactly the mapping
/// `found_user_outcome` states.
fn finish_with_user(found: Result<User, UserStructError>) -> (r: Result<Option<User>, AuthError>)
    ensures
        r == found_user_outcome(found),
{
    match found {
        Ok(u) => Ok(Some(u)),
        Err(e) => Err(AuthError::UserError(e)),
    }
}

/// Decides one handle-lookup outcome against the submitted password:
/// exactly the mapping `basic_decision` states.
fn decide_basic_row(row: &Option<(String, String)>, password: &str) -> (r: Result<u128, AuthError>)
    ensures
        r == basic_decision(user_row_view(*row), password@),
{
    match row {
        None => Err(AuthError::InvalidCredentials),
        Some((id_str, passhash)) => match verify_password(password, passhash.as_str()) {
            Ok(true) => match parse_uuid(id_str.as_str()) {
                Some(uid) => Ok(uid),
                None => Err(AuthError::UserError(UserStructError::NonUuidPrimaryKey)),
            },
            Ok(false) => Err(AuthError::InvalidCredentials),
            Err(_) => Err(AuthError::InvalidCredentials),
        },
    }
}

/// Attempts a Basic credential: decode, split, look the handle up, and
/// decide per `basic_decision`; on a match, load the user.  Malformed
/// payloads map to their exact error; whether a well-formed pair
/// authenticates depends on the store and the stored hash.
fn authenticate_basic(credentials: &str, conn: &rusqlite::Connection) -> (r: Result<
    Option<User>,
    AuthError,
>)
    ensures
        basic_parse(credentials@) matches Err(e) ==> r == Err::<Option<User>, AuthError>(e),
        basic_parse(credentials@) is Ok ==> (r matches Ok(u) && u is Some || r == Err::<
            Option<User>,
            AuthError,
        >(AuthError::InvalidCredentials) || r == Err::<Option<User>, AuthError>(
            AuthError::DatabaseError,
        ) || r matches Err(AuthError::UserError(_))),
        r matches Ok(u) ==> u is Some,
        !(r matches Err(AuthError::SessionError(_))),
{
    let decoded = match b64_decode(credentials) {
        Some(v) => v,
        None => {
            return Err(AuthError::InvalidBase64);
        },
    };
    let text = match utf8_to_string(decoded) {
        Some(s) => s,
        None => {
            return Err(AuthError::InvalidUtf8);
        },
    };
    let parts = match split_once_colon(text.as_str()) {
        Some(p) => p,
        None => {
            return Err(AuthError::InvalidFormat);
        },
    };
    let (username, password) = parts;
    let row = match db_user_by_handle(conn, username.as_str()) {
        Ok(found) => found,
        Err(_) => {
            return Err(AuthError::DatabaseError);
        },
    };
    match decide_basic_row(&row, password.as_str()) {
        Ok(uid) => finish_with_user(User::get_by_uuid(uid, conn)),
        Err(e) => Err(e),
    }
}

/// The outcome owed once the session lookup returned `lookup`, judged at
/// instant `now`: a miss is invalid credentials — an unknown or
/// never-issued token is never an internal error; a storage failure or a
/// corrupt row is a session error; a session that is expired or revoked
/// at `now` is invalid credentials; a valid session yields its owner's
/// identifier.
pub open spec fn bearer_decision(lookup: Result<Session, SessionStructError>, now: int) -> Result<
    u128,
    AuthError,
> {
    match lookup {
        Ok(s) => if s.valid_at(now) {
            Ok(s.user_id)
        } else {
            Err(AuthError::InvalidCredentials)
        },
        Err(SessionStructError::NotFound) => Err(AuthError::InvalidCredentials),
        Err(e) => Err(AuthError::SessionError(e)),
    }
}

/// Decides one session-lookup outcome at instant `now`: exactly the
/// mapping `bearer_decision` states.
fn decide_bearer(lookup: Result<Session, SessionStructError>, now: i64) -> (r: Result<
    u128,
    AuthError,
>)
    ensures
        r == bearer_decision(lookup, now as int),
{
    match lookup {
        Ok(s) => {
            if s.is_expired_or_revoked(now) {
                Err(AuthError::InvalidCredentials)
            } else {
                Ok(s.user_id())
            }
        },
        Err(SessionStructError::NotFound) => Err(AuthError::InvalidCredentials),
        Err(e) => Err(AuthError::SessionError(e)),
    }
}

/// Attempts a bearer token: look the session up by exact token and decide
/// per `bearer_decision`; on a valid session, load the owning user.  An
/// unknown token is invalid credentials, never an internal error — in
/// particular a lookup miss is never surfaced as a session-store failure;
/// a failing user lookup for a valid session is an internal error, never
/// invalid credentials.
fn authenticate_bearer(token: &str, conn: &rusqlite::Connection) -> (r: Result<
    Option<User>,
    AuthError,
>)
    ensures
        r matches Ok(u) ==> u is Some,
        r matches Err(e) ==> (e == AuthError::InvalidCredentials || e matches AuthError::SessionError(_)
            || e matches AuthError::UserError(_)),
        r != Err::<Option<User>, AuthError>(
            AuthError::SessionError(SessionStructError::NotFound),
        ),
{
    let lookup = Session::get_by_token(token, conn);
    let now = now_ts();
    match decide_bearer(lookup, now) {
        Ok(uid) => finish_with_user(User::get_by_uuid(uid, conn)),
        Err(e) => Err(e),
    }
}

impl User {
    /// The sole entry point the surrounding application gates access with.
    ///
    /// Resolves the request's headers to at most one credential (Basic
    /// beats Bearer; see `resolve`) and attempts exactly that one.
    /// `Ok(None)` — anonymity — is returned exactly when the request
    /// carries no recognized credential, and never when one was attempted.
    pub fn authenticate(
        auth_headers: &Vec<String>,
        cookie_headers: &Vec<String>,
        conn: &rusqlite::Connection,
    ) -> (r: Result<Option<User>, AuthError>)
        ensures
            (resolve_s(auth_headers.deep_view(), cookie_headers.deep_view()) is None) <==> r
                == Ok::<Option<User>, AuthError>(None),
            resolve_s(auth_headers.deep_view(), cookie_headers.deep_view()) matches Some(
                SpecCredential::Basic(p),
            ) ==> (basic_parse(p) matches Err(e) ==> r == Err::<Option<User>, AuthError>(e)),
            resolve_s(auth_headers.deep_view(), cookie_headers.deep_view()) matches Some(
                SpecCredential::Basic(p),
            ) ==> (basic_parse(p) is Ok ==> (r matches Ok(u) && u is Some || r == Err::<
                Option<User>,
                AuthError,
            >(AuthError::InvalidCredentials) || r == Err::<Option<User>, AuthError>(
                AuthError::DatabaseError,
            ) || r matches Err(AuthError::UserError(_)))),
            resolve_s(auth_headers.deep_view(), cookie_headers.deep_view()) matches Some(
                SpecCredential::Bearer(t),
            ) ==> (r matches Ok(u) && u is Some || r == Err::<Option<User>, AuthError>(
                AuthError::InvalidCredentials,
            ) || r matches Err(AuthError::SessionError(_)) || r matches Err(
                AuthError::UserError(_),
            )),
            resolve_s(auth_headers.deep_view(), cookie_headers.deep_view()) matches Some(
                SpecCredential::Basic(p),
            ) ==> !(r matches Err(AuthError::SessionError(_))),
    {
        match resolve(auth_headers, cookie_headers) {
            Some(AuthScheme::Basic(payload)) => authenticate_basic(payload.as_str(), conn),
            Some(AuthScheme::Bearer(token)) => authenticate_bearer(token.as_str(), conn),
            None => Ok(None),
        }
    }
}

/// Password login: looks the handle up, verifies the password against the
/// stored hash, and on success creates a session, returning its token for
/// the caller to place in the session cookie.  On any failure no session
/// is created and no token leaves.  An unknown handle and a wrong password
/// collapse to the same error, so login reveals nothing about which
/// handles exist.
pub fn login(username: &str, password: &str, conn: &rusqlite::Connection) -> (r: Result<
    String,
    AuthError,
>)
    ensures
        r matches Ok(t) ==> t@.len() == 13 && (exists|b: Seq<u8>|
            b.len() == 8 && t@ == crate::crypto::crockford32_of(b)) && (forall|i: int|
            0 <= i < t@.len() ==> crate::crypto::is_crockford_char(t@[i])),
        r matches Err(e) ==> (e == AuthError::InvalidCredentials || e == AuthError::DatabaseError
            || e matches AuthError::UserError(_) || e matches AuthError::SessionError(_)),
{
    let row = match db_user_by_handle(conn, username) {
        Ok(found) => found,
        Err(_) => {
            return Err(AuthError::DatabaseError);
        },
    };
    match decide_basic_row(&row, password) {
        Ok(uid) => match Session::create(uid, conn) {
            Ok(t) => Ok(t),
            Err(e) => Err(AuthError::SessionError(e)),
        },
        Err(e) => Err(e),
    }
}

} // verus!
