//! The persistence collaborator: point lookups and inserts on the `users`
//! and `sessions` tables, each a single exact-match statement.
//!
//! Results depend on what is stored, so the wrappers promise nothing of the
//! returned values; the callers state what they do with every outcome.  A
//! missing row is `Ok(None)` — a normal outcome — while `Err` is a storage
//! failure.

use vstd::prelude::*;

verus! {

/// A database connection of the surrounding application (rusqlite).
#[verifier::external_type_specification]
#[verifier::external_body]
pub struct ExConnection(rusqlite::Connection);

/// A storage error of the persistence layer (rusqlite).
#[verifier::external_type_specification]
#[verifier::external_body]
pub struct ExSqlError(rusqlite::Error);

/// One row of the `sessions` table, as stored.
pub struct SessionRow {
    pub id: String,
    pub token: String,
    pub user_id: String,
    pub expiry: i64,
    pub last_access: i64,
    pub revoked: bool,
    pub revoked_at: Option<i64>,
}

/// Relies on `Connection::query_row` (rusqlite): point lookup of `id` and
/// `passhash` in `users` by exact handle; a missing row becomes `Ok(None)`.
#[verifier::external_body]
pub(crate) fn db_user_by_handle(conn: &rusqlite::Connection, handle: &str) -> (r: Result<
    Option<(String, String)>,
    rusqlite::Error,
>) {
    let q = "SELECT id, passhash FROM users WHERE handle = ?1";
    match conn.query_row(q, (handle,), |row| Ok((row.get(0)?, row.get(1)?))) {
        Ok(v) => Ok(Some(v)),
        Err(rusqlite::Error::QueryReturnedNoRows) => Ok(None),
        Err(e) => Err(e),
    }
}

/// Relies on `Connection::query_row` (rusqlite): point lookup of `id` and
/// `handle` in `users` by exact identifier text; a missing row becomes
/// `Ok(None)`.  The statement's `=` predicate on a TEXT column under the
/// default binary collation matches byte for byte, so any returned key
/// column equals the argument.
#[verifier::external_body]
pub(crate) fn db_user_by_id(conn: &rusqlite::Connection, id: &str) -> (r: Result<
    Option<(String, String)>,
    rusqlite::Error,
>)
    ensures
        match r {
            Ok(Some(row)) => row.0@ == id@,
            _ => true,
        },
{
    let q = "SELECT id, handle FROM users WHERE id = ?1";
    match conn.query_row(q, (id,), |row| Ok((row.get(0)?, row.get(1)?))) {
        Ok(v) => Ok(Some(v)),
        Err(rusqlite::Error::QueryReturnedNoRows) => Ok(None),
        Err(e) => Err(e),
    }
}

/// Relies on `Connection::query_row` (rusqlite): point lookup of one
/// session row by exact token; a missing row becomes `Ok(None)`.  The
/// statement's `=` predicate on a TEXT column under the default binary
/// collation matches byte for byte — no prefix or partial matching — so
/// any returned token column equals the argument.
#[verifier::external_body]
pub(crate) fn db_session_by_token(conn: &rusqlite::Connection, token: &str) -> (r: Result<
    Option<SessionRow>,
    rusqlite::Error,
>)
    ensures
        match r {
            Ok(Some(row)) => row.token@ == token@,
            _ => true,
        },
{
    let q =
        "SELECT id, token, user_id, expiry, last_access, revoked, revoked_at FROM sessions WHERE token = ?1";
    let res = conn.query_row(q, (token,), |row| {
        Ok(SessionRow {
            id: row.get(0)?, token: row.get(1)?, user_id: row.get(2)?, expiry: row.get(3)?,
            last_access: row.get(4)?, revoked: row.get(5)?, revoked_at: row.get(6)?,
        })
    });
    match res {
        Ok(v) => Ok(Some(v)),
        Err(rusqlite::Error::QueryReturnedNoRows) => Ok(None),
        Err(e) => Err(e),
    }
}

/// Relies on `Connection::query_row` (rusqlite): point lookup of one
/// session row by exact identifier text; a missing row becomes `Ok(None)`.
/// The statement's `=` predicate on a TEXT column under the default binary
/// collation matches byte for byte, so any returned key column equals the
/// argument.
#[verifier::external_body]
pub(crate) fn db_session_by_id(conn: &rusqlite::Connection, id: &str) -> (r: Result<
    Option<SessionRow>,
    rusqlite::Error,
>)
    ensures
        match r {
            Ok(Some(row)) => row.id@ == id@,
            _ => true,
        },
{
    let q =
        "SELECT id, token, user_id, expiry, last_access, revoked, revoked_at FROM sessions WHERE id = ?1";
    let res = conn.query_row(q, (id,), |row| {
        Ok(SessionRow {
            id: row.get(0)?, token: row.get(1)?, user_id: row.get(2)?, expiry: row.get(3)?,
            last_access: row.get(4)?, revoked: row.get(5)?, revoked_at: row.get(6)?,
        })
    });
    match res {
        Ok(v) => Ok(Some(v)),
        Err(rusqlite::Error::QueryReturnedNoRows) => Ok(None),
        Err(e) => Err(e),
    }
}

/// Relies on `Connection::execute` (rusqlite): inserts one fully formed,
/// unrevoked session row in a single statement, so the row is either
/// written whole or not at all.
#[verifier::external_body]
pub(crate) fn db_insert_session(
    conn: &rusqlite::Connection,
    id: &str,
    token: &str,
    user_id: &str,
    expiry: i64,
    last_access: i64,
) -> (r: Result<(), rusqlite::Error>) {
    let q =
        "INSERT INTO sessions (id, token, user_id, expiry, last_access, revoked) VALUES (?1, ?2, ?3, ?4, ?5, 0)";
    match conn.execute(q, (id, token, user_id, expiry, last_access)) {
        Ok(_) => Ok(()),
        Err(e) => Err(e),
    }
}

} // verus!
