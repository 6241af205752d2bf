use base64::Engine;
use rusqlite::Connection;

use zbiorauth::auth::AuthError;
use zbiorauth::auth::COOKIE_NAME;
use zbiorauth::auth::login;
use zbiorauth::pwd::hash_password;
use zbiorauth::sessions::SESSION_LIFETIME_SECS;
use zbiorauth::sessions::Session;
use zbiorauth::sessions::SessionStructError;
use zbiorauth::users::User;
use zbiorauth::users::UserStructError;

const ALICE_ID: &str = "11111111-1111-1111-1111-111111111111";

fn open_store() -> Connection {
    let conn = Connection::open_in_memory().unwrap();
    conn.execute_batch(
        "CREATE TABLE users (
             id TEXT PRIMARY KEY,
             handle TEXT UNIQUE NOT NULL,
             passhash TEXT NOT NULL
         );
         CREATE TABLE sessions (
             id TEXT PRIMARY KEY,
             token TEXT UNIQUE NOT NULL,
             user_id TEXT NOT NULL,
             expiry INTEGER NOT NULL,
             last_access INTEGER NOT NULL,
             revoked INTEGER NOT NULL DEFAULT 0,
             revoked_at INTEGER
         );",
    )
    .unwrap();
    conn
}

fn add_user(conn: &Connection, id: &str, handle: &str, password: &str) {
    let hash = hash_password(password).unwrap();
    conn.execute("INSERT INTO users VALUES (?1, ?2, ?3)", (id, handle, hash)).unwrap();
}

fn basic_header(userpass: &str) -> String {
    format!("Basic {}", base64::engine::general_purpose::STANDARD.encode(userpass))
}

fn cookie_header(token: &str) -> String {
    format!("{}={}", COOKIE_NAME, token)
}

#[test]
fn basic_credentials_authenticate_alice() {
    let conn = open_store();
    add_user(&conn, ALICE_ID, "alice", "p@ss");
    let auths = vec![basic_header("alice:p@ss")];
    let r = User::authenticate(&auths, &vec![], &conn).unwrap();
    let user = r.unwrap();
    assert_eq!(user.handle, "alice");
    assert_eq!(user.id, uuid::Uuid::parse_str(ALICE_ID).unwrap().as_u128());
}

#[test]
fn login_token_authenticates_until_expiry() {
    let conn = open_store();
    add_user(&conn, ALICE_ID, "alice", "p@ss");
    let token = login("alice", "p@ss", &conn).unwrap();
    let cookies = vec![cookie_header(&token)];
    let r = User::authenticate(&vec![], &cookies, &conn).unwrap();
    assert_eq!(r.unwrap().handle, "alice");
    // The clock passes the 30-day expiry: the same token is now invalid.
    conn.execute("UPDATE sessions SET expiry = 1 WHERE token = ?1", (token.as_str(),)).unwrap();
    let r = User::authenticate(&vec![], &cookies, &conn);
    assert_eq!(r, Err(AuthError::InvalidCredentials));
}

#[test]
fn revoked_session_is_invalid() {
    let conn = open_store();
    add_user(&conn, ALICE_ID, "alice", "p@ss");
    let token = login("alice", "p@ss", &conn).unwrap();
    conn.execute(
        "UPDATE sessions SET revoked = 1, revoked_at = last_access WHERE token = ?1",
        (token.as_str(),),
    )
    .unwrap();
    let cookies = vec![cookie_header(&token)];
    let r = User::authenticate(&vec![], &cookies, &conn);
    assert_eq!(r, Err(AuthError::InvalidCredentials));
}

#[test]
fn malformed_basic_payload_is_malformed_not_invalid() {
    let conn = open_store();
    add_user(&conn, ALICE_ID, "alice", "p@ss");
    let auths = vec![String::from("Basic not-base64!!")];
    let r = User::authenticate(&auths, &vec![], &conn);
    assert_eq!(r, Err(AuthError::InvalidBase64));
    assert_eq!(r.unwrap_err().status_code(), 400);
}

#[test]
fn basic_payload_without_separator_is_malformed() {
    let conn = open_store();
    add_user(&conn, ALICE_ID, "alice", "p@ss");
    let auths = vec![basic_header("alicenocolon")];
    let r = User::authenticate(&auths, &vec![], &conn);
    assert_eq!(r, Err(AuthError::InvalidFormat));
}

#[test]
fn basic_payload_with_bad_utf8_is_malformed() {
    let conn = open_store();
    add_user(&conn, ALICE_ID, "alice", "p@ss");
    let payload = base64::engine::general_purpose::STANDARD.encode([0xffu8, 0xfe, 0x3a, 0x41]);
    let auths = vec![format!("Basic {payload}")];
    let r = User::authenticate(&auths, &vec![], &conn);
    assert_eq!(r, Err(AuthError::InvalidUtf8));
}

#[test]
fn empty_cookie_value_is_attempted_and_invalid() {
    // A bare session cookie with an empty value is still a credential: it
    // is attempted, never issued, and so refused as invalid.
    let conn = open_store();
    add_user(&conn, ALICE_ID, "alice", "p@ss");
    let cookies = vec![String::from("wpikzbiorauth=")];
    let r = User::authenticate(&vec![], &cookies, &conn);
    assert_eq!(r, Err(AuthError::InvalidCredentials));
}

#[test]
fn unknown_bearer_token_is_invalid_not_internal() {
    let conn = open_store();
    add_user(&conn, ALICE_ID, "alice", "p@ss");
    let cookies = vec![cookie_header("NEVERISSUED00")];
    let r = User::authenticate(&vec![], &cookies, &conn);
    assert_eq!(r, Err(AuthError::InvalidCredentials));
    assert_eq!(r.unwrap_err().status_code(), 401);
}

#[test]
fn wrong_password_is_invalid() {
    let conn = open_store();
    add_user(&conn, ALICE_ID, "alice", "p@ss");
    let auths = vec![basic_header("alice:wrong")];
    let r = User::authenticate(&auths, &vec![], &conn);
    assert_eq!(r, Err(AuthError::InvalidCredentials));
}

#[test]
fn unknown_handle_is_invalid() {
    let conn = open_store();
    add_user(&conn, ALICE_ID, "alice", "p@ss");
    let auths = vec![basic_header("bob:p@ss")];
    let r = User::authenticate(&auths, &vec![], &conn);
    assert_eq!(r, Err(AuthError::InvalidCredentials));
}

#[test]
fn no_credentials_is_anonymous_not_error() {
    let conn = open_store();
    add_user(&conn, ALICE_ID, "alice", "p@ss");
    assert_eq!(User::authenticate(&vec![], &vec![], &conn), Ok(None));
    let auths = vec![String::from("Negotiate xyz")];
    assert_eq!(User::authenticate(&auths, &vec![], &conn), Ok(None));
}

#[test]
fn failing_basic_does_not_fall_back_to_valid_cookie() {
    // The tie-break end to end: a wrong-password Basic header beats a
    // perfectly valid session cookie, and the request stays refused.
    let conn = open_store();
    add_user(&conn, ALICE_ID, "alice", "p@ss");
    let token = login("alice", "p@ss", &conn).unwrap();
    let auths = vec![basic_header("alice:wrong")];
    let cookies = vec![cookie_header(&token)];
    let r = User::authenticate(&auths, &cookies, &conn);
    assert_eq!(r, Err(AuthError::InvalidCredentials));
}

#[test]
fn login_failures_leave_no_session() {
    let conn = open_store();
    add_user(&conn, ALICE_ID, "alice", "p@ss");
    assert_eq!(login("alice", "wrong", &conn), Err(AuthError::InvalidCredentials));
    assert_eq!(login("bob", "p@ss", &conn), Err(AuthError::InvalidCredentials));
    let count: i64 =
        conn.query_row("SELECT COUNT(*) FROM sessions", (), |row| row.get(0)).unwrap();
    assert_eq!(count, 0);
}

#[test]
fn created_session_lives_thirty_days() {
    let conn = open_store();
    add_user(&conn, ALICE_ID, "alice", "p@ss");
    let before = chrono::Utc::now().timestamp();
    let token = login("alice", "p@ss", &conn).unwrap();
    let after = chrono::Utc::now().timestamp();
    let session = Session::get_by_token(&token, &conn).unwrap();
    assert_eq!(session.expiry, session.last_access + SESSION_LIFETIME_SECS);
    assert!(before <= session.last_access && session.last_access <= after);
    assert!(!session.revoked);
    assert_eq!(session.revoked_at, None);
    assert_eq!(session.user_id, uuid::Uuid::parse_str(ALICE_ID).unwrap().as_u128());
}

#[test]
fn session_lookups_by_token_and_id_agree() {
    let conn = open_store();
    add_user(&conn, ALICE_ID, "alice", "p@ss");
    let token = login("alice", "p@ss", &conn).unwrap();
    let by_token = Session::get_by_token(&token, &conn).unwrap();
    let by_id = Session::get_by_id(by_token.id, &conn).unwrap();
    assert_eq!(by_id.user_id, by_token.user_id);
    assert_eq!(by_id.expiry, by_token.expiry);
    // The creation instant is derivable from the time-ordered id itself.
    let issued = by_token.issued().unwrap();
    assert!((issued - by_token.last_access).abs() <= 2);
}

#[test]
fn token_lookup_is_exact_no_prefix_match() {
    let conn = open_store();
    add_user(&conn, ALICE_ID, "alice", "p@ss");
    let token = login("alice", "p@ss", &conn).unwrap();
    let prefix = &token[..token.len() - 1];
    assert_eq!(Session::get_by_token(prefix, &conn), Err(SessionStructError::NotFound));
    let longer = format!("{token}0");
    assert_eq!(Session::get_by_token(&longer, &conn), Err(SessionStructError::NotFound));
}

#[test]
fn user_lookup_by_id_round_trips() {
    let conn = open_store();
    add_user(&conn, ALICE_ID, "alice", "p@ss");
    let id = uuid::Uuid::parse_str(ALICE_ID).unwrap().as_u128();
    let user = User::get_by_uuid(id, &conn).unwrap();
    assert_eq!(user.handle, "alice");
    assert_eq!(user.id, id);
    assert_eq!(User::get_by_uuid(id + 1, &conn), Err(UserStructError::UserSqlError));
}

#[test]
fn corrupt_stored_user_id_is_internal_error() {
    let conn = open_store();
    add_user(&conn, "not-a-uuid", "alice", "p@ss");
    let auths = vec![basic_header("alice:p@ss")];
    let r = User::authenticate(&auths, &vec![], &conn);
    assert_eq!(r, Err(AuthError::UserError(UserStructError::NonUuidPrimaryKey)));
    assert_eq!(r.unwrap_err().status_code(), 500);
}

#[test]
fn corrupt_stored_hash_stays_a_refusal() {
    let conn = open_store();
    conn.execute("INSERT INTO users VALUES (?1, ?2, ?3)", (ALICE_ID, "alice", "garbage"))
        .unwrap();
    let auths = vec![basic_header("alice:p@ss")];
    let r = User::authenticate(&auths, &vec![], &conn);
    assert_eq!(r, Err(AuthError::InvalidCredentials));
}

#[test]
fn missing_store_is_internal_error() {
    let conn = Connection::open_in_memory().unwrap();
    // No tables at all: the handle lookup fails as a storage error.
    let auths = vec![basic_header("alice:p@ss")];
    let r = User::authenticate(&auths, &vec![], &conn);
    assert_eq!(r, Err(AuthError::DatabaseError));
    assert_eq!(r.unwrap_err().status_code(), 500);
}

#[test]
fn corrupt_session_row_is_internal_error() {
    let conn = open_store();
    add_user(&conn, ALICE_ID, "alice", "p@ss");
    conn.execute(
        "INSERT INTO sessions VALUES ('not-a-uuid', 'TOKTOKTOKTOK1', ?1, 9999999999, 0, 0, NULL)",
        (ALICE_ID,),
    )
    .unwrap();
    assert_eq!(
        Session::get_by_token("TOKTOKTOKTOK1", &conn),
        Err(SessionStructError::NonUuidPrimaryKey)
    );
    let cookies = vec![cookie_header("TOKTOKTOKTOK1")];
    let r = User::authenticate(&vec![], &cookies, &conn);
    assert_eq!(r, Err(AuthError::SessionError(SessionStructError::NonUuidPrimaryKey)));
    assert_eq!(r.unwrap_err().status_code(), 500);
}

#[test]
fn corrupt_session_owner_is_internal_error() {
    let conn = open_store();
    add_user(&conn, ALICE_ID, "alice", "p@ss");
    conn.execute(
        "INSERT INTO sessions VALUES \
         ('22222222-2222-2222-2222-222222222222', 'TOKTOKTOKTOK2', 'not-a-uuid', \
          9999999999, 0, 0, NULL)",
        (),
    )
    .unwrap();
    assert_eq!(
        Session::get_by_token("TOKTOKTOKTOK2", &conn),
        Err(SessionStructError::NonUuidUserId)
    );
}

#[test]
fn missing_session_table_is_storage_error() {
    let conn = Connection::open_in_memory().unwrap();
    conn.execute_batch(
        "CREATE TABLE users (
             id TEXT PRIMARY KEY,
             handle TEXT UNIQUE NOT NULL,
             passhash TEXT NOT NULL
         );",
    )
    .unwrap();
    assert_eq!(
        Session::get_by_token("ANYTOKEN00000", &conn),
        Err(SessionStructError::UserSqlError)
    );
    let cookies = vec![cookie_header("ANYTOKEN00000")];
    let r = User::authenticate(&vec![], &cookies, &conn);
    assert_eq!(r, Err(AuthError::SessionError(SessionStructError::UserSqlError)));
}

#[test]
fn valid_session_with_missing_owner_is_internal_error() {
    // The Invalid/InternalError line: once a session is found and valid,
    // a failing owner lookup is a server fault, never "invalid
    // credentials".
    let conn = open_store();
    conn.execute(
        "INSERT INTO sessions VALUES \
         ('33333333-3333-3333-3333-333333333333', 'TOKTOKTOKTOK3', \
          '44444444-4444-4444-4444-444444444444', 9999999999, 0, 0, NULL)",
        (),
    )
    .unwrap();
    let cookies = vec![cookie_header("TOKTOKTOKTOK3")];
    let r = User::authenticate(&vec![], &cookies, &conn);
    assert_eq!(r, Err(AuthError::UserError(UserStructError::UserSqlError)));
    assert_eq!(r.unwrap_err().status_code(), 500);
}
