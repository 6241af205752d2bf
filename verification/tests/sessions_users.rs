use zbiorauth::auth::AuthError;
use zbiorauth::sessions::Session;
use zbiorauth::sessions::SessionStructError;
use zbiorauth::users::User;
use zbiorauth::users::UserStructError;

fn session(expiry: i64, revoked: bool) -> Session {
    Session {
        id: 7,
        user_id: 9,
        expiry,
        last_access: 0,
        revoked,
        revoked_at: if revoked { Some(50) } else { None },
    }
}

#[test]
fn past_expiry_is_invalid_regardless_of_revocation() {
    let now: i64 = 1_000;
    assert!(session(999, false).is_expired_or_revoked(now));
    assert!(session(999, true).is_expired_or_revoked(now));
}

#[test]
fn revoked_is_invalid_regardless_of_expiry() {
    let now: i64 = 1_000;
    assert!(session(2_000, true).is_expired_or_revoked(now));
    assert!(session(999, true).is_expired_or_revoked(now));
}

#[test]
fn future_expiry_and_unrevoked_is_valid() {
    let now: i64 = 1_000;
    assert!(!session(1_001, false).is_expired_or_revoked(now));
}

#[test]
fn expiry_instant_itself_is_invalid() {
    let now: i64 = 1_000;
    assert!(session(1_000, false).is_expired_or_revoked(now));
}

#[test]
fn session_exposes_its_owner() {
    assert_eq!(session(1, false).user_id(), 9);
}

#[test]
fn infradmin_carries_the_maximum_id() {
    let admin = User { id: u128::MAX, handle: String::from("admin") };
    let plain = User { id: 5, handle: String::from("alice") };
    assert!(admin.is_infradmin());
    assert!(!plain.is_infradmin());
}

#[test]
fn status_codes_follow_the_error_taxonomy() {
    assert_eq!(AuthError::InvalidCredentials.status_code(), 401);
    assert_eq!(AuthError::InvalidFormat.status_code(), 400);
    assert_eq!(AuthError::InvalidBase64.status_code(), 400);
    assert_eq!(AuthError::InvalidUtf8.status_code(), 400);
    assert_eq!(AuthError::DatabaseError.status_code(), 500);
    assert_eq!(AuthError::SessionError(SessionStructError::UserSqlError).status_code(), 500);
    assert_eq!(AuthError::UserError(UserStructError::NonUuidPrimaryKey).status_code(), 500);
}
