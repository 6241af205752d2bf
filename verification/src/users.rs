//! User identity records and their store-mediated lookup.

use vstd::prelude::*;
use crate::db::db_user_by_id;
use crate::ids::parse_uuid;
use crate::ids::uuid_of;
use crate::ids::uuid_to_string;

verus! {

/// An identity record: a 128-bit unique identifier and a unique
/// human-readable handle.  Never mutated by this library.
#[derive(Debug, Clone, PartialEq, Eq)]
pub struct User {
    pub id: u128,
    pub handle: String,
}

/// Failure of a user lookup.
#[derive(Debug, Clone, PartialEq, Eq)]
pub enum UserStructError {
    /// The store failed, or held no such row.
    UserSqlError,
    /// The stored primary key is not a well-formed unique identifier.
    NonUuidPrimaryKey,
}

/// The identifier reserved for the built-in administrative account: the
/// all-ones (maximum) UUID value.
pub open spec fn infradmin_id() -> u128 {
    u128::MAX
}

impl User {
    /// Whether this is the built-in administrative account, the only
    /// privilege distinction the library knows.
    pub fn is_infradmin(&self) -> (r: bool)
        ensures
            r == (self.id == infradmin_id()),
    {
        self.id == u128::MAX
    }

    /// Looks the user up by identifier.  The outcome depends on the store
    /// and is decided exactly by `user_of_lookup`: a missing row or a
    /// storage failure is `UserSqlError`, a row whose stored key is not a
    /// well-formed identifier is `NonUuidPrimaryKey`.  Any user returned
    /// carries the identifier asked for — the lookup is an exact match on
    /// the identifier's canonical text, which parses back to the same
    /// value — and the handle of a stored row whose key denotes that
    /// identifier.
    pub fn get_by_uuid(id: u128, conn: &rusqlite::Connection) -> (r: Result<User, UserStructError>)
        ensures
            r matches Ok(u) ==> u.id == id && (exists|row: (String, String)|
                uuid_of(row.0@) == Some(id) && u.handle@ == row.1@),
    {
        let pk = uuid_to_string(id);
        let found = db_user_by_id(conn, pk.as_str());
        let ghost gfound = found;
        let r = user_from_lookup(found);
        proof {
            if r is Ok {
                match gfound {
                    Ok(opt) => match opt {
                        Some(row) => {
                            assert(row.0@ == pk@);
                            assert(uuid_of(row.0@) == Some(id) && r->Ok_0.handle@ == row.1@);
                        },
                        None => {},
                    },
                    Err(_) => {},
                }
            }
        }
        r
    }
}

/// The user a stored lookup outcome denotes: a found row whose key parses
/// converts, a non-parsing key is corruption, and a miss or a storage
/// failure is `UserSqlError`.
pub open spec fn user_of_lookup(found: Result<Option<(String, String)>, rusqlite::Error>) -> Result<
    User,
    UserStructError,
> {
    match found {
        Ok(opt) => match opt {
            Some(row) => match uuid_of(row.0@) {
                Some(v) => Ok(User { id: v, handle: row.1 }),
                None => Err(UserStructError::NonUuidPrimaryKey),
            },
            None => Err(UserStructError::UserSqlError),
        },
        Err(_) => Err(UserStructError::UserSqlError),
    }
}

/// Decides one lookup outcome: exactly the mapping `user_of_lookup`
/// states.
fn user_from_lookup(found: Result<Option<(String, String)>, rusqlite::Error>) -> (r: Result<
    User,
    UserStructError,
>)
    ensures
        r == user_of_lookup(found),
{
    match found {
        Ok(Some((id_str, handle))) => match parse_uuid(id_str.as_str()) {
            Some(v) => Ok(User { id: v, handle }),
            None => Err(UserStructError::NonUuidPrimaryKey),
        },
        Ok(None) => Err(UserStructError::UserSqlError),
        Err(_) => Err(UserStructError::UserSqlError),
    }
}

} // verus!
