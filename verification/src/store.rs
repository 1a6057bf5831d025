//! What the store computes around its queries: the row of a new user with
//! its salted password hash, the verdict on a password, the row of a new
//! message, and the shape in which persisted messages reach the handler.
//!
//! The queries themselves are the work of whoever holds the database.
//! Password hashing is done by the `bcrypt` crate.

use vstd::prelude::*;
use crate::codec::{content_bytes, content_fits, write_content};
use crate::db::{
    author_view, Message, SavedMessage, ToBeInsertedMessage, ToBeInsertedMessageView,
    ToBeInsertedUser, ToBeInsertedUserView, User, UserView,
};
use crate::errors::DBError;
use crate::random::random_bytes;
use crate::structs::MessageContent;

verus! {

/// The length of a password salt, in bytes.
pub const SALT_LENGTH: usize = 16;

/// `bcrypt::BcryptError`, returned by the crate's calls and mapped to
/// [`DBError`] without being inspected.
#[verifier::external_type_specification]
#[verifier::external_body]
pub struct ExBcryptError(bcrypt::BcryptError);

/// The hash string that `bcrypt::hash_with_salt` makes of `password` at the
/// crate's default cost with the 16 bytes of `salt`, or nothing where it
/// fails.
pub uninterp spec fn password_hash(password: Seq<char>, salt: Seq<u8>) -> Option<Seq<char>>;

/// What `bcrypt::verify` says of `password` against the hash string `hash`:
/// whether they match, or nothing where it fails, as it does on a string
/// that is no hash.
pub uninterp spec fn password_verdict(password: Seq<char>, hash: Seq<char>) -> Option<bool>;

/// Calls `bcrypt::hash_with_salt` with the crate's `DEFAULT_COST` and renders
/// the result with its `to_string`.
///
/// Trusted: the result is the crate's answer, which [`password_hash`] names;
/// and a hash that the crate made of a password is one that its `verify`
/// accepts for the same password.
#[verifier::external_body]
fn hash_password(password: &str, salt: &[u8]) -> (r: Result<String, bcrypt::BcryptError>)
    requires
        salt@.len() == SALT_LENGTH,
    ensures
        match r {
            Ok(hash) => password_hash(password@, salt@) == Some(hash@),
            Err(_) => password_hash(password@, salt@) is None,
        },
        r matches Ok(hash) ==> password_verdict(password@, hash@) == Some(true),
{
    let mut fixed = [0u8; 16];
    fixed.copy_from_slice(salt);
    match bcrypt::hash_with_salt(password, bcrypt::DEFAULT_COST, fixed) {
        Ok(parts) => Ok(parts.to_string()),
        Err(e) => Err(e),
    }
}

/// Calls `bcrypt::verify`.
///
/// Trusted: the result is the crate's answer, which [`password_verdict`]
/// names.
#[verifier::external_body]
fn verify_password(password: &str, hash: &str) -> (r: Result<bool, bcrypt::BcryptError>)
    ensures
        match r {
            Ok(verdict) => password_verdict(password@, hash@) == Some(verdict),
            Err(_) => password_verdict(password@, hash@) is None,
        },
{
    bcrypt::verify(password, hash)
}

/// The row of a new user whose password is hashed with `salt`. A salt of
/// another length than 16 bytes gives no row, nor does a failure to hash.
pub open spec fn prepared_user(username: Seq<char>, password: Seq<char>, salt: Seq<u8>) -> Result<
    ToBeInsertedUserView,
    DBError,
> {
    if salt.len() != SALT_LENGTH {
        Err(DBError::UserInsertionError)
    } else {
        match password_hash(password, salt) {
            Some(hash) => Ok(ToBeInsertedUserView { username, password: hash, salt }),
            None => Err(DBError::UserInsertionError),
        }
    }
}

/// The password is the one that the stored hash was made of.
pub open spec fn accepts(hash: Seq<char>, password: Seq<char>) -> bool {
    password_verdict(password, hash) == Some(true)
}

/// Prepares the row of a new user: the password is kept as its hash with
/// `salt`, never as it is. The hash that comes out accepts the password.
pub fn new_user_with_salt(username: String, password: &str, salt: Vec<u8>) -> (r: Result<
    ToBeInsertedUser,
    DBError,
>)
    ensures
        match r {
            Ok(user) => prepared_user(username@, password@, salt@) == Ok::<
                ToBeInsertedUserView,
                DBError,
            >(user@) && accepts(user.password@, password@),
            Err(e) => prepared_user(username@, password@, salt@) == Err::<
                ToBeInsertedUserView,
                DBError,
            >(e),
        },
{
    if salt.len() != SALT_LENGTH {
        return Err(DBError::UserInsertionError);
    }
    match hash_password(password, salt.as_slice()) {
        Ok(hash) => Ok(ToBeInsertedUser::new(username, hash, salt)),
        Err(_) => Err(DBError::UserInsertionError),
    }
}

/// Prepares the row of a new user with a fresh random salt. The hash that
/// comes out accepts the password.
pub fn new_user(username: String, password: &str) -> (r: Result<ToBeInsertedUser, DBError>)
    ensures
        match r {
            Ok(user) => user.salt@.len() == SALT_LENGTH && prepared_user(
                username@,
                password@,
                user.salt@,
            ) == Ok::<ToBeInsertedUserView, DBError>(user@) && accepts(
                user.password@,
                password@,
            ),
            Err(e) => e == DBError::UserInsertionError,
        },
{
    let salt = random_bytes(SALT_LENGTH);
    new_user_with_salt(username, password, salt)
}

/// The verdict on a password, given what the store found under the
/// username: the store's failure where it found nothing, a verification
/// failure where the stored hash is none, else whether the hash accepts the
/// password.
pub open spec fn password_check(found: Result<UserView, DBError>, password: Seq<char>) -> Result<
    bool,
    DBError,
> {
    match found {
        Err(e) => Err(e),
        Ok(user) => match password_verdict(password, user.password) {
            Some(verdict) => Ok(verdict),
            None => Err(DBError::PasswordVerificationError),
        },
    }
}

/// Decides whether `password` is the password of the user that the store
/// found under a username.
pub fn check_password(found: &Result<User, DBError>, password: &str) -> (r: Result<bool, DBError>)
    ensures
        r == password_check(author_view(*found), password@),
{
    match found {
        Err(e) => Err(*e),
        Ok(user) => match verify_password(password, user.password.as_str()) {
            Ok(verdict) => Ok(verdict),
            Err(_) => Err(DBError::PasswordVerificationError),
        },
    }
}

/// The id of the user that the store found under a username. A row without
/// an id counts as not found.
pub open spec fn found_user_id(found: Result<UserView, DBError>) -> Result<i32, DBError> {
    match found {
        Err(e) => Err(e),
        Ok(user) => match user.id {
            Some(id) => Ok(id),
            None => Err(DBError::UserNotFoundError),
        },
    }
}

/// The id of the user that the store found under a username.
pub fn get_user_id(found: &Result<User, DBError>) -> (r: Result<i32, DBError>)
    ensures
        r == found_user_id(author_view(*found)),
{
    match found {
        Err(e) => Err(*e),
        Ok(user) => match user.id {
            Some(id) => Ok(id),
            None => Err(DBError::UserNotFoundError),
        },
    }
}

/// Prepares the row of a new message: the content is kept in its wire
/// encoding.
pub fn new_message(user_id: i32, message: &MessageContent) -> (row: ToBeInsertedMessage)
    ensures
        row@ == (ToBeInsertedMessageView { user_id, content: content_bytes(message@) }),
        content_fits(message@),
{
    let mut content: Vec<u8> = Vec::new();
    write_content(&mut content, message);
    assert(content@ =~= content_bytes(message@));
    ToBeInsertedMessage::new(user_id, content)
}

/// Puts a persisted message together with what the store found of its
/// author.
pub fn with_author(message: Message, author: Result<User, DBError>) -> (saved: SavedMessage)
    ensures
        saved == (SavedMessage { message, author }),
{
    SavedMessage { message, author }
}

/// Turns rows that were read newest first into the order in which history is
/// handed out: oldest first.
pub fn oldest_first<T>(newest_first: Vec<T>) -> (rows: Vec<T>)
    ensures
        rows@ == newest_first@.reverse(),
{
    let ghost all = newest_first@;
    let mut rest = newest_first;
    let mut rows: Vec<T> = Vec::new();
    while rest.len() > 0
        invariant
            rest@.len() <= all.len(),
            rest@ == all.subrange(0, rest@.len() as int),
            rows@.len() == all.len() - rest@.len(),
            forall|k: int| 0 <= k < rows@.len() ==> rows@[k] == all[all.len() - 1 - k],
        decreases rest@.len(),
    {
        let ghost before = rest@;
        match rest.pop() {
            Some(row) => {
                assert(row == all[before.len() - 1]);
                rows.push(row);
            },
            None => {},
        }
    }
    assert(rows@ =~= all.reverse());
    rows
}

/// The rows that a history request asks the store for, as the store reads
/// them: of a log kept by rising id, the `amount` newest rows behind the
/// `offset` newest, newest first. There are fewer where the log runs out.
pub open spec fn newest_window<T>(log: Seq<T>, amount: int, offset: int) -> Seq<T> {
    let from = if offset < 0 {
        0
    } else if offset > log.len() {
        log.len() as int
    } else {
        offset
    };
    let to = if amount < 0 || from + amount > log.len() {
        log.len() as int
    } else {
        from + amount
    };
    log.reverse().subrange(from, to)
}

/// Of a log that holds at least `amount` rows, the window that starts at the
/// newest row, turned oldest first, is the last `amount` rows of the log as
/// they stand in it: exactly `amount` rows, the most recent ones, in the
/// log's order.
pub proof fn lemma_recent_window<T>(log: Seq<T>, amount: int)
    requires
        0 <= amount <= log.len(),
    ensures
        newest_window(log, amount, 0).reverse() == log.subrange(
            log.len() - amount,
            log.len() as int,
        ),
        newest_window(log, amount, 0).reverse().len() == amount,
{
    let window = newest_window(log, amount, 0).reverse();
    let last = log.subrange(log.len() - amount, log.len() as int);
    assert(window.len() == amount);
    assert forall|i: int| 0 <= i < amount implies window[i] == last[i] by {
        assert(window[i] == newest_window(log, amount, 0)[amount - 1 - i]);
        assert(newest_window(log, amount, 0)[amount - 1 - i] == log.reverse()[amount - 1 - i]);
    }
    assert(window =~= last);
}

/// The ids grow from each row to the next.
pub open spec fn ids_increase(ids: Seq<int>) -> bool {
    forall|i: int, j: int| 0 <= i < j < ids.len() ==> ids[i] < ids[j]
}

/// The ids shrink from each row to the next.
pub open spec fn ids_decrease(ids: Seq<int>) -> bool {
    forall|i: int, j: int| 0 <= i < j < ids.len() ==> ids[i] > ids[j]
}

/// Rows that were read by falling id come out, oldest first, by rising id,
/// and none is lost or repeated on the way.
pub proof fn lemma_oldest_first_has_rising_ids(ids: Seq<int>)
    requires
        ids_decrease(ids),
    ensures
        ids_increase(ids.reverse()),
        ids.reverse().len() == ids.len(),
        ids.reverse().reverse() == ids,
{
    let r = ids.reverse();
    assert forall|i: int, j: int| 0 <= i < j < r.len() implies r[i] < r[j] by {
        assert(r[i] == ids[ids.len() - 1 - i]);
        assert(r[j] == ids[ids.len() - 1 - j]);
    }
    assert(ids.reverse().reverse() =~= ids);
}

/// A password that a user's row was prepared with passes the check against
/// that row, whatever id the store gave the row.
pub proof fn lemma_prepared_password_is_accepted(
    prepared: ToBeInsertedUserView,
    password: Seq<char>,
    id: Option<i32>,
)
    requires
        accepts(prepared.password, password),
    ensures
        password_check(
            Ok(
                (UserView {
                    id,
                    username: prepared.username,
                    password: prepared.password,
                    salt: prepared.salt,
                }),
            ),
            password,
        ) == Ok::<bool, DBError>(true),
{
}

} // verus!
