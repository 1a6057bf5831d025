//! The wire format of the protocol types, built from the primitives of
//! [`crate::wire`].
//!
//! A struct is the sequence of its fields in declaration order. An enum is the
//! index of its variant as a `u32`, then the variant's fields. Nothing else is
//! written: no field names, no padding, no terminator.

use vstd::prelude::*;
use crate::db::{User, UserView};
use crate::errors::{DBError, ServerError};
use crate::structs::{
    AuthRequest, AuthRequestKind, AuthRequestView, ErrorResponse, MessageContent,
    MessageContentView, MessageRequest, MessageRequestView, MessageResponse, MessageResponseView,
    ReadRequest, ReadRequestView, ServerResponse, ServerResponseView, StreamRequest,
    StreamRequestView,
};
use crate::wire::{
    blob_at, blob_bytes, blob_fits, i32_at, i32_bytes, lemma_blob_canonical,
    lemma_blob_round_trip, lemma_i32_canonical, lemma_i32_round_trip, lemma_occurs_at_concat,
    lemma_option_i32_canonical, lemma_option_i32_round_trip, lemma_subrange_join,
    lemma_text_canonical, lemma_text_round_trip, lemma_u32_bytes_len, lemma_u32_canonical,
    lemma_u32_round_trip, occurs_at, option_i32_at, option_i32_bytes, read_blob, read_i32,
    read_option_i32, read_text, read_u32, text_at, text_bytes, text_fits, u32_at, u32_bytes,
    write_blob, write_i32, write_option_i32, write_text, write_u32, DecodeError,
};

verus! {

/// What a reader returned is what the format says stands at the position.
pub open spec fn reads<T: View>(
    r: Result<(T, usize), DecodeError>,
    expected: Result<(T::V, int), DecodeError>,
) -> bool {
    match r {
        Ok((x, next)) => expected == Ok::<(T::V, int), DecodeError>((x@, next as int)),
        Err(e) => expected == Err::<(T::V, int), DecodeError>(e),
    }
}

// ---------------------------------------------------------------------------
// MessageContent

/// Every text and byte string of the message content is short enough to be
/// written.
pub open spec fn content_fits(v: MessageContentView) -> bool {
    match v {
        MessageContentView::Image(bytes) => blob_fits(bytes),
        MessageContentView::File(name, bytes) => text_fits(name) && blob_fits(bytes),
        MessageContentView::Text(text) => text_fits(text),
    }
}

/// The encoding of a message content.
pub open spec fn content_bytes(v: MessageContentView) -> Seq<u8> {
    match v {
        MessageContentView::Image(bytes) => u32_bytes(0) + blob_bytes(bytes),
        MessageContentView::File(name, bytes) => u32_bytes(1) + (text_bytes(name) + blob_bytes(
            bytes,
        )),
        MessageContentView::Text(text) => u32_bytes(2) + text_bytes(text),
    }
}

/// The message content that `b` holds at `pos`, and the position behind it.
pub open spec fn content_at(b: Seq<u8>, pos: int) -> Result<
    (MessageContentView, int),
    DecodeError,
> {
    match u32_at(b, pos) {
        Ok((tag, p)) => if tag == 0 {
            match blob_at(b, p) {
                Ok((bytes, next)) => Ok((MessageContentView::Image(bytes), next)),
                Err(e) => Err(e),
            }
        } else if tag == 1 {
            match text_at(b, p) {
                Ok((name, q)) => match blob_at(b, q) {
                    Ok((bytes, next)) => Ok((MessageContentView::File(name, bytes), next)),
                    Err(e) => Err(e),
                },
                Err(e) => Err(e),
            }
        } else if tag == 2 {
            match text_at(b, p) {
                Ok((text, next)) => Ok((MessageContentView::Text(text), next)),
                Err(e) => Err(e),
            }
        } else {
            Err(DecodeError::UnknownTag)
        },
        Err(e) => Err(e),
    }
}

/// Where the encoding of a message content stands, that message content is
/// read, and reading ends
/// right behind the encoding.
pub proof fn lemma_content_round_trip(b: Seq<u8>, pos: int, v: MessageContentView)
    requires
        content_fits(v),
        occurs_at(b, pos, content_bytes(v)),
    ensures
        content_at(b, pos) == Ok::<(MessageContentView, int), DecodeError>(
            (v, pos + content_bytes(v).len()),
        ),
{
    broadcast use lemma_u32_bytes_len;

    match v {
        MessageContentView::Image(bytes) => {
            lemma_occurs_at_concat(b, pos, u32_bytes(0), blob_bytes(bytes));
            lemma_u32_round_trip(b, pos, 0);
            lemma_blob_round_trip(b, pos + 4, bytes);
        },
        MessageContentView::File(name, bytes) => {
            lemma_occurs_at_concat(b, pos, u32_bytes(1), text_bytes(name) + blob_bytes(bytes));
            lemma_occurs_at_concat(b, pos + 4, text_bytes(name), blob_bytes(bytes));
            lemma_u32_round_trip(b, pos, 1);
            lemma_text_round_trip(b, pos + 4, name);
            lemma_blob_round_trip(b, pos + 4 + text_bytes(name).len(), bytes);
        },
        MessageContentView::Text(text) => {
            lemma_occurs_at_concat(b, pos, u32_bytes(2), text_bytes(text));
            lemma_u32_round_trip(b, pos, 2);
            lemma_text_round_trip(b, pos + 4, text);
        },
    }
}

/// Appends the encoding of `x` to `out`.
pub fn write_content(out: &mut Vec<u8>, x: &MessageContent)
    ensures
        final(out)@ == old(out)@ + content_bytes(x@),
        content_fits(x@),
{
    match x {
        MessageContent::Image(bytes) => {
            write_u32(out, 0);
            write_blob(out, bytes.as_slice());
        },
        MessageContent::File(name, bytes) => {
            write_u32(out, 1);
            write_text(out, name.as_str());
            write_blob(out, bytes.as_slice());
        },
        MessageContent::Text(text) => {
            write_u32(out, 2);
            write_text(out, text.as_str());
        },
    }
    assert(out@ =~= old(out)@ + content_bytes(x@));
}

/// Reads the message content at `pos`.
pub fn read_content(buf: &[u8], pos: usize) -> (r: Result<(MessageContent, usize), DecodeError>)
    ensures
        reads(r, content_at(buf@, pos as int)),
{
    let (tag, p) = match read_u32(buf, pos) {
        Ok(v) => v,
        Err(e) => { return Err(e); },
    };
    if tag == 0 {
        match read_blob(buf, p) {
            Ok((bytes, next)) => Ok((MessageContent::Image(bytes), next)),
            Err(e) => Err(e),
        }
    } else if tag == 1 {
        match read_text(buf, p) {
            Ok((name, q)) => match read_blob(buf, q) {
                Ok((bytes, next)) => Ok((MessageContent::File(name, bytes), next)),
                Err(e) => Err(e),
            },
            Err(e) => Err(e),
        }
    } else if tag == 2 {
        match read_text(buf, p) {
            Ok((text, next)) => Ok((MessageContent::Text(text), next)),
            Err(e) => Err(e),
        }
    } else {
        Err(DecodeError::UnknownTag)
    }
}

// ---------------------------------------------------------------------------
// User

/// Every text and byte string of the user is short enough to be written.
pub open spec fn user_fits(v: UserView) -> bool {
    text_fits(v.username) && text_fits(v.password) && blob_fits(v.salt)
}

/// The encoding of a user.
pub open spec fn user_bytes(v: UserView) -> Seq<u8> {
    option_i32_bytes(v.id) + (text_bytes(v.username) + (text_bytes(v.password) + blob_bytes(
        v.salt,
    )))
}

/// The user that `b` holds at `pos`, and the position behind it.
pub open spec fn user_at(b: Seq<u8>, pos: int) -> Result<(UserView, int), DecodeError> {
    match option_i32_at(b, pos) {
        Ok((id, p)) => match text_at(b, p) {
            Ok((username, q)) => match text_at(b, q) {
                Ok((password, r)) => match blob_at(b, r) {
                    Ok((salt, next)) => Ok((UserView { id, username, password, salt }, next)),
                    Err(e) => Err(e),
                },
                Err(e) => Err(e),
            },
            Err(e) => Err(e),
        },
        Err(e) => Err(e),
    }
}

/// Where the encoding of a user stands, that user is read, and reading ends
/// right behind the encoding.
pub proof fn lemma_user_round_trip(b: Seq<u8>, pos: int, v: UserView)
    requires
        user_fits(v),
        occurs_at(b, pos, user_bytes(v)),
    ensures
        user_at(b, pos) == Ok::<(UserView, int), DecodeError>((v, pos + user_bytes(v).len())),
{
    let e1 = option_i32_bytes(v.id);
    let e2 = text_bytes(v.username);
    let e3 = text_bytes(v.password);
    let e4 = blob_bytes(v.salt);
    lemma_occurs_at_concat(b, pos, e1, e2 + (e3 + e4));
    lemma_occurs_at_concat(b, pos + e1.len(), e2, e3 + e4);
    lemma_occurs_at_concat(b, pos + e1.len() + e2.len(), e3, e4);
    lemma_option_i32_round_trip(b, pos, v.id);
    lemma_text_round_trip(b, pos + e1.len(), v.username);
    lemma_text_round_trip(b, pos + e1.len() + e2.len(), v.password);
    lemma_blob_round_trip(b, pos + e1.len() + e2.len() + e3.len(), v.salt);
}

/// Appends the encoding of `x` to `out`.
pub fn write_user(out: &mut Vec<u8>, x: &User)
    ensures
        final(out)@ == old(out)@ + user_bytes(x@),
        user_fits(x@),
{
    write_option_i32(out, x.id);
    write_text(out, x.username.as_str());
    write_text(out, x.password.as_str());
    write_blob(out, x.salt.as_slice());
    assert(out@ =~= old(out)@ + user_bytes(x@));
}

/// Reads the user at `pos`.
pub fn read_user(buf: &[u8], pos: usize) -> (r: Result<(User, usize), DecodeError>)
    ensures
        reads(r, user_at(buf@, pos as int)),
{
    let (id, p) = match read_option_i32(buf, pos) {
        Ok(v) => v,
        Err(e) => { return Err(e); },
    };
    let (username, q) = match read_text(buf, p) {
        Ok(v) => v,
        Err(e) => { return Err(e); },
    };
    let (password, r) = match read_text(buf, q) {
        Ok(v) => v,
        Err(e) => { return Err(e); },
    };
    match read_blob(buf, r) {
        Ok((salt, next)) => Ok((User { id, username, password, salt }, next)),
        Err(e) => Err(e),
    }
}

// ---------------------------------------------------------------------------
// MessageResponse

/// Every text and byte string of the message response is short enough to be
/// written.
pub open spec fn message_response_fits(v: MessageResponseView) -> bool {
    user_fits(v.user) && content_fits(v.content)
}

/// The encoding of a message response.
pub open spec fn message_response_bytes(v: MessageResponseView) -> Seq<u8> {
    i32_bytes(v.id) + (user_bytes(v.user) + content_bytes(v.content))
}

/// The message response that `b` holds at `pos`, and the position behind it.
pub open spec fn message_response_at(b: Seq<u8>, pos: int) -> Result<
    (MessageResponseView, int),
    DecodeError,
> {
    match i32_at(b, pos) {
        Ok((id, p)) => match user_at(b, p) {
            Ok((user, q)) => match content_at(b, q) {
                Ok((content, next)) => Ok((MessageResponseView { id, user, content }, next)),
                Err(e) => Err(e),
            },
            Err(e) => Err(e),
        },
        Err(e) => Err(e),
    }
}

/// Where the encoding of a message response stands, that message response is
/// read, and reading ends
/// right behind the encoding.
pub proof fn lemma_message_response_round_trip(b: Seq<u8>, pos: int, v: MessageResponseView)
    requires
        message_response_fits(v),
        occurs_at(b, pos, message_response_bytes(v)),
    ensures
        message_response_at(b, pos) == Ok::<(MessageResponseView, int), DecodeError>(
            (v, pos + message_response_bytes(v).len()),
        ),
{
    let e1 = i32_bytes(v.id);
    let e2 = user_bytes(v.user);
    let e3 = content_bytes(v.content);
    lemma_occurs_at_concat(b, pos, e1, e2 + e3);
    lemma_occurs_at_concat(b, pos + e1.len(), e2, e3);
    lemma_i32_round_trip(b, pos, v.id);
    lemma_user_round_trip(b, pos + e1.len(), v.user);
    lemma_content_round_trip(b, pos + e1.len() + e2.len(), v.content);
}

/// Appends the encoding of `x` to `out`.
pub fn write_message_response(out: &mut Vec<u8>, x: &MessageResponse)
    ensures
        final(out)@ == old(out)@ + message_response_bytes(x@),
        message_response_fits(x@),
{
    write_i32(out, x.id);
    write_user(out, &x.user);
    write_content(out, &x.content);
    assert(out@ =~= old(out)@ + message_response_bytes(x@));
}

/// Reads the message response at `pos`.
pub fn read_message_response(buf: &[u8], pos: usize) -> (r: Result<
    (MessageResponse, usize),
    DecodeError,
>)
    ensures
        reads(r, message_response_at(buf@, pos as int)),
{
    let (id, p) = match read_i32(buf, pos) {
        Ok(v) => v,
        Err(e) => { return Err(e); },
    };
    let (user, q) = match read_user(buf, p) {
        Ok(v) => v,
        Err(e) => { return Err(e); },
    };
    match read_content(buf, q) {
        Ok((content, next)) => Ok((MessageResponse { id, user, content }, next)),
        Err(e) => Err(e),
    }
}

// ---------------------------------------------------------------------------
// DBError, ServerError, ErrorResponse

/// The position of a storage error among the variants of its type.
pub open spec fn db_error_index(e: DBError) -> u32 {
    match e {
        DBError::PoolCreationError => 0,
        DBError::ConnectionError => 1,
        DBError::UserInsertionError => 2,
        DBError::MessageInsertionError => 3,
        DBError::MessageNotFoundError => 4,
        DBError::MessageHistoryError => 5,
        DBError::UserNotFoundError => 6,
        DBError::PasswordVerificationError => 7,
    }
}

/// The storage error at a position among the variants, if there is one.
pub open spec fn db_error_of_index(index: u32) -> Option<DBError> {
    if index == 0 {
        Some(DBError::PoolCreationError)
    } else if index == 1 {
        Some(DBError::ConnectionError)
    } else if index == 2 {
        Some(DBError::UserInsertionError)
    } else if index == 3 {
        Some(DBError::MessageInsertionError)
    } else if index == 4 {
        Some(DBError::MessageNotFoundError)
    } else if index == 5 {
        Some(DBError::MessageHistoryError)
    } else if index == 6 {
        Some(DBError::UserNotFoundError)
    } else if index == 7 {
        Some(DBError::PasswordVerificationError)
    } else {
        None
    }
}

/// The encoding of a storage error.
pub open spec fn db_error_bytes(e: DBError) -> Seq<u8> {
    u32_bytes(db_error_index(e))
}

/// The storage error that `b` holds at `pos`, and the position behind it.
pub open spec fn db_error_at(b: Seq<u8>, pos: int) -> Result<(DBError, int), DecodeError> {
    match u32_at(b, pos) {
        Ok((index, next)) => match db_error_of_index(index) {
            Some(e) => Ok((e, next)),
            None => Err(DecodeError::UnknownTag),
        },
        Err(e) => Err(e),
    }
}

/// Where the encoding of a storage error stands, that storage error is read,
/// and reading ends
/// right behind the encoding.
pub proof fn lemma_db_error_round_trip(b: Seq<u8>, pos: int, v: DBError)
    requires
        occurs_at(b, pos, db_error_bytes(v)),
    ensures
        db_error_at(b, pos) == Ok::<(DBError, int), DecodeError>((v, pos + 4)),
        db_error_bytes(v).len() == 4,
{
    lemma_u32_bytes_len(db_error_index(v));
    lemma_u32_round_trip(b, pos, db_error_index(v));
}

/// Appends the encoding of `x` to `out`.
pub fn write_db_error(out: &mut Vec<u8>, x: DBError)
    ensures
        final(out)@ == old(out)@ + db_error_bytes(x),
{
    let index: u32 = match x {
        DBError::PoolCreationError => 0,
        DBError::ConnectionError => 1,
        DBError::UserInsertionError => 2,
        DBError::MessageInsertionError => 3,
        DBError::MessageNotFoundError => 4,
        DBError::MessageHistoryError => 5,
        DBError::UserNotFoundError => 6,
        DBError::PasswordVerificationError => 7,
    };
    write_u32(out, index);
}

/// Reads the storage error at `pos`.
pub fn read_db_error(buf: &[u8], pos: usize) -> (r: Result<(DBError, usize), DecodeError>)
    ensures
        match r {
            Ok((x, next)) => db_error_at(buf@, pos as int) == Ok::<(DBError, int), DecodeError>(
                (x, next as int),
            ),
            Err(e) => db_error_at(buf@, pos as int) == Err::<(DBError, int), DecodeError>(e),
        },
{
    let (index, next) = match read_u32(buf, pos) {
        Ok(v) => v,
        Err(e) => { return Err(e); },
    };
    let x = if index == 0 {
        DBError::PoolCreationError
    } else if index == 1 {
        DBError::ConnectionError
    } else if index == 2 {
        DBError::UserInsertionError
    } else if index == 3 {
        DBError::MessageInsertionError
    } else if index == 4 {
        DBError::MessageNotFoundError
    } else if index == 5 {
        DBError::MessageHistoryError
    } else if index == 6 {
        DBError::UserNotFoundError
    } else if index == 7 {
        DBError::PasswordVerificationError
    } else {
        return Err(DecodeError::UnknownTag);
    };
    Ok((x, next))
}

/// The position of a server error among the variants of its type.
pub open spec fn server_error_index(e: ServerError) -> u32 {
    match e {
        ServerError::InvalidToken => 0,
        ServerError::SerializeObjectError => 1,
        ServerError::DeserializeObjectError => 2,
        ServerError::InvalidCredentials => 3,
        ServerError::UsernameUsed => 4,
    }
}

/// The server error at a position among the variants, if there is one.
pub open spec fn server_error_of_index(index: u32) -> Option<ServerError> {
    if index == 0 {
        Some(ServerError::InvalidToken)
    } else if index == 1 {
        Some(ServerError::SerializeObjectError)
    } else if index == 2 {
        Some(ServerError::DeserializeObjectError)
    } else if index == 3 {
        Some(ServerError::InvalidCredentials)
    } else if index == 4 {
        Some(ServerError::UsernameUsed)
    } else {
        None
    }
}

/// The encoding of a server error.
pub open spec fn server_error_bytes(e: ServerError) -> Seq<u8> {
    u32_bytes(server_error_index(e))
}

/// The server error that `b` holds at `pos`, and the position behind it.
pub open spec fn server_error_at(b: Seq<u8>, pos: int) -> Result<(ServerError, int), DecodeError> {
    match u32_at(b, pos) {
        Ok((index, next)) => match server_error_of_index(index) {
            Some(e) => Ok((e, next)),
            None => Err(DecodeError::UnknownTag),
        },
        Err(e) => Err(e),
    }
}

/// Where the encoding of a server error stands, that server error is read, and
/// reading ends
/// right behind the encoding.
pub proof fn lemma_server_error_round_trip(b: Seq<u8>, pos: int, v: ServerError)
    requires
        occurs_at(b, pos, server_error_bytes(v)),
    ensures
        server_error_at(b, pos) == Ok::<(ServerError, int), DecodeError>((v, pos + 4)),
        server_error_bytes(v).len() == 4,
{
    lemma_u32_bytes_len(server_error_index(v));
    lemma_u32_round_trip(b, pos, server_error_index(v));
}

/// Appends the encoding of `x` to `out`.
pub fn write_server_error(out: &mut Vec<u8>, x: ServerError)
    ensures
        final(out)@ == old(out)@ + server_error_bytes(x),
{
    let index: u32 = match x {
        ServerError::InvalidToken => 0,
        ServerError::SerializeObjectError => 1,
        ServerError::DeserializeObjectError => 2,
        ServerError::InvalidCredentials => 3,
        ServerError::UsernameUsed => 4,
    };
    write_u32(out, index);
}

/// Reads the server error at `pos`.
pub fn read_server_error(buf: &[u8], pos: usize) -> (r: Result<(ServerError, usize), DecodeError>)
    ensures
        match r {
            Ok((x, next)) => server_error_at(buf@, pos as int) == Ok::<
                (ServerError, int),
                DecodeError,
            >((x, next as int)),
            Err(e) => server_error_at(buf@, pos as int) == Err::<(ServerError, int), DecodeError>(
                e,
            ),
        },
{
    let (index, next) = match read_u32(buf, pos) {
        Ok(v) => v,
        Err(e) => { return Err(e); },
    };
    let x = if index == 0 {
        ServerError::InvalidToken
    } else if index == 1 {
        ServerError::SerializeObjectError
    } else if index == 2 {
        ServerError::DeserializeObjectError
    } else if index == 3 {
        ServerError::InvalidCredentials
    } else if index == 4 {
        ServerError::UsernameUsed
    } else {
        return Err(DecodeError::UnknownTag);
    };
    Ok((x, next))
}

/// The encoding of an error response.
pub open spec fn error_response_bytes(v: ErrorResponse) -> Seq<u8> {
    match v {
        ErrorResponse::DBError(e) => u32_bytes(0) + db_error_bytes(e),
        ErrorResponse::ServerError(e) => u32_bytes(1) + server_error_bytes(e),
    }
}

/// The error response that `b` holds at `pos`, and the position behind it.
pub open spec fn error_response_at(b: Seq<u8>, pos: int) -> Result<
    (ErrorResponse, int),
    DecodeError,
> {
    match u32_at(b, pos) {
        Ok((tag, p)) => if tag == 0 {
            match db_error_at(b, p) {
                Ok((e, next)) => Ok((ErrorResponse::DBError(e), next)),
                Err(e) => Err(e),
            }
        } else if tag == 1 {
            match server_error_at(b, p) {
                Ok((e, next)) => Ok((ErrorResponse::ServerError(e), next)),
                Err(e) => Err(e),
            }
        } else {
            Err(DecodeError::UnknownTag)
        },
        Err(e) => Err(e),
    }
}

/// Where the encoding of an error response stands, that error response is
/// read, and reading ends
/// right behind the encoding.
pub proof fn lemma_error_response_round_trip(b: Seq<u8>, pos: int, v: ErrorResponse)
    requires
        occurs_at(b, pos, error_response_bytes(v)),
    ensures
        error_response_at(b, pos) == Ok::<(ErrorResponse, int), DecodeError>((v, pos + 8)),
        error_response_bytes(v).len() == 8,
{
    broadcast use lemma_u32_bytes_len;

    match v {
        ErrorResponse::DBError(e) => {
            lemma_occurs_at_concat(b, pos, u32_bytes(0), db_error_bytes(e));
            lemma_u32_round_trip(b, pos, 0);
            lemma_db_error_round_trip(b, pos + 4, e);
        },
        ErrorResponse::ServerError(e) => {
            lemma_occurs_at_concat(b, pos, u32_bytes(1), server_error_bytes(e));
            lemma_u32_round_trip(b, pos, 1);
            lemma_server_error_round_trip(b, pos + 4, e);
        },
    }
}

/// Appends the encoding of `x` to `out`.
pub fn write_error_response(out: &mut Vec<u8>, x: ErrorResponse)
    ensures
        final(out)@ == old(out)@ + error_response_bytes(x),
{
    match x {
        ErrorResponse::DBError(e) => {
            write_u32(out, 0);
            write_db_error(out, e);
        },
        ErrorResponse::ServerError(e) => {
            write_u32(out, 1);
            write_server_error(out, e);
        },
    }
    assert(out@ =~= old(out)@ + error_response_bytes(x));
}

/// Reads the error response at `pos`.
pub fn read_error_response(buf: &[u8], pos: usize) -> (r: Result<
    (ErrorResponse, usize),
    DecodeError,
>)
    ensures
        match r {
            Ok((x, next)) => error_response_at(buf@, pos as int) == Ok::<
                (ErrorResponse, int),
                DecodeError,
            >((x, next as int)),
            Err(e) => error_response_at(buf@, pos as int) == Err::<
                (ErrorResponse, int),
                DecodeError,
            >(e),
        },
{
    let (tag, p) = match read_u32(buf, pos) {
        Ok(v) => v,
        Err(e) => { return Err(e); },
    };
    if tag == 0 {
        match read_db_error(buf, p) {
            Ok((e, next)) => Ok((ErrorResponse::DBError(e), next)),
            Err(e) => Err(e),
        }
    } else if tag == 1 {
        match read_server_error(buf, p) {
            Ok((e, next)) => Ok((ErrorResponse::ServerError(e), next)),
            Err(e) => Err(e),
        }
    } else {
        Err(DecodeError::UnknownTag)
    }
}

// ---------------------------------------------------------------------------
// ServerResponse

/// Every text and byte string of the server response is short enough to be
/// written.
pub open spec fn server_response_fits(v: ServerResponseView) -> bool {
    match v {
        ServerResponseView::Message(m) => message_response_fits(m),
        ServerResponseView::AuthToken(t) => text_fits(t),
        ServerResponseView::Error(_) => true,
    }
}

/// The encoding of a server response.
pub open spec fn server_response_bytes(v: ServerResponseView) -> Seq<u8> {
    match v {
        ServerResponseView::Message(m) => u32_bytes(0) + message_response_bytes(m),
        ServerResponseView::AuthToken(t) => u32_bytes(1) + text_bytes(t),
        ServerResponseView::Error(e) => u32_bytes(2) + error_response_bytes(e),
    }
}

/// The server response that `b` holds at `pos`, and the position behind it.
pub open spec fn server_response_at(b: Seq<u8>, pos: int) -> Result<
    (ServerResponseView, int),
    DecodeError,
> {
    match u32_at(b, pos) {
        Ok((tag, p)) => if tag == 0 {
            match message_response_at(b, p) {
                Ok((m, next)) => Ok((ServerResponseView::Message(m), next)),
                Err(e) => Err(e),
            }
        } else if tag == 1 {
            match text_at(b, p) {
                Ok((t, next)) => Ok((ServerResponseView::AuthToken(t), next)),
                Err(e) => Err(e),
            }
        } else if tag == 2 {
            match error_response_at(b, p) {
                Ok((e, next)) => Ok((ServerResponseView::Error(e), next)),
                Err(e) => Err(e),
            }
        } else {
            Err(DecodeError::UnknownTag)
        },
        Err(e) => Err(e),
    }
}

/// Where the encoding of a server response stands, that server response is
/// read, and reading ends
/// right behind the encoding.
pub proof fn lemma_server_response_round_trip(b: Seq<u8>, pos: int, v: ServerResponseView)
    requires
        server_response_fits(v),
        occurs_at(b, pos, server_response_bytes(v)),
    ensures
        server_response_at(b, pos) == Ok::<(ServerResponseView, int), DecodeError>(
            (v, pos + server_response_bytes(v).len()),
        ),
{
    broadcast use lemma_u32_bytes_len;

    match v {
        ServerResponseView::Message(m) => {
            lemma_occurs_at_concat(b, pos, u32_bytes(0), message_response_bytes(m));
            lemma_u32_round_trip(b, pos, 0);
            lemma_message_response_round_trip(b, pos + 4, m);
        },
        ServerResponseView::AuthToken(t) => {
            lemma_occurs_at_concat(b, pos, u32_bytes(1), text_bytes(t));
            lemma_u32_round_trip(b, pos, 1);
            lemma_text_round_trip(b, pos + 4, t);
        },
        ServerResponseView::Error(e) => {
            lemma_occurs_at_concat(b, pos, u32_bytes(2), error_response_bytes(e));
            lemma_u32_round_trip(b, pos, 2);
            lemma_error_response_round_trip(b, pos + 4, e);
        },
    }
}

/// Appends the encoding of `x` to `out`.
pub fn write_server_response(out: &mut Vec<u8>, x: &ServerResponse)
    ensures
        final(out)@ == old(out)@ + server_response_bytes(x@),
        server_response_fits(x@),
{
    match x {
        ServerResponse::Message(m) => {
            write_u32(out, 0);
            write_message_response(out, m);
        },
        ServerResponse::AuthToken(t) => {
            write_u32(out, 1);
            write_text(out, t.as_str());
        },
        ServerResponse::Error(e) => {
            write_u32(out, 2);
            write_error_response(out, *e);
        },
    }
    assert(out@ =~= old(out)@ + server_response_bytes(x@));
}

/// Reads the server response at `pos`.
pub fn read_server_response(buf: &[u8], pos: usize) -> (r: Result<
    (ServerResponse, usize),
    DecodeError,
>)
    ensures
        reads(r, server_response_at(buf@, pos as int)),
{
    let (tag, p) = match read_u32(buf, pos) {
        Ok(v) => v,
        Err(e) => { return Err(e); },
    };
    if tag == 0 {
        match read_message_response(buf, p) {
            Ok((m, next)) => Ok((ServerResponse::Message(m), next)),
            Err(e) => Err(e),
        }
    } else if tag == 1 {
        match read_text(buf, p) {
            Ok((t, next)) => Ok((ServerResponse::AuthToken(t), next)),
            Err(e) => Err(e),
        }
    } else if tag == 2 {
        match read_error_response(buf, p) {
            Ok((e, next)) => Ok((ServerResponse::Error(e), next)),
            Err(e) => Err(e),
        }
    } else {
        Err(DecodeError::UnknownTag)
    }
}

// ---------------------------------------------------------------------------
// MessageRequest

/// Every text and byte string of the message request is short enough to be
/// written.
pub open spec fn message_request_fits(v: MessageRequestView) -> bool {
    text_fits(v.jwt) && content_fits(v.message)
}

/// The encoding of a message request.
pub open spec fn message_request_bytes(v: MessageRequestView) -> Seq<u8> {
    text_bytes(v.jwt) + content_bytes(v.message)
}

/// The message request that `b` holds at `pos`, and the position behind it.
pub open spec fn message_request_at(b: Seq<u8>, pos: int) -> Result<
    (MessageRequestView, int),
    DecodeError,
> {
    match text_at(b, pos) {
        Ok((jwt, p)) => match content_at(b, p) {
            Ok((message, next)) => Ok((MessageRequestView { jwt, message }, next)),
            Err(e) => Err(e),
        },
        Err(e) => Err(e),
    }
}

/// Where the encoding of a message request stands, that message request is
/// read, and reading ends
/// right behind the encoding.
pub proof fn lemma_message_request_round_trip(b: Seq<u8>, pos: int, v: MessageRequestView)
    requires
        message_request_fits(v),
        occurs_at(b, pos, message_request_bytes(v)),
    ensures
        message_request_at(b, pos) == Ok::<(MessageRequestView, int), DecodeError>(
            (v, pos + message_request_bytes(v).len()),
        ),
{
    let e1 = text_bytes(v.jwt);
    lemma_occurs_at_concat(b, pos, e1, content_bytes(v.message));
    lemma_text_round_trip(b, pos, v.jwt);
    lemma_content_round_trip(b, pos + e1.len(), v.message);
}

/// Appends the encoding of `x` to `out`.
pub fn write_message_request(out: &mut Vec<u8>, x: &MessageRequest)
    ensures
        final(out)@ == old(out)@ + message_request_bytes(x@),
        message_request_fits(x@),
{
    write_text(out, x.jwt.as_str());
    write_content(out, &x.message);
    assert(out@ =~= old(out)@ + message_request_bytes(x@));
}

/// Reads the message request at `pos`.
pub fn read_message_request(buf: &[u8], pos: usize) -> (r: Result<
    (MessageRequest, usize),
    DecodeError,
>)
    ensures
        reads(r, message_request_at(buf@, pos as int)),
{
    let (jwt, p) = match read_text(buf, pos) {
        Ok(v) => v,
        Err(e) => { return Err(e); },
    };
    match read_content(buf, p) {
        Ok((message, next)) => Ok((MessageRequest { jwt, message }, next)),
        Err(e) => Err(e),
    }
}

// ---------------------------------------------------------------------------
// AuthRequestKind, AuthRequest

/// The encoding of a kind of authentication request.
pub open spec fn auth_kind_bytes(v: AuthRequestKind) -> Seq<u8> {
    match v {
        AuthRequestKind::Login => u32_bytes(0),
        AuthRequestKind::Register => u32_bytes(1),
    }
}

/// The kind of authentication request that `b` holds at `pos`, and the
/// position behind it.
pub open spec fn auth_kind_at(b: Seq<u8>, pos: int) -> Result<(AuthRequestKind, int), DecodeError> {
    match u32_at(b, pos) {
        Ok((tag, next)) => if tag == 0 {
            Ok((AuthRequestKind::Login, next))
        } else if tag == 1 {
            Ok((AuthRequestKind::Register, next))
        } else {
            Err(DecodeError::UnknownTag)
        },
        Err(e) => Err(e),
    }
}

/// Where the encoding of a kind of authentication request stands, that kind
/// is read, and reading ends right behind the encoding.
pub proof fn lemma_auth_kind_round_trip(b: Seq<u8>, pos: int, v: AuthRequestKind)
    requires
        occurs_at(b, pos, auth_kind_bytes(v)),
    ensures
        auth_kind_at(b, pos) == Ok::<(AuthRequestKind, int), DecodeError>((v, pos + 4)),
        auth_kind_bytes(v).len() == 4,
{
    broadcast use lemma_u32_bytes_len;

    match v {
        AuthRequestKind::Login => lemma_u32_round_trip(b, pos, 0),
        AuthRequestKind::Register => lemma_u32_round_trip(b, pos, 1),
    }
}

/// Appends the encoding of `x` to `out`.
pub fn write_auth_kind(out: &mut Vec<u8>, x: AuthRequestKind)
    ensures
        final(out)@ == old(out)@ + auth_kind_bytes(x),
{
    match x {
        AuthRequestKind::Login => write_u32(out, 0),
        AuthRequestKind::Register => write_u32(out, 1),
    }
}

/// Reads the kind of an authentication request at `pos`.
pub fn read_auth_kind(buf: &[u8], pos: usize) -> (r: Result<(AuthRequestKind, usize), DecodeError>)
    ensures
        match r {
            Ok((x, next)) => auth_kind_at(buf@, pos as int) == Ok::<
                (AuthRequestKind, int),
                DecodeError,
            >((x, next as int)),
            Err(e) => auth_kind_at(buf@, pos as int) == Err::<(AuthRequestKind, int), DecodeError>(
                e,
            ),
        },
{
    let (tag, next) = match read_u32(buf, pos) {
        Ok(v) => v,
        Err(e) => { return Err(e); },
    };
    if tag == 0 {
        Ok((AuthRequestKind::Login, next))
    } else if tag == 1 {
        Ok((AuthRequestKind::Register, next))
    } else {
        Err(DecodeError::UnknownTag)
    }
}

/// Every text and byte string of the authentication request is short enough
/// to be written.
pub open spec fn auth_request_fits(v: AuthRequestView) -> bool {
    text_fits(v.username) && text_fits(v.password)
}

/// The encoding of an authentication request.
pub open spec fn auth_request_bytes(v: AuthRequestView) -> Seq<u8> {
    auth_kind_bytes(v.kind) + (text_bytes(v.username) + text_bytes(v.password))
}

/// The authentication request that `b` holds at `pos`, and the position behind
/// it.
pub open spec fn auth_request_at(b: Seq<u8>, pos: int) -> Result<
    (AuthRequestView, int),
    DecodeError,
> {
    match auth_kind_at(b, pos) {
        Ok((kind, p)) => match text_at(b, p) {
            Ok((username, q)) => match text_at(b, q) {
                Ok((password, next)) => Ok((AuthRequestView { kind, username, password }, next)),
                Err(e) => Err(e),
            },
            Err(e) => Err(e),
        },
        Err(e) => Err(e),
    }
}

/// Where the encoding of an authentication request stands, that request is
/// read, and reading ends right behind the encoding.
pub proof fn lemma_auth_request_round_trip(b: Seq<u8>, pos: int, v: AuthRequestView)
    requires
        auth_request_fits(v),
        occurs_at(b, pos, auth_request_bytes(v)),
    ensures
        auth_request_at(b, pos) == Ok::<(AuthRequestView, int), DecodeError>(
            (v, pos + auth_request_bytes(v).len()),
        ),
{
    let e1 = auth_kind_bytes(v.kind);
    let e2 = text_bytes(v.username);
    let e3 = text_bytes(v.password);
    lemma_occurs_at_concat(b, pos, e1, e2 + e3);
    lemma_occurs_at_concat(b, pos + e1.len(), e2, e3);
    lemma_auth_kind_round_trip(b, pos, v.kind);
    lemma_text_round_trip(b, pos + e1.len(), v.username);
    lemma_text_round_trip(b, pos + e1.len() + e2.len(), v.password);
}

/// Appends the encoding of `x` to `out`.
pub fn write_auth_request(out: &mut Vec<u8>, x: &AuthRequest)
    ensures
        final(out)@ == old(out)@ + auth_request_bytes(x@),
        auth_request_fits(x@),
{
    write_auth_kind(out, x.kind);
    write_text(out, x.username.as_str());
    write_text(out, x.password.as_str());
    assert(out@ =~= old(out)@ + auth_request_bytes(x@));
}

/// Reads the authentication request at `pos`.
pub fn read_auth_request(buf: &[u8], pos: usize) -> (r: Result<(AuthRequest, usize), DecodeError>)
    ensures
        reads(r, auth_request_at(buf@, pos as int)),
{
    let (kind, p) = match read_auth_kind(buf, pos) {
        Ok(v) => v,
        Err(e) => { return Err(e); },
    };
    let (username, q) = match read_text(buf, p) {
        Ok(v) => v,
        Err(e) => { return Err(e); },
    };
    match read_text(buf, q) {
        Ok((password, next)) => Ok((AuthRequest { kind, username, password }, next)),
        Err(e) => Err(e),
    }
}

// ---------------------------------------------------------------------------
// ReadRequest

/// Every text and byte string of the history request is short enough to be
/// written.
pub open spec fn read_request_fits(v: ReadRequestView) -> bool {
    text_fits(v.jwt)
}

/// The encoding of a history request.
pub open spec fn read_request_bytes(v: ReadRequestView) -> Seq<u8> {
    text_bytes(v.jwt) + (i32_bytes(v.amount) + i32_bytes(v.offset))
}

/// The history request that `b` holds at `pos`, and the position behind it.
pub open spec fn read_request_at(b: Seq<u8>, pos: int) -> Result<
    (ReadRequestView, int),
    DecodeError,
> {
    match text_at(b, pos) {
        Ok((jwt, p)) => match i32_at(b, p) {
            Ok((amount, q)) => match i32_at(b, q) {
                Ok((offset, next)) => Ok((ReadRequestView { jwt, amount, offset }, next)),
                Err(e) => Err(e),
            },
            Err(e) => Err(e),
        },
        Err(e) => Err(e),
    }
}

/// Where the encoding of a history request stands, that history request is
/// read, and reading ends
/// right behind the encoding.
pub proof fn lemma_read_request_round_trip(b: Seq<u8>, pos: int, v: ReadRequestView)
    requires
        read_request_fits(v),
        occurs_at(b, pos, read_request_bytes(v)),
    ensures
        read_request_at(b, pos) == Ok::<(ReadRequestView, int), DecodeError>(
            (v, pos + read_request_bytes(v).len()),
        ),
{
    broadcast use lemma_u32_bytes_len;

    let e1 = text_bytes(v.jwt);
    let e2 = i32_bytes(v.amount);
    let e3 = i32_bytes(v.offset);
    lemma_occurs_at_concat(b, pos, e1, e2 + e3);
    lemma_occurs_at_concat(b, pos + e1.len(), e2, e3);
    lemma_text_round_trip(b, pos, v.jwt);
    lemma_i32_round_trip(b, pos + e1.len(), v.amount);
    lemma_i32_round_trip(b, pos + e1.len() + 4, v.offset);
}

/// Appends the encoding of `x` to `out`.
pub fn write_read_request(out: &mut Vec<u8>, x: &ReadRequest)
    ensures
        final(out)@ == old(out)@ + read_request_bytes(x@),
        read_request_fits(x@),
{
    write_text(out, x.jwt.as_str());
    write_i32(out, x.amount);
    write_i32(out, x.offset);
    assert(out@ =~= old(out)@ + read_request_bytes(x@));
}

/// Reads the history request at `pos`.
pub fn read_read_request(buf: &[u8], pos: usize) -> (r: Result<(ReadRequest, usize), DecodeError>)
    ensures
        reads(r, read_request_at(buf@, pos as int)),
{
    let (jwt, p) = match read_text(buf, pos) {
        Ok(v) => v,
        Err(e) => { return Err(e); },
    };
    let (amount, q) = match read_i32(buf, p) {
        Ok(v) => v,
        Err(e) => { return Err(e); },
    };
    match read_i32(buf, q) {
        Ok((offset, next)) => Ok((ReadRequest { jwt, amount, offset }, next)),
        Err(e) => Err(e),
    }
}

// ---------------------------------------------------------------------------
// StreamRequest

/// Every text and byte string of the request is short enough to be written.
pub open spec fn stream_request_fits(v: StreamRequestView) -> bool {
    match v {
        StreamRequestView::MessageRequest(m) => message_request_fits(m),
        StreamRequestView::AuthRequest(a) => auth_request_fits(a),
        StreamRequestView::ReadRequest(r) => read_request_fits(r),
    }
}

/// The encoding of a request.
pub open spec fn stream_request_bytes(v: StreamRequestView) -> Seq<u8> {
    match v {
        StreamRequestView::MessageRequest(m) => u32_bytes(0) + message_request_bytes(m),
        StreamRequestView::AuthRequest(a) => u32_bytes(1) + auth_request_bytes(a),
        StreamRequestView::ReadRequest(r) => u32_bytes(2) + read_request_bytes(r),
    }
}

/// The request that `b` holds at `pos`, and the position behind it.
pub open spec fn stream_request_at(b: Seq<u8>, pos: int) -> Result<
    (StreamRequestView, int),
    DecodeError,
> {
    match u32_at(b, pos) {
        Ok((tag, p)) => if tag == 0 {
            match message_request_at(b, p) {
                Ok((m, next)) => Ok((StreamRequestView::MessageRequest(m), next)),
                Err(e) => Err(e),
            }
        } else if tag == 1 {
            match auth_request_at(b, p) {
                Ok((a, next)) => Ok((StreamRequestView::AuthRequest(a), next)),
                Err(e) => Err(e),
            }
        } else if tag == 2 {
            match read_request_at(b, p) {
                Ok((r, next)) => Ok((StreamRequestView::ReadRequest(r), next)),
                Err(e) => Err(e),
            }
        } else {
            Err(DecodeError::UnknownTag)
        },
        Err(e) => Err(e),
    }
}

/// Where the encoding of a request stands, that request is read, and reading
/// ends
/// right behind the encoding.
pub proof fn lemma_stream_request_round_trip(b: Seq<u8>, pos: int, v: StreamRequestView)
    requires
        stream_request_fits(v),
        occurs_at(b, pos, stream_request_bytes(v)),
    ensures
        stream_request_at(b, pos) == Ok::<(StreamRequestView, int), DecodeError>(
            (v, pos + stream_request_bytes(v).len()),
        ),
{
    broadcast use lemma_u32_bytes_len;

    match v {
        StreamRequestView::MessageRequest(m) => {
            lemma_occurs_at_concat(b, pos, u32_bytes(0), message_request_bytes(m));
            lemma_u32_round_trip(b, pos, 0);
            lemma_message_request_round_trip(b, pos + 4, m);
        },
        StreamRequestView::AuthRequest(a) => {
            lemma_occurs_at_concat(b, pos, u32_bytes(1), auth_request_bytes(a));
            lemma_u32_round_trip(b, pos, 1);
            lemma_auth_request_round_trip(b, pos + 4, a);
        },
        StreamRequestView::ReadRequest(r) => {
            lemma_occurs_at_concat(b, pos, u32_bytes(2), read_request_bytes(r));
            lemma_u32_round_trip(b, pos, 2);
            lemma_read_request_round_trip(b, pos + 4, r);
        },
    }
}

/// Appends the encoding of `x` to `out`.
pub fn write_stream_request(out: &mut Vec<u8>, x: &StreamRequest)
    ensures
        final(out)@ == old(out)@ + stream_request_bytes(x@),
        stream_request_fits(x@),
{
    match x {
        StreamRequest::MessageRequest(m) => {
            write_u32(out, 0);
            write_message_request(out, m);
        },
        StreamRequest::AuthRequest(a) => {
            write_u32(out, 1);
            write_auth_request(out, a);
        },
        StreamRequest::ReadRequest(r) => {
            write_u32(out, 2);
            write_read_request(out, r);
        },
    }
    assert(out@ =~= old(out)@ + stream_request_bytes(x@));
}

/// Reads the request at `pos`.
pub fn read_stream_request(buf: &[u8], pos: usize) -> (r: Result<
    (StreamRequest, usize),
    DecodeError,
>)
    ensures
        reads(r, stream_request_at(buf@, pos as int)),
{
    let (tag, p) = match read_u32(buf, pos) {
        Ok(v) => v,
        Err(e) => { return Err(e); },
    };
    if tag == 0 {
        match read_message_request(buf, p) {
            Ok((m, next)) => Ok((StreamRequest::MessageRequest(m), next)),
            Err(e) => Err(e),
        }
    } else if tag == 1 {
        match read_auth_request(buf, p) {
            Ok((a, next)) => Ok((StreamRequest::AuthRequest(a), next)),
            Err(e) => Err(e),
        }
    } else if tag == 2 {
        match read_read_request(buf, p) {
            Ok((r, next)) => Ok((StreamRequest::ReadRequest(r), next)),
            Err(e) => Err(e),
        }
    } else {
        Err(DecodeError::UnknownTag)
    }
}

// ---------------------------------------------------------------------------
// What is read is what was written: a reader accepts nothing but the one
// encoding of the value that it returns.

/// What is read as a message content stands written as its encoding.
pub proof fn lemma_content_canonical(b: Seq<u8>, pos: int)
    ensures
        content_at(b, pos) matches Ok((v, next)) ==> (0 <= pos <= next <= b.len() && content_fits(
            v,
        ) && b.subrange(pos, next) == content_bytes(v)),
{
    if let Ok((v, next)) = content_at(b, pos) {
        lemma_u32_canonical(b, pos);
        let p = pos + 4;
        match v {
            MessageContentView::Image(_) => {
                lemma_blob_canonical(b, p);
                lemma_subrange_join(b, pos, p, next);
            },
            MessageContentView::File(_, _) => {
                lemma_text_canonical(b, p);
                let q = text_at(b, p)->Ok_0.1;
                lemma_blob_canonical(b, q);
                lemma_subrange_join(b, p, q, next);
                lemma_subrange_join(b, pos, p, next);
            },
            MessageContentView::Text(_) => {
                lemma_text_canonical(b, p);
                lemma_subrange_join(b, pos, p, next);
            },
        }
    }
}

/// What is read as a user stands written as its encoding.
pub proof fn lemma_user_canonical(b: Seq<u8>, pos: int)
    ensures
        user_at(b, pos) matches Ok((v, next)) ==> (0 <= pos <= next <= b.len() && user_fits(v)
            && b.subrange(pos, next) == user_bytes(v)),
{
    if let Ok((v, next)) = user_at(b, pos) {
        lemma_option_i32_canonical(b, pos);
        let p = option_i32_at(b, pos)->Ok_0.1;
        lemma_text_canonical(b, p);
        let q = text_at(b, p)->Ok_0.1;
        lemma_text_canonical(b, q);
        let r = text_at(b, q)->Ok_0.1;
        lemma_blob_canonical(b, r);
        lemma_subrange_join(b, q, r, next);
        lemma_subrange_join(b, p, q, next);
        lemma_subrange_join(b, pos, p, next);
    }
}

/// What is read as a message response stands written as its encoding.
pub proof fn lemma_message_response_canonical(b: Seq<u8>, pos: int)
    ensures
        message_response_at(b, pos) matches Ok((v, next)) ==> (0 <= pos <= next <= b.len()
            && message_response_fits(v) && b.subrange(pos, next) == message_response_bytes(v)),
{
    if let Ok((v, next)) = message_response_at(b, pos) {
        lemma_i32_canonical(b, pos);
        let p = pos + 4;
        lemma_user_canonical(b, p);
        let q = user_at(b, p)->Ok_0.1;
        lemma_content_canonical(b, q);
        lemma_subrange_join(b, p, q, next);
        lemma_subrange_join(b, pos, p, next);
    }
}

/// What is read as a storage error stands written as its encoding.
pub proof fn lemma_db_error_canonical(b: Seq<u8>, pos: int)
    ensures
        db_error_at(b, pos) matches Ok((v, next)) ==> (0 <= pos && next == pos + 4 && next
            <= b.len() && b.subrange(pos, next) == db_error_bytes(v)),
{
    lemma_u32_canonical(b, pos);
}

/// What is read as a server error stands written as its encoding.
pub proof fn lemma_server_error_canonical(b: Seq<u8>, pos: int)
    ensures
        server_error_at(b, pos) matches Ok((v, next)) ==> (0 <= pos && next == pos + 4 && next
            <= b.len() && b.subrange(pos, next) == server_error_bytes(v)),
{
    lemma_u32_canonical(b, pos);
}

/// What is read as an error response stands written as its encoding.
pub proof fn lemma_error_response_canonical(b: Seq<u8>, pos: int)
    ensures
        error_response_at(b, pos) matches Ok((v, next)) ==> (0 <= pos && next == pos + 8 && next
            <= b.len() && b.subrange(pos, next) == error_response_bytes(v)),
{
    if let Ok((v, next)) = error_response_at(b, pos) {
        lemma_u32_canonical(b, pos);
        lemma_db_error_canonical(b, pos + 4);
        lemma_server_error_canonical(b, pos + 4);
        lemma_subrange_join(b, pos, pos + 4, next);
    }
}

/// What is read as a server response stands written as its encoding.
pub proof fn lemma_server_response_canonical(b: Seq<u8>, pos: int)
    ensures
        server_response_at(b, pos) matches Ok((v, next)) ==> (0 <= pos <= next <= b.len()
            && server_response_fits(v) && b.subrange(pos, next) == server_response_bytes(v)),
{
    if let Ok((v, next)) = server_response_at(b, pos) {
        lemma_u32_canonical(b, pos);
        let p = pos + 4;
        match v {
            ServerResponseView::Message(_) => {
                lemma_message_response_canonical(b, p);
            },
            ServerResponseView::AuthToken(_) => {
                lemma_text_canonical(b, p);
            },
            ServerResponseView::Error(_) => {
                lemma_error_response_canonical(b, p);
            },
        }
        lemma_subrange_join(b, pos, p, next);
    }
}

/// What is read as a message request stands written as its encoding.
pub proof fn lemma_message_request_canonical(b: Seq<u8>, pos: int)
    ensures
        message_request_at(b, pos) matches Ok((v, next)) ==> (0 <= pos <= next <= b.len()
            && message_request_fits(v) && b.subrange(pos, next) == message_request_bytes(v)),
{
    if let Ok((v, next)) = message_request_at(b, pos) {
        lemma_text_canonical(b, pos);
        let p = text_at(b, pos)->Ok_0.1;
        lemma_content_canonical(b, p);
        lemma_subrange_join(b, pos, p, next);
    }
}

/// What is read as a kind of authentication request stands written as its
/// encoding.
pub proof fn lemma_auth_kind_canonical(b: Seq<u8>, pos: int)
    ensures
        auth_kind_at(b, pos) matches Ok((v, next)) ==> (0 <= pos && next == pos + 4 && next
            <= b.len() && b.subrange(pos, next) == auth_kind_bytes(v)),
{
    lemma_u32_canonical(b, pos);
}

/// What is read as an authentication request stands written as its encoding.
pub proof fn lemma_auth_request_canonical(b: Seq<u8>, pos: int)
    ensures
        auth_request_at(b, pos) matches Ok((v, next)) ==> (0 <= pos <= next <= b.len()
            && auth_request_fits(v) && b.subrange(pos, next) == auth_request_bytes(v)),
{
    if let Ok((v, next)) = auth_request_at(b, pos) {
        lemma_auth_kind_canonical(b, pos);
        let p = pos + 4;
        lemma_text_canonical(b, p);
        let q = text_at(b, p)->Ok_0.1;
        lemma_text_canonical(b, q);
        lemma_subrange_join(b, p, q, next);
        lemma_subrange_join(b, pos, p, next);
    }
}

/// What is read as a history request stands written as its encoding.
pub proof fn lemma_read_request_canonical(b: Seq<u8>, pos: int)
    ensures
        read_request_at(b, pos) matches Ok((v, next)) ==> (0 <= pos <= next <= b.len()
            && read_request_fits(v) && b.subrange(pos, next) == read_request_bytes(v)),
{
    if let Ok((v, next)) = read_request_at(b, pos) {
        lemma_text_canonical(b, pos);
        let p = text_at(b, pos)->Ok_0.1;
        lemma_i32_canonical(b, p);
        lemma_i32_canonical(b, p + 4);
        lemma_subrange_join(b, p, p + 4, next);
        lemma_subrange_join(b, pos, p, next);
    }
}

/// What is read as a request stands written as its encoding.
pub proof fn lemma_stream_request_canonical(b: Seq<u8>, pos: int)
    ensures
        stream_request_at(b, pos) matches Ok((v, next)) ==> (0 <= pos <= next <= b.len()
            && stream_request_fits(v) && b.subrange(pos, next) == stream_request_bytes(v)),
{
    if let Ok((v, next)) = stream_request_at(b, pos) {
        lemma_u32_canonical(b, pos);
        let p = pos + 4;
        match v {
            StreamRequestView::MessageRequest(_) => {
                lemma_message_request_canonical(b, p);
            },
            StreamRequestView::AuthRequest(_) => {
                lemma_auth_request_canonical(b, p);
            },
            StreamRequestView::ReadRequest(_) => {
                lemma_read_request_canonical(b, p);
            },
        }
        lemma_subrange_join(b, pos, p, next);
    }
}

} // verus!
