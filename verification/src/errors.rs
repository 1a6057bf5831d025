//! Error taxonomy of the relay: transport, client, storage and server errors.
//!
//! I/O errors reach the relay as plain values, their kind and their message:
//! whoever does the I/O turns the system's errors into these.

use vstd::prelude::*;
use vstd::string::StringExecFns;

verus! {

/// The kinds of I/O error that matter to the relay: those that it creates
/// itself, those that tell that the peer is gone, and the rest.
#[derive(Debug, Clone, Copy, PartialEq, Eq, Structural)]
pub enum IoErrorKind {
    InvalidInput,
    InvalidData,
    UnexpectedEof,
    ConnectionReset,
    ConnectionAborted,
    BrokenPipe,
    Other,
}

impl IoErrorKind {
    /// A read that failed in this way failed because the peer is gone.
    pub open spec fn peer_gone(self) -> bool {
        self is UnexpectedEof || self is ConnectionReset || self is ConnectionAborted
            || self is BrokenPipe
    }

    /// Whether a read that failed in this way failed because the peer is gone.
    pub fn tells_peer_gone(&self) -> (gone: bool)
        ensures
            gone == self.peer_gone(),
    {
        match self {
            IoErrorKind::UnexpectedEof => true,
            IoErrorKind::ConnectionReset => true,
            IoErrorKind::ConnectionAborted => true,
            IoErrorKind::BrokenPipe => true,
            _ => false,
        }
    }
}

/// An I/O error as the relay sees it: its kind and its message.
#[derive(Debug, Clone, PartialEq, Eq)]
pub struct IoError {
    pub kind: IoErrorKind,
    pub message: String,
}

/// The mathematical value of an [`IoError`].
pub struct IoErrorView {
    pub kind: IoErrorKind,
    pub message: Seq<char>,
}

impl View for IoError {
    type V = IoErrorView;

    open spec fn view(&self) -> IoErrorView {
        IoErrorView { kind: self.kind, message: self.message@ }
    }
}

impl IoError {
    /// An error of the given kind with the given message.
    pub fn new(kind: IoErrorKind, message: &str) -> (e: Self)
        ensures
            e@ == (IoErrorView { kind, message: message@ }),
    {
        IoError { kind, message: String::from_str(message) }
    }
}

/// Failures of the transport and of local persistence of attachments.
#[derive(Debug, Clone, PartialEq, Eq)]
pub enum StreamError {
    /// A file for a received attachment could not be created.
    FileCreationError(IoError),
    /// A received attachment could not be written.
    FileWriteError(IoError),
    /// The peer closed the connection; terminal for that connection.
    StreamClosed,
    /// A frame could not be read, or was read and could not be understood;
    /// the connection goes on.
    ReadMessageError(IoError),
}

/// The mathematical value of a [`StreamError`].
pub enum StreamErrorView {
    FileCreationError(IoErrorView),
    FileWriteError(IoErrorView),
    StreamClosed,
    ReadMessageError(IoErrorView),
}

impl View for StreamError {
    type V = StreamErrorView;

    open spec fn view(&self) -> StreamErrorView {
        match self {
            StreamError::FileCreationError(e) => StreamErrorView::FileCreationError(e@),
            StreamError::FileWriteError(e) => StreamErrorView::FileWriteError(e@),
            StreamError::StreamClosed => StreamErrorView::StreamClosed,
            StreamError::ReadMessageError(e) => StreamErrorView::ReadMessageError(e@),
        }
    }
}

/// The text that stands for a transport error.
pub open spec fn stream_error_text(e: StreamErrorView) -> Seq<char> {
    match e {
        StreamErrorView::FileCreationError(_) => "Failed to create file"@,
        StreamErrorView::FileWriteError(_) => "Failed to write to file"@,
        StreamErrorView::StreamClosed => "Stream has been closed"@,
        StreamErrorView::ReadMessageError(_) => "Failed to read message"@,
    }
}

impl StreamError {
    /// True exactly for the one error that ends a connection.
    pub open spec fn is_terminal(self) -> bool {
        self is StreamClosed
    }

    /// The text shown for this error.
    pub fn message(&self) -> (text: &'static str)
        ensures
            text@ == stream_error_text(self@),
    {
        match self {
            StreamError::FileCreationError(_) => "Failed to create file",
            StreamError::FileWriteError(_) => "Failed to write to file",
            StreamError::StreamClosed => "Stream has been closed",
            StreamError::ReadMessageError(_) => "Failed to read message",
        }
    }

    /// Whether the connection must be torn down after this error.
    pub fn closes_connection(&self) -> (closed: bool)
        ensures
            closed == self.is_terminal(),
    {
        match self {
            StreamError::StreamClosed => true,
            _ => false,
        }
    }
}

/// An I/O error of kind `InvalidInput` that carries `error` as its message.
pub fn invalid_input_error(error: &'static str) -> (e: IoError)
    ensures
        e@ == (IoErrorView { kind: IoErrorKind::InvalidInput, message: error@ }),
{
    IoError::new(IoErrorKind::InvalidInput, error)
}

/// Always fails, with an I/O error of kind `Other` and an empty message.
pub fn unspecified_error() -> (r: Result<(), IoError>)
    ensures
        r matches Err(e) && e@ == (IoErrorView { kind: IoErrorKind::Other, message: ""@ }),
{
    Err(IoError::new(IoErrorKind::Other, ""))
}

/// Mistakes in what a user typed into a client.
#[derive(Debug, Clone, PartialEq, Eq)]
pub enum ClientError {
    /// The command needs a path and got none.
    PathError(String),
}

/// The text that tells a user that `command` needs a path.
pub open spec fn client_error_text(command: Seq<char>) -> Seq<char> {
    "\nNo path provided in command "@ + command + "\n    Usage: "@ + command + " <path>"@
}

impl ClientError {
    /// The text shown for this error.
    pub fn message(&self) -> (text: String)
        ensures
            match self {
                ClientError::PathError(command) => text@ == client_error_text(command@),
            },
    {
        match self {
            ClientError::PathError(command) => {
                let mut text = String::from_str("\nNo path provided in command ");
                text.append(command.as_str());
                text.append("\n    Usage: ");
                text.append(command.as_str());
                text.append(" <path>");
                text
            },
        }
    }
}

/// Storage failures, as reported by the store to the relay.
#[derive(Debug, Clone, Copy, PartialEq, Eq, Structural)]
pub enum DBError {
    PoolCreationError,
    ConnectionError,
    UserInsertionError,
    MessageInsertionError,
    MessageNotFoundError,
    MessageHistoryError,
    UserNotFoundError,
    PasswordVerificationError,
}

/// Failures decided by the relay itself and reported to the requester.
#[derive(Debug, Clone, Copy, PartialEq, Eq, Structural)]
pub enum ServerError {
    InvalidToken,
    SerializeObjectError,
    DeserializeObjectError,
    InvalidCredentials,
    UsernameUsed,
}

/// The text that stands for a storage error.
pub open spec fn db_error_text(e: DBError) -> Seq<char> {
    match e {
        DBError::PoolCreationError => "Failed to create DB pool"@,
        DBError::ConnectionError => "Failed to get connection from pool"@,
        DBError::UserInsertionError => "Failed to insert into users table"@,
        DBError::MessageInsertionError => "Failed to insert into messages table"@,
        DBError::MessageNotFoundError => "Message not found"@,
        DBError::MessageHistoryError =>
            "Failed to load messages, the database may not contain so many"@,
        DBError::UserNotFoundError => "User not found"@,
        DBError::PasswordVerificationError => "Failed to verify password"@,
    }
}

/// The text that stands for a server error.
pub open spec fn server_error_text(e: ServerError) -> Seq<char> {
    match e {
        ServerError::InvalidToken => "Invalid token"@,
        ServerError::SerializeObjectError => "Unable to serialize object"@,
        ServerError::DeserializeObjectError => "Unable to deserialize object"@,
        ServerError::InvalidCredentials => "Invalid credentials"@,
        ServerError::UsernameUsed => "Username is used"@,
    }
}

impl DBError {
    /// The text shown for this error.
    pub fn message(&self) -> (text: &'static str)
        ensures
            text@ == db_error_text(*self),
    {
        match self {
            DBError::PoolCreationError => "Failed to create DB pool",
            DBError::ConnectionError => "Failed to get connection from pool",
            DBError::UserInsertionError => "Failed to insert into users table",
            DBError::MessageInsertionError => "Failed to insert into messages table",
            DBError::MessageNotFoundError => "Message not found",
            DBError::MessageHistoryError =>
                "Failed to load messages, the database may not contain so many",
            DBError::UserNotFoundError => "User not found",
            DBError::PasswordVerificationError => "Failed to verify password",
        }
    }
}

impl ServerError {
    /// The text shown for this error.
    pub fn message(&self) -> (text: &'static str)
        ensures
            text@ == server_error_text(*self),
    {
        match self {
            ServerError::InvalidToken => "Invalid token",
            ServerError::SerializeObjectError => "Unable to serialize object",
            ServerError::DeserializeObjectError => "Unable to deserialize object",
            ServerError::InvalidCredentials => "Invalid credentials",
            ServerError::UsernameUsed => "Username is used",
        }
    }
}

/// Equivalent to writing out `DBError::PoolCreationError`.
pub fn pool_creation_error() -> (e: DBError)
    ensures
        e == DBError::PoolCreationError,
{
    DBError::PoolCreationError
}

/// Equivalent to writing out `DBError::ConnectionError`.
pub fn connection_error() -> (e: DBError)
    ensures
        e == DBError::ConnectionError,
{
    DBError::ConnectionError
}

/// Equivalent to writing out `DBError::UserInsertionError`.
pub fn user_insertion_error() -> (e: DBError)
    ensures
        e == DBError::UserInsertionError,
{
    DBError::UserInsertionError
}

/// Equivalent to writing out `DBError::MessageInsertionError`.
pub fn message_insertion_error() -> (e: DBError)
    ensures
        e == DBError::MessageInsertionError,
{
    DBError::MessageInsertionError
}

/// Equivalent to writing out `DBError::MessageNotFoundError`.
pub fn message_not_found_error() -> (e: DBError)
    ensures
        e == DBError::MessageNotFoundError,
{
    DBError::MessageNotFoundError
}

/// Equivalent to writing out `DBError::MessageHistoryError`.
pub fn message_history_error() -> (e: DBError)
    ensures
        e == DBError::MessageHistoryError,
{
    DBError::MessageHistoryError
}

/// Equivalent to writing out `DBError::UserNotFoundError`.
pub fn user_not_found_error() -> (e: DBError)
    ensures
        e == DBError::UserNotFoundError,
{
    DBError::UserNotFoundError
}

/// Equivalent to writing out `DBError::PasswordVerificationError`.
pub fn password_verification_error() -> (e: DBError)
    ensures
        e == DBError::PasswordVerificationError,
{
    DBError::PasswordVerificationError
}

/// Equivalent to writing out `ServerError::InvalidToken`.
pub fn invalid_token() -> (e: ServerError)
    ensures
        e == ServerError::InvalidToken,
{
    ServerError::InvalidToken
}

/// Equivalent to writing out `ServerError::SerializeObjectError`.
pub fn serialize_object_error() -> (e: ServerError)
    ensures
        e == ServerError::SerializeObjectError,
{
    ServerError::SerializeObjectError
}

/// Equivalent to writing out `ServerError::DeserializeObjectError`.
pub fn deserialize_object_error() -> (e: ServerError)
    ensures
        e == ServerError::DeserializeObjectError,
{
    ServerError::DeserializeObjectError
}

/// Equivalent to writing out `ServerError::InvalidCredentials`.
pub fn invalid_credentials() -> (e: ServerError)
    ensures
        e == ServerError::InvalidCredentials,
{
    ServerError::InvalidCredentials
}

/// Equivalent to writing out `ServerError::UsernameUsed`.
pub fn username_used() -> (e: ServerError)
    ensures
        e == ServerError::UsernameUsed,
{
    ServerError::UsernameUsed
}

} // verus!
