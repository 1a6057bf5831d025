//! Requests and responses of the relay protocol.

use vstd::prelude::*;
use crate::db::{User, UserView};
use crate::errors::{DBError, ServerError};

verus! {

/// Represents the content of a chat message.
#[derive(Debug, Clone, PartialEq, Eq)]
pub enum MessageContent {
    Image(Vec<u8>),
    File(String, Vec<u8>),
    Text(String),
}

/// The mathematical value of a [`MessageContent`].
pub enum MessageContentView {
    Image(Seq<u8>),
    File(Seq<char>, Seq<u8>),
    Text(Seq<char>),
}

impl View for MessageContent {
    type V = MessageContentView;

    open spec fn view(&self) -> MessageContentView {
        match self {
            MessageContent::Image(bytes) => MessageContentView::Image(bytes@),
            MessageContent::File(name, bytes) => MessageContentView::File(name@, bytes@),
            MessageContent::Text(text) => MessageContentView::Text(text@),
        }
    }
}

/// Equivalent to writing out `MessageContent::Image(vec)`.
pub fn image(vec: Vec<u8>) -> (content: MessageContent)
    ensures
        content == MessageContent::Image(vec),
{
    MessageContent::Image(vec)
}

/// Equivalent to writing out `MessageContent::File(filename, vec)`.
pub fn file(filename: String, vec: Vec<u8>) -> (content: MessageContent)
    ensures
        content == MessageContent::File(filename, vec),
{
    MessageContent::File(filename, vec)
}

/// Equivalent to writing out `MessageContent::Text(text)`.
pub fn text(string: String) -> (content: MessageContent)
    ensures
        content == MessageContent::Text(string),
{
    MessageContent::Text(string)
}

/// Response variant for a message from the server: a persisted message
/// joined with its author.
#[derive(Debug, Clone, PartialEq, Eq)]
pub struct MessageResponse {
    pub id: i32,
    pub user: User,
    pub content: MessageContent,
}

/// The mathematical value of a [`MessageResponse`].
pub struct MessageResponseView {
    pub id: i32,
    pub user: UserView,
    pub content: MessageContentView,
}

impl View for MessageResponse {
    type V = MessageResponseView;

    open spec fn view(&self) -> MessageResponseView {
        MessageResponseView { id: self.id, user: self.user@, content: self.content@ }
    }
}

/// Response variant for an error from the server.
#[derive(Debug, Clone, Copy, PartialEq, Eq, Structural)]
pub enum ErrorResponse {
    DBError(DBError),
    ServerError(ServerError),
}

/// Equivalent to writing out `ErrorResponse::DBError(arg0)`.
pub fn db_error(arg0: DBError) -> (e: ErrorResponse)
    ensures
        e == ErrorResponse::DBError(arg0),
{
    ErrorResponse::DBError(arg0)
}

/// Equivalent to writing out `ErrorResponse::ServerError(arg0)`.
pub fn server_error(arg0: ServerError) -> (e: ErrorResponse)
    ensures
        e == ErrorResponse::ServerError(arg0),
{
    ErrorResponse::ServerError(arg0)
}

/// Represents a response coming from the server.
#[derive(Debug, Clone, PartialEq, Eq)]
pub enum ServerResponse {
    Message(MessageResponse),
    AuthToken(String),
    Error(ErrorResponse),
}

/// The mathematical value of a [`ServerResponse`].
pub enum ServerResponseView {
    Message(MessageResponseView),
    AuthToken(Seq<char>),
    Error(ErrorResponse),
}

impl View for ServerResponse {
    type V = ServerResponseView;

    open spec fn view(&self) -> ServerResponseView {
        match self {
            ServerResponse::Message(m) => ServerResponseView::Message(m@),
            ServerResponse::AuthToken(t) => ServerResponseView::AuthToken(t@),
            ServerResponse::Error(e) => ServerResponseView::Error(*e),
        }
    }
}

/// Equivalent to writing out `ServerResponse::Message(arg0)`.
pub fn message(arg0: MessageResponse) -> (r: ServerResponse)
    ensures
        r == ServerResponse::Message(arg0),
{
    ServerResponse::Message(arg0)
}

/// Equivalent to writing out `ServerResponse::AuthToken(arg0)`.
pub fn auth_token(arg0: String) -> (r: ServerResponse)
    ensures
        r == ServerResponse::AuthToken(arg0),
{
    ServerResponse::AuthToken(arg0)
}

/// Equivalent to writing out `ServerResponse::Error(arg0)`.
pub fn error(arg0: ErrorResponse) -> (r: ServerResponse)
    ensures
        r == ServerResponse::Error(arg0),
{
    ServerResponse::Error(arg0)
}

/// Request variant for sending messages: the sender's session token and the
/// content to relay.
#[derive(Debug, Clone, PartialEq, Eq)]
pub struct MessageRequest {
    pub jwt: String,
    pub message: MessageContent,
}

/// The mathematical value of a [`MessageRequest`].
pub struct MessageRequestView {
    pub jwt: Seq<char>,
    pub message: MessageContentView,
}

impl View for MessageRequest {
    type V = MessageRequestView;

    open spec fn view(&self) -> MessageRequestView {
        MessageRequestView { jwt: self.jwt@, message: self.message@ }
    }
}

impl MessageRequest {
    /// A message request with the given token and content.
    pub fn new(jwt: String, message: MessageContent) -> (r: Self)
        ensures
            r == (MessageRequest { jwt, message }),
    {
        MessageRequest { jwt, message }
    }
}

/// Type of authentication request.
#[derive(Debug, Clone, Copy, PartialEq, Eq, Structural)]
pub enum AuthRequestKind {
    Login,
    Register,
}

/// Request variant for authentication.
#[derive(Debug, Clone, PartialEq, Eq)]
pub struct AuthRequest {
    pub kind: AuthRequestKind,
    pub username: String,
    pub password: String,
}

/// The mathematical value of an [`AuthRequest`].
pub struct AuthRequestView {
    pub kind: AuthRequestKind,
    pub username: Seq<char>,
    pub password: Seq<char>,
}

impl View for AuthRequest {
    type V = AuthRequestView;

    open spec fn view(&self) -> AuthRequestView {
        AuthRequestView { kind: self.kind, username: self.username@, password: self.password@ }
    }
}

impl AuthRequest {
    /// An authentication request of the given kind with the given credentials.
    pub fn new(kind: AuthRequestKind, username: String, password: String) -> (r: Self)
        ensures
            r == (AuthRequest { kind, username, password }),
    {
        AuthRequest { kind, username, password }
    }
}

/// Request variant for reading message history: the `amount` most recent
/// messages, skipping the `offset` newest.
#[derive(Debug, Clone, PartialEq, Eq)]
pub struct ReadRequest {
    pub jwt: String,
    pub amount: i32,
    pub offset: i32,
}

/// The mathematical value of a [`ReadRequest`].
pub struct ReadRequestView {
    pub jwt: Seq<char>,
    pub amount: i32,
    pub offset: i32,
}

impl View for ReadRequest {
    type V = ReadRequestView;

    open spec fn view(&self) -> ReadRequestView {
        ReadRequestView { jwt: self.jwt@, amount: self.amount, offset: self.offset }
    }
}

/// Represents a request to the server.
#[derive(Debug, Clone, PartialEq, Eq)]
pub enum StreamRequest {
    MessageRequest(MessageRequest),
    AuthRequest(AuthRequest),
    ReadRequest(ReadRequest),
}

/// The mathematical value of a [`StreamRequest`].
pub enum StreamRequestView {
    MessageRequest(MessageRequestView),
    AuthRequest(AuthRequestView),
    ReadRequest(ReadRequestView),
}

impl View for StreamRequest {
    type V = StreamRequestView;

    open spec fn view(&self) -> StreamRequestView {
        match self {
            StreamRequest::MessageRequest(m) => StreamRequestView::MessageRequest(m@),
            StreamRequest::AuthRequest(a) => StreamRequestView::AuthRequest(a@),
            StreamRequest::ReadRequest(r) => StreamRequestView::ReadRequest(r@),
        }
    }
}

/// Equivalent to writing out `StreamRequest::MessageRequest(arg0)`.
pub fn message_request(arg0: MessageRequest) -> (r: StreamRequest)
    ensures
        r == StreamRequest::MessageRequest(arg0),
{
    StreamRequest::MessageRequest(arg0)
}

/// Equivalent to writing out `StreamRequest::AuthRequest(arg0)`.
pub fn auth_request(arg0: AuthRequest) -> (r: StreamRequest)
    ensures
        r == StreamRequest::AuthRequest(arg0),
{
    StreamRequest::AuthRequest(arg0)
}

/// Equivalent to writing out `StreamRequest::ReadRequest(arg0)`.
pub fn read_request(arg0: ReadRequest) -> (r: StreamRequest)
    ensures
        r == StreamRequest::ReadRequest(arg0),
{
    StreamRequest::ReadRequest(arg0)
}

} // verus!
