//! The connection handler: what the relay decides for each frame that
//! arrives on a connection and for each answer of the store.
//!
//! Reading frames, calling the store and writing responses are the work of
//! the task that drives a connection. Between two such steps it asks
//! [`step`] what to do next: the function takes the connection's phase and
//! what just happened, and gives the next phase and one [`Action`].
//!
//! The phase says what a connection is waiting for. Whether it is
//! authenticated is no part of the phase: a connection is authenticated
//! while the registry holds a token for it that is valid.

use vstd::prelude::*;
use crate::broadcast::{broadcast_targets, recipients};
use crate::codec::read_content;
use crate::db::{
    author_view, Message, MessageView, SavedMessage, SavedMessageView, User, UserView,
};
use crate::envelope::{decoded_data, handle_stream, Arrival};
use crate::errors::{DBError, ServerError, StreamError, StreamErrorView};
use crate::registry::{
    distinct_addresses, removed, token_of, with_token, Address, EntryView, Registry,
};
use crate::structs::{
    AuthRequest, AuthRequestKind, AuthRequestView, ErrorResponse, MessageContent,
    MessageContentView, MessageRequest, MessageRequestView, MessageResponse, MessageResponseView,
    ReadRequest, ReadRequestView, ServerResponse, ServerResponseView, StreamRequest,
    StreamRequestView,
};
use crate::token::{
    carries, expiry, issue, issued, token_valid, verified, verify, Claims, TokenError,
};

verus! {

// ---------------------------------------------------------------------------
// Message views

/// The response that shows a persisted message to a client: the message
/// joined with its author and with its content decoded. The author must have
/// been found, the content must decode, and the message must have an id.
pub open spec fn resolved(message: MessageView, author: Result<UserView, DBError>) -> Result<
    MessageResponseView,
    ErrorResponse,
> {
    match author {
        Err(e) => Err(ErrorResponse::DBError(e)),
        Ok(user) => match decoded_data(message.content) {
            Err(_) => Err(ErrorResponse::ServerError(ServerError::DeserializeObjectError)),
            Ok(content) => match message.id {
                None => Err(ErrorResponse::DBError(DBError::MessageNotFoundError)),
                Some(id) => Ok(MessageResponseView { id, user, content }),
            },
        },
    }
}

impl MessageResponse {
    /// Joins a persisted message with what the store found of its author.
    pub fn from_db_message(message: &Message, user: Result<User, DBError>) -> (r: Result<
        Self,
        ErrorResponse,
    >)
        ensures
            match r {
                Ok(response) => resolved(message@, author_view(user)) == Ok::<
                    MessageResponseView,
                    ErrorResponse,
                >(response@),
                Err(e) => resolved(message@, author_view(user)) == Err::<
                    MessageResponseView,
                    ErrorResponse,
                >(e),
            },
    {
        let user = match user {
            Ok(user) => user,
            Err(e) => { return Err(ErrorResponse::DBError(e)); },
        };
        let content = match read_content(message.content.as_slice(), 0) {
            Ok((content, _)) => content,
            Err(_) => {
                return Err(ErrorResponse::ServerError(ServerError::DeserializeObjectError));
            },
        };
        match message.id {
            Some(id) => Ok(MessageResponse { id, user, content }),
            None => Err(ErrorResponse::DBError(DBError::MessageNotFoundError)),
        }
    }
}

/// The frame that answers for one persisted message: the message where it
/// resolves, the error where it does not.
pub open spec fn response_of(saved: SavedMessageView) -> ServerResponseView {
    match resolved(saved.message, saved.author) {
        Ok(response) => ServerResponseView::Message(response),
        Err(e) => ServerResponseView::Error(e),
    }
}

/// The frames that answer a history request: one per message, in the order
/// in which the store delivered the messages.
pub open spec fn history_responses(history: Seq<SavedMessageView>) -> Seq<ServerResponseView> {
    Seq::new(history.len(), |i: int| response_of(history[i]))
}

/// The mathematical value of a vector of persisted messages.
pub open spec fn saved_views(history: Seq<SavedMessage>) -> Seq<SavedMessageView> {
    Seq::new(history.len(), |i: int| history[i]@)
}

/// The mathematical value of a vector of responses.
pub open spec fn response_views(responses: Seq<ServerResponse>) -> Seq<ServerResponseView> {
    Seq::new(responses.len(), |i: int| responses[i]@)
}

/// The frame that answers for one persisted message.
pub fn response_for(saved: SavedMessage) -> (response: ServerResponse)
    ensures
        response@ == response_of(saved@),
{
    match MessageResponse::from_db_message(&saved.message, saved.author) {
        Ok(response) => ServerResponse::Message(response),
        Err(e) => ServerResponse::Error(e),
    }
}

// ---------------------------------------------------------------------------
// Actions

/// What the task that drives a connection is to do next.
#[derive(Debug)]
pub enum Action {
    /// Ask the store whether `password` is the password of `username`, and
    /// come back with the answer.
    CheckPassword { username: String, password: String },
    /// Ask the store for the id of `username`, and come back with the answer.
    GetUserId { username: String },
    /// Ask the store to create the user, and come back with the answer.
    CreateUser { username: String, password: String },
    /// Ask the store to persist a message of `user_id` and to look up its
    /// author, and come back with the answer.
    SaveMessage { user_id: i32, content: MessageContent },
    /// Ask the store for the `amount` most recent messages behind the
    /// `offset` newest, oldest first, each with its author, and come back
    /// with the answer.
    ReadHistory { amount: i32, offset: i32 },
    /// Write one frame to this connection, then read the next frame.
    Reply(ServerResponse),
    /// Write these frames to this connection, in order, then read the next
    /// frame.
    ReplyAll(Vec<ServerResponse>),
    /// Write the frame to each recipient, independently of the others, then
    /// read the next frame.
    Broadcast { recipients: Vec<Address>, response: ServerResponse },
    /// The frame could not be understood: report the error and read the
    /// next frame.
    SkipFrame(StreamError),
    /// The message could not be persisted: report the error and read the
    /// next frame.
    DropMessage(DBError),
    /// The event does not belong to the phase: go on as before.
    Ignore,
    /// The connection is gone: stop.
    Close,
}

/// The mathematical value of an [`Action`].
pub enum ActionView {
    CheckPassword { username: Seq<char>, password: Seq<char> },
    GetUserId { username: Seq<char> },
    CreateUser { username: Seq<char>, password: Seq<char> },
    SaveMessage { user_id: i32, content: MessageContentView },
    ReadHistory { amount: i32, offset: i32 },
    Reply(ServerResponseView),
    ReplyAll(Seq<ServerResponseView>),
    Broadcast { recipients: Seq<Address>, response: ServerResponseView },
    SkipFrame(StreamErrorView),
    DropMessage(DBError),
    Ignore,
    Close,
}

impl View for Action {
    type V = ActionView;

    open spec fn view(&self) -> ActionView {
        match self {
            Action::CheckPassword { username, password } => ActionView::CheckPassword {
                username: username@,
                password: password@,
            },
            Action::GetUserId { username } => ActionView::GetUserId { username: username@ },
            Action::CreateUser { username, password } => ActionView::CreateUser {
                username: username@,
                password: password@,
            },
            Action::SaveMessage { user_id, content } => ActionView::SaveMessage {
                user_id: *user_id,
                content: content@,
            },
            Action::ReadHistory { amount, offset } => ActionView::ReadHistory {
                amount: *amount,
                offset: *offset,
            },
            Action::Reply(response) => ActionView::Reply(response@),
            Action::ReplyAll(responses) => ActionView::ReplyAll(response_views(responses@)),
            Action::Broadcast { recipients, response } => ActionView::Broadcast {
                recipients: recipients@,
                response: response@,
            },
            Action::SkipFrame(e) => ActionView::SkipFrame(e@),
            Action::DropMessage(e) => ActionView::DropMessage(*e),
            Action::Ignore => ActionView::Ignore,
            Action::Close => ActionView::Close,
        }
    }
}

/// The reply that turns a request down for its token.
pub open spec fn invalid_token_reply() -> ActionView {
    ActionView::Reply(
        ServerResponseView::Error(ErrorResponse::ServerError(ServerError::InvalidToken)),
    )
}

/// The reply that reports a failure of the store.
pub open spec fn store_failure_reply(e: DBError) -> ActionView {
    ActionView::Reply(ServerResponseView::Error(ErrorResponse::DBError(e)))
}

// ---------------------------------------------------------------------------
// Decisions on requests

/// What a message request leads to: the sender's token is verified; with a
/// valid token the message is persisted under the user that the token
/// binds, else the request is turned down and nothing is persisted.
pub open spec fn message_decision(
    request: MessageRequestView,
    secret: Seq<u8>,
    now: u64,
) -> ActionView {
    match verified(request.jwt, secret, now) {
        Ok(claims) => ActionView::SaveMessage { user_id: claims.sub, content: request.message },
        Err(_) => invalid_token_reply(),
    }
}

/// Decides on a message request at time `now`.
pub fn handle_message_request(message_request: MessageRequest, secret: &[u8], now: u64) -> (action:
    Action)
    ensures
        action@ == message_decision(message_request@, secret@, now),
{
    match verify(message_request.jwt.as_str(), secret, now) {
        Ok(user_id) => Action::SaveMessage { user_id, content: message_request.message },
        Err(_) => Action::Reply(
            ServerResponse::Error(ErrorResponse::ServerError(ServerError::InvalidToken)),
        ),
    }
}

/// What a history request leads to: the token is verified before the store
/// is asked for anything.
pub open spec fn read_decision(request: ReadRequestView, secret: Seq<u8>, now: u64) -> ActionView {
    match verified(request.jwt, secret, now) {
        Ok(_) => ActionView::ReadHistory { amount: request.amount, offset: request.offset },
        Err(_) => invalid_token_reply(),
    }
}

/// Decides on a history request at time `now`.
pub fn handle_read_request(read_request: ReadRequest, secret: &[u8], now: u64) -> (action: Action)
    ensures
        action@ == read_decision(read_request@, secret@, now),
{
    match verify(read_request.jwt.as_str(), secret, now) {
        Ok(_) => Action::ReadHistory { amount: read_request.amount, offset: read_request.offset },
        Err(_) => Action::Reply(
            ServerResponse::Error(ErrorResponse::ServerError(ServerError::InvalidToken)),
        ),
    }
}

/// What an authentication request leads to: a question to the store.
pub open spec fn auth_decision(request: AuthRequestView) -> ActionView {
    match request.kind {
        AuthRequestKind::Login => ActionView::CheckPassword {
            username: request.username,
            password: request.password,
        },
        AuthRequestKind::Register => ActionView::CreateUser {
            username: request.username,
            password: request.password,
        },
    }
}

/// Decides on an authentication request.
pub fn handle_auth_request(auth_request: AuthRequest) -> (action: Action)
    ensures
        action@ == auth_decision(auth_request@),
{
    match auth_request.kind {
        AuthRequestKind::Login => Action::CheckPassword {
            username: auth_request.username,
            password: auth_request.password,
        },
        AuthRequestKind::Register => Action::CreateUser {
            username: auth_request.username,
            password: auth_request.password,
        },
    }
}

// ---------------------------------------------------------------------------
// Decisions on answers of the store

/// What the store's verdict on a password leads to.
pub open spec fn login_decision(check: Result<bool, DBError>, username: Seq<char>) -> ActionView {
    match check {
        Err(e) => store_failure_reply(e),
        Ok(correct) => if correct {
            ActionView::GetUserId { username }
        } else {
            ActionView::Reply(
                ServerResponseView::Error(
                    ErrorResponse::ServerError(ServerError::InvalidCredentials),
                ),
            )
        },
    }
}

/// Decides on the store's verdict on the password of `username`.
pub fn handle_login(check: Result<bool, DBError>, username: String) -> (action: Action)
    ensures
        action@ == login_decision(check, username@),
{
    match check {
        Err(e) => Action::Reply(ServerResponse::Error(ErrorResponse::DBError(e))),
        Ok(true) => Action::GetUserId { username },
        Ok(false) => Action::Reply(
            ServerResponse::Error(ErrorResponse::ServerError(ServerError::InvalidCredentials)),
        ),
    }
}

/// The mathematical value of an optional token.
pub open spec fn token_view(token: Option<String>) -> Option<Seq<char>> {
    match token {
        Some(t) => Some(t@),
        None => None,
    }
}

/// The end of a successful authentication: the new token of the connection
/// and the frame that hands it to the client; or, where no token could be
/// made, no token and an error frame.
pub open spec fn token_reply(minted: Result<Seq<char>, TokenError>) -> (
    Option<Seq<char>>,
    ServerResponseView,
) {
    match minted {
        Ok(token) => (Some(token), ServerResponseView::AuthToken(token)),
        Err(_) => (
            None,
            ServerResponseView::Error(
                ErrorResponse::ServerError(ServerError::SerializeObjectError),
            ),
        ),
    }
}

/// What the store's answer to the question for a user's id leads to.
pub open spec fn login_reply(user_id: Result<i32, DBError>, secret: Seq<u8>, now: u64) -> (
    Option<Seq<char>>,
    ServerResponseView,
) {
    match user_id {
        Ok(id) => token_reply(issued(id, secret, now)),
        Err(e) => (None, ServerResponseView::Error(ErrorResponse::DBError(e))),
    }
}

/// What the store's answer to the creation of a user leads to. A user that
/// came back without an id counts as not created.
pub open spec fn register_reply(created: Result<UserView, DBError>, secret: Seq<u8>, now: u64) -> (
    Option<Seq<char>>,
    ServerResponseView,
) {
    match created {
        Ok(user) => match user.id {
            Some(id) => token_reply(issued(id, secret, now)),
            None => (
                None,
                ServerResponseView::Error(ErrorResponse::ServerError(ServerError::UsernameUsed)),
            ),
        },
        Err(_) => (
            None,
            ServerResponseView::Error(ErrorResponse::ServerError(ServerError::UsernameUsed)),
        ),
    }
}

/// The token was made for `user_id` at time `now`: it carries that user id
/// and expires a day later.
pub open spec fn binds(token: Seq<char>, secret: Seq<u8>, user_id: i32, now: u64) -> bool {
    expiry(now) matches Some(exp) && carries(token, secret, Claims { sub: user_id, exp })
}

/// The connection at `address` is authenticated at time `now`: the registry
/// holds a token for it that is valid then.
pub open spec fn authenticated<W>(
    table: Seq<EntryView<W>>,
    address: Address,
    secret: Seq<u8>,
    now: u64,
) -> bool {
    token_of(table, address) matches Some(token) && token_valid(token, secret, now)
}

/// Mints the token for `user_id` and wraps it into the frame for the client.
fn reply_with_token(user_id: i32, secret: &[u8], now: u64) -> (r: (Option<String>, ServerResponse))
    ensures
        (token_view(r.0), r.1@) == token_reply(issued(user_id, secret@, now)),
        r.0 matches Some(token) ==> (binds(token@, secret@, user_id, now) && token_valid(
            token@,
            secret@,
            now,
        )),
{
    match issue(user_id, secret, now) {
        Ok(token) => {
            let copy = token.clone();
            (Some(token), ServerResponse::AuthToken(copy))
        },
        Err(_) => (
            None,
            ServerResponse::Error(ErrorResponse::ServerError(ServerError::SerializeObjectError)),
        ),
    }
}

/// Ends a login on the store's answer to the question for the user's id:
/// the connection's new token, if it gets one, and the frame for the client.
/// A token that comes out names that user.
pub fn handle_login_user(user_id: Result<i32, DBError>, secret: &[u8], now: u64) -> (r: (
    Option<String>,
    ServerResponse,
))
    ensures
        (token_view(r.0), r.1@) == login_reply(user_id, secret@, now),
        r.0 matches Some(token) ==> (user_id matches Ok(id) && binds(token@, secret@, id, now)
            && token_valid(token@, secret@, now)),
{
    match user_id {
        Ok(id) => reply_with_token(id, secret, now),
        Err(e) => (None, ServerResponse::Error(ErrorResponse::DBError(e))),
    }
}

/// Ends a registration on the store's answer to the creation of the user:
/// the connection's new token, if it gets one, and the frame for the client.
/// A token that comes out names the new user.
pub fn handle_register(created: Result<User, DBError>, secret: &[u8], now: u64) -> (r: (
    Option<String>,
    ServerResponse,
))
    ensures
        (token_view(r.0), r.1@) == register_reply(author_view(created), secret@, now),
        r.0 matches Some(token) ==> (created matches Ok(user) && user.id matches Some(id) && binds(
            token@,
            secret@,
            id,
            now,
        ) && token_valid(token@, secret@, now)),
{
    match created {
        Ok(user) => match user.id {
            Some(id) => reply_with_token(id, secret, now),
            None => (
                None,
                ServerResponse::Error(ErrorResponse::ServerError(ServerError::UsernameUsed)),
            ),
        },
        Err(_) => (
            None,
            ServerResponse::Error(ErrorResponse::ServerError(ServerError::UsernameUsed)),
        ),
    }
}

/// What the store's answer to a save leads to: the persisted message goes
/// to every other connection with a valid token; a message that does not
/// resolve is reported to the sender; a failed save is dropped.
pub open spec fn saved_decision<W>(
    saved: Result<SavedMessageView, DBError>,
    table: Seq<EntryView<W>>,
    origin: Address,
    secret: Seq<u8>,
    now: u64,
) -> ActionView {
    match saved {
        Err(e) => ActionView::DropMessage(e),
        Ok(saved) => match resolved(saved.message, saved.author) {
            Ok(response) => ActionView::Broadcast {
                recipients: recipients(table, origin, secret, now),
                response: ServerResponseView::Message(response),
            },
            Err(e) => ActionView::Reply(ServerResponseView::Error(e)),
        },
    }
}

/// The mathematical value of the store's answer to a save.
pub open spec fn saved_view(saved: Result<SavedMessage, DBError>) -> Result<
    SavedMessageView,
    DBError,
> {
    match saved {
        Ok(s) => Ok(s@),
        Err(e) => Err(e),
    }
}

/// Decides on the store's answer to a save for the connection `origin`.
pub fn handle_saved_message<W>(
    saved: Result<SavedMessage, DBError>,
    registry: &Registry<W>,
    origin: Address,
    secret: &[u8],
    now: u64,
) -> (action: Action)
    ensures
        action@ == saved_decision(saved_view(saved), registry@, origin, secret@, now),
{
    match saved {
        Err(e) => Action::DropMessage(e),
        Ok(saved) => match MessageResponse::from_db_message(&saved.message, saved.author) {
            Ok(response) => Action::Broadcast {
                recipients: broadcast_targets(registry, origin, secret, now),
                response: ServerResponse::Message(response),
            },
            Err(e) => Action::Reply(ServerResponse::Error(e)),
        },
    }
}

/// What the store's answer to a history request leads to.
pub open spec fn history_decision(history: Result<Seq<SavedMessageView>, DBError>) -> ActionView {
    match history {
        Ok(messages) => ActionView::ReplyAll(history_responses(messages)),
        Err(e) => store_failure_reply(e),
    }
}

/// The mathematical value of the store's answer to a history request.
pub open spec fn history_view(history: Result<Vec<SavedMessage>, DBError>) -> Result<
    Seq<SavedMessageView>,
    DBError,
> {
    match history {
        Ok(messages) => Ok(saved_views(messages@)),
        Err(e) => Err(e),
    }
}

/// Decides on the store's answer to a history request.
pub fn handle_history(history: Result<Vec<SavedMessage>, DBError>) -> (action: Action)
    ensures
        action@ == history_decision(history_view(history)),
{
    match history {
        Err(e) => Action::Reply(ServerResponse::Error(ErrorResponse::DBError(e))),
        Ok(messages) => {
            let ghost all = messages@;
            let mut responses: Vec<ServerResponse> = Vec::new();
            for saved in it: messages
                invariant
                    it.seq() == all,
                    responses@.len() == it.index(),
                    forall|k: int|
                        0 <= k < responses@.len() ==> responses@[k]@ == response_of(all[k]@),
            {
                responses.push(response_for(saved));
            }
            assert(response_views(responses@) =~= history_responses(saved_views(all)));
            Action::ReplyAll(responses)
        },
    }
}

// ---------------------------------------------------------------------------
// The state machine of a connection

/// What a connection is waiting for.
#[derive(Debug)]
pub enum Phase {
    /// The next frame of the peer.
    Reading,
    /// The store's verdict on the password of `username`.
    CheckingPassword { username: String },
    /// The store's answer to the question for a user's id.
    FetchingUserId,
    /// The store's answer to the creation of a user.
    CreatingUser,
    /// The store's answer to a save.
    SavingMessage,
    /// The store's answer to a history request.
    ReadingHistory,
    /// Nothing: the connection is gone and its row is out of the registry.
    Closed,
}

/// The mathematical value of a [`Phase`].
pub enum PhaseView {
    Reading,
    CheckingPassword { username: Seq<char> },
    FetchingUserId,
    CreatingUser,
    SavingMessage,
    ReadingHistory,
    Closed,
}

impl View for Phase {
    type V = PhaseView;

    open spec fn view(&self) -> PhaseView {
        match self {
            Phase::Reading => PhaseView::Reading,
            Phase::CheckingPassword { username } => PhaseView::CheckingPassword {
                username: username@,
            },
            Phase::FetchingUserId => PhaseView::FetchingUserId,
            Phase::CreatingUser => PhaseView::CreatingUser,
            Phase::SavingMessage => PhaseView::SavingMessage,
            Phase::ReadingHistory => PhaseView::ReadingHistory,
            Phase::Closed => PhaseView::Closed,
        }
    }
}

/// What happened on a connection since the last step.
#[derive(Debug)]
pub enum Event {
    /// The read side came back.
    Arrived(Arrival),
    /// The store answered [`Action::CheckPassword`].
    PasswordChecked(Result<bool, DBError>),
    /// The store answered [`Action::GetUserId`].
    UserIdFetched(Result<i32, DBError>),
    /// The store answered [`Action::CreateUser`].
    UserCreated(Result<User, DBError>),
    /// The store answered [`Action::SaveMessage`].
    MessageSaved(Result<SavedMessage, DBError>),
    /// The store answered [`Action::ReadHistory`].
    HistoryRead(Result<Vec<SavedMessage>, DBError>),
}

/// The mathematical value of an [`Event`].
pub enum EventView {
    Arrived(crate::envelope::ArrivalView),
    PasswordChecked(Result<bool, DBError>),
    UserIdFetched(Result<i32, DBError>),
    UserCreated(Result<UserView, DBError>),
    MessageSaved(Result<SavedMessageView, DBError>),
    HistoryRead(Result<Seq<SavedMessageView>, DBError>),
}

impl View for Event {
    type V = EventView;

    open spec fn view(&self) -> EventView {
        match self {
            Event::Arrived(arrival) => EventView::Arrived(arrival@),
            Event::PasswordChecked(check) => EventView::PasswordChecked(*check),
            Event::UserIdFetched(user_id) => EventView::UserIdFetched(*user_id),
            Event::UserCreated(created) => EventView::UserCreated(author_view(*created)),
            Event::MessageSaved(saved) => EventView::MessageSaved(saved_view(*saved)),
            Event::HistoryRead(history) => EventView::HistoryRead(history_view(*history)),
        }
    }
}

/// What a request leads to.
pub open spec fn request_decision(
    request: StreamRequestView,
    secret: Seq<u8>,
    now: u64,
) -> ActionView {
    match request {
        StreamRequestView::MessageRequest(m) => message_decision(m, secret, now),
        StreamRequestView::AuthRequest(a) => auth_decision(a),
        StreamRequestView::ReadRequest(r) => read_decision(r, secret, now),
    }
}

/// Decides on a request at time `now`.
pub fn handle_request(request: StreamRequest, secret: &[u8], now: u64) -> (action: Action)
    ensures
        action@ == request_decision(request@, secret@, now),
{
    match request {
        StreamRequest::MessageRequest(m) => handle_message_request(m, secret, now),
        StreamRequest::AuthRequest(a) => handle_auth_request(a),
        StreamRequest::ReadRequest(r) => handle_read_request(r, secret, now),
    }
}

/// The phase in which an action leaves the connection: a question to the
/// store is followed by the wait for its answer, `Close` by the end, and
/// everything else by the wait for the next frame. `Ignore` changes nothing.
pub open spec fn phase_after(before: PhaseView, action: ActionView) -> PhaseView {
    match action {
        ActionView::CheckPassword { username, .. } => PhaseView::CheckingPassword { username },
        ActionView::GetUserId { .. } => PhaseView::FetchingUserId,
        ActionView::CreateUser { .. } => PhaseView::CreatingUser,
        ActionView::SaveMessage { .. } => PhaseView::SavingMessage,
        ActionView::ReadHistory { .. } => PhaseView::ReadingHistory,
        ActionView::Close => PhaseView::Closed,
        ActionView::Ignore => before,
        _ => PhaseView::Reading,
    }
}

/// The phase in which `action` leaves a connection that was in `before`.
fn next_phase(before: Phase, action: &Action) -> (phase: Phase)
    ensures
        phase@ == phase_after(before@, action@),
{
    match action {
        Action::CheckPassword { username, .. } => Phase::CheckingPassword {
            username: username.clone(),
        },
        Action::GetUserId { .. } => Phase::FetchingUserId,
        Action::CreateUser { .. } => Phase::CreatingUser,
        Action::SaveMessage { .. } => Phase::SavingMessage,
        Action::ReadHistory { .. } => Phase::ReadingHistory,
        Action::Close => Phase::Closed,
        Action::Ignore => before,
        _ => Phase::Reading,
    }
}

/// The table after an authentication ended: the connection's token is the
/// new one where one was made, and nothing has changed where none was.
pub open spec fn table_after_auth<W>(
    table: Seq<EntryView<W>>,
    address: Address,
    token: Option<Seq<char>>,
) -> Seq<EntryView<W>> {
    match token {
        Some(t) => with_token(table, address, t),
        None => table,
    }
}

/// One step of a connection: the action, and the registry's table after it.
pub open spec fn step_effect<W>(
    phase: PhaseView,
    event: EventView,
    table: Seq<EntryView<W>>,
    address: Address,
    secret: Seq<u8>,
    now: u64,
) -> (ActionView, Seq<EntryView<W>>) {
    match (phase, event) {
        (PhaseView::Closed, _) => (ActionView::Close, table),
        (PhaseView::Reading, EventView::Arrived(arrival)) => match crate::envelope::arrival_outcome(
            arrival,
        ) {
            Ok(request) => (request_decision(request, secret, now), table),
            Err(StreamErrorView::StreamClosed) => (ActionView::Close, removed(table, address)),
            Err(e) => (ActionView::SkipFrame(e), table),
        },
        (PhaseView::CheckingPassword { username }, EventView::PasswordChecked(check)) => (
            login_decision(check, username),
            table,
        ),
        (PhaseView::FetchingUserId, EventView::UserIdFetched(user_id)) => {
            let (token, response) = login_reply(user_id, secret, now);
            (ActionView::Reply(response), table_after_auth(table, address, token))
        },
        (PhaseView::CreatingUser, EventView::UserCreated(created)) => {
            let (token, response) = register_reply(created, secret, now);
            (ActionView::Reply(response), table_after_auth(table, address, token))
        },
        (PhaseView::SavingMessage, EventView::MessageSaved(saved)) => (
            saved_decision(saved, table, address, secret, now),
            table,
        ),
        (PhaseView::ReadingHistory, EventView::HistoryRead(history)) => (
            history_decision(history),
            table,
        ),
        _ => (ActionView::Ignore, table),
    }
}

/// Registers a connection that was just accepted. It starts out waiting for
/// its first frame, without a token.
pub fn connect<W>(registry: &mut Registry<W>, address: Address, writer: W) -> (phase: Phase)
    ensures
        phase@ == PhaseView::Reading,
        final(registry)@ == crate::registry::inserted(
            old(registry)@,
            (EntryView { address, writer, token: Seq::<char>::empty() }),
        ),
        distinct_addresses(final(registry)@),
{
    registry.insert(address, writer);
    Phase::Reading
}

/// Records the token that an authentication ended with, if it ended with one.
fn finish_auth<W>(
    registry: &mut Registry<W>,
    address: Address,
    outcome: (Option<String>, ServerResponse),
) -> (action: Action)
    ensures
        action@ == ActionView::Reply(outcome.1@),
        action matches Action::Reply(response) && response == outcome.1,
        final(registry)@ == table_after_auth(old(registry)@, address, token_view(outcome.0)),
{
    let (token, response) = outcome;
    match token {
        Some(t) => {
            registry.set_token(address, t);
        },
        None => {},
    }
    Action::Reply(response)
}

/// One step of the connection at `address`: takes the phase it is in and
/// what happened, updates the registry, and returns the next phase and what
/// the driving task is to do. A token that the step hands to the client is
/// valid at once.
pub fn step<W>(
    phase: Phase,
    event: Event,
    registry: &mut Registry<W>,
    address: Address,
    secret: &[u8],
    now: u64,
) -> (r: (Phase, Action))
    ensures
        (r.1@, final(registry)@) == step_effect(
            phase@,
            event@,
            old(registry)@,
            address,
            secret@,
            now,
        ),
        r.0@ == phase_after(phase@, r.1@),
        r.1 matches Action::Reply(ServerResponse::AuthToken(token)) ==> token_valid(
            token@,
            secret@,
            now,
        ),
{
    let action = match (&phase, event) {
        (Phase::Closed, _) => Action::Close,
        (Phase::Reading, Event::Arrived(arrival)) => match handle_stream(arrival) {
            Ok(request) => handle_request(request, secret, now),
            Err(StreamError::StreamClosed) => {
                registry.remove(address);
                Action::Close
            },
            Err(e) => Action::SkipFrame(e),
        },
        (Phase::CheckingPassword { username }, Event::PasswordChecked(check)) => handle_login(
            check,
            username.clone(),
        ),
        (Phase::FetchingUserId, Event::UserIdFetched(user_id)) => {
            let outcome = handle_login_user(user_id, secret, now);
            finish_auth(registry, address, outcome)
        },
        (Phase::CreatingUser, Event::UserCreated(created)) => {
            let outcome = handle_register(created, secret, now);
            finish_auth(registry, address, outcome)
        },
        (Phase::SavingMessage, Event::MessageSaved(saved)) => handle_saved_message(
            saved,
            registry,
            address,
            secret,
            now,
        ),
        (Phase::ReadingHistory, Event::HistoryRead(history)) => handle_history(history),
        _ => Action::Ignore,
    };
    let next = next_phase(phase, &action);
    (next, action)
}

} // verus!
