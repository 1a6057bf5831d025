//! What holds of the relay as a whole: statements that span several of its
//! functions, each proved from the functions' own contracts.

use vstd::prelude::*;
use crate::broadcast::{lemma_broadcast_reaches_each_valid_peer_once, recipients};
use crate::codec::{content_bytes, content_fits};
use crate::db::{MessageView, SavedMessageView, ToBeInsertedUserView, UserView};
use crate::envelope::{decoded_stream, lemma_data_round_trip, ArrivalView};
use crate::errors::DBError;
use crate::handler::{
    authenticated, binds, history_decision, history_responses, invalid_token_reply, login_decision,
    login_reply, message_decision, phase_after, read_decision, register_reply, resolved,
    response_of, saved_decision, step_effect, token_reply, ActionView, EventView, PhaseView,
};
use crate::store::{accepts, found_user_id, password_check};
use crate::registry::{
    distinct_addresses, has_address, lemma_removed_distinct, lemma_with_token_distinct,
    token_of, Address, EntryView,
};
use crate::structs::{
    MessageContentView, MessageRequestView, MessageResponseView, ReadRequestView,
    ServerResponseView, StreamRequestView,
};
use crate::token::{token_payload, token_valid, verified, ONE_DAY};

verus! {

/// The user id that a token carries under `secret`, if the token is one that
/// the signature check accepts and that carries a user id.
pub open spec fn embedded_user(token: Seq<char>, secret: Seq<u8>) -> Option<i64> {
    match token_payload(token, secret) {
        Some((sub, _)) => sub,
        None => None,
    }
}

/// The token that a registration handed out and the token that a later login
/// of the same user handed out carry the same user id, the one under which
/// the store knows the user; and while both are unexpired, both verify to
/// that user.
pub proof fn lemma_register_then_login_name_the_same_user(
    registered: Seq<char>,
    logged_in: Seq<char>,
    secret: Seq<u8>,
    user_id: i32,
    registered_at: u64,
    logged_in_at: u64,
    now: u64,
)
    requires
        binds(registered, secret, user_id, registered_at),
        binds(logged_in, secret, user_id, logged_in_at),
    ensures
        embedded_user(registered, secret) == Some(user_id as i64),
        embedded_user(logged_in, secret) == embedded_user(registered, secret),
        now < registered_at + ONE_DAY ==> (verified(registered, secret, now) matches Ok(claims)
            && claims.sub == user_id),
        now < logged_in_at + ONE_DAY ==> (verified(logged_in, secret, now) matches Ok(claims)
            && claims.sub == user_id),
{
}

/// A user that registered can log in with the same password, and is then
/// given a token for the id that registration gave a token for: if the store
/// finds the row that was prepared at registration, the password check
/// passes, the login goes on to ask for the user's id, and both the
/// registration and the login end with the token that is issued to that id.
pub proof fn lemma_registered_user_can_log_in(
    prepared: ToBeInsertedUserView,
    password: Seq<char>,
    id: i32,
    secret: Seq<u8>,
    registered_at: u64,
    logged_in_at: u64,
)
    requires
        accepts(prepared.password, password),
    ensures
        ({
            let stored = (UserView {
                id: Some(id),
                username: prepared.username,
                password: prepared.password,
                salt: prepared.salt,
            });
            &&& password_check(Ok(stored), password) == Ok::<bool, DBError>(true)
            &&& login_decision(password_check(Ok(stored), password), prepared.username)
                == (ActionView::GetUserId { username: prepared.username })
            &&& found_user_id(Ok(stored)) == Ok::<i32, DBError>(id)
            &&& register_reply(Ok(stored), secret, registered_at) == token_reply(
                crate::token::issued(id, secret, registered_at),
            )
            &&& login_reply(found_user_id(Ok(stored)), secret, logged_in_at) == token_reply(
                crate::token::issued(id, secret, logged_in_at),
            )
        }),
{
}

/// A message that was persisted as it was sent goes out as it was sent: the
/// frame of the broadcast shows the sender's content, the store's id and the
/// author, and it goes to the recipients of the sender's address.
pub proof fn lemma_broadcast_carries_the_message<W>(
    content: MessageContentView,
    stored: MessageView,
    author: UserView,
    table: Seq<EntryView<W>>,
    origin: Address,
    secret: Seq<u8>,
    now: u64,
)
    requires
        content_fits(content),
        stored.content == content_bytes(content),
        stored.id is Some,
    ensures
        saved_decision(
            Ok((SavedMessageView { message: stored, author: Ok(author) })),
            table,
            origin,
            secret,
            now,
        ) == (ActionView::Broadcast {
            recipients: recipients(table, origin, secret, now),
            response: ServerResponseView::Message(
                (MessageResponseView { id: stored.id->0, user: author, content }),
            ),
        }),
{
    lemma_data_round_trip(content, Seq::empty());
    assert(content_bytes(content) + Seq::<u8>::empty() =~= content_bytes(content));
}

/// What one connection sends reaches every other connection that holds a
/// valid token exactly once, and never comes back to the sender: in the
/// broadcast that a save leads to, an address is listed if and only if it is
/// registered, differs from the sender's and has a token that is valid at
/// that time; and no address is listed twice.
pub proof fn lemma_message_reaches_every_valid_peer_once<W>(
    saved: SavedMessageView,
    table: Seq<EntryView<W>>,
    origin: Address,
    secret: Seq<u8>,
    now: u64,
    peer: Address,
)
    requires
        distinct_addresses(table),
        resolved(saved.message, saved.author) is Ok,
    ensures
        saved_decision(Ok(saved), table, origin, secret, now) matches ActionView::Broadcast {
            recipients,
            response,
        } && response == response_of(saved) && recipients.no_duplicates() && !recipients.contains(
            origin,
        ) && (recipients.contains(peer) <==> (peer != origin && has_address(table, peer)
            && token_valid(token_of(table, peer)->0, secret, now))),
{
    lemma_broadcast_reaches_each_valid_peer_once(table, origin, secret, now, peer);
}

/// A history request is answered with one frame per message that the store
/// delivered, in the store's order; a message that resolves is shown under
/// the id that the store gave it, and one that does not resolve yields an
/// error frame in its place without disturbing the others.
pub proof fn lemma_history_is_answered_in_order(history: Seq<SavedMessageView>, i: int)
    requires
        0 <= i < history.len(),
    ensures
        history_decision(Ok(history)) == ActionView::ReplyAll(history_responses(history)),
        history_responses(history).len() == history.len(),
        history_responses(history)[i] == response_of(history[i]),
        match resolved(history[i].message, history[i].author) {
            Ok(shown) => history_responses(history)[i] == ServerResponseView::Message(shown)
                && history[i].message.id == Some(shown.id),
            Err(e) => history_responses(history)[i] == ServerResponseView::Error(e),
        },
{
}

/// A history request for the `amount` newest messages, made when at least
/// that many are persisted, is answered with exactly `amount` frames: they
/// show the `amount` most recently persisted messages, oldest first, as long
/// as the store delivers the window that the request asks for.
pub proof fn lemma_recent_history_is_shown_oldest_first(
    log: Seq<SavedMessageView>,
    amount: int,
    i: int,
)
    requires
        0 <= amount <= log.len(),
        0 <= i < amount,
    ensures
        ({
            let delivered = crate::store::newest_window(log, amount, 0).reverse();
            &&& history_decision(Ok(delivered)) == ActionView::ReplyAll(
                history_responses(delivered),
            )
            &&& history_responses(delivered).len() == amount
            &&& history_responses(delivered)[i] == response_of(log[log.len() - amount + i])
        }),
{
    crate::store::lemma_recent_window(log, amount);
}

/// A request whose token does not verify is turned down with `InvalidToken`
/// and asks nothing of the store: no message is persisted and no history is
/// read. The connection goes on reading, and the registry is as it was.
pub proof fn lemma_invalid_token_is_refused<W>(
    request: StreamRequestView,
    payload: Seq<u8>,
    table: Seq<EntryView<W>>,
    address: Address,
    secret: Seq<u8>,
    now: u64,
)
    requires
        decoded_stream(payload) == Ok::<StreamRequestView, crate::wire::DecodeError>(request),
        match request {
            StreamRequestView::MessageRequest(m) => !token_valid(m.jwt, secret, now),
            StreamRequestView::ReadRequest(r) => !token_valid(r.jwt, secret, now),
            StreamRequestView::AuthRequest(_) => false,
        },
    ensures
        step_effect(
            PhaseView::Reading,
            EventView::Arrived(ArrivalView::Payload(payload)),
            table,
            address,
            secret,
            now,
        ) == (invalid_token_reply(), table),
        phase_after(PhaseView::Reading, invalid_token_reply()) == PhaseView::Reading,
{
}

/// A message is persisted only under the user that its token binds at the
/// time of the request.
pub proof fn lemma_message_is_saved_for_the_token_user(
    request: MessageRequestView,
    secret: Seq<u8>,
    now: u64,
)
    ensures
        match message_decision(request, secret, now) {
            ActionView::SaveMessage { user_id, content } => token_valid(request.jwt, secret, now)
                && embedded_user(request.jwt, secret) == Some(user_id as i64) && content
                == request.message,
            action => !token_valid(request.jwt, secret, now) && action == invalid_token_reply(),
        },
{
}

/// History is read only for a valid token.
pub proof fn lemma_history_needs_a_valid_token(request: ReadRequestView, secret: Seq<u8>, now: u64)
    ensures
        read_decision(request, secret, now) is ReadHistory <==> token_valid(
            request.jwt,
            secret,
            now,
        ),
{
}

/// When the peer closes the stream the connection ends and its row leaves
/// the registry: it is no recipient of any later broadcast, and the rows of
/// the other connections are as they were.
pub proof fn lemma_closed_connection_is_forgotten<W>(
    table: Seq<EntryView<W>>,
    address: Address,
    secret: Seq<u8>,
    now: u64,
    origin: Address,
    later: u64,
    other: Address,
)
    requires
        distinct_addresses(table),
        other != address,
    ensures
        ({
            let (action, after) = step_effect(
                PhaseView::Reading,
                EventView::Arrived(ArrivalView::NoHeader),
                table,
                address,
                secret,
                now,
            );
            &&& action == ActionView::Close
            &&& phase_after(PhaseView::Reading, action) == PhaseView::Closed
            &&& distinct_addresses(after)
            &&& !has_address(after, address)
            &&& !recipients(after, origin, secret, later).contains(address)
            &&& has_address(after, other) == has_address(table, other)
            &&& token_of(after, other) == token_of(table, other)
        }),
{
    let after = crate::registry::removed(table, address);
    lemma_removed_distinct(table, address);
    crate::broadcast::lemma_unregistered_receives_nothing(after, origin, secret, later, address);
}

/// A payload that does not come because the peer is gone ends the connection
/// just as a missing length prefix does; one that does not come for another
/// reason costs only the frame, and the error is reported as it came.
pub proof fn lemma_missing_payload_closes_only_if_peer_gone<W>(
    error: crate::errors::IoErrorView,
    table: Seq<EntryView<W>>,
    address: Address,
    secret: Seq<u8>,
    now: u64,
)
    ensures
        error.kind.peer_gone() ==> step_effect(
            PhaseView::Reading,
            EventView::Arrived(ArrivalView::NoPayload(error)),
            table,
            address,
            secret,
            now,
        ) == step_effect(
            PhaseView::Reading,
            EventView::Arrived(ArrivalView::NoHeader),
            table,
            address,
            secret,
            now,
        ),
        !error.kind.peer_gone() ==> step_effect(
            PhaseView::Reading,
            EventView::Arrived(ArrivalView::NoPayload(error)),
            table,
            address,
            secret,
            now,
        ) == (
            ActionView::SkipFrame(crate::errors::StreamErrorView::ReadMessageError(error)),
            table,
        ),
{
}

/// A payload that holds no request costs only the frame: the connection
/// reads on, and the registry is as it was.
pub proof fn lemma_malformed_frame_is_skipped<W>(
    payload: Seq<u8>,
    table: Seq<EntryView<W>>,
    address: Address,
    secret: Seq<u8>,
    now: u64,
)
    requires
        decoded_stream(payload) is Err,
    ensures
        step_effect(
            PhaseView::Reading,
            EventView::Arrived(ArrivalView::Payload(payload)),
            table,
            address,
            secret,
            now,
        ) == (ActionView::SkipFrame(crate::envelope::undecodable()), table),
        phase_after(PhaseView::Reading, ActionView::SkipFrame(crate::envelope::undecodable()))
            == PhaseView::Reading,
{
}

/// Whatever happens on one connection, the registry keeps its addresses
/// unique and the rows of the other connections stay as they were.
pub proof fn lemma_step_touches_only_its_own_row<W>(
    phase: PhaseView,
    event: EventView,
    table: Seq<EntryView<W>>,
    address: Address,
    secret: Seq<u8>,
    now: u64,
    other: Address,
)
    requires
        distinct_addresses(table),
        other != address,
    ensures
        distinct_addresses(step_effect(phase, event, table, address, secret, now).1),
        has_address(step_effect(phase, event, table, address, secret, now).1, other)
            == has_address(table, other),
        token_of(step_effect(phase, event, table, address, secret, now).1, other) == token_of(
            table,
            other,
        ),
{
    let (action, after) = step_effect(phase, event, table, address, secret, now);
    if after != table {
        lemma_registry_changes_only_on_auth_or_close(phase, event, table, address, secret, now);
        match action {
            ActionView::Reply(ServerResponseView::AuthToken(token)) => {
                lemma_with_token_distinct(table, address, token);
            },
            _ => {
                lemma_removed_distinct(table, address);
            },
        }
    }
}

/// A step that ends an authentication with a token leaves the connection
/// with that token in the registry, and the client with a frame that holds
/// the same token.
pub proof fn lemma_authentication_records_the_token<W>(
    phase: PhaseView,
    event: EventView,
    table: Seq<EntryView<W>>,
    address: Address,
    secret: Seq<u8>,
    now: u64,
)
    requires
        distinct_addresses(table),
        has_address(table, address),
        step_effect(phase, event, table, address, secret, now).0 matches ActionView::Reply(
            ServerResponseView::AuthToken(_),
        ),
    ensures
        step_effect(phase, event, table, address, secret, now).0 matches ActionView::Reply(
            ServerResponseView::AuthToken(token),
        ) && token_of(step_effect(phase, event, table, address, secret, now).1, address) == Some(
            token,
        ),
{
    let (action, after) = step_effect(phase, event, table, address, secret, now);
    if let ActionView::Reply(ServerResponseView::AuthToken(token)) = action {
        lemma_with_token_distinct(table, address, token);
    }
}

/// A failure of the store reaches the requester as a typed error, whatever
/// the request was waiting for; only a failed save is dropped in silence.
pub proof fn lemma_store_failure_is_reported<W>(
    e: DBError,
    table: Seq<EntryView<W>>,
    address: Address,
    secret: Seq<u8>,
    now: u64,
    username: Seq<char>,
)
    ensures
        step_effect(
            (PhaseView::CheckingPassword { username }),
            EventView::PasswordChecked(Err(e)),
            table,
            address,
            secret,
            now,
        ).0 == crate::handler::store_failure_reply(e),
        step_effect(
            PhaseView::FetchingUserId,
            EventView::UserIdFetched(Err(e)),
            table,
            address,
            secret,
            now,
        ).0 == crate::handler::store_failure_reply(e),
        step_effect(
            PhaseView::ReadingHistory,
            EventView::HistoryRead(Err(e)),
            table,
            address,
            secret,
            now,
        ).0 == crate::handler::store_failure_reply(e),
        step_effect(
            PhaseView::SavingMessage,
            EventView::MessageSaved(Err(e)),
            table,
            address,
            secret,
            now,
        ).0 == ActionView::DropMessage(e),
{
}

/// A connection that has not authenticated receives no broadcast: its token
/// is still the empty string that it was registered with.
pub proof fn lemma_unauthenticated_peer_receives_nothing<W>(
    table: Seq<EntryView<W>>,
    origin: Address,
    secret: Seq<u8>,
    now: u64,
    peer: Address,
)
    requires
        distinct_addresses(table),
        token_of(table, peer) == Some(Seq::<char>::empty()),
    ensures
        !recipients(table, origin, secret, now).contains(peer),
{
    lemma_broadcast_reaches_each_valid_peer_once(table, origin, secret, now, peer);
}

/// A connection that was just accepted is registered without a token, and so
/// receives nothing until it authenticates.
pub proof fn lemma_new_connection_receives_nothing<W>(
    table: Seq<EntryView<W>>,
    entry: EntryView<W>,
    origin: Address,
    secret: Seq<u8>,
    now: u64,
)
    requires
        distinct_addresses(table),
        entry.token == Seq::<char>::empty(),
    ensures
        has_address(crate::registry::inserted(table, entry), entry.address),
        !recipients(crate::registry::inserted(table, entry), origin, secret, now).contains(
            entry.address,
        ),
{
    crate::registry::lemma_inserted_distinct(table, entry);
    lemma_unauthenticated_peer_receives_nothing(
        crate::registry::inserted(table, entry),
        origin,
        secret,
        now,
        entry.address,
    );
}

/// A connection whose token carries unexpired claims receives what every
/// other connection sends.
pub proof fn lemma_authenticated_peer_receives<W>(
    table: Seq<EntryView<W>>,
    origin: Address,
    secret: Seq<u8>,
    now: u64,
    peer: Address,
    claims: crate::token::Claims,
)
    requires
        distinct_addresses(table),
        has_address(table, peer),
        crate::token::carries(token_of(table, peer)->0, secret, claims),
        now < claims.exp,
        peer != origin,
    ensures
        recipients(table, origin, secret, now).contains(peer),
{
    lemma_broadcast_reaches_each_valid_peer_once(table, origin, secret, now, peer);
}

/// A message is broadcast only once the store has persisted it: a broadcast
/// is the answer to a successful save and to nothing else.
pub proof fn lemma_broadcast_only_follows_a_save<W>(
    phase: PhaseView,
    event: EventView,
    table: Seq<EntryView<W>>,
    address: Address,
    secret: Seq<u8>,
    now: u64,
)
    requires
        step_effect(phase, event, table, address, secret, now).0 is Broadcast,
    ensures
        phase is SavingMessage,
        event matches EventView::MessageSaved(Ok(saved)) && resolved(saved.message, saved.author)
            is Ok,
{
}

/// The store is asked to persist a message, or to read history, only for a
/// request that arrived with a token that is valid at that time.
pub proof fn lemma_store_is_asked_only_for_valid_tokens<W>(
    phase: PhaseView,
    event: EventView,
    table: Seq<EntryView<W>>,
    address: Address,
    secret: Seq<u8>,
    now: u64,
)
    requires
        step_effect(phase, event, table, address, secret, now).0 is SaveMessage || step_effect(
            phase,
            event,
            table,
            address,
            secret,
            now,
        ).0 is ReadHistory,
    ensures
        phase is Reading,
        event matches EventView::Arrived(ArrivalView::Payload(payload)) && (match decoded_stream(
            payload,
        ) {
            Ok(StreamRequestView::MessageRequest(m)) => token_valid(m.jwt, secret, now),
            Ok(StreamRequestView::ReadRequest(r)) => token_valid(r.jwt, secret, now),
            _ => false,
        }),
{
}

/// The registry changes in two ways only: a connection that authenticates
/// gets its token, and a connection whose stream closed loses its row.
pub proof fn lemma_registry_changes_only_on_auth_or_close<W>(
    phase: PhaseView,
    event: EventView,
    table: Seq<EntryView<W>>,
    address: Address,
    secret: Seq<u8>,
    now: u64,
)
    requires
        step_effect(phase, event, table, address, secret, now).1 != table,
    ensures
        ({
            let (action, after) = step_effect(phase, event, table, address, secret, now);
            ||| (action == ActionView::Close && after == crate::registry::removed(table, address))
            ||| (action matches ActionView::Reply(ServerResponseView::AuthToken(token)) && after
                == crate::registry::with_token(table, address, token))
        }),
{
}

/// A broadcast goes to the other connections that are authenticated at
/// that time, and to no one else.
pub proof fn lemma_recipients_are_the_authenticated_others<W>(
    table: Seq<EntryView<W>>,
    origin: Address,
    secret: Seq<u8>,
    now: u64,
    peer: Address,
)
    requires
        distinct_addresses(table),
    ensures
        recipients(table, origin, secret, now).contains(peer) <==> (peer != origin
            && authenticated(table, peer, secret, now)),
{
    lemma_broadcast_reaches_each_valid_peer_once(table, origin, secret, now, peer);
}

/// A step that hands a token to the client leaves the connection
/// authenticated: the registry holds that token for it, and the token is
/// valid.
pub proof fn lemma_authentication_authenticates<W>(
    phase: PhaseView,
    event: EventView,
    table: Seq<EntryView<W>>,
    address: Address,
    secret: Seq<u8>,
    now: u64,
)
    requires
        distinct_addresses(table),
        has_address(table, address),
        step_effect(phase, event, table, address, secret, now).0 matches ActionView::Reply(
            ServerResponseView::AuthToken(token),
        ) && token_valid(token, secret, now),
    ensures
        authenticated(
            step_effect(phase, event, table, address, secret, now).1,
            address,
            secret,
            now,
        ),
{
    lemma_authentication_records_the_token(phase, event, table, address, secret, now);
}

/// A connection is not authenticated before it has a token, nor when it is
/// no longer registered.
pub proof fn lemma_without_token_not_authenticated<W>(
    table: Seq<EntryView<W>>,
    address: Address,
    secret: Seq<u8>,
    now: u64,
)
    requires
        token_of(table, address) is None || token_of(table, address) == Some(
            Seq::<char>::empty(),
        ),
    ensures
        !authenticated(table, address, secret, now),
{
}

/// A connection that is closed stays closed: whatever is reported for it,
/// the answer is to stop, and the registry is left alone.
pub proof fn lemma_closed_is_final<W>(
    event: EventView,
    table: Seq<EntryView<W>>,
    address: Address,
    secret: Seq<u8>,
    now: u64,
)
    ensures
        step_effect(PhaseView::Closed, event, table, address, secret, now) == (
            ActionView::Close,
            table,
        ),
        phase_after(PhaseView::Closed, ActionView::Close) == PhaseView::Closed,
{
}

/// A request that was understood is answered: the step that ends the work
/// on it gives the client a frame, or frames, or sends its message on to the
/// others. The one exception is a message that the store failed to persist,
/// which is dropped.
pub proof fn lemma_every_request_is_answered<W>(
    phase: PhaseView,
    event: EventView,
    table: Seq<EntryView<W>>,
    address: Address,
    secret: Seq<u8>,
    now: u64,
)
    requires
        !(phase is Closed),
        !(phase is Reading),
        !(step_effect(phase, event, table, address, secret, now).0 is Ignore),
        phase_after(phase, step_effect(phase, event, table, address, secret, now).0)
            is Reading,
    ensures
        ({
            let action = step_effect(phase, event, table, address, secret, now).0;
            ||| action is Reply
            ||| action is ReplyAll
            ||| action is Broadcast
            ||| (action is DropMessage && event matches EventView::MessageSaved(Err(_)))
        }),
{
}

} // verus!
