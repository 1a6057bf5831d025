use chat_relay::db::{Message, SavedMessage, User};
use chat_relay::envelope::{
    deserialize_server_response, frame, serialize_stream, unframe, Arrival,
};
use chat_relay::errors::{DBError, ServerError};
use chat_relay::handler::{connect, step, Action, Event, Phase};
use chat_relay::registry::{Address, Registry};
use chat_relay::store::{
    check_password, get_user_id, new_message, new_user, oldest_first, with_author,
};
use chat_relay::structs::{
    auth_request, message_request, read_request, text, AuthRequest, AuthRequestKind,
    ErrorResponse, MessageContent, MessageRequest, ReadRequest, ServerResponse, StreamRequest,
};
use chat_relay::token::{verify, ONE_DAY};

const SECRET: &[u8] = b"0123456789abcdef0123456789abcdef";
const NOW: u64 = 1_700_000_000;

/// A store that keeps its rows in memory.
struct Store {
    users: Vec<User>,
    messages: Vec<Message>,
}

impl Store {
    fn new() -> Store {
        Store { users: Vec::new(), messages: Vec::new() }
    }

    fn find_user(&self, username: &str) -> Result<User, DBError> {
        self.users
            .iter()
            .find(|user| user.username == username)
            .cloned()
            .ok_or(DBError::UserNotFoundError)
    }

    fn get_user(&self, user_id: i32) -> Result<User, DBError> {
        self.users
            .iter()
            .find(|user| user.id == Some(user_id))
            .cloned()
            .ok_or(DBError::UserNotFoundError)
    }

    fn create_user(&mut self, username: String, password: String) -> Result<User, DBError> {
        if self.find_user(&username).is_ok() {
            return Err(DBError::UserInsertionError);
        }
        let row = new_user(username, &password)?;
        let user = User {
            id: Some(self.users.len() as i32 + 1),
            username: row.username,
            password: row.password,
            salt: row.salt,
        };
        self.users.push(user.clone());
        Ok(user)
    }

    fn save_message(
        &mut self,
        user_id: i32,
        content: MessageContent,
    ) -> Result<SavedMessage, DBError> {
        let row = new_message(user_id, &content);
        let message = Message {
            id: Some(self.messages.len() as i32 + 1),
            user_id: row.user_id,
            content: row.content,
        };
        self.messages.push(message.clone());
        Ok(with_author(message, self.get_user(user_id)))
    }

    fn read_history(&self, amount: i32, offset: i32) -> Result<Vec<SavedMessage>, DBError> {
        let newest_first: Vec<Message> = self
            .messages
            .iter()
            .rev()
            .skip(offset.max(0) as usize)
            .take(amount.max(0) as usize)
            .cloned()
            .collect();
        Ok(oldest_first(newest_first)
            .into_iter()
            .map(|message| {
                let author = self.get_user(message.user_id);
                with_author(message, author)
            })
            .collect())
    }
}

/// A relay with its store and what each connection has been sent so far.
struct Relay {
    registry: Registry<u16>,
    store: Store,
    frames: Vec<(Address, Vec<u8>)>,
}

fn addr(port: u16) -> Address {
    Address { ip: 1, port }
}

impl Relay {
    fn new() -> Relay {
        Relay { registry: Registry::new(), store: Store::new(), frames: Vec::new() }
    }

    fn accept(&mut self, port: u16) -> Address {
        let phase = connect(&mut self.registry, addr(port), port);
        assert!(matches!(phase, Phase::Reading));
        addr(port)
    }

    fn deliver(&mut self, to: Address, response: ServerResponse) {
        self.frames.push((to, frame(&response.serialize()).unwrap()));
    }

    /// Runs the steps that one arrival on one connection leads to.
    fn arrive(&mut self, from: Address, arrival: Arrival, now: u64) -> Phase {
        let mut phase = Phase::Reading;
        let mut event = Event::Arrived(arrival);
        loop {
            let (next, action) = step(phase, event, &mut self.registry, from, SECRET, now);
            phase = next;
            event = match action {
                Action::CheckPassword { username, password } => Event::PasswordChecked(
                    check_password(&self.store.find_user(&username), &password),
                ),
                Action::GetUserId { username } => {
                    Event::UserIdFetched(get_user_id(&self.store.find_user(&username)))
                }
                Action::CreateUser { username, password } => {
                    Event::UserCreated(self.store.create_user(username, password))
                }
                Action::SaveMessage { user_id, content } => {
                    Event::MessageSaved(self.store.save_message(user_id, content))
                }
                Action::ReadHistory { amount, offset } => {
                    Event::HistoryRead(self.store.read_history(amount, offset))
                }
                Action::Reply(response) => {
                    self.deliver(from, response);
                    return phase;
                }
                Action::ReplyAll(responses) => {
                    for response in responses {
                        self.deliver(from, response);
                    }
                    return phase;
                }
                Action::Broadcast { recipients, response } => {
                    for to in recipients {
                        self.deliver(to, response.clone());
                    }
                    return phase;
                }
                Action::SkipFrame(_) | Action::DropMessage(_) | Action::Ignore => return phase,
                Action::Close => return phase,
            };
        }
    }

    /// Sends a request as the bytes of one frame, as a client would.
    fn send(&mut self, from: Address, request: StreamRequest, now: u64) -> Phase {
        let framed = frame(&serialize_stream(request).unwrap()).unwrap();
        let payload = unframe(&framed).unwrap();
        self.arrive(from, Arrival::Payload(payload), now)
    }

    /// Takes what was sent to a connection since the last call.
    fn received(&mut self, at: Address) -> Vec<ServerResponse> {
        let mut taken = Vec::new();
        let mut kept = Vec::new();
        for (to, framed) in self.frames.drain(..) {
            if to == at {
                taken.push(deserialize_server_response(unframe(&framed).unwrap()).unwrap());
            } else {
                kept.push((to, framed));
            }
        }
        self.frames = kept;
        taken
    }

    fn authenticate(&mut self, at: Address, kind: AuthRequestKind, name: &str, now: u64) -> String {
        let request = auth_request(AuthRequest::new(kind, name.to_string(), "pw".to_string()));
        self.send(at, request, now);
        match self.received(at).as_slice() {
            [ServerResponse::AuthToken(token)] => token.clone(),
            other => panic!("unexpected: {:?}", other),
        }
    }
}

fn say(token: &str, line: &str) -> StreamRequest {
    message_request(MessageRequest::new(token.to_string(), text(line.to_string())))
}

fn history(token: &str, amount: i32, offset: i32) -> StreamRequest {
    read_request(ReadRequest { jwt: token.to_string(), amount, offset })
}

fn shown(responses: &[ServerResponse]) -> Vec<(i32, String, String)> {
    responses
        .iter()
        .map(|response| match response {
            ServerResponse::Message(m) => match &m.content {
                MessageContent::Text(line) => (m.id, m.user.username.clone(), line.clone()),
                other => panic!("unexpected: {:?}", other),
            },
            other => panic!("unexpected: {:?}", other),
        })
        .collect()
}

#[test]
fn alice_says_hi_and_only_bob_hears_it() {
    let mut relay = Relay::new();
    let alice = relay.accept(1);
    let bob = relay.accept(2);
    let carol = relay.accept(3);
    let token = relay.authenticate(alice, AuthRequestKind::Register, "alice", NOW);
    relay.authenticate(bob, AuthRequestKind::Register, "bob", NOW);

    relay.send(alice, say(&token, "hi"), NOW + 1);

    assert_eq!(shown(&relay.received(bob)), vec![(1, "alice".to_string(), "hi".to_string())]);
    assert!(relay.received(alice).is_empty());
    // carol is connected and has not authenticated
    assert!(relay.received(carol).is_empty());
}

#[test]
fn register_then_login_bind_the_same_user() {
    let mut relay = Relay::new();
    let first = relay.accept(1);
    let second = relay.accept(2);
    let registered = relay.authenticate(first, AuthRequestKind::Register, "alice", NOW);
    let logged_in = relay.authenticate(second, AuthRequestKind::Login, "alice", NOW + 60);
    let id = verify(&registered, SECRET, NOW + 60).unwrap();
    assert_eq!(verify(&logged_in, SECRET, NOW + 60), Ok(id));
    assert_eq!(relay.store.find_user("alice").unwrap().id, Some(id));
    assert_eq!(relay.registry.client(first).unwrap().token, registered);
    assert_eq!(relay.registry.client(second).unwrap().token, logged_in);
}

#[test]
fn wrong_password_unknown_user_and_taken_name_are_refused() {
    let mut relay = Relay::new();
    let alice = relay.accept(1);
    let other = relay.accept(2);
    relay.authenticate(alice, AuthRequestKind::Register, "alice", NOW);

    let wrong = auth_request(AuthRequest::new(
        AuthRequestKind::Login,
        "alice".to_string(),
        "guess".to_string(),
    ));
    relay.send(other, wrong, NOW);
    assert_eq!(
        relay.received(other),
        vec![ServerResponse::Error(ErrorResponse::ServerError(ServerError::InvalidCredentials))]
    );

    let unknown = auth_request(AuthRequest::new(
        AuthRequestKind::Login,
        "nobody".to_string(),
        "pw".to_string(),
    ));
    relay.send(other, unknown, NOW);
    assert_eq!(
        relay.received(other),
        vec![ServerResponse::Error(ErrorResponse::DBError(DBError::UserNotFoundError))]
    );

    let taken = auth_request(AuthRequest::new(
        AuthRequestKind::Register,
        "alice".to_string(),
        "pw".to_string(),
    ));
    relay.send(other, taken, NOW);
    assert_eq!(
        relay.received(other),
        vec![ServerResponse::Error(ErrorResponse::ServerError(ServerError::UsernameUsed))]
    );
    assert_eq!(relay.registry.client(other).unwrap().token, "");
}

#[test]
fn history_shows_the_most_recent_messages_oldest_first() {
    let mut relay = Relay::new();
    let alice = relay.accept(1);
    let token = relay.authenticate(alice, AuthRequestKind::Register, "alice", NOW);
    for k in 1..=5 {
        relay.send(alice, say(&token, &format!("m{}", k)), NOW);
    }
    assert!(relay.received(alice).is_empty());

    relay.send(alice, history(&token, 3, 0), NOW);
    assert_eq!(
        shown(&relay.received(alice)),
        vec![
            (3, "alice".to_string(), "m3".to_string()),
            (4, "alice".to_string(), "m4".to_string()),
            (5, "alice".to_string(), "m5".to_string()),
        ]
    );

    relay.send(alice, history(&token, 5, 0), NOW);
    let ids: Vec<i32> = shown(&relay.received(alice)).iter().map(|m| m.0).collect();
    assert_eq!(ids, vec![1, 2, 3, 4, 5]);

    relay.send(alice, history(&token, 2, 1), NOW);
    let ids: Vec<i32> = shown(&relay.received(alice)).iter().map(|m| m.0).collect();
    assert_eq!(ids, vec![3, 4]);

    relay.send(alice, history(&token, 10, 3), NOW);
    let ids: Vec<i32> = shown(&relay.received(alice)).iter().map(|m| m.0).collect();
    assert_eq!(ids, vec![1, 2]);

    relay.send(alice, history(&token, 0, 0), NOW);
    assert!(relay.received(alice).is_empty());
}

#[test]
fn message_with_a_bad_token_is_refused_and_never_shows_up() {
    let mut relay = Relay::new();
    let alice = relay.accept(1);
    let bob = relay.accept(2);
    let token = relay.authenticate(alice, AuthRequestKind::Register, "alice", NOW);
    let bob_token = relay.authenticate(bob, AuthRequestKind::Register, "bob", NOW + ONE_DAY - 1);
    let refused = vec![ServerResponse::Error(ErrorResponse::ServerError(
        ServerError::InvalidToken,
    ))];

    // alice's token has expired, bob's has not
    let later = NOW + ONE_DAY;
    relay.send(alice, say(&token, "too late"), later);
    assert_eq!(relay.received(alice), refused);
    assert!(relay.received(bob).is_empty());

    relay.send(alice, say("forged", "no token"), later);
    assert_eq!(relay.received(alice), refused);
    relay.send(alice, say("", "empty token"), later);
    assert_eq!(relay.received(alice), refused);
    assert!(relay.store.messages.is_empty());

    // history is not read for a bad token either
    relay.send(alice, history(&token, 10, 0), later);
    assert_eq!(relay.received(alice), refused);

    relay.send(bob, say(&bob_token, "still here"), later);
    relay.send(bob, history(&bob_token, 10, 0), later);
    assert_eq!(
        shown(&relay.received(bob)),
        vec![(1, "bob".to_string(), "still here".to_string())]
    );
    // alice's token is expired: she is passed over in silence
    assert!(relay.received(alice).is_empty());
}

#[test]
fn a_peer_that_went_away_is_forgotten() {
    let mut relay = Relay::new();
    let alice = relay.accept(1);
    let bob = relay.accept(2);
    let carol = relay.accept(3);
    let token = relay.authenticate(alice, AuthRequestKind::Register, "alice", NOW);
    relay.authenticate(bob, AuthRequestKind::Register, "bob", NOW);
    relay.authenticate(carol, AuthRequestKind::Register, "carol", NOW);

    let phase = relay.arrive(bob, Arrival::NoHeader, NOW);
    assert!(matches!(phase, Phase::Closed));
    assert!(!relay.registry.contains(bob));

    relay.send(alice, say(&token, "anyone?"), NOW);
    assert!(relay.received(bob).is_empty());
    assert_eq!(
        shown(&relay.received(carol)),
        vec![(1, "alice".to_string(), "anyone?".to_string())]
    );
    assert!(relay.received(alice).is_empty());
    assert_eq!(relay.registry.addresses(), vec![alice, carol]);
}

#[test]
fn a_malformed_frame_does_not_end_the_conversation() {
    let mut relay = Relay::new();
    let alice = relay.accept(1);
    let bob = relay.accept(2);
    let token = relay.authenticate(alice, AuthRequestKind::Register, "alice", NOW);
    relay.authenticate(bob, AuthRequestKind::Register, "bob", NOW);

    let phase = relay.arrive(alice, Arrival::Payload(vec![0xde, 0xad]), NOW);
    assert!(matches!(phase, Phase::Reading));
    assert!(relay.received(alice).is_empty());
    assert!(relay.registry.contains(alice));

    relay.send(alice, say(&token, "still talking"), NOW);
    assert_eq!(
        shown(&relay.received(bob)),
        vec![(1, "alice".to_string(), "still talking".to_string())]
    );
}

#[test]
fn logging_in_again_replaces_the_token() {
    let mut relay = Relay::new();
    let alice = relay.accept(1);
    let first = relay.authenticate(alice, AuthRequestKind::Register, "alice", NOW);
    let second = relay.authenticate(alice, AuthRequestKind::Login, "alice", NOW + 10);
    assert_ne!(first, second);
    assert_eq!(relay.registry.client(alice).unwrap().token, second);
    assert_eq!(relay.registry.len(), 1);
}
