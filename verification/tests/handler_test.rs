use chat_relay::db::{Message, SavedMessage, User};
use chat_relay::envelope::{
    frame, frame_length, handle_stream, serialize_data, serialize_stream, unframe, Arrival,
};
use chat_relay::errors::{
    invalid_input_error, unspecified_error, ClientError, DBError, IoError, IoErrorKind,
    ServerError, StreamError,
};
use chat_relay::handler::{
    connect, handle_auth_request, handle_history, handle_login, handle_login_user,
    handle_message_request, handle_read_request, handle_register, handle_request,
    handle_saved_message, response_for, step, Action, Event, Phase,
};
use chat_relay::registry::{Address, Registry};
use chat_relay::structs::{
    auth_request, message_request, read_request, text, AuthRequest, AuthRequestKind,
    ErrorResponse, MessageContent, MessageRequest, MessageResponse, ReadRequest, ServerResponse,
    StreamRequest,
};
use chat_relay::token::{issue, verify, Claims, ONE_DAY};

const SECRET: &[u8] = b"0123456789abcdef0123456789abcdef";
const NOW: u64 = 1_700_000_000;

fn addr(port: u16) -> Address {
    Address { ip: 0x0000_0000_0000_0000_0000_ffff_7f00_0001, port }
}

fn user(id: i32, name: &str) -> User {
    User {
        id: Some(id),
        username: name.to_string(),
        password: "hashed".to_string(),
        salt: vec![1, 2, 3],
    }
}

fn stored(id: i32, user_id: i32, content: MessageContent) -> Message {
    Message { id: Some(id), user_id, content: serialize_data(content).unwrap() }
}

fn payload(request: StreamRequest) -> Event {
    Event::Arrived(Arrival::Payload(serialize_stream(request).unwrap()))
}

fn error_reply(e: ErrorResponse) -> ServerResponse {
    ServerResponse::Error(e)
}

#[test]
fn frames_carry_a_big_endian_length() {
    assert_eq!(frame(&[]), Some(vec![0, 0, 0, 0]));
    assert_eq!(frame(&[7, 8, 9]), Some(vec![0, 0, 0, 3, 7, 8, 9]));
    let long = vec![1u8; 258];
    let framed = frame(&long).unwrap();
    assert_eq!(&framed[..4], &[0, 0, 1, 2]);
    assert_eq!(&framed[4..], &long[..]);
    assert_eq!(frame_length(&[0, 0, 1, 2]), 258);
    assert_eq!(frame_length(&[1, 2, 3, 4]), 0x0102_0304);
    assert_eq!(frame_length(&[255, 255, 255, 255]), u32::MAX);
    assert_eq!(frame_length(&258u32.to_be_bytes()), 258);
}

#[test]
fn unframe_undoes_frame() {
    for payload in [vec![], vec![7u8], vec![1u8, 2, 3], vec![9u8; 300]] {
        let framed = frame(&payload).unwrap();
        assert_eq!(unframe(&framed), Some(payload.clone()));
        let mut more = framed.clone();
        more.extend_from_slice(&[5, 5, 5]);
        assert_eq!(unframe(&more), Some(payload.clone()));
        for cut in 0..framed.len() {
            assert_eq!(unframe(&framed[..cut]), None);
        }
    }
    assert_eq!(unframe(&[0, 0, 0, 2, 1]), None);
    assert_eq!(unframe(&[255, 255, 255, 255, 1, 2, 3]), None);
    assert_eq!(unframe(&[0, 0, 0, 0]), Some(vec![]));
}

#[test]
fn io_errors_are_built_with_their_kind() {
    let e = invalid_input_error("bad path");
    assert_eq!(e.kind, IoErrorKind::InvalidInput);
    assert_eq!(e.message, "bad path");
    assert_eq!(e, IoError::new(IoErrorKind::InvalidInput, "bad path"));
    let e = unspecified_error().unwrap_err();
    assert_eq!(e.kind, IoErrorKind::Other);
    assert_eq!(e.message, "");
}

#[test]
fn error_texts() {
    assert_eq!(StreamError::StreamClosed.message(), "Stream has been closed");
    assert_eq!(
        StreamError::ReadMessageError(invalid_input_error("x")).message(),
        "Failed to read message"
    );
    assert_eq!(
        StreamError::FileCreationError(invalid_input_error("x")).message(),
        "Failed to create file"
    );
    assert_eq!(
        StreamError::FileWriteError(invalid_input_error("x")).message(),
        "Failed to write to file"
    );
    assert!(StreamError::StreamClosed.closes_connection());
    assert!(!StreamError::ReadMessageError(invalid_input_error("x")).closes_connection());
    assert_eq!(DBError::UserNotFoundError.message(), "User not found");
    assert_eq!(
        DBError::MessageHistoryError.message(),
        "Failed to load messages, the database may not contain so many"
    );
    assert_eq!(ServerError::InvalidToken.message(), "Invalid token");
    assert_eq!(ServerError::UsernameUsed.message(), "Username is used");
    assert_eq!(ServerError::InvalidCredentials.message(), "Invalid credentials");
}

#[test]
fn handle_stream_classifies_arrivals() {
    assert_eq!(handle_stream(Arrival::NoHeader), Err(StreamError::StreamClosed));
    let cause = IoError::new(IoErrorKind::Other, "slow");
    assert_eq!(
        handle_stream(Arrival::NoPayload(cause.clone())),
        Err(StreamError::ReadMessageError(cause))
    );
    for kind in [
        IoErrorKind::UnexpectedEof,
        IoErrorKind::ConnectionReset,
        IoErrorKind::ConnectionAborted,
        IoErrorKind::BrokenPipe,
    ] {
        assert!(kind.tells_peer_gone());
        assert_eq!(
            handle_stream(Arrival::NoPayload(IoError::new(kind, "short"))),
            Err(StreamError::StreamClosed)
        );
    }
    for kind in [IoErrorKind::InvalidInput, IoErrorKind::InvalidData, IoErrorKind::Other] {
        let cause = IoError::new(kind, "x");
        assert!(!kind.tells_peer_gone());
        assert_eq!(
            handle_stream(Arrival::NoPayload(cause.clone())),
            Err(StreamError::ReadMessageError(cause))
        );
    }
    assert_eq!(
        handle_stream(Arrival::Payload(vec![9, 9, 9, 9])),
        Err(StreamError::ReadMessageError(IoError::new(
            IoErrorKind::InvalidData,
            "Failed to deserialize"
        )))
    );
    let request = read_request(ReadRequest { jwt: "t".to_string(), amount: 3, offset: 0 });
    let bytes = serialize_stream(request.clone()).unwrap();
    assert_eq!(handle_stream(Arrival::Payload(bytes)).unwrap(), request);
}

#[test]
fn message_with_valid_token_is_saved_under_its_user() {
    let token = issue(42, SECRET, NOW).unwrap();
    let request = MessageRequest::new(token, text("hi".to_string()));
    match handle_message_request(request, SECRET, NOW + 5) {
        Action::SaveMessage { user_id, content } => {
            assert_eq!(user_id, 42);
            assert_eq!(content, MessageContent::Text("hi".to_string()));
        }
        other => panic!("unexpected: {:?}", other),
    }
}

#[test]
fn message_with_invalid_token_is_refused() {
    let expired = issue(42, SECRET, NOW).unwrap();
    let forged = issue(42, b"forger", NOW).unwrap();
    for (token, at) in [(expired, NOW + ONE_DAY), (forged, NOW), ("".to_string(), NOW)] {
        let request = MessageRequest::new(token, text("hi".to_string()));
        match handle_message_request(request, SECRET, at) {
            Action::Reply(response) => assert_eq!(
                response,
                error_reply(ErrorResponse::ServerError(ServerError::InvalidToken))
            ),
            other => panic!("unexpected: {:?}", other),
        }
    }
}

#[test]
fn history_is_read_only_with_a_valid_token() {
    let token = issue(1, SECRET, NOW).unwrap();
    let request = ReadRequest { jwt: token.clone(), amount: 5, offset: 2 };
    assert!(matches!(
        handle_read_request(request, SECRET, NOW),
        Action::ReadHistory { amount: 5, offset: 2 }
    ));
    let request = ReadRequest { jwt: token, amount: 5, offset: 2 };
    match handle_read_request(request, SECRET, NOW + ONE_DAY) {
        Action::Reply(response) => assert_eq!(
            response,
            error_reply(ErrorResponse::ServerError(ServerError::InvalidToken))
        ),
        other => panic!("unexpected: {:?}", other),
    }
}

#[test]
fn auth_requests_become_questions_to_the_store() {
    let login = AuthRequest::new(AuthRequestKind::Login, "alice".to_string(), "pw".to_string());
    match handle_auth_request(login) {
        Action::CheckPassword { username, password } => {
            assert_eq!(username, "alice");
            assert_eq!(password, "pw");
        }
        other => panic!("unexpected: {:?}", other),
    }
    let register =
        AuthRequest::new(AuthRequestKind::Register, "bob".to_string(), "pw2".to_string());
    match handle_request(auth_request(register), SECRET, NOW) {
        Action::CreateUser { username, password } => {
            assert_eq!(username, "bob");
            assert_eq!(password, "pw2");
        }
        other => panic!("unexpected: {:?}", other),
    }
}

#[test]
fn login_depends_on_the_password_check() {
    match handle_login(Ok(true), "alice".to_string()) {
        Action::GetUserId { username } => assert_eq!(username, "alice"),
        other => panic!("unexpected: {:?}", other),
    }
    match handle_login(Ok(false), "alice".to_string()) {
        Action::Reply(r) => assert_eq!(
            r,
            error_reply(ErrorResponse::ServerError(ServerError::InvalidCredentials))
        ),
        other => panic!("unexpected: {:?}", other),
    }
    match handle_login(Err(DBError::UserNotFoundError), "alice".to_string()) {
        Action::Reply(r) => {
            assert_eq!(r, error_reply(ErrorResponse::DBError(DBError::UserNotFoundError)))
        }
        other => panic!("unexpected: {:?}", other),
    }
}

#[test]
fn login_ends_with_a_token_for_the_user() {
    let (token, response) = handle_login_user(Ok(7), SECRET, NOW);
    let token = token.unwrap();
    assert_eq!(response, ServerResponse::AuthToken(token.clone()));
    assert_eq!(
        Claims::from_token_at(&token, SECRET, NOW),
        Ok(Claims { sub: 7, exp: NOW + ONE_DAY })
    );
    let (token, response) = handle_login_user(Err(DBError::ConnectionError), SECRET, NOW);
    assert_eq!(token, None);
    assert_eq!(response, error_reply(ErrorResponse::DBError(DBError::ConnectionError)));
    let (token, response) = handle_login_user(Ok(7), SECRET, u64::MAX);
    assert_eq!(token, None);
    assert_eq!(
        response,
        error_reply(ErrorResponse::ServerError(ServerError::SerializeObjectError))
    );
}

#[test]
fn registration_ends_with_a_token_or_username_used() {
    let (token, response) = handle_register(Ok(user(3, "carol")), SECRET, NOW);
    let token = token.unwrap();
    assert_eq!(response, ServerResponse::AuthToken(token.clone()));
    assert_eq!(verify(&token, SECRET, NOW), Ok(3));
    let used = error_reply(ErrorResponse::ServerError(ServerError::UsernameUsed));
    let (token, response) = handle_register(Err(DBError::UserInsertionError), SECRET, NOW);
    assert_eq!(token, None);
    assert_eq!(response, used);
    let mut nameless = user(3, "carol");
    nameless.id = None;
    let (token, response) = handle_register(Ok(nameless), SECRET, NOW);
    assert_eq!(token, None);
    assert_eq!(response, used);
}

#[test]
fn register_then_login_give_tokens_of_the_same_user() {
    let (registered, _) = handle_register(Ok(user(11, "dave")), SECRET, NOW);
    let (logged_in, _) = handle_login_user(Ok(11), SECRET, NOW + 500);
    let a = Claims::from_token_at(&registered.unwrap(), SECRET, NOW + 500).unwrap();
    let b = Claims::from_token_at(&logged_in.unwrap(), SECRET, NOW + 500).unwrap();
    assert_eq!(a.sub, 11);
    assert_eq!(a.sub, b.sub);
}

#[test]
fn stored_message_resolves_to_its_view() {
    let message = stored(5, 2, MessageContent::Text("hi".to_string()));
    assert_eq!(
        MessageResponse::from_db_message(&message, Ok(user(2, "bob"))),
        Ok(MessageResponse {
            id: 5,
            user: user(2, "bob"),
            content: MessageContent::Text("hi".to_string())
        })
    );
    assert_eq!(
        MessageResponse::from_db_message(&message, Err(DBError::UserNotFoundError)),
        Err(ErrorResponse::DBError(DBError::UserNotFoundError))
    );
    let broken = Message { id: Some(5), user_id: 2, content: vec![9, 9] };
    assert_eq!(
        MessageResponse::from_db_message(&broken, Ok(user(2, "bob"))),
        Err(ErrorResponse::ServerError(ServerError::DeserializeObjectError))
    );
    // the author's lookup is looked at before the content
    assert_eq!(
        MessageResponse::from_db_message(&broken, Err(DBError::ConnectionError)),
        Err(ErrorResponse::DBError(DBError::ConnectionError))
    );
    let mut unsaved = stored(5, 2, MessageContent::Text("hi".to_string()));
    unsaved.id = None;
    assert_eq!(
        MessageResponse::from_db_message(&unsaved, Ok(user(2, "bob"))),
        Err(ErrorResponse::DBError(DBError::MessageNotFoundError))
    );
}

#[test]
fn history_is_answered_message_by_message_in_order() {
    let history = vec![
        SavedMessage {
            message: stored(1, 2, MessageContent::Text("one".to_string())),
            author: Ok(user(2, "bob")),
        },
        SavedMessage {
            message: stored(2, 9, MessageContent::Text("two".to_string())),
            author: Err(DBError::UserNotFoundError),
        },
        SavedMessage {
            message: stored(3, 2, MessageContent::Image(vec![1, 2])),
            author: Ok(user(2, "bob")),
        },
    ];
    match handle_history(Ok(history)) {
        Action::ReplyAll(responses) => {
            assert_eq!(
                responses,
                vec![
                    ServerResponse::Message(MessageResponse {
                        id: 1,
                        user: user(2, "bob"),
                        content: MessageContent::Text("one".to_string())
                    }),
                    error_reply(ErrorResponse::DBError(DBError::UserNotFoundError)),
                    ServerResponse::Message(MessageResponse {
                        id: 3,
                        user: user(2, "bob"),
                        content: MessageContent::Image(vec![1, 2])
                    }),
                ]
            );
        }
        other => panic!("unexpected: {:?}", other),
    }
    match handle_history(Ok(vec![])) {
        Action::ReplyAll(responses) => assert!(responses.is_empty()),
        other => panic!("unexpected: {:?}", other),
    }
    match handle_history(Err(DBError::MessageHistoryError)) {
        Action::Reply(r) => {
            assert_eq!(r, error_reply(ErrorResponse::DBError(DBError::MessageHistoryError)))
        }
        other => panic!("unexpected: {:?}", other),
    }
}

#[test]
fn history_of_n_messages_gives_n_frames_with_increasing_ids() {
    let n = 20;
    let history: Vec<SavedMessage> = (1..=n)
        .map(|i| SavedMessage {
            message: stored(100 + i, 1, MessageContent::Text(format!("m{}", i))),
            author: Ok(user(1, "alice")),
        })
        .collect();
    match handle_history(Ok(history)) {
        Action::ReplyAll(responses) => {
            assert_eq!(responses.len(), n as usize);
            for (k, response) in responses.iter().enumerate() {
                match response {
                    ServerResponse::Message(m) => {
                        assert_eq!(m.id, 101 + k as i32);
                        assert_eq!(m.content, MessageContent::Text(format!("m{}", k + 1)));
                    }
                    other => panic!("unexpected: {:?}", other),
                }
            }
        }
        other => panic!("unexpected: {:?}", other),
    }
}

#[test]
fn response_for_one_message() {
    let saved = SavedMessage {
        message: stored(1, 2, MessageContent::File("a.txt".to_string(), vec![1])),
        author: Ok(user(2, "bob")),
    };
    assert_eq!(
        response_for(saved),
        ServerResponse::Message(MessageResponse {
            id: 1,
            user: user(2, "bob"),
            content: MessageContent::File("a.txt".to_string(), vec![1])
        })
    );
}

#[test]
fn failed_save_is_dropped_and_unresolved_message_is_reported() {
    let mut registry: Registry<u32> = Registry::new();
    registry.insert(addr(1), 1);
    assert!(matches!(
        handle_saved_message(Err(DBError::MessageInsertionError), &registry, addr(1), SECRET, NOW),
        Action::DropMessage(DBError::MessageInsertionError)
    ));
    let saved = SavedMessage {
        message: stored(1, 2, MessageContent::Text("x".to_string())),
        author: Err(DBError::UserNotFoundError),
    };
    match handle_saved_message(Ok(saved), &registry, addr(1), SECRET, NOW) {
        Action::Reply(r) => {
            assert_eq!(r, error_reply(ErrorResponse::DBError(DBError::UserNotFoundError)))
        }
        other => panic!("unexpected: {:?}", other),
    }
}

/// Drives one connection through a registration and returns its token.
fn register(registry: &mut Registry<u32>, address: Address, id: i32, name: &str) -> String {
    let request = auth_request(AuthRequest::new(
        AuthRequestKind::Register,
        name.to_string(),
        "pw".to_string(),
    ));
    let (phase, action) = step(Phase::Reading, payload(request), registry, address, SECRET, NOW);
    assert!(matches!(phase, Phase::CreatingUser));
    match action {
        Action::CreateUser { username, password } => {
            assert_eq!(username, name);
            assert_eq!(password, "pw");
        }
        other => panic!("unexpected: {:?}", other),
    }
    let created = Event::UserCreated(Ok(user(id, name)));
    let (phase, action) = step(phase, created, registry, address, SECRET, NOW);
    assert!(matches!(phase, Phase::Reading));
    match action {
        Action::Reply(ServerResponse::AuthToken(token)) => token,
        other => panic!("unexpected: {:?}", other),
    }
}

#[test]
fn scenario_alice_registers_and_bob_receives_her_message() {
    let mut registry: Registry<u32> = Registry::new();
    let alice = addr(1000);
    let bob = addr(2000);
    assert!(matches!(connect(&mut registry, alice, 1), Phase::Reading));
    assert!(matches!(connect(&mut registry, bob, 2), Phase::Reading));

    let bob_token = register(&mut registry, bob, 2, "bob");
    let token = register(&mut registry, alice, 1, "alice");
    assert_eq!(registry.client(alice).unwrap().token, token);
    assert_eq!(registry.client(bob).unwrap().token, bob_token);
    assert_eq!(verify(&token, SECRET, NOW), Ok(1));

    let request = message_request(MessageRequest::new(token, text("hi".to_string())));
    let (phase, action) =
        step(Phase::Reading, payload(request), &mut registry, alice, SECRET, NOW);
    assert!(matches!(phase, Phase::SavingMessage));
    let (user_id, content) = match action {
        Action::SaveMessage { user_id, content } => (user_id, content),
        other => panic!("unexpected: {:?}", other),
    };
    assert_eq!(user_id, 1);
    assert_eq!(content, MessageContent::Text("hi".to_string()));

    let saved = SavedMessage {
        message: stored(1, user_id, content),
        author: Ok(user(1, "alice")),
    };
    let (phase, action) =
        step(phase, Event::MessageSaved(Ok(saved)), &mut registry, alice, SECRET, NOW);
    assert!(matches!(phase, Phase::Reading));
    match action {
        Action::Broadcast { recipients, response } => {
            assert_eq!(recipients, vec![bob]);
            match response {
                ServerResponse::Message(view) => {
                    assert_eq!(view.content, MessageContent::Text("hi".to_string()));
                    assert_eq!(view.user.username, "alice");
                    assert_eq!(view.id, 1);
                }
                other => panic!("unexpected: {:?}", other),
            }
        }
        other => panic!("unexpected: {:?}", other),
    }
}

#[test]
fn scenario_disconnected_peer_leaves_the_registry() {
    let mut registry: Registry<u32> = Registry::new();
    let alice = addr(1000);
    let bob = addr(2000);
    let carol = addr(3000);
    connect(&mut registry, alice, 1);
    connect(&mut registry, bob, 2);
    connect(&mut registry, carol, 3);
    let token = register(&mut registry, alice, 1, "alice");
    register(&mut registry, bob, 2, "bob");
    register(&mut registry, carol, 3, "carol");

    let (phase, action) =
        step(Phase::Reading, Event::Arrived(Arrival::NoHeader), &mut registry, bob, SECRET, NOW);
    assert!(matches!(phase, Phase::Closed));
    assert!(matches!(action, Action::Close));
    assert!(!registry.contains(bob));
    assert_eq!(registry.addresses(), vec![alice, carol]);

    let request = message_request(MessageRequest::new(token, text("hi".to_string())));
    let (phase, _) = step(Phase::Reading, payload(request), &mut registry, alice, SECRET, NOW);
    let saved = SavedMessage {
        message: stored(1, 1, MessageContent::Text("hi".to_string())),
        author: Ok(user(1, "alice")),
    };
    let (_, action) =
        step(phase, Event::MessageSaved(Ok(saved)), &mut registry, alice, SECRET, NOW);
    match action {
        Action::Broadcast { recipients, .. } => assert_eq!(recipients, vec![carol]),
        other => panic!("unexpected: {:?}", other),
    }
    assert!(!registry.contains(bob));

    // a closed connection stays closed
    let (phase, action) = step(
        Phase::Closed,
        Event::PasswordChecked(Ok(true)),
        &mut registry,
        bob,
        SECRET,
        NOW,
    );
    assert!(matches!(phase, Phase::Closed));
    assert!(matches!(action, Action::Close));
}

#[test]
fn login_runs_through_two_questions_to_the_store() {
    let mut registry: Registry<u32> = Registry::new();
    let alice = addr(1000);
    connect(&mut registry, alice, 1);
    let request = auth_request(AuthRequest::new(
        AuthRequestKind::Login,
        "alice".to_string(),
        "pw".to_string(),
    ));
    let (phase, action) =
        step(Phase::Reading, payload(request), &mut registry, alice, SECRET, NOW);
    assert!(matches!(action, Action::CheckPassword { .. }));
    match &phase {
        Phase::CheckingPassword { username } => assert_eq!(username, "alice"),
        other => panic!("unexpected: {:?}", other),
    }
    let (phase, action) =
        step(phase, Event::PasswordChecked(Ok(true)), &mut registry, alice, SECRET, NOW);
    assert!(matches!(phase, Phase::FetchingUserId));
    match action {
        Action::GetUserId { username } => assert_eq!(username, "alice"),
        other => panic!("unexpected: {:?}", other),
    }
    let (phase, action) =
        step(phase, Event::UserIdFetched(Ok(1)), &mut registry, alice, SECRET, NOW);
    assert!(matches!(phase, Phase::Reading));
    match action {
        Action::Reply(ServerResponse::AuthToken(token)) => {
            assert_eq!(verify(&token, SECRET, NOW), Ok(1));
            assert_eq!(registry.client(alice).unwrap().token, token);
        }
        other => panic!("unexpected: {:?}", other),
    }
}

#[test]
fn wrong_password_leaves_the_connection_unauthenticated() {
    let mut registry: Registry<u32> = Registry::new();
    let alice = addr(1000);
    connect(&mut registry, alice, 1);
    let phase = Phase::CheckingPassword { username: "alice".to_string() };
    let (phase, action) =
        step(phase, Event::PasswordChecked(Ok(false)), &mut registry, alice, SECRET, NOW);
    assert!(matches!(phase, Phase::Reading));
    match action {
        Action::Reply(r) => assert_eq!(
            r,
            error_reply(ErrorResponse::ServerError(ServerError::InvalidCredentials))
        ),
        other => panic!("unexpected: {:?}", other),
    }
    assert_eq!(registry.client(alice).unwrap().token, "");
}

#[test]
fn malformed_frames_are_skipped_and_the_connection_reads_on() {
    let mut registry: Registry<u32> = Registry::new();
    let alice = addr(1000);
    connect(&mut registry, alice, 1);
    let (phase, action) = step(
        Phase::Reading,
        Event::Arrived(Arrival::Payload(vec![1, 2, 3])),
        &mut registry,
        alice,
        SECRET,
        NOW,
    );
    assert!(matches!(phase, Phase::Reading));
    match action {
        Action::SkipFrame(e) => assert_eq!(
            e,
            StreamError::ReadMessageError(IoError::new(
                IoErrorKind::InvalidData,
                "Failed to deserialize"
            ))
        ),
        other => panic!("unexpected: {:?}", other),
    }
    let cause = IoError::new(IoErrorKind::Other, "slow");
    let (phase, action) = step(
        Phase::Reading,
        Event::Arrived(Arrival::NoPayload(cause.clone())),
        &mut registry,
        alice,
        SECRET,
        NOW,
    );
    assert!(matches!(phase, Phase::Reading));
    match action {
        Action::SkipFrame(e) => assert_eq!(e, StreamError::ReadMessageError(cause)),
        other => panic!("unexpected: {:?}", other),
    }
    assert!(registry.contains(alice));
}

#[test]
fn connection_that_ends_inside_a_frame_is_closed() {
    let mut registry: Registry<u32> = Registry::new();
    let alice = addr(1000);
    let bob = addr(2000);
    connect(&mut registry, alice, 1);
    connect(&mut registry, bob, 2);
    let cause = IoError::new(IoErrorKind::UnexpectedEof, "early eof");
    let (phase, action) = step(
        Phase::Reading,
        Event::Arrived(Arrival::NoPayload(cause)),
        &mut registry,
        alice,
        SECRET,
        NOW,
    );
    assert!(matches!(phase, Phase::Closed));
    assert!(matches!(action, Action::Close));
    assert!(!registry.contains(alice));
    assert!(registry.contains(bob));
}

#[test]
fn client_error_names_the_command_twice() {
    assert_eq!(
        ClientError::PathError(".image".to_string()).message(),
        "\nNo path provided in command .image\n    Usage: .image <path>"
    );
    assert_eq!(
        ClientError::PathError("".to_string()).message(),
        "\nNo path provided in command \n    Usage:  <path>"
    );
}

#[test]
fn events_that_do_not_belong_to_the_phase_are_ignored() {
    let mut registry: Registry<u32> = Registry::new();
    let alice = addr(1000);
    connect(&mut registry, alice, 1);
    let (phase, action) =
        step(Phase::Reading, Event::UserIdFetched(Ok(1)), &mut registry, alice, SECRET, NOW);
    assert!(matches!(phase, Phase::Reading));
    assert!(matches!(action, Action::Ignore));
    assert_eq!(registry.client(alice).unwrap().token, "");
    let (phase, action) = step(
        Phase::SavingMessage,
        Event::Arrived(Arrival::NoHeader),
        &mut registry,
        alice,
        SECRET,
        NOW,
    );
    assert!(matches!(phase, Phase::SavingMessage));
    assert!(matches!(action, Action::Ignore));
    assert!(registry.contains(alice));
}

#[test]
fn refused_message_is_neither_saved_nor_broadcast() {
    let mut registry: Registry<u32> = Registry::new();
    let alice = addr(1000);
    let bob = addr(2000);
    connect(&mut registry, alice, 1);
    connect(&mut registry, bob, 2);
    register(&mut registry, bob, 2, "bob");
    let expired = Claims::new(1, NOW).get_token(SECRET).unwrap();
    let request = message_request(MessageRequest::new(expired, text("hi".to_string())));
    let (phase, action) =
        step(Phase::Reading, payload(request), &mut registry, alice, SECRET, NOW);
    assert!(matches!(phase, Phase::Reading));
    match action {
        Action::Reply(r) => {
            assert_eq!(r, error_reply(ErrorResponse::ServerError(ServerError::InvalidToken)))
        }
        other => panic!("unexpected: {:?}", other),
    }
}
