use chat_relay::db::User;
use chat_relay::envelope::{
    deserialize_data, deserialize_server_response, deserialize_stream, serialize_data,
    serialize_server_response, serialize_stream,
};
use chat_relay::errors::{
    connection_error, deserialize_object_error, invalid_credentials, invalid_token,
    message_history_error, message_insertion_error, message_not_found_error,
    password_verification_error, pool_creation_error, serialize_object_error,
    user_insertion_error, user_not_found_error, username_used, DBError, ServerError,
};
use chat_relay::structs::{
    auth_request, auth_token, db_error, error, image, message, message_request, read_request,
    server_error, text, AuthRequest, AuthRequestKind, ErrorResponse, MessageContent,
    MessageRequest, MessageResponse, ReadRequest, ServerResponse, StreamRequest,
};
use chat_relay::wire::DecodeError;

#[test]
fn test_serialization() {
    let data = MessageContent::Text("Hello, world!".to_string());
    let data_bytes = vec![
        2, 0, 0, 0, 13, 0, 0, 0, 0, 0, 0, 0, 72, 101, 108, 108, 111, 44, 32, 119, 111, 114, 108,
        100, 33,
    ];

    assert_eq!(serialize_data(data).unwrap(), data_bytes);

    let server_response = message(MessageResponse {
        id: 123,
        user: User {
            id: Some(123),
            username: "test".to_string(),
            password: "randomhashedpassword".to_string(),
            salt: vec![0u8, 1u8, 2u8],
        },
        content: MessageContent::Text("Hello, world!".to_string()),
    });
    let server_response_bytes = vec![
        0, 0, 0, 0, 123, 0, 0, 0, 1, 123, 0, 0, 0, 4, 0, 0, 0, 0, 0, 0, 0, 116, 101, 115, 116,
        20, 0, 0, 0, 0, 0, 0, 0, 114, 97, 110, 100, 111, 109, 104, 97, 115, 104, 101, 100, 112,
        97, 115, 115, 119, 111, 114, 100, 3, 0, 0, 0, 0, 0, 0, 0, 0, 1, 2, 2, 0, 0, 0, 13, 0, 0,
        0, 0, 0, 0, 0, 72, 101, 108, 108, 111, 44, 32, 119, 111, 114, 108, 100, 33,
    ];
    assert_eq!(
        serialize_server_response(server_response).unwrap(),
        server_response_bytes
    );

    let stream = auth_request(AuthRequest::new(
        AuthRequestKind::Register,
        "test".to_string(),
        "password".to_string(),
    ));
    let stream_bytes = vec![
        1, 0, 0, 0, 1, 0, 0, 0, 4, 0, 0, 0, 0, 0, 0, 0, 116, 101, 115, 116, 8, 0, 0, 0, 0, 0, 0,
        0, 112, 97, 115, 115, 119, 111, 114, 100,
    ];
    assert_eq!(serialize_stream(stream).unwrap(), stream_bytes);
}

fn sample_user() -> User {
    User {
        id: None,
        username: "żółw".to_string(),
        password: "hash".to_string(),
        salt: vec![255, 0, 7],
    }
}

#[test]
fn content_round_trips_through_bytes() {
    let cases = vec![
        MessageContent::Image(vec![1, 2, 3, 255]),
        MessageContent::Image(vec![]),
        MessageContent::File("notes.txt".to_string(), vec![0, 10, 13]),
        MessageContent::Text("".to_string()),
        MessageContent::Text("héllo ✓ 🎉".to_string()),
    ];
    for case in cases {
        let bytes = serialize_data(case.clone()).unwrap();
        assert_eq!(deserialize_data(bytes), Ok(case));
    }
}

#[test]
fn responses_round_trip_through_bytes() {
    let cases = vec![
        ServerResponse::Message(MessageResponse {
            id: -5,
            user: sample_user(),
            content: MessageContent::File("a".to_string(), vec![9]),
        }),
        ServerResponse::AuthToken("abc.def.ghi".to_string()),
        ServerResponse::Error(ErrorResponse::DBError(DBError::UserNotFoundError)),
        ServerResponse::Error(ErrorResponse::ServerError(ServerError::UsernameUsed)),
        error(server_error(ServerError::InvalidToken)),
    ];
    for case in cases {
        let bytes = serialize_server_response(case.clone()).unwrap();
        assert_eq!(case.clone().serialize(), bytes);
        assert_eq!(deserialize_server_response(bytes), Ok(case));
    }
}

#[test]
fn requests_round_trip_through_bytes() {
    let cases = vec![
        message_request(MessageRequest::new(
            "token".to_string(),
            MessageContent::Text("hi".to_string()),
        )),
        auth_request(AuthRequest::new(
            AuthRequestKind::Login,
            "alice".to_string(),
            "pw".to_string(),
        )),
        read_request(ReadRequest { jwt: "t".to_string(), amount: 10, offset: -1 }),
        read_request(ReadRequest { jwt: "".to_string(), amount: i32::MIN, offset: i32::MAX }),
    ];
    for case in cases {
        let bytes = serialize_stream(case.clone()).unwrap();
        assert_eq!(deserialize_stream(bytes), Ok(case));
    }
}

#[test]
fn read_request_layout_is_token_amount_offset() {
    let bytes = serialize_stream(StreamRequest::ReadRequest(ReadRequest {
        jwt: "ab".to_string(),
        amount: 258,
        offset: -2,
    }))
    .unwrap();
    assert_eq!(
        bytes,
        vec![
            2, 0, 0, 0, 2, 0, 0, 0, 0, 0, 0, 0, 97, 98, 2, 1, 0, 0, 254, 255, 255, 255
        ]
    );
}

#[test]
fn trailing_bytes_are_ignored() {
    let mut bytes = serialize_data(MessageContent::Text("x".to_string())).unwrap();
    bytes.extend_from_slice(&[1, 2, 3]);
    assert_eq!(deserialize_data(bytes), Ok(MessageContent::Text("x".to_string())));
}

#[test]
fn truncated_input_is_rejected() {
    let bytes = serialize_stream(auth_request(AuthRequest::new(
        AuthRequestKind::Register,
        "test".to_string(),
        "password".to_string(),
    )))
    .unwrap();
    for cut in 0..bytes.len() {
        assert_eq!(deserialize_stream(bytes[..cut].to_vec()), Err(DecodeError::Truncated));
    }
    assert_eq!(deserialize_data(vec![]), Err(DecodeError::Truncated));
    assert_eq!(
        deserialize_data(vec![2, 0, 0, 0, 5, 0, 0, 0, 0, 0, 0, 0, 104, 105]),
        Err(DecodeError::Truncated)
    );
}

#[test]
fn unknown_tags_are_rejected() {
    assert_eq!(deserialize_data(vec![3, 0, 0, 0, 0, 0, 0, 0, 0, 0, 0, 0]), Err(DecodeError::UnknownTag));
    assert_eq!(deserialize_stream(vec![9, 0, 0, 0]), Err(DecodeError::UnknownTag));
    assert_eq!(deserialize_stream(vec![1, 0, 0, 0, 2, 0, 0, 0]), Err(DecodeError::UnknownTag));
    assert_eq!(
        deserialize_server_response(vec![2, 0, 0, 0, 0, 0, 0, 0, 8, 0, 0, 0]),
        Err(DecodeError::UnknownTag)
    );
    assert_eq!(
        deserialize_server_response(vec![2, 0, 0, 0, 1, 0, 0, 0, 5, 0, 0, 0]),
        Err(DecodeError::UnknownTag)
    );
    // an option marker other than 0 and 1
    assert_eq!(
        deserialize_server_response(vec![0, 0, 0, 0, 1, 0, 0, 0, 2]),
        Err(DecodeError::UnknownTag)
    );
}

#[test]
fn invalid_utf8_is_rejected() {
    assert_eq!(
        deserialize_data(vec![2, 0, 0, 0, 2, 0, 0, 0, 0, 0, 0, 0, 0xff, 0xfe]),
        Err(DecodeError::InvalidText)
    );
    assert_eq!(
        deserialize_data(vec![2, 0, 0, 0, 1, 0, 0, 0, 0, 0, 0, 0, 0xc3]),
        Err(DecodeError::InvalidText)
    );
}

#[test]
fn errors_serialize_to_their_variant_index() {
    assert_eq!(DBError::PoolCreationError.serialize(), vec![0, 0, 0, 0]);
    assert_eq!(DBError::PasswordVerificationError.serialize(), vec![7, 0, 0, 0]);
    assert_eq!(ServerError::InvalidToken.serialize(), vec![0, 0, 0, 0]);
    assert_eq!(ServerError::UsernameUsed.serialize(), vec![4, 0, 0, 0]);
    assert_eq!(DBError::from_bytes(&[6, 0, 0, 0]), DBError::UserNotFoundError);
    assert_eq!(ServerError::from_bytes(&[3, 0, 0, 0]), ServerError::InvalidCredentials);
    assert_eq!(DBError::try_from_bytes(&[8, 0, 0, 0]), Err(DecodeError::UnknownTag));
    assert_eq!(ServerError::try_from_bytes(&[5, 0, 0, 0]), Err(DecodeError::UnknownTag));
    assert_eq!(ServerError::try_from_bytes(&[1, 0]), Err(DecodeError::Truncated));
    let all = [
        DBError::PoolCreationError,
        DBError::ConnectionError,
        DBError::UserInsertionError,
        DBError::MessageInsertionError,
        DBError::MessageNotFoundError,
        DBError::MessageHistoryError,
        DBError::UserNotFoundError,
        DBError::PasswordVerificationError,
    ];
    for e in all {
        assert_eq!(DBError::try_from_bytes(&e.serialize()), Ok(e));
    }
}

#[test]
fn layout_agrees_with_bincode_on_plain_values() {
    let text = MessageContent::Text("héllo".to_string());
    assert_eq!(
        serialize_data(text).unwrap(),
        bincode::serialize(&(2u32, "héllo".to_string())).unwrap()
    );
    let file = MessageContent::File("f.bin".to_string(), vec![1, 2, 3]);
    assert_eq!(
        serialize_data(file).unwrap(),
        bincode::serialize(&(1u32, "f.bin".to_string(), vec![1u8, 2, 3])).unwrap()
    );
    let read = read_request(ReadRequest { jwt: "jwt".to_string(), amount: -7, offset: 40 });
    assert_eq!(
        serialize_stream(read).unwrap(),
        bincode::serialize(&(2u32, "jwt".to_string(), -7i32, 40i32)).unwrap()
    );
    let response = message(MessageResponse {
        id: 1,
        user: sample_user(),
        content: MessageContent::Image(vec![4, 5]),
    });
    let user = sample_user();
    assert_eq!(
        serialize_server_response(response).unwrap(),
        bincode::serialize(&(
            0u32,
            1i32,
            (user.id, user.username, user.password, user.salt),
            (0u32, vec![4u8, 5])
        ))
        .unwrap()
    );
}

#[test]
fn short_constructors_build_the_variants() {
    assert_eq!(image(vec![1, 2]), MessageContent::Image(vec![1, 2]));
    assert_eq!(
        chat_relay::structs::file("a.txt".to_string(), vec![3]),
        MessageContent::File("a.txt".to_string(), vec![3])
    );
    assert_eq!(text("hi".to_string()), MessageContent::Text("hi".to_string()));
    assert_eq!(
        db_error(DBError::ConnectionError),
        ErrorResponse::DBError(DBError::ConnectionError)
    );
    assert_eq!(
        server_error(ServerError::InvalidToken),
        ErrorResponse::ServerError(ServerError::InvalidToken)
    );
    assert_eq!(auth_token("t".to_string()), ServerResponse::AuthToken("t".to_string()));
    assert_eq!(
        error(db_error(DBError::UserNotFoundError)),
        ServerResponse::Error(ErrorResponse::DBError(DBError::UserNotFoundError))
    );
    let request = MessageRequest::new("jwt".to_string(), text("x".to_string()));
    assert_eq!(request.jwt, "jwt");
    assert_eq!(request.message, MessageContent::Text("x".to_string()));
    assert_eq!(
        message_request(request.clone()),
        StreamRequest::MessageRequest(request)
    );
    let auth = AuthRequest::new(AuthRequestKind::Login, "u".to_string(), "p".to_string());
    assert_eq!(auth.kind, AuthRequestKind::Login);
    assert_eq!(auth.username, "u");
    assert_eq!(auth.password, "p");
    let read = ReadRequest { jwt: "t".to_string(), amount: 1, offset: 2 };
    assert_eq!(read_request(read.clone()), StreamRequest::ReadRequest(read));
}

#[test]
fn error_constructors_build_the_variants() {
    assert_eq!(pool_creation_error(), DBError::PoolCreationError);
    assert_eq!(connection_error(), DBError::ConnectionError);
    assert_eq!(user_insertion_error(), DBError::UserInsertionError);
    assert_eq!(message_insertion_error(), DBError::MessageInsertionError);
    assert_eq!(message_not_found_error(), DBError::MessageNotFoundError);
    assert_eq!(message_history_error(), DBError::MessageHistoryError);
    assert_eq!(user_not_found_error(), DBError::UserNotFoundError);
    assert_eq!(password_verification_error(), DBError::PasswordVerificationError);
    assert_eq!(invalid_token(), ServerError::InvalidToken);
    assert_eq!(serialize_object_error(), ServerError::SerializeObjectError);
    assert_eq!(deserialize_object_error(), ServerError::DeserializeObjectError);
    assert_eq!(invalid_credentials(), ServerError::InvalidCredentials);
    assert_eq!(username_used(), ServerError::UsernameUsed);
}
