use chat_relay::db::{Message, ToBeInsertedMessage, ToBeInsertedUser, User};
use chat_relay::envelope::deserialize_data;
use chat_relay::errors::DBError;
use chat_relay::store::{
    check_password, get_user_id, new_message, new_user, new_user_with_salt, oldest_first,
    with_author, SALT_LENGTH,
};
use chat_relay::structs::MessageContent;

fn stored(id: Option<i32>, row: &ToBeInsertedUser) -> Result<User, DBError> {
    Ok(User {
        id,
        username: row.username.clone(),
        password: row.password.clone(),
        salt: row.salt.clone(),
    })
}

#[test]
fn rows_to_insert_keep_their_fields() {
    let user = ToBeInsertedUser::new("alice".to_string(), "hash".to_string(), vec![1, 2]);
    assert_eq!(user.username, "alice");
    assert_eq!(user.password, "hash");
    assert_eq!(user.salt, vec![1, 2]);
    let message = ToBeInsertedMessage::new(7, vec![3, 4]);
    assert_eq!(message.user_id, 7);
    assert_eq!(message.content, vec![3, 4]);
}

#[test]
fn new_user_is_kept_with_hash_and_salt() {
    let salt: Vec<u8> = (1..=16).collect();
    let row = new_user_with_salt("alice".to_string(), "pw", salt.clone()).unwrap();
    assert_eq!(row.username, "alice");
    assert_eq!(row.salt, salt);
    assert_ne!(row.password, "pw");
    assert!(row.password.starts_with("$2y$12$"));
    assert_eq!(row.password.len(), 60);
    // the same password and salt give the same hash, another salt another
    let again = new_user_with_salt("bob".to_string(), "pw", salt).unwrap();
    assert_eq!(again.password, row.password);
    let other = new_user_with_salt("bob".to_string(), "pw", vec![9; 16]).unwrap();
    assert_ne!(other.password, row.password);
}

#[test]
fn salt_must_have_16_bytes() {
    assert_eq!(SALT_LENGTH, 16);
    assert_eq!(
        new_user_with_salt("alice".to_string(), "pw", vec![1; 15]),
        Err(DBError::UserInsertionError)
    );
    assert_eq!(
        new_user_with_salt("alice".to_string(), "pw", vec![1; 17]),
        Err(DBError::UserInsertionError)
    );
    assert_eq!(
        new_user_with_salt("alice".to_string(), "pw", vec![]),
        Err(DBError::UserInsertionError)
    );
}

#[test]
fn new_user_draws_a_fresh_salt() {
    let a = new_user("alice".to_string(), "pw").unwrap();
    let b = new_user("alice".to_string(), "pw").unwrap();
    assert_eq!(a.salt.len(), 16);
    assert_eq!(b.salt.len(), 16);
    assert_ne!(a.salt, b.salt);
    assert_ne!(a.password, b.password);
}

#[test]
fn registered_password_passes_the_check_and_others_do_not() {
    let row = new_user("alice".to_string(), "pw").unwrap();
    let found = stored(Some(1), &row);
    assert_eq!(check_password(&found, "pw"), Ok(true));
    assert_eq!(check_password(&found, "pw2"), Ok(false));
    assert_eq!(check_password(&found, ""), Ok(false));
}

#[test]
fn check_hands_on_the_store_failure() {
    assert_eq!(
        check_password(&Err(DBError::UserNotFoundError), "pw"),
        Err(DBError::UserNotFoundError)
    );
    assert_eq!(
        check_password(&Err(DBError::ConnectionError), "pw"),
        Err(DBError::ConnectionError)
    );
}

#[test]
fn check_against_a_string_that_is_no_hash_fails() {
    let found = Ok(User {
        id: Some(1),
        username: "alice".to_string(),
        password: "pw".to_string(),
        salt: vec![],
    });
    assert_eq!(check_password(&found, "pw"), Err(DBError::PasswordVerificationError));
}

#[test]
fn user_id_comes_from_the_row_that_was_found() {
    let row = ToBeInsertedUser::new("alice".to_string(), "hash".to_string(), vec![0; 16]);
    assert_eq!(get_user_id(&stored(Some(5), &row)), Ok(5));
    assert_eq!(get_user_id(&stored(Some(-5), &row)), Ok(-5));
    assert_eq!(get_user_id(&stored(None, &row)), Err(DBError::UserNotFoundError));
    assert_eq!(get_user_id(&Err(DBError::ConnectionError)), Err(DBError::ConnectionError));
}

#[test]
fn new_message_keeps_the_content_encoded() {
    let content = MessageContent::File("a.txt".to_string(), vec![1, 2, 3]);
    let row = new_message(9, &content);
    assert_eq!(row.user_id, 9);
    assert_eq!(deserialize_data(row.content.clone()), Ok(content));
    let text = new_message(1, &MessageContent::Text("hi".to_string()));
    assert_eq!(text.content, vec![2, 0, 0, 0, 2, 0, 0, 0, 0, 0, 0, 0, 104, 105]);
}

#[test]
fn saved_message_couples_message_and_author() {
    let message = Message { id: Some(1), user_id: 2, content: vec![1] };
    let saved = with_author(message.clone(), Err(DBError::UserNotFoundError));
    assert_eq!(saved.message, message);
    assert_eq!(saved.author, Err(DBError::UserNotFoundError));
}

#[test]
fn oldest_first_turns_the_rows_around() {
    assert_eq!(oldest_first(vec![5, 4, 3, 1]), vec![1, 3, 4, 5]);
    assert_eq!(oldest_first(vec![7]), vec![7]);
    assert_eq!(oldest_first(Vec::<i32>::new()), Vec::<i32>::new());
    assert_eq!(
        oldest_first(vec!["c".to_string(), "b".to_string(), "a".to_string()]),
        vec!["a".to_string(), "b".to_string(), "c".to_string()]
    );
}
