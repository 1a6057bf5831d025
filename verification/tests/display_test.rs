use chat_relay::db::User;
use chat_relay::display::{attachment, get_address, output_message_data, SECONDS_INDEX};
use chat_relay::structs::{image, text, MessageResponse};

fn from_bob(content: chat_relay::structs::MessageContent) -> MessageResponse {
    MessageResponse {
        id: 1,
        user: User {
            id: Some(2),
            username: "bob".to_string(),
            password: "hash".to_string(),
            salt: vec![],
        },
        content,
    }
}

#[test]
fn address_is_hostname_colon_port() {
    assert_eq!(get_address("localhost", "11111"), "localhost:11111");
    assert_eq!(get_address("", ""), ":");
    assert_eq!(get_address("::1", "80"), "::1:80");
}

#[test]
fn text_is_shown_behind_its_author() {
    let message = from_bob(text("hello there".to_string()));
    assert_eq!(output_message_data(&message, None), "bob: hello there");
    // what was kept does not matter for a text
    assert_eq!(output_message_data(&message, Some("x".to_string())), "bob: hello there");
}

#[test]
fn attachment_is_shown_by_the_name_it_was_kept_under() {
    let sent = from_bob(chat_relay::structs::file("notes.txt".to_string(), vec![1, 2]));
    assert_eq!(
        output_message_data(&sent, Some("notes.txt".to_string())),
        "bob: sent a file notes.txt"
    );
    assert_eq!(output_message_data(&sent, None), "Received file, but failed to save it");
    let sent = from_bob(image(vec![1, 2]));
    assert_eq!(
        output_message_data(&sent, Some("2024-01-01 10:00:00.png".to_string())),
        "bob: sent an image 2024-01-01 10:00:00.png"
    );
    assert_eq!(output_message_data(&sent, None), "Received image, but failed to save it");
}

#[test]
fn text_has_nothing_to_keep() {
    assert_eq!(attachment(&text("hi".to_string()), "2024-01-31 10:15:59.123 +01:00"), None);
}

#[test]
fn file_is_kept_under_its_own_name() {
    let content = chat_relay::structs::file("notes.txt".to_string(), vec![1, 2, 3]);
    assert_eq!(
        attachment(&content, "2024-01-31 10:15:59.123 +01:00"),
        Some(("files".to_string(), "notes.txt".to_string(), &vec![1, 2, 3]))
    );
}

#[test]
fn image_is_kept_under_the_time_down_to_seconds() {
    assert_eq!(SECONDS_INDEX, 19);
    let content = image(vec![9, 8]);
    assert_eq!(
        attachment(&content, "2024-01-31 10:15:59.123456789 +01:00"),
        Some(("images".to_string(), "2024-01-31 10:15:59.png".to_string(), &vec![9, 8]))
    );
    assert_eq!(
        attachment(&content, "2024-01-31 10:15:59"),
        Some(("images".to_string(), "2024-01-31 10:15:59.png".to_string(), &vec![9, 8]))
    );
    assert_eq!(
        attachment(&content, "short"),
        Some(("images".to_string(), "short.png".to_string(), &vec![9, 8]))
    );
    assert_eq!(
        attachment(&content, ""),
        Some(("images".to_string(), ".png".to_string(), &vec![9, 8]))
    );
}
