//! Records as the store hands them to the relay.

use vstd::prelude::*;
use crate::errors::DBError;

verus! {

/// A registered user as persisted: `id` is `None` only before insertion.
#[derive(Debug, Clone, PartialEq, Eq)]
pub struct User {
    pub id: Option<i32>,
    pub username: String,
    pub password: String,
    pub salt: Vec<u8>,
}

/// The mathematical value of a [`User`].
pub struct UserView {
    pub id: Option<i32>,
    pub username: Seq<char>,
    pub password: Seq<char>,
    pub salt: Seq<u8>,
}

impl View for User {
    type V = UserView;

    open spec fn view(&self) -> UserView {
        UserView {
            id: self.id,
            username: self.username@,
            password: self.password@,
            salt: self.salt@,
        }
    }
}

/// A persisted chat message: the author's id and the encoded content.
#[derive(Debug, Clone, PartialEq, Eq)]
pub struct Message {
    pub id: Option<i32>,
    pub user_id: i32,
    pub content: Vec<u8>,
}

/// The mathematical value of a [`Message`].
pub struct MessageView {
    pub id: Option<i32>,
    pub user_id: i32,
    pub content: Seq<u8>,
}

impl View for Message {
    type V = MessageView;

    open spec fn view(&self) -> MessageView {
        MessageView { id: self.id, user_id: self.user_id, content: self.content@ }
    }
}

/// A user that is about to be inserted; the store assigns the id.
#[derive(Debug, Clone, PartialEq, Eq)]
pub struct ToBeInsertedUser {
    pub username: String,
    pub password: String,
    pub salt: Vec<u8>,
}

/// The mathematical value of a [`ToBeInsertedUser`].
pub struct ToBeInsertedUserView {
    pub username: Seq<char>,
    pub password: Seq<char>,
    pub salt: Seq<u8>,
}

impl View for ToBeInsertedUser {
    type V = ToBeInsertedUserView;

    open spec fn view(&self) -> ToBeInsertedUserView {
        ToBeInsertedUserView {
            username: self.username@,
            password: self.password@,
            salt: self.salt@,
        }
    }
}

impl ToBeInsertedUser {
    /// The row to insert for a user; `password` is the hash to keep.
    pub fn new(username: String, password: String, salt: Vec<u8>) -> (r: Self)
        ensures
            r == (ToBeInsertedUser { username, password, salt }),
    {
        ToBeInsertedUser { username, password, salt }
    }
}

/// A message that is about to be inserted; the store assigns the id.
#[derive(Debug, Clone, PartialEq, Eq)]
pub struct ToBeInsertedMessage {
    pub user_id: i32,
    pub content: Vec<u8>,
}

/// The mathematical value of a [`ToBeInsertedMessage`].
pub struct ToBeInsertedMessageView {
    pub user_id: i32,
    pub content: Seq<u8>,
}

impl View for ToBeInsertedMessage {
    type V = ToBeInsertedMessageView;

    open spec fn view(&self) -> ToBeInsertedMessageView {
        ToBeInsertedMessageView { user_id: self.user_id, content: self.content@ }
    }
}

impl ToBeInsertedMessage {
    /// The row to insert for a message; `content` is the encoded content.
    pub fn new(user_id: i32, content: Vec<u8>) -> (r: Self)
        ensures
            r == (ToBeInsertedMessage { user_id, content }),
    {
        ToBeInsertedMessage { user_id, content }
    }
}

/// The mathematical value of what the store found of an author.
pub open spec fn author_view(author: Result<User, DBError>) -> Result<UserView, DBError> {
    match author {
        Ok(user) => Ok(user@),
        Err(e) => Err(e),
    }
}

/// A persisted message together with what the store found of its author.
#[derive(Debug, PartialEq, Eq)]
pub struct SavedMessage {
    pub message: Message,
    pub author: Result<User, DBError>,
}

/// The mathematical value of a [`SavedMessage`].
pub struct SavedMessageView {
    pub message: MessageView,
    pub author: Result<UserView, DBError>,
}

impl View for SavedMessage {
    type V = SavedMessageView;

    open spec fn view(&self) -> SavedMessageView {
        SavedMessageView { message: self.message@, author: author_view(self.author) }
    }
}

} // verus!
