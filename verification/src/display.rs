//! Lines of text for the people at both ends: the address a server listens
//! on, and what a client prints for a message that arrived.

use vstd::prelude::*;
use vstd::string::{StrSliceExecFns, StringExecFns};
use crate::structs::{MessageContent, MessageContentView, MessageResponse, MessageResponseView};

verus! {

/// `hostname`, a colon, `port`.
pub open spec fn address_text(hostname: Seq<char>, port: Seq<char>) -> Seq<char> {
    hostname + ":"@ + port
}

/// The address to listen on or to connect to, as `hostname:port`.
pub fn get_address(hostname: &str, port: &str) -> (address: String)
    ensures
        address@ == address_text(hostname@, port@),
{
    let mut address = String::from_str(hostname);
    address.append(":");
    address.append(port);
    address
}

/// What became of an attachment that a client tried to keep: the name of
/// the file it was written to, or nothing where that failed.
pub open spec fn kept_name(kept: Option<String>) -> Option<Seq<char>> {
    match kept {
        Some(name) => Some(name@),
        None => None,
    }
}

/// The line that a client shows for a message. For an attachment the line
/// depends on whether the attachment could be kept, and under which name.
pub open spec fn message_line(message: MessageResponseView, kept: Option<Seq<char>>) -> Seq<char> {
    match message.content {
        MessageContentView::Text(text) => message.user.username + ": "@ + text,
        MessageContentView::File(_, _) => match kept {
            Some(name) => message.user.username + ": sent a file "@ + name,
            None => "Received file, but failed to save it"@,
        },
        MessageContentView::Image(_) => match kept {
            Some(name) => message.user.username + ": sent an image "@ + name,
            None => "Received image, but failed to save it"@,
        },
    }
}

/// The line to show for `message_data`, once the client has tried to keep
/// its attachment, if it has one.
pub fn output_message_data(message_data: &MessageResponse, kept: Option<String>) -> (line: String)
    ensures
        line@ == message_line(message_data@, kept_name(kept)),
{
    let mut line = String::from_str(message_data.user.username.as_str());
    match &message_data.content {
        MessageContent::Text(text) => {
            line.append(": ");
            line.append(text.as_str());
            line
        },
        MessageContent::File(_, _) => match kept {
            Some(name) => {
                line.append(": sent a file ");
                line.append(name.as_str());
                line
            },
            None => String::from_str("Received file, but failed to save it"),
        },
        MessageContent::Image(_) => match kept {
            Some(name) => {
                line.append(": sent an image ");
                line.append(name.as_str());
                line
            },
            None => String::from_str("Received image, but failed to save it"),
        },
    }
}

/// How many characters of a timestamp reach down to the seconds, as in
/// `2024-01-31 10:15:59`.
pub const SECONDS_INDEX: usize = 19;

/// The name under which a received image is kept: the timestamp of its
/// arrival down to the seconds, and `.png`.
pub open spec fn image_name(timestamp: Seq<char>) -> Seq<char> {
    if timestamp.len() >= SECONDS_INDEX {
        timestamp.subrange(0, SECONDS_INDEX as int) + ".png"@
    } else {
        timestamp + ".png"@
    }
}

/// What a client keeps of a message and where: nothing of a text; a file
/// under its own name in `files`; an image under the time of its arrival in
/// `images`. The parts are the directory, the file's name in it, and the
/// bytes to write.
pub open spec fn attachment_of(content: MessageContentView, timestamp: Seq<char>) -> Option<
    (Seq<char>, Seq<char>, Seq<u8>),
> {
    match content {
        MessageContentView::Text(_) => None,
        MessageContentView::File(name, bytes) => Some(("files"@, name, bytes)),
        MessageContentView::Image(bytes) => Some(("images"@, image_name(timestamp), bytes)),
    }
}

/// Says what to keep of a message that arrived at the time that `timestamp`
/// writes out, and where.
pub fn attachment<'a>(content: &'a MessageContent, timestamp: &str) -> (kept: Option<
    (String, String, &'a Vec<u8>),
>)
    ensures
        match kept {
            Some((directory, name, bytes)) => attachment_of(content@, timestamp@) == Some(
                (directory@, name@, bytes@),
            ),
            None => attachment_of(content@, timestamp@) is None,
        },
{
    match content {
        MessageContent::Text(_) => None,
        MessageContent::File(name, bytes) => Some((String::from_str("files"), name.clone(), bytes)),
        MessageContent::Image(bytes) => {
            let length = timestamp.unicode_len();
            let seconds = if length >= SECONDS_INDEX {
                timestamp.substring_char(0, SECONDS_INDEX)
            } else {
                timestamp
            };
            let mut name = String::from_str(seconds);
            name.append(".png");
            Some((String::from_str("images"), name, bytes))
        },
    }
}

} // verus!
