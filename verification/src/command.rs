//! What a line typed into a client means: a command that starts with a dot,
//! or a text message.
//!
//! The line is split at its first space. Where what stands before the space
//! is one of the command words, what stands behind it is the command's
//! argument; every other line is a message as a whole.

use vstd::prelude::*;
use vstd::string::{StrSliceExecFns, StringExecFns};
use crate::structs::{
    AuthRequestKind, MessageContent, MessageContentView, MessageRequest, MessageRequestView,
    ReadRequest, ReadRequestView, StreamRequest, StreamRequestView,
};

verus! {

/// What the user asked for.
#[derive(Debug, Clone, PartialEq, Eq)]
pub enum Command {
    /// `.quit`: leave the program.
    Quit,
    /// `.help`: show the commands.
    Help,
    /// `.image <path>`: send the image at the path.
    Image(String),
    /// `.file <path>`: send the file at the path.
    File(String),
    /// `.history <amount>`: ask for the last messages.
    History(i32),
    /// Anything else: send the line as a text message.
    Message(String),
    /// `.image` or `.file` without a path; holds the command word.
    MissingPath(String),
    /// `.history` with an argument that is no amount.
    InvalidAmount,
    /// `.history` without an argument.
    NoAmount,
}

/// The mathematical value of a [`Command`].
pub enum CommandView {
    Quit,
    Help,
    Image(Seq<char>),
    File(Seq<char>),
    History(i32),
    Message(Seq<char>),
    MissingPath(Seq<char>),
    InvalidAmount,
    NoAmount,
}

impl View for Command {
    type V = CommandView;

    open spec fn view(&self) -> CommandView {
        match self {
            Command::Quit => CommandView::Quit,
            Command::Help => CommandView::Help,
            Command::Image(path) => CommandView::Image(path@),
            Command::File(path) => CommandView::File(path@),
            Command::History(amount) => CommandView::History(*amount),
            Command::Message(text) => CommandView::Message(text@),
            Command::MissingPath(word) => CommandView::MissingPath(word@),
            Command::InvalidAmount => CommandView::InvalidAmount,
            Command::NoAmount => CommandView::NoAmount,
        }
    }
}

// ---------------------------------------------------------------------------
// Numbers

/// The character is one of `0` to `9`.
pub open spec fn is_digit(c: char) -> bool {
    '0' <= c <= '9'
}

/// The line consists of digits, at least one.
pub open spec fn all_digits(s: Seq<char>) -> bool {
    s.len() > 0 && forall|i: int| 0 <= i < s.len() ==> is_digit(#[trigger] s[i])
}

/// The number that a string of digits writes in base ten.
pub open spec fn natural(s: Seq<char>) -> nat
    decreases s.len(),
{
    if s.len() == 0 {
        0
    } else {
        natural(s.drop_last()) * 10 + (s.last() as nat - '0' as nat) as nat
    }
}

/// The `i32` that a string writes: an optional sign, then digits, and a
/// value that an `i32` holds. Nothing else is a number: no spaces, no empty
/// string, no sign alone.
pub open spec fn parsed_i32(s: Seq<char>) -> Option<i32> {
    let negative = s.len() > 0 && s[0] == '-';
    let signed = s.len() > 0 && (s[0] == '-' || s[0] == '+');
    let digits = if signed {
        s.subrange(1, s.len() as int)
    } else {
        s
    };
    if !all_digits(digits) {
        None
    } else if negative {
        if natural(digits) <= 2147483648 {
            Some((-(natural(digits) as int)) as i32)
        } else {
            None
        }
    } else {
        if natural(digits) <= 2147483647 {
            Some(natural(digits) as i32)
        } else {
            None
        }
    }
}

/// A string of digits writes at least what its beginning writes.
proof fn lemma_natural_grows(s: Seq<char>, n: int)
    requires
        0 <= n <= s.len(),
        forall|i: int| 0 <= i < s.len() ==> is_digit(#[trigger] s[i]),
    ensures
        natural(s.subrange(0, n)) <= natural(s),
    decreases s.len() - n,
{
    if n == s.len() {
        assert(s.subrange(0, n) =~= s);
    } else {
        lemma_natural_grows(s, n + 1);
        let longer = s.subrange(0, n + 1);
        assert(longer.drop_last() =~= s.subrange(0, n));
        assert(is_digit(longer.last()));
    }
}

/// Reads an `i32` from the whole of `s`.
pub fn parse_i32(s: &str) -> (r: Option<i32>)
    ensures
        r == parsed_i32(s@),
{
    let n = s.unicode_len();
    if n == 0 {
        return None;
    }
    let first = s.get_char(0);
    let negative = first == '-';
    let signed = first == '-' || first == '+';
    let ghost digits = if signed {
        s@.subrange(1, s@.len() as int)
    } else {
        s@
    };
    let ghost skip: int = if signed { 1 } else { 0 };
    let limit: u64 = if negative { 2147483648 } else { 2147483647 };
    let mut value: u64 = 0;
    let mut i: usize = 0;
    for c in it: s.chars()
        invariant
            it.seq() == s@,
            i == it.index(),
            n == s@.len(),
            i <= n,
            value <= limit,
            limit == (if negative { 2147483648u64 } else { 2147483647u64 }),
            s@.len() > 0,
            negative == (s@[0] == '-'),
            signed == (s@[0] == '-' || s@[0] == '+'),
            digits == (if signed {
                s@.subrange(1, s@.len() as int)
            } else {
                s@
            }),
            digits.len() == s@.len() - skip,
            forall|k: int| 0 <= k < digits.len() ==> digits[k] == s@[k + skip],
            skip == (if signed { 1int } else { 0int }),
            i >= skip ==> value == natural(digits.subrange(0, i - skip)),
            i < skip ==> value == 0,
            forall|k: int| skip <= k < i ==> is_digit(#[trigger] s@[k]),
    {
        if i == 0 && signed {
            assert(digits.subrange(0, 0) =~= Seq::<char>::empty());
        } else {
            if c < '0' || c > '9' {
                assert(digits[i - skip] == c);
                assert(!all_digits(digits));
                return None;
            }
            let digit: u64 = (c as u32 - '0' as u32) as u64;
            proof {
                let longer = digits.subrange(0, i - skip + 1);
                assert(longer.drop_last() =~= digits.subrange(0, i - skip));
                assert(longer.last() == c);
                assert(natural(longer) == value * 10 + digit);
            }
            value = value * 10 + digit;
            if value > limit {
                proof {
                    if all_digits(digits) {
                        lemma_natural_grows(digits, i - skip + 1);
                        assert(natural(digits) > limit);
                    }
                }
                return None;
            }
        }
        i = i + 1;
    }
    proof {
        assert(digits.subrange(0, n - skip) =~= digits);
    }
    if n == 1 && signed {
        return None;
    }
    assert(all_digits(digits));
    if negative {
        if value == 2147483648 {
            Some(-2147483648i32)
        } else {
            Some(-(value as i32))
        }
    } else {
        Some(value as i32)
    }
}

// ---------------------------------------------------------------------------
// Lines

/// The index of the first space at or behind `from`, or the length of the
/// line where no space follows.
pub open spec fn space_from(s: Seq<char>, from: int) -> int
    decreases s.len() - from,
{
    if from < 0 || from >= s.len() {
        s.len() as int
    } else if s[from] == ' ' {
        from
    } else {
        space_from(s, from + 1)
    }
}

/// The first space, if there is one, is inside the line, and no space
/// stands before it.
pub proof fn lemma_space_from_bounds(s: Seq<char>, from: int)
    requires
        0 <= from <= s.len(),
    ensures
        from <= space_from(s, from) <= s.len(),
        space_from(s, from) < s.len() ==> s[space_from(s, from)] == ' ',
        forall|k: int| from <= k < space_from(s, from) ==> s[k] != ' ',
    decreases s.len() - from,
{
    if from < s.len() && s[from] != ' ' {
        lemma_space_from_bounds(s, from + 1);
    }
}

/// What stands before the first space: the whole line where it has none.
pub open spec fn word(line: Seq<char>) -> Seq<char> {
    line.subrange(0, space_from(line, 0))
}

/// What stands behind the first space, if the line has one.
pub open spec fn argument(line: Seq<char>) -> Option<Seq<char>> {
    if space_from(line, 0) < line.len() {
        Some(line.subrange(space_from(line, 0) + 1, line.len() as int))
    } else {
        None
    }
}

/// What a line means.
pub open spec fn command_of(line: Seq<char>) -> CommandView {
    if word(line) == ".quit"@ {
        CommandView::Quit
    } else if word(line) == ".help"@ {
        CommandView::Help
    } else if word(line) == ".image"@ {
        match argument(line) {
            Some(path) => CommandView::Image(path),
            None => CommandView::MissingPath(".image"@),
        }
    } else if word(line) == ".file"@ {
        match argument(line) {
            Some(path) => CommandView::File(path),
            None => CommandView::MissingPath(".file"@),
        }
    } else if word(line) == ".history"@ {
        match argument(line) {
            Some(amount) => match parsed_i32(amount) {
                Some(n) => CommandView::History(n),
                None => CommandView::InvalidAmount,
            },
            None => CommandView::NoAmount,
        }
    } else {
        CommandView::Message(line)
    }
}

/// Finds the first space of `line`, a line of `n` characters.
fn find_space(line: &str, n: usize) -> (split: usize)
    requires
        n == line@.len(),
    ensures
        split == space_from(line@, 0),
        split <= n,
{
    let mut i: usize = 0;
    for c in it: line.chars()
        invariant
            it.seq() == line@,
            i == it.index(),
            n == line@.len(),
            i <= n,
            space_from(line@, 0) == space_from(line@, i as int),
    {
        if c == ' ' {
            return i;
        }
        i = i + 1;
    }
    i
}

/// Whether two strings hold the same characters.
fn same(a: &str, b: &str) -> (r: bool)
    ensures
        r == (a@ == b@),
{
    String::from_str(a) == String::from_str(b)
}

/// Reads a line that a user typed.
pub fn parse_command(line: String) -> (command: Command)
    ensures
        command@ == command_of(line@),
{
    let n = line.as_str().unicode_len();
    let split = find_space(line.as_str(), n);
    let head = line.as_str().substring_char(0, split);
    if same(head, ".quit") {
        Command::Quit
    } else if same(head, ".help") {
        Command::Help
    } else if same(head, ".image") {
        if split < n {
            Command::Image(String::from_str(line.as_str().substring_char(split + 1, n)))
        } else {
            Command::MissingPath(String::from_str(".image"))
        }
    } else if same(head, ".file") {
        if split < n {
            Command::File(String::from_str(line.as_str().substring_char(split + 1, n)))
        } else {
            Command::MissingPath(String::from_str(".file"))
        }
    } else if same(head, ".history") {
        if split < n {
            match parse_i32(line.as_str().substring_char(split + 1, n)) {
                Some(amount) => Command::History(amount),
                None => Command::InvalidAmount,
            }
        } else {
            Command::NoAmount
        }
    } else {
        Command::Message(line)
    }
}

/// What an answer to the question "log in or register?" means: `r` or `R`
/// is a registration, everything else a login.
pub open spec fn auth_kind_of(answer: Seq<char>) -> AuthRequestKind {
    if answer == "r"@ || answer == "R"@ {
        AuthRequestKind::Register
    } else {
        AuthRequestKind::Login
    }
}

/// Reads an answer to the question "log in or register?".
pub fn parse_auth_kind(answer: &str) -> (kind: AuthRequestKind)
    ensures
        kind == auth_kind_of(answer@),
{
    if same(answer, "r") || same(answer, "R") {
        AuthRequestKind::Register
    } else {
        AuthRequestKind::Login
    }
}

/// The request that a command sends by itself, under the session token
/// `jwt`: a message for a text line, and a history request from the newest
/// message on for `.history`. The other commands send nothing by themselves.
pub open spec fn request_of(command: CommandView, jwt: Seq<char>) -> Option<StreamRequestView> {
    match command {
        CommandView::Message(text) => Some(
            StreamRequestView::MessageRequest(
                MessageRequestView { jwt, message: MessageContentView::Text(text) },
            ),
        ),
        CommandView::History(amount) => Some(
            StreamRequestView::ReadRequest(ReadRequestView { jwt, amount, offset: 0 }),
        ),
        _ => None,
    }
}

/// Builds the request that `command` sends by itself, if it sends one.
pub fn request_for(command: Command, jwt: String) -> (r: Option<StreamRequest>)
    ensures
        match r {
            Some(request) => request_of(command@, jwt@) == Some(request@),
            None => request_of(command@, jwt@) is None,
        },
{
    match command {
        Command::Message(text) => Some(
            StreamRequest::MessageRequest(
                MessageRequest { jwt, message: MessageContent::Text(text) },
            ),
        ),
        Command::History(amount) => Some(
            StreamRequest::ReadRequest(ReadRequest { jwt, amount, offset: 0 }),
        ),
        _ => None,
    }
}

/// A line that does not start with a dot is a message as it stands.
pub proof fn lemma_plain_line_is_a_message(line: Seq<char>)
    requires
        line.len() == 0 || line[0] != '.',
    ensures
        command_of(line) == CommandView::Message(line),
{
    reveal_strlit(".quit");
    reveal_strlit(".help");
    reveal_strlit(".image");
    reveal_strlit(".file");
    reveal_strlit(".history");
    lemma_space_from_bounds(line, 0);
    assert(".quit"@.len() > 0 && ".quit"@[0] == '.');
    assert(".help"@.len() > 0 && ".help"@[0] == '.');
    assert(".image"@.len() > 0 && ".image"@[0] == '.');
    assert(".file"@.len() > 0 && ".file"@[0] == '.');
    assert(".history"@.len() > 0 && ".history"@[0] == '.');
    if word(line).len() > 0 {
        assert(word(line)[0] == line[0]);
    }
}

} // verus!
