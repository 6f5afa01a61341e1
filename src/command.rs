//! The line-oriented command language: turning one input line into a command.
use crate::text::{
    join_from, joined, lower_of, lowercase, parse_usize, split_words, text_equals, usize_of_text,
    views_of, words_of,
};
use crate::todo::{status_alias, Status};
use vstd::prelude::*;

verus! {

/// One command of the interactive surface.
#[derive(Debug)]
pub enum Command {
    Exit,
    Help,
    List,
    ListByStatus(Status),
    Add(String),
    Update(usize, String),
    Remove(usize),
    Clear,
    Save,
    Unknown(String),
}

/// A remark for the user that parsing a line produced.
#[derive(Clone, Copy, Debug, PartialEq, Eq, Structural)]
pub enum Notice {
    /// `add` without a description.
    AddUsage,
    /// `update` without an index and a status.
    UpdateUsage,
    /// `remove` without an index.
    RemoveUsage,
    /// An index that is not a number.
    InvalidNumber,
}

/// The text that a command carries, if it carries one.
pub open spec fn command_text(c: Command) -> Seq<char> {
    match c {
        Command::Add(d) => d@,
        Command::Update(_, s) => s@,
        Command::Unknown(t) => t@,
        _ => Seq::empty(),
    }
}

/// The index that a command carries, if it carries one.
pub open spec fn command_index(c: Command) -> usize {
    match c {
        Command::Update(i, _) => i,
        Command::Remove(i) => i,
        _ => 0,
    }
}

/// `c` is `Unknown` with the text `t`.
pub open spec fn unknown_with(c: Command, t: Seq<char>) -> bool {
    c is Unknown && command_text(c) == t
}

/// The verb of a line, lowercased.
pub open spec fn verb(words: Seq<Seq<char>>) -> Seq<char> {
    lower_of(words[0])
}

/// `c` is what a line with these words, and with the text `input`, means.
pub open spec fn parsed_command(words: Seq<Seq<char>>, input: Seq<char>, c: Command) -> bool {
    if words.len() == 0 {
        unknown_with(c, Seq::empty())
    } else if verb(words) == "exit"@ || verb(words) == "quit"@ {
        c is Exit
    } else if verb(words) == "help"@ {
        c is Help
    } else if verb(words) == "list"@ || verb(words) == "ls"@ {
        if words.len() > 1 && status_alias(lower_of(words[1])) is Some {
            c == Command::ListByStatus(status_alias(lower_of(words[1]))->0)
        } else {
            c is List
        }
    } else if verb(words) == "add"@ {
        if words.len() < 2 {
            unknown_with(c, "add"@)
        } else {
            c is Add && command_text(c) == joined(words.drop_first())
        }
    } else if verb(words) == "update"@ || verb(words) == "status"@ {
        if words.len() < 3 || usize_of_text(words[1]) is None {
            unknown_with(c, "update"@)
        } else {
            &&& c is Update
            &&& command_index(c) == usize_of_text(words[1])->0
            &&& command_text(c) == words[2]
        }
    } else if verb(words) == "remove"@ || verb(words) == "delete"@ {
        if words.len() < 2 || usize_of_text(words[1]) is None {
            unknown_with(c, "remove"@)
        } else {
            c == Command::Remove(usize_of_text(words[1])->0)
        }
    } else if verb(words) == "clear"@ {
        c is Clear
    } else if verb(words) == "save"@ {
        c is Save
    } else {
        unknown_with(c, input)
    }
}

/// The remark that parsing a line with these words produces, if any.
pub open spec fn notice_of(words: Seq<Seq<char>>) -> Option<Notice> {
    if words.len() == 0 {
        None
    } else if verb(words) == "exit"@ || verb(words) == "quit"@ || verb(words) == "help"@ || verb(
        words,
    ) == "list"@ || verb(words) == "ls"@ {
        None
    } else if verb(words) == "add"@ {
        if words.len() < 2 {
            Some(Notice::AddUsage)
        } else {
            None
        }
    } else if verb(words) == "update"@ || verb(words) == "status"@ {
        if words.len() < 3 {
            Some(Notice::UpdateUsage)
        } else if usize_of_text(words[1]) is None {
            Some(Notice::InvalidNumber)
        } else {
            None
        }
    } else if verb(words) == "remove"@ || verb(words) == "delete"@ {
        if words.len() < 2 {
            Some(Notice::RemoveUsage)
        } else if usize_of_text(words[1]) is None {
            Some(Notice::InvalidNumber)
        } else {
            None
        }
    } else {
        None
    }
}

/// Parses one input line into a command.
pub fn parse_command(input: &str) -> (r: Command)
    ensures
        parsed_command(words_of(input@), input@, r),
{
    parse_command_with_notice(input).0
}

/// Parses one input line into a command, with the remark for the user that
/// parsing produced, if any.
pub fn parse_command_with_notice(input: &str) -> (r: (Command, Option<Notice>))
    ensures
        parsed_command(words_of(input@), input@, r.0),
        r.1 == notice_of(words_of(input@)),
{
    let words = split_words(input);
    parse_words(&words, input)
}

/// Parses the words of a line; `input` is the line itself, echoed back for
/// an unknown verb.
pub fn parse_words(words: &Vec<&str>, input: &str) -> (r: (Command, Option<Notice>))
    ensures
        parsed_command(views_of(words@), input@, r.0),
        r.1 == notice_of(views_of(words@)),
{
    let ghost ws = views_of(words@);
    if words.len() == 0 {
        return (Command::Unknown(String::new()), None);
    }
    assert(ws[0] == words@[0]@);
    let lowered = lowercase(words[0]);
    let v = lowered.as_str();
    if text_equals(v, "exit") || text_equals(v, "quit") {
        (Command::Exit, None)
    } else if text_equals(v, "help") {
        (Command::Help, None)
    } else if text_equals(v, "list") || text_equals(v, "ls") {
        if words.len() > 1 {
            assert(ws[1] == words@[1]@);
            match Status::from_str(words[1]) {
                Ok(s) => {
                    return (Command::ListByStatus(s), None);
                },
                Err(_) => {},
            }
        }
        (Command::List, None)
    } else if text_equals(v, "add") {
        if words.len() < 2 {
            return (Command::Unknown(String::from_str("add")), Some(Notice::AddUsage));
        }
        let description = join_from(words, 1);
        assert(ws.subrange(1, ws.len() as int) =~= ws.drop_first());
        (Command::Add(description), None)
    } else if text_equals(v, "update") || text_equals(v, "status") {
        if words.len() < 3 {
            return (Command::Unknown(String::from_str("update")), Some(Notice::UpdateUsage));
        }
        assert(ws[1] == words@[1]@);
        assert(ws[2] == words@[2]@);
        match parse_usize(words[1]) {
            Some(index) => (Command::Update(index, String::from_str(words[2])), None),
            None => (Command::Unknown(String::from_str("update")), Some(Notice::InvalidNumber)),
        }
    } else if text_equals(v, "remove") || text_equals(v, "delete") {
        if words.len() < 2 {
            return (Command::Unknown(String::from_str("remove")), Some(Notice::RemoveUsage));
        }
        assert(ws[1] == words@[1]@);
        match parse_usize(words[1]) {
            Some(index) => (Command::Remove(index), None),
            None => (Command::Unknown(String::from_str("remove")), Some(Notice::InvalidNumber)),
        }
    } else if text_equals(v, "clear") {
        (Command::Clear, None)
    } else if text_equals(v, "save") {
        (Command::Save, None)
    } else {
        (Command::Unknown(String::from_str(input)), None)
    }
}

} // verus!
