//! The commands of the service and the text that follows them.

use vstd::prelude::*;
use crate::text::{
    lowercase, parse_u32, parse_u8, parsed_u32, parsed_u8, split_at_first, split_once,
    strip_leading, to_lowercase, trim, trimmed, without_leading,
};

verus! {

/// The commands the service understands.
#[derive(Clone, Copy, Debug, PartialEq, Eq, Structural)]
pub enum Command {
    /// Display the list of commands.
    Help,
    /// Greet the user.
    Start,
    /// Answer with a pong.
    Ping,
    /// Synchronise the users of the chat with its administrators.
    InitUsers,
    /// Add a trigger: `/add tg_username trigger=reply` or `/add all trigger=reply`.
    Add,
    /// Delete a trigger: `/delete tg_username trigger` or `/delete all trigger`.
    Delete,
    /// Change the reply cadence: `/changefrq 4`.
    ChangeFrq,
    /// Set the roast level, 1 to 5: `/setroastlvl 4`.
    SetRoastLvl,
    /// Export the snapshot.
    GetDict,
    /// Import a snapshot.
    SetDict,
}

/// Why the text after a command was not understood.
#[derive(Clone, Copy, Debug, PartialEq, Eq, Structural)]
pub enum CommandError {
    /// A part of the command is missing, or what should be a number is none:
    /// the caller answers with the usage and leaves the store alone.
    Usage,
    /// The roast level is not one of 1 to 5.
    LevelOutOfRange,
    /// The cadence is below 1.
    CadenceOutOfRange,
}

/// Whose triggers a command is about.
#[derive(Clone, Debug)]
pub enum Target {
    /// The triggers shared by everyone in the chat.
    Everyone,
    /// The triggers of one user.
    User(String),
}

/// `Target`, as the contracts see it.
pub enum TargetModel {
    Everyone,
    User(Seq<char>),
}

impl View for Target {
    type V = TargetModel;

    open spec fn view(&self) -> TargetModel {
        match self {
            Target::Everyone => TargetModel::Everyone,
            Target::User(name) => TargetModel::User(name@),
        }
    }
}

/// What `/add` asks for.
#[derive(Clone, Debug)]
pub struct AddRequest {
    pub target: Target,
    pub trigger: String,
    pub reply: String,
}

/// What `/delete` asks for.
#[derive(Clone, Debug)]
pub struct DeleteRequest {
    pub target: Target,
    pub trigger: String,
}

/// The target that the second word of a command names: `all`, with or
/// without `@` before it, is everyone; any other word is that user.
pub open spec fn target_named(word: Seq<char>) -> TargetModel {
    let name = without_leading(word, '@');
    if name == "all"@ {
        TargetModel::Everyone
    } else {
        TargetModel::User(name)
    }
}

/// The second word of a command text and what follows it, where the text
/// holds two blanks.
pub open spec fn word_and_rest(text: Seq<char>) -> Option<(Seq<char>, Seq<char>)> {
    match split_at_first(text, ' ') {
        Some((_, after)) => split_at_first(after, ' '),
        None => None,
    }
}

/// What the text of an `/add` command asks for: `/add who trigger=reply`.
/// The trigger is trimmed and lowercased, the reply trimmed.
pub open spec fn add_request(text: Seq<char>) -> Option<(TargetModel, Seq<char>, Seq<char>)> {
    match word_and_rest(text) {
        Some((who, rest)) => match split_at_first(rest, '=') {
            Some((key, value)) => Some((target_named(who), lowercase(trimmed(key)), trimmed(value))),
            None => None,
        },
        None => None,
    }
}

/// What the text of a `/delete` command asks for: `/delete who trigger`.
/// The trigger is trimmed and lowercased, as it is where it was stored.
pub open spec fn delete_request(text: Seq<char>) -> Option<(TargetModel, Seq<char>)> {
    match word_and_rest(text) {
        Some((who, rest)) => Some((target_named(who), lowercase(trimmed(rest)))),
        None => None,
    }
}

/// The argument of a command: what follows the first blank of its text.
pub open spec fn argument(text: Seq<char>) -> Option<Seq<char>> {
    match split_at_first(text, ' ') {
        Some((_, after)) => Some(after),
        None => None,
    }
}

/// The cadence a parsed argument stands for: the number itself where it is
/// at least 1. An argument that is no number is a usage error, a zero is out
/// of range.
pub open spec fn cadence_of(parsed: Option<u32>) -> Result<u32, CommandError> {
    match parsed {
        Some(n) => if n >= 1 {
            Ok(n)
        } else {
            Err(CommandError::CadenceOutOfRange)
        },
        None => Err(CommandError::Usage),
    }
}

/// The roast level a parsed argument stands for: the number itself where it
/// is one of 1 to 5. An argument that is no number is a usage error, any
/// other number is out of range.
pub open spec fn level_of(parsed: Option<u8>) -> Result<u8, CommandError> {
    match parsed {
        Some(n) => if 1 <= n <= 5 {
            Ok(n)
        } else {
            Err(CommandError::LevelOutOfRange)
        },
        None => Err(CommandError::Usage),
    }
}

fn target_of(word: &str) -> (r: Target)
    ensures
        r@ == target_named(word@),
{
    let name = strip_leading(word, '@').to_owned();
    if name == "all".to_owned() {
        Target::Everyone
    } else {
        Target::User(name)
    }
}

fn split_word_and_rest<'a>(text: &'a str) -> (r: Option<(&'a str, &'a str)>)
    ensures
        match r {
            Some((who, rest)) => word_and_rest(text@) == Some((who@, rest@)),
            None => word_and_rest(text@) is None,
        },
{
    match split_once(text, ' ') {
        Some((_, after)) => split_once(after, ' '),
        None => None,
    }
}

/// Reads the text of an `/add` command.
pub fn parse_add(text: &str) -> (r: Result<AddRequest, CommandError>)
    ensures
        match add_request(text@) {
            Some((target, trigger, reply)) => {
                &&& r is Ok
                &&& r->Ok_0.target@ == target
                &&& r->Ok_0.trigger@ == trigger
                &&& r->Ok_0.reply@ == reply
            },
            None => r == Err::<AddRequest, CommandError>(CommandError::Usage),
        },
{
    match split_word_and_rest(text) {
        Some((who, rest)) => match split_once(rest, '=') {
            Some((key, value)) => Ok(
                AddRequest {
                    target: target_of(who),
                    trigger: to_lowercase(trim(key)),
                    reply: trim(value).to_owned(),
                },
            ),
            None => Err(CommandError::Usage),
        },
        None => Err(CommandError::Usage),
    }
}

/// Reads the text of a `/delete` command.
pub fn parse_delete(text: &str) -> (r: Result<DeleteRequest, CommandError>)
    ensures
        match delete_request(text@) {
            Some((target, trigger)) => {
                &&& r is Ok
                &&& r->Ok_0.target@ == target
                &&& r->Ok_0.trigger@ == trigger
            },
            None => r == Err::<DeleteRequest, CommandError>(CommandError::Usage),
        },
{
    match split_word_and_rest(text) {
        Some((who, rest)) => Ok(
            DeleteRequest { target: target_of(who), trigger: to_lowercase(trim(rest)) },
        ),
        None => Err(CommandError::Usage),
    }
}

/// The cadence that a parsed argument stands for.
pub fn cadence_from(parsed: Option<u32>) -> (r: Result<u32, CommandError>)
    ensures
        r == cadence_of(parsed),
        r is Ok ==> r->Ok_0 >= 1,
{
    match parsed {
        Some(n) => if n >= 1 {
            Ok(n)
        } else {
            Err(CommandError::CadenceOutOfRange)
        },
        None => Err(CommandError::Usage),
    }
}

/// The roast level that a parsed argument stands for.
pub fn roast_level_from(parsed: Option<u8>) -> (r: Result<u8, CommandError>)
    ensures
        r == level_of(parsed),
        r is Ok ==> 1 <= r->Ok_0 <= 5,
{
    match parsed {
        Some(n) => if n < 1 || n > 5 {
            Err(CommandError::LevelOutOfRange)
        } else {
            Ok(n)
        },
        None => Err(CommandError::Usage),
    }
}

/// Reads the text of a `/changefrq` command. The result is a cadence only
/// where the argument is a number of at least 1; a missing argument and one
/// that is no number are usage errors.
pub fn parse_cadence(text: &str) -> (r: Result<u32, CommandError>)
    ensures
        r == match argument(text@) {
            Some(arg) => cadence_of(parsed_u32(arg)),
            None => Err::<u32, CommandError>(CommandError::Usage),
        },
        r is Ok ==> r->Ok_0 >= 1,
{
    match split_once(text, ' ') {
        Some((_, arg)) => cadence_from(parse_u32(arg)),
        None => Err(CommandError::Usage),
    }
}

/// Reads the text of a `/setroastlvl` command. The result is a level only
/// where the argument is a number from 1 to 5; a missing argument and one
/// that is no number are usage errors.
pub fn parse_roast_level(text: &str) -> (r: Result<u8, CommandError>)
    ensures
        r == match argument(text@) {
            Some(arg) => level_of(parsed_u8(arg)),
            None => Err::<u8, CommandError>(CommandError::Usage),
        },
        r is Ok ==> 1 <= r->Ok_0 <= 5,
{
    match split_once(text, ' ') {
        Some((_, arg)) => roast_level_from(parse_u8(arg)),
        None => Err(CommandError::Usage),
    }
}

} // verus!
