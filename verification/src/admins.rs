//! What an administrator sync needs to know of the chat's administrators
//! before it touches the dictionary.

use vstd::prelude::*;
use vstd::string::StringExecFns;
use crate::text::{trim, trimmed};

verus! {

/// Where the service stands in a chat.
#[derive(Clone, Copy, Debug, PartialEq, Eq, Structural)]
pub enum Standing {
    /// An administrator who may delete messages: the sync goes ahead.
    Ready,
    /// An administrator who may not delete messages: the chat is told so,
    /// and the sync goes ahead.
    CannotDelete,
    /// No administrator: the chat is told so, and nothing else is done.
    NotAdministrator,
}

/// The standing of the service in a chat, from what the chat says of it.
pub fn standing(is_administrator: bool, can_delete_messages: bool) -> (r: Standing)
    ensures
        r == if !is_administrator {
            Standing::NotAdministrator
        } else if can_delete_messages {
            Standing::Ready
        } else {
            Standing::CannotDelete
        },
{
    if !is_administrator {
        Standing::NotAdministrator
    } else if can_delete_messages {
        Standing::Ready
    } else {
        Standing::CannotDelete
    }
}

/// Whether the sync goes ahead in this standing.
pub fn sync_goes_ahead(standing: Standing) -> (r: bool)
    ensures
        r == (standing != Standing::NotAdministrator),
{
    match standing {
        Standing::NotAdministrator => false,
        _ => true,
    }
}

/// The last name that is given, or the empty text.
pub open spec fn given(last_name: Option<String>) -> Seq<char> {
    match last_name {
        Some(name) => name@,
        None => Seq::empty(),
    }
}

/// The full name of a person: first name, a blank, last name, trimmed.
pub open spec fn full_name_of(first_name: Seq<char>, last_name: Seq<char>) -> Seq<char> {
    trimmed(first_name + " "@ + last_name)
}

/// Composes the full name of an administrator.
pub fn full_name(first_name: &str, last_name: Option<String>) -> (r: String)
    ensures
        r@ == full_name_of(first_name@, given(last_name)),
{
    let joined = String::from_str(first_name).concat(" ");
    let joined = match &last_name {
        Some(name) => joined.concat(name.as_str()),
        None => joined,
    };
    proof {
        if last_name is None {
            assert(first_name@ + " "@ + Seq::<char>::empty() =~= first_name@ + " "@);
        }
    }
    trim(joined.as_str()).to_owned()
}

} // verus!
