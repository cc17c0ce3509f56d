//! A flat table of triggers: every user's own, with no chats above them.

use vstd::prelude::*;
use crate::keyed::KeyedList;

verus! {

/// The triggers of every user, keyed by username.
#[derive(Clone, Debug)]
pub struct UserResponses {
    pub users: KeyedList<KeyedList<String>>,
}

impl View for UserResponses {
    type V = Seq<(Seq<char>, Seq<(Seq<char>, Seq<char>)>)>;

    open spec fn view(&self) -> Seq<(Seq<char>, Seq<(Seq<char>, Seq<char>)>)> {
        self.users@
    }
}

} // verus!
