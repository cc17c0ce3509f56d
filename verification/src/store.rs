//! The store: the one dictionary of a running service, which exists only
//! after it was loaded, and the named operations of the service on it.
//!
//! Each operation reports whether the store was there. Where it was, the
//! dictionary has changed as the contract says and is due to be flushed;
//! where it was not, nothing has changed.

use vstd::prelude::*;
use crate::chat::{
    admin_pairs, gate_opens, gate_passed, new_chat, repaired, synced, with_common_reply,
    with_user_reply, without_common_reply, without_user_reply, ChatModel,
};
use crate::keyed::{upsert, value_or};
use crate::manager::{chat_or_new, response_of, DictionaryManager};
use crate::text::{lowercase, to_lowercase, trim, trimmed};
use crate::wellformed::dictionary_wf;

verus! {

/// Why an operation on the store did nothing.
#[derive(Clone, Copy, Debug, PartialEq, Eq, Structural)]
pub enum StoreError {
    /// The store was never loaded.
    Uninitialized,
}

/// The dictionary of the running service; `None` until it was loaded.
#[derive(Clone, Debug)]
pub struct Store {
    pub manager: Option<DictionaryManager>,
}

impl View for Store {
    type V = Option<Seq<(Seq<char>, ChatModel)>>;

    open spec fn view(&self) -> Option<Seq<(Seq<char>, ChatModel)>> {
        match self.manager {
            Some(manager) => Some(manager@),
            None => None,
        }
    }
}

/// A trigger as it is stored: trimmed, then lowercased.
pub open spec fn stored_trigger(trigger: Seq<char>) -> Seq<char> {
    lowercase(trimmed(trigger))
}

/// A reply as it is stored: trimmed.
pub open spec fn stored_reply(reply: Seq<char>) -> Seq<char> {
    trimmed(reply)
}

/// What an operation that turns the chat `chat_id` into `chat` leaves of a
/// store and reports: nothing changes where the store was never loaded.
pub open spec fn applied(
    before: Option<Seq<(Seq<char>, ChatModel)>>,
    after: Option<Seq<(Seq<char>, ChatModel)>>,
    outcome: Result<(), StoreError>,
    chat_id: Seq<char>,
    chat: ChatModel,
) -> bool {
    match before {
        Some(chats) => {
            &&& outcome is Ok
            &&& after == Some(upsert(chats, chat_id, chat))
            &&& dictionary_wf(chats) ==> dictionary_wf(upsert(chats, chat_id, chat))
        },
        None => outcome == Err::<(), StoreError>(StoreError::Uninitialized) && after is None,
    }
}

/// What the service does with an incoming message.
#[derive(Clone, Debug)]
pub enum MessageAction {
    /// A trigger fired and this is a reply turn: send the reply.
    Reply(String),
    /// A trigger fired, but this is no reply turn: stay silent.
    Suppress,
    /// No trigger fired: the message is left to the roast path.
    NoMatch,
    /// The store was never loaded: nothing is done.
    Ignore,
}

impl Store {
    /// A store that was not loaded yet.
    pub fn new() -> (r: Store)
        ensures
            r@ is None,
    {
        Store { manager: None }
    }

    /// Makes `manager` the live dictionary, in place of any earlier one.
    pub fn install(&mut self, manager: DictionaryManager)
        ensures
            final(self)@ == Some(manager@),
    {
        self.manager = Some(manager);
    }

    /// Whether the store was loaded.
    pub fn is_initialized(&self) -> (r: bool)
        ensures
            r == (self@ is Some),
    {
        self.manager.is_some()
    }

    /// The number of chats of a loaded store.
    pub fn chat_count(&self) -> (r: Option<usize>)
        ensures
            match self@ {
                Some(chats) => r is Some && r->0 == chats.len(),
                None => r is None,
            },
    {
        match &self.manager {
            Some(manager) => Some(manager.chats.len()),
            None => None,
        }
    }

    /// Whether the counter of matched messages of a chat can still grow, so
    /// that the reply gate can be asked once more.
    pub fn gate_has_room(&self, chat_id: &String) -> (r: bool)
        ensures
            r == match self@ {
                Some(chats) => chat_or_new(chats, chat_id@).message_counter < u32::MAX,
                None => true,
            },
    {
        match &self.manager {
            Some(manager) => match manager.chats.get(chat_id) {
                Some(chat) => chat.message_counter < u32::MAX,
                None => true,
            },
            None => true,
        }
    }
}

/// The whole path of an incoming message: the matching engine looks for a
/// reply; where it finds one, the reply gate counts the message and decides
/// whether the reply is sent now. Only there must the counter have room; a
/// message on which no trigger fires is passed on whatever the counter is.
pub fn handle_message(store: &mut Store, chat_id: &String, username: &String, text: &String) -> (action:
    MessageAction)
    requires
        old(store)@ is Some && response_of(old(store)@->0, chat_id@, username@, text@) is Some
            ==> chat_or_new(old(store)@->0, chat_id@).message_counter < u32::MAX,
    ensures
        match old(store)@ {
            None => action is Ignore && final(store)@ is None,
            Some(chats) => match response_of(chats, chat_id@, username@, text@) {
                None => action is NoMatch && final(store)@ == old(store)@,
                Some(reply) => {
                    &&& final(store)@ == Some(
                        upsert(chats, chat_id@, gate_passed(chat_or_new(chats, chat_id@))),
                    )
                    &&& dictionary_wf(chats) ==> dictionary_wf(final(store)@->0)
                    &&& if gate_opens(chat_or_new(chats, chat_id@)) {
                        action is Reply && action->Reply_0@ == reply
                    } else {
                        action is Suppress
                    }
                },
            },
        },
{
    match &mut store.manager {
        None => MessageAction::Ignore,
        Some(manager) => {
            let found = match manager.get_response(chat_id.clone(), username.clone(), text.clone()) {
                Some(reply) => Some(reply.clone()),
                None => None,
            };
            match found {
                None => MessageAction::NoMatch,
                Some(reply) => {
                    if manager.should_reply_to_message(chat_id) {
                        MessageAction::Reply(reply)
                    } else {
                        MessageAction::Suppress
                    }
                },
            }
        },
    }
}

/// Stores a trigger of a user: the trigger trimmed and lowercased, the reply
/// trimmed.
pub fn add_user_trigger(
    store: &mut Store,
    chat_id: String,
    username: String,
    trigger: String,
    reply: String,
) -> (r: Result<(), StoreError>)
    ensures
        applied(
            old(store)@,
            final(store)@,
            r,
            chat_id@,
            with_user_reply(
                repaired(chat_or_new(old(store)@->0, chat_id@)),
                username@,
                stored_trigger(trigger@),
                stored_reply(reply@),
            ),
        ),
{
    match &mut store.manager {
        Some(manager) => {
            let key = to_lowercase(trim(trigger.as_str()));
            let value = trim(reply.as_str()).to_owned();
            manager.add_user_entry(chat_id, username, key, value);
            Ok(())
        },
        None => Err(StoreError::Uninitialized),
    }
}

/// Stores a shared trigger of a chat: the trigger trimmed and lowercased,
/// the reply trimmed.
pub fn add_common_trigger(store: &mut Store, chat_id: String, trigger: String, reply: String) -> (r:
    Result<(), StoreError>)
    ensures
        applied(
            old(store)@,
            final(store)@,
            r,
            chat_id@,
            with_common_reply(
                repaired(chat_or_new(old(store)@->0, chat_id@)),
                stored_trigger(trigger@),
                stored_reply(reply@),
            ),
        ),
{
    match &mut store.manager {
        Some(manager) => {
            let key = to_lowercase(trim(trigger.as_str()));
            let value = trim(reply.as_str()).to_owned();
            manager.add_common_entry(chat_id, key, value);
            Ok(())
        },
        None => Err(StoreError::Uninitialized),
    }
}

/// Deletes a shared trigger of a chat. The trigger is looked for as it was
/// stored, trimmed and lowercased. Deleting one that is not there succeeds
/// and deletes nothing.
pub fn delete_common_trigger(store: &mut Store, chat_id: String, trigger: String) -> (r: Result<
    (),
    StoreError,
>)
    ensures
        applied(
            old(store)@,
            final(store)@,
            r,
            chat_id@,
            without_common_reply(
                chat_or_new(old(store)@->0, chat_id@),
                stored_trigger(trigger@),
            ),
        ),
{
    match &mut store.manager {
        Some(manager) => {
            let key = to_lowercase(trim(trigger.as_str()));
            manager.delete_common_entry(chat_id, key);
            Ok(())
        },
        None => Err(StoreError::Uninitialized),
    }
}

/// Deletes a trigger of a user. The trigger is looked for as it was stored,
/// trimmed and lowercased. Deleting one that is not there succeeds and
/// deletes nothing.
pub fn delete_user_trigger(store: &mut Store, chat_id: String, username: String, trigger: String) -> (r:
    Result<(), StoreError>)
    ensures
        applied(
            old(store)@,
            final(store)@,
            r,
            chat_id@,
            without_user_reply(
                repaired(chat_or_new(old(store)@->0, chat_id@)),
                username@,
                stored_trigger(trigger@),
            ),
        ),
{
    match &mut store.manager {
        Some(manager) => {
            let key = to_lowercase(trim(trigger.as_str()));
            manager.delete_user_entry(chat_id, username, key);
            Ok(())
        },
        None => Err(StoreError::Uninitialized),
    }
}

/// Sets the reply cadence of a chat.
pub fn update_reply_frequency(store: &mut Store, chat_id: String, reply_frq: u32) -> (r: Result<
    (),
    StoreError,
>)
    ensures
        applied(
            old(store)@,
            final(store)@,
            r,
            chat_id@,
            (ChatModel { reply_frequency: reply_frq, ..chat_or_new(old(store)@->0, chat_id@) }),
        ),
{
    match &mut store.manager {
        Some(manager) => {
            manager.update_reply_freq(chat_id, reply_frq);
            Ok(())
        },
        None => Err(StoreError::Uninitialized),
    }
}

/// Sets the roast level of a chat.
pub fn update_roast_level(store: &mut Store, chat_id: String, roast_level: u8) -> (r: Result<
    (),
    StoreError,
>)
    ensures
        applied(
            old(store)@,
            final(store)@,
            r,
            chat_id@,
            (ChatModel { roast_level: roast_level, ..chat_or_new(old(store)@->0, chat_id@) }),
        ),
{
    match &mut store.manager {
        Some(manager) => {
            manager.update_roast_level(chat_id, roast_level);
            Ok(())
        },
        None => Err(StoreError::Uninitialized),
    }
}

/// Brings a chat up to date with its administrators and reports the number
/// of users the chat then knows.
pub fn sync_administrators(
    store: &mut Store,
    chat_id: String,
    title: String,
    admins: Vec<(String, String)>,
) -> (r: Result<usize, StoreError>)
    ensures
        match old(store)@ {
            Some(chats) => {
                let chat = synced(
                    value_or(chats, chat_id@, new_chat(title@)),
                    title@,
                    admin_pairs(admins@),
                );
                &&& final(store)@ == Some(upsert(chats, chat_id@, chat))
                &&& dictionary_wf(chats) ==> dictionary_wf(upsert(chats, chat_id@, chat))
                &&& r is Ok
                &&& r->Ok_0 == chat.users.len()
            },
            None => r == Err::<usize, StoreError>(StoreError::Uninitialized) && final(store)@ is None,
        },
{
    match &mut store.manager {
        Some(manager) => {
            let count = manager.sync_admins(chat_id, title, admins);
            Ok(count)
        },
        None => Err(StoreError::Uninitialized),
    }
}

/// The reply the store has for a message: none where no trigger fires, and
/// none where the store was never loaded.
pub fn get_dictionary_response(store: &Store, chat_id: String, username: String, key: String) -> (r:
    Option<String>)
    ensures
        match r {
            Some(reply) => store@ is Some && response_of(store@->0, chat_id@, username@, key@)
                == Some(reply@),
            None => store@ is None || response_of(store@->0, chat_id@, username@, key@) is None,
        },
{
    match &store.manager {
        Some(manager) => match manager.get_response(chat_id, username, key) {
            Some(reply) => Some(reply.clone()),
            None => None,
        },
        None => None,
    }
}

} // verus!
