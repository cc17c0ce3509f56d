//! The dictionary of all chats, and the operations that change one chat of
//! it. A chat that an operation names and the dictionary does not know is
//! created with the creation defaults first.

use vstd::prelude::*;
use crate::chat::{
    admin_pairs, gate_opens, gate_passed, new_chat, new_chat_name, repaired, reply_for, synced,
    with_common_reply, with_user_reply, without_common_reply, without_user_reply, Chat, ChatModel,
};
use crate::keyed::{has_key, upsert, value_of, value_or, KeyedList};
use crate::wellformed::{
    dictionary_wf, lemma_chat_or_new_wf, lemma_common_reply_wf, lemma_dictionary_upsert_wf,
    lemma_synced_wf, lemma_with_user_reply_wf, lemma_without_user_reply_wf,
};

verus! {

/// The chat stored under `chat_id`, or a new chat where there is none.
pub open spec fn chat_or_new(chats: Seq<(Seq<char>, ChatModel)>, chat_id: Seq<char>) -> ChatModel {
    value_or(chats, chat_id, new_chat(new_chat_name()))
}

/// The reply the dictionary has for a message of a user in a chat: none
/// where the chat is unknown.
pub open spec fn response_of(
    chats: Seq<(Seq<char>, ChatModel)>,
    chat_id: Seq<char>,
    username: Seq<char>,
    message: Seq<char>,
) -> Option<Seq<char>> {
    if has_key(chats, chat_id) {
        reply_for(value_of(chats, chat_id), username, message)
    } else {
        None
    }
}

/// All chats, keyed by chat identifier.
#[derive(Clone, Debug)]
pub struct DictionaryManager {
    pub chats: KeyedList<Chat>,
}

impl View for DictionaryManager {
    type V = Seq<(Seq<char>, ChatModel)>;

    open spec fn view(&self) -> Seq<(Seq<char>, ChatModel)> {
        self.chats@
    }
}

impl Default for DictionaryManager {
    fn default() -> (r: DictionaryManager)
        ensures
            r@ == Seq::<(Seq<char>, ChatModel)>::empty(),
            dictionary_wf(r@),
    {
        DictionaryManager { chats: KeyedList::new() }
    }
}

impl DictionaryManager {
    /// The dictionary without any chat.
    pub fn new() -> (r: DictionaryManager)
        ensures
            r@ == Seq::<(Seq<char>, ChatModel)>::empty(),
            dictionary_wf(r@),
    {
        DictionaryManager { chats: KeyedList::new() }
    }

    /// The chat stored under `chat_id`, created first where it is missing.
    fn chat_entry(&mut self, chat_id: String) -> (chat: &mut Chat)
        ensures
            chat@ == chat_or_new(old(self)@, chat_id@),
            final(self)@ == upsert(old(self)@, chat_id@, final(chat)@),
    {
        self.chats.entry(chat_id, Chat::new("New Chat".to_owned()))
    }

    /// The reply gate of one chat: counts one more matched message and says
    /// whether this one is answered. The counter must have room for it.
    pub fn should_reply_to_message(&mut self, chat_id: &String) -> (r: bool)
        requires
            chat_or_new(old(self)@, chat_id@).message_counter < u32::MAX,
        ensures
            r == gate_opens(chat_or_new(old(self)@, chat_id@)),
            final(self)@ == upsert(
                old(self)@,
                chat_id@,
                gate_passed(chat_or_new(old(self)@, chat_id@)),
            ),
            dictionary_wf(old(self)@) ==> dictionary_wf(final(self)@),
    {
        proof {
            if dictionary_wf(old(self)@) {
                lemma_chat_or_new_wf(old(self)@, chat_id@, new_chat_name());
                lemma_dictionary_upsert_wf(
                    old(self)@,
                    chat_id@,
                    gate_passed(chat_or_new(old(self)@, chat_id@)),
                );
            }
        }
        let chat = self.chat_entry(chat_id.clone());
        chat.should_reply()
    }

    /// Stores `trigger -> reply` for a user of a chat.
    pub fn add_user_entry(&mut self, chat_id: String, username: String, trigger: String, reply: String)
        ensures
            final(self)@ == upsert(
                old(self)@,
                chat_id@,
                with_user_reply(
                    repaired(chat_or_new(old(self)@, chat_id@)),
                    username@,
                    trigger@,
                    reply@,
                ),
            ),
            dictionary_wf(old(self)@) ==> dictionary_wf(final(self)@),
    {
        proof {
            if dictionary_wf(old(self)@) {
                lemma_chat_or_new_wf(old(self)@, chat_id@, new_chat_name());
                lemma_with_user_reply_wf(repaired(chat_or_new(old(self)@, chat_id@)), username@, trigger@, reply@);
                lemma_dictionary_upsert_wf(
                    old(self)@,
                    chat_id@,
                    with_user_reply(repaired(chat_or_new(old(self)@, chat_id@)), username@, trigger@, reply@),
                );
            }
        }
        let chat = self.chat_entry(chat_id);
        chat.repair();
        chat.add_user_reply(username, trigger, reply);
    }

    /// Deletes a trigger of a user of a chat; deleting one that is not there
    /// deletes nothing.
    pub fn delete_user_entry(&mut self, chat_id: String, username: String, trigger: String)
        ensures
            final(self)@ == upsert(
                old(self)@,
                chat_id@,
                without_user_reply(repaired(chat_or_new(old(self)@, chat_id@)), username@, trigger@),
            ),
            dictionary_wf(old(self)@) ==> dictionary_wf(final(self)@),
    {
        proof {
            if dictionary_wf(old(self)@) {
                lemma_chat_or_new_wf(old(self)@, chat_id@, new_chat_name());
                lemma_without_user_reply_wf(repaired(chat_or_new(old(self)@, chat_id@)), username@, trigger@);
                lemma_dictionary_upsert_wf(
                    old(self)@,
                    chat_id@,
                    without_user_reply(repaired(chat_or_new(old(self)@, chat_id@)), username@, trigger@),
                );
            }
        }
        let chat = self.chat_entry(chat_id);
        chat.repair();
        chat.delete_user_reply(username, &trigger);
    }

    /// Stores `trigger -> reply` among the shared triggers of a chat.
    pub fn add_common_entry(&mut self, chat_id: String, trigger: String, reply: String)
        ensures
            final(self)@ == upsert(
                old(self)@,
                chat_id@,
                with_common_reply(repaired(chat_or_new(old(self)@, chat_id@)), trigger@, reply@),
            ),
            dictionary_wf(old(self)@) ==> dictionary_wf(final(self)@),
    {
        proof {
            if dictionary_wf(old(self)@) {
                lemma_chat_or_new_wf(old(self)@, chat_id@, new_chat_name());
                lemma_common_reply_wf(repaired(chat_or_new(old(self)@, chat_id@)), trigger@, reply@);
                lemma_dictionary_upsert_wf(
                    old(self)@,
                    chat_id@,
                    with_common_reply(repaired(chat_or_new(old(self)@, chat_id@)), trigger@, reply@),
                );
            }
        }
        let chat = self.chat_entry(chat_id);
        chat.repair();
        chat.add_common_reply(trigger, reply);
    }

    /// Deletes a shared trigger of a chat; deleting one that is not there
    /// deletes nothing.
    pub fn delete_common_entry(&mut self, chat_id: String, trigger: String)
        ensures
            final(self)@ == upsert(
                old(self)@,
                chat_id@,
                without_common_reply(chat_or_new(old(self)@, chat_id@), trigger@),
            ),
            dictionary_wf(old(self)@) ==> dictionary_wf(final(self)@),
    {
        proof {
            if dictionary_wf(old(self)@) {
                lemma_chat_or_new_wf(old(self)@, chat_id@, new_chat_name());
                lemma_common_reply_wf(chat_or_new(old(self)@, chat_id@), trigger@, trigger@);
                lemma_dictionary_upsert_wf(
                    old(self)@,
                    chat_id@,
                    without_common_reply(chat_or_new(old(self)@, chat_id@), trigger@),
                );
            }
        }
        let chat = self.chat_entry(chat_id);
        chat.delete_common_reply(&trigger);
    }

    /// Sets the reply cadence of a chat. A zero is stored as it is and counts
    /// as the default from the next gate evaluation on.
    pub fn update_reply_freq(&mut self, chat_id: String, reply_frq: u32)
        ensures
            final(self)@ == upsert(
                old(self)@,
                chat_id@,
                (ChatModel { reply_frequency: reply_frq, ..chat_or_new(old(self)@, chat_id@) }),
            ),
            dictionary_wf(old(self)@) ==> dictionary_wf(final(self)@),
    {
        proof {
            if dictionary_wf(old(self)@) {
                lemma_chat_or_new_wf(old(self)@, chat_id@, new_chat_name());
                lemma_dictionary_upsert_wf(
                    old(self)@,
                    chat_id@,
                    (ChatModel { reply_frequency: reply_frq, ..chat_or_new(old(self)@, chat_id@) }),
                );
            }
        }
        let chat = self.chat_entry(chat_id);
        chat.reply_frequency = reply_frq;
    }

    /// Sets the roast level of a chat.
    pub fn update_roast_level(&mut self, chat_id: String, roast_level: u8)
        ensures
            final(self)@ == upsert(
                old(self)@,
                chat_id@,
                (ChatModel { roast_level: roast_level, ..chat_or_new(old(self)@, chat_id@) }),
            ),
            dictionary_wf(old(self)@) ==> dictionary_wf(final(self)@),
    {
        proof {
            if dictionary_wf(old(self)@) {
                lemma_chat_or_new_wf(old(self)@, chat_id@, new_chat_name());
                lemma_dictionary_upsert_wf(
                    old(self)@,
                    chat_id@,
                    (ChatModel { roast_level: roast_level, ..chat_or_new(old(self)@, chat_id@) }),
                );
            }
        }
        let chat = self.chat_entry(chat_id);
        chat.roast_level = roast_level;
    }

    /// The reply the dictionary has for the message `key` of `username` in
    /// the chat `chat_id`: the first of the user's own triggers that fires,
    /// else the first shared one, else none.
    pub fn get_response(&self, chat_id: String, username: String, key: String) -> (r: Option<&String>)
        ensures
            match r {
                Some(reply) => response_of(self@, chat_id@, username@, key@) == Some(reply@),
                None => response_of(self@, chat_id@, username@, key@) is None,
            },
    {
        match self.chats.get(&chat_id) {
            Some(chat) => chat.find_reply(&username, key.as_str()),
            None => None,
        }
    }

    /// The roast level of a chat that the dictionary knows.
    pub fn get_roast_level(&self, chat_id: String) -> (r: u8)
        requires
            has_key(self@, chat_id@),
        ensures
            r == value_of(self@, chat_id@).roast_level,
    {
        match self.chats.get(&chat_id) {
            Some(chat) => chat.roast_level,
            None => 0,
        }
    }

    /// Brings a chat up to date with its administrators, given as pairs of
    /// username and full name, and returns the number of users the chat then
    /// knows. A chat that is created here starts under the title.
    pub fn sync_admins(&mut self, chat_id: String, title: String, admins: Vec<(String, String)>) -> (count: usize)
        ensures
            final(self)@ == upsert(
                old(self)@,
                chat_id@,
                synced(value_or(old(self)@, chat_id@, new_chat(title@)), title@, admin_pairs(admins@)),
            ),
            count == synced(
                value_or(old(self)@, chat_id@, new_chat(title@)),
                title@,
                admin_pairs(admins@),
            ).users.len(),
            dictionary_wf(old(self)@) ==> dictionary_wf(final(self)@),
    {
        proof {
            if dictionary_wf(old(self)@) {
                lemma_chat_or_new_wf(old(self)@, chat_id@, title@);
                lemma_synced_wf(
                    value_or(old(self)@, chat_id@, new_chat(title@)),
                    title@,
                    admin_pairs(admins@),
                );
                lemma_dictionary_upsert_wf(
                    old(self)@,
                    chat_id@,
                    synced(value_or(old(self)@, chat_id@, new_chat(title@)), title@, admin_pairs(admins@)),
                );
            }
        }
        let chat = self.chats.entry(chat_id, Chat::new(title.clone()));
        chat.sync_admins(title, admins)
    }
}

} // verus!
