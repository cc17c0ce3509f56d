//! The invariant of the data: within a dictionary no chat identifier, within
//! a chat no username, and within a table no trigger occurs twice. The empty
//! dictionary has it and every operation keeps it.

use vstd::prelude::*;
use crate::chat::{
    gate_passed, new_chat, new_user, repaired, synced, with_admins, with_common_reply,
    with_user_reply, without_common_reply, without_user_reply, ChatModel, UserModel,
};
use crate::keyed::{
    distinct_keys, has_key, lemma_has_key_index, lemma_upsert_distinct, lemma_without_distinct,
    rebuilt, upsert, value_of, value_or, without,
};

verus! {

/// No trigger of the user occurs twice.
pub open spec fn user_wf(user: UserModel) -> bool {
    distinct_keys(user.replies)
}

/// No username occurs twice, and every user is well formed.
pub open spec fn users_wf(users: Seq<(Seq<char>, UserModel)>) -> bool {
    &&& distinct_keys(users)
    &&& forall|i: int| 0 <= i < users.len() ==> user_wf((#[trigger] users[i]).1)
}

/// No username and no shared trigger of the chat occurs twice, and every
/// user is well formed.
pub open spec fn chat_wf(chat: ChatModel) -> bool {
    &&& users_wf(chat.users)
    &&& distinct_keys(chat.common_replies)
}

/// No chat identifier occurs twice, and every chat is well formed.
pub open spec fn dictionary_wf(chats: Seq<(Seq<char>, ChatModel)>) -> bool {
    &&& distinct_keys(chats)
    &&& forall|i: int| 0 <= i < chats.len() ==> chat_wf((#[trigger] chats[i]).1)
}

/// Every entry of a list after storing under a key is the stored one or was
/// in the list before.
pub proof fn lemma_upsert_entries<T>(s: Seq<(Seq<char>, T)>, key: Seq<char>, value: T)
    ensures
        forall|i: int|
            0 <= i < upsert(s, key, value).len() ==> (#[trigger] upsert(s, key, value)[i]) == (
                key,
                value,
            ) || s.contains(upsert(s, key, value)[i]),
{
    let t = upsert(s, key, value);
    if has_key(s, key) {
        lemma_has_key_index(s, key);
    }
    assert forall|i: int| 0 <= i < t.len() implies (#[trigger] t[i]) == (key, value) || s.contains(
        t[i],
    ) by {
        if t[i] != (key, value) {
            assert(t[i] == s[i]);
        }
    }
}

/// Every entry of a list that is built up from pairs is one of the pairs.
pub proof fn lemma_rebuilt_entries<T>(pairs: Seq<(Seq<char>, T)>)
    ensures
        forall|i: int| 0 <= i < rebuilt(pairs).len() ==> pairs.contains(#[trigger] rebuilt(pairs)[i]),
    decreases pairs.len(),
{
    if pairs.len() > 0 {
        let front = pairs.drop_last();
        let last = pairs.last();
        lemma_rebuilt_entries(front);
        lemma_upsert_entries(rebuilt(front), last.0, last.1);
        let t = rebuilt(pairs);
        assert forall|i: int| 0 <= i < t.len() implies pairs.contains(#[trigger] t[i]) by {
            if t[i] == (last.0, last.1) {
                assert(pairs[pairs.len() - 1] == t[i]);
            } else {
                let j = choose|j: int| 0 <= j < rebuilt(front).len() && rebuilt(front)[j] == t[i];
                let k = choose|k: int| 0 <= k < front.len() && front[k] == rebuilt(front)[j];
                assert(pairs[k] == t[i]);
            }
        }
    }
}

/// The user found under a name, or a new user, is well formed.
pub proof fn lemma_user_or_new_wf(
    users: Seq<(Seq<char>, UserModel)>,
    username: Seq<char>,
    fullname: Seq<char>,
)
    requires
        users_wf(users),
    ensures
        user_wf(value_or(users, username, new_user(fullname))),
{
    if has_key(users, username) {
        lemma_has_key_index(users, username);
    }
}

/// Storing a well-formed user keeps the users well formed.
pub proof fn lemma_users_upsert_wf(
    users: Seq<(Seq<char>, UserModel)>,
    username: Seq<char>,
    user: UserModel,
)
    requires
        users_wf(users),
        user_wf(user),
    ensures
        users_wf(upsert(users, username, user)),
{
    lemma_upsert_distinct(users, username, user);
    lemma_upsert_entries(users, username, user);
    let t = upsert(users, username, user);
    assert forall|i: int| 0 <= i < t.len() implies user_wf((#[trigger] t[i]).1) by {
        if t[i] != (username, user) {
            let j = choose|j: int| 0 <= j < users.len() && users[j] == t[i];
            assert(user_wf(users[j].1));
        }
    }
}

/// Storing a trigger of a user keeps a chat well formed.
pub proof fn lemma_with_user_reply_wf(
    chat: ChatModel,
    username: Seq<char>,
    trigger: Seq<char>,
    reply: Seq<char>,
)
    requires
        chat_wf(chat),
    ensures
        chat_wf(with_user_reply(chat, username, trigger, reply)),
{
    let user = value_or(chat.users, username, new_user(crate::chat::new_user_name()));
    lemma_user_or_new_wf(chat.users, username, crate::chat::new_user_name());
    lemma_upsert_distinct(user.replies, trigger, reply);
    lemma_users_upsert_wf(
        chat.users,
        username,
        UserModel { replies: upsert(user.replies, trigger, reply), ..user },
    );
}

/// Deleting a trigger of a user keeps a chat well formed.
pub proof fn lemma_without_user_reply_wf(chat: ChatModel, username: Seq<char>, trigger: Seq<char>)
    requires
        chat_wf(chat),
    ensures
        chat_wf(without_user_reply(chat, username, trigger)),
{
    let user = value_or(chat.users, username, new_user(crate::chat::new_user_name()));
    lemma_user_or_new_wf(chat.users, username, crate::chat::new_user_name());
    lemma_without_distinct(user.replies, trigger);
    lemma_users_upsert_wf(
        chat.users,
        username,
        UserModel { replies: without(user.replies, trigger), ..user },
    );
}

/// Storing and deleting a shared trigger keep a chat well formed.
pub proof fn lemma_common_reply_wf(chat: ChatModel, trigger: Seq<char>, reply: Seq<char>)
    requires
        chat_wf(chat),
    ensures
        chat_wf(with_common_reply(chat, trigger, reply)),
        chat_wf(without_common_reply(chat, trigger)),
{
    lemma_upsert_distinct(chat.common_replies, trigger, reply);
    lemma_without_distinct(chat.common_replies, trigger);
}

/// An administrator sync keeps the users well formed.
pub proof fn lemma_with_admins_wf(
    users: Seq<(Seq<char>, UserModel)>,
    admins: Seq<(Seq<char>, Seq<char>)>,
)
    requires
        users_wf(users),
    ensures
        users_wf(with_admins(users, admins)),
    decreases admins.len(),
{
    if admins.len() > 0 {
        let before = with_admins(users, admins.drop_last());
        lemma_with_admins_wf(users, admins.drop_last());
        let (username, fullname) = admins.last();
        if username.len() != 0 {
            lemma_user_or_new_wf(before, username, fullname);
            let replies = value_or(before, username, new_user(fullname)).replies;
            lemma_users_upsert_wf(before, username, UserModel { fullname, replies });
        }
    }
}

/// An administrator sync keeps a chat well formed.
pub proof fn lemma_synced_wf(chat: ChatModel, title: Seq<char>, admins: Seq<(Seq<char>, Seq<char>)>)
    requires
        chat_wf(chat),
    ensures
        chat_wf(synced(chat, title, admins)),
{
    lemma_with_admins_wf(chat.users, admins);
}

/// The chat found under an identifier, or a new chat, is well formed.
pub proof fn lemma_chat_or_new_wf(
    chats: Seq<(Seq<char>, ChatModel)>,
    chat_id: Seq<char>,
    name: Seq<char>,
)
    requires
        dictionary_wf(chats),
    ensures
        chat_wf(value_or(chats, chat_id, new_chat(name))),
        chat_wf(repaired(value_or(chats, chat_id, new_chat(name)))),
        chat_wf(gate_passed(value_or(chats, chat_id, new_chat(name)))),
{
    if has_key(chats, chat_id) {
        lemma_has_key_index(chats, chat_id);
        assert(chat_wf(value_of(chats, chat_id)));
    }
}

/// Storing a well-formed chat keeps the dictionary well formed.
pub proof fn lemma_dictionary_upsert_wf(
    chats: Seq<(Seq<char>, ChatModel)>,
    chat_id: Seq<char>,
    chat: ChatModel,
)
    requires
        dictionary_wf(chats),
        chat_wf(chat),
    ensures
        dictionary_wf(upsert(chats, chat_id, chat)),
{
    lemma_upsert_distinct(chats, chat_id, chat);
    lemma_upsert_entries(chats, chat_id, chat);
    let t = upsert(chats, chat_id, chat);
    assert forall|i: int| 0 <= i < t.len() implies chat_wf((#[trigger] t[i]).1) by {
        if t[i] != (chat_id, chat) {
            let j = choose|j: int| 0 <= j < chats.len() && chats[j] == t[i];
            assert(chat_wf(chats[j].1));
        }
    }
}

} // verus!
