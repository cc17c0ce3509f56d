//! The snapshot as a document: how a dictionary is laid out as a tree of
//! JSON values, and how such a tree is read back.
//!
//! The layout is one object keyed by chat identifier. A chat is an object
//! with `message_counter`, `reply_frequency` (3 where absent), `roast_level`
//! (3 where absent), `name`, `users` and `common_replies`; a user is an
//! object with `fullname` and `replies`; a table of triggers is an object
//! of texts. Members that the layout does not name are passed over.

use vstd::prelude::*;
use crate::chat::{Chat, ChatModel, User, UserModel, DEFAULT_REPLY_FREQUENCY, DEFAULT_ROAST_LEVEL};
use crate::keyed::{distinct_keys, lemma_rebuilt_distinct, lemma_rebuilt_same, rebuilt, KeyedList};
use crate::manager::DictionaryManager;
use crate::wellformed::{chat_wf, dictionary_wf, lemma_rebuilt_entries, user_wf, users_wf};

verus! {

/// A JSON value.
#[derive(Debug)]
pub enum Json {
    Null,
    Bool(bool),
    /// A number that is a whole number from 0 to `u64::MAX`.
    Number(u64),
    /// Any other number: negative, fractional or larger.
    OtherNumber,
    Text(String),
    Array(Vec<Json>),
    /// An object: its members in the order of the document.
    Object(Vec<(String, Json)>),
}

/// The value of the first member called `name`.
pub open spec fn member(fields: Seq<(String, Json)>, name: Seq<char>) -> Option<Json>
    decreases fields.len(),
{
    if fields.len() == 0 {
        None
    } else if fields[0].0@ == name {
        Some(fields[0].1)
    } else {
        member(fields.drop_first(), name)
    }
}

/// What a reference to a value refers to.
pub open spec fn pointee(found: Option<&Json>) -> Option<Json> {
    match found {
        Some(value) => Some(*value),
        None => None,
    }
}

/// The text that a member holds: none where the member is missing or holds
/// something else.
pub open spec fn text_of(found: Option<Json>) -> Option<Seq<char>> {
    match found {
        Some(Json::Text(text)) => Some(text@),
        _ => None,
    }
}

/// The number that a member holds: `fallback` where the member is missing,
/// none where it holds something else than a whole number up to `max`.
pub open spec fn number_of(found: Option<Json>, max: u64, fallback: Option<u64>) -> Option<u64> {
    match found {
        None => fallback,
        Some(Json::Number(n)) => if n <= max {
            Some(n)
        } else {
            None
        },
        Some(_) => None,
    }
}

/// The text of a value that is a text.
pub open spec fn text_value(value: Json) -> Seq<char> {
    match value {
        Json::Text(text) => text@,
        _ => Seq::empty(),
    }
}

/// The members of an object as triggers with their replies.
pub open spec fn table_pairs(fields: Seq<(String, Json)>) -> Seq<(Seq<char>, Seq<char>)> {
    fields.map_values(|f: (String, Json)| (f.0@, text_value(f.1)))
}

/// The table of triggers that a value holds: the value must be an object of
/// texts. Of two members with one name the later gives the reply.
pub open spec fn decoded_table(value: Json) -> Option<Seq<(Seq<char>, Seq<char>)>> {
    match value {
        Json::Object(fields) => if forall|i: int|
            0 <= i < fields@.len() ==> (#[trigger] fields@[i]).1 is Text {
            Some(rebuilt(table_pairs(fields@)))
        } else {
            None
        },
        _ => None,
    }
}

/// The table that a member holds.
pub open spec fn table_in(found: Option<Json>) -> Option<Seq<(Seq<char>, Seq<char>)>> {
    match found {
        Some(value) => decoded_table(value),
        None => None,
    }
}

/// The user that a value holds: an object with the text `fullname` and the
/// table `replies`.
pub open spec fn decoded_user(value: Json) -> Option<UserModel> {
    match value {
        Json::Object(fields) => match (
            text_of(member(fields@, "fullname"@)),
            table_in(member(fields@, "replies"@)),
        ) {
            (Some(fullname), Some(replies)) => Some(UserModel { fullname, replies }),
            _ => None,
        },
        _ => None,
    }
}

/// The members of an object as usernames with their users.
pub open spec fn user_pairs(fields: Seq<(String, Json)>) -> Seq<(Seq<char>, UserModel)> {
    fields.map_values(|f: (String, Json)| (f.0@, decoded_user(f.1)->0))
}

/// The users that a value holds: the value must be an object of users.
pub open spec fn decoded_users(value: Json) -> Option<Seq<(Seq<char>, UserModel)>> {
    match value {
        Json::Object(fields) => if forall|i: int|
            0 <= i < fields@.len() ==> decoded_user((#[trigger] fields@[i]).1) is Some {
            Some(rebuilt(user_pairs(fields@)))
        } else {
            None
        },
        _ => None,
    }
}

/// The users that a member holds.
pub open spec fn users_in(found: Option<Json>) -> Option<Seq<(Seq<char>, UserModel)>> {
    match found {
        Some(value) => decoded_users(value),
        None => None,
    }
}

/// The chat that a value holds.
pub open spec fn decoded_chat(value: Json) -> Option<ChatModel> {
    match value {
        Json::Object(fields) => match (
            number_of(member(fields@, "message_counter"@), 0xffff_ffff, None),
            number_of(
                member(fields@, "reply_frequency"@),
                0xffff_ffff,
                Some(DEFAULT_REPLY_FREQUENCY as u64),
            ),
            number_of(member(fields@, "roast_level"@), 0xff, Some(DEFAULT_ROAST_LEVEL as u64)),
            text_of(member(fields@, "name"@)),
            users_in(member(fields@, "users"@)),
            table_in(member(fields@, "common_replies"@)),
        ) {
            (
                Some(message_counter),
                Some(reply_frequency),
                Some(roast_level),
                Some(name),
                Some(users),
                Some(common_replies),
            ) => Some(
                ChatModel {
                    message_counter: message_counter as u32,
                    reply_frequency: reply_frequency as u32,
                    roast_level: roast_level as u8,
                    name,
                    users,
                    common_replies,
                },
            ),
            _ => None,
        },
        _ => None,
    }
}

/// The members of an object as chat identifiers with their chats.
pub open spec fn chat_pairs(fields: Seq<(String, Json)>) -> Seq<(Seq<char>, ChatModel)> {
    fields.map_values(|f: (String, Json)| (f.0@, decoded_chat(f.1)->0))
}

/// The dictionary that a document holds: the document must be an object of
/// chats.
pub open spec fn decoded(document: Json) -> Option<Seq<(Seq<char>, ChatModel)>> {
    match document {
        Json::Object(fields) => if forall|i: int|
            0 <= i < fields@.len() ==> decoded_chat((#[trigger] fields@[i]).1) is Some {
            Some(rebuilt(chat_pairs(fields@)))
        } else {
            None
        },
        _ => None,
    }
}

/// A table that was read has no trigger twice.
pub proof fn lemma_decoded_table_wf(value: Json)
    requires
        decoded_table(value) is Some,
    ensures
        distinct_keys(decoded_table(value)->0),
{
    match value {
        Json::Object(fields) => {
            lemma_rebuilt_distinct(table_pairs(fields@));
        },
        _ => {},
    }
}

/// A user that was read is well formed.
pub proof fn lemma_decoded_user_wf(value: Json)
    requires
        decoded_user(value) is Some,
    ensures
        user_wf(decoded_user(value)->0),
{
    match value {
        Json::Object(fields) => {
            lemma_decoded_table_wf(member(fields@, "replies"@)->0);
        },
        _ => {},
    }
}

/// The users that were read are well formed.
pub proof fn lemma_decoded_users_wf(value: Json)
    requires
        decoded_users(value) is Some,
    ensures
        users_wf(decoded_users(value)->0),
{
    match value {
        Json::Object(fields) => {
            let pairs = user_pairs(fields@);
            let users = rebuilt(pairs);
            lemma_rebuilt_distinct(pairs);
            lemma_rebuilt_entries(pairs);
            assert forall|i: int| 0 <= i < users.len() implies user_wf((#[trigger] users[i]).1) by {
                let j = choose|j: int| 0 <= j < pairs.len() && pairs[j] == users[i];
                assert(decoded_user(fields@[j].1) is Some);
                lemma_decoded_user_wf(fields@[j].1);
            }
        },
        _ => {},
    }
}

/// A chat that was read is well formed.
pub proof fn lemma_decoded_chat_wf(value: Json)
    requires
        decoded_chat(value) is Some,
    ensures
        chat_wf(decoded_chat(value)->0),
{
    match value {
        Json::Object(fields) => {
            lemma_decoded_users_wf(member(fields@, "users"@)->0);
            lemma_decoded_table_wf(member(fields@, "common_replies"@)->0);
        },
        _ => {},
    }
}

/// A dictionary that was read is well formed.
pub proof fn lemma_decoded_wf(document: Json)
    requires
        decoded(document) is Some,
    ensures
        dictionary_wf(decoded(document)->0),
{
    match document {
        Json::Object(fields) => {
            let pairs = chat_pairs(fields@);
            let chats = rebuilt(pairs);
            lemma_rebuilt_distinct(pairs);
            lemma_rebuilt_entries(pairs);
            assert forall|i: int| 0 <= i < chats.len() implies chat_wf((#[trigger] chats[i]).1) by {
                let j = choose|j: int| 0 <= j < pairs.len() && pairs[j] == chats[i];
                assert(decoded_chat(fields@[j].1) is Some);
                lemma_decoded_chat_wf(fields@[j].1);
            }
        },
        _ => {},
    }
}

/// The member found at a position before which no member has its name is
/// the member of that name.
pub proof fn lemma_member_at(fields: Seq<(String, Json)>, name: Seq<char>, at: int)
    requires
        0 <= at < fields.len(),
        fields[at].0@ == name,
        forall|j: int| 0 <= j < at ==> (#[trigger] fields[j]).0@ != name,
    ensures
        member(fields, name) == Some(fields[at].1),
    decreases at,
{
    if at > 0 {
        let rest = fields.drop_first();
        assert(fields[0].0@ != name);
        assert forall|j: int| 0 <= j < at - 1 implies (#[trigger] rest[j]).0@ != name by {
            assert(rest[j] == fields[j + 1]);
        }
        assert(rest[at - 1] == fields[at]);
        lemma_member_at(rest, name, at - 1);
    }
}

/// Looks a member of an object up by its name.
pub fn find_member<'a>(fields: &'a Vec<(String, Json)>, name: &str) -> (r: Option<&'a Json>)
    ensures
        pointee(r) == member(fields@, name@),
{
    let wanted = name.to_owned();
    let n = fields.len();
    let mut i: usize = 0;
    assert(fields@.skip(0) =~= fields@);
    while i < n
        invariant
            n == fields@.len(),
            i <= n,
            wanted@ == name@,
            member(fields@, name@) == member(fields@.skip(i as int), name@),
        decreases n - i,
    {
        proof {
            assert(fields@.skip(i as int)[0] == fields@[i as int]);
            assert(fields@.skip(i as int).drop_first() =~= fields@.skip(i as int + 1));
        }
        if fields[i].0 == wanted {
            return Some(&fields[i].1);
        }
        i = i + 1;
    }
    None
}

/// The number that a member holds.
pub fn number_in(found: Option<&Json>, max: u64, fallback: Option<u64>) -> (r: Option<u64>)
    ensures
        r == number_of(pointee(found), max, fallback),
{
    match found {
        None => fallback,
        Some(Json::Number(n)) => if *n <= max {
            Some(*n)
        } else {
            None
        },
        Some(_) => None,
    }
}

/// The text that a member holds.
pub fn text_in(found: Option<&Json>) -> (r: Option<String>)
    ensures
        match r {
            Some(text) => text_of(pointee(found)) == Some(text@),
            None => text_of(pointee(found)) is None,
        },
{
    match found {
        Some(Json::Text(text)) => Some(text.clone()),
        _ => None,
    }
}

/// Reads a table of triggers.
pub fn decode_table(value: &Json) -> (r: Option<KeyedList<String>>)
    ensures
        match r {
            Some(table) => decoded_table(*value) == Some(table@),
            None => decoded_table(*value) is None,
        },
{
    let fields = match value {
        Json::Object(fields) => fields,
        _ => {
            return None;
        },
    };
    let ghost pairs = table_pairs(fields@);
    let mut table: KeyedList<String> = KeyedList::new();
    let n = fields.len();
    let mut i: usize = 0;
    assert(pairs.take(0) =~= Seq::empty());
    while i < n
        invariant
            n == fields@.len(),
            i <= n,
            *value == Json::Object(*fields),
            pairs == table_pairs(fields@),
            table@ == rebuilt(pairs.take(i as int)),
            forall|j: int| 0 <= j < i ==> (#[trigger] fields@[j]).1 is Text,
        decreases n - i,
    {
        proof {
            assert(pairs.take(i as int + 1).drop_last() =~= pairs.take(i as int));
            assert(pairs.take(i as int + 1).last() == pairs[i as int]);
        }
        match &fields[i].1 {
            Json::Text(reply) => {
                table.insert(fields[i].0.clone(), reply.clone());
            },
            _ => {
                assert(!(fields@[i as int].1 is Text));
                return None;
            },
        }
        i = i + 1;
    }
    assert(pairs.take(n as int) =~= pairs);
    Some(table)
}

/// Reads a user.
pub fn decode_user(value: &Json) -> (r: Option<User>)
    ensures
        match r {
            Some(user) => decoded_user(*value) == Some(user@),
            None => decoded_user(*value) is None,
        },
{
    let fields = match value {
        Json::Object(fields) => fields,
        _ => {
            return None;
        },
    };
    let fullname = match text_in(find_member(fields, "fullname")) {
        Some(text) => text,
        None => {
            return None;
        },
    };
    let replies = match find_member(fields, "replies") {
        Some(value) => match decode_table(value) {
            Some(table) => table,
            None => {
                return None;
            },
        },
        None => {
            return None;
        },
    };
    Some(User { fullname, replies })
}

/// Reads the users of a chat.
pub fn decode_users(value: &Json) -> (r: Option<KeyedList<User>>)
    ensures
        match r {
            Some(users) => decoded_users(*value) == Some(users@),
            None => decoded_users(*value) is None,
        },
{
    let fields = match value {
        Json::Object(fields) => fields,
        _ => {
            return None;
        },
    };
    let ghost pairs = user_pairs(fields@);
    let mut users: KeyedList<User> = KeyedList::new();
    let n = fields.len();
    let mut i: usize = 0;
    assert(pairs.take(0) =~= Seq::empty());
    while i < n
        invariant
            n == fields@.len(),
            i <= n,
            *value == Json::Object(*fields),
            pairs == user_pairs(fields@),
            users@ == rebuilt(pairs.take(i as int)),
            forall|j: int| 0 <= j < i ==> decoded_user((#[trigger] fields@[j]).1) is Some,
        decreases n - i,
    {
        proof {
            assert(pairs.take(i as int + 1).drop_last() =~= pairs.take(i as int));
            assert(pairs.take(i as int + 1).last() == pairs[i as int]);
        }
        match decode_user(&fields[i].1) {
            Some(user) => {
                users.insert(fields[i].0.clone(), user);
            },
            None => {
                assert(decoded_user(fields@[i as int].1) is None);
                return None;
            },
        }
        i = i + 1;
    }
    assert(pairs.take(n as int) =~= pairs);
    Some(users)
}

/// Reads a chat.
pub fn decode_chat(value: &Json) -> (r: Option<Chat>)
    ensures
        match r {
            Some(chat) => decoded_chat(*value) == Some(chat@),
            None => decoded_chat(*value) is None,
        },
{
    let fields = match value {
        Json::Object(fields) => fields,
        _ => {
            return None;
        },
    };
    let message_counter = match number_in(find_member(fields, "message_counter"), 0xffff_ffff, None) {
        Some(n) => n as u32,
        None => {
            return None;
        },
    };
    let reply_frequency = match number_in(
        find_member(fields, "reply_frequency"),
        0xffff_ffff,
        Some(DEFAULT_REPLY_FREQUENCY as u64),
    ) {
        Some(n) => n as u32,
        None => {
            return None;
        },
    };
    let roast_level = match number_in(
        find_member(fields, "roast_level"),
        0xff,
        Some(DEFAULT_ROAST_LEVEL as u64),
    ) {
        Some(n) => n as u8,
        None => {
            return None;
        },
    };
    let name = match text_in(find_member(fields, "name")) {
        Some(text) => text,
        None => {
            return None;
        },
    };
    let users = match find_member(fields, "users") {
        Some(value) => match decode_users(value) {
            Some(users) => users,
            None => {
                return None;
            },
        },
        None => {
            return None;
        },
    };
    let common_replies = match find_member(fields, "common_replies") {
        Some(value) => match decode_table(value) {
            Some(table) => table,
            None => {
                return None;
            },
        },
        None => {
            return None;
        },
    };
    Some(Chat { message_counter, reply_frequency, roast_level, name, users, common_replies })
}

/// Reads a whole dictionary. The result is none exactly where the document
/// does not have the layout of one; a dictionary that was read is well
/// formed.
pub fn decode(document: &Json) -> (r: Option<DictionaryManager>)
    ensures
        match r {
            Some(manager) => decoded(*document) == Some(manager@) && dictionary_wf(manager@),
            None => decoded(*document) is None,
        },
{
    let fields = match document {
        Json::Object(fields) => fields,
        _ => {
            return None;
        },
    };
    let ghost pairs = chat_pairs(fields@);
    let mut chats: KeyedList<Chat> = KeyedList::new();
    let n = fields.len();
    let mut i: usize = 0;
    assert(pairs.take(0) =~= Seq::empty());
    while i < n
        invariant
            n == fields@.len(),
            i <= n,
            *document == Json::Object(*fields),
            pairs == chat_pairs(fields@),
            chats@ == rebuilt(pairs.take(i as int)),
            forall|j: int| 0 <= j < i ==> decoded_chat((#[trigger] fields@[j]).1) is Some,
        decreases n - i,
    {
        proof {
            assert(pairs.take(i as int + 1).drop_last() =~= pairs.take(i as int));
            assert(pairs.take(i as int + 1).last() == pairs[i as int]);
        }
        match decode_chat(&fields[i].1) {
            Some(chat) => {
                chats.insert(fields[i].0.clone(), chat);
            },
            None => {
                assert(decoded_chat(fields@[i as int].1) is None);
                return None;
            },
        }
        i = i + 1;
    }
    assert(pairs.take(n as int) =~= pairs);
    proof {
        lemma_decoded_wf(*document);
    }
    Some(DictionaryManager { chats })
}

/// The names of the members of a chat and of a user are pairwise different.
proof fn lemma_names_differ()
    ensures
        "fullname"@ != "replies"@,
        "message_counter"@ != "reply_frequency"@,
        "message_counter"@ != "roast_level"@,
        "message_counter"@ != "name"@,
        "message_counter"@ != "users"@,
        "message_counter"@ != "common_replies"@,
        "reply_frequency"@ != "roast_level"@,
        "reply_frequency"@ != "name"@,
        "reply_frequency"@ != "users"@,
        "reply_frequency"@ != "common_replies"@,
        "roast_level"@ != "name"@,
        "roast_level"@ != "users"@,
        "roast_level"@ != "common_replies"@,
        "name"@ != "users"@,
        "name"@ != "common_replies"@,
        "users"@ != "common_replies"@,
{
    reveal_strlit("fullname");
    reveal_strlit("replies");
    reveal_strlit("message_counter");
    reveal_strlit("reply_frequency");
    reveal_strlit("roast_level");
    reveal_strlit("name");
    reveal_strlit("users");
    reveal_strlit("common_replies");
    assert("fullname"@.len() == 8 && "replies"@.len() == 7);
    assert("message_counter"@.len() == 15 && "reply_frequency"@.len() == 15);
    assert("message_counter"@[0] == 'm' && "reply_frequency"@[0] == 'r');
    assert("roast_level"@.len() == 11 && "name"@.len() == 4);
    assert("users"@.len() == 5 && "common_replies"@.len() == 14);
}

/// `value` is the layout of the table: an object with one text member for
/// each trigger, in table order.
pub open spec fn table_laid_out(value: Json, table: Seq<(Seq<char>, Seq<char>)>) -> bool {
    &&& value is Object
    &&& value->Object_0@.len() == table.len()
    &&& forall|i: int|
        0 <= i < table.len() ==> {
            &&& (#[trigger] value->Object_0@[i]).0@ == table[i].0
            &&& value->Object_0@[i].1 is Text
            &&& text_value(value->Object_0@[i].1) == table[i].1
        }
}

/// `value` is the layout of the user: an object with the members
/// `fullname` and `replies`, in this order.
pub open spec fn user_laid_out(value: Json, user: UserModel) -> bool {
    &&& value is Object
    &&& value->Object_0@.len() == 2
    &&& value->Object_0@[0].0@ == "fullname"@
    &&& value->Object_0@[0].1 is Text
    &&& text_value(value->Object_0@[0].1) == user.fullname
    &&& value->Object_0@[1].0@ == "replies"@
    &&& table_laid_out(value->Object_0@[1].1, user.replies)
}

/// `value` is the layout of the users: an object with one member for each
/// user, in their order.
pub open spec fn users_laid_out(value: Json, users: Seq<(Seq<char>, UserModel)>) -> bool {
    &&& value is Object
    &&& value->Object_0@.len() == users.len()
    &&& forall|i: int|
        0 <= i < users.len() ==> {
            &&& (#[trigger] value->Object_0@[i]).0@ == users[i].0
            &&& user_laid_out(value->Object_0@[i].1, users[i].1)
        }
}

/// `value` is the layout of the chat: an object with the six members of a
/// chat, in the order of the layout.
pub open spec fn chat_laid_out(value: Json, chat: ChatModel) -> bool {
    &&& value is Object
    &&& value->Object_0@.len() == 6
    &&& value->Object_0@[0].0@ == "message_counter"@
    &&& value->Object_0@[0].1 == Json::Number(chat.message_counter as u64)
    &&& value->Object_0@[1].0@ == "reply_frequency"@
    &&& value->Object_0@[1].1 == Json::Number(chat.reply_frequency as u64)
    &&& value->Object_0@[2].0@ == "roast_level"@
    &&& value->Object_0@[2].1 == Json::Number(chat.roast_level as u64)
    &&& value->Object_0@[3].0@ == "name"@
    &&& value->Object_0@[3].1 is Text
    &&& text_value(value->Object_0@[3].1) == chat.name
    &&& value->Object_0@[4].0@ == "users"@
    &&& users_laid_out(value->Object_0@[4].1, chat.users)
    &&& value->Object_0@[5].0@ == "common_replies"@
    &&& table_laid_out(value->Object_0@[5].1, chat.common_replies)
}

/// `document` is the layout of the dictionary: an object with one member
/// for each chat, in their order.
pub open spec fn laid_out(document: Json, chats: Seq<(Seq<char>, ChatModel)>) -> bool {
    &&& document is Object
    &&& document->Object_0@.len() == chats.len()
    &&& forall|i: int|
        0 <= i < chats.len() ==> {
            &&& (#[trigger] document->Object_0@[i]).0@ == chats[i].0
            &&& chat_laid_out(document->Object_0@[i].1, chats[i].1)
        }
}

/// The layout of a table reads back as the table.
pub proof fn law_table_round_trip(value: Json, table: Seq<(Seq<char>, Seq<char>)>)
    requires
        distinct_keys(table),
        table_laid_out(value, table),
    ensures
        decoded_table(value) == Some(table),
{
    let fields = value->Object_0@;
    assert(table_pairs(fields) =~= table);
    lemma_rebuilt_same(table);
}

/// The layout of a user reads back as the user.
pub proof fn law_user_round_trip(value: Json, user: UserModel)
    requires
        user_wf(user),
        user_laid_out(value, user),
    ensures
        decoded_user(value) == Some(user),
{
    let fields = value->Object_0@;
    lemma_names_differ();
    lemma_member_at(fields, "fullname"@, 0);
    lemma_member_at(fields, "replies"@, 1);
    law_table_round_trip(fields[1].1, user.replies);
}

/// The layout of the users of a chat reads back as the users.
pub proof fn law_users_round_trip(value: Json, users: Seq<(Seq<char>, UserModel)>)
    requires
        users_wf(users),
        users_laid_out(value, users),
    ensures
        decoded_users(value) == Some(users),
{
    let fields = value->Object_0@;
    assert forall|i: int| 0 <= i < fields.len() implies decoded_user((#[trigger] fields[i]).1)
        == Some(users[i].1) by {
        assert(user_wf(users[i].1));
        law_user_round_trip(fields[i].1, users[i].1);
    }
    assert(user_pairs(fields) =~= users);
    lemma_rebuilt_same(users);
}

/// The layout of a chat reads back as the chat.
pub proof fn law_chat_round_trip(value: Json, chat: ChatModel)
    requires
        chat_wf(chat),
        chat_laid_out(value, chat),
    ensures
        decoded_chat(value) == Some(chat),
{
    let fields = value->Object_0@;
    lemma_names_differ();
    lemma_member_at(fields, "message_counter"@, 0);
    lemma_member_at(fields, "reply_frequency"@, 1);
    lemma_member_at(fields, "roast_level"@, 2);
    lemma_member_at(fields, "name"@, 3);
    lemma_member_at(fields, "users"@, 4);
    lemma_member_at(fields, "common_replies"@, 5);
    law_users_round_trip(fields[4].1, chat.users);
    law_table_round_trip(fields[5].1, chat.common_replies);
}

/// The round trip: the layout of a dictionary reads back as the dictionary
/// itself, chat for chat, user for user, trigger for trigger, in the same
/// order.
pub proof fn law_round_trip(document: Json, chats: Seq<(Seq<char>, ChatModel)>)
    requires
        dictionary_wf(chats),
        laid_out(document, chats),
    ensures
        decoded(document) == Some(chats),
{
    let fields = document->Object_0@;
    assert forall|i: int| 0 <= i < fields.len() implies decoded_chat((#[trigger] fields[i]).1)
        == Some(chats[i].1) by {
        assert(chat_wf(chats[i].1));
        law_chat_round_trip(fields[i].1, chats[i].1);
    }
    assert(chat_pairs(fields) =~= chats);
    lemma_rebuilt_same(chats);
}

/// Lays a table of triggers out as an object of texts, in table order.
pub fn encode_table(table: &KeyedList<String>) -> (value: Json)
    ensures
        table_laid_out(value, table@),
        distinct_keys(table@) ==> decoded_table(value) == Some(table@),
{
    let mut fields: Vec<(String, Json)> = Vec::new();
    let n = table.len();
    let mut i: usize = 0;
    while i < n
        invariant
            n == table@.len(),
            i <= n,
            fields@.len() == i,
            forall|j: int|
                0 <= j < i ==> {
                    &&& (#[trigger] fields@[j]).0@ == table@[j].0
                    &&& fields@[j].1 is Text
                    &&& text_value(fields@[j].1) == table@[j].1
                },
        decreases n - i,
    {
        fields.push((table.key_at(i).clone(), Json::Text(table.value_at(i).clone())));
        i = i + 1;
    }
    let value = Json::Object(fields);
    proof {
        if distinct_keys(table@) {
            law_table_round_trip(value, table@);
        }
    }
    value
}

/// Lays a user out as an object.
pub fn encode_user(user: &User) -> (value: Json)
    ensures
        user_laid_out(value, user@),
        user_wf(user@) ==> decoded_user(value) == Some(user@),
{
    let mut fields: Vec<(String, Json)> = Vec::new();
    fields.push(("fullname".to_owned(), Json::Text(user.fullname.clone())));
    fields.push(("replies".to_owned(), encode_table(&user.replies)));
    let value = Json::Object(fields);
    proof {
        if user_wf(user@) {
            law_user_round_trip(value, user@);
        }
    }
    value
}

/// Lays the users of a chat out as an object, in their order.
pub fn encode_users(users: &KeyedList<User>) -> (value: Json)
    ensures
        users_laid_out(value, users@),
        users_wf(users@) ==> decoded_users(value) == Some(users@),
{
    let mut fields: Vec<(String, Json)> = Vec::new();
    let n = users.len();
    let mut i: usize = 0;
    while i < n
        invariant
            n == users@.len(),
            i <= n,
            fields@.len() == i,
            forall|j: int|
                0 <= j < i ==> {
                    &&& (#[trigger] fields@[j]).0@ == users@[j].0
                    &&& user_laid_out(fields@[j].1, users@[j].1)
                },
        decreases n - i,
    {
        fields.push((users.key_at(i).clone(), encode_user(users.value_at(i))));
        i = i + 1;
    }
    let value = Json::Object(fields);
    proof {
        if users_wf(users@) {
            law_users_round_trip(value, users@);
        }
    }
    value
}

/// Lays a chat out as an object with all six members.
pub fn encode_chat(chat: &Chat) -> (value: Json)
    ensures
        chat_laid_out(value, chat@),
        chat_wf(chat@) ==> decoded_chat(value) == Some(chat@),
{
    let mut fields: Vec<(String, Json)> = Vec::new();
    fields.push(("message_counter".to_owned(), Json::Number(chat.message_counter as u64)));
    fields.push(("reply_frequency".to_owned(), Json::Number(chat.reply_frequency as u64)));
    fields.push(("roast_level".to_owned(), Json::Number(chat.roast_level as u64)));
    fields.push(("name".to_owned(), Json::Text(chat.name.clone())));
    fields.push(("users".to_owned(), encode_users(&chat.users)));
    fields.push(("common_replies".to_owned(), encode_table(&chat.common_replies)));
    let value = Json::Object(fields);
    proof {
        if chat_wf(chat@) {
            law_chat_round_trip(value, chat@);
        }
    }
    value
}

/// Lays a whole dictionary out as a document. The document has the layout
/// of the dictionary, and so reads back as the dictionary itself.
pub fn encode(manager: &DictionaryManager) -> (document: Json)
    ensures
        laid_out(document, manager@),
        dictionary_wf(manager@) ==> decoded(document) == Some(manager@),
{
    let mut fields: Vec<(String, Json)> = Vec::new();
    let n = manager.chats.len();
    let mut i: usize = 0;
    while i < n
        invariant
            n == manager@.len(),
            i <= n,
            fields@.len() == i,
            forall|j: int|
                0 <= j < i ==> {
                    &&& (#[trigger] fields@[j]).0@ == manager@[j].0
                    &&& chat_laid_out(fields@[j].1, manager@[j].1)
                },
        decreases n - i,
    {
        fields.push((manager.chats.key_at(i).clone(), encode_chat(manager.chats.value_at(i))));
        i = i + 1;
    }
    let document = Json::Object(fields);
    proof {
        if dictionary_wf(manager@) {
            law_round_trip(document, manager@);
        }
    }
    document
}

} // verus!
