//! One chat's state: its users with their triggers, the triggers shared by
//! everyone, the counter of matched messages and the reply cadence.

use vstd::prelude::*;
use crate::keyed::{has_key, upsert, value_of, value_or, without, KeyedList};
use crate::text::{contains, is_substring, lowercase, to_lowercase};

verus! {

/// The cadence a chat starts with, and the one a zero cadence is repaired to.
pub const DEFAULT_REPLY_FREQUENCY: u32 = 3;

/// The roast level a chat starts with.
pub const DEFAULT_ROAST_LEVEL: u8 = 3;

/// The cadence a chat starts with.
pub fn default_reply_frequency() -> (r: u32)
    ensures
        r == DEFAULT_REPLY_FREQUENCY,
{
    DEFAULT_REPLY_FREQUENCY
}

/// The roast level a chat starts with (levels run from 1 to 5).
pub fn default_roast_level() -> (r: u8)
    ensures
        r == DEFAULT_ROAST_LEVEL,
{
    DEFAULT_ROAST_LEVEL
}

/// The display name of a chat that was created before anyone named it.
pub open spec fn new_chat_name() -> Seq<char> {
    "New Chat"@
}

/// The display name of a user that was created before anyone named them.
pub open spec fn new_user_name() -> Seq<char> {
    "New User"@
}

/// A user, as the contracts see one.
pub struct UserModel {
    pub fullname: Seq<char>,
    pub replies: Seq<(Seq<char>, Seq<char>)>,
}

/// A chat, as the contracts see one.
pub struct ChatModel {
    pub message_counter: u32,
    pub reply_frequency: u32,
    pub roast_level: u8,
    pub name: Seq<char>,
    pub users: Seq<(Seq<char>, UserModel)>,
    pub common_replies: Seq<(Seq<char>, Seq<char>)>,
}

/// A user of one chat: a display name and the user's own triggers.
#[derive(Clone, Debug)]
pub struct User {
    pub fullname: String,
    pub replies: KeyedList<String>,
}

/// One chat.
#[derive(Clone, Debug)]
pub struct Chat {
    pub message_counter: u32,
    pub reply_frequency: u32,
    pub roast_level: u8,
    pub name: String,
    pub users: KeyedList<User>,
    pub common_replies: KeyedList<String>,
}

impl View for User {
    type V = UserModel;

    open spec fn view(&self) -> UserModel {
        UserModel { fullname: self.fullname@, replies: self.replies@ }
    }
}

impl View for Chat {
    type V = ChatModel;

    open spec fn view(&self) -> ChatModel {
        ChatModel {
            message_counter: self.message_counter,
            reply_frequency: self.reply_frequency,
            roast_level: self.roast_level,
            name: self.name@,
            users: self.users@,
            common_replies: self.common_replies@,
        }
    }
}

/// A user with the given display name and no triggers.
pub open spec fn new_user(fullname: Seq<char>) -> UserModel {
    UserModel { fullname, replies: Seq::empty() }
}

/// A chat with the given display name and the creation defaults.
pub open spec fn new_chat(name: Seq<char>) -> ChatModel {
    ChatModel {
        message_counter: 0,
        reply_frequency: DEFAULT_REPLY_FREQUENCY,
        roast_level: DEFAULT_ROAST_LEVEL,
        name,
        users: Seq::empty(),
        common_replies: Seq::empty(),
    }
}

/// The cadence that is in force: a zero counts as the default.
pub open spec fn repaired_cadence(cadence: u32) -> u32 {
    if cadence == 0 {
        DEFAULT_REPLY_FREQUENCY
    } else {
        cadence
    }
}

/// The chat with a zero cadence replaced by the default.
pub open spec fn repaired(chat: ChatModel) -> ChatModel {
    ChatModel { reply_frequency: repaired_cadence(chat.reply_frequency), ..chat }
}

/// Whether the reply gate lets the next matched message through.
pub open spec fn gate_opens(chat: ChatModel) -> bool {
    (chat.message_counter + 1) % (repaired_cadence(chat.reply_frequency) as int) == 0
}

/// The chat after the reply gate has counted one more matched message.
pub open spec fn gate_passed(chat: ChatModel) -> ChatModel {
    ChatModel {
        message_counter: (chat.message_counter + 1) as u32,
        reply_frequency: repaired_cadence(chat.reply_frequency),
        ..chat
    }
}

/// A trigger fires on a message when its lowercase form occurs in the
/// lowercase form of the message; `lowered` is the latter.
pub open spec fn trigger_fires(trigger: Seq<char>, lowered: Seq<char>) -> bool {
    is_substring(lowercase(trigger), lowered)
}

/// The reply of the first trigger of `table`, in table order, that fires on
/// the lowercased message.
pub open spec fn first_match(table: Seq<(Seq<char>, Seq<char>)>, lowered: Seq<char>) -> Option<
    Seq<char>,
>
    decreases table.len(),
{
    if table.len() == 0 {
        None
    } else if trigger_fires(table[0].0, lowered) {
        Some(table[0].1)
    } else {
        first_match(table.drop_first(), lowered)
    }
}

/// What the user's own triggers answer to the lowercased message; nothing
/// where the chat does not know the user.
pub open spec fn own_match(chat: ChatModel, username: Seq<char>, lowered: Seq<char>) -> Option<
    Seq<char>,
> {
    if has_key(chat.users, username) {
        first_match(value_of(chat.users, username).replies, lowered)
    } else {
        None
    }
}

/// The reply a chat has for a message of a user: the user's own triggers
/// come first, the shared ones second.
pub open spec fn reply_for(chat: ChatModel, username: Seq<char>, message: Seq<char>) -> Option<
    Seq<char>,
> {
    let lowered = lowercase(message);
    let own = own_match(chat, username, lowered);
    if own is Some {
        own
    } else {
        first_match(chat.common_replies, lowered)
    }
}

/// The chat after `trigger -> reply` was stored for `username`; a user that
/// was unknown is created on the way.
pub open spec fn with_user_reply(
    chat: ChatModel,
    username: Seq<char>,
    trigger: Seq<char>,
    reply: Seq<char>,
) -> ChatModel {
    let user = value_or(chat.users, username, new_user(new_user_name()));
    let user = UserModel { replies: upsert(user.replies, trigger, reply), ..user };
    ChatModel { users: upsert(chat.users, username, user), ..chat }
}

/// The chat after `trigger` was deleted for `username`; a user that was
/// unknown is created on the way.
pub open spec fn without_user_reply(
    chat: ChatModel,
    username: Seq<char>,
    trigger: Seq<char>,
) -> ChatModel {
    let user = value_or(chat.users, username, new_user(new_user_name()));
    let user = UserModel { replies: without(user.replies, trigger), ..user };
    ChatModel { users: upsert(chat.users, username, user), ..chat }
}

/// The chat after `trigger -> reply` was stored among the shared triggers.
pub open spec fn with_common_reply(chat: ChatModel, trigger: Seq<char>, reply: Seq<char>) -> ChatModel {
    ChatModel { common_replies: upsert(chat.common_replies, trigger, reply), ..chat }
}

/// The chat after `trigger` was deleted from the shared triggers.
pub open spec fn without_common_reply(chat: ChatModel, trigger: Seq<char>) -> ChatModel {
    ChatModel { common_replies: without(chat.common_replies, trigger), ..chat }
}

/// The administrators of a chat, as pairs of username and full name.
pub open spec fn admin_pairs(admins: Seq<(String, String)>) -> Seq<(Seq<char>, Seq<char>)> {
    admins.map_values(|a: (String, String)| (a.0@, a.1@))
}

/// The users after the administrators were synchronised, one after the
/// other: an administrator without a username is skipped, a known one gets
/// the new full name and keeps the triggers, an unknown one is created.
pub open spec fn with_admins(
    users: Seq<(Seq<char>, UserModel)>,
    admins: Seq<(Seq<char>, Seq<char>)>,
) -> Seq<(Seq<char>, UserModel)>
    decreases admins.len(),
{
    if admins.len() == 0 {
        users
    } else {
        let before = with_admins(users, admins.drop_last());
        let (username, fullname) = admins.last();
        if username.len() == 0 {
            before
        } else {
            let replies = value_or(before, username, new_user(fullname)).replies;
            upsert(before, username, UserModel { fullname, replies })
        }
    }
}

/// The chat after an administrator sync: renamed, cadence repaired, users
/// brought up to date.
pub open spec fn synced(chat: ChatModel, title: Seq<char>, admins: Seq<(Seq<char>, Seq<char>)>) -> ChatModel {
    ChatModel {
        name: title,
        reply_frequency: repaired_cadence(chat.reply_frequency),
        users: with_admins(chat.users, admins),
        ..chat
    }
}

/// Scans a table in order for the first trigger that fires on the message,
/// whose lowercase form is `lowered`.
pub fn scan_table<'a>(table: &'a KeyedList<String>, lowered: &String) -> (r: Option<&'a String>)
    ensures
        match r {
            Some(reply) => first_match(table@, lowered@) == Some(reply@),
            None => first_match(table@, lowered@) is None,
        },
{
    let n = table.len();
    let mut i: usize = 0;
    assert(table@.skip(0) =~= table@);
    while i < n
        invariant
            n == table@.len(),
            i <= n,
            first_match(table@, lowered@) == first_match(table@.skip(i as int), lowered@),
        decreases n - i,
    {
        let folded = to_lowercase(table.key_at(i).as_str());
        proof {
            assert(table@.skip(i as int)[0] == table@[i as int]);
            assert(table@.skip(i as int).drop_first() =~= table@.skip(i as int + 1));
        }
        if contains(lowered.as_str(), folded.as_str()) {
            return Some(table.value_at(i));
        }
        i = i + 1;
    }
    None
}

impl Default for User {
    /// A user without a name and without triggers.
    fn default() -> (r: User)
        ensures
            r@ == new_user(Seq::empty()),
    {
        User { fullname: String::new(), replies: KeyedList::new() }
    }
}

impl Default for Chat {
    /// The chat in which everything is zero or empty. Its cadence is zero,
    /// which the reply gate takes for the default cadence.
    fn default() -> (r: Chat)
        ensures
            r@ == (ChatModel {
                message_counter: 0,
                reply_frequency: 0,
                roast_level: 0,
                name: Seq::empty(),
                users: Seq::empty(),
                common_replies: Seq::empty(),
            }),
    {
        Chat {
            message_counter: 0,
            reply_frequency: 0,
            roast_level: 0,
            name: String::new(),
            users: KeyedList::new(),
            common_replies: KeyedList::new(),
        }
    }
}

impl User {
    /// A user with a display name and no triggers.
    pub fn new(fullname: String) -> (r: User)
        ensures
            r@ == new_user(fullname@),
    {
        User { fullname, replies: KeyedList::new() }
    }
}

impl Chat {
    /// A chat with a display name and the creation defaults: counter 0,
    /// cadence 3, roast level 3, no users, no triggers.
    pub fn new(name: String) -> (r: Chat)
        ensures
            r@ == new_chat(name@),
    {
        Chat {
            message_counter: 0,
            reply_frequency: DEFAULT_REPLY_FREQUENCY,
            roast_level: DEFAULT_ROAST_LEVEL,
            name,
            users: KeyedList::new(),
            common_replies: KeyedList::new(),
        }
    }

    /// Replaces a zero cadence by the default.
    pub fn repair(&mut self)
        ensures
            final(self)@ == repaired(old(self)@),
    {
        if self.reply_frequency == 0 {
            self.reply_frequency = DEFAULT_REPLY_FREQUENCY;
        }
    }

    /// The reply gate: counts one more matched message and says whether this
    /// one is answered, which is every `cadence`-th.
    pub fn should_reply(&mut self) -> (r: bool)
        requires
            old(self).message_counter < u32::MAX,
        ensures
            final(self)@ == gate_passed(old(self)@),
            r == gate_opens(old(self)@),
    {
        self.repair();
        self.message_counter = self.message_counter + 1;
        self.message_counter % self.reply_frequency == 0
    }

    /// The matching engine: the reply this chat has for `message` from
    /// `username`, if any.
    pub fn find_reply(&self, username: &String, message: &str) -> (r: Option<&String>)
        ensures
            match r {
                Some(reply) => reply_for(self@, username@, message@) == Some(reply@),
                None => reply_for(self@, username@, message@) is None,
            },
    {
        let lowered = to_lowercase(message);
        let own = match self.users.get(username) {
            Some(user) => scan_table(&user.replies, &lowered),
            None => None,
        };
        match own {
            Some(reply) => Some(reply),
            None => scan_table(&self.common_replies, &lowered),
        }
    }

    /// Stores `trigger -> reply` for `username`.
    pub fn add_user_reply(&mut self, username: String, trigger: String, reply: String)
        ensures
            final(self)@ == with_user_reply(old(self)@, username@, trigger@, reply@),
    {
        let user = self.users.entry(username, User::new("New User".to_owned()));
        user.replies.insert(trigger, reply);
    }

    /// Deletes `trigger` for `username`; nothing is deleted where the user
    /// has no such trigger.
    pub fn delete_user_reply(&mut self, username: String, trigger: &String)
        ensures
            final(self)@ == without_user_reply(old(self)@, username@, trigger@),
    {
        let user = self.users.entry(username, User::new("New User".to_owned()));
        user.replies.remove(trigger);
    }

    /// Stores `trigger -> reply` among the shared triggers.
    pub fn add_common_reply(&mut self, trigger: String, reply: String)
        ensures
            final(self)@ == with_common_reply(old(self)@, trigger@, reply@),
    {
        self.common_replies.insert(trigger, reply);
    }

    /// Deletes `trigger` from the shared triggers, if it is there.
    pub fn delete_common_reply(&mut self, trigger: &String)
        ensures
            final(self)@ == without_common_reply(old(self)@, trigger@),
    {
        self.common_replies.remove(trigger);
    }

    /// Brings the chat up to date with its administrators and returns the
    /// number of users it then knows.
    pub fn sync_admins(&mut self, title: String, admins: Vec<(String, String)>) -> (count: usize)
        ensures
            final(self)@ == synced(old(self)@, title@, admin_pairs(admins@)),
            count == final(self)@.users.len(),
    {
        self.name = title;
        self.repair();
        let ghost pairs = admin_pairs(admins@);
        let n = admins.len();
        let mut i: usize = 0;
        assert(pairs.take(0) =~= Seq::empty());
        while i < n
            invariant
                n == admins@.len(),
                i <= n,
                pairs == admin_pairs(admins@),
                self.users@ == with_admins(old(self)@.users, pairs.take(i as int)),
                self.name@ == title@,
                self.message_counter == old(self).message_counter,
                self.roast_level == old(self).roast_level,
                self.reply_frequency == repaired_cadence(old(self).reply_frequency),
                self.common_replies@ == old(self).common_replies@,
            decreases n - i,
        {
            let username = admins[i].0.clone();
            let fullname = admins[i].1.clone();
            proof {
                assert(pairs.take(i as int + 1).drop_last() =~= pairs.take(i as int));
                assert(pairs.take(i as int + 1).last() == pairs[i as int]);
                assert(pairs[i as int] == (username@, fullname@));
            }
            if !username.as_str().is_empty() {
                let user = self.users.entry(username, User::new(fullname.clone()));
                user.fullname = fullname;
            }
            i = i + 1;
        }
        assert(pairs.take(n as int) =~= pairs);
        self.users.len()
    }
}

} // verus!
