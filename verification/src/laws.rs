//! What holds of the dictionary whatever is stored in it, stated over the
//! models of the data and proved.

use vstd::prelude::*;
use crate::chat::{
    first_match, gate_opens, gate_passed, new_user, new_user_name, own_match, repaired_cadence,
    reply_for, trigger_fires, with_admins, with_user_reply, without_common_reply,
    without_user_reply, ChatModel, UserModel, DEFAULT_REPLY_FREQUENCY,
};
use crate::keyed::{
    distinct_keys, has_key, index_of, is_first_at, lemma_has_key_index, lemma_index_of,
    lemma_upsert_value, lemma_without_distinct, upsert, value_of, value_or, without,
};
use crate::manager::chat_or_new;
use crate::text::lowercase;

verus! {

/// Storing again what is stored under a key changes nothing.
pub proof fn law_upsert_same<T>(s: Seq<(Seq<char>, T)>, key: Seq<char>)
    requires
        has_key(s, key),
    ensures
        upsert(s, key, value_of(s, key)) == s,
{
    lemma_has_key_index(s, key);
    assert(upsert(s, key, value_of(s, key)) =~= s);
}

/// Removing a key that is not in a list leaves the list as it was, and
/// removing a key twice is removing it once.
pub proof fn law_remove_absent<T>(s: Seq<(Seq<char>, T)>, key: Seq<char>)
    ensures
        !has_key(s, key) ==> without(s, key) == s,
        distinct_keys(s) ==> without(without(s, key), key) == without(s, key),
{
    if distinct_keys(s) {
        lemma_without_distinct(s, key);
    }
}

/// Deleting a shared trigger that is not there leaves the chat as it was.
pub proof fn law_delete_absent_common(chat: ChatModel, trigger: Seq<char>)
    requires
        !has_key(chat.common_replies, trigger),
    ensures
        without_common_reply(chat, trigger) == chat,
{
}

/// Deleting a trigger that a user does not have leaves the user's triggers as
/// they were; where the chat knows the user, it leaves the whole chat as it
/// was.
pub proof fn law_delete_absent_user(chat: ChatModel, username: Seq<char>, trigger: Seq<char>)
    requires
        !has_key(value_or(chat.users, username, new_user(new_user_name())).replies, trigger),
    ensures
        value_of(without_user_reply(chat, username, trigger).users, username).replies == value_or(
            chat.users,
            username,
            new_user(new_user_name()),
        ).replies,
        has_key(chat.users, username) ==> without_user_reply(chat, username, trigger) == chat,
{
    let user = value_or(chat.users, username, new_user(new_user_name()));
    let kept = UserModel { replies: without(user.replies, trigger), ..user };
    assert(kept == user);
    lemma_upsert_value(chat.users, username, kept);
    if has_key(chat.users, username) {
        law_upsert_same(chat.users, username);
    }
}

/// Deleting a shared trigger that is not there, in a chat that the
/// dictionary knows, leaves the dictionary as it was.
pub proof fn law_delete_absent_keeps_dictionary(
    chats: Seq<(Seq<char>, ChatModel)>,
    chat_id: Seq<char>,
    trigger: Seq<char>,
)
    requires
        has_key(chats, chat_id),
        !has_key(value_of(chats, chat_id).common_replies, trigger),
    ensures
        upsert(chats, chat_id, without_common_reply(chat_or_new(chats, chat_id), trigger))
            == chats,
{
    law_upsert_same(chats, chat_id);
}

/// The chat after the reply gate was asked `k` times.
pub open spec fn gate_run(chat: ChatModel, k: nat) -> ChatModel
    decreases k,
{
    if k == 0 {
        chat
    } else {
        gate_passed(gate_run(chat, (k - 1) as nat))
    }
}

/// How many of the first `k` questions the reply gate answers with yes.
pub open spec fn replies_in(chat: ChatModel, k: nat) -> nat
    decreases k,
{
    if k == 0 {
        0
    } else {
        let before = replies_in(chat, (k - 1) as nat);
        if gate_opens(gate_run(chat, (k - 1) as nat)) {
            before + 1
        } else {
            before
        }
    }
}

/// The cadence that the reply gate of a chat goes by.
pub open spec fn cadence_in_force(chat: ChatModel) -> int {
    repaired_cadence(chat.reply_frequency) as int
}

proof fn lemma_div_step(n: int, d: int)
    requires
        0 <= n,
        0 < d,
    ensures
        (n + 1) / d == n / d + if (n + 1) % d == 0 { 1int } else { 0int },
{
    vstd::arithmetic::div_mod::lemma_fundamental_div_mod(n, d);
    vstd::arithmetic::div_mod::lemma_fundamental_div_mod(n + 1, d);
    vstd::arithmetic::div_mod::lemma_mod_bound(n, d);
    vstd::arithmetic::div_mod::lemma_mod_bound(n + 1, d);
    let q = n / d;
    let r = n % d;
    let q1 = (n + 1) / d;
    let r1 = (n + 1) % d;
    assert(d * q1 + r1 == d * q + r + 1);
    assert(q1 == q || q1 == q + 1) by (nonlinear_arith)
        requires
            d * q1 + r1 == d * q + r + 1,
            0 <= r < d,
            0 <= r1 < d,
            0 < d,
    ;
    assert(d * (q + 1) == d * q + d) by (nonlinear_arith);
}

/// The state after `k` questions: the counter has grown by `k`, the cadence
/// is the repaired one, everything else is as it was.
pub proof fn law_gate_run(chat: ChatModel, k: nat)
    requires
        chat.message_counter + k <= u32::MAX,
        k > 0,
    ensures
        gate_run(chat, k) == (ChatModel {
            message_counter: (chat.message_counter + k) as u32,
            reply_frequency: repaired_cadence(chat.reply_frequency),
            ..chat
        }),
    decreases k,
{
    if k > 1 {
        law_gate_run(chat, (k - 1) as nat);
    } else {
        assert(gate_run(chat, 0) == chat);
    }
}

/// The cadence invariant: of `k` consecutive questions the reply gate
/// answers one per full cadence that the counter passes. From a counter of
/// zero that is `k / cadence`, rounded down, where a cadence of zero counts
/// as the default.
pub proof fn law_cadence(chat: ChatModel, k: nat)
    requires
        chat.message_counter + k <= u32::MAX,
    ensures
        replies_in(chat, k) == (chat.message_counter + k) / cadence_in_force(chat) - (
        chat.message_counter as int) / cadence_in_force(chat),
        chat.message_counter == 0 ==> replies_in(chat, k) == (k as int) / cadence_in_force(chat),
    decreases k,
{
    let cadence = repaired_cadence(chat.reply_frequency) as int;
    if k > 0 {
        let j = (k - 1) as nat;
        law_cadence(chat, j);
        if j > 0 {
            law_gate_run(chat, j);
        }
        let at = gate_run(chat, j);
        assert(at.message_counter == chat.message_counter + j);
        assert(repaired_cadence(at.reply_frequency) == cadence);
        lemma_div_step(chat.message_counter + j, cadence);
    }
    if chat.message_counter == 0 {
        assert(0int / cadence == 0) by (nonlinear_arith)
            requires
                cadence > 0,
        ;
    }
}

/// Default repair: a chat whose cadence is zero answers the next question,
/// and is left in the state of, the same chat with the default cadence.
pub proof fn law_default_repair(chat: ChatModel, k: nat)
    requires
        chat.reply_frequency == 0,
    ensures
        gate_opens(chat) == gate_opens(
            ChatModel { reply_frequency: DEFAULT_REPLY_FREQUENCY, ..chat },
        ),
        gate_passed(chat) == gate_passed(
            ChatModel { reply_frequency: DEFAULT_REPLY_FREQUENCY, ..chat },
        ),
        k > 0 ==> gate_run(chat, k) == gate_run(
            ChatModel { reply_frequency: DEFAULT_REPLY_FREQUENCY, ..chat },
            k,
        ),
        replies_in(chat, k) == replies_in(
            ChatModel { reply_frequency: DEFAULT_REPLY_FREQUENCY, ..chat },
            k,
        ),
    decreases k,
{
    let other = ChatModel { reply_frequency: DEFAULT_REPLY_FREQUENCY, ..chat };
    if k > 0 {
        law_default_repair(chat, (k - 1) as nat);
        if k == 1 {
            assert(gate_run(chat, 0) == chat);
            assert(gate_run(other, 0) == other);
        }
    }
}

/// A table answers exactly when one of its triggers fires, and then with the
/// reply of the first that does.
pub proof fn law_first_match(table: Seq<(Seq<char>, Seq<char>)>, lowered: Seq<char>)
    ensures
        first_match(table, lowered) is Some <==> exists|i: int|
            0 <= i < table.len() && trigger_fires(#[trigger] table[i].0, lowered),
        first_match(table, lowered) is Some ==> exists|i: int|
            0 <= i < table.len() && trigger_fires(#[trigger] table[i].0, lowered) && table[i].1
                == first_match(table, lowered)->0 && forall|j: int|
                0 <= j < i ==> !trigger_fires(#[trigger] table[j].0, lowered),
    decreases table.len(),
{
    if table.len() > 0 {
        let rest = table.drop_first();
        law_first_match(rest, lowered);
        if trigger_fires(table[0].0, lowered) {
            assert(0 <= 0 < table.len() && trigger_fires(table[0].0, lowered) && table[0].1
                == first_match(table, lowered)->0);
        } else {
            if first_match(rest, lowered) is Some {
                let i = choose|i: int|
                    0 <= i < rest.len() && trigger_fires(#[trigger] rest[i].0, lowered) && rest[i].1
                        == first_match(rest, lowered)->0 && forall|j: int|
                        0 <= j < i ==> !trigger_fires(#[trigger] rest[j].0, lowered);
                assert(rest[i] == table[i + 1]);
                assert forall|j: int| 0 <= j < i + 1 implies !trigger_fires(
                    #[trigger] table[j].0,
                    lowered,
                ) by {
                    if j > 0 {
                        assert(table[j] == rest[j - 1]);
                    }
                }
                assert(trigger_fires(table[i + 1].0, lowered));
            } else {
                assert forall|i: int| 0 <= i < table.len() implies !trigger_fires(
                    #[trigger] table[i].0,
                    lowered,
                ) by {
                    if i > 0 {
                        assert(table[i] == rest[i - 1]);
                    }
                }
            }
        }
    }
}

/// Match precedence: where one of the user's own triggers fires on a
/// message, the reply is the one of the user's own table, whatever the
/// shared table holds.
pub proof fn law_user_scope_first(chat: ChatModel, username: Seq<char>, message: Seq<char>, i: int)
    requires
        has_key(chat.users, username),
        0 <= i < value_of(chat.users, username).replies.len(),
        trigger_fires(value_of(chat.users, username).replies[i].0, lowercase(message)),
    ensures
        reply_for(chat, username, message) is Some,
        reply_for(chat, username, message) == first_match(
            value_of(chat.users, username).replies,
            lowercase(message),
        ),
        exists|j: int|
            0 <= j <= i && trigger_fires(
                #[trigger] value_of(chat.users, username).replies[j].0,
                lowercase(message),
            ) && reply_for(chat, username, message) == Some(
                value_of(chat.users, username).replies[j].1,
            ),
{
    let table = value_of(chat.users, username).replies;
    let lowered = lowercase(message);
    law_first_match(table, lowered);
    assert(trigger_fires(table[i].0, lowered));
    assert(first_match(table, lowered) is Some);
    assert(own_match(chat, username, lowered) == first_match(table, lowered));
    let j = choose|j: int|
        0 <= j < table.len() && trigger_fires(#[trigger] table[j].0, lowered) && table[j].1
            == first_match(table, lowered)->0 && forall|k: int|
            0 <= k < j ==> !trigger_fires(#[trigger] table[k].0, lowered);
    if i < j {
        assert(!trigger_fires(table[i].0, lowered));
    }
    assert(0 <= j <= i && trigger_fires(table[j].0, lowered));
}

/// A trigger that was stored for a user answers the user's messages on which
/// it fires; where no other trigger of the user fires on the message, the
/// answer is the reply that was stored with it.
pub proof fn law_stored_trigger_answers(
    chat: ChatModel,
    username: Seq<char>,
    trigger: Seq<char>,
    reply: Seq<char>,
    message: Seq<char>,
)
    requires
        trigger_fires(trigger, lowercase(message)),
    ensures
        reply_for(with_user_reply(chat, username, trigger, reply), username, message) is Some,
        (forall|j: int|
            0 <= j < value_or(chat.users, username, new_user(new_user_name())).replies.len() && (
            #[trigger] value_or(chat.users, username, new_user(new_user_name())).replies[j]).0
                != trigger ==> !trigger_fires(
                value_or(chat.users, username, new_user(new_user_name())).replies[j].0,
                lowercase(message),
            )) ==> reply_for(with_user_reply(chat, username, trigger, reply), username, message)
            == Some(reply),
{
    let before = value_or(chat.users, username, new_user(new_user_name())).replies;
    let user = UserModel {
        replies: upsert(before, trigger, reply),
        ..value_or(chat.users, username, new_user(new_user_name()))
    };
    let after = with_user_reply(chat, username, trigger, reply);
    lemma_upsert_value(chat.users, username, user);
    lemma_upsert_value(before, trigger, reply);
    let table = user.replies;
    lemma_has_key_index(table, trigger);
    let i = index_of(table, trigger);
    law_user_scope_first(after, username, message, i);
    if has_key(before, trigger) {
        lemma_has_key_index(before, trigger);
    }
    if forall|j: int|
        0 <= j < before.len() && (#[trigger] before[j]).0 != trigger ==> !trigger_fires(
            before[j].0,
            lowercase(message),
        ) {
        let j = choose|j: int|
            0 <= j <= i && trigger_fires(#[trigger] table[j].0, lowercase(message)) && reply_for(
                after,
                username,
                message,
            ) == Some(table[j].1);
        if j < i {
            assert(table[j].0 != trigger);
            assert(table[j] == before[j]);
        }
    }
}

/// Where none of the user's own triggers fires, or the chat does not know
/// the user, the shared table alone decides.
pub proof fn law_shared_scope_second(chat: ChatModel, username: Seq<char>, message: Seq<char>)
    requires
        own_match(chat, username, lowercase(message)) is None,
    ensures
        reply_for(chat, username, message) == first_match(chat.common_replies, lowercase(message)),
{
}

/// An administrator sync removes no user and touches no trigger: every user
/// that was known is still known and has the triggers they had.
pub proof fn law_sync_keeps_users(
    users: Seq<(Seq<char>, UserModel)>,
    admins: Seq<(Seq<char>, Seq<char>)>,
    username: Seq<char>,
)
    requires
        has_key(users, username),
    ensures
        has_key(with_admins(users, admins), username),
        value_of(with_admins(users, admins), username).replies == value_of(users, username).replies,
    decreases admins.len(),
{
    if admins.len() > 0 {
        let before = with_admins(users, admins.drop_last());
        law_sync_keeps_users(users, admins.drop_last(), username);
        let (name, fullname) = admins.last();
        if name.len() != 0 {
            let replies = value_or(before, name, new_user(fullname)).replies;
            let user = UserModel { fullname, replies };
            if name == username {
                lemma_upsert_value(before, name, user);
            } else {
                lemma_upsert_other(before, name, user, username);
            }
        }
    }
}

/// An administrator sync creates no user for an administrator without a
/// username, nor for anyone who is not an administrator: a user that is known
/// afterwards was known before or is named in the list.
pub proof fn law_sync_adds_only_named(
    users: Seq<(Seq<char>, UserModel)>,
    admins: Seq<(Seq<char>, Seq<char>)>,
    username: Seq<char>,
)
    requires
        has_key(with_admins(users, admins), username),
    ensures
        has_key(users, username) || (username.len() > 0 && exists|i: int|
            0 <= i < admins.len() && (#[trigger] admins[i]).0 == username),
    decreases admins.len(),
{
    if admins.len() > 0 {
        let before = with_admins(users, admins.drop_last());
        let (name, fullname) = admins.last();
        let last = admins.len() - 1;
        if name.len() != 0 && name == username {
            assert(admins[last].0 == username);
        } else {
            if name.len() != 0 {
                let replies = value_or(before, name, new_user(fullname)).replies;
                let user = UserModel { fullname, replies };
                lemma_upsert_other_back(before, name, user, username);
            }
            law_sync_adds_only_named(users, admins.drop_last(), username);
            if !has_key(users, username) {
                let i = choose|i: int|
                    0 <= i < admins.drop_last().len() && (#[trigger] admins.drop_last()[i]).0
                        == username;
                assert(admins[i] == admins.drop_last()[i]);
            }
        }
    }
}

/// Storing under one key leaves what is stored under another.
pub proof fn lemma_upsert_other<T>(
    s: Seq<(Seq<char>, T)>,
    key: Seq<char>,
    value: T,
    other: Seq<char>,
)
    requires
        key != other,
        has_key(s, other),
    ensures
        has_key(upsert(s, key, value), other),
        value_of(upsert(s, key, value), other) == value_of(s, other),
{
    let t = upsert(s, key, value);
    lemma_has_key_index(s, other);
    let i = index_of(s, other);
    if has_key(s, key) {
        lemma_has_key_index(s, key);
    }
    assert(t[i] == s[i]);
    assert(is_first_at(t, other, i)) by {
        assert forall|j: int| 0 <= j < i implies (#[trigger] t[j]).0 != other by {
            assert(t[j].0 == s[j].0);
        }
    }
    lemma_index_of(t, other, i);
}

/// Storing under one key brings no other key into the list.
pub proof fn lemma_upsert_other_back<T>(
    s: Seq<(Seq<char>, T)>,
    key: Seq<char>,
    value: T,
    other: Seq<char>,
)
    requires
        key != other,
        has_key(upsert(s, key, value), other),
    ensures
        has_key(s, other),
{
    let t = upsert(s, key, value);
    let i = choose|i: int| 0 <= i < t.len() && (#[trigger] t[i]).0 == other;
    if has_key(s, key) {
        lemma_has_key_index(s, key);
        assert(t[i].0 == s[i].0);
    } else {
        assert(i < s.len());
        assert(t[i] == s[i]);
    }
}

} // verus!
