use trigger_dictionary::chat::Chat;
use trigger_dictionary::command::{parse_add, parse_delete, Target};
use trigger_dictionary::manager::DictionaryManager;
use trigger_dictionary::snapshot::{accepts_file_name, load, validate_import, ImportError, Snapshot};
use trigger_dictionary::store::{
    add_common_trigger, add_user_trigger, delete_common_trigger, delete_user_trigger,
    get_dictionary_response, handle_message, sync_administrators, update_reply_frequency,
    update_roast_level, MessageAction, Store, StoreError,
};

fn text(s: &str) -> String {
    s.to_string()
}

fn loaded_store() -> Store {
    let mut store = Store::new();
    load(&mut store, Snapshot::Missing);
    store
}

#[test]
fn operations_on_an_unloaded_store_report_it() {
    let mut store = Store::new();
    assert!(!store.is_initialized());
    assert_eq!(store.chat_count(), None);
    assert_eq!(
        add_user_trigger(&mut store, text("1"), text("u"), text("a"), text("b")),
        Err(StoreError::Uninitialized)
    );
    assert_eq!(add_common_trigger(&mut store, text("1"), text("a"), text("b")), Err(StoreError::Uninitialized));
    assert_eq!(delete_user_trigger(&mut store, text("1"), text("u"), text("a")), Err(StoreError::Uninitialized));
    assert_eq!(delete_common_trigger(&mut store, text("1"), text("a")), Err(StoreError::Uninitialized));
    assert_eq!(update_reply_frequency(&mut store, text("1"), 4), Err(StoreError::Uninitialized));
    assert_eq!(update_roast_level(&mut store, text("1"), 4), Err(StoreError::Uninitialized));
    assert_eq!(sync_administrators(&mut store, text("1"), text("t"), vec![]), Err(StoreError::Uninitialized));
    assert_eq!(get_dictionary_response(&store, text("1"), text("u"), text("a")), None);
    assert!(matches!(handle_message(&mut store, &text("1"), &text("u"), &text("a")), MessageAction::Ignore));
    assert!(!store.is_initialized());
}

#[test]
fn triggers_are_stored_trimmed_and_lowercased() {
    let mut store = loaded_store();
    assert_eq!(
        add_user_trigger(&mut store, text("100"), text("alice"), text("  GM \t"), text("  Good Morning!  ")),
        Ok(())
    );
    assert_eq!(add_common_trigger(&mut store, text("100"), text("\u{a0}BYE\n"), text(" See You\u{3000}")), Ok(()));
    let manager = store.manager.as_ref().unwrap();
    let chat = manager.chats.get(&text("100")).unwrap();
    let alice = chat.users.get(&text("alice")).unwrap();
    assert_eq!(alice.replies.key_at(0), "gm");
    assert_eq!(alice.replies.value_at(0), "Good Morning!");
    assert_eq!(chat.common_replies.key_at(0), "bye");
    assert_eq!(chat.common_replies.value_at(0), "See You");
}

#[test]
fn deleting_twice_succeeds_both_times() {
    let mut store = loaded_store();
    add_user_trigger(&mut store, text("100"), text("alice"), text("gm"), text("good morning!")).unwrap();
    add_common_trigger(&mut store, text("100"), text("hi"), text("hello")).unwrap();
    assert_eq!(delete_user_trigger(&mut store, text("100"), text("alice"), text("gm")), Ok(()));
    assert_eq!(delete_user_trigger(&mut store, text("100"), text("alice"), text("gm")), Ok(()));
    assert_eq!(delete_common_trigger(&mut store, text("100"), text("hi")), Ok(()));
    assert_eq!(delete_common_trigger(&mut store, text("100"), text("hi")), Ok(()));
    let chat = store.manager.as_ref().unwrap().chats.get(&text("100")).unwrap();
    assert_eq!(chat.users.get(&text("alice")).unwrap().replies.len(), 0);
    assert_eq!(chat.common_replies.len(), 0);
    assert_eq!(store.chat_count(), Some(1));
}

#[test]
fn gm_everyone_is_delivered_every_third_time() {
    let mut store = loaded_store();
    add_user_trigger(&mut store, text("100"), text("alice"), text("gm"), text("good morning!")).unwrap();
    assert_eq!(
        get_dictionary_response(&store, text("100"), text("alice"), text("gm everyone")),
        Some(text("good morning!"))
    );
    let mut delivered = Vec::new();
    for turn in 1..=9 {
        assert!(store.gate_has_room(&text("100")));
        match handle_message(&mut store, &text("100"), &text("alice"), &text("gm everyone")) {
            MessageAction::Reply(reply) => {
                assert_eq!(reply, "good morning!");
                delivered.push(turn);
            }
            MessageAction::Suppress => {}
            _ => panic!("a trigger fires on every one of these messages"),
        }
    }
    assert_eq!(delivered, vec![3, 6, 9]);
}

#[test]
fn unmatched_message_leaves_the_counter() {
    let mut store = loaded_store();
    add_user_trigger(&mut store, text("100"), text("alice"), text("gm"), text("good morning!")).unwrap();
    assert!(matches!(
        handle_message(&mut store, &text("100"), &text("alice"), &text("good night")),
        MessageAction::NoMatch
    ));
    let chat = store.manager.as_ref().unwrap().chats.get(&text("100")).unwrap();
    assert_eq!(chat.message_counter, 0);
}

#[test]
fn cadence_and_level_reach_the_chat() {
    let mut store = loaded_store();
    assert_eq!(update_reply_frequency(&mut store, text("5"), 2), Ok(()));
    assert_eq!(update_roast_level(&mut store, text("5"), 4), Ok(()));
    let manager = store.manager.as_ref().unwrap();
    assert_eq!(manager.chats.get(&text("5")).unwrap().reply_frequency, 2);
    assert_eq!(manager.get_roast_level(text("5")), 4);
}

#[test]
fn administrator_sync_creates_only_named_users() {
    let mut store = loaded_store();
    let count = sync_administrators(
        &mut store,
        text("100"),
        text("Friends"),
        vec![(text("alice"), text("Alice A")), (text(""), text("NoHandle"))],
    );
    assert_eq!(count, Ok(1));
    let chat = store.manager.as_ref().unwrap().chats.get(&text("100")).unwrap();
    assert_eq!(chat.users.len(), 1);
    assert_eq!(chat.users.get(&text("alice")).unwrap().fullname, "Alice A");
}

#[test]
fn load_installs_what_was_decoded() {
    let mut manager = DictionaryManager::new();
    manager.add_common_entry(text("1"), text("a"), text("b"));
    manager.add_common_entry(text("2"), text("a"), text("b"));
    let mut store = Store::new();
    let report = load(&mut store, Snapshot::Decoded(manager));
    assert_eq!(report.chats, 2);
    assert!(!report.decode_failed);
    assert_eq!(store.chat_count(), Some(2));
}

#[test]
fn load_of_nothing_gives_an_empty_store() {
    let mut store = Store::new();
    let report = load(&mut store, Snapshot::Missing);
    assert_eq!(report.chats, 0);
    assert!(!report.decode_failed);
    assert!(store.is_initialized());
    assert_eq!(store.chat_count(), Some(0));
}

#[test]
fn import_rejects_what_is_not_json() {
    assert!(matches!(validate_import(b"{\"x\":"), Err(ImportError::NotJson(_))));
    assert!(matches!(validate_import(b""), Err(ImportError::NotJson(_))));
    assert!(matches!(validate_import(b"{} {}"), Err(ImportError::NotJson(_))));
    assert!(matches!(validate_import(&[0xff, 0xfe]), Err(ImportError::NotUtf8)));
    assert!(matches!(validate_import(&[b'"', 0xc3, b'"']), Err(ImportError::NotUtf8)));
}

#[test]
fn import_accepts_any_json() {
    assert_eq!(validate_import(b"{\"x\":1}").ok(), Some("{\"x\":1}"));
    assert_eq!(validate_import(b"[]").ok(), Some("[]"));
    assert_eq!(validate_import("\"\u{e9}\"".as_bytes()).ok(), Some("\"\u{e9}\""));
}

#[test]
fn file_names_must_end_in_json() {
    assert!(accepts_file_name(None));
    assert!(accepts_file_name(Some(&text("dictionaries.json"))));
    assert!(accepts_file_name(Some(&text(".json"))));
    assert!(!accepts_file_name(Some(&text("dictionaries.txt"))));
    assert!(!accepts_file_name(Some(&text("json"))));
    assert!(!accepts_file_name(Some(&text("a.json.bak"))));
}

#[test]
fn delete_finds_the_trigger_however_it_is_typed() {
    let mut store = loaded_store();
    add_user_trigger(&mut store, text("100"), text("alice"), text("gm"), text("good morning!")).unwrap();
    add_common_trigger(&mut store, text("100"), text("Bye"), text("see you")).unwrap();
    assert_eq!(delete_user_trigger(&mut store, text("100"), text("alice"), text(" GM ")), Ok(()));
    assert_eq!(delete_common_trigger(&mut store, text("100"), text("BYE\t")), Ok(()));
    let chat = store.manager.as_ref().unwrap().chats.get(&text("100")).unwrap();
    assert_eq!(chat.users.get(&text("alice")).unwrap().replies.len(), 0);
    assert_eq!(chat.common_replies.len(), 0);
}

#[test]
fn delete_command_removes_what_the_add_command_stored() {
    let mut store = loaded_store();
    let added = parse_add("/add alice Gm = good morning!").ok().unwrap();
    match added.target {
        Target::User(name) => {
            add_user_trigger(&mut store, text("100"), name, added.trigger, added.reply).unwrap()
        }
        Target::Everyone => panic!("the command names a user"),
    }
    let held = store.manager.as_ref().unwrap().chats.get(&text("100")).unwrap();
    assert_eq!(held.users.get(&text("alice")).unwrap().replies.get(&text("gm")), Some(&text("good morning!")));
    let deleted = parse_delete("/delete alice GM").ok().unwrap();
    match deleted.target {
        Target::User(name) => {
            delete_user_trigger(&mut store, text("100"), name, deleted.trigger).unwrap()
        }
        Target::Everyone => panic!("the command names a user"),
    }
    let held = store.manager.as_ref().unwrap().chats.get(&text("100")).unwrap();
    assert_eq!(held.users.get(&text("alice")).unwrap().replies.len(), 0);
}

#[test]
fn unmatched_message_passes_whatever_the_counter_is() {
    let mut store = loaded_store();
    add_user_trigger(&mut store, text("100"), text("alice"), text("gm"), text("good morning!")).unwrap();
    let manager = store.manager.as_mut().unwrap();
    manager.chats.entry(text("100"), Chat::new(text("New Chat"))).message_counter = u32::MAX;
    assert!(!store.gate_has_room(&text("100")));
    assert!(matches!(
        handle_message(&mut store, &text("100"), &text("alice"), &text("good night")),
        MessageAction::NoMatch
    ));
    let chat = store.manager.as_ref().unwrap().chats.get(&text("100")).unwrap();
    assert_eq!(chat.message_counter, u32::MAX);
}

#[test]
fn largest_counter_still_answers_once_more() {
    let mut store = loaded_store();
    add_user_trigger(&mut store, text("100"), text("alice"), text("gm"), text("good morning!")).unwrap();
    update_reply_frequency(&mut store, text("100"), 5).unwrap();
    let manager = store.manager.as_mut().unwrap();
    manager.chats.entry(text("100"), Chat::new(text("New Chat"))).message_counter = u32::MAX - 1;
    assert!(store.gate_has_room(&text("100")));
    assert!(matches!(
        handle_message(&mut store, &text("100"), &text("alice"), &text("gm")),
        MessageAction::Reply(_)
    ));
}
