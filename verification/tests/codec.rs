use serde_json::Value;
use trigger_dictionary::codec::{
    decode, decode_chat, decode_table, decode_user, encode, find_member, number_in, text_in, Json,
};
use trigger_dictionary::manager::DictionaryManager;
use trigger_dictionary::snapshot::{from_document, load, validate_import, Snapshot};
use trigger_dictionary::store::Store;

fn text(s: &str) -> String {
    s.to_string()
}

fn to_json(value: Value) -> Json {
    match value {
        Value::Null => Json::Null,
        Value::Bool(b) => Json::Bool(b),
        Value::Number(n) => match n.as_u64() {
            Some(n) => Json::Number(n),
            None => Json::OtherNumber,
        },
        Value::String(s) => Json::Text(s),
        Value::Array(items) => Json::Array(items.into_iter().map(to_json).collect()),
        Value::Object(members) => {
            Json::Object(members.into_iter().map(|(k, v)| (k, to_json(v))).collect())
        }
    }
}

fn to_value(json: Json) -> Value {
    match json {
        Json::Null | Json::OtherNumber => Value::Null,
        Json::Bool(b) => Value::Bool(b),
        Json::Number(n) => Value::Number(n.into()),
        Json::Text(s) => Value::String(s),
        Json::Array(items) => Value::Array(items.into_iter().map(to_value).collect()),
        Json::Object(members) => {
            Value::Object(members.into_iter().map(|(k, v)| (k, to_value(v))).collect())
        }
    }
}

fn parse(document: &str) -> Json {
    to_json(serde_json::from_str::<Value>(document).unwrap())
}

fn sample() -> DictionaryManager {
    let mut manager = DictionaryManager::new();
    manager.add_user_entry(text("100"), text("alice"), text("gm"), text("good morning!"));
    manager.add_user_entry(text("100"), text("alice"), text("gn"), text("good \"night\""));
    manager.add_user_entry(text("100"), text("bob"), text("\u{436}"), text("\u{1f600}"));
    manager.add_common_entry(text("100"), text("hello"), text("hi"));
    manager.update_roast_level(text("100"), 5);
    manager.update_reply_freq(text("-42"), 7);
    manager.sync_admins(text("-42"), text("Ops"), vec![(text("zed"), text("Zed Z"))]);
    manager.should_reply_to_message(&text("-42"));
    manager
}

fn assert_same(a: &DictionaryManager, b: &DictionaryManager) {
    assert_eq!(a.chats.len(), b.chats.len());
    for i in 0..a.chats.len() {
        assert_eq!(a.chats.key_at(i), b.chats.key_at(i));
        let (x, y) = (a.chats.value_at(i), b.chats.value_at(i));
        assert_eq!(x.message_counter, y.message_counter);
        assert_eq!(x.reply_frequency, y.reply_frequency);
        assert_eq!(x.roast_level, y.roast_level);
        assert_eq!(x.name, y.name);
        assert_eq!(x.users.len(), y.users.len());
        for j in 0..x.users.len() {
            assert_eq!(x.users.key_at(j), y.users.key_at(j));
            let (u, v) = (x.users.value_at(j), y.users.value_at(j));
            assert_eq!(u.fullname, v.fullname);
            assert_eq!(u.replies.len(), v.replies.len());
            for k in 0..u.replies.len() {
                assert_eq!(u.replies.key_at(k), v.replies.key_at(k));
                assert_eq!(u.replies.value_at(k), v.replies.value_at(k));
            }
        }
        assert_eq!(x.common_replies.len(), y.common_replies.len());
        for k in 0..x.common_replies.len() {
            assert_eq!(x.common_replies.key_at(k), y.common_replies.key_at(k));
            assert_eq!(x.common_replies.value_at(k), y.common_replies.value_at(k));
        }
    }
}

#[test]
fn encode_then_decode_gives_the_dictionary_back() {
    let manager = sample();
    let back = decode(&encode(&manager)).unwrap();
    assert_same(&manager, &back);
    let empty = DictionaryManager::new();
    assert_same(&empty, &decode(&encode(&empty)).unwrap());
}

#[test]
fn snapshot_survives_the_text_form() {
    let manager = sample();
    let written = serde_json::to_string_pretty(&to_value(encode(&manager))).unwrap();
    assert!(validate_import(written.as_bytes()).is_ok());
    let back = decode(&parse(&written)).unwrap();
    assert_same(&manager, &back);
}

#[test]
fn encoded_chat_has_the_documented_members() {
    let manager = sample();
    let value = to_value(encode(&manager));
    let chat = &value["100"];
    assert_eq!(chat["message_counter"], Value::from(0u32));
    assert_eq!(chat["reply_frequency"], Value::from(3u32));
    assert_eq!(chat["roast_level"], Value::from(5u32));
    assert_eq!(chat["name"], Value::from("New Chat"));
    assert_eq!(chat["users"]["alice"]["fullname"], Value::from("New User"));
    assert_eq!(chat["users"]["alice"]["replies"]["gm"], Value::from("good morning!"));
    assert_eq!(chat["common_replies"]["hello"], Value::from("hi"));
    assert_eq!(value["-42"]["message_counter"], Value::from(1u32));
    assert_eq!(value["-42"]["reply_frequency"], Value::from(7u32));
    assert_eq!(value["-42"]["users"]["zed"]["fullname"], Value::from("Zed Z"));
}

#[test]
fn missing_cadence_and_level_default_to_three() {
    let document = parse(
        "{\"7\": {\"message_counter\": 4, \"name\": \"n\", \"users\": {}, \"common_replies\": {}}}",
    );
    let manager = decode(&document).unwrap();
    let chat = manager.chats.get(&text("7")).unwrap();
    assert_eq!(chat.message_counter, 4);
    assert_eq!(chat.reply_frequency, 3);
    assert_eq!(chat.roast_level, 3);
    assert_eq!(chat.name, "n");
}

#[test]
fn zero_cadence_is_read_as_zero_and_repaired_by_the_gate() {
    let document = parse(
        "{\"7\": {\"message_counter\": 0, \"reply_frequency\": 0, \"roast_level\": 2, \
         \"name\": \"n\", \"users\": {}, \"common_replies\": {}, \"extra\": [1, 2.5, null]}}",
    );
    let mut manager = decode(&document).unwrap();
    assert_eq!(manager.chats.get(&text("7")).unwrap().reply_frequency, 0);
    assert_eq!(manager.get_roast_level(text("7")), 2);
    let answers: Vec<bool> = (0..6).map(|_| manager.should_reply_to_message(&text("7"))).collect();
    assert_eq!(answers, vec![false, false, true, false, false, true]);
    assert_eq!(manager.chats.get(&text("7")).unwrap().reply_frequency, 3);
}

#[test]
fn documents_of_another_shape_do_not_decode() {
    for document in [
        "{\"x\":1}",
        "[]",
        "null",
        "\"text\"",
        "{\"7\": {\"name\": \"n\", \"users\": {}, \"common_replies\": {}}}",
        "{\"7\": {\"message_counter\": 0, \"users\": {}, \"common_replies\": {}}}",
        "{\"7\": {\"message_counter\": 0, \"name\": \"n\", \"common_replies\": {}}}",
        "{\"7\": {\"message_counter\": 0, \"name\": \"n\", \"users\": {}}}",
        "{\"7\": {\"message_counter\": -1, \"name\": \"n\", \"users\": {}, \"common_replies\": {}}}",
        "{\"7\": {\"message_counter\": 1.5, \"name\": \"n\", \"users\": {}, \"common_replies\": {}}}",
        "{\"7\": {\"message_counter\": 4294967296, \"name\": \"n\", \"users\": {}, \"common_replies\": {}}}",
        "{\"7\": {\"message_counter\": 0, \"roast_level\": 256, \"name\": \"n\", \"users\": {}, \"common_replies\": {}}}",
        "{\"7\": {\"message_counter\": 0, \"reply_frequency\": null, \"name\": \"n\", \"users\": {}, \"common_replies\": {}}}",
        "{\"7\": {\"message_counter\": 0, \"name\": 5, \"users\": {}, \"common_replies\": {}}}",
        "{\"7\": {\"message_counter\": 0, \"name\": \"n\", \"users\": {\"u\": {\"fullname\": \"f\"}}, \"common_replies\": {}}}",
        "{\"7\": {\"message_counter\": 0, \"name\": \"n\", \"users\": {\"u\": {\"replies\": {}}}, \"common_replies\": {}}}",
        "{\"7\": {\"message_counter\": 0, \"name\": \"n\", \"users\": {}, \"common_replies\": {\"a\": 1}}}",
    ] {
        assert!(decode(&parse(document)).is_none(), "{}", document);
    }
}

#[test]
fn largest_numbers_decode() {
    let document = parse(
        "{\"7\": {\"message_counter\": 4294967295, \"reply_frequency\": 4294967295, \
         \"roast_level\": 255, \"name\": \"n\", \"users\": {}, \"common_replies\": {}}}",
    );
    let manager = decode(&document).unwrap();
    let chat = manager.chats.get(&text("7")).unwrap();
    assert_eq!(chat.message_counter, u32::MAX);
    assert_eq!(chat.reply_frequency, u32::MAX);
    assert_eq!(chat.roast_level, 255);
}

#[test]
fn schema_invalid_upload_is_written_and_reloads_empty() {
    let bytes = b"{\"x\":1}";
    let accepted = validate_import(bytes).ok().unwrap();
    assert_eq!(accepted, "{\"x\":1}");
    let snapshot = from_document(&parse(accepted));
    assert!(matches!(snapshot, Snapshot::Undecodable));
    let mut store = Store::new();
    let report = load(&mut store, snapshot);
    assert_eq!(report.chats, 0);
    assert!(report.decode_failed);
    assert!(store.is_initialized());
    assert_eq!(store.chat_count(), Some(0));
}

#[test]
fn valid_upload_reloads_its_chats() {
    let written = serde_json::to_string_pretty(&to_value(encode(&sample()))).unwrap();
    let accepted = validate_import(written.as_bytes()).ok().unwrap();
    let mut store = Store::new();
    let report = load(&mut store, from_document(&parse(accepted)));
    assert_eq!(report.chats, 2);
    assert!(!report.decode_failed);
}

#[test]
fn members_are_found_by_name() {
    let fields = vec![
        (text("a"), Json::Number(1)),
        (text("b"), Json::Text(text("x"))),
        (text("a"), Json::Number(2)),
    ];
    assert!(matches!(find_member(&fields, "a"), Some(Json::Number(1))));
    assert!(matches!(find_member(&fields, "b"), Some(Json::Text(_))));
    assert!(find_member(&fields, "c").is_none());
    assert_eq!(number_in(find_member(&fields, "a"), 5, None), Some(1));
    assert_eq!(number_in(find_member(&fields, "a"), 0, None), None);
    assert_eq!(number_in(find_member(&fields, "b"), 5, Some(3)), None);
    assert_eq!(number_in(find_member(&fields, "c"), 5, Some(3)), Some(3));
    assert_eq!(number_in(Some(&Json::OtherNumber), 5, Some(3)), None);
    assert_eq!(text_in(find_member(&fields, "b")), Some(text("x")));
    assert_eq!(text_in(find_member(&fields, "a")), None);
}

#[test]
fn later_member_of_a_table_wins() {
    let table = decode_table(&Json::Object(vec![
        (text("a"), Json::Text(text("1"))),
        (text("b"), Json::Text(text("2"))),
        (text("a"), Json::Text(text("3"))),
    ]))
    .unwrap();
    assert_eq!(table.len(), 2);
    assert_eq!(table.key_at(0), "a");
    assert_eq!(table.value_at(0), "3");
    assert!(decode_table(&Json::Array(vec![])).is_none());
    assert!(decode_user(&Json::Null).is_none());
    assert!(decode_chat(&Json::Bool(true)).is_none());
}
