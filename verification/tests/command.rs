use trigger_dictionary::command::{
    cadence_from, parse_add, parse_cadence, parse_delete, parse_roast_level, roast_level_from,
    CommandError, Target,
};
use trigger_dictionary::text::{chars_of, ends_with, split_once, strip_leading};

fn user_of(target: &Target) -> Option<&str> {
    match target {
        Target::Everyone => None,
        Target::User(name) => Some(name.as_str()),
    }
}

#[test]
fn add_for_a_user() {
    let request = parse_add("/add @alice  GM = Good Morning! ").ok().unwrap();
    assert_eq!(user_of(&request.target), Some("alice"));
    assert_eq!(request.trigger, "gm");
    assert_eq!(request.reply, "Good Morning!");
}

#[test]
fn add_for_everyone() {
    let request = parse_add("/add all hi there=hello = world").ok().unwrap();
    assert!(matches!(request.target, Target::Everyone));
    assert_eq!(request.trigger, "hi there");
    assert_eq!(request.reply, "hello = world");
    let request = parse_add("/add @@all a=b").ok().unwrap();
    assert!(matches!(request.target, Target::Everyone));
}

#[test]
fn add_without_its_parts_is_a_usage_error() {
    assert_eq!(parse_add("/add").err(), Some(CommandError::Usage));
    assert_eq!(parse_add("/add alice").err(), Some(CommandError::Usage));
    assert_eq!(parse_add("/add alice trigger").err(), Some(CommandError::Usage));
    assert_eq!(parse_add("").err(), Some(CommandError::Usage));
}

#[test]
fn add_with_two_blanks_names_the_empty_user() {
    let request = parse_add("/add  a=b").ok().unwrap();
    assert_eq!(user_of(&request.target), Some(""));
    assert_eq!(request.trigger, "a");
    assert_eq!(request.reply, "b");
}

#[test]
fn delete_names_the_trigger_as_it_is_stored() {
    let request = parse_delete("/delete @bob  Good Morning ").ok().unwrap();
    assert_eq!(user_of(&request.target), Some("bob"));
    assert_eq!(request.trigger, "good morning");
    let request = parse_delete("/delete alice GM").ok().unwrap();
    assert_eq!(user_of(&request.target), Some("alice"));
    assert_eq!(request.trigger, "gm");
    let request = parse_delete("/delete all x").ok().unwrap();
    assert!(matches!(request.target, Target::Everyone));
    assert_eq!(request.trigger, "x");
    assert_eq!(parse_delete("/delete bob").err(), Some(CommandError::Usage));
    assert_eq!(parse_delete("/delete").err(), Some(CommandError::Usage));
}

#[test]
fn cadence_argument() {
    assert_eq!(parse_cadence("/changefrq 4"), Ok(4));
    assert_eq!(parse_cadence("/changefrq +12"), Ok(12));
    assert_eq!(parse_cadence("/changefrq 4294967295"), Ok(u32::MAX));
    assert_eq!(parse_cadence("/changefrq 1"), Ok(1));
    assert_eq!(parse_cadence("/changefrq 4294967296"), Err(CommandError::Usage));
    assert_eq!(parse_cadence("/changefrq abc"), Err(CommandError::Usage));
    assert_eq!(parse_cadence("/changefrq four"), Err(CommandError::Usage));
    assert_eq!(parse_cadence("/changefrq -1"), Err(CommandError::Usage));
    assert_eq!(parse_cadence("/changefrq "), Err(CommandError::Usage));
    assert_eq!(parse_cadence("/changefrq  4"), Err(CommandError::Usage));
    assert_eq!(parse_cadence("/changefrq 0"), Err(CommandError::CadenceOutOfRange));
    assert_eq!(parse_cadence("/changefrq 00"), Err(CommandError::CadenceOutOfRange));
    assert_eq!(parse_cadence("/changefrq"), Err(CommandError::Usage));
    assert_eq!(cadence_from(Some(7)), Ok(7));
    assert_eq!(cadence_from(Some(0)), Err(CommandError::CadenceOutOfRange));
    assert_eq!(cadence_from(None), Err(CommandError::Usage));
}

#[test]
fn roast_level_argument() {
    assert_eq!(parse_roast_level("/setroastlvl 1"), Ok(1));
    assert_eq!(parse_roast_level("/setroastlvl 5"), Ok(5));
    assert_eq!(parse_roast_level("/setroastlvl 0"), Err(CommandError::LevelOutOfRange));
    assert_eq!(parse_roast_level("/setroastlvl 6"), Err(CommandError::LevelOutOfRange));
    assert_eq!(parse_roast_level("/setroastlvl 3"), Ok(3));
    assert_eq!(parse_roast_level("/setroastlvl 255"), Err(CommandError::LevelOutOfRange));
    assert_eq!(parse_roast_level("/setroastlvl 256"), Err(CommandError::Usage));
    assert_eq!(parse_roast_level("/setroastlvl high"), Err(CommandError::Usage));
    assert_eq!(parse_roast_level("/setroastlvl "), Err(CommandError::Usage));
    assert_eq!(parse_roast_level("/setroastlvl"), Err(CommandError::Usage));
    assert_eq!(roast_level_from(Some(4)), Ok(4));
    assert_eq!(roast_level_from(Some(0)), Err(CommandError::LevelOutOfRange));
    assert_eq!(roast_level_from(Some(9)), Err(CommandError::LevelOutOfRange));
    assert_eq!(roast_level_from(None), Err(CommandError::Usage));
}

#[test]
fn text_helpers() {
    assert_eq!(chars_of("a\u{e9}z"), vec!['a', '\u{e9}', 'z']);
    assert_eq!(split_once("k\u{e9}y=v=w", '='), Some(("k\u{e9}y", "v=w")));
    assert_eq!(split_once("=", '='), Some(("", "")));
    assert_eq!(split_once("abc", '='), None);
    assert_eq!(strip_leading("@@bob@", '@'), "bob@");
    assert_eq!(strip_leading("@@", '@'), "");
    assert_eq!(strip_leading("bob", '@'), "bob");
    assert!(ends_with("a.json", ".json"));
    assert!(ends_with("a.json", ""));
    assert!(!ends_with("a.jsom", ".json"));
    assert!(!ends_with("on", ".json"));
}
