use trigger_dictionary::admins::{full_name, standing, sync_goes_ahead, Standing};

#[test]
fn full_names_are_joined_and_trimmed() {
    assert_eq!(full_name("Alice", Some("A".to_string())), "Alice A");
    assert_eq!(full_name("Alice", None), "Alice");
    assert_eq!(full_name("Alice", Some(String::new())), "Alice");
    assert_eq!(full_name(" Al ice ", Some(" B ".to_string())), "Al ice   B");
    assert_eq!(full_name("", None), "");
}

#[test]
fn only_an_administrator_syncs() {
    assert_eq!(standing(true, true), Standing::Ready);
    assert_eq!(standing(true, false), Standing::CannotDelete);
    assert_eq!(standing(false, true), Standing::NotAdministrator);
    assert_eq!(standing(false, false), Standing::NotAdministrator);
    assert!(sync_goes_ahead(Standing::Ready));
    assert!(sync_goes_ahead(Standing::CannotDelete));
    assert!(!sync_goes_ahead(Standing::NotAdministrator));
}
