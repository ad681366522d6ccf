use libretto::room_list::{RoomList, RoomListEntry, RoomState};

fn entry(id: &str, name: &str, unread: u64) -> RoomListEntry {
    RoomListEntry {
        id: id.to_owned(),
        name: name.to_owned(),
        avatar_url: None,
        is_encrypted: false,
        is_direct: false,
        unread_count: unread,
        state: RoomState::Joined,
    }
}

#[test]
fn initial_is_first_letter_or_question_mark() {
    assert_eq!(entry("!a:x", "Émile's room", 0).name_initial(), "É");
    assert_eq!(entry("!a:x", "", 0).name_initial(), "?");
}

#[test]
fn unread_when_count_positive() {
    assert!(entry("!a:x", "a", 3).has_unread());
    assert!(!entry("!a:x", "a", 0).has_unread());
}

#[test]
fn sort_ignores_case_and_keeps_ties() {
    let mut list = RoomList::new();
    list.add_room(entry("!1:x", "banana", 0));
    list.add_room(entry("!2:x", "Apple", 0));
    list.add_room(entry("!3:x", "cherry", 0));
    list.add_room(entry("!4:x", "apple", 0));
    list.sort_by_display_names();
    let ids: Vec<&str> = list.rooms.iter().map(|r| r.id.as_str()).collect();
    assert_eq!(ids, vec!["!2:x", "!4:x", "!1:x", "!3:x"]);
}

#[test]
fn get_room_by_id() {
    let mut list = RoomList::new();
    list.add_room(entry("!1:x", "one", 0));
    list.add_room(entry("!2:x", "two", 0));
    assert_eq!(list.get_room("!2:x").map(|r| r.name.as_str()), Some("two"));
    assert!(list.get_room("!3:x").is_none());
}

#[test]
fn sort_is_case_insensitive() {
    let mut list = RoomList::new();
    list.add_room(entry("!1:x", "Beta", 0));
    list.add_room(entry("!2:x", "alpha", 0));
    list.sort_by_display_names();
    let names: Vec<&str> = list.rooms.iter().map(|r| r.name.as_str()).collect();
    assert_eq!(names, vec!["alpha", "Beta"]);
}
