use std::str::FromStr;
use stump::book_club::{
    cursor_page_info, page_limit, parse_previous_books_cursor, previous_book_cursor, split_once,
    BookClubMember, BookClubMemberModel, BookClubMemberRole, MemberUser,
};
use stump::list::{
    ActiveValue, CreateListInput, List, ListActiveModel, ListModel, PatchListInput, SmartListGrouping,
    SmartListJoiner,
};
use stump::shared_access::EntityVisibility;

fn stored_list() -> ListModel {
    ListModel {
        id: "l1".to_string(),
        name: "Reading".to_string(),
        description: Some("desc".to_string()),
        visibility: EntityVisibility::Private,
        created_at: 1_000,
        updated_at: None,
        creator_id: "u1".to_string(),
    }
}

#[test]
fn creating_a_list_sets_its_fields() {
    let input = CreateListInput {
        name: "Favorites".to_string(),
        description: None,
        visibility: EntityVisibility::Public,
    };
    let active = input.into_active_model("u1".to_string());
    assert_eq!(active.name, ActiveValue::SetTo("Favorites".to_string()));
    assert_eq!(active.description, ActiveValue::SetTo(None));
    assert_eq!(active.visibility, ActiveValue::SetTo(EntityVisibility::Public));
    assert_eq!(active.creator_id, ActiveValue::SetTo("u1".to_string()));
    assert_eq!(active.id, ActiveValue::NotSet);
    let saved = active.before_save(true, "new-id".to_string(), 5_000);
    assert_eq!(saved.id, ActiveValue::SetTo("new-id".to_string()));
    assert_eq!(saved.created_at, ActiveValue::SetTo(5_000));
    assert_eq!(saved.updated_at, ActiveValue::NotSet);
}

#[test]
fn patching_keeps_absent_fields() {
    let patch = PatchListInput { name: Some("Renamed".to_string()), description: Some(None), visibility: None };
    let active = patch.apply_to_model(stored_list());
    assert_eq!(active.id, ActiveValue::Unchanged("l1".to_string()));
    assert_eq!(active.name, ActiveValue::SetTo("Renamed".to_string()));
    assert_eq!(active.description, ActiveValue::SetTo(None));
    assert_eq!(active.visibility, ActiveValue::Unchanged(EntityVisibility::Private));
    assert_eq!(active.creator_id, ActiveValue::Unchanged("u1".to_string()));
    assert_eq!(active.created_at, ActiveValue::Unchanged(1_000));
    let updated = active.before_save(false, "ignored".to_string(), 9_000);
    assert_eq!(updated.updated_at, ActiveValue::SetTo(Some(9_000)));
    assert_eq!(updated.id, ActiveValue::Unchanged("l1".to_string()));
}

#[test]
fn an_insert_keeps_an_id_it_already_has() {
    let mut active = ListActiveModel::not_set();
    active.id = ActiveValue::SetTo("given".to_string());
    let saved = active.before_save(true, "fresh".to_string(), 1);
    assert_eq!(saved.id, ActiveValue::SetTo("given".to_string()));
}

#[test]
fn media_count_saturates_to_zero_beyond_i64() {
    let list = List::from_model(stored_list());
    assert_eq!(list.media_count(12), 12);
    assert_eq!(list.media_count(u64::MAX), 0);
    assert_eq!(list.creator::<u8>(None), Err("Creator not found".to_string()));
    assert_eq!(list.creator(Some(3u8)), Ok(3));
}

fn member(display_name: Option<&str>, role: BookClubMemberRole) -> BookClubMember {
    BookClubMember::from_model(BookClubMemberModel {
        id: "m1".to_string(),
        user_id: "u7".to_string(),
        display_name: display_name.map(str::to_string),
        role,
    })
}

#[test]
fn member_name_and_avatar() {
    let named = member(Some("Reader Joe"), BookClubMemberRole::Member);
    assert!(!named.needs_user_for_username());
    assert_eq!(named.username(None), Ok("Reader Joe".to_string()));
    let anonymous = member(None, BookClubMemberRole::Creator);
    assert!(anonymous.needs_user_for_username());
    let user = MemberUser { username: "joe".to_string(), avatar_path: Some("/a.png".to_string()) };
    assert_eq!(anonymous.username(Some(user.clone())), Ok("joe".to_string()));
    assert_eq!(anonymous.username(None), Err("User not found".to_string()));
    assert_eq!(anonymous.avatar_url(Some(user)), Ok(Some("/api/v2/users/u7/avatar".to_string())));
    let plain = MemberUser { username: "joe".to_string(), avatar_path: None };
    assert_eq!(anonymous.avatar_url(Some(plain)), Ok(None));
    assert_eq!(anonymous.avatar_url(None), Err("User not found".to_string()));
    assert!(anonymous.is_creator());
    assert!(!named.is_creator());
}

#[test]
fn pages_are_capped_and_chained() {
    assert_eq!(page_limit(20), 20);
    assert_eq!(page_limit(500), 100);
    let ids = vec!["a".to_string(), "b".to_string()];
    let full = cursor_page_info(None, &ids, 2);
    assert_eq!(full.current_cursor.as_deref(), Some("a"));
    assert_eq!(full.next_cursor.as_deref(), Some("b"));
    let partial = cursor_page_info(Some("z".to_string()), &ids, 3);
    assert_eq!(partial.current_cursor.as_deref(), Some("z"));
    assert_eq!(partial.next_cursor, None);
    let empty = cursor_page_info(None, &vec![], 0);
    assert_eq!(empty.current_cursor, None);
    assert_eq!(empty.next_cursor, None);
}

#[test]
fn past_book_cursor_round_trips() {
    let cursor = previous_book_cursor(Some("2024-05-01T10:00:00+02:00"), "id|with|bars");
    assert_eq!(cursor, "2024-05-01T10:00:00+02:00|id|with|bars");
    let parsed = parse_previous_books_cursor(&cursor).ok().expect("a valid cursor");
    assert_eq!(parsed.id, "id|with|bars");
    assert_eq!(parsed.completed_at, (1_714_550_400, 0, 7_200));
    assert_eq!(previous_book_cursor(None, "x"), "|x");
}

#[test]
fn malformed_cursors_are_errors() {
    assert_eq!(parse_previous_books_cursor("no-bar").err(), Some("Invalid pagination cursor".to_string()));
    assert_eq!(parse_previous_books_cursor("yesterday|id").err(), Some("Invalid pagination cursor".to_string()));
    assert_eq!(split_once("a|b|c", '|'), Some(("a".to_string(), "b|c".to_string())));
    assert_eq!(split_once("abc", '|'), None);
}

#[test]
fn smart_list_names() {
    assert_eq!(SmartListJoiner::default(), SmartListJoiner::And);
    assert_eq!(SmartListGrouping::default(), SmartListGrouping::ByBooks);
    assert_eq!(SmartListJoiner::Or.as_str(), "OR");
    assert_eq!(SmartListGrouping::ByLibrary.as_str(), "BY_LIBRARY");
    assert_eq!(SmartListJoiner::parse("AND"), Some(SmartListJoiner::And));
    assert_eq!(SmartListJoiner::parse("and"), None);
    assert_eq!(SmartListGrouping::from_str("BY_SERIES"), Ok(SmartListGrouping::BySeries));
    assert_eq!(SmartListGrouping::from_str("BySeries"), Err("Matching variant not found".to_string()));
}
