use proxima_client::cursors::UserCursors;
use proxima_client::ids::{Category, DatabaseItemID};
use proxima_client::items::{Chat, DatabaseItem, Notification, Tag};
use proxima_client::ledger::ClientLedger;
use proxima_client::reconcile::{get_delta_for_add, DatabaseReplyVariant};
use proxima_client::state::{DatabaseAction, DatabaseState};
use proxima_client::ui_state::{BoolAction, BoolState, ProximaState, ProximaStateAction};

fn tag(id: usize, name: &str) -> Tag {
    Tag { id, name: name.to_string(), description: String::new(), parent: None }
}

fn chat(id: usize) -> Chat {
    Chat { id, title: None, context: Vec::new(), access_modes: Vec::new(), config: None }
}

fn session_with_tags(n: usize) -> DatabaseState {
    let mut db = ClientLedger::new_just_data("user".to_string());
    for i in 0..n {
        db.insert_directly(DatabaseItem::Tag(tag(i, &format!("tag{}", i))));
    }
    DatabaseState::new_session(db, UserCursors::zero())
}

#[test]
fn optimistic_chat_without_conflict() {
    // The client creates a chat at the provisional position zero, renders it
    // at once, and the remote store confirms the very same identifier.
    let state = session_with_tags(0);
    let state = state.reduce(DatabaseAction::ApplyUpdates(vec![(
        DatabaseItemID::Chat(0),
        DatabaseItem::Chat(chat(0)),
    )]));
    let state = state.reduce(DatabaseAction::SetChat(Some(0)));
    let (delta, new_id, new_item) = get_delta_for_add(
        DatabaseItemID::Chat(0),
        DatabaseItem::Chat(chat(0)),
        Ok(DatabaseReplyVariant::AddedItem(DatabaseItemID::Chat(0))),
        vec![],
    );
    let state = state.reduce(DatabaseAction::AddItem(delta, new_id, new_item));
    assert_eq!(state.db.len_of(Category::Chat), 1);
    assert_eq!(state.cursors.chosen_chat, Some(0));
}

#[test]
fn optimistic_tag_with_conflict() {
    // Two tags exist; the client creates a third at the provisional
    // position 2, while two concurrent tags were created server-side.
    let state = session_with_tags(2);
    let state = state.reduce(DatabaseAction::ApplyUpdates(vec![(
        DatabaseItemID::Tag(2),
        DatabaseItem::Tag(tag(2, "mine")),
    )]));
    let state = state.reduce(DatabaseAction::SetParentTag(Some(2)));
    let (delta, new_id, new_item) = get_delta_for_add(
        DatabaseItemID::Tag(2),
        DatabaseItem::Tag(tag(2, "mine")),
        Ok(DatabaseReplyVariant::AddedItem(DatabaseItemID::Tag(4))),
        vec![
            Ok(DatabaseReplyVariant::ReturnedItem(DatabaseItem::Tag(tag(2, "concurrent2")))),
            Ok(DatabaseReplyVariant::ReturnedItem(DatabaseItem::Tag(tag(3, "concurrent3")))),
        ],
    );
    let state = state.reduce(DatabaseAction::AddItem(delta, new_id, new_item));
    assert_eq!(state.db.len_of(Category::Tag), 5);
    for p in 0..5 {
        assert!(state.db.get_item(DatabaseItemID::Tag(p)).is_some());
    }
    assert_eq!(state.cursors.chosen_parent_tag, Some(4));
    match state.db.get_item(DatabaseItemID::Tag(4)) {
        Some(DatabaseItem::Tag(t)) => assert_eq!(t.name, "mine"),
        _ => panic!("the created tag should sit at its authoritative position"),
    }
}

#[test]
fn cursor_setters_change_one_field() {
    let state = session_with_tags(3);
    let state = state.reduce(DatabaseAction::SetTab(4));
    let state = state.reduce(DatabaseAction::SetModifiedTag(Some(1)));
    let state = state.reduce(DatabaseAction::SetParentTag(Some(2)));
    assert_eq!(state.cursors.chosen_tab, 4);
    assert_eq!(state.cursors.chosen_tag, Some(1));
    assert_eq!(state.cursors.chosen_parent_tag, Some(2));
    assert_eq!(state.cursors.chosen_chat, None);
}

#[test]
fn tag_set_membership_is_deduplicated() {
    let state = session_with_tags(3);
    let state = state.reduce(DatabaseAction::AddToTagsForAM(1));
    let state = state.reduce(DatabaseAction::AddToTagsForAM(2));
    let state = state.reduce(DatabaseAction::AddToTagsForAM(1));
    assert_eq!(state.cursors.chosen_access_mode_tags, vec![1, 2]);
    let state = state.reduce(DatabaseAction::RemoveFromTagsForAM(1));
    assert_eq!(state.cursors.chosen_access_mode_tags, vec![2]);
}

#[test]
fn notification_removal_leaves_the_rest() {
    let mut db = ClientLedger::new_just_data("user".to_string());
    db.insert_directly(DatabaseItem::Notification(Notification {
        id: 0,
        message: "first".to_string(),
        timestamp: 1,
    }));
    db.insert_directly(DatabaseItem::Notification(Notification {
        id: 1,
        message: "second".to_string(),
        timestamp: 2,
    }));
    let state = DatabaseState::new_session(db, UserCursors::zero());
    let state = state.reduce(DatabaseAction::RemoveItem(DatabaseItemID::Notification(0)));
    assert_eq!(state.db.len_of(Category::Notification), 1);
    assert_eq!(state.db.notifications[0].message, "second");
    // The survivor is restamped to its new position, keeping stored
    // identifier and position in agreement.
    assert_eq!(state.db.notifications[0].id, 0);
}

#[test]
fn updates_append_and_overwrite_by_position() {
    let state = session_with_tags(2);
    let state = state.reduce(DatabaseAction::ApplyUpdates(vec![
        (DatabaseItemID::Tag(1), DatabaseItem::Tag(tag(1, "renamed"))),
        (DatabaseItemID::Tag(2), DatabaseItem::Tag(tag(2, "appended"))),
    ]));
    assert_eq!(state.db.len_of(Category::Tag), 3);
    match state.db.get_item(DatabaseItemID::Tag(1)) {
        Some(DatabaseItem::Tag(t)) => assert_eq!(t.name, "renamed"),
        _ => panic!("overwrite lost"),
    }
    match state.db.get_item(DatabaseItemID::Tag(2)) {
        Some(DatabaseItem::Tag(t)) => assert_eq!(t.name, "appended"),
        _ => panic!("append lost"),
    }
    // Density: the occupied positions are exactly those below the length.
    assert!(state.db.get_item(DatabaseItemID::Tag(3)).is_none());
}

#[test]
fn user_data_is_a_singleton() {
    let state = session_with_tags(0);
    let state = state.reduce(DatabaseAction::ApplyUpdates(vec![(
        DatabaseItemID::UserData,
        DatabaseItem::UserData(proxima_client::items::UserData { username: "renamed".to_string() }),
    )]));
    assert_eq!(state.db.user_data.username, "renamed");
    assert_eq!(state.db.len_of(Category::UserData), 1);
}

#[test]
fn cursors_zero_and_from_state() {
    let z = UserCursors::zero();
    assert_eq!(z.chosen_tab, 0);
    assert_eq!(z.chosen_chat, None);
    assert_eq!(z.chosen_access_mode, 0);
    assert!(z.chosen_access_mode_tags.is_empty());
    let c = UserCursors::from_state(
        2,
        Some(1),
        0,
        None,
        Some(3),
        Some(4),
        Some(5),
        Some(6),
        None,
        vec![7, 8],
    );
    assert_eq!(c.chosen_tab, 2);
    assert_eq!(c.chosen_chat, Some(1));
    assert_eq!(c.chosen_tag, Some(3));
    assert_eq!(c.chosen_parent_tag, Some(4));
    assert_eq!(c.chosen_config, Some(5));
    assert_eq!(c.chosen_setting, Some(6));
    assert_eq!(c.chosen_access_mode_tags, vec![7, 8]);
    assert!(c.setting_for_modification.is_none());
}

#[test]
fn bool_state_reduces() {
    let s = BoolState::default();
    assert!(!s.value);
    let s = s.reduce(BoolAction::Toggle);
    assert!(s.value);
    let s = s.reduce(BoolAction::On);
    assert!(s.value);
    let s = s.reduce(BoolAction::Off);
    assert!(!s.value);
}

#[test]
fn proxima_state_reduces_one_field_at_a_time() {
    let s = ProximaState::default();
    assert!(!s.initialized);
    let s = s.reduce(ProximaStateAction::ChangeUsername("ada".to_string()));
    let s = s.reduce(ProximaStateAction::ChangeAuthToken("tok".to_string()));
    let s = s.reduce(ProximaStateAction::ChangeChatURL("http://localhost".to_string()));
    let s = s.reduce(ProximaStateAction::ChangeDeviceID(3));
    let s = s.reduce(ProximaStateAction::ChangeInit(true));
    let s = s.reduce(ProximaStateAction::ChangeLoaded(true));
    assert_eq!(s.username, "ada");
    assert_eq!(s.auth_token, "tok");
    assert_eq!(s.chat_url, "http://localhost");
    assert_eq!(s.device_id, 3);
    assert!(s.initialized);
    assert!(s.loaded);
    let s = s.reduce(ProximaStateAction::ChangeStartDB(Some(
        ClientLedger::new_just_data("ada".to_string()),
    )));
    assert!(s.start_db.is_some());
}
