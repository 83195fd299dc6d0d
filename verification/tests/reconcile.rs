use proxima_client::apply::apply_server_updates;
use proxima_client::cursors::UserCursors;
use proxima_client::ids::{Category, DatabaseItemID};
use proxima_client::items::{Chat, DatabaseItem, Tag};
use proxima_client::ledger::ClientLedger;
use proxima_client::reconcile::{
    get_database_conflict_fix, get_delta_for_add, get_next_id_for_category, handle_add,
    handle_add_reducible, plan_backfill, DatabaseInfoReply, DatabaseReplyVariant,
};

fn tag(id: usize, name: &str) -> Tag {
    Tag { id, name: name.to_string(), description: String::new(), parent: None }
}

fn chat(id: usize) -> Chat {
    Chat { id, title: None, context: Vec::new(), access_modes: Vec::new(), config: None }
}

fn ledger_with_tags(n: usize) -> ClientLedger {
    let mut db = ClientLedger::new_just_data("user".to_string());
    for i in 0..n {
        db.insert_directly(DatabaseItem::Tag(tag(i, &format!("tag{}", i))));
    }
    db
}

#[test]
fn no_conflict_keeps_local_id() {
    let item = DatabaseItem::Tag(tag(9, "fresh"));
    let (delta, final_id, stamped) = get_delta_for_add(
        DatabaseItemID::Tag(0),
        item,
        Ok(DatabaseReplyVariant::AddedItem(DatabaseItemID::Tag(0))),
        vec![],
    );
    assert_eq!(delta.len(), 0);
    assert_eq!(final_id, DatabaseItemID::Tag(0));
    assert_eq!(stamped.get_id(), DatabaseItemID::Tag(0));
}

#[test]
fn failed_add_keeps_optimistic_state() {
    let item = DatabaseItem::Chat(chat(4));
    let (delta, final_id, stamped) = get_delta_for_add(DatabaseItemID::Chat(1), item, Err(()), vec![]);
    assert_eq!(delta.len(), 0);
    assert_eq!(final_id, DatabaseItemID::Chat(1));
    assert_eq!(stamped.get_id(), DatabaseItemID::Chat(1));
}

#[test]
fn plan_backfill_covers_the_gap() {
    let reply = Ok(DatabaseReplyVariant::AddedItem(DatabaseItemID::Tag(5)));
    let ids = plan_backfill(DatabaseItemID::Tag(3), &reply);
    assert_eq!(ids, vec![DatabaseItemID::Tag(3), DatabaseItemID::Tag(4)]);
}

#[test]
fn plan_backfill_empty_for_no_conflict_or_failure() {
    let same = Ok(DatabaseReplyVariant::AddedItem(DatabaseItemID::Tag(3)));
    assert_eq!(plan_backfill(DatabaseItemID::Tag(3), &same).len(), 0);
    assert_eq!(plan_backfill(DatabaseItemID::Tag(3), &Err(())).len(), 0);
    // A cross-category assignment yields no positions to walk.
    let cross = Ok(DatabaseReplyVariant::AddedItem(DatabaseItemID::Chat(9)));
    assert_eq!(plan_backfill(DatabaseItemID::Tag(3), &cross).len(), 0);
}

#[test]
fn conflict_builds_delta_from_fetches() {
    let item = DatabaseItem::Tag(tag(3, "mine"));
    let (delta, final_id, stamped) = get_delta_for_add(
        DatabaseItemID::Tag(3),
        item,
        Ok(DatabaseReplyVariant::AddedItem(DatabaseItemID::Tag(5))),
        vec![
            Ok(DatabaseReplyVariant::ReturnedItem(DatabaseItem::Tag(tag(3, "theirs3")))),
            Ok(DatabaseReplyVariant::ReturnedItem(DatabaseItem::Tag(tag(4, "theirs4")))),
        ],
    );
    assert_eq!(final_id, DatabaseItemID::Tag(5));
    assert_eq!(stamped.get_id(), DatabaseItemID::Tag(5));
    assert_eq!(delta.len(), 2);
    assert_eq!(delta[0].0, DatabaseItemID::Tag(3));
    assert_eq!(delta[1].0, DatabaseItemID::Tag(4));
    match &delta[0].1 {
        DatabaseItem::Tag(t) => assert_eq!(t.name, "theirs3"),
        _ => panic!("wrong entity kind in delta"),
    }
}

#[test]
fn failed_fetch_degrades_to_placeholder() {
    let item = DatabaseItem::Tag(tag(3, "mine"));
    let (delta, final_id, _stamped) = get_delta_for_add(
        DatabaseItemID::Tag(3),
        item,
        Ok(DatabaseReplyVariant::AddedItem(DatabaseItemID::Tag(4))),
        vec![Err(())],
    );
    assert_eq!(final_id, DatabaseItemID::Tag(4));
    assert_eq!(delta.len(), 1);
    assert_eq!(delta[0].0, DatabaseItemID::Tag(3));
    match &delta[0].1 {
        DatabaseItem::Tag(t) => {
            // The placeholder is the client's own entity, stamped with the
            // authoritative identifier.
            assert_eq!(t.name, "mine");
            assert_eq!(t.id, 4);
        }
        _ => panic!("wrong entity kind in delta"),
    }
}

#[test]
fn conflict_remap_fills_gap_and_moves_cursor() {
    // Three tags exist; a fourth is created optimistically at position 3.
    let mut db = ledger_with_tags(3);
    let optimistic = DatabaseItem::Tag(tag(3, "mine"));
    let cursors = apply_server_updates(
        &mut db,
        vec![(DatabaseItemID::Tag(3), optimistic)],
        UserCursors::zero(),
    );
    let mut cursors = cursors;
    cursors.chosen_tag = Some(3);
    cursors.chosen_parent_tag = Some(3);

    // The remote assigned 5; positions 3 and 4 were fetched successfully.
    let item = DatabaseItem::Tag(tag(3, "mine"));
    let (delta, final_id, stamped) = get_delta_for_add(
        DatabaseItemID::Tag(3),
        item,
        Ok(DatabaseReplyVariant::AddedItem(DatabaseItemID::Tag(5))),
        vec![
            Ok(DatabaseReplyVariant::ReturnedItem(DatabaseItem::Tag(tag(3, "theirs3")))),
            Ok(DatabaseReplyVariant::ReturnedItem(DatabaseItem::Tag(tag(4, "theirs4")))),
        ],
    );
    let new_cursors = handle_add_reducible(&mut db, DatabaseItemID::Tag(3), final_id, stamped, cursors, delta);

    // Positions 0 through 5 are all occupied; nothing beyond.
    assert_eq!(db.len_of(Category::Tag), 6);
    for p in 0..6 {
        assert!(db.get_item(DatabaseItemID::Tag(p)).is_some());
    }
    assert!(db.get_item(DatabaseItemID::Tag(6)).is_none());
    // The cursor that pointed at the provisional position follows the entity.
    assert_eq!(new_cursors.chosen_tag, Some(5));
    assert_eq!(new_cursors.chosen_parent_tag, Some(5));
}

#[test]
fn handle_add_shifts_gap_below_the_entity() {
    let mut db = ledger_with_tags(2);
    // Optimistic entity at position 2 is already mirrored locally.
    db.insert_directly(DatabaseItem::Tag(tag(2, "mine")));
    let mut cursors = UserCursors::zero();
    cursors.chosen_tag = Some(2);
    cursors.chosen_access_mode_tags = vec![0, 2];

    let (new_cursors, new_id) = handle_add(
        &mut db,
        DatabaseItemID::Tag(2),
        DatabaseItem::Tag(tag(2, "mine")),
        DatabaseReplyVariant::AddedItem(DatabaseItemID::Tag(3)),
        cursors,
        vec![Ok(DatabaseReplyVariant::ReturnedItem(DatabaseItem::Tag(tag(2, "theirs2"))))],
    );
    assert_eq!(new_id, DatabaseItemID::Tag(3));
    assert_eq!(new_cursors.chosen_tag, Some(3));
    // The provisional member of the tag set moved to the authoritative one.
    assert_eq!(new_cursors.chosen_access_mode_tags, vec![0, 3]);
    // The gap entity slid in below; the created entity now sits at the
    // authoritative position and every position below it is occupied.
    assert_eq!(db.len_of(Category::Tag), 4);
    for p in 0..4 {
        assert!(db.get_item(DatabaseItemID::Tag(p)).is_some());
    }
    match db.get_item(DatabaseItemID::Tag(2)) {
        Some(DatabaseItem::Tag(t)) => assert_eq!(t.name, "theirs2"),
        _ => panic!("gap position not filled"),
    }
    match db.get_item(DatabaseItemID::Tag(3)) {
        Some(DatabaseItem::Tag(t)) => assert_eq!(t.name, "mine"),
        _ => panic!("created entity lost"),
    }
}

#[test]
fn handle_add_conflict_end_to_end() {
    // Two tags exist on both sides; the client's third was created while
    // the store took two concurrent tags, so the store assigns position 4.
    let mut db = ledger_with_tags(2);
    db.insert_directly(DatabaseItem::Tag(tag(2, "mine")));
    let mut cursors = UserCursors::zero();
    cursors.chosen_parent_tag = Some(2);

    let (new_cursors, new_id) = handle_add(
        &mut db,
        DatabaseItemID::Tag(2),
        DatabaseItem::Tag(tag(2, "mine")),
        DatabaseReplyVariant::AddedItem(DatabaseItemID::Tag(4)),
        cursors,
        vec![
            Ok(DatabaseReplyVariant::ReturnedItem(DatabaseItem::Tag(tag(2, "concurrent2")))),
            Ok(DatabaseReplyVariant::ReturnedItem(DatabaseItem::Tag(tag(3, "concurrent3")))),
        ],
    );
    assert_eq!(new_id, DatabaseItemID::Tag(4));
    assert_eq!(db.len_of(Category::Tag), 5);
    for p in 0..5 {
        assert!(db.get_item(DatabaseItemID::Tag(p)).is_some());
    }
    match db.get_item(DatabaseItemID::Tag(2)) {
        Some(DatabaseItem::Tag(t)) => assert_eq!(t.name, "concurrent2"),
        _ => panic!("backfill lost"),
    }
    match db.get_item(DatabaseItemID::Tag(3)) {
        Some(DatabaseItem::Tag(t)) => assert_eq!(t.name, "concurrent3"),
        _ => panic!("backfill lost"),
    }
    match db.get_item(DatabaseItemID::Tag(4)) {
        Some(DatabaseItem::Tag(t)) => assert_eq!(t.name, "mine"),
        _ => panic!("created entity should end at the authoritative position"),
    }
    assert_eq!(new_cursors.chosen_parent_tag, Some(4));
}

#[test]
fn handle_add_no_conflict_is_untouched() {
    let mut db = ledger_with_tags(1);
    let cursors = UserCursors::zero();
    let (new_cursors, new_id) = handle_add(
        &mut db,
        DatabaseItemID::Tag(1),
        DatabaseItem::Tag(tag(1, "mine")),
        DatabaseReplyVariant::AddedItem(DatabaseItemID::Tag(1)),
        cursors,
        vec![],
    );
    assert_eq!(new_id, DatabaseItemID::Tag(1));
    assert_eq!(new_cursors.chosen_tag, None);
    assert_eq!(db.len_of(Category::Tag), 1);
}

#[test]
fn next_id_is_category_length() {
    let db = ledger_with_tags(2);
    let id = get_next_id_for_category(&db, &DatabaseItem::Tag(tag(0, "probe")));
    assert_eq!(id, DatabaseItemID::Tag(2));
    let id = get_next_id_for_category(&db, &DatabaseItem::Chat(chat(0)));
    assert_eq!(id, DatabaseItemID::Chat(0));
}

#[test]
fn conflict_fix_accepts_only_the_count_report() {
    let db = ledger_with_tags(0);
    let ok = get_database_conflict_fix(
        &db,
        Ok(DatabaseReplyVariant::Info(DatabaseInfoReply::NumbersOfItems {
            devices: 0,
            chats: 0,
            folders: 0,
            files: 0,
            tags: 0,
            access_modes: 0,
        })),
    );
    match ok {
        Ok(syncs) => assert_eq!(syncs.len(), 0),
        Err(()) => panic!("count report refused"),
    }
    assert!(get_database_conflict_fix(&db, Err(())).is_err());
    assert!(get_database_conflict_fix(
        &db,
        Ok(DatabaseReplyVariant::AddedItem(DatabaseItemID::Tag(0)))
    )
    .is_err());
}

#[test]
fn overwrite_or_reject_signals_gaps() {
    let mut db = ledger_with_tags(1);
    // A valid existing position overwrites in place.
    assert!(db.overwrite_or_reject(DatabaseItem::Tag(tag(0, "renamed"))));
    match db.get_item(DatabaseItemID::Tag(0)) {
        Some(DatabaseItem::Tag(t)) => assert_eq!(t.name, "renamed"),
        _ => panic!("overwrite lost"),
    }
    // The position one past the end appends.
    assert!(db.overwrite_or_reject(DatabaseItem::Tag(tag(1, "appended"))));
    assert_eq!(db.len_of(Category::Tag), 2);
    // A position beyond the end is a gap: rejected, nothing changes.
    assert!(!db.overwrite_or_reject(DatabaseItem::Tag(tag(5, "gap"))));
    assert_eq!(db.len_of(Category::Tag), 2);
}

#[test]
fn append_raw_pushes_at_the_end() {
    let mut db = ledger_with_tags(1);
    db.append_raw(DatabaseItem::Tag(tag(7, "odd")));
    assert_eq!(db.len_of(Category::Tag), 2);
    match db.get_item(DatabaseItemID::Tag(1)) {
        Some(DatabaseItem::Tag(t)) => assert_eq!(t.name, "odd"),
        _ => panic!("append lost"),
    }
}
