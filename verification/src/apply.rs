//! The update application layer: the single choke point through which every
//! batch of `(identifier, entity)` updates reaches the ledger.  A pair whose
//! position lies beyond the category's length appends; one within bounds
//! overwrites in place; a rejected overwrite (only possible when a batch
//! arrives out of order) shifts the affected category's cursors instead.

use vstd::prelude::*;

use crate::cursors::{UserCursors, cursors_valid};
use crate::ids::{Category, DatabaseItemID, id_category, id_pos};
use crate::items::{DatabaseItem, DatabaseItemModel, item_category, item_id, item_pos};
use crate::ledger::{ClientLedger, LedgerModel, cat_len};

verus! {

/// The append-or-overwrite rule.  `target` is the position the update pair
/// names; `declared` is the position the entity itself carries.  A target at
/// or past the end appends; otherwise the entity's declared position decides:
/// within bounds overwrites, exactly at the end appends, past the end is
/// rejected and leaves the sequence unchanged.
pub open spec fn splice_at<M>(s: Seq<M>, target: int, item: M, declared: int) -> Seq<M> {
    if target >= s.len() {
        s.push(item)
    } else if declared < s.len() {
        s.update(declared, item)
    } else if declared == s.len() {
        s.push(item)
    } else {
        s
    }
}

/// Whether the append-or-overwrite rule rejects the update.
pub open spec fn splice_rejected<M>(s: Seq<M>, target: int, declared: int) -> bool {
    target < s.len() && declared > s.len()
}

/// One update applied to the ledger.  A pair whose identifier and entity
/// disagree on the category leaves the ledger unchanged; categories never
/// interact.
pub open spec fn apply_item(m: LedgerModel, id: DatabaseItemID, item: DatabaseItemModel) -> LedgerModel {
    if id_category(id) != item_category(item) {
        m
    } else {
        match item {
            DatabaseItemModel::AccessMode(x) => LedgerModel {
                access_modes: splice_at(m.access_modes, id_pos(id), x, x.id as int),
                ..m
            },
            DatabaseItemModel::Chat(x) => LedgerModel {
                chats: splice_at(m.chats, id_pos(id), x, x.id as int),
                ..m
            },
            DatabaseItemModel::ChatConfig(x) => LedgerModel {
                configs: splice_at(m.configs, id_pos(id), x, x.id as int),
                ..m
            },
            DatabaseItemModel::Device(x) => LedgerModel {
                devices: splice_at(m.devices, id_pos(id), x, x.id as int),
                ..m
            },
            DatabaseItemModel::File(x) => LedgerModel {
                files: splice_at(m.files, id_pos(id), x, x.id as int),
                ..m
            },
            DatabaseItemModel::Folder(x) => LedgerModel {
                folders: splice_at(m.folders, id_pos(id), x, x.id as int),
                ..m
            },
            DatabaseItemModel::Notification(x) => LedgerModel {
                notifications: splice_at(m.notifications, id_pos(id), x, x.id as int),
                ..m
            },
            DatabaseItemModel::Tag(x) => LedgerModel {
                tags: splice_at(m.tags, id_pos(id), x, x.id as int),
                ..m
            },
            DatabaseItemModel::UserData(u) => LedgerModel { user_data: u, ..m },
        }
    }
}

/// A whole batch applied in order.
pub open spec fn apply_batch(m: LedgerModel, ups: Seq<(DatabaseItemID, DatabaseItemModel)>) -> LedgerModel
    decreases ups.len(),
{
    if ups.len() == 0 {
        m
    } else {
        apply_item(apply_batch(m, ups.drop_last()), ups.last().0, ups.last().1)
    }
}

/// Every pair of a batch names one category consistently.
pub open spec fn pairs_wf(ups: Seq<(DatabaseItemID, DatabaseItemModel)>) -> bool {
    forall|k: int| 0 <= k < ups.len() ==> id_category(#[trigger] ups[k].0) == item_category(ups[k].1)
}

pub proof fn lemma_apply_item_len(m: LedgerModel, id: DatabaseItemID, item: DatabaseItemModel)
    ensures
        forall|c: Category|
            cat_len(m, c) <= #[trigger] cat_len(apply_item(m, id, item), c) <= cat_len(m, c) + 1,
{
}

/// Applying a batch never shrinks a category.
pub proof fn lemma_apply_batch_len(m: LedgerModel, ups: Seq<(DatabaseItemID, DatabaseItemModel)>)
    ensures
        forall|c: Category| cat_len(m, c) <= #[trigger] cat_len(apply_batch(m, ups), c),
    decreases ups.len(),
{
    if ups.len() > 0 {
        lemma_apply_batch_len(m, ups.drop_last());
        lemma_apply_item_len(apply_batch(m, ups.drop_last()), ups.last().0, ups.last().1);
    }
}

fn splice_vec<T: DeepView>(v: &mut Vec<T>, target: usize, item: T, declared: usize) -> (accepted: bool)
    ensures
        final(v).deep_view() == splice_at(
            old(v).deep_view(),
            target as int,
            item.deep_view(),
            declared as int,
        ),
        accepted == !splice_rejected(old(v).deep_view(), target as int, declared as int),
{
    let ghost prev = v.deep_view();
    let ghost im = item.deep_view();
    if target >= v.len() {
        v.push(item);
        assert(v.deep_view() =~= prev.push(im));
        true
    } else if declared < v.len() {
        v.set(declared, item);
        assert(v.deep_view() =~= prev.update(declared as int, im));
        true
    } else if declared == v.len() {
        v.push(item);
        assert(v.deep_view() =~= prev.push(im));
        true
    } else {
        false
    }
}

/// An entity pushed onto the end of its category's sequence, wherever its
/// declared position points.
pub open spec fn append_item(m: LedgerModel, item: DatabaseItemModel) -> LedgerModel {
    match item {
        DatabaseItemModel::AccessMode(x) => LedgerModel { access_modes: m.access_modes.push(x), ..m },
        DatabaseItemModel::Chat(x) => LedgerModel { chats: m.chats.push(x), ..m },
        DatabaseItemModel::ChatConfig(x) => LedgerModel { configs: m.configs.push(x), ..m },
        DatabaseItemModel::Device(x) => LedgerModel { devices: m.devices.push(x), ..m },
        DatabaseItemModel::File(x) => LedgerModel { files: m.files.push(x), ..m },
        DatabaseItemModel::Folder(x) => LedgerModel { folders: m.folders.push(x), ..m },
        DatabaseItemModel::Notification(x) => LedgerModel { notifications: m.notifications.push(x), ..m },
        DatabaseItemModel::Tag(x) => LedgerModel { tags: m.tags.push(x), ..m },
        DatabaseItemModel::UserData(u) => LedgerModel { user_data: u, ..m },
    }
}

fn push_entity<T: DeepView>(v: &mut Vec<T>, item: T)
    ensures
        final(v).deep_view() == old(v).deep_view().push(item.deep_view()),
{
    let ghost prev = v.deep_view();
    let ghost im = item.deep_view();
    v.push(item);
    assert(v.deep_view() =~= prev.push(im));
}

/// The shifting insert: the entity enters at its declared position and
/// everything at or above that position moves up by one, so the sequence
/// always grows by exactly one.  A position at or past the end appends.
pub open spec fn insert_at<M>(s: Seq<M>, declared: int, item: M) -> Seq<M> {
    if declared >= s.len() {
        s.push(item)
    } else {
        s.insert(declared, item)
    }
}

/// One entity written into the ledger by the shifting-insert rule, at its
/// own declared position.
pub open spec fn insert_item_shifted(m: LedgerModel, item: DatabaseItemModel) -> LedgerModel {
    match item {
        DatabaseItemModel::AccessMode(x) => LedgerModel {
            access_modes: insert_at(m.access_modes, x.id as int, x),
            ..m
        },
        DatabaseItemModel::Chat(x) => LedgerModel { chats: insert_at(m.chats, x.id as int, x), ..m },
        DatabaseItemModel::ChatConfig(x) => LedgerModel {
            configs: insert_at(m.configs, x.id as int, x),
            ..m
        },
        DatabaseItemModel::Device(x) => LedgerModel {
            devices: insert_at(m.devices, x.id as int, x),
            ..m
        },
        DatabaseItemModel::File(x) => LedgerModel { files: insert_at(m.files, x.id as int, x), ..m },
        DatabaseItemModel::Folder(x) => LedgerModel {
            folders: insert_at(m.folders, x.id as int, x),
            ..m
        },
        DatabaseItemModel::Notification(x) => LedgerModel {
            notifications: insert_at(m.notifications, x.id as int, x),
            ..m
        },
        DatabaseItemModel::Tag(x) => LedgerModel { tags: insert_at(m.tags, x.id as int, x), ..m },
        DatabaseItemModel::UserData(u) => LedgerModel { user_data: u, ..m },
    }
}

fn insert_vec_shifted<T: DeepView>(v: &mut Vec<T>, declared: usize, item: T)
    ensures
        final(v).deep_view() == insert_at(old(v).deep_view(), declared as int, item.deep_view()),
{
    let ghost prev = v.deep_view();
    let ghost im = item.deep_view();
    if declared >= v.len() {
        v.push(item);
        assert(v.deep_view() =~= prev.push(im));
    } else {
        v.insert(declared, item);
        assert(v.deep_view() =~= prev.insert(declared as int, im));
    }
}

impl ClientLedger {
    /// Pushes an entity onto its category's sequence, used when an inbound
    /// entity's position equals the current length.  The user-data singleton
    /// has no sequence; it is replaced.
    pub fn append_raw(&mut self, item: DatabaseItem)
        ensures
            final(self)@ == append_item(old(self)@, item.deep_view()),
    {
        let ghost m0 = self@;
        let ghost im = item.deep_view();
        match item {
            DatabaseItem::AccessMode(x) => push_entity(&mut self.access_modes, x),
            DatabaseItem::Chat(x) => push_entity(&mut self.chats, x),
            DatabaseItem::ChatConfig(x) => push_entity(&mut self.configs, x),
            DatabaseItem::Device(x) => push_entity(&mut self.devices, x),
            DatabaseItem::File(x) => push_entity(&mut self.files, x),
            DatabaseItem::Folder(x) => push_entity(&mut self.folders, x),
            DatabaseItem::Notification(x) => push_entity(&mut self.notifications, x),
            DatabaseItem::Tag(x) => push_entity(&mut self.tags, x),
            DatabaseItem::UserData(x) => {
                self.user_data = x;
            }
        }
        assert(self@ =~= append_item(m0, im));
    }

    /// The append-or-overwrite rule at the entity's own declared position: a
    /// valid existing position overwrites, the position one past the end
    /// appends, and anything beyond is rejected — the answer `false` tells
    /// the caller that a gap exists.
    pub fn overwrite_or_reject(&mut self, item: DatabaseItem) -> (accepted: bool)
        ensures
            accepted == (item_pos(item.deep_view()) <= cat_len(
                old(self)@,
                item_category(item.deep_view()),
            )),
            accepted ==> final(self)@ == apply_item(
                old(self)@,
                item_id(item.deep_view()),
                item.deep_view(),
            ),
            !accepted ==> final(self)@ == old(self)@,
    {
        let declared = item.pos();
        let n = self.len_of(item.category());
        if declared > n {
            return false;
        }
        self.apply_at_own_position(item);
        true
    }

    /// Plain append-or-overwrite at the entity's own declared position, with
    /// no cursor side effects.
    fn apply_at_own_position(&mut self, item: DatabaseItem)
        ensures
            final(self)@ == apply_item(old(self)@, item_id(item.deep_view()), item.deep_view()),
    {
        let ghost m0 = self@;
        let ghost im = item.deep_view();
        match item {
            DatabaseItem::AccessMode(x) => {
                let declared = x.id;
                splice_vec(&mut self.access_modes, declared, x, declared);
            }
            DatabaseItem::Chat(x) => {
                let declared = x.id;
                splice_vec(&mut self.chats, declared, x, declared);
            }
            DatabaseItem::ChatConfig(x) => {
                let declared = x.id;
                splice_vec(&mut self.configs, declared, x, declared);
            }
            DatabaseItem::Device(x) => {
                let declared = x.id;
                splice_vec(&mut self.devices, declared, x, declared);
            }
            DatabaseItem::File(x) => {
                let declared = x.id;
                splice_vec(&mut self.files, declared, x, declared);
            }
            DatabaseItem::Folder(x) => {
                let declared = x.id;
                splice_vec(&mut self.folders, declared, x, declared);
            }
            DatabaseItem::Notification(x) => {
                let declared = x.id;
                splice_vec(&mut self.notifications, declared, x, declared);
            }
            DatabaseItem::Tag(x) => {
                let declared = x.id;
                splice_vec(&mut self.tags, declared, x, declared);
            }
            DatabaseItem::UserData(x) => {
                self.user_data = x;
            }
        }
        assert(self@ =~= apply_item(m0, item_id(im), im));
    }

    /// Writes an entity straight into the ledger at its declared position,
    /// shifting every entity at or above that position up by one; a position
    /// at or past the end appends.  This is how backfilled entities reach
    /// the ledger on the direct reconciliation path: the optimistic entity
    /// drifts upward as the gap fills beneath it.
    pub fn insert_directly(&mut self, item: DatabaseItem)
        ensures
            final(self)@ == insert_item_shifted(old(self)@, item.deep_view()),
    {
        let ghost m0 = self@;
        let ghost im = item.deep_view();
        match item {
            DatabaseItem::AccessMode(x) => {
                let declared = x.id;
                insert_vec_shifted(&mut self.access_modes, declared, x);
            }
            DatabaseItem::Chat(x) => {
                let declared = x.id;
                insert_vec_shifted(&mut self.chats, declared, x);
            }
            DatabaseItem::ChatConfig(x) => {
                let declared = x.id;
                insert_vec_shifted(&mut self.configs, declared, x);
            }
            DatabaseItem::Device(x) => {
                let declared = x.id;
                insert_vec_shifted(&mut self.devices, declared, x);
            }
            DatabaseItem::File(x) => {
                let declared = x.id;
                insert_vec_shifted(&mut self.files, declared, x);
            }
            DatabaseItem::Folder(x) => {
                let declared = x.id;
                insert_vec_shifted(&mut self.folders, declared, x);
            }
            DatabaseItem::Notification(x) => {
                let declared = x.id;
                insert_vec_shifted(&mut self.notifications, declared, x);
            }
            DatabaseItem::Tag(x) => {
                let declared = x.id;
                insert_vec_shifted(&mut self.tags, declared, x);
            }
            DatabaseItem::UserData(x) => {
                self.user_data = x;
            }
        }
        assert(self@ =~= insert_item_shifted(m0, im));
    }
}

/// Splices a batch of server-supplied updates into the ledger, and answers
/// the cursor bundle that goes with the new ledger.  Under the cursor
/// validity invariant no cursor can sit at or past a rejected position, so
/// the returned bundle equals the one passed in; the ledger's new contents
/// are exactly `apply_batch` of the old.
pub fn apply_server_updates(
    client_db: &mut ClientLedger,
    updates: Vec<(DatabaseItemID, DatabaseItem)>,
    cursors: UserCursors,
) -> (new_cursors: UserCursors)
    requires
        pairs_wf(updates.deep_view()),
        cursors_valid(cursors@, old(client_db)@),
    ensures
        final(client_db)@ == apply_batch(old(client_db)@, updates.deep_view()),
        new_cursors@ == cursors@,
        cursors_valid(new_cursors@, final(client_db)@),
{
    let ghost m0 = client_db@;
    let ghost ups = updates.deep_view();
    let mut new_cursors = cursors.clone();
    let mut i: usize = 0;
    while i < updates.len()
        invariant
            i <= updates@.len(),
            ups == updates.deep_view(),
            ups.len() == updates@.len(),
            pairs_wf(ups),
            client_db@ == apply_batch(m0, ups.take(i as int)),
            new_cursors@ == cursors@,
            cursors_valid(cursors@, client_db@),
        decreases updates@.len() - i,
    {
        let ghost mi = client_db@;
        let pair = &updates[i];
        let id = pair.0;
        let item = pair.1.clone();
        proof {
            assert(ups[i as int] == updates@[i as int].deep_view());
            assert(ups[i as int].0 == id);
            assert(ups[i as int].1 == item.deep_view());
        }
        let target = id.pos();
        match item {
            DatabaseItem::AccessMode(x) => {
                let declared = x.id;
                let accepted = splice_vec(&mut client_db.access_modes, target, x, declared);
                if !accepted {
                    // A rejected overwrite means an insertion landed below
                    // existing positions, so selections at or past it shift.
                    match cursors.access_mode_for_modification {
                        Some(am) => {
                            if am >= declared {
                                new_cursors.access_mode_for_modification = Some(am + 1);
                            }
                        }
                        None => {}
                    }
                    if cursors.chosen_access_mode >= declared {
                        new_cursors.chosen_access_mode = new_cursors.chosen_access_mode + 1;
                    }
                }
            }
            DatabaseItem::Chat(x) => {
                let declared = x.id;
                let accepted = splice_vec(&mut client_db.chats, target, x, declared);
                if !accepted {
                    match cursors.chosen_chat {
                        Some(c) => {
                            if c >= declared {
                                new_cursors.chosen_chat = Some(c + 1);
                            }
                        }
                        None => {}
                    }
                }
            }
            DatabaseItem::ChatConfig(x) => {
                let declared = x.id;
                let accepted = splice_vec(&mut client_db.configs, target, x, declared);
                if !accepted {
                    match cursors.chosen_config {
                        Some(c) => {
                            if c >= declared {
                                new_cursors.chosen_config = Some(c + 1);
                            }
                        }
                        None => {}
                    }
                    match cursors.config_for_modification {
                        Some(c) => {
                            if c >= declared {
                                new_cursors.config_for_modification = Some(c + 1);
                            }
                        }
                        None => {}
                    }
                }
            }
            DatabaseItem::Device(x) => {
                let declared = x.id;
                splice_vec(&mut client_db.devices, target, x, declared);
            }
            DatabaseItem::File(x) => {
                let declared = x.id;
                splice_vec(&mut client_db.files, target, x, declared);
            }
            DatabaseItem::Folder(x) => {
                let declared = x.id;
                splice_vec(&mut client_db.folders, target, x, declared);
            }
            DatabaseItem::Notification(x) => {
                let declared = x.id;
                splice_vec(&mut client_db.notifications, target, x, declared);
            }
            DatabaseItem::Tag(x) => {
                let declared = x.id;
                let accepted = splice_vec(&mut client_db.tags, target, x, declared);
                if !accepted {
                    match cursors.chosen_tag {
                        Some(t) => {
                            if t >= declared {
                                new_cursors.chosen_tag = Some(t + 1);
                            }
                        }
                        None => {}
                    }
                    match cursors.chosen_parent_tag {
                        Some(t) => {
                            if t >= declared {
                                new_cursors.chosen_parent_tag = Some(t + 1);
                            }
                        }
                        None => {}
                    }
                    let mut shifted: Vec<usize> = Vec::new();
                    let mut k: usize = 0;
                    while k < cursors.chosen_access_mode_tags.len()
                        invariant
                            k <= cursors.chosen_access_mode_tags@.len(),
                            shifted@ == cursors@.chosen_access_mode_tags.take(k as int),
                            forall|j: int|
                                0 <= j < cursors@.chosen_access_mode_tags.len()
                                    ==> (#[trigger] cursors@.chosen_access_mode_tags[j] as int)
                                        < declared as int,
                        decreases cursors.chosen_access_mode_tags@.len() - k,
                    {
                        let t = cursors.chosen_access_mode_tags[k];
                        assert(t == cursors@.chosen_access_mode_tags[k as int]);
                        if t >= declared {
                            shifted.push(t + 1);
                        } else {
                            shifted.push(t);
                        }
                        k = k + 1;
                        assert(shifted@ =~= cursors@.chosen_access_mode_tags.take(k as int));
                    }
                    assert(shifted@ =~= cursors@.chosen_access_mode_tags);
                    new_cursors.chosen_access_mode_tags = shifted;
                }
            }
            DatabaseItem::UserData(x) => {
                client_db.user_data = x;
            }
        }
        proof {
            assert(client_db@ =~= apply_item(mi, ups[i as int].0, ups[i as int].1));
            assert(ups.take(i as int + 1).drop_last() =~= ups.take(i as int));
            assert(client_db@ == apply_batch(m0, ups.take(i as int + 1)));
            lemma_apply_item_len(mi, ups[i as int].0, ups[i as int].1);
            crate::cursors::lemma_cursors_valid_monotone(cursors@, mi, client_db@);
            assert(new_cursors@ =~= cursors@);
        }
        i = i + 1;
    }
    proof {
        assert(ups.take(ups.len() as int) =~= ups);
    }
    new_cursors
}

} // verus!
