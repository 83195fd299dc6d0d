//! The single serialized transition channel: every ledger, cursor and
//! streaming mutation of a session goes through `DatabaseState::reduce`,
//! one action at a time.  The reducer establishes, for every transition,
//! that no cursor dangles afterwards and that the ledger's categories stay
//! dense.

use vstd::prelude::*;

use crate::apply::{apply_batch, apply_item, apply_server_updates, pairs_wf};
use crate::cursors::{CursorsModel, UserCursors, cursors_valid};
use crate::ids::{Category, DatabaseItemID, id_category, id_pos};
use crate::items::{ChatSetting, DatabaseItem, Notification, NotificationModel, item_category};
use crate::ledger::{ClientLedger, LedgerModel, cat_len};
use crate::reconcile::{
    delta_shape, handle_add_reducible, keep_not, lemma_filter_members_bound, remap_cursors,
    retain_not,
};
use crate::stream::{
    EndpointResponseVariant, StreamRecord, StreamRecordModel, apply_stream_event, stream_step,
    streams_wf,
};

verus! {

/// Everything a session mutates: the ledger mirror, the cursor bundle, and
/// the streaming accumulator's tracking state.
pub struct DatabaseState {
    pub db: ClientLedger,
    pub cursors: UserCursors,
    pub token_streams: Vec<StreamRecord>,
}

#[verifier::ext_equal]
pub struct DatabaseStateModel {
    pub db: LedgerModel,
    pub cursors: CursorsModel,
    pub token_streams: Seq<StreamRecordModel>,
}

impl View for DatabaseState {
    type V = DatabaseStateModel;

    open spec fn view(&self) -> DatabaseStateModel {
        DatabaseStateModel {
            db: self.db@,
            cursors: self.cursors@,
            token_streams: self.token_streams.deep_view(),
        }
    }
}

/// The session invariant: every cursor refers to an existing entity or is
/// cleared, and the accumulator tracks each chat at most once.
pub open spec fn state_wf(s: DatabaseStateModel) -> bool {
    &&& cursors_valid(s.cursors, s.db)
    &&& streams_wf(s.token_streams)
}

/// The transition vocabulary the tabs dispatch.
pub enum DatabaseAction {
    SetTab(usize),
    SetChat(Option<usize>),
    SetAccessMode(usize),
    SetModifiedAM(Option<usize>),
    SetModifiedTag(Option<usize>),
    SetParentTag(Option<usize>),
    SetTagsForAM(Vec<usize>),
    AddToTagsForAM(usize),
    RemoveFromTagsForAM(usize),
    ChangeUsedChatConfig(Option<usize>),
    SetModifiedConfig(Option<usize>),
    SetConfigSettingID(Option<usize>),
    SetCurrentSetting(Option<ChatSetting>),
    /// Splice a batch of server updates into the ledger.
    ApplyUpdates(Vec<(DatabaseItemID, DatabaseItem)>),
    /// Apply a reconciled add: the backfill delta, the authoritative
    /// identifier, and the entity stamped with it.
    AddItem(Vec<(DatabaseItemID, DatabaseItem)>, DatabaseItemID, DatabaseItem),
    /// Remove a notification.  Removal keeps the category dense: survivors
    /// slide down one position and are restamped to their new positions.  No
    /// cursor ever points at a notification, so the renumbering breaks no
    /// outstanding reference; for the cursor-bearing categories positional
    /// identity leaves removal unresolved, and the action changes nothing.
    RemoveItem(DatabaseItemID),
    /// One push-transport event for the streaming accumulator: the chat it
    /// belongs to, the event, and the time of receipt in milliseconds.  The
    /// accumulator's garbage collection runs at the start of each of these
    /// transitions — the only ones that carry a clock; the other actions
    /// leave the tracking state untouched.
    StreamToken(usize, EndpointResponseVariant, u64),
}

/// The provisional identifier an `AddItem` action reconciled from: the first
/// backfill position, or the authoritative identifier itself when nothing
/// was backfilled.
pub open spec fn add_item_local(
    delta: Seq<(DatabaseItemID, crate::items::DatabaseItemModel)>,
    new_id: DatabaseItemID,
) -> DatabaseItemID {
    if delta.len() == 0 {
        new_id
    } else {
        delta[0].0
    }
}

/// The notification sequence with every survivor restamped to its
/// position, so that stored identifier and position agree after a removal.
pub open spec fn renumbered_notifications(s: Seq<NotificationModel>) -> Seq<NotificationModel> {
    Seq::new(s.len(), |j: int| NotificationModel { id: j as usize, ..s[j] })
}

/// What each action asks of the state it is dispatched against: cursor
/// setters point into their category, and an add arrives with the shape the
/// reconciliation engine guarantees.
pub open spec fn action_valid(s: DatabaseStateModel, a: DatabaseAction) -> bool {
    match a {
        DatabaseAction::SetTab(_) => true,
        DatabaseAction::SetChat(c) => c matches Some(i) ==> (i as int) < cat_len(
            s.db,
            Category::Chat,
        ),
        DatabaseAction::SetAccessMode(i) => (i as int) < cat_len(s.db, Category::AccessMode) || (
        cat_len(s.db, Category::AccessMode) == 0 && i == 0),
        DatabaseAction::SetModifiedAM(c) => c matches Some(i) ==> (i as int) < cat_len(
            s.db,
            Category::AccessMode,
        ),
        DatabaseAction::SetModifiedTag(c) => c matches Some(i) ==> (i as int) < cat_len(
            s.db,
            Category::Tag,
        ),
        DatabaseAction::SetParentTag(c) => c matches Some(i) ==> (i as int) < cat_len(
            s.db,
            Category::Tag,
        ),
        DatabaseAction::SetTagsForAM(v) => forall|k: int|
            0 <= k < v.deep_view().len() ==> (#[trigger] v.deep_view()[k] as int) < cat_len(
                s.db,
                Category::Tag,
            ),
        DatabaseAction::AddToTagsForAM(t) => (t as int) < cat_len(s.db, Category::Tag),
        DatabaseAction::RemoveFromTagsForAM(_) => true,
        DatabaseAction::ChangeUsedChatConfig(c) => c matches Some(i) ==> (i as int) < cat_len(
            s.db,
            Category::ChatConfiguration,
        ),
        DatabaseAction::SetModifiedConfig(c) => c matches Some(i) ==> (i as int) < cat_len(
            s.db,
            Category::ChatConfiguration,
        ),
        DatabaseAction::SetConfigSettingID(_) => true,
        DatabaseAction::SetCurrentSetting(_) => true,
        DatabaseAction::ApplyUpdates(ups) => pairs_wf(ups.deep_view()),
        DatabaseAction::AddItem(delta, new_id, new_item) => {
            let local = add_item_local(delta.deep_view(), new_id);
            &&& pairs_wf(delta.deep_view())
            &&& delta_shape(delta.deep_view(), local, new_id)
            &&& item_category(new_item.deep_view()) == id_category(new_id)
            &&& id_pos(local) <= cat_len(s.db, id_category(local))
        },
        DatabaseAction::RemoveItem(_) => true,
        DatabaseAction::StreamToken(_, _, _) => true,
    }
}

fn contains_pos(v: &Vec<usize>, x: usize) -> (found: bool)
    ensures
        found == v@.contains(x),
{
    let mut k: usize = 0;
    while k < v.len()
        invariant
            k <= v@.len(),
            forall|j: int| 0 <= j < k ==> v@[j] != x,
        decreases v@.len() - k,
    {
        if v[k] == x {
            assert(v@[k as int] == x);
            return true;
        }
        k = k + 1;
    }
    assert(!v@.contains(x));
    false
}

impl DatabaseState {
    /// A session over an already-loaded ledger; nothing is being streamed
    /// yet.
    pub fn new_session(db: ClientLedger, cursors: UserCursors) -> (s: Self)
        ensures
            s@.db == db@,
            s@.cursors == cursors@,
            s@.token_streams.len() == 0,
    {
        let s = DatabaseState { db, cursors, token_streams: Vec::new() };
        proof {
            assert(s@.token_streams =~= Seq::<StreamRecordModel>::empty());
        }
        s
    }

    /// One serialized state transition.  Every mutation of the session goes
    /// through here; afterwards the session invariant still holds: every
    /// `Some` cursor refers to an existing entity of its category, and the
    /// ledger's occupied positions are exactly the unbroken range below each
    /// category's length.
    pub fn reduce(self, action: DatabaseAction) -> (next: Self)
        requires
            state_wf(self@),
            action_valid(self@, action),
        ensures
            state_wf(next@),
            ({
                let s0 = self@;
                match action {
                    DatabaseAction::SetTab(t) => next@ == (DatabaseStateModel {
                        cursors: CursorsModel { chosen_tab: t, ..s0.cursors },
                        ..s0
                    }),
                    DatabaseAction::SetChat(c) => next@ == (DatabaseStateModel {
                        cursors: CursorsModel { chosen_chat: c, ..s0.cursors },
                        ..s0
                    }),
                    DatabaseAction::SetAccessMode(i) => next@ == (DatabaseStateModel {
                        cursors: CursorsModel { chosen_access_mode: i, ..s0.cursors },
                        ..s0
                    }),
                    DatabaseAction::SetModifiedAM(c) => next@ == (DatabaseStateModel {
                        cursors: CursorsModel { access_mode_for_modification: c, ..s0.cursors },
                        ..s0
                    }),
                    DatabaseAction::SetModifiedTag(c) => next@ == (DatabaseStateModel {
                        cursors: CursorsModel { chosen_tag: c, ..s0.cursors },
                        ..s0
                    }),
                    DatabaseAction::SetParentTag(c) => next@ == (DatabaseStateModel {
                        cursors: CursorsModel { chosen_parent_tag: c, ..s0.cursors },
                        ..s0
                    }),
                    DatabaseAction::SetTagsForAM(v) => next@ == (DatabaseStateModel {
                        cursors: CursorsModel {
                            chosen_access_mode_tags: v.deep_view(),
                            ..s0.cursors
                        },
                        ..s0
                    }),
                    DatabaseAction::AddToTagsForAM(t) => next@ == (DatabaseStateModel {
                        cursors: CursorsModel {
                            chosen_access_mode_tags: if s0.cursors.chosen_access_mode_tags.contains(
                                t,
                            ) {
                                s0.cursors.chosen_access_mode_tags
                            } else {
                                s0.cursors.chosen_access_mode_tags.push(t)
                            },
                            ..s0.cursors
                        },
                        ..s0
                    }),
                    DatabaseAction::RemoveFromTagsForAM(t) => next@ == (DatabaseStateModel {
                        cursors: CursorsModel {
                            chosen_access_mode_tags: s0.cursors.chosen_access_mode_tags.filter(
                                keep_not(t),
                            ),
                            ..s0.cursors
                        },
                        ..s0
                    }),
                    DatabaseAction::ChangeUsedChatConfig(c) => next@ == (DatabaseStateModel {
                        cursors: CursorsModel { chosen_config: c, ..s0.cursors },
                        ..s0
                    }),
                    DatabaseAction::SetModifiedConfig(c) => next@ == (DatabaseStateModel {
                        cursors: CursorsModel { config_for_modification: c, ..s0.cursors },
                        ..s0
                    }),
                    DatabaseAction::SetConfigSettingID(c) => next@ == (DatabaseStateModel {
                        cursors: CursorsModel { chosen_setting: c, ..s0.cursors },
                        ..s0
                    }),
                    DatabaseAction::SetCurrentSetting(v) => next@ == (DatabaseStateModel {
                        cursors: CursorsModel {
                            setting_for_modification: v.deep_view(),
                            ..s0.cursors
                        },
                        ..s0
                    }),
                    DatabaseAction::ApplyUpdates(ups) => {
                        &&& next@.db == apply_batch(s0.db, ups.deep_view())
                        &&& next@.cursors == s0.cursors
                        &&& next@.token_streams == s0.token_streams
                    },
                    DatabaseAction::AddItem(delta, new_id, new_item) => {
                        let local = add_item_local(delta.deep_view(), new_id);
                        &&& next@.db == apply_item(
                            apply_batch(s0.db, delta.deep_view()),
                            new_id,
                            new_item.deep_view(),
                        )
                        &&& next@.cursors == remap_cursors(s0.cursors, local, new_id)
                        &&& next@.token_streams == s0.token_streams
                    },
                    DatabaseAction::RemoveItem(id) => match id {
                        DatabaseItemID::Notification(p) => if (p as int)
                            < s0.db.notifications.len() {
                            next@ == (DatabaseStateModel {
                                db: LedgerModel {
                                    notifications: renumbered_notifications(
                                        s0.db.notifications.remove(p as int),
                                    ),
                                    ..s0.db
                                },
                                ..s0
                            })
                        } else {
                            next@ == s0
                        },
                        _ => next@ == s0,
                    },
                    DatabaseAction::StreamToken(chat, ev, now) => {
                        let (m1, rs1, _) = stream_step(
                            s0.db,
                            s0.token_streams,
                            chat,
                            ev.deep_view(),
                            now,
                        );
                        next@ == (DatabaseStateModel { db: m1, token_streams: rs1, ..s0 })
                    },
                }
            }),
    {
        let ghost s0 = self@;
        let mut db = self.db;
        let mut cursors = self.cursors;
        let mut token_streams = self.token_streams;
        match action {
            DatabaseAction::SetTab(t) => {
                cursors.chosen_tab = t;
                assert(cursors@ =~= (CursorsModel { chosen_tab: t, ..s0.cursors }));
            }
            DatabaseAction::SetChat(c) => {
                cursors.chosen_chat = c;
                assert(cursors@ =~= (CursorsModel { chosen_chat: c, ..s0.cursors }));
            }
            DatabaseAction::SetAccessMode(i) => {
                cursors.chosen_access_mode = i;
                assert(cursors@ =~= (CursorsModel { chosen_access_mode: i, ..s0.cursors }));
            }
            DatabaseAction::SetModifiedAM(c) => {
                cursors.access_mode_for_modification = c;
                assert(cursors@ =~= (CursorsModel { access_mode_for_modification: c, ..s0.cursors }));
            }
            DatabaseAction::SetModifiedTag(c) => {
                cursors.chosen_tag = c;
                assert(cursors@ =~= (CursorsModel { chosen_tag: c, ..s0.cursors }));
            }
            DatabaseAction::SetParentTag(c) => {
                cursors.chosen_parent_tag = c;
                assert(cursors@ =~= (CursorsModel { chosen_parent_tag: c, ..s0.cursors }));
            }
            DatabaseAction::SetTagsForAM(v) => {
                cursors.chosen_access_mode_tags = v;
                assert(cursors@ =~= (CursorsModel {
                    chosen_access_mode_tags: v.deep_view(),
                    ..s0.cursors
                }));
            }
            DatabaseAction::AddToTagsForAM(t) => {
                proof {
                    assert(cursors.chosen_access_mode_tags.deep_view()
                        =~= cursors.chosen_access_mode_tags@);
                }
                if !contains_pos(&cursors.chosen_access_mode_tags, t) {
                    let ghost prev = cursors.chosen_access_mode_tags.deep_view();
                    cursors.chosen_access_mode_tags.push(t);
                    proof {
                        assert(cursors.chosen_access_mode_tags.deep_view() =~= prev.push(t));
                        assert(cursors@ =~= (CursorsModel {
                            chosen_access_mode_tags: s0.cursors.chosen_access_mode_tags.push(t),
                            ..s0.cursors
                        }));
                    }
                } else {
                    assert(s0.cursors.chosen_access_mode_tags.contains(t));
                    assert(cursors@ =~= (CursorsModel {
                        chosen_access_mode_tags: s0.cursors.chosen_access_mode_tags,
                        ..s0.cursors
                    }));
                }
            }
            DatabaseAction::RemoveFromTagsForAM(t) => {
                let kept = retain_not(&cursors.chosen_access_mode_tags, t);
                proof {
                    assert(cursors.chosen_access_mode_tags.deep_view()
                        =~= cursors.chosen_access_mode_tags@);
                    lemma_filter_members_bound(
                        cursors.chosen_access_mode_tags@,
                        keep_not(t),
                        cat_len(s0.db, Category::Tag),
                    );
                    assert(kept@ =~= kept.deep_view());
                }
                cursors.chosen_access_mode_tags = kept;
                assert(cursors@ =~= (CursorsModel {
                    chosen_access_mode_tags: s0.cursors.chosen_access_mode_tags.filter(keep_not(t)),
                    ..s0.cursors
                }));
            }
            DatabaseAction::ChangeUsedChatConfig(c) => {
                cursors.chosen_config = c;
                assert(cursors@ =~= (CursorsModel { chosen_config: c, ..s0.cursors }));
            }
            DatabaseAction::SetModifiedConfig(c) => {
                cursors.config_for_modification = c;
                assert(cursors@ =~= (CursorsModel { config_for_modification: c, ..s0.cursors }));
            }
            DatabaseAction::SetConfigSettingID(c) => {
                cursors.chosen_setting = c;
                assert(cursors@ =~= (CursorsModel { chosen_setting: c, ..s0.cursors }));
            }
            DatabaseAction::SetCurrentSetting(v) => {
                cursors.setting_for_modification = v;
                assert(cursors@ =~= (CursorsModel {
                    setting_for_modification: v.deep_view(),
                    ..s0.cursors
                }));
            }
            DatabaseAction::ApplyUpdates(ups) => {
                cursors = apply_server_updates(&mut db, ups, cursors);
            }
            DatabaseAction::AddItem(delta, new_id, new_item) => {
                let local = if delta.len() == 0 {
                    new_id
                } else {
                    let first = &delta[0];
                    first.0
                };
                proof {
                    assert(delta.deep_view().len() == delta@.len());
                    if delta@.len() > 0 {
                        assert(delta.deep_view()[0] == delta@[0].deep_view());
                    }
                    assert(local == add_item_local(delta.deep_view(), new_id));
                }
                cursors = handle_add_reducible(&mut db, local, new_id, new_item, cursors, delta);
            }
            DatabaseAction::RemoveItem(id) => {
                match id {
                    DatabaseItemID::Notification(p) => {
                        if p < db.notifications.len() {
                            let ghost prev = db.notifications.deep_view();
                            db.notifications.remove(p);
                            proof {
                                assert(db.notifications.deep_view() =~= prev.remove(p as int));
                            }
                            let ghost rem = db.notifications.deep_view();
                            let mut renum: Vec<Notification> = Vec::new();
                            let mut j: usize = 0;
                            while j < db.notifications.len()
                                invariant
                                    j <= db.notifications@.len(),
                                    rem == db.notifications.deep_view(),
                                    rem.len() == db.notifications@.len(),
                                    renum.deep_view().len() == j,
                                    forall|i: int|
                                        0 <= i < j ==> #[trigger] renum.deep_view()[i]
                                            == (NotificationModel { id: i as usize, ..rem[i] }),
                                decreases db.notifications@.len() - j,
                            {
                                let mut survivor = db.notifications[j].clone();
                                survivor.id = j;
                                let ghost before = renum.deep_view();
                                let ghost sm = survivor.deep_view();
                                renum.push(survivor);
                                proof {
                                    assert(renum.deep_view() =~= before.push(sm));
                                }
                                j = j + 1;
                            }
                            db.notifications = renum;
                            proof {
                                assert(db.notifications.deep_view()
                                    =~= renumbered_notifications(rem));
                            }
                        }
                    }
                    _ => {}
                }
            }
            DatabaseAction::StreamToken(chat, ev, now) => {
                apply_stream_event(&mut db, &mut token_streams, chat, ev, now);
                proof {
                    crate::stream::lemma_stream_step_frame(
                        s0.db,
                        s0.token_streams,
                        chat,
                        ev.deep_view(),
                        now,
                    );
                }
            }
        }
        let next = DatabaseState { db, cursors, token_streams };
        next
    }
}

} // verus!
