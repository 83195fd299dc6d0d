//! The reconciliation engine.  A client stamps a new entity with a
//! provisional identifier and applies it optimistically; once the remote
//! store answers, the engine compares the assigned identifier with the
//! guess, plans the backfill fetches for the gap between them, builds the
//! delta to splice in, and remaps every cursor that pointed at the
//! provisional identifier.  The remote calls themselves are the driver's
//! business: every function here takes the calls' outcomes as arguments and
//! is verified for all of them.

use vstd::prelude::*;

use crate::apply::{
    apply_batch, apply_item, apply_server_updates, insert_item_shifted, lemma_apply_batch_len,
    lemma_apply_item_len, pairs_wf,
};
use crate::cursors::{CursorsModel, UserCursors, cursors_valid, lemma_cursors_valid_monotone};
use crate::ids::{Category, DatabaseItemID, id_category, id_pos, id_range, id_range_spec, id_with};
use crate::items::{DatabaseItem, DatabaseItemModel, item_category, item_id, stamp};
use crate::ledger::{ClientLedger, LedgerModel, cat_len};

verus! {

/// What a full-store comparison found wanting; the sync planner hands a
/// list of these back to the driver.
pub enum NeedToSync {
    Everything,
    RetrieveThoseItems(Vec<DatabaseItemID>),
    UpdateThoseItems(Vec<(DatabaseItemID, DatabaseItem)>),
    AddThoseItemsAndMoveTheRest(Vec<(DatabaseItemID, DatabaseItem)>),
}

pub enum DatabaseInfoRequest {
    NumbersOfItems,
}

#[derive(Clone, Copy, PartialEq, Eq, Structural, Debug)]
pub enum DatabaseInfoReply {
    NumbersOfItems {
        devices: usize,
        chats: usize,
        folders: usize,
        files: usize,
        tags: usize,
        access_modes: usize,
    },
}

/// A request to the remote store, as the driver sends it.
pub enum DatabaseRequestVariant {
    Add(DatabaseItem),
    Get(DatabaseItemID),
    Update(DatabaseItem),
    Remove(DatabaseItemID),
    GetAll,
    Info(DatabaseInfoRequest),
}

/// A reply from the remote store, as the driver hands it back.
pub enum DatabaseReplyVariant {
    AddedItem(DatabaseItemID),
    ReturnedItem(DatabaseItem),
    UpdatedItem,
    RemovedItem,
    ReplyAll(ClientLedger),
    Info(DatabaseInfoReply),
}

/// The provisional identifier a new entity of this category receives: the
/// position it would occupy if appended right now.
pub fn get_next_id_for_category(db: &ClientLedger, category: &DatabaseItem) -> (id: DatabaseItemID)
    ensures
        id == id_with(
            item_category(category.deep_view()),
            cat_len(db@, item_category(category.deep_view())) as usize,
        ),
{
    let c = category.category();
    let n = db.len_of(c);
    DatabaseItemID::with_category(c, n)
}

/// The identifier the remote store assigned, when it differs from the
/// client's guess; `None` whenever the optimistic state already stands.
pub open spec fn conflict_target_reply(
    local: DatabaseItemID,
    reply: DatabaseReplyVariant,
) -> Option<DatabaseItemID> {
    match reply {
        DatabaseReplyVariant::AddedItem(id) => if id != local {
            Some(id)
        } else {
            None
        },
        _ => None,
    }
}

pub open spec fn conflict_target(
    local: DatabaseItemID,
    reply: Result<DatabaseReplyVariant, ()>,
) -> Option<DatabaseItemID> {
    match reply {
        Ok(rep) => conflict_target_reply(local, rep),
        Err(_) => None,
    }
}

/// The identifiers whose entities must be fetched to fill the gap between
/// the client's guess and the remote store's answer; empty when there is no
/// conflict or the add itself failed.
pub open spec fn backfill_ids(
    local: DatabaseItemID,
    reply: Result<DatabaseReplyVariant, ()>,
) -> Seq<DatabaseItemID> {
    match conflict_target(local, reply) {
        Some(remote) => id_range_spec(local, remote),
        None => Seq::empty(),
    }
}

/// Plans the backfill: the drivers fetch exactly these identifiers, in this
/// order, and hand the outcomes to `get_delta_for_add` or `handle_add`.
pub fn plan_backfill(
    local_given_id: DatabaseItemID,
    add_reply: &Result<DatabaseReplyVariant, ()>,
) -> (ids: Vec<DatabaseItemID>)
    ensures
        ids@ == backfill_ids(local_given_id, *add_reply),
{
    match add_reply {
        Ok(DatabaseReplyVariant::AddedItem(id)) => {
            if !(*id == local_given_id) {
                id_range(local_given_id, *id)
            } else {
                let r: Vec<DatabaseItemID> = Vec::new();
                assert(r@ =~= backfill_ids(local_given_id, *add_reply));
                r
            }
        }
        _ => {
            let r: Vec<DatabaseItemID> = Vec::new();
            assert(r@ =~= backfill_ids(local_given_id, *add_reply));
            r
        }
    }
}

/// Computes the delta that reconciles an optimistic add against the remote
/// store's answer.  `add_reply` is the outcome of the add request;
/// `fetch_replies` are the outcomes of the fetches planned by
/// `plan_backfill`, in order.  The result is the delta to splice in, the
/// entity's final identifier, and the entity stamped with it.  A failed add
/// or a matching identifier keeps the optimistic state as it stands: the
/// delta is empty and the identifier is the local guess.  A failed fetch
/// degrades to the client's own stamped entity as placeholder; it is never
/// fatal, since leaving a gap would break density.  A reply assigning an
/// identifier of another category is a protocol violation and is left out
/// by precondition: the driver must refuse it loudly before coming here, as
/// the application does.
pub fn get_delta_for_add(
    local_given_id: DatabaseItemID,
    added_item: DatabaseItem,
    add_reply: Result<DatabaseReplyVariant, ()>,
    fetch_replies: Vec<Result<DatabaseReplyVariant, ()>>,
) -> (r: (Vec<(DatabaseItemID, DatabaseItem)>, DatabaseItemID, DatabaseItem))
    requires
        fetch_replies@.len() == backfill_ids(local_given_id, add_reply).len(),
        conflict_target(local_given_id, add_reply) matches Some(remote) ==> id_category(remote)
            == id_category(local_given_id),
    ensures
        ({
            let stamped_local = stamp(added_item.deep_view(), local_given_id);
            match conflict_target(local_given_id, add_reply) {
                None => {
                    &&& r.0@.len() == 0
                    &&& r.1 == local_given_id
                    &&& r.2.deep_view() == stamped_local
                },
                Some(remote) => {
                    let placeholder = stamp(stamped_local, remote);
                    let ids = id_range_spec(local_given_id, remote);
                    &&& r.1 == remote
                    &&& r.2.deep_view() == placeholder
                    &&& r.0@.len() == ids.len()
                    &&& forall|k: int| 0 <= k < ids.len() ==> (#[trigger] r.0@[k]).0 == ids[k]
                    &&& forall|k: int|
                        0 <= k < ids.len() ==> (#[trigger] r.0@[k]).1.deep_view() == (
                        match fetch_replies@[k] {
                            Ok(DatabaseReplyVariant::ReturnedItem(it)) => it.deep_view(),
                            _ => placeholder,
                        })
                },
            }
        }),
        conflict_target(local_given_id, add_reply) is None ==> r.0@.len() == 0 && r.1
            == local_given_id,
{
    let mut added_item = added_item;
    added_item.set_id(local_given_id);
    let mut delta: Vec<(DatabaseItemID, DatabaseItem)> = Vec::new();
    match add_reply {
        Ok(DatabaseReplyVariant::AddedItem(id)) => {
            if !(id == local_given_id) {
                added_item.set_id(id);
                let ids = id_range(local_given_id, id);
                let ghost idseq = id_range_spec(local_given_id, id);
                let mut k: usize = 0;
                while k < ids.len()
                    invariant
                        k <= ids@.len(),
                        ids@ == idseq,
                        fetch_replies@.len() == idseq.len(),
                        added_item.deep_view() == stamp(
                            stamp(added_item.deep_view(), local_given_id),
                            id,
                        ),
                        delta@.len() == k,
                        forall|j: int| 0 <= j < k ==> (#[trigger] delta@[j]).0 == idseq[j],
                        forall|j: int|
                            0 <= j < k ==> (#[trigger] delta@[j]).1.deep_view() == (
                            match fetch_replies@[j] {
                                Ok(DatabaseReplyVariant::ReturnedItem(it)) => it.deep_view(),
                                _ => added_item.deep_view(),
                            }),
                    decreases ids@.len() - k,
                {
                    let gap_id = ids[k];
                    match &fetch_replies[k] {
                        Ok(DatabaseReplyVariant::ReturnedItem(it)) => {
                            delta.push((gap_id, it.clone()));
                        }
                        _ => {
                            delta.push((gap_id, added_item.clone()));
                        }
                    }
                    k = k + 1;
                }
                (delta, id, added_item)
            } else {
                (delta, local_given_id, added_item)
            }
        }
        _ => (delta, local_given_id, added_item),
    }
}

/// The filter that drops the provisional member from a cursor tag-set.
pub open spec fn keep_not(l: usize) -> spec_fn(usize) -> bool {
    |x: usize| x != l
}

/// Moves a selected member of a cursor tag-set from the provisional to the
/// authoritative position: the provisional member leaves, the authoritative
/// one enters unless already present.
pub open spec fn swap_member(s: Seq<usize>, l: usize, r: usize) -> Seq<usize> {
    if s.contains(l) {
        let kept = s.filter(keep_not(l));
        if kept.contains(r) {
            kept
        } else {
            kept.push(r)
        }
    } else {
        s
    }
}

/// The cursor remap of a reconciled add: every cursor of the entity's
/// category that held the provisional identifier is rewritten to the
/// authoritative one, from the pre-mutation snapshot.  Only chats, tags and
/// access modes carry selections across this boundary.
pub open spec fn remap_cursors(
    c: CursorsModel,
    local: DatabaseItemID,
    remote: DatabaseItemID,
) -> CursorsModel {
    match (local, remote) {
        (DatabaseItemID::AccessMode(l), DatabaseItemID::AccessMode(r)) => CursorsModel {
            access_mode_for_modification: if c.access_mode_for_modification == Some(l) {
                Some(r)
            } else {
                c.access_mode_for_modification
            },
            chosen_access_mode: if c.chosen_access_mode == l {
                r
            } else {
                c.chosen_access_mode
            },
            ..c
        },
        (DatabaseItemID::Chat(l), DatabaseItemID::Chat(r)) => CursorsModel {
            chosen_chat: if c.chosen_chat == Some(l) {
                Some(r)
            } else {
                c.chosen_chat
            },
            ..c
        },
        (DatabaseItemID::Tag(l), DatabaseItemID::Tag(r)) => CursorsModel {
            chosen_tag: if c.chosen_tag == Some(l) {
                Some(r)
            } else {
                c.chosen_tag
            },
            chosen_parent_tag: if c.chosen_parent_tag == Some(l) {
                Some(r)
            } else {
                c.chosen_parent_tag
            },
            chosen_access_mode_tags: swap_member(c.chosen_access_mode_tags, l, r),
            ..c
        },
        _ => c,
    }
}

fn holds_member(v: &Vec<usize>, x: usize) -> (found: bool)
    ensures
        found == v@.contains(x),
{
    let mut k: usize = 0;
    while k < v.len()
        invariant
            k <= v@.len(),
            forall|j: int| 0 <= j < k ==> v@[j] != x,
        decreases v@.len() - k,
    {
        if v[k] == x {
            assert(v@[k as int] == x);
            return true;
        }
        k = k + 1;
    }
    assert(!v@.contains(x));
    false
}

proof fn lemma_filter_step(s: Seq<usize>, pred: spec_fn(usize) -> bool)
    requires
        s.len() > 0,
    ensures
        s.filter(pred) == if pred(s.last()) {
            s.drop_last().filter(pred).push(s.last())
        } else {
            s.drop_last().filter(pred)
        },
{
    reveal(Seq::filter);
}

/// Removing the provisional member keeps every member below any bound that
/// held of the whole set.
pub(crate) proof fn lemma_filter_members_bound(s: Seq<usize>, pred: spec_fn(usize) -> bool, bound: int)
    requires
        forall|k: int| 0 <= k < s.len() ==> (s[k] as int) < bound,
    ensures
        forall|k: int| 0 <= k < s.filter(pred).len() ==> (#[trigger] s.filter(pred)[k] as int)
            < bound,
    decreases s.len(),
{
    reveal(Seq::filter);
    if s.len() > 0 {
        assert(forall|k: int| 0 <= k < s.drop_last().len() ==> (s.drop_last()[k] as int) < bound);
        lemma_filter_members_bound(s.drop_last(), pred, bound);
        lemma_filter_step(s, pred);
    }
}

/// The members of a cursor tag-set with one position dropped.
pub(crate) fn retain_not(v: &Vec<usize>, l: usize) -> (kept: Vec<usize>)
    ensures
        kept@ == v@.filter(keep_not(l)),
{
    let ghost pred = keep_not(l);
    let mut kept: Vec<usize> = Vec::new();
    let mut k: usize = 0;
    while k < v.len()
        invariant
            k <= v@.len(),
            pred == keep_not(l),
            kept@ == v@.take(k as int).filter(pred),
        decreases v@.len() - k,
    {
        let x = v[k];
        proof {
            assert(v@.take(k as int + 1).drop_last() =~= v@.take(k as int));
            assert(v@.take(k as int + 1).last() == v@[k as int]);
            lemma_filter_step(v@.take(k as int + 1), pred);
        }
        if !(x == l) {
            kept.push(x);
        }
        k = k + 1;
    }
    proof {
        assert(v@.take(v@.len() as int) =~= v@);
    }
    kept
}

fn swap_tag_member(v: &Vec<usize>, l: usize, r: usize) -> (out: Vec<usize>)
    ensures
        out@ == swap_member(v@, l, r),
{
    let found = holds_member(v, l);
    if !found {
        let out = crate::cursors::copy_positions(v);
        assert(out@ =~= swap_member(v@, l, r));
        return out;
    }
    let mut kept: Vec<usize> = retain_not(v, l);
    let has_remote = holds_member(&kept, r);
    if has_remote {
        assert(kept@ =~= swap_member(v@, l, r));
        kept
    } else {
        kept.push(r);
        assert(kept@ =~= swap_member(v@, l, r));
        kept
    }
}

/// Rewrites the cursors of one reconciled add from provisional to
/// authoritative identifier.
fn remap_conflict(current: UserCursors, local: DatabaseItemID, remote: DatabaseItemID) -> (r:
    UserCursors)
    ensures
        r@ == remap_cursors(current@, local, remote),
{
    let mut next = current;
    match (local, remote) {
        (DatabaseItemID::AccessMode(l), DatabaseItemID::AccessMode(r)) => {
            match next.access_mode_for_modification {
                Some(am) => {
                    if am == l {
                        next.access_mode_for_modification = Some(r);
                    }
                }
                None => {}
            }
            if next.chosen_access_mode == l {
                next.chosen_access_mode = r;
            }
        }
        (DatabaseItemID::Chat(l), DatabaseItemID::Chat(r)) => {
            match next.chosen_chat {
                Some(c) => {
                    if c == l {
                        next.chosen_chat = Some(r);
                    }
                }
                None => {}
            }
        }
        (DatabaseItemID::Tag(l), DatabaseItemID::Tag(r)) => {
            match next.chosen_tag {
                Some(t) => {
                    if t == l {
                        next.chosen_tag = Some(r);
                    }
                }
                None => {}
            }
            match next.chosen_parent_tag {
                Some(t) => {
                    if t == l {
                        next.chosen_parent_tag = Some(r);
                    }
                }
                None => {}
            }
            let swapped = swap_tag_member(&next.chosen_access_mode_tags, l, r);
            next.chosen_access_mode_tags = swapped;
            proof {
                assert(current.chosen_access_mode_tags.deep_view() =~= current.chosen_access_mode_tags@);
                assert(next.chosen_access_mode_tags.deep_view() =~= next.chosen_access_mode_tags@);
            }
        }
        _ => {}
    }
    assert(next@ =~= remap_cursors(current@, local, remote));
    next
}

/// The shape the reconciliation engine guarantees of a backfill delta: the
/// pairs name, in order, exactly the positions between the provisional and
/// the authoritative identifier, within one category.
pub open spec fn delta_shape(
    delta: Seq<(DatabaseItemID, DatabaseItemModel)>,
    local: DatabaseItemID,
    remote: DatabaseItemID,
) -> bool {
    &&& id_category(local) == id_category(remote)
    &&& id_pos(local) <= id_pos(remote)
    &&& delta.len() == id_pos(remote) - id_pos(local)
    &&& forall|k: int|
        0 <= k < delta.len() ==> (#[trigger] delta[k]).0 == id_with(
            id_category(local),
            (id_pos(local) + k) as usize,
        )
}

proof fn lemma_apply_item_grows_target(m: LedgerModel, id: DatabaseItemID, item: DatabaseItemModel)
    requires
        id_category(id) == item_category(item),
        id_pos(id) <= cat_len(m, id_category(id)),
    ensures
        cat_len(apply_item(m, id, item), id_category(id)) >= id_pos(id) + 1,
{
}

/// Density is restored by a backfill: applying a well-shaped delta extends
/// the category through every position below the authoritative identifier,
/// leaving no gap.
pub proof fn lemma_backfill_extends(
    m: LedgerModel,
    delta: Seq<(DatabaseItemID, DatabaseItemModel)>,
    local: DatabaseItemID,
    remote: DatabaseItemID,
)
    requires
        pairs_wf(delta),
        delta_shape(delta, local, remote),
        id_pos(local) <= cat_len(m, id_category(local)),
    ensures
        cat_len(apply_batch(m, delta), id_category(local)) >= id_pos(remote),
        forall|c: Category| cat_len(m, c) <= #[trigger] cat_len(apply_batch(m, delta), c),
    decreases delta.len(),
{
    lemma_apply_batch_len(m, delta);
    if delta.len() == 0 {
    } else {
        let cat = id_category(local);
        let sub = delta.drop_last();
        let last = delta.last();
        let prev_remote = id_with(cat, (id_pos(remote) - 1) as usize);
        assert(cat != Category::UserData);
        assert(delta_shape(sub, local, prev_remote));
        lemma_backfill_extends(m, sub, local, prev_remote);
        let mid = apply_batch(m, sub);
        assert(last.0 == id_with(cat, (id_pos(local) + delta.len() - 1) as usize));
        assert(id_pos(last.0) == id_pos(remote) - 1);
        lemma_apply_item_grows_target(mid, last.0, last.1);
    }
}

/// Applies the outcome of a reconciled add as one transition: splices the
/// backfill delta, applies the final entity at its authoritative position,
/// and remaps the cursors from the pre-mutation snapshot.  When the remote
/// agreed with the guess the delta is empty and the remap is the identity —
/// the same path, not a special case.  Afterwards every position up to and
/// past the authoritative identifier is occupied and no cursor dangles.
///
/// The optimistically created entity is expected to stand in the ledger
/// already — the create appended it before the remote call, which is also
/// the only way a cursor can legitimately point at the provisional
/// position.  That is what the precondition says: the provisional position
/// lies within its category, and every cursor is valid against the pre-call
/// ledger.
pub fn handle_add_reducible(
    client_db: &mut ClientLedger,
    local_given_id: DatabaseItemID,
    remote_id: DatabaseItemID,
    added_item: DatabaseItem,
    cursors: UserCursors,
    delta: Vec<(DatabaseItemID, DatabaseItem)>,
) -> (new_cursors: UserCursors)
    requires
        cursors_valid(cursors@, old(client_db)@),
        pairs_wf(delta.deep_view()),
        delta_shape(delta.deep_view(), local_given_id, remote_id),
        item_category(added_item.deep_view()) == id_category(remote_id),
        id_pos(local_given_id) <= cat_len(old(client_db)@, id_category(local_given_id)),
    ensures
        final(client_db)@ == apply_item(
            apply_batch(old(client_db)@, delta.deep_view()),
            remote_id,
            added_item.deep_view(),
        ),
        new_cursors@ == remap_cursors(cursors@, local_given_id, remote_id),
        cursors_valid(new_cursors@, final(client_db)@),
        cat_len(final(client_db)@, id_category(remote_id)) > id_pos(remote_id),
{
    let ghost m0 = client_db@;
    let ghost dm = delta.deep_view();
    let ghost cat = id_category(local_given_id);
    let ghost im = added_item.deep_view();
    proof {
        lemma_backfill_extends(m0, dm, local_given_id, remote_id);
    }
    let mut new_cursors = apply_server_updates(client_db, delta, cursors.clone());
    let ghost mid = client_db@;
    let mut last_update: Vec<(DatabaseItemID, DatabaseItem)> = Vec::new();
    last_update.push((remote_id, added_item));
    let ghost single = last_update.deep_view();
    proof {
        assert(single =~= seq![(remote_id, im)]);
        assert(pairs_wf(single));
    }
    new_cursors = apply_server_updates(client_db, last_update, new_cursors);
    proof {
        assert(single.drop_last() =~= Seq::<(DatabaseItemID, DatabaseItemModel)>::empty());
        assert(apply_batch(mid, single.drop_last()) == mid);
        assert(client_db@ == apply_batch(mid, single));
        assert(single.last() == (remote_id, im));
        assert(client_db@ == apply_item(mid, remote_id, im));
        lemma_apply_item_grows_target(mid, remote_id, im);
        lemma_apply_item_len(mid, remote_id, im);
    }
    let new_cursors = remap_conflict(new_cursors, local_given_id, remote_id);
    proof {
        lemma_remap_valid(cursors@, local_given_id, remote_id, client_db@);
    }
    new_cursors
}

/// The remapped cursors are valid against any ledger that reaches past the
/// authoritative position and has kept every length the snapshot's cursors
/// depended on.
proof fn lemma_remap_valid(
    c: CursorsModel,
    local: DatabaseItemID,
    remote: DatabaseItemID,
    m2: LedgerModel,
)
    requires
        cat_len(m2, id_category(remote)) > id_pos(remote),
        cursors_valid(c, m2),
    ensures
        cursors_valid(remap_cursors(c, local, remote), m2),
{
    match (local, remote) {
        (DatabaseItemID::Tag(l), DatabaseItemID::Tag(r)) => {
            let s = c.chosen_access_mode_tags;
            if s.contains(l) {
                lemma_filter_members_bound(s, keep_not(l), cat_len(m2, Category::Tag));
            }
        }
        _ => {}
    }
}

/// Whether every entity a backfill would write — each successfully fetched
/// entity, and the client's own entity standing in for failed fetches —
/// belongs to the given category.  A store that answers a fetch for one
/// category with an entity of another breaks this.
pub open spec fn gap_items_in_category(
    replies: Seq<Result<DatabaseReplyVariant, ()>>,
    added: DatabaseItemModel,
    c: Category,
) -> bool {
    &&& item_category(added) == c
    &&& forall|k: int|
        0 <= k < replies.len() ==> (match #[trigger] replies[k] {
            Ok(DatabaseReplyVariant::ReturnedItem(it)) => item_category(it.deep_view()) == c,
            _ => true,
        })
}

/// The direct-insertion variant of a reconciled add, used where the caller
/// writes backfilled entities straight into the ledger and updates the
/// final entity through a separate remote call.  `db_response` is the add
/// request's reply; `fetch_replies` are the planned fetches' outcomes, in
/// order.  Each backfilled (or placeholder) entity enters by the shifting
/// insert at its own position, so the optimistically created entity, already
/// standing at the provisional position, drifts upward to the authoritative
/// one as the gap fills beneath it.  A reply other than a conflicting
/// assignment leaves everything as it stands.  An assignment of another
/// category is a protocol violation and is left out by precondition: the
/// driver must refuse it loudly, as the application does.
pub fn handle_add(
    client_db: &mut ClientLedger,
    local_given_id: DatabaseItemID,
    added_item: DatabaseItem,
    db_response: DatabaseReplyVariant,
    cursors: UserCursors,
    fetch_replies: Vec<Result<DatabaseReplyVariant, ()>>,
) -> (r: (UserCursors, DatabaseItemID))
    requires
        fetch_replies@.len() == match conflict_target_reply(local_given_id, db_response) {
            Some(remote) => id_range_spec(local_given_id, remote).len(),
            None => 0,
        },
        conflict_target_reply(local_given_id, db_response) matches Some(remote)
            ==> id_category(remote) == id_category(local_given_id),
    ensures
        ({
            let stamped_local = stamp(added_item.deep_view(), local_given_id);
            let cat = id_category(local_given_id);
            match conflict_target_reply(local_given_id, db_response) {
                None => {
                    &&& final(client_db)@ == old(client_db)@
                    &&& r.0@ == cursors@
                    &&& r.1 == local_given_id
                },
                Some(remote) => {
                    let items = Seq::new(
                        fetch_replies@.len(),
                        |k: int|
                            match fetch_replies@[k] {
                                Ok(DatabaseReplyVariant::ReturnedItem(it)) => it.deep_view(),
                                _ => stamped_local,
                            },
                    );
                    &&& final(client_db)@ == insert_all(old(client_db)@, items)
                    &&& r.0@ == remap_cursors(cursors@, local_given_id, remote)
                    &&& r.1 == remote
                    &&& forall|c: Category|
                        cat_len(old(client_db)@, c) <= #[trigger] cat_len(final(client_db)@, c)
                    &&& gap_items_in_category(fetch_replies@, added_item.deep_view(), cat)
                        ==> cat_len(final(client_db)@, cat) == cat_len(old(client_db)@, cat)
                        + items.len()
                    &&& (cursors_valid(cursors@, old(client_db)@) && gap_items_in_category(
                        fetch_replies@,
                        added_item.deep_view(),
                        cat,
                    ) && id_pos(local_given_id) < cat_len(old(client_db)@, cat)) ==> cursors_valid(
                        r.0@,
                        final(client_db)@,
                    )
                },
            }
        }),
{
    let mut added_item = added_item;
    added_item.set_id(local_given_id);
    let new_cursors = cursors.clone();
    match db_response {
        DatabaseReplyVariant::AddedItem(id) => {
            if !(id == local_given_id) {
                let ghost m0 = client_db@;
                let ghost stamped_local = added_item.deep_view();
                let ghost items = Seq::new(
                    fetch_replies@.len(),
                    |k: int|
                        match fetch_replies@[k] {
                            Ok(DatabaseReplyVariant::ReturnedItem(it)) => it.deep_view(),
                            _ => stamped_local,
                        },
                );
                let mut k: usize = 0;
                while k < fetch_replies.len()
                    invariant
                        k <= fetch_replies@.len(),
                        items == Seq::new(
                            fetch_replies@.len(),
                            |j: int|
                                match fetch_replies@[j] {
                                    Ok(DatabaseReplyVariant::ReturnedItem(it)) => it.deep_view(),
                                    _ => stamped_local,
                                },
                        ),
                        added_item.deep_view() == stamped_local,
                        client_db@ == insert_all(m0, items.take(k as int)),
                    decreases fetch_replies@.len() - k,
                {
                    match &fetch_replies[k] {
                        Ok(DatabaseReplyVariant::ReturnedItem(it)) => {
                            client_db.insert_directly(it.clone());
                        }
                        _ => {
                            client_db.insert_directly(added_item.clone());
                        }
                    }
                    proof {
                        assert(items.take(k as int + 1).drop_last() =~= items.take(k as int));
                    }
                    k = k + 1;
                }
                let ghost cat = id_category(local_given_id);
                proof {
                    assert(items.take(items.len() as int) =~= items);
                    lemma_insert_all_lens(m0, items, cat);
                    if gap_items_in_category(fetch_replies@, stamped_local, cat) {
                        assert(forall|j: int|
                            0 <= j < items.len() ==> item_category(#[trigger] items[j]) == cat);
                        assert(cat != Category::UserData);
                    }
                }
                let new_cursors = remap_conflict(new_cursors, local_given_id, id);
                proof {
                    if cursors_valid(cursors@, m0) && gap_items_in_category(
                        fetch_replies@,
                        stamped_local,
                        cat,
                    ) && id_pos(local_given_id) < cat_len(m0, cat) {
                        lemma_cursors_valid_monotone(cursors@, m0, client_db@);
                        lemma_remap_valid(cursors@, local_given_id, id, client_db@);
                    }
                }
                (new_cursors, id)
            } else {
                (new_cursors, local_given_id)
            }
        }
        _ => (new_cursors, local_given_id),
    }
}

/// Entities written straight into the ledger, in order, each by the
/// shifting-insert rule at its own declared position.
pub open spec fn insert_all(m: LedgerModel, items: Seq<DatabaseItemModel>) -> LedgerModel
    decreases items.len(),
{
    if items.len() == 0 {
        m
    } else {
        insert_item_shifted(insert_all(m, items.drop_last()), items.last())
    }
}

proof fn lemma_insert_shifted_lens(m: LedgerModel, item: DatabaseItemModel)
    ensures
        forall|c: Category| cat_len(m, c) <= #[trigger] cat_len(insert_item_shifted(m, item), c),
        item_category(item) != Category::UserData ==> cat_len(
            insert_item_shifted(m, item),
            item_category(item),
        ) == cat_len(m, item_category(item)) + 1,
        forall|c: Category|
            c != item_category(item) ==> #[trigger] cat_len(insert_item_shifted(m, item), c)
                == cat_len(m, c),
{
}

/// A run of shifting inserts never shrinks a category, and a run whose
/// entities all belong to one (non-singleton) category grows it by exactly
/// the run's length.
proof fn lemma_insert_all_lens(m: LedgerModel, items: Seq<DatabaseItemModel>, c: Category)
    ensures
        forall|c2: Category| cat_len(m, c2) <= #[trigger] cat_len(insert_all(m, items), c2),
        (c != Category::UserData && forall|k: int|
            0 <= k < items.len() ==> item_category(#[trigger] items[k]) == c) ==> cat_len(
            insert_all(m, items),
            c,
        ) == cat_len(m, c) + items.len(),
    decreases items.len(),
{
    if items.len() > 0 {
        lemma_insert_all_lens(m, items.drop_last(), c);
        lemma_insert_shifted_lens(insert_all(m, items.drop_last()), items.last());
    }
}

/// Interprets the store's item-count report when checking for drift between
/// the client's mirror and the store.  Any other reply is a failed check.
#[allow(unused_variables)]
pub fn get_database_conflict_fix(
    client_db: &ClientLedger,
    info_reply: Result<DatabaseReplyVariant, ()>,
) -> (r: Result<Vec<NeedToSync>, ()>)
    ensures
        r is Ok <==> (info_reply matches Ok(rep) && rep is Info),
        r matches Ok(v) ==> v@.len() == 0,
{
    match info_reply {
        Ok(DatabaseReplyVariant::Info(DatabaseInfoReply::NumbersOfItems { .. })) => Ok(Vec::new()),
        _ => Err(()),
    }
}

} // verus!
