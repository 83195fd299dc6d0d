//! The identity model: tagged, position-based identifiers for every stored
//! entity, with range enumeration used to walk a reconciliation gap.

use vstd::prelude::*;

verus! {

/// The entity categories the client ledger keeps, one growable sequence each
/// (user data is a singleton).
#[derive(Clone, Copy, PartialEq, Eq, Structural, Debug)]
pub enum Category {
    AccessMode,
    Chat,
    ChatConfiguration,
    Device,
    File,
    Folder,
    Notification,
    Tag,
    UserData,
}

/// A tagged identifier: the category together with the entity's position in
/// that category's sequence.  Identifiers of different categories are never
/// comparable; user data carries no position.
#[derive(Clone, Copy, PartialEq, Eq, Structural, Debug)]
pub enum DatabaseItemID {
    AccessMode(usize),
    Chat(usize),
    ChatConfiguration(usize),
    Device(usize),
    File(usize),
    Folder(usize),
    Notification(usize),
    Tag(usize),
    UserData,
}

impl DeepView for Category {
    type V = Category;

    open spec fn deep_view(&self) -> Category {
        *self
    }
}

impl DeepView for DatabaseItemID {
    type V = DatabaseItemID;

    open spec fn deep_view(&self) -> DatabaseItemID {
        *self
    }
}

pub open spec fn id_category(id: DatabaseItemID) -> Category {
    match id {
        DatabaseItemID::AccessMode(_) => Category::AccessMode,
        DatabaseItemID::Chat(_) => Category::Chat,
        DatabaseItemID::ChatConfiguration(_) => Category::ChatConfiguration,
        DatabaseItemID::Device(_) => Category::Device,
        DatabaseItemID::File(_) => Category::File,
        DatabaseItemID::Folder(_) => Category::Folder,
        DatabaseItemID::Notification(_) => Category::Notification,
        DatabaseItemID::Tag(_) => Category::Tag,
        DatabaseItemID::UserData => Category::UserData,
    }
}

/// The position an identifier names; the user-data singleton counts as
/// position zero.
pub open spec fn id_pos(id: DatabaseItemID) -> int {
    match id {
        DatabaseItemID::AccessMode(p) => p as int,
        DatabaseItemID::Chat(p) => p as int,
        DatabaseItemID::ChatConfiguration(p) => p as int,
        DatabaseItemID::Device(p) => p as int,
        DatabaseItemID::File(p) => p as int,
        DatabaseItemID::Folder(p) => p as int,
        DatabaseItemID::Notification(p) => p as int,
        DatabaseItemID::Tag(p) => p as int,
        DatabaseItemID::UserData => 0,
    }
}

pub open spec fn id_with(c: Category, p: usize) -> DatabaseItemID {
    match c {
        Category::AccessMode => DatabaseItemID::AccessMode(p),
        Category::Chat => DatabaseItemID::Chat(p),
        Category::ChatConfiguration => DatabaseItemID::ChatConfiguration(p),
        Category::Device => DatabaseItemID::Device(p),
        Category::File => DatabaseItemID::File(p),
        Category::Folder => DatabaseItemID::Folder(p),
        Category::Notification => DatabaseItemID::Notification(p),
        Category::Tag => DatabaseItemID::Tag(p),
        Category::UserData => DatabaseItemID::UserData,
    }
}

/// The ordered identifiers covering `[from, to)` within one category; empty
/// for mismatched categories or a reversed range rather than an error.
pub open spec fn id_range_spec(from: DatabaseItemID, to: DatabaseItemID) -> Seq<DatabaseItemID> {
    if id_category(from) == id_category(to) && id_pos(from) <= id_pos(to) {
        Seq::new(
            (id_pos(to) - id_pos(from)) as nat,
            |k: int| id_with(id_category(from), (id_pos(from) + k) as usize),
        )
    } else {
        Seq::empty()
    }
}

impl DatabaseItemID {
    pub fn category(&self) -> (c: Category)
        ensures
            c == id_category(*self),
    {
        match self {
            DatabaseItemID::AccessMode(_) => Category::AccessMode,
            DatabaseItemID::Chat(_) => Category::Chat,
            DatabaseItemID::ChatConfiguration(_) => Category::ChatConfiguration,
            DatabaseItemID::Device(_) => Category::Device,
            DatabaseItemID::File(_) => Category::File,
            DatabaseItemID::Folder(_) => Category::Folder,
            DatabaseItemID::Notification(_) => Category::Notification,
            DatabaseItemID::Tag(_) => Category::Tag,
            DatabaseItemID::UserData => Category::UserData,
        }
    }

    pub fn pos(&self) -> (p: usize)
        ensures
            p as int == id_pos(*self),
    {
        match self {
            DatabaseItemID::AccessMode(p) => *p,
            DatabaseItemID::Chat(p) => *p,
            DatabaseItemID::ChatConfiguration(p) => *p,
            DatabaseItemID::Device(p) => *p,
            DatabaseItemID::File(p) => *p,
            DatabaseItemID::Folder(p) => *p,
            DatabaseItemID::Notification(p) => *p,
            DatabaseItemID::Tag(p) => *p,
            DatabaseItemID::UserData => 0,
        }
    }

    pub fn with_category(c: Category, p: usize) -> (id: DatabaseItemID)
        ensures
            id == id_with(c, p),
    {
        match c {
            Category::AccessMode => DatabaseItemID::AccessMode(p),
            Category::Chat => DatabaseItemID::Chat(p),
            Category::ChatConfiguration => DatabaseItemID::ChatConfiguration(p),
            Category::Device => DatabaseItemID::Device(p),
            Category::File => DatabaseItemID::File(p),
            Category::Folder => DatabaseItemID::Folder(p),
            Category::Notification => DatabaseItemID::Notification(p),
            Category::Tag => DatabaseItemID::Tag(p),
            Category::UserData => DatabaseItemID::UserData,
        }
    }
}

/// Enumerates the identifiers in `[from, to)`; the reconciliation engine
/// walks this range to fetch backfill entities.
pub fn id_range(from: DatabaseItemID, to: DatabaseItemID) -> (r: Vec<DatabaseItemID>)
    ensures
        r@ == id_range_spec(from, to),
{
    let mut r: Vec<DatabaseItemID> = Vec::new();
    let from_cat = from.category();
    if !(from_cat == to.category()) {
        assert(r@ =~= id_range_spec(from, to));
        return r;
    }
    let lo = from.pos();
    let hi = to.pos();
    if lo > hi {
        assert(r@ =~= id_range_spec(from, to));
        return r;
    }
    let mut p = lo;
    while p < hi
        invariant
            lo <= p <= hi,
            from_cat == id_category(from) && from_cat == id_category(to),
            lo as int == id_pos(from),
            hi as int == id_pos(to),
            r@.len() == p - lo,
            forall|k: int| 0 <= k < r@.len() ==> r@[k] == id_with(from_cat, (lo + k) as usize),
        decreases hi - p,
    {
        r.push(DatabaseItemID::with_category(from_cat, p));
        p = p + 1;
    }
    assert(r@ =~= id_range_spec(from, to));
    r
}

} // verus!
