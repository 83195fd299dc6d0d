//! The client ledger: one growable, index-addressed sequence per entity
//! category.  Positions are identity, so the valid positions of a category
//! are always exactly `0..len` — dense, with no gaps.

use vstd::prelude::*;

use crate::ids::{Category, DatabaseItemID, id_category, id_pos};
use crate::items::{
    AccessMode, AccessModeModel, Chat, ChatConfiguration, ChatConfigurationModel, ChatModel,
    DatabaseItem, DatabaseItemModel, Device, DeviceModel, FileRecord, FileRecordModel, Folder,
    FolderModel, Notification, NotificationModel, Tag, TagModel, UserData, UserDataModel,
};

verus! {

/// The in-memory mirror of the remote store.  The ledger owns all entities;
/// consumers hold positions, never references, and revalidate them on every
/// mutation.
pub struct ClientLedger {
    pub chats: Vec<Chat>,
    pub tags: Vec<Tag>,
    pub access_modes: Vec<AccessMode>,
    pub configs: Vec<ChatConfiguration>,
    pub devices: Vec<Device>,
    pub files: Vec<FileRecord>,
    pub folders: Vec<Folder>,
    pub notifications: Vec<Notification>,
    pub user_data: UserData,
}

#[verifier::ext_equal]
pub struct LedgerModel {
    pub chats: Seq<ChatModel>,
    pub tags: Seq<TagModel>,
    pub access_modes: Seq<AccessModeModel>,
    pub configs: Seq<ChatConfigurationModel>,
    pub devices: Seq<DeviceModel>,
    pub files: Seq<FileRecordModel>,
    pub folders: Seq<FolderModel>,
    pub notifications: Seq<NotificationModel>,
    pub user_data: UserDataModel,
}

impl View for ClientLedger {
    type V = LedgerModel;

    open spec fn view(&self) -> LedgerModel {
        LedgerModel {
            chats: self.chats.deep_view(),
            tags: self.tags.deep_view(),
            access_modes: self.access_modes.deep_view(),
            configs: self.configs.deep_view(),
            devices: self.devices.deep_view(),
            files: self.files.deep_view(),
            folders: self.folders.deep_view(),
            notifications: self.notifications.deep_view(),
            user_data: self.user_data.deep_view(),
        }
    }
}

/// How many entities a category holds; the user-data singleton always
/// counts as one.
pub open spec fn cat_len(m: LedgerModel, c: Category) -> int {
    match c {
        Category::AccessMode => m.access_modes.len() as int,
        Category::Chat => m.chats.len() as int,
        Category::ChatConfiguration => m.configs.len() as int,
        Category::Device => m.devices.len() as int,
        Category::File => m.files.len() as int,
        Category::Folder => m.folders.len() as int,
        Category::Notification => m.notifications.len() as int,
        Category::Tag => m.tags.len() as int,
        Category::UserData => 1,
    }
}

/// The entity stored at an identifier's position, when that position is
/// occupied.
pub open spec fn entity_at(m: LedgerModel, id: DatabaseItemID) -> DatabaseItemModel {
    match id {
        DatabaseItemID::AccessMode(p) => DatabaseItemModel::AccessMode(m.access_modes[p as int]),
        DatabaseItemID::Chat(p) => DatabaseItemModel::Chat(m.chats[p as int]),
        DatabaseItemID::ChatConfiguration(p) => DatabaseItemModel::ChatConfig(m.configs[p as int]),
        DatabaseItemID::Device(p) => DatabaseItemModel::Device(m.devices[p as int]),
        DatabaseItemID::File(p) => DatabaseItemModel::File(m.files[p as int]),
        DatabaseItemID::Folder(p) => DatabaseItemModel::Folder(m.folders[p as int]),
        DatabaseItemID::Notification(p) => DatabaseItemModel::Notification(m.notifications[p as int]),
        DatabaseItemID::Tag(p) => DatabaseItemModel::Tag(m.tags[p as int]),
        DatabaseItemID::UserData => DatabaseItemModel::UserData(m.user_data),
    }
}

impl ClientLedger {
    /// A fresh ledger holding nothing but the user's own record.
    pub fn new_just_data(username: String) -> (db: ClientLedger)
        ensures
            db@.chats.len() == 0,
            db@.tags.len() == 0,
            db@.access_modes.len() == 0,
            db@.configs.len() == 0,
            db@.devices.len() == 0,
            db@.files.len() == 0,
            db@.folders.len() == 0,
            db@.notifications.len() == 0,
            db@.user_data.username == username@,
    {
        ClientLedger {
            chats: Vec::new(),
            tags: Vec::new(),
            access_modes: Vec::new(),
            configs: Vec::new(),
            devices: Vec::new(),
            files: Vec::new(),
            folders: Vec::new(),
            notifications: Vec::new(),
            user_data: UserData { username },
        }
    }

    pub fn len_of(&self, c: Category) -> (n: usize)
        ensures
            n as int == cat_len(self@, c),
    {
        match c {
            Category::AccessMode => self.access_modes.len(),
            Category::Chat => self.chats.len(),
            Category::ChatConfiguration => self.configs.len(),
            Category::Device => self.devices.len(),
            Category::File => self.files.len(),
            Category::Folder => self.folders.len(),
            Category::Notification => self.notifications.len(),
            Category::Tag => self.tags.len(),
            Category::UserData => 1,
        }
    }

    /// Positional lookup.  The answer is `Some` exactly when the position is
    /// below the category's length: occupied positions form the unbroken
    /// range `0..len`, so validity is decided by one comparison.
    pub fn get_item(&self, id: DatabaseItemID) -> (r: Option<DatabaseItem>)
        ensures
            r is Some <==> id_pos(id) < cat_len(self@, id_category(id)),
            r matches Some(it) ==> it.deep_view() == entity_at(self@, id),
    {
        match id {
            DatabaseItemID::AccessMode(p) => {
                if p < self.access_modes.len() {
                    Some(DatabaseItem::AccessMode(self.access_modes[p].clone()))
                } else {
                    None
                }
            }
            DatabaseItemID::Chat(p) => {
                if p < self.chats.len() {
                    Some(DatabaseItem::Chat(self.chats[p].clone()))
                } else {
                    None
                }
            }
            DatabaseItemID::ChatConfiguration(p) => {
                if p < self.configs.len() {
                    Some(DatabaseItem::ChatConfig(self.configs[p].clone()))
                } else {
                    None
                }
            }
            DatabaseItemID::Device(p) => {
                if p < self.devices.len() {
                    Some(DatabaseItem::Device(self.devices[p].clone()))
                } else {
                    None
                }
            }
            DatabaseItemID::File(p) => {
                if p < self.files.len() {
                    Some(DatabaseItem::File(self.files[p].clone()))
                } else {
                    None
                }
            }
            DatabaseItemID::Folder(p) => {
                if p < self.folders.len() {
                    Some(DatabaseItem::Folder(self.folders[p].clone()))
                } else {
                    None
                }
            }
            DatabaseItemID::Notification(p) => {
                if p < self.notifications.len() {
                    Some(DatabaseItem::Notification(self.notifications[p].clone()))
                } else {
                    None
                }
            }
            DatabaseItemID::Tag(p) => {
                if p < self.tags.len() {
                    Some(DatabaseItem::Tag(self.tags[p].clone()))
                } else {
                    None
                }
            }
            DatabaseItemID::UserData => Some(DatabaseItem::UserData(self.user_data.clone())),
        }
    }
}

} // verus!
