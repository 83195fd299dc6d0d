//! The entity records the client ledger stores, one variant per category,
//! each with a mathematical model used by every contract.

use vstd::prelude::*;

use crate::ids::{Category, DatabaseItemID, id_category, id_pos, id_with};

verus! {

/// Who a conversation turn is attributed to.
#[derive(Clone, Copy, PartialEq, Eq, Structural, Debug)]
pub enum ContextPosition {
    User,
    AI,
    System,
}

impl DeepView for ContextPosition {
    type V = ContextPosition;

    open spec fn deep_view(&self) -> ContextPosition {
        *self
    }
}

/// One fragment of conversation content: text, or an opaque binary payload.
#[derive(Debug)]
pub enum ContextData {
    Text(String),
    Binary(Vec<u8>),
}

pub enum ContextDataModel {
    Text(Seq<char>),
    Binary(Seq<u8>),
}

impl DeepView for ContextData {
    type V = ContextDataModel;

    open spec fn deep_view(&self) -> ContextDataModel {
        match self {
            ContextData::Text(s) => ContextDataModel::Text(s@),
            ContextData::Binary(b) => ContextDataModel::Binary(b@),
        }
    }
}

/// One conversation turn: a block of fragments attributed to one position.
#[derive(Debug)]
pub struct ContextPart {
    pub position: ContextPosition,
    pub data: Vec<ContextData>,
}

pub struct ContextPartModel {
    pub position: ContextPosition,
    pub data: Seq<ContextDataModel>,
}

impl DeepView for ContextPart {
    type V = ContextPartModel;

    open spec fn deep_view(&self) -> ContextPartModel {
        ContextPartModel { position: self.position, data: self.data.deep_view() }
    }
}

/// A chat: its transcript plus the selection metadata the tabs read.
#[derive(Debug)]
pub struct Chat {
    pub id: usize,
    pub title: Option<String>,
    pub context: Vec<ContextPart>,
    pub access_modes: Vec<usize>,
    pub config: Option<usize>,
}

pub struct ChatModel {
    pub id: usize,
    pub title: Option<Seq<char>>,
    pub context: Seq<ContextPartModel>,
    pub access_modes: Seq<usize>,
    pub config: Option<usize>,
}

impl DeepView for Chat {
    type V = ChatModel;

    open spec fn deep_view(&self) -> ChatModel {
        ChatModel {
            id: self.id,
            title: self.title.deep_view(),
            context: self.context.deep_view(),
            access_modes: self.access_modes.deep_view(),
            config: self.config,
        }
    }
}

#[derive(Debug)]
pub struct Tag {
    pub id: usize,
    pub name: String,
    pub description: String,
    pub parent: Option<usize>,
}

pub struct TagModel {
    pub id: usize,
    pub name: Seq<char>,
    pub description: Seq<char>,
    pub parent: Option<usize>,
}

impl DeepView for Tag {
    type V = TagModel;

    open spec fn deep_view(&self) -> TagModel {
        TagModel { id: self.id, name: self.name@, description: self.description@, parent: self.parent }
    }
}

#[derive(Debug)]
pub struct AccessMode {
    pub id: usize,
    pub name: String,
    pub tags: Vec<usize>,
}

pub struct AccessModeModel {
    pub id: usize,
    pub name: Seq<char>,
    pub tags: Seq<usize>,
}

impl DeepView for AccessMode {
    type V = AccessModeModel;

    open spec fn deep_view(&self) -> AccessModeModel {
        AccessModeModel { id: self.id, name: self.name@, tags: self.tags.deep_view() }
    }
}

/// One tunable setting of a chat configuration.
#[derive(Debug)]
pub enum ChatSetting {
    SystemPrompt(ContextPart),
    Temperature(u64),
    MaxContextLength(u64),
    ResponseTokenLimit(u64),
    AccessMode(usize),
}

pub enum ChatSettingModel {
    SystemPrompt(ContextPartModel),
    Temperature(u64),
    MaxContextLength(u64),
    ResponseTokenLimit(u64),
    AccessMode(usize),
}

impl DeepView for ChatSetting {
    type V = ChatSettingModel;

    open spec fn deep_view(&self) -> ChatSettingModel {
        match self {
            ChatSetting::SystemPrompt(p) => ChatSettingModel::SystemPrompt(p.deep_view()),
            ChatSetting::Temperature(t) => ChatSettingModel::Temperature(*t),
            ChatSetting::MaxContextLength(l) => ChatSettingModel::MaxContextLength(*l),
            ChatSetting::ResponseTokenLimit(l) => ChatSettingModel::ResponseTokenLimit(*l),
            ChatSetting::AccessMode(a) => ChatSettingModel::AccessMode(*a),
        }
    }
}

#[derive(Debug)]
pub struct ChatConfiguration {
    pub id: usize,
    pub name: String,
    pub settings: Vec<ChatSetting>,
}

pub struct ChatConfigurationModel {
    pub id: usize,
    pub name: Seq<char>,
    pub settings: Seq<ChatSettingModel>,
}

impl DeepView for ChatConfiguration {
    type V = ChatConfigurationModel;

    open spec fn deep_view(&self) -> ChatConfigurationModel {
        ChatConfigurationModel { id: self.id, name: self.name@, settings: self.settings.deep_view() }
    }
}

#[derive(Debug)]
pub struct Device {
    pub id: usize,
    pub name: String,
}

pub struct DeviceModel {
    pub id: usize,
    pub name: Seq<char>,
}

impl DeepView for Device {
    type V = DeviceModel;

    open spec fn deep_view(&self) -> DeviceModel {
        DeviceModel { id: self.id, name: self.name@ }
    }
}

#[derive(Debug)]
pub struct FileRecord {
    pub id: usize,
    pub name: String,
}

pub struct FileRecordModel {
    pub id: usize,
    pub name: Seq<char>,
}

impl DeepView for FileRecord {
    type V = FileRecordModel;

    open spec fn deep_view(&self) -> FileRecordModel {
        FileRecordModel { id: self.id, name: self.name@ }
    }
}

#[derive(Debug)]
pub struct Folder {
    pub id: usize,
    pub name: String,
}

pub struct FolderModel {
    pub id: usize,
    pub name: Seq<char>,
}

impl DeepView for Folder {
    type V = FolderModel;

    open spec fn deep_view(&self) -> FolderModel {
        FolderModel { id: self.id, name: self.name@ }
    }
}

#[derive(Debug)]
pub struct Notification {
    pub id: usize,
    pub message: String,
    pub timestamp: u64,
}

pub struct NotificationModel {
    pub id: usize,
    pub message: Seq<char>,
    pub timestamp: u64,
}

impl DeepView for Notification {
    type V = NotificationModel;

    open spec fn deep_view(&self) -> NotificationModel {
        NotificationModel { id: self.id, message: self.message@, timestamp: self.timestamp }
    }
}

/// The singleton per-user record.
#[derive(Debug)]
pub struct UserData {
    pub username: String,
}

pub struct UserDataModel {
    pub username: Seq<char>,
}

impl DeepView for UserData {
    type V = UserDataModel;

    open spec fn deep_view(&self) -> UserDataModel {
        UserDataModel { username: self.username@ }
    }
}

/// An entity, tagged by category; the payload is the category's full record.
#[derive(Debug)]
pub enum DatabaseItem {
    AccessMode(AccessMode),
    Chat(Chat),
    ChatConfig(ChatConfiguration),
    Device(Device),
    File(FileRecord),
    Folder(Folder),
    Notification(Notification),
    Tag(Tag),
    UserData(UserData),
}

pub enum DatabaseItemModel {
    AccessMode(AccessModeModel),
    Chat(ChatModel),
    ChatConfig(ChatConfigurationModel),
    Device(DeviceModel),
    File(FileRecordModel),
    Folder(FolderModel),
    Notification(NotificationModel),
    Tag(TagModel),
    UserData(UserDataModel),
}

impl DeepView for DatabaseItem {
    type V = DatabaseItemModel;

    open spec fn deep_view(&self) -> DatabaseItemModel {
        match self {
            DatabaseItem::AccessMode(x) => DatabaseItemModel::AccessMode(x.deep_view()),
            DatabaseItem::Chat(x) => DatabaseItemModel::Chat(x.deep_view()),
            DatabaseItem::ChatConfig(x) => DatabaseItemModel::ChatConfig(x.deep_view()),
            DatabaseItem::Device(x) => DatabaseItemModel::Device(x.deep_view()),
            DatabaseItem::File(x) => DatabaseItemModel::File(x.deep_view()),
            DatabaseItem::Folder(x) => DatabaseItemModel::Folder(x.deep_view()),
            DatabaseItem::Notification(x) => DatabaseItemModel::Notification(x.deep_view()),
            DatabaseItem::Tag(x) => DatabaseItemModel::Tag(x.deep_view()),
            DatabaseItem::UserData(x) => DatabaseItemModel::UserData(x.deep_view()),
        }
    }
}

pub open spec fn item_category(item: DatabaseItemModel) -> Category {
    match item {
        DatabaseItemModel::AccessMode(_) => Category::AccessMode,
        DatabaseItemModel::Chat(_) => Category::Chat,
        DatabaseItemModel::ChatConfig(_) => Category::ChatConfiguration,
        DatabaseItemModel::Device(_) => Category::Device,
        DatabaseItemModel::File(_) => Category::File,
        DatabaseItemModel::Folder(_) => Category::Folder,
        DatabaseItemModel::Notification(_) => Category::Notification,
        DatabaseItemModel::Tag(_) => Category::Tag,
        DatabaseItemModel::UserData(_) => Category::UserData,
    }
}

/// The position an entity declares as its own; the user-data singleton
/// counts as position zero.
pub open spec fn item_pos(item: DatabaseItemModel) -> int {
    match item {
        DatabaseItemModel::AccessMode(x) => x.id as int,
        DatabaseItemModel::Chat(x) => x.id as int,
        DatabaseItemModel::ChatConfig(x) => x.id as int,
        DatabaseItemModel::Device(x) => x.id as int,
        DatabaseItemModel::File(x) => x.id as int,
        DatabaseItemModel::Folder(x) => x.id as int,
        DatabaseItemModel::Notification(x) => x.id as int,
        DatabaseItemModel::Tag(x) => x.id as int,
        DatabaseItemModel::UserData(_) => 0,
    }
}

/// The identifier an entity declares as its own.
pub open spec fn item_id(item: DatabaseItemModel) -> DatabaseItemID {
    id_with(item_category(item), item_pos(item) as usize)
}

/// Restamps an entity with `id`.  A cross-category identifier leaves the
/// entity unchanged: identifiers of different categories never interact.
pub open spec fn stamp(item: DatabaseItemModel, id: DatabaseItemID) -> DatabaseItemModel {
    if id_category(id) == item_category(item) {
        let p = id_pos(id) as usize;
        match item {
            DatabaseItemModel::AccessMode(x) => DatabaseItemModel::AccessMode(AccessModeModel { id: p, ..x }),
            DatabaseItemModel::Chat(x) => DatabaseItemModel::Chat(ChatModel { id: p, ..x }),
            DatabaseItemModel::ChatConfig(x) => DatabaseItemModel::ChatConfig(ChatConfigurationModel { id: p, ..x }),
            DatabaseItemModel::Device(x) => DatabaseItemModel::Device(DeviceModel { id: p, ..x }),
            DatabaseItemModel::File(x) => DatabaseItemModel::File(FileRecordModel { id: p, ..x }),
            DatabaseItemModel::Folder(x) => DatabaseItemModel::Folder(FolderModel { id: p, ..x }),
            DatabaseItemModel::Notification(x) => DatabaseItemModel::Notification(NotificationModel { id: p, ..x }),
            DatabaseItemModel::Tag(x) => DatabaseItemModel::Tag(TagModel { id: p, ..x }),
            DatabaseItemModel::UserData(x) => DatabaseItemModel::UserData(x),
        }
    } else {
        item
    }
}

impl DatabaseItem {
    pub fn category(&self) -> (c: Category)
        ensures
            c == item_category(self.deep_view()),
    {
        match self {
            DatabaseItem::AccessMode(_) => Category::AccessMode,
            DatabaseItem::Chat(_) => Category::Chat,
            DatabaseItem::ChatConfig(_) => Category::ChatConfiguration,
            DatabaseItem::Device(_) => Category::Device,
            DatabaseItem::File(_) => Category::File,
            DatabaseItem::Folder(_) => Category::Folder,
            DatabaseItem::Notification(_) => Category::Notification,
            DatabaseItem::Tag(_) => Category::Tag,
            DatabaseItem::UserData(_) => Category::UserData,
        }
    }

    pub fn pos(&self) -> (p: usize)
        ensures
            p as int == item_pos(self.deep_view()),
    {
        match self {
            DatabaseItem::AccessMode(x) => x.id,
            DatabaseItem::Chat(x) => x.id,
            DatabaseItem::ChatConfig(x) => x.id,
            DatabaseItem::Device(x) => x.id,
            DatabaseItem::File(x) => x.id,
            DatabaseItem::Folder(x) => x.id,
            DatabaseItem::Notification(x) => x.id,
            DatabaseItem::Tag(x) => x.id,
            DatabaseItem::UserData(_) => 0,
        }
    }

    /// The identifier this entity declares as its own.
    pub fn get_id(&self) -> (id: DatabaseItemID)
        ensures
            id == item_id(self.deep_view()),
    {
        DatabaseItemID::with_category(self.category(), self.pos())
    }

    /// Restamps this entity; needed because a client-constructed entity does
    /// not know its final remote position until reconciliation completes.
    pub fn set_id(&mut self, id: DatabaseItemID)
        ensures
            final(self).deep_view() == stamp(old(self).deep_view(), id),
    {
        let p = id.pos();
        match (self, id) {
            (DatabaseItem::AccessMode(x), DatabaseItemID::AccessMode(_)) => { x.id = p; }
            (DatabaseItem::Chat(x), DatabaseItemID::Chat(_)) => { x.id = p; }
            (DatabaseItem::ChatConfig(x), DatabaseItemID::ChatConfiguration(_)) => { x.id = p; }
            (DatabaseItem::Device(x), DatabaseItemID::Device(_)) => { x.id = p; }
            (DatabaseItem::File(x), DatabaseItemID::File(_)) => { x.id = p; }
            (DatabaseItem::Folder(x), DatabaseItemID::Folder(_)) => { x.id = p; }
            (DatabaseItem::Notification(x), DatabaseItemID::Notification(_)) => { x.id = p; }
            (DatabaseItem::Tag(x), DatabaseItemID::Tag(_)) => { x.id = p; }
            (DatabaseItem::UserData(_), DatabaseItemID::UserData) => {}
            _ => {}
        }
    }
}

fn copy_usizes(v: &Vec<usize>) -> (r: Vec<usize>)
    ensures
        r@ == v@,
{
    let mut r: Vec<usize> = Vec::new();
    let mut i: usize = 0;
    while i < v.len()
        invariant
            i <= v@.len(),
            r@ == v@.take(i as int),
        decreases v@.len() - i,
    {
        r.push(v[i]);
        i = i + 1;
        assert(r@ =~= v@.take(i as int));
    }
    assert(r@ =~= v@);
    r
}

fn copy_bytes(v: &Vec<u8>) -> (r: Vec<u8>)
    ensures
        r@ == v@,
{
    let mut r: Vec<u8> = Vec::new();
    let mut i: usize = 0;
    while i < v.len()
        invariant
            i <= v@.len(),
            r@ == v@.take(i as int),
        decreases v@.len() - i,
    {
        r.push(v[i]);
        i = i + 1;
        assert(r@ =~= v@.take(i as int));
    }
    assert(r@ =~= v@);
    r
}

fn copy_title(t: &Option<String>) -> (r: Option<String>)
    ensures
        r.deep_view() == t.deep_view(),
{
    match t {
        Some(s) => Some(s.clone()),
        None => None,
    }
}

impl Clone for ContextData {
    fn clone(&self) -> (r: Self)
        ensures
            r.deep_view() == self.deep_view(),
    {
        match self {
            ContextData::Text(s) => ContextData::Text(s.clone()),
            ContextData::Binary(b) => ContextData::Binary(copy_bytes(b)),
        }
    }
}

fn copy_data(v: &Vec<ContextData>) -> (r: Vec<ContextData>)
    ensures
        r.deep_view() == v.deep_view(),
{
    let mut r: Vec<ContextData> = Vec::new();
    let mut i: usize = 0;
    while i < v.len()
        invariant
            i <= v@.len(),
            r.deep_view() == v.deep_view().take(i as int),
        decreases v@.len() - i,
    {
        let x = v[i].clone();
        let ghost prev = r.deep_view();
        let ghost xm = x.deep_view();
        r.push(x);
        i = i + 1;
        assert(r.deep_view() =~= prev.push(xm));
        assert(r.deep_view() =~= v.deep_view().take(i as int));
    }
    assert(r.deep_view() =~= v.deep_view());
    r
}

impl Clone for ContextPart {
    fn clone(&self) -> (r: Self)
        ensures
            r.deep_view() == self.deep_view(),
    {
        ContextPart { position: self.position, data: copy_data(&self.data) }
    }
}

fn copy_parts(v: &Vec<ContextPart>) -> (r: Vec<ContextPart>)
    ensures
        r.deep_view() == v.deep_view(),
{
    let mut r: Vec<ContextPart> = Vec::new();
    let mut i: usize = 0;
    while i < v.len()
        invariant
            i <= v@.len(),
            r.deep_view() == v.deep_view().take(i as int),
        decreases v@.len() - i,
    {
        let x = v[i].clone();
        let ghost prev = r.deep_view();
        let ghost xm = x.deep_view();
        r.push(x);
        i = i + 1;
        assert(r.deep_view() =~= prev.push(xm));
        assert(r.deep_view() =~= v.deep_view().take(i as int));
    }
    assert(r.deep_view() =~= v.deep_view());
    r
}

impl Clone for Chat {
    fn clone(&self) -> (r: Self)
        ensures
            r.deep_view() == self.deep_view(),
    {
        Chat {
            id: self.id,
            title: copy_title(&self.title),
            context: copy_parts(&self.context),
            access_modes: copy_usizes(&self.access_modes),
            config: self.config,
        }
    }
}

impl Clone for Tag {
    fn clone(&self) -> (r: Self)
        ensures
            r.deep_view() == self.deep_view(),
    {
        Tag {
            id: self.id,
            name: self.name.clone(),
            description: self.description.clone(),
            parent: self.parent,
        }
    }
}

impl Clone for AccessMode {
    fn clone(&self) -> (r: Self)
        ensures
            r.deep_view() == self.deep_view(),
    {
        AccessMode { id: self.id, name: self.name.clone(), tags: copy_usizes(&self.tags) }
    }
}

impl Clone for ChatSetting {
    fn clone(&self) -> (r: Self)
        ensures
            r.deep_view() == self.deep_view(),
    {
        match self {
            ChatSetting::SystemPrompt(p) => ChatSetting::SystemPrompt(p.clone()),
            ChatSetting::Temperature(t) => ChatSetting::Temperature(*t),
            ChatSetting::MaxContextLength(l) => ChatSetting::MaxContextLength(*l),
            ChatSetting::ResponseTokenLimit(l) => ChatSetting::ResponseTokenLimit(*l),
            ChatSetting::AccessMode(a) => ChatSetting::AccessMode(*a),
        }
    }
}

fn copy_settings(v: &Vec<ChatSetting>) -> (r: Vec<ChatSetting>)
    ensures
        r.deep_view() == v.deep_view(),
{
    let mut r: Vec<ChatSetting> = Vec::new();
    let mut i: usize = 0;
    while i < v.len()
        invariant
            i <= v@.len(),
            r.deep_view() == v.deep_view().take(i as int),
        decreases v@.len() - i,
    {
        let x = v[i].clone();
        let ghost prev = r.deep_view();
        let ghost xm = x.deep_view();
        r.push(x);
        i = i + 1;
        assert(r.deep_view() =~= prev.push(xm));
        assert(r.deep_view() =~= v.deep_view().take(i as int));
    }
    assert(r.deep_view() =~= v.deep_view());
    r
}

impl Clone for ChatConfiguration {
    fn clone(&self) -> (r: Self)
        ensures
            r.deep_view() == self.deep_view(),
    {
        ChatConfiguration { id: self.id, name: self.name.clone(), settings: copy_settings(&self.settings) }
    }
}

impl Clone for Device {
    fn clone(&self) -> (r: Self)
        ensures
            r.deep_view() == self.deep_view(),
    {
        Device { id: self.id, name: self.name.clone() }
    }
}

impl Clone for FileRecord {
    fn clone(&self) -> (r: Self)
        ensures
            r.deep_view() == self.deep_view(),
    {
        FileRecord { id: self.id, name: self.name.clone() }
    }
}

impl Clone for Folder {
    fn clone(&self) -> (r: Self)
        ensures
            r.deep_view() == self.deep_view(),
    {
        Folder { id: self.id, name: self.name.clone() }
    }
}

impl Clone for Notification {
    fn clone(&self) -> (r: Self)
        ensures
            r.deep_view() == self.deep_view(),
    {
        Notification { id: self.id, message: self.message.clone(), timestamp: self.timestamp }
    }
}

impl Clone for UserData {
    fn clone(&self) -> (r: Self)
        ensures
            r.deep_view() == self.deep_view(),
    {
        UserData { username: self.username.clone() }
    }
}

impl Clone for DatabaseItem {
    fn clone(&self) -> (r: Self)
        ensures
            r.deep_view() == self.deep_view(),
    {
        match self {
            DatabaseItem::AccessMode(x) => DatabaseItem::AccessMode(x.clone()),
            DatabaseItem::Chat(x) => DatabaseItem::Chat(x.clone()),
            DatabaseItem::ChatConfig(x) => DatabaseItem::ChatConfig(x.clone()),
            DatabaseItem::Device(x) => DatabaseItem::Device(x.clone()),
            DatabaseItem::File(x) => DatabaseItem::File(x.clone()),
            DatabaseItem::Folder(x) => DatabaseItem::Folder(x.clone()),
            DatabaseItem::Notification(x) => DatabaseItem::Notification(x.clone()),
            DatabaseItem::Tag(x) => DatabaseItem::Tag(x.clone()),
            DatabaseItem::UserData(x) => DatabaseItem::UserData(x.clone()),
        }
    }
}

} // verus!
