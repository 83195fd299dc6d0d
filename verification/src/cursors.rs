//! The UI-facing selection state: one bundle of position-valued pointers
//! into the ledger, kept consistent by the reconciliation engine and the
//! update application layer across every mutation.

use vstd::prelude::*;

use crate::items::{ChatSetting, ChatSettingModel};
use crate::ledger::{LedgerModel, cat_len};
use crate::ids::Category;

verus! {

/// Every cursor the tabs hold.  Position-valued fields either point at an
/// existing entity of their category or are `None`; they are never allowed
/// to dangle.
pub struct UserCursors {
    pub chosen_tab: usize,
    pub chosen_chat: Option<usize>,
    pub chosen_access_mode: usize,
    pub access_mode_for_modification: Option<usize>,
    pub chosen_tag: Option<usize>,
    pub chosen_tags: Vec<usize>,
    pub chosen_parent_tag: Option<usize>,
    pub chosen_config: Option<usize>,
    pub config_for_modification: Option<usize>,
    pub chosen_setting: Option<usize>,
    pub setting_for_modification: Option<ChatSetting>,
    pub chosen_access_mode_tags: Vec<usize>,
}

#[verifier::ext_equal]
pub struct CursorsModel {
    pub chosen_tab: usize,
    pub chosen_chat: Option<usize>,
    pub chosen_access_mode: usize,
    pub access_mode_for_modification: Option<usize>,
    pub chosen_tag: Option<usize>,
    pub chosen_tags: Seq<usize>,
    pub chosen_parent_tag: Option<usize>,
    pub chosen_config: Option<usize>,
    pub config_for_modification: Option<usize>,
    pub chosen_setting: Option<usize>,
    pub setting_for_modification: Option<ChatSettingModel>,
    pub chosen_access_mode_tags: Seq<usize>,
}

impl View for UserCursors {
    type V = CursorsModel;

    open spec fn view(&self) -> CursorsModel {
        CursorsModel {
            chosen_tab: self.chosen_tab,
            chosen_chat: self.chosen_chat,
            chosen_access_mode: self.chosen_access_mode,
            access_mode_for_modification: self.access_mode_for_modification,
            chosen_tag: self.chosen_tag,
            chosen_tags: self.chosen_tags.deep_view(),
            chosen_parent_tag: self.chosen_parent_tag,
            chosen_config: self.chosen_config,
            config_for_modification: self.config_for_modification,
            chosen_setting: self.chosen_setting,
            setting_for_modification: self.setting_for_modification.deep_view(),
            chosen_access_mode_tags: self.chosen_access_mode_tags.deep_view(),
        }
    }
}

/// The central invariant: every position-valued cursor refers to an existing
/// entity of its category, or is `None`.  The always-present access-mode
/// selection is pinned to zero while its category is still empty.
pub open spec fn cursors_valid(c: CursorsModel, m: LedgerModel) -> bool {
    &&& c.chosen_chat matches Some(i) ==> (i as int) < cat_len(m, Category::Chat)
    &&& (c.chosen_access_mode as int) < cat_len(m, Category::AccessMode)
        || (cat_len(m, Category::AccessMode) == 0 && c.chosen_access_mode == 0)
    &&& c.access_mode_for_modification matches Some(i) ==> (i as int) < cat_len(m, Category::AccessMode)
    &&& c.chosen_tag matches Some(i) ==> (i as int) < cat_len(m, Category::Tag)
    &&& c.chosen_parent_tag matches Some(i) ==> (i as int) < cat_len(m, Category::Tag)
    &&& forall|k: int| 0 <= k < c.chosen_tags.len() ==> (#[trigger] c.chosen_tags[k] as int) < cat_len(m, Category::Tag)
    &&& forall|k: int| 0 <= k < c.chosen_access_mode_tags.len()
        ==> (#[trigger] c.chosen_access_mode_tags[k] as int) < cat_len(m, Category::Tag)
    &&& c.chosen_config matches Some(i) ==> (i as int) < cat_len(m, Category::ChatConfiguration)
    &&& c.config_for_modification matches Some(i) ==> (i as int) < cat_len(m, Category::ChatConfiguration)
}

pub(crate) fn copy_positions(v: &Vec<usize>) -> (r: Vec<usize>)
    ensures
        r@ == v@,
{
    let mut r: Vec<usize> = Vec::new();
    let mut i: usize = 0;
    while i < v.len()
        invariant
            i <= v@.len(),
            r@ == v@.take(i as int),
        decreases v@.len() - i,
    {
        r.push(v[i]);
        i = i + 1;
        assert(r@ =~= v@.take(i as int));
    }
    assert(r@ =~= v@);
    r
}

fn copy_setting(s: &Option<ChatSetting>) -> (r: Option<ChatSetting>)
    ensures
        r.deep_view() == s.deep_view(),
{
    match s {
        Some(x) => Some(x.clone()),
        None => None,
    }
}

impl Clone for UserCursors {
    fn clone(&self) -> (r: Self)
        ensures
            r@ == self@,
    {
        let r = UserCursors {
            chosen_tab: self.chosen_tab,
            chosen_chat: self.chosen_chat,
            chosen_access_mode: self.chosen_access_mode,
            access_mode_for_modification: self.access_mode_for_modification,
            chosen_tag: self.chosen_tag,
            chosen_tags: copy_positions(&self.chosen_tags),
            chosen_parent_tag: self.chosen_parent_tag,
            chosen_config: self.chosen_config,
            config_for_modification: self.config_for_modification,
            chosen_setting: self.chosen_setting,
            setting_for_modification: copy_setting(&self.setting_for_modification),
            chosen_access_mode_tags: copy_positions(&self.chosen_access_mode_tags),
        };
        assert(r@ =~= self@);
        r
    }
}

impl UserCursors {
    /// The state before anything is selected.
    pub fn zero() -> (r: Self)
        ensures
            r@.chosen_tab == 0,
            r@.chosen_chat is None,
            r@.chosen_access_mode == 0,
            r@.access_mode_for_modification is None,
            r@.chosen_tag is None,
            r@.chosen_tags.len() == 0,
            r@.chosen_parent_tag is None,
            r@.chosen_config is None,
            r@.config_for_modification is None,
            r@.chosen_setting is None,
            r@.setting_for_modification is None,
            r@.chosen_access_mode_tags.len() == 0,
    {
        UserCursors {
            chosen_tab: 0,
            chosen_chat: None,
            chosen_access_mode: 0,
            access_mode_for_modification: None,
            chosen_tag: None,
            chosen_tags: Vec::new(),
            chosen_parent_tag: None,
            chosen_config: None,
            config_for_modification: None,
            chosen_setting: None,
            setting_for_modification: None,
            chosen_access_mode_tags: Vec::new(),
        }
    }

    /// Rebuilds the bundle from the tabs' live state; the edit-in-progress
    /// fields start clear.
    pub fn from_state(
        chosen_tab: usize,
        chosen_chat: Option<usize>,
        chosen_access_mode: usize,
        access_mode_for_modification: Option<usize>,
        chosen_tag: Option<usize>,
        chosen_parent_tag: Option<usize>,
        chosen_config: Option<usize>,
        chosen_setting: Option<usize>,
        config_for_modification: Option<usize>,
        chosen_access_mode_tags: Vec<usize>,
    ) -> (r: Self)
        ensures
            r@.chosen_tab == chosen_tab,
            r@.chosen_chat == chosen_chat,
            r@.chosen_access_mode == chosen_access_mode,
            r@.access_mode_for_modification == access_mode_for_modification,
            r@.chosen_tag == chosen_tag,
            r@.chosen_tags.len() == 0,
            r@.chosen_parent_tag == chosen_parent_tag,
            r@.chosen_config == chosen_config,
            r@.config_for_modification == config_for_modification,
            r@.chosen_setting == chosen_setting,
            r@.setting_for_modification is None,
            r@.chosen_access_mode_tags == chosen_access_mode_tags@,
    {
        UserCursors {
            chosen_tab,
            chosen_chat,
            chosen_access_mode,
            access_mode_for_modification,
            chosen_tag,
            chosen_tags: Vec::new(),
            chosen_parent_tag,
            chosen_config,
            config_for_modification,
            chosen_setting,
            setting_for_modification: None,
            chosen_access_mode_tags,
        }
    }
}

/// Cursor validity only mentions category lengths, so it survives any
/// mutation that never shrinks a category.
pub proof fn lemma_cursors_valid_monotone(c: CursorsModel, m1: LedgerModel, m2: LedgerModel)
    requires
        cursors_valid(c, m1),
        cat_len(m1, Category::Chat) <= cat_len(m2, Category::Chat),
        cat_len(m1, Category::Tag) <= cat_len(m2, Category::Tag),
        cat_len(m1, Category::AccessMode) <= cat_len(m2, Category::AccessMode),
        cat_len(m1, Category::ChatConfiguration) <= cat_len(m2, Category::ChatConfiguration),
    ensures
        cursors_valid(c, m2),
{
}

} // verus!
