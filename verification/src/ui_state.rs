//! The application-shell state the root component keeps: a toggling boolean
//! and the bootstrap record carrying credentials, endpoint and the first
//! ledger snapshot.  Both are reducers: each action yields the next state.

use vstd::prelude::*;

use crate::ledger::ClientLedger;

verus! {

pub enum BoolAction {
    On,
    Off,
    Toggle,
}

pub struct BoolState {
    pub value: bool,
}

impl Default for BoolState {
    fn default() -> (r: Self)
        ensures
            !r.value,
    {
        BoolState { value: false }
    }
}

impl BoolState {
    pub fn reduce(self, action: BoolAction) -> (next: Self)
        ensures
            next.value == match action {
                BoolAction::On => true,
                BoolAction::Off => false,
                BoolAction::Toggle => !self.value,
            },
    {
        let next_val = match action {
            BoolAction::On => true,
            BoolAction::Off => false,
            BoolAction::Toggle => !self.value,
        };
        BoolState { value: next_val }
    }
}

pub type DeviceID = usize;

/// The bootstrap state of a session: set step by step while the user signs
/// in, then read by everything else.
pub struct ProximaState {
    pub initialized: bool,
    pub loaded: bool,
    pub username: String,
    pub auth_token: String,
    pub chat_url: String,
    pub device_id: DeviceID,
    pub start_db: Option<ClientLedger>,
}

/// Whether two bootstrap snapshots hold the same ledger, judged by the
/// ledger's model.
pub open spec fn same_start_db(a: Option<ClientLedger>, b: Option<ClientLedger>) -> bool {
    match (a, b) {
        (Option::None, Option::None) => true,
        (Option::Some(x), Option::Some(y)) => x@ == y@,
        _ => false,
    }
}

pub enum ProximaStateAction {
    ChangeInit(bool),
    ChangeLoaded(bool),
    ChangeUsername(String),
    ChangeAuthToken(String),
    ChangeChatURL(String),
    ChangeDeviceID(DeviceID),
    ChangeStartDB(Option<ClientLedger>),
}

impl ProximaState {
    /// Each action replaces exactly one field and keeps the rest.
    pub fn reduce(self, action: ProximaStateAction) -> (next: Self)
        ensures
            match action {
                ProximaStateAction::ChangeInit(v) => next.initialized == v && next.loaded
                    == self.loaded && next.username@ == self.username@ && next.auth_token@
                    == self.auth_token@ && next.chat_url@ == self.chat_url@ && next.device_id
                    == self.device_id,
                ProximaStateAction::ChangeLoaded(v) => next.loaded == v && next.initialized
                    == self.initialized && next.username@ == self.username@ && next.auth_token@
                    == self.auth_token@ && next.chat_url@ == self.chat_url@ && next.device_id
                    == self.device_id,
                ProximaStateAction::ChangeUsername(v) => next.username@ == v@ && next.initialized
                    == self.initialized && next.loaded == self.loaded && next.auth_token@
                    == self.auth_token@ && next.chat_url@ == self.chat_url@ && next.device_id
                    == self.device_id,
                ProximaStateAction::ChangeAuthToken(v) => next.auth_token@ == v@
                    && next.initialized == self.initialized && next.loaded == self.loaded
                    && next.username@ == self.username@ && next.chat_url@ == self.chat_url@
                    && next.device_id == self.device_id,
                ProximaStateAction::ChangeChatURL(v) => next.chat_url@ == v@ && next.initialized
                    == self.initialized && next.loaded == self.loaded && next.username@
                    == self.username@ && next.auth_token@ == self.auth_token@ && next.device_id
                    == self.device_id,
                ProximaStateAction::ChangeDeviceID(v) => next.device_id == v && next.initialized
                    == self.initialized && next.loaded == self.loaded && next.username@
                    == self.username@ && next.auth_token@ == self.auth_token@ && next.chat_url@
                    == self.chat_url@,
                ProximaStateAction::ChangeStartDB(_) => next.initialized == self.initialized
                    && next.loaded == self.loaded && next.username@ == self.username@
                    && next.auth_token@ == self.auth_token@ && next.chat_url@ == self.chat_url@
                    && next.device_id == self.device_id,
            },
            match action {
                ProximaStateAction::ChangeStartDB(v) => same_start_db(v, next.start_db),
                _ => same_start_db(self.start_db, next.start_db),
            },
    {
        match action {
            ProximaStateAction::ChangeInit(v) => ProximaState { initialized: v, ..self },
            ProximaStateAction::ChangeLoaded(v) => ProximaState { loaded: v, ..self },
            ProximaStateAction::ChangeUsername(v) => ProximaState { username: v, ..self },
            ProximaStateAction::ChangeAuthToken(v) => ProximaState { auth_token: v, ..self },
            ProximaStateAction::ChangeChatURL(v) => ProximaState { chat_url: v, ..self },
            ProximaStateAction::ChangeDeviceID(v) => ProximaState { device_id: v, ..self },
            ProximaStateAction::ChangeStartDB(v) => ProximaState { start_db: v, ..self },
        }
    }
}

impl Default for ProximaState {
    fn default() -> (r: Self)
        ensures
            !r.initialized,
            !r.loaded,
            r.device_id == 0,
            r.start_db is None,
    {
        ProximaState {
            initialized: false,
            loaded: false,
            username: String::from_str("No username defined"),
            auth_token: String::from_str("INVALID AUTH TOKEN"),
            chat_url: String::from_str("INVALID ADDRESS"),
            device_id: 0,
            start_db: None,
        }
    }
}

} // verus!
