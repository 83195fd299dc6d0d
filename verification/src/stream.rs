//! The incremental token-streaming accumulator.  The transport delivers
//! partial-response events at least once and in no guaranteed order; the
//! accumulator folds them into the ledger's chat transcripts idempotently,
//! tracking per chat which token identifiers were already applied, and
//! garbage-collects that tracking state after an inactivity window.  The
//! collection pass runs at the start of every accumulator transition — the
//! transitions that carry a clock; transitions of the ledger that do not go
//! through the accumulator leave its tracking state untouched.

use vstd::prelude::*;
use vstd::string::StringExecFns;

use crate::items::{
    ContextData, ContextDataModel, ContextPart, ContextPartModel, ChatModel,
};
use crate::ledger::{ClientLedger, LedgerModel};

verus! {

/// Tracking state idle longer than this is dropped at the next transition.
pub const STREAM_EVICT_IDLE_MS: u64 = 180_000;

/// A start event after this much idleness opens a new turn even at an
/// unchanged position.
pub const TURN_SPLIT_IDLE_MS: u64 = 1_000;

/// A partial-response event, as the push transport delivers it.
pub enum EndpointResponseVariant {
    /// Opens (or splits) a turn: payload, token identifier, and the position
    /// the turn is attributed to.
    StartStream(ContextData, u64, crate::items::ContextPosition),
    /// Extends the current turn: payload and token identifier.
    ContinueStream(ContextData, u64),
    /// Never sent in normal operation; receiving one is a protocol
    /// violation.
    EndStream,
    /// A whole turn at once; not the accumulator's business.
    Block(ContextPart),
    /// A whole multi-turn exchange at once; not the accumulator's business.
    MultiTurnBlock(Vec<ContextPart>),
}

pub enum EndpointResponseModel {
    StartStream(ContextDataModel, u64, crate::items::ContextPosition),
    ContinueStream(ContextDataModel, u64),
    EndStream,
    Block(ContextPartModel),
    MultiTurnBlock(Seq<ContextPartModel>),
}

impl DeepView for EndpointResponseVariant {
    type V = EndpointResponseModel;

    open spec fn deep_view(&self) -> EndpointResponseModel {
        match self {
            EndpointResponseVariant::StartStream(d, tok, pos) => EndpointResponseModel::StartStream(
                d.deep_view(),
                *tok,
                *pos,
            ),
            EndpointResponseVariant::ContinueStream(d, tok) => EndpointResponseModel::ContinueStream(
                d.deep_view(),
                *tok,
            ),
            EndpointResponseVariant::EndStream => EndpointResponseModel::EndStream,
            EndpointResponseVariant::Block(p) => EndpointResponseModel::Block(p.deep_view()),
            EndpointResponseVariant::MultiTurnBlock(ps) => EndpointResponseModel::MultiTurnBlock(
                ps.deep_view(),
            ),
        }
    }
}

/// Per-chat tracking state: the token identifiers already applied, the time
/// of last activity, and the position of the last-appended turn.
pub struct StreamRecord {
    pub chat: usize,
    pub applied: Vec<u64>,
    pub last_activity: u64,
    pub last_position: crate::items::ContextPosition,
}

#[verifier::ext_equal]
pub struct StreamRecordModel {
    pub chat: usize,
    pub applied: Seq<u64>,
    pub last_activity: u64,
    pub last_position: crate::items::ContextPosition,
}

impl DeepView for StreamRecord {
    type V = StreamRecordModel;

    open spec fn deep_view(&self) -> StreamRecordModel {
        StreamRecordModel {
            chat: self.chat,
            applied: self.applied.deep_view(),
            last_activity: self.last_activity,
            last_position: self.last_position,
        }
    }
}

/// What one event did to the state.
#[derive(Clone, Copy, PartialEq, Eq, Structural, Debug)]
pub enum StreamOutcome {
    /// A new turn was appended to the transcript.
    NewTurn,
    /// The payload was merged into the current turn.
    Extended,
    /// The token was already applied; nothing changed.
    Duplicate,
    /// The event had nothing to act on; nothing changed.
    Ignored,
    /// An end-of-stream event, which the protocol never sends here.
    ProtocolViolation,
}

pub open spec fn expired(r: StreamRecordModel, now: u64) -> bool {
    now > r.last_activity && now - r.last_activity > STREAM_EVICT_IDLE_MS
}

pub open spec fn stale(r: StreamRecordModel, now: u64) -> bool {
    now > r.last_activity && now - r.last_activity > TURN_SPLIT_IDLE_MS
}

/// The garbage-collection pass: tracking state idle beyond the window is
/// dropped; everything else is kept in order, untouched.
pub open spec fn gc_spec(rs: Seq<StreamRecordModel>, now: u64) -> Seq<StreamRecordModel>
    decreases rs.len(),
{
    if rs.len() == 0 {
        rs
    } else {
        let rest = gc_spec(rs.drop_last(), now);
        if expired(rs.last(), now) {
            rest
        } else {
            rest.push(rs.last())
        }
    }
}

/// At most one tracking record per chat.
pub open spec fn streams_wf(rs: Seq<StreamRecordModel>) -> bool {
    forall|i: int, j: int|
        0 <= i < j < rs.len() ==> (#[trigger] rs[i]).chat != (#[trigger] rs[j]).chat
}

pub open spec fn has_rec(rs: Seq<StreamRecordModel>, chat: usize) -> bool {
    exists|i: int| 0 <= i < rs.len() && (#[trigger] rs[i]).chat == chat
}

pub open spec fn rec_index(rs: Seq<StreamRecordModel>, chat: usize) -> int {
    choose|i: int| 0 <= i < rs.len() && (#[trigger] rs[i]).chat == chat
}

pub open spec fn rec_of(rs: Seq<StreamRecordModel>, chat: usize) -> StreamRecordModel {
    rs[rec_index(rs, chat)]
}

/// The last textual fragment of a turn, or -1 when it has none.
pub open spec fn last_text_index(s: Seq<ContextDataModel>) -> int
    decreases s.len(),
{
    if s.len() == 0 {
        -1
    } else if s.last() is Text {
        s.len() - 1
    } else {
        last_text_index(s.drop_last())
    }
}

/// Merging a payload into a turn's fragment list: text concatenates onto the
/// last textual fragment; anything else, or text where no textual fragment
/// exists yet, is appended as a new fragment.
pub open spec fn merge_data(s: Seq<ContextDataModel>, d: ContextDataModel) -> Seq<ContextDataModel> {
    match d {
        ContextDataModel::Text(t) => {
            let j = last_text_index(s);
            if j >= 0 {
                match s[j] {
                    ContextDataModel::Text(prior) => s.update(j, ContextDataModel::Text(prior + t)),
                    _ => s.push(d),
                }
            } else {
                s.push(d)
            }
        },
        ContextDataModel::Binary(_) => s.push(d),
    }
}

/// Merging a payload into the transcript's final turn.
pub open spec fn merge_into_last(ctx: Seq<ContextPartModel>, d: ContextDataModel) -> Seq<
    ContextPartModel,
>
    recommends
        ctx.len() > 0,
{
    let last = ctx[ctx.len() - 1];
    ctx.update(
        ctx.len() - 1,
        ContextPartModel { position: last.position, data: merge_data(last.data, d) },
    )
}

pub open spec fn fresh_record(
    chat: usize,
    tok: u64,
    pos: crate::items::ContextPosition,
    now: u64,
) -> StreamRecordModel {
    StreamRecordModel { chat, applied: seq![tok], last_activity: now, last_position: pos }
}

/// The transcript with one fresh turn, holding just the payload, appended to
/// the chat.
pub open spec fn push_new_turn(
    m: LedgerModel,
    chat: usize,
    pos: crate::items::ContextPosition,
    d: ContextDataModel,
) -> LedgerModel
    recommends
        (chat as int) < m.chats.len(),
{
    let old_chat = m.chats[chat as int];
    LedgerModel {
        chats: m.chats.update(
            chat as int,
            ChatModel {
                context: old_chat.context.push(ContextPartModel { position: pos, data: seq![d] }),
                ..old_chat
            },
        ),
        ..m
    }
}

/// The transcript with the payload merged into the chat's final turn.
pub open spec fn merge_last_turn(m: LedgerModel, chat: usize, d: ContextDataModel) -> LedgerModel
    recommends
        (chat as int) < m.chats.len(),
        m.chats[chat as int].context.len() > 0,
{
    let old_chat = m.chats[chat as int];
    LedgerModel {
        chats: m.chats.update(
            chat as int,
            ChatModel { context: merge_into_last(old_chat.context, d), ..old_chat },
        ),
        ..m
    }
}

/// The accumulator's whole transition: garbage-collect, then fold one event
/// into the ledger and the tracking state.  A start event opens a new turn
/// when the chat is untracked, idle past the turn-split window, or at a
/// different position; otherwise it extends the current turn exactly like a
/// continue event.  A continue event is dropped when its token was already
/// applied (the transport may redeliver), when the chat is untracked, or
/// when there is no turn to extend.  An event for a chat the ledger does not
/// hold is dropped.  An end event is a protocol violation and changes
/// nothing beyond the collection pass.
pub open spec fn stream_step(
    m: LedgerModel,
    rs0: Seq<StreamRecordModel>,
    chat: usize,
    ev: EndpointResponseModel,
    now: u64,
) -> (LedgerModel, Seq<StreamRecordModel>, StreamOutcome) {
    let rs = gc_spec(rs0, now);
    match ev {
        EndpointResponseModel::StartStream(d, tok, pos) => {
            if chat as int >= m.chats.len() {
                (m, rs, StreamOutcome::Ignored)
            } else if !has_rec(rs, chat) {
                (
                    push_new_turn(m, chat, pos, d),
                    rs.push(fresh_record(chat, tok, pos, now)),
                    StreamOutcome::NewTurn,
                )
            } else {
                let i = rec_index(rs, chat);
                let r0 = rs[i];
                if stale(r0, now) || r0.last_position != pos {
                    (
                        push_new_turn(m, chat, pos, d),
                        rs.update(i, fresh_record(chat, tok, pos, now)),
                        StreamOutcome::NewTurn,
                    )
                } else if r0.applied.contains(tok) {
                    (m, rs, StreamOutcome::Duplicate)
                } else if m.chats[chat as int].context.len() == 0 {
                    (m, rs, StreamOutcome::Ignored)
                } else {
                    (
                        merge_last_turn(m, chat, d),
                        rs.update(
                            i,
                            StreamRecordModel {
                                applied: r0.applied.push(tok),
                                last_activity: now,
                                ..r0
                            },
                        ),
                        StreamOutcome::Extended,
                    )
                }
            }
        },
        EndpointResponseModel::ContinueStream(d, tok) => {
            if chat as int >= m.chats.len() || !has_rec(rs, chat) {
                (m, rs, StreamOutcome::Ignored)
            } else {
                let i = rec_index(rs, chat);
                let r0 = rs[i];
                if r0.applied.contains(tok) {
                    (m, rs, StreamOutcome::Duplicate)
                } else if m.chats[chat as int].context.len() == 0 {
                    (m, rs, StreamOutcome::Ignored)
                } else {
                    (
                        merge_last_turn(m, chat, d),
                        rs.update(
                            i,
                            StreamRecordModel {
                                applied: r0.applied.push(tok),
                                last_activity: now,
                                ..r0
                            },
                        ),
                        StreamOutcome::Extended,
                    )
                }
            }
        },
        EndpointResponseModel::EndStream => (m, rs, StreamOutcome::ProtocolViolation),
        _ => (m, rs, StreamOutcome::Ignored),
    }
}

fn copy_tokens(v: &Vec<u64>) -> (r: Vec<u64>)
    ensures
        r@ == v@,
{
    let mut r: Vec<u64> = Vec::new();
    let mut i: usize = 0;
    while i < v.len()
        invariant
            i <= v@.len(),
            r@ == v@.take(i as int),
        decreases v@.len() - i,
    {
        r.push(v[i]);
        i = i + 1;
        assert(r@ =~= v@.take(i as int));
    }
    assert(r@ =~= v@);
    r
}

impl Clone for StreamRecord {
    fn clone(&self) -> (r: Self)
        ensures
            r.deep_view() == self.deep_view(),
    {
        let r = StreamRecord {
            chat: self.chat,
            applied: copy_tokens(&self.applied),
            last_activity: self.last_activity,
            last_position: self.last_position,
        };
        assert(r.deep_view() =~= self.deep_view());
        r
    }
}

fn record_expired(r: &StreamRecord, now: u64) -> (b: bool)
    ensures
        b == expired(r.deep_view(), now),
{
    now > r.last_activity && now - r.last_activity > STREAM_EVICT_IDLE_MS
}

/// Drops every tracking record idle past the eviction window; the
/// transcripts themselves are untouched.
fn gc_streams(streams: &mut Vec<StreamRecord>, now: u64)
    ensures
        final(streams).deep_view() == gc_spec(old(streams).deep_view(), now),
{
    let ghost rs0 = streams.deep_view();
    let mut kept: Vec<StreamRecord> = Vec::new();
    let mut k: usize = 0;
    while k < streams.len()
        invariant
            k <= streams@.len(),
            rs0 == streams.deep_view(),
            rs0.len() == streams@.len(),
            kept.deep_view() == gc_spec(rs0.take(k as int), now),
        decreases streams@.len() - k,
    {
        proof {
            assert(rs0.take(k as int + 1).drop_last() =~= rs0.take(k as int));
            assert(rs0.take(k as int + 1).last() == rs0[k as int]);
        }
        let keep_it = !record_expired(&streams[k], now);
        if keep_it {
            let ghost prev = kept.deep_view();
            kept.push(streams[k].clone());
            assert(kept.deep_view() =~= prev.push(rs0[k as int]));
        }
        k = k + 1;
    }
    proof {
        assert(rs0.take(rs0.len() as int) =~= rs0);
    }
    *streams = kept;
}

fn find_record(streams: &Vec<StreamRecord>, chat: usize) -> (r: Option<usize>)
    ensures
        r matches Some(i) ==> i < streams@.len() && streams.deep_view()[i as int].chat == chat,
        r is None ==> !has_rec(streams.deep_view(), chat),
{
    let mut k: usize = 0;
    while k < streams.len()
        invariant
            k <= streams@.len(),
            forall|j: int| 0 <= j < k ==> (#[trigger] streams.deep_view()[j]).chat != chat,
        decreases streams@.len() - k,
    {
        if streams[k].chat == chat {
            assert(streams.deep_view()[k as int].chat == chat);
            return Some(k);
        }
        k = k + 1;
    }
    None
}

fn holds_token(v: &Vec<u64>, tok: u64) -> (found: bool)
    ensures
        found == v@.contains(tok),
{
    let mut k: usize = 0;
    while k < v.len()
        invariant
            k <= v@.len(),
            forall|j: int| 0 <= j < k ==> v@[j] != tok,
        decreases v@.len() - k,
    {
        if v[k] == tok {
            assert(v@[k as int] == tok);
            return true;
        }
        k = k + 1;
    }
    assert(!v@.contains(tok));
    false
}

/// The fragment list has a textual fragment at the answered index and none
/// after it; `None` means the turn holds no text at all.
fn find_last_text(v: &Vec<ContextData>) -> (r: Option<usize>)
    ensures
        r matches Some(j) ==> j as int == last_text_index(v.deep_view()) && (j as int) < v@.len(),
        r is None ==> last_text_index(v.deep_view()) == -1,
{
    let ghost s = v.deep_view();
    proof {
        assert(s.take(s.len() as int) =~= s);
    }
    let mut k: usize = v.len();
    while k > 0
        invariant
            k <= v@.len(),
            s == v.deep_view(),
            s.len() == v@.len(),
            last_text_index(s) == last_text_index(s.take(k as int)),
        decreases k,
    {
        proof {
            assert(s.take(k as int).drop_last() =~= s.take(k as int - 1));
            assert(s.take(k as int).last() == s[k as int - 1]);
        }
        let is_text = match &v[k - 1] {
            ContextData::Text(_) => true,
            _ => false,
        };
        if is_text {
            assert(last_text_index(s.take(k as int)) == k - 1);
            return Some(k - 1);
        }
        k = k - 1;
    }
    assert(s.take(0) =~= Seq::<ContextDataModel>::empty());
    None
}

proof fn lemma_last_text_is_text(s: Seq<ContextDataModel>)
    requires
        last_text_index(s) >= 0,
    ensures
        last_text_index(s) < s.len(),
        s[last_text_index(s)] is Text,
    decreases s.len(),
{
    if s.len() > 0 && !(s.last() is Text) {
        lemma_last_text_is_text(s.drop_last());
    }
}

/// Merges one payload into a turn.
fn merge_part(part: &mut ContextPart, d: ContextData)
    ensures
        final(part).deep_view().position == old(part).deep_view().position,
        final(part).deep_view().data == merge_data(old(part).deep_view().data, d.deep_view()),
{
    let ghost s0 = part.data.deep_view();
    let ghost dm = d.deep_view();
    match d {
        ContextData::Text(t) => {
            match find_last_text(&part.data) {
                Some(j) => {
                    proof {
                        lemma_last_text_is_text(s0);
                    }
                    let merged = match &part.data[j] {
                        ContextData::Text(prior) => {
                            let mut grown = prior.clone();
                            grown.append(t.as_str());
                            ContextData::Text(grown)
                        },
                        _ => vstd::pervasive::unreached(),
                    };
                    part.data.set(j, merged);
                    assert(part.data.deep_view() =~= merge_data(s0, dm));
                },
                None => {
                    let ghost prev = part.data.deep_view();
                    part.data.push(ContextData::Text(t));
                    assert(part.data.deep_view() =~= prev.push(dm));
                },
            }
        },
        ContextData::Binary(b) => {
            let ghost prev = part.data.deep_view();
            part.data.push(ContextData::Binary(b));
            assert(part.data.deep_view() =~= prev.push(dm));
        },
    }
}

/// Appends a fresh turn, holding just the payload, to the chat's transcript.
fn push_new_turn_exec(
    db: &mut ClientLedger,
    chat_id: usize,
    pos: crate::items::ContextPosition,
    d: ContextData,
)
    requires
        (chat_id as int) < old(db)@.chats.len(),
    ensures
        final(db)@ == push_new_turn(old(db)@, chat_id, pos, d.deep_view()),
{
    let ghost m0 = db@;
    let ghost dm = d.deep_view();
    let mut chat = db.chats[chat_id].clone();
    let ghost cm = chat.deep_view();
    let mut data: Vec<ContextData> = Vec::new();
    data.push(d);
    assert(data.deep_view() =~= seq![dm]);
    let ghost ctx0 = chat.context.deep_view();
    chat.context.push(ContextPart { position: pos, data });
    assert(chat.context.deep_view() =~= ctx0.push(ContextPartModel { position: pos, data: seq![dm] }));
    db.chats.set(chat_id, chat);
    assert(db.chats.deep_view() =~= m0.chats.update(
        chat_id as int,
        ChatModel {
            context: m0.chats[chat_id as int].context.push(
                ContextPartModel { position: pos, data: seq![dm] },
            ),
            ..m0.chats[chat_id as int]
        },
    ));
    assert(db@ =~= push_new_turn(m0, chat_id, pos, dm));
}

/// Merges the payload into the final turn of the chat's transcript.
fn merge_last_turn_exec(db: &mut ClientLedger, chat_id: usize, d: ContextData)
    requires
        (chat_id as int) < old(db)@.chats.len(),
        old(db)@.chats[chat_id as int].context.len() > 0,
    ensures
        final(db)@ == merge_last_turn(old(db)@, chat_id, d.deep_view()),
{
    let ghost m0 = db@;
    let ghost dm = d.deep_view();
    let mut chat = db.chats[chat_id].clone();
    let last = chat.context.len() - 1;
    let mut part = chat.context[last].clone();
    let ghost ctx0 = chat.context.deep_view();
    merge_part(&mut part, d);
    chat.context.set(last, part);
    assert(chat.context.deep_view() =~= merge_into_last(ctx0, dm));
    db.chats.set(chat_id, chat);
    assert(db.chats.deep_view() =~= m0.chats.update(
        chat_id as int,
        ChatModel {
            context: merge_into_last(m0.chats[chat_id as int].context, dm),
            ..m0.chats[chat_id as int]
        },
    ));
    assert(db@ =~= merge_last_turn(m0, chat_id, dm));
}

/// One accumulator transition: the executable counterpart of `stream_step`.
pub fn apply_stream_event(
    db: &mut ClientLedger,
    streams: &mut Vec<StreamRecord>,
    chat_id: usize,
    event: EndpointResponseVariant,
    now: u64,
) -> (outcome: StreamOutcome)
    requires
        streams_wf(old(streams).deep_view()),
    ensures
        ({
            let (m2, rs2, oc) = stream_step(
                old(db)@,
                old(streams).deep_view(),
                chat_id,
                event.deep_view(),
                now,
            );
            &&& final(db)@ == m2
            &&& final(streams).deep_view() == rs2
            &&& outcome == oc
        }),
        streams_wf(final(streams).deep_view()),
{
    let ghost m0 = db@;
    let ghost rs0 = streams.deep_view();
    gc_streams(streams, now);
    let ghost rs = streams.deep_view();
    proof {
        lemma_gc_props(rs0, now);
    }
    match event {
        EndpointResponseVariant::StartStream(d, tok, pos) => {
            if chat_id >= db.chats.len() {
                StreamOutcome::Ignored
            } else {
                match find_record(streams, chat_id) {
                    None => {
                        push_new_turn_exec(db, chat_id, pos, d);
                        let mut fresh_applied: Vec<u64> = Vec::new();
                        fresh_applied.push(tok);
                        proof {
                            assert(fresh_applied.deep_view() =~= seq![tok]);
                        }
                        let ghost prev = streams.deep_view();
                        streams.push(
                            StreamRecord {
                                chat: chat_id,
                                applied: fresh_applied,
                                last_activity: now,
                                last_position: pos,
                            },
                        );
                        proof {
                            assert(streams.deep_view() =~= prev.push(
                                fresh_record(chat_id, tok, pos, now),
                            ));
                            lemma_wf_push(prev, fresh_record(chat_id, tok, pos, now));
                        }
                        StreamOutcome::NewTurn
                    },
                    Some(i) => {
                        proof {
                            lemma_found_is_rec_index(rs, chat_id, i as int);
                        }
                        let la = streams[i].last_activity;
                        let is_stale = now > la && now - la > TURN_SPLIT_IDLE_MS;
                        if is_stale || !(streams[i].last_position == pos) {
                            push_new_turn_exec(db, chat_id, pos, d);
                            let mut fresh_applied: Vec<u64> = Vec::new();
                            fresh_applied.push(tok);
                            proof {
                                assert(fresh_applied.deep_view() =~= seq![tok]);
                            }
                            let ghost prev = streams.deep_view();
                            streams.set(
                                i,
                                StreamRecord {
                                    chat: chat_id,
                                    applied: fresh_applied,
                                    last_activity: now,
                                    last_position: pos,
                                },
                            );
                            proof {
                                assert(streams.deep_view() =~= prev.update(
                                    i as int,
                                    fresh_record(chat_id, tok, pos, now),
                                ));
                                lemma_wf_update(prev, i as int, fresh_record(chat_id, tok, pos, now));
                            }
                            StreamOutcome::NewTurn
                        } else {
                            proof {
                                assert(rs[i as int].applied =~= streams@[i as int].applied@);
                            }
                            if holds_token(&streams[i].applied, tok) {
                                proof {
                                    assert(rs[i as int].applied.contains(tok));
                                }
                                StreamOutcome::Duplicate
                            } else if db.chats[chat_id].context.len() == 0 {
                                proof {
                                    assert(m0.chats[chat_id as int].context.len() == 0);
                                }
                                StreamOutcome::Ignored
                            } else {
                                merge_last_turn_exec(db, chat_id, d);
                                let refreshed = refresh_record(&streams[i], tok, now);
                                let ghost prev = streams.deep_view();
                                streams.set(i, refreshed);
                                proof {
                                    assert(streams.deep_view() =~= prev.update(
                                        i as int,
                                        StreamRecordModel {
                                            applied: rs[i as int].applied.push(tok),
                                            last_activity: now,
                                            ..rs[i as int]
                                        },
                                    ));
                                    lemma_wf_update(
                                        prev,
                                        i as int,
                                        StreamRecordModel {
                                            applied: rs[i as int].applied.push(tok),
                                            last_activity: now,
                                            ..rs[i as int]
                                        },
                                    );
                                }
                                StreamOutcome::Extended
                            }
                        }
                    },
                }
            }
        },
        EndpointResponseVariant::ContinueStream(d, tok) => {
            if chat_id >= db.chats.len() {
                StreamOutcome::Ignored
            } else {
                match find_record(streams, chat_id) {
                    None => StreamOutcome::Ignored,
                    Some(i) => {
                        proof {
                            lemma_found_is_rec_index(rs, chat_id, i as int);
                            assert(rs[i as int].applied =~= streams@[i as int].applied@);
                        }
                        if holds_token(&streams[i].applied, tok) {
                            proof {
                                assert(rs[i as int].applied.contains(tok));
                            }
                            StreamOutcome::Duplicate
                        } else if db.chats[chat_id].context.len() == 0 {
                            proof {
                                assert(m0.chats[chat_id as int].context.len() == 0);
                            }
                            StreamOutcome::Ignored
                        } else {
                            merge_last_turn_exec(db, chat_id, d);
                            let refreshed = refresh_record(&streams[i], tok, now);
                            let ghost prev = streams.deep_view();
                            streams.set(i, refreshed);
                            proof {
                                assert(streams.deep_view() =~= prev.update(
                                    i as int,
                                    StreamRecordModel {
                                        applied: rs[i as int].applied.push(tok),
                                        last_activity: now,
                                        ..rs[i as int]
                                    },
                                ));
                                lemma_wf_update(
                                    prev,
                                    i as int,
                                    StreamRecordModel {
                                        applied: rs[i as int].applied.push(tok),
                                        last_activity: now,
                                        ..rs[i as int]
                                    },
                                );
                            }
                            StreamOutcome::Extended
                        }
                    },
                }
            }
        },
        EndpointResponseVariant::EndStream => StreamOutcome::ProtocolViolation,
        _ => StreamOutcome::Ignored,
    }
}

/// The record with one more applied token and a fresh activity stamp.
fn refresh_record(r: &StreamRecord, tok: u64, now: u64) -> (out: StreamRecord)
    ensures
        out.deep_view() == (StreamRecordModel {
            applied: r.deep_view().applied.push(tok),
            last_activity: now,
            ..r.deep_view()
        }),
{
    let mut applied = copy_tokens(&r.applied);
    applied.push(tok);
    let out = StreamRecord {
        chat: r.chat,
        applied,
        last_activity: now,
        last_position: r.last_position,
    };
    assert(out.deep_view().applied =~= r.deep_view().applied.push(tok));
    out
}

proof fn lemma_wf_push(rs: Seq<StreamRecordModel>, r: StreamRecordModel)
    requires
        streams_wf(rs),
        !has_rec(rs, r.chat),
    ensures
        streams_wf(rs.push(r)),
{
    assert forall|i: int, j: int|
        0 <= i < j < rs.push(r).len() implies (#[trigger] rs.push(r)[i]).chat != (
    #[trigger] rs.push(r)[j]).chat by {
        if j == rs.len() {
            assert(rs.push(r)[i] == rs[i]);
        }
    }
}

proof fn lemma_wf_update(rs: Seq<StreamRecordModel>, i: int, r: StreamRecordModel)
    requires
        streams_wf(rs),
        0 <= i < rs.len(),
        r.chat == rs[i].chat,
    ensures
        streams_wf(rs.update(i, r)),
{
}

/// The index the finder answers is the index the model speaks of: chats are
/// unique, so there is only one.
proof fn lemma_found_is_rec_index(rs: Seq<StreamRecordModel>, chat: usize, i: int)
    requires
        streams_wf(rs),
        0 <= i < rs.len(),
        rs[i].chat == chat,
    ensures
        has_rec(rs, chat),
        rec_index(rs, chat) == i,
        rec_of(rs, chat) == rs[i],
{
    assert(has_rec(rs, chat));
    let j = rec_index(rs, chat);
    if i < j {
        assert(rs[i].chat != rs[j].chat);
    } else if j < i {
        assert(rs[j].chat != rs[i].chat);
    }
}

/// What the garbage-collection pass guarantees: well-formedness is kept,
/// surviving records are the old ones unchanged, and a record survives
/// exactly when it was not idle past the window.
pub proof fn lemma_gc_props(rs: Seq<StreamRecordModel>, now: u64)
    requires
        streams_wf(rs),
    ensures
        streams_wf(gc_spec(rs, now)),
        forall|c: usize|
            #[trigger] has_rec(gc_spec(rs, now), c) ==> has_rec(rs, c) && rec_of(gc_spec(rs, now), c)
                == rec_of(rs, c),
        forall|c: usize|
            #[trigger] has_rec(rs, c) ==> (has_rec(gc_spec(rs, now), c) <==> !expired(
                rec_of(rs, c),
                now,
            )),
    decreases rs.len(),
{
    if rs.len() == 0 {
    } else {
        let sub = rs.drop_last();
        let last = rs.last();
        assert(streams_wf(sub));
        lemma_gc_props(sub, now);
        let g = gc_spec(rs, now);
        let gsub = gc_spec(sub, now);
        assert forall|c: usize| #[trigger] has_rec(g, c) implies has_rec(rs, c) && rec_of(g, c)
            == rec_of(rs, c) by {
            let i = rec_index(g, c);
            if expired(last, now) {
                assert(g == gsub);
                lemma_found_is_rec_index(gsub, c, i);
                let j = rec_index(sub, c);
                assert(rs[j] == sub[j]);
                lemma_found_is_rec_index(rs, c, j);
            } else {
                assert(g == gsub.push(last));
                lemma_gc_wf_step(rs, now);
                if i == gsub.len() {
                    assert(g[i] == last);
                    lemma_found_is_rec_index(rs, c, rs.len() - 1);
                    lemma_found_is_rec_index(g, c, i);
                } else {
                    assert(g[i] == gsub[i]);
                    lemma_found_is_rec_index(gsub, c, i);
                    let j = rec_index(sub, c);
                    assert(rs[j] == sub[j]);
                    lemma_found_is_rec_index(rs, c, j);
                    lemma_found_is_rec_index(g, c, i);
                }
            }
        }
        lemma_gc_wf_step(rs, now);
        assert forall|c: usize| #[trigger] has_rec(rs, c) implies (has_rec(g, c) <==> !expired(
            rec_of(rs, c),
            now,
        )) by {
            let i = rec_index(rs, c);
            lemma_found_is_rec_index(rs, c, i);
            if i == rs.len() - 1 {
                if expired(last, now) {
                    assert(g == gsub);
                    if has_rec(g, c) {
                        let k = rec_index(g, c);
                        lemma_found_is_rec_index(gsub, c, k);
                        let j = rec_index(sub, c);
                        assert(rs[j] == sub[j]);
                        lemma_found_is_rec_index(rs, c, j);
                    }
                } else {
                    assert(g == gsub.push(last));
                    assert(g[g.len() - 1].chat == c);
                    assert(has_rec(g, c));
                    lemma_found_is_rec_index(g, c, g.len() - 1);
                }
            } else {
                assert(rs[i] == sub[i]);
                lemma_found_is_rec_index(sub, c, i);
                if !expired(last, now) {
                    assert(g == gsub.push(last));
                    if has_rec(gsub, c) {
                        let k = rec_index(gsub, c);
                        assert(g[k] == gsub[k]);
                        lemma_found_is_rec_index(g, c, k);
                    } else {
                        if has_rec(g, c) {
                            let k = rec_index(g, c);
                            if k < gsub.len() {
                                assert(gsub[k].chat == c);
                            } else {
                                assert(g[k] == last);
                                assert(rs[rs.len() - 1].chat == c);
                                assert(rs[i].chat != rs[rs.len() - 1].chat);
                            }
                        }
                    }
                } else {
                    assert(g == gsub);
                }
            }
        }
    }
}

proof fn lemma_gc_wf_step(rs: Seq<StreamRecordModel>, now: u64)
    requires
        streams_wf(rs),
    ensures
        streams_wf(gc_spec(rs, now)),
    decreases rs.len(),
{
    if rs.len() == 0 {
    } else {
        let sub = rs.drop_last();
        let last = rs.last();
        assert(streams_wf(sub));
        lemma_gc_wf_step(sub, now);
        lemma_gc_contains(sub, now);
        if !expired(last, now) {
            let gsub = gc_spec(sub, now);
            assert forall|i: int, j: int|
                0 <= i < j < gsub.push(last).len() implies (#[trigger] gsub.push(last)[i]).chat != (
            #[trigger] gsub.push(last)[j]).chat by {
                if j == gsub.len() {
                    assert(gsub.push(last)[i] == gsub[i]);
                    let e = gsub[i];
                    assert(gsub.contains(e));
                    assert(sub.contains(e));
                    let k = choose|k: int| 0 <= k < sub.len() && sub[k] == e;
                    assert(rs[k] == e);
                    assert(rs[k].chat != rs[rs.len() - 1].chat);
                }
            }
        }
    }
}

/// Every record the collection pass keeps was already tracked.
proof fn lemma_gc_contains(rs: Seq<StreamRecordModel>, now: u64)
    ensures
        forall|e: StreamRecordModel| #[trigger] gc_spec(rs, now).contains(e) ==> rs.contains(e),
    decreases rs.len(),
{
    if rs.len() == 0 {
    } else {
        let sub = rs.drop_last();
        lemma_gc_contains(sub, now);
        assert forall|e: StreamRecordModel| #[trigger] gc_spec(rs, now).contains(e) implies rs.contains(
            e,
        ) by {
            let g = gc_spec(rs, now);
            let i = choose|i: int| 0 <= i < g.len() && g[i] == e;
            if expired(rs.last(), now) {
                assert(gc_spec(sub, now).contains(e));
                let k = choose|k: int| 0 <= k < sub.len() && sub[k] == e;
                assert(rs[k] == e);
            } else {
                let gsub = gc_spec(sub, now);
                if i < gsub.len() {
                    assert(gsub.contains(e));
                    let k = choose|k: int| 0 <= k < sub.len() && sub[k] == e;
                    assert(rs[k] == e);
                } else {
                    assert(e == rs.last());
                    assert(rs[rs.len() - 1] == e);
                }
            }
        }
    }
}


/// Delivering the same continue event twice changes the transcript only
/// once.  Whatever the second delivery meets — the already-applied token, an
/// evicted record, an untracked chat — it leaves the ledger exactly as the
/// first delivery left it.
pub proof fn lemma_continue_stream_idempotent(
    m: LedgerModel,
    rs: Seq<StreamRecordModel>,
    chat: usize,
    d: ContextDataModel,
    tok: u64,
    now1: u64,
    now2: u64,
)
    requires
        streams_wf(rs),
    ensures
        ({
            let (m1, rs1, _) = stream_step(
                m,
                rs,
                chat,
                EndpointResponseModel::ContinueStream(d, tok),
                now1,
            );
            let (m2, _, _) = stream_step(
                m1,
                rs1,
                chat,
                EndpointResponseModel::ContinueStream(d, tok),
                now2,
            );
            m2 == m1
        }),
{
    let g1 = gc_spec(rs, now1);
    lemma_gc_props(rs, now1);
    let (m1, rs1, _) = stream_step(m, rs, chat, EndpointResponseModel::ContinueStream(d, tok), now1);
    if chat as int >= m.chats.len() {
        lemma_gc_props(rs1, now2);
    } else if !has_rec(g1, chat) {
        lemma_gc_props(rs1, now2);
        assert(!has_rec(rs1, chat));
    } else {
        let i = rec_index(g1, chat);
        let r0 = g1[i];
        assert(0 <= i < g1.len() && g1[i].chat == chat);
        lemma_found_is_rec_index(g1, chat, i);
        if r0.applied.contains(tok) {
            lemma_gc_props(rs1, now2);
            let g2 = gc_spec(rs1, now2);
            if has_rec(g2, chat) {
                assert(rec_of(g2, chat) == rec_of(rs1, chat));
                assert(rec_of(rs1, chat) == r0);
            }
        } else if m.chats[chat as int].context.len() == 0 {
            lemma_gc_props(rs1, now2);
            let g2 = gc_spec(rs1, now2);
            if has_rec(g2, chat) {
                assert(rec_of(g2, chat) == rec_of(rs1, chat));
                assert(rec_of(rs1, chat) == r0);
                assert(m1.chats[chat as int].context.len() == 0);
            }
        } else {
            let r1 = StreamRecordModel {
                applied: r0.applied.push(tok),
                last_activity: now1,
                ..r0
            };
            assert(rs1 == g1.update(i, r1));
            lemma_wf_update(g1, i, r1);
            lemma_found_is_rec_index(rs1, chat, i);
            assert(r1.applied[r1.applied.len() - 1] == tok);
            assert(r1.applied.contains(tok));
            lemma_gc_props(rs1, now2);
            let g2 = gc_spec(rs1, now2);
            if has_rec(g2, chat) {
                assert(rec_of(g2, chat) == rec_of(rs1, chat));
                assert(rec_of(rs1, chat) == r1);
            }
        }
    }
}

/// A start event whose position differs from the last tracked turn's
/// position always opens a new turn, even inside the turn-split idle
/// window.
pub proof fn lemma_start_stream_splits_turn(
    m: LedgerModel,
    rs: Seq<StreamRecordModel>,
    chat: usize,
    d: ContextDataModel,
    tok: u64,
    pos: crate::items::ContextPosition,
    now: u64,
)
    requires
        streams_wf(rs),
        (chat as int) < m.chats.len(),
        has_rec(gc_spec(rs, now), chat),
        rec_of(gc_spec(rs, now), chat).last_position != pos,
    ensures
        ({
            let (m1, rs1, oc) = stream_step(
                m,
                rs,
                chat,
                EndpointResponseModel::StartStream(d, tok, pos),
                now,
            );
            &&& oc == StreamOutcome::NewTurn
            &&& m1.chats[chat as int].context.len() == m.chats[chat as int].context.len() + 1
            &&& m1.chats[chat as int].context.last() == (ContextPartModel {
                position: pos,
                data: seq![d],
            })
        }),
{
    let g = gc_spec(rs, now);
    let i = rec_index(g, chat);
    assert(0 <= i < g.len() && g[i].chat == chat);
}

/// Tracking state idle past the eviction window is gone after the next
/// transition, and the idle chat's transcript is untouched by it.
pub proof fn lemma_idle_tracking_evicted(
    m: LedgerModel,
    rs: Seq<StreamRecordModel>,
    chat_ev: usize,
    ev: EndpointResponseModel,
    now: u64,
    idle_chat: usize,
)
    requires
        streams_wf(rs),
        has_rec(rs, idle_chat),
        expired(rec_of(rs, idle_chat), now),
        chat_ev != idle_chat,
    ensures
        ({
            let (m1, rs1, _) = stream_step(m, rs, chat_ev, ev, now);
            &&& !has_rec(rs1, idle_chat)
            &&& ((idle_chat as int) < m.chats.len() ==> m1.chats[idle_chat as int]
                == m.chats[idle_chat as int])
        }),
{
    let g = gc_spec(rs, now);
    lemma_gc_props(rs, now);
    assert(!has_rec(g, idle_chat));
    let (m1, rs1, _) = stream_step(m, rs, chat_ev, ev, now);
    assert forall|k: int| 0 <= k < rs1.len() implies (#[trigger] rs1[k]).chat != idle_chat by {
        if k < g.len() {
            if rs1[k] != g[k] {
                assert(rs1[k].chat == chat_ev);
            } else {
                assert(!has_rec(g, idle_chat));
                if g[k].chat == idle_chat {
                    assert(has_rec(g, idle_chat));
                }
            }
        } else {
            assert(rs1[k].chat == chat_ev);
        }
    }
    if has_rec(rs1, idle_chat) {
        let w = rec_index(rs1, idle_chat);
        assert(0 <= w < rs1.len() && rs1[w].chat == idle_chat);
    }
}

/// One payload folded onto a fragment list being coalesced: text joins a
/// final textual fragment; everything else starts a new fragment.
pub open spec fn coalesce_step(
    front: Seq<ContextDataModel>,
    d: ContextDataModel,
) -> Seq<ContextDataModel> {
    match d {
        ContextDataModel::Text(t) => {
            if front.len() > 0 && front.last() is Text {
                match front.last() {
                    ContextDataModel::Text(prior) => front.update(
                        front.len() - 1,
                        ContextDataModel::Text(prior + t),
                    ),
                    _ => front.push(d),
                }
            } else {
                front.push(d)
            }
        },
        ContextDataModel::Binary(_) => front.push(d),
    }
}

/// A fragment list with adjacent textual fragments concatenated, in order.
pub open spec fn coalesce(s: Seq<ContextDataModel>) -> Seq<ContextDataModel>
    decreases s.len(),
{
    if s.len() == 0 {
        Seq::empty()
    } else {
        coalesce_step(coalesce(s.drop_last()), s.last())
    }
}

/// The payloads the start and continue events of a streamed reply carry, in
/// delivery order.
pub open spec fn stream_payloads(evs: Seq<EndpointResponseModel>) -> Seq<ContextDataModel>
    decreases evs.len(),
{
    if evs.len() == 0 {
        Seq::empty()
    } else {
        let front = stream_payloads(evs.drop_last());
        match evs.last() {
            EndpointResponseModel::StartStream(d, _, _) => front.push(d),
            EndpointResponseModel::ContinueStream(d, _) => front.push(d),
            _ => front,
        }
    }
}

fn coalesce_push(acc: &mut Vec<ContextData>, d: ContextData)
    ensures
        final(acc).deep_view() == coalesce_step(old(acc).deep_view(), d.deep_view()),
{
    let ghost s0 = acc.deep_view();
    let ghost dm = d.deep_view();
    match d {
        ContextData::Text(t) => {
            let n = acc.len();
            let join_last: bool = if n > 0 {
                match &acc[n - 1] {
                    ContextData::Text(_) => true,
                    _ => false,
                }
            } else {
                false
            };
            if join_last {
                let merged = match &acc[n - 1] {
                    ContextData::Text(prior) => {
                        let mut grown = prior.clone();
                        grown.append(t.as_str());
                        ContextData::Text(grown)
                    },
                    _ => vstd::pervasive::unreached(),
                };
                acc.set(n - 1, merged);
                assert(acc.deep_view() =~= coalesce_step(s0, dm));
            } else {
                acc.push(ContextData::Text(t));
                assert(acc.deep_view() =~= s0.push(dm));
            }
        },
        ContextData::Binary(b) => {
            acc.push(ContextData::Binary(b));
            assert(acc.deep_view() =~= s0.push(dm));
        },
    }
}

/// Folds a whole streamed reply into one conversation turn attributed to
/// the assistant: the payloads of its start and continue events in order,
/// with adjacent textual payloads concatenated into single fragments.
pub fn collect_block(events: Vec<EndpointResponseVariant>) -> (part: ContextPart)
    ensures
        part.deep_view().position == crate::items::ContextPosition::AI,
        part.deep_view().data == coalesce(stream_payloads(events.deep_view())),
{
    let ghost evs = events.deep_view();
    let mut acc: Vec<ContextData> = Vec::new();
    let mut i: usize = 0;
    while i < events.len()
        invariant
            i <= events@.len(),
            evs == events.deep_view(),
            evs.len() == events@.len(),
            acc.deep_view() == coalesce(stream_payloads(evs.take(i as int))),
        decreases events@.len() - i,
    {
        proof {
            assert(evs.take(i as int + 1).drop_last() =~= evs.take(i as int));
            assert(evs.take(i as int + 1).last() == evs[i as int]);
            assert(evs[i as int] == events@[i as int].deep_view());
        }
        match &events[i] {
            EndpointResponseVariant::StartStream(d, _, _) => {
                coalesce_push(&mut acc, d.clone());
            },
            EndpointResponseVariant::ContinueStream(d, _) => {
                coalesce_push(&mut acc, d.clone());
            },
            _ => {},
        }
        proof {
            let front = stream_payloads(evs.take(i as int));
            let whole = stream_payloads(evs.take(i as int + 1));
            if whole.len() > 0 && whole != front {
                assert(whole.drop_last() =~= front);
            }
        }
        i = i + 1;
    }
    proof {
        assert(evs.take(evs.len() as int) =~= evs);
    }
    ContextPart { position: crate::items::ContextPosition::AI, data: acc }
}


/// A streaming transition touches only the chats sequence, and even there
/// only one chat's transcript: every other category, and every category's
/// length, is untouched.
pub proof fn lemma_stream_step_frame(
    m: LedgerModel,
    rs: Seq<StreamRecordModel>,
    chat: usize,
    ev: EndpointResponseModel,
    now: u64,
)
    ensures
        ({
            let (m1, _, _) = stream_step(m, rs, chat, ev, now);
            &&& m1.chats.len() == m.chats.len()
            &&& m1.tags == m.tags
            &&& m1.access_modes == m.access_modes
            &&& m1.configs == m.configs
            &&& m1.devices == m.devices
            &&& m1.files == m.files
            &&& m1.folders == m.folders
            &&& m1.notifications == m.notifications
            &&& m1.user_data == m.user_data
        }),
{
}

} // verus!
