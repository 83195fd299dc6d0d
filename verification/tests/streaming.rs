use proxima_client::items::{Chat, ContextData, ContextPart, ContextPosition, DatabaseItem};
use proxima_client::ledger::ClientLedger;
use proxima_client::stream::{
    apply_stream_event, collect_block, EndpointResponseVariant, StreamOutcome, StreamRecord,
};

fn text(s: &str) -> ContextData {
    ContextData::Text(s.to_string())
}

fn ledger_with_one_chat() -> ClientLedger {
    let mut db = ClientLedger::new_just_data("user".to_string());
    db.insert_directly(DatabaseItem::Chat(Chat {
        id: 0,
        title: None,
        context: Vec::new(),
        access_modes: Vec::new(),
        config: None,
    }));
    db
}

fn transcript_text(db: &ClientLedger, chat: usize) -> Vec<String> {
    db.chats[chat]
        .context
        .iter()
        .flat_map(|part| {
            part.data.iter().filter_map(|d| match d {
                ContextData::Text(s) => Some(s.clone()),
                ContextData::Binary(_) => None,
            })
        })
        .collect()
}

#[test]
fn start_event_opens_a_turn() {
    let mut db = ledger_with_one_chat();
    let mut streams: Vec<StreamRecord> = Vec::new();
    let outcome = apply_stream_event(
        &mut db,
        &mut streams,
        0,
        EndpointResponseVariant::StartStream(text("Hel"), 1, ContextPosition::AI),
        1_000,
    );
    assert_eq!(outcome, StreamOutcome::NewTurn);
    assert_eq!(db.chats[0].context.len(), 1);
    assert_eq!(transcript_text(&db, 0), vec!["Hel".to_string()]);
    assert_eq!(streams.len(), 1);
    assert_eq!(streams[0].chat, 0);
}

#[test]
fn continue_same_token_applies_once() {
    let mut db = ledger_with_one_chat();
    let mut streams: Vec<StreamRecord> = Vec::new();
    apply_stream_event(
        &mut db,
        &mut streams,
        0,
        EndpointResponseVariant::StartStream(text("Hel"), 1, ContextPosition::AI),
        1_000,
    );
    let first = apply_stream_event(
        &mut db,
        &mut streams,
        0,
        EndpointResponseVariant::ContinueStream(text("lo"), 2),
        1_100,
    );
    assert_eq!(first, StreamOutcome::Extended);
    assert_eq!(transcript_text(&db, 0), vec!["Hello".to_string()]);
    // The transport redelivers the same token; the transcript must not grow.
    let second = apply_stream_event(
        &mut db,
        &mut streams,
        0,
        EndpointResponseVariant::ContinueStream(text("lo"), 2),
        1_200,
    );
    assert_eq!(second, StreamOutcome::Duplicate);
    assert_eq!(transcript_text(&db, 0), vec!["Hello".to_string()]);
    assert_eq!(db.chats[0].context.len(), 1);
}

#[test]
fn start_splits_turn_on_position_change() {
    let mut db = ledger_with_one_chat();
    let mut streams: Vec<StreamRecord> = Vec::new();
    apply_stream_event(
        &mut db,
        &mut streams,
        0,
        EndpointResponseVariant::StartStream(text("question"), 1, ContextPosition::User),
        1_000,
    );
    // Ten milliseconds later — well inside the idle window — but at a
    // different position: still a new turn.
    let outcome = apply_stream_event(
        &mut db,
        &mut streams,
        0,
        EndpointResponseVariant::StartStream(text("answer"), 2, ContextPosition::AI),
        1_010,
    );
    assert_eq!(outcome, StreamOutcome::NewTurn);
    assert_eq!(db.chats[0].context.len(), 2);
    assert_eq!(db.chats[0].context[1].position, ContextPosition::AI);
}

#[test]
fn start_same_position_extends_within_window() {
    let mut db = ledger_with_one_chat();
    let mut streams: Vec<StreamRecord> = Vec::new();
    apply_stream_event(
        &mut db,
        &mut streams,
        0,
        EndpointResponseVariant::StartStream(text("a"), 1, ContextPosition::AI),
        1_000,
    );
    let outcome = apply_stream_event(
        &mut db,
        &mut streams,
        0,
        EndpointResponseVariant::StartStream(text("b"), 2, ContextPosition::AI),
        1_500,
    );
    assert_eq!(outcome, StreamOutcome::Extended);
    assert_eq!(db.chats[0].context.len(), 1);
    assert_eq!(transcript_text(&db, 0), vec!["ab".to_string()]);
}

#[test]
fn start_after_idle_window_opens_new_turn() {
    let mut db = ledger_with_one_chat();
    let mut streams: Vec<StreamRecord> = Vec::new();
    apply_stream_event(
        &mut db,
        &mut streams,
        0,
        EndpointResponseVariant::StartStream(text("a"), 1, ContextPosition::AI),
        1_000,
    );
    // More than one second idle: a new turn even at the same position.
    let outcome = apply_stream_event(
        &mut db,
        &mut streams,
        0,
        EndpointResponseVariant::StartStream(text("b"), 2, ContextPosition::AI),
        2_100,
    );
    assert_eq!(outcome, StreamOutcome::NewTurn);
    assert_eq!(db.chats[0].context.len(), 2);
}

#[test]
fn idle_tracking_state_is_collected() {
    let mut db = ledger_with_one_chat();
    db.insert_directly(DatabaseItem::Chat(Chat {
        id: 1,
        title: None,
        context: Vec::new(),
        access_modes: Vec::new(),
        config: None,
    }));
    let mut streams: Vec<StreamRecord> = Vec::new();
    apply_stream_event(
        &mut db,
        &mut streams,
        0,
        EndpointResponseVariant::StartStream(text("Hello"), 1, ContextPosition::AI),
        0,
    );
    assert_eq!(streams.len(), 1);
    // Three minutes and one second later an event for another chat arrives:
    // the idle chat's tracking state is gone, its transcript untouched.
    let now = 181_000;
    apply_stream_event(
        &mut db,
        &mut streams,
        1,
        EndpointResponseVariant::StartStream(text("other"), 7, ContextPosition::AI),
        now,
    );
    assert!(streams.iter().all(|r| r.chat != 0));
    assert_eq!(transcript_text(&db, 0), vec!["Hello".to_string()]);
}

#[test]
fn continue_for_untracked_chat_is_dropped() {
    let mut db = ledger_with_one_chat();
    let mut streams: Vec<StreamRecord> = Vec::new();
    let outcome = apply_stream_event(
        &mut db,
        &mut streams,
        0,
        EndpointResponseVariant::ContinueStream(text("stray"), 1),
        1_000,
    );
    assert_eq!(outcome, StreamOutcome::Ignored);
    assert_eq!(db.chats[0].context.len(), 0);
    assert!(streams.is_empty());
}

#[test]
fn end_stream_is_a_protocol_violation() {
    let mut db = ledger_with_one_chat();
    let mut streams: Vec<StreamRecord> = Vec::new();
    let outcome = apply_stream_event(
        &mut db,
        &mut streams,
        0,
        EndpointResponseVariant::EndStream,
        1_000,
    );
    assert_eq!(outcome, StreamOutcome::ProtocolViolation);
    assert_eq!(db.chats[0].context.len(), 0);
}

#[test]
fn binary_payload_becomes_its_own_fragment() {
    let mut db = ledger_with_one_chat();
    let mut streams: Vec<StreamRecord> = Vec::new();
    apply_stream_event(
        &mut db,
        &mut streams,
        0,
        EndpointResponseVariant::StartStream(text("look:"), 1, ContextPosition::AI),
        1_000,
    );
    apply_stream_event(
        &mut db,
        &mut streams,
        0,
        EndpointResponseVariant::ContinueStream(ContextData::Binary(vec![1, 2, 3]), 2),
        1_050,
    );
    apply_stream_event(
        &mut db,
        &mut streams,
        0,
        EndpointResponseVariant::ContinueStream(text(" done"), 3),
        1_100,
    );
    let part = &db.chats[0].context[0];
    // The trailing text joined the last textual fragment, which sits before
    // the binary one.
    assert_eq!(part.data.len(), 2);
    match &part.data[0] {
        ContextData::Text(s) => assert_eq!(s, "look: done"),
        _ => panic!("first fragment should be text"),
    }
    match &part.data[1] {
        ContextData::Binary(b) => assert_eq!(b, &vec![1, 2, 3]),
        _ => panic!("second fragment should be binary"),
    }
}

#[test]
fn collect_block_folds_a_streamed_reply() {
    let events = vec![
        EndpointResponseVariant::StartStream(text("Hel"), 1, ContextPosition::AI),
        EndpointResponseVariant::ContinueStream(text("lo"), 2),
        EndpointResponseVariant::ContinueStream(ContextData::Binary(vec![9]), 3),
        EndpointResponseVariant::ContinueStream(text("!"), 4),
        EndpointResponseVariant::EndStream,
    ];
    let part: ContextPart = collect_block(events);
    assert_eq!(part.position, ContextPosition::AI);
    assert_eq!(part.data.len(), 3);
    match &part.data[0] {
        ContextData::Text(s) => assert_eq!(s, "Hello"),
        _ => panic!("expected text"),
    }
    match &part.data[2] {
        ContextData::Text(s) => assert_eq!(s, "!"),
        _ => panic!("expected text"),
    }
}

#[test]
fn collect_block_of_nothing_is_an_empty_turn() {
    let part = collect_block(vec![EndpointResponseVariant::EndStream]);
    assert_eq!(part.position, ContextPosition::AI);
    assert!(part.data.is_empty());
}
