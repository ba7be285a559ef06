use eventz::block::{
    Block, ChainEvent, InternalOperationResult, Operation, OperationContent, OperationStatus,
    TransactionMetadata,
};
use eventz::config::{Config, PollingInterval, SmartContracts};
use eventz::model::EventModel;
use eventz::sync::{
    block_record, event_model, event_record, get_block_delay_from_constants, polling_interval,
    status_to_string, SyncAction, SyncState, DEFAULT_BLOCK_TIME,
};

fn event(source: &str, nonce: u16, status: OperationStatus) -> ChainEvent {
    ChainEvent {
        source: source.to_string(),
        type_: "{\"prim\":\"string\"}".to_string(),
        tag: "tag".to_string(),
        nonce,
        payload: "{\"string\":\"hi\"}".to_string(),
        status,
        consumed_milligas: None,
    }
}

fn block(level: i32, events: Vec<ChainEvent>) -> Block {
    let results = events.into_iter().map(InternalOperationResult::Event).collect();
    let op = Operation {
        contents: vec![OperationContent::Transaction {
            metadata: Some(TransactionMetadata { internal_operation_results: results }),
        }],
    };
    Block {
        level,
        hash: "BLxyz".to_string(),
        timestamp: "2023-05-06T07:08:09Z".to_string(),
        operations: vec![vec![], vec![], vec![], vec![op]],
    }
}

#[test]
fn status_names() {
    assert_eq!(status_to_string(OperationStatus::Applied), "Applied");
    assert_eq!(status_to_string(OperationStatus::Skipped), "Skipped");
    assert_eq!(status_to_string(OperationStatus::Backtracked), "Backtracked");
    assert_eq!(status_to_string(OperationStatus::Failed), "Failed");
}

#[test]
fn status_names_are_distinct() {
    let all = [OperationStatus::Applied, OperationStatus::Skipped, OperationStatus::Backtracked, OperationStatus::Failed];
    for a in all {
        for b in all {
            assert_eq!(a == b, status_to_string(a) == status_to_string(b));
        }
    }
}

#[test]
fn block_delay_from_constants() {
    assert_eq!(DEFAULT_BLOCK_TIME, 30);
    assert_eq!(get_block_delay_from_constants(None), 30);
    assert_eq!(get_block_delay_from_constants(Some(15)), 15);
    assert_eq!(get_block_delay_from_constants(Some(0)), 0);
    assert_eq!(get_block_delay_from_constants(Some(-1)), u64::MAX);
}

#[test]
fn polling_interval_fixed_or_block_time() {
    assert_eq!(polling_interval(PollingInterval::Fixed(7), Some(15)), 7);
    assert_eq!(polling_interval(PollingInterval::BlockTime, Some(15)), 15);
    assert_eq!(polling_interval(PollingInterval::BlockTime, None), 30);
}

#[test]
fn records_of_an_event() {
    let mut e = event("KT1s", 65535, OperationStatus::Backtracked);
    e.consumed_milligas = Some("1234".to_string());
    let r = event_record(&e, 77);
    assert_eq!(r.source, "KT1s");
    assert_eq!(r.nonce, 65535);
    assert_eq!(r.type_, e.type_);
    assert_eq!(r.tag, "tag");
    assert_eq!(r.payload, e.payload);
    assert_eq!(r.operation_result_status, "Backtracked");
    assert_eq!(r.operation_result_consumed_milligas, Some("1234".to_string()));
    assert_eq!(r.block_id, 77);

    let m = event_model(&e, 77);
    assert_eq!(m.id, None);
    assert_eq!(m.source, "KT1s");
    assert_eq!(m.nonce, 65535);
    assert_eq!(m.operation_result_status, Some("Backtracked".to_string()));
    assert_eq!(m.operation_result_consumed_milligas, Some("1234".to_string()));
    assert_eq!(m.block_id, 77);
}

#[test]
fn record_of_a_block() {
    let b = block(12, vec![]);
    let r = block_record(&b);
    assert_eq!(r.id, 12);
    assert_eq!(r.hash, "BLxyz");
    assert_eq!(r.timestamp, "2023-05-06T07:08:09Z");
}

#[test]
fn event_model_new_has_no_id() {
    let m = EventModel::new(
        "KT1".to_string(),
        "t".to_string(),
        "tag".to_string(),
        3,
        "p".to_string(),
        Some("Applied".to_string()),
        None,
        9,
    );
    assert_eq!(m.id, None);
    assert_eq!(m.source, "KT1");
    assert_eq!(m.type_, "t");
    assert_eq!(m.tag, "tag");
    assert_eq!(m.nonce, 3);
    assert_eq!(m.payload, "p");
    assert_eq!(m.operation_result_status, Some("Applied".to_string()));
    assert_eq!(m.operation_result_consumed_milligas, None);
    assert_eq!(m.block_id, 9);
}

#[test]
fn sync_starts_at_configured_level_and_advances() {
    let mut config = Config::default();
    config.sync_block_level_from = 100;
    let mut s = SyncState::new(config, PollingInterval::BlockTime, Some(8));
    assert_eq!(s.polling_interval, 8);
    assert_eq!(s.next_action(), SyncAction::FetchBlock { level: 100 });
    assert!(s.can_advance());
    s.advance();
    assert_eq!(s.next_action(), SyncAction::FetchBlock { level: 101 });
    s.advance();
    assert_eq!(s.block_level, 102);
}

#[test]
fn sync_from_head_stays_at_level() {
    let mut s = SyncState::new(Config::default(), PollingInterval::Fixed(5), None);
    assert_eq!(s.polling_interval, 5);
    assert_eq!(s.next_action(), SyncAction::FetchBlock { level: -1 });
    s.advance();
    s.advance();
    assert_eq!(s.next_action(), SyncAction::FetchBlock { level: -1 });
}

#[test]
fn disabled_sync_stops() {
    let mut config = Config::default();
    config.enable_sync = false;
    let s = SyncState::new(config, PollingInterval::BlockTime, None);
    assert_eq!(s.next_action(), SyncAction::Stop);
}

#[test]
fn cannot_advance_past_largest_level() {
    let mut config = Config::default();
    config.sync_block_level_from = 1;
    let mut s = SyncState::new(config, PollingInterval::BlockTime, None);
    s.block_level = i32::MAX;
    assert!(!s.can_advance());
    let mut from_head = SyncState::new(Config::default(), PollingInterval::BlockTime, None);
    from_head.block_level = i32::MAX;
    assert!(from_head.can_advance());
}

#[test]
fn work_for_a_block() {
    let mut config = Config::default();
    config.smart_contracts = SmartContracts::Only(vec!["KT1keep".to_string()]);
    let s = SyncState::new(config, PollingInterval::Fixed(3), None);
    let b = block(
        500,
        vec![
            event("KT1keep", 1, OperationStatus::Applied),
            event("KT1drop", 2, OperationStatus::Applied),
            event("KT1keep", 3, OperationStatus::Failed),
        ],
    );
    let w = s.block_work(&b);
    assert_eq!(w.block.id, 500);
    assert_eq!(w.sleep_secs, 3);
    assert_eq!(w.events.len(), 2);
    assert_eq!(w.models.len(), 2);
    assert_eq!(w.events[0].nonce, 1);
    assert_eq!(w.events[1].nonce, 3);
    assert_eq!(w.events[1].operation_result_status, "Failed");
    for (r, m) in w.events.iter().zip(w.models.iter()) {
        assert_eq!(r.source, m.source);
        assert_eq!(r.nonce, m.nonce as i32);
        assert_eq!(r.block_id, m.block_id);
        assert_eq!(Some(r.operation_result_status.to_string()), m.operation_result_status);
        assert_eq!(r.block_id, w.block.id);
    }
}
