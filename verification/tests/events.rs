use eventz::block::{
    get_all_events, Block, ChainEvent, InternalOperationResult, Operation, OperationContent,
    OperationStatus, TransactionMetadata,
};
use eventz::config::{Config, SmartContracts};

fn event(source: &str, tag: &str, nonce: u16) -> ChainEvent {
    ChainEvent {
        source: source.to_string(),
        type_: "{\"prim\":\"nat\"}".to_string(),
        tag: tag.to_string(),
        nonce,
        payload: "{\"int\":\"1\"}".to_string(),
        status: OperationStatus::Applied,
        consumed_milligas: Some("100".to_string()),
    }
}

fn transaction(results: Vec<InternalOperationResult>) -> OperationContent {
    OperationContent::Transaction { metadata: Some(TransactionMetadata { internal_operation_results: results }) }
}

fn sample_block() -> Block {
    let manager = vec![
        Operation {
            contents: vec![
                transaction(vec![
                    InternalOperationResult::Event(event("KT1a", "first", 1)),
                    InternalOperationResult::Other,
                    InternalOperationResult::Event(event("KT1b", "second", 2)),
                ]),
                OperationContent::Other,
                OperationContent::Transaction { metadata: None },
            ],
        },
        Operation { contents: vec![transaction(vec![InternalOperationResult::Event(event("KT1a", "third", 3))])] },
    ];
    let other_pass = vec![Operation {
        contents: vec![transaction(vec![InternalOperationResult::Event(event("KT1a", "elsewhere", 9))])],
    }];
    Block {
        level: 42,
        hash: "BLhash".to_string(),
        timestamp: "2023-01-01T00:00:00Z".to_string(),
        operations: vec![vec![], other_pass, vec![], manager],
    }
}

fn tags(events: &[ChainEvent]) -> Vec<String> {
    events.iter().map(|e| e.tag.clone()).collect()
}

#[test]
fn all_contracts_keep_every_manager_event_in_order() {
    let config = Config::default();
    let events = get_all_events(&sample_block(), &config);
    assert_eq!(tags(&events), vec!["first", "second", "third"]);
    assert_eq!(events[1].source, "KT1b");
    assert_eq!(events[1].nonce, 2);
}

#[test]
fn only_listed_contracts_are_kept() {
    let mut config = Config::default();
    config.smart_contracts = SmartContracts::Only(vec!["KT1a".to_string()]);
    let events = get_all_events(&sample_block(), &config);
    assert_eq!(tags(&events), vec!["first", "third"]);
}

#[test]
fn selection_is_a_filter_of_all() {
    let block = sample_block();
    let all = get_all_events(&block, &Config::default());
    let mut config = Config::default();
    config.smart_contracts = SmartContracts::Only(vec!["KT1b".to_string()]);
    let only = get_all_events(&block, &config);
    let filtered: Vec<String> = all.iter().filter(|e| e.source == "KT1b").map(|e| e.tag.clone()).collect();
    assert_eq!(tags(&only), filtered);
}

#[test]
fn block_without_manager_pass_has_no_events() {
    let mut block = sample_block();
    block.operations.truncate(3);
    assert!(get_all_events(&block, &Config::default()).is_empty());
}

#[test]
fn no_listed_contract_keeps_nothing() {
    let mut config = Config::default();
    config.smart_contracts = SmartContracts::Only(vec![]);
    assert!(get_all_events(&sample_block(), &config).is_empty());
}

#[test]
fn event_clone_is_equal() {
    let e = event("KT1z", "t", 7);
    let c = e.clone();
    assert_eq!(c.source, e.source);
    assert_eq!(c.type_, e.type_);
    assert_eq!(c.tag, e.tag);
    assert_eq!(c.nonce, e.nonce);
    assert_eq!(c.payload, e.payload);
    assert_eq!(c.status, e.status);
    assert_eq!(c.consumed_milligas, e.consumed_milligas);
}
