//! The decisions of the synchronisation loop: what to fetch next, which rows
//! to write for a fetched block, what to broadcast and how long to wait.

use vstd::prelude::*;
use crate::block::{block_events, get_all_events, Block, ChainEvent, OperationStatus};
use crate::config::{Config, PollingInterval};
use crate::model::EventModel;

verus! {

/// The block time, in seconds, assumed when the chain's constants give none.
pub const DEFAULT_BLOCK_TIME: i64 = 30;

/// The name under which an operation status is stored.
pub open spec fn status_name(status: OperationStatus) -> Seq<char> {
    match status {
        OperationStatus::Applied => "Applied"@,
        OperationStatus::Skipped => "Skipped"@,
        OperationStatus::Backtracked => "Backtracked"@,
        OperationStatus::Failed => "Failed"@,
    }
}

/// The name under which an operation status is stored.
pub fn status_to_string(status: OperationStatus) -> (name: &'static str)
    ensures
        name@ == status_name(status),
{
    match status {
        OperationStatus::Applied => "Applied",
        OperationStatus::Skipped => "Skipped",
        OperationStatus::Backtracked => "Backtracked",
        OperationStatus::Failed => "Failed",
    }
}

/// The value of `v` as a `u64`, taken modulo 2^64 as a cast does.
pub open spec fn wrapping_u64(v: i64) -> int {
    if v >= 0 {
        v as int
    } else {
        v + 0x1_0000_0000_0000_0000
    }
}

/// The block delay that the chain's constants give, or the default block time
/// where they give none, as a `u64`.
pub open spec fn block_delay(minimal_block_delay: Option<i64>) -> int {
    match minimal_block_delay {
        Some(d) => wrapping_u64(d),
        None => wrapping_u64(DEFAULT_BLOCK_TIME),
    }
}

/// The block delay of the chain, from the `minimal_block_delay` of its
/// constants.
pub fn get_block_delay_from_constants(minimal_block_delay: Option<i64>) -> (delay: u64)
    ensures
        delay == block_delay(minimal_block_delay),
{
    let d: i64 = match minimal_block_delay {
        Some(d) => d,
        None => DEFAULT_BLOCK_TIME,
    };
    assert(d < 0 ==> (d as u64) as int == d + 0x1_0000_0000_0000_0000) by (bit_vector);
    assert(d >= 0 ==> (d as u64) as int == d as int) by (bit_vector);
    d as u64
}

/// The number of seconds to wait between two blocks.
pub open spec fn polling_secs(setting: PollingInterval, minimal_block_delay: Option<i64>) -> int {
    match setting {
        PollingInterval::Fixed(secs) => secs as int,
        PollingInterval::BlockTime => block_delay(minimal_block_delay),
    }
}

/// The chain's block delay is used unchanged when it is not negative (a
/// negative one wraps round as a cast does), and the default block time of
/// 30 seconds stands in where the constants give none.
pub proof fn lemma_block_delay_values(d: i64)
    ensures
        d >= 0 ==> block_delay(Some(d)) == d,
        d < 0 ==> block_delay(Some(d)) == d + 0x1_0000_0000_0000_0000,
        block_delay(None) == 30,
{
}

/// A fixed interval is used as it is set; otherwise the wait is the chain's
/// block delay, 30 seconds where the constants give none.
pub proof fn lemma_polling_secs_values(n: u64, d: i64)
    ensures
        polling_secs(PollingInterval::Fixed(n), Some(d)) == n,
        polling_secs(PollingInterval::Fixed(n), None) == n,
        d >= 0 ==> polling_secs(PollingInterval::BlockTime, Some(d)) == d,
        polling_secs(PollingInterval::BlockTime, None) == 30,
{
}

/// The number of seconds to wait between two blocks: the fixed interval where
/// one is set, else the chain's block delay.
pub fn polling_interval(setting: PollingInterval, minimal_block_delay: Option<i64>) -> (secs: u64)
    ensures
        secs == polling_secs(setting, minimal_block_delay),
{
    match setting {
        PollingInterval::Fixed(secs) => secs,
        PollingInterval::BlockTime => get_block_delay_from_constants(minimal_block_delay),
    }
}

/// The row of the blocks table that records a block.
#[derive(Debug, Clone)]
pub struct BlockRecord {
    pub id: i32,
    pub hash: String,
    pub timestamp: String,
}

/// The row of the events table that records an event.
#[derive(Debug, Clone)]
pub struct EventRecord {
    pub source: String,
    pub nonce: i32,
    pub type_: String,
    pub tag: String,
    pub payload: String,
    pub operation_result_status: &'static str,
    pub operation_result_consumed_milligas: Option<String>,
    pub block_id: i32,
}

/// `r` records block `b`.
pub open spec fn records_block(r: BlockRecord, b: Block) -> bool {
    &&& r.id == b.level
    &&& r.hash@ == b.hash@
    &&& r.timestamp@ == b.timestamp@
}

/// `r` records event `e` of the block at `level`.
pub open spec fn records_event(r: EventRecord, e: ChainEvent, level: i32) -> bool {
    &&& r.source@ == e.source@
    &&& r.nonce == e.nonce as i32
    &&& r.type_@ == e.type_@
    &&& r.tag@ == e.tag@
    &&& r.payload@ == e.payload@
    &&& r.operation_result_status@ == status_name(e.status)
    &&& r.operation_result_consumed_milligas == e.consumed_milligas
    &&& r.block_id == level
}

/// `m` is the model of event `e` of the block at `level`.
pub open spec fn models_event(m: EventModel, e: ChainEvent, level: i32) -> bool {
    &&& m.id is None
    &&& m.source@ == e.source@
    &&& m.type_@ == e.type_@
    &&& m.tag@ == e.tag@
    &&& m.nonce == e.nonce
    &&& m.payload@ == e.payload@
    &&& m.operation_result_status matches Some(s) && s@ == status_name(e.status)
    &&& m.operation_result_consumed_milligas == e.consumed_milligas
    &&& m.block_id == level
}

fn clone_opt_string(s: &Option<String>) -> (r: Option<String>)
    ensures
        r == *s,
{
    match s {
        Some(v) => Some(v.clone()),
        None => None,
    }
}

/// The row that records `block`.
pub fn block_record(block: &Block) -> (r: BlockRecord)
    ensures
        records_block(r, *block),
{
    BlockRecord { id: block.level, hash: block.hash.clone(), timestamp: block.timestamp.clone() }
}

/// The row that records `event`, emitted in the block at `block_level`.
pub fn event_record(event: &ChainEvent, block_level: i32) -> (r: EventRecord)
    ensures
        records_event(r, *event, block_level),
{
    EventRecord {
        source: event.source.clone(),
        nonce: event.nonce as i32,
        type_: event.type_.clone(),
        tag: event.tag.clone(),
        payload: event.payload.clone(),
        operation_result_status: status_to_string(event.status),
        operation_result_consumed_milligas: clone_opt_string(&event.consumed_milligas),
        block_id: block_level,
    }
}

/// The model of `event`, emitted in the block at `block_level`, as it is
/// broadcast to the clients.
pub fn event_model(event: &ChainEvent, block_level: i32) -> (m: EventModel)
    ensures
        models_event(m, *event, block_level),
{
    let status = status_to_string(event.status);
    EventModel::new(
        event.source.clone(),
        event.type_.clone(),
        event.tag.clone(),
        event.nonce,
        event.payload.clone(),
        Some(status.to_owned()),
        clone_opt_string(&event.consumed_milligas),
        block_level,
    )
}

/// Distinct statuses are stored under distinct names, so that a stored name
/// gives back its status.
pub proof fn lemma_status_names_distinct(a: OperationStatus, b: OperationStatus)
    requires
        a != b,
    ensures
        status_name(a) != status_name(b),
{
    reveal_strlit("Applied");
    reveal_strlit("Skipped");
    reveal_strlit("Backtracked");
    reveal_strlit("Failed");
    assert("Applied"@[0] != "Skipped"@[0]);
    assert("Applied"@[0] != "Backtracked"@[0]);
    assert("Applied"@[0] != "Failed"@[0]);
    assert("Skipped"@[0] != "Backtracked"@[0]);
    assert("Skipped"@[0] != "Failed"@[0]);
    assert("Backtracked"@[0] != "Failed"@[0]);
}

/// For every event of a block, the row written and the message broadcast
/// agree: same source, type, tag, nonce, payload, status, gas and block.
pub proof fn lemma_rows_agree_with_models(w: BlockWork, block: Block, config: Config, secs: u64, i: int)
    requires
        is_block_work(w, block, config, secs),
        0 <= i < w.events@.len(),
    ensures
        w.events@[i].source@ == w.models@[i].source@,
        w.events@[i].type_@ == w.models@[i].type_@,
        w.events@[i].tag@ == w.models@[i].tag@,
        w.events@[i].nonce == w.models@[i].nonce as i32,
        w.events@[i].payload@ == w.models@[i].payload@,
        w.models@[i].operation_result_status matches Some(s) && s@ == w.events@[i].operation_result_status@,
        w.events@[i].operation_result_consumed_milligas == w.models@[i].operation_result_consumed_milligas,
        w.events@[i].block_id == w.models@[i].block_id,
        w.events@[i].block_id == w.block.id,
{
    let kept = block_events(block, config.smart_contracts);
    assert(records_event(w.events@[i], kept[i], block.level));
    assert(models_event(w.models@[i], kept[i], block.level));
}

/// The work for a block waits exactly the given interval, whatever events the
/// block yields; it writes the block's own level, hash and time; and it holds
/// one row and one model per kept event, each built from that event of the
/// block.
pub proof fn lemma_block_work_shape(w: BlockWork, block: Block, config: Config, secs: u64, i: int)
    requires
        is_block_work(w, block, config, secs),
    ensures
        w.sleep_secs == secs,
        w.block.id == block.level,
        w.block.hash@ == block.hash@,
        w.block.timestamp@ == block.timestamp@,
        w.events@.len() == block_events(block, config.smart_contracts).len(),
        w.models@.len() == block_events(block, config.smart_contracts).len(),
        0 <= i < w.events@.len() ==> {
            let e = block_events(block, config.smart_contracts)[i];
            &&& w.events@[i].source@ == e.source@
            &&& w.events@[i].nonce == e.nonce as i32
            &&& w.events@[i].type_@ == e.type_@
            &&& w.events@[i].tag@ == e.tag@
            &&& w.events@[i].payload@ == e.payload@
            &&& w.events@[i].operation_result_consumed_milligas == e.consumed_milligas
            &&& w.events@[i].block_id == block.level
            &&& w.models@[i].id is None
            &&& w.models@[i].source@ == e.source@
            &&& w.models@[i].nonce == e.nonce
            &&& w.models@[i].type_@ == e.type_@
            &&& w.models@[i].tag@ == e.tag@
            &&& w.models@[i].payload@ == e.payload@
            &&& w.models@[i].operation_result_consumed_milligas == e.consumed_milligas
            &&& w.models@[i].block_id == block.level
        },
{
    if 0 <= i < w.events@.len() {
        let kept = block_events(block, config.smart_contracts);
        assert(records_event(w.events@[i], kept[i], block.level));
        assert(models_event(w.models@[i], kept[i], block.level));
    }
}

/// The loop moves on after each block exactly when the configured start level
/// is positive, whatever that level is.
pub proof fn lemma_advances_iff_positive_start(s: SyncState)
    ensures
        s.config.sync_block_level_from > 0 ==> s.advances(),
        s.config.sync_block_level_from <= 0 ==> !s.advances(),
{
}

/// What the synchronisation loop does next.
#[derive(Debug, PartialEq, Eq, Clone, Copy)]
pub enum SyncAction {
    /// Fetch the block at this level and hand it to `SyncState::block_work`.
    FetchBlock { level: i32 },
    /// Synchronisation is disabled: the loop ends.
    Stop,
}

/// What the loop does with one fetched block: write `block` and each of
/// `events`, broadcast each of `models`, in order, then wait `sleep_secs`
/// seconds.
#[derive(Debug)]
pub struct BlockWork {
    pub block: BlockRecord,
    pub events: Vec<EventRecord>,
    pub models: Vec<EventModel>,
    pub sleep_secs: u64,
}

/// The state of the synchronisation loop.
#[derive(Debug)]
pub struct SyncState {
    pub config: Config,
    /// The level of the next block to fetch.
    pub block_level: i32,
    /// The seconds to wait after each block.
    pub polling_interval: u64,
}

/// `w` is the work for `block` under `config`, waiting `secs` after it.
pub open spec fn is_block_work(w: BlockWork, block: Block, config: Config, secs: u64) -> bool {
    let kept = block_events(block, config.smart_contracts);
    &&& records_block(w.block, block)
    &&& w.events@.len() == kept.len()
    &&& w.models@.len() == kept.len()
    &&& forall|i: int| 0 <= i < kept.len() ==> records_event(#[trigger] w.events@[i], kept[i], block.level)
    &&& forall|i: int| 0 <= i < kept.len() ==> models_event(#[trigger] w.models@[i], kept[i], block.level)
    &&& w.sleep_secs == secs
}

impl SyncState {
    /// The state before the first block: synchronisation starts at the
    /// configured level, and waits as `polling` says, the chain's constants
    /// giving `minimal_block_delay`.
    pub fn new(config: Config, polling: PollingInterval, minimal_block_delay: Option<i64>) -> (s: SyncState)
        ensures
            s.config == config,
            s.block_level == config.sync_block_level_from,
            s.polling_interval == polling_secs(polling, minimal_block_delay),
    {
        let block_level = config.sync_block_level_from;
        SyncState { config, block_level, polling_interval: polling_interval(polling, minimal_block_delay) }
    }

    /// Whether the loop moves on to the next level after each block: it does
    /// where a positive start level is configured, and otherwise fetches the
    /// same level every round.
    pub open spec fn advances(&self) -> bool {
        self.config.sync_block_level_from > 0
    }

    /// What the loop does next.
    pub fn next_action(&self) -> (a: SyncAction)
        ensures
            a == (if self.config.enable_sync {
                SyncAction::FetchBlock { level: self.block_level }
            } else {
                SyncAction::Stop
            }),
    {
        if self.config.enable_sync {
            SyncAction::FetchBlock { level: self.block_level }
        } else {
            SyncAction::Stop
        }
    }

    /// The rows to write, the models to broadcast and the time to wait for a
    /// fetched block.
    pub fn block_work(&self, block: &Block) -> (w: BlockWork)
        ensures
            is_block_work(w, *block, self.config, self.polling_interval),
            w.sleep_secs == self.polling_interval,
    {
        let kept = get_all_events(block, &self.config);
        let mut events: Vec<EventRecord> = Vec::new();
        let mut models: Vec<EventModel> = Vec::new();
        let n = kept.len();
        for i in 0..n
            invariant
                n == kept@.len(),
                kept@ == block_events(*block, self.config.smart_contracts),
                events@.len() == i,
                models@.len() == i,
                forall|j: int| 0 <= j < i ==> records_event(#[trigger] events@[j], kept@[j], block.level),
                forall|j: int| 0 <= j < i ==> models_event(#[trigger] models@[j], kept@[j], block.level),
        {
            events.push(event_record(&kept[i], block.level));
            models.push(event_model(&kept[i], block.level));
        }
        BlockWork { block: block_record(block), events, models, sleep_secs: self.polling_interval }
    }

    /// Whether `advance` may be called: moving on must not pass the largest
    /// level.
    pub fn can_advance(&self) -> (b: bool)
        ensures
            b == (self.advances() ==> self.block_level < i32::MAX),
    {
        !(self.config.sync_block_level_from > 0) || self.block_level < i32::MAX
    }

    /// The state after a block has been written: the next level where the
    /// loop advances, the same one otherwise.
    pub fn advance(&mut self)
        requires
            old(self).advances() ==> old(self).block_level < i32::MAX,
        ensures
            final(self).config == old(self).config,
            final(self).polling_interval == old(self).polling_interval,
            old(self).config.sync_block_level_from > 0 ==> final(self).block_level == old(self).block_level + 1,
            old(self).config.sync_block_level_from <= 0 ==> final(self).block_level == old(self).block_level,
            final(self).block_level == (if old(self).advances() {
                old(self).block_level + 1
            } else {
                old(self).block_level as int
            }),
    {
        if self.config.sync_block_level_from > 0 {
            self.block_level = self.block_level + 1;
        }
    }
}

} // verus!
