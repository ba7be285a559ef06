//! What the indexer reads of a block, and which of its events it keeps.

use vstd::prelude::*;
use crate::config::{admits, Config, SmartContracts};

verus! {

/// The outcome of an operation, as the chain reports it.
#[derive(Debug, PartialEq, Eq, Clone, Copy)]
pub enum OperationStatus {
    Applied,
    Skipped,
    Backtracked,
    Failed,
}

/// An event emitted by a contract, as reported in an internal operation result.
///
/// The event's type and payload are Micheline expressions, held here in their
/// JSON encoding.
#[derive(Debug)]
pub struct ChainEvent {
    pub source: String,
    pub type_: String,
    pub tag: String,
    pub nonce: u16,
    pub payload: String,
    pub status: OperationStatus,
    pub consumed_milligas: Option<String>,
}

/// The result of an internal operation of a transaction.
#[derive(Debug)]
pub enum InternalOperationResult {
    /// A contract emitted an event.
    Event(ChainEvent),
    /// Any other internal operation (a transfer, an origination, ...).
    Other,
}

/// The metadata that the chain attaches to an applied transaction.
#[derive(Debug)]
pub struct TransactionMetadata {
    pub internal_operation_results: Vec<InternalOperationResult>,
}

/// One content of an operation.
#[derive(Debug)]
pub enum OperationContent {
    Transaction { metadata: Option<TransactionMetadata> },
    /// Any other kind of content (a reveal, an origination, ...).
    Other,
}

/// An operation of a block.
#[derive(Debug)]
pub struct Operation {
    pub contents: Vec<OperationContent>,
}

/// A block: its header fields and its operations, grouped by validation pass.
#[derive(Debug)]
pub struct Block {
    pub level: i32,
    pub hash: String,
    pub timestamp: String,
    pub operations: Vec<Vec<Operation>>,
}

/// The validation pass whose operations carry the contracts' transactions.
pub const MANAGER_PASS: usize = 3;

/// `f` applied to every element of `s`, the results joined in order.
pub open spec fn concat_map<A, B>(s: Seq<A>, f: spec_fn(A) -> Seq<B>) -> Seq<B>
    decreases s.len(),
{
    if s.len() == 0 {
        Seq::empty()
    } else {
        concat_map(s.drop_last(), f) + f(s.last())
    }
}

/// The event of one internal operation result, if it is one that `contracts` selects.
pub open spec fn result_events(r: InternalOperationResult, contracts: SmartContracts) -> Seq<ChainEvent> {
    match r {
        InternalOperationResult::Event(e) => if admits(contracts, e.source@) {
            seq![e]
        } else {
            Seq::empty()
        },
        InternalOperationResult::Other => Seq::empty(),
    }
}

/// The selected events of a list of internal operation results, in order.
pub open spec fn results_events(rs: Seq<InternalOperationResult>, contracts: SmartContracts) -> Seq<ChainEvent> {
    concat_map(rs, |r: InternalOperationResult| result_events(r, contracts))
}

/// The selected events of one operation content: those of a transaction's
/// internal operation results; a content of another kind, or a transaction
/// without metadata, has none.
pub open spec fn content_events(c: OperationContent, contracts: SmartContracts) -> Seq<ChainEvent> {
    match c {
        OperationContent::Transaction { metadata: Some(m) } => results_events(
            m.internal_operation_results@,
            contracts,
        ),
        _ => Seq::empty(),
    }
}

/// The selected events of a list of operation contents, in order.
pub open spec fn contents_events(cs: Seq<OperationContent>, contracts: SmartContracts) -> Seq<ChainEvent> {
    concat_map(cs, |c: OperationContent| content_events(c, contracts))
}

/// The selected events of a list of operations, in order.
pub open spec fn operations_events(ops: Seq<Operation>, contracts: SmartContracts) -> Seq<ChainEvent> {
    concat_map(ops, |op: Operation| contents_events(op.contents@, contracts))
}

/// The events of a block that the indexer keeps: those of the manager
/// operations' transactions, in the order of the block, whose source
/// `contracts` selects. A block without that validation pass has none.
pub open spec fn block_events(b: Block, contracts: SmartContracts) -> Seq<ChainEvent> {
    if b.operations@.len() > MANAGER_PASS {
        operations_events(b.operations@[MANAGER_PASS as int]@, contracts)
    } else {
        Seq::empty()
    }
}

/// One more element of `s` adds its image at the end.
pub proof fn lemma_concat_map_step<A, B>(s: Seq<A>, f: spec_fn(A) -> Seq<B>, i: int)
    requires
        0 <= i < s.len(),
    ensures
        concat_map(s.take(i + 1), f) == concat_map(s.take(i), f) + f(s[i]),
{
    assert(s.take(i + 1).drop_last() =~= s.take(i));
}

/// Joining over two sequences one after the other is joining over each, in order.
proof fn lemma_concat_map_add<A, B>(a: Seq<A>, b: Seq<A>, f: spec_fn(A) -> Seq<B>)
    ensures
        concat_map(a + b, f) == concat_map(a, f) + concat_map(b, f),
    decreases b.len(),
{
    if b.len() == 0 {
        assert(a + b =~= a);
        assert(concat_map(a, f) + concat_map(b, f) =~= concat_map(a, f));
    } else {
        assert((a + b).drop_last() =~= a + b.drop_last());
        assert((a + b).last() == b.last());
        lemma_concat_map_add(a, b.drop_last(), f);
        assert(concat_map(a, f) + concat_map(b.drop_last(), f) + f(b.last()) =~= concat_map(a, f) + (
        concat_map(b.drop_last(), f) + f(b.last())));
    }
}

/// Joining over one element is that element's image.
proof fn lemma_concat_map_single<A, B>(x: A, f: spec_fn(A) -> Seq<B>)
    ensures
        concat_map(seq![x], f) == f(x),
{
    let s = seq![x];
    assert(s.drop_last() =~= Seq::<A>::empty());
    assert(s.last() == x);
    assert(concat_map(s.drop_last(), f) == Seq::<B>::empty());
    assert(Seq::<B>::empty() + f(x) =~= f(x));
}

/// The events of internal operation results: none for no result; for two
/// lists one after the other, those of the first then those of the second;
/// for one event, that event exactly when its source is selected; for any
/// other result, none.
pub proof fn lemma_results_events_structure(
    a: Seq<InternalOperationResult>,
    b: Seq<InternalOperationResult>,
    e: ChainEvent,
    contracts: SmartContracts,
)
    ensures
        results_events(Seq::empty(), contracts) == Seq::<ChainEvent>::empty(),
        results_events(a + b, contracts) == results_events(a, contracts) + results_events(b, contracts),
        results_events(seq![InternalOperationResult::Event(e)], contracts) == (if admits(contracts, e.source@) {
            seq![e]
        } else {
            Seq::<ChainEvent>::empty()
        }),
        results_events(seq![InternalOperationResult::Other], contracts) == Seq::<ChainEvent>::empty(),
{
    let f = |r: InternalOperationResult| result_events(r, contracts);
    lemma_concat_map_add(a, b, f);
    lemma_concat_map_single(InternalOperationResult::Event(e), f);
    lemma_concat_map_single(InternalOperationResult::Other, f);
}

/// The events of the contents of an operation: none for no content; for two
/// lists of contents one after the other, those of the first then those of
/// the second, so that every content is read, wherever it stands; for one
/// transaction with metadata, the events of its internal operation results;
/// for a transaction without metadata or any other content, none.
pub proof fn lemma_contents_events_structure(
    a: Seq<OperationContent>,
    b: Seq<OperationContent>,
    m: TransactionMetadata,
    contracts: SmartContracts,
)
    ensures
        contents_events(Seq::empty(), contracts) == Seq::<ChainEvent>::empty(),
        contents_events(a + b, contracts) == contents_events(a, contracts) + contents_events(b, contracts),
        contents_events(seq![OperationContent::Transaction { metadata: Some(m) }], contracts)
            == results_events(m.internal_operation_results@, contracts),
        contents_events(seq![OperationContent::Transaction { metadata: None }], contracts)
            == Seq::<ChainEvent>::empty(),
        contents_events(seq![OperationContent::Other], contracts) == Seq::<ChainEvent>::empty(),
{
    let f = |c: OperationContent| content_events(c, contracts);
    lemma_concat_map_add(a, b, f);
    lemma_concat_map_single(OperationContent::Transaction { metadata: Some(m) }, f);
    lemma_concat_map_single(OperationContent::Transaction { metadata: None }, f);
    lemma_concat_map_single(OperationContent::Other, f);
}

/// The events of a list of operations: none for no operation; for two lists
/// one after the other, those of the first then those of the second; for one
/// operation, the events of all its contents.
pub proof fn lemma_operations_events_structure(
    a: Seq<Operation>,
    b: Seq<Operation>,
    op: Operation,
    contracts: SmartContracts,
)
    ensures
        operations_events(Seq::empty(), contracts) == Seq::<ChainEvent>::empty(),
        operations_events(a + b, contracts) == operations_events(a, contracts) + operations_events(b, contracts),
        operations_events(seq![op], contracts) == contents_events(op.contents@, contracts),
{
    let f = |o: Operation| contents_events(o.contents@, contracts);
    lemma_concat_map_add(a, b, f);
    lemma_concat_map_single(op, f);
}

/// The events of a block are those of the operations of its fourth validation
/// pass (index 3); a block with fewer passes has none.
pub proof fn lemma_block_events_pass(b: Block, contracts: SmartContracts)
    ensures
        b.operations@.len() <= 3 ==> block_events(b, contracts) == Seq::<ChainEvent>::empty(),
        b.operations@.len() > 3 ==> block_events(b, contracts) == operations_events(
            b.operations@[3]@,
            contracts,
        ),
{
}

/// The selection of `contracts`, as a predicate on events.
pub open spec fn selected(contracts: SmartContracts) -> spec_fn(ChainEvent) -> bool {
    |e: ChainEvent| admits(contracts, e.source@)
}

/// Filtering a joined sequence is joining the filtered images.
proof fn lemma_concat_map_filter<A, B>(
    s: Seq<A>,
    f: spec_fn(A) -> Seq<B>,
    g: spec_fn(A) -> Seq<B>,
    p: spec_fn(B) -> bool,
)
    requires
        forall|x: A| #[trigger] f(x).filter(p) == g(x),
    ensures
        concat_map(s, f).filter(p) == concat_map(s, g),
    decreases s.len(),
{
    if s.len() > 0 {
        lemma_concat_map_filter(s.drop_last(), f, g, p);
        Seq::filter_distributes_over_add(concat_map(s.drop_last(), f), f(s.last()), p);
        assert(f(s.last()).filter(p) == g(s.last()));
    } else {
        reveal(Seq::filter);
    }
}

/// Restricting the indexed contracts only filters: the events kept under
/// `contracts` are those kept when every contract is indexed, less those whose
/// source `contracts` does not select, in the same order.
pub proof fn lemma_selection_filters_all(b: Block, contracts: SmartContracts)
    ensures
        block_events(b, contracts) == block_events(b, SmartContracts::All).filter(selected(contracts)),
{
    let p = selected(contracts);
    assert forall|r: InternalOperationResult|
        #[trigger] result_events(r, SmartContracts::All).filter(p) == result_events(r, contracts) by {
        reveal_with_fuel(Seq::filter, 2);
        match r {
            InternalOperationResult::Event(e) => {
                assert(seq![e].drop_last() =~= Seq::<ChainEvent>::empty());
                if admits(contracts, e.source@) {
                    assert(Seq::<ChainEvent>::empty().push(e) =~= seq![e]);
                }
            },
            InternalOperationResult::Other => {},
        }
    }
    assert forall|rs: Seq<InternalOperationResult>|
        #[trigger] results_events(rs, SmartContracts::All).filter(p) == results_events(rs, contracts) by {
        lemma_concat_map_filter(
            rs,
            |r: InternalOperationResult| result_events(r, SmartContracts::All),
            |r: InternalOperationResult| result_events(r, contracts),
            p,
        );
    }
    assert forall|c: OperationContent|
        #[trigger] content_events(c, SmartContracts::All).filter(p) == content_events(c, contracts) by {
        match c {
            OperationContent::Transaction { metadata: Some(m) } => {
                assert(results_events(m.internal_operation_results@, SmartContracts::All).filter(p)
                    == results_events(m.internal_operation_results@, contracts));
            },
            _ => {
                reveal(Seq::filter);
            },
        }
    }
    assert forall|cs: Seq<OperationContent>|
        #[trigger] contents_events(cs, SmartContracts::All).filter(p) == contents_events(cs, contracts) by {
        lemma_concat_map_filter(
            cs,
            |c: OperationContent| content_events(c, SmartContracts::All),
            |c: OperationContent| content_events(c, contracts),
            p,
        );
    }
    assert forall|op: Operation|
        #[trigger] contents_events(op.contents@, SmartContracts::All).filter(p) == contents_events(
            op.contents@,
            contracts,
        ) by {}
    if b.operations@.len() > MANAGER_PASS {
        lemma_concat_map_filter(
            b.operations@[MANAGER_PASS as int]@,
            |op: Operation| contents_events(op.contents@, SmartContracts::All),
            |op: Operation| contents_events(op.contents@, contracts),
            p,
        );
    } else {
        reveal(Seq::filter);
    }
}

/// Every event that the indexer keeps comes from a contract that the
/// configuration selects.
pub proof fn lemma_kept_events_are_selected(b: Block, contracts: SmartContracts, i: int)
    requires
        0 <= i < block_events(b, contracts).len(),
    ensures
        admits(contracts, block_events(b, contracts)[i].source@),
{
    lemma_selection_filters_all(b, contracts);
    block_events(b, SmartContracts::All).lemma_filter_pred(selected(contracts), i);
}

impl Clone for ChainEvent {
    fn clone(&self) -> (r: Self)
        ensures
            r == *self,
    {
        ChainEvent {
            source: self.source.clone(),
            type_: self.type_.clone(),
            tag: self.tag.clone(),
            nonce: self.nonce,
            payload: self.payload.clone(),
            status: self.status,
            consumed_milligas: match &self.consumed_milligas {
                Some(m) => Some(m.clone()),
                None => None,
            },
        }
    }
}

/// Appends the selected events of `results` to `events`.
fn push_results_events(
    results: &Vec<InternalOperationResult>,
    contracts: &SmartContracts,
    events: &mut Vec<ChainEvent>,
)
    ensures
        final(events)@ == old(events)@ + results_events(results@, *contracts),
{
    let ghost start = events@;
    let n = results.len();
    for i in 0..n
        invariant
            n == results@.len(),
            events@ == start + results_events(results@.take(i as int), *contracts),
    {
        proof {
            lemma_concat_map_step(
                results@,
                |r: InternalOperationResult| result_events(r, *contracts),
                i as int,
            );
        }
        match &results[i] {
            InternalOperationResult::Event(e) => {
                if contracts.admits_source(&e.source) {
                    events.push(e.clone());
                }
            },
            InternalOperationResult::Other => {},
        }
        assert(events@ == start + results_events(results@.take(i + 1), *contracts));
    }
    assert(results@.take(n as int) =~= results@);
}

/// Appends the selected events of `contents` to `events`.
fn push_contents_events(
    contents: &Vec<OperationContent>,
    contracts: &SmartContracts,
    events: &mut Vec<ChainEvent>,
)
    ensures
        final(events)@ == old(events)@ + contents_events(contents@, *contracts),
{
    let ghost start = events@;
    let n = contents.len();
    for i in 0..n
        invariant
            n == contents@.len(),
            events@ == start + contents_events(contents@.take(i as int), *contracts),
    {
        proof {
            lemma_concat_map_step(
                contents@,
                |c: OperationContent| content_events(c, *contracts),
                i as int,
            );
        }
        match &contents[i] {
            OperationContent::Transaction { metadata: Some(m) } => {
                push_results_events(&m.internal_operation_results, contracts, events);
            },
            _ => {},
        }
        assert(events@ == start + contents_events(contents@.take(i + 1), *contracts));
    }
    assert(contents@.take(n as int) =~= contents@);
}

/// The events of `block` that the indexer keeps under `config`: those emitted
/// in the internal operation results of the transactions of the block's
/// manager operations, in block order, restricted to the sources that
/// `config.smart_contracts` selects.
pub fn get_all_events(block: &Block, config: &Config) -> (events: Vec<ChainEvent>)
    ensures
        events@ == block_events(*block, config.smart_contracts),
{
    let mut events: Vec<ChainEvent> = Vec::new();
    if block.operations.len() <= MANAGER_PASS {
        return events;
    }
    let operations = &block.operations[MANAGER_PASS];
    let contracts = &config.smart_contracts;
    let n = operations.len();
    for i in 0..n
        invariant
            n == operations@.len(),
            events@ == operations_events(operations@.take(i as int), *contracts),
    {
        proof {
            lemma_concat_map_step(
                operations@,
                |op: Operation| contents_events(op.contents@, *contracts),
                i as int,
            );
        }
        push_contents_events(&operations[i].contents, contracts, &mut events);
        assert(events@ == operations_events(operations@.take(i + 1), *contracts));
    }
    assert(operations@.take(n as int) =~= operations@);
    events
}

} // verus!
