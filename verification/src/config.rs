//! The indexer's configuration.

use vstd::prelude::*;

verus! {

/// Which smart contracts' events are indexed.
#[derive(Debug, PartialEq, Eq, Clone)]
pub enum SmartContracts {
    /// Events of every contract.
    All,
    /// Only the events whose source is one of these addresses.
    Only(Vec<String>),
}

/// How events are kept in the data store.
#[derive(Debug, PartialEq, Eq, Clone)]
pub enum DataStoreMode {
    /// Every event is kept.
    Store,
    /// Only a bounded number of events is kept.
    Prune(u32),
}

/// How long the indexer waits between two blocks.
#[derive(Debug, PartialEq, Eq, Clone, Copy)]
pub enum PollingInterval {
    /// A fixed number of seconds.
    Fixed(u64),
    /// The chain's minimal block delay, as its constants give it.
    BlockTime,
}

/// The indexer's configuration, as read from its configuration file.
#[derive(Debug, PartialEq, Eq, Clone)]
pub struct Config {
    pub database_url: String,
    pub tezos_rpc_url: String,
    pub enable_sync: bool,
    pub enable_api: bool,
    pub sync_block_level_from: i32,
    pub blocks_to_check_sync: i32,
    pub data_store_mode: DataStoreMode,
    pub smart_contracts: SmartContracts,
}

/// Whether `source` is the source of an event that `contracts` selects.
pub open spec fn admits(contracts: SmartContracts, source: Seq<char>) -> bool {
    match contracts {
        SmartContracts::All => true,
        SmartContracts::Only(list) => exists|i: int| 0 <= i < list@.len() && #[trigger] list@[i]@ == source,
    }
}

/// Every contract is selected by `All`; `Only(list)` selects the contracts of
/// the list, wherever they stand in it, and no other.
pub proof fn lemma_admits_membership(list: Vec<String>, source: Seq<char>, i: int)
    ensures
        admits(SmartContracts::All, source),
        0 <= i < list@.len() ==> admits(SmartContracts::Only(list), list@[i]@),
        (forall|j: int| 0 <= j < list@.len() ==> list@[j]@ != source) ==> !admits(
            SmartContracts::Only(list),
            source,
        ),
{
    if 0 <= i < list@.len() {
        let sc = SmartContracts::Only(list);
        assert(sc->Only_0 == list);
        assert(sc->Only_0@[i]@ == list@[i]@);
    }
}

impl SmartContracts {
    /// Whether the events of the contract at `source` are indexed.
    pub fn admits_source(&self, source: &String) -> (r: bool)
        ensures
            r == admits(*self, source@),
    {
        match self {
            SmartContracts::All => true,
            SmartContracts::Only(list) => {
                let n = list.len();
                for i in 0..n
                    invariant
                        n == list@.len(),
                        *self == SmartContracts::Only(*list),
                        forall|j: int| 0 <= j < i ==> list@[j]@ != source@,
                {
                    if list[i] == *source {
                        assert(list@[i as int]@ == source@);
                        assert(self->Only_0 == *list);
                        return true;
                    }
                }
                false
            },
        }
    }
}

impl Default for Config {
    fn default() -> (c: Config)
        ensures
            c.database_url@ == "eventz.db"@,
            c.tezos_rpc_url@ == "https://mainnet.tezos.marigold.dev"@,
            c.enable_sync,
            c.enable_api,
            c.sync_block_level_from == -1,
            c.blocks_to_check_sync == 10,
            c.data_store_mode == DataStoreMode::Prune(100),
            c.smart_contracts == SmartContracts::All,
    {
        Config {
            database_url: "eventz.db".to_owned(),
            tezos_rpc_url: "https://mainnet.tezos.marigold.dev".to_owned(),
            enable_sync: true,
            enable_api: true,
            sync_block_level_from: -1,
            blocks_to_check_sync: 10,
            data_store_mode: DataStoreMode::Prune(100),
            smart_contracts: SmartContracts::All,
        }
    }
}

} // verus!
