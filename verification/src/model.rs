//! The event as the indexer stores and broadcasts it.

use vstd::prelude::*;

verus! {

/// An indexed event. Its type and payload are Micheline expressions, held in
/// their JSON encoding.
#[derive(Debug, Clone)]
pub struct EventModel {
    pub id: Option<i32>,
    pub source: String,
    pub type_: String,
    pub tag: String,
    pub nonce: u16,
    pub payload: String,
    pub operation_result_status: Option<String>,
    pub operation_result_consumed_milligas: Option<String>,
    pub block_id: i32,
}

impl EventModel {
    /// A new event, not yet given an id.
    #[allow(clippy::too_many_arguments)]
    pub fn new(
        source: String,
        type_: String,
        tag: String,
        nonce: u16,
        payload: String,
        operation_result_status: Option<String>,
        operation_result_consumed_milligas: Option<String>,
        block_id: i32,
    ) -> (m: Self)
        ensures
            m == (EventModel {
                id: None,
                source,
                type_,
                tag,
                nonce,
                payload,
                operation_result_status,
                operation_result_consumed_milligas,
                block_id,
            }),
    {
        Self {
            id: None,
            source,
            type_,
            tag,
            nonce,
            payload,
            operation_result_status,
            operation_result_consumed_milligas,
            block_id,
        }
    }
}

} // verus!
