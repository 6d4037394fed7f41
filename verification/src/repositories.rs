//! The persistence capability each service is built on.
//!
//! A repository is described by a ghost model: the map from identifier to
//! stored record. Each method says, for the case that the store answered,
//! what the answer is in terms of that model and how the model changed. A
//! failure of the store is always reported as `CoreError::Database`, and
//! nothing is promised of the model after it. The model is that of a single
//! caller: writes of other callers between two calls are outside of it.
//!
//! Where a store answers with several records, a second model gives the
//! order of the answer. A record that is created comes behind the records
//! stored before it; a store that answers in another order does not meet
//! the contract. What a full replace or a removal does to the order is left
//! open: the answer still holds exactly the records it should.

use vstd::prelude::*;

pub mod block;
pub mod memory;
pub mod note;
pub mod table;
pub mod user;
pub mod workspace;

verus! {

/// The record stored under `id`, if there is one.
pub open spec fn lookup<V>(rows: Map<u128, V>, id: u128) -> Option<V> {
    if rows.contains_key(id) {
        Some(rows[id])
    } else {
        None
    }
}

/// The effect of a full replace by id: a record that is not stored is not
/// added.
pub open spec fn replaced<V>(rows: Map<u128, V>, id: u128, data: V) -> Map<u128, V> {
    if rows.contains_key(id) {
        rows.insert(id, data)
    } else {
        rows
    }
}

/// A fresh random identifier.
///
/// Calls `uuid::Uuid::new_v4`, which panics when the operating system
/// yields no random bytes, and hands the identifier out as its 128-bit
/// value by `Uuid::as_u128`. The value is random, so nothing is claimed of
/// it.
#[verifier::external_body]
pub(crate) fn fresh_id() -> (r: u128) {
    uuid::Uuid::new_v4().as_u128()
}

} // verus!
