//! Storage-side logic: record keys and the query pieces built for SurrealDB.
pub mod arcs;
pub mod users;

use vstd::prelude::*;
use crate::common::rand::is_lower_hex;

verus! {

/// A new record key: 32 lowercase hex characters (the safe ID alphabet),
/// from a random UUID.
pub fn new_record_key() -> (r: String)
    ensures
        r@.len() == 32,
        forall|i: int| 0 <= i < r@.len() ==> is_lower_hex(#[trigger] r@[i]),
{
    crate::common::rand::new_uuid_simple()
}

} // verus!
