//! Concurrency gauges that every replica reads from the database.
//!
//! A gauge that cannot be read never stops new work: an unknown count is none.

use vstd::prelude::*;

use crate::outside;

verus! {

/// The number of active instances that a store reported. It is none for a deployment that the store
/// cannot hold rows of, and where the store failed.
pub open spec fn admitted(storable: bool, count: Result<i64, String>) -> int {
    match count {
        Ok(n) => if storable && n > 0 {
            n as int
        } else {
            0
        },
        Err(_) => 0,
    }
}

fn gauge(storable: bool, count: &Result<i64, String>) -> (r: u64)
    ensures
        r == admitted(storable, *count),
{
    match count {
        Ok(n) => if storable && *n > 0 {
            *n as u64
        } else {
            0
        },
        Err(_) => 0,
    }
}

/// The instance that a gauge counts under an id.
pub open spec fn gauged(storable: bool, instance_id: Seq<char>) -> Option<u128> {
    match outside::uuid_value(instance_id) {
        Ok(v) => if storable {
            Some(v)
        } else {
            None
        },
        Err(_) => None,
    }
}

/// The gauge of a channel's instances.
#[derive(Debug, Clone, Copy, PartialEq, Eq, Structural)]
pub struct PersistedChannelConcurrency;

impl PersistedChannelConcurrency {
    /// How many instances a channel has, from what the store reported.
    pub fn count_active(&self, storable: bool, count: &Result<i64, String>) -> (r: u64)
        ensures
            r == admitted(storable, *count),
    {
        gauge(storable, count)
    }

    /// The instance that the gauge records, where its deployment and its id can be stored.
    pub fn instance(&self, storable: bool, instance_id: &str) -> (r: Option<u128>)
        ensures
            r == match outside::uuid_value(instance_id@) {
                Ok(v) => if storable {
                    Some(v)
                } else {
                    None
                },
                Err(_) => None,
            },
            r == gauged(storable, instance_id@),
    {
        match outside::parse_uuid(instance_id) {
            Ok(v) => if storable {
                Some(v)
            } else {
                None
            },
            Err(_) => None,
        }
    }
}

/// The gauge of a deployment's instances.
#[derive(Debug, Clone, Copy, PartialEq, Eq, Structural)]
pub struct PersistedActiveInstanceCount;

impl PersistedActiveInstanceCount {
    /// How many instances a deployment has, from what the store reported.
    pub fn count_active(&self, storable: bool, count: &Result<i64, String>) -> (r: u64)
        ensures
            r == admitted(storable, *count),
    {
        gauge(storable, count)
    }
}

/// A gauge that cannot be read stops nothing: it counts as none.
pub proof fn an_unreadable_gauge_stops_nothing(storable: bool, error: String)
    ensures
        admitted(storable, Err(error)) == 0,
{
}

} // verus!
