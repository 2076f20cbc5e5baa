//! The generic monitored-entity record, the schema's older shape of a
//! service row.

use vstd::prelude::*;

use crate::status::MonitorType;

verus! {

/// One monitored entity as the entity table stores it.
pub struct Entity {
    pub id: u16,
    pub user_id: u16,
    pub active: bool,
    pub name: String,
    pub interval: u16,
    pub url: Option<String>,
    pub payload: Option<String>,
    pub monitor_type: MonitorType,
    pub retry: u8,
    pub retry_interval: Option<u16>,
}

/// A request body value, marked as such for the handlers that take one.
pub struct Json<T>(pub T);

impl<T> Json<T> {
    /// The carried value.
    pub fn into_inner(self) -> (r: T)
        ensures
            r == self.0,
    {
        self.0
    }
}

} // verus!
