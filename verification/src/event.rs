use vstd::prelude::*;

verus! {

/// One state-change event, as published on the bus: a slot update with a
/// slot number, an optional parent slot, and a status code.
///
/// The bus forwards events value-for-value and never inspects the fields;
/// they matter only to producers and consumers.
#[derive(Clone, Copy, PartialEq, Eq, Debug)]
pub struct Event {
    pub slot: u64,
    pub parent: Option<u64>,
    pub status: u32,
}

impl Event {
    /// Builds an event from its parts.
    pub fn new(slot: u64, parent: Option<u64>, status: u32) -> (e: Event)
        ensures
            e == (Event { slot, parent, status }),
    {
        Event { slot, parent, status }
    }
}

} // verus!
