//! The clock that a store reads: each reading is taken from the system
//! clock and kept in the record of readings, in order. The record is
//! written here alone, by the reading itself.
use vstd::prelude::*;
use crate::external::now_timestamp;

verus! {

/// Reads the current time and records every reading.
pub struct Clock {
    readings: Ghost<Seq<i64>>,
}

impl Clock {
    /// Every reading taken so far, in order, in seconds since the epoch.
    pub closed spec fn readings(&self) -> Seq<i64> {
        self.readings@
    }

    /// A clock that has not been read yet.
    pub fn new() -> (r: Self)
        ensures
            r.readings() == Seq::<i64>::empty(),
    {
        Clock { readings: Ghost(Seq::empty()) }
    }

    /// The current time in seconds since the epoch, as the system clock
    /// gives it; the reading is recorded.
    pub fn now(&mut self) -> (r: i64)
        ensures
            r >= 0,
            final(self).readings() == old(self).readings().push(r),
    {
        let r = now_timestamp();
        self.readings = Ghost(self.readings@.push(r));
        r
    }
}

} // verus!
