//! Where a generator reads the time.

use vstd::prelude::*;

verus! {

/// A source of clock readings. Nothing is known of a reading before it is
/// made: a clock may stand still or run backwards, and the generator answers
/// for each case.
pub trait Clock {
    /// The time now, in milliseconds of Unix time.
    fn now_millis(&mut self) -> i64;
}

/// The clock of the machine.
pub struct SystemClock;

impl Clock for SystemClock {
    fn now_millis(&mut self) -> i64 {
        unix_millis()
    }
}

/// A clock together with the record of what it has read, so that a contract
/// can speak of the readings that a request made.
pub struct Recorded<C> {
    clock: C,
    seen: Ghost<Seq<i64>>,
}

impl<C: Clock> Recorded<C> {
    /// Every reading made through this value, the oldest first.
    pub closed spec fn readings(&self) -> Seq<i64> {
        self.seen@
    }

    /// The clock that is read.
    pub closed spec fn held(&self) -> C {
        self.clock
    }

    /// `clock`, with no reading on record yet.
    pub fn new(clock: C) -> (recorded: Recorded<C>)
        ensures
            recorded.readings() == Seq::<i64>::empty(),
            recorded.held() == clock,
    {
        Recorded { clock, seen: Ghost(Seq::empty()) }
    }

    /// Reads the clock and puts the reading on record.
    pub fn now_millis(&mut self) -> (reading: i64)
        ensures
            final(self).readings() == old(self).readings().push(reading),
    {
        let reading = self.clock.now_millis();
        self.seen = Ghost(self.seen@.push(reading));
        reading
    }

    /// The clock that is read.
    pub fn clock(&self) -> (clock: &C)
        ensures
            *clock == self.held(),
    {
        &self.clock
    }

    /// Gives the clock back and drops the record.
    pub fn into_clock(self) -> (clock: C)
        ensures
            clock == self.held(),
    {
        self.clock
    }
}

/// Calls `std::time::SystemTime::now`, chrono's conversion of a `SystemTime`
/// into a `DateTime<Utc>`, and `DateTime::timestamp_millis` on that: the
/// machine's time in milliseconds since 1 January 1970 UTC, negative where
/// the clock is set before then. Nothing is claimed of the value. chrono has
/// a date for every time within some 262 000 years of 1970; its conversion
/// stops the process for a time beyond them.
#[verifier::external_body]
fn unix_millis() -> i64 {
    chrono::DateTime::<chrono::Utc>::from(std::time::SystemTime::now()).timestamp_millis()
}

} // verus!
