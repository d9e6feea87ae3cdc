//! A generator that threads can share.
//!
//! [`Snowflake`] issues identifiers through `&mut`, which one thread at a time
//! can have. Here the part of a generator that changes lies behind a lock:
//! each request takes the lock, lets a generator go on from the progress that
//! it finds there, puts the new progress back and gives the lock back.

use vstd::prelude::*;

use crate::clock::Recorded;
use crate::clock::SystemClock;
use crate::endian::id_to_bytes;
use crate::endian::le_value;
use crate::endian::lemma_value_of_bytes;
use crate::snowflake::answers;
use crate::snowflake::answers_in_bytes;
use crate::snowflake::datacenter_id_of;
use crate::snowflake::resumed;
use crate::snowflake::generate_on;
use crate::snowflake::lemma_fields_of_issued;
use crate::snowflake::readings_since;
use crate::snowflake::worker_id_of;
use crate::snowflake::Progress;
use crate::snowflake::Snowflake;
use crate::snowflake::SnowflakeError;
use crate::snowflake::SnowflakeSettings;
use crate::snowflake::SnowflakeView;
use crate::snowflake::DATACENTER_LIMIT;
use crate::snowflake::WORKER_LIMIT;

verus! {

/// `lock_api::Mutex`, the lock that `parking_lot::Mutex` is an instance of.
/// Nothing is known of what a lock holds.
#[verifier::external_type_specification]
#[verifier::external_body]
#[verifier::reject_recursive_types(R)]
#[verifier::reject_recursive_types(T)]
pub struct ExMutex<R, T: ?Sized>(parking_lot::lock_api::Mutex<R, T>);

/// `parking_lot::RawMutex`, the lock without data that makes a
/// `lock_api::Mutex` a `parking_lot::Mutex`.
#[verifier::external_type_specification]
#[verifier::external_body]
pub struct ExRawMutex(parking_lot::RawMutex);

/// A held lock on the progress of a generator: it keeps the
/// `lock_api::MutexGuard` that `lock` returned, and the lock is given back
/// when this value is dropped.
#[verifier::external_body]
struct Locked<'a> {
    guard: parking_lot::lock_api::MutexGuard<'a, parking_lot::RawMutex, Progress>,
}

/// A generator whose progress lies behind a lock. Requests may come from any
/// number of threads at once; they are answered one after another.
pub struct SharedSnowflake {
    epoch: i64,
    worker_id: i64,
    datacenter_id: i64,
    progress: parking_lot::lock_api::Mutex<parking_lot::RawMutex, Progress>,
}

impl View for SharedSnowflake {
    type V = SnowflakeSettings;

    /// What was fixed when the generator was made. How far it has come is
    /// known to nobody who does not hold its lock.
    closed spec fn view(&self) -> SnowflakeSettings {
        SnowflakeSettings {
            epoch: self.epoch as int,
            worker_id: self.worker_id as int,
            datacenter_id: self.datacenter_id as int,
        }
    }
}

impl SharedSnowflake {
    #[verifier::type_invariant]
    spec fn inv(self) -> bool {
        0 <= self.worker_id < WORKER_LIMIT && 0 <= self.datacenter_id < DATACENTER_LIMIT
    }

    /// The generator as it was when its progress was put behind the lock.
    pub closed spec fn start(&self) -> SnowflakeView {
        self@.at(started_from(self.progress).0 as int, started_from(self.progress).1 as int)
    }

    /// Puts the progress of `generator` behind a lock, to go on from there
    /// with its epoch, worker and datacenter.
    pub fn new(generator: Snowflake) -> (shared: SharedSnowflake)
        ensures
            shared@ == generator@.settings(),
            shared.start() == generator@,
    {
        SharedSnowflake {
            epoch: generator.epoch(),
            worker_id: generator.worker_id(),
            datacenter_id: generator.datacenter_id(),
            progress: new_lock(generator.progress()),
        }
    }

    /// The epoch, in milliseconds of Unix time.
    pub fn epoch(&self) -> (epoch: i64)
        ensures
            epoch == self@.epoch,
    {
        self.epoch
    }

    /// The worker id that every identifier of this generator carries.
    pub fn worker_id(&self) -> (worker_id: i64)
        ensures
            worker_id == self@.worker_id,
            0 <= worker_id < WORKER_LIMIT,
    {
        proof {
            use_type_invariant(self);
        }
        self.worker_id
    }

    /// The datacenter id that every identifier of this generator carries.
    pub fn datacenter_id(&self) -> (datacenter_id: i64)
        ensures
            datacenter_id == self@.datacenter_id,
            0 <= datacenter_id < DATACENTER_LIMIT,
    {
        proof {
            use_type_invariant(self);
        }
        self.datacenter_id
    }

    /// Issues an identifier by the clock of the machine. The lock is held
    /// from before the clock is read until the new progress is stored.
    ///
    /// Other threads may have used the generator since this thread last saw
    /// it, so the answer is that of the generator at some progress, which no
    /// caller can name. What is done with the progress that the lock holds
    /// is stated of [`generate_on`], which every request here goes through.
    pub fn generate(&self) -> (res: Result<u64, SnowflakeError>)
        ensures
            exists|last_timestamp: int, sequence: int, readings: Seq<i64>|
                self@.at(last_timestamp, sequence).wf() && #[trigger] self@.at(
                    last_timestamp,
                    sequence,
                ).waits_through(readings) && answers(
                    res,
                    self@.at(last_timestamp, sequence).outcome(readings.last() as int),
                ),
            res matches Ok(id) ==> worker_id_of(id as int) == self@.worker_id && datacenter_id_of(
                id as int,
            ) == self@.datacenter_id,
    {
        proof {
            use_type_invariant(self);
        }
        let mut clock = Recorded::new(SystemClock);
        let mut guard = lock(&self.progress);
        let slot = locked(&mut guard);
        let ghost before = resumed(self.epoch, self.worker_id, self.datacenter_id, *slot);
        let res = generate_on(self.epoch, self.worker_id, self.datacenter_id, slot, &mut clock);
        proof {
            let readings = readings_since(Seq::<i64>::empty(), clock.readings());
            assert(self@.at(before.last_timestamp, before.sequence) == before);
            assert(before.waits_through(readings));
            if res is Ok {
                lemma_fields_of_issued(before, readings.last() as int);
            }
        }
        res
    }

    /// Issues an identifier by the clock of the machine, as the eight bytes
    /// that it takes in a frame.
    pub fn generate_u8_u64(&self) -> (res: Result<[u8; 8], SnowflakeError>)
        ensures
            exists|last_timestamp: int, sequence: int, readings: Seq<i64>|
                self@.at(last_timestamp, sequence).wf() && #[trigger] self@.at(
                    last_timestamp,
                    sequence,
                ).waits_through(readings) && answers_in_bytes(
                    res,
                    self@.at(last_timestamp, sequence).outcome(readings.last() as int),
                ),
            res matches Ok(bytes) ==> worker_id_of(le_value(bytes@)) == self@.worker_id
                && datacenter_id_of(le_value(bytes@)) == self@.datacenter_id,
    {
        match self.generate() {
            Ok(id) => {
                proof {
                    lemma_value_of_bytes(id);
                }
                Ok(id_to_bytes(id))
            },
            Err(e) => Err(e),
        }
    }
}

/// What a lock was made with: the timestamp and the sequence number of the
/// progress that was handed to `lock_api::Mutex::new`. It is fixed when the
/// lock is made and says nothing of what the lock holds later.
pub uninterp spec fn started_from(
    lock: parking_lot::lock_api::Mutex<parking_lot::RawMutex, Progress>,
) -> (u64, u64);

/// Calls `lock_api::Mutex::new`: a lock, not held, that is made with
/// `progress` inside.
#[verifier::external_body]
fn new_lock(progress: Progress) -> (lock: parking_lot::lock_api::Mutex<
    parking_lot::RawMutex,
    Progress,
>)
    ensures
        started_from(lock) == (progress.last_timestamp(), progress.sequence()),
{
    parking_lot::lock_api::Mutex::new(progress)
}

/// Calls `lock_api::Mutex::lock`: waits until the lock is free and takes it.
/// It would wait for ever in a thread that holds the lock already; the
/// one caller here gives the lock back before it returns and calls nothing
/// that could ask for it meanwhile.
#[verifier::external_body]
fn lock<'a>(
    mutex: &'a parking_lot::lock_api::Mutex<parking_lot::RawMutex, Progress>,
) -> Locked<'a> {
    Locked { guard: mutex.lock() }
}

/// Dereferences the `lock_api::MutexGuard`: the progress that the held lock
/// guards. Nothing is claimed of how far it has come.
#[verifier::external_body]
fn locked<'a, 'b>(held: &'a mut Locked<'b>) -> &'a mut Progress {
    &mut *held.guard
}

} // verus!
