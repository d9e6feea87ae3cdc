//! Time-ordered 64-bit identifiers.
//!
//! An identifier packs, from the high bits down, 42 bits of milliseconds since
//! the generator's epoch, 5 bits of worker id, 5 bits of datacenter id and a
//! 12-bit sequence number that tells apart the identifiers of one millisecond.
//! A generator hands them out in strictly increasing order.

use vstd::arithmetic::div_mod::lemma_fundamental_div_mod_converse;
use vstd::prelude::*;

use crate::clock::Clock;
use crate::clock::Recorded;
use crate::clock::SystemClock;
use crate::endian::id_to_bytes;
use crate::endian::le_bytes;
use crate::endian::le_value;
use crate::endian::lemma_value_of_bytes;

verus! {

/// Clock readings that one request makes before it gives up waiting for the
/// next millisecond.
pub const CLOCK_READS_LIMIT: u64 = u64::MAX;

/// The epoch of the default generator, in milliseconds of Unix time.
pub const DEFAULT_EPOCH: i64 = 1_573_948_800;

/// Identifiers that one generator can issue within one millisecond.
pub const SEQUENCE_LIMIT: u64 = 4096;

/// Worker ids are below this.
pub const WORKER_LIMIT: u64 = 32;

/// Datacenter ids are below this.
pub const DATACENTER_LIMIT: u64 = 32;

/// Milliseconds since the epoch are below this in every identifier.
pub const TIMESTAMP_LIMIT: u64 = 0x400_0000_0000;

/// Why a request for an identifier was refused. The generator is unchanged
/// by a refused request.
#[derive(Debug, Clone, Copy, PartialEq, Eq, Structural)]
pub enum SnowflakeError {
    /// The clock reads earlier than it did for the last identifier.
    ClockRegression,
    /// All identifiers of the current millisecond are taken and the clock has
    /// not moved on.
    SequenceExhausted,
    /// The time since the epoch no longer fits in 42 bits.
    TimestampOverflow,
}

impl SnowflakeError {
    /// What went wrong, in words.
    pub open spec fn spec_message(self) -> Seq<char> {
        match self {
            SnowflakeError::ClockRegression => "the clock moved backwards"@,
            SnowflakeError::SequenceExhausted =>
                "all identifiers of this millisecond are taken"@,
            SnowflakeError::TimestampOverflow =>
                "the time since the epoch does not fit an identifier"@,
        }
    }

    /// What went wrong, in words.
    pub fn message(&self) -> (text: String)
        ensures
            text@ == self.spec_message(),
    {
        match self {
            SnowflakeError::ClockRegression => "the clock moved backwards".to_owned(),
            SnowflakeError::SequenceExhausted =>
                "all identifiers of this millisecond are taken".to_owned(),
            SnowflakeError::TimestampOverflow =>
                "the time since the epoch does not fit an identifier".to_owned(),
        }
    }
}

/// The value of the identifier with the given fields.
pub open spec fn compose(timestamp: int, worker_id: int, datacenter_id: int, sequence: int) -> int {
    timestamp * 0x40_0000 + worker_id * 0x2_0000 + datacenter_id * 0x1000 + sequence
}

/// The milliseconds since the epoch that an identifier carries.
pub open spec fn timestamp_of(id: int) -> int {
    id / 0x40_0000
}

/// The worker id that an identifier carries.
pub open spec fn worker_id_of(id: int) -> int {
    id / 0x2_0000 % 32
}

/// The datacenter id that an identifier carries.
pub open spec fn datacenter_id_of(id: int) -> int {
    id / 0x1000 % 32
}

/// The sequence number that an identifier carries.
pub open spec fn sequence_of(id: int) -> int {
    id % 0x1000
}

/// What is fixed when a generator is made.
pub struct SnowflakeSettings {
    /// The epoch, in milliseconds of Unix time.
    pub epoch: int,
    pub worker_id: int,
    pub datacenter_id: int,
}

impl SnowflakeSettings {
    /// A generator of these settings that has come as far as the given
    /// timestamp and sequence number.
    pub open spec fn at(self, last_timestamp: int, sequence: int) -> SnowflakeView {
        SnowflakeView {
            epoch: self.epoch,
            worker_id: self.worker_id,
            datacenter_id: self.datacenter_id,
            last_timestamp,
            sequence,
        }
    }
}

/// A generator as contracts see it.
pub struct SnowflakeView {
    /// The epoch, in milliseconds of Unix time.
    pub epoch: int,
    pub worker_id: int,
    pub datacenter_id: int,
    /// Milliseconds since the epoch at the last identifier issued.
    pub last_timestamp: int,
    /// Sequence number of the last identifier issued.
    pub sequence: int,
}

impl SnowflakeView {
    /// Every field fits the bits that an identifier gives it.
    pub open spec fn wf(self) -> bool {
        &&& i64::MIN <= self.epoch <= i64::MAX
        &&& 0 <= self.worker_id < WORKER_LIMIT
        &&& 0 <= self.datacenter_id < DATACENTER_LIMIT
        &&& 0 <= self.last_timestamp < TIMESTAMP_LIMIT
        &&& 0 <= self.sequence < SEQUENCE_LIMIT
    }

    /// What was fixed when the generator was made.
    pub open spec fn settings(self) -> SnowflakeSettings {
        SnowflakeSettings {
            epoch: self.epoch,
            worker_id: self.worker_id,
            datacenter_id: self.datacenter_id,
        }
    }

    /// The last identifier issued. A new generator counts as having issued
    /// the identifier of sequence 0 at its epoch.
    pub open spec fn last_id(self) -> int {
        compose(self.last_timestamp, self.worker_id, self.datacenter_id, self.sequence)
    }

    /// Milliseconds since the epoch when the clock reads `clock`.
    pub open spec fn elapsed(self, clock: int) -> int {
        clock - self.epoch
    }

    /// What a request made when the clock reads `clock` is answered with.
    pub open spec fn outcome(self, clock: int) -> Result<int, SnowflakeError> {
        let now = self.elapsed(clock);
        if now < self.last_timestamp {
            Err(SnowflakeError::ClockRegression)
        } else if now >= TIMESTAMP_LIMIT {
            Err(SnowflakeError::TimestampOverflow)
        } else if now > self.last_timestamp {
            Ok(compose(now, self.worker_id, self.datacenter_id, 0))
        } else if self.sequence + 1 < SEQUENCE_LIMIT {
            Ok(compose(now, self.worker_id, self.datacenter_id, self.sequence + 1))
        } else {
            Err(SnowflakeError::SequenceExhausted)
        }
    }

    /// The generator after a request made when the clock reads `clock`.
    pub open spec fn after(self, clock: int) -> SnowflakeView {
        let now = self.elapsed(clock);
        if self.outcome(clock) is Err {
            self
        } else if now > self.last_timestamp {
            SnowflakeView { last_timestamp: now, sequence: 0, ..self }
        } else {
            SnowflakeView { sequence: self.sequence + 1, ..self }
        }
    }

    /// True when `readings` are the clock readings of one request to this
    /// generator: there is at least one, every reading but the last found
    /// the millisecond used up, and the request stood by a reading that
    /// found it so only when it had made as many readings as it may.
    pub open spec fn waits_through(self, readings: Seq<i64>) -> bool {
        &&& 1 <= readings.len() <= CLOCK_READS_LIMIT
        &&& forall|i: int|
            0 <= i < readings.len() - 1 ==> self.outcome(#[trigger] readings[i] as int) == Err::<
                int,
                SnowflakeError,
            >(SnowflakeError::SequenceExhausted)
        &&& self.outcome(readings.last() as int) == Err::<int, SnowflakeError>(
            SnowflakeError::SequenceExhausted,
        ) ==> readings.len() == CLOCK_READS_LIMIT
    }

    /// The generator after one request at each reading of `clocks`, in order.
    pub open spec fn after_all(self, clocks: Seq<int>) -> SnowflakeView
        decreases clocks.len(),
    {
        if clocks.len() == 0 {
            self
        } else {
            self.after_all(clocks.drop_last()).after(clocks.last())
        }
    }

    /// The answer to request number `k`, counted from 0, of those made at the
    /// readings of `clocks`.
    pub open spec fn outcome_at(self, clocks: Seq<int>, k: int) -> Result<int, SnowflakeError>
        recommends
            0 <= k < clocks.len(),
    {
        self.after_all(clocks.take(k)).outcome(clocks[k])
    }
}

/// True when `res` is the executable form of `model`.
pub open spec fn answers(
    res: Result<u64, SnowflakeError>,
    model: Result<int, SnowflakeError>,
) -> bool {
    match res {
        Ok(id) => model == Ok::<int, SnowflakeError>(id as int),
        Err(e) => model == Err::<int, SnowflakeError>(e),
    }
}

/// True when `res` holds the bytes of the identifier in `model`, or its
/// error.
pub open spec fn answers_in_bytes(
    res: Result<[u8; 8], SnowflakeError>,
    model: Result<int, SnowflakeError>,
) -> bool {
    match res {
        Ok(bytes) => model is Ok && 0 <= model->Ok_0 <= u64::MAX && bytes@ == le_bytes(
            model->Ok_0 as u64,
        ),
        Err(e) => model == Err::<int, SnowflakeError>(e),
    }
}

/// How far a generator has come: the time of the last identifier that it
/// issued, in milliseconds since its epoch, and the sequence number of that
/// identifier. Both fit the bits that an identifier gives them.
#[derive(Clone, Copy, Debug)]
pub struct Progress {
    last_timestamp: u64,
    sequence: u64,
}

impl Progress {
    #[verifier::type_invariant]
    spec fn inv(self) -> bool {
        self.last_timestamp < TIMESTAMP_LIMIT && self.sequence < SEQUENCE_LIMIT
    }

    /// Milliseconds since the epoch at the last identifier issued.
    pub closed spec fn spec_last_timestamp(&self) -> u64 {
        self.last_timestamp
    }

    /// Sequence number of the last identifier issued.
    pub closed spec fn spec_sequence(&self) -> u64 {
        self.sequence
    }

    /// Milliseconds since the epoch at the last identifier issued.
    #[verifier::when_used_as_spec(spec_last_timestamp)]
    pub fn last_timestamp(&self) -> (last_timestamp: u64)
        ensures
            last_timestamp == self.spec_last_timestamp(),
            last_timestamp < TIMESTAMP_LIMIT,
    {
        proof {
            use_type_invariant(self);
        }
        self.last_timestamp
    }

    /// Sequence number of the last identifier issued.
    #[verifier::when_used_as_spec(spec_sequence)]
    pub fn sequence(&self) -> (sequence: u64)
        ensures
            sequence == self.spec_sequence(),
            sequence < SEQUENCE_LIMIT,
    {
        proof {
            use_type_invariant(self);
        }
        self.sequence
    }
}

/// A generator of identifiers for one worker of one datacenter.
///
/// Every method that issues an identifier takes the generator by `&mut`, so a
/// request has the state to itself from the clock reading to the answer. A
/// generator for several threads is [`crate::shared::SharedSnowflake`].
pub struct Snowflake {
    epoch: i64,
    worker_id: u64,
    datacenter_id: u64,
    progress: Progress,
}

impl View for Snowflake {
    type V = SnowflakeView;

    closed spec fn view(&self) -> SnowflakeView {
        SnowflakeView {
            epoch: self.epoch as int,
            worker_id: self.worker_id as int,
            datacenter_id: self.datacenter_id as int,
            last_timestamp: self.progress.spec_last_timestamp() as int,
            sequence: self.progress.spec_sequence() as int,
        }
    }
}

impl Snowflake {
    #[verifier::type_invariant]
    spec fn inv(self) -> bool {
        self.worker_id < WORKER_LIMIT && self.datacenter_id < DATACENTER_LIMIT
    }

    /// A generator that has issued nothing yet.
    pub fn new(epoch: i64, worker_id: i64, datacenter_id: i64) -> (g: Snowflake)
        requires
            0 <= worker_id < WORKER_LIMIT,
            0 <= datacenter_id < DATACENTER_LIMIT,
        ensures
            g@ == (SnowflakeView {
                epoch: epoch as int,
                worker_id: worker_id as int,
                datacenter_id: datacenter_id as int,
                last_timestamp: 0,
                sequence: 0,
            }),
            g@.wf(),
    {
        Snowflake {
            epoch,
            worker_id: worker_id as u64,
            datacenter_id: datacenter_id as u64,
            progress: Progress { last_timestamp: 0, sequence: 0 },
        }
    }

    /// A generator that goes on from where another one of the same epoch,
    /// worker and datacenter had come.
    pub fn resume(
        epoch: i64,
        worker_id: i64,
        datacenter_id: i64,
        progress: Progress,
    ) -> (g: Snowflake)
        requires
            0 <= worker_id < WORKER_LIMIT,
            0 <= datacenter_id < DATACENTER_LIMIT,
        ensures
            g@ == resumed(epoch, worker_id, datacenter_id, progress),
            g@.wf(),
    {
        proof {
            use_type_invariant(&progress);
        }
        Snowflake {
            epoch,
            worker_id: worker_id as u64,
            datacenter_id: datacenter_id as u64,
            progress,
        }
    }

    /// The epoch, in milliseconds of Unix time.
    pub fn epoch(&self) -> (epoch: i64)
        ensures
            epoch == self@.epoch,
    {
        self.epoch
    }

    /// The worker id that every identifier of this generator carries.
    pub fn worker_id(&self) -> (worker_id: i64)
        ensures
            worker_id == self@.worker_id,
            0 <= worker_id < WORKER_LIMIT,
    {
        proof {
            use_type_invariant(self);
        }
        self.worker_id as i64
    }

    /// The datacenter id that every identifier of this generator carries.
    pub fn datacenter_id(&self) -> (datacenter_id: i64)
        ensures
            datacenter_id == self@.datacenter_id,
            0 <= datacenter_id < DATACENTER_LIMIT,
    {
        proof {
            use_type_invariant(self);
        }
        self.datacenter_id as i64
    }

    /// How far the generator has come.
    pub fn progress(&self) -> (progress: Progress)
        ensures
            progress.last_timestamp() == self@.last_timestamp,
            progress.sequence() == self@.sequence,
    {
        self.progress
    }

    /// Milliseconds since the epoch at the last identifier issued.
    pub fn last_timestamp(&self) -> (last_timestamp: u64)
        ensures
            last_timestamp == self@.last_timestamp,
            last_timestamp < TIMESTAMP_LIMIT,
    {
        self.progress.last_timestamp()
    }

    /// Sequence number of the last identifier issued.
    pub fn sequence(&self) -> (sequence: u64)
        ensures
            sequence == self@.sequence,
            sequence < SEQUENCE_LIMIT,
    {
        self.progress.sequence()
    }

    /// Answers one request with the clock reading `clock`, in milliseconds of
    /// Unix time, and never waits: when the millisecond is used up the
    /// request is refused and can be made again with a later reading.
    pub fn generate_at(&mut self, clock: i64) -> (res: Result<u64, SnowflakeError>)
        ensures
            old(self)@.wf(),
            final(self)@.wf(),
            answers(res, old(self)@.outcome(clock as int)),
            final(self)@ == old(self)@.after(clock as int),
    {
        proof {
            use_type_invariant(&*self);
            use_type_invariant(&self.progress);
        }
        let last_timestamp: u64 = self.progress.last_timestamp;
        let now: i128 = clock as i128 - self.epoch as i128;
        if now < last_timestamp as i128 {
            return Err(SnowflakeError::ClockRegression);
        }
        if now >= TIMESTAMP_LIMIT as i128 {
            return Err(SnowflakeError::TimestampOverflow);
        }
        let timestamp: u64 = now as u64;
        let sequence: u64 = if timestamp > last_timestamp {
            0
        } else if self.progress.sequence + 1 < SEQUENCE_LIMIT {
            self.progress.sequence + 1
        } else {
            return Err(SnowflakeError::SequenceExhausted);
        };
        let worker_id: u64 = self.worker_id;
        let datacenter_id: u64 = self.datacenter_id;
        let id: u64 = (timestamp << 22) | (worker_id << 17) | (datacenter_id << 12) | sequence;
        assert(id == timestamp * 0x40_0000 + worker_id * 0x2_0000 + datacenter_id * 0x1000
            + sequence) by (bit_vector)
            requires
                id == (timestamp << 22) | (worker_id << 17) | (datacenter_id << 12) | sequence,
                timestamp < 0x400_0000_0000,
                worker_id < 32,
                datacenter_id < 32,
                sequence < 4096,
        ;
        self.progress = Progress { last_timestamp: timestamp, sequence };
        Ok(id)
    }

    /// Issues an identifier by the readings of `clock`. When the current
    /// millisecond is used up, reads the clock again and again until it moves
    /// on; a clock that runs backwards ends the wait with an error. The
    /// record of `clock` grows by the readings of this request, and the
    /// answer is that of the last of them.
    pub fn generate_with<C: Clock>(&mut self, clock: &mut Recorded<C>) -> (res: Result<
        u64,
        SnowflakeError,
    >)
        ensures
            old(self)@.wf(),
            final(self)@.wf(),
            old(clock).readings().is_prefix_of(final(clock).readings()),
            old(self)@.waits_through(
                readings_since(old(clock).readings(), final(clock).readings()),
            ),
            answers(
                res,
                old(self)@.outcome(
                    readings_since(old(clock).readings(), final(clock).readings()).last() as int,
                ),
            ),
            final(self)@ == old(self)@.after(
                readings_since(old(clock).readings(), final(clock).readings()).last() as int,
            ),
            res matches Ok(id) ==> old(self)@.last_id() < id && final(self)@.last_id() == id,
            res is Err ==> final(self)@ == old(self)@,
    {
        let ghost before = clock.readings();
        let mut reading: i64 = clock.now_millis();
        let mut res = self.generate_at(reading);
        let mut reads: u64 = 1;
        while reads < CLOCK_READS_LIMIT && is_exhausted(&res)
            invariant
                old(self)@.wf(),
                before == old(clock).readings(),
                before.is_prefix_of(clock.readings()),
                readings_since(before, clock.readings()).len() == reads,
                readings_since(before, clock.readings()).last() == reading,
                1 <= reads <= CLOCK_READS_LIMIT,
                forall|i: int|
                    0 <= i < reads - 1 ==> old(self)@.outcome(
                        #[trigger] readings_since(before, clock.readings())[i] as int,
                    ) == Err::<int, SnowflakeError>(SnowflakeError::SequenceExhausted),
                answers(res, old(self)@.outcome(reading as int)),
                self@ == old(self)@.after(reading as int),
            decreases CLOCK_READS_LIMIT - reads,
        {
            let ghost so_far = readings_since(before, clock.readings());
            reading = clock.now_millis();
            res = self.generate_at(reading);
            reads = reads + 1;
            assert(readings_since(before, clock.readings()) =~= so_far.push(reading));
        }
        proof {
            lemma_request_in_order(old(self)@, reading as int);
        }
        res
    }

    /// Issues an identifier by the clock of the machine, waiting as
    /// [`Snowflake::generate_with`] does.
    pub fn generate(&mut self) -> (res: Result<u64, SnowflakeError>)
        ensures
            old(self)@.wf(),
            final(self)@.wf(),
            exists|readings: Seq<i64>|
                #[trigger] old(self)@.waits_through(readings) && answers(
                    res,
                    old(self)@.outcome(readings.last() as int),
                ) && final(self)@ == old(self)@.after(readings.last() as int),
            res matches Ok(id) ==> old(self)@.last_id() < id && final(self)@.last_id() == id,
            res is Err ==> final(self)@ == old(self)@,
    {
        let mut clock = Recorded::new(SystemClock);
        let res = self.generate_with(&mut clock);
        assert(old(self)@.waits_through(readings_since(Seq::<i64>::empty(), clock.readings())));
        res
    }

    /// Issues an identifier by the clock of the machine, as the eight bytes
    /// that it takes in a frame.
    pub fn generate_u8_u64(&mut self) -> (res: Result<[u8; 8], SnowflakeError>)
        ensures
            old(self)@.wf(),
            final(self)@.wf(),
            exists|readings: Seq<i64>|
                #[trigger] old(self)@.waits_through(readings) && answers_in_bytes(
                    res,
                    old(self)@.outcome(readings.last() as int),
                ) && final(self)@ == old(self)@.after(readings.last() as int),
            res matches Ok(bytes) ==> old(self)@.last_id() < le_value(bytes@)
                && final(self)@.last_id() == le_value(bytes@),
            res is Err ==> final(self)@ == old(self)@,
    {
        match self.generate() {
            Ok(id) => {
                proof {
                    lemma_value_of_bytes(id);
                }
                Ok(id_to_bytes(id))
            },
            Err(e) => Err(e),
        }
    }
}

/// Issues an identifier for the generator of the given epoch, worker and
/// datacenter whose progress lies in `slot`, by the readings of `clock`, and
/// stores in `slot` how far the generator has come by it.
pub fn generate_on<C: Clock>(
    epoch: i64,
    worker_id: i64,
    datacenter_id: i64,
    slot: &mut Progress,
    clock: &mut Recorded<C>,
) -> (res: Result<u64, SnowflakeError>)
    requires
        0 <= worker_id < WORKER_LIMIT,
        0 <= datacenter_id < DATACENTER_LIMIT,
    ensures
        resumed(epoch, worker_id, datacenter_id, *old(slot)).wf(),
        old(clock).readings().is_prefix_of(final(clock).readings()),
        resumed(epoch, worker_id, datacenter_id, *old(slot)).waits_through(
            readings_since(old(clock).readings(), final(clock).readings()),
        ),
        answers(
            res,
            resumed(epoch, worker_id, datacenter_id, *old(slot)).outcome(
                readings_since(old(clock).readings(), final(clock).readings()).last() as int,
            ),
        ),
        resumed(epoch, worker_id, datacenter_id, *final(slot)) == resumed(
            epoch,
            worker_id,
            datacenter_id,
            *old(slot),
        ).after(readings_since(old(clock).readings(), final(clock).readings()).last() as int),
{
    let mut generator = Snowflake::resume(epoch, worker_id, datacenter_id, *slot);
    let res = generator.generate_with(clock);
    *slot = generator.progress();
    res
}

/// The generator of the given epoch, worker and datacenter that has come as
/// far as `progress`.
pub open spec fn resumed(
    epoch: i64,
    worker_id: i64,
    datacenter_id: i64,
    progress: Progress,
) -> SnowflakeView {
    SnowflakeView {
        epoch: epoch as int,
        worker_id: worker_id as int,
        datacenter_id: datacenter_id as int,
        last_timestamp: progress.last_timestamp() as int,
        sequence: progress.sequence() as int,
    }
}

/// The readings that a clock made between two states of its record.
pub open spec fn readings_since(before: Seq<i64>, after: Seq<i64>) -> Seq<i64> {
    after.skip(before.len() as int)
}

impl Default for Snowflake {
    /// The generator of worker 1 in datacenter 1, with the epoch
    /// 1 573 948 800 milliseconds after the start of Unix time.
    fn default() -> (g: Snowflake)
        ensures
            g@ == (SnowflakeView {
                epoch: DEFAULT_EPOCH as int,
                worker_id: 1,
                datacenter_id: 1,
                last_timestamp: 0,
                sequence: 0,
            }),
    {
        Snowflake::new(DEFAULT_EPOCH, 1, 1)
    }
}

fn is_exhausted(res: &Result<u64, SnowflakeError>) -> (b: bool)
    ensures
        b == (*res == Err::<u64, SnowflakeError>(SnowflakeError::SequenceExhausted)),
{
    match res {
        Err(SnowflakeError::SequenceExhausted) => true,
        _ => false,
    }
}

/// An identifier that is issued is above the last one issued and becomes the
/// last one issued; a refused request changes nothing. Either way the
/// generator stays well formed.
pub proof fn lemma_request_in_order(g: SnowflakeView, clock: int)
    requires
        g.wf(),
    ensures
        g.after(clock).wf(),
        g.outcome(clock) matches Ok(id) ==> g.last_id() < id && g.after(clock).last_id() == id
            && 0 <= id <= u64::MAX,
        g.outcome(clock) is Err ==> g.after(clock) == g,
{
}

/// An identifier gives back the fields that it was made of, so two
/// identifiers are equal only if they agree in every field: generators that
/// differ in worker or datacenter never issue the same identifier.
pub proof fn lemma_fields_of_compose(
    timestamp: int,
    worker_id: int,
    datacenter_id: int,
    sequence: int,
)
    requires
        0 <= timestamp < TIMESTAMP_LIMIT,
        0 <= worker_id < WORKER_LIMIT,
        0 <= datacenter_id < DATACENTER_LIMIT,
        0 <= sequence < SEQUENCE_LIMIT,
    ensures
        0 <= compose(timestamp, worker_id, datacenter_id, sequence) <= u64::MAX,
        timestamp_of(compose(timestamp, worker_id, datacenter_id, sequence)) == timestamp,
        worker_id_of(compose(timestamp, worker_id, datacenter_id, sequence)) == worker_id,
        datacenter_id_of(compose(timestamp, worker_id, datacenter_id, sequence)) == datacenter_id,
        sequence_of(compose(timestamp, worker_id, datacenter_id, sequence)) == sequence,
{
    let id = compose(timestamp, worker_id, datacenter_id, sequence);
    let above_sequence = (timestamp * 32 + worker_id) * 32 + datacenter_id;
    let above_datacenter = timestamp * 32 + worker_id;
    lemma_fundamental_div_mod_converse(id, 0x1000, above_sequence, sequence);
    lemma_fundamental_div_mod_converse(above_sequence, 32, above_datacenter, datacenter_id);
    lemma_fundamental_div_mod_converse(
        id,
        0x2_0000,
        above_datacenter,
        datacenter_id * 0x1000 + sequence,
    );
    lemma_fundamental_div_mod_converse(above_datacenter, 32, timestamp, worker_id);
    lemma_fundamental_div_mod_converse(
        id,
        0x40_0000,
        timestamp,
        worker_id * 0x2_0000 + datacenter_id * 0x1000 + sequence,
    );
}

/// An identifier carries the worker and the datacenter of its generator, the
/// time of the request and the sequence number that the generator has come
/// to.
pub proof fn lemma_fields_of_issued(g: SnowflakeView, clock: int)
    requires
        g.wf(),
        g.outcome(clock) is Ok,
    ensures
        timestamp_of(g.outcome(clock)->Ok_0) == g.elapsed(clock),
        worker_id_of(g.outcome(clock)->Ok_0) == g.worker_id,
        datacenter_id_of(g.outcome(clock)->Ok_0) == g.datacenter_id,
        sequence_of(g.outcome(clock)->Ok_0) == g.after(clock).sequence,
        g.after(clock).last_timestamp == g.elapsed(clock),
{
    lemma_fields_of_compose(
        g.elapsed(clock),
        g.worker_id,
        g.datacenter_id,
        g.after(clock).sequence,
    );
}

/// A request made when the clock reads earlier than it did for the last
/// identifier is refused as a clock regression, and the generator is as it
/// was before.
pub proof fn lemma_clock_regression_refused(g: SnowflakeView, clock: int)
    requires
        g.elapsed(clock) < g.last_timestamp,
    ensures
        g.outcome(clock) == Err::<int, SnowflakeError>(SnowflakeError::ClockRegression),
        g.after(clock) == g,
{
}

/// A well-formed generator stays well formed, whatever the clock reads.
proof fn lemma_trace_wf(g: SnowflakeView, clocks: Seq<int>, k: int)
    requires
        g.wf(),
        0 <= k <= clocks.len(),
    ensures
        g.after_all(clocks.take(k)).wf(),
    decreases k,
{
    if k > 0 {
        lemma_trace_wf(g, clocks, k - 1);
        assert(clocks.take(k).drop_last() == clocks.take(k - 1));
        lemma_request_in_order(g.after_all(clocks.take(k - 1)), clocks[k - 1]);
    }
}

/// Requests never lower the last identifier issued: after `k` requests it is
/// at least what it was after `j <= k` of them.
proof fn lemma_last_id_grows(g: SnowflakeView, clocks: Seq<int>, j: int, k: int)
    requires
        g.wf(),
        0 <= j <= k <= clocks.len(),
    ensures
        g.after_all(clocks.take(j)).wf(),
        g.after_all(clocks.take(k)).wf(),
        g.after_all(clocks.take(j)).last_id() <= g.after_all(clocks.take(k)).last_id(),
    decreases k - j,
{
    lemma_trace_wf(g, clocks, j);
    if j < k {
        lemma_last_id_grows(g, clocks, j, k - 1);
        assert(clocks.take(k).drop_last() == clocks.take(k - 1));
        lemma_request_in_order(g.after_all(clocks.take(k - 1)), clocks[k - 1]);
    }
}

/// Of the identifiers that one generator issues, a later one is greater than
/// an earlier one, whatever the clock read at the requests between them.
pub proof fn lemma_ids_strictly_increase(g: SnowflakeView, clocks: Seq<int>, i: int, j: int)
    requires
        g.wf(),
        0 <= i < j < clocks.len(),
        g.outcome_at(clocks, i) is Ok,
        g.outcome_at(clocks, j) is Ok,
    ensures
        g.outcome_at(clocks, i)->Ok_0 < g.outcome_at(clocks, j)->Ok_0,
{
    lemma_last_id_grows(g, clocks, i, i);
    lemma_request_in_order(g.after_all(clocks.take(i)), clocks[i]);
    assert(clocks.take(i + 1).drop_last() == clocks.take(i));
    lemma_last_id_grows(g, clocks, i + 1, j);
    lemma_request_in_order(g.after_all(clocks.take(j)), clocks[j]);
}

/// One generator never issues the same identifier twice.
pub proof fn lemma_ids_distinct(g: SnowflakeView, clocks: Seq<int>, i: int, j: int)
    requires
        g.wf(),
        0 <= i < clocks.len(),
        0 <= j < clocks.len(),
        i != j,
        g.outcome_at(clocks, i) is Ok,
        g.outcome_at(clocks, j) is Ok,
    ensures
        g.outcome_at(clocks, i)->Ok_0 != g.outcome_at(clocks, j)->Ok_0,
{
    if i < j {
        lemma_ids_strictly_increase(g, clocks, i, j);
    } else {
        lemma_ids_strictly_increase(g, clocks, j, i);
    }
}

/// After the last identifier of a millisecond, the next one that is issued
/// belongs to a later millisecond and starts its sequence at 0; while the
/// clock stays in the millisecond, requests are refused.
pub proof fn lemma_full_millisecond_waits(g: SnowflakeView, clock: int)
    requires
        g.wf(),
        g.sequence == SEQUENCE_LIMIT - 1,
    ensures
        g.elapsed(clock) == g.last_timestamp ==> g.outcome(clock) == Err::<int, SnowflakeError>(
            SnowflakeError::SequenceExhausted,
        ),
        g.outcome(clock) is Ok ==> g.elapsed(clock) > g.last_timestamp && g.outcome(clock)
            == Ok::<int, SnowflakeError>(
            compose(g.elapsed(clock), g.worker_id, g.datacenter_id, 0),
        ) && g.after(clock).sequence == 0,
{
}

/// Requests that all fall in one millisecond, later than the generator has
/// seen: the first 4096 are issued, with the sequence numbers 0 to 4095 in
/// order, and every further one is refused.
pub proof fn lemma_millisecond_holds_4096(g: SnowflakeView, clock: int, clocks: Seq<int>, k: int)
    requires
        g.wf(),
        g.last_timestamp < g.elapsed(clock) < TIMESTAMP_LIMIT,
        forall|i: int| 0 <= i < clocks.len() ==> clocks[i] == clock,
        0 <= k < clocks.len(),
    ensures
        k < SEQUENCE_LIMIT ==> g.outcome_at(clocks, k) == Ok::<int, SnowflakeError>(
            compose(g.elapsed(clock), g.worker_id, g.datacenter_id, k),
        ),
        k >= SEQUENCE_LIMIT ==> g.outcome_at(clocks, k) == Err::<int, SnowflakeError>(
            SnowflakeError::SequenceExhausted,
        ),
{
    lemma_state_within_millisecond(g, clock, clocks, k);
}

/// The generator after `k` requests that all fall in one new millisecond.
proof fn lemma_state_within_millisecond(g: SnowflakeView, clock: int, clocks: Seq<int>, k: int)
    requires
        g.wf(),
        g.last_timestamp < g.elapsed(clock) < TIMESTAMP_LIMIT,
        forall|i: int| 0 <= i < clocks.len() ==> clocks[i] == clock,
        0 <= k <= clocks.len(),
    ensures
        k == 0 ==> g.after_all(clocks.take(k)) == g,
        k > 0 ==> g.after_all(clocks.take(k)) == (SnowflakeView {
            last_timestamp: g.elapsed(clock),
            sequence: if k < SEQUENCE_LIMIT {
                k - 1
            } else {
                SEQUENCE_LIMIT - 1
            },
            ..g
        }),
    decreases k,
{
    if k > 0 {
        lemma_state_within_millisecond(g, clock, clocks, k - 1);
        assert(clocks.take(k).drop_last() == clocks.take(k - 1));
    }
}

} // verus!
