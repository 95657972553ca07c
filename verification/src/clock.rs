//! Time: the wall clock and the stamps taken from it.

use vstd::prelude::*;

verus! {

#[verifier::external_type_specification]
#[verifier::external_body]
pub struct ExSystemTime(std::time::SystemTime);

#[verifier::external_type_specification]
#[verifier::external_body]
pub struct ExSystemTimeError(std::time::SystemTimeError);

/// `std::time::SystemTime::now` reads the system clock. Nothing is claimed of
/// the time that it gives.
#[verifier::external_body]
fn system_time() -> std::time::SystemTime {
    std::time::SystemTime::now()
}

/// `std::time::SystemTime::duration_since` gives the time from the Unix epoch
/// to `time`, and fails where `time` lies before it. Nothing is claimed of a
/// value that only the clock determines.
#[verifier::external_body]
fn since_epoch(time: std::time::SystemTime) -> Result<
    std::time::Duration,
    std::time::SystemTimeError,
> {
    time.duration_since(std::time::UNIX_EPOCH)
}

/// `std::time::Duration::as_nanos` gives the whole duration in nanoseconds:
/// seconds that fit in 64 bits, and less than a second more.
#[verifier::external_body]
fn as_nanos(duration: &std::time::Duration) -> (nanos: u128)
    ensures
        nanos < 0x1_0000_0000_0000_0000 * 1_000_000_000,
{
    duration.as_nanos()
}

/// The timestamp for a clock that reads `elapsed` nanoseconds after the Unix
/// epoch, or, with `None`, a time before it: zero then.
pub fn timestamp(elapsed: Option<u128>) -> (stamp: u128)
    ensures
        stamp == (match elapsed {
            Some(nanos) => nanos,
            None => 0,
        }),
{
    match elapsed {
        Some(nanos) => nanos,
        None => 0,
    }
}

/// Whether the system clock comes to this stamp: a time that it reads, as the
/// nanoseconds from the Unix epoch to that time, or zero where the time lies
/// before the epoch.
pub closed spec fn clock_gives(stamp: u128) -> bool {
    exists|
        time: std::time::SystemTime,
        since: Result<std::time::Duration, std::time::SystemTimeError>,
    |
        #[trigger] call_ensures(system_time, (), time) && #[trigger] call_ensures(
            since_epoch,
            (time,),
            since,
        ) && match since {
            Ok(duration) => call_ensures(as_nanos, (&duration,), stamp),
            Err(_) => stamp == 0,
        }
}

/// A stamp that the system clock gives is no other than the nanoseconds from the
/// epoch to a time that was read, or zero for a time before it.
proof fn law_clock_gives(stamp: u128)
    requires
        clock_gives(stamp),
    ensures
        exists|
            time: std::time::SystemTime,
            since: Result<std::time::Duration, std::time::SystemTimeError>,
        |
            #[trigger] call_ensures(system_time, (), time) && #[trigger] call_ensures(
                since_epoch,
                (time,),
                since,
            ) && (since matches Ok(duration) ==> call_ensures(as_nanos, (&duration,), stamp)) && (
            since is Err ==> stamp == 0),
{
    let (time, since) = choose|
        time: std::time::SystemTime,
        since: Result<std::time::Duration, std::time::SystemTimeError>,
    |
        #[trigger] call_ensures(system_time, (), time) && #[trigger] call_ensures(
            since_epoch,
            (time,),
            since,
        ) && match since {
            Ok(duration) => call_ensures(as_nanos, (&duration,), stamp),
            Err(_) => stamp == 0,
        };
    assert(call_ensures(system_time, (), time) && call_ensures(since_epoch, (time,), since));
}

/// Wall-clock timestamp in nanoseconds since the Unix epoch.
pub fn now_ns() -> (stamp: u128)
    ensures
        clock_gives(stamp),
        stamp < 0x1_0000_0000_0000_0000 * 1_000_000_000,
{
    let elapsed: Option<u128> = match since_epoch(system_time()) {
        Ok(duration) => Some(as_nanos(&duration)),
        Err(_) => None,
    };
    timestamp(elapsed)
}

/// A source of timestamps.
pub trait Clock {
    /// The readings taken so far, in order.
    spec fn readings(&self) -> Seq<u128>;

    /// Whether a reading may come after others: what the clock promises of
    /// every reading, given those before it.
    spec fn rule(&self) -> spec_fn(Seq<u128>, u128) -> bool;

    /// Takes a reading.
    fn read(&mut self) -> (stamp: u128)
        ensures
            old(self).rule()(old(self).readings(), stamp),
            final(self).rule() == old(self).rule(),
            final(self).readings() == old(self).readings().push(stamp),
    ;
}

/// What the wall clock promises: each reading is one that the system clock
/// gives.
pub open spec fn wall_rule() -> spec_fn(Seq<u128>, u128) -> bool {
    |earlier: Seq<u128>, stamp: u128| clock_gives(stamp)
}

/// The wall clock.
pub struct SystemClock {
    taken: Ghost<Seq<u128>>,
}

impl SystemClock {
    pub fn new() -> (clock: Self)
        ensures
            clock.readings() == Seq::<u128>::empty(),
            clock.rule() == wall_rule(),
    {
        SystemClock { taken: Ghost(Seq::empty()) }
    }
}

impl Clock for SystemClock {
    closed spec fn readings(&self) -> Seq<u128> {
        self.taken@
    }

    open spec fn rule(&self) -> spec_fn(Seq<u128>, u128) -> bool {
        wall_rule()
    }

    fn read(&mut self) -> (stamp: u128) {
        let stamp: u128 = now_ns();
        proof {
            self.taken@ = self.taken@.push(stamp);
        }
        stamp
    }
}

/// The number `n` after `from`, as far as 128 bits hold it.
pub open spec fn counted(from: u128, n: nat) -> u128 {
    if from + n <= u128::MAX {
        (from + n) as u128
    } else {
        u128::MAX
    }
}

/// What a clock that counts from `from` promises: its first reading is one
/// more, the second two more, and so on.
pub open spec fn counting_rule(from: u128) -> spec_fn(Seq<u128>, u128) -> bool {
    |earlier: Seq<u128>, stamp: u128| stamp == counted(from, earlier.len() + 1)
}

/// A clock that counts: each reading is one more than the one before, as far
/// as 128 bits hold it. It makes timestamps deterministic.
pub struct CountingClock {
    last: u128,
    from: Ghost<u128>,
    taken: Ghost<Seq<u128>>,
}

impl CountingClock {
    #[verifier::type_invariant]
    spec fn counts(self) -> bool {
        self.last == counted(self.from@, self.taken@.len())
    }

    /// A clock that goes on from `last`.
    pub fn new(last: u128) -> (clock: Self)
        ensures
            clock.readings() == Seq::<u128>::empty(),
            clock.rule() == counting_rule(last),
    {
        CountingClock { last, from: Ghost(last), taken: Ghost(Seq::empty()) }
    }
}

impl Clock for CountingClock {
    closed spec fn readings(&self) -> Seq<u128> {
        self.taken@
    }

    closed spec fn rule(&self) -> spec_fn(Seq<u128>, u128) -> bool {
        counting_rule(self.from@)
    }

    fn read(&mut self) -> (stamp: u128) {
        proof {
            use_type_invariant(&*self);
        }
        let stamp: u128 = if self.last < u128::MAX {
            self.last + 1
        } else {
            self.last
        };
        *self = CountingClock {
            last: stamp,
            from: self.from,
            taken: Ghost(self.taken@.push(stamp)),
        };
        stamp
    }
}

} // verus!
