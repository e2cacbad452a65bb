//! Token buckets: what is asked of them, and what an answer does to them.
//!
//! The levels are fractional, so a bucket holds them by their bit patterns.
//! Whoever does the arithmetic is handed a [`Draw`] and hands back a
//! [`Level`]; what follows from the level is decided here.

use crate::number::{Number, INFINITY_BITS, ONE_BITS};
use vstd::prelude::*;

verus! {

/// A token bucket: its level at a time on the clock that never goes back.
#[derive(Clone, Copy, PartialEq, Eq, Structural, Debug)]
pub struct Bucket {
    pub tokens: Number,
    pub last: u64,
}

/// How fast a bucket fills.
#[derive(Clone, Copy, PartialEq, Eq, Structural, Debug)]
pub enum Rate {
    /// So many tokens an hour.
    PerHour(Number),
    /// So many tokens a second.
    PerSecond(Number),
    /// One token each time so many seconds have passed.
    Every(Number),
    /// One token each time `interval` seconds have passed, or an equal share
    /// of `budget` tokens a second among `sharers`, whichever is slower.
    Shared { interval: Number, budget: Number, sharers: u64 },
}

/// An attempt to take one token: the bucket as it stands, how fast it fills,
/// the most that it holds, and the time of the attempt.
#[derive(Clone, Copy, PartialEq, Eq, Structural, Debug)]
pub struct Draw {
    pub bucket: Bucket,
    pub rate: Rate,
    pub burst: Number,
    pub at: u64,
}

/// Where a bucket stands when a token is asked of it.
#[derive(Clone, Copy, PartialEq, Eq, Structural, Debug)]
pub struct Level {
    /// The tokens in the bucket after it has filled up to the time.
    pub tokens: Number,
    /// One token less than that.
    pub spent: Number,
    /// The whole seconds until the bucket holds a token, rounded up.
    pub delay: u64,
}

impl Level {
    /// Whether there is a token to take.
    pub open spec fn yields(self) -> bool {
        ONE_BITS <= self.tokens.bits <= INFINITY_BITS
    }

    /// What the attempt returns: success, or the seconds until it can succeed.
    pub open spec fn outcome(self) -> Result<(), u64> {
        if self.yields() {
            Ok(())
        } else {
            Err(self.delay)
        }
    }
}

impl Bucket {
    /// The bucket after an attempt at time `at` that found the given level:
    /// one token is gone, or none if there was none to take.
    pub open spec fn after(self, level: Level, at: u64) -> Bucket {
        Bucket {
            tokens: if level.yields() {
                level.spent
            } else {
                level.tokens
            },
            last: at,
        }
    }

    /// A bucket that holds all that it may.
    pub fn full(burst: Number, at: u64) -> (r: Bucket)
        ensures
            r == (Bucket { tokens: burst, last: at }),
    {
        Bucket { tokens: burst, last: at }
    }

    /// Takes one token, if the bucket was found to hold one.
    pub fn take(&mut self, level: Level, at: u64) -> (r: Result<(), u64>)
        ensures
            *final(self) == old(self).after(level, at),
            r == level.outcome(),
    {
        self.last = at;
        if ONE_BITS <= level.tokens.bits && level.tokens.bits <= INFINITY_BITS {
            self.tokens = level.spent;
            Ok(())
        } else {
            self.tokens = level.tokens;
            Err(level.delay)
        }
    }
}

/// A token is taken exactly if the bucket holds one or more: then what is left
/// is one token less. Otherwise the bucket stands as it was found, and the
/// delay is given. Either way it stands so at the time of the attempt.
pub proof fn law_a_token_is_one(bucket: Bucket, level: Level, at: u64)
    ensures
        0x3ff0_0000_0000_0000 <= level.tokens.bits <= 0x7ff0_0000_0000_0000 ==> {
            &&& level.yields()
            &&& level.outcome() is Ok
            &&& bucket.after(level, at).tokens == level.spent
        },
        !(0x3ff0_0000_0000_0000 <= level.tokens.bits <= 0x7ff0_0000_0000_0000) ==> {
            &&& !level.yields()
            &&& level.outcome() == Err::<(), u64>(level.delay)
            &&& bucket.after(level, at).tokens == level.tokens
        },
        bucket.after(level, at).last == at,
{
}

} // verus!
