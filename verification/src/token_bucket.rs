//! Token-bucket rate limiter gating write admission.
//!
//! The bucket refills lazily: on every admission check the whole seconds
//! elapsed since the last refill are converted to tokens (`floor(elapsed
//! seconds) * rate`, so sub-second intervals add nothing), capped at
//! `max_token`.  `try_consume` never blocks and never consumes partially.
//!
//! The transition is specified by `refilled` over an explicit `now`
//! timestamp (nanoseconds); the wall-clock entry points draw `now` from the
//! clock module and satisfy the same relation for that instant.

use vstd::arithmetic::div_mod::lemma_div_is_ordered;
use vstd::arithmetic::mul::lemma_mul_inequality;
use vstd::arithmetic::mul::lemma_mul_upper_bound;
use vstd::prelude::*;

use crate::clock::now_nanos;
use crate::messages::NBError;

verus! {

pub const NANOS_PER_SEC: u64 = 1000000000;

#[derive(Debug, Clone, Copy, PartialEq, Eq, Structural)]
pub struct TokenBucket {
    /// Tokens (bytes) added per whole elapsed second.
    pub rate: u64,
    /// Capacity: refilling never pushes the level above this.
    pub max_token: u64,
    /// The current admission budget.
    pub current_token: u64,
    /// Unix nanoseconds of the last refill that added tokens.
    pub last_refill: u64,
}

/// Whole seconds elapsed from `last` to `now`; a clock that moved backwards
/// reads as no elapsed time.
pub open spec fn elapsed_secs(last: u64, now: u64) -> int {
    if now >= last {
        (now - last) / (NANOS_PER_SEC as int)
    } else {
        0
    }
}

/// The bucket after a lazy refill at `now`: `floor(elapsed seconds) * rate`
/// tokens are added, capped at `max_token`; if that adds nothing the bucket
/// is left untouched, `last_refill` included.
pub open spec fn refilled(b: TokenBucket, now: u64) -> TokenBucket {
    let added = elapsed_secs(b.last_refill, now) * b.rate;
    if added == 0 {
        b
    } else if b.current_token + added >= b.max_token {
        TokenBucket { current_token: b.max_token, last_refill: now, ..b }
    } else {
        TokenBucket { current_token: (b.current_token + added) as u64, last_refill: now, ..b }
    }
}

/// Whether a consumption of `bytes` at `now` is admitted.
pub open spec fn admits(b: TokenBucket, bytes: u64, now: u64) -> bool {
    refilled(b, now).current_token >= bytes
}

/// The relation between a bucket before and after `try_consume(bytes)` ran
/// at instant `now` with result `r`: the refill happens either way; the
/// subtraction only on admission, and `BucketEmpty` otherwise.
pub open spec fn consume_transition(
    pre: TokenBucket,
    post: TokenBucket,
    bytes: u64,
    now: u64,
    r: Result<(), NBError>,
) -> bool {
    let b1 = refilled(pre, now);
    if b1.current_token >= bytes {
        &&& r is Ok
        &&& post == TokenBucket { current_token: (b1.current_token - bytes) as u64, ..b1 }
    } else {
        &&& r matches Err(NBError::BucketEmpty)
        &&& post == b1
    }
}

impl TokenBucket {
    /// A bucket whose last refill stamp is the given instant; it starts
    /// full.
    pub fn new_at(rate: u64, max_token: u64, now: u64) -> (r: TokenBucket)
        ensures
            r == (TokenBucket { rate, max_token, current_token: max_token, last_refill: now }),
    {
        TokenBucket { rate, max_token, current_token: max_token, last_refill: now }
    }

    /// A full bucket stamped with the current wall-clock time.
    pub fn new(rate: u64, max_token: u64) -> (r: TokenBucket)
        ensures
            r.rate == rate,
            r.max_token == max_token,
            r.current_token == max_token,
    {
        let now = now_nanos();
        TokenBucket::new_at(rate, max_token, now)
    }

    /// Lazy refill at an explicit instant.
    fn update_at(&mut self, now: u64)
        ensures
            *final(self) == refilled(*old(self), now),
    {
        if now < self.last_refill {
            return ;
        }
        let elapsed: u64 = (now - self.last_refill) / NANOS_PER_SEC;
        proof {
            lemma_mul_upper_bound(
                elapsed as int,
                u64::MAX as int,
                self.rate as int,
                u64::MAX as int,
            );
        }
        let added: u128 = (elapsed as u128) * (self.rate as u128);
        if added == 0 {
            return ;
        }
        let sum: u128 = (self.current_token as u128) + added;
        if sum >= self.max_token as u128 {
            self.current_token = self.max_token;
        } else {
            self.current_token = sum as u64;
        }
        self.last_refill = now;
    }

    /// Admission check at an explicit instant: refill, then either subtract
    /// `bytes` whole or fail with `BucketEmpty` leaving the level alone.
    pub fn try_consume_at(&mut self, bytes: u64, now: u64) -> (r: Result<(), NBError>)
        ensures
            consume_transition(*old(self), *final(self), bytes, now, r),
    {
        self.update_at(now);
        if self.current_token < bytes {
            return Err(NBError::BucketEmpty);
        }
        self.current_token = self.current_token - bytes;
        Ok(())
    }

    /// Admission check against the wall clock: the same transition, at the
    /// instant the clock reported.
    pub fn try_consume(&mut self, bytes: u64) -> (r: Result<(), NBError>)
        ensures
            exists|now: u64| consume_transition(*old(self), *final(self), bytes, now, r),
    {
        let now = now_nanos();
        let r = self.try_consume_at(bytes, now);
        proof {
            assert(consume_transition(*old(self), *final(self), bytes, now, r));
        }
        r
    }
}

/// The admission gate of a fresh bucket: a burst of the full capacity is
/// admitted at once and one more byte is not; after at least one whole
/// second the bucket admits `rate` again, and the level never exceeds
/// `max_token`.  A rate above the capacity could never be admitted whole,
/// so the law asks `rate <= max_token`.
pub proof fn lemma_token_bucket_gate(rate: u64, max_token: u64, now: u64, later: u64)
    requires
        rate <= max_token,
        now + NANOS_PER_SEC <= later,
    ensures
        ({
            let b0 = TokenBucket { rate, max_token, current_token: max_token, last_refill: now };
            let drained = TokenBucket { current_token: 0, ..b0 };
            &&& admits(b0, max_token, now)
            &&& consume_transition(b0, drained, max_token, now, Ok(()))
            &&& !admits(drained, 1, now)
            &&& admits(drained, rate, later)
            &&& refilled(drained, later).current_token <= max_token
        }),
{
    let b0 = TokenBucket { rate, max_token, current_token: max_token, last_refill: now };
    let drained = TokenBucket { current_token: 0, ..b0 };
    assert(elapsed_secs(now, now) == 0);
    assert(refilled(b0, now) == b0);
    assert(refilled(drained, now) == drained);
    let e = elapsed_secs(now, later);
    lemma_div_is_ordered(
        NANOS_PER_SEC as int,
        later - now,
        NANOS_PER_SEC as int,
    );
    assert(e >= 1);
    lemma_mul_inequality(1, e, rate as int);
    assert(e * rate >= rate);
}

} // verus!
