//! The bounded-retry schedule for delivering the error frame: the first send
//! is immediate; each failure is followed by a delay of 4, 16, 64, 256, then
//! 1024 seconds — each step four times the previous — before the next try;
//! after 5 failed retries delivery is abandoned.

use vstd::prelude::*;
use crate::errors::NftpError;

verus! {

/// How many retries may follow the first failed send.
pub const MAX_RETRIES: u8 = 5;

/// The delay in seconds slept before retry `i` (counting from 0).
pub open spec fn spec_retry_delay(i: int) -> u64
    recommends
        0 <= i < 5,
{
    if i == 0 {
        4
    } else if i == 1 {
        16
    } else if i == 2 {
        64
    } else if i == 3 {
        256
    } else {
        1024
    }
}

/// Law: the retry delays are exactly 4, 16, 64, 256, 1024 seconds, each step
/// four times the previous one.
pub proof fn lemma_retry_schedule()
    ensures
        Seq::new(5, |i: int| spec_retry_delay(i)) =~= seq![4u64, 16u64, 64u64, 256u64, 1024u64],
        forall|i: int| 1 <= i < 5 ==> #[trigger] spec_retry_delay(i) == 4 * spec_retry_delay(i - 1),
        spec_retry_delay(0) == 4,
{
}

/// Tracks how many sends of the error frame have failed, and hands out the
/// delay before each retry until the budget is spent.
pub struct RetrySchedule {
    failures: u8,
}

impl View for RetrySchedule {
    type V = int;

    closed spec fn view(&self) -> int {
        self.failures as int
    }
}

/// The delay in seconds before retry `i` (counting from 0).
pub fn retry_delay(i: u8) -> (d: u64)
    requires
        i < 5,
    ensures
        d == spec_retry_delay(i as int),
{
    if i == 0 {
        4
    } else if i == 1 {
        16
    } else if i == 2 {
        64
    } else if i == 3 {
        256
    } else {
        1024
    }
}

impl RetrySchedule {
    /// A fresh schedule: no send has failed yet.
    pub fn new() -> (s: Self)
        ensures
            s@ == 0,
    {
        RetrySchedule { failures: 0 }
    }

    /// Records one failed send. Yields the delay in seconds to sleep before
    /// the next retry, or nothing once `MAX_RETRIES` retries are spent and
    /// delivery is to be abandoned.
    pub fn record_failure(&mut self) -> (r: Option<u64>)
        ensures
            old(self)@ < 5 ==> r == Some(spec_retry_delay(old(self)@)) && final(self)@ == old(
                self,
            )@ + 1,
            old(self)@ >= 5 ==> r == None::<u64> && final(self)@ == old(self)@,
    {
        if self.failures >= MAX_RETRIES {
            return None;
        }
        let d = retry_delay(self.failures);
        self.failures = self.failures + 1;
        Some(d)
    }
}

/// How many attempts fail before the first success — the whole length when
/// every attempt fails.
pub open spec fn spec_failures_before_success(outcomes: Seq<bool>) -> int
    decreases outcomes.len(),
{
    if outcomes.len() == 0 {
        0
    } else if outcomes[0] {
        0
    } else {
        1 + spec_failures_before_success(outcomes.drop_first())
    }
}

/// A prefix of failures followed by a success (or the end) pins the count.
proof fn lemma_failures_before_success_is(s: Seq<bool>, a: int)
    requires
        0 <= a <= s.len(),
        forall|j: int| 0 <= j < a ==> !s[j],
        a < s.len() ==> s[a],
    ensures
        spec_failures_before_success(s) == if a < s.len() {
            a
        } else {
            s.len() as int
        },
    decreases a,
{
    if a == 0 {
        if s.len() > 0 {
            assert(s[0]);
        }
    } else {
        assert(!s[0]);
        let t = s.drop_first();
        assert forall|j: int| 0 <= j < a - 1 implies !t[j] by {
            assert(t[j] == s[j + 1]);
        }
        if a - 1 < t.len() {
            assert(t[a - 1] == s[a]);
        }
        lemma_failures_before_success_is(t, a - 1);
    }
}

/// Law: the error-report loop, replayed over the outcome of each send attempt
/// (`outcomes[a]` tells whether attempt `a` succeeded). Given N consecutive
/// failures with N at most 5, exactly N retries occur, with the delays 4, 16,
/// 64, 256, 1024 in order; a success on any attempt stops further retries, and
/// after the sixth failed attempt delivery is abandoned. Returns the delays
/// slept and whether the frame was delivered.
pub fn replay_error_sends(outcomes: &Vec<bool>) -> (r: (Vec<u64>, bool))
    requires
        outcomes@.len() >= 6,
    ensures
        ({
            let f = spec_failures_before_success(outcomes@.take(6));
            &&& r.1 == (f < 6)
            &&& r.0@ == Seq::new(
                if f < 5 {
                    f as nat
                } else {
                    5nat
                },
                |i: int| spec_retry_delay(i),
            )
        }),
{
    let ghost first6 = outcomes@.take(6);
    let mut sched = RetrySchedule::new();
    let mut delays: Vec<u64> = Vec::new();
    let mut attempt: usize = 0;
    proof {
        assert(delays@ =~= Seq::new(0, |i: int| spec_retry_delay(i)));
    }
    loop
        invariant
            outcomes@.len() >= 6,
            first6 == outcomes@.take(6),
            attempt <= 5,
            sched@ == attempt as int,
            delays@ == Seq::new(attempt as nat, |i: int| spec_retry_delay(i)),
            forall|j: int| 0 <= j < attempt ==> !first6[j],
        decreases 6 - attempt,
    {
        proof {
            assert(first6[attempt as int] == outcomes@[attempt as int]);
        }
        if outcomes[attempt] {
            proof {
                lemma_failures_before_success_is(first6, attempt as int);
            }
            return (delays, true);
        }
        match sched.record_failure() {
            Some(d) => {
                delays.push(d);
                proof {
                    assert(delays@ =~= Seq::new(
                        (attempt + 1) as nat,
                        |i: int| spec_retry_delay(i),
                    ));
                }
            },
            None => {
                proof {
                    lemma_failures_before_success_is(first6, 6);
                }
                return (delays, false);
            },
        }
        attempt = attempt + 1;
    }
}


/// The delivery outcome as an error of the taxonomy: an abandoned delivery of
/// the error frame is a `ResponseDeliveryFailure`.
pub fn delivery_outcome(delivered: bool) -> (r: Result<(), NftpError>)
    ensures
        delivered ==> r == Ok::<(), NftpError>(()),
        !delivered ==> r == Err::<(), NftpError>(NftpError::ResponseDeliveryFailure),
{
    if delivered {
        Ok(())
    } else {
        Err(NftpError::ResponseDeliveryFailure)
    }
}

} // verus!
