//! Reporting status to the coordinator: the endpoint address and the
//! backoff between failed attempts.

use vstd::prelude::*;
use crate::text::{chars_of, matches_at, starts_with, trim, trim_str};

verus! {

/// The endpoint with surrounding whitespace removed and `http://` added
/// unless it names a scheme (`http://` or `https://`).
pub open spec fn endpoint_url(e: Seq<char>) -> Seq<char> {
    let t = trim(e);
    if starts_with(t, "http://"@) || starts_with(t, "https://"@) {
        t
    } else {
        "http://"@ + t
    }
}

pub fn sanitize_endpoint(endpoint: String) -> (r: String)
    ensures
        r@ == endpoint_url(endpoint@),
{
    let t = trim_str(endpoint.as_str());
    let tv = chars_of(t.as_str());
    let http = chars_of("http://");
    let https = chars_of("https://");
    assert(tv@.skip(0) =~= tv@);
    if matches_at(&tv, 0, &http) || matches_at(&tv, 0, &https) {
        t
    } else {
        let mut r = String::from_str("http://");
        r.append(t.as_str());
        r
    }
}

/// The largest span a `Duration` holds, in nanoseconds.
pub const DURATION_MAX_NANOS: u128 = 18446744073709551615999999999;

/// Delays before the first retry and at most, in seconds.
pub const INITIAL_BACKOFF_SECS: u64 = 1;
pub const MAX_BACKOFF_SECS: u64 = 60;

/// The delay after `k` failures since the last reset: it starts at
/// `initial` and doubles each time, capped at `max`.
pub open spec fn backoff_delay(initial: int, max: int, k: nat) -> int
    decreases k,
{
    if k == 0 {
        initial
    } else {
        let d = 2 * backoff_delay(initial, max, (k - 1) as nat);
        if d < max {
            d
        } else {
            max
        }
    }
}

/// Exponential backoff between attempts, in nanoseconds.
pub struct Backoff {
    initial: u128,
    current: u128,
    max: u128,
    /// Delays handed out since the last reset.
    steps: Ghost<nat>,
}

impl Backoff {
    #[verifier::type_invariant]
    spec fn inv(self) -> bool {
        &&& self.initial <= DURATION_MAX_NANOS / 2
        &&& self.max <= DURATION_MAX_NANOS / 2
        &&& self.current == backoff_delay(self.initial as int, self.max as int, self.steps@)
    }

    pub closed spec fn initial_delay(&self) -> int {
        self.initial as int
    }

    pub closed spec fn max_delay(&self) -> int {
        self.max as int
    }

    /// Delays handed out since the last reset.
    pub closed spec fn steps_taken(&self) -> nat {
        self.steps@
    }

    /// A backoff starting at `initial` and capped at `max` nanoseconds (each
    /// within half the range of a `Duration`, so that doubling stays in it).
    pub fn new(initial: u128, max: u128) -> (b: Self)
        requires
            initial <= DURATION_MAX_NANOS / 2,
            max <= DURATION_MAX_NANOS / 2,
        ensures
            b.initial_delay() == initial,
            b.max_delay() == max,
            b.steps_taken() == 0,
    {
        Backoff { initial, current: initial, max, steps: Ghost(0) }
    }

    /// The default backoff: one second, doubling up to a minute.
    pub fn with_defaults() -> (b: Self)
        ensures
            b.initial_delay() == INITIAL_BACKOFF_SECS * 1_000_000_000,
            b.max_delay() == MAX_BACKOFF_SECS * 1_000_000_000,
            b.steps_taken() == 0,
    {
        Backoff::new(1_000_000_000, 60_000_000_000)
    }

    /// The delay to wait now; the next one is twice as long, up to the cap.
    pub fn next_delay(&mut self) -> (d: u128)
        ensures
            d == backoff_delay(old(self).initial_delay(), old(self).max_delay(), old(self).steps_taken()),
            final(self).steps_taken() == old(self).steps_taken() + 1,
            final(self).initial_delay() == old(self).initial_delay(),
            final(self).max_delay() == old(self).max_delay(),
    {
        proof {
            use_type_invariant(&*self);
            lemma_backoff_bounded(self.initial as int, self.max as int, self.steps@);
        }
        let delay = self.current;
        let doubled = self.current * 2;
        let next = if doubled < self.max {
            doubled
        } else {
            self.max
        };
        let ghost steps = self.steps@ + 1;
        *self = Backoff { initial: self.initial, current: next, max: self.max, steps: Ghost(steps) };
        delay
    }

    /// Start again from the initial delay.
    pub fn reset(&mut self)
        ensures
            final(self).steps_taken() == 0,
            final(self).initial_delay() == old(self).initial_delay(),
            final(self).max_delay() == old(self).max_delay(),
    {
        proof {
            use_type_invariant(&*self);
        }
        *self = Backoff { initial: self.initial, current: self.initial, max: self.max, steps: Ghost(0) };
    }
}

/// Every delay stays at or below the larger of the initial delay and the
/// cap.
pub proof fn lemma_backoff_bounded(initial: int, max: int, k: nat)
    requires
        0 <= initial,
        0 <= max,
    ensures
        0 <= backoff_delay(initial, max, k),
        backoff_delay(initial, max, k) <= if initial > max {
            initial
        } else {
            max
        },
        k > 0 ==> backoff_delay(initial, max, k) <= max,
    decreases k,
{
    if k > 0 {
        lemma_backoff_bounded(initial, max, (k - 1) as nat);
    }
}

/// With an initial delay within the cap, delays never shrink until a reset,
/// and once the cap is reached they stay there.
pub proof fn lemma_backoff_monotone(initial: int, max: int, k: nat)
    requires
        0 <= initial <= max,
    ensures
        backoff_delay(initial, max, k) <= backoff_delay(initial, max, k + 1),
        backoff_delay(initial, max, k) == max ==> backoff_delay(initial, max, k + 1) == max,
    decreases k,
{
    lemma_backoff_bounded(initial, max, k);
    if k > 0 {
        lemma_backoff_monotone(initial, max, (k - 1) as nat);
    }
}

/// The status codes of a gRPC reply (`Success` is gRPC's `OK`).
#[derive(Debug, Clone, Copy, PartialEq, Eq, Structural)]
pub enum GrpcCode {
    Success,
    Cancelled,
    Unknown,
    InvalidArgument,
    DeadlineExceeded,
    NotFound,
    AlreadyExists,
    PermissionDenied,
    ResourceExhausted,
    FailedPrecondition,
    Aborted,
    OutOfRange,
    Unimplemented,
    Internal,
    Unavailable,
    DataLoss,
    Unauthenticated,
}

/// Failures worth retrying: the coordinator was unreachable, overloaded,
/// interrupted or failed internally.
pub open spec fn retryable(code: GrpcCode) -> bool {
    code == GrpcCode::Unavailable || code == GrpcCode::Unknown || code == GrpcCode::DeadlineExceeded
        || code == GrpcCode::Internal || code == GrpcCode::ResourceExhausted || code == GrpcCode::Aborted
        || code == GrpcCode::Cancelled
}

/// Whether a rejected report is retried, by the reply's status code.
pub fn is_retryable_status(code: GrpcCode) -> (r: bool)
    ensures
        r == retryable(code),
{
    match code {
        GrpcCode::Unavailable | GrpcCode::Unknown | GrpcCode::DeadlineExceeded | GrpcCode::Internal
        | GrpcCode::ResourceExhausted | GrpcCode::Aborted | GrpcCode::Cancelled => true,
        _ => false,
    }
}

} // verus!
