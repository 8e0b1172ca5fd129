//! Rate limits for calls to a backend, written as `N/s` or `N/m`.

use vstd::prelude::*;
use leaky_bucket::RateLimiter;
use std::time::Duration;
use crate::text::{
    chars_to_string, decimal_digits, find_char, index_of_char, parse_usize, parse_usize_spec,
    push_decimal, str_to_chars,
};

verus! {

/// The token bucket of the `leaky-bucket` crate.
#[verifier::external_type_specification]
#[verifier::external_body]
pub struct ExRateLimiter(RateLimiter);

/// The most tokens that a limiter holds, as it was built.
pub uninterp spec fn limiter_max(limiter: RateLimiter) -> usize;

/// The tokens that a limiter adds at each interval, as it was built.
pub uninterp spec fn limiter_refill(limiter: RateLimiter) -> usize;

/// The whole seconds between two refills of a limiter, as it was built.
pub uninterp spec fn limiter_interval_seconds(limiter: RateLimiter) -> u64;

/// The most tokens that any limiter holds: the crate caps every balance at
/// `isize::MAX`.
pub open spec fn max_balance() -> usize {
    isize::MAX as usize
}

/// An amount of tokens as a limiter keeps it: no more than `max_balance`.
pub open spec fn capped(tokens: usize) -> usize {
    if tokens <= max_balance() {
        tokens
    } else {
        max_balance()
    }
}

/// The whole seconds that a duration spans.
pub uninterp spec fn duration_seconds(d: Duration) -> u64;

/// The duration of a number of whole seconds.
pub uninterp spec fn seconds_duration(secs: u64) -> Duration;

/// `Duration::from_secs` makes the duration of exactly `secs` whole seconds:
/// the same seconds give the same duration.
pub assume_specification[ Duration::from_secs ](secs: u64) -> (d: Duration)
    ensures
        d == seconds_duration(secs),
        duration_seconds(d) == secs,
;

/// The period over which a rate limit is applied.
#[derive(Debug, Clone, Copy, PartialEq, Eq, Hash, Structural)]
pub enum RateLimitPeriod {
    /// Per second.
    Second,
    /// Per minute.
    Minute,
}

impl RateLimitPeriod {
    /// The length of the period in seconds.
    pub open spec fn seconds(self) -> u64 {
        match self {
            RateLimitPeriod::Second => 1,
            RateLimitPeriod::Minute => 60,
        }
    }

    /// The letter that writes the period.
    pub open spec fn letter(self) -> char {
        match self {
            RateLimitPeriod::Second => 's',
            RateLimitPeriod::Minute => 'm',
        }
    }

    /// The length of the period in seconds.
    pub fn to_seconds(self) -> (secs: u64)
        ensures
            secs == self.seconds(),
    {
        match self {
            RateLimitPeriod::Second => 1,
            RateLimitPeriod::Minute => 60,
        }
    }

    /// Convert this period to a duration.
    pub fn to_duration(self) -> (d: Duration)
        ensures
            d == seconds_duration(self.seconds()),
            duration_seconds(d) == self.seconds(),
    {
        Duration::from_secs(self.to_seconds())
    }

    /// The period written by `s`: `s` for a second, `m` for a minute.
    pub open spec fn parse_spec(s: Seq<char>) -> Option<RateLimitPeriod> {
        if s == seq!['s'] {
            Some(RateLimitPeriod::Second)
        } else if s == seq!['m'] {
            Some(RateLimitPeriod::Minute)
        } else {
            None
        }
    }

    /// Parse the characters `chars[from..]` as a period.
    pub fn parse_chars(chars: &Vec<char>, from: usize) -> (r: Option<RateLimitPeriod>)
        requires
            from <= chars.len(),
        ensures
            r == Self::parse_spec(chars@.skip(from as int)),
    {
        let ghost rest = chars@.skip(from as int);
        if chars.len() - from != 1 {
            assert(seq!['s'].len() == 1 && seq!['m'].len() == 1);
            return None;
        }
        assert(rest[0] == chars@[from as int]);
        if chars[from] == 's' {
            assert(rest =~= seq!['s']);
            Some(RateLimitPeriod::Second)
        } else if chars[from] == 'm' {
            assert(rest =~= seq!['m']);
            Some(RateLimitPeriod::Minute)
        } else {
            None
        }
    }

    /// Parse a period from its one-letter form.
    pub fn from_str(s: &str) -> (r: Result<RateLimitPeriod, RateLimitError>)
        ensures
            r == match Self::parse_spec(s@) {
                Some(p) => Ok::<RateLimitPeriod, RateLimitError>(p),
                None => Err(RateLimitError::UnsupportedPeriod),
            },
    {
        let chars = str_to_chars(s);
        assert(chars@.skip(0) =~= chars@);
        match Self::parse_chars(&chars, 0) {
            Some(p) => Ok(p),
            None => Err(RateLimitError::UnsupportedPeriod),
        }
    }

    /// The one-letter form of the period.
    pub fn to_string(&self) -> (s: String)
        ensures
            s@ == seq![self.letter()],
    {
        let mut s = String::new();
        match self {
            RateLimitPeriod::Second => s.push('s'),
            RateLimitPeriod::Minute => s.push('m'),
        }
        assert(s@ =~= seq![self.letter()]);
        s
    }
}

/// Why a text is not a rate limit.
#[derive(Debug, Clone, Copy, PartialEq, Eq, Structural)]
pub enum RateLimitError {
    /// The part before the `/` is not an unsigned number that fits a `usize`.
    InvalidCount,
    /// There is no `/` and so no period.
    MissingPeriod,
    /// The part after the `/` is neither `s` nor `m`.
    UnsupportedPeriod,
    /// The number of requests is zero.
    ZeroRequests,
}

impl RateLimitError {
    /// A sentence that describes the error.
    pub fn message(&self) -> (s: String)
        ensures
            s@ == self.message_spec(),
    {
        match self {
            RateLimitError::InvalidCount => String::from_str(
                "Failed to parse rate limit: invalid number of requests",
            ),
            RateLimitError::MissingPeriod => String::from_str(
                "Failed to parse rate limit: missing period",
            ),
            RateLimitError::UnsupportedPeriod => String::from_str(
                "Failed to parse rate limit: unsupported rate limit period",
            ),
            RateLimitError::ZeroRequests => String::from_str(
                "Failed to parse rate limit: the number of requests must be at least 1",
            ),
        }
    }

    /// The sentence that `message` returns.
    pub open spec fn message_spec(&self) -> Seq<char> {
        match self {
            RateLimitError::InvalidCount =>
                "Failed to parse rate limit: invalid number of requests"@,
            RateLimitError::MissingPeriod => "Failed to parse rate limit: missing period"@,
            RateLimitError::UnsupportedPeriod =>
                "Failed to parse rate limit: unsupported rate limit period"@,
            RateLimitError::ZeroRequests =>
                "Failed to parse rate limit: the number of requests must be at least 1"@,
        }
    }
}

/// What a token bucket is built from.
#[derive(Debug, Clone, Copy, PartialEq, Eq, Structural)]
pub struct BucketSettings {
    /// Tokens in the bucket at the start.
    pub initial: usize,
    /// Tokens added at each interval.
    pub refill: usize,
    /// The most tokens that the bucket holds.
    pub max: usize,
    /// Seconds between two refills.
    pub interval_seconds: u64,
}

/// A rate limit for an API.
#[derive(Debug, Clone, Copy, PartialEq, Eq, Hash, Structural)]
pub struct RateLimit {
    /// The maximum number of requests allowed in the period.
    pub max_requests: usize,
    /// The period over which the rate limit is applied.
    pub per_period: RateLimitPeriod,
}

impl RateLimit {
    /// A rate limit admits at least one request per period.
    pub open spec fn wf(&self) -> bool {
        self.max_requests >= 1
    }

    /// Create a new [`RateLimit`].
    pub fn new(max_requests: usize, per_period: RateLimitPeriod) -> (r: Self)
        ensures
            r.max_requests == max_requests,
            r.per_period == per_period,
    {
        Self { max_requests, per_period }
    }

    /// The rate limit written by `s`: a number of at least 1, a `/`, and a
    /// period letter.
    pub open spec fn parse_spec(s: Seq<char>) -> Result<RateLimit, RateLimitError> {
        let cut = index_of_char(s, '/');
        match parse_usize_spec(s.take(cut)) {
            None => Err(RateLimitError::InvalidCount),
            Some(n) => if cut >= s.len() {
                Err(RateLimitError::MissingPeriod)
            } else {
                match RateLimitPeriod::parse_spec(s.skip(cut + 1)) {
                    None => Err(RateLimitError::UnsupportedPeriod),
                    Some(p) => if n == 0 {
                        Err(RateLimitError::ZeroRequests)
                    } else {
                        Ok(RateLimit { max_requests: n, per_period: p })
                    },
                }
            },
        }
    }

    /// Parse a rate limit of the form `10/s` or `2000/m`.
    pub fn from_str(s: &str) -> (r: Result<RateLimit, RateLimitError>)
        ensures
            r == Self::parse_spec(s@),
            r is Ok ==> r->Ok_0.wf(),
    {
        let chars = str_to_chars(s);
        assert(chars@.skip(0) =~= chars@);
        let cut = find_char(&chars, 0, '/');
        let mut head: Vec<char> = Vec::new();
        let mut i: usize = 0;
        while i < cut
            invariant
                i <= cut <= chars.len(),
                head@ == chars@.take(i as int),
            decreases cut - i,
        {
            head.push(chars[i]);
            assert(chars@.take(i as int).push(chars@[i as int]) =~= chars@.take(i + 1));
            i += 1;
        }
        let n = match parse_usize(&head) {
            None => {
                return Err(RateLimitError::InvalidCount);
            },
            Some(n) => n,
        };
        if cut >= chars.len() {
            return Err(RateLimitError::MissingPeriod);
        }
        let p = match RateLimitPeriod::parse_chars(&chars, cut + 1) {
            None => {
                return Err(RateLimitError::UnsupportedPeriod);
            },
            Some(p) => p,
        };
        if n == 0 {
            return Err(RateLimitError::ZeroRequests);
        }
        Ok(RateLimit { max_requests: n, per_period: p })
    }

    /// The text of a rate limit: the number of requests, a `/`, the period
    /// letter.
    pub open spec fn text(&self) -> Seq<char> {
        decimal_digits(self.max_requests as nat).push('/').push(self.per_period.letter())
    }

    /// The rate limit in the form that `from_str` reads.
    pub fn to_string(&self) -> (s: String)
        ensures
            s@ == self.text(),
    {
        let mut s = String::new();
        push_decimal(&mut s, self.max_requests as u64);
        assert(s@ =~= decimal_digits(self.max_requests as nat));
        s.push('/');
        match self.per_period {
            RateLimitPeriod::Second => s.push('s'),
            RateLimitPeriod::Minute => s.push('m'),
        }
        s
    }

    /// The token bucket for this limit: full at the start, refilled to the
    /// brim once per period.
    pub fn bucket_settings(&self) -> (b: BucketSettings)
        ensures
            b.initial == self.max_requests,
            b.refill == self.max_requests,
            b.max == self.max_requests,
            b.interval_seconds == self.per_period.seconds(),
    {
        BucketSettings {
            initial: self.max_requests,
            refill: self.max_requests,
            max: self.max_requests,
            interval_seconds: self.per_period.to_seconds(),
        }
    }

    /// Create a [`RateLimiter`] for this rate limit: a bucket that holds
    /// `max_requests` tokens at most and is refilled by as many once per
    /// period.
    pub fn to_rate_limiter(&self) -> (limiter: RateLimiter)
        requires
            self.wf(),
        ensures
            limiter_max(limiter) == capped(self.max_requests),
            limiter_refill(limiter) == capped(self.max_requests),
            limiter_interval_seconds(limiter) == self.per_period.seconds(),
    {
        let settings = self.bucket_settings();
        build_rate_limiter(&settings)
    }
}

/// Builds a limiter through `RateLimiter::builder()` with `initial`, `refill`,
/// `max` and `interval` set from `settings`. The builder panics on a refill of
/// zero and on an interval of zero or of more milliseconds than fit 64 bits.
/// `Builder::build` keeps the interval as it is and caps the refill and the
/// maximum at `isize::MAX`; nothing is claimed of the tokens in the bucket.
#[verifier::external_body]
fn build_rate_limiter(settings: &BucketSettings) -> (limiter: RateLimiter)
    requires
        settings.refill > 0,
        0 < settings.interval_seconds <= 3600,
    ensures
        limiter_max(limiter) == capped(settings.max),
        limiter_refill(limiter) == capped(settings.refill),
        limiter_interval_seconds(limiter) == settings.interval_seconds,
{
    RateLimiter::builder()
        .initial(settings.initial)
        .refill(settings.refill)
        .max(settings.max)
        .interval(Duration::from_secs(settings.interval_seconds))
        .build()
}

} // verus!
