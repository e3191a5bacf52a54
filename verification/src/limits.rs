//! The rate-limit bookkeeping: what the service's headers allow, and how long
//! to wait before the next request.

use vstd::prelude::*;

verus! {

/// The value of a decimal digit.
pub open spec fn digit_value(c: char) -> Option<int> {
    if '0' <= c <= '9' {
        Some(c as int - '0' as int)
    } else {
        None
    }
}

/// The number that a run of decimal digits spells; nothing where one of the
/// characters is no digit.
pub open spec fn digits_value(digits: Seq<char>) -> Option<int>
    decreases digits.len(),
{
    if digits.len() == 0 {
        Some(0)
    } else {
        match (digits_value(digits.drop_last()), digit_value(digits.last())) {
            (Some(front), Some(last)) => Some(front * 10 + last),
            _ => None,
        }
    }
}

/// The number that a text spells in 64 bits: one or more decimal digits, with
/// or without a `+` before them, whose number is not beyond 64 bits.
pub open spec fn decimal_u64(text: Seq<char>) -> Option<u64> {
    let digits = if text.len() > 0 && text[0] == '+' {
        text.skip(1)
    } else {
        text
    };
    if digits.len() == 0 {
        None
    } else {
        match digits_value(digits) {
            Some(value) => if value <= u64::MAX {
                Some(value as u64)
            } else {
                None
            },
            None => None,
        }
    }
}

/// Calls `str::parse::<u64>`. Trusted: it reads the number that the text
/// spells as `decimal_u64` says, and refuses every other text: the empty one,
/// a sign alone, a `-`, any character that is no ASCII digit, and a number
/// beyond 64 bits.
#[verifier::external_body]
pub(crate) fn parse_u64(text: &str) -> (number: Option<u64>)
    ensures
        number == decimal_u64(text@),
{
    text.parse::<u64>().ok()
}

/// What the service allowed with its last response. Times are milliseconds on
/// a clock that never goes back.
#[derive(Clone, Copy, Debug, PartialEq, Eq, Structural)]
pub struct RateLimitStatus {
    /// The length of a budget period.
    pub period_ms: u64,
    /// The requests left in the current period.
    pub remaining_budget: u32,
    /// The time from which the next request is allowed.
    pub next_request_allowed: u64,
}

/// The wait that a page suggests: the whole period after an empty page, none
/// after a full one, and in proportion between, rounded down.
pub open spec fn desired_wait_ms(period_ms: int, returned: int, limit: int) -> int {
    if returned >= limit {
        0
    } else {
        period_ms * (limit - returned) / limit
    }
}

/// The limits that the three header numbers spell at `now_ms`: none where one
/// is missing, the budget is beyond 32 bits or a time is beyond 64.
pub open spec fn spec_armed(
    period_secs: Option<u64>,
    remaining: Option<u64>,
    reset_secs: Option<u64>,
    now_ms: u64,
) -> Option<RateLimitStatus> {
    match (period_secs, remaining, reset_secs) {
        (Some(period), Some(budget), Some(reset)) => if budget <= u32::MAX && period * 1000
            <= u64::MAX && now_ms + reset * 1000 <= u64::MAX {
            Some(
                RateLimitStatus {
                    period_ms: (period * 1000) as u64,
                    remaining_budget: budget as u32,
                    next_request_allowed: (now_ms + reset * 1000) as u64,
                },
            )
        } else {
            None
        },
        _ => None,
    }
}

/// The number that a header spells, where the header is there.
pub open spec fn header_number(header: Option<Seq<char>>) -> Option<u64> {
    match header {
        Some(text) => decimal_u64(text),
        None => None,
    }
}

/// The limits that the three headers spell at `now_ms`.
pub open spec fn spec_from_headers(
    period: Option<Seq<char>>,
    remaining: Option<Seq<char>>,
    reset: Option<Seq<char>>,
    now_ms: u64,
) -> Option<RateLimitStatus> {
    spec_armed(header_number(period), header_number(remaining), header_number(reset), now_ms)
}

/// The text of a header, where it is there.
pub open spec fn header_text(header: Option<String>) -> Option<Seq<char>> {
    match header {
        Some(text) => Some(text@),
        None => None,
    }
}

/// Reads the number of a header.
pub fn read_header(header: &Option<String>) -> (number: Option<u64>)
    ensures
        number == header_number(header_text(*header)),
{
    match header {
        Some(text) => parse_u64(text.as_str()),
        None => None,
    }
}

impl RateLimitStatus {
    /// The time still to wait at `now_ms` until the next request is allowed.
    pub open spec fn time_left(self, now_ms: u64) -> int {
        if self.next_request_allowed > now_ms {
            self.next_request_allowed - now_ms
        } else {
            0
        }
    }

    /// The limits after a page of `returned` events out of `limit` asked for,
    /// taken at `now_ms`: with budget left, the next request is allowed after
    /// the wait that the page suggests, but no later than before; with none
    /// left, nothing changes.
    pub open spec fn spec_scaled(self, returned: usize, limit: usize, now_ms: u64) -> RateLimitStatus {
        if self.remaining_budget > 0 {
            let desired = desired_wait_ms(self.period_ms as int, returned as int, limit as int);
            let left = self.time_left(now_ms);
            let wait = if desired < left {
                desired
            } else {
                left
            };
            RateLimitStatus { next_request_allowed: (now_ms + wait) as u64, ..self }
        } else {
            self
        }
    }

    /// The wait before the next request at `now_ms`: the time left and the
    /// jitter, as far as 64 bits hold it.
    pub open spec fn spec_pause_ms(self, now_ms: u64, jitter_ms: u64) -> int {
        if self.time_left(now_ms) + jitter_ms > u64::MAX {
            u64::MAX as int
        } else {
            self.time_left(now_ms) + jitter_ms
        }
    }

    /// The limits that three header numbers spell at `now_ms`: the period and
    /// the time to the reset in seconds, and the budget left.
    pub fn armed(
        period_secs: Option<u64>,
        remaining: Option<u64>,
        reset_secs: Option<u64>,
        now_ms: u64,
    ) -> (status: Option<RateLimitStatus>)
        ensures
            status == spec_armed(period_secs, remaining, reset_secs, now_ms),
    {
        match (period_secs, remaining, reset_secs) {
            (Some(period), Some(budget), Some(reset)) => {
                if budget > u32::MAX as u64 || period > u64::MAX / 1000 || reset > u64::MAX
                    / 1000 {
                    return None;
                }
                let reset_ms: u64 = reset * 1000;
                if reset_ms > u64::MAX - now_ms {
                    return None;
                }
                Some(
                    RateLimitStatus {
                        period_ms: period * 1000,
                        remaining_budget: budget as u32,
                        next_request_allowed: now_ms + reset_ms,
                    },
                )
            },
            _ => None,
        }
    }

    /// The limits that the three rate-limit headers of a response spell at
    /// `now_ms`.
    pub fn from_headers(
        period: &Option<String>,
        remaining: &Option<String>,
        reset: &Option<String>,
        now_ms: u64,
    ) -> (status: Option<RateLimitStatus>)
        ensures
            status == spec_from_headers(
                header_text(*period),
                header_text(*remaining),
                header_text(*reset),
                now_ms,
            ),
    {
        RateLimitStatus::armed(
            read_header(period),
            read_header(remaining),
            read_header(reset),
            now_ms,
        )
    }

    /// The milliseconds to wait at `now_ms` before the next request, with
    /// `jitter_ms` on top of the time left.
    pub fn pause(&self, now_ms: u64, jitter_ms: u64) -> (wait: u64)
        ensures
            wait == self.spec_pause_ms(now_ms, jitter_ms),
    {
        let left: u64 = if self.next_request_allowed > now_ms {
            self.next_request_allowed - now_ms
        } else {
            0
        };
        if jitter_ms > u64::MAX - left {
            u64::MAX
        } else {
            left + jitter_ms
        }
    }

    /// Moves the time of the next request by how useful the last page was:
    /// `returned` events out of the `limit` asked for.
    pub fn scale_remaining_by(&mut self, returned: usize, limit: usize, now_ms: u64)
        requires
            limit > 0,
        ensures
            *final(self) == old(self).spec_scaled(returned, limit, now_ms),
    {
        if self.remaining_budget > 0 {
            let left: u64 = if self.next_request_allowed > now_ms {
                self.next_request_allowed - now_ms
            } else {
                0
            };
            let desired: u64 = if returned >= limit {
                0
            } else {
                let p: u128 = self.period_ms as u128;
                let d: u128 = (limit - returned) as u128;
                let l: u128 = limit as u128;
                proof {
                    let pi = p as int;
                    let di = d as int;
                    let li = l as int;
                    assert(pi * di <= pi * li) by (nonlinear_arith)
                        requires
                            0 <= di <= li,
                            0 <= pi,
                    ;
                    assert(pi * li <= 0xffff_ffff_ffff_ffff * 0xffff_ffff_ffff_ffff)
                        by (nonlinear_arith)
                        requires
                            0 <= pi <= 0xffff_ffff_ffff_ffff,
                            0 <= li <= 0xffff_ffff_ffff_ffff,
                    ;
                    assert(0 <= pi * di) by (nonlinear_arith)
                        requires
                            0 <= di,
                            0 <= pi,
                    ;
                    assert(0 <= (pi * di) / li <= pi) by (nonlinear_arith)
                        requires
                            0 <= pi * di <= pi * li,
                            0 < li,
                            0 <= pi,
                    ;
                }
                ((p * d) / l) as u64
            };
            let wait: u64 = if desired < left {
                desired
            } else {
                left
            };
            self.next_request_allowed = now_ms + wait;
        }
    }
}

/// With no budget left, the page does not move the time of the next request:
/// it stays the time of reset that the headers gave, however useful the page
/// and whenever it is taken.
pub proof fn lemma_exhausted_budget_keeps_reset(
    period_secs: u64,
    reset_secs: u64,
    now_ms: u64,
    returned: usize,
    limit: usize,
    later_ms: u64,
)
    requires
        spec_armed(Some(period_secs), Some(0), Some(reset_secs), now_ms) is Some,
    ensures
        spec_armed(Some(period_secs), Some(0), Some(reset_secs), now_ms).unwrap().spec_scaled(
            returned,
            limit,
            later_ms,
        ).next_request_allowed == now_ms + reset_secs * 1000,
{
}

/// A page never moves the time of the next request beyond the later of the
/// time it was and the time the page is taken.
pub proof fn lemma_scaled_never_later(
    status: RateLimitStatus,
    returned: usize,
    limit: usize,
    now_ms: u64,
)
    requires
        limit > 0,
    ensures
        status.remaining_budget == 0 ==> status.spec_scaled(returned, limit, now_ms) == status,
        status.remaining_budget > 0 ==> now_ms <= status.spec_scaled(
            returned,
            limit,
            now_ms,
        ).next_request_allowed <= now_ms + status.time_left(now_ms),
{
    if status.remaining_budget > 0 && returned < limit {
        let p = status.period_ms as int;
        let d = limit - returned;
        let l = limit as int;
        assert(0 <= (p * d) / l) by (nonlinear_arith)
            requires
                0 <= p,
                0 <= d,
                0 < l,
        ;
    }
}

} // verus!
