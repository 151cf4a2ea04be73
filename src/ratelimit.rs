//! Request quotas. The remote service grants an hourly and a daily number of
//! calls and reports, on each response, how many are left and when each
//! window resets. No request goes out while either window is used up.
use vstd::prelude::*;

use crate::decimal::{all_digits, digits_value, parse_digits};

verus! {

/// A character with the Unicode White_Space property.
pub open spec fn is_white_space(c: char) -> bool {
    let u = c as u32;
    (0x09 <= u && u <= 0x0D) || u == 0x20 || u == 0x85 || u == 0xA0 || u == 0x1680 || (0x2000 <= u
        && u <= 0x200A) || u == 0x2028 || u == 0x2029 || u == 0x202F || u == 0x205F || u == 0x3000
}

/// A text without its leading white space.
pub open spec fn trim_start(s: Seq<char>) -> Seq<char>
    decreases s.len(),
{
    if s.len() > 0 && is_white_space(s[0]) {
        trim_start(s.drop_first())
    } else {
        s
    }
}

/// A text without its trailing white space.
pub open spec fn trim_end(s: Seq<char>) -> Seq<char>
    decreases s.len(),
{
    if s.len() > 0 && is_white_space(s.last()) {
        trim_end(s.drop_last())
    } else {
        s
    }
}

/// A text without leading and trailing white space, as `str::trim` leaves it.
pub open spec fn trimmed(s: Seq<char>) -> Seq<char> {
    trim_end(trim_start(s))
}

/// The instant, in whole seconds since the Unix epoch, that chrono reads from
/// a date-time text, or `None` where chrono refuses the text.
pub uninterp spec fn utc_timestamp(s: Seq<char>) -> Option<i64>;

/// Relies on `str::trim`: the text without leading and trailing characters of
/// the Unicode White_Space property.
#[verifier::external_body]
fn trim_text(s: &str) -> (r: &str)
    ensures
        r@ == trimmed(s@),
{
    s.trim()
}

/// Relies on chrono's `FromStr` for `DateTime<Utc>` (a relaxed RFC 3339 reader)
/// and on `DateTime::timestamp`: whole seconds since the Unix epoch.
#[verifier::external_body]
fn parse_utc_timestamp(s: &str) -> (r: Option<i64>)
    ensures
        r == utc_timestamp(s@),
{
    s.parse::<chrono::DateTime<chrono::Utc>>().ok().map(|d| d.timestamp())
}

/// The value of a `u16` written in decimal, with an optional leading `+`,
/// as Rust's integer parser reads it.
pub open spec fn u16_text_value(s: Seq<char>) -> Option<u16> {
    let d = if s.len() > 0 && s[0] == '+' {
        s.drop_first()
    } else {
        s
    };
    if d.len() > 0 && all_digits(d) && digits_value(d) <= u16::MAX {
        Some(digits_value(d) as u16)
    } else {
        None
    }
}

/// Reads a count as the quota headers carry it.
pub fn parse_u16_text(s: &str) -> (r: Option<u16>)
    ensures
        r == u16_text_value(s@),
{
    let len = s.unicode_len();
    let digits = if len > 0 && s.get_char(0) == '+' {
        s.substring_char(1, len)
    } else {
        s
    };
    proof {
        if len > 0 && s@[0] == '+' {
            assert(digits@ =~= s@.drop_first());
        }
    }
    match parse_digits(digits, 65535u64) {
        Some(v) => Some(v as u16),
        None => None,
    }
}

/// Which of the two request quota windows a limit belongs to.
#[derive(Clone, Copy, Debug, PartialEq, Eq, Structural)]
pub enum QuotaWindow {
    Hourly,
    Daily,
}

/// A refused request: the window that is used up, its size, and when it resets
/// (seconds since the Unix epoch).
#[derive(Clone, Copy, Debug, PartialEq, Eq, Structural)]
pub struct QuotaExhausted {
    pub window: QuotaWindow,
    pub limit: u16,
    pub reset_at: i64,
}

/// The quota header that could not be read.
#[derive(Clone, Copy, Debug, PartialEq, Eq, Structural)]
pub enum RateField {
    HourlyLimit,
    HourlyRemaining,
    HourlyReset,
    DailyLimit,
    DailyRemaining,
    DailyReset,
}

/// A quota header whose value could not be read.
#[derive(Clone, Copy, Debug, PartialEq, Eq, Structural)]
pub struct HeaderError {
    pub field: RateField,
}

/// The response headers that matter here, each as the response carried it, if at all.
#[derive(Debug)]
pub struct ResponseHeaders {
    pub hourly_limit: Option<String>,
    pub hourly_remaining: Option<String>,
    pub hourly_reset: Option<String>,
    pub daily_limit: Option<String>,
    pub daily_remaining: Option<String>,
    pub daily_reset: Option<String>,
    pub etag: Option<String>,
}

pub open spec fn opt_view(v: Option<String>) -> Option<Seq<char>> {
    match v {
        Some(s) => Some(s@),
        None => None,
    }
}

/// The ETag that a response carries; empty where it has none.
pub open spec fn etag_text(h: &ResponseHeaders) -> Seq<char> {
    match h.etag {
        Some(s) => s@,
        None => Seq::empty(),
    }
}

/// The new value of a count: unchanged without its header, else the header's
/// trimmed text read as a number.
pub open spec fn count_update(v: Option<Seq<char>>, current: u16) -> Option<u16> {
    match v {
        None => Some(current),
        Some(t) => u16_text_value(trimmed(t)),
    }
}

/// The new value of a reset time: unchanged without its header, else the
/// instant the header names.
pub open spec fn time_update(v: Option<Seq<char>>, current: i64) -> Option<i64> {
    match v {
        None => Some(current),
        Some(t) => utc_timestamp(t),
    }
}

/// Quota bookkeeping for both windows.
#[derive(Clone, Copy, Debug, PartialEq, Eq, Structural)]
pub struct RateLimits {
    pub hourly_limit: u16,
    pub hourly_remaining: u16,
    pub hourly_reset: i64,
    pub daily_limit: u16,
    pub daily_remaining: u16,
    pub daily_reset: i64,
}

/// The decision taken before a request: the first used-up window refuses it.
pub open spec fn quota_gate(l: RateLimits) -> Result<(), QuotaExhausted> {
    if l.hourly_remaining < 1 {
        Err(QuotaExhausted { window: QuotaWindow::Hourly, limit: l.hourly_limit, reset_at: l.hourly_reset })
    } else if l.daily_remaining < 1 {
        Err(QuotaExhausted { window: QuotaWindow::Daily, limit: l.daily_limit, reset_at: l.daily_reset })
    } else {
        Ok(())
    }
}

/// A remaining count never above its window's limit.
pub open spec fn capped(remaining: u16, limit: u16) -> u16 {
    if remaining <= limit {
        remaining
    } else {
        limit
    }
}

/// The limits after a response's headers, or the first header that cannot be
/// read. A remaining count reported above its limit is taken as the limit.
pub open spec fn headers_applied(l: RateLimits, h: &ResponseHeaders) -> Result<RateLimits, RateField> {
    let hl = count_update(opt_view(h.hourly_limit), l.hourly_limit);
    let hr = count_update(opt_view(h.hourly_remaining), l.hourly_remaining);
    let ht = time_update(opt_view(h.hourly_reset), l.hourly_reset);
    let dl = count_update(opt_view(h.daily_limit), l.daily_limit);
    let dr = count_update(opt_view(h.daily_remaining), l.daily_remaining);
    let dt = time_update(opt_view(h.daily_reset), l.daily_reset);
    if hl is None {
        Err(RateField::HourlyLimit)
    } else if hr is None {
        Err(RateField::HourlyRemaining)
    } else if ht is None {
        Err(RateField::HourlyReset)
    } else if dl is None {
        Err(RateField::DailyLimit)
    } else if dr is None {
        Err(RateField::DailyRemaining)
    } else if dt is None {
        Err(RateField::DailyReset)
    } else {
        Ok(
            RateLimits {
                hourly_limit: hl->0,
                hourly_remaining: capped(hr->0, hl->0),
                hourly_reset: ht->0,
                daily_limit: dl->0,
                daily_remaining: capped(dr->0, dl->0),
                daily_reset: dt->0,
            },
        )
    }
}

fn read_count(v: &Option<String>, current: u16) -> (r: Option<u16>)
    ensures
        r == count_update(opt_view(*v), current),
{
    match v {
        None => Some(current),
        Some(t) => parse_u16_text(trim_text(t.as_str())),
    }
}

fn read_time(v: &Option<String>, current: i64) -> (r: Option<i64>)
    ensures
        r == time_update(opt_view(*v), current),
{
    match v {
        None => Some(current),
        Some(t) => parse_utc_timestamp(t.as_str()),
    }
}

impl RateLimits {
    /// No window has more calls left than it grants.
    pub open spec fn wf(&self) -> bool {
        self.hourly_remaining <= self.hourly_limit && self.daily_remaining <= self.daily_limit
    }

    /// Limits before the service has reported any: 100 calls an hour and 2500 a
    /// day, both windows resetting at `now`.
    pub fn new(now: i64) -> (r: RateLimits)
        ensures
            r == (RateLimits {
                hourly_limit: 100,
                hourly_remaining: 100,
                hourly_reset: now,
                daily_limit: 2500,
                daily_remaining: 2500,
                daily_reset: now,
            }),
            r.wf(),
    {
        RateLimits {
            hourly_limit: 100,
            hourly_remaining: 100,
            hourly_reset: now,
            daily_limit: 2500,
            daily_remaining: 2500,
            daily_reset: now,
        }
    }

    pub fn remaining_hour(&self) -> (r: u16)
        ensures
            r == self.hourly_remaining,
    {
        self.hourly_remaining
    }

    pub fn remaining_day(&self) -> (r: u16)
        ensures
            r == self.daily_remaining,
    {
        self.daily_remaining
    }

    /// Whether a request may go out now.
    pub fn requests_allowed(&self) -> (r: bool)
        ensures
            r == (quota_gate(*self) is Ok),
    {
        self.hourly_remaining >= 1 && self.daily_remaining >= 1
    }

    /// Refuses a request while either window is used up, naming the hourly
    /// window first.
    pub fn allow_request(&self) -> (r: Result<(), QuotaExhausted>)
        ensures
            r == quota_gate(*self),
    {
        if self.hourly_remaining < 1 {
            Err(QuotaExhausted { window: QuotaWindow::Hourly, limit: self.hourly_limit, reset_at: self.hourly_reset })
        } else if self.daily_remaining < 1 {
            Err(QuotaExhausted { window: QuotaWindow::Daily, limit: self.daily_limit, reset_at: self.daily_reset })
        } else {
            Ok(())
        }
    }

    /// Takes over the counts and reset times that a response reports, and
    /// returns its ETag (empty where it has none). Where a quota header cannot
    /// be read, nothing changes and the error names that header. A remaining
    /// count above its limit is capped at the limit.
    pub fn handle_headers(&mut self, h: &ResponseHeaders) -> (r: Result<String, HeaderError>)
        ensures
            r is Ok ==> final(self).wf(),
            old(self).wf() ==> final(self).wf(),
            match headers_applied(*old(self), h) {
                Ok(n) => r is Ok && *final(self) == n && r->Ok_0@ == etag_text(h),
                Err(f) => r == Err::<String, HeaderError>(HeaderError { field: f })
                    && *final(self) == *old(self),
            },
    {
        let hl = read_count(&h.hourly_limit, self.hourly_limit);
        let hr = read_count(&h.hourly_remaining, self.hourly_remaining);
        let ht = read_time(&h.hourly_reset, self.hourly_reset);
        let dl = read_count(&h.daily_limit, self.daily_limit);
        let dr = read_count(&h.daily_remaining, self.daily_remaining);
        let dt = read_time(&h.daily_reset, self.daily_reset);
        let hl = match hl {
            Some(v) => v,
            None => return Err(HeaderError { field: RateField::HourlyLimit }),
        };
        let hr = match hr {
            Some(v) => v,
            None => return Err(HeaderError { field: RateField::HourlyRemaining }),
        };
        let ht = match ht {
            Some(v) => v,
            None => return Err(HeaderError { field: RateField::HourlyReset }),
        };
        let dl = match dl {
            Some(v) => v,
            None => return Err(HeaderError { field: RateField::DailyLimit }),
        };
        let dr = match dr {
            Some(v) => v,
            None => return Err(HeaderError { field: RateField::DailyRemaining }),
        };
        let dt = match dt {
            Some(v) => v,
            None => return Err(HeaderError { field: RateField::DailyReset }),
        };
        self.hourly_limit = hl;
        self.hourly_remaining = if hr <= hl {
            hr
        } else {
            hl
        };
        self.hourly_reset = ht;
        self.daily_limit = dl;
        self.daily_remaining = if dr <= dl {
            dr
        } else {
            dl
        };
        self.daily_reset = dt;
        let etag = match &h.etag {
            Some(t) => t.clone(),
            None => String::new(),
        };
        Ok(etag)
    }
}

/// With no calls left in the hour, every request is refused on the hourly
/// window, and the refusal leaves the daily count as it was.
pub proof fn lemma_hourly_gate(l: RateLimits)
    requires
        l.hourly_remaining == 0,
    ensures
        quota_gate(l) == Err::<(), QuotaExhausted>(
            QuotaExhausted { window: QuotaWindow::Hourly, limit: l.hourly_limit, reset_at: l.hourly_reset },
        ),
{
}

/// Only a used-up window refuses a request.
pub proof fn lemma_gate_open(l: RateLimits)
    requires
        l.hourly_remaining > 0,
        l.daily_remaining > 0,
    ensures
        quota_gate(l) == Ok::<(), QuotaExhausted>(()),
{
}

} // verus!
