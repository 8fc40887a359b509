//! Planning a scheduled timeout: when it starts, read from an offset such
//! as `30m`, and when it ends, from one of a fixed set of durations.
use vstd::prelude::*;
use crate::schedule::ScheduleError;

verus! {

/// How long a scheduled timeout lasts.
#[allow(non_camel_case_types)]
#[derive(PartialEq, Eq, Structural, Clone, Copy, Debug)]
pub enum TimeoutDuration {
    SECONDS_60,
    MINS_5,
    MINS_10,
    HOURS_1,
    DAYS_1,
    WEEKS_1,
}

/// The length of each duration, in seconds.
pub open spec fn duration_secs(d: TimeoutDuration) -> i64 {
    match d {
        TimeoutDuration::SECONDS_60 => 60,
        TimeoutDuration::MINS_5 => 300,
        TimeoutDuration::MINS_10 => 600,
        TimeoutDuration::HOURS_1 => 3600,
        TimeoutDuration::DAYS_1 => 86400,
        TimeoutDuration::WEEKS_1 => 604800,
    }
}

impl From<TimeoutDuration> for i64 {
    /// The length of the duration, in seconds.
    fn from(value: TimeoutDuration) -> (r: i64)
        ensures
            r == duration_secs(value),
    {
        match value {
            TimeoutDuration::SECONDS_60 => 60,
            TimeoutDuration::MINS_5 => 300,
            TimeoutDuration::MINS_10 => 600,
            TimeoutDuration::HOURS_1 => 3600,
            TimeoutDuration::DAYS_1 => 3600 * 24,
            TimeoutDuration::WEEKS_1 => 3600 * 24 * 7,
        }
    }
}

impl vstd::std_specs::convert::FromSpecImpl<TimeoutDuration> for i64 {
    open spec fn obeys_from_spec() -> bool {
        true
    }

    open spec fn from_spec(v: TimeoutDuration) -> i64 {
        duration_secs(v)
    }
}

/// How each duration reads in a message.
pub open spec fn duration_label(d: TimeoutDuration) -> Seq<char> {
    match d {
        TimeoutDuration::SECONDS_60 => "60 seconds"@,
        TimeoutDuration::MINS_5 => "5 minutes"@,
        TimeoutDuration::MINS_10 => "10 minutes"@,
        TimeoutDuration::HOURS_1 => "1 hour"@,
        TimeoutDuration::DAYS_1 => "1 day"@,
        TimeoutDuration::WEEKS_1 => "1 week"@,
    }
}

impl TimeoutDuration {
    /// How the duration reads in a message.
    pub fn label(self) -> (r: &'static str)
        ensures
            r@ == duration_label(self),
    {
        match self {
            TimeoutDuration::SECONDS_60 => "60 seconds",
            TimeoutDuration::MINS_5 => "5 minutes",
            TimeoutDuration::MINS_10 => "10 minutes",
            TimeoutDuration::HOURS_1 => "1 hour",
            TimeoutDuration::DAYS_1 => "1 day",
            TimeoutDuration::WEEKS_1 => "1 week",
        }
    }
}

/// When a planned timeout starts and ends, in seconds since the Unix epoch,
/// as the store's 32-bit columns hold them.
#[derive(PartialEq, Eq, Structural, Clone, Copy, Debug)]
pub struct TimeoutPlan {
    pub start_at: i32,
    pub ends_at: i32,
}

pub open spec fn is_digit(c: char) -> bool {
    '0' <= c <= '9'
}

/// The value of a run of decimal digits.
pub open spec fn digits_value(d: Seq<char>) -> int
    decreases d.len(),
{
    if d.len() == 0 {
        0
    } else {
        10 * digits_value(d.drop_last()) + (d.last() as int - '0' as int)
    }
}

/// A non-empty run of decimal digits.
pub open spec fn all_digits(d: Seq<char>) -> bool {
    d.len() > 0 && forall|i: int| 0 <= i < d.len() ==> is_digit(#[trigger] d[i])
}

/// The integer `s` writes: an optional `+` or `-`, then decimal digits.
pub open spec fn decimal_value(s: Seq<char>) -> Option<int> {
    if s.len() > 0 && (s[0] == '-' || s[0] == '+') {
        if all_digits(s.drop_first()) {
            Some(
                if s[0] == '-' {
                    -digits_value(s.drop_first())
                } else {
                    digits_value(s.drop_first())
                },
            )
        } else {
            None
        }
    } else if all_digits(s) {
        Some(digits_value(s))
    } else {
        None
    }
}

/// What reading `s` as an `i64` gives: its integer, if that fits.
pub open spec fn parsed_i64(s: Seq<char>) -> Option<i64> {
    match decimal_value(s) {
        Some(v) => if i64::MIN <= v <= i64::MAX {
            Some(v as i64)
        } else {
            None
        },
        None => None,
    }
}

/// Seconds in each unit of a start offset.
pub open spec fn unit_secs(c: char) -> Option<int> {
    if c == 's' {
        Some(1)
    } else if c == 'm' {
        Some(60)
    } else if c == 'h' {
        Some(3600)
    } else if c == 'd' {
        Some(86400)
    } else {
        None
    }
}

/// The offset, in seconds, that `s` writes: a number followed by a unit.
pub open spec fn offset_secs(s: Seq<char>) -> Result<int, ScheduleError> {
    if s.len() == 0 {
        Err(ScheduleError::EmptyOffset)
    } else {
        match parsed_i64(s.drop_last()) {
            None => Err(ScheduleError::InvalidNumber),
            Some(v) => match unit_secs(s.last()) {
                None => Err(ScheduleError::InvalidUnit),
                Some(u) => Ok(v * u),
            },
        }
    }
}

pub open spec fn fits_i32(v: int) -> bool {
    i32::MIN <= v <= i32::MAX
}

/// The timeout that `requester` asks for at `now`: `victim` is restricted
/// from the offset `start_in` after `now`, for `ends_in`. Nobody can
/// target themselves or the bot, and both times must fit in 32 bits.
pub open spec fn timeout_plan(
    now: i64,
    requester: u64,
    bot: u64,
    victim: u64,
    start_in: Seq<char>,
    ends_in: TimeoutDuration,
) -> Result<TimeoutPlan, ScheduleError> {
    match offset_secs(start_in) {
        Err(e) => Err(e),
        Ok(off) => if victim == requester {
            Err(ScheduleError::SelfTarget)
        } else if victim == bot {
            Err(ScheduleError::SystemTarget)
        } else {
            let start = now + off;
            let end = start + duration_secs(ends_in);
            if fits_i32(start) && fits_i32(end) {
                Ok(TimeoutPlan { start_at: start as i32, ends_at: end as i32 })
            } else {
                Err(ScheduleError::OutOfRange)
            }
        },
    }
}

/// Digits only grow a number as more of them are read.
proof fn lemma_digits_prefix(d: Seq<char>, k: int)
    requires
        0 <= k <= d.len(),
        forall|i: int| 0 <= i < d.len() ==> is_digit(#[trigger] d[i]),
    ensures
        0 <= digits_value(d.take(k)) <= digits_value(d),
    decreases d.len(),
{
    if d.len() > 0 {
        if k == d.len() {
            assert(d.take(k) =~= d);
            lemma_digits_prefix(d.drop_last(), k - 1);
            assert(d.drop_last().take(k - 1) =~= d.drop_last());
        } else {
            lemma_digits_prefix(d.drop_last(), k);
            assert(d.drop_last().take(k) =~= d.take(k));
            assert(is_digit(d[d.len() - 1]));
        }
    } else {
        assert(d.take(k) =~= d);
    }
}

/// Reads `s` as an `i64`, as `str::parse` does: an optional sign, then one
/// or more decimal digits, with a value that fits.
pub fn parse_i64(s: &str) -> (r: Option<i64>)
    ensures
        r == parsed_i64(s@),
{
    let n = s.unicode_len();
    if n == 0 {
        return None;
    }
    let first = s.get_char(0);
    let negative = first == '-';
    let start: usize = if first == '-' || first == '+' {
        1
    } else {
        0
    };
    if start == n {
        return None;
    }
    let ghost digits = s@.subrange(start as int, n as int);
    proof {
        if start == 1 {
            assert(digits =~= s@.drop_first());
        } else {
            assert(digits =~= s@);
        }
    }
    let mut acc: i128 = 0;
    let mut i: usize = start;
    proof {
        assert(digits.take(0) =~= Seq::<char>::empty());
    }
    while i < n
        invariant
            n == s@.len(),
            start <= i <= n,
            digits == s@.subrange(start as int, n as int),
            n > 0,
            start == 0 || start == 1,
            negative == (s@[0] == '-'),
            start == 1 ==> (s@[0] == '-' || s@[0] == '+') && digits == s@.drop_first(),
            start == 0 ==> !(s@[0] == '-' || s@[0] == '+') && digits == s@,
            forall|j: int| 0 <= j < i - start ==> is_digit(#[trigger] digits[j]),
            acc == digits_value(digits.take(i - start)),
            0 <= acc <= 9223372036854775808,
        decreases n - i,
    {
        let c = s.get_char(i);
        assert(c == digits[i - start]);
        if !(c >= '0' && c <= '9') {
            proof {
                assert(!is_digit(digits[i - start]));
                assert(!all_digits(digits));
            }
            return None;
        }
        let digit = (c as u32 - 48) as i128;
        proof {
            assert(digits.take(i + 1 - start).drop_last() =~= digits.take(i - start));
        }
        acc = acc * 10 + digit;
        if acc > 9223372036854775808 {
            proof {
                if all_digits(digits) {
                    lemma_digits_prefix(digits, i + 1 - start);
                    assert(digits_value(digits) > 9223372036854775808);
                }
                assert(parsed_i64(s@).is_none());
            }
            return None;
        }
        i = i + 1;
    }
    proof {
        assert(digits.take(n - start) =~= digits);
    }
    if negative {
        Some((-acc) as i64)
    } else if acc > 9223372036854775807 {
        None
    } else {
        Some(acc as i64)
    }
}

/// Plans the timeout that `requester` asks for at `now`: `victim` is
/// restricted from the offset `start_in` (a number and one of `s`, `m`,
/// `h`, `d`) after `now`, for `ends_in`. `bot` is the bot's own member.
pub fn plan_timeout(
    now: i64,
    requester: u64,
    bot: u64,
    victim: u64,
    start_in: &str,
    ends_in: TimeoutDuration,
) -> (r: Result<TimeoutPlan, ScheduleError>)
    ensures
        r == timeout_plan(now, requester, bot, victim, start_in@, ends_in),
{
    let n = start_in.unicode_len();
    if n == 0 {
        return Err(ScheduleError::EmptyOffset);
    }
    let unit = start_in.get_char(n - 1);
    let number = start_in.substring_char(0, n - 1);
    proof {
        assert(number@ =~= start_in@.drop_last());
    }
    let value = match parse_i64(number) {
        Some(v) => v,
        None => return Err(ScheduleError::InvalidNumber),
    };
    let unit_len: i128 = if unit == 's' {
        1
    } else if unit == 'm' {
        60
    } else if unit == 'h' {
        3600
    } else if unit == 'd' {
        86400
    } else {
        return Err(ScheduleError::InvalidUnit);
    };
    if victim == requester {
        return Err(ScheduleError::SelfTarget);
    }
    if victim == bot {
        return Err(ScheduleError::SystemTarget);
    }
    let offset: i128 = value as i128 * unit_len;
    let start: i128 = now as i128 + offset;
    let end: i128 = start + i64::from(ends_in) as i128;
    if start < -2147483648 || start > 2147483647 || end < -2147483648 || end > 2147483647 {
        return Err(ScheduleError::OutOfRange);
    }
    Ok(TimeoutPlan { start_at: start as i32, ends_at: end as i32 })
}

} // verus!
