//! From invocation options to the policy of a run.

use vstd::prelude::*;
use vstd::string::StrSliceExecFns;

verus! {

/// The minimum age, in minutes, where the invocation names none.
pub const DEFAULT_MINIMUM_AGE_MINUTES: u64 = 120;

/// The largest count an option can carry.
pub const LARGEST_COUNT: u64 = 9_223_372_036_854_775_807;

/// A limit on a count, or none.
#[derive(Clone, Copy, Debug, PartialEq, Eq, Structural)]
pub enum Cap {
    Unbounded,
    AtMost(u64),
}

impl Cap {
    /// Whether one more may be added to `count` under this cap.
    pub open spec fn admits(self, count: int) -> bool {
        match self {
            Cap::Unbounded => true,
            Cap::AtMost(limit) => count < limit,
        }
    }

    /// Whether `count` itself is within this cap.
    pub open spec fn holds(self, count: int) -> bool {
        match self {
            Cap::Unbounded => true,
            Cap::AtMost(limit) => count <= limit,
        }
    }

    /// The most of `available` that this cap lets through.
    pub open spec fn clip(self, available: int) -> int {
        match self {
            Cap::Unbounded => available,
            Cap::AtMost(limit) => if available <= limit {
                available
            } else {
                limit as int
            },
        }
    }

    /// Whether one more may be added to `count` under this cap.
    pub fn allows(&self, count: u64) -> (yes: bool)
        ensures
            yes == self.admits(count as int),
    {
        match self {
            Cap::Unbounded => true,
            Cap::AtMost(limit) => count < *limit,
        }
    }
}

/// What a run does, fixed before it starts.
#[derive(Clone, Copy, Debug, PartialEq, Eq, Structural)]
pub struct Policy {
    /// A session idle for fewer minutes than this is ignored.
    pub minimum_age_minutes: u64,
    /// How many qualifying sessions are reported at most.
    pub display_cap: Cap,
    /// How many sessions are terminated at most.
    pub kill_cap: Cap,
    /// Whether sessions are terminated at all.
    pub kill_enabled: bool,
    /// Whether terminations are only announced.
    pub dry_run: bool,
    /// Whether reports carry every field of a session.
    pub verbose: bool,
}

/// The options of an invocation, numbers still as they were typed.
#[derive(Debug, PartialEq, Eq)]
pub struct Options {
    pub debug: bool,
    pub kill: bool,
    pub min_age: Option<String>,
    pub max_killed: Option<String>,
    pub max_cnt: Option<String>,
    pub dry_run: bool,
}

/// An option that carries a number.
#[derive(Clone, Copy, Debug, PartialEq, Eq, Structural)]
pub enum Setting {
    MinAge,
    Max,
    MaxCnt,
}

/// Why the text of an option is no count.
#[derive(Clone, Copy, Debug, PartialEq, Eq, Structural)]
pub enum Problem {
    /// Not an optional sign followed by decimal digits.
    NotNumeric,
    /// Below zero.
    Negative,
    /// Above `LARGEST_COUNT`.
    TooLarge,
}

/// An option whose value cannot be used.
#[derive(Clone, Copy, Debug, PartialEq, Eq, Structural)]
pub struct InvalidArgument {
    pub setting: Setting,
    pub problem: Problem,
}

/// Whether `c` is one of the ten decimal digits.
pub open spec fn is_digit(c: char) -> bool {
    '0' <= c <= '9'
}

/// Whether `s` holds decimal digits only.
pub open spec fn all_digits(s: Seq<char>) -> bool {
    forall|i: int| 0 <= i < s.len() ==> is_digit(#[trigger] s[i])
}

/// The number that a run of decimal digits writes.
pub open spec fn digits_value(s: Seq<char>) -> nat
    decreases s.len(),
{
    if s.len() == 0 {
        0
    } else {
        (digits_value(s.drop_last()) * 10 + (s.last() as nat - '0' as nat)) as nat
    }
}

/// The digits of `text`, without a leading sign.
pub open spec fn unsigned_part(text: Seq<char>) -> Seq<char> {
    if text.len() > 0 && (text[0] == '+' || text[0] == '-') {
        text.skip(1)
    } else {
        text
    }
}

/// What `text` says as a count: an optional `+` or `-`, then one or more
/// decimal digits and nothing else. Minus zero is zero.
pub open spec fn reading(text: Seq<char>) -> Result<u64, Problem> {
    let digits = unsigned_part(text);
    if digits.len() == 0 || !all_digits(digits) {
        Err(Problem::NotNumeric)
    } else if text[0] == '-' && digits_value(digits) > 0 {
        Err(Problem::Negative)
    } else if digits_value(digits) > LARGEST_COUNT {
        Err(Problem::TooLarge)
    } else {
        Ok(digits_value(digits) as u64)
    }
}

/// Reads `text` as a count.
pub fn parse_count(text: &str) -> (r: Result<u64, Problem>)
    ensures
        r == reading(text@),
{
    let n = text.unicode_len();
    let mut negative = false;
    let mut start: usize = 0;
    if n > 0 {
        let first = text.get_char(0);
        if first == '+' || first == '-' {
            negative = first == '-';
            start = 1;
        }
    }
    let ghost digits = unsigned_part(text@);
    assert(digits == text@.skip(start as int));
    if start == n {
        return Err(Problem::NotNumeric);
    }
    let mut value: u64 = 0;
    let mut beyond = false;
    let mut i: usize = start;
    while i < n
        invariant
            start <= i <= n,
            n == text@.len(),
            digits == text@.skip(start as int),
            digits == unsigned_part(text@),
            all_digits(digits.take(i - start)),
            !beyond ==> value == digits_value(digits.take(i - start)) && value <= LARGEST_COUNT,
            beyond ==> digits_value(digits.take(i - start)) > LARGEST_COUNT,
        decreases n - i,
    {
        let c = text.get_char(i);
        let ghost seen = digits.take(i - start);
        let ghost longer = digits.take(i + 1 - start);
        assert(longer.drop_last() == seen);
        assert(longer.last() == c);
        if !(c >= '0' && c <= '9') {
            assert(digits[i - start] == c);
            assert(!all_digits(digits));
            return Err(Problem::NotNumeric);
        }
        assert(all_digits(longer)) by {
            assert forall|k: int| 0 <= k < longer.len() implies is_digit(#[trigger] longer[k]) by {
                if k < seen.len() {
                    assert(longer[k] == seen[k]);
                }
            }
        }
        let digit: u64 = (c as u32 - '0' as u32) as u64;
        if !beyond {
            if value > (LARGEST_COUNT - digit) / 10 {
                beyond = true;
            } else {
                value = value * 10 + digit;
            }
        }
        i = i + 1;
    }
    assert(digits.take(n - start) == digits);
    if negative && (beyond || value > 0) {
        Err(Problem::Negative)
    } else if beyond {
        Err(Problem::TooLarge)
    } else {
        Ok(value)
    }
}

/// What an option says: nothing where it is absent, else its count or the
/// reason why it has none.
pub open spec fn setting_value(raw: Option<String>, setting: Setting) -> Result<
    Option<u64>,
    InvalidArgument,
> {
    match raw {
        None => Ok(None),
        Some(text) => match reading(text@) {
            Ok(count) => Ok(Some(count)),
            Err(problem) => Err(InvalidArgument { setting, problem }),
        },
    }
}

/// The cap that an option asks for: none where the option is absent.
pub open spec fn cap_of(count: Option<u64>) -> Cap {
    match count {
        None => Cap::Unbounded,
        Some(limit) => Cap::AtMost(limit),
    }
}

/// The policy that `options` ask for, or the first option, in the order
/// minimum age, kill cap, display cap, whose value cannot be used.
pub open spec fn resolution(options: Options) -> Result<Policy, InvalidArgument> {
    match setting_value(options.min_age, Setting::MinAge) {
        Err(invalid) => Err(invalid),
        Ok(min_age) => match setting_value(options.max_killed, Setting::Max) {
            Err(invalid) => Err(invalid),
            Ok(max_killed) => match setting_value(options.max_cnt, Setting::MaxCnt) {
                Err(invalid) => Err(invalid),
                Ok(max_cnt) => Ok(
                    Policy {
                        minimum_age_minutes: match min_age {
                            Some(minutes) => minutes,
                            None => DEFAULT_MINIMUM_AGE_MINUTES,
                        },
                        display_cap: cap_of(max_cnt),
                        kill_cap: cap_of(max_killed),
                        kill_enabled: options.kill,
                        dry_run: options.dry_run,
                        verbose: options.debug,
                    },
                ),
            },
        },
    }
}

fn read_setting(raw: &Option<String>, setting: Setting) -> (r: Result<Option<u64>, InvalidArgument>)
    ensures
        r == setting_value(*raw, setting),
{
    match raw {
        None => Ok(None),
        Some(text) => match parse_count(text.as_str()) {
            Ok(count) => Ok(Some(count)),
            Err(problem) => Err(InvalidArgument { setting, problem }),
        },
    }
}

fn cap_from(count: Option<u64>) -> (cap: Cap)
    ensures
        cap == cap_of(count),
{
    match count {
        None => Cap::Unbounded,
        Some(limit) => Cap::AtMost(limit),
    }
}

/// Turns the options of an invocation into the policy of the run, with every
/// default filled in.
pub fn resolve(options: &Options) -> (r: Result<Policy, InvalidArgument>)
    ensures
        r == resolution(*options),
{
    let min_age = match read_setting(&options.min_age, Setting::MinAge) {
        Ok(value) => value,
        Err(invalid) => {
            return Err(invalid);
        },
    };
    let max_killed = match read_setting(&options.max_killed, Setting::Max) {
        Ok(value) => value,
        Err(invalid) => {
            return Err(invalid);
        },
    };
    let max_cnt = match read_setting(&options.max_cnt, Setting::MaxCnt) {
        Ok(value) => value,
        Err(invalid) => {
            return Err(invalid);
        },
    };
    Ok(
        Policy {
            minimum_age_minutes: match min_age {
                Some(minutes) => minutes,
                None => DEFAULT_MINIMUM_AGE_MINUTES,
            },
            display_cap: cap_from(max_cnt),
            kill_cap: cap_from(max_killed),
            kill_enabled: options.kill,
            dry_run: options.dry_run,
            verbose: options.debug,
        },
    )
}

} // verus!
