//! Building a test run: the seed, the number of runs, the number of runs at
//! a time, the configuration, the time limit and the determinism check, as
//! read from the environment.

use vstd::prelude::*;
use vstd::string::StringSliceAdditionalSpecFns;
use crate::runtime::Config;
use crate::time::Duration;

verus! {

/// Whether byte `c` is an ASCII decimal digit.
pub open spec fn is_digit(c: u8) -> bool {
    48 <= c <= 57
}

/// The value of the decimal digits `d`, most significant first.
pub open spec fn digits_value(d: Seq<u8>) -> nat
    decreases d.len(),
{
    if d.len() == 0 {
        0
    } else {
        digits_value(d.drop_last()) * 10 + (d.last() - 48) as nat
    }
}

/// The value of `d` if it is one or more decimal digits and nothing else,
/// and fits in a `u64`.
pub open spec fn spec_parse_digits(d: Seq<u8>) -> Option<u64> {
    if d.len() > 0 && (forall|i: int| 0 <= i < d.len() ==> is_digit(#[trigger] d[i])) && digits_value(d) <= u64::MAX {
        Some(digits_value(d) as u64)
    } else {
        None
    }
}

/// What parsing `s` as a `u64` gives: an optional `+`, then one or more
/// decimal digits and nothing else, whose value fits in a `u64`.
pub open spec fn spec_parse_u64(s: Seq<u8>) -> Option<u64> {
    if s.len() > 0 && s[0] == 43 {
        spec_parse_digits(s.skip(1))
    } else {
        spec_parse_digits(s)
    }
}

/// A longer run of digits is worth at least as much as its prefix.
proof fn lemma_digits_value_grows(d: Seq<u8>, k: int)
    requires
        0 <= k <= d.len(),
        forall|i: int| 0 <= i < d.len() ==> is_digit(#[trigger] d[i]),
    ensures
        digits_value(d.take(k)) <= digits_value(d),
    decreases d.len(),
{
    if k < d.len() {
        assert(d.drop_last().take(k) == d.take(k));
        assert forall|i: int| 0 <= i < d.drop_last().len() implies is_digit(#[trigger] d.drop_last()[i]) by {
            assert(d.drop_last()[i] == d[i]);
        }
        lemma_digits_value_grows(d.drop_last(), k);
    } else {
        assert(d.take(k) == d);
    }
}

/// Parses `s` as a decimal `u64`, as `str::parse::<u64>` does.
pub fn parse_u64(s: &str) -> (r: Option<u64>)
    ensures
        r == spec_parse_u64(s.spec_bytes()),
{
    let b = s.as_bytes();
    let ghost sb = b@;
    let start: usize = if b.len() > 0 && b[0] == 43u8 { 1 } else { 0 };
    let ghost d = sb.skip(start as int);
    proof {
        assert(d == (if sb.len() > 0 && sb[0] == 43 { sb.skip(1) } else { sb }));
    }
    if start >= b.len() {
        assert(d.len() == 0);
        return None;
    }
    let mut v: u64 = 0;
    let mut i: usize = start;
    while i < b.len()
        invariant
            sb == b@,
            sb == s.spec_bytes(),
            d == sb.skip(start as int),
            d == (if sb.len() > 0 && sb[0] == 43 { sb.skip(1) } else { sb }),
            start <= i <= b@.len(),
            forall|j: int| 0 <= j < i - start ==> is_digit(#[trigger] d[j]),
            v == digits_value(d.take(i - start)),
        decreases b@.len() - i,
    {
        let c = b[i];
        proof { assert(d[i - start] == c); }
        if c < 48u8 || c > 57u8 {
            assert(!is_digit(d[i - start]));
            assert(!(forall|j: int| 0 <= j < d.len() ==> is_digit(#[trigger] d[j])));
            assert(spec_parse_digits(d) is None);
            return None;
        }
        proof {
            assert(d.take(i - start + 1).drop_last() == d.take(i - start));
            assert(d.take(i - start + 1).last() == c);
        }
        let next = match v.checked_mul(10) {
            Some(m) => m.checked_add((c - 48u8) as u64),
            None => None,
        };
        match next {
            Some(n) => {
                v = n;
            },
            None => {
                proof {
                    if forall|j: int| 0 <= j < d.len() ==> is_digit(#[trigger] d[j]) {
                        lemma_digits_value_grows(d, i - start + 1);
                    }
                }
                return None;
            },
        }
        i = i + 1;
    }
    proof {
        assert(d.take(d.len() as int) == d);
    }
    Some(v)
}

/// Parses `s` as a decimal `u16`, as `str::parse::<u16>` does.
pub fn parse_u16(s: &str) -> (r: Option<u16>)
    ensures
        r == match spec_parse_u64(s.spec_bytes()) {
            Some(v) => if v <= u16::MAX { Some(v as u16) } else { None },
            None => None,
        },
{
    match parse_u64(s) {
        Some(v) => if v <= 65535 { Some(v as u16) } else { None },
        None => None,
    }
}

/// A value that is set and does not parse as a `u64`.
pub open spec fn not_u64(v: Option<&str>) -> bool {
    match v {
        Some(s) => spec_parse_u64(s.spec_bytes()) is None,
        None => false,
    }
}

/// A value that is set and does not parse as a `u16`.
pub open spec fn not_u16(v: Option<&str>) -> bool {
    match v {
        Some(s) => match spec_parse_u64(s.spec_bytes()) {
            Some(x) => x > u16::MAX,
            None => true,
        },
        None => false,
    }
}

/// A variable of the environment that does not hold an integer.
#[derive(Clone, Copy, Debug, PartialEq, Eq, Structural)]
pub enum BuilderError {
    /// `MADSIM_TEST_SEED` should be an integer.
    Seed,
    /// `MADSIM_TEST_JOBS` should be an integer.
    Jobs,
    /// `MADSIM_TEST_NUM` should be an integer.
    Num,
}

/// Builds a test run with custom configuration values.
pub struct Builder {
    /// The random seed for test.
    pub seed: u64,
    /// The number of tests.
    pub count: u64,
    /// The number of jobs to run simultaneously.
    pub jobs: u16,
    /// The configuration.
    pub config: Config,
    /// The time limit for the test.
    pub time_limit: Option<Duration>,
    /// Enable determinism check.
    pub check: bool,
}

impl Builder {
    /// A builder from the values of the environment: the seed (else
    /// `now_secs`, the seconds since the Unix epoch), the number of jobs
    /// (else 1), the configuration, the number of tests (else 1), the time
    /// limit and whether to check determinism. A determinism check runs the
    /// test at least twice. Each variable that is set but does not hold an
    /// integer is an error, reported in the order seed, jobs, number.
    pub fn from_values(
        seed: Option<&str>,
        now_secs: u64,
        jobs: Option<&str>,
        config: Config,
        num: Option<&str>,
        time_limit: Option<Duration>,
        check: bool,
    ) -> (r: Result<Builder, BuilderError>)
        ensures
            r == Err::<Builder, BuilderError>(BuilderError::Seed) <==> not_u64(seed),
            r == Err::<Builder, BuilderError>(BuilderError::Jobs) <==> !not_u64(seed) && not_u16(jobs),
            r == Err::<Builder, BuilderError>(BuilderError::Num) <==> !not_u64(seed) && !not_u16(jobs) && not_u64(num),
            r is Ok <==> !not_u64(seed) && !not_u16(jobs) && !not_u64(num),
            r matches Ok(b) ==> {
                &&& b.seed == match seed { Some(s) => spec_parse_u64(s.spec_bytes())->0, None => now_secs }
                &&& b.jobs == match jobs { Some(j) => spec_parse_u64(j.spec_bytes())->0 as u16, None => 1u16 }
                &&& b.config == config
                &&& b.time_limit == time_limit
                &&& b.check == check
                &&& {
                    let n = match num { Some(n) => spec_parse_u64(n.spec_bytes())->0, None => 1u64 };
                    b.count == if check && n < 2 { 2 } else { n }
                }
            },
    {
        let seed: u64 = match seed {
            Some(s) => match parse_u64(s) {
                Some(v) => v,
                None => return Err(BuilderError::Seed),
            },
            None => now_secs,
        };
        let jobs: u16 = match jobs {
            Some(j) => match parse_u16(j) {
                Some(v) => v,
                None => return Err(BuilderError::Jobs),
            },
            None => 1,
        };
        let mut count: u64 = match num {
            Some(n) => match parse_u64(n) {
                Some(v) => v,
                None => return Err(BuilderError::Num),
            },
            None => 1,
        };
        if check && count < 2 {
            count = 2;
        }
        Ok(Builder { seed, count, jobs, config, time_limit, check })
    }

    /// The seeds of the runs, one per test, counting up from the seed. A
    /// determinism check instead runs the seed twice, once to log and once to
    /// check. The seeds must not pass the largest `u64`.
    pub fn seeds(&self) -> (v: Vec<u64>)
        requires
            self.check || self.seed + self.count <= u64::MAX,
        ensures
            self.check ==> v@ == seq![self.seed, self.seed],
            !self.check ==> v@.len() == self.count
                && forall|i: int| 0 <= i < v@.len() ==> #[trigger] v@[i] == self.seed + i,
    {
        let mut v: Vec<u64> = Vec::new();
        if self.check {
            v.push(self.seed);
            v.push(self.seed);
            return v;
        }
        let mut i: u64 = 0;
        while i < self.count
            invariant
                !self.check,
                self.seed + self.count <= u64::MAX,
                i <= self.count,
                v@.len() == i,
                forall|k: int| 0 <= k < v@.len() ==> #[trigger] v@[k] == self.seed + k,
            decreases self.count - i,
        {
            v.push(self.seed + i);
            i = i + 1;
        }
        v
    }
}

} // verus!
