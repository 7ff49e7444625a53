//! The agent's settings: the credential, the endpoint and the polling interval.
use vstd::prelude::*;

verus! {

/// Why the settings cannot start the agent.
#[derive(Debug, Clone, Copy, PartialEq, Eq, Structural)]
pub enum ConfigError {
    MissingCredential,
    MissingEndpoint,
    MissingInterval,
    /// The interval is not a positive decimal number of seconds that fits in 64 bits.
    InvalidInterval,
}

/// Settings fixed for the life of the process.
pub struct Config {
    pub credential: String,
    pub endpoint: String,
    pub interval_seconds: u64,
}

pub open spec fn is_digit(c: char) -> bool {
    '0' <= c && c <= '9'
}

pub open spec fn all_digits(s: Seq<char>) -> bool {
    forall|i: int| 0 <= i < s.len() ==> is_digit(#[trigger] s[i])
}

/// The number that a text of decimal digits writes.
pub open spec fn decimal_value(s: Seq<char>) -> int
    decreases s.len(),
{
    if s.len() == 0 {
        0
    } else {
        decimal_value(s.drop_last()) * 10 + (s.last() as int - '0' as int)
    }
}

/// Whether `s` is a valid interval: decimal digits for a number from 1 to `u64::MAX`.
pub open spec fn interval_ok(s: Seq<char>) -> bool {
    s.len() > 0 && all_digits(s) && 0 < decimal_value(s) <= u64::MAX
}

proof fn lemma_decimal_grows(s: Seq<char>, j: int)
    requires
        all_digits(s),
        0 <= j <= s.len(),
    ensures
        decimal_value(s) >= decimal_value(s.take(j)) >= 0,
    decreases s.len(),
{
    if s.len() > 0 {
        let init = s.drop_last();
        assert(is_digit(s[s.len() - 1]));
        if j == s.len() {
            assert(s.take(j) =~= s);
            lemma_decimal_grows(init, init.len() as int);
            assert(init.take(init.len() as int) =~= init);
        } else {
            lemma_decimal_grows(init, j);
            assert(init.take(j) =~= s.take(j));
        }
    } else {
        assert(s.take(j) =~= s);
    }
}

/// Reads an interval in seconds.
pub fn parse_interval(s: &str) -> (r: Result<u64, ConfigError>)
    ensures
        interval_ok(s@) ==> r == Ok::<u64, ConfigError>(decimal_value(s@) as u64),
        !interval_ok(s@) ==> r == Err::<u64, ConfigError>(ConfigError::InvalidInterval),
{
    let n = s.unicode_len();
    if n == 0 {
        return Err(ConfigError::InvalidInterval);
    }
    let mut v: u64 = 0;
    let mut i: usize = 0;
    while i < n
        invariant
            i <= n,
            n == s@.len(),
            all_digits(s@.take(i as int)),
            v as int == decimal_value(s@.take(i as int)),
        decreases n - i,
    {
        let c = s.get_char(i);
        proof {
            assert(s@.take(i + 1).drop_last() =~= s@.take(i as int));
            assert(s@.take(i + 1).last() == c);
        }
        if c < '0' || c > '9' {
            proof {
                assert(!all_digits(s@));
            }
            return Err(ConfigError::InvalidInterval);
        }
        let d = (c as u32 - '0' as u32) as u64;
        if v > (u64::MAX - d) / 10 {
            proof {
                assert(all_digits(s@.take(i + 1)));
                assert(decimal_value(s@.take(i + 1)) > u64::MAX);
                if all_digits(s@) {
                    lemma_decimal_grows(s@, i + 1);
                }
            }
            return Err(ConfigError::InvalidInterval);
        }
        v = v * 10 + d;
        i = i + 1;
    }
    proof {
        assert(s@.take(n as int) =~= s@);
    }
    if v == 0 {
        return Err(ConfigError::InvalidInterval);
    }
    Ok(v)
}

impl Config {
    /// Builds the settings from the values found for them; each of the three
    /// is required.
    pub fn from_settings(
        credential: Option<String>,
        endpoint: Option<String>,
        interval: Option<String>,
    ) -> (r: Result<Config, ConfigError>)
        ensures
            credential is None ==> r == Err::<Config, ConfigError>(ConfigError::MissingCredential),
            credential is Some && endpoint is None ==> r == Err::<Config, ConfigError>(
                ConfigError::MissingEndpoint,
            ),
            credential is Some && endpoint is Some && interval is None ==> r == Err::<
                Config,
                ConfigError,
            >(ConfigError::MissingInterval),
            credential is Some && endpoint is Some && interval is Some && !interval_ok(
                interval->0@,
            ) ==> r == Err::<Config, ConfigError>(ConfigError::InvalidInterval),
            credential is Some && endpoint is Some && interval is Some && interval_ok(interval->0@)
                ==> r is Ok && r->Ok_0.credential == credential->0 && r->Ok_0.endpoint
                == endpoint->0 && r->Ok_0.interval_seconds == decimal_value(interval->0@),
    {
        let credential = match credential {
            Some(c) => c,
            None => return Err(ConfigError::MissingCredential),
        };
        let endpoint = match endpoint {
            Some(e) => e,
            None => return Err(ConfigError::MissingEndpoint),
        };
        let interval = match interval {
            Some(i) => i,
            None => return Err(ConfigError::MissingInterval),
        };
        let interval_seconds = parse_interval(interval.as_str())?;
        Ok(Config { credential, endpoint, interval_seconds })
    }
}

} // verus!
