//! System configuration, assembled from the values of the two environment
//! variables the process reads at startup. Reading the environment happens
//! outside the library; what is decided here is exactly which values are
//! accepted and what they yield.

use vstd::prelude::*;

use crate::email::is_ascii_digit;

verus! {

/// The two startup settings: where the database is and where to listen.
#[derive(Debug)]
pub struct Config {
    pub database_url: String,
    pub server_port: u16,
}

/// A startup failure; either one is fatal before any request is served.
#[derive(Clone, Copy, Debug, PartialEq, Eq, Structural)]
pub enum ConfigError {
    /// The database connection string is absent.
    MissingDatabaseUrl,
    /// The listen port is present but not a decimal port number.
    InvalidServerPort,
}

impl ConfigError {
    /// The message a startup report prints for this failure.
    pub fn message(&self) -> (m: String)
        ensures
            *self == ConfigError::MissingDatabaseUrl ==> m@ == "DATABASE_URL is not set"@,
            *self == ConfigError::InvalidServerPort ==> m@ == "SERVER_PORT is invalid"@,
    {
        match self {
            ConfigError::MissingDatabaseUrl => String::from_str("DATABASE_URL is not set"),
            ConfigError::InvalidServerPort => String::from_str("SERVER_PORT is invalid"),
        }
    }
}

/// Every character of `s` is a decimal digit.
pub open spec fn all_digits(s: Seq<char>) -> bool {
    forall|i: int| 0 <= i < s.len() ==> is_ascii_digit(#[trigger] s[i])
}

/// The number a string of digits denotes, most significant digit first.
pub open spec fn decimal_value(s: Seq<char>) -> int
    decreases s.len(),
{
    if s.len() == 0 {
        0
    } else {
        decimal_value(s.drop_last()) * 10 + (s.last() as u32 - 48)
    }
}

/// The digit part of a port string: what follows an optional leading plus.
pub open spec fn port_digits(s: Seq<char>) -> Seq<char> {
    if s.len() > 0 && s[0] == '+' {
        s.subrange(1, s.len() as int)
    } else {
        s
    }
}

/// A string denotes a port, read as the standard unsigned parse reads one:
/// an optional leading plus, then at least one digit, value at most 65535.
pub open spec fn valid_port_str(s: Seq<char>) -> bool {
    port_digits(s).len() > 0 && all_digits(port_digits(s)) && decimal_value(port_digits(s))
        <= 65535
}

proof fn lemma_decimal_nonneg(s: Seq<char>)
    requires
        all_digits(s),
    ensures
        decimal_value(s) >= 0,
    decreases s.len(),
{
    if s.len() > 0 {
        assert forall|i: int| 0 <= i < s.drop_last().len() implies is_ascii_digit(
            #[trigger] s.drop_last()[i],
        ) by {
            assert(s.drop_last()[i] == s[i]);
        }
        lemma_decimal_nonneg(s.drop_last());
        assert(is_ascii_digit(s.last()));
    }
}

/// A digit string is at least as large as any of its prefixes.
proof fn lemma_decimal_prefix_le(s: Seq<char>, i: int)
    requires
        all_digits(s),
        0 <= i <= s.len(),
    ensures
        decimal_value(s.subrange(0, i)) <= decimal_value(s),
    decreases s.len() - i,
{
    assert forall|j: int, k: int| 0 <= k <= s.len() && 0 <= j < k implies is_ascii_digit(
        #[trigger] s.subrange(0, k)[j],
    ) by {
        assert(s.subrange(0, k)[j] == s[j]);
    }
    if i == s.len() {
        assert(s.subrange(0, i) =~= s);
    } else {
        lemma_decimal_prefix_le(s, i + 1);
        assert(s.subrange(0, i + 1).drop_last() =~= s.subrange(0, i));
        assert(s.subrange(0, i + 1).last() == s[i]);
        lemma_decimal_nonneg(s.subrange(0, i));
        assert(decimal_value(s.subrange(0, i + 1)) == decimal_value(s.subrange(0, i)) * 10 + (
        s[i] as u32 - 48));
    }
}

/// Parses a decimal port number: `Some` exactly on strings that denote a
/// port, and then the number they denote.
pub fn parse_port(s: &str) -> (r: Option<u16>)
    ensures
        valid_port_str(s@) ==> r == Some((decimal_value(port_digits(s@)) as u16)),
        !valid_port_str(s@) ==> r is None,
{
    let n = s.unicode_len();
    let mut start: usize = 0;
    if n > 0 {
        if s.get_char(0) == '+' {
            start = 1;
        }
    }
    let ghost d = port_digits(s@);
    proof {
        assert(d =~= s@.subrange(start as int, n as int));
    }
    if n == start {
        return None;
    }
    let mut acc: u32 = 0;
    let mut i: usize = start;
    while i < n
        invariant
            start <= i <= n,
            n == s@.len(),
            d == port_digits(s@),
            d == s@.subrange(start as int, n as int),
            all_digits(d.subrange(0, i - start)),
            acc == decimal_value(d.subrange(0, i - start)),
            acc <= 65535,
        decreases n - i,
    {
        let c = s.get_char(i);
        let u = c as u32;
        proof {
            assert(d[i - start] == s@[i as int]);
        }
        if u < 48 || u > 57 {
            proof {
                assert(!is_ascii_digit(d[i - start]));
            }
            return None;
        }
        let next = acc * 10 + (u - 48);
        proof {
            assert(d.subrange(0, i + 1 - start).drop_last() =~= d.subrange(0, i - start));
            assert(d.subrange(0, i + 1 - start).last() == d[i - start]);
            assert forall|k: int| 0 <= k < i + 1 - start implies is_ascii_digit(
                #[trigger] d.subrange(0, i + 1 - start)[k],
            ) by {
                if k < i - start {
                    assert(d.subrange(0, i + 1 - start)[k] == d.subrange(0, i - start)[k]);
                } else {
                    assert(d.subrange(0, i + 1 - start)[k] == d[i - start]);
                }
            }
            assert(decimal_value(d.subrange(0, i + 1 - start)) == next);
        }
        if next > 65535 {
            proof {
                if valid_port_str(s@) {
                    lemma_decimal_prefix_le(d, i + 1 - start);
                    assert(false);
                }
            }
            return None;
        }
        acc = next;
        i = i + 1;
    }
    proof {
        assert(d.subrange(0, n - start) =~= d);
    }
    Some(acc as u16)
}

impl Config {
    /// Assembles the configuration from the raw environment values.
    ///
    /// The database connection string is required. The port is optional and
    /// defaults to 8080; a present but malformed port is a startup failure,
    /// not silently defaulted.
    pub fn from_values(database_url: Option<String>, server_port: Option<String>) -> (r: Result<
        Config,
        ConfigError,
    >)
        ensures
            database_url is None ==> r == Err::<Config, ConfigError>(
                ConfigError::MissingDatabaseUrl,
            ),
            database_url matches Some(u) ==> match server_port {
                None => (r matches Ok(c) && c.database_url == u && c.server_port == 8080),
                Some(p) => {
                    &&& valid_port_str(p@) ==> (r matches Ok(c) && c.database_url == u
                        && c.server_port == decimal_value(port_digits(p@)) as u16)
                    &&& !valid_port_str(p@) ==> r == Err::<Config, ConfigError>(
                        ConfigError::InvalidServerPort,
                    )
                },
            },
    {
        match database_url {
            None => Err(ConfigError::MissingDatabaseUrl),
            Some(url) => match server_port {
                None => Ok(Config { database_url: url, server_port: 8080 }),
                Some(p) => match parse_port(p.as_str()) {
                    Some(port) => Ok(Config { database_url: url, server_port: port }),
                    None => Err(ConfigError::InvalidServerPort),
                },
            },
        }
    }
}

} // verus!
