use vstd::prelude::*;
use vstd::string::*;

use crate::cache::DateWindow;
use crate::time::{instant_of, Instant};

verus! {

/// The service's settings, read once at start.
pub struct Config {
    pub version: String,
    pub host: String,
    pub port: u16,
    pub log_level: String,
    pub log_json: bool,
    pub start_date: Instant,
    pub end_date: Instant,
}

/// Why settings were refused.
#[derive(Clone, Copy, Debug, PartialEq, Eq, Structural)]
pub enum ConfigError {
    /// The start date is not an RFC 3339 instant of years 0 to 9999.
    InvalidStartDate,
    /// The end date is not an RFC 3339 instant of years 0 to 9999.
    InvalidEndDate,
    /// The start date is later than the end date.
    StartAfterEnd,
}

pub open spec fn digit_char(d: nat) -> char {
    if d == 0 {
        '0'
    } else if d == 1 {
        '1'
    } else if d == 2 {
        '2'
    } else if d == 3 {
        '3'
    } else if d == 4 {
        '4'
    } else if d == 5 {
        '5'
    } else if d == 6 {
        '6'
    } else if d == 7 {
        '7'
    } else if d == 8 {
        '8'
    } else {
        '9'
    }
}

/// The decimal digits of `n`, without leading zeros.
pub open spec fn decimal(n: nat) -> Seq<char>
    decreases n,
{
    if n < 10 {
        seq![digit_char(n)]
    } else {
        decimal(n / 10).push(digit_char(n % 10))
    }
}

fn digit_text(d: u16) -> (r: &'static str)
    requires
        d < 10,
    ensures
        r@ == seq![digit_char(d as nat)],
{
    proof {
        reveal_strlit("0");
        reveal_strlit("1");
        reveal_strlit("2");
        reveal_strlit("3");
        reveal_strlit("4");
        reveal_strlit("5");
        reveal_strlit("6");
        reveal_strlit("7");
        reveal_strlit("8");
        reveal_strlit("9");
    }
    if d == 0 {
        "0"
    } else if d == 1 {
        "1"
    } else if d == 2 {
        "2"
    } else if d == 3 {
        "3"
    } else if d == 4 {
        "4"
    } else if d == 5 {
        "5"
    } else if d == 6 {
        "6"
    } else if d == 7 {
        "7"
    } else if d == 8 {
        "8"
    } else {
        assert(seq!['9'] =~= "9"@);
        "9"
    }
}

/// Appends the decimal digits of `n` to `s`.
fn append_decimal(s: &mut String, n: u16)
    ensures
        final(s)@ == old(s)@ + decimal(n as nat),
    decreases n,
{
    if n < 10 {
        s.append(digit_text(n));
    } else {
        append_decimal(s, n / 10);
        s.append(digit_text(n % 10));
        assert(final(s)@ =~= old(s)@ + decimal(n as nat));
    }
}

impl Config {
    /// Settings from their raw values; the two dates are RFC 3339 texts and must not be
    /// out of order.
    pub fn from_settings(
        version: String,
        host: String,
        port: u16,
        log_level: String,
        log_json: bool,
        start_text: &str,
        end_text: &str,
    ) -> (r: Result<Config, ConfigError>)
        ensures
            match r {
                Ok(c) => {
                    &&& instant_of(start_text@) == Some(c.start_date)
                    &&& instant_of(end_text@) == Some(c.end_date)
                    &&& c.start_date.total_nanos() <= c.end_date.total_nanos()
                    &&& c.version@ == version@ && c.host@ == host@ && c.port == port
                    &&& c.log_level@ == log_level@ && c.log_json == log_json
                },
                Err(e) => e == if instant_of(start_text@) is None {
                    ConfigError::InvalidStartDate
                } else if instant_of(end_text@) is None {
                    ConfigError::InvalidEndDate
                } else {
                    ConfigError::StartAfterEnd
                },
            },
            r is Ok <==> (instant_of(start_text@) is Some && instant_of(end_text@) is Some
                && instant_of(start_text@)->Some_0.total_nanos() <= instant_of(
                end_text@,
            )->Some_0.total_nanos()),
    {
        let start_date = match Instant::parse_rfc3339(start_text) {
            Some(d) => d,
            None => return Err(ConfigError::InvalidStartDate),
        };
        let end_date = match Instant::parse_rfc3339(end_text) {
            Some(d) => d,
            None => return Err(ConfigError::InvalidEndDate),
        };
        if start_date.secs > end_date.secs || (start_date.secs == end_date.secs
            && start_date.nanos > end_date.nanos) {
            assert(start_date.total_nanos() > end_date.total_nanos()) by (nonlinear_arith)
                requires
                    start_date.secs > end_date.secs || (start_date.secs == end_date.secs
                        && start_date.nanos > end_date.nanos),
                    start_date.nanos < 1_000_000_000,
                    end_date.nanos < 1_000_000_000,
            ;
            return Err(ConfigError::StartAfterEnd);
        }
        assert(start_date.total_nanos() <= end_date.total_nanos()) by (nonlinear_arith)
            requires
                start_date.secs < end_date.secs || (start_date.secs == end_date.secs
                    && start_date.nanos <= end_date.nanos),
                start_date.nanos < 1_000_000_000,
                end_date.nanos < 1_000_000_000,
        ;
        Ok(Config { version, host, port, log_level, log_json, start_date, end_date })
    }

    /// The configured window.
    pub fn window(&self) -> (r: DateWindow)
        ensures
            r == (DateWindow { start: self.start_date, end: self.end_date }),
    {
        DateWindow { start: self.start_date, end: self.end_date }
    }

    /// `host:port`, the address to listen on.
    pub fn get_host_port(&self) -> (r: String)
        ensures
            r@ == self.host@ + ":"@ + decimal(self.port as nat),
    {
        let mut s = self.host.clone();
        s.append(":");
        append_decimal(&mut s, self.port);
        s
    }

    /// `localhost:port`, a loopback alias.
    pub fn get_localhost_port(&self) -> (r: String)
        ensures
            r@ == "localhost:"@ + decimal(self.port as nat),
    {
        let mut s = String::from_str("localhost:");
        append_decimal(&mut s, self.port);
        s
    }

    /// `127.0.0.1:port`, a loopback alias.
    pub fn get_127_port(&self) -> (r: String)
        ensures
            r@ == "127.0.0.1:"@ + decimal(self.port as nat),
    {
        let mut s = String::from_str("127.0.0.1:");
        append_decimal(&mut s, self.port);
        s
    }
}

} // verus!
