use vstd::prelude::*;
use vstd::string::StrSliceExecFns;

use crate::algorithm::InvalidConfig;
use crate::rate_limiter::{config_error, AlgorithmType, RateLimiter};
use crate::tiers::TierLimiters;

verus! {

/// The gateway's settings, read from environment-style key/value pairs.
#[derive(Clone, Debug)]
pub struct GatewayConfig {
    pub global_capacity: u64,
    pub global_refill_rate: u64,
    pub ip_capacity: u64,
    pub ip_refill_rate: u64,
    pub route_capacity: u64,
    pub route_refill_rate: u64,
    pub upstream_base_url: String,
    pub algorithm: String,
}

/// A setting that cannot be used.
#[derive(Clone, Copy, Debug, PartialEq, Eq)]
pub enum ConfigError {
    /// The named setting is not a number.
    InvalidNumber(&'static str),
    /// The named setting has a value outside its allowed set.
    InvalidValue(&'static str),
}

/// The default of every capacity and refill rate.
pub const DEFAULT_LIMIT: u64 = 1;

/// The default upstream service.
pub const DEFAULT_UPSTREAM: &'static str = "https://httpbin.org";

/// The default algorithm name.
pub const DEFAULT_ALGORITHM: &'static str = "token_bucket";

pub open spec fn is_digit(c: char) -> bool {
    '0' <= c && c <= '9'
}

/// The number that a string of decimal digits denotes.
pub open spec fn digits_value(s: Seq<char>) -> nat
    decreases s.len(),
{
    if s.len() == 0 {
        0
    } else {
        digits_value(s.drop_last()) * 10 + ((s.last() as int) - ('0' as int)) as nat
    }
}

/// Whether every character of `s` is a decimal digit.
pub open spec fn all_digits(s: Seq<char>) -> bool {
    forall|i: int| 0 <= i < s.len() ==> is_digit(#[trigger] s[i])
}

/// `s` without one leading `+`, if it has one.
pub open spec fn unsigned_part(s: Seq<char>) -> Seq<char> {
    if s.len() > 0 && s[0] == '+' {
        s.drop_first()
    } else {
        s
    }
}

/// What `u64::from_str` accepts: an optional `+`, then one or more decimal
/// digits denoting a value that fits in a `u64`; nothing else.
pub open spec fn parsed_u64(s: Seq<char>) -> Option<u64> {
    let digits = unsigned_part(s);
    if digits.len() > 0 && all_digits(digits) && digits_value(digits) <= u64::MAX {
        Some(digits_value(digits) as u64)
    } else {
        None
    }
}

/// A prefix of a string of digits denotes no more than the whole.
proof fn lemma_digits_prefix_value(s: Seq<char>, j: int)
    requires
        0 <= j <= s.len(),
        forall|i: int| 0 <= i < s.len() ==> is_digit(#[trigger] s[i]),
    ensures
        digits_value(s.subrange(0, j)) <= digits_value(s),
    decreases s.len(),
{
    if j < s.len() {
        let init = s.drop_last();
        assert forall|i: int| 0 <= i < init.len() implies is_digit(#[trigger] init[i]) by {
            assert(init[i] == s[i]);
        }
        lemma_digits_prefix_value(init, j);
        assert(init.subrange(0, j) =~= s.subrange(0, j));
    } else {
        assert(s.subrange(0, j) =~= s);
    }
}

/// Reads a decimal number: an optional `+`, then one or more digits whose
/// value fits in a `u64`, and nothing else (what `u64::from_str` accepts).
pub fn parse_u64(s: &str) -> (r: Option<u64>)
    ensures
        r == parsed_u64(s@),
{
    let n = s.unicode_len();
    let start: usize = if n > 0 && s.get_char(0) == '+' {
        1
    } else {
        0
    };
    let ghost digits = s@.subrange(start as int, n as int);
    proof {
        if n > 0 && s@[0] == '+' {
            assert(digits =~= s@.drop_first());
        } else {
            assert(digits =~= s@);
        }
        assert(digits == unsigned_part(s@));
    }
    if start == n {
        return None;
    }
    let mut value: u64 = 0;
    let mut i: usize = start;
    proof {
        assert(digits.subrange(0, 0) =~= Seq::<char>::empty());
    }
    while i < n
        invariant
            start <= i <= n,
            n == s@.len(),
            digits == s@.subrange(start as int, n as int),
            digits == unsigned_part(s@),
            forall|k: int| 0 <= k < i - start ==> is_digit(#[trigger] digits[k]),
            value == digits_value(digits.subrange(0, i - start)),
        decreases n - i,
    {
        let c = s.get_char(i);
        if c < '0' || c > '9' {
            proof {
                assert(digits[i - start] == c);
                assert(!is_digit(digits[i - start]));
                assert(!all_digits(digits));
            }
            return None;
        }
        let d: u64 = (c as u32 - '0' as u32) as u64;
        let ghost next = digits.subrange(0, i - start + 1);
        proof {
            assert(next.drop_last() =~= digits.subrange(0, i - start));
            assert(next.last() == c);
            assert(d == (c as int) - ('0' as int));
            assert(digits_value(next) == value * 10 + d);
        }
        if value > (u64::MAX - d) / 10 {
            proof {
                assert(value * 10 + d > u64::MAX) by (nonlinear_arith)
                    requires
                        value > (u64::MAX - d) / 10,
                        d <= 9,
                ;
                if all_digits(digits) {
                    lemma_digits_prefix_value(digits, i - start + 1);
                    assert(digits_value(digits) > u64::MAX);
                }
            }
            return None;
        }
        proof {
            assert(value * 10 + d <= u64::MAX) by (nonlinear_arith)
                requires
                    value <= (u64::MAX - d) / 10,
                    d <= 9,
            ;
        }
        value = value * 10 + d;
        i = i + 1;
    }
    proof {
        assert(digits.subrange(0, n - start) =~= digits);
    }
    Some(value)
}

/// The value of the first pair in `vars` whose key is `key`.
pub open spec fn lookup(vars: Seq<(String, String)>, key: Seq<char>) -> Option<Seq<char>>
    decreases vars.len(),
{
    if vars.len() == 0 {
        None
    } else if vars[0].0@ == key {
        Some(vars[0].1@)
    } else {
        lookup(vars.drop_first(), key)
    }
}

/// The number set under `key`, or `default` when it is unset or not a number.
pub open spec fn number_or(vars: Seq<(String, String)>, key: Seq<char>, default: u64) -> u64 {
    match lookup(vars, key) {
        Some(v) => match parsed_u64(v) {
            Some(n) => n,
            None => default,
        },
        None => default,
    }
}

/// The text set under `key`, or `default` when it is unset.
pub open spec fn text_or(vars: Seq<(String, String)>, key: Seq<char>, default: Seq<char>) -> Seq<char> {
    match lookup(vars, key) {
        Some(v) => v,
        None => default,
    }
}

/// Whether `a` and `b` hold the same characters.
fn same_text(a: &str, b: &str) -> (r: bool)
    ensures
        r == (a@ == b@),
{
    let n = a.unicode_len();
    if n != b.unicode_len() {
        return false;
    }
    let mut i: usize = 0;
    while i < n
        invariant
            n == a@.len(),
            n == b@.len(),
            i <= n,
            forall|k: int| 0 <= k < i ==> a@[k] == b@[k],
        decreases n - i,
    {
        if a.get_char(i) != b.get_char(i) {
            return false;
        }
        i = i + 1;
    }
    proof {
        assert(a@ =~= b@);
    }
    true
}

fn find_value<'a>(vars: &'a Vec<(String, String)>, key: &str) -> (r: Option<&'a String>)
    ensures
        lookup(vars@, key@) is None ==> r is None,
        lookup(vars@, key@) matches Some(v) ==> r is Some && r->Some_0@ == v,
{
    let mut i: usize = 0;
    proof {
        assert(vars@.subrange(0, vars@.len() as int) =~= vars@);
    }
    while i < vars.len()
        invariant
            i <= vars@.len(),
            lookup(vars@.subrange(i as int, vars@.len() as int), key@) == lookup(vars@, key@),
        decreases vars@.len() - i,
    {
        proof {
            let rest = vars@.subrange(i as int, vars@.len() as int);
            assert(rest.drop_first() =~= vars@.subrange(i + 1, vars@.len() as int));
        }
        if same_text(vars[i].0.as_str(), key) {
            return Some(&vars[i].1);
        }
        i = i + 1;
    }
    None
}

fn read_number(vars: &Vec<(String, String)>, key: &str, default: u64) -> (r: u64)
    ensures
        r == number_or(vars@, key@, default),
{
    match find_value(vars, key) {
        Some(v) => match parse_u64(v.as_str()) {
            Some(n) => n,
            None => default,
        },
        None => default,
    }
}

fn read_text(vars: &Vec<(String, String)>, key: &str, default: &str) -> (r: String)
    ensures
        r@ == text_or(vars@, key@, default@),
{
    match find_value(vars, key) {
        Some(v) => v.clone(),
        None => default.to_owned(),
    }
}

/// The algorithm a name selects: `sliding_log`, `sliding_counter`, and the
/// token bucket for any other name.
pub open spec fn algorithm_named(name: Seq<char>) -> AlgorithmType {
    if name == "sliding_log"@ {
        AlgorithmType::SlidingLog
    } else if name == "sliding_counter"@ {
        AlgorithmType::SlidingCounter
    } else {
        AlgorithmType::TokenBucket
    }
}

impl AlgorithmType {
    /// The algorithm a name selects: `sliding_log`, `sliding_counter`, and the
    /// token bucket for any other name.
    pub fn from_name(name: &str) -> (r: AlgorithmType)
        ensures
            r == algorithm_named(name@),
    {
        if same_text(name, "sliding_log") {
            AlgorithmType::SlidingLog
        } else if same_text(name, "sliding_counter") {
            AlgorithmType::SlidingCounter
        } else {
            AlgorithmType::TokenBucket
        }
    }
}

impl GatewayConfig {
    /// Reads the settings from `vars`, environment-style pairs: each number
    /// that is unset or not a number takes its default, and so does each unset
    /// text.
    pub fn from_env(vars: &Vec<(String, String)>) -> (r: Result<GatewayConfig, ConfigError>)
        ensures
            r is Ok,
            r matches Ok(c) ==> {
                &&& c.global_capacity == number_or(vars@, "GLOBAL_CAPACITY"@, DEFAULT_LIMIT)
                &&& c.global_refill_rate == number_or(vars@, "GLOBAL_REFILL_RATE"@, DEFAULT_LIMIT)
                &&& c.ip_capacity == number_or(vars@, "IP_CAPACITY"@, DEFAULT_LIMIT)
                &&& c.ip_refill_rate == number_or(vars@, "IP_REFILL_RATE"@, DEFAULT_LIMIT)
                &&& c.route_capacity == number_or(vars@, "ROUTE_CAPACITY"@, DEFAULT_LIMIT)
                &&& c.route_refill_rate == number_or(vars@, "ROUTE_REFILL_RATE"@, DEFAULT_LIMIT)
                &&& c.upstream_base_url@ == text_or(vars@, "UPSTREAM_BASE_URL"@, DEFAULT_UPSTREAM@)
                &&& c.algorithm@ == text_or(vars@, "RATE_LIMITER_ALGO"@, DEFAULT_ALGORITHM@)
            },
    {
        Ok(GatewayConfig {
            global_capacity: read_number(vars, "GLOBAL_CAPACITY", DEFAULT_LIMIT),
            global_refill_rate: read_number(vars, "GLOBAL_REFILL_RATE", DEFAULT_LIMIT),
            ip_capacity: read_number(vars, "IP_CAPACITY", DEFAULT_LIMIT),
            ip_refill_rate: read_number(vars, "IP_REFILL_RATE", DEFAULT_LIMIT),
            route_capacity: read_number(vars, "ROUTE_CAPACITY", DEFAULT_LIMIT),
            route_refill_rate: read_number(vars, "ROUTE_REFILL_RATE", DEFAULT_LIMIT),
            upstream_base_url: read_text(vars, "UPSTREAM_BASE_URL", DEFAULT_UPSTREAM),
            algorithm: read_text(vars, "RATE_LIMITER_ALGO", DEFAULT_ALGORITHM),
        })
    }

    /// The first of the global, route and client tier settings that a manager
    /// rejects, with the reason.
    pub open spec fn first_error(self) -> Option<InvalidConfig> {
        let kind = algorithm_named(self.algorithm@);
        match config_error(kind, self.global_capacity, self.global_refill_rate) {
            Some(e) => Some(e),
            None => match config_error(kind, self.route_capacity, self.route_refill_rate) {
                Some(e) => Some(e),
                None => config_error(kind, self.ip_capacity, self.ip_refill_rate),
            },
        }
    }

    /// The algorithm that the `algorithm` setting names.
    pub fn algorithm_type(&self) -> (r: AlgorithmType)
        ensures
            r == algorithm_named(self.algorithm@),
    {
        AlgorithmType::from_name(self.algorithm.as_str())
    }

    /// The three tier managers that the settings describe, all with the named
    /// algorithm; a setting that a manager rejects is reported.
    pub fn limiters(&self) -> (r: Result<TierLimiters, InvalidConfig>)
        ensures
            r matches Ok(t) ==> t.wf() && t.global.entries().is_empty() && t.route.entries().is_empty()
                && t.ip.entries().is_empty(),
            r matches Ok(t) ==> t.global.spec_capacity() == self.global_capacity && t.global.spec_refill_rate()
                == self.global_refill_rate && t.route.spec_capacity() == self.route_capacity
                && t.route.spec_refill_rate() == self.route_refill_rate && t.ip.spec_capacity() == self.ip_capacity
                && t.ip.spec_refill_rate() == self.ip_refill_rate && t.global.spec_algorithm() == algorithm_named(
                self.algorithm@,
            ) && t.route.spec_algorithm() == t.global.spec_algorithm() && t.ip.spec_algorithm() == t.global.spec_algorithm(),
            r is Err <==> self.first_error() is Some,
            r matches Err(e) ==> self.first_error() == Some(e),
    {
        let kind = self.algorithm_type();
        let global = match RateLimiter::new(self.global_capacity, self.global_refill_rate, kind) {
            Ok(l) => l,
            Err(e) => return Err(e),
        };
        let route = match RateLimiter::new(self.route_capacity, self.route_refill_rate, kind) {
            Ok(l) => l,
            Err(e) => return Err(e),
        };
        let ip = match RateLimiter::new(self.ip_capacity, self.ip_refill_rate, kind) {
            Ok(l) => l,
            Err(e) => return Err(e),
        };
        Ok(TierLimiters { global, route, ip })
    }
}

} // verus!
