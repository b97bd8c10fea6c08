//! Startup configuration: listen address, backend list, probe and task
//! intervals.  Configuration errors are fatal at startup, so constructors
//! return them rather than serving with a bad setup.

use crate::upstreams::Backend;
use vstd::prelude::*;

verus! {

/// A configuration fault found at startup.  The process must not start
/// serving traffic when one is reported.
#[derive(Clone, Copy, Debug, PartialEq, Eq, Structural)]
pub enum ConfigError {
    /// A backend was configured with weight zero.
    InvalidWeight,
    /// A backend was configured with an empty address.
    EmptyAddress,
    /// The task interval could not be read as a decimal number of minutes.
    InvalidInterval,
}

/// Whether `c` is a decimal digit.
pub open spec fn is_dec_digit(c: char) -> bool {
    48 <= c as u32 <= 57
}

/// The value of the digit `c`.
pub open spec fn digit_val(c: char) -> nat {
    ((c as u32) - 48) as nat
}

/// Whether every character of `s` is a decimal digit.
pub open spec fn all_digits(s: Seq<char>) -> bool {
    forall|i: int| 0 <= i < s.len() ==> is_dec_digit(#[trigger] s[i])
}

/// The number the digit string `s` denotes.
pub open spec fn dec_value(s: Seq<char>) -> nat
    decreases s.len(),
{
    if s.len() == 0 {
        0
    } else {
        dec_value(s.drop_last()) * 10 + digit_val(s.last())
    }
}

/// The digits of a number text: a single leading plus sign is allowed and
/// skipped.
pub open spec fn digits_of(s: Seq<char>) -> Seq<char> {
    if s.len() > 0 && s[0] == '+' {
        s.subrange(1, s.len() as int)
    } else {
        s
    }
}

/// Whether `s` reads as an unsigned 16-bit decimal number: at least one
/// digit after the optional sign, digits only, value in range.
pub open spec fn parseable_u16(s: Seq<char>) -> bool {
    &&& digits_of(s).len() > 0
    &&& all_digits(digits_of(s))
    &&& dec_value(digits_of(s)) <= u16::MAX
}

/// The value `s` reads as.
pub open spec fn parsed_u16(s: Seq<char>) -> nat {
    dec_value(digits_of(s))
}

/// A digit string is worth at least any of its prefixes.
proof fn lemma_dec_value_prefix(s: Seq<char>, i: int)
    requires
        0 <= i <= s.len(),
    ensures
        dec_value(s.take(i)) <= dec_value(s),
    decreases s.len() - i,
{
    if i == s.len() {
        assert(s.take(i) =~= s);
    } else {
        lemma_dec_value_prefix(s, i + 1);
        assert(s.take(i + 1).drop_last() =~= s.take(i));
        assert(dec_value(s.take(i + 1)) == dec_value(s.take(i)) * 10 + digit_val(s.take(i + 1).last()));
        assert(dec_value(s.take(i)) * 10 >= dec_value(s.take(i)));
    }
}

/// Reads `s` as an unsigned 16-bit decimal number, exactly as the
/// configuration loader accepts one: an optional leading plus sign, then
/// at least one digit, value at most `u16::MAX`.
pub fn parse_u16(s: &str) -> (r: Option<u16>)
    ensures
        (r is Some) <==> parseable_u16(s@),
        r matches Some(v) ==> v as nat == parsed_u16(s@),
{
    let len = s.unicode_len();
    let start: usize = if len > 0 && s.get_char(0) == '+' {
        1
    } else {
        0
    };
    let ghost ds = digits_of(s@);
    proof {
        assert(ds =~= s@.subrange(start as int, len as int));
    }
    if start >= len {
        return None;
    }
    let mut acc: u32 = 0;
    let mut i: usize = start;
    while i < len
        invariant
            start <= i <= len,
            len == s@.len(),
            ds == digits_of(s@),
            ds =~= s@.subrange(start as int, len as int),
            acc <= 65535,
            acc as nat == dec_value(ds.take(i - start)),
            all_digits(ds.take(i - start)),
        decreases len - i,
    {
        let c = s.get_char(i);
        let cu = c as u32;
        if cu < 48 || cu > 57 {
            proof {
                assert(ds[i - start] == s@[i as int]);
                assert(!is_dec_digit(ds[i - start]));
            }
            return None;
        }
        let d = cu - 48;
        acc = acc * 10 + d;
        proof {
            assert(ds.take(i - start + 1).drop_last() =~= ds.take(i - start));
            assert(ds.take(i - start + 1).last() == ds[i - start]);
            assert(ds[i - start] == s@[i as int]);
        }
        if acc > 65535 {
            proof {
                lemma_dec_value_prefix(ds, i - start + 1);
            }
            return None;
        }
        i = i + 1;
    }
    proof {
        assert(ds.take(len - start) =~= ds);
    }
    Some(acc as u16)
}

/// The whole configuration consumed by the core: routing on one side,
/// maintenance tasks on the other.
#[derive(Clone, Debug)]
pub struct AppConfig {
    pub proxy: ProxyConfig,
    pub tasks_config: TasksConfig,
}

impl AppConfig {
    /// Assembles the configuration from the values the environment
    /// supplied, applying every documented default; fails exactly where
    /// `TasksConfig::new` fails.
    pub fn new(
        listen_addr: Option<String>,
        backends: Vec<Backend>,
        health_check_interval_secs: Option<u64>,
        virtual_host: Option<String>,
        task_interval_raw: Option<&str>,
    ) -> (r: Result<AppConfig, ConfigError>)
        ensures
            (r is Ok) <==> (task_interval_raw matches Some(s) ==> parseable_u16(s@)),
            r matches Ok(c) ==> {
                &&& c.proxy.listen_addr@ == (match listen_addr {
                    Some(a) => a@,
                    None => "0.0.0.0:4444"@,
                })
                &&& c.proxy.backends@ == backends@
                &&& c.proxy.health_check_interval_secs == (match health_check_interval_secs {
                    Some(v) => v,
                    None => 1u64,
                })
                &&& c.proxy.virtual_host@ == (match virtual_host {
                    Some(v) => v@,
                    None => "one.one.one.one"@,
                })
                &&& c.tasks_config.interval_minutes as nat == (match task_interval_raw {
                    Some(s) => parsed_u16(s@),
                    None => 1nat,
                })
            },
            r matches Err(e) ==> e == ConfigError::InvalidInterval,
    {
        let proxy = ProxyConfig::new(listen_addr, backends, health_check_interval_secs, virtual_host);
        let tasks_config = match TasksConfig::new(task_interval_raw) {
            Ok(t) => t,
            Err(e) => {
                return Err(e);
            },
        };
        Ok(AppConfig { proxy, tasks_config })
    }
}

/// Routing configuration: where to listen, the ordered backend list with
/// weights, how often to probe, and the virtual-host name presented
/// upstream.  Immutable once loaded.
#[derive(Clone, Debug)]
pub struct ProxyConfig {
    pub listen_addr: String,
    pub backends: Vec<Backend>,
    pub health_check_interval_secs: u64,
    pub virtual_host: String,
}

impl ProxyConfig {
    /// Fills the routing configuration, with the documented defaults for
    /// everything left unset: listen on `0.0.0.0:4444`, probe every
    /// second, present `one.one.one.one` upstream.
    pub fn new(
        listen_addr: Option<String>,
        backends: Vec<Backend>,
        health_check_interval_secs: Option<u64>,
        virtual_host: Option<String>,
    ) -> (r: ProxyConfig)
        ensures
            r.listen_addr@ == (match listen_addr {
                Some(a) => a@,
                None => "0.0.0.0:4444"@,
            }),
            r.backends@ == backends@,
            r.health_check_interval_secs == (match health_check_interval_secs {
                Some(v) => v,
                None => 1u64,
            }),
            r.virtual_host@ == (match virtual_host {
                Some(v) => v@,
                None => "one.one.one.one"@,
            }),
    {
        let listen_addr = match listen_addr {
            Some(a) => a,
            None => "0.0.0.0:4444".to_owned(),
        };
        let health_check_interval_secs = match health_check_interval_secs {
            Some(v) => v,
            None => 1,
        };
        let virtual_host = match virtual_host {
            Some(v) => v,
            None => "one.one.one.one".to_owned(),
        };
        ProxyConfig { listen_addr, backends, health_check_interval_secs, virtual_host }
    }
}

/// Maintenance-task configuration: how many minutes between runs.
#[derive(Clone, Copy, Debug, PartialEq, Eq, Structural)]
pub struct TasksConfig {
    pub interval_minutes: u16,
}

impl TasksConfig {
    /// Reads the interval from the raw environment value: absent means
    /// the one-minute default, anything unparsable is a fatal
    /// configuration error.
    pub fn new(raw: Option<&str>) -> (r: Result<TasksConfig, ConfigError>)
        ensures
            (r is Ok) <==> (raw matches Some(s) ==> parseable_u16(s@)),
            r matches Ok(t) ==> t.interval_minutes as nat == (match raw {
                Some(s) => parsed_u16(s@),
                None => 1nat,
            }),
            r matches Err(e) ==> e == ConfigError::InvalidInterval,
    {
        match raw {
            Some(s) => {
                match parse_u16(s) {
                    Some(v) => Ok(TasksConfig { interval_minutes: v }),
                    None => Err(ConfigError::InvalidInterval),
                }
            },
            None => Ok(TasksConfig { interval_minutes: 1 }),
        }
    }
}

} // verus!
