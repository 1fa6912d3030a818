//! Command-line values: verbosity and config overrides.
use vstd::prelude::*;
use crate::text::{chars_of, string_of};

verus! {

/// How much to log.
#[derive(Debug, Clone, Copy, PartialEq, Eq, Structural)]
pub enum LogLevel {
    Off,
    Error,
    Warn,
    Info,
    Debug,
    Trace,
}

/// How often `-v` and `-q` were given.
#[derive(Debug, Clone, Copy, Default, PartialEq, Eq, Structural)]
pub struct Verbosity {
    pub verbose: u8,
    pub quiet: u8,
}

/// The log level for a verbosity; 1 is the default, warnings.
pub open spec fn level_of(v: int) -> LogLevel {
    if v <= -1 {
        LogLevel::Off
    } else if v == 0 {
        LogLevel::Error
    } else if v == 1 {
        LogLevel::Warn
    } else if v == 2 {
        LogLevel::Info
    } else if v == 3 {
        LogLevel::Debug
    } else {
        LogLevel::Trace
    }
}

impl Verbosity {
    pub open spec fn spec_verbosity(&self) -> int {
        1 - self.quiet + self.verbose
    }

    /// One more than the `-v` count less the `-q` count.
    pub fn verbosity(&self) -> (r: i8)
        requires
            -128 <= self.spec_verbosity() <= 127,
        ensures
            r == self.spec_verbosity(),
    {
        (1 - (self.quiet as i16) + (self.verbose as i16)) as i8
    }

    /// The log level that the verbosity selects.
    pub fn log_level(&self) -> (r: LogLevel)
        ensures
            r == level_of(self.spec_verbosity()),
    {
        let v: i16 = 1 - (self.quiet as i16) + (self.verbose as i16);
        if v <= -1 {
            LogLevel::Off
        } else if v == 0 {
            LogLevel::Error
        } else if v == 1 {
            LogLevel::Warn
        } else if v == 2 {
            LogLevel::Info
        } else if v == 3 {
            LogLevel::Debug
        } else {
            LogLevel::Trace
        }
    }
}

/// The index of the first `=` in `s`, if any.
pub open spec fn first_equals(s: Seq<char>) -> Option<int> {
    if exists|i: int| 0 <= i < s.len() && s[i] == '=' {
        Some(choose|i: int| 0 <= i < s.len() && s[i] == '=' && forall|j: int| 0 <= j < i ==> s[j] != '=')
    } else {
        None
    }
}

/// The message for a pair without `=`.
pub open spec fn missing_equals_message(s: Seq<char>) -> Seq<char> {
    "invalid KEY=value: no `=` found in `"@ + s + "`"@
}

/// Parses a `KEY=value` pair, split at the first `=`.
pub fn parse_key_val(s: &str) -> (r: Result<(String, String), String>)
    ensures
        first_equals(s@) matches Some(p) ==> (r matches Ok(kv) && kv.0@ == s@.take(p) && kv.1@
            == s@.skip(p + 1)),
        first_equals(s@) is None ==> (r matches Err(m) && m@ == missing_equals_message(s@)),
{
    let v = chars_of(s);
    let mut i: usize = 0;
    while i < v.len() && v[i] != '='
        invariant
            v@ == s@,
            i <= v@.len(),
            forall|j: int| 0 <= j < i ==> v@[j] != '=',
        decreases v.len() - i,
    {
        i = i + 1;
    }
    if i == v.len() {
        let mut msg = chars_of("invalid KEY=value: no `=` found in `");
        let mut j: usize = 0;
        let ghost prefix = msg@;
        while j < v.len()
            invariant
                j <= v@.len(),
                msg@ == prefix + v@.take(j as int),
            decreases v.len() - j,
        {
            msg.push(v[j]);
            assert(v@.take(j + 1) =~= v@.take(j as int).push(v@[j as int]));
            j = j + 1;
        }
        let tail = chars_of("`");
        let ghost before = msg@;
        let mut k: usize = 0;
        while k < tail.len()
            invariant
                k <= tail@.len(),
                msg@ == before + tail@.take(k as int),
            decreases tail.len() - k,
        {
            msg.push(tail[k]);
            assert(tail@.take(k + 1) =~= tail@.take(k as int).push(tail@[k as int]));
            k = k + 1;
        }
        assert(v@.take(v@.len() as int) =~= v@);
        assert(tail@.take(tail@.len() as int) =~= tail@);
        assert(msg@ =~= missing_equals_message(s@));
        proof {
            if exists|t: int| 0 <= t < s@.len() && s@[t] == '=' {
                let t = choose|t: int| 0 <= t < s@.len() && s@[t] == '=';
                assert(v@[t] != '=');
            }
        }
        return Err(string_of(msg.as_slice()));
    }
    let mut key: Vec<char> = Vec::new();
    let mut a: usize = 0;
    while a < i
        invariant
            a <= i,
            i < v@.len(),
            key@ == v@.take(a as int),
        decreases i - a,
    {
        key.push(v[a]);
        assert(v@.take(a + 1) =~= v@.take(a as int).push(v@[a as int]));
        a = a + 1;
    }
    let mut val: Vec<char> = Vec::new();
    let mut b: usize = i + 1;
    while b < v.len()
        invariant
            i + 1 <= b <= v@.len(),
            val@ == v@.subrange(i + 1, b as int),
        decreases v.len() - b,
    {
        val.push(v[b]);
        assert(v@.subrange(i + 1, b + 1) =~= v@.subrange(i + 1, b as int).push(v@[b as int]));
        b = b + 1;
    }
    proof {
        let p = first_equals(s@)->Some_0;
        assert(first_equals(s@) is Some);
        if p < i {
            assert(v@[p] != '=');
        } else if p > i {
        }
        assert(p == i);
        assert(v@.subrange(i + 1, v@.len() as int) =~= v@.skip(i + 1));
    }
    Ok((string_of(key.as_slice()), string_of(val.as_slice())))
}

} // verus!
