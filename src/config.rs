use vstd::prelude::*;

verus! {

#[derive(Clone, Copy, Debug, PartialEq, Eq, Structural)]
pub enum DatabaseType {
    Postgres,
    Sqlite,
}

#[derive(Debug)]
pub struct PostgresConfig {
    pub database_name: String,
    pub host: String,
    pub port: u16,
    pub user: String,
    pub password: String,
}

#[derive(Debug)]
pub struct SqliteConfig {
    pub path: String,
}

#[derive(Debug)]
pub struct DatabaseConfig {
    pub database_type: DatabaseType,
    pub postgres: PostgresConfig,
    pub sqlite: SqliteConfig,
}

#[derive(Clone, Copy, Debug, PartialEq, Eq, Structural)]
pub enum Scheduler {
    Embedded,
    Process,
    Node,
    Kubernetes,
}

#[derive(Clone, Copy, Debug, PartialEq, Eq, Structural)]
pub struct ProcessSchedulerConfig {
    pub slots_per_process: u32,
}

#[derive(Debug)]
pub struct PipelineConfig {
    /// Batch size
    pub source_batch_size: usize,
    /// How long to wait before flushing a batch
    pub source_batch_linger: HumanReadableDuration,
    /// How often to flush aggregates
    pub update_aggregate_flush_interval: HumanReadableDuration,
}

/// Settings of the SQL planner.
#[derive(Clone, Copy, Debug, PartialEq, Eq, Structural)]
pub struct SqlConfig {
    pub default_parallelism: usize,
}

impl Default for SqlConfig {
    fn default() -> (r: SqlConfig)
        ensures
            r.default_parallelism == 4,
    {
        SqlConfig { default_parallelism: 4 }
    }
}

/// Why a duration specification was refused.
#[derive(Clone, Copy, Debug, PartialEq, Eq, Structural)]
pub enum DurationError {
    /// Not a count of digits followed by optional spaces and a unit made of letters.
    InvalidSpecification,
    /// A unit that is none of the known ones.
    UnknownUnit,
    /// The count does not fit the duration's range.
    OutOfRange,
}

/// A duration written for people, such as `10s` or `5 minutes`, kept with its text.
#[derive(Debug)]
pub struct HumanReadableDuration {
    pub nanos: u128,
    pub original: String,
}

pub open spec fn is_digit(c: char) -> bool {
    '0' <= c <= '9'
}

/// The Unicode `White_Space` characters.
pub open spec fn is_space(c: char) -> bool {
    ('\t' <= c <= '\r') || c == ' ' || c == '\u{85}' || c == '\u{A0}' || c == '\u{1680}'
        || ('\u{2000}' <= c <= '\u{200A}') || c == '\u{2028}' || c == '\u{2029}' || c == '\u{202F}'
        || c == '\u{205F}' || c == '\u{3000}'
}

pub open spec fn is_unit_char(c: char) -> bool {
    ('a' <= c <= 'z') || ('A' <= c <= 'Z') || c == 'µ'
}

/// The first position at or after `i` whose character fails `p`, or the length.
pub open spec fn run_end(s: Seq<char>, i: int, digits: bool) -> int
    decreases s.len() - i,
{
    if i >= s.len() {
        s.len() as int
    } else if (digits && is_digit(s[i])) || (!digits && is_space(s[i])) {
        run_end(s, i + 1, digits)
    } else {
        i
    }
}

/// The number that the decimal digits of `s` spell.
pub open spec fn digits_value(s: Seq<char>) -> int
    decreases s.len(),
{
    if s.len() == 0 {
        0
    } else {
        digits_value(s.drop_last()) * 10 + (s.last() as int - '0' as int)
    }
}

/// Nanoseconds per unit, for the units understood.
pub open spec fn unit_nanos(u: Seq<char>) -> Option<int> {
    if u == "ns"@ || u == "nanos"@ {
        Some(1)
    } else if u == "µs"@ || u == "micros"@ {
        Some(1_000)
    } else if u == "ms"@ || u == "millis"@ {
        Some(1_000_000)
    } else if u == "s"@ || u == "secs"@ || u == "seconds"@ {
        Some(1_000_000_000)
    } else if u == "m"@ || u == "mins"@ || u == "minutes"@ {
        Some(60_000_000_000)
    } else if u == "h"@ || u == "hrs"@ || u == "hours"@ {
        Some(3_600_000_000_000)
    } else {
        None
    }
}

/// What `parse` makes of `s`: a count of nanoseconds, or why it was refused. A count
/// of minutes or hours must still fit `u64` once turned into seconds.
pub open spec fn parse_duration(s: Seq<char>) -> Result<int, DurationError> {
    let d = run_end(s, 0, true);
    let w = run_end(s, d, false);
    let unit = s.subrange(w, s.len() as int);
    if d == 0 || unit.len() == 0 || !(forall|i: int| 0 <= i < unit.len() ==> is_unit_char(#[trigger] unit[i])) {
        Err(DurationError::InvalidSpecification)
    } else {
        let n = digits_value(s.subrange(0, d));
        match unit_nanos(unit) {
            None => Err(DurationError::UnknownUnit),
            Some(f) => if n > u64::MAX || (f >= 60_000_000_000 && n * (f / 1_000_000_000) > u64::MAX) {
                Err(DurationError::OutOfRange)
            } else {
                Ok(n * f)
            },
        }
    }
}

fn space_char(c: char) -> (r: bool)
    ensures
        r == is_space(c),
{
    ('\t' <= c && c <= '\r') || c == ' ' || c == '\u{85}' || c == '\u{A0}' || c == '\u{1680}'
        || ('\u{2000}' <= c && c <= '\u{200A}') || c == '\u{2028}' || c == '\u{2029}' || c == '\u{202F}'
        || c == '\u{205F}' || c == '\u{3000}'
}

/// Whether the characters of `u` from `from` on spell `lit`.
fn tail_is(u: &str, from: usize, lit: &str) -> (r: bool)
    requires
        from <= u@.len(),
    ensures
        r == (u@.subrange(from as int, u@.len() as int) == lit@),
{
    let n = u.unicode_len();
    let m = lit.unicode_len();
    if n - from != m {
        proof {
            assert(u@.subrange(from as int, u@.len() as int).len() != lit@.len());
        }
        return false;
    }
    let mut i: usize = 0;
    while i < m
        invariant
            i <= m,
            m == lit@.len(),
            n == u@.len(),
            n - from == m,
            forall|j: int| 0 <= j < i ==> u@[from + j] == lit@[j],
        decreases m - i,
    {
        if u.get_char(from + i) != lit.get_char(i) {
            return false;
        }
        i = i + 1;
    }
    proof {
        assert(u@.subrange(from as int, u@.len() as int) =~= lit@);
    }
    true
}

impl HumanReadableDuration {
    /// Reads a count of decimal digits, optional Unicode whitespace, and a unit: `ns` or `nanos`,
    /// `µs` or `micros`, `ms` or `millis`, `s`, `secs` or `seconds`, `m`, `mins` or
    /// `minutes`, `h`, `hrs` or `hours`.
    pub fn parse(s: &str) -> (r: Result<HumanReadableDuration, DurationError>)
        ensures
            match parse_duration(s@) {
                Ok(n) => r matches Ok(d) && d.nanos == n && d.original@ == s@,
                Err(e) => r == Err::<HumanReadableDuration, DurationError>(e),
            },
    {
        let len = s.unicode_len();
        let mut d: usize = 0;
        let mut n: u128 = 0;
        while d < len && '0' <= s.get_char(d) && s.get_char(d) <= '9'
            invariant
                d <= len == s@.len(),
                run_end(s@, 0, true) == run_end(s@, d as int, true),
                forall|j: int| 0 <= j < d ==> is_digit(s@[j]),
                n == digits_value(s@.subrange(0, d as int)) || (n > u64::MAX && digits_value(s@.subrange(0, d as int)) > u64::MAX),
                n <= u64::MAX + 1,
            decreases len - d,
        {
            let c = s.get_char(d);
            proof {
                assert(s@.subrange(0, d + 1).drop_last() =~= s@.subrange(0, d as int));
                assert(digits_value(s@.subrange(0, d as int)) >= 0) by {
                    lemma_digits_nonneg(s@.subrange(0, d as int));
                }
            }
            if n <= u64::MAX as u128 {
                n = n * 10 + (c as u128 - '0' as u128);
                if n > u64::MAX as u128 {
                    n = u64::MAX as u128 + 1;
                }
            }
            d = d + 1;
        }
        let mut w: usize = d;
        while w < len && space_char(s.get_char(w))
            invariant
                d <= w <= len == s@.len(),
                run_end(s@, 0, true) == d,
                n == digits_value(s@.subrange(0, d as int)) || (n > u64::MAX && digits_value(s@.subrange(0, d as int)) > u64::MAX),
                n <= u64::MAX + 1,
                run_end(s@, d as int, false) == run_end(s@, w as int, false),
            decreases len - w,
        {
            w = w + 1;
        }
        if d == 0 || w == len {
            return Err(DurationError::InvalidSpecification);
        }
        let mut u: usize = w;
        while u < len
            invariant
                w <= u <= len == s@.len(),
                run_end(s@, 0, true) == d,
                run_end(s@, d as int, false) == w,
                n == digits_value(s@.subrange(0, d as int)) || (n > u64::MAX && digits_value(s@.subrange(0, d as int)) > u64::MAX),
                n <= u64::MAX + 1,
                forall|j: int| w <= j < u ==> is_unit_char(s@[j]),
            decreases len - u,
        {
            let c = s.get_char(u);
            if !(('a' <= c && c <= 'z') || ('A' <= c && c <= 'Z') || c == 'µ') {
                proof {
                    let unit = s@.subrange(w as int, len as int);
                    assert(!is_unit_char(unit[u - w]));
                }
                return Err(DurationError::InvalidSpecification);
            }
            u = u + 1;
        }
        proof {
            let unit = s@.subrange(w as int, len as int);
            assert forall|i: int| 0 <= i < unit.len() implies is_unit_char(#[trigger] unit[i]) by {
                assert(unit[i] == s@[w + i]);
            }
            reveal_strlit("ns");
            reveal_strlit("nanos");
            reveal_strlit("µs");
            reveal_strlit("micros");
            reveal_strlit("ms");
            reveal_strlit("millis");
            reveal_strlit("s");
            reveal_strlit("secs");
            reveal_strlit("seconds");
            reveal_strlit("m");
            reveal_strlit("mins");
            reveal_strlit("minutes");
            reveal_strlit("h");
            reveal_strlit("hrs");
            reveal_strlit("hours");
        }
        let factor: u128 = if tail_is(s, w, "ns") || tail_is(s, w, "nanos") {
            1
        } else if tail_is(s, w, "µs") || tail_is(s, w, "micros") {
            1_000
        } else if tail_is(s, w, "ms") || tail_is(s, w, "millis") {
            1_000_000
        } else if tail_is(s, w, "s") || tail_is(s, w, "secs") || tail_is(s, w, "seconds") {
            1_000_000_000
        } else if tail_is(s, w, "m") || tail_is(s, w, "mins") || tail_is(s, w, "minutes") {
            60_000_000_000
        } else if tail_is(s, w, "h") || tail_is(s, w, "hrs") || tail_is(s, w, "hours") {
            3_600_000_000_000
        } else {
            return Err(DurationError::UnknownUnit);
        };
        if n > u64::MAX as u128 {
            return Err(DurationError::OutOfRange);
        }
        assert(n * (factor / 1_000_000_000) <= (u64::MAX as u128) * 3_600) by (nonlinear_arith)
            requires
                n <= u64::MAX as u128,
                factor <= 3_600_000_000_000,
        ;
        assert(n * factor <= (u64::MAX as u128) * 3_600_000_000_000) by (nonlinear_arith)
            requires
                n <= u64::MAX as u128,
                factor <= 3_600_000_000_000,
        ;
        if factor >= 60_000_000_000 && n * (factor / 1_000_000_000) > u64::MAX as u128 {
            return Err(DurationError::OutOfRange);
        }
        let original = s.to_owned();
        Ok(HumanReadableDuration { nanos: n * factor, original })
    }
}

pub proof fn lemma_digits_nonneg(s: Seq<char>)
    requires
        forall|i: int| 0 <= i < s.len() ==> is_digit(#[trigger] s[i]),
    ensures
        digits_value(s) >= 0,
    decreases s.len(),
{
    if s.len() > 0 {
        lemma_digits_nonneg(s.drop_last());
    }
}

} // verus!
