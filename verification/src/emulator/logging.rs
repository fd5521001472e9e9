//! Logging decisions of the emulators: levels, timestamps and throttling.

use vstd::prelude::*;
use vstd::string::StrSliceExecFns;
use crate::text::{
    lower, to_lowercase, white_space, is_whitespace, push_char, push_two_digits, two_digits, string_is,
};

verus! {

/// Log levels, from most to least severe.
#[derive(Debug, Clone, Copy, PartialEq, Eq, Structural)]
pub enum LogLevel {
    Error,
    Warn,
    Info,
    Debug,
    Trace,
}

/// The position of a level: 0 for `Error` up to 4 for `Trace`.
pub open spec fn level_rank(l: LogLevel) -> u8 {
    match l {
        LogLevel::Error => 0u8,
        LogLevel::Warn => 1u8,
        LogLevel::Info => 2u8,
        LogLevel::Debug => 3u8,
        LogLevel::Trace => 4u8,
    }
}

/// The level that a lower-case name stands for (`Info` for unknown names).
pub open spec fn level_named(s: Seq<char>) -> LogLevel {
    if s == "error"@ {
        LogLevel::Error
    } else if s == "warn"@ {
        LogLevel::Warn
    } else if s == "info"@ {
        LogLevel::Info
    } else if s == "debug"@ {
        LogLevel::Debug
    } else if s == "trace"@ {
        LogLevel::Trace
    } else {
        LogLevel::Info
    }
}

/// The five-character label of a level.
pub open spec fn level_label(l: LogLevel) -> Seq<char> {
    match l {
        LogLevel::Error => "ERROR"@,
        LogLevel::Warn => "WARN "@,
        LogLevel::Info => "INFO "@,
        LogLevel::Debug => "DEBUG"@,
        LogLevel::Trace => "TRACE"@,
    }
}

impl LogLevel {
    /// The level a name stands for, ignoring case; unknown names give `Info`.
    pub fn from_str(s: &str) -> (l: LogLevel)
        ensures
            l == level_named(lower(s@)),
    {
        let lowered = to_lowercase(s);
        if string_is(&lowered, "error") {
            LogLevel::Error
        } else if string_is(&lowered, "warn") {
            LogLevel::Warn
        } else if string_is(&lowered, "info") {
            LogLevel::Info
        } else if string_is(&lowered, "debug") {
            LogLevel::Debug
        } else if string_is(&lowered, "trace") {
            LogLevel::Trace
        } else {
            LogLevel::Info
        }
    }

    /// The five-character label of the level.
    pub fn as_str(&self) -> (s: &'static str)
        ensures
            s@ == level_label(*self),
    {
        match self {
            LogLevel::Error => "ERROR",
            LogLevel::Warn => "WARN ",
            LogLevel::Info => "INFO ",
            LogLevel::Debug => "DEBUG",
            LogLevel::Trace => "TRACE",
        }
    }

    /// The position of the level (0 for `Error` up to 4 for `Trace`).
    pub fn rank(&self) -> (r: u8)
        ensures
            r == level_rank(*self),
    {
        match self {
            LogLevel::Error => 0,
            LogLevel::Warn => 1,
            LogLevel::Info => 2,
            LogLevel::Debug => 3,
            LogLevel::Trace => 4,
        }
    }

    /// Whether a message at this level is printed when `max` is the most verbose level shown.
    pub fn enabled(&self, max: LogLevel) -> (r: bool)
        ensures
            r == (level_rank(*self) <= level_rank(max)),
    {
        self.rank() <= max.rank()
    }
}

/// `s` up to (not including) its first `c`.
pub open spec fn before_first(s: Seq<char>, c: char) -> Seq<char>
    decreases s.len(),
{
    if s.len() == 0 {
        s
    } else if s[0] == c {
        Seq::empty()
    } else {
        seq![s[0]] + before_first(s.drop_first(), c)
    }
}

/// `s` without leading and trailing whitespace.
pub open spec fn trimmed(s: Seq<char>) -> Seq<char> {
    trim_end(trim_start(s))
}

/// `s` without leading whitespace.
pub open spec fn trim_start(s: Seq<char>) -> Seq<char>
    decreases s.len(),
{
    if s.len() > 0 && white_space(s[0]) { trim_start(s.drop_first()) } else { s }
}

/// `s` without trailing whitespace.
pub open spec fn trim_end(s: Seq<char>) -> Seq<char>
    decreases s.len(),
{
    if s.len() > 0 && white_space(s.last()) { trim_end(s.drop_last()) } else { s }
}

/// The setting prefix that names the emulator's own level.
pub open spec fn target_prefix() -> Seq<char> {
    "streamdeck_server="@
}

/// The level that a `RUST_LOG`-style setting selects: the first comma-separated
/// entry, lower-cased and trimmed; an entry `streamdeck_server=<level>` selects
/// that level, any other entry is read as a level name.
pub open spec fn level_from_setting(setting: Seq<char>) -> LogLevel {
    let entry = trimmed(before_first(lower(setting), ','));
    let p = target_prefix();
    if entry.len() >= p.len() && entry.take(p.len() as int) == p {
        level_named(lower(before_first(entry.skip(p.len() as int), '=')))
    } else {
        level_named(lower(entry))
    }
}

/// The characters of a string.
fn chars_of(s: &str) -> (v: Vec<char>)
    ensures
        v@ == s@,
{
    let n = s.unicode_len();
    let mut v: Vec<char> = Vec::new();
    let mut i: usize = 0;
    while i < n
        invariant
            i <= n,
            n == s@.len(),
            v@ == s@.take(i as int),
        decreases n - i,
    {
        v.push(s.get_char(i));
        i = i + 1;
        assert(v@ =~= s@.take(i as int));
    }
    assert(s@.take(n as int) =~= s@);
    v
}

/// The string of `v[from..to]`.
fn string_from(v: &Vec<char>, from: usize, to: usize) -> (s: String)
    requires
        from <= to <= v@.len(),
    ensures
        s@ == v@.subrange(from as int, to as int),
{
    let mut s = String::new();
    let mut i = from;
    while i < to
        invariant
            from <= i <= to <= v@.len(),
            s@ == v@.subrange(from as int, i as int),
        decreases to - i,
    {
        push_char(&mut s, v[i]);
        i = i + 1;
        assert(s@ =~= v@.subrange(from as int, i as int));
    }
    s
}

proof fn lemma_before_first(s: Seq<char>, c: char, k: int)
    requires
        0 <= k <= s.len(),
        forall|j: int| 0 <= j < k ==> s[j] != c,
    ensures
        k == s.len() ==> before_first(s, c) == s,
        k < s.len() && s[k] == c ==> before_first(s, c) == s.take(k),
    decreases k,
{
    if k > 0 {
        lemma_before_first(s.drop_first(), c, k - 1);
        assert(s =~= seq![s[0]] + s.drop_first());
        if k < s.len() && s[k] == c {
            assert(s.take(k) =~= seq![s[0]] + s.drop_first().take(k - 1));
        }
    } else if k < s.len() && s[k] == c {
        assert(s.take(0) =~= Seq::<char>::empty());
    }
}

/// The position of the first `c` at or after `from`, or the length when there is none.
fn find_char(v: &Vec<char>, from: usize, c: char) -> (k: usize)
    requires
        from <= v@.len(),
    ensures
        from <= k <= v@.len(),
        forall|j: int| from <= j < k ==> v@[j] != c,
        k < v@.len() ==> v@[k as int] == c,
{
    let mut k = from;
    while k < v.len() && v[k] != c
        invariant
            from <= k <= v@.len(),
            forall|j: int| from <= j < k ==> v@[j] != c,
        decreases v@.len() - k,
    {
        k = k + 1;
    }
    k
}

proof fn lemma_trim_start(s: Seq<char>, k: int)
    requires
        0 <= k <= s.len(),
        forall|j: int| 0 <= j < k ==> white_space(s[j]),
        k < s.len() ==> !white_space(s[k]),
    ensures
        trim_start(s) == s.skip(k),
    decreases k,
{
    if k > 0 {
        lemma_trim_start(s.drop_first(), k - 1);
        assert(s.drop_first().skip(k - 1) =~= s.skip(k));
    } else {
        assert(s.skip(0) =~= s);
    }
}

proof fn lemma_trim_end(s: Seq<char>, k: int)
    requires
        0 <= k <= s.len(),
        forall|j: int| k <= j < s.len() ==> white_space(s[j]),
        k > 0 ==> !white_space(s[k - 1]),
    ensures
        trim_end(s) == s.take(k),
    decreases s.len() - k,
{
    if k < s.len() {
        lemma_trim_end(s.drop_last(), k);
        assert(s.drop_last().take(k) =~= s.take(k));
    } else {
        assert(s.take(k) =~= s);
    }
}

/// The log level that a `RUST_LOG`-style setting selects (see `level_from_setting`).
#[verifier::rlimit(40)]
pub fn log_level_from_setting(setting: &str) -> (l: LogLevel)
    ensures
        l == level_from_setting(setting@),
{
    let lowered = to_lowercase(setting);
    let v = chars_of(lowered.as_str());
    let comma = find_char(&v, 0, ',');
    proof {
        lemma_before_first(v@, ',', comma as int);
        assert(v@.take(v@.len() as int) =~= v@);
    }
    let ghost entry_untrimmed = v@.take(comma as int);
    let mut start: usize = 0;
    while start < comma && is_whitespace(v[start])
        invariant
            start <= comma <= v@.len(),
            forall|j: int| 0 <= j < start ==> white_space(v@[j]),
        decreases comma - start,
    {
        start = start + 1;
    }
    let mut end: usize = comma;
    while end > start && is_whitespace(v[end - 1])
        invariant
            start <= end <= comma <= v@.len(),
            forall|j: int| end <= j < comma ==> white_space(v@[j]),
        decreases end - start,
    {
        end = end - 1;
    }
    proof {
        lemma_trim_start(entry_untrimmed, start as int);
        let ts = entry_untrimmed.skip(start as int);
        lemma_trim_end(ts, end - start);
        assert(ts.take(end - start) =~= v@.subrange(start as int, end as int));
    }
    let entry = string_from(&v, start, end);
    let prefix = chars_of("streamdeck_server=");
    let plen = prefix.len();
    let mut matches = end - start >= plen;
    let mut i: usize = 0;
    while matches && i < plen
        invariant
            i <= plen,
            plen == prefix@.len(),
            prefix@ == target_prefix(),
            start <= end <= v@.len(),
            matches ==> end - start >= plen,
            matches ==> forall|j: int| 0 <= j < i ==> v@[start + j] == prefix@[j],
            !matches ==> !(end - start >= plen && v@.subrange(start as int, end as int).take(plen as int) == prefix@),
        decreases plen - i + (if matches { 1int } else { 0int }),
    {
        if v[start + i] != prefix[i] {
            matches = false;
            assert(v@.subrange(start as int, end as int).take(plen as int)[i as int] == v@[start + i]);
        } else {
            i = i + 1;
        }
    }
    if matches {
        assert(v@.subrange(start as int, end as int).take(plen as int) =~= prefix@);
        let rest_start = start + plen;
        let eq = find_char(&v, rest_start, '=');
        let stop = if eq < end { eq } else { end };
        proof {
            let rest = v@.subrange(start as int, end as int).skip(plen as int);
            assert(rest =~= v@.subrange(rest_start as int, end as int));
            assert forall|j: int| 0 <= j < stop - rest_start implies rest[j] != '=' by {
                assert(rest[j] == v@[rest_start + j]);
            }
            lemma_before_first(rest, '=', stop - rest_start);
            assert(rest.take(stop - rest_start) =~= v@.subrange(rest_start as int, stop as int));
        }
        let name = string_from(&v, rest_start, stop);
        LogLevel::from_str(name.as_str())
    } else {
        LogLevel::from_str(entry.as_str())
    }
}

/// The `[HH:MM:SS]` stamp of a time of day, from seconds since the Unix epoch.
pub open spec fn time_stamp(total_secs: u64) -> Seq<char> {
    let hours = ((total_secs / 3600) % 24) as nat;
    let minutes = ((total_secs / 60) % 60) as nat;
    let seconds = (total_secs % 60) as nat;
    seq!['['] + two_digits(hours) + seq![':'] + two_digits(minutes) + seq![':'] + two_digits(seconds) + seq![']']
}

/// Format a time (seconds since the Unix epoch) as `[HH:MM:SS]` (UTC).
pub fn format_time(total_secs: u64) -> (s: String)
    ensures
        s@ == time_stamp(total_secs),
{
    let hours = (total_secs / 3600) % 24;
    let minutes = (total_secs / 60) % 60;
    let seconds = total_secs % 60;
    let mut s = String::new();
    push_char(&mut s, '[');
    push_two_digits(&mut s, hours);
    push_char(&mut s, ':');
    push_two_digits(&mut s, minutes);
    push_char(&mut s, ':');
    push_two_digits(&mut s, seconds);
    push_char(&mut s, ']');
    assert(s@ =~= time_stamp(total_secs));
    s
}

/// Nanoseconds per second.
pub const NANOS_PER_SEC: u128 = 1_000_000_000;

/// A logger that lets at most one message through per interval and counts the others.
///
/// Times are nanoseconds on a monotonic clock.
pub struct ThrottledLogger {
    pub last_log_time: u128,
    pub interval: u128,
    pub skip_count: u64,
}

/// What a throttled logger decided about one message.
#[derive(Debug, Clone, Copy, PartialEq, Eq, Structural)]
pub struct ThrottleDecision {
    /// Whether the message is printed.
    pub log: bool,
    /// The number of messages held back since the last printed one, to report
    /// before it (only when some were held back).
    pub skipped: Option<u64>,
}

/// How a throttled logger decides about a message at time `now`: it is
/// printed when an interval has passed since the last print (time that runs
/// backwards counts as none), reporting how many were held back before it;
/// otherwise it is held back and counted.
pub open spec fn throttled(o: ThrottledLogger, n: ThrottledLogger, now: u128, d: ThrottleDecision) -> bool {
    let elapsed = if now >= o.last_log_time { now - o.last_log_time } else { 0 };
    if elapsed >= o.interval {
        &&& d.log
        &&& d.skipped == (if o.skip_count > 0 { Some(o.skip_count) } else { None })
        &&& n.last_log_time == now
        &&& n.skip_count == 0
        &&& n.interval == o.interval
    } else {
        &&& !d.log
        &&& d.skipped is None
        &&& n.last_log_time == o.last_log_time
        &&& n.skip_count == (if o.skip_count == u64::MAX { 0 } else { o.skip_count + 1 })
        &&& n.interval == o.interval
    }
}

impl ThrottledLogger {
    /// A logger whose first message goes through: the last print is placed one interval before `now`.
    pub fn new(interval_secs: u64, now: u128) -> (l: Self)
        requires
            now >= interval_secs as int * NANOS_PER_SEC,
        ensures
            l.interval == interval_secs as int * NANOS_PER_SEC,
            l.last_log_time == now - interval_secs as int * NANOS_PER_SEC,
            l.skip_count == 0,
    {
        let interval = interval_secs as u128 * NANOS_PER_SEC;
        ThrottledLogger { last_log_time: now - interval, interval, skip_count: 0 }
    }

    /// Decide whether a message at time `now` is printed: it is when an interval
    /// has passed since the last print (time that runs backwards counts as none).
    pub fn should_log(&mut self, now: u128) -> (d: ThrottleDecision)
        ensures
            throttled(*old(self), *final(self), now, d),
    {
        let elapsed = if now >= self.last_log_time { now - self.last_log_time } else { 0 };
        if elapsed >= self.interval {
            let skipped = self.skip_count;
            self.skip_count = 0;
            self.last_log_time = now;
            ThrottleDecision { log: true, skipped: if skipped > 0 { Some(skipped) } else { None } }
        } else {
            self.skip_count = if self.skip_count == u64::MAX { 0 } else { self.skip_count + 1 };
            ThrottleDecision { log: false, skipped: None }
        }
    }

    /// The decision for a message passed to `log`: the same as `should_log`.
    pub fn log(&mut self, now: u128) -> (d: ThrottleDecision)
        ensures
            throttled(*old(self), *final(self), now, d),
    {
        self.should_log(now)
    }
}

/// A throttled logger prints at most one message per interval: when two
/// consecutive messages are both printed, the second comes at least one
/// interval after the first (for a non-zero interval).
pub proof fn lemma_one_print_per_interval(
    a: ThrottledLogger,
    b: ThrottledLogger,
    c: ThrottledLogger,
    t1: u128,
    t2: u128,
    d1: ThrottleDecision,
    d2: ThrottleDecision,
)
    requires
        a.interval > 0,
        throttled(a, b, t1, d1),
        throttled(b, c, t2, d2),
        d1.log,
        d2.log,
    ensures
        t2 >= t1 + a.interval,
{
}

} // verus!
