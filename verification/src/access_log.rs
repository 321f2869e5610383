//! The access log: who ran which operation on which path, how it ended and how long it took.
use crate::clock;
use crate::clock::{current_instant, current_time, elapsed_micros};
use std::time::{Instant, SystemTime};
use vstd::prelude::*;

verus! {

/// The identity under which operations are logged.
#[derive(Debug, Clone, Copy, PartialEq, Eq, Structural)]
pub struct CallerIdentity {
    pub uid: u32,
    pub gid: u32,
}

impl CallerIdentity {
    /// The superuser.
    pub fn root() -> (c: CallerIdentity)
        ensures
            c == (CallerIdentity { uid: 0, gid: 0 }),
    {
        CallerIdentity { uid: 0, gid: 0 }
    }
}

/// FileSystem configuration.
#[derive(Debug, Clone, Copy, PartialEq, Eq, Structural)]
pub struct FileSystemConfig {
    /// Enable access logging.
    pub access_log: bool,
    /// Access log buffer size.
    pub access_log_buffer_size: usize,
    /// The identity to log operations under, where it is not that of the process.
    pub caller: Option<CallerIdentity>,
}

impl Default for FileSystemConfig {
    fn default() -> (c: FileSystemConfig)
        ensures
            c == (FileSystemConfig {
                access_log: false,
                access_log_buffer_size: 1024,
                caller: None,
            }),
    {
        FileSystemConfig { access_log: false, access_log_buffer_size: 1024, caller: None }
    }
}

impl FileSystemConfig {
    /// The same configuration with operations logged under the given identity.
    pub fn with_caller(self, caller: CallerIdentity) -> (c: FileSystemConfig)
        ensures
            c == (FileSystemConfig { caller: Some(caller), ..self }),
    {
        FileSystemConfig { caller: Some(caller), ..self }
    }

    /// The capacity of the access log's queue, where access logging is enabled.
    pub fn access_log_capacity(&self) -> (r: Option<usize>)
        ensures
            r == (if self.access_log {
                Some(self.access_log_buffer_size)
            } else {
                None
            }),
    {
        if self.access_log {
            Some(self.access_log_buffer_size)
        } else {
            None
        }
    }

    /// The identity to log an operation under, given that of the process.
    pub fn identity(&self, process: CallerIdentity) -> (c: CallerIdentity)
        ensures
            c == (match self.caller {
                Some(caller) => caller,
                None => process,
            }),
    {
        match self.caller {
            Some(caller) => caller,
            None => process,
        }
    }
}

/// Log context for tracking operation timing.
#[derive(Debug, Clone, Copy)]
pub struct LogContext {
    pub uid: u32,
    pub gid: u32,
    pub pid: u32,
    pub start: Instant,
}

/// A reading of a microsecond clock, reduced to the range of the log's counter.
pub open spec fn counted(micros: u128) -> int {
    micros as int % 0x1_0000_0000_0000_0000
}

/// Readings that do not decrease are counted in their order, as long as the counter holds them.
pub proof fn counting_keeps_order(earlier: u128, later: u128)
    requires
        earlier <= later <= u64::MAX,
    ensures
        counted(earlier) <= counted(later),
        counted(earlier) == earlier,
        counted(later) == later,
{
}

/// The counter starts again when it is full.
pub proof fn counting_wraps(micros: u128)
    ensures
        0 <= counted(micros) <= u64::MAX,
        micros <= u64::MAX ==> counted(micros) == micros,
        micros > u64::MAX ==> counted(micros) == counted(
            (micros - 0x1_0000_0000_0000_0000) as u128,
        ),
{
}

/// A reading of a microsecond clock, reduced to the range of the log's counter.
pub fn wrap_micros(micros: u128) -> (r: u64)
    ensures
        r == counted(micros),
{
    assert(#[verifier::truncate] (micros as u64) == micros % 0x1_0000_0000_0000_0000)
        by (bit_vector);
    #[verifier::truncate]
    (micros as u64)
}

impl LogContext {
    /// A context that starts now: its start is what the clock reads.
    pub fn new(uid: u32, gid: u32, pid: u32) -> (c: LogContext)
        ensures
            c.uid == uid,
            c.gid == gid,
            c.pid == pid,
            clock::reads_instant(c.start),
    {
        LogContext { uid, gid, pid, start: current_instant() }
    }

    /// The microseconds since the context was made, reduced to the range of the log's counter: some
    /// reading of the clock for the start of the context. Which one depends on the clock alone, and
    /// so does that a later reading is not smaller.
    pub fn elapsed_us(&self) -> (us: u64)
        ensures
            exists|micros: u128| #[trigger]
                clock::reads_since(self.start, micros) && us == counted(micros),
    {
        wrap_micros(elapsed_micros(&self.start))
    }
}

/// Access log entry for tracking file operations.
#[derive(Debug)]
pub struct AccessLogEntry {
    pub timestamp: SystemTime,
    pub uid: u32,
    pub gid: u32,
    pub pid: u32,
    pub op: String,
    pub path: String,
    pub result: String,
    pub duration_us: u64,
}

impl Clone for AccessLogEntry {
    fn clone(&self) -> (e: AccessLogEntry)
        ensures
            e == *self,
    {
        AccessLogEntry {
            timestamp: self.timestamp,
            uid: self.uid,
            gid: self.gid,
            pid: self.pid,
            op: self.op.clone(),
            path: self.path.clone(),
            result: self.result.clone(),
            duration_us: self.duration_us,
        }
    }
}

/// A digit below ten as a character.
pub open spec fn digit(d: nat) -> char {
    (48 + d) as char
}

/// A number in decimal notation.
pub open spec fn decimal(n: nat) -> Seq<char>
    decreases n,
{
    if n < 10 {
        seq![digit(n)]
    } else {
        decimal(n / 10).push(digit(n % 10))
    }
}

/// The number that a text of digits stands for.
pub open spec fn value(text: Seq<char>) -> int
    decreases text.len(),
{
    if text.len() == 0 {
        0
    } else {
        value(text.drop_last()) * 10 + (text.last() as int - '0' as int)
    }
}

/// A number is written with digits, without a leading zero, and reading them gives it back.
pub proof fn decimals_read_back(n: nat)
    ensures
        value(decimal(n)) == n,
        decimal(n).len() > 0,
        forall|i: int|
            0 <= i < decimal(n).len() ==> '0' <= #[trigger] decimal(n)[i] && decimal(n)[i] <= '9',
        n > 0 ==> decimal(n)[0] != '0',
    decreases n,
{
    if n >= 10 {
        let init = decimal(n / 10);
        decimals_read_back(n / 10);
        assert(decimal(n).drop_last() =~= init);
        assert(decimal(n).last() == digit(n % 10));
        assert(decimal(n)[0] == init[0]);
    } else {
        assert(decimal(n).drop_last() =~= Seq::<char>::empty());
        assert(value(decimal(n).drop_last()) == 0);
    }
}

proof fn same_front(a: Seq<char>, b: Seq<char>, after: Seq<char>)
    requires
        a + after == b + after,
    ensures
        a == b,
{
    assert((a + after).len() == a.len() + after.len());
    assert((b + after).len() == b.len() + after.len());
    assert forall|i: int| 0 <= i < a.len() implies a[i] == b[i] by {
        assert((a + after)[i] == a[i]);
        assert((b + after)[i] == b[i]);
    }
    assert(a =~= b);
}

proof fn same_back(before: Seq<char>, a: Seq<char>, b: Seq<char>)
    requires
        before + a == before + b,
    ensures
        a == b,
{
    assert((before + a).len() == before.len() + a.len());
    assert((before + b).len() == before.len() + b.len());
    assert forall|i: int| 0 <= i < a.len() implies a[i] == b[i] by {
        assert((before + a)[before.len() + i] == a[i]);
        assert((before + b)[before.len() + i] == b[i]);
    }
    assert(a =~= b);
}

/// Texts that agree up to their middle, and in all that follows on it, agree in the middle.
proof fn same_after(
    a: Seq<char>,
    b: Seq<char>,
    c: Seq<char>,
    d: Seq<char>,
    x: Seq<char>,
    y: Seq<char>,
)
    requires
        x + a + b + c + d == y + a + b + c + d,
    ensures
        x == y,
{
    same_front(x + a + b + c, y + a + b + c, d);
    same_front(x + a + b, y + a + b, c);
    same_front(x + a, y + a, b);
    same_front(x, y, a);
}

/// The line of an entry shows each part of it: entries that differ in one part have different
/// lines.
pub proof fn lines_show_every_part(
    e: AccessLogEntry,
    f: AccessLogEntry,
    timestamp: Seq<char>,
    duration: Seq<char>,
    other: Seq<char>,
)
    ensures
        ({
            let same = e.line(timestamp, duration) == f.line(timestamp, duration);
            let uid = e.uid == f.uid;
            let gid = e.gid == f.gid;
            let pid = e.pid == f.pid;
            let op = e.op@ == f.op@;
            let path = e.path@ == f.path@;
            let result = e.result@ == f.result@;
            &&& same && gid && pid && op && path && result ==> uid
            &&& same && uid && pid && op && path && result ==> gid
            &&& same && uid && gid && op && path && result ==> pid
            &&& same && uid && gid && pid && path && result ==> op
            &&& same && uid && gid && pid && op && result ==> path
            &&& same && uid && gid && pid && op && path ==> result
            &&& e.line(timestamp, duration) == e.line(other, duration) ==> timestamp == other
            &&& e.line(timestamp, duration) == e.line(timestamp, other) ==> duration == other
        }),
{
    let (u, v) = (decimal(e.uid as nat), decimal(f.uid as nat));
    let (g, h) = (decimal(e.gid as nat), decimal(f.gid as nat));
    let (p, q) = (decimal(e.pid as nat), decimal(f.pid as nat));
    decimals_read_back(e.uid as nat);
    decimals_read_back(f.uid as nat);
    decimals_read_back(e.gid as nat);
    decimals_read_back(f.gid as nat);
    decimals_read_back(e.pid as nat);
    decimals_read_back(f.pid as nat);
    let line = e.line(timestamp, duration);
    if line == f.line(timestamp, duration) && e.gid == f.gid && e.pid == f.pid && e.op@ == f.op@
        && e.path@ == f.path@ && e.result@ == f.result@ {
        let x = timestamp + " [uid:"@ + u;
        let y = timestamp + " [uid:"@ + v;
        let x0 = x + ",gid:"@ + g + ",pid:"@ + p;
        let y0 = y + ",gid:"@ + g + ",pid:"@ + p;
        let x1 = x0 + "] "@ + e.op@ + " ("@ + e.path@;
        let y1 = y0 + "] "@ + e.op@ + " ("@ + e.path@;
        let x2 = x1 + ") -> "@ + e.result@ + " <"@ + duration;
        let y2 = y1 + ") -> "@ + e.result@ + " <"@ + duration;
        same_front(x2, y2, "s>"@);
        same_after(") -> "@, e.result@, " <"@, duration, x1, y1);
        same_after("] "@, e.op@, " ("@, e.path@, x0, y0);
        same_after(",gid:"@, g, ",pid:"@, p, x, y);
        same_back(timestamp + " [uid:"@, u, v);
    }
    if line == f.line(timestamp, duration) && e.uid == f.uid && e.pid == f.pid && e.op@ == f.op@
        && e.path@ == f.path@ && e.result@ == f.result@ {
        let x = timestamp + " [uid:"@ + u + ",gid:"@ + g;
        let y = timestamp + " [uid:"@ + u + ",gid:"@ + h;
        let x0 = x + ",pid:"@ + p + "] "@ + e.op@;
        let y0 = y + ",pid:"@ + p + "] "@ + e.op@;
        let x1 = x0 + " ("@ + e.path@ + ") -> "@ + e.result@;
        let y1 = y0 + " ("@ + e.path@ + ") -> "@ + e.result@;
        same_front(x1 + " <"@ + duration, y1 + " <"@ + duration, "s>"@);
        same_front(x1 + " <"@, y1 + " <"@, duration);
        same_front(x1, y1, " <"@);
        same_after(" ("@, e.path@, ") -> "@, e.result@, x0, y0);
        same_after(",pid:"@, p, "] "@, e.op@, x, y);
        same_back(timestamp + " [uid:"@ + u + ",gid:"@, g, h);
    }
    if line == f.line(timestamp, duration) && e.uid == f.uid && e.gid == f.gid && e.op@ == f.op@
        && e.path@ == f.path@ && e.result@ == f.result@ {
        let x = timestamp + " [uid:"@ + u + ",gid:"@ + g + ",pid:"@ + p;
        let y = timestamp + " [uid:"@ + u + ",gid:"@ + g + ",pid:"@ + q;
        let x0 = x + "] "@ + e.op@ + " ("@ + e.path@;
        let y0 = y + "] "@ + e.op@ + " ("@ + e.path@;
        let x1 = x0 + ") -> "@ + e.result@ + " <"@ + duration;
        let y1 = y0 + ") -> "@ + e.result@ + " <"@ + duration;
        same_front(x1, y1, "s>"@);
        same_after(") -> "@, e.result@, " <"@, duration, x0, y0);
        same_after("] "@, e.op@, " ("@, e.path@, x, y);
        same_back(timestamp + " [uid:"@ + u + ",gid:"@ + g + ",pid:"@, p, q);
    }
    if line == f.line(timestamp, duration) && e.uid == f.uid && e.gid == f.gid && e.pid == f.pid
        && e.path@ == f.path@ && e.result@ == f.result@ {
        let x = timestamp + " [uid:"@ + u + ",gid:"@ + g + ",pid:"@ + p + "] "@ + e.op@;
        let y = timestamp + " [uid:"@ + u + ",gid:"@ + g + ",pid:"@ + p + "] "@ + f.op@;
        let x0 = x + " ("@ + e.path@ + ") -> "@ + e.result@;
        let y0 = y + " ("@ + e.path@ + ") -> "@ + e.result@;
        same_front(x0 + " <"@ + duration, y0 + " <"@ + duration, "s>"@);
        same_front(x0 + " <"@, y0 + " <"@, duration);
        same_front(x0, y0, " <"@);
        same_after(" ("@, e.path@, ") -> "@, e.result@, x, y);
        same_back(timestamp + " [uid:"@ + u + ",gid:"@ + g + ",pid:"@ + p + "] "@, e.op@, f.op@);
    }
    if line == f.line(timestamp, duration) && e.uid == f.uid && e.gid == f.gid && e.pid == f.pid
        && e.op@ == f.op@ && e.result@ == f.result@ {
        let x = timestamp + " [uid:"@ + u + ",gid:"@ + g + ",pid:"@ + p + "] "@ + e.op@ + " ("@
            + e.path@;
        let y = timestamp + " [uid:"@ + u + ",gid:"@ + g + ",pid:"@ + p + "] "@ + e.op@ + " ("@
            + f.path@;
        let x0 = x + ") -> "@ + e.result@ + " <"@ + duration;
        let y0 = y + ") -> "@ + e.result@ + " <"@ + duration;
        same_front(x0, y0, "s>"@);
        same_after(") -> "@, e.result@, " <"@, duration, x, y);
        same_back(
            timestamp + " [uid:"@ + u + ",gid:"@ + g + ",pid:"@ + p + "] "@ + e.op@ + " ("@,
            e.path@,
            f.path@,
        );
    }
    if line == f.line(timestamp, duration) && e.uid == f.uid && e.gid == f.gid && e.pid == f.pid
        && e.op@ == f.op@ && e.path@ == f.path@ {
        let x = timestamp + " [uid:"@ + u + ",gid:"@ + g + ",pid:"@ + p + "] "@ + e.op@ + " ("@
            + e.path@ + ") -> "@ + e.result@;
        let y = timestamp + " [uid:"@ + u + ",gid:"@ + g + ",pid:"@ + p + "] "@ + e.op@ + " ("@
            + e.path@ + ") -> "@ + f.result@;
        same_front(x + " <"@ + duration, y + " <"@ + duration, "s>"@);
        same_front(x + " <"@, y + " <"@, duration);
        same_front(x, y, " <"@);
        same_back(
            timestamp + " [uid:"@ + u + ",gid:"@ + g + ",pid:"@ + p + "] "@ + e.op@ + " ("@
                + e.path@ + ") -> "@,
            e.result@,
            f.result@,
        );
    }
    if line == e.line(other, duration) {
        let x = timestamp;
        let y = other;
        let x0 = x + " [uid:"@ + u + ",gid:"@ + g;
        let y0 = y + " [uid:"@ + u + ",gid:"@ + g;
        let x1 = x0 + ",pid:"@ + p + "] "@ + e.op@;
        let y1 = y0 + ",pid:"@ + p + "] "@ + e.op@;
        let x2 = x1 + " ("@ + e.path@ + ") -> "@ + e.result@;
        let y2 = y1 + " ("@ + e.path@ + ") -> "@ + e.result@;
        same_front(x2 + " <"@ + duration, y2 + " <"@ + duration, "s>"@);
        same_front(x2 + " <"@, y2 + " <"@, duration);
        same_front(x2, y2, " <"@);
        same_after(" ("@, e.path@, ") -> "@, e.result@, x1, y1);
        same_after(",pid:"@, p, "] "@, e.op@, x0, y0);
        same_after(" [uid:"@, u, ",gid:"@, g, x, y);
    }
    if line == e.line(timestamp, other) {
        let x = timestamp + " [uid:"@ + u + ",gid:"@ + g + ",pid:"@ + p + "] "@ + e.op@ + " ("@
            + e.path@ + ") -> "@ + e.result@ + " <"@ + duration;
        let y = timestamp + " [uid:"@ + u + ",gid:"@ + g + ",pid:"@ + p + "] "@ + e.op@ + " ("@
            + e.path@ + ") -> "@ + e.result@ + " <"@ + other;
        same_front(x, y, "s>"@);
        same_back(
            timestamp + " [uid:"@ + u + ",gid:"@ + g + ",pid:"@ + p + "] "@ + e.op@ + " ("@
                + e.path@ + ") -> "@ + e.result@ + " <"@,
            duration,
            other,
        );
    }
}

fn digit_text(d: u32) -> (r: &'static str)
    requires
        d < 10,
    ensures
        r@ == seq![digit(d as nat)],
{
    proof {
        reveal_strlit("0");
        reveal_strlit("1");
        reveal_strlit("2");
        reveal_strlit("3");
        reveal_strlit("4");
        reveal_strlit("5");
        reveal_strlit("6");
        reveal_strlit("7");
        reveal_strlit("8");
        reveal_strlit("9");
    }
    let r = match d {
        0 => "0",
        1 => "1",
        2 => "2",
        3 => "3",
        4 => "4",
        5 => "5",
        6 => "6",
        7 => "7",
        8 => "8",
        _ => "9",
    };
    assert(r@ =~= seq![digit(d as nat)]);
    r
}

/// A number in decimal notation.
pub fn decimal_text(n: u32) -> (r: String)
    ensures
        r@ == decimal(n as nat),
    decreases n,
{
    if n < 10 {
        String::from_str(digit_text(n))
    } else {
        let r = decimal_text(n / 10).concat(digit_text(n % 10));
        assert(r@ =~= decimal(n as nat));
        r
    }
}

impl AccessLogEntry {
    /// The line that shows the entry, given its timestamp and its duration as texts in seconds.
    pub open spec fn line(self, timestamp: Seq<char>, duration: Seq<char>) -> Seq<char> {
        timestamp + " [uid:"@ + decimal(self.uid as nat) + ",gid:"@ + decimal(self.gid as nat)
            + ",pid:"@ + decimal(self.pid as nat) + "] "@ + self.op@ + " ("@ + self.path@
            + ") -> "@ + self.result@ + " <"@ + duration + "s>"@
    }

    /// The line that shows the entry, given its timestamp and its duration as texts in seconds.
    pub fn render(&self, timestamp: &str, duration: &str) -> (r: String)
        ensures
            r@ == self.line(timestamp@, duration@),
    {
        String::from_str(timestamp).concat(" [uid:").concat(decimal_text(self.uid).as_str()).concat(
            ",gid:",
        ).concat(decimal_text(self.gid).as_str()).concat(",pid:").concat(
            decimal_text(self.pid).as_str(),
        ).concat("] ").concat(self.op.as_str()).concat(" (").concat(self.path.as_str()).concat(
            ") -> ",
        ).concat(self.result.as_str()).concat(" <").concat(duration).concat("s>")
    }

    /// The entry for an operation that ran under `ctx`, ended with `result` and is logged at the
    /// given time, after the given number of microseconds.
    pub fn at(
        timestamp: SystemTime,
        duration_us: u64,
        ctx: &LogContext,
        op: &str,
        path: &str,
        result: &str,
    ) -> (e: AccessLogEntry)
        ensures
            e.timestamp == timestamp,
            e.duration_us == duration_us,
            e.uid == ctx.uid,
            e.gid == ctx.gid,
            e.pid == ctx.pid,
            e.op@ == op@,
            e.path@ == path@,
            e.result@ == result@,
    {
        AccessLogEntry {
            timestamp,
            uid: ctx.uid,
            gid: ctx.gid,
            pid: ctx.pid,
            op: String::from_str(op),
            path: String::from_str(path),
            result: String::from_str(result),
            duration_us,
        }
    }

    /// The entry for an operation that ends now. Its timestamp and its duration are what the
    /// clocks read, the duration since the start of the context; `at` says what the entry holds for
    /// given readings.
    pub fn now(ctx: &LogContext, op: &str, path: &str, result: &str) -> (e: AccessLogEntry)
        ensures
            e.uid == ctx.uid,
            e.gid == ctx.gid,
            e.pid == ctx.pid,
            e.op@ == op@,
            e.path@ == path@,
            e.result@ == result@,
            exists|micros: u128| #[trigger]
                clock::reads_since(ctx.start, micros) && e.duration_us == counted(micros),
            clock::reads_time(e.timestamp),
    {
        AccessLogEntry::at(current_time(), ctx.elapsed_us(), ctx, op, path, result)
    }
}

} // verus!
