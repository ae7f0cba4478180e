//! Log entries: which entries a logger lets through, and how an entry is
//! written. Writing the line to a sink is the caller's business.

use crate::text::{concat, decimal, u64_to_string};
use vstd::prelude::*;

verus! {

/// How much an entry matters.
#[derive(Debug, Clone, Copy, PartialEq, Eq, Structural)]
pub enum LogLevel {
    Debug,
    Info,
    Warning,
    Error,
}

/// The place of a level in the order of levels.
pub open spec fn level_rank(l: LogLevel) -> int {
    match l {
        LogLevel::Debug => 0,
        LogLevel::Info => 1,
        LogLevel::Warning => 2,
        LogLevel::Error => 3,
    }
}

/// The name of a level, five characters wide.
pub open spec fn level_name(l: LogLevel) -> Seq<char> {
    match l {
        LogLevel::Debug => "DEBUG"@,
        LogLevel::Info => "INFO "@,
        LogLevel::Warning => "WARN "@,
        LogLevel::Error => "ERROR"@,
    }
}

/// The sign that stands for a level at the start of a line.
pub open spec fn level_symbol(l: LogLevel) -> Seq<char> {
    match l {
        LogLevel::Debug => "\u{2022}"@,
        LogLevel::Info => "\u{2713}"@,
        LogLevel::Warning => "\u{26a0}"@,
        LogLevel::Error => "\u{2717}"@,
    }
}

/// The text of a time given in milliseconds since the Unix epoch, as year,
/// month, day, hour, minute, second and milliseconds in UTC; `None` for a
/// time beyond the range of the calendar.
pub uninterp spec fn timestamp_text(millis: i64) -> Option<Seq<char>>;

/// `chrono::DateTime::from_timestamp_millis`, and on the UTC time that it
/// gives `chrono::DateTime::format` with the pattern
/// `%Y-%m-%d %H:%M:%S%.3f`: the text depends on the milliseconds alone.
/// Where chrono has no time for the milliseconds there is no text.
#[verifier::external_body]
pub(crate) fn format_timestamp(millis: i64) -> (r: Option<String>)
    ensures
        crate::ssl::opt_text(r) == timestamp_text(millis),
{
    match chrono::DateTime::<chrono::Utc>::from_timestamp_millis(millis) {
        Some(t) => Some(t.format("%Y-%m-%d %H:%M:%S%.3f").to_string()),
        None => None,
    }
}

/// What is written for a time: its text, and nothing for a time that has
/// none.
pub open spec fn written_time(text: Option<Seq<char>>) -> Seq<char> {
    match text {
        Some(t) => t,
        None => Seq::empty(),
    }
}

/// What is written for a time: its text, and nothing for a time that has
/// none.
pub fn time_or_nothing(text: Option<String>) -> (r: String)
    ensures
        r@ == written_time(crate::ssl::opt_text(text)),
{
    match text {
        Some(t) => t,
        None => {
            proof {
                reveal_strlit("");
            }
            let r = "".to_owned();
            assert(r@ =~= Seq::<char>::empty());
            r
        },
    }
}

impl LogLevel {
    /// The place of the level in the order of levels.
    pub fn rank(&self) -> (r: u8)
        ensures
            r == level_rank(*self),
    {
        match self {
            LogLevel::Debug => 0,
            LogLevel::Info => 1,
            LogLevel::Warning => 2,
            LogLevel::Error => 3,
        }
    }

    /// The name of the level, five characters wide.
    pub fn as_str(&self) -> (r: &'static str)
        ensures
            r@ == level_name(*self),
    {
        match self {
            LogLevel::Debug => "DEBUG",
            LogLevel::Info => "INFO ",
            LogLevel::Warning => "WARN ",
            LogLevel::Error => "ERROR",
        }
    }

    /// The name of the level, five characters wide.
    pub fn to_string(&self) -> (r: String)
        ensures
            r@ == level_name(*self),
    {
        self.as_str().to_owned()
    }

    /// The sign that stands for the level at the start of a line.
    pub fn symbol(&self) -> (r: &'static str)
        ensures
            r@ == level_symbol(*self),
    {
        match self {
            LogLevel::Debug => "\u{2022}",
            LogLevel::Info => "\u{2713}",
            LogLevel::Warning => "\u{26a0}",
            LogLevel::Error => "\u{2717}",
        }
    }
}

/// One entry of the log.
#[derive(Debug, Clone)]
pub struct FauxDBLogEvent {
    /// Milliseconds since the Unix epoch.
    pub timestamp: i64,
    pub level: LogLevel,
    pub pid: u32,
    pub message: String,
    pub target: String,
    pub module: Option<String>,
    pub line: Option<u32>,
}

/// The short form of an entry: sign, process id, time and message.
pub open spec fn compact_line(level: LogLevel, pid: u32, timestamp: i64, message: Seq<char>) -> Seq<
    char,
> {
    level_symbol(level) + " "@ + decimal(pid as nat) + " "@ + written_time(
        timestamp_text(timestamp),
    )
        + " : FauxDB ["@ + message + "]"@
}

/// What the long form of an entry says about where the entry comes from.
pub open spec fn module_info(module: Option<Seq<char>>, line: Option<u32>) -> Seq<char> {
    match module {
        Some(p) => match line {
            Some(l) => " "@ + p + ":"@ + decimal(l as nat),
            None => " "@ + p,
        },
        None => Seq::empty(),
    }
}

/// The long form of an entry: the short form, where the entry comes from,
/// and a line break behind a message of several lines.
pub open spec fn detailed_line(
    level: LogLevel,
    pid: u32,
    timestamp: i64,
    message: Seq<char>,
    module: Option<Seq<char>>,
    line: Option<u32>,
) -> Seq<char> {
    compact_line(level, pid, timestamp, message) + module_info(module, line) + (
    if message.contains('\n') {
        "\n"@
    } else {
        Seq::empty()
    })
}

impl FauxDBLogEvent {
    /// An entry made at `timestamp` by the process `pid`.
    pub fn new(level: LogLevel, message: String, timestamp: i64, pid: u32) -> (r: Self)
        ensures
            r.level == level,
            r.message == message,
            r.timestamp == timestamp,
            r.pid == pid,
            r.target@ == "FauxDB"@,
            r.module.is_none(),
            r.line.is_none(),
    {
        FauxDBLogEvent {
            timestamp,
            level,
            pid,
            message,
            target: "FauxDB".to_owned(),
            module: None,
            line: None,
        }
    }

    /// The short form of the entry.
    pub fn format_compact(&self) -> (r: String)
        ensures
            r@ == compact_line(self.level, self.pid, self.timestamp, self.message@),
    {
        let mut s = self.level.symbol().to_owned();
        s.append(" ");
        let pid = u64_to_string(self.pid as u64);
        s.append(pid.as_str());
        s.append(" ");
        let t = time_or_nothing(format_timestamp(self.timestamp));
        s.append(t.as_str());
        s.append(" : FauxDB [");
        s.append(self.message.as_str());
        s.append("]");
        s
    }

    /// The long form of the entry.
    pub fn format_detailed(&self) -> (r: String)
        ensures
            r@ == detailed_line(
                self.level,
                self.pid,
                self.timestamp,
                self.message@,
                crate::ssl::opt_text(self.module),
                self.line,
            ),
    {
        let mut s = self.format_compact();
        match &self.module {
            Some(p) => {
                s.append(" ");
                s.append(p.as_str());
                match self.line {
                    Some(l) => {
                        s.append(":");
                        let n = u64_to_string(l as u64);
                        s.append(n.as_str());
                        assert(s@ =~= compact_line(
                            self.level,
                            self.pid,
                            self.timestamp,
                            self.message@,
                        ) + (" "@ + p@ + ":"@ + decimal(l as nat)));
                    },
                    None => {
                        assert(s@ =~= compact_line(
                            self.level,
                            self.pid,
                            self.timestamp,
                            self.message@,
                        ) + (" "@ + p@));
                    },
                }
            },
            None => {
                assert(s@ =~= compact_line(self.level, self.pid, self.timestamp, self.message@)
                    + Seq::<char>::empty());
            },
        }
        if crate::chars::char_in('\n', self.message.as_str()) {
            s.append("\n");
        } else {
            assert(s@ + Seq::<char>::empty() =~= s@);
        }
        s
    }
}

/// Lets entries through that matter enough.
#[derive(Debug, Clone, Copy, PartialEq, Eq, Structural)]
pub struct FauxDBLogger {
    pub level: LogLevel,
    pub compact: bool,
}

/// The line that a logger writes for a message, if it writes one: none for
/// a level under the logger's own.
pub open spec fn logged(
    logger: FauxDBLogger,
    level: LogLevel,
    message: Seq<char>,
    timestamp: i64,
    pid: u32,
) -> Option<Seq<char>> {
    if level_rank(level) >= level_rank(logger.level) {
        Some(
            if logger.compact {
                compact_line(level, pid, timestamp, message)
            } else {
                detailed_line(level, pid, timestamp, message, None, None)
            },
        )
    } else {
        None
    }
}

/// The text of a line that may be missing.
pub open spec fn line_text(l: Option<String>) -> Option<Seq<char>> {
    match l {
        Some(s) => Some(s@),
        None => None,
    }
}

impl FauxDBLogger {
    /// A logger that lets entries of `level` and above through and writes
    /// them in the short form.
    pub fn new(level: LogLevel) -> (r: Self)
        ensures
            r == (FauxDBLogger { level, compact: true }),
    {
        FauxDBLogger { level, compact: true }
    }

    /// The logger, writing in the long form.
    pub fn with_detailed_format(self) -> (r: Self)
        ensures
            r == (FauxDBLogger { level: self.level, compact: false }),
    {
        FauxDBLogger { level: self.level, compact: false }
    }

    /// The line for a message of the given level, or `None` where the
    /// level is under the logger's own.
    pub fn log(&self, level: LogLevel, message: &str, timestamp: i64, pid: u32) -> (r: Option<
        String,
    >)
        ensures
            line_text(r) == logged(*self, level, message@, timestamp, pid),
    {
        if level.rank() >= self.level.rank() {
            let event = FauxDBLogEvent::new(level, message.to_owned(), timestamp, pid);
            Some(
                if self.compact {
                    event.format_compact()
                } else {
                    event.format_detailed()
                },
            )
        } else {
            None
        }
    }

    /// The line for a debug message.
    pub fn debug(&self, message: &str, timestamp: i64, pid: u32) -> (r: Option<String>)
        ensures
            line_text(r) == logged(*self, LogLevel::Debug, message@, timestamp, pid),
    {
        self.log(LogLevel::Debug, message, timestamp, pid)
    }

    /// The line for an informational message.
    pub fn info(&self, message: &str, timestamp: i64, pid: u32) -> (r: Option<String>)
        ensures
            line_text(r) == logged(*self, LogLevel::Info, message@, timestamp, pid),
    {
        self.log(LogLevel::Info, message, timestamp, pid)
    }

    /// The line for a warning.
    pub fn warning(&self, message: &str, timestamp: i64, pid: u32) -> (r: Option<String>)
        ensures
            line_text(r) == logged(*self, LogLevel::Warning, message@, timestamp, pid),
    {
        self.log(LogLevel::Warning, message, timestamp, pid)
    }

    /// The line for an error.
    pub fn error(&self, message: &str, timestamp: i64, pid: u32) -> (r: Option<String>)
        ensures
            line_text(r) == logged(*self, LogLevel::Error, message@, timestamp, pid),
    {
        self.log(LogLevel::Error, message, timestamp, pid)
    }
}

/// The logger for a level, writing in the long form where `detailed` is
/// set.
pub fn init_logger(level: LogLevel, detailed: bool) -> (r: FauxDBLogger)
    ensures
        r == (FauxDBLogger { level, compact: !detailed }),
{
    if detailed {
        FauxDBLogger::new(level).with_detailed_format()
    } else {
        FauxDBLogger::new(level)
    }
}

/// What is known of the process.
#[derive(Debug, Clone, Copy, PartialEq, Eq, Structural)]
pub struct ProcessInfo {
    pub pid: u32,
    pub parent_pid: u32,
    pub start_time: u64,
    pub memory_usage: u64,
}

/// The memory that the process uses, as far as the library knows: zero.
pub fn get_memory_usage() -> (r: u64)
    ensures
        r == 0,
{
    0
}

/// What is known of the process `pid`, which started at `start_time`.
pub fn get_process_info(pid: u32, start_time: u64) -> (r: ProcessInfo)
    ensures
        r == (ProcessInfo { pid, parent_pid: pid, start_time, memory_usage: 0 }),
{
    ProcessInfo { pid, parent_pid: pid, start_time, memory_usage: get_memory_usage() }
}

/// What is known of one connection.
#[derive(Debug, Clone)]
pub struct ConnectionInfo {
    pub connection_id: u32,
    pub client_addr: String,
    pub connected_at: i64,
    pub last_activity: i64,
    pub bytes_received: u64,
    pub bytes_sent: u64,
    pub commands_executed: u64,
}

/// The connections that are open, up to a limit.
#[derive(Debug)]
pub struct ConnectionTracker {
    pub connections: Vec<ConnectionInfo>,
    pub max_connections: u32,
}

/// Index of the first connection at or after `i` with the given id; the
/// number of connections where there is none.
pub open spec fn connection_index_from(c: Seq<ConnectionInfo>, id: u32, i: int) -> int
    decreases c.len() - i,
{
    if i < 0 || i >= c.len() {
        c.len() as int
    } else if c[i].connection_id == id {
        i
    } else {
        connection_index_from(c, id, i + 1)
    }
}

proof fn lemma_connection_index_skip(c: Seq<ConnectionInfo>, id: u32, i: int)
    requires
        0 <= i <= c.len(),
        forall|j: int| 0 <= j < i ==> (#[trigger] c[j]).connection_id != id,
    ensures
        connection_index_from(c, id, i) == connection_index_from(c, id, 0),
    decreases i,
{
    if i > 0 {
        lemma_connection_index_skip(c, id, i - 1);
        assert(c[i - 1].connection_id != id);
    }
}

impl ConnectionTracker {
    /// A tracker without connections.
    pub fn new(max_connections: u32) -> (r: Self)
        ensures
            r.connections@.len() == 0,
            r.max_connections == max_connections,
    {
        ConnectionTracker { connections: Vec::new(), max_connections }
    }

    /// Index of the connection with the given id.
    pub fn find(&self, connection_id: u32) -> (r: Option<usize>)
        ensures
            match r {
                Some(i) => i < self.connections@.len() && i == connection_index_from(
                    self.connections@,
                    connection_id,
                    0,
                ) && self.connections@[i as int].connection_id == connection_id,
                None => connection_index_from(self.connections@, connection_id, 0)
                    == self.connections@.len(),
            },
    {
        let mut i: usize = 0;
        while i < self.connections.len()
            invariant
                i <= self.connections.len(),
                forall|j: int|
                    0 <= j < i ==> (#[trigger] self.connections@[j]).connection_id
                        != connection_id,
            decreases self.connections.len() - i,
        {
            if self.connections[i].connection_id == connection_id {
                proof {
                    lemma_connection_index_skip(self.connections@, connection_id, i as int);
                }
                return Some(i);
            }
            i = i + 1;
        }
        proof {
            lemma_connection_index_skip(self.connections@, connection_id, i as int);
        }
        None
    }

    /// Notes a connection that was opened at `now`. At the limit no
    /// connection is taken and the tracker stays as it is.
    pub fn add_connection(&mut self, connection_id: u32, client_addr: String, now: i64) -> (r:
        bool)
        ensures
            final(self).max_connections == old(self).max_connections,
            r == (old(self).connections@.len() < old(self).max_connections),
            !r ==> final(self).connections == old(self).connections,
            r ==> {
                &&& final(self).connections@.len() == old(self).connections@.len() + 1
                &&& final(self).connections@.drop_last() == old(self).connections@
                &&& final(self).connections@.last().connection_id == connection_id
                &&& final(self).connections@.last().client_addr == client_addr
                &&& final(self).connections@.last().connected_at == now
                &&& final(self).connections@.last().commands_executed == 0
            },
    {
        if self.connections.len() >= self.max_connections as usize {
            return false;
        }
        self.connections.push(
            ConnectionInfo {
                connection_id,
                client_addr,
                connected_at: now,
                last_activity: now,
                bytes_received: 0,
                bytes_sent: 0,
                commands_executed: 0,
            },
        );
        assert(self.connections@.drop_last() =~= old(self).connections@);
        true
    }

    /// Forgets the connection with the given id, where there is one.
    pub fn remove_connection(&mut self, connection_id: u32)
        ensures
            final(self).max_connections == old(self).max_connections,
            ({
                let at = connection_index_from(old(self).connections@, connection_id, 0);
                if at < old(self).connections@.len() {
                    final(self).connections@ == old(self).connections@.remove(at)
                } else {
                    final(self).connections == old(self).connections
                }
            }),
    {
        match self.find(connection_id) {
            Some(i) => {
                let _ = self.connections.remove(i);
            },
            None => {},
        }
    }

    /// Number of connections that are open.
    pub fn get_connection_count(&self) -> (r: usize)
        ensures
            r == self.connections@.len(),
    {
        self.connections.len()
    }
}

/// `a + b`, or the top of the range.
pub open spec fn capped(a: u64, b: u64) -> u64 {
    if a + b > u64::MAX {
        u64::MAX
    } else {
        (a + b) as u64
    }
}

fn add_capped(a: u64, b: u64) -> (r: u64)
    ensures
        r == capped(a, b),
{
    if a > u64::MAX - b {
        u64::MAX
    } else {
        a + b
    }
}

impl ConnectionTracker {
    /// Notes at `now` that a connection has received and sent bytes. An
    /// id that names no connection changes nothing.
    pub fn update_activity(&mut self, connection_id: u32, bytes_received: u64, bytes_sent: u64, now: i64)
        ensures
            final(self).max_connections == old(self).max_connections,
            final(self).connections@.len() == old(self).connections@.len(),
            ({
                let at = connection_index_from(old(self).connections@, connection_id, 0);
                &&& forall|j: int|
                    0 <= j < old(self).connections@.len() && j != at ==> final(self).connections@[j] == old(self).connections@[j]
                &&& at < old(self).connections@.len() ==> final(self).connections@[at] == (
                ConnectionInfo {
                    last_activity: now,
                    bytes_received: capped(old(self).connections@[at].bytes_received, bytes_received),
                    bytes_sent: capped(old(self).connections@[at].bytes_sent, bytes_sent),
                    ..old(self).connections@[at]
                })
            }),
    {
        match self.find(connection_id) {
            None => {},
            Some(i) => {
                let mut info = self.connections.remove(i);
                info.last_activity = now;
                info.bytes_received = add_capped(info.bytes_received, bytes_received);
                info.bytes_sent = add_capped(info.bytes_sent, bytes_sent);
                self.connections.insert(i, info);
            },
        }
    }

    /// Counts one more command on a connection. An id that names no
    /// connection changes nothing.
    pub fn increment_commands(&mut self, connection_id: u32)
        ensures
            final(self).max_connections == old(self).max_connections,
            final(self).connections@.len() == old(self).connections@.len(),
            ({
                let at = connection_index_from(old(self).connections@, connection_id, 0);
                &&& forall|j: int|
                    0 <= j < old(self).connections@.len() && j != at ==> final(self).connections@[j] == old(self).connections@[j]
                &&& at < old(self).connections@.len() ==> final(self).connections@[at] == (
                ConnectionInfo {
                    commands_executed: capped(old(self).connections@[at].commands_executed, 1),
                    ..old(self).connections@[at]
                })
            }),
    {
        match self.find(connection_id) {
            None => {},
            Some(i) => {
                let mut info = self.connections.remove(i);
                info.commands_executed = add_capped(info.commands_executed, 1);
                self.connections.insert(i, info);
            },
        }
    }

    /// What is known of the connection with the given id.
    pub fn get_connection_info(&self, connection_id: u32) -> (r: Option<&ConnectionInfo>)
        ensures
            ({
                let at = connection_index_from(self.connections@, connection_id, 0);
                match r {
                    Some(info) => at < self.connections@.len() && *info == self.connections@[at],
                    None => at == self.connections@.len(),
                }
            }),
    {
        match self.find(connection_id) {
            Some(i) => Some(&self.connections[i]),
            None => None,
        }
    }

    /// The connections that are open, in the order in which they were
    /// opened.
    pub fn list_connections(&self) -> (r: &Vec<ConnectionInfo>)
        ensures
            r == &self.connections,
    {
        &self.connections
    }
}

} // verus!
