//! Log records: levels, their tags, file names and colours, the logging
//! configuration, and the rendering of records.
//!
//! The functions named after levels build the record that the logger is to
//! write; stamping it with the time and writing it to the console and the
//! log files is done by the logger at the edge.
use vstd::prelude::*;
use crate::text::{dec, fmt_u64};
use crate::config_loader::types::lit;

verus! {

/// Log levels.
#[derive(Debug, Clone, Copy, PartialEq, Eq, Hash, PartialOrd, Ord, Structural)]
pub enum Level {
    Trace,
    Debug,
    Info,
    Success,
    Warn,
    Error,
    System,
    Network,
    Processing,
    Fatal,
}

/// The upper-case tag of a level.
pub open spec fn tag_spec(l: Level) -> Seq<char> {
    match l {
        Level::Trace => "TRACE"@,
        Level::Debug => "DEBUG"@,
        Level::Info => "INFO"@,
        Level::Success => "SUCCESS"@,
        Level::Warn => "WARN"@,
        Level::Error => "ERROR"@,
        Level::System => "SYSTEM"@,
        Level::Network => "NETWORK"@,
        Level::Processing => "PROCESSING"@,
        Level::Fatal => "FATAL"@,
    }
}

/// The file stem of a level's log file.
pub open spec fn file_stem_spec(l: Level) -> Seq<char> {
    match l {
        Level::Trace => "trace"@,
        Level::Debug => "debug"@,
        Level::Info => "info"@,
        Level::Success => "success"@,
        Level::Warn => "warn"@,
        Level::Error => "error"@,
        Level::System => "system"@,
        Level::Network => "network"@,
        Level::Processing => "processing"@,
        Level::Fatal => "fatal"@,
    }
}

/// The ANSI colour sequence of a level.
pub open spec fn ansi_spec(l: Level) -> Seq<char> {
    match l {
        Level::Trace => "\x1b[90m"@,
        Level::Debug => "\x1b[36m"@,
        Level::Info => "\x1b[34m"@,
        Level::Success => "\x1b[32m"@,
        Level::Warn => "\x1b[33m"@,
        Level::Error => "\x1b[31m"@,
        Level::System => "\x1b[35m"@,
        Level::Network => "\x1b[96m"@,
        Level::Processing => "\x1b[95m"@,
        Level::Fatal => "\x1b[1;31m"@,
    }
}

impl Level {
    pub fn tag(self) -> (r: &'static str)
        ensures
            r@ == tag_spec(self),
    {
        match self {
            Level::Trace => "TRACE",
            Level::Debug => "DEBUG",
            Level::Info => "INFO",
            Level::Success => "SUCCESS",
            Level::Warn => "WARN",
            Level::Error => "ERROR",
            Level::System => "SYSTEM",
            Level::Network => "NETWORK",
            Level::Processing => "PROCESSING",
            Level::Fatal => "FATAL",
        }
    }

    pub fn file_stem(self) -> (r: &'static str)
        ensures
            r@ == file_stem_spec(self),
    {
        match self {
            Level::Trace => "trace",
            Level::Debug => "debug",
            Level::Info => "info",
            Level::Success => "success",
            Level::Warn => "warn",
            Level::Error => "error",
            Level::System => "system",
            Level::Network => "network",
            Level::Processing => "processing",
            Level::Fatal => "fatal",
        }
    }

    pub fn ansi_color(self) -> (r: &'static str)
        ensures
            r@ == ansi_spec(self),
    {
        match self {
            Level::Trace => "\x1b[90m",
            Level::Debug => "\x1b[36m",
            Level::Info => "\x1b[34m",
            Level::Success => "\x1b[32m",
            Level::Warn => "\x1b[33m",
            Level::Error => "\x1b[31m",
            Level::System => "\x1b[35m",
            Level::Network => "\x1b[96m",
            Level::Processing => "\x1b[95m",
            Level::Fatal => "\x1b[1;31m",
        }
    }
}

/// The default log directory.
pub const DEFAULT_LOG_DIR: &'static str = "logs";
/// The default size limit of one log file, in bytes.
pub const DEFAULT_MAX_FILE_SIZE: u64 = 10485760;
/// The default interval between flushes, in milliseconds.
pub const DEFAULT_FLUSH_INTERVAL_MS: u64 = 250;

/// The logging configuration.
#[derive(Debug, Clone)]
pub struct LogConfig {
    /// Root directory; one sub-directory per day.
    pub directory: String,
    /// Size limit of one log file, in bytes.
    pub max_file_size: u64,
    /// Whether the console output colours the level tag.
    pub console_colors: bool,
    /// Interval between flushes, in milliseconds.
    pub flush_interval_ms: u64,
}

/// The `logging` (or `log`) section of the configuration file.
#[derive(Debug, Clone, Default)]
pub struct FileLogConfig {
    pub log_dir: Option<String>,
    pub path: Option<String>,
    pub max_file_size: Option<u64>,
    pub max_file_size_mb: Option<u64>,
}

/// The directory the file settings select, if any: `log_dir` over `path`.
pub open spec fn chosen_dir(f: FileLogConfig) -> Option<String> {
    if f.log_dir is Some { f.log_dir } else { f.path }
}

/// The size limit the file settings select: `max_file_size_mb` (at least
/// one) in MiB over `max_file_size` (at least one) over the default.
pub open spec fn chosen_size(f: FileLogConfig) -> nat {
    match f.max_file_size_mb {
        Some(mb) => (if mb >= 1 { mb as nat } else { 1nat }) * 1048576,
        None => match f.max_file_size {
            Some(b) => if b >= 1 { b as nat } else { 1nat },
            None => DEFAULT_MAX_FILE_SIZE as nat,
        },
    }
}

/// The log settings of a configuration file: its `logging` section, else
/// its `log` section, else none; a top-level `log_dir` stands in when the
/// section names no directory.
pub fn file_log_settings(logging: Option<FileLogConfig>, log: Option<FileLogConfig>, top_log_dir: Option<String>) -> (r: FileLogConfig)
    ensures
        ({
            let s = if logging is Some { logging } else { log };
            let sec = match s { Some(f) => f, None => FileLogConfig { log_dir: None, path: None, max_file_size: None, max_file_size_mb: None } };
            &&& r.log_dir == if sec.log_dir is Some { sec.log_dir } else { top_log_dir }
            &&& r.path == sec.path
            &&& r.max_file_size == sec.max_file_size
            &&& r.max_file_size_mb == sec.max_file_size_mb
            &&& chosen_dir(r) == if sec.log_dir is Some {
                sec.log_dir
            } else if top_log_dir is Some {
                top_log_dir
            } else {
                sec.path
            }
        }),
{
    let section = match logging {
        Some(f) => Some(f),
        None => log,
    };
    match section {
        Some(f) => {
            let log_dir = match f.log_dir {
                Some(d) => Some(d),
                None => top_log_dir,
            };
            FileLogConfig { log_dir, path: f.path, max_file_size: f.max_file_size, max_file_size_mb: f.max_file_size_mb }
        },
        None => FileLogConfig { log_dir: top_log_dir, path: None, max_file_size: None, max_file_size_mb: None },
    }
}

impl Default for LogConfig {
    fn default() -> (r: Self)
        ensures
            r.directory@ == DEFAULT_LOG_DIR@,
            r.max_file_size == DEFAULT_MAX_FILE_SIZE,
            r.console_colors,
            r.flush_interval_ms == DEFAULT_FLUSH_INTERVAL_MS,
    {
        LogConfig {
            directory: lit(DEFAULT_LOG_DIR),
            max_file_size: DEFAULT_MAX_FILE_SIZE,
            console_colors: true,
            flush_interval_ms: DEFAULT_FLUSH_INTERVAL_MS,
        }
    }
}

impl LogConfig {
    /// The configuration with the file settings applied over the defaults
    /// (no file settings: the defaults).
    pub fn from_config_file(file: Option<FileLogConfig>) -> (r: Self)
        requires
            file matches Some(f) ==> (f.max_file_size_mb matches Some(mb) ==> mb <= 17592186044415),
        ensures
            r.console_colors,
            r.flush_interval_ms == DEFAULT_FLUSH_INTERVAL_MS,
            r.max_file_size as nat == match file { Some(f) => chosen_size(f), None => DEFAULT_MAX_FILE_SIZE as nat },
            r.directory@ == match file {
                Some(f) => match chosen_dir(f) { Some(d) => d@, None => DEFAULT_LOG_DIR@ },
                None => DEFAULT_LOG_DIR@,
            },
    {
        let mut config = LogConfig::default();
        match file {
            Some(f) => {
                if let Some(p) = f.path {
                    config.directory = p;
                }
                if let Some(p) = f.log_dir {
                    config.directory = p;
                }
                if let Some(b) = f.max_file_size {
                    config.max_file_size = if b >= 1 { b } else { 1 };
                }
                if let Some(mb) = f.max_file_size_mb {
                    let m = if mb >= 1 { mb } else { 1 };
                    config.max_file_size = m * 1048576;
                }
            },
            None => {},
        }
        config
    }
}

/// A log record, not yet stamped with its time.
#[derive(Debug, Clone)]
pub struct LogRecord {
    pub level: Level,
    pub prefix: Option<String>,
    pub message: String,
    /// A raw record is written as its message alone.
    pub raw: bool,
}

/// The record is `level` with `prefix` and `message`.
pub open spec fn is_record(r: LogRecord, level: Level, prefix: Option<Seq<char>>, message: Seq<char>) -> bool {
    &&& r.level == level
    &&& match r.prefix { Some(p) => prefix == Some(p@), None => prefix is None }
    &&& r.message@ == message
    &&& !r.raw
}

/// The prefix when given and not empty.
pub open spec fn shown_prefix(r: LogRecord) -> Option<Seq<char>> {
    match r.prefix {
        Some(p) => if p@.len() > 0 { Some(p@) } else { None },
        None => None,
    }
}

/// A record written to a file: `[time] [TAG] [prefix] message`.
pub open spec fn render_spec(r: LogRecord, time: Seq<char>) -> Seq<char> {
    if r.raw {
        r.message@
    } else {
        match shown_prefix(r) {
            Some(p) => "["@ + time + "] ["@ + tag_spec(r.level) + "] ["@ + p + "] "@ + r.message@,
            None => "["@ + time + "] ["@ + tag_spec(r.level) + "] "@ + r.message@,
        }
    }
}

/// A record written to the console: as in the file, with only the level
/// tag coloured.
pub open spec fn render_console_spec(r: LogRecord, time: Seq<char>, colorize: bool) -> Seq<char> {
    if r.raw || !colorize {
        render_spec(r, time)
    } else {
        let level = ansi_spec(r.level) + "["@ + tag_spec(r.level) + "]\x1b[0m"@;
        match shown_prefix(r) {
            Some(p) => "["@ + time + "] "@ + level + " ["@ + p + "] "@ + r.message@,
            None => "["@ + time + "] "@ + level + " "@ + r.message@,
        }
    }
}

fn record(level: Level, prefix: Option<&str>, message: &str) -> (r: LogRecord)
    ensures
        is_record(r, level, match prefix { Some(p) => Some(p@), None => None }, message@),
{
    LogRecord {
        level,
        prefix: match prefix { Some(p) => Some(lit(p)), None => None },
        message: lit(message),
        raw: false,
    }
}

impl LogRecord {
    /// A raw record (written as its message alone, at the INFO level).
    pub fn raw_record(message: &str) -> (r: Self)
        ensures
            r.level == Level::Info,
            r.prefix is None,
            r.message@ == message@,
            r.raw,
    {
        LogRecord { level: Level::Info, prefix: None, message: lit(message), raw: true }
    }

    /// The line written to the log files, for the formatted time `time`.
    pub fn render(&self, time: &str) -> (r: String)
        ensures
            r@ == render_spec(*self, time@),
    {
        if self.raw {
            return self.message.clone();
        }
        let mut r = lit("[");
        r.append(time);
        r.append("] [");
        r.append(self.level.tag());
        match &self.prefix {
            Some(p) => {
                if !p.as_str().is_empty() {
                    r.append("] [");
                    r.append(p.as_str());
                }
            },
            None => {},
        }
        r.append("] ");
        r.append(self.message.as_str());
        r
    }

    /// The line written to the console.
    pub fn render_console(&self, time: &str, colorize: bool) -> (r: String)
        ensures
            r@ == render_console_spec(*self, time@, colorize),
    {
        if self.raw || !colorize {
            return self.render(time);
        }
        let mut r = lit("[");
        r.append(time);
        r.append("] ");
        r.append(self.level.ansi_color());
        r.append("[");
        r.append(self.level.tag());
        r.append("]\x1b[0m");
        let mut shown = false;
        match &self.prefix {
            Some(p) => {
                if !p.as_str().is_empty() {
                    r.append(" [");
                    r.append(p.as_str());
                    r.append("] ");
                    shown = true;
                }
            },
            None => {},
        }
        if !shown {
            r.append(" ");
        }
        r.append(self.message.as_str());
        assert(r@ =~= render_console_spec(*self, time@, colorize));
        r
    }
}

/// The file name of a level's log file: `stem.log`, then `stem-1.log`, ...
pub open spec fn log_file_name_spec(stem: Seq<char>, index: nat) -> Seq<char> {
    if index == 0 { stem + ".log"@ } else { stem + "-"@ + dec(index) + ".log"@ }
}

/// The name of the `index`-th file of a stem.
pub fn log_file_name(stem: &str, index: u64) -> (r: String)
    ensures
        r@ == log_file_name_spec(stem@, index as nat),
{
    let mut r = lit(stem);
    if index > 0 {
        r.append("-");
        let n = fmt_u64(index);
        r.append(n.as_str());
    }
    r.append(".log");
    r
}

/// Whether a line of `line_size` bytes goes into a file of `size` bytes: an
/// empty file takes any line, another one only up to the size limit.
pub fn fits_in_file(size: u64, line_size: u64, max_file_size: u64) -> (r: bool)
    ensures
        r == (size == 0 || size + line_size <= max_file_size),
{
    size == 0 || (line_size <= max_file_size && size <= max_file_size - line_size)
}

/// An INFO record.
pub fn info(msg: &str) -> (r: LogRecord)
    ensures is_record(r, Level::Info, None, msg@),
{
    record(Level::Info, None, msg)
}

/// A TRACE record.
pub fn trace(msg: &str) -> (r: LogRecord)
    ensures is_record(r, Level::Trace, None, msg@),
{
    record(Level::Trace, None, msg)
}

/// A TRACE record with a prefix.
pub fn trace_f(prefix: &str, msg: &str) -> (r: LogRecord)
    ensures is_record(r, Level::Trace, Some(prefix@), msg@),
{
    record(Level::Trace, Some(prefix), msg)
}

/// An INFO record with a prefix.
pub fn info_f(prefix: &str, msg: &str) -> (r: LogRecord)
    ensures is_record(r, Level::Info, Some(prefix@), msg@),
{
    record(Level::Info, Some(prefix), msg)
}

/// A SUCCESS record.
pub fn success(msg: &str) -> (r: LogRecord)
    ensures is_record(r, Level::Success, None, msg@),
{
    record(Level::Success, None, msg)
}

/// A SUCCESS record with a prefix.
pub fn success_f(prefix: &str, msg: &str) -> (r: LogRecord)
    ensures is_record(r, Level::Success, Some(prefix@), msg@),
{
    record(Level::Success, Some(prefix), msg)
}

/// A WARN record.
pub fn warn(msg: &str) -> (r: LogRecord)
    ensures is_record(r, Level::Warn, None, msg@),
{
    record(Level::Warn, None, msg)
}

/// A WARN record with a prefix.
pub fn warn_f(prefix: &str, msg: &str) -> (r: LogRecord)
    ensures is_record(r, Level::Warn, Some(prefix@), msg@),
{
    record(Level::Warn, Some(prefix), msg)
}

/// An ERROR record.
pub fn error(msg: &str) -> (r: LogRecord)
    ensures is_record(r, Level::Error, None, msg@),
{
    record(Level::Error, None, msg)
}

/// An ERROR record with a prefix.
pub fn error_f(prefix: &str, msg: &str) -> (r: LogRecord)
    ensures is_record(r, Level::Error, Some(prefix@), msg@),
{
    record(Level::Error, Some(prefix), msg)
}

/// A FATAL record.
pub fn fatal(msg: &str) -> (r: LogRecord)
    ensures is_record(r, Level::Fatal, None, msg@),
{
    record(Level::Fatal, None, msg)
}

/// A FATAL record with a prefix.
pub fn fatal_f(prefix: &str, msg: &str) -> (r: LogRecord)
    ensures is_record(r, Level::Fatal, Some(prefix@), msg@),
{
    record(Level::Fatal, Some(prefix), msg)
}

/// A DEBUG record.
pub fn debug(msg: &str) -> (r: LogRecord)
    ensures is_record(r, Level::Debug, None, msg@),
{
    record(Level::Debug, None, msg)
}

/// A DEBUG record with a prefix.
pub fn debug_f(prefix: &str, msg: &str) -> (r: LogRecord)
    ensures is_record(r, Level::Debug, Some(prefix@), msg@),
{
    record(Level::Debug, Some(prefix), msg)
}

/// A SYSTEM record.
pub fn system(msg: &str) -> (r: LogRecord)
    ensures is_record(r, Level::System, None, msg@),
{
    record(Level::System, None, msg)
}

/// A NETWORK record with a prefix.
pub fn network(prefix: &str, msg: &str) -> (r: LogRecord)
    ensures is_record(r, Level::Network, Some(prefix@), msg@),
{
    record(Level::Network, Some(prefix), msg)
}

/// A PROCESSING record.
pub fn processing(msg: &str) -> (r: LogRecord)
    ensures is_record(r, Level::Processing, None, msg@),
{
    record(Level::Processing, None, msg)
}

/// A PROCESSING record with a prefix.
pub fn processing_f(prefix: &str, msg: &str) -> (r: LogRecord)
    ensures is_record(r, Level::Processing, Some(prefix@), msg@),
{
    record(Level::Processing, Some(prefix), msg)
}

/// The separator line.
pub open spec fn separator_line() -> Seq<char> {
    "────────────────────────────────────────────────────"@
}

/// The raw separator record.
pub fn separator() -> (r: LogRecord)
    ensures
        r.raw,
        r.message@ == separator_line(),
{
    LogRecord::raw_record("────────────────────────────────────────────────────")
}

/// A phase heading: separator, an INFO record prefixed `PHASE`, separator.
pub fn phase(title: &str) -> (r: Vec<LogRecord>)
    ensures
        r@.len() == 3,
        r@[0].raw && r@[0].message@ == separator_line(),
        is_record(r@[1], Level::Info, Some("PHASE"@), title@),
        r@[2].raw && r@[2].message@ == separator_line(),
{
    let mut v: Vec<LogRecord> = Vec::new();
    v.push(separator());
    v.push(record(Level::Info, Some("PHASE"), title));
    v.push(separator());
    v
}

/// An INFO record prefixed `TIME`.
pub fn now_time(label: &str) -> (r: LogRecord)
    ensures is_record(r, Level::Info, Some("TIME"@), label@),
{
    record(Level::Info, Some("TIME"), label)
}

/// A raw record: written as its message alone, counted at the INFO level.
pub fn raw(msg: &str) -> (r: LogRecord)
    ensures
        r.raw,
        r.level == Level::Info,
        r.prefix is None,
        r.message@ == msg@,
{
    LogRecord::raw_record(msg)
}

} // verus!
