//! The pure parts of the unified logger: levels and their colours, the filter of
//! the log bus, and the plain data of records and of the logger configuration.
use vstd::prelude::*;
use crate::text::{skip_ws, str_eq, trim_ws_start};

verus! {

/// A log level, from the most verbose to the most severe.
#[derive(Clone, Copy, Debug, PartialEq, Eq, Structural)]
pub enum Level {
    Trace,
    Debug,
    Info,
    Warn,
    Error,
}

/// The verbosity rank of a level (larger is more verbose), as tracing orders them.
pub open spec fn verbosity(l: Level) -> int {
    match l {
        Level::Error => 0,
        Level::Warn => 1,
        Level::Info => 2,
        Level::Debug => 3,
        Level::Trace => 4,
    }
}

fn rank(l: Level) -> (r: u8)
    ensures
        r == verbosity(l),
{
    match l {
        Level::Error => 0,
        Level::Warn => 1,
        Level::Info => 2,
        Level::Debug => 3,
        Level::Trace => 4,
    }
}

/// The ANSI colour of a level: dim cyan, blue, bold, yellow, bold red.
pub fn level_color(level: Level) -> (s: &'static str)
    ensures
        s@ == match level {
            Level::Trace => "\x1b[2;36m"@,
            Level::Debug => "\x1b[34m"@,
            Level::Info => "\x1b[1m"@,
            Level::Warn => "\x1b[33m"@,
            Level::Error => "\x1b[1;31m"@,
        },
{
    match level {
        Level::Trace => "\x1b[2;36m",
        Level::Debug => "\x1b[34m",
        Level::Info => "\x1b[1m",
        Level::Warn => "\x1b[33m",
        Level::Error => "\x1b[1;31m",
    }
}

/// The target prefix of the bus consumers' own logs, never forwarded.
pub const RESERVED_TARGET_PREFIX: &'static str = "nagisa::log";

/// Whether a record goes to the bus: not from a reserved target, and at least
/// as severe as `min_level`.
pub open spec fn forward_spec(target: Seq<char>, level: Level, min_level: Level) -> bool {
    !"nagisa::log"@.is_prefix_of(target) && verbosity(level) <= verbosity(min_level)
}

/// The bus filter (against loops and floods).
pub fn should_forward(target: &str, level: Level, min_level: Level) -> (r: bool)
    ensures
        r == forward_spec(target@, level, min_level),
{
    let p = RESERVED_TARGET_PREFIX;
    proof {
        reveal_strlit("nagisa::log");
    }
    let m = p.unicode_len();
    let n = target.unicode_len();
    let mut reserved = m <= n;
    if reserved {
        let mut i: usize = 0;
        while i < m
            invariant
                m == p@.len(),
                p@ == "nagisa::log"@,
                m <= n,
                n == target@.len(),
                i <= m,
                reserved == forall|j: int| 0 <= j < i ==> p@[j] == target@[j],
            decreases m - i,
        {
            reserved = reserved && p.get_char(i) == target.get_char(i);
            i = i + 1;
        }
    }
    if reserved {
        return false;
    }
    rank(level) <= rank(min_level)
}

/// A log record broadcast on the bus.
pub struct LogRecord {
    pub level: Level,
    /// The target the record came from.
    pub source: String,
    /// The rendered message text.
    pub message: String,
    /// The other structured fields, by name.
    pub fields: Vec<(String, String)>,
    /// Wall-clock time of the record, in ms since the Unix epoch.
    pub timestamp: u64,
}

/// The logger configuration.
pub struct LogConfig {
    /// The source filter directives (`RUST_LOG` wins when set).
    pub filter: String,
    /// Directory and prefix of the daily rolling file, if any.
    pub file: Option<String>,
    /// JSON lines instead of text.
    pub json: bool,
    /// ANSI colours on the console.
    pub ansi: bool,
    /// Whether to install the log bus.
    pub bus: bool,
    /// The least severe level forwarded to the bus.
    pub bus_min_level: Level,
}

impl LogConfig {
    /// The usual starting point: `info`, no file, text, colours as given (on a
    /// terminal), no bus, bus threshold `Info`.
    pub fn defaults(ansi: bool) -> (c: LogConfig)
        ensures
            c.filter@ == "info"@,
            c.file is None,
            !c.json,
            c.ansi == ansi,
            !c.bus,
            c.bus_min_level == Level::Info,
    {
        LogConfig {
            filter: "info".to_owned(),
            file: None,
            json: false,
            ansi,
            bus: false,
            bus_min_level: Level::Info,
        }
    }
}

/// The level name left-aligned in 8 columns.
pub open spec fn padded_level(l: Level) -> Seq<char> {
    match l {
        Level::Trace => "TRACE   "@,
        Level::Debug => "DEBUG   "@,
        Level::Info => "INFO    "@,
        Level::Warn => "WARN    "@,
        Level::Error => "ERROR   "@,
    }
}

fn padded_level_str(l: Level) -> (s: &'static str)
    ensures
        s@ == padded_level(l),
{
    match l {
        Level::Trace => "TRACE   ",
        Level::Debug => "DEBUG   ",
        Level::Info => "INFO    ",
        Level::Warn => "WARN    ",
        Level::Error => "ERROR   ",
    }
}

/// The colour of a level as a sequence.
pub open spec fn level_color_spec(l: Level) -> Seq<char> {
    match l {
        Level::Trace => "\x1b[2;36m"@,
        Level::Debug => "\x1b[34m"@,
        Level::Info => "\x1b[1m"@,
        Level::Warn => "\x1b[33m"@,
        Level::Error => "\x1b[1;31m"@,
    }
}

/// An enclosing span of a record: its name and its rendered fields.
pub struct SpanText {
    pub name: String,
    pub fields: String,
}

/// One span as `name{fields}: ` (no braces without fields; fields without
/// their leading white space), dim when coloured.
pub open spec fn span_spec(s: SpanText, ansi: bool) -> Seq<char> {
    (if ansi { "\x1b[2m"@ } else { Seq::empty() }) + s.name@ + (if s.fields@.len() == 0 {
        Seq::empty()
    } else {
        "{"@ + trim_ws_start(s.fields@) + "}"@
    }) + ": "@ + (if ansi { "\x1b[0m"@ } else { Seq::empty() })
}

/// The spans from the root to the leaf.
pub open spec fn spans_spec(spans: Seq<SpanText>, ansi: bool) -> Seq<char>
    decreases spans.len(),
{
    if spans.len() == 0 {
        Seq::empty()
    } else {
        spans_spec(spans.drop_last(), ansi) + span_spec(spans.last(), ansi)
    }
}

/// The head of a log line: `time | LEVEL    | target - `, with green time,
/// dim separators, the level's colour and a cyan target when coloured.
pub open spec fn line_head(time: Seq<char>, level: Level, target: Seq<char>, ansi: bool) -> Seq<char> {
    if ansi {
        "\x1b[32m"@ + time + "\x1b[0m"@ + " "@ + "\x1b[2m"@ + "|"@ + "\x1b[0m"@ + " "@ + level_color_spec(level)
            + padded_level(level) + "\x1b[0m"@ + " "@ + "\x1b[2m"@ + "|"@ + "\x1b[0m"@ + " "@ + "\x1b[36m"@
            + target + "\x1b[0m"@ + " "@ + "\x1b[2m"@ + "-"@ + "\x1b[0m"@ + " "@
    } else {
        time + " | "@ + padded_level(level) + " | "@ + target + " - "@
    }
}

/// A whole log line: head, spans, then the body (in the level's colour for
/// warnings and errors when coloured), and a line break.
pub open spec fn log_line_spec(
    time: Seq<char>,
    level: Level,
    target: Seq<char>,
    spans: Seq<SpanText>,
    body: Seq<char>,
    ansi: bool,
) -> Seq<char> {
    line_head(time, level, target, ansi) + spans_spec(spans, ansi) + if ansi && (level == Level::Warn || level
        == Level::Error) {
        level_color_spec(level) + body + "\x1b[0m"@ + "\n"@
    } else {
        body + "\n"@
    }
}

/// Formats one log line in the loguru style (see [`log_line_spec`]); `time` is
/// the local time already formatted, `body` the record's rendered fields.
pub fn format_line(time: &str, level: Level, target: &str, spans: &Vec<SpanText>, body: &str, ansi: bool) -> (r:
    String)
    ensures
        r@ == log_line_spec(time@, level, target@, spans@, body@, ansi),
{
    let mut out = String::new();
    if ansi {
        out.append("\x1b[32m");
        out.append(time);
        out.append("\x1b[0m");
        out.append(" ");
        out.append("\x1b[2m");
        out.append("|");
        out.append("\x1b[0m");
        out.append(" ");
        out.append(level_color(level));
        out.append(padded_level_str(level));
        out.append("\x1b[0m");
        out.append(" ");
        out.append("\x1b[2m");
        out.append("|");
        out.append("\x1b[0m");
        out.append(" ");
        out.append("\x1b[36m");
        out.append(target);
        out.append("\x1b[0m");
        out.append(" ");
        out.append("\x1b[2m");
        out.append("-");
        out.append("\x1b[0m");
        out.append(" ");
        assert(out@ =~= Seq::<char>::empty() + line_head(time@, level, target@, ansi));
    } else {
        out.append(time);
        out.append(" | ");
        out.append(padded_level_str(level));
        out.append(" | ");
        out.append(target);
        out.append(" - ");
        assert(out@ =~= Seq::<char>::empty() + line_head(time@, level, target@, ansi));
    }
    let ghost head = out@;
    let mut i: usize = 0;
    assert(spans@.subrange(0, 0) =~= Seq::<SpanText>::empty());
    while i < spans.len()
        invariant
            i <= spans@.len(),
            out@ == head + spans_spec(spans@.subrange(0, i as int), ansi),
        decreases spans@.len() - i,
    {
        let ghost before = out@;
        let ghost next = spans@.subrange(0, i + 1);
        assert(next.drop_last() =~= spans@.subrange(0, i as int));
        assert(next.last() == spans@[i as int]);
        let s = &spans[i];
        if ansi {
            out.append("\x1b[2m");
        }
        out.append(s.name.as_str());
        if s.fields.as_str().unicode_len() > 0 {
            let n = s.fields.as_str().unicode_len();
            let q = skip_ws(s.fields.as_str(), 0);
            assert(s.fields@.subrange(0, n as int) =~= s.fields@);
            let rest = s.fields.as_str().substring_char(q, n);
            out.append("{");
            out.append(rest);
            out.append("}");
        }
        out.append(": ");
        if ansi {
            out.append("\x1b[0m");
        }
        assert(out@ =~= before + span_spec(spans@[i as int], ansi));
        i = i + 1;
    }
    assert(spans@.subrange(0, spans@.len() as int) =~= spans@);
    if ansi && (level == Level::Warn || level == Level::Error) {
        out.append(level_color(level));
        out.append(body);
        out.append("\x1b[0m");
        out.append("\n");
    } else {
        out.append(body);
        out.append("\n");
    }
    out
}

/// One field of a record as the console writes it: the message as it is
/// (embedded colours stay intact), any other field as ` name=value`.
pub fn field_text(name: &str, value: &str) -> (r: String)
    ensures
        r@ == if name@ == "message"@ {
            value@
        } else {
            " "@ + name@ + "="@ + value@
        },
{
    if str_eq(name, "message") {
        value.to_owned()
    } else {
        let mut s = String::from_str(" ");
        s.append(name);
        s.append("=");
        s.append(value);
        s
    }
}

} // verus!
