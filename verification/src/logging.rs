//! Defines different parts of the logging utilities: the settings that pick a level and an
//! output style, the text put before each message, the origin of messages, and the central
//! logger that groups output by origin.

use vstd::prelude::*;
use colored::Colorize;
use crate::identifier::{ProjectId, TaskId, display_parts, join_parts, join_text, path_components, path_parts};
pub mod central;
pub mod opts;

use crate::text::{decimal, decimal_text, has_char, pad_left, pad_left_text, split_on, views};

verus! {

/// The level of a log record.
#[derive(Debug, Clone, Copy, PartialEq, Eq, Structural)]
pub enum Level {
    Error,
    Warn,
    Info,
    Debug,
    Trace,
}

/// The most verbose level that is logged, or `Off`.
#[derive(Debug, Clone, Copy, PartialEq, Eq, Structural)]
pub enum LevelFilter {
    Off,
    Error,
    Warn,
    Info,
    Debug,
    Trace,
}

/// Provides helpful logging args for clis
#[derive(Debug, Clone, Copy, PartialEq, Eq, Structural)]
pub struct LoggingArgs {
    /// Only display error level log messages
    pub error: bool,
    /// Display warning and above level log messages
    pub warn: bool,
    /// Display info and above level log messages
    pub info: bool,
    /// Display debug and above level log messages
    pub debug: bool,
    /// Display trace and above level log messages
    pub trace: bool,
    /// Show the source of a logging statement when running in any non complicated mode
    pub show_source: bool,
    /// Outputs everything as json
    pub json: bool,
    /// The console output mode.
    pub console: ConsoleMode,
}

impl Default for LoggingArgs {
    fn default() -> (r: Self)
        ensures
            r == (LoggingArgs {
                error: false,
                warn: false,
                info: false,
                debug: true,
                trace: false,
                show_source: false,
                json: false,
                console: ConsoleMode::Plain,
            }),
    {
        Self {
            show_source: false,
            error: false,
            warn: false,
            info: false,
            debug: true,
            trace: false,
            json: false,
            console: ConsoleMode::Plain,
        }
    }
}

/// How each message is prefixed.
#[derive(Debug, Clone, Copy, PartialEq, Eq, Structural)]
pub enum OutputType {
    Basic,
    TimeOnly,
    Complicated,
    Json,
}

impl Default for OutputType {
    fn default() -> (r: Self)
        ensures
            r == OutputType::Basic,
    {
        OutputType::Basic
    }
}

/// Whether the console can show rich output.
#[derive(Debug, Clone, Copy, PartialEq, Eq, Structural)]
pub enum ConsoleMode {
    Auto,
    Rich,
    Plain,
}

/// Calls `atty::is(Stream::Stdout)`. Whether standard output is a terminal depends on how the
/// process was started, so nothing is stated of the answer.
#[verifier::external_body]
pub(crate) fn stdout_is_terminal() -> bool {
    atty::is(atty::Stream::Stdout)
}

impl ConsoleMode {
    /// Merges `other` into this mode: an `Auto` mode takes `other`, any other mode stays.
    pub fn merge(&mut self, other: Self)
        ensures
            *final(self) == (if *old(self) == ConsoleMode::Auto { other } else { *old(self) }),
    {
        if *self == ConsoleMode::Auto {
            *self = other;
        }
    }

    /// Resolves `Auto` to `Rich` when standard output is a terminal and to `Plain` otherwise.
    pub fn resolve(self) -> (r: Self)
        ensures
            self != ConsoleMode::Auto ==> r == self,
            r != ConsoleMode::Auto,
    {
        match self {
            ConsoleMode::Auto => Self::resolve_with(self, stdout_is_terminal()),
            _ => self,
        }
    }

    /// Resolves `Auto` to `Rich` when `is_terminal` holds and to `Plain` otherwise.
    pub fn resolve_with(self, is_terminal: bool) -> (r: Self)
        ensures
            r == (match self {
                ConsoleMode::Auto => if is_terminal { ConsoleMode::Rich } else { ConsoleMode::Plain },
                _ => self,
            }),
    {
        match self {
            ConsoleMode::Auto => if is_terminal {
                ConsoleMode::Rich
            } else {
                ConsoleMode::Plain
            },
            ConsoleMode::Rich => self,
            ConsoleMode::Plain => self,
        }
    }
}

/// The level filter that a set of flags selects: the first flag set, from `error` to `trace`,
/// or `Info` when none is.
pub open spec fn level_of_flags(error: bool, warn: bool, info: bool, debug: bool, trace: bool) -> LevelFilter {
    if error {
        LevelFilter::Error
    } else if warn {
        LevelFilter::Warn
    } else if info {
        LevelFilter::Info
    } else if debug {
        LevelFilter::Debug
    } else if trace {
        LevelFilter::Trace
    } else {
        LevelFilter::Info
    }
}

/// The flags are checked in the order `error`, `warn`, `info`, `debug`, `trace`: the first
/// one set decides the level, and with none set the level is `Info`.
pub proof fn flags_checked_in_order(error: bool, warn: bool, info: bool, debug: bool, trace: bool)
    ensures
        error ==> level_of_flags(error, warn, info, debug, trace) == LevelFilter::Error,
        !error && warn ==> level_of_flags(error, warn, info, debug, trace) == LevelFilter::Warn,
        !error && !warn && info ==> level_of_flags(error, warn, info, debug, trace) == LevelFilter::Info,
        !error && !warn && !info && debug ==> level_of_flags(error, warn, info, debug, trace) == LevelFilter::Debug,
        !error && !warn && !info && !debug && trace ==> level_of_flags(error, warn, info, debug, trace)
            == LevelFilter::Trace,
        !error && !warn && !info && !debug && !trace ==> level_of_flags(error, warn, info, debug, trace)
            == LevelFilter::Info,
{
}

impl LoggingArgs {
    /// Gets the log level
    pub fn log_level_filter(&self) -> (r: LevelFilter)
        ensures
            r == level_of_flags(self.error, self.warn, self.info, self.debug, self.trace),
            self.error ==> r == LevelFilter::Error,
            !self.error && self.warn ==> r == LevelFilter::Warn,
            !self.error && !self.warn && self.info ==> r == LevelFilter::Info,
            !self.error && !self.warn && !self.info && self.debug ==> r == LevelFilter::Debug,
            !self.error && !self.warn && !self.info && !self.debug && self.trace ==> r == LevelFilter::Trace,
    {
        if self.error {
            LevelFilter::Error
        } else if self.warn {
            LevelFilter::Warn
        } else if self.info {
            LevelFilter::Info
        } else if self.debug {
            LevelFilter::Debug
        } else if self.trace {
            LevelFilter::Trace
        } else {
            LevelFilter::Info
        }
    }

    /// The level filter and the output type these settings select: JSON when `json` is set,
    /// else time stamps when only `trace` selects the level, else the basic output.
    pub fn config_from_settings(&self) -> (r: (LevelFilter, OutputType))
        ensures
            r.0 == level_of_flags(self.error, self.warn, self.info, self.debug, self.trace),
            r.1 == (if self.json {
                OutputType::Json
            } else if !self.error && !self.warn && !self.info && !self.debug && self.trace {
                OutputType::TimeOnly
            } else {
                OutputType::Basic
            }),
    {
        let level = self.log_level_filter();
        let mut output_type = if self.error {
            OutputType::Basic
        } else if self.warn {
            OutputType::Basic
        } else if self.info {
            OutputType::Basic
        } else if self.debug {
            OutputType::Basic
        } else if self.trace {
            OutputType::TimeOnly
        } else {
            OutputType::Basic
        };
        if self.json {
            output_type = OutputType::Json;
        }
        (level, output_type)
    }

    /// Merges `other` into these settings: every flag that is off takes `other`'s value, and
    /// the console mode merges as [`ConsoleMode::merge`] does.
    pub fn merge(&mut self, other: Self)
        ensures
            final(self).error == (old(self).error || other.error),
            final(self).warn == (old(self).warn || other.warn),
            final(self).info == (old(self).info || other.info),
            final(self).debug == (old(self).debug || other.debug),
            final(self).trace == (old(self).trace || other.trace),
            final(self).show_source == (old(self).show_source || other.show_source),
            final(self).json == (old(self).json || other.json),
            final(self).console == (if old(self).console == ConsoleMode::Auto {
                other.console
            } else {
                old(self).console
            }),
    {
        if !self.error {
            self.error = other.error;
        }
        if !self.warn {
            self.warn = other.warn;
        }
        if !self.info {
            self.info = other.info;
        }
        if !self.debug {
            self.debug = other.debug;
        }
        if !self.trace {
            self.trace = other.trace;
        }
        if !self.show_source {
            self.show_source = other.show_source;
        }
        if !self.json {
            self.json = other.json;
        }
        self.console.merge(other.console);
    }

    /// The text put before a message of `record`. `time` is the current time, already
    /// formatted; it is used by the time-stamped outputs.
    pub fn format_prefix(output_mode: &OutputType, record: &RecordInfo, show_source: bool, time: &str) -> (r: String)
        requires
            *output_mode != OutputType::Json,
            *output_mode == OutputType::Complicated ==> file_name_of(record.file_or_unknown()) is Some,
        ensures
            exists|lv: Seq<char>, sv: Seq<char>|
                #![trigger with_source(*record, show_source, sv, prefix_output(*output_mode, lv, *record, time@))]
                renders(lv, level_code(record.level), level_name(record.level))
                && (show_source ==> source_rendered(*record, sv))
                && r@ == with_source(
                    *record,
                    show_source,
                    sv,
                    prefix_output(*output_mode, lv, *record, time@),
                ),
    {
        let level_text = paint_level(record.level, level_name_text(record.level).as_str());
        let output = match output_mode {
            OutputType::Basic => String::new(),
            OutputType::TimeOnly => {
                let mut out = "[".to_owned();
                out.append(time);
                out.append("] ");
                let padded = pad_left_text(level_text.as_str(), 7);
                out.append(padded.as_str());
                out.append(":");
                proof {
                    reveal_strlit("[");
                    reveal_strlit("] ");
                    reveal_strlit(":");
                }
                assert(out@ =~= seq!['['] + time@ + seq![']', ' '] + pad_left(level_text@, 7) + seq![':']);
                out
            },
            _ => {
                let file = record.file_text();
                let name = match file_name(file.as_str()) {
                    Some(name) => name,
                    None => {
                        assert(false);
                        String::new()
                    },
                };
                let mut out = "[".to_owned();
                out.append(time);
                out.append(" ");
                out.append(name.as_str());
                let line = line_suffix_text(record.line);
                out.append(line.as_str());
                out.append(" ");
                out.append(level_text.as_str());
                out.append("]");
                proof {
                    reveal_strlit("[");
                    reveal_strlit(" ");
                    reveal_strlit("]");
                }
                assert(out@ =~= seq!['['] + time@ + seq![' '] + name@ + line@ + seq![' '] + level_text@ + seq![']']);
                out
            },
        };
        assert(output@ == prefix_output(*output_mode, level_text@, *record, time@));
        let (sv, r) = source_prefixed(record, show_source, output);
        assert(renders(level_text@, level_code(record.level), level_name(record.level)));
        assert(show_source ==> source_rendered(*record, sv@));
        assert(r@ == with_source(*record, show_source, sv@, prefix_output(*output_mode, level_text@, *record, time@)));
        assert(renders(level_text@, level_code(record.level), level_name(record.level))
            && (show_source ==> source_rendered(*record, sv@))
            && r@ == with_source(*record, show_source, sv@, prefix_output(*output_mode, level_text@, *record, time@)));
        r
    }

    /// The whole text of a message: the prefix, a space when the prefix is not empty, and
    /// the message, colored for errors, warnings and traces.
    pub fn format_message(output_mode: &OutputType, record: &RecordInfo, show_source: bool, message: &str, time: &str) -> (r: String)
        requires
            *output_mode != OutputType::Json,
            *output_mode == OutputType::Complicated ==> file_name_of(record.file_or_unknown()) is Some,
        ensures
            exists|p: Seq<char>, m: Seq<char>|
                #![trigger message_rendered(record.level, message@, m), spaced(p)]
                (exists|lv: Seq<char>, sv: Seq<char>|
                    #![trigger with_source(*record, show_source, sv, prefix_output(*output_mode, lv, *record, time@))]
                    renders(lv, level_code(record.level), level_name(record.level))
                    && (show_source ==> source_rendered(*record, sv))
                    && p == with_source(*record, show_source, sv, prefix_output(*output_mode, lv, *record, time@)))
                && message_rendered(record.level, message@, m)
                && r@ == spaced(p) + m,
    {
        let prefix = Self::format_prefix(output_mode, record, show_source, time);
        let mut out = prefix;
        let ghost p = out@;
        if out.unicode_len() > 0 {
            out.append(" ");
        }
        proof {
            reveal_strlit(" ");
        }
        assert(out@ =~= spaced(p));
        let body = paint_message_text(record.level, message);
        out.append(body.as_str());
        assert(message_rendered(record.level, message@, body@));
        assert(out@ =~= spaced(p) + body@);
        out
    }
}

/// A prefix followed by a space, or nothing when the prefix is empty.
pub open spec fn spaced(p: Seq<char>) -> Seq<char> {
    if p.len() == 0 {
        p
    } else {
        p + seq![' ']
    }
}

/// The escape character that starts a terminal color sequence.
pub open spec fn escape() -> char {
    '\u{1b}'
}

/// `s` between the escape sequence of the style `code` and the reset sequence.
pub open spec fn painted(code: Seq<char>, s: Seq<char>) -> Seq<char> {
    seq![escape(), '['] + code + seq!['m'] + s + seq![escape(), '[', '0', 'm']
}

/// Whether `r` is what `colored` writes for `s` in the style `code`: `s` itself when colors
/// are off, `s` painted when they are on. Nothing is claimed of text holding an escape.
pub open spec fn renders(r: Seq<char>, code: Seq<char>, s: Seq<char>) -> bool {
    !has_char(s, escape()) ==> (r == s || r == painted(code, s))
}

/// Calls `colored::Colorize::red` and formats the result. Whether colors are written depends
/// on `colored`'s global setting (the environment, or an override), so either outcome is
/// allowed; the source shows that text without an escape is written unchanged between the
/// style and the reset sequence.
#[verifier::external_body]
fn red(s: &str) -> (r: String)
    ensures
        renders(r@, seq!['3', '1'], s@),
{
    s.red().to_string()
}

/// Calls `colored::Colorize::yellow` and formats the result; see [`red`].
#[verifier::external_body]
fn yellow(s: &str) -> (r: String)
    ensures
        renders(r@, seq!['3', '3'], s@),
{
    s.yellow().to_string()
}

/// Calls `colored::Colorize::green` and formats the result; see [`red`].
#[verifier::external_body]
fn green(s: &str) -> (r: String)
    ensures
        renders(r@, seq!['3', '2'], s@),
{
    s.green().to_string()
}

/// Calls `colored::Colorize::blue` and formats the result; see [`red`].
#[verifier::external_body]
fn blue(s: &str) -> (r: String)
    ensures
        renders(r@, seq!['3', '4'], s@),
{
    s.blue().to_string()
}

/// Calls `colored::Colorize::bright_black` and formats the result; see [`red`].
#[verifier::external_body]
fn bright_black(s: &str) -> (r: String)
    ensures
        renders(r@, seq!['9', '0'], s@),
{
    s.bright_black().to_string()
}

/// Calls `colored::Colorize::bright_blue` and formats the result; see [`red`].
#[verifier::external_body]
fn bright_blue(s: &str) -> (r: String)
    ensures
        renders(r@, seq!['9', '4'], s@),
{
    s.bright_blue().to_string()
}

/// Calls `colored::Colorize::italic` and formats the result; see [`red`].
#[verifier::external_body]
fn italic(s: &str) -> (r: String)
    ensures
        renders(r@, seq!['3'], s@),
{
    s.italic().to_string()
}

/// The name of a level, in lower case.
pub open spec fn level_name(level: Level) -> Seq<char> {
    match level {
        Level::Error => seq!['e', 'r', 'r', 'o', 'r'],
        Level::Warn => seq!['w', 'a', 'r', 'n'],
        Level::Info => seq!['i', 'n', 'f', 'o'],
        Level::Debug => seq!['d', 'e', 'b', 'u', 'g'],
        Level::Trace => seq!['t', 'r', 'a', 'c', 'e'],
    }
}

/// The color of a level's name.
pub open spec fn level_code(level: Level) -> Seq<char> {
    match level {
        Level::Error => seq!['3', '1'],
        Level::Warn => seq!['3', '3'],
        Level::Info => seq!['3', '2'],
        Level::Debug => seq!['3', '4'],
        Level::Trace => seq!['9', '0'],
    }
}

/// The name of a level, in lower case.
pub fn level_name_text(level: Level) -> (r: String)
    ensures
        r@ == level_name(level),
{
    let name = match level {
        Level::Error => "error",
        Level::Warn => "warn",
        Level::Info => "info",
        Level::Debug => "debug",
        Level::Trace => "trace",
    };
    proof {
        reveal_strlit("error");
        reveal_strlit("warn");
        reveal_strlit("info");
        reveal_strlit("debug");
        reveal_strlit("trace");
    }
    let r = name.to_owned();
    assert(r@ =~= level_name(level));
    r
}

fn paint_level(level: Level, s: &str) -> (r: String)
    ensures
        renders(r@, level_code(level), s@),
{
    match level {
        Level::Error => red(s),
        Level::Warn => yellow(s),
        Level::Info => green(s),
        Level::Debug => blue(s),
        Level::Trace => bright_black(s),
    }
}

/// Whether `m` is what the message text `s` of a record of `level` is written as: red for
/// errors, yellow for warnings, bright blue for traces, unchanged otherwise.
pub open spec fn message_rendered(level: Level, s: Seq<char>, m: Seq<char>) -> bool {
    match level {
        Level::Error => renders(m, seq!['3', '1'], s),
        Level::Warn => renders(m, seq!['3', '3'], s),
        Level::Info => m == s,
        Level::Debug => m == s,
        Level::Trace => renders(m, seq!['9', '4'], s),
    }
}

pub(crate) fn paint_message_text(level: Level, s: &str) -> (r: String)
    ensures
        message_rendered(level, s@, r@),
{
    match level {
        Level::Error => red(s),
        Level::Warn => yellow(s),
        Level::Info => s.to_owned(),
        Level::Debug => s.to_owned(),
        Level::Trace => bright_blue(s),
    }
}

/// What a log record carries that the prefix is made from.
pub struct RecordInfo {
    pub level: Level,
    pub file: Option<String>,
    pub line: Option<u32>,
    pub module: Option<String>,
}

impl RecordInfo {
    /// The file of the record, or `unknown`.
    pub open spec fn file_or_unknown(self) -> Seq<char> {
        match self.file {
            Some(f) => f@,
            None => seq!['u', 'n', 'k', 'n', 'o', 'w', 'n'],
        }
    }

    fn file_text(&self) -> (r: String)
        ensures
            r@ == self.file_or_unknown(),
    {
        match &self.file {
            Some(f) => f.clone(),
            None => {
                let u = "unknown";
                proof {
                    reveal_strlit("unknown");
                }
                let r = u.to_owned();
                assert(r@ =~= seq!['u', 'n', 'k', 'n', 'o', 'w', 'n']);
                r
            },
        }
    }
}

/// The last component of a path, as `Path::file_name` gives it on Unix: none for a path
/// without components or one that ends in `..` or is `.`.
pub open spec fn file_name_of(path: Seq<char>) -> Option<Seq<char>> {
    let comps = path_components(split_on(path, '/'));
    if comps.len() == 0 || comps.last() == seq!['.', '.'] || comps.last() == seq!['.'] {
        None
    } else {
        Some(comps.last())
    }
}

fn is_parent_or_current(s: &String) -> (r: bool)
    ensures
        r == (s@ == seq!['.', '.'] || s@ == seq!['.']),
{
    let n = s.unicode_len();
    if n == 1 {
        let r = s.get_char(0) == '.';
        proof {
            assert(s@.len() != seq!['.', '.'].len());
            if r {
                assert(s@ =~= seq!['.']);
            } else {
                assert(s@[0] != seq!['.'][0]);
            }
        }
        r
    } else if n == 2 {
        let r = s.get_char(0) == '.' && s.get_char(1) == '.';
        proof {
            assert(s@.len() != seq!['.'].len());
            if !r {
                assert(s@[0] != seq!['.', '.'][0] || s@[1] != seq!['.', '.'][1]);
            } else {
                assert(s@ =~= seq!['.', '.']);
            }
        }
        r
    } else {
        proof {
            assert(s@.len() != seq!['.'].len());
            assert(s@.len() != seq!['.', '.'].len());
        }
        false
    }
}

/// The last component of `path`.
pub fn file_name(path: &str) -> (r: Option<String>)
    ensures
        r matches Some(n) ==> file_name_of(path@) == Some(n@),
        r is None ==> file_name_of(path@) is None,
{
    let comps = path_parts(path);
    let n = comps.len();
    if n == 0 {
        return None;
    }
    let last = comps[n - 1].clone();
    proof {
        assert(views(comps@).last() == last@);
    }
    if is_parent_or_current(&last) {
        None
    } else {
        Some(last)
    }
}

/// `:` and the line number, or nothing when the line is unknown.
pub open spec fn line_suffix(line: Option<u32>) -> Seq<char> {
    match line {
        Some(l) => seq![':'] + decimal(l as nat),
        None => Seq::<char>::empty(),
    }
}

fn line_suffix_text(line: Option<u32>) -> (r: String)
    ensures
        r@ == line_suffix(line),
{
    match line {
        Some(l) => {
            let mut out = String::new();
            crate::text::push_char(&mut out, ':');
            let digits = decimal_text(l);
            out.append(digits.as_str());
            assert(out@ =~= seq![':'] + decimal(l as nat));
            out
        },
        None => String::new(),
    }
}

/// The prefix of each output type, from the (colored) level name `lv`.
pub open spec fn prefix_output(mode: OutputType, lv: Seq<char>, record: RecordInfo, time: Seq<char>) -> Seq<char> {
    match mode {
        OutputType::TimeOnly => seq!['['] + time + seq![']', ' '] + pad_left(lv, 7) + seq![':'],
        OutputType::Complicated => seq!['['] + time + seq![' '] + file_name_of(record.file_or_unknown()).unwrap()
            + line_suffix(record.line) + seq![' '] + lv + seq![']'],
        _ => Seq::<char>::empty(),
    }
}

/// The text of a module path up to its first `::`.
pub open spec fn crate_of(module: Seq<char>) -> Seq<char>
    decreases module.len(),
{
    if module.len() < 2 {
        module
    } else if module[0] == ':' && module[1] == ':' {
        Seq::<char>::empty()
    } else {
        seq![module[0]] + crate_of(module.drop_first())
    }
}

/// The components after the first `src` component, or none when there is no such component.
pub open spec fn after_src(comps: Seq<Seq<char>>) -> Seq<Seq<char>>
    decreases comps.len(),
{
    if comps.len() == 0 {
        comps
    } else if comps[0] == seq!['s', 'r', 'c'] {
        comps.drop_first()
    } else {
        after_src(comps.drop_first())
    }
}

/// The source of a record, `(crate :: path/in/src:line)`, when the record has a module path
/// and a file.
pub open spec fn source_plain(record: RecordInfo) -> Option<Seq<char>> {
    match (record.module, record.file) {
        (Some(m), Some(f)) => Some(
            seq!['('] + crate_of(m@) + seq![' ', ':', ':', ' ']
                + join_parts(after_src(path_components(split_on(f@, '/'))), '/')
                + line_suffix(record.line) + seq![')'],
        ),
        _ => None,
    }
}

/// Whether `sv` is the source of `record` written in italics, when it has one.
pub open spec fn source_rendered(record: RecordInfo, sv: Seq<char>) -> bool {
    source_plain(record) matches Some(p) ==> renders(sv, seq!['3'], p)
}

/// The output `output` preceded by the source of the record when `show_source` is set.
pub open spec fn with_source(record: RecordInfo, show_source: bool, sv: Seq<char>, output: Seq<char>) -> Seq<char> {
    if show_source {
        match source_plain(record) {
            Some(_) => sv + seq![' '] + output,
            None => seq!['(', '<', 'u', 'n', 'k', 'n', 'o', 'w', 'n', ' ', 's', 'o', 'u', 'r', 'c', 'e', '>', ')', ' ']
                + output,
        }
    } else {
        output
    }
}

/// The text of `module` up to its first `::`.
pub fn crate_name(module: &str) -> (r: String)
    ensures
        r@ == crate_of(module@),
{
    let n = module.unicode_len();
    let mut i: usize = 0;
    let mut out = String::new();
    assert(module@.skip(0) =~= module@);
    assert(out@ + crate_of(module@) =~= crate_of(module@));
    while i < n
        invariant
            n == module@.len(),
            i <= n,
            out@ + crate_of(module@.skip(i as int)) == crate_of(module@),
        decreases n - i,
    {
        let ghost rest = module@.skip(i as int);
        if i + 1 < n && module.get_char(i) == ':' && module.get_char(i + 1) == ':' {
            assert(crate_of(rest) == Seq::<char>::empty());
            assert(out@ + Seq::<char>::empty() =~= out@);
            return out;
        }
        let c = module.get_char(i);
        assert(rest.drop_first() =~= module@.skip(i + 1));
        assert(crate_of(rest) == seq![c] + crate_of(module@.skip(i + 1))) by {
            if rest.len() < 2 {
                assert(module@.skip(i + 1).len() < 2);
                assert(rest =~= seq![c]);
                assert(module@.skip(i + 1) =~= Seq::<char>::empty());
            }
        }
        crate::text::push_char(&mut out, c);
        assert(out@ + crate_of(module@.skip(i + 1)) =~= crate_of(module@));
        i = i + 1;
    }
    assert(module@.skip(n as int) =~= Seq::<char>::empty());
    assert(out@ + Seq::<char>::empty() =~= out@);
    out
}

fn is_src(s: &String) -> (r: bool)
    ensures
        r == (s@ == seq!['s', 'r', 'c']),
{
    let r = s.unicode_len() == 3 && s.get_char(0) == 's' && s.get_char(1) == 'r' && s.get_char(2) == 'c';
    proof {
        if r {
            assert(s@ =~= seq!['s', 'r', 'c']);
        } else if s@.len() == 3 {
            assert(s@ != seq!['s', 'r', 'c']);
        }
    }
    r
}

/// The components of `file` after its first `src` component, joined with `/`.
pub fn source_path(file: &str) -> (r: String)
    ensures
        r@ == join_parts(after_src(path_components(split_on(file@, '/'))), '/'),
{
    let comps = path_parts(file);
    let ghost all = views(comps@);
    let n = comps.len();
    let mut i: usize = 0;
    assert(all.skip(0) =~= all);
    while i < n
        invariant
            all == views(comps@),
            all == path_components(split_on(file@, '/')),
            n == comps@.len(),
            i <= n,
            after_src(all.skip(i as int)) == after_src(all),
        decreases n - i,
    {
        let ghost rest = all.skip(i as int);
        assert(rest[0] == comps@[i as int]@);
        if is_src(&comps[i]) {
            let mut tail: Vec<String> = Vec::new();
            let mut k: usize = i + 1;
            while k < n
                invariant
                    all == views(comps@),
                    n == comps@.len(),
                    i < k <= n,
                    views(tail@) == all.subrange(i + 1, k as int),
                decreases n - k,
            {
                let c = comps[k].clone();
                let ghost prev = tail@;
                tail.push(c);
                assert(views(tail@) =~= views(prev).push(c@));
                assert(all.subrange(i + 1, k + 1) =~= all.subrange(i + 1, k as int).push(all[k as int]));
                k = k + 1;
            }
            assert(rest.drop_first() =~= all.subrange(i + 1, n as int));
            assert(after_src(rest) == rest.drop_first());
            assert(views(tail@) == after_src(all));
            let joined = join_text(&tail, '/');
            assert(joined@ == join_parts(after_src(all), '/'));
            return joined;
        }
        assert(rest.drop_first() =~= all.skip(i + 1));
        i = i + 1;
    }
    assert(all.skip(n as int) =~= Seq::<Seq<char>>::empty());
    let empty: Vec<String> = Vec::new();
    assert(views(empty@) =~= Seq::<Seq<char>>::empty());
    join_text(&empty, '/')
}

/// The source text of a record, before it is written in italics.
pub fn source_text(record: &RecordInfo) -> (r: Option<String>)
    ensures
        r matches Some(s) ==> source_plain(*record) == Some(s@),
        r is None ==> source_plain(*record) is None,
{
    match (&record.module, &record.file) {
        (Some(module), Some(file)) => {
            let mut out = "(".to_owned();
            let name = crate_name(module.as_str());
            out.append(name.as_str());
            out.append(" :: ");
            let path = source_path(file.as_str());
            out.append(path.as_str());
            let line = line_suffix_text(record.line);
            out.append(line.as_str());
            out.append(")");
            proof {
                reveal_strlit("(");
                reveal_strlit(" :: ");
                reveal_strlit(")");
            }
            assert(out@ =~= seq!['('] + crate_of(module@) + seq![' ', ':', ':', ' '] + path@ + line@ + seq![')']);
            Some(out)
        },
        _ => None,
    }
}

/// The output preceded by the source of the record when `show_source` is set; also gives the
/// written source text.
pub(crate) fn source_prefixed(record: &RecordInfo, show_source: bool, output: String) -> (r: (String, String))
    ensures
        show_source ==> source_rendered(*record, r.0@),
        r.1@ == with_source(*record, show_source, r.0@, output@),
{
    if !show_source {
        return (String::new(), output);
    }
    match source_text(record) {
        Some(plain) => {
            let written = italic(plain.as_str());
            let mut out = written.clone();
            out.append(" ");
            out.append(output.as_str());
            proof {
                reveal_strlit(" ");
            }
            assert(out@ =~= written@ + seq![' '] + output@);
            (written, out)
        },
        None => {
            let mut out = "(<unknown source>) ".to_owned();
            out.append(output.as_str());
            proof {
                reveal_strlit("(<unknown source>) ");
            }
            assert(out@ =~= seq!['(', '<', 'u', 'n', 'k', 'n', 'o', 'w', 'n', ' ', 's', 'o', 'u', 'r', 'c', 'e', '>', ')', ' '] + output@);
            (String::new(), out)
        },
    }
}

/// The comparable value of an origin: a tag (0 for a project, 1 for a task, 2 for none) and
/// the parts of the identifier.
pub type OriginKey = (int, Seq<Seq<char>>);

/// The key of [`Origin::NoOrigin`].
pub open spec fn no_origin() -> OriginKey {
    (2, Seq::<Seq<char>>::empty())
}

/// Where a message comes from.
#[derive(Debug)]
pub enum Origin {
    Project(ProjectId),
    Task(TaskId),
    /// No project or task; `{:?}` writes it as `None`.
    NoOrigin,
}

impl View for Origin {
    type V = OriginKey;

    open spec fn view(&self) -> OriginKey {
        match self {
            Origin::Project(p) => (0, p@),
            Origin::Task(t) => (1, t@),
            Origin::NoOrigin => no_origin(),
        }
    }
}

impl Clone for Origin {
    fn clone(&self) -> (r: Self)
        ensures
            r@ == self@,
    {
        match self {
            Origin::Project(p) => Origin::Project(p.clone()),
            Origin::Task(t) => Origin::Task(t.clone()),
            Origin::NoOrigin => Origin::NoOrigin,
        }
    }
}

/// How an origin is written by `{:?}`: `Project(":a:b")`, `Task(":a:b")` or `None`.
pub open spec fn origin_debug(o: OriginKey) -> Seq<char> {
    if o.0 == 0 {
        seq!['P', 'r', 'o', 'j', 'e', 'c', 't', '(', '"'] + display_parts(o.1) + seq!['"', ')']
    } else if o.0 == 1 {
        seq!['T', 'a', 's', 'k', '(', '"'] + display_parts(o.1) + seq!['"', ')']
    } else {
        seq!['N', 'o', 'n', 'e']
    }
}

impl Origin {
    /// The origin of a project.
    pub fn from_project(p: ProjectId) -> (r: Self)
        ensures
            r@ == (0int, p@),
    {
        Origin::Project(p)
    }

    /// The origin of a task.
    pub fn from_task(t: TaskId) -> (r: Self)
        ensures
            r@ == (1int, t@),
    {
        Origin::Task(t)
    }

    /// Whether two origins are the same.
    pub fn same(&self, other: &Origin) -> (r: bool)
        ensures
            r == (self@ == other@),
    {
        match (self, other) {
            (Origin::Project(a), Origin::Project(b)) => a.id().same_as(b.id()),
            (Origin::Task(a), Origin::Task(b)) => a.id().same_as(b.id()),
            (Origin::NoOrigin, Origin::NoOrigin) => true,
            _ => false,
        }
    }

    /// Whether this is [`Origin::NoOrigin`].
    pub fn is_none(&self) -> (r: bool)
        ensures
            r == (self@.0 == 2),
    {
        match self {
            Origin::NoOrigin => true,
            _ => false,
        }
    }

    /// The text `{:?}` writes for this origin.
    pub fn debug_text(&self) -> (r: String)
        ensures
            r@ == origin_debug(self@),
    {
        match self {
            Origin::Project(p) => {
                let mut out = "Project(\"".to_owned();
                let name = p.id().to_string();
                out.append(name.as_str());
                out.append("\")");
                proof {
                    reveal_strlit("Project(\"");
                    reveal_strlit("\")");
                }
                assert(out@ =~= origin_debug(self@));
                out
            },
            Origin::Task(t) => {
                let mut out = "Task(\"".to_owned();
                let name = t.id().to_string();
                out.append(name.as_str());
                out.append("\")");
                proof {
                    reveal_strlit("Task(\"");
                    reveal_strlit("\")");
                }
                assert(out@ =~= origin_debug(self@));
                out
            },
            Origin::NoOrigin => {
                let out = "None".to_owned();
                proof {
                    reveal_strlit("None");
                }
                assert(out@ =~= origin_debug(self@));
                out
            },
        }
    }
}

/// A message as written in the JSON output.
pub struct JsonMessageInfo {
    pub level: Level,
    pub origin: Origin,
    pub message: String,
}

/// The origin of the messages of the current thread, and the commands that control the
/// central logger.
pub struct LoggingControl {
    origin: Origin,
}

impl LoggingControl {
    /// The control of a thread that has no origin yet.
    pub fn new() -> (r: Self)
        ensures
            r.origin()@ == no_origin(),
    {
        LoggingControl { origin: Origin::NoOrigin }
    }

    /// The origin currently set.
    pub closed spec fn origin(self) -> Origin {
        self.origin
    }

    /// Sets the origin
    fn use_origin(&mut self, new_origin: Origin)
        ensures
            final(self).origin() == new_origin,
    {
        self.origin = new_origin;
    }

    pub fn in_project(&mut self, project: ProjectId)
        ensures
            final(self).origin()@ == (0int, project@),
    {
        self.use_origin(Origin::Project(project))
    }

    pub fn in_task(&mut self, task: TaskId)
        ensures
            final(self).origin()@ == (1int, task@),
    {
        self.use_origin(Origin::Task(task))
    }

    pub fn reset(&mut self)
        ensures
            final(self).origin()@ == no_origin(),
    {
        self.use_origin(Origin::NoOrigin)
    }

    /// The command that stops the central logger.
    pub fn stop_logging(&self) -> (r: central::LoggingCommand)
        ensures
            r is Stop,
    {
        central::LoggingCommand::Stop
    }

    /// The command that tells the central logger that the task `id` started.
    pub fn start_task(&self, id: &TaskId) -> (r: central::LoggingCommand)
        ensures
            r matches central::LoggingCommand::TaskStarted(t) && t@ == id@,
    {
        central::LoggingCommand::TaskStarted(id.clone())
    }

    /// The command that tells the central logger that the task `id` ended.
    pub fn end_task(&self, id: &TaskId) -> (r: central::LoggingCommand)
        ensures
            r matches central::LoggingCommand::TaskEnded(t) && t@ == id@,
    {
        central::LoggingCommand::TaskEnded(id.clone())
    }

    /// The command that starts a progress bar.
    pub fn start_progress_bar(&self) -> (r: central::LoggingCommand)
        ensures
            r is StartMultiProgress,
    {
        central::LoggingCommand::StartMultiProgress
    }

    /// The command that ends a progress bar if it exists.
    pub fn end_progress_bar(&self) -> (r: central::LoggingCommand)
        ensures
            r is EndMultiProgress,
    {
        central::LoggingCommand::EndMultiProgress
    }

    /// Runs `func` within the origin `origin`: `func` sees the control with `origin` set, so
    /// that what is logged while it runs comes from `origin`. Afterwards no origin is set.
    pub fn with_origin<F: FnOnce(&LoggingControl) -> R, R>(&mut self, origin: Origin, func: F) -> (r: R)
        requires
            forall|c: LoggingControl| c.origin()@ == origin@ ==> call_requires(func, (&c,)),
        ensures
            exists|c: LoggingControl| c.origin()@ == origin@ && call_ensures(func, (&c,), r),
            final(self).origin()@ == no_origin(),
    {
        self.use_origin(origin);
        let ret = func(&*self);
        self.reset();
        ret
    }

    /// Gets the origin currently set
    pub fn get_origin(&self) -> (r: Origin)
        ensures
            r@ == self.origin()@,
    {
        self.origin.clone()
    }
}

/// Running a closure within an origin leaves no origin behind: afterwards the control reads
/// as it does after `reset`, and the origin the closure ran under no longer shows, unless it
/// was no origin itself.
pub proof fn with_origin_leaves_no_origin(used: Origin, after_with: LoggingControl, after_reset: LoggingControl)
    requires
        after_with.origin()@ == no_origin(),
        after_reset.origin()@ == no_origin(),
    ensures
        after_with.origin()@ == after_reset.origin()@,
        used@ != no_origin() ==> after_with.origin()@ != used@,
{
}

} // verus!
