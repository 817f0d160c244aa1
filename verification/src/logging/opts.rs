//! Logging options of the command line, whose prefix carries at most the source of a record.

use vstd::prelude::*;
use crate::logging::{
    level_of_flags, message_rendered, paint_message_text, source_prefixed, spaced, with_source,
    source_rendered, LevelFilter, RecordInfo,
};

verus! {

/// Provides helpful logging args for clis
#[derive(Debug, Clone, Copy, PartialEq, Eq, Structural)]
pub struct LoggingOpts {
    /// Only display error level log messages
    pub error: bool,
    /// Display warning and above level log messages
    pub warn: bool,
    /// Display info and above level log messages
    pub info: bool,
    /// Display debug and above level log messages
    pub debug: bool,
    /// Display trace and above level log messages
    pub trace: bool,
    /// Show the source of a logging statement when running in any non complicated mode
    pub show_source: bool,
    /// Outputs everything as json
    pub json: bool,
    /// The console output mode.
    pub console: ConsoleMode,
}

impl Default for LoggingOpts {
    fn default() -> (r: Self)
        ensures
            r == (LoggingOpts {
                error: false,
                warn: false,
                info: false,
                debug: true,
                trace: false,
                show_source: false,
                json: false,
                console: ConsoleMode::Plain,
            }),
    {
        Self {
            show_source: false,
            error: false,
            warn: false,
            info: false,
            debug: true,
            trace: false,
            json: false,
            console: ConsoleMode::Plain,
        }
    }
}

/// Whether the console can show rich output.
#[derive(Debug, Clone, Copy, PartialEq, Eq, Structural)]
pub enum ConsoleMode {
    Auto,
    Rich,
    Plain,
}

impl ConsoleMode {
    /// Merges `other` into this mode: an `Auto` mode takes `other`, any other mode stays.
    pub fn merge(&mut self, other: Self)
        ensures
            *final(self) == (if *old(self) == ConsoleMode::Auto { other } else { *old(self) }),
    {
        if *self == ConsoleMode::Auto {
            *self = other;
        }
    }

    /// Resolves `Auto` to `Rich` when standard output is a terminal and to `Plain` otherwise.
    pub fn resolve(self) -> (r: Self)
        ensures
            self != ConsoleMode::Auto ==> r == self,
            r != ConsoleMode::Auto,
    {
        match self {
            ConsoleMode::Auto => Self::resolve_with(self, crate::logging::stdout_is_terminal()),
            _ => self,
        }
    }

    /// Resolves `Auto` to `Rich` when `is_terminal` holds and to `Plain` otherwise.
    pub fn resolve_with(self, is_terminal: bool) -> (r: Self)
        ensures
            r == (match self {
                ConsoleMode::Auto => if is_terminal { ConsoleMode::Rich } else { ConsoleMode::Plain },
                _ => self,
            }),
    {
        match self {
            ConsoleMode::Auto => if is_terminal {
                ConsoleMode::Rich
            } else {
                ConsoleMode::Plain
            },
            ConsoleMode::Rich => self,
            ConsoleMode::Plain => self,
        }
    }
}

impl LoggingOpts {
    /// Gets the log level
    pub fn log_level_filter(&self) -> (r: LevelFilter)
        ensures
            r == level_of_flags(self.error, self.warn, self.info, self.debug, self.trace),
            self.error ==> r == LevelFilter::Error,
            !self.error && self.warn ==> r == LevelFilter::Warn,
            !self.error && !self.warn && self.info ==> r == LevelFilter::Info,
            !self.error && !self.warn && !self.info && self.debug ==> r == LevelFilter::Debug,
            !self.error && !self.warn && !self.info && !self.debug && self.trace ==> r == LevelFilter::Trace,
    {
        if self.error {
            LevelFilter::Error
        } else if self.warn {
            LevelFilter::Warn
        } else if self.info {
            LevelFilter::Info
        } else if self.debug {
            LevelFilter::Debug
        } else if self.trace {
            LevelFilter::Trace
        } else {
            LevelFilter::Info
        }
    }

    /// Merges `other` into these options: every flag that is off takes `other`'s value, and
    /// the console mode merges as [`ConsoleMode::merge`] does.
    pub fn merge(&mut self, other: Self)
        ensures
            final(self).error == (old(self).error || other.error),
            final(self).warn == (old(self).warn || other.warn),
            final(self).info == (old(self).info || other.info),
            final(self).debug == (old(self).debug || other.debug),
            final(self).trace == (old(self).trace || other.trace),
            final(self).show_source == (old(self).show_source || other.show_source),
            final(self).json == (old(self).json || other.json),
            final(self).console == (if old(self).console == ConsoleMode::Auto {
                other.console
            } else {
                old(self).console
            }),
    {
        if !self.error {
            self.error = other.error;
        }
        if !self.warn {
            self.warn = other.warn;
        }
        if !self.info {
            self.info = other.info;
        }
        if !self.debug {
            self.debug = other.debug;
        }
        if !self.trace {
            self.trace = other.trace;
        }
        if !self.show_source {
            self.show_source = other.show_source;
        }
        if !self.json {
            self.json = other.json;
        }
        self.console.merge(other.console);
    }

    /// The text put before a message of `record`: its source when `show_source` is set, else
    /// nothing.
    pub fn format_prefix(record: &RecordInfo, show_source: bool) -> (r: String)
        ensures
            exists|sv: Seq<char>|
                #![trigger with_source(*record, show_source, sv, Seq::<char>::empty())]
                (show_source ==> source_rendered(*record, sv))
                && r@ == with_source(*record, show_source, sv, Seq::<char>::empty()),
    {
        let (sv, r) = source_prefixed(record, show_source, String::new());
        assert(r@ == with_source(*record, show_source, sv@, Seq::<char>::empty()));
        r
    }

    /// The whole text of a message: the prefix, a space when the prefix is not empty, and
    /// the message, colored for errors, warnings and traces.
    pub fn format_message(record: &RecordInfo, show_source: bool, message: &str) -> (r: String)
        ensures
            exists|p: Seq<char>, m: Seq<char>|
                #![trigger message_rendered(record.level, message@, m), spaced(p)]
                (exists|sv: Seq<char>|
                    #![trigger with_source(*record, show_source, sv, Seq::<char>::empty())]
                    (show_source ==> source_rendered(*record, sv))
                    && p == with_source(*record, show_source, sv, Seq::<char>::empty()))
                && message_rendered(record.level, message@, m)
                && r@ == spaced(p) + m,
    {
        let mut out = Self::format_prefix(record, show_source);
        let ghost p = out@;
        if out.unicode_len() > 0 {
            out.append(" ");
        }
        proof {
            reveal_strlit(" ");
        }
        assert(out@ =~= spaced(p));
        let body = paint_message_text(record.level, message);
        out.append(body.as_str());
        assert(message_rendered(record.level, message@, body@));
        assert(out@ =~= spaced(p) + body@);
        out
    }
}

} // verus!
