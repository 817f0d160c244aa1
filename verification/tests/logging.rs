use assemble_core::identifier::{ProjectId, TaskId};
use assemble_core::logging::central::{CentralLoggerOutput, LoggingCommand};
use assemble_core::logging::opts::LoggingOpts;
use assemble_core::logging::{
    ConsoleMode, Level, LevelFilter, LoggingArgs, LoggingControl, Origin, OutputType, RecordInfo,
};

fn record(level: Level) -> RecordInfo {
    RecordInfo {
        level,
        file: Some(String::from("crates/core/src/project/finder.rs")),
        line: Some(42),
        module: Some(String::from("assemble_core::project::finder")),
    }
}

#[test]
fn level_filter_is_first_flag_set() {
    let mut args = LoggingArgs::default();
    assert_eq!(args.log_level_filter(), LevelFilter::Debug);
    args.error = true;
    assert_eq!(args.log_level_filter(), LevelFilter::Error);
    let none = LoggingArgs { debug: false, ..LoggingArgs::default() };
    assert_eq!(none.log_level_filter(), LevelFilter::Info);
    let trace = LoggingArgs { debug: false, trace: true, ..LoggingArgs::default() };
    assert_eq!(trace.config_from_settings(), (LevelFilter::Trace, OutputType::TimeOnly));
    let json = LoggingArgs { json: true, ..LoggingArgs::default() };
    assert_eq!(json.config_from_settings(), (LevelFilter::Debug, OutputType::Json));
}

#[test]
fn merge_keeps_set_flags() {
    let mut a = LoggingArgs { debug: false, console: ConsoleMode::Auto, ..LoggingArgs::default() };
    let b = LoggingArgs { warn: true, console: ConsoleMode::Rich, ..LoggingArgs::default() };
    a.merge(b);
    assert!(a.warn);
    assert!(a.debug);
    assert_eq!(a.console, ConsoleMode::Rich);
    assert_eq!(ConsoleMode::Auto.resolve_with(true), ConsoleMode::Rich);
    assert_eq!(ConsoleMode::Auto.resolve_with(false), ConsoleMode::Plain);
    assert_eq!(ConsoleMode::Plain.resolve_with(true), ConsoleMode::Plain);
    assert_ne!(ConsoleMode::Auto.resolve(), ConsoleMode::Auto);
}

#[test]
fn prefixes_without_colors() {
    colored::control::set_override(false);
    let r = record(Level::Info);
    assert_eq!(LoggingArgs::format_prefix(&OutputType::Basic, &r, false, "12:00"), "");
    assert_eq!(
        LoggingArgs::format_prefix(&OutputType::TimeOnly, &r, false, "12:00:00.0000"),
        "[12:00:00.0000]    info:"
    );
    assert_eq!(
        LoggingArgs::format_prefix(&OutputType::Complicated, &r, false, "T"),
        "[T finder.rs:42 info]"
    );
    assert_eq!(
        LoggingArgs::format_prefix(&OutputType::Basic, &r, true, "T"),
        "(assemble_core :: project/finder.rs:42) "
    );
    let unknown = RecordInfo { level: Level::Warn, file: None, line: None, module: None };
    assert_eq!(
        LoggingArgs::format_prefix(&OutputType::Basic, &unknown, true, "T"),
        "(<unknown source>) "
    );
    assert_eq!(
        LoggingArgs::format_message(&OutputType::TimeOnly, &r, false, "hello", "T"),
        "[T]    info: hello"
    );
    assert_eq!(LoggingArgs::format_message(&OutputType::Basic, &r, false, "hello", "T"), "hello");
    assert_eq!(LoggingOpts::format_message(&r, false, "hi"), "hi");
    assert_eq!(
        LoggingOpts::format_prefix(&r, true),
        "(assemble_core :: project/finder.rs:42) "
    );
}

#[test]
fn prefixes_with_colors() {
    colored::control::set_override(true);
    let r = record(Level::Error);
    let message = LoggingArgs::format_message(&OutputType::Basic, &r, false, "boom", "T");
    colored::control::unset_override();
    assert_eq!(message, "\u{1b}[31mboom\u{1b}[0m");
}

#[test]
fn opts_defaults() {
    let opts = LoggingOpts::default();
    assert_eq!(opts.log_level_filter(), LevelFilter::Debug);
}

#[test]
fn control_tracks_origin() {
    let mut control = LoggingControl::new();
    assert!(control.get_origin().is_none());
    control.in_task(TaskId::new("root:build").unwrap());
    assert_eq!(control.get_origin().debug_text(), "Task(\":root:build\")");
    control.in_project(ProjectId::new("root").unwrap());
    assert_eq!(control.get_origin().debug_text(), "Project(\":root\")");
    let value = control.with_origin(Origin::NoOrigin, |_: &LoggingControl| 3);
    assert_eq!(value, 3);
    assert!(control.get_origin().is_none());
    assert!(matches!(control.stop_logging(), LoggingCommand::Stop));
}

#[test]
fn central_logger_writes_complete_lines() {
    let mut logger = CentralLoggerOutput::new();
    let task = Origin::Task(TaskId::new("root:build").unwrap());
    logger.add_output(task.clone(), "first line\nsecond", false);
    let written = logger.flush_current_origin();
    assert!(written.status.is_some());
    assert_eq!(written.lines, vec![String::from("first line")]);

    logger.add_output(task.clone(), " half\n\n\n", false);
    let written = logger.flush_current_origin();
    assert!(written.status.is_none());
    assert_eq!(written.lines, vec![String::from("second half"), String::from(""), String::from("")]);

    let rest = logger.flush();
    assert!(rest.is_empty());
}

#[test]
fn central_logger_flushes_everything() {
    let mut logger = CentralLoggerOutput::new();
    let outcome = logger.handle_command(
        LoggingCommand::LogString(Origin::Project(ProjectId::new("root").unwrap()), String::from("partial")),
        false,
        false,
    );
    assert!(!outcome.stop);
    assert!(outcome.lines.is_empty());
    let outcome = logger.handle_command(LoggingCommand::Flush, false, false);
    assert_eq!(outcome.lines, vec![String::from("Project(\":root\"): partial")]);
    let outcome = logger.handle_command(LoggingCommand::Stop, false, false);
    assert!(outcome.stop);
}

#[test]
fn central_logger_skips_leading_blank_lines() {
    let mut logger = CentralLoggerOutput::new();
    let project = Origin::Project(ProjectId::new("root").unwrap());
    logger.add_output(project.clone(), "\n  \nreal\n", false);
    let written = logger.flush_current_origin();
    assert_eq!(written.lines, vec![String::from("real")]);
    let again = logger.flush_current_origin();
    assert!(again.status.is_none());
    assert!(again.lines.is_empty());
}

#[test]
fn with_origin_leaves_no_origin_behind() {
    let mut control = LoggingControl::new();
    control.in_project(ProjectId::new("root").unwrap());
    let seen = control.with_origin(Origin::Task(TaskId::new("root:build").unwrap()), |during: &LoggingControl| {
        during.get_origin().debug_text()
    });
    assert_eq!(seen, "Task(\":root:build\")");
    assert!(control.get_origin().is_none());
}
