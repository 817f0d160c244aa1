//! The configuration an assemble build starts with.

use vstd::prelude::*;
use crate::logging::{ConsoleMode, LoggingArgs};
use crate::text::views;

verus! {

/// The project properties of a build: names, each with a value or none.
pub open spec fn property_views(p: Seq<(String, Option<String>)>) -> Seq<(Seq<char>, Option<Seq<char>>)> {
    p.map_values(
        |e: (String, Option<String>)|
            (
                e.0@,
                match e.1 {
                    Some(v) => Some(v@),
                    None => None,
                },
            ),
    )
}

/// The start parameters define the configuration used by an assemble instance to execute a build.
///
/// Generally corresponds to the command line options for assemble.
pub struct StartParameter {
    current_dir: String,
    logging: LoggingArgs,
    mode: ConsoleMode,
    project_dir: Option<String>,
    properties: Vec<(String, Option<String>)>,
    builder: String,
    task_requests: Vec<String>,
    workers: usize,
    backtrace: bool,
}

impl StartParameter {
    /// The current directory.
    pub closed spec fn current_dir_spec(self) -> Seq<char> {
        self.current_dir@
    }

    /// The project directory, if set.
    pub closed spec fn project_dir_spec(self) -> Option<Seq<char>> {
        match self.project_dir {
            Some(p) => Some(p@),
            None => None,
        }
    }

    /// The logging settings.
    pub closed spec fn logging_spec(self) -> LoggingArgs {
        self.logging
    }

    /// The console mode.
    pub closed spec fn mode_spec(self) -> ConsoleMode {
        self.mode
    }

    /// The project properties.
    pub closed spec fn properties_spec(self) -> Seq<(Seq<char>, Option<Seq<char>>)> {
        property_views(self.properties@)
    }

    /// The builder.
    pub closed spec fn builder_spec(self) -> Seq<char> {
        self.builder@
    }

    /// The task requests.
    pub closed spec fn task_requests_spec(self) -> Seq<Seq<char>> {
        views(self.task_requests@)
    }

    /// The number of workers.
    pub closed spec fn workers_spec(self) -> usize {
        self.workers
    }

    /// Whether backtraces are shown.
    pub closed spec fn backtrace_spec(self) -> bool {
        self.backtrace
    }

    /// Creates a new instance of a start parameter with only default settings, in the working
    /// directory `current_dir`.
    pub fn new(current_dir: String) -> (r: Self)
        ensures
            r.current_dir_spec() == current_dir@,
            r.logging_spec() == (LoggingArgs {
                error: false,
                warn: false,
                info: false,
                debug: true,
                trace: false,
                show_source: false,
                json: false,
                console: ConsoleMode::Plain,
            }),
            r.mode_spec() == ConsoleMode::Auto,
            r.project_dir_spec() is None,
            r.properties_spec().len() == 0,
            r.builder_spec().len() == 0,
            r.task_requests_spec().len() == 0,
            r.workers_spec() == 0,
            !r.backtrace_spec(),
    {
        let r = Self {
            current_dir,
            logging: LoggingArgs::default(),
            mode: ConsoleMode::Auto,
            project_dir: None,
            properties: Vec::new(),
            builder: String::new(),
            task_requests: Vec::new(),
            workers: 0,
            backtrace: false,
        };
        assert(r.properties_spec().len() == 0);
        assert(r.task_requests_spec().len() == 0);
        r
    }

    /// Gets the current directory of the start parameter, used to select the default project and
    /// find the settings file.
    pub fn current_dir(&self) -> (r: &str)
        ensures
            r@ == self.current_dir_spec(),
    {
        self.current_dir.as_str()
    }

    /// The console mode to use
    pub fn mode(&self) -> (r: ConsoleMode)
        ensures
            r == self.mode_spec(),
    {
        self.mode
    }

    /// The project directory to find the default project. If not set, defaults to the same
    /// as the current dir.
    pub fn project_dir(&self) -> (r: String)
        ensures
            r@ == match self.project_dir_spec() {
                Some(p) => p,
                None => self.current_dir_spec(),
            },
    {
        match &self.project_dir {
            Some(p) => p.clone(),
            None => self.current_dir.clone(),
        }
    }

    /// The project properties set for this build
    pub fn properties(&self) -> (r: &Vec<(String, Option<String>)>)
        ensures
            property_views(r@) == self.properties_spec(),
    {
        &self.properties
    }

    /// A mutable reference to the project properties for this build
    pub fn properties_mut(&mut self) -> (r: &mut Vec<(String, Option<String>)>)
        ensures
            property_views(r@) == old(self).properties_spec(),
            final(self).properties_spec() == property_views(final(r)@),
            final(self).current_dir_spec() == old(self).current_dir_spec(),
            final(self).task_requests_spec() == old(self).task_requests_spec(),
    {
        &mut self.properties
    }

    /// The builder used by this project.
    pub fn builder(&self) -> (r: &str)
        ensures
            r@ == self.builder_spec(),
    {
        self.builder.as_str()
    }

    /// Gets whether the backtrace should be emitted
    pub fn backtrace(&self) -> (r: bool)
        ensures
            r == self.backtrace_spec(),
    {
        self.backtrace
    }

    /// the task requests used to build this project. Contains both task names
    /// and args for said tasks
    pub fn task_requests(&self) -> (r: &[String])
        ensures
            views(r@) == self.task_requests_spec(),
    {
        self.task_requests.as_slice()
    }

    /// the task requests used to build this project. Contains both task names
    /// and args for said tasks
    pub fn task_requests_mut(&mut self) -> (r: &mut Vec<String>)
        ensures
            views(r@) == old(self).task_requests_spec(),
            final(self).task_requests_spec() == views(final(r)@),
            final(self).current_dir_spec() == old(self).current_dir_spec(),
            final(self).properties_spec() == old(self).properties_spec(),
    {
        &mut self.task_requests
    }

    /// Set the current directory
    pub fn set_current_dir(&mut self, current_dir: &str)
        ensures
            final(self).current_dir_spec() == current_dir@,
            final(self).project_dir_spec() == old(self).project_dir_spec(),
    {
        self.current_dir = current_dir.to_owned();
    }

    /// The level filter to log
    pub fn set_logging(&mut self, log_level: LoggingArgs)
        ensures
            final(self).logging_spec() == log_level,
            final(self).mode_spec() == old(self).mode_spec(),
    {
        self.logging = log_level;
    }

    /// Sets the console mode
    pub fn set_mode(&mut self, mode: ConsoleMode)
        ensures
            final(self).mode_spec() == mode,
            final(self).logging_spec() == old(self).logging_spec(),
    {
        self.mode = mode;
    }

    /// Sets the project directory used to find the default project
    pub fn set_project_dir(&mut self, project_dir: &str)
        ensures
            final(self).project_dir_spec() == Some(project_dir@),
            final(self).current_dir_spec() == old(self).current_dir_spec(),
    {
        self.project_dir = Some(project_dir.to_owned());
    }

    /// Sets the build type.
    pub fn set_builder(&mut self, builder: &str)
        ensures
            final(self).builder_spec() == builder@,
    {
        self.builder = builder.to_owned();
    }

    pub fn set_backtrace(&mut self, backtrace: bool)
        ensures
            final(self).backtrace_spec() == backtrace,
            final(self).workers_spec() == old(self).workers_spec(),
    {
        self.backtrace = backtrace;
    }

    pub fn workers(&self) -> (r: usize)
        ensures
            r == self.workers_spec(),
    {
        self.workers
    }

    pub fn set_workers(&mut self, workers: usize)
        ensures
            final(self).workers_spec() == workers,
            final(self).backtrace_spec() == old(self).backtrace_spec(),
    {
        self.workers = workers;
    }

    pub fn logging(&self) -> (r: &LoggingArgs)
        ensures
            *r == self.logging_spec(),
    {
        &self.logging
    }
}

} // verus!
