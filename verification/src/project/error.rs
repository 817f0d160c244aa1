//! The project error type. Should be returned during building of the project.

use vstd::prelude::*;
use crate::identifier::{display_parts, task_debug_texts, task_list_debug, InvalidId, TaskId};
use crate::lazy_evaluation::ProviderError;
use crate::plugins::extensions::ExtensionError;
use crate::plugins::PluginError;
use crate::text::{comma_list, debug_str, debug_text_of};

verus! {

#[derive(Debug)]
pub enum ProjectError {
    NoIdentifiersFound(String),
    TooManyIdentifiersFound(Vec<TaskId>, String),
    IdentifierMissing(TaskId),
    IdentifierMissingWithMaybes(TaskId, Vec<TaskId>),
    InvalidIdentifier(InvalidId),
    PluginError(PluginError),
    SomeError {},
    PropertyError(crate::lazy_evaluation::Error),
    InvalidFileType(String),
    PoisonError,
    ActionsAlreadyQueried,
    NoSharedProjectSet,
    CustomError(String),
    ProviderError(ProviderError),
    ExtensionError(ExtensionError),
    ProjectNotFound(String),
}

/// The debugging text of a list of task identifiers, as `Debug` shows a vector of them.
pub open spec fn task_list_text(ids: Seq<TaskId>) -> Seq<char> {
    seq!['['] + comma_list(task_debug_texts(ids)) + seq![']']
}

impl ProjectError {
    /// A custom error whose message is what `error` displays.
    pub fn custom<E: std::fmt::Display>(error: E) -> (r: Self)
        ensures
            r matches ProjectError::CustomError(m)
                && vstd::string::to_string_from_display_ensures::<E>(&error, m),
    {
        Self::CustomError(error.to_string())
    }

    /// The message of the error; an error that wraps another shows that one's message.
    pub fn to_string(&self) -> (r: String)
        ensures
            match self {
                ProjectError::NoIdentifiersFound(s) => r@ == "No task identifier could be found for "@
                    + debug_text_of(s@),
                ProjectError::TooManyIdentifiersFound(ids, s) => r@ == "Too many task identifiers found for "@
                    + s@ + ". Found "@ + task_list_text(ids@),
                ProjectError::IdentifierMissing(id) => r@ == "Identifier Missing: "@ + display_parts(id@),
                ProjectError::IdentifierMissingWithMaybes(id, maybes) => r@ == "Identifier Missing: "@
                    + display_parts(id@) + " (were you looking for "@ + task_list_text(maybes@) + "?)"@,
                ProjectError::InvalidIdentifier(e) => r@ == "Invalid Task Identifier "@ + debug_text_of(e.0@),
                ProjectError::PluginError(_) => r@ == "Couldn't create the plugin"@,
                ProjectError::SomeError {} => r@ == "Inner Error { ... }"@,
                ProjectError::PropertyError(e) => (e is LockPoisonError ==> r@ == "Property's lock was poisoned"@)
                    && (e is PropertyNotSet ==> r@ == "Property has no value set"@),
                ProjectError::InvalidFileType(s) => r@ == "Invalid Type for file: "@ + s@,
                ProjectError::PoisonError => r@ == "RwLock poisoned"@,
                ProjectError::ActionsAlreadyQueried => r@ == "Actions already queried"@,
                ProjectError::NoSharedProjectSet => r@ == "No shared project was set"@,
                ProjectError::CustomError(s) => r@ == s@,
                ProjectError::ProviderError(e) => r@ == e.message(),
                ProjectError::ExtensionError(ExtensionError::AlreadyRegistered(name)) => r@ == "Extension with name "@
                    + debug_text_of(name@) + " already registered"@,
                ProjectError::ProjectNotFound(path) => r@ == "No project found at "@ + debug_text_of(path@),
            },
    {
        match self {
            ProjectError::NoIdentifiersFound(s) => {
                let mut out = "No task identifier could be found for ".to_owned();
                let shown = debug_str(s.as_str());
                out.append(shown.as_str());
                out
            },
            ProjectError::TooManyIdentifiersFound(ids, s) => {
                let mut out = "Too many task identifiers found for ".to_owned();
                out.append(s.as_str());
                out.append(". Found ");
                let list = task_list_debug(ids);
                out.append(list.as_str());
                out
            },
            ProjectError::IdentifierMissing(id) => {
                let mut out = "Identifier Missing: ".to_owned();
                let text = id.to_string();
                out.append(text.as_str());
                out
            },
            ProjectError::IdentifierMissingWithMaybes(id, maybes) => {
                let mut out = "Identifier Missing: ".to_owned();
                let text = id.to_string();
                out.append(text.as_str());
                out.append(" (were you looking for ");
                let list = task_list_debug(maybes);
                out.append(list.as_str());
                out.append("?)");
                out
            },
            ProjectError::InvalidIdentifier(e) => e.to_string(),
            ProjectError::PluginError(e) => e.to_string(),
            ProjectError::SomeError {} => "Inner Error { ... }".to_owned(),
            ProjectError::PropertyError(e) => e.to_string(),
            ProjectError::InvalidFileType(s) => {
                let mut out = "Invalid Type for file: ".to_owned();
                out.append(s.as_str());
                out
            },
            ProjectError::PoisonError => "RwLock poisoned".to_owned(),
            ProjectError::ActionsAlreadyQueried => "Actions already queried".to_owned(),
            ProjectError::NoSharedProjectSet => "No shared project was set".to_owned(),
            ProjectError::CustomError(s) => s.clone(),
            ProjectError::ProviderError(e) => e.to_string(),
            ProjectError::ExtensionError(e) => e.to_string(),
            ProjectError::ProjectNotFound(path) => {
                let mut out = "No project found at ".to_owned();
                let shown = debug_str(path.as_str());
                out.append(shown.as_str());
                out
            },
        }
    }
}

} // verus!
