//! Errors raised while resolving or querying a project.
use vstd::prelude::*;

verus! {

/// The list of a task that a token was expanded for.
#[derive(Clone, Copy, Debug, PartialEq, Eq, Structural)]
pub enum TokenScope {
    Deps,
    Inputs,
    Outputs,
    Args,
}

#[derive(Clone, Debug)]
pub enum ProjectError {
    /// The project's source path does not exist under the workspace root.
    MissingProject(String),
    /// The project configuration file could not be parsed: source, diagnostics.
    InvalidConfigFile(String, String),
    /// The package manifest could not be parsed: source, diagnostics.
    InvalidPackageJson(String, String),
    /// A type-config file could not be parsed: source, file name, diagnostics.
    InvalidTsConfigJson(String, String, String),
    /// No task of that id: task id, project id.
    UnconfiguredTask(String, String),
    /// A project id and task id that do not form a valid target: project id, task id.
    InvalidTarget(String, String),
    /// A token could not be expanded: the task's target, and the list it stood in.
    InvalidToken(String, TokenScope),
}

} // verus!
