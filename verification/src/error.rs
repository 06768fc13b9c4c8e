//! The failures that the engine reports.

use crate::assemble::{decimal_string, decimal_text, join2, join3, join4, join5};
use vstd::prelude::*;

verus! {

/// The runtime operation that an invocation stood for.
#[derive(Debug, Clone, Copy, PartialEq, Eq, Structural)]
pub enum RuntimeAction {
    /// Starting a container.
    Run,
    /// Asking a container to stop.
    Stop,
    /// Killing a container.
    Kill,
    /// Listing the containers.
    List,
    /// Fetching an image.
    Pull,
    /// Showing the output of a container.
    Logs,
    /// Running a command inside a container.
    Exec,
}

/// Why an operation of the engine failed.
#[derive(Debug, Clone, PartialEq, Eq)]
pub enum ComposeError {
    /// A service names no image.
    MissingImage { service: String },
    /// A service depends on a name that is no service.
    UnknownDependency { service: String, dependency: String },
    /// The name is no service of the configuration.
    ServiceNotFound { service: String },
    /// The service has a record, but no container identifier.
    ServiceNotRunning { service: String },
    /// The service depends on itself, directly or through others.
    CircularDependency { service: String },
    /// The volume has no `:`, and so no host part.
    AnonymousVolumeUnsupported { volume: String },
    /// The host part of a bind mount does not exist.
    VolumeSourceNotFound { source: String, resolved: String },
    /// A named volume is asked for and no home directory is known.
    HomeDirectoryUnresolvable,
    /// The runtime reported a failure. A command that a signal ended has
    /// no exit code.
    RuntimeInvocationFailed {
        action: RuntimeAction,
        subject: String,
        exit_code: Option<i32>,
        stderr: String,
    },
    /// The runtime could not be started.
    RuntimeUnavailable { action: RuntimeAction, reason: String },
    /// The runtime did not answer within the time allowed.
    RuntimeTimeout { action: RuntimeAction, subject: String },
}

/// A failure as plain text and numbers: what contracts speak of.
pub enum Failure {
    MissingImage { service: Seq<char> },
    UnknownDependency { service: Seq<char>, dependency: Seq<char> },
    ServiceNotFound { service: Seq<char> },
    ServiceNotRunning { service: Seq<char> },
    CircularDependency { service: Seq<char> },
    AnonymousVolumeUnsupported { volume: Seq<char> },
    VolumeSourceNotFound { source: Seq<char>, resolved: Seq<char> },
    HomeDirectoryUnresolvable,
    RuntimeInvocationFailed {
        action: RuntimeAction,
        subject: Seq<char>,
        exit_code: Option<i32>,
        stderr: Seq<char>,
    },
    RuntimeUnavailable { action: RuntimeAction, reason: Seq<char> },
    RuntimeTimeout { action: RuntimeAction, subject: Seq<char> },
}

/// The exit code that is shown for a command that had none.
pub const NO_EXIT_CODE: i32 = -1;

impl Failure {
    /// What the failure says to the user.
    pub open spec fn text(self) -> Seq<char> {
        match self {
            Failure::MissingImage { service } => "Service '"@ + service
                + "' has no image specified"@,
            Failure::UnknownDependency { service, dependency } => "Service '"@ + service
                + "' depends on '"@ + dependency + "' which doesn't exist"@,
            Failure::ServiceNotFound { service } => "Service '"@ + service + "' not found"@,
            Failure::ServiceNotRunning { service } => "Service '"@ + service + "' is not running"@,
            Failure::CircularDependency { service } => "Circular dependency detected involving '"@
                + service + "'"@,
            Failure::AnonymousVolumeUnsupported { volume } => "Anonymous volumes are not supported: "@
                + volume,
            Failure::VolumeSourceNotFound { source, resolved } => "Volume mount source path does not exist: "@
                + source + " (resolved to: "@ + resolved + ")"@,
            Failure::HomeDirectoryUnresolvable => "Could not find home directory"@,
            Failure::RuntimeInvocationFailed { action, subject, exit_code, stderr } => match action {
                RuntimeAction::Run => "Failed to start container '"@ + subject + "': "@ + stderr,
                RuntimeAction::Pull => "Failed to pull image '"@ + subject + "': "@ + stderr,
                RuntimeAction::Logs => "Failed to get logs for service '"@ + subject + "'"@,
                RuntimeAction::Exec => "Command failed in container '"@ + subject
                    + "' with exit code: "@ + decimal_text(
                    match exit_code {
                        Some(code) => code as int,
                        None => NO_EXIT_CODE as int,
                    },
                ),
                _ => "Runtime command failed for '"@ + subject + "': "@ + stderr,
            },
            Failure::RuntimeUnavailable { action, reason } => reason,
            Failure::RuntimeTimeout { action, subject } => "Runtime did not answer in time for '"@
                + subject + "'"@,
        }
    }
}

impl View for ComposeError {
    type V = Failure;

    open spec fn view(&self) -> Failure {
        match self {
            ComposeError::MissingImage { service } => Failure::MissingImage { service: service@ },
            ComposeError::UnknownDependency { service, dependency } => Failure::UnknownDependency {
                service: service@,
                dependency: dependency@,
            },
            ComposeError::ServiceNotFound { service } => Failure::ServiceNotFound {
                service: service@,
            },
            ComposeError::ServiceNotRunning { service } => Failure::ServiceNotRunning {
                service: service@,
            },
            ComposeError::CircularDependency { service } => Failure::CircularDependency {
                service: service@,
            },
            ComposeError::AnonymousVolumeUnsupported { volume } => {
                Failure::AnonymousVolumeUnsupported { volume: volume@ }
            },
            ComposeError::VolumeSourceNotFound { source, resolved } => {
                Failure::VolumeSourceNotFound { source: source@, resolved: resolved@ }
            },
            ComposeError::HomeDirectoryUnresolvable => Failure::HomeDirectoryUnresolvable,
            ComposeError::RuntimeInvocationFailed { action, subject, exit_code, stderr } => {
                Failure::RuntimeInvocationFailed {
                    action: *action,
                    subject: subject@,
                    exit_code: *exit_code,
                    stderr: stderr@,
                }
            },
            ComposeError::RuntimeUnavailable { action, reason } => Failure::RuntimeUnavailable {
                action: *action,
                reason: reason@,
            },
            ComposeError::RuntimeTimeout { action, subject } => Failure::RuntimeTimeout {
                action: *action,
                subject: subject@,
            },
        }
    }
}

impl ComposeError {
    /// What the failure says to the user.
    pub fn message(&self) -> (m: String)
        ensures
            m@ == self@.text(),
    {
        match self {
            ComposeError::MissingImage { service } => join3(
                "Service '",
                service.as_str(),
                "' has no image specified",
            ),
            ComposeError::UnknownDependency { service, dependency } => join5(
                "Service '",
                service.as_str(),
                "' depends on '",
                dependency.as_str(),
                "' which doesn't exist",
            ),
            ComposeError::ServiceNotFound { service } => join3(
                "Service '",
                service.as_str(),
                "' not found",
            ),
            ComposeError::ServiceNotRunning { service } => join3(
                "Service '",
                service.as_str(),
                "' is not running",
            ),
            ComposeError::CircularDependency { service } => join3(
                "Circular dependency detected involving '",
                service.as_str(),
                "'",
            ),
            ComposeError::AnonymousVolumeUnsupported { volume } => join2(
                "Anonymous volumes are not supported: ",
                volume.as_str(),
            ),
            ComposeError::VolumeSourceNotFound { source, resolved } => join5(
                "Volume mount source path does not exist: ",
                source.as_str(),
                " (resolved to: ",
                resolved.as_str(),
                ")",
            ),
            ComposeError::HomeDirectoryUnresolvable => "Could not find home directory".to_owned(),
            ComposeError::RuntimeInvocationFailed { action, subject, exit_code, stderr } => {
                match action {
                    RuntimeAction::Run => join4(
                        "Failed to start container '",
                        subject.as_str(),
                        "': ",
                        stderr.as_str(),
                    ),
                    RuntimeAction::Pull => join4(
                        "Failed to pull image '",
                        subject.as_str(),
                        "': ",
                        stderr.as_str(),
                    ),
                    RuntimeAction::Logs => join3(
                        "Failed to get logs for service '",
                        subject.as_str(),
                        "'",
                    ),
                    RuntimeAction::Exec => {
                        let code = match exit_code {
                            Some(code) => *code,
                            None => NO_EXIT_CODE,
                        };
                        let digits = decimal_string(code);
                        join4(
                            "Command failed in container '",
                            subject.as_str(),
                            "' with exit code: ",
                            digits.as_str(),
                        )
                    },
                    _ => join4(
                        "Runtime command failed for '",
                        subject.as_str(),
                        "': ",
                        stderr.as_str(),
                    ),
                }
            },
            ComposeError::RuntimeUnavailable { action, reason } => reason.clone(),
            ComposeError::RuntimeTimeout { action, subject } => join3(
                "Runtime did not answer in time for '",
                subject.as_str(),
                "'",
            ),
        }
    }
}

} // verus!
