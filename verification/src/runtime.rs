//! What the engine hands to the container runtime and what it reads from
//! its answers.

use crate::config::Service;
use crate::error::{ComposeError, Failure, RuntimeAction};
use crate::assemble::{flagged, push_flagged, push_text, push_texts};
use crate::text::{contains_text, has_text, texts, trim_text, trimmed};
use vstd::prelude::*;

verus! {

/// The answer to one command given to the runtime.
#[derive(Debug, Clone, PartialEq, Eq)]
pub enum Invocation {
    /// The command ran to its end. `code` is its exit code; a command that
    /// a signal ended has none.
    Exited { code: Option<i32>, stdout: String, stderr: String },
    /// The command did not end within the time allowed.
    TimedOut,
    /// The runtime could not be started.
    NotStarted { reason: String },
}

/// An answer of the runtime, reduced to what the stop protocol decides on.
#[derive(Debug, Clone, Copy, PartialEq, Eq, Structural)]
pub enum Reply {
    /// The command ended with exit code zero.
    Succeeded,
    /// The command ended otherwise; `absent` says whether its error text
    /// reports that the container does not exist.
    Failed { absent: bool },
    /// The command did not end within the time allowed.
    TimedOut,
    /// The runtime could not be started.
    NotStarted,
}

/// Whether the error text of the runtime says that the container does not
/// exist.
pub open spec fn reports_absence(stderr: Seq<char>) -> bool {
    contains_text(stderr, "no such container"@) || contains_text(stderr, "not found"@)
}

/// Tests whether the error text of the runtime says that the container
/// does not exist.
pub fn is_absence_report(stderr: &str) -> (b: bool)
    ensures
        b == reports_absence(stderr@),
{
    has_text(stderr, "no such container") || has_text(stderr, "not found")
}

impl Invocation {
    /// Whether the command ended with exit code zero.
    pub open spec fn succeeded(&self) -> bool {
        self matches Invocation::Exited { code: Some(c), .. } && c == 0
    }

    /// The reply that this answer amounts to.
    pub open spec fn as_reply(&self) -> Reply {
        match self {
            Invocation::Exited { code, stdout, stderr } => {
                if code == Some(0i32) {
                    Reply::Succeeded
                } else {
                    Reply::Failed { absent: reports_absence(stderr@) }
                }
            },
            Invocation::TimedOut => Reply::TimedOut,
            Invocation::NotStarted { .. } => Reply::NotStarted,
        }
    }

    /// Whether the command ended with exit code zero.
    pub fn is_success(&self) -> (b: bool)
        ensures
            b == self.succeeded(),
    {
        match self {
            Invocation::Exited { code: Some(c), .. } => *c == 0,
            _ => false,
        }
    }

    /// Reduces the answer to what the stop protocol decides on.
    pub fn reply(&self) -> (r: Reply)
        ensures
            r == self.as_reply(),
    {
        match self {
            Invocation::Exited { code, stdout, stderr } => {
                if self.is_success() {
                    Reply::Succeeded
                } else {
                    Reply::Failed { absent: is_absence_report(stderr.as_str()) }
                }
            },
            Invocation::TimedOut => Reply::TimedOut,
            Invocation::NotStarted { .. } => Reply::NotStarted,
        }
    }
}

impl Invocation {
    /// What a command that has to succeed comes to: its output where it
    /// ended with exit code zero, and else the failure of `action` on
    /// `subject`: with the exit code and the error text where the command
    /// ended otherwise, with the reason where the runtime could not be
    /// started.
    pub open spec fn checked(&self, action: RuntimeAction, subject: Seq<char>) -> Result<
        Seq<char>,
        Failure,
    > {
        match self {
            Invocation::Exited { code, stdout, stderr } => {
                if code == Some(0i32) {
                    Ok(stdout@)
                } else {
                    Err(
                        Failure::RuntimeInvocationFailed {
                            action,
                            subject,
                            exit_code: *code,
                            stderr: stderr@,
                        },
                    )
                }
            },
            Invocation::TimedOut => Err(Failure::RuntimeTimeout { action, subject }),
            Invocation::NotStarted { reason } => Err(
                Failure::RuntimeUnavailable { action, reason: reason@ },
            ),
        }
    }

    /// The output of a command that has to succeed, or the failure of
    /// `action` on `subject`.
    pub fn output(&self, action: RuntimeAction, subject: &str) -> (r: Result<String, ComposeError>)
        ensures
            (match r {
                Ok(s) => Ok(s@),
                Err(e) => Err(e@),
            }) == self.checked(action, subject@),
    {
        match self {
            Invocation::Exited { code, stdout, stderr } => {
                if self.is_success() {
                    Ok(stdout.clone())
                } else {
                    Err(
                        ComposeError::RuntimeInvocationFailed {
                            action,
                            subject: subject.to_owned(),
                            exit_code: *code,
                            stderr: stderr.clone(),
                        },
                    )
                }
            },
            Invocation::TimedOut => Err(
                ComposeError::RuntimeTimeout { action, subject: subject.to_owned() },
            ),
            Invocation::NotStarted { reason } => Err(
                ComposeError::RuntimeUnavailable { action, reason: reason.clone() },
            ),
        }
    }
}

/// The name of the runtime's program.
pub fn runtime_program() -> (p: &'static str)
    ensures
        p@ == "container"@,
{
    "container"
}

/// The arguments that start the service `name` in the background, with
/// `mounts` the mount arguments of its volumes: the mounts, the
/// environment, the working directory where one is given, the image, and
/// last the command where one is given.
pub open spec fn run_command(name: Seq<char>, service: Service, mounts: Seq<Seq<char>>) -> Seq<
    Seq<char>,
> {
    seq!["run"@, "--detach"@, "--name"@, name] + flagged("--volume"@, mounts) + flagged(
        "--env"@,
        texts(service.environment@),
    ) + (match service.working_dir {
        Some(dir) => seq!["--workdir"@, dir@],
        None => Seq::empty(),
    }) + seq![service.image@] + (match service.command {
        Some(command) => texts(command@),
        None => Seq::empty(),
    })
}

/// A command of the runtime on one container: `verb`, then `name`.
pub open spec fn simple_command(verb: Seq<char>, name: Seq<char>) -> Seq<Seq<char>> {
    seq![verb, name]
}

/// The arguments that list the containers: the running ones, or all of
/// them.
pub open spec fn list_command(all: bool) -> Seq<Seq<char>> {
    if all {
        seq!["list"@, "--all"@]
    } else {
        seq!["list"@]
    }
}

/// The arguments that show the output of the container `identifier`.
pub open spec fn logs_command(identifier: Seq<char>, follow: bool) -> Seq<Seq<char>> {
    if follow {
        seq!["logs"@, "-f"@, identifier]
    } else {
        seq!["logs"@, identifier]
    }
}

/// The arguments that run `command` in the container of `name`.
pub open spec fn exec_command(name: Seq<char>, command: Seq<Seq<char>>) -> Seq<Seq<char>> {
    seq!["exec"@, name] + command
}

/// The arguments that fetch `image`.
pub open spec fn pull_command(image: Seq<char>) -> Seq<Seq<char>> {
    seq!["images"@, "pull"@, image]
}

/// The arguments that start the service `name` in the background.
pub fn run_arguments(name: &str, service: &Service, mounts: &Vec<String>) -> (args: Vec<String>)
    ensures
        texts(args@) == run_command(name@, *service, texts(mounts@)),
{
    let mut args: Vec<String> = Vec::new();
    assert(texts(args@) =~= Seq::<Seq<char>>::empty());
    push_text(&mut args, "run");
    push_text(&mut args, "--detach");
    push_text(&mut args, "--name");
    push_text(&mut args, name);
    assert(texts(args@) =~= seq!["run"@, "--detach"@, "--name"@, name@]);
    push_flagged(&mut args, "--volume", mounts);
    push_flagged(&mut args, "--env", &service.environment);
    let ghost before_dir = texts(args@);
    match &service.working_dir {
        Some(dir) => {
            push_text(&mut args, "--workdir");
            push_text(&mut args, dir.as_str());
            assert(texts(args@) =~= before_dir + seq!["--workdir"@, dir@]);
        },
        None => {
            assert(texts(args@) =~= before_dir + Seq::<Seq<char>>::empty());
        },
    }
    let ghost before_image = texts(args@);
    push_text(&mut args, service.image.as_str());
    assert(texts(args@) =~= before_image + seq![service.image@]);
    let ghost before_command = texts(args@);
    match &service.command {
        Some(command) => {
            push_texts(&mut args, command);
        },
        None => {
            assert(texts(args@) =~= before_command + Seq::<Seq<char>>::empty());
        },
    }
    args
}

/// The arguments of `verb` on the container `name`.
fn verb_arguments(verb: &str, name: &str) -> (args: Vec<String>)
    ensures
        texts(args@) == simple_command(verb@, name@),
{
    let mut args: Vec<String> = Vec::new();
    push_text(&mut args, verb);
    push_text(&mut args, name);
    assert(texts(args@) =~= simple_command(verb@, name@));
    args
}

/// The arguments that ask the container `name` to stop.
pub fn stop_arguments(name: &str) -> (args: Vec<String>)
    ensures
        texts(args@) == simple_command("stop"@, name@),
{
    verb_arguments("stop", name)
}

/// The arguments that kill the container `name`.
pub fn kill_arguments(name: &str) -> (args: Vec<String>)
    ensures
        texts(args@) == simple_command("kill"@, name@),
{
    verb_arguments("kill", name)
}

/// The arguments that remove the container `name`.
pub fn remove_arguments(name: &str) -> (args: Vec<String>)
    ensures
        texts(args@) == simple_command("rm"@, name@),
{
    verb_arguments("rm", name)
}

/// The arguments that list the containers: the running ones, or with
/// `all` the stopped ones too.
pub fn list_arguments(all: bool) -> (args: Vec<String>)
    ensures
        texts(args@) == list_command(all),
{
    let mut args: Vec<String> = Vec::new();
    push_text(&mut args, "list");
    if all {
        push_text(&mut args, "--all");
    }
    assert(texts(args@) =~= list_command(all));
    args
}

/// The arguments that show the output of the container `identifier`, and
/// with `follow` go on showing it.
pub fn logs_arguments(identifier: &str, follow: bool) -> (args: Vec<String>)
    ensures
        texts(args@) == logs_command(identifier@, follow),
{
    let mut args: Vec<String> = Vec::new();
    push_text(&mut args, "logs");
    if follow {
        push_text(&mut args, "-f");
    }
    push_text(&mut args, identifier);
    assert(texts(args@) =~= logs_command(identifier@, follow));
    args
}

/// The arguments that run `command` in the container of `name`.
pub fn exec_arguments(name: &str, command: &Vec<String>) -> (args: Vec<String>)
    ensures
        texts(args@) == exec_command(name@, texts(command@)),
{
    let mut args: Vec<String> = Vec::new();
    push_text(&mut args, "exec");
    push_text(&mut args, name);
    assert(texts(args@) =~= seq!["exec"@, name@]);
    push_texts(&mut args, command);
    args
}

/// The arguments that fetch `image`.
pub fn pull_arguments(image: &str) -> (args: Vec<String>)
    ensures
        texts(args@) == pull_command(image@),
{
    let mut args: Vec<String> = Vec::new();
    push_text(&mut args, "images");
    push_text(&mut args, "pull");
    push_text(&mut args, image);
    assert(texts(args@) =~= pull_command(image@));
    args
}

/// The command to run in a container where none is given: a shell.
pub fn command_or_shell(command: Vec<String>) -> (r: Vec<String>)
    ensures
        texts(r@) == (if command@.len() == 0 {
            seq!["sh"@]
        } else {
            texts(command@)
        }),
{
    if command.len() == 0 {
        let mut shell: Vec<String> = Vec::new();
        push_text(&mut shell, "sh");
        assert(texts(shell@) =~= seq!["sh"@]);
        shell
    } else {
        command
    }
}

/// The identifier of the container that a run has started: what the
/// runtime printed, without the white space around it. A run that did not
/// succeed is a failure to start `name`.
pub fn started_container(name: &str, answer: &Invocation) -> (r: Result<String, ComposeError>)
    ensures
        (match r {
            Ok(s) => Ok(s@),
            Err(e) => Err(e@),
        }) == (match answer.checked(RuntimeAction::Run, name@) {
            Ok(out) => Ok(trimmed(out)),
            Err(f) => Err(f),
        }),
{
    match answer.output(RuntimeAction::Run, name) {
        Ok(out) => Ok(trim_text(out.as_str())),
        Err(e) => Err(e),
    }
}

} // verus!
