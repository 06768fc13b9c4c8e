use container_compose::config::Service;
use container_compose::error::{ComposeError, RuntimeAction};
use container_compose::runtime::{
    command_or_shell, exec_arguments, kill_arguments, list_arguments, logs_arguments,
    pull_arguments, remove_arguments, run_arguments, runtime_program, started_container,
    stop_arguments, Invocation,
};

fn names(items: &[&str]) -> Vec<String> {
    items.iter().map(|s| s.to_string()).collect()
}

fn exited(code: Option<i32>, stdout: &str, stderr: &str) -> Invocation {
    Invocation::Exited { code, stdout: stdout.to_string(), stderr: stderr.to_string() }
}

#[test]
fn runtime_program_is_container() {
    assert_eq!(runtime_program(), "container");
}

#[test]
fn run_arguments_of_a_bare_service() {
    let service = Service {
        image: "nginx".to_string(),
        ports: vec!["80:80".to_string()],
        volumes: vec![],
        environment: vec![],
        depends_on: vec![],
        command: None,
        working_dir: None,
    };
    assert_eq!(
        run_arguments("web", &service, &vec![]),
        names(&["run", "--detach", "--name", "web", "nginx"])
    );
}

#[test]
fn run_arguments_in_full() {
    let service = Service {
        image: "app:1".to_string(),
        ports: vec![],
        volumes: names(&["./a:/a", "cache:/c"]),
        environment: names(&["A=1", "B=two words"]),
        depends_on: names(&["db"]),
        command: Some(names(&["serve", "--port", "80"])),
        working_dir: Some("/srv".to_string()),
    };
    let mounts = names(&["/w/a:/a", "/h/.container-compose/volumes/cache:/c"]);
    assert_eq!(
        run_arguments("api", &service, &mounts),
        names(&[
            "run",
            "--detach",
            "--name",
            "api",
            "--volume",
            "/w/a:/a",
            "--volume",
            "/h/.container-compose/volumes/cache:/c",
            "--env",
            "A=1",
            "--env",
            "B=two words",
            "--workdir",
            "/srv",
            "app:1",
            "serve",
            "--port",
            "80",
        ])
    );
}

#[test]
fn run_arguments_with_empty_command() {
    let service = Service {
        image: "i".to_string(),
        ports: vec![],
        volumes: vec![],
        environment: vec![],
        depends_on: vec![],
        command: Some(vec![]),
        working_dir: None,
    };
    assert_eq!(run_arguments("s", &service, &vec![]), names(&["run", "--detach", "--name", "s", "i"]));
}

#[test]
fn commands_on_one_container() {
    assert_eq!(stop_arguments("web"), names(&["stop", "web"]));
    assert_eq!(kill_arguments("web"), names(&["kill", "web"]));
    assert_eq!(remove_arguments("web"), names(&["rm", "web"]));
}

#[test]
fn list_commands() {
    assert_eq!(list_arguments(false), names(&["list"]));
    assert_eq!(list_arguments(true), names(&["list", "--all"]));
}

#[test]
fn logs_commands() {
    assert_eq!(logs_arguments("abc", false), names(&["logs", "abc"]));
    assert_eq!(logs_arguments("abc", true), names(&["logs", "-f", "abc"]));
}

#[test]
fn exec_and_pull_commands() {
    assert_eq!(exec_arguments("web", &names(&["ls", "-l"])), names(&["exec", "web", "ls", "-l"]));
    assert_eq!(exec_arguments("web", &vec![]), names(&["exec", "web"]));
    assert_eq!(pull_arguments("nginx:latest"), names(&["images", "pull", "nginx:latest"]));
}

#[test]
fn missing_command_becomes_a_shell() {
    assert_eq!(command_or_shell(vec![]), names(&["sh"]));
    assert_eq!(command_or_shell(names(&["ls", "/"])), names(&["ls", "/"]));
}

#[test]
fn started_container_is_the_trimmed_output() {
    assert_eq!(started_container("web", &exited(Some(0), "  abc123\n", "")), Ok("abc123".to_string()));
    assert_eq!(started_container("web", &exited(Some(0), "\n", "warn")), Ok(String::new()));
    assert_eq!(started_container("web", &exited(Some(0), "a b\u{a0}", "")), Ok("a b".to_string()));
}

#[test]
fn failed_run_carries_code_and_error_text() {
    assert_eq!(
        started_container("web", &exited(Some(125), "ignored", "image missing")),
        Err(ComposeError::RuntimeInvocationFailed {
            action: RuntimeAction::Run,
            subject: "web".to_string(),
            exit_code: Some(125),
            stderr: "image missing".to_string(),
        })
    );
    assert_eq!(
        started_container("web", &exited(None, "", "killed")),
        Err(ComposeError::RuntimeInvocationFailed {
            action: RuntimeAction::Run,
            subject: "web".to_string(),
            exit_code: None,
            stderr: "killed".to_string(),
        })
    );
}

#[test]
fn output_of_each_kind_of_answer() {
    assert_eq!(exited(Some(0), "out", "err").output(RuntimeAction::Pull, "img"), Ok("out".to_string()));
    assert_eq!(
        Invocation::TimedOut.output(RuntimeAction::Stop, "web"),
        Err(ComposeError::RuntimeTimeout { action: RuntimeAction::Stop, subject: "web".to_string() })
    );
    assert_eq!(
        Invocation::NotStarted { reason: "no runtime".to_string() }.output(RuntimeAction::Exec, "web"),
        Err(ComposeError::RuntimeUnavailable {
            action: RuntimeAction::Exec,
            reason: "no runtime".to_string(),
        })
    );
    assert_eq!(
        exited(Some(3), "", "bad").output(RuntimeAction::Exec, "web"),
        Err(ComposeError::RuntimeInvocationFailed {
            action: RuntimeAction::Exec,
            subject: "web".to_string(),
            exit_code: Some(3),
            stderr: "bad".to_string(),
        })
    );
}
