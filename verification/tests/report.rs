use container_compose::config::Service;
use container_compose::container::{ServiceStatus, StatusRow};
use container_compose::error::{ComposeError, RuntimeAction};
use container_compose::report::{
    already_running_notice, port_warnings, processed_summary, quoted_list_string, started_notice,
    started_summary, stop_notice, table_headings, volumes_summary, Highlight, Notice, NoticeKind,
};
use container_compose::stop::StopOutcome;

fn service(ports: &[&str]) -> Service {
    Service {
        image: "i".to_string(),
        ports: ports.iter().map(|p| p.to_string()).collect(),
        volumes: vec![],
        environment: vec![],
        depends_on: vec![],
        command: None,
        working_dir: None,
    }
}

fn notice(kind: NoticeKind, text: &str) -> Notice {
    Notice { kind, text: text.to_string() }
}

#[test]
fn notices_of_starting() {
    assert_eq!(already_running_notice("web"), notice(NoticeKind::Warning, "web already running"));
    assert_eq!(started_notice("web", "abc"), notice(NoticeKind::Success, "web started (abc)"));
    assert_eq!(started_summary(0), notice(NoticeKind::Success, "Started 0 service(s)"));
    assert_eq!(started_summary(12), notice(NoticeKind::Success, "Started 12 service(s)"));
    assert_eq!(volumes_summary(3), notice(NoticeKind::Info, "Initialized 3 named volume(s)"));
}

#[test]
fn notices_of_stopping() {
    assert_eq!(stop_notice("db", StopOutcome::Stopped), notice(NoticeKind::Success, "db stopped"));
    assert_eq!(stop_notice("db", StopOutcome::AlreadyAbsent), notice(NoticeKind::Info, "db not found"));
    assert_eq!(
        stop_notice("db", StopOutcome::FailedToStop),
        notice(NoticeKind::Warning, "db failed to stop (tried stop and kill)")
    );
    assert_eq!(processed_summary(2), notice(NoticeKind::Success, "Processed 2 service(s)"));
}

#[test]
fn ports_are_warned_about() {
    assert_eq!(port_warnings(&service(&[])), vec![]);
    assert_eq!(
        port_warnings(&service(&["8080:80", "443:443"])),
        vec![
            notice(
                NoticeKind::Warning,
                "Port mappings are not directly supported by Apple's container framework"
            ),
            notice(NoticeKind::Warning, "Ports specified: [\"8080:80\", \"443:443\"]"),
            notice(NoticeKind::Warning, "You may need to configure networking separately"),
        ]
    );
}

#[test]
fn lists_in_quotes() {
    let list = |items: &[&str]| quoted_list_string(&items.iter().map(|s| s.to_string()).collect());
    assert_eq!(list(&[]), "[]");
    assert_eq!(list(&["80:80"]), "[\"80:80\"]");
    assert_eq!(list(&["a", "", "c d"]), "[\"a\", \"\", \"c d\"]");
    assert_eq!(list(&["8080:80", "443:443"]), format!("{:?}", vec!["8080:80", "443:443"]));
}

#[test]
fn status_table() {
    assert_eq!(table_headings(), vec!["SERVICE", "STATUS", "CONTAINER ID", "IMAGE"]);
    assert_eq!(ServiceStatus::Running.label(), "Running");
    assert_eq!(ServiceStatus::Stopped.label(), "Stopped");
    assert_eq!(ServiceStatus::NotCreated.label(), "Not Created");
    assert_eq!(ServiceStatus::Running.highlight(), Highlight::Green);
    assert_eq!(ServiceStatus::Stopped.highlight(), Highlight::Red);
    assert_eq!(ServiceStatus::NotCreated.highlight(), Highlight::Red);
    let row = StatusRow {
        service: "web".to_string(),
        status: ServiceStatus::NotCreated,
        container_id: "N/A".to_string(),
        image: "nginx".to_string(),
    };
    assert_eq!(row.cells(), vec!["web", "Not Created", "N/A", "nginx"]);
}

#[test]
fn messages_of_failures() {
    let s = |t: &str| t.to_string();
    assert_eq!(
        ComposeError::MissingImage { service: s("web") }.message(),
        "Service 'web' has no image specified"
    );
    assert_eq!(
        ComposeError::UnknownDependency { service: s("web"), dependency: s("db") }.message(),
        "Service 'web' depends on 'db' which doesn't exist"
    );
    assert_eq!(ComposeError::ServiceNotFound { service: s("x") }.message(), "Service 'x' not found");
    assert_eq!(
        ComposeError::ServiceNotRunning { service: s("x") }.message(),
        "Service 'x' is not running"
    );
    assert_eq!(
        ComposeError::CircularDependency { service: s("a") }.message(),
        "Circular dependency detected involving 'a'"
    );
    assert_eq!(
        ComposeError::AnonymousVolumeUnsupported { volume: s("/data") }.message(),
        "Anonymous volumes are not supported: /data"
    );
    assert_eq!(
        ComposeError::VolumeSourceNotFound { source: s("./d"), resolved: s("/w/d") }.message(),
        "Volume mount source path does not exist: ./d (resolved to: /w/d)"
    );
    assert_eq!(ComposeError::HomeDirectoryUnresolvable.message(), "Could not find home directory");
    assert_eq!(
        ComposeError::RuntimeUnavailable { action: RuntimeAction::Run, reason: s("No such file") }
            .message(),
        "No such file"
    );
    assert_eq!(
        ComposeError::RuntimeTimeout { action: RuntimeAction::Stop, subject: s("web") }.message(),
        "Runtime did not answer in time for 'web'"
    );
}

#[test]
fn messages_of_failed_invocations() {
    let failed = |action: RuntimeAction, exit_code: Option<i32>| ComposeError::RuntimeInvocationFailed {
        action,
        subject: "web".to_string(),
        exit_code,
        stderr: "boom".to_string(),
    };
    assert_eq!(failed(RuntimeAction::Run, Some(1)).message(), "Failed to start container 'web': boom");
    assert_eq!(failed(RuntimeAction::Pull, Some(1)).message(), "Failed to pull image 'web': boom");
    assert_eq!(failed(RuntimeAction::Logs, Some(1)).message(), "Failed to get logs for service 'web'");
    assert_eq!(
        failed(RuntimeAction::Exec, Some(127)).message(),
        "Command failed in container 'web' with exit code: 127"
    );
    assert_eq!(
        failed(RuntimeAction::Exec, None).message(),
        "Command failed in container 'web' with exit code: -1"
    );
    assert_eq!(failed(RuntimeAction::Stop, Some(1)).message(), "Runtime command failed for 'web': boom");
    assert_eq!(failed(RuntimeAction::Kill, Some(1)).message(), "Runtime command failed for 'web': boom");
    assert_eq!(failed(RuntimeAction::List, None).message(), "Runtime command failed for 'web': boom");
}
