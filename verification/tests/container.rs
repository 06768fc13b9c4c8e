use container_compose::config::{ContainerComposeConfig, Service, Volume};
use container_compose::container::{
    logs_of, reverse_existing, Container, ContainerManager, ContainerStatus, DownPlan, PullItem, StartStep,
    UpPlan,
};
use container_compose::error::{ComposeError, RuntimeAction};
use container_compose::name_map::NameMap;
use container_compose::runtime::Invocation;
use container_compose::stop::StopOutcome;

fn service(image: &str, deps: &[&str]) -> Service {
    Service {
        image: image.to_string(),
        ports: vec![],
        volumes: vec![],
        environment: vec![],
        depends_on: deps.iter().map(|d| d.to_string()).collect(),
        command: None,
        working_dir: None,
    }
}

fn manager(entries: &[(&str, &str, &[&str])], volumes: &[&str]) -> ContainerManager {
    let mut services = NameMap::new();
    for (name, image, deps) in entries {
        services.insert(name.to_string(), service(image, deps));
    }
    let mut named = NameMap::new();
    for v in volumes {
        named.insert(v.to_string(), Volume { driver: String::new() });
    }
    ContainerManager::new(ContainerComposeConfig {
        version: "1.0".to_string(),
        services,
        volumes: named,
        networks: NameMap::new(),
    })
}

fn web_and_db() -> ContainerManager {
    manager(&[("web", "nginx", &["db"]), ("db", "postgres", &[])], &[])
}

fn listed(stdout: &str) -> Invocation {
    Invocation::Exited { code: Some(0), stdout: stdout.to_string(), stderr: String::new() }
}

fn names(items: &[&str]) -> Vec<String> {
    items.iter().map(|s| s.to_string()).collect()
}

#[test]
fn new_manager_has_no_records() {
    let m = web_and_db();
    assert_eq!(m.config().services.len(), 2);
    assert_eq!(m.container("web"), None);
}

#[test]
fn start_and_stop_order_of_web_and_db() {
    let m = web_and_db();
    assert_eq!(m.get_start_order(), Ok(names(&["db", "web"])));
    let plan = m.down(&listed("ID IMAGE\nweb nginx\ndb postgres\n")).unwrap();
    assert_eq!(plan.order, names(&["db", "web"]));
    assert_eq!(plan.existing, names(&["web", "db"]));
}

#[test]
fn stop_order_is_reverse_declaration_not_reverse_start() {
    let m = manager(&[("db", "postgres", &[]), ("web", "nginx", &["db"])], &[]);
    assert_eq!(m.get_start_order(), Ok(names(&["db", "web"])));
    let plan = m.down(&listed("ID IMAGE\ndb postgres\nweb nginx\n")).unwrap();
    assert_eq!(plan.order, names(&["web", "db"]));
}

#[test]
fn stop_order_leaves_out_what_has_no_container() {
    let m = manager(&[("a", "i", &[]), ("b", "i", &[]), ("c", "i", &[])], &[]);
    let plan = m.down(&listed("ID IMAGE\nc i\na i\nzzz i\n")).unwrap();
    assert_eq!(plan, DownPlan { existing: names(&["c", "a"]), order: names(&["c", "a"]) });
}

#[test]
fn nothing_listed_means_nothing_to_stop() {
    let m = web_and_db();
    let plan = m.down(&listed("ID IMAGE\n")).unwrap();
    assert!(plan.existing.is_empty());
    assert!(plan.order.is_empty());
    let failed = Invocation::Exited { code: Some(1), stdout: String::new(), stderr: String::new() };
    assert_eq!(m.down(&failed), Ok(DownPlan { existing: vec![], order: vec![] }));
}

#[test]
fn down_without_runtime_fails() {
    let m = web_and_db();
    assert_eq!(
        m.down(&Invocation::NotStarted { reason: "gone".to_string() }),
        Err(ComposeError::RuntimeUnavailable {
            action: RuntimeAction::List,
            reason: "gone".to_string(),
        })
    );
}

#[test]
fn service_listed_twice_is_stopped_once() {
    let m = web_and_db();
    let plan = m.down(&listed("ID IMAGE\nweb nginx\nweb nginx\n")).unwrap();
    assert_eq!(plan.existing, names(&["web", "web"]));
    assert_eq!(plan.order, names(&["web"]));
}

#[test]
fn reverse_existing_of_names() {
    let mut services = NameMap::new();
    for n in ["one", "two", "three"] {
        services.insert(n.to_string(), service("i", &[]));
    }
    assert_eq!(reverse_existing(&services, &names(&["one", "three"])), names(&["three", "one"]));
    assert_eq!(reverse_existing(&services, &vec![]), Vec::<String>::new());
}

#[test]
fn up_plans_directories_and_order() {
    let m = manager(&[("web", "nginx", &["db"]), ("db", "postgres", &[])], &["data"]);
    assert_eq!(
        m.up(Some("/home/u")),
        Ok(UpPlan {
            directories: names(&["/home/u/.container-compose/volumes/data"]),
            order: Ok(names(&["db", "web"])),
        })
    );
}

#[test]
fn up_makes_directories_before_it_reports_a_cycle() {
    let m = manager(&[("a", "i", &["a"])], &["data"]);
    assert_eq!(m.up(None), Err(ComposeError::HomeDirectoryUnresolvable));
    assert_eq!(
        m.up(Some("/h")),
        Ok(UpPlan {
            directories: names(&["/h/.container-compose/volumes/data"]),
            order: Err(ComposeError::CircularDependency { service: "a".to_string() }),
        })
    );
}

#[test]
fn up_without_volumes_needs_no_home() {
    let m = web_and_db();
    assert_eq!(m.up(None), Ok(UpPlan { directories: vec![], order: Ok(names(&["db", "web"])) }));
}

#[test]
fn service_is_launched_unless_it_runs() {
    let mut m = web_and_db();
    assert_eq!(m.start_service("db", &vec![]), Ok(StartStep::Launch));
    assert_eq!(m.start_service("db", &names(&["db"])), Ok(StartStep::AlreadyRunning));
    assert_eq!(m.start_service("db", &names(&["web"])), Ok(StartStep::Launch));
    let id = m.finish_start("db", &listed("  id-1 \n")).unwrap();
    assert_eq!(id, "id-1");
    assert_eq!(m.start_service("db", &vec![]), Ok(StartStep::AlreadyRunning));
    assert_eq!(m.start_service("web", &vec![]), Ok(StartStep::Launch));
}

#[test]
fn start_of_a_running_service_changes_nothing() {
    let mut m = web_and_db();
    m.finish_start("db", &listed("id-1")).unwrap();
    let before = m.container("db").cloned();
    assert_eq!(m.start_service("db", &vec![]), Ok(StartStep::AlreadyRunning));
    assert_eq!(m.start_service("db", &vec![]), Ok(StartStep::AlreadyRunning));
    assert_eq!(m.container("db").cloned(), before);
    assert_eq!(m.container("web"), None);
}

#[test]
fn start_of_an_unknown_service_fails() {
    let m = web_and_db();
    assert_eq!(
        m.start_service("ghost", &names(&["ghost"])),
        Err(ComposeError::ServiceNotFound { service: "ghost".to_string() })
    );
}

#[test]
fn successful_run_is_recorded() {
    let mut m = web_and_db();
    assert_eq!(m.finish_start("web", &listed("abc\n")), Ok("abc".to_string()));
    assert_eq!(
        m.container("web"),
        Some(&Container { status: ContainerStatus::Running, container_id: Some("abc".to_string()) })
    );
    assert_eq!(m.container("db"), None);
    assert_eq!(m.finish_start("web", &listed("def\n")), Ok("def".to_string()));
    assert_eq!(m.container("web").unwrap().container_id, Some("def".to_string()));
}

#[test]
fn failed_run_leaves_no_record() {
    let mut m = web_and_db();
    let answer = Invocation::Exited { code: Some(1), stdout: "x".to_string(), stderr: "no".to_string() };
    assert_eq!(
        m.finish_start("web", &answer),
        Err(ComposeError::RuntimeInvocationFailed {
            action: RuntimeAction::Run,
            subject: "web".to_string(),
            exit_code: Some(1),
            stderr: "no".to_string(),
        })
    );
    assert_eq!(m.container("web"), None);
    assert_eq!(
        m.finish_start("web", &Invocation::TimedOut),
        Err(ComposeError::RuntimeTimeout { action: RuntimeAction::Run, subject: "web".to_string() })
    );
    assert_eq!(m.container("web"), None);
}

#[test]
fn stop_removes_the_record_unless_it_failed() {
    let mut m = web_and_db();
    m.finish_start("web", &listed("w")).unwrap();
    m.finish_start("db", &listed("d")).unwrap();
    m.finish_stop("web", StopOutcome::FailedToStop);
    assert!(m.container("web").is_some());
    m.finish_stop("web", StopOutcome::Stopped);
    assert_eq!(m.container("web"), None);
    assert!(m.container("db").is_some());
    m.finish_stop("db", StopOutcome::AlreadyAbsent);
    assert_eq!(m.container("db"), None);
    m.finish_stop("db", StopOutcome::Stopped);
    assert_eq!(m.container("db"), None);
}

#[test]
fn logs_need_a_record() {
    let mut m = web_and_db();
    assert_eq!(
        m.logs("web", false),
        Err(ComposeError::ServiceNotFound { service: "web".to_string() })
    );
    m.finish_start("web", &listed("id-9\n")).unwrap();
    assert_eq!(m.logs("web", false), Ok(names(&["logs", "id-9"])));
    assert_eq!(m.logs("web", true), Ok(names(&["logs", "-f", "id-9"])));
}

#[test]
fn logs_need_an_identifier() {
    let bare = Container { status: ContainerStatus::Running, container_id: None };
    assert_eq!(
        logs_of(Some(&bare), "web", true),
        Err(ComposeError::ServiceNotRunning { service: "web".to_string() })
    );
    let known = Container { status: ContainerStatus::Running, container_id: Some("c1".to_string()) };
    assert_eq!(logs_of(Some(&known), "web", true), Ok(names(&["logs", "-f", "c1"])));
    assert_eq!(
        logs_of(None, "web", false),
        Err(ComposeError::ServiceNotFound { service: "web".to_string() })
    );
}

#[test]
fn pull_of_one_or_all() {
    let m = web_and_db();
    assert_eq!(
        m.pull(Some("db")),
        Ok(vec![PullItem { service: "db".to_string(), image: "postgres".to_string() }])
    );
    assert_eq!(
        m.pull(None),
        Ok(vec![
            PullItem { service: "web".to_string(), image: "nginx".to_string() },
            PullItem { service: "db".to_string(), image: "postgres".to_string() },
        ])
    );
    assert_eq!(
        m.pull(Some("ghost")),
        Err(ComposeError::ServiceNotFound { service: "ghost".to_string() })
    );
}

#[test]
fn exec_needs_a_service() {
    let m = web_and_db();
    assert_eq!(m.exec("web", &names(&["sh", "-c", "id"])), Ok(names(&["exec", "web", "sh", "-c", "id"])));
    assert_eq!(
        m.exec("ghost", &names(&["sh"])),
        Err(ComposeError::ServiceNotFound { service: "ghost".to_string() })
    );
}
