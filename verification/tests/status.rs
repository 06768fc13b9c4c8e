use container_compose::config::{ContainerComposeConfig, Service};
use container_compose::container::{ContainerManager, ServiceStatus, StatusRow};
use container_compose::error::{ComposeError, RuntimeAction};
use container_compose::name_map::NameMap;
use container_compose::runtime::Invocation;
use container_compose::status::{
    check_listing, container_details, find_details, parse_listing, service_containers,
};

fn service(image: &str) -> Service {
    Service {
        image: image.to_string(),
        ports: vec![],
        volumes: vec![],
        environment: vec![],
        depends_on: vec![],
        command: None,
        working_dir: None,
    }
}

fn services(entries: &[(&str, &str)]) -> NameMap<Service> {
    let mut map = NameMap::new();
    for (name, image) in entries {
        map.insert(name.to_string(), service(image));
    }
    map
}

fn manager(entries: &[(&str, &str)]) -> ContainerManager {
    ContainerManager::new(ContainerComposeConfig {
        version: "1.0".to_string(),
        services: services(entries),
        volumes: NameMap::new(),
        networks: NameMap::new(),
    })
}

fn listed(stdout: &str) -> Invocation {
    Invocation::Exited { code: Some(0), stdout: stdout.to_string(), stderr: String::new() }
}

fn names(items: &[&str]) -> Vec<String> {
    items.iter().map(|s| s.to_string()).collect()
}

#[test]
fn listing_skips_header_and_foreign_containers() {
    let s = services(&[("web", "nginx"), ("db", "postgres")]);
    let text = "ID     IMAGE     STATE\ndb     postgres  running\nother  redis     running\nweb    nginx     stopped\n";
    assert_eq!(parse_listing(text, &s), names(&["db", "web"]));
}

#[test]
fn header_is_skipped_even_if_it_names_a_service() {
    let s = services(&[("web", "nginx")]);
    assert_eq!(parse_listing("web nginx\n", &s), Vec::<String>::new());
    assert_eq!(parse_listing("web nginx\nweb nginx", &s), names(&["web"]));
}

#[test]
fn empty_listing_shows_nothing() {
    let s = services(&[("web", "nginx")]);
    assert_eq!(parse_listing("", &s), Vec::<String>::new());
    assert_eq!(parse_listing("ID IMAGE", &s), Vec::<String>::new());
    assert_eq!(parse_listing("ID IMAGE\n\n   \n", &s), Vec::<String>::new());
}

#[test]
fn listing_takes_first_column_between_any_white_space() {
    let s = services(&[("web", "nginx"), ("db", "pg")]);
    assert_eq!(parse_listing("H\n\t web\tnginx\r\n  db\r\n", &s), names(&["web", "db"]));
}

#[test]
fn failed_listing_shows_nothing() {
    let s = services(&[("web", "nginx")]);
    let answer = Invocation::Exited {
        code: Some(1),
        stdout: "H\nweb nginx\n".to_string(),
        stderr: "boom".to_string(),
    };
    assert_eq!(service_containers(&answer, &s), Ok(Vec::<String>::new()));
    assert_eq!(service_containers(&Invocation::TimedOut, &s), Ok(Vec::<String>::new()));
    assert_eq!(service_containers(&listed("H\nweb nginx\n"), &s), Ok(names(&["web"])));
}

#[test]
fn listing_without_runtime_is_a_failure() {
    let s = services(&[("web", "nginx")]);
    let answer = Invocation::NotStarted { reason: "No such file or directory".to_string() };
    let expected = ComposeError::RuntimeUnavailable {
        action: RuntimeAction::List,
        reason: "No such file or directory".to_string(),
    };
    assert_eq!(service_containers(&answer, &s), Err(expected.clone()));
    assert_eq!(check_listing(&answer), Err(expected));
    assert_eq!(check_listing(&Invocation::TimedOut), Ok(()));
}

#[test]
fn details_come_from_the_first_matching_row() {
    let text = "ID IMAGE\nweb nginx:1 running\nweb nginx:2\n";
    assert_eq!(find_details(text, "web"), Some(("web".to_string(), "nginx:1".to_string())));
    assert_eq!(find_details(text, "db"), None);
}

#[test]
fn row_with_one_column_gives_no_details() {
    assert_eq!(find_details("ID IMAGE\nweb\nweb img\n", "web"), Some(("web".to_string(), "img".to_string())));
    assert_eq!(find_details("ID IMAGE\nweb\n", "web"), None);
}

#[test]
fn details_fall_back_to_the_configuration() {
    let s = services(&[("web", "nginx")]);
    assert_eq!(
        container_details(&listed("ID IMAGE\n"), &s, "web"),
        ("web".to_string(), "nginx".to_string())
    );
    assert_eq!(
        container_details(&listed("ID IMAGE\n"), &s, "nobody"),
        ("nobody".to_string(), "unknown".to_string())
    );
    assert_eq!(
        container_details(&Invocation::TimedOut, &s, "web"),
        ("web".to_string(), "nginx".to_string())
    );
}

#[test]
fn details_read_the_listing_without_surrounding_white_space() {
    let s = services(&[("web", "nginx")]);
    assert_eq!(
        container_details(&listed("\n\nID IMAGE\nweb real:tag\n"), &s, "web"),
        ("web".to_string(), "real:tag".to_string())
    );
    assert_eq!(
        container_details(&listed("web first:row\nweb second:row\n"), &s, "web"),
        ("web".to_string(), "second:row".to_string())
    );
}

#[test]
fn ps_gives_one_row_for_each_service() {
    let m = manager(&[("web", "nginx"), ("db", "postgres"), ("cache", "redis")]);
    let all = listed("ID IMAGE STATE\nweb nginx:1.25 running\ndb postgres:16 stopped\n");
    let running = listed("ID IMAGE STATE\nweb nginx:1.25 running\n");
    let rows = m.ps(&all, &running).unwrap();
    assert_eq!(
        rows,
        vec![
            StatusRow {
                service: "web".to_string(),
                status: ServiceStatus::Running,
                container_id: "web".to_string(),
                image: "nginx:1.25".to_string(),
            },
            StatusRow {
                service: "db".to_string(),
                status: ServiceStatus::Stopped,
                container_id: "db".to_string(),
                image: "postgres:16".to_string(),
            },
            StatusRow {
                service: "cache".to_string(),
                status: ServiceStatus::NotCreated,
                container_id: "N/A".to_string(),
                image: "redis".to_string(),
            },
        ]
    );
}

#[test]
fn ps_without_runtime_fails() {
    let m = manager(&[("web", "nginx")]);
    let gone = Invocation::NotStarted { reason: "gone".to_string() };
    let expected = Err(ComposeError::RuntimeUnavailable {
        action: RuntimeAction::List,
        reason: "gone".to_string(),
    });
    assert_eq!(m.ps(&gone, &listed("")), expected);
    assert_eq!(m.ps(&listed(""), &gone), expected);
}

#[test]
fn ps_with_failed_listings_shows_nothing_created() {
    let m = manager(&[("web", "nginx")]);
    let bad = Invocation::Exited { code: Some(2), stdout: String::new(), stderr: String::new() };
    let rows = m.ps(&bad, &bad).unwrap();
    assert_eq!(rows.len(), 1);
    assert_eq!(rows[0].status, ServiceStatus::NotCreated);
    assert_eq!(rows[0].image, "nginx");
}

fn by_lines(listing: &str, services: &NameMap<Service>) -> Vec<String> {
    listing
        .lines()
        .skip(1)
        .filter(|line| !line.is_empty())
        .filter_map(|line| line.split_whitespace().next())
        .filter(|name| services.contains_key(name))
        .map(|name| name.to_string())
        .collect()
}

#[test]
fn listing_agrees_with_reading_line_by_line() {
    let s = services(&[("web", "nginx"), ("db", "pg"), ("ID", "x")]);
    let listings = [
        "",
        "\n",
        "ID IMAGE\n",
        "ID IMAGE\nweb nginx\n",
        "ID IMAGE\r\nweb nginx\r\ndb pg\r\n",
        "\nID IMAGE\nweb\n",
        "web\nweb\n\n\ndb",
        "ID\n \t \nweb   x\n\rdb\r\n",
        "ID\nother\nID zz\n",
    ];
    for listing in listings {
        assert_eq!(parse_listing(listing, &s), by_lines(listing, &s), "{:?}", listing);
    }
}
