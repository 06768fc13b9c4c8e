use container_compose::config::{ContainerComposeConfig, Service};
use container_compose::container::ContainerManager;
use container_compose::error::ComposeError;
use container_compose::name_map::NameMap;
use container_compose::order::start_order;

fn service(deps: &[&str]) -> Service {
    Service {
        image: "img".to_string(),
        ports: vec![],
        volumes: vec![],
        environment: vec![],
        depends_on: deps.iter().map(|d| d.to_string()).collect(),
        command: None,
        working_dir: None,
    }
}

fn services(entries: &[(&str, &[&str])]) -> NameMap<Service> {
    let mut map = NameMap::new();
    for (name, deps) in entries {
        map.insert(name.to_string(), service(deps));
    }
    map
}

fn manager(entries: &[(&str, &[&str])]) -> ContainerManager {
    ContainerManager::new(ContainerComposeConfig {
        version: "1.0".to_string(),
        services: services(entries),
        volumes: NameMap::new(),
        networks: NameMap::new(),
    })
}

fn position(order: &[String], name: &str) -> usize {
    order.iter().position(|n| n == name).unwrap()
}

fn names(items: &[&str]) -> Vec<String> {
    items.iter().map(|s| s.to_string()).collect()
}

#[test]
fn start_order_puts_dependency_first() {
    let m = manager(&[("web", &["db"]), ("db", &[])]);
    assert_eq!(m.get_start_order(), Ok(names(&["db", "web"])));
}

#[test]
fn start_order_keeps_declaration_order_without_dependencies() {
    let m = manager(&[("a", &[]), ("b", &[]), ("c", &[])]);
    assert_eq!(m.get_start_order(), Ok(names(&["a", "b", "c"])));
}

#[test]
fn start_order_of_nothing_is_empty() {
    let m = manager(&[]);
    assert_eq!(m.get_start_order(), Ok(Vec::<String>::new()));
}

#[test]
fn start_order_respects_every_edge_of_a_diamond() {
    let entries: &[(&str, &[&str])] = &[
        ("app", &["api", "worker"]),
        ("api", &["db", "cache"]),
        ("worker", &["db"]),
        ("cache", &[]),
        ("db", &[]),
    ];
    let order = start_order(&services(entries)).unwrap();
    assert_eq!(order.len(), 5);
    for (name, deps) in entries {
        for dep in deps.iter() {
            assert!(position(&order, dep) < position(&order, name));
        }
    }
    assert_eq!(order, names(&["db", "cache", "api", "worker", "app"]));
}

#[test]
fn start_order_respects_transitive_dependencies() {
    let m = manager(&[("c", &["b"]), ("b", &["a"]), ("a", &[])]);
    let order = m.get_start_order().unwrap();
    assert_eq!(order, names(&["a", "b", "c"]));
    assert!(position(&order, "a") < position(&order, "c"));
}

#[test]
fn start_order_lists_each_service_once() {
    let m = manager(&[("a", &["c", "c"]), ("b", &["c"]), ("c", &[])]);
    assert_eq!(m.get_start_order(), Ok(names(&["c", "a", "b"])));
}

#[test]
fn self_dependency_is_a_cycle_at_that_service() {
    let m = manager(&[("a", &["a"])]);
    assert_eq!(
        m.get_start_order(),
        Err(ComposeError::CircularDependency { service: "a".to_string() })
    );
}

#[test]
fn cycle_of_two_is_reported_at_a_member() {
    let m = manager(&[("a", &["b"]), ("b", &["a"])]);
    assert_eq!(
        m.get_start_order(),
        Err(ComposeError::CircularDependency { service: "a".to_string() })
    );
}

#[test]
fn cycle_behind_sound_services_is_found() {
    let m = manager(&[("ok", &[]), ("x", &["y"]), ("y", &["z"]), ("z", &["y"])]);
    match m.get_start_order() {
        Err(ComposeError::CircularDependency { service }) => {
            assert!(service == "y" || service == "z");
        }
        other => panic!("no cycle reported: {:?}", other),
    }
}

#[test]
fn unknown_dependency_is_listed_before_its_dependent() {
    let m = manager(&[("web", &["ghost"])]);
    assert_eq!(m.get_start_order(), Ok(names(&["ghost", "web"])));
}

#[test]
fn unknown_dependency_is_listed_once() {
    let m = manager(&[("a", &["ghost"]), ("b", &["ghost"])]);
    assert_eq!(m.get_start_order(), Ok(names(&["ghost", "a", "b"])));
}
