use std::time::{Duration, UNIX_EPOCH};

use nimesvc::cli::dev::{
    changed_paths, collect_watch_paths, has_changes, is_access_log_line, resolve_watch_path, watch_path_changes,
    Snapshot,
};
use nimesvc::ir::{
    EventsSection, HttpSection, ModuleUse, Project, ProjectCommon, RpcSection, Schema, Service, ServiceCommon,
    SocketsSection, UseScope,
};
use nimesvc::paths::paths_equal;

fn nanos(secs: u64) -> u128 {
    (UNIX_EPOCH + Duration::from_secs(secs))
        .duration_since(UNIX_EPOCH)
        .unwrap()
        .as_nanos()
}

fn snapshot(entries: Vec<(&str, Option<u128>)>) -> Snapshot {
    let mut s = Snapshot::new();
    for (path, time) in entries {
        s.insert(path.to_string(), time);
    }
    s
}

#[test]
fn changed_paths_reports_modified_and_removed_files() {
    let previous = snapshot(vec![("a.ns", None), ("b.rs", Some(nanos(1)))]);
    let current = snapshot(vec![("b.rs", Some(nanos(2))), ("c.rs", None)]);

    let changed = changed_paths(&previous, &current);

    assert_eq!(
        changed,
        vec!["a.ns".to_string(), "b.rs".to_string(), "c.rs".to_string()]
    );
}

#[test]
fn watch_path_changes_reports_added_and_removed_paths() {
    let previous = vec!["a.ns".to_string(), "old.rs".to_string()];
    let current = vec!["a.ns".to_string(), "new.rs".to_string()];

    let (added, removed) = watch_path_changes(&previous, &current);

    assert_eq!(added, vec!["new.rs".to_string()]);
    assert_eq!(removed, vec!["old.rs".to_string()]);
}

#[test]
fn changed_paths_orders_by_components() {
    // "a/b" sorts before "a.b" as a path, though not as text.
    let previous = snapshot(vec![]);
    let current = snapshot(vec![("a.b", None), ("a/b", None)]);
    assert_eq!(
        changed_paths(&previous, &current),
        vec!["a/b".to_string(), "a.b".to_string()]
    );
}

#[test]
fn snapshot_treats_equivalent_paths_as_one() {
    let s = snapshot(vec![("src//main.rs", Some(1)), ("src/main.rs/", Some(2))]);
    assert_eq!(s.len(), 1);
    assert_eq!(s.get("./src/main.rs"), None);
    assert_eq!(s.get("src/main.rs"), Some(Some(2)));
}

#[test]
fn has_changes_detects_time_and_count_changes() {
    let a = snapshot(vec![("x.ns", Some(1))]);
    let b = snapshot(vec![("x.ns", Some(1))]);
    let c = snapshot(vec![("x.ns", Some(2))]);
    let d = snapshot(vec![("x.ns", Some(1)), ("y.rs", None)]);
    assert!(!has_changes(&a, &b));
    assert!(has_changes(&a, &c));
    assert!(has_changes(&a, &d));
}

#[test]
fn unchanged_snapshots_report_no_path() {
    let a = snapshot(vec![("x.ns", Some(1)), ("y.rs", None)]);
    let b = snapshot(vec![("y.rs", None), ("x.ns", Some(1))]);
    assert!(!has_changes(&a, &b));
    assert!(changed_paths(&a, &b).is_empty());
}

#[test]
fn watch_paths_resolve_against_the_input_directory() {
    assert_eq!(resolve_watch_path("proj", "modules/a.rs"), "proj/modules/a.rs");
    assert_eq!(resolve_watch_path("proj/", "a.rs"), "proj/a.rs");
    assert_eq!(resolve_watch_path("", "a.rs"), "a.rs");
    assert_eq!(resolve_watch_path("proj", "/abs/a.rs"), "/abs/a.rs");
}

#[test]
fn access_log_lines_are_recognised() {
    assert!(is_access_log_line("  [GET] /health -> 200  "));
    assert!(!is_access_log_line("GET /health -> 200"));
    assert!(!is_access_log_line("[info] started"));
}

fn module_at(name: &str, path: Option<&str>) -> ModuleUse {
    ModuleUse {
        name: name.to_string(),
        path: path.map(|p| p.to_string()),
        version: None,
        alias: None,
        scope: UseScope::Runtime,
    }
}

fn service_with_modules(name: &str, modules: Vec<ModuleUse>) -> Service {
    Service {
        name: name.to_string(),
        language: None,
        common: ServiceCommon {
            address: None,
            port: None,
            base_url: None,
            cors: None,
            modules,
            env: vec![],
            auth: None,
            middleware: vec![],
            rate_limit: None,
        },
        http: HttpSection { headers: vec![], routes: vec![] },
        rpc: RpcSection { grpc_config: None, methods: vec![] },
        events: EventsSection { config: None, emits: vec![], subscribes: vec![], definitions: vec![] },
        schema: Schema { types: vec![], enums: vec![] },
        sockets: SocketsSection { sockets: vec![] },
    }
}

fn has_path(paths: &[String], p: &str) -> bool {
    paths.iter().any(|x| paths_equal(x, p))
}

#[test]
fn collect_watch_paths_includes_input_and_declared_modules() {
    let project = Project {
        common: ProjectCommon {
            default_version: None,
            output: None,
            auth: None,
            middleware: vec![],
            modules: vec![module_at("shared", Some("./modules/shared.rs"))],
        },
        services: vec![service_with_modules(
            "Api",
            vec![module_at("api", Some("./modules/api.rs")), module_at("serde", None)],
        )],
    };
    let paths = collect_watch_paths(&project, "dir/api.ns", "dir");
    assert!(has_path(&paths, "dir/api.ns"));
    assert!(has_path(&paths, "dir/modules/shared.rs"));
    assert!(has_path(&paths, "dir/modules/api.rs"));
    assert!(has_path(&paths, "dir/.env"));
    assert!(has_path(&paths, "dir/.env.local"));
    assert_eq!(paths.len(), 5);
}

#[test]
fn collect_watch_paths_sorts_and_keeps_one_of_each_path() {
    let project = Project {
        common: ProjectCommon {
            default_version: None,
            output: None,
            auth: None,
            middleware: vec![],
            modules: vec![module_at("b", Some("/abs/b.rs")), module_at("a", Some("x/a.rs"))],
        },
        services: vec![service_with_modules("Api", vec![module_at("a2", Some("./x/a.rs"))])],
    };
    let paths = collect_watch_paths(&project, "d/main.ns", "d");
    assert_eq!(
        paths,
        vec![
            "/abs/b.rs".to_string(),
            "d/.env".to_string(),
            "d/.env.local".to_string(),
            "d/main.ns".to_string(),
            "d/x/a.rs".to_string(),
        ]
    );
}
