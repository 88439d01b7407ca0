use nimesvc::cli::doctor_scan::{is_ns_file, is_skipped_dir, missing_tools, missing_tools_report, sort_entries};
use nimesvc::cli::env_report::env_report;
use nimesvc::cli::lint::{collect_service_uses, lint_report, lint_warnings};
use nimesvc::cli::plan::out_dir_name;
use nimesvc::cli::runtime::{
    content_hash_hex, lower_hex, package_name, parse_pid, parse_u32, rust_executable_name, stamp_matches,
};
use nimesvc::cli::update::{binary_name, plan_update, release_url, release_version, target_asset, update_message, UpdateStep};
use nimesvc::ir::{
    CallSpec, EnvVar, EventsBroker, EventsConfig, EventsSection, HttpMethod, HttpSection, Input, ModuleUse,
    Project, ProjectCommon, Route, RpcSection, Schema, Service, ServiceCommon, SocketsSection, UseScope,
};

fn module(name: &str, alias: Option<&str>) -> ModuleUse {
    ModuleUse {
        name: name.to_string(),
        path: None,
        version: None,
        alias: alias.map(|a| a.to_string()),
        scope: UseScope::Runtime,
    }
}

fn call(module: &str, function: &str, service_base: Option<&str>) -> CallSpec {
    CallSpec {
        service: None,
        service_base: service_base.map(|s| s.to_string()),
        module: module.to_string(),
        function: function.to_string(),
        args: vec![],
        is_async: false,
    }
}

fn route(path: &str, call: CallSpec) -> Route {
    Route {
        method: HttpMethod::Get,
        path: path.to_string(),
        input: Input { path: vec![], query: vec![], body: vec![] },
        headers: vec![],
        responses: vec![],
        auth: None,
        middleware: vec![],
        rate_limit: None,
        healthcheck: false,
        call,
        internal: false,
    }
}

fn service(name: &str) -> Service {
    Service {
        name: name.to_string(),
        language: None,
        common: ServiceCommon {
            address: None,
            port: None,
            base_url: None,
            cors: None,
            modules: vec![],
            env: vec![],
            auth: None,
            middleware: vec![],
            rate_limit: None,
        },
        http: HttpSection { headers: vec![], routes: vec![] },
        rpc: RpcSection { grpc_config: None, methods: vec![] },
        events: EventsSection { config: None, emits: vec![], subscribes: vec![], definitions: vec![] },
        schema: Schema { types: vec![], enums: vec![] },
        sockets: SocketsSection { sockets: vec![] },
    }
}

fn project(services: Vec<Service>, modules: Vec<ModuleUse>) -> Project {
    Project {
        common: ProjectCommon { default_version: None, output: None, auth: None, middleware: vec![], modules },
        services,
    }
}

fn strings(v: &[&str]) -> Vec<String> {
    v.iter().map(|s| s.to_string()).collect()
}

// ---------------------------------------------------------------------------
// lint
// ---------------------------------------------------------------------------

#[test]
fn lint_reports_project_without_services() {
    let p = project(vec![], vec![module("core", None)]);
    assert_eq!(
        lint_warnings(&p),
        strings(&["No services declared", "Global module 'core' is not used"])
    );
}

#[test]
fn lint_reports_empty_service_idle_events_and_unused_modules() {
    let mut svc = service("Api");
    svc.events.config = Some(EventsConfig {
        broker: EventsBroker::Redis,
        url: None,
        stream_prefix: None,
        group: None,
        consumer: None,
    });
    svc.common.modules = vec![module("core", None), module("helpers", Some("h"))];
    let p = project(vec![svc], vec![module("shared", None)]);
    assert_eq!(
        lint_warnings(&p),
        strings(&[
            "Service 'Api' has no routes, rpcs, or sockets",
            "Service 'Api' has events_config but no emit/subscribe",
            "Service 'Api' module 'core' is not used",
            "Service 'Api' module 'h' is not used",
            "Global module 'shared' is not used",
        ])
    );
}

#[test]
fn lint_counts_calls_by_alias_and_skips_forwarded_routes() {
    let mut svc = service("Api");
    svc.http.routes = vec![
        route("/a", call("h", "hello", None)),
        route("/b", call("core", "proxy", Some("http://other"))),
    ];
    svc.common.modules = vec![module("helpers", Some("h")), module("core", None)];
    let p = project(vec![svc], vec![module("h", None), module("core", None)]);
    assert_eq!(collect_service_uses(&p.services[0]), strings(&["h"]));
    assert_eq!(
        lint_warnings(&p),
        strings(&["Service 'Api' module 'core' is not used", "Global module 'core' is not used"])
    );
}

#[test]
fn lint_report_lines() {
    assert_eq!(lint_report(&vec![]), strings(&["Lint: OK"]));
    assert_eq!(
        lint_report(&strings(&["a", "b"])),
        strings(&["Lint: warnings", " - a", " - b"])
    );
}

// ---------------------------------------------------------------------------
// env
// ---------------------------------------------------------------------------

#[test]
fn env_report_single_service() {
    let mut svc = service("Api");
    svc.common.env = vec![
        EnvVar { name: "DATABASE_URL".to_string(), default: None },
        EnvVar { name: "PORT".to_string(), default: Some("3000".to_string()) },
    ];
    let p = project(vec![svc], vec![]);
    assert_eq!(env_report(&p, "main.ns"), strings(&["  DATABASE_URL", "  PORT=\"3000\""]));
}

#[test]
fn env_report_several_services_and_empty_cases() {
    let mut a = service("A");
    a.common.env = vec![EnvVar { name: "X".to_string(), default: None }];
    let b = service("B");
    let p = project(vec![a, b], vec![]);
    assert_eq!(env_report(&p, "api.ns"), strings(&["Service A:", "  X"]));

    let none = project(vec![service("B")], vec![]);
    assert_eq!(env_report(&none, "api.ns"), strings(&["No env vars declared in api.ns"]));

    let empty = project(vec![], vec![]);
    assert_eq!(env_report(&empty, "api.ns"), strings(&["No services found in api.ns"]));
}

// ---------------------------------------------------------------------------
// doctor
// ---------------------------------------------------------------------------

#[test]
fn doctor_skips_tool_and_build_directories() {
    for name in [".git", "target", "node_modules", ".nimesvc", "release", "examples"] {
        assert!(is_skipped_dir(name));
    }
    assert!(!is_skipped_dir("nested"));
    assert!(!is_skipped_dir("src"));
}

#[test]
fn doctor_finds_ns_files_in_path_order() {
    assert!(is_ns_file("collect/api.ns"));
    assert!(!is_ns_file("collect/api.rs"));
    assert!(!is_ns_file(".ns"));
    let sorted = sort_entries(strings(&["nested/worker.ns", "api.ns", "a.b/x.ns", "a/x.ns"]));
    assert_eq!(sorted, strings(&["a/x.ns", "a.b/x.ns", "api.ns", "nested/worker.ns"]));
}

#[test]
fn doctor_missing_tools_lines() {
    assert!(missing_tools(true, true, true, true).is_empty());
    let missing = missing_tools(false, true, false, false);
    assert_eq!(missing, strings(&["cargo (Rust)", "bun (TypeScript deps/runtime)", "go (Golang)"]));
    assert_eq!(
        missing_tools_report(&missing),
        strings(&[
            "Doctor: warnings (missing tools):",
            " - cargo (Rust)",
            " - bun (TypeScript deps/runtime)",
            " - go (Golang)",
        ])
    );
    assert!(missing_tools_report(&vec![]).is_empty());
}

// ---------------------------------------------------------------------------
// stamps, pids and packages
// ---------------------------------------------------------------------------

#[test]
fn hash_stamp_is_lowercase_sha256() {
    assert_eq!(
        content_hash_hex(b"abc"),
        "ba7816bf8f01cfea414140de5dae2223b00361a396177a9cb410ff61f20015ad"
    );
    assert_eq!(
        content_hash_hex(b""),
        "e3b0c44298fc1c149afbf4c8996fb92427ae41e4649b934ca495991b7852b855"
    );
    assert_eq!(lower_hex(&vec![10, 20, 30, 0, 255]), "0a141e00ff");
}

#[test]
fn stamp_matches_trims_the_file() {
    assert!(stamp_matches("abc\n", "abc"));
    assert!(stamp_matches("  abc  ", "abc"));
    assert!(!stamp_matches("abd\n", "abc"));
}

#[test]
fn pid_files_parse_like_u32() {
    assert_eq!(parse_pid("1234\n"), Some(1234));
    assert_eq!(parse_pid(" +7 "), Some(7));
    assert_eq!(parse_pid("4294967295"), Some(u32::MAX));
    assert_eq!(parse_pid("4294967296"), None);
    assert_eq!(parse_pid("-1"), None);
    assert_eq!(parse_pid("+"), None);
    assert_eq!(parse_pid(""), None);
    assert_eq!(parse_pid("12a"), None);
    assert_eq!(parse_u32("007"), Some(7));
}

#[test]
fn package_name_is_read_from_first_name_line() {
    let toml = "[package]\nname = \"users-api\"\nversion = \"0.1.0\"\n\n[dependencies]\nname = \"x\"\n";
    assert_eq!(package_name(toml), Some("users-api".to_string()));
    assert_eq!(package_name("  name = \"\"\"a\"\"  \r\n"), Some("a".to_string()));
    assert_eq!(package_name("[package]\nversion = \"1\"\n"), None);
    assert_eq!(rust_executable_name("users-api", false), "users-api");
    assert_eq!(rust_executable_name("users-api", true), "users-api.exe");
}

// ---------------------------------------------------------------------------
// update
// ---------------------------------------------------------------------------

#[test]
fn update_plan_decides_the_asset() {
    let assets = strings(&["nimesvc-macos-arm64", "nimesvc-linux-x64", "nimesvc-linux-x64"]);
    assert_eq!(plan_update("1.2.0", "v1.2.0", "linux", "x86_64", &assets), UpdateStep::UpToDate);
    assert_eq!(plan_update("1.2.0", "vv1.2.0", "plan9", "x86_64", &assets), UpdateStep::UpToDate);
    assert_eq!(plan_update("1.2.0", "v1.3.0", "linux", "x86_64", &assets), UpdateStep::Download(1));
    assert_eq!(plan_update("1.2.0", "v1.3.0", "plan9", "x86_64", &assets), UpdateStep::Unsupported);
    assert_eq!(plan_update("1.2.0", "v1.3.0", "windows", "x86_64", &assets), UpdateStep::MissingAsset);
}

#[test]
fn update_names_and_messages() {
    assert_eq!(release_version("v1.3.0"), "1.3.0");
    assert_eq!(release_version("1.3.0"), "1.3.0");
    assert_eq!(
        release_url("nimeview/nimesvc"),
        "https://api.github.com/repos/nimeview/nimesvc/releases/latest"
    );
    assert_eq!(target_asset("macos", "aarch64"), Some("nimesvc-macos-arm64".to_string()));
    assert_eq!(target_asset("windows", "x86_64"), Some("nimesvc-windows-x64.exe".to_string()));
    assert_eq!(target_asset("windows", "aarch64"), None);
    assert_eq!(binary_name(false), "nimesvc");
    assert_eq!(binary_name(true), "nimesvc.exe");
    assert_eq!(
        update_message(&UpdateStep::UpToDate, "1.2.0", "v1.2.0", "linux", "x86_64"),
        Some("Already up to date (1.2.0).".to_string())
    );
    assert_eq!(
        update_message(&UpdateStep::Unsupported, "1.2.0", "v1.3.0", "plan9", "x86_64"),
        Some("Unsupported target: plan9 x86_64".to_string())
    );
    assert_eq!(
        update_message(&UpdateStep::MissingAsset, "1.2.0", "v1.3.0", "linux", "x86_64"),
        Some("No asset 'nimesvc-linux-x64' found in release v1.3.0".to_string())
    );
    assert_eq!(update_message(&UpdateStep::Download(0), "1.2.0", "v1.3.0", "linux", "x86_64"), None);
}

#[test]
fn services_get_their_own_folders() {
    assert_eq!(out_dir_name("Auth", false), "Auth");
    assert_eq!(out_dir_name("Auth", true), "Auth-grpc");
    assert_ne!(out_dir_name("Auth", false), out_dir_name("Data", false));
}
