use nimesvc::cli::plan::{out_base, parse_lang, read_targets, run_builds, generate_builds, PlanError};
use nimesvc::cli::prep::{
    call_arg_name, check_calls, collect_incoming_calls, prepared_service, try_collect_incoming_calls, expected_module_extension, is_module_compatible,
    merged_middleware, normalize_module_rel_path, path_to_import_string, place_module, rewrite_go_package,
    service_base_url, ModulePathError, PlacementKind,
};
use nimesvc::ir::{
    AuthSpec, CallArg, CallSpec, EventsSection, Field, HttpMethod, HttpSection, Input, InputRef, InputSource, Lang,
    ModuleUse, Project, ProjectCommon, ResponseSpec, Route, RpcSection, Schema, Service, ServiceCommon,
    SocketsSection, Type, UseScope,
};

fn module(name: &str, path: Option<&str>, alias: Option<&str>, scope: UseScope) -> ModuleUse {
    ModuleUse {
        name: name.to_string(),
        path: path.map(|p| p.to_string()),
        version: None,
        alias: alias.map(|a| a.to_string()),
        scope,
    }
}

fn service(name: &str) -> Service {
    Service {
        name: name.to_string(),
        language: None,
        common: ServiceCommon {
            address: None,
            port: None,
            base_url: None,
            cors: None,
            modules: vec![],
            env: vec![],
            auth: None,
            middleware: vec![],
            rate_limit: None,
        },
        http: HttpSection { headers: vec![], routes: vec![] },
        rpc: RpcSection { grpc_config: None, methods: vec![] },
        events: EventsSection { config: None, emits: vec![], subscribes: vec![], definitions: vec![] },
        schema: Schema { types: vec![], enums: vec![] },
        sockets: SocketsSection { sockets: vec![] },
    }
}

fn route(path: &str, call: CallSpec, healthcheck: bool) -> Route {
    Route {
        method: HttpMethod::Get,
        path: path.to_string(),
        input: Input { path: vec![], query: vec![], body: vec![] },
        headers: vec![],
        responses: vec![ResponseSpec { status: 200, ty: Type::String }],
        auth: None,
        middleware: vec![],
        rate_limit: None,
        healthcheck,
        call,
        internal: false,
    }
}

fn call(service: Option<&str>, module: &str, function: &str, args: Vec<CallArg>) -> CallSpec {
    CallSpec {
        service: service.map(|s| s.to_string()),
        service_base: None,
        module: module.to_string(),
        function: function.to_string(),
        args,
        is_async: false,
    }
}

fn project(services: Vec<Service>, modules: Vec<ModuleUse>, middleware: Vec<&str>) -> Project {
    Project {
        common: ProjectCommon {
            default_version: None,
            output: None,
            auth: None,
            middleware: middleware.into_iter().map(|m| m.to_string()).collect(),
            modules,
        },
        services,
    }
}

#[test]
fn module_paths_normalize_inside_the_sources() {
    assert_eq!(normalize_module_rel_path("./modules/core.rs").ok(), Some("modules/core.rs".to_string()));
    assert_eq!(normalize_module_rel_path("a//b/./c.ts").ok(), Some("a/b/c.ts".to_string()));
    assert_eq!(normalize_module_rel_path("/abs/x/y.rs").ok(), Some("y.rs".to_string()));
    assert!(matches!(normalize_module_rel_path("../x.rs"), Err(ModulePathError::HasParent(_))));
    assert!(matches!(normalize_module_rel_path("a/../x.rs"), Err(ModulePathError::HasParent(_))));
    assert!(matches!(normalize_module_rel_path("."), Err(ModulePathError::Invalid(_))));
    assert!(matches!(normalize_module_rel_path("/"), Err(ModulePathError::Invalid(_))));
    assert_eq!(path_to_import_string("./a/b.rs"), "a/b.rs");
    assert_eq!(path_to_import_string("/x/y"), "x/y");
}

#[test]
fn go_module_package_is_renamed() {
    assert_eq!(
        rewrite_go_package("// core\n  package foo\n\nfunc A() {}\npackage bar\n", "core"),
        "// core\npackage core\n\nfunc A() {}\npackage bar\n"
    );
    assert_eq!(rewrite_go_package("func A() {}", "core"), "package core\n\nfunc A() {}");
}

#[test]
fn module_languages() {
    assert!(is_module_compatible(&Lang::Rust, "rs"));
    assert!(is_module_compatible(&Lang::TypeScript, "js"));
    assert!(!is_module_compatible(&Lang::Go, "rs"));
    assert_eq!(expected_module_extension(&Lang::TypeScript), "`.ts` or `.js`");
    assert_eq!(expected_module_extension(&Lang::Go), "`.go`");
}

#[test]
fn base_urls_of_services() {
    let mut svc = service("Users");
    assert_eq!(service_base_url(&svc), "http://127.0.0.1:3000");
    svc.common.address = Some("0.0.0.0".to_string());
    svc.common.port = Some(8080);
    assert_eq!(service_base_url(&svc), "http://127.0.0.1:8080");
    svc.common.address = Some("users.local".to_string());
    assert_eq!(service_base_url(&svc), "http://users.local:8080");
    svc.common.base_url = Some("https://users.example".to_string());
    assert_eq!(service_base_url(&svc), "https://users.example");
}

#[test]
fn argument_names() {
    let named = CallArg { name: Some("id".to_string()), value: InputRef { source: InputSource::Path, path: vec![] } };
    let blank = CallArg { name: Some(String::new()), value: InputRef { source: InputSource::Path, path: vec![] } };
    assert_eq!(call_arg_name(&named, 3), "id");
    assert_eq!(call_arg_name(&blank, 2), "arg2");
}

#[test]
fn check_calls_allows_healthcheck_without_use_module() {
    let mut api = service("API");
    api.http.routes = vec![route("/health", call(None, "", "", vec![]), true)];
    let p = project(vec![api], vec![], vec![]);
    let plan = check_calls(&p, &p.services[0]).ok().unwrap();
    assert_eq!(plan.route_bases, vec![None]);
    assert!(plan.modules.is_empty());
}

#[test]
fn check_calls_reports_undeclared_and_compile_only_modules() {
    let mut api = service("API");
    api.http.routes = vec![route("/hello", call(None, "core", "hello", vec![]), false)];
    let p = project(vec![api], vec![], vec![]);
    let err = check_calls(&p, &p.services[0]).err().unwrap();
    assert_eq!(err.message(), "Module 'core' is used by service 'API' but is not declared via `use`");

    let mut api = service("API");
    api.http.routes = vec![route("/hello", call(None, "core", "hello", vec![]), false)];
    let p = project(vec![api], vec![module("core", Some("core.rs"), None, UseScope::Compile)], vec![]);
    let err = check_calls(&p, &p.services[0]).err().unwrap();
    assert_eq!(
        err.message(),
        "Module 'core' in service 'API' is compile-only but used at runtime. Use `runtime` or the default scope."
    );
}

#[test]
fn check_calls_forwards_routes_and_keeps_first_declarations() {
    let mut users = service("Users");
    users.common.port = Some(4000);
    users.common.modules = vec![module("core", Some("users.rs"), None, UseScope::Runtime)];
    let mut gateway = service("Gateway");
    gateway.http.routes = vec![
        route("/u", call(Some("Users"), "core", "get", vec![]), false),
        route("/h", call(None, "h", "hello", vec![]), false),
    ];
    gateway.common.modules = vec![
        module("helpers", Some("h.rs"), Some("h"), UseScope::Runtime),
        module("helpers", Some("h.rs"), Some("h"), UseScope::Runtime),
    ];
    let p = project(vec![users, gateway], vec![], vec!["logging"]);
    let plan = check_calls(&p, &p.services[1]).ok().unwrap();
    assert_eq!(plan.route_bases, vec![Some("http://127.0.0.1:4000".to_string()), None]);
    assert_eq!(plan.modules, vec![0]);
    assert_eq!(merged_middleware(&p, &p.services[1]), vec!["logging".to_string()]);

    let mut gateway = service("Gateway");
    gateway.http.routes = vec![route("/u", call(Some("Nope"), "core", "get", vec![]), false)];
    let p = project(vec![gateway], vec![], vec![]);
    let err = check_calls(&p, &p.services[0]).err().unwrap();
    assert_eq!(err.message(), "Route '/u' in service 'Gateway' references unknown target service 'Nope'");
}

#[test]
fn modules_are_placed_by_language() {
    let go = module("core", Some("mods/core.go"), Some("c"), UseScope::Runtime);
    let p = place_module(&go, "proj", Lang::Go).ok().unwrap();
    assert!(matches!(p.kind, PlacementKind::GoPackage));
    assert_eq!(p.source, "proj/mods/core.go");
    assert_eq!(p.dest, "core.go");
    assert_eq!(p.import_path, "c");

    let rs = module("core", Some("./m/a.rs"), None, UseScope::Runtime);
    let p = place_module(&rs, "proj", Lang::Rust).ok().unwrap();
    assert!(matches!(p.kind, PlacementKind::Copy));
    assert_eq!(p.source, "proj/./m/a.rs");
    assert_eq!(p.dest, "m/a.rs");
    assert_eq!(p.import_path, "m/a.rs");

    let wrong = module("core", Some("x.rs"), None, UseScope::Runtime);
    let err = place_module(&wrong, "proj", Lang::TypeScript).err().unwrap();
    assert_eq!(
        err.message(),
        "Module 'x.rs' is not compatible with TypeScript. Expected `.ts` or `.js` module files."
    );

    let crate_use = module("serde", None, None, UseScope::Runtime);
    assert!(matches!(place_module(&crate_use, "proj", Lang::Rust).ok().unwrap().kind, PlacementKind::Keep));
}

#[test]
fn calls_from_other_services_become_internal_routes() {
    let mut users = service("Users");
    users.common.modules = vec![module("core", Some("users.rs"), None, UseScope::Runtime)];
    let mut gateway = service("Gateway");
    let mut r = route(
        "/u/{id}",
        call(
            Some("Users"),
            "core",
            "get_user",
            vec![CallArg { name: None, value: InputRef { source: InputSource::Path, path: vec!["id".to_string()] } }],
        ),
        false,
    );
    r.input.path = vec![Field { name: "id".to_string(), ty: Type::Int, optional: false, validation: None }];
    gateway.http.routes = vec![r];
    let p = project(vec![users, gateway], vec![], vec![]);
    let routes = collect_incoming_calls(&p.services[0], &p).ok().unwrap();
    assert_eq!(routes.len(), 1);
    let r = &routes[0];
    assert!(matches!(r.method, HttpMethod::Post));
    assert_eq!(r.path, "/__call/core/get_user");
    assert!(r.internal);
    assert_eq!(r.input.body.len(), 1);
    assert_eq!(r.input.body[0].name, "arg0");
    assert!(matches!(r.input.body[0].ty, Type::Int));
    assert_eq!(r.responses.len(), 1);
    assert_eq!(r.responses[0].status, 200);
    assert!(matches!(r.responses[0].ty, Type::String));
    assert_eq!(r.call.module, "core");
    assert_eq!(r.call.function, "get_user");
    assert_eq!(r.call.args[0].name, Some("arg0".to_string()));
    assert_eq!(r.call.args[0].value.path, vec!["arg0".to_string()]);

    let gateway_only = project(vec![service("Users"), p.services.into_iter().nth(1).unwrap()], vec![], vec![]);
    let err = collect_incoming_calls(&gateway_only.services[0], &gateway_only).err().unwrap();
    assert_eq!(
        err.message(),
        "Service 'Gateway' route '/u/{id}' calls 'core.get_user', but target service 'Users' does not declare module 'core'"
    );
}

#[test]
fn languages_and_targets() {
    assert!(matches!(parse_lang("golang"), Ok(Lang::Go)));
    let err = parse_lang("java").err().unwrap();
    assert_eq!(err.message("run", "api.ns"), "Unknown language 'java'. Supported values: rust, ts, go");
    let err = read_targets(Some("grpc"), None).err().unwrap();
    assert!(matches!(err, PlanError::GrpcNeedsLang));
    assert_eq!(
        err.message("generate", "api.ns"),
        "`nimesvc generate api.ns` with kind `grpc` requires `--lang <rust|ts|go>`"
    );
    let t = read_targets(Some("ts"), Some("go")).ok().unwrap();
    assert!(!t.grpc_only);
    assert!(matches!(t.lang, Some(Lang::TypeScript)));

    let mut svc = service("Api");
    svc.rpc.methods = vec![];
    let none = read_targets(None, None).ok().unwrap();
    let err = run_builds(&none, &svc).err().unwrap();
    assert_eq!(
        err.message("run", "api.ns"),
        "Service 'Api' has no language. Pass `nimesvc run api.ns <rust|ts|go>` or `--lang <rust|ts|go>`."
    );
    let go = read_targets(Some("go"), None).ok().unwrap();
    let builds = run_builds(&go, &svc).ok().unwrap();
    assert_eq!(builds.len(), 1);
    assert!(!builds[0].grpc);
    let grpc = read_targets(Some("grpc"), Some("rust")).ok().unwrap();
    assert!(run_builds(&grpc, &svc).ok().unwrap().is_empty());
    let builds = generate_builds(&grpc, &svc).ok().unwrap();
    assert_eq!(builds.len(), 1);
    assert!(builds[0].grpc);
}

#[test]
fn prepared_service_puts_the_service_together() {
    let mut users = service("Users");
    users.common.port = Some(4000);
    users.common.modules = vec![module("core", Some("users.rs"), None, UseScope::Runtime)];
    let mut gateway = service("Gateway");
    gateway.common.middleware = vec!["audit".to_string()];
    gateway.http.routes = vec![
        route("/u", call(Some("Users"), "core", "get", vec![]), false),
        route("/health", call(None, "", "", vec![]), true),
    ];
    let mut p = project(vec![users, gateway], vec![], vec!["logging"]);
    p.common.auth = Some(AuthSpec::Bearer);
    let plan = check_calls(&p, &p.services[1]).ok().unwrap();
    let incoming = collect_incoming_calls(&p.services[1], &p).ok().unwrap();
    assert!(incoming.is_empty());
    let own = p.services.pop().unwrap();
    let prepared = prepared_service(&p, own, &plan, vec![module("x", None, None, UseScope::Both)], incoming);
    assert!(matches!(prepared.common.auth, Some(AuthSpec::Bearer)));
    assert_eq!(prepared.common.middleware, vec!["logging".to_string(), "audit".to_string()]);
    assert_eq!(prepared.common.modules.len(), 1);
    assert_eq!(prepared.http.routes.len(), 2);
    assert_eq!(prepared.http.routes[0].call.service_base, Some("http://127.0.0.1:4000".to_string()));
    assert_eq!(prepared.http.routes[1].call.service_base, None);
    assert!(prepared.http.routes[1].healthcheck);
}

#[test]
fn incoming_calls_need_responses_only_where_they_are_read() {
    let mut users = service("Users");
    users.common.modules = vec![module("core", Some("users.rs"), None, UseScope::Runtime)];
    let mut gateway = service("Gateway");
    let mut r = route("/u", call(Some("Users"), "core", "get", vec![]), false);
    r.responses = vec![];
    gateway.http.routes = vec![r];
    let p = project(vec![users, gateway], vec![], vec![]);
    assert!(try_collect_incoming_calls(&p.services[0], &p).is_none());

    let mut gateway = service("Gateway");
    let mut r = route("/u", call(Some("Users"), "missing", "get", vec![]), false);
    r.responses = vec![];
    gateway.http.routes = vec![r];
    let p = project(vec![service("Users"), gateway], vec![], vec![]);
    let err = try_collect_incoming_calls(&p.services[0], &p).unwrap().err().unwrap();
    assert_eq!(
        err.message(),
        "Service 'Gateway' route '/u' calls 'missing.get', but target service 'Users' does not declare module 'missing'"
    );
}

#[test]
fn output_base_of_a_project() {
    assert_eq!(out_base(Some("out"), Some("./server"), "dir"), "out");
    assert_eq!(out_base(None, Some("./server"), "dir"), "./server");
    assert_eq!(out_base(None, None, "dir"), "dir/.nimesvc");
    assert_eq!(out_base(None, None, ""), ".nimesvc");
}
