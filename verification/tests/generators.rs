use nimesvc::generators::common::env::{render_env_checks_go, render_env_checks_rust, render_env_checks_ts};
use nimesvc::generators::common::errors::missing_header_status;
use nimesvc::generators::common::headers::{
    default_cors_headers, default_cors_methods, header_dsl_key, header_runtime_key,
};
use nimesvc::generators::files::{go_module_name, rust_server_files};
use nimesvc::generators::go::middleware::build_middleware_go;
use nimesvc::generators::rpc::build_proto;
use nimesvc::ir::{
    EnvVar, EventDef, EventsBroker, EventsConfig, EventsSection, HttpSection, RpcSection, Schema, Service,
    ServiceCommon, SocketsSection, Type, TypeName,
};

fn service(name: &str) -> Service {
    Service {
        name: name.to_string(),
        language: None,
        common: ServiceCommon {
            address: None,
            port: None,
            base_url: None,
            cors: None,
            modules: vec![],
            env: vec![],
            auth: None,
            middleware: vec![],
            rate_limit: None,
        },
        http: HttpSection { headers: vec![], routes: vec![] },
        rpc: RpcSection { grpc_config: None, methods: vec![] },
        events: EventsSection { config: None, emits: vec![], subscribes: vec![], definitions: vec![] },
        schema: Schema { types: vec![], enums: vec![] },
        sockets: SocketsSection { sockets: vec![] },
    }
}

#[test]
fn header_keys_are_trimmed_lowercase() {
    assert_eq!(header_runtime_key(" X_Api_KEY "), "x-api-key");
    assert_eq!(header_dsl_key("Content-Type"), "content_type");
    assert_eq!(header_runtime_key("ÄB_C"), "äb-c");
}

#[test]
fn missing_credentials_are_unauthorized() {
    assert_eq!(missing_header_status("Authorization"), 401);
    assert_eq!(missing_header_status(" X_API_KEY"), 401);
    assert_eq!(missing_header_status("x-trace-id"), 400);
}

#[test]
fn default_cors_lists() {
    assert_eq!(default_cors_methods(), "GET,POST,PUT,PATCH,DELETE,OPTIONS");
    assert_eq!(default_cors_headers(), "authorization,content-type,x-admin-token,x_admin_token");
}

#[test]
fn go_module_is_named_after_the_service() {
    assert_eq!(go_module_name(&service("Users")), "nimesvc/users-api");
}

#[test]
fn env_checks_in_each_language() {
    let mut svc = service("Api");
    assert_eq!(render_env_checks_rust(&svc), "");
    assert_eq!(render_env_checks_ts(&svc), "");
    svc.common.env = vec![
        EnvVar { name: "DB".to_string(), default: None },
        EnvVar { name: "GREETING".to_string(), default: Some("a\"b\\c".to_string()) },
    ];
    assert_eq!(
        render_env_checks_rust(&svc),
        "    if env::var(\"DB\").is_err() {\n        eprintln!(\"Missing env: DB\");\n        return;\n    }\n    if env::var(\"GREETING\").is_err() {\n        env::set_var(\"GREETING\", \"a\\\"b\\\\c\");\n    }\n"
    );
    assert_eq!(
        render_env_checks_go(&svc),
        "    if os.Getenv(\"DB\") == \"\" {\n        fmt.Println(\"Missing env: DB\")\n        return\n    }\n    if os.Getenv(\"GREETING\") == \"\" {\n        os.Setenv(\"GREETING\", \"a\\\"b\\\\c\")\n    }\n"
    );
    assert_eq!(
        render_env_checks_ts(&svc),
        "if (!process.env[\"DB\"]) {\n  console.error(\"Missing env: DB\");\n  process.exit(1);\n}\nif (!process.env[\"GREETING\"]) {\n  process.env[\"GREETING\"] = \"a\\\"b\\\\c\";\n}\n\n"
    );
}

#[test]
fn go_middleware_file_for_one_named_middleware() {
    let mut svc = service("Api");
    assert_eq!(build_middleware_go(&svc), "");
    svc.common.middleware = vec!["logging".to_string()];
    let expected = [
        "package main\n\n",
        "import (\n    \"net/http\"\n    \"strings\"\n)\n\n",
        "func middlewareDirective(r *http.Request, name string) string {\n",
        "    key := \"x-nimesvc-middleware-\" + strings.ReplaceAll(name, \"_\", \"-\")\n",
        "    return strings.ToLower(strings.TrimSpace(r.Header.Get(key)))\n",
        "}\n\n",
        "func logging(next http.Handler) http.Handler {\n",
        "    return http.HandlerFunc(func(w http.ResponseWriter, r *http.Request) {\n",
        "        directive := middlewareDirective(r, \"logging\")\n",
        "        if directive == \"block\" || directive == \"deny\" || directive == \"forbid\" {\n",
        "            http.Error(w, \"blocked by middleware logging\", http.StatusForbidden)\n",
        "            return\n",
        "        }\n",
        "        w.Header().Set(\"x-nimesvc-middleware-logging\", \"ok\")\n",
        "        next.ServeHTTP(w, r)\n",
        "    })\n",
        "}\n\n",
    ]
    .concat();
    assert_eq!(build_middleware_go(&svc), expected);
}

#[test]
fn proto_is_empty_without_rpc() {
    assert_eq!(build_proto(&service("Api")), "");
}

#[test]
fn rust_server_files_list_and_event_handlers() {
    let mut svc = service("UserService");
    let files = rust_server_files(&svc);
    let paths: Vec<&str> = files.iter().map(|f| f.path.as_str()).collect();
    assert_eq!(paths, vec!["Cargo.toml", "src/main.rs", "src/types.rs"]);
    assert!(files[0].content.contains("name = \"user-service-api\""));

    svc.events = EventsSection {
        config: Some(EventsConfig {
            broker: EventsBroker::Redis,
            url: None,
            stream_prefix: None,
            group: None,
            consumer: None,
        }),
        emits: vec![],
        subscribes: vec![],
        definitions: vec![EventDef {
            name: TypeName { name: "UserCreated".to_string(), version: Some(2) },
            payload: Type::String,
        }],
    };
    let files = rust_server_files(&svc);
    let paths: Vec<&str> = files.iter().map(|f| f.path.as_str()).collect();
    assert_eq!(paths, vec!["Cargo.toml", "src/main.rs", "src/types.rs", "src/events.rs"]);
    assert!(files[3].content.contains("static USERCREATEDV2_HANDLERS: "));
    assert!(files[3].content.contains("pub fn on_user_created_v2("));
}

#[test]
fn header_keys_round_trip() {
    for name in [" X_Api-KEY ", "content-type", "X_TRACE_ID", "a"] {
        let runtime = header_runtime_key(name);
        let dsl = header_dsl_key(name);
        assert_eq!(header_dsl_key(&runtime), dsl);
        assert_eq!(header_runtime_key(&dsl), runtime);
        assert_eq!(header_runtime_key(&runtime), runtime);
    }
    assert_eq!(header_runtime_key(" X_Api-KEY "), "x-api-key");
    assert_eq!(header_dsl_key(" X_Api-KEY "), "x_api_key");
}
