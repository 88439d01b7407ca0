use nimesvc::format::format_project;
use nimesvc::ir::{
    AuthSpec, CallArg, CallSpec, EnvVar, EventsSection, Field, HttpMethod, HttpSection, Input, InputRef,
    InputSource, ModuleUse, Project, ProjectCommon, RateLimit, ResponseSpec, Route, RpcSection, Schema, Service,
    ServiceCommon, SocketsSection, Type, TypeName, UseScope, Validation,
};

fn call(module: &str, function: &str, args: Vec<CallArg>) -> CallSpec {
    CallSpec {
        service: None,
        service_base: None,
        module: module.to_string(),
        function: function.to_string(),
        args,
        is_async: false,
    }
}

fn route(method: HttpMethod, path: &str, body: Vec<Field>, responses: Vec<ResponseSpec>, call: CallSpec) -> Route {
    Route {
        method,
        path: path.to_string(),
        input: Input { path: vec![], query: vec![], body },
        headers: vec![],
        responses,
        auth: None,
        middleware: vec![],
        rate_limit: None,
        healthcheck: false,
        call,
        internal: false,
    }
}

fn no_validation() -> Validation {
    Validation {
        min: None,
        max: None,
        min_len: None,
        max_len: None,
        min_items: None,
        max_items: None,
        regex: None,
        format: None,
        constraints: vec![],
    }
}

fn readme_project() -> Project {
    let user = || Type::Named(TypeName { name: "User".to_string(), version: None });
    let service = Service {
        name: "API".to_string(),
        language: None,
        common: ServiceCommon {
            address: None,
            port: None,
            base_url: None,
            cors: None,
            modules: vec![],
            env: vec![EnvVar { name: "DATABASE_URL".to_string(), default: None }],
            auth: None,
            middleware: vec![],
            rate_limit: None,
        },
        http: HttpSection {
            headers: vec![],
            routes: vec![
                route(
                    HttpMethod::Get,
                    "/hello",
                    vec![],
                    vec![ResponseSpec { status: 200, ty: Type::String }],
                    call("core", "hello", vec![]),
                ),
                route(
                    HttpMethod::Post,
                    "/users",
                    vec![Field { name: "user".to_string(), ty: user(), optional: false, validation: None }],
                    vec![ResponseSpec { status: 201, ty: user() }],
                    call(
                        "core",
                        "create_user",
                        vec![CallArg {
                            name: None,
                            value: InputRef { source: InputSource::Body, path: vec!["user".to_string()] },
                        }],
                    ),
                ),
            ],
        },
        rpc: RpcSection { grpc_config: None, methods: vec![] },
        events: EventsSection { config: None, emits: vec![], subscribes: vec![], definitions: vec![] },
        schema: Schema { types: vec![], enums: vec![] },
        sockets: SocketsSection { sockets: vec![] },
    };
    Project {
        common: ProjectCommon {
            default_version: None,
            output: Some("./server".to_string()),
            auth: Some(AuthSpec::Bearer),
            middleware: vec!["logging".to_string()],
            modules: vec![ModuleUse {
                name: "core".to_string(),
                path: Some("./modules/core.rs".to_string()),
                version: None,
                alias: None,
                scope: UseScope::Both,
            }],
        },
        services: vec![service],
    }
}

#[test]
fn formats_the_readme_example() {
    let expected = [
        "output \"./server\"\n\n",
        "auth bearer\n",
        "middleware logging\n",
        "\n",
        "use core \"./modules/core.rs\"\n",
        "\n",
        "service API:\n",
        "    env DATABASE_URL\n",
        "\n    GET \"/hello\":\n",
        "        response string\n",
        "        call core.hello\n",
        "\n    POST \"/users\":\n",
        "        input:\n",
        "            body:\n",
        "                user: User\n",
        "        response 201 User\n",
        "        call core.create_user(body.user)\n",
    ]
    .concat();
    assert_eq!(format_project(&readme_project()), expected);
}

#[test]
fn formats_types_validation_and_limits() {
    let mut project = readme_project();
    project.common = ProjectCommon { default_version: Some(2), output: None, auth: None, middleware: vec![], modules: vec![] };
    let svc = &mut project.services[0];
    svc.common.env = vec![EnvVar { name: "PORT".to_string(), default: Some("3000".to_string()) }];
    svc.common.rate_limit = Some(RateLimit { max: 10, per_seconds: 60 });
    let mut v = no_validation();
    v.min = Some(1);
    v.regex = Some("^a".to_string());
    svc.http.routes = vec![route(
        HttpMethod::Delete,
        "/items",
        vec![Field {
            name: "meta".to_string(),
            ty: Type::MapOf(Box::new(Type::Nullable(Box::new(Type::Int)))),
            optional: true,
            validation: Some(v),
        }],
        vec![ResponseSpec { status: 204, ty: Type::Void }, ResponseSpec { status: 200, ty: Type::Any }],
        CallSpec { is_async: true, ..call("core", "drop", vec![]) },
    )];
    let expected = [
        "version 2\n\n",
        "service API:\n",
        "    env PORT=\"3000\"\n",
        "    rate_limit 10/min\n",
        "\n    DELETE \"/items\":\n",
        "        input:\n",
        "            body:\n",
        "                meta?: map<nullable<int>>(min=1, regex=\"^a\")\n",
        "        responses:\n",
        "            204\n",
        "            any\n",
        "        call async core.drop\n",
    ]
    .concat();
    assert_eq!(format_project(&project), expected);
}
