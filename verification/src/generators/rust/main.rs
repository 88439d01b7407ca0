//! `main.rs` of the Rust (axum) server: imports, the router with every
//! route and socket, the global layers, and the handlers.

use vstd::prelude::*;

use crate::generators::common::env::{render_env_checks_rust, spec_env_checks, EnvTarget};
use crate::generators::common::validation::{
    route_has_regex, route_has_validation, spec_route_any, FieldTest,
};
use crate::generators::go::util::{
    all_routes_respond, method_lower, needs_remote_calls, primary_response, seen_contains,
    spec_method_lower, spec_needs_remote_calls, spec_primary_response,
};
use crate::generators::rust::routes::{
    render_route_helpers, route_middleware_chain, spec_render_route_helpers,
    spec_route_middleware_chain,
};
use crate::generators::rust::sockets::{
    render_socket_helpers, socket_handler_name, spec_rs_render_socket_helpers,
    spec_socket_handler_name,
};
use crate::generators::rust::util::{
    axum_path, handler_name, needs_types_import, render_method_imports, returns_json,
    spec_axum_path, spec_needs_types_import, spec_render_method_imports, spec_returns_json,
    spec_rs_handler_name,
};
use crate::ir::{spec_code_name, Field, ModuleUse, Route, Service, SocketDef, Type};
use crate::text::{
    concat_all, debug_quoted, debug_str, dec_nat, lemma_concat_all_step, lemma_take_full,
    lemma_views_push, seq_join, u64_to_string, views, join,
};

verus! {

// ---------------------------------------------------------------------------
// What the service needs
// ---------------------------------------------------------------------------

/// The properties of a route that decide the imports of `main.rs`.
pub enum RouteFlag {
    Status,
    Json,
    Middleware,
    Path,
    Query,
    Headers,
    Serde,
    RateLimit,
    Regex,
}

pub open spec fn has_required_header(fs: Seq<Field>) -> bool {
    exists|k: int| 0 <= k < fs.len() && !(#[trigger] fs[k]).optional
}

pub open spec fn route_flag(flag: RouteFlag, route: Route, service: Service) -> bool {
    let resp = spec_primary_response(route.responses@);
    match flag {
        RouteFlag::Status => resp.ty is Void || resp.status != 200 || has_required_header(route.headers@)
            || route.rate_limit is Some || service.common.rate_limit is Some || spec_route_any(
            FieldTest::NeedsValidation,
            route,
        ),
        RouteFlag::Json => spec_returns_json(resp.ty) || route.input.body@.len() > 0,
        RouteFlag::Middleware => route.middleware@.len() > 0 || route.auth is Some,
        RouteFlag::Path => route.input.path@.len() > 0,
        RouteFlag::Query => route.input.query@.len() > 0,
        RouteFlag::Headers => route.headers@.len() > 0 || route.call.service_base is Some,
        RouteFlag::Serde => route.input.path@.len() > 0 || route.input.query@.len() > 0
            || route.input.body@.len() > 0,
        RouteFlag::RateLimit => route.rate_limit is Some || service.common.rate_limit is Some,
        RouteFlag::Regex => spec_route_any(FieldTest::NeedsValidation, route) && spec_route_any(
            FieldTest::HasRegex,
            route,
        ),
    }
}

pub open spec fn any_route_flag(flag: RouteFlag, service: Service) -> bool {
    exists|i: int|
        0 <= i < service.http.routes@.len() && route_flag(flag, #[trigger] service.http.routes@[i], service)
}

fn required_header(fs: &Vec<Field>) -> (r: bool)
    ensures
        r == has_required_header(fs@),
{
    let mut i: usize = 0;
    while i < fs.len()
        invariant
            0 <= i <= fs@.len(),
            forall|j: int| 0 <= j < i ==> (#[trigger] fs@[j]).optional,
        decreases fs@.len() - i,
    {
        if !fs[i].optional {
            return true;
        }
        i += 1;
    }
    false
}

fn route_flag_exec(flag: &RouteFlag, route: &Route, service: &Service) -> (r: bool)
    requires
        route.responses@.len() > 0,
    ensures
        r == route_flag(*flag, *route, *service),
{
    let resp = primary_response(route);
    match flag {
        RouteFlag::Status => {
            let void = match resp.ty {
                Type::Void => true,
                _ => false,
            };
            void || resp.status != 200 || required_header(&route.headers) || route.rate_limit.is_some()
                || service.common.rate_limit.is_some() || route_has_validation(route)
        },
        RouteFlag::Json => returns_json(&resp.ty) || route.input.body.len() > 0,
        RouteFlag::Middleware => route.middleware.len() > 0 || route.auth.is_some(),
        RouteFlag::Path => route.input.path.len() > 0,
        RouteFlag::Query => route.input.query.len() > 0,
        RouteFlag::Headers => route.headers.len() > 0 || route.call.service_base.is_some(),
        RouteFlag::Serde => route.input.path.len() > 0 || route.input.query.len() > 0
            || route.input.body.len() > 0,
        RouteFlag::RateLimit => route.rate_limit.is_some() || service.common.rate_limit.is_some(),
        RouteFlag::Regex => route_has_validation(route) && route_has_regex(route),
    }
}

fn any_route(flag: RouteFlag, service: &Service) -> (r: bool)
    requires
        all_routes_respond(*service),
    ensures
        r == any_route_flag(flag, *service),
{
    let routes = &service.http.routes;
    let mut i: usize = 0;
    while i < routes.len()
        invariant
            0 <= i <= routes@.len(),
            routes@ == service.http.routes@,
            all_routes_respond(*service),
            forall|j: int| 0 <= j < i ==> !route_flag(flag, #[trigger] routes@[j], *service),
        decreases routes@.len() - i,
    {
        assert(routes@[i as int].responses@.len() > 0);
        if route_flag_exec(&flag, &routes[i], service) {
            return true;
        }
        i += 1;
    }
    false
}

pub open spec fn socket_limited(s: SocketDef) -> bool {
    s.rate_limit is Some
}

pub open spec fn any_socket_limited(service: Service) -> bool {
    exists|i: int|
        0 <= i < service.sockets.sockets@.len() && socket_limited(#[trigger] service.sockets.sockets@[i])
}

fn any_socket_rate_limit(service: &Service) -> (r: bool)
    ensures
        r == any_socket_limited(*service),
{
    let v = &service.sockets.sockets;
    let mut i: usize = 0;
    while i < v.len()
        invariant
            0 <= i <= v@.len(),
            v@ == service.sockets.sockets@,
            forall|j: int| 0 <= j < i ==> !socket_limited(#[trigger] v@[j]),
        decreases v@.len() - i,
    {
        if v[i].rate_limit.is_some() {
            assert(socket_limited(v@[i as int]));
            return true;
        }
        i += 1;
    }
    false
}

/// What `main.rs` needs, decided over all routes and sockets.
pub struct MainNeeds {
    pub status: bool,
    pub json: bool,
    pub middleware: bool,
    pub access_log: bool,
    pub path: bool,
    pub query: bool,
    pub headers: bool,
    pub serde: bool,
    pub rate_limit: bool,
    pub regex: bool,
    pub ws: bool,
    pub cors: bool,
    pub cors_allow_origin: bool,
}

pub open spec fn spec_main_needs(service: Service) -> MainNeeds {
    MainNeeds {
        status: any_route_flag(RouteFlag::Status, service),
        json: any_route_flag(RouteFlag::Json, service),
        middleware: any_route_flag(RouteFlag::Middleware, service) || service.common.middleware@.len() > 0,
        access_log: service.http.routes@.len() > 0,
        path: any_route_flag(RouteFlag::Path, service),
        query: any_route_flag(RouteFlag::Query, service),
        headers: any_route_flag(RouteFlag::Headers, service) || service.sockets.sockets@.len() > 0,
        serde: any_route_flag(RouteFlag::Serde, service) || service.schema.types@.len() > 0
            || service.schema.enums@.len() > 0,
        rate_limit: any_route_flag(RouteFlag::RateLimit, service) || (service.sockets.sockets@.len()
            > 0 && any_socket_limited(service)),
        regex: any_route_flag(RouteFlag::Regex, service),
        ws: service.sockets.sockets@.len() > 0,
        cors: service.common.cors is Some,
        cors_allow_origin: match service.common.cors {
            Some(c) => !c.allow_any,
            None => false,
        },
    }
}

pub fn main_needs(service: &Service) -> (r: MainNeeds)
    requires
        all_routes_respond(*service),
    ensures
        r == spec_main_needs(*service),
{
    let sockets = service.sockets.sockets.len() > 0;
    MainNeeds {
        status: any_route(RouteFlag::Status, service),
        json: any_route(RouteFlag::Json, service),
        middleware: any_route(RouteFlag::Middleware, service) || service.common.middleware.len() > 0,
        access_log: service.http.routes.len() > 0,
        path: any_route(RouteFlag::Path, service),
        query: any_route(RouteFlag::Query, service),
        headers: any_route(RouteFlag::Headers, service) || sockets,
        serde: any_route(RouteFlag::Serde, service) || service.schema.types.len() > 0
            || service.schema.enums.len() > 0,
        rate_limit: any_route(RouteFlag::RateLimit, service) || (sockets && any_socket_rate_limit(service)),
        regex: any_route(RouteFlag::Regex, service),
        ws: sockets,
        cors: service.common.cors.is_some(),
        cors_allow_origin: match &service.common.cors {
            Some(c) => !c.allow_any,
            None => false,
        },
    }
}

/// The first import lines: routing, the modules the service's features
/// declare.
pub open spec fn import_lines_a(service: Service) -> Seq<Seq<char>> {
    seq![
        "use axum::{routing::{"@ + spec_render_method_imports(service) + "}, Router, response::IntoResponse};"@,
        "mod types;"@,
    ] + (if service.events.definitions@.len() > 0 {
        seq!["mod events;"@]
    } else {
        Seq::empty()
    }) + (if spec_needs_types_import(service) {
        seq!["#[allow(unused_imports)]\nuse types::*;"@]
    } else {
        Seq::empty()
    }) + (if spec_needs_remote_calls(service) {
        seq!["mod remote_calls;"@, "use remote_calls::*;"@]
    } else {
        Seq::empty()
    })
}

/// The axum items the handlers use.
pub open spec fn import_lines_b(n: MainNeeds) -> Seq<Seq<char>> {
    (if n.status {
        seq!["use axum::http::StatusCode;"@]
    } else {
        Seq::empty()
    }) + (if n.json {
        seq!["use axum::Json;"@]
    } else {
        Seq::empty()
    }) + (if n.middleware || n.access_log {
        seq!["use axum::middleware::from_fn;"@]
    } else {
        Seq::empty()
    }) + (if n.path {
        seq!["use axum::extract::Path;"@]
    } else {
        Seq::empty()
    }) + (if n.query {
        seq!["use axum::extract::Query;"@]
    } else {
        Seq::empty()
    }) + (if n.headers {
        seq!["use axum::http::HeaderMap;"@]
    } else {
        Seq::empty()
    })
}

/// CORS, the middleware plumbing, the environment and serde.
pub open spec fn import_lines_c(service: Service, n: MainNeeds) -> Seq<Seq<char>> {
    (if n.cors {
        seq![
            if n.cors_allow_origin {
                "use tower_http::cors::{CorsLayer, Any, AllowOrigin, AllowMethods, AllowHeaders};"@
            } else {
                "use tower_http::cors::{CorsLayer, Any, AllowMethods, AllowHeaders};"@
            },
            "use axum::http::{HeaderName, HeaderValue, Method};"@,
        ]
    } else {
        Seq::empty()
    }) + (if n.rate_limit {
        seq![
            "use axum::{body::Body, http::Request, middleware::Next, response::Response};"@,
            "use std::sync::{Mutex, OnceLock};"@,
            "use std::time::{Duration, Instant};"@,
        ]
    } else if n.access_log {
        seq![
            "use axum::{body::Body, http::Request, middleware::Next, response::Response};"@,
            "use std::time::Instant;"@,
        ]
    } else {
        Seq::empty()
    }) + (if service.common.env@.len() > 0 {
        seq!["use std::env;"@]
    } else {
        Seq::empty()
    }) + (if n.serde {
        seq!["use serde::Deserialize;"@]
    } else {
        Seq::empty()
    })
}

/// What sockets and regex checks need.
pub open spec fn import_lines_d(n: MainNeeds) -> Seq<Seq<char>> {
    (if n.ws {
        seq![
            "use axum::extract::ws::{WebSocketUpgrade, WebSocket, Message};"@,
            "use futures_util::{StreamExt, SinkExt};"@,
            "use tokio::sync::mpsc;"@,
            "use std::collections::HashMap;"@,
            "use std::sync::Arc;"@,
            "use std::sync::atomic::{AtomicU64, Ordering};"@,
        ] + (if !n.rate_limit {
            seq!["use std::sync::Mutex;"@, "use std::sync::OnceLock;"@]
        } else {
            Seq::empty()
        }) + (if !n.serde {
            seq!["use serde::Deserialize;"@]
        } else {
            Seq::empty()
        }) + seq!["use serde::Serialize;"@, "use serde_json::{Value, json};"@]
    } else {
        Seq::empty()
    }) + (if n.regex {
        seq!["use regex::Regex;"@]
    } else {
        Seq::empty()
    })
}

/// The lines of imports and module declarations, in order.
pub open spec fn spec_import_lines(service: Service) -> Seq<Seq<char>> {
    let n = spec_main_needs(service);
    import_lines_a(service) + import_lines_b(n) + import_lines_c(service, n) + import_lines_d(n)
}

fn push_line(v: &mut Vec<String>, s: &str)
    ensures
        views(final(v)@) == views(old(v)@).push(s@),
{
    let x = String::from_str(s);
    proof {
        lemma_views_push(v@, x);
    }
    v.push(x);
}

fn push_lines_a(v: &mut Vec<String>, service: &Service)
    ensures
        views(final(v)@) == views(old(v)@) + import_lines_a(*service),
{
    let ghost o = views(v@);
    let mi = render_method_imports(service);
    let mut first = String::from_str("use axum::{routing::{");
    first.append(mi.as_str());
    first.append("}, Router, response::IntoResponse};");
    proof {
        lemma_views_push(v@, first);
    }
    v.push(first);
    push_line(v, "mod types;");
    if service.events.definitions.len() > 0 {
        push_line(v, "mod events;");
    }
    if needs_types_import(service) {
        push_line(v, "#[allow(unused_imports)]\nuse types::*;");
    }
    if needs_remote_calls(service) {
        push_line(v, "mod remote_calls;");
        push_line(v, "use remote_calls::*;");
    }
    assert(views(v@) =~= o + import_lines_a(*service));
}

fn push_lines_b(v: &mut Vec<String>, n: &MainNeeds)
    ensures
        views(final(v)@) == views(old(v)@) + import_lines_b(*n),
{
    let ghost o = views(v@);
    if n.status {
        push_line(v, "use axum::http::StatusCode;");
    }
    if n.json {
        push_line(v, "use axum::Json;");
    }
    if n.middleware || n.access_log {
        push_line(v, "use axum::middleware::from_fn;");
    }
    if n.path {
        push_line(v, "use axum::extract::Path;");
    }
    if n.query {
        push_line(v, "use axum::extract::Query;");
    }
    if n.headers {
        push_line(v, "use axum::http::HeaderMap;");
    }
    assert(views(v@) =~= o + import_lines_b(*n));
}

fn push_lines_c(v: &mut Vec<String>, service: &Service, n: &MainNeeds)
    ensures
        views(final(v)@) == views(old(v)@) + import_lines_c(*service, *n),
{
    let ghost o = views(v@);
    if n.cors {
        if n.cors_allow_origin {
            push_line(v, "use tower_http::cors::{CorsLayer, Any, AllowOrigin, AllowMethods, AllowHeaders};");
        } else {
            push_line(v, "use tower_http::cors::{CorsLayer, Any, AllowMethods, AllowHeaders};");
        }
        push_line(v, "use axum::http::{HeaderName, HeaderValue, Method};");
    }
    if n.rate_limit {
        push_line(v, "use axum::{body::Body, http::Request, middleware::Next, response::Response};");
        push_line(v, "use std::sync::{Mutex, OnceLock};");
        push_line(v, "use std::time::{Duration, Instant};");
    } else if n.access_log {
        push_line(v, "use axum::{body::Body, http::Request, middleware::Next, response::Response};");
        push_line(v, "use std::time::Instant;");
    }
    if service.common.env.len() > 0 {
        push_line(v, "use std::env;");
    }
    if n.serde {
        push_line(v, "use serde::Deserialize;");
    }
    assert(views(v@) =~= o + import_lines_c(*service, *n));
}

fn push_lines_d(v: &mut Vec<String>, n: &MainNeeds)
    ensures
        views(final(v)@) == views(old(v)@) + import_lines_d(*n),
{
    let ghost o = views(v@);
    if n.ws {
        push_line(v, "use axum::extract::ws::{WebSocketUpgrade, WebSocket, Message};");
        push_line(v, "use futures_util::{StreamExt, SinkExt};");
        push_line(v, "use tokio::sync::mpsc;");
        push_line(v, "use std::collections::HashMap;");
        push_line(v, "use std::sync::Arc;");
        push_line(v, "use std::sync::atomic::{AtomicU64, Ordering};");
        if !n.rate_limit {
            push_line(v, "use std::sync::Mutex;");
            push_line(v, "use std::sync::OnceLock;");
        }
        if !n.serde {
            push_line(v, "use serde::Deserialize;");
        }
        push_line(v, "use serde::Serialize;");
        push_line(v, "use serde_json::{Value, json};");
    }
    if n.regex {
        push_line(v, "use regex::Regex;");
    }
    assert(views(v@) =~= o + import_lines_d(*n));
}

fn import_lines(service: &Service, n: &MainNeeds) -> (r: Vec<String>)
    requires
        *n == spec_main_needs(*service),
    ensures
        views(r@) == spec_import_lines(*service),
{
    let mut v: Vec<String> = Vec::new();
    assert(views(v@) =~= Seq::<Seq<char>>::empty());
    push_lines_a(&mut v, service);
    push_lines_b(&mut v, n);
    push_lines_c(&mut v, service, n);
    push_lines_d(&mut v, n);
    assert(views(v@) =~= spec_import_lines(*service));
    v
}

// ---------------------------------------------------------------------------
// Helpers of main.rs
// ---------------------------------------------------------------------------

/// The access-log middleware, when the service has routes.
pub open spec fn spec_render_access_log_helper(service: Service) -> Seq<char> {
    if service.http.routes@.len() == 0 {
        Seq::empty()
    } else {
        "\nasync fn access_log(req: Request<Body>, next: Next) -> Response {\n    let method = req.method().clone();\n    let path = req\n        .uri()\n        .path_and_query()\n        .map(|value| value.as_str().to_string())\n        .unwrap_or_else(|| req.uri().path().to_string());\n    let started = Instant::now();\n    let response = next.run(req).await;\n    let status = response.status().as_u16();\n    let elapsed = started.elapsed().as_millis();\n    eprintln!(\"["@ + service.name@ + "] {} {} -> {} ({}ms)\", method, path, status, elapsed);\n    response\n}\n"@
    }
}

pub fn render_access_log_helper(service: &Service) -> (r: String)
    ensures
        r@ == spec_render_access_log_helper(*service),
{
    if service.http.routes.len() == 0 {
        return String::new();
    }
    let mut s = String::from_str("\nasync fn access_log(req: Request<Body>, next: Next) -> Response {\n    let method = req.method().clone();\n    let path = req\n        .uri()\n        .path_and_query()\n        .map(|value| value.as_str().to_string())\n        .unwrap_or_else(|| req.uri().path().to_string());\n    let started = Instant::now();\n    let response = next.run(req).await;\n    let status = response.status().as_u16();\n    let elapsed = started.elapsed().as_millis();\n    eprintln!(\"[");
    s.append(service.name.as_str());
    s.append("] {} {} -> {} ({}ms)\", method, path, status, elapsed);\n    response\n}\n");
    s
}

/// The CORS list builders, when the service configures CORS.
pub open spec fn spec_render_cors_helpers(service: Service) -> Seq<char> {
    if service.common.cors is None {
        Seq::empty()
    } else {
        "\nfn cors_methods(values: &[&str]) -> Vec<Method> {\n    values\n        .iter()\n        .filter_map(|value| Method::from_bytes(value.as_bytes()).ok())\n        .collect()\n}\n\nfn cors_headers(values: &[&str]) -> Vec<HeaderName> {\n    values\n        .iter()\n        .filter_map(|value| HeaderName::from_bytes(value.as_bytes()).ok())\n        .collect()\n}\n\nfn cors_origins(values: &[&str]) -> Vec<HeaderValue> {\n    values\n        .iter()\n        .filter_map(|value| HeaderValue::from_str(value).ok())\n        .collect()\n}\n"@
    }
}

pub fn render_cors_helpers(service: &Service) -> (r: String)
    ensures
        r@ == spec_render_cors_helpers(*service),
{
    if service.common.cors.is_none() {
        return String::new();
    }
    String::from_str("\nfn cors_methods(values: &[&str]) -> Vec<Method> {\n    values\n        .iter()\n        .filter_map(|value| Method::from_bytes(value.as_bytes()).ok())\n        .collect()\n}\n\nfn cors_headers(values: &[&str]) -> Vec<HeaderName> {\n    values\n        .iter()\n        .filter_map(|value| HeaderName::from_bytes(value.as_bytes()).ok())\n        .collect()\n}\n\nfn cors_origins(values: &[&str]) -> Vec<HeaderValue> {\n    values\n        .iter()\n        .filter_map(|value| HeaderValue::from_str(value).ok())\n        .collect()\n}\n")
}

pub open spec fn quoted_views(values: Seq<String>) -> Seq<Seq<char>> {
    values.map_values(|v: String| debug_str(v@))
}

/// Values as Rust string literals joined by `, `.
pub open spec fn spec_render_cors_str_list(values: Seq<String>) -> Seq<char> {
    seq_join(quoted_views(values), ", "@)
}

pub fn render_cors_str_list(values: &Vec<String>) -> (r: String)
    ensures
        r@ == spec_render_cors_str_list(values@),
{
    let mut parts: Vec<String> = Vec::new();
    let mut i: usize = 0;
    while i < values.len()
        invariant
            0 <= i <= values@.len(),
            views(parts@) == quoted_views(values@.take(i as int)),
        decreases values@.len() - i,
    {
        let q = debug_quoted(values[i].as_str());
        proof {
            lemma_views_push(parts@, q);
        }
        parts.push(q);
        i += 1;
        assert(views(parts@) =~= quoted_views(values@.take(i as int)));
    }
    proof {
        lemma_take_full(values@);
    }
    join(&parts, ", ")
}

/// `Any`, or the listed values through their list builder.
pub open spec fn spec_cors_list_expr(values: Seq<String>, kind: Seq<char>, builder: Seq<char>) -> Seq<char> {
    if values.len() == 0 {
        "Any"@
    } else {
        kind + "::list("@ + builder + "(&["@ + spec_render_cors_str_list(values) + "]))"@
    }
}

fn cors_list_expr(values: &Vec<String>, kind: &str, builder: &str) -> (r: String)
    ensures
        r@ == spec_cors_list_expr(values@, kind@, builder@),
{
    if values.len() == 0 {
        return String::from_str("Any");
    }
    let l = render_cors_str_list(values);
    let mut s = String::from_str(kind);
    s.append("::list(");
    s.append(builder);
    s.append("(&[");
    s.append(l.as_str());
    s.append("]))");
    s
}

pub open spec fn global_layer_fn() -> spec_fn(String) -> Seq<char> {
    |n: String| "        .layer(from_fn("@ + n@ + "))\n"@
}

/// The layers around the whole router: CORS, the service's middleware,
/// then the access log when there are routes.
pub open spec fn spec_global_middleware_layers(service: Service) -> Seq<char> {
    (match service.common.cors {
        Some(c) => {
            let methods = spec_cors_list_expr(c.methods@, "AllowMethods"@, "cors_methods"@);
            let headers = spec_cors_list_expr(c.headers@, "AllowHeaders"@, "cors_headers"@);
            if c.allow_any {
                "        .layer(CorsLayer::new().allow_origin(Any).allow_methods("@ + methods
                    + ").allow_headers("@ + headers + "))\n"@
            } else {
                "        .layer(CorsLayer::new().allow_origin(AllowOrigin::list(cors_origins(&["@
                    + spec_render_cors_str_list(c.origins@) + "]))).allow_methods("@ + methods
                    + ").allow_headers("@ + headers + "))\n"@
            }
        },
        None => Seq::empty(),
    }) + concat_all(service.common.middleware@, global_layer_fn()) + if service.http.routes@.len()
        > 0 {
        "        .layer(from_fn(access_log))\n"@
    } else {
        Seq::empty()
    }
}

pub fn global_middleware_layers(service: &Service) -> (r: String)
    ensures
        r@ == spec_global_middleware_layers(*service),
{
    let mut out = String::new();
    match &service.common.cors {
        Some(c) => {
            let methods = cors_list_expr(&c.methods, "AllowMethods", "cors_methods");
            let headers = cors_list_expr(&c.headers, "AllowHeaders", "cors_headers");
            if c.allow_any {
                out.append("        .layer(CorsLayer::new().allow_origin(Any).allow_methods(");
                out.append(methods.as_str());
                out.append(").allow_headers(");
                out.append(headers.as_str());
                out.append("))\n");
            } else {
                let origins = render_cors_str_list(&c.origins);
                out.append("        .layer(CorsLayer::new().allow_origin(AllowOrigin::list(cors_origins(&[");
                out.append(origins.as_str());
                out.append("]))).allow_methods(");
                out.append(methods.as_str());
                out.append(").allow_headers(");
                out.append(headers.as_str());
                out.append("))\n");
            }
        },
        None => {},
    }
    let ghost head = out@;
    let v = &service.common.middleware;
    let mut i: usize = 0;
    while i < v.len()
        invariant
            0 <= i <= v@.len(),
            v@ == service.common.middleware@,
            out@ == head + concat_all(v@.take(i as int), global_layer_fn()),
        decreases v@.len() - i,
    {
        proof {
            lemma_concat_all_step(v@, i as int, global_layer_fn());
        }
        out.append("        .layer(from_fn(");
        out.append(v[i].as_str());
        out.append("))\n");
        i += 1;
    }
    proof {
        lemma_take_full(v@);
    }
    if service.http.routes.len() > 0 {
        out.append("        .layer(from_fn(access_log))\n");
    }
    assert(out@ =~= spec_global_middleware_layers(*service));
    out
}

// ---------------------------------------------------------------------------
// Module declarations
// ---------------------------------------------------------------------------

pub open spec fn local_name(m: ModuleUse) -> Seq<char> {
    match m.alias {
        Some(a) => a@,
        None => m.name@,
    }
}

pub open spec fn decl_key(m: ModuleUse) -> Seq<char> {
    local_name(m) + "|"@ + m.name@ + "|"@ + match m.path {
        Some(p) => p@,
        None => Seq::empty(),
    }
}

/// A module with a path is included from its file; another is a crate
/// used under its local name.
pub open spec fn decl_text(m: ModuleUse) -> Seq<char> {
    match m.path {
        Some(p) => "mod "@ + local_name(m)
            + " {\n    #![allow(dead_code, unused_imports)]\n    use crate::*;\n    use crate::types::*;\n    include!(\""@
            + p@ + "\");\n}\n"@,
        None => "#[allow(unused_imports)]\nuse "@ + m.name@ + " as "@ + local_name(m) + ";\n"@,
    }
}

/// The declarations so far and the keys already declared; a module equal
/// to an earlier one (same local name, name and path) is skipped.
pub open spec fn decls_state(mods: Seq<ModuleUse>) -> (Seq<char>, Seq<Seq<char>>)
    decreases mods.len(),
{
    if mods.len() == 0 {
        (Seq::empty(), Seq::empty())
    } else {
        let (o, seen) = decls_state(mods.drop_last());
        let m = mods.last();
        if seen.contains(decl_key(m)) {
            (o, seen)
        } else {
            (o + decl_text(m) + "\n"@, seen.push(decl_key(m)))
        }
    }
}

pub open spec fn spec_render_module_decls(service: Service) -> Seq<char> {
    decls_state(service.common.modules@).0
}

pub fn render_module_decls(service: &Service) -> (r: String)
    ensures
        r@ == spec_render_module_decls(*service),
{
    let mods = &service.common.modules;
    let mut out = String::new();
    let mut seen: Vec<String> = Vec::new();
    let mut i: usize = 0;
    while i < mods.len()
        invariant
            0 <= i <= mods@.len(),
            mods@ == service.common.modules@,
            (out@, views(seen@)) == decls_state(mods@.take(i as int)),
        decreases mods@.len() - i,
    {
        proof {
            assert(mods@.take(i + 1).drop_last() =~= mods@.take(i as int));
        }
        let m = &mods[i];
        let local = m.key();
        let mut key = String::from_str(local.as_str());
        key.append("|");
        key.append(m.name.as_str());
        key.append("|");
        match &m.path {
            Some(p) => key.append(p.as_str()),
            None => {},
        }
        assert(key@ == decl_key(*m));
        if !seen_contains(&seen, key.as_str()) {
            match &m.path {
                Some(p) => {
                    out.append("mod ");
                    out.append(local.as_str());
                    out.append(" {\n    #![allow(dead_code, unused_imports)]\n    use crate::*;\n    use crate::types::*;\n    include!(\"");
                    out.append(p.as_str());
                    out.append("\");\n}\n");
                },
                None => {
                    out.append("#[allow(unused_imports)]\nuse ");
                    out.append(m.name.as_str());
                    out.append(" as ");
                    out.append(local.as_str());
                    out.append(";\n");
                },
            }
            out.append("\n");
            proof {
                lemma_views_push(seen@, key);
            }
            seen.push(key);
        }
        i += 1;
    }
    proof {
        lemma_take_full(mods@);
    }
    out
}

// ---------------------------------------------------------------------------
// The router
// ---------------------------------------------------------------------------

pub open spec fn route_line_fn(service: Service) -> spec_fn(Route) -> Seq<char> {
    |r: Route| "        .route(\""@ + spec_axum_path(r.path@) + "\", "@ + spec_method_lower(r.method) + "("@
        + spec_rs_handler_name(r) + ")"@ + spec_route_middleware_chain(r, service) + ")\n"@
}

pub open spec fn socket_line_fn() -> spec_fn(SocketDef) -> Seq<char> {
    |s: SocketDef| "        .route(\""@ + spec_axum_path(s.path@) + "\", get("@ + spec_socket_handler_name(
        spec_code_name(s.name),
    ) + "))\n"@
}

/// One `.route(..)` per route, with its layers, then one per socket.
pub open spec fn spec_routes_block(service: Service) -> Seq<char> {
    concat_all(service.http.routes@, route_line_fn(service)) + concat_all(
        service.sockets.sockets@,
        socket_line_fn(),
    )
}

fn routes_block(service: &Service) -> (r: String)
    ensures
        r@ == spec_routes_block(*service),
{
    let routes = &service.http.routes;
    let mut out = String::new();
    let mut i: usize = 0;
    while i < routes.len()
        invariant
            0 <= i <= routes@.len(),
            routes@ == service.http.routes@,
            out@ == concat_all(routes@.take(i as int), route_line_fn(*service)),
        decreases routes@.len() - i,
    {
        proof {
            lemma_concat_all_step(routes@, i as int, route_line_fn(*service));
        }
        let route = &routes[i];
        let p = axum_path(route.path.as_str());
        let h = handler_name(route);
        let chain = route_middleware_chain(route, service);
        out.append("        .route(\"");
        out.append(p.as_str());
        out.append("\", ");
        out.append(method_lower(&route.method));
        out.append("(");
        out.append(h.as_str());
        out.append(")");
        out.append(chain.as_str());
        out.append(")\n");
        i += 1;
    }
    proof {
        lemma_take_full(routes@);
    }
    let ghost head = out@;
    let sockets = &service.sockets.sockets;
    let mut k: usize = 0;
    while k < sockets.len()
        invariant
            0 <= k <= sockets@.len(),
            sockets@ == service.sockets.sockets@,
            out@ == head + concat_all(sockets@.take(k as int), socket_line_fn()),
        decreases sockets@.len() - k,
    {
        proof {
            lemma_concat_all_step(sockets@, k as int, socket_line_fn());
        }
        let s = &sockets[k];
        let p = axum_path(s.path.as_str());
        let code = s.name.code_name();
        let h = socket_handler_name(code.as_str());
        out.append("        .route(\"");
        out.append(p.as_str());
        out.append("\", get(");
        out.append(h.as_str());
        out.append("))\n");
        k += 1;
    }
    proof {
        lemma_take_full(sockets@);
    }
    out
}

/// The declarations and code after `main`: modules, the middleware module
/// when some middleware is used, the route helpers, the socket helpers.
pub open spec fn spec_main_handlers(service: Service) -> Seq<char> {
    let n = spec_main_needs(service);
    spec_render_module_decls(service) + (if n.middleware {
        "mod middleware;\nuse middleware::*;\n"@
    } else {
        Seq::empty()
    }) + "\n"@ + spec_render_route_helpers(service) + if n.ws {
        spec_rs_render_socket_helpers(service)
    } else {
        Seq::empty()
    }
}

pub open spec fn spec_event_consumers(service: Service) -> Seq<char> {
    if service.events.config is Some && service.events.subscribes@.len() > 0 {
        "    events::start_event_consumers().await;\n"@
    } else {
        Seq::empty()
    }
}

/// The text of `main.rs` around its parts.
#[verifier::opaque]
pub open spec fn rs_main_template(imports: Seq<char>, cors_helpers: Seq<char>, access_log_helper: Seq<char>, env_checks: Seq<char>, event_consumers: Seq<char>, routes_block: Seq<char>, global_layers: Seq<char>, address: Seq<char>, port: Seq<char>, handlers: Seq<char>) -> Seq<char> {
    imports + "\n\n"@ + cors_helpers + "\n"@ + access_log_helper + "\n\n#[tokio::main]\nasync fn main() {\n"@ + env_checks + "\n"@ + event_consumers + "\n    let app = Router::new()\n"@ + routes_block + global_layers + "        ;\n\n    let addr = \""@ + address + ":"@ + port + "\";\n    let listener = match tokio::net::TcpListener::bind(addr).await {\n        Ok(listener) => listener,\n        Err(err) => {\n            eprintln!(\"Failed to bind to {}: {}\", addr, err);\n            return;\n        }\n    };\n    if let Err(err) = axum::serve(listener, app).await {\n        eprintln!(\"Server error: {}\", err);\n    }\n}\n\n"@ + handlers + "\n"@
}

/// `main.rs` of the Rust server.
pub open spec fn spec_build_main_rs(service: Service) -> Seq<char> {
    rs_main_template(
        seq_join(spec_import_lines(service), "\n"@),
        spec_render_cors_helpers(service),
        spec_render_access_log_helper(service),
        spec_env_checks(EnvTarget::Rust, service.common.env@),
        spec_event_consumers(service),
        spec_routes_block(service),
        spec_global_middleware_layers(service),
        match service.common.address {
            Some(a) => a@,
            None => "127.0.0.1"@,
        },
        match service.common.port {
            Some(p) => dec_nat(p as nat),
            None => "3000"@,
        },
        spec_main_handlers(service),
    )
}

pub fn build_main_rs(service: &Service) -> (r: String)
    requires
        all_routes_respond(*service),
    ensures
        r@ == spec_build_main_rs(*service),
{
    let n = main_needs(service);
    let lines = import_lines(service, &n);
    let imports = join(&lines, "\n");
    let routes_block = routes_block(service);
    let mut handlers = render_module_decls(service);
    if n.middleware {
        handlers.append("mod middleware;\nuse middleware::*;\n");
    }
    handlers.append("\n");
    let rh = render_route_helpers(service);
    handlers.append(rh.as_str());
    if n.ws {
        let sh = render_socket_helpers(service);
        handlers.append(sh.as_str());
    }
    assert(handlers@ =~= spec_main_handlers(*service));
    let address = match &service.common.address {
        Some(a) => a.clone(),
        None => String::from_str("127.0.0.1"),
    };
    let port = match service.common.port {
        Some(p) => u64_to_string(p as u64),
        None => {
            proof {
                reveal_strlit("3000");
            }
            String::from_str("3000")
        },
    };
    let env_checks = render_env_checks_rust(service);
    let cors_helpers = render_cors_helpers(service);
    let access_log_helper = render_access_log_helper(service);
    let event_consumers = if service.events.config.is_some() && service.events.subscribes.len() > 0 {
        String::from_str("    events::start_event_consumers().await;\n")
    } else {
        String::new()
    };
    let global_layers = global_middleware_layers(service);
    let mut s = String::from_str(imports.as_str());
    s.append("\n\n");
    s.append(cors_helpers.as_str());
    s.append("\n");
    s.append(access_log_helper.as_str());
    s.append("\n\n#[tokio::main]\nasync fn main() {\n");
    s.append(env_checks.as_str());
    s.append("\n");
    s.append(event_consumers.as_str());
    s.append("\n    let app = Router::new()\n");
    s.append(routes_block.as_str());
    s.append(global_layers.as_str());
    s.append("        ;\n\n    let addr = \"");
    s.append(address.as_str());
    s.append(":");
    s.append(port.as_str());
    s.append("\";\n    let listener = match tokio::net::TcpListener::bind(addr).await {\n        Ok(listener) => listener,\n        Err(err) => {\n            eprintln!(\"Failed to bind to {}: {}\", addr, err);\n            return;\n        }\n    };\n    if let Err(err) = axum::serve(listener, app).await {\n        eprintln!(\"Server error: {}\", err);\n    }\n}\n\n");
    s.append(handlers.as_str());
    s.append("\n");
    proof {
        reveal(rs_main_template);
    }
    s
}

} // verus!
