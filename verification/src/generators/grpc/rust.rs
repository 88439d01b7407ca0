//! The gRPC server in Rust (tonic): `Cargo.toml`, `build.rs`,
//! `src/types.rs`, `src/main.rs` with one method per RPC, and the
//! middleware.

use vstd::prelude::*;

use crate::generators::go::middleware::{name_set, names_to_set};
use crate::generators::go::util::seen_contains;
use crate::generators::grpc::go::{
    any_rpc_flag, effective_rate_limit, grpc_addr_port, grpc_middleware_list,
    grpc_middleware_names, lemma_concat_all_add, spec_grpc_addr_port, spec_rpc_rate_limit, RpcFlag,
};
use crate::generators::grpc::ts::{any_rpc_headers, spec_ts_input_ref, render_input_ref};
use crate::generators::rpc::spec_rpc_code_name;
use crate::generators::rust::main::{decl_key, local_name};
use crate::generators::rust::util::{spec_to_snake_case, to_snake_case};
use crate::ir::{
    effective_auth, spec_code_name, spec_effective_auth, AuthSpec, CallArg, EnumDef, Field,
    ModuleUse, RpcDef, Service, SocketDef, SocketMessage, Type, TypeDef,
};
use crate::sorted::strings_view;
use crate::text::{
    concat_all, debug_quoted, debug_str, dec_nat, join, lemma_concat_all_step, lemma_take_full,
    lemma_views_push, seq_join, to_lowercase, to_uppercase, u64_to_string, unicode_lowercase,
    unicode_uppercase, views,
};

verus! {

// ---------------------------------------------------------------------------
// Cargo.toml and build.rs
// ---------------------------------------------------------------------------

/// `Cargo.toml` of the gRPC crate; `once_cell` with events, `redis` with
/// a Redis broker.
pub open spec fn spec_grpc_cargo_toml(service: Service, crate_name: Seq<char>) -> Seq<char> {
    let extra = (if service.events.definitions@.len() > 0 {
        "once_cell = \"1.19\"\n"@
    } else {
        Seq::empty()
    }) + (if service.events.config is Some {
        "redis = { version = \"0.25\", features = [\"tokio-comp\"] }\n"@
    } else {
        Seq::empty()
    });
    "[package]\nname = \""@ + crate_name + "\"\nversion = \"0.1.0\"\nedition = \"2021\"\n\n[dependencies]\ntokio = { version = \"1\", features = [\"full\"] }\ntonic = \"0.11\"\nprost = \"0.12\"\nserde = { version = \"1\", features = [\"derive\"] }\nserde_json = \"1.0\"\n"@ + extra + "\n\n[build-dependencies]\ntonic-build = \"0.11\"\n"@
}

pub fn build_cargo_toml(service: &Service, crate_name: &str) -> (r: String)
    ensures
        r@ == spec_grpc_cargo_toml(*service, crate_name@),
{
    let mut extra = String::new();
    if service.events.definitions.len() > 0 {
        extra.append("once_cell = \"1.19\"\n");
    }
    if service.events.config.is_some() {
        extra.append("redis = { version = \"0.25\", features = [\"tokio-comp\"] }\n");
    }
    let mut s = String::from_str("[package]\nname = \"");
    s.append(crate_name);
    s.append("\"\nversion = \"0.1.0\"\nedition = \"2021\"\n\n[dependencies]\ntokio = { version = \"1\", features = [\"full\"] }\ntonic = \"0.11\"\nprost = \"0.12\"\nserde = { version = \"1\", features = [\"derive\"] }\nserde_json = \"1.0\"\n");
    s.append(extra.as_str());
    s.append("\n\n[build-dependencies]\ntonic-build = \"0.11\"\n");
    s
}

/// `build.rs` compiling the proto file.
pub open spec fn grpc_build_rs() -> Seq<char> {
    "\nfn main() {\n    tonic_build::configure()\n        .build_server(true)\n        .compile(&[\"rpc.proto\"], &[\".\"])\n        .unwrap();\n}\n"@
}

pub fn render_build_rs() -> (r: String)
    ensures
        r@ == grpc_build_rs(),
{
    String::from_str("\nfn main() {\n    tonic_build::configure()\n        .build_server(true)\n        .compile(&[\"rpc.proto\"], &[\".\"])\n        .unwrap();\n}\n")
}

// ---------------------------------------------------------------------------
// Types
// ---------------------------------------------------------------------------

/// The Rust type of a header value; structured values are JSON.
pub open spec fn spec_grpc_rust_type(ty: Type) -> Seq<char>
    decreases ty,
{
    match ty {
        Type::String => "String"@,
        Type::Int => "i64"@,
        Type::Float => "f64"@,
        Type::Bool => "bool"@,
        Type::Array(inner) => "Vec<"@ + spec_grpc_rust_type(*inner) + ">"@,
        Type::Void => "()"@,
        Type::Named(n) => spec_code_name(n),
        _ => "serde_json::Value"@,
    }
}

pub fn rust_type(ty: &Type) -> (r: String)
    ensures
        r@ == spec_grpc_rust_type(*ty),
    decreases ty,
{
    match ty {
        Type::String => String::from_str("String"),
        Type::Int => String::from_str("i64"),
        Type::Float => String::from_str("f64"),
        Type::Bool => String::from_str("bool"),
        Type::Array(inner) => {
            let mut s = String::from_str("Vec<");
            let t = rust_type(inner);
            s.append(t.as_str());
            s.append(">");
            s
        },
        Type::Void => String::from_str("()"),
        Type::Named(n) => n.code_name(),
        _ => String::from_str("serde_json::Value"),
    }
}

/// The message type a method answers.
pub open spec fn spec_rs_rpc_response_type(rpc: RpcDef) -> Seq<char> {
    match rpc.output {
        Type::Void => "google::protobuf::Empty"@,
        Type::Any | Type::MapOf(_) | Type::Union(_) | Type::OneOf(_) | Type::Nullable(_) => "google::protobuf::Struct"@,
        Type::Named(n) => spec_code_name(n),
        _ => spec_rpc_code_name(rpc) + "Response"@,
    }
}

pub fn rpc_response_type(rpc: &RpcDef) -> (r: String)
    ensures
        r@ == spec_rs_rpc_response_type(*rpc),
{
    match &rpc.output {
        Type::Void => String::from_str("google::protobuf::Empty"),
        Type::Any | Type::MapOf(_) | Type::Union(_) | Type::OneOf(_) | Type::Nullable(_) => String::from_str("google::protobuf::Struct"),
        Type::Named(n) => n.code_name(),
        _ => {
            let mut s = rpc.code_name();
            s.append("Response");
            s
        },
    }
}

pub open spec fn rs_alias_line(name: Seq<char>) -> Seq<char> {
    "pub type "@ + name + " = rpc::"@ + name + ";\n"@
}

pub open spec fn rs_rpc_alias_lines(rpc: RpcDef) -> Seq<char> {
    let c = spec_rpc_code_name(rpc);
    "pub type "@ + c + "Request = rpc::"@ + c + "Request;\n"@ + "pub type "@ + c + "Response = rpc::"@
        + spec_rs_rpc_response_type(rpc) + ";\n"@
}

/// `src/types.rs`: aliases of the generated messages for the enums, the
/// types, and the requests and responses of every method.
pub open spec fn spec_grpc_types_rs(service: Service) -> Seq<char> {
    "#![allow(dead_code)]\nuse crate::rpc;\n\n"@ + concat_all(
        service.schema.enums@,
        |e: EnumDef| rs_alias_line(spec_code_name(e.name)),
    ) + concat_all(service.schema.types@, |t: TypeDef| rs_alias_line(spec_code_name(t.name)))
        + concat_all(service.rpc.methods@, |r: RpcDef| rs_rpc_alias_lines(r))
}

pub fn build_types_rs(service: &Service) -> (r: String)
    ensures
        r@ == spec_grpc_types_rs(*service),
{
    let mut out = String::from_str("#![allow(dead_code)]\nuse crate::rpc;\n\n");
    let ghost h0 = out@;
    let ghost fe = |e: EnumDef| rs_alias_line(spec_code_name(e.name));
    let v = &service.schema.enums;
    let mut i: usize = 0;
    while i < v.len()
        invariant
            0 <= i <= v@.len(),
            v@ == service.schema.enums@,
            fe == (|e: EnumDef| rs_alias_line(spec_code_name(e.name))),
            out@ == h0 + concat_all(v@.take(i as int), fe),
        decreases v@.len() - i,
    {
        proof {
            lemma_concat_all_step(v@, i as int, fe);
        }
        let n = v[i].name.code_name();
        let mut line = String::from_str("pub type ");
        line.append(n.as_str());
        line.append(" = rpc::");
        line.append(n.as_str());
        line.append(";\n");
        out.append(line.as_str());
        i += 1;
    }
    proof {
        lemma_take_full(v@);
    }
    let ghost h1 = out@;
    let ghost ft = |t: TypeDef| rs_alias_line(spec_code_name(t.name));
    let v = &service.schema.types;
    let mut i: usize = 0;
    while i < v.len()
        invariant
            0 <= i <= v@.len(),
            v@ == service.schema.types@,
            ft == (|t: TypeDef| rs_alias_line(spec_code_name(t.name))),
            out@ == h1 + concat_all(v@.take(i as int), ft),
        decreases v@.len() - i,
    {
        proof {
            lemma_concat_all_step(v@, i as int, ft);
        }
        let n = v[i].name.code_name();
        let mut line = String::from_str("pub type ");
        line.append(n.as_str());
        line.append(" = rpc::");
        line.append(n.as_str());
        line.append(";\n");
        out.append(line.as_str());
        i += 1;
    }
    proof {
        lemma_take_full(v@);
    }
    let ghost h2 = out@;
    let ghost fr = |r: RpcDef| rs_rpc_alias_lines(r);
    let v = &service.rpc.methods;
    let mut i: usize = 0;
    while i < v.len()
        invariant
            0 <= i <= v@.len(),
            v@ == service.rpc.methods@,
            fr == (|r: RpcDef| rs_rpc_alias_lines(r)),
            out@ == h2 + concat_all(v@.take(i as int), fr),
        decreases v@.len() - i,
    {
        proof {
            lemma_concat_all_step(v@, i as int, fr);
        }
        let c = v[i].code_name();
        let resp = rpc_response_type(&v[i]);
        let mut line = String::from_str("pub type ");
        line.append(c.as_str());
        line.append("Request = rpc::");
        line.append(c.as_str());
        line.append("Request;\n");
        line.append("pub type ");
        line.append(c.as_str());
        line.append("Response = rpc::");
        line.append(resp.as_str());
        line.append(";\n");
        assert(line@ =~= rs_rpc_alias_lines(v@[i as int]));
        out.append(line.as_str());
        i += 1;
    }
    proof {
        lemma_take_full(v@);
    }
    out
}

// ---------------------------------------------------------------------------
// One method per RPC
// ---------------------------------------------------------------------------

/// The response built from the module's result.
pub open spec fn spec_rs_response_expr(rpc: RpcDef) -> Seq<char> {
    match rpc.output {
        Type::Void => "rpc::google::protobuf::Empty {}"@,
        Type::Array(_) | Type::String | Type::Int | Type::Float | Type::Bool => "rpc::"@
            + spec_rpc_code_name(rpc) + "Response { value: result }"@,
        _ => "result"@,
    }
}

pub fn render_response_expr(rpc: &RpcDef) -> (r: String)
    ensures
        r@ == spec_rs_response_expr(*rpc),
{
    match rpc.output {
        Type::Void => String::from_str("rpc::google::protobuf::Empty {}"),
        Type::Array(_) | Type::String | Type::Int | Type::Float | Type::Bool => {
            let mut s = String::from_str("rpc::");
            let c = rpc.code_name();
            s.append(c.as_str());
            s.append("Response { value: result }");
            s
        },
        _ => String::from_str("result"),
    }
}

pub open spec fn rs_arg_views(args: Seq<CallArg>) -> Seq<Seq<char>> {
    args.map_values(|a: CallArg| spec_ts_input_ref(a.value))
}

/// The module call of a method, awaited when the function is async.
pub open spec fn spec_rs_grpc_call_expr(rpc: RpcDef) -> Seq<char> {
    rpc.call.module@ + "::"@ + rpc.call.function@ + "("@ + seq_join(rs_arg_views(rpc.call.args@), ", "@) + ")"@
        + if rpc.call.is_async {
        ".await"@
    } else {
        Seq::empty()
    }
}

pub fn render_call_expr(rpc: &RpcDef) -> (r: String)
    ensures
        r@ == spec_rs_grpc_call_expr(*rpc),
{
    let args = &rpc.call.args;
    let mut parts: Vec<String> = Vec::new();
    let mut i: usize = 0;
    while i < args.len()
        invariant
            0 <= i <= args@.len(),
            args@ == rpc.call.args@,
            views(parts@) == rs_arg_views(args@.take(i as int)),
        decreases args@.len() - i,
    {
        let s = render_input_ref(&args[i].value);
        proof {
            lemma_views_push(parts@, s);
        }
        parts.push(s);
        i += 1;
        assert(views(parts@) =~= rs_arg_views(args@.take(i as int)));
    }
    proof {
        lemma_take_full(args@);
    }
    let j = join(&parts, ", ");
    let mut s = String::from_str(rpc.call.module.as_str());
    s.append("::");
    s.append(rpc.call.function.as_str());
    s.append("(");
    s.append(j.as_str());
    s.append(")");
    if rpc.call.is_async {
        s.append(".await");
    }
    s
}

pub open spec fn spec_rs_grpc_auth_check(rpc: RpcDef, service: Service) -> Seq<char> {
    match spec_effective_auth(rpc.auth, service.common.auth) {
        Some(AuthSpec::Bearer) => "        let token = meta_str(metadata, \"authorization\");\n        if token.is_none() {\n            return Err(Status::unauthenticated(\"missing authorization\"));\n        }\n"@,
        Some(AuthSpec::ApiKey) => "        let token = meta_str(metadata, \"x-api-key\");\n        if token.is_none() {\n            return Err(Status::unauthenticated(\"missing api key\"));\n        }\n"@,
        _ => Seq::empty(),
    }
}

pub fn render_auth_check(rpc: &RpcDef, service: &Service) -> (r: String)
    ensures
        r@ == spec_rs_grpc_auth_check(*rpc, *service),
{
    match effective_auth(rpc.auth, service.common.auth) {
        Some(AuthSpec::Bearer) => String::from_str("        let token = meta_str(metadata, \"authorization\");\n        if token.is_none() {\n            return Err(Status::unauthenticated(\"missing authorization\"));\n        }\n"),
        Some(AuthSpec::ApiKey) => String::from_str("        let token = meta_str(metadata, \"x-api-key\");\n        if token.is_none() {\n            return Err(Status::unauthenticated(\"missing api key\"));\n        }\n"),
        _ => String::new(),
    }
}

pub open spec fn rs_mw_call_fn() -> spec_fn(String) -> Seq<char> {
    |n: String| "        "@ + n@ + "(&RpcContext { metadata }).await?;\n"@
}

pub open spec fn spec_rs_grpc_middleware_calls(rpc: RpcDef, service: Service) -> Seq<char> {
    concat_all(service.common.middleware@ + rpc.middleware@, rs_mw_call_fn())
}

fn push_rs_mw_calls(out: &mut String, v: &Vec<String>)
    ensures
        final(out)@ == old(out)@ + concat_all(v@, rs_mw_call_fn()),
{
    let ghost head = out@;
    let mut i: usize = 0;
    while i < v.len()
        invariant
            0 <= i <= v@.len(),
            out@ == head + concat_all(v@.take(i as int), rs_mw_call_fn()),
        decreases v@.len() - i,
    {
        proof {
            lemma_concat_all_step(v@, i as int, rs_mw_call_fn());
        }
        out.append("        ");
        out.append(v[i].as_str());
        out.append("(&RpcContext { metadata }).await?;\n");
        i += 1;
    }
    proof {
        lemma_take_full(v@);
    }
}

pub fn render_middleware_calls(rpc: &RpcDef, service: &Service) -> (r: String)
    ensures
        r@ == spec_rs_grpc_middleware_calls(*rpc, *service),
{
    let mut out = String::new();
    push_rs_mw_calls(&mut out, &service.common.middleware);
    push_rs_mw_calls(&mut out, &rpc.middleware);
    proof {
        lemma_concat_all_add(service.common.middleware@, rpc.middleware@, rs_mw_call_fn());
        assert(out@ =~= spec_rs_grpc_middleware_calls(*rpc, *service));
    }
    out
}

/// The name of a method's rate-limit state: its name in capitals.
pub open spec fn rate_static(rpc: RpcDef) -> Seq<char> {
    "RATE_LIMIT_"@ + unicode_uppercase(spec_rpc_code_name(rpc))
}

fn rate_static_name(rpc: &RpcDef) -> (r: String)
    ensures
        r@ == rate_static(*rpc),
{
    let c = rpc.code_name();
    let u = to_uppercase(c.as_str());
    let mut s = String::from_str("RATE_LIMIT_");
    s.append(u.as_str());
    s
}

pub open spec fn spec_rs_grpc_rate_limit_check(rpc: RpcDef, service: Service) -> Seq<char> {
    match spec_rpc_rate_limit(rpc, service) {
        Some(l) => {
            let st = rate_static(rpc);
            "        let state = "@ + st + ".get_or_init(|| Mutex::new((0, Instant::now())));\n        let mut guard = state.lock().unwrap();\n        let elapsed = guard.1.elapsed();\n        if elapsed >= Duration::from_secs("@ + dec_nat(l.per_seconds as nat) + ") {\n            *guard = (0, Instant::now());\n        }\n        if guard.0 >= "@ + dec_nat(l.max as nat) + " {\n            return Err(Status::resource_exhausted(\"rate limited\"));\n        }\n        guard.0 += 1;\n        drop(guard);\n"@
        },
        None => Seq::empty(),
    }
}

pub fn render_rate_limit_check(rpc: &RpcDef, service: &Service) -> (r: String)
    ensures
        r@ == spec_rs_grpc_rate_limit_check(*rpc, *service),
{
    match effective_rate_limit(rpc, service) {
        Some(l) => {
            let st = rate_static_name(rpc);
            let mx = u64_to_string(l.max as u64);
            let win = u64_to_string(l.per_seconds);
            let mut s = String::from_str("        let state = ");
            s.append(st.as_str());
            s.append(".get_or_init(|| Mutex::new((0, Instant::now())));\n        let mut guard = state.lock().unwrap();\n        let elapsed = guard.1.elapsed();\n        if elapsed >= Duration::from_secs(");
            s.append(win.as_str());
            s.append(") {\n            *guard = (0, Instant::now());\n        }\n        if guard.0 >= ");
            s.append(mx.as_str());
            s.append(" {\n            return Err(Status::resource_exhausted(\"rate limited\"));\n        }\n        guard.0 += 1;\n        drop(guard);\n");
            s
        },
        None => String::new(),
    }
}

pub open spec fn rate_static_fn(service: Service) -> spec_fn(RpcDef) -> Seq<char> {
    |r: RpcDef| if spec_rpc_rate_limit(r, service) is Some {
        "static "@ + rate_static(r) + ": OnceLock<Mutex<(u32, Instant)>> = OnceLock::new();\n"@
    } else {
        Seq::empty()
    }
}

/// The rate-limit state of every method with a limit.
pub open spec fn spec_rs_grpc_rate_limit_helpers(service: Service) -> Seq<char> {
    concat_all(service.rpc.methods@, rate_static_fn(service)) + "\n"@
}

pub fn render_rate_limit_helpers(service: &Service) -> (r: String)
    ensures
        r@ == spec_rs_grpc_rate_limit_helpers(*service),
{
    let v = &service.rpc.methods;
    let mut out = String::new();
    let mut i: usize = 0;
    while i < v.len()
        invariant
            0 <= i <= v@.len(),
            v@ == service.rpc.methods@,
            out@ == concat_all(v@.take(i as int), rate_static_fn(*service)),
        decreases v@.len() - i,
    {
        proof {
            lemma_concat_all_step(v@, i as int, rate_static_fn(*service));
        }
        if effective_rate_limit(&v[i], service).is_some() {
            let st = rate_static_name(&v[i]);
            out.append("static ");
            out.append(st.as_str());
            out.append(": OnceLock<Mutex<(u32, Instant)>> = OnceLock::new();\n");
        }
        i += 1;
    }
    proof {
        lemma_take_full(v@);
    }
    out.append("\n");
    out
}

pub open spec fn rs_header_expr(f: Field) -> Seq<char> {
    match f.ty {
        Type::Int => "meta_parse::<i64>(metadata, \""@ + f.name@ + "\")"@,
        Type::Float => "meta_parse::<f64>(metadata, \""@ + f.name@ + "\")"@,
        Type::Bool => "meta_parse::<bool>(metadata, \""@ + f.name@ + "\")"@,
        _ => "meta_str(metadata, \""@ + f.name@ + "\")"@,
    }
}

/// A header field read from the metadata; a required header is answered
/// `invalid_argument` when missing.
pub open spec fn rs_header_line(f: Field) -> Seq<char> {
    let e = rs_header_expr(f);
    "            "@ + f.name@ + ": "@ + (if f.optional {
        e
    } else {
        e + ".ok_or_else(|| Status::invalid_argument(\"missing header "@ + f.name@ + "\"))?"@
    }) + ","@
}

pub open spec fn rs_header_lines(fs: Seq<Field>) -> Seq<Seq<char>> {
    fs.map_values(|f: Field| rs_header_line(f))
}

pub open spec fn spec_rs_grpc_headers_init(rpc: RpcDef) -> Seq<char> {
    if rpc.headers@.len() == 0 {
        Seq::empty()
    } else {
        "        let headers = "@ + spec_rpc_code_name(rpc) + "Headers {\n"@ + seq_join(
            rs_header_lines(rpc.headers@),
            "\n"@,
        ) + "\n        };\n"@
    }
}

pub fn render_headers_init(rpc: &RpcDef) -> (r: String)
    ensures
        r@ == spec_rs_grpc_headers_init(*rpc),
{
    if rpc.headers.len() == 0 {
        return String::new();
    }
    let v = &rpc.headers;
    let mut lines: Vec<String> = Vec::new();
    let mut i: usize = 0;
    while i < v.len()
        invariant
            0 <= i <= v@.len(),
            v@ == rpc.headers@,
            views(lines@) == rs_header_lines(v@.take(i as int)),
        decreases v@.len() - i,
    {
        let f = &v[i];
        let mut e = match f.ty {
            Type::Int => String::from_str("meta_parse::<i64>(metadata, \""),
            Type::Float => String::from_str("meta_parse::<f64>(metadata, \""),
            Type::Bool => String::from_str("meta_parse::<bool>(metadata, \""),
            _ => String::from_str("meta_str(metadata, \""),
        };
        e.append(f.name.as_str());
        e.append("\")");
        assert(e@ =~= rs_header_expr(*f));
        let mut line = String::from_str("            ");
        line.append(f.name.as_str());
        line.append(": ");
        line.append(e.as_str());
        if !f.optional {
            line.append(".ok_or_else(|| Status::invalid_argument(\"missing header ");
            line.append(f.name.as_str());
            line.append("\"))?");
        }
        line.append(",");
        assert(line@ =~= rs_header_line(*f));
        proof {
            lemma_views_push(lines@, line);
        }
        lines.push(line);
        i += 1;
        assert(views(lines@) =~= rs_header_lines(v@.take(i as int)));
    }
    proof {
        lemma_take_full(v@);
    }
    let mut out = String::from_str("        let headers = ");
    let c = rpc.code_name();
    out.append(c.as_str());
    out.append("Headers {\n");
    let j = join(&lines, "\n");
    out.append(j.as_str());
    out.append("\n        };\n");
    out
}

/// Whether a method reads its metadata: headers, authentication or
/// middleware.
pub open spec fn spec_needs_metadata(rpc: RpcDef, service: Service) -> bool {
    rpc.headers@.len() > 0 || spec_effective_auth(rpc.auth, service.common.auth) is Some
        || rpc.middleware@.len() > 0 || service.common.middleware@.len() > 0
}

pub fn needs_metadata(rpc: &RpcDef, service: &Service) -> (r: bool)
    ensures
        r == spec_needs_metadata(*rpc, *service),
{
    rpc.headers.len() > 0 || effective_auth(rpc.auth, service.common.auth).is_some()
        || rpc.middleware.len() > 0 || service.common.middleware.len() > 0
}

#[verifier::opaque]
pub open spec fn rs_grpc_method_template(method_name: Seq<char>, req: Seq<char>, resp_ty: Seq<char>, meta_init: Seq<char>, auth_check: Seq<char>, headers_init: Seq<char>, middleware_calls: Seq<char>, rate_limit: Seq<char>, call_expr: Seq<char>, response_expr: Seq<char>, service_name: Seq<char>, rpc_name: Seq<char>) -> Seq<char> {
    "    async fn "@ + method_name + "(&self, request: Request<rpc::"@ + req + ">) -> Result<Response<rpc::"@ + resp_ty + ">, Status> {\n        let started = Instant::now();\n        let result: Result<Response<rpc::"@ + resp_ty + ">, Status> = async {\n"@ + meta_init + auth_check + headers_init + middleware_calls + rate_limit + "            let input = request.into_inner();\n            let result = "@ + call_expr + ";\n            let response = "@ + response_expr + ";\n            Ok(Response::new(response))\n        }.await;\n        let status = match &result {\n            Ok(_) => \"OK\".to_string(),\n            Err(err) => err.code().to_string(),\n        };\n        eprintln!(\"["@ + service_name + "] gRPC "@ + rpc_name + " -> {} ({}ms)\", status, started.elapsed().as_millis());\n        result\n    }"@
}

/// One service method: metadata, authentication, headers, middleware,
/// rate limit, the module call, the response and the access log.
pub open spec fn spec_rs_grpc_method(rpc: RpcDef, service: Service) -> Seq<char> {
    let c = spec_rpc_code_name(rpc);
    rs_grpc_method_template(
        spec_to_snake_case(c),
        c + "Request"@,
        spec_rs_rpc_response_type(rpc),
        if spec_needs_metadata(rpc, service) {
            "        let metadata = request.metadata();\n"@
        } else {
            Seq::empty()
        },
        spec_rs_grpc_auth_check(rpc, service),
        spec_rs_grpc_headers_init(rpc),
        spec_rs_grpc_middleware_calls(rpc, service),
        spec_rs_grpc_rate_limit_check(rpc, service),
        spec_rs_grpc_call_expr(rpc),
        spec_rs_response_expr(rpc),
        service.name@,
        c,
    )
}

pub fn render_rpc_method(rpc: &RpcDef, service: &Service) -> (r: String)
    ensures
        r@ == spec_rs_grpc_method(*rpc, *service),
{
    let c = rpc.code_name();
    let method_name = to_snake_case(c.as_str());
    let mut req = c.clone();
    req.append("Request");
    let resp_ty = rpc_response_type(rpc);
    let call_expr = render_call_expr(rpc);
    let response_expr = render_response_expr(rpc);
    let auth_check = render_auth_check(rpc, service);
    let middleware_calls = render_middleware_calls(rpc, service);
    let rate_limit = render_rate_limit_check(rpc, service);
    let headers_init = render_headers_init(rpc);
    let meta_init = if needs_metadata(rpc, service) {
        String::from_str("        let metadata = request.metadata();\n")
    } else {
        String::new()
    };
    let service_name = &service.name;
    let rpc_name = &c;
    let mut s = String::from_str("    async fn ");
    s.append(method_name.as_str());
    s.append("(&self, request: Request<rpc::");
    s.append(req.as_str());
    s.append(">) -> Result<Response<rpc::");
    s.append(resp_ty.as_str());
    s.append(">, Status> {\n        let started = Instant::now();\n        let result: Result<Response<rpc::");
    s.append(resp_ty.as_str());
    s.append(">, Status> = async {\n");
    s.append(meta_init.as_str());
    s.append(auth_check.as_str());
    s.append(headers_init.as_str());
    s.append(middleware_calls.as_str());
    s.append(rate_limit.as_str());
    s.append("            let input = request.into_inner();\n            let result = ");
    s.append(call_expr.as_str());
    s.append(";\n            let response = ");
    s.append(response_expr.as_str());
    s.append(";\n            Ok(Response::new(response))\n        }.await;\n        let status = match &result {\n            Ok(_) => \"OK\".to_string(),\n            Err(err) => err.code().to_string(),\n        };\n        eprintln!(\"[");
    s.append(service_name.as_str());
    s.append("] gRPC ");
    s.append(rpc_name.as_str());
    s.append(" -> {} ({}ms)\", status, started.elapsed().as_millis());\n        result\n    }");
    proof {
        reveal(rs_grpc_method_template);
    }
    s
}

// ---------------------------------------------------------------------------
// Helpers of main.rs
// ---------------------------------------------------------------------------

/// A module with a path is included from its file; another is a crate
/// used under its local name.
pub open spec fn grpc_decl_text(m: ModuleUse) -> Seq<char> {
    match m.path {
        Some(p) => "mod "@ + local_name(m)
            + " {\n    #[allow(unused_imports)]\n    use crate::*;\n    use crate::types::*;\n    include!(\""@
            + p@ + "\");\n}\n"@,
        None => "use "@ + m.name@ + " as "@ + local_name(m) + ";\n"@,
    }
}

/// The declarations so far and the keys declared; a module equal to an
/// earlier one (same local name, name and path) is skipped.
pub open spec fn grpc_decls_state(mods: Seq<ModuleUse>) -> (Seq<char>, Seq<Seq<char>>)
    decreases mods.len(),
{
    if mods.len() == 0 {
        (Seq::empty(), Seq::empty())
    } else {
        let (o, seen) = grpc_decls_state(mods.drop_last());
        let m = mods.last();
        if seen.contains(decl_key(m)) {
            (o, seen)
        } else {
            (o + grpc_decl_text(m) + "\n"@, seen.push(decl_key(m)))
        }
    }
}

pub open spec fn spec_grpc_module_decls(service: Service) -> Seq<char> {
    grpc_decls_state(service.common.modules@).0
}

pub fn render_module_decls(service: &Service) -> (r: String)
    ensures
        r@ == spec_grpc_module_decls(*service),
{
    let mods = &service.common.modules;
    let mut out = String::new();
    let mut seen: Vec<String> = Vec::new();
    let mut i: usize = 0;
    while i < mods.len()
        invariant
            0 <= i <= mods@.len(),
            mods@ == service.common.modules@,
            (out@, views(seen@)) == grpc_decls_state(mods@.take(i as int)),
        decreases mods@.len() - i,
    {
        proof {
            assert(mods@.take(i + 1).drop_last() =~= mods@.take(i as int));
        }
        let m = &mods[i];
        let local = m.key();
        let mut key = String::from_str(local.as_str());
        key.append("|");
        key.append(m.name.as_str());
        key.append("|");
        match &m.path {
            Some(p) => key.append(p.as_str()),
            None => {},
        }
        assert(key@ == decl_key(*m));
        if !seen_contains(&seen, key.as_str()) {
            match &m.path {
                Some(p) => {
                    out.append("mod ");
                    out.append(local.as_str());
                    out.append(" {\n    #[allow(unused_imports)]\n    use crate::*;\n    use crate::types::*;\n    include!(\"");
                    out.append(p.as_str());
                    out.append("\");\n}\n");
                },
                None => {
                    out.append("use ");
                    out.append(m.name.as_str());
                    out.append(" as ");
                    out.append(local.as_str());
                    out.append(";\n");
                },
            }
            out.append("\n");
            proof {
                lemma_views_push(seen@, key);
            }
            seen.push(key);
        }
        i += 1;
    }
    proof {
        lemma_take_full(mods@);
    }
    out
}

pub open spec fn grpc_tls_configured(service: Service) -> bool {
    match service.rpc.grpc_config {
        Some(c) => c.tls_cert is Some,
        None => false,
    }
}

/// The imports the helpers need, one per line.
pub open spec fn spec_build_extra_imports(
    needs_headers: bool,
    needs_rate_limit: bool,
    needs_meta: bool,
    service: Service,
    needs_socket_stubs: bool,
) -> Seq<char> {
    seq_join(
        (if needs_headers || needs_meta {
            seq!["use tonic::metadata::MetadataMap;"@]
        } else {
            Seq::empty()
        }) + (if needs_rate_limit {
            seq!["use std::sync::{Mutex, OnceLock};"@, "use std::time::{Duration, Instant};"@]
        } else {
            Seq::empty()
        }) + (if grpc_tls_configured(service) {
            seq!["use tonic::transport::ServerTlsConfig;"@, "use tonic::transport::Identity;"@]
        } else {
            Seq::empty()
        }) + (if needs_socket_stubs {
            seq!["use serde_json::Value;"@]
        } else {
            Seq::empty()
        }),
        "\n"@,
    )
}

fn push_line(v: &mut Vec<String>, s: &str)
    ensures
        views(final(v)@) == views(old(v)@).push(s@),
{
    let x = String::from_str(s);
    proof {
        lemma_views_push(v@, x);
    }
    v.push(x);
}

pub fn build_extra_imports(
    needs_headers: bool,
    needs_rate_limit: bool,
    needs_meta: bool,
    service: &Service,
    needs_socket_stubs: bool,
) -> (r: String)
    ensures
        r@ == spec_build_extra_imports(needs_headers, needs_rate_limit, needs_meta, *service, needs_socket_stubs),
{
    let mut v: Vec<String> = Vec::new();
    if needs_headers || needs_meta {
        push_line(&mut v, "use tonic::metadata::MetadataMap;");
    }
    if needs_rate_limit {
        push_line(&mut v, "use std::sync::{Mutex, OnceLock};");
        push_line(&mut v, "use std::time::{Duration, Instant};");
    }
    let tls = match &service.rpc.grpc_config {
        Some(c) => c.tls_cert.is_some(),
        None => false,
    };
    if tls {
        push_line(&mut v, "use tonic::transport::ServerTlsConfig;");
        push_line(&mut v, "use tonic::transport::Identity;");
    }
    if needs_socket_stubs {
        push_line(&mut v, "use serde_json::Value;");
    }
    proof {
        assert(views(v@) =~= (if needs_headers || needs_meta {
            seq!["use tonic::metadata::MetadataMap;"@]
        } else {
            Seq::empty()
        }) + (if needs_rate_limit {
            seq!["use std::sync::{Mutex, OnceLock};"@, "use std::time::{Duration, Instant};"@]
        } else {
            Seq::empty()
        }) + (if grpc_tls_configured(*service) {
            seq!["use tonic::transport::ServerTlsConfig;"@, "use tonic::transport::Identity;"@]
        } else {
            Seq::empty()
        }) + (if needs_socket_stubs {
            seq!["use serde_json::Value;"@]
        } else {
            Seq::empty()
        }));
    }
    join(&v, "\n")
}

pub open spec fn stub_send_fn() -> spec_fn(SocketMessage) -> Seq<char> {
    |m: SocketMessage| "    pub fn send_"@ + spec_code_name(m.name) + "(&self, _data: Value) {}\n"@
}

pub open spec fn stub_fn() -> spec_fn(SocketDef) -> Seq<char> {
    |s: SocketDef| {
        let ctx = spec_code_name(s.name) + "SocketContext"@;
        ("#[derive(Clone)]\npub struct "@ + ctx + ";\n\nimpl "@ + ctx + " {\n    pub fn send_raw(&self, _kind: &str, _data: Value) {}\n    pub fn send_error(&self, _message: &str) {}\n"@) + concat_all(s.outbound@, stub_send_fn()) + "}\n\n"@
    }
}

/// Context types for the socket handlers a module may refer to, with
/// send methods that do nothing.
pub open spec fn spec_socket_stub_types(service: Service) -> Seq<char> {
    concat_all(service.sockets.sockets@, stub_fn())
}

fn socket_stub(sock: &SocketDef) -> (r: String)
    ensures
        r@ == stub_fn()(*sock),
{
    let mut ctx = sock.name.code_name();
    ctx.append("SocketContext");
        let mut s = String::from_str("#[derive(Clone)]\npub struct ");
        s.append(ctx.as_str());
        s.append(";\n\nimpl ");
        s.append(ctx.as_str());
        s.append(" {\n    pub fn send_raw(&self, _kind: &str, _data: Value) {}\n    pub fn send_error(&self, _message: &str) {}\n");
    let ghost head = s@;
    let v = &sock.outbound;
    let mut i: usize = 0;
    while i < v.len()
        invariant
            0 <= i <= v@.len(),
            v@ == sock.outbound@,
            s@ == head + concat_all(v@.take(i as int), stub_send_fn()),
        decreases v@.len() - i,
    {
        proof {
            lemma_concat_all_step(v@, i as int, stub_send_fn());
        }
        let n = v[i].name.code_name();
        s.append("    pub fn send_");
        s.append(n.as_str());
        s.append("(&self, _data: Value) {}\n");
        i += 1;
    }
    proof {
        lemma_take_full(v@);
    }
    s.append("}\n\n");
    s
}

pub fn render_socket_stub_types(service: &Service) -> (r: String)
    ensures
        r@ == spec_socket_stub_types(*service),
{
    let v = &service.sockets.sockets;
    let mut out = String::new();
    let mut i: usize = 0;
    while i < v.len()
        invariant
            0 <= i <= v@.len(),
            v@ == service.sockets.sockets@,
            out@ == concat_all(v@.take(i as int), stub_fn()),
        decreases v@.len() - i,
    {
        proof {
            lemma_concat_all_step(v@, i as int, stub_fn());
        }
        let s = socket_stub(&v[i]);
        out.append(s.as_str());
        i += 1;
    }
    proof {
        lemma_take_full(v@);
    }
    out
}

pub open spec fn header_struct_line(f: Field) -> Seq<char> {
    if f.optional {
        "    "@ + f.name@ + ": Option<"@ + spec_grpc_rust_type(f.ty) + ">,\n"@
    } else {
        "    "@ + f.name@ + ": "@ + spec_grpc_rust_type(f.ty) + ",\n"@
    }
}

/// The headers struct of a method that reads headers.
pub open spec fn spec_rpc_header_struct(rpc: RpcDef) -> Seq<char> {
    if rpc.headers@.len() == 0 {
        Seq::empty()
    } else {
        "struct "@ + spec_rpc_code_name(rpc) + "Headers {\n"@ + concat_all(
            rpc.headers@,
            |f: Field| header_struct_line(f),
        ) + "}\n\n"@
    }
}

pub fn render_rpc_header_struct(rpc: &RpcDef) -> (r: String)
    ensures
        r@ == spec_rpc_header_struct(*rpc),
{
    if rpc.headers.len() == 0 {
        return String::new();
    }
    let mut out = String::from_str("struct ");
    let c = rpc.code_name();
    out.append(c.as_str());
    out.append("Headers {\n");
    let ghost head = out@;
    let ghost f = |f: Field| header_struct_line(f);
    let v = &rpc.headers;
    let mut i: usize = 0;
    while i < v.len()
        invariant
            0 <= i <= v@.len(),
            v@ == rpc.headers@,
            f == (|f: Field| header_struct_line(f)),
            out@ == head + concat_all(v@.take(i as int), f),
        decreases v@.len() - i,
    {
        proof {
            lemma_concat_all_step(v@, i as int, f);
        }
        let fld = &v[i];
        let t = rust_type(&fld.ty);
        out.append("    ");
        out.append(fld.name.as_str());
        if fld.optional {
            out.append(": Option<");
            out.append(t.as_str());
            out.append(">,\n");
        } else {
            out.append(": ");
            out.append(t.as_str());
            out.append(",\n");
        }
        i += 1;
    }
    proof {
        lemma_take_full(v@);
    }
    out.append("}\n\n");
    out
}

/// The TLS identity read from the configured files.
pub open spec fn spec_render_tls_block(service: Service) -> Seq<char> {
    match service.rpc.grpc_config {
        Some(cfg) => match (cfg.tls_cert, cfg.tls_key) {
            (Some(c), Some(k)) => "    let cert = std::fs::read(\""@ + c@ + "\")?;\n    let key = std::fs::read(\""@ + k@ + "\")?;\n    let identity = Identity::from_pem(cert, key);\n    let tls = ServerTlsConfig::new().identity(identity);\n    builder = builder.tls_config(tls)?;\n"@,
            _ => Seq::empty(),
        },
        None => Seq::empty(),
    }
}

pub fn render_tls_block(service: &Service) -> (r: String)
    ensures
        r@ == spec_render_tls_block(*service),
{
    match &service.rpc.grpc_config {
        Some(cfg) => match (&cfg.tls_cert, &cfg.tls_key) {
            (Some(c), Some(k)) => {
                let mut s = String::from_str("    let cert = std::fs::read(\"");
                s.append(c.as_str());
                s.append("\")?;\n    let key = std::fs::read(\"");
                s.append(k.as_str());
                s.append("\")?;\n    let identity = Identity::from_pem(cert, key);\n    let tls = ServerTlsConfig::new().identity(identity);\n    builder = builder.tls_config(tls)?;\n");
                s
            },
            _ => String::new(),
        },
        None => String::new(),
    }
}

/// The message size limits, when configured.
pub open spec fn spec_render_max_message_block(service: Service) -> Seq<char> {
    match service.rpc.grpc_config {
        Some(cfg) => match cfg.max_message_size {
            Some(size) => "    service = service.max_decoding_message_size("@ + dec_nat(size as nat) + " as usize).max_encoding_message_size("@ + dec_nat(size as nat) + " as usize);\n"@,
            None => Seq::empty(),
        },
        None => Seq::empty(),
    }
}

pub fn render_max_message_block(service: &Service) -> (r: String)
    ensures
        r@ == spec_render_max_message_block(*service),
{
    match &service.rpc.grpc_config {
        Some(cfg) => match cfg.max_message_size {
            Some(size) => {
                let sz = u64_to_string(size);
                let mut s = String::from_str("    service = service.max_decoding_message_size(");
                s.append(sz.as_str());
                s.append(" as usize).max_encoding_message_size(");
                s.append(sz.as_str());
                s.append(" as usize);\n");
                s
            },
            None => String::new(),
        },
        None => String::new(),
    }
}

// ---------------------------------------------------------------------------
// middleware.rs
// ---------------------------------------------------------------------------

pub open spec fn rs_grpc_mw_func_fn() -> spec_fn(Seq<char>) -> Seq<char> {
    |n: Seq<char>| "pub async fn "@ + n + "(ctx: &RpcContext<'_>) -> Result<(), Status> {\n    let key = format!(\"x-nimesvc-middleware-{}\", "@ + debug_str(n) + ".replace('_', \"-\"));\n    if let Some(raw) = ctx.metadata.get(&key).and_then(|v| v.to_str().ok()) {\n        let value = raw.trim().to_ascii_lowercase();\n        if matches!(value.as_str(), \"block\" | \"deny\" | \"forbid\") {\n            return Err(Status::permission_denied(format!(\"blocked by middleware "@ + n + "\")));\n        }\n    }\n    Ok(())\n}\n\n"@
}

/// `src/middleware.rs` of the gRPC crate: nothing when no middleware is
/// used; else one function per name, in text order.
pub open spec fn spec_grpc_middleware_rs(service: Service) -> Seq<char> {
    let names = name_set(grpc_middleware_names(service));
    if names.len() == 0 {
        Seq::empty()
    } else {
        "use tonic::Status;\nuse tonic::metadata::MetadataMap;\n\npub struct RpcContext<'a> { pub metadata: &'a MetadataMap }\n\n"@ + concat_all(names, rs_grpc_mw_func_fn())
    }
}

pub fn build_middleware_rs(service: &Service) -> (r: String)
    ensures
        r@ == spec_grpc_middleware_rs(*service),
{
    let all = grpc_middleware_list(service);
    let names = names_to_set(&all);
    if names.len() == 0 {
        return String::new();
    }
    let ghost nv = strings_view(names@);
    let mut out = String::from_str("use tonic::Status;\nuse tonic::metadata::MetadataMap;\n\npub struct RpcContext<'a> { pub metadata: &'a MetadataMap }\n\n");
    let ghost start = out@;
    let mut k: usize = 0;
    while k < names.len()
        invariant
            0 <= k <= names@.len(),
            nv == strings_view(names@),
            out@ == start + concat_all(nv.take(k as int), rs_grpc_mw_func_fn()),
        decreases names@.len() - k,
    {
        proof {
            lemma_concat_all_step(nv, k as int, rs_grpc_mw_func_fn());
        }
        assert(nv[k as int] == names@[k as int]@);
        let q = debug_quoted(names[k].as_str());
        let mut s = String::from_str("pub async fn ");
        s.append(names[k].as_str());
        s.append("(ctx: &RpcContext<'_>) -> Result<(), Status> {\n    let key = format!(\"x-nimesvc-middleware-{}\", ");
        s.append(q.as_str());
        s.append(".replace('_', \"-\"));\n    if let Some(raw) = ctx.metadata.get(&key).and_then(|v| v.to_str().ok()) {\n        let value = raw.trim().to_ascii_lowercase();\n        if matches!(value.as_str(), \"block\" | \"deny\" | \"forbid\") {\n            return Err(Status::permission_denied(format!(\"blocked by middleware ");
        s.append(names[k].as_str());
        s.append("\")));\n        }\n    }\n    Ok(())\n}\n\n");
        out.append(s.as_str());
        k += 1;
    }
    proof {
        lemma_take_full(nv);
    }
    out
}

// ---------------------------------------------------------------------------
// main.rs
// ---------------------------------------------------------------------------

pub open spec fn rpc_authenticates(r: RpcDef, service: Service) -> bool {
    spec_effective_auth(r.auth, service.common.auth) is Some
}

pub open spec fn rpc_with_middleware(r: RpcDef, service: Service) -> bool {
    r.middleware@.len() > 0 || service.common.middleware@.len() > 0
}

pub open spec fn any_rpc_authenticates(service: Service) -> bool {
    exists|i: int| 0 <= i < service.rpc.methods@.len() && rpc_authenticates(#[trigger] service.rpc.methods@[i], service)
}

pub open spec fn any_rpc_middleware(service: Service) -> bool {
    exists|i: int| 0 <= i < service.rpc.methods@.len() && rpc_with_middleware(#[trigger] service.rpc.methods@[i], service)
}

fn authenticates_exec(service: &Service) -> (r: bool)
    ensures
        r == any_rpc_authenticates(*service),
{
    let v = &service.rpc.methods;
    let mut i: usize = 0;
    while i < v.len()
        invariant
            0 <= i <= v@.len(),
            v@ == service.rpc.methods@,
            forall|j: int| 0 <= j < i ==> !rpc_authenticates(#[trigger] v@[j], *service),
        decreases v@.len() - i,
    {
        if effective_auth(v[i].auth, service.common.auth).is_some() {
            assert(rpc_authenticates(v@[i as int], *service));
            return true;
        }
        i += 1;
    }
    false
}

fn middleware_exec(service: &Service) -> (r: bool)
    ensures
        r == any_rpc_middleware(*service),
{
    let v = &service.rpc.methods;
    let mut i: usize = 0;
    while i < v.len()
        invariant
            0 <= i <= v@.len(),
            v@ == service.rpc.methods@,
            forall|j: int| 0 <= j < i ==> !rpc_with_middleware(#[trigger] v@[j], *service),
        decreases v@.len() - i,
    {
        if v[i].middleware.len() > 0 || service.common.middleware.len() > 0 {
            assert(rpc_with_middleware(v@[i as int], *service));
            return true;
        }
        i += 1;
    }
    false
}

fn headers_exec(service: &Service) -> (r: bool)
    ensures
        r == any_rpc_headers(*service),
{
    let v = &service.rpc.methods;
    let mut i: usize = 0;
    while i < v.len()
        invariant
            0 <= i <= v@.len(),
            v@ == service.rpc.methods@,
            forall|j: int| 0 <= j < i ==> !crate::generators::grpc::ts::rpc_reads_headers(#[trigger] v@[j]),
        decreases v@.len() - i,
    {
        if v[i].headers.len() > 0 {
            assert(crate::generators::grpc::ts::rpc_reads_headers(v@[i as int]));
            return true;
        }
        i += 1;
    }
    false
}

fn rate_limit_exec(service: &Service) -> (r: bool)
    ensures
        r == any_rpc_flag(RpcFlag::RateLimit, *service),
{
    let v = &service.rpc.methods;
    let mut i: usize = 0;
    while i < v.len()
        invariant
            0 <= i <= v@.len(),
            v@ == service.rpc.methods@,
            forall|j: int| 0 <= j < i ==> !crate::generators::grpc::go::rpc_flag(RpcFlag::RateLimit, #[trigger] v@[j], *service),
        decreases v@.len() - i,
    {
        if effective_rate_limit(&v[i], service).is_some() {
            return true;
        }
        i += 1;
    }
    false
}

pub open spec fn rs_method_block_fn(service: Service) -> spec_fn(RpcDef) -> Seq<char> {
    |r: RpcDef| spec_rs_grpc_method(r, service) + "\n"@
}

pub open spec fn header_struct_fn() -> spec_fn(RpcDef) -> Seq<char> {
    |r: RpcDef| spec_rpc_header_struct(r)
}

pub open spec fn meta_helpers() -> Seq<char> {
    "\nfn meta_str(meta: &tonic::metadata::MetadataMap, name: &str) -> Option<String> {\n    meta.get(name).and_then(|v| v.to_str().ok()).map(|s| s.to_string())\n}\n\nfn meta_parse<T: std::str::FromStr>(meta: &tonic::metadata::MetadataMap, name: &str) -> Option<T> {\n    meta.get(name).and_then(|v| v.to_str().ok()).and_then(|s| s.parse::<T>().ok())\n}\n"@
}

/// What follows `main`: the headers structs, the metadata readers, the
/// rate-limit states, each only when some method needs it.
pub open spec fn spec_rs_grpc_helpers(service: Service) -> Seq<char> {
    let headers = any_rpc_headers(service);
    let meta = headers || any_rpc_authenticates(service) || any_rpc_middleware(service);
    (if headers {
        concat_all(service.rpc.methods@, header_struct_fn())
    } else {
        Seq::empty()
    }) + (if meta {
        meta_helpers()
    } else {
        Seq::empty()
    }) + if any_rpc_flag(RpcFlag::RateLimit, service) {
        spec_rs_grpc_rate_limit_helpers(service)
    } else {
        Seq::empty()
    }
}

fn rs_grpc_helpers(service: &Service, headers: bool, meta: bool, rl: bool) -> (r: String)
    requires
        headers == any_rpc_headers(*service),
        meta == (headers || any_rpc_authenticates(*service) || any_rpc_middleware(*service)),
        rl == any_rpc_flag(RpcFlag::RateLimit, *service),
    ensures
        r@ == spec_rs_grpc_helpers(*service),
{
    let mut helpers = String::new();
    if headers {
        let v = &service.rpc.methods;
        let mut i: usize = 0;
        while i < v.len()
            invariant
                0 <= i <= v@.len(),
                v@ == service.rpc.methods@,
                helpers@ == concat_all(v@.take(i as int), header_struct_fn()),
            decreases v@.len() - i,
        {
            proof {
                lemma_concat_all_step(v@, i as int, header_struct_fn());
            }
            let s = render_rpc_header_struct(&v[i]);
            helpers.append(s.as_str());
            i += 1;
        }
        proof {
            lemma_take_full(v@);
        }
    }
    let ghost a = helpers@;
    if meta {
        helpers.append("\nfn meta_str(meta: &tonic::metadata::MetadataMap, name: &str) -> Option<String> {\n    meta.get(name).and_then(|v| v.to_str().ok()).map(|s| s.to_string())\n}\n\nfn meta_parse<T: std::str::FromStr>(meta: &tonic::metadata::MetadataMap, name: &str) -> Option<T> {\n    meta.get(name).and_then(|v| v.to_str().ok()).and_then(|s| s.parse::<T>().ok())\n}\n");
    }
    if rl {
        let r = render_rate_limit_helpers(service);
        helpers.append(r.as_str());
    }
    assert(helpers@ =~= spec_rs_grpc_helpers(*service));
    helpers
}

#[verifier::opaque]
pub open spec fn rs_grpc_main_template(access_log_import: Seq<char>, extra_imports: Seq<char>, service_mod: Seq<char>, server_mod: Seq<char>, service_name: Seq<char>, events_mod: Seq<char>, module_decls: Seq<char>, socket_stubs: Seq<char>, middleware_mod: Seq<char>, handler_name: Seq<char>, methods: Seq<char>, addr: Seq<char>, port: Seq<char>, event_consumers: Seq<char>, max_msg_block: Seq<char>, tls_block: Seq<char>, helpers: Seq<char>) -> Seq<char> {
    "use tonic::{transport::Server, Request, Response, Status};\n"@ + access_log_import + extra_imports + "\n\npub mod rpc {\n    tonic::include_proto!(\""@ + service_mod + "\");\n}\n\nuse rpc::"@ + server_mod + "::{"@ + service_name + ", "@ + service_name + "Server};\nmod types;\n"@ + events_mod + "\nuse types::*;\n\n"@ + module_decls + "\n"@ + socket_stubs + "\n"@ + middleware_mod + "\n\n#[derive(Default)]\nstruct "@ + handler_name + ";\n\n#[tonic::async_trait]\nimpl "@ + service_name + " for "@ + handler_name + " {\n"@ + methods + "\n}\n\n#[tokio::main]\nasync fn main() -> Result<(), Box<dyn std::error::Error>> {\n    let addr = \""@ + addr + ":"@ + port + "\".parse()?;\n    let handler = "@ + handler_name + "::default();\n    let mut service = "@ + service_name + "Server::new(handler);\n"@ + event_consumers + "\n"@ + max_msg_block + "    let mut builder = Server::builder();\n"@ + tls_block + "    builder\n        .add_service(service)\n        .serve(addr)\n        .await?;\n    Ok(())\n}\n"@ + helpers + "\n"@
}

/// `src/main.rs` of the gRPC crate.
pub open spec fn spec_grpc_main_rs(service: Service) -> Seq<char> {
    let headers = any_rpc_headers(service);
    let rl = any_rpc_flag(RpcFlag::RateLimit, service);
    let mw = any_rpc_middleware(service);
    let meta = headers || any_rpc_authenticates(service) || mw;
    let ap = spec_grpc_addr_port(service);
    rs_grpc_main_template(
        if service.rpc.methods@.len() > 0 {
            "use std::time::Instant;\n"@
        } else {
            Seq::empty()
        },
        spec_build_extra_imports(headers, rl, meta, service, service.sockets.sockets@.len() > 0),
        "nimesvc."@ + unicode_lowercase(service.name@),
        spec_to_snake_case(service.name@) + "_server"@,
        service.name@,
        if service.events.definitions@.len() == 0 {
            Seq::empty()
        } else {
            "mod events;\n"@
        },
        spec_grpc_module_decls(service),
        spec_socket_stub_types(service),
        if mw {
            "mod middleware;\nuse middleware::*;\n"@
        } else {
            Seq::empty()
        },
        service.name@ + "Service"@,
        concat_all(service.rpc.methods@, rs_method_block_fn(service)),
        ap.0,
        dec_nat(ap.1 as nat),
        if service.events.config is Some && service.events.subscribes@.len() > 0 {
            "    events::start_event_consumers().await;\n"@
        } else {
            Seq::empty()
        },
        spec_render_max_message_block(service),
        spec_render_tls_block(service),
        spec_rs_grpc_helpers(service),
    )
}

pub fn build_main_rs(service: &Service) -> (r: String)
    ensures
        r@ == spec_grpc_main_rs(*service),
{
    let service_name = &service.name;
    let lower = to_lowercase(service.name.as_str());
    let mut service_mod = String::from_str("nimesvc.");
    service_mod.append(lower.as_str());
    let mut handler_name = service.name.clone();
    handler_name.append("Service");
    let mut server_mod = to_snake_case(service.name.as_str());
    server_mod.append("_server");
    let module_decls = render_module_decls(service);
    let events_mod = if service.events.definitions.len() == 0 {
        String::new()
    } else {
        String::from_str("mod events;\n")
    };
    let headers = headers_exec(service);
    let rl = rate_limit_exec(service);
    let auth = authenticates_exec(service);
    let mw = middleware_exec(service);
    let meta = headers || auth || mw;
    let mut methods = String::new();
    let v = &service.rpc.methods;
    let mut i: usize = 0;
    while i < v.len()
        invariant
            0 <= i <= v@.len(),
            v@ == service.rpc.methods@,
            methods@ == concat_all(v@.take(i as int), rs_method_block_fn(*service)),
        decreases v@.len() - i,
    {
        proof {
            lemma_concat_all_step(v@, i as int, rs_method_block_fn(*service));
        }
        let m = render_rpc_method(&v[i], service);
        methods.append(m.as_str());
        methods.append("\n");
        i += 1;
    }
    proof {
        lemma_take_full(v@);
    }
    let helpers = rs_grpc_helpers(service, headers, meta, rl);
    let (addr, p) = grpc_addr_port(service);
    let port = u64_to_string(p as u64);
    let tls_block = render_tls_block(service);
    let max_msg_block = render_max_message_block(service);
    let middleware_mod = if mw {
        String::from_str("mod middleware;\nuse middleware::*;\n")
    } else {
        String::new()
    };
    let extra_imports = build_extra_imports(headers, rl, meta, service, service.sockets.sockets.len() > 0);
    let access_log_import = if service.rpc.methods.len() > 0 {
        String::from_str("use std::time::Instant;\n")
    } else {
        String::new()
    };
    let socket_stubs = render_socket_stub_types(service);
    let event_consumers = if service.events.config.is_some() && service.events.subscribes.len() > 0 {
        String::from_str("    events::start_event_consumers().await;\n")
    } else {
        String::new()
    };
    let mut s = String::from_str("use tonic::{transport::Server, Request, Response, Status};\n");
    s.append(access_log_import.as_str());
    s.append(extra_imports.as_str());
    s.append("\n\npub mod rpc {\n    tonic::include_proto!(\"");
    s.append(service_mod.as_str());
    s.append("\");\n}\n\nuse rpc::");
    s.append(server_mod.as_str());
    s.append("::{");
    s.append(service_name.as_str());
    s.append(", ");
    s.append(service_name.as_str());
    s.append("Server};\nmod types;\n");
    s.append(events_mod.as_str());
    s.append("\nuse types::*;\n\n");
    s.append(module_decls.as_str());
    s.append("\n");
    s.append(socket_stubs.as_str());
    s.append("\n");
    s.append(middleware_mod.as_str());
    s.append("\n\n#[derive(Default)]\nstruct ");
    s.append(handler_name.as_str());
    s.append(";\n\n#[tonic::async_trait]\nimpl ");
    s.append(service_name.as_str());
    s.append(" for ");
    s.append(handler_name.as_str());
    s.append(" {\n");
    s.append(methods.as_str());
    s.append("\n}\n\n#[tokio::main]\nasync fn main() -> Result<(), Box<dyn std::error::Error>> {\n    let addr = \"");
    s.append(addr.as_str());
    s.append(":");
    s.append(port.as_str());
    s.append("\".parse()?;\n    let handler = ");
    s.append(handler_name.as_str());
    s.append("::default();\n    let mut service = ");
    s.append(service_name.as_str());
    s.append("Server::new(handler);\n");
    s.append(event_consumers.as_str());
    s.append("\n");
    s.append(max_msg_block.as_str());
    s.append("    let mut builder = Server::builder();\n");
    s.append(tls_block.as_str());
    s.append("    builder\n        .add_service(service)\n        .serve(addr)\n        .await?;\n    Ok(())\n}\n");
    s.append(helpers.as_str());
    s.append("\n");
    proof {
        reveal(rs_grpc_main_template);
    }
    s
}

} // verus!
