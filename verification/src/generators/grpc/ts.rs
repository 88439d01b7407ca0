//! The gRPC server in TypeScript: `package.json`, `tsconfig.json` and
//! `src/index.ts` with one handler per RPC.

use vstd::prelude::*;

use crate::generators::go::middleware::{name_set, names_to_set};
use crate::generators::grpc::go::{
    grpc_middleware_list, effective_rate_limit, grpc_addr_port, grpc_middleware_names,
    grpc_needs_auth, spec_grpc_addr_port, spec_rpc_rate_limit,
};
use crate::generators::rpc::spec_rpc_code_name;
use crate::generators::rust::util::{crate_of, crate_of_path};
use crate::ir::{
    effective_auth, spec_effective_auth, AuthSpec, CallArg, Field, InputRef, InputSource, ModuleUse,
    RpcDef, Service, Type,
};
use crate::sorted::strings_view;
use crate::text::{
    concat_all, dec_nat, is_prefix, join, lemma_concat_all_step, lemma_take_full, lemma_views_push,
    seq_join, starts_with, to_lowercase, u64_to_string, unicode_lowercase, views,
};

verus! {

// ---------------------------------------------------------------------------
// package.json and tsconfig.json
// ---------------------------------------------------------------------------

pub open spec fn has_dep_prefix(deps: Seq<Seq<char>>, p: Seq<char>) -> bool {
    exists|i: int| 0 <= i < deps.len() && is_prefix(p, #[trigger] deps[i])
}

/// The dependencies of the modules without a path, added after `deps`
/// (each written `name": "version`); a crate already listed is skipped.
pub open spec fn ts_module_deps(deps: Seq<Seq<char>>, mods: Seq<ModuleUse>) -> Seq<Seq<char>>
    decreases mods.len(),
{
    if mods.len() == 0 {
        deps
    } else {
        let p = ts_module_deps(deps, mods.drop_last());
        let m = mods.last();
        let name = crate_of(m.name@);
        if m.path is None && !has_dep_prefix(p, name + "\""@) {
            p.push(name + "\": \""@ + match m.version {
                Some(v) => v@,
                None => "*"@,
            })
        } else {
            p
        }
    }
}

pub open spec fn ts_base_deps(service: Service) -> Seq<Seq<char>> {
    seq!["@grpc/grpc-js\": \"^1.10.4\""@, "@grpc/proto-loader\": \"^0.7.13\""@] + if service.events.config is Some {
        seq!["redis\": \"^4.6.13\""@]
    } else {
        Seq::empty()
    }
}

pub open spec fn spec_ts_deps(service: Service) -> Seq<Seq<char>> {
    ts_module_deps(ts_base_deps(service), service.common.modules@)
}

/// `package.json` of the gRPC server.
pub open spec fn spec_build_package_json(service: Service) -> Seq<char> {
    let name = unicode_lowercase(service.name@);
    let deps_block = seq_join(spec_ts_deps(service), ",\n    \""@);
    "{\n  \"name\": \""@ + name + "-grpc\",\n  \"version\": \"0.1.0\",\n  \"type\": \"commonjs\",\n  \"scripts\": {\n    \"install:deps\": \"bun install\",\n    \"dev\": \"ts-node src/index.ts\",\n    \"build\": \"tsc\",\n    \"start\": \"node dist/index.js\"\n  },\n  \"dependencies\": {\n    \""@ + deps_block + "\n  },\n  \"devDependencies\": {\n    \"typescript\": \"^5.5.0\",\n    \"ts-node\": \"^10.9.2\"\n  }\n}\n"@
}

fn contains_dep_prefix(deps: &Vec<String>, p: &str) -> (r: bool)
    ensures
        r == has_dep_prefix(views(deps@), p@),
{
    let mut i: usize = 0;
    while i < deps.len()
        invariant
            0 <= i <= deps@.len(),
            forall|j: int| 0 <= j < i ==> !is_prefix(p@, #[trigger] views(deps@)[j]),
        decreases deps@.len() - i,
    {
        if starts_with(deps[i].as_str(), p) {
            assert(is_prefix(p@, views(deps@)[i as int]));
            return true;
        }
        i += 1;
    }
    false
}

pub fn build_package_json(service: &Service) -> (r: String)
    ensures
        r@ == spec_build_package_json(*service),
{
    let mut deps: Vec<String> = Vec::new();
    let a = String::from_str("@grpc/grpc-js\": \"^1.10.4\"");
    proof {
        lemma_views_push(deps@, a);
    }
    deps.push(a);
    let b = String::from_str("@grpc/proto-loader\": \"^0.7.13\"");
    proof {
        lemma_views_push(deps@, b);
    }
    deps.push(b);
    if service.events.config.is_some() {
        let c = String::from_str("redis\": \"^4.6.13\"");
        proof {
            lemma_views_push(deps@, c);
        }
        deps.push(c);
    }
    assert(views(deps@) =~= ts_base_deps(*service));
    let ghost base = views(deps@);
    let mods = &service.common.modules;
    let mut i: usize = 0;
    while i < mods.len()
        invariant
            0 <= i <= mods@.len(),
            mods@ == service.common.modules@,
            views(deps@) == ts_module_deps(base, mods@.take(i as int)),
        decreases mods@.len() - i,
    {
        proof {
            assert(mods@.take(i + 1).drop_last() =~= mods@.take(i as int));
        }
        let m = &mods[i];
        if m.path.is_none() {
            let name = crate_of_path(m.name.as_str());
            let mut p = name.clone();
            p.append("\"");
            if !contains_dep_prefix(&deps, p.as_str()) {
                let mut d = name;
                d.append("\": \"");
                match &m.version {
                    Some(v) => d.append(v.as_str()),
                    None => d.append("*"),
                }
                proof {
                    lemma_views_push(deps@, d);
                }
                deps.push(d);
            }
        }
        i += 1;
    }
    proof {
        lemma_take_full(mods@);
    }
    let deps_block = join(&deps, ",\n    \"");
    let name = to_lowercase(service.name.as_str());
    let mut s = String::from_str("{\n  \"name\": \"");
    s.append(name.as_str());
    s.append("-grpc\",\n  \"version\": \"0.1.0\",\n  \"type\": \"commonjs\",\n  \"scripts\": {\n    \"install:deps\": \"bun install\",\n    \"dev\": \"ts-node src/index.ts\",\n    \"build\": \"tsc\",\n    \"start\": \"node dist/index.js\"\n  },\n  \"dependencies\": {\n    \"");
    s.append(deps_block.as_str());
    s.append("\n  },\n  \"devDependencies\": {\n    \"typescript\": \"^5.5.0\",\n    \"ts-node\": \"^10.9.2\"\n  }\n}\n");
    s
}

/// `tsconfig.json` of the gRPC server.
pub open spec fn tsconfig() -> Seq<char> {
    "{\n  \"compilerOptions\": {\n    \"target\": \"ES2020\",\n    \"module\": \"CommonJS\",\n    \"outDir\": \"dist\",\n    \"esModuleInterop\": true,\n    \"strict\": true,\n    \"lib\": [\"ES2020\", \"DOM\"]\n  }\n}\n"@
}

pub fn render_tsconfig() -> (r: String)
    ensures
        r@ == tsconfig(),
{
    String::from_str("{\n  \"compilerOptions\": {\n    \"target\": \"ES2020\",\n    \"module\": \"CommonJS\",\n    \"outDir\": \"dist\",\n    \"esModuleInterop\": true,\n    \"strict\": true,\n    \"lib\": [\"ES2020\", \"DOM\"]\n  }\n}\n")
}

// ---------------------------------------------------------------------------
// Server settings
// ---------------------------------------------------------------------------

/// The server options: the message size limits when configured.
pub open spec fn spec_render_server_options(service: Service) -> Seq<char> {
    "const serverOptions: Record<string, any> = {};"@ + match service.rpc.grpc_config {
        Some(cfg) => match cfg.max_message_size {
            Some(size) => "\nserverOptions['grpc.max_receive_message_length'] = "@ + dec_nat(size as nat)
                + ";"@ + "\nserverOptions['grpc.max_send_message_length'] = "@ + dec_nat(size as nat)
                + ";"@,
            None => Seq::empty(),
        },
        None => Seq::empty(),
    }
}

pub fn render_server_options(service: &Service) -> (r: String)
    ensures
        r@ == spec_render_server_options(*service),
{
    let mut s = String::from_str("const serverOptions: Record<string, any> = {};");
    match &service.rpc.grpc_config {
        Some(cfg) => match cfg.max_message_size {
            Some(size) => {
                let d = u64_to_string(size);
                s.append("\nserverOptions['grpc.max_receive_message_length'] = ");
                s.append(d.as_str());
                s.append(";");
                s.append("\nserverOptions['grpc.max_send_message_length'] = ");
                s.append(d.as_str());
                s.append(";");
            },
            None => {},
        },
        None => {},
    }
    s
}

/// TLS credentials from the configured files, else insecure ones.
pub open spec fn spec_render_server_creds(service: Service) -> Seq<char> {
    match service.rpc.grpc_config {
        Some(cfg) => match (cfg.tls_cert, cfg.tls_key) {
            (Some(c), Some(k)) => "grpc.ServerCredentials.createSsl(null, [{ cert_chain: fs.readFileSync('"@ + c@ + "'), private_key: fs.readFileSync('"@ + k@ + "') }])"@,
            _ => "grpc.ServerCredentials.createInsecure()"@,
        },
        None => "grpc.ServerCredentials.createInsecure()"@,
    }
}

pub fn render_server_creds(service: &Service) -> (r: String)
    ensures
        r@ == spec_render_server_creds(*service),
{
    match &service.rpc.grpc_config {
        Some(cfg) => match (&cfg.tls_cert, &cfg.tls_key) {
            (Some(c), Some(k)) => {
                let mut s = String::from_str("grpc.ServerCredentials.createSsl(null, [{ cert_chain: fs.readFileSync('");
                s.append(c.as_str());
                s.append("'), private_key: fs.readFileSync('");
                s.append(k.as_str());
                s.append("') }])");
                s
            },
            _ => String::from_str("grpc.ServerCredentials.createInsecure()"),
        },
        None => String::from_str("grpc.ServerCredentials.createInsecure()"),
    }
}

pub open spec fn rpc_reads_headers(r: RpcDef) -> bool {
    r.headers@.len() > 0
}

pub open spec fn any_rpc_headers(service: Service) -> bool {
    exists|i: int| 0 <= i < service.rpc.methods@.len() && rpc_reads_headers(#[trigger] service.rpc.methods@[i])
}

fn rpc_headers_exec(service: &Service) -> (r: bool)
    ensures
        r == any_rpc_headers(*service),
{
    let v = &service.rpc.methods;
    let mut i: usize = 0;
    while i < v.len()
        invariant
            0 <= i <= v@.len(),
            v@ == service.rpc.methods@,
            forall|j: int| 0 <= j < i ==> !rpc_reads_headers(#[trigger] v@[j]),
        decreases v@.len() - i,
    {
        if v[i].headers.len() > 0 {
            assert(rpc_reads_headers(v@[i as int]));
            return true;
        }
        i += 1;
    }
    false
}

/// The metadata reader, when a method reads headers or authenticates.
pub open spec fn spec_ts_header_helpers(service: Service) -> Seq<char> {
    if !any_rpc_headers(service) && !grpc_needs_auth(service) {
        Seq::empty()
    } else {
        "\nfunction metaGet(metadata: any, name: string): string | undefined {\n  const vals = metadata.get(name);\n  if (!vals || vals.length === 0) return undefined;\n  return String(vals[0]);\n}\n"@
    }
}

pub fn render_header_helpers(service: &Service) -> (r: String)
    ensures
        r@ == spec_ts_header_helpers(*service),
{
    if !rpc_headers_exec(service) && !crate::generators::grpc::go::service_needs_auth(service) {
        return String::new();
    }
    String::from_str("\nfunction metaGet(metadata: any, name: string): string | undefined {\n  const vals = metadata.get(name);\n  if (!vals || vals.length === 0) return undefined;\n  return String(vals[0]);\n}\n")
}

/// The status label of the access log, when there are methods.
pub open spec fn spec_ts_access_log_helpers(service: Service) -> Seq<char> {
    if service.rpc.methods@.len() == 0 {
        Seq::empty()
    } else {
        "\nfunction grpcStatusLabel(err?: any): string {\n  if (!err || err.code === undefined || err.code === null) return 'OK';\n  for (const [name, value] of Object.entries(grpc.status)) {\n    if (value === err.code) return String(name);\n  }\n  return String(err.code);\n}\n"@
    }
}

pub fn render_access_log_helpers(service: &Service) -> (r: String)
    ensures
        r@ == spec_ts_access_log_helpers(*service),
{
    if service.rpc.methods.len() == 0 {
        return String::new();
    }
    String::from_str("\nfunction grpcStatusLabel(err?: any): string {\n  if (!err || err.code === undefined || err.code === null) return 'OK';\n  for (const [name, value] of Object.entries(grpc.status)) {\n    if (value === err.code) return String(name);\n  }\n  return String(err.code);\n}\n")
}

// ---------------------------------------------------------------------------
// Handlers
// ---------------------------------------------------------------------------

/// The value of one header read from the metadata, converted by type.
pub open spec fn spec_ts_header_value(f: Field) -> Seq<char> {
    let g = "metaGet(metadata, \""@ + f.name@ + "\")"@;
    match f.ty {
        Type::Int => g + " ? Number("@ + g + ") : undefined"@,
        Type::Float => g + " ? Number("@ + g + ") : undefined"@,
        Type::Bool => g + " ? ("@ + g + " === 'true') : undefined"@,
        _ => g + " ?? undefined"@,
    }
}

fn ts_header_value(f: &Field) -> (r: String)
    ensures
        r@ == spec_ts_header_value(*f),
{
    let mut g = String::from_str("metaGet(metadata, \"");
    g.append(f.name.as_str());
    g.append("\")");
    let mut s = String::from_str(g.as_str());
    match f.ty {
        Type::Int | Type::Float => {
            s.append(" ? Number(");
            s.append(g.as_str());
            s.append(") : undefined");
        },
        Type::Bool => {
            s.append(" ? (");
            s.append(g.as_str());
            s.append(" === 'true') : undefined");
        },
        _ => {
            s.append(" ?? undefined");
        },
    }
    s
}

/// The constant of one header; a required one answers `INVALID_ARGUMENT`
/// when missing.
pub open spec fn spec_ts_header_line(f: Field) -> Seq<char> {
    let value = spec_ts_header_value(f);
    if f.optional {
        "    const "@ + f.name@ + " = "@ + value + ";"@
    } else {
        "    const "@ + f.name@ + " = "@ + value + ";\n    if ("@ + f.name@ + " === undefined) {\n      return callback({ code: grpc.status.INVALID_ARGUMENT, message: 'missing header "@ + f.name@ + "' });\n    }"@
    }
}

pub open spec fn field_names(fs: Seq<Field>) -> Seq<Seq<char>> {
    fs.map_values(|f: Field| f.name@)
}

/// The headers of a method read into constants and gathered in an object.
pub open spec fn spec_ts_headers_init(rpc: RpcDef) -> Seq<char> {
    if rpc.headers@.len() == 0 {
        Seq::empty()
    } else {
        concat_all(rpc.headers@, |f: Field| spec_ts_header_line(f) + "\n"@) + "    const headers = { "@
            + seq_join(field_names(rpc.headers@), ", "@) + " };\n"@
    }
}

pub fn render_headers_init(rpc: &RpcDef) -> (r: String)
    ensures
        r@ == spec_ts_headers_init(*rpc),
{
    if rpc.headers.len() == 0 {
        return String::new();
    }
    let ghost fl = |f: Field| spec_ts_header_line(f) + "\n"@;
    let v = &rpc.headers;
    let mut out = String::new();
    let mut names: Vec<String> = Vec::new();
    let mut i: usize = 0;
    while i < v.len()
        invariant
            0 <= i <= v@.len(),
            v@ == rpc.headers@,
            fl == (|f: Field| spec_ts_header_line(f) + "\n"@),
            out@ == concat_all(v@.take(i as int), fl),
            views(names@) == field_names(v@.take(i as int)),
        decreases v@.len() - i,
    {
        proof {
            lemma_concat_all_step(v@, i as int, fl);
        }
        let f = &v[i];
        let value = ts_header_value(f);
        if f.optional {
            out.append("    const ");
            out.append(f.name.as_str());
            out.append(" = ");
            out.append(value.as_str());
            out.append(";");
        } else {
        let mut s = String::from_str("    const ");
        s.append(f.name.as_str());
        s.append(" = ");
        s.append(value.as_str());
        s.append(";\n    if (");
        s.append(f.name.as_str());
        s.append(" === undefined) {\n      return callback({ code: grpc.status.INVALID_ARGUMENT, message: 'missing header ");
        s.append(f.name.as_str());
        s.append("' });\n    }");
            out.append(s.as_str());
        }
        out.append("\n");
        let n = f.name.clone();
        proof {
            lemma_views_push(names@, n);
        }
        names.push(n);
        i += 1;
        assert(views(names@) =~= field_names(v@.take(i as int)));
    }
    proof {
        lemma_take_full(v@);
    }
    out.append("    const headers = { ");
    let j = join(&names, ", ");
    out.append(j.as_str());
    out.append(" };\n");
    out
}

pub open spec fn spec_ts_auth_check(rpc: RpcDef, service: Service) -> Seq<char> {
    match spec_effective_auth(rpc.auth, service.common.auth) {
        Some(AuthSpec::Bearer) => "      const token = metaGet(metadata, 'authorization');\n      if (!token) { return callback({ code: grpc.status.UNAUTHENTICATED, message: 'missing authorization' }); }\n"@,
        Some(AuthSpec::ApiKey) => "      const token = metaGet(metadata, 'x-api-key');\n      if (!token) { return callback({ code: grpc.status.UNAUTHENTICATED, message: 'missing api key' }); }\n"@,
        _ => Seq::empty(),
    }
}

pub fn render_auth_check(rpc: &RpcDef, service: &Service) -> (r: String)
    ensures
        r@ == spec_ts_auth_check(*rpc, *service),
{
    match effective_auth(rpc.auth, service.common.auth) {
        Some(AuthSpec::Bearer) => String::from_str("      const token = metaGet(metadata, 'authorization');\n      if (!token) { return callback({ code: grpc.status.UNAUTHENTICATED, message: 'missing authorization' }); }\n"),
        Some(AuthSpec::ApiKey) => String::from_str("      const token = metaGet(metadata, 'x-api-key');\n      if (!token) { return callback({ code: grpc.status.UNAUTHENTICATED, message: 'missing api key' }); }\n"),
        _ => String::new(),
    }
}

pub open spec fn ts_mw_call_fn() -> spec_fn(String) -> Seq<char> {
    |n: String| "      await "@ + n@ + "({ metadata });\n"@
}

pub open spec fn spec_ts_middleware_calls(rpc: RpcDef, service: Service) -> Seq<char> {
    concat_all(service.common.middleware@ + rpc.middleware@, ts_mw_call_fn())
}

fn push_ts_mw_calls(out: &mut String, v: &Vec<String>)
    ensures
        final(out)@ == old(out)@ + concat_all(v@, ts_mw_call_fn()),
{
    let ghost head = out@;
    let mut i: usize = 0;
    while i < v.len()
        invariant
            0 <= i <= v@.len(),
            out@ == head + concat_all(v@.take(i as int), ts_mw_call_fn()),
        decreases v@.len() - i,
    {
        proof {
            lemma_concat_all_step(v@, i as int, ts_mw_call_fn());
        }
        out.append("      await ");
        out.append(v[i].as_str());
        out.append("({ metadata });\n");
        i += 1;
    }
    proof {
        lemma_take_full(v@);
    }
}

pub fn render_middleware_calls(rpc: &RpcDef, service: &Service) -> (r: String)
    ensures
        r@ == spec_ts_middleware_calls(*rpc, *service),
{
    let mut out = String::new();
    push_ts_mw_calls(&mut out, &service.common.middleware);
    push_ts_mw_calls(&mut out, &rpc.middleware);
    proof {
        crate::generators::grpc::go::lemma_concat_all_add(service.common.middleware@, rpc.middleware@, ts_mw_call_fn());
        assert(out@ =~= spec_ts_middleware_calls(*rpc, *service));
    }
    out
}

pub open spec fn spec_ts_rate_limit_check(rpc: RpcDef, service: Service) -> Seq<char> {
    if spec_rpc_rate_limit(rpc, service) is None {
        Seq::empty()
    } else {
        "      if (!rateLimit"@ + spec_rpc_code_name(rpc)
            + ".allow()) { return callback({ code: grpc.status.RESOURCE_EXHAUSTED, message: 'rate limited' }); }\n"@
    }
}

pub fn render_rate_limit_check(rpc: &RpcDef, service: &Service) -> (r: String)
    ensures
        r@ == spec_ts_rate_limit_check(*rpc, *service),
{
    if effective_rate_limit(rpc, service).is_none() {
        return String::new();
    }
    let mut s = String::from_str("      if (!rateLimit");
    let c = rpc.code_name();
    s.append(c.as_str());
    s.append(".allow()) { return callback({ code: grpc.status.RESOURCE_EXHAUSTED, message: 'rate limited' }); }\n");
    s
}

/// A request field or header as a TypeScript expression.
pub open spec fn spec_ts_input_ref(input: InputRef) -> Seq<char> {
    let base = if input.source is Headers {
        "headers"@
    } else {
        "input"@
    };
    if input.path@.len() == 0 {
        base
    } else {
        base + "."@ + seq_join(views(input.path@), "."@)
    }
}

pub fn render_input_ref(input: &InputRef) -> (r: String)
    ensures
        r@ == spec_ts_input_ref(*input),
{
    let mut base = match input.source {
        InputSource::Headers => String::from_str("headers"),
        _ => String::from_str("input"),
    };
    if input.path.len() == 0 {
        return base;
    }
    let j = join(&input.path, ".");
    base.append(".");
    base.append(j.as_str());
    base
}

pub open spec fn ts_arg_views(args: Seq<CallArg>) -> Seq<Seq<char>> {
    args.map_values(|a: CallArg| spec_ts_input_ref(a.value))
}

pub open spec fn spec_ts_call_expr(rpc: RpcDef) -> Seq<char> {
    rpc.call.module@ + "."@ + rpc.call.function@ + "("@ + seq_join(ts_arg_views(rpc.call.args@), ", "@) + ")"@
}

pub fn render_call_expr(rpc: &RpcDef) -> (r: String)
    ensures
        r@ == spec_ts_call_expr(*rpc),
{
    let args = &rpc.call.args;
    let mut parts: Vec<String> = Vec::new();
    let mut i: usize = 0;
    while i < args.len()
        invariant
            0 <= i <= args@.len(),
            args@ == rpc.call.args@,
            views(parts@) == ts_arg_views(args@.take(i as int)),
        decreases args@.len() - i,
    {
        let s = render_input_ref(&args[i].value);
        proof {
            lemma_views_push(parts@, s);
        }
        parts.push(s);
        i += 1;
        assert(views(parts@) =~= ts_arg_views(args@.take(i as int)));
    }
    proof {
        lemma_take_full(args@);
    }
    let j = join(&parts, ", ");
    let mut s = String::from_str(rpc.call.module.as_str());
    s.append(".");
    s.append(rpc.call.function.as_str());
    s.append("(");
    s.append(j.as_str());
    s.append(")");
    s
}

/// The response of a method: empty for void, the result for messages and
/// JSON values, `{ value: result }` for scalars and arrays.
pub open spec fn spec_ts_response_expr(rpc: RpcDef) -> Seq<char> {
    match rpc.output {
        Type::Void => "{}"@,
        Type::Array(_) | Type::String | Type::Int | Type::Float | Type::Bool => "{ value: result }"@,
        _ => "result"@,
    }
}

pub fn render_response_expr(rpc: &RpcDef) -> (r: String)
    ensures
        r@ == spec_ts_response_expr(*rpc),
{
    match rpc.output {
        Type::Void => String::from_str("{}"),
        Type::Array(_) | Type::String | Type::Int | Type::Float | Type::Bool => String::from_str("{ value: result }"),
        _ => String::from_str("result"),
    }
}

#[verifier::opaque]
pub open spec fn ts_method_template(method: Seq<char>, auth: Seq<char>, headers_init: Seq<char>, middleware: Seq<char>, rate_limit: Seq<char>, call_expr: Seq<char>, service_name: Seq<char>, rpc_name: Seq<char>, response: Seq<char>) -> Seq<char> {
    "  "@ + method + ": async (call: any, callback: any) => {\n    const started = Date.now();\n    try {\n      const metadata = call.metadata;\n"@ + auth + headers_init + middleware + rate_limit + "      const input = call.request;\n      const result = "@ + call_expr + ";\n      console.error('["@ + service_name + "] gRPC "@ + rpc_name + " -> ' + grpcStatusLabel() + ' (' + (Date.now() - started) + 'ms)');\n      callback(null, "@ + response + ");\n    } catch (err: any) {\n      console.error('["@ + service_name + "] gRPC "@ + rpc_name + " -> ' + grpcStatusLabel(err) + ' (' + (Date.now() - started) + 'ms)');\n      callback(err);\n    }\n  },\n"@
}

/// The handler of one method: access log, authentication, headers,
/// middleware, rate limit, the module call and the callback.
pub open spec fn spec_ts_method(rpc: RpcDef, service: Service) -> Seq<char> {
    ts_method_template(
        rpc.name@,
        spec_ts_auth_check(rpc, service),
        spec_ts_headers_init(rpc),
        spec_ts_middleware_calls(rpc, service),
        spec_ts_rate_limit_check(rpc, service),
        spec_ts_call_expr(rpc),
        service.name@,
        spec_rpc_code_name(rpc),
        spec_ts_response_expr(rpc),
    )
}

pub fn render_ts_method(rpc: &RpcDef, service: &Service) -> (r: String)
    ensures
        r@ == spec_ts_method(*rpc, *service),
{
    let method = &rpc.name;
    let call_expr = render_call_expr(rpc);
    let response = render_response_expr(rpc);
    let auth = render_auth_check(rpc, service);
    let headers_init = render_headers_init(rpc);
    let middleware = render_middleware_calls(rpc, service);
    let rate_limit = render_rate_limit_check(rpc, service);
    let service_name = &service.name;
    let rpc_name = rpc.code_name();
    let mut s = String::from_str("  ");
    s.append(method.as_str());
    s.append(": async (call: any, callback: any) => {\n    const started = Date.now();\n    try {\n      const metadata = call.metadata;\n");
    s.append(auth.as_str());
    s.append(headers_init.as_str());
    s.append(middleware.as_str());
    s.append(rate_limit.as_str());
    s.append("      const input = call.request;\n      const result = ");
    s.append(call_expr.as_str());
    s.append(";\n      console.error('[");
    s.append(service_name.as_str());
    s.append("] gRPC ");
    s.append(rpc_name.as_str());
    s.append(" -> ' + grpcStatusLabel() + ' (' + (Date.now() - started) + 'ms)');\n      callback(null, ");
    s.append(response.as_str());
    s.append(");\n    } catch (err: any) {\n      console.error('[");
    s.append(service_name.as_str());
    s.append("] gRPC ");
    s.append(rpc_name.as_str());
    s.append(" -> ' + grpcStatusLabel(err) + ' (' + (Date.now() - started) + 'ms)');\n      callback(err);\n    }\n  },\n");
    proof {
        reveal(ts_method_template);
    }
    s
}

// ---------------------------------------------------------------------------
// Middleware and rate limits
// ---------------------------------------------------------------------------

pub open spec fn ts_mw_func_fn() -> spec_fn(Seq<char>) -> Seq<char> {
    |n: Seq<char>| "export async function "@ + n + "(ctx: RpcContext): Promise<void> {\n  const directive = middlewareDirective(ctx, '"@ + n + "');\n  if (directive === 'block' || directive === 'deny' || directive === 'forbid') {\n    const err: any = new Error('blocked by middleware "@ + n + "');\n    err.code = grpc.status.PERMISSION_DENIED;\n    throw err;\n  }\n}\n"@
}

/// The middleware functions, once per name in text order; nothing when
/// no middleware is used.
pub open spec fn spec_build_middleware_ts(service: Service) -> Seq<char> {
    let names = name_set(grpc_middleware_names(service));
    if names.len() == 0 {
        Seq::empty()
    } else {
        "\nexport type RpcContext = { metadata: any };\nfunction middlewareDirective(ctx: RpcContext, name: string): string | undefined {\n  return metaGet(ctx.metadata, `x-nimesvc-middleware-${name.replace(/_/g, '-')}`)?.trim().toLowerCase();\n}\n"@ + concat_all(names, ts_mw_func_fn())
    }
}

pub fn build_middleware_ts(service: &Service) -> (r: String)
    ensures
        r@ == spec_build_middleware_ts(*service),
{
    let all = grpc_middleware_list(service);
    let names = names_to_set(&all);
    if names.len() == 0 {
        return String::new();
    }
    let ghost nv = strings_view(names@);
    let mut out = String::from_str("\nexport type RpcContext = { metadata: any };\nfunction middlewareDirective(ctx: RpcContext, name: string): string | undefined {\n  return metaGet(ctx.metadata, `x-nimesvc-middleware-${name.replace(/_/g, '-')}`)?.trim().toLowerCase();\n}\n");
    let ghost start = out@;
    let mut k: usize = 0;
    while k < names.len()
        invariant
            0 <= k <= names@.len(),
            nv == strings_view(names@),
            out@ == start + concat_all(nv.take(k as int), ts_mw_func_fn()),
        decreases names@.len() - k,
    {
        proof {
            lemma_concat_all_step(nv, k as int, ts_mw_func_fn());
        }
        assert(nv[k as int] == names@[k as int]@);
        let mut s = String::from_str("export async function ");
        s.append(names[k].as_str());
        s.append("(ctx: RpcContext): Promise<void> {\n  const directive = middlewareDirective(ctx, '");
        s.append(names[k].as_str());
        s.append("');\n  if (directive === 'block' || directive === 'deny' || directive === 'forbid') {\n    const err: any = new Error('blocked by middleware ");
        s.append(names[k].as_str());
        s.append("');\n    err.code = grpc.status.PERMISSION_DENIED;\n    throw err;\n  }\n}\n");
        out.append(s.as_str());
        k += 1;
    }
    proof {
        lemma_take_full(nv);
    }
    out
}

pub open spec fn rate_limit_entries(methods: Seq<RpcDef>, service: Service) -> Seq<Seq<char>>
    decreases methods.len(),
{
    if methods.len() == 0 {
        Seq::empty()
    } else {
        let p = rate_limit_entries(methods.drop_last(), service);
        let r = methods.last();
        match spec_rpc_rate_limit(r, service) {
            Some(l) => p.push("const rateLimit"@ + spec_rpc_code_name(r) + " = new RateLimit("@ + dec_nat(l.max as nat)
                + ", "@ + dec_nat(l.per_seconds as nat) + " * 1000);"@),
            None => p,
        }
    }
}

/// The limiter class and one limiter per method with a limit; nothing
/// when no method has one.
pub open spec fn spec_ts_rate_limit_defs(service: Service) -> Seq<char> {
    let entries = rate_limit_entries(service.rpc.methods@, service);
    if entries.len() == 0 {
        Seq::empty()
    } else {
        "\nclass RateLimit {\n  private count = 0;\n  private reset = Date.now();\n  constructor(private max: number, private windowMs: number) {}\n  allow(): boolean {\n    const now = Date.now();\n    if (now - this.reset >= this.windowMs) {\n      this.reset = now;\n      this.count = 0;\n    }\n    if (this.count >= this.max) return false;\n    this.count += 1;\n    return true;\n  }\n}\n"@ + "\n"@ + seq_join(entries, "\n"@) + "\n"@
    }
}

pub fn render_rate_limit_defs(service: &Service) -> (r: String)
    ensures
        r@ == spec_ts_rate_limit_defs(*service),
{
    let v = &service.rpc.methods;
    let mut entries: Vec<String> = Vec::new();
    let mut i: usize = 0;
    while i < v.len()
        invariant
            0 <= i <= v@.len(),
            v@ == service.rpc.methods@,
            views(entries@) == rate_limit_entries(v@.take(i as int), *service),
        decreases v@.len() - i,
    {
        proof {
            assert(v@.take(i + 1).drop_last() =~= v@.take(i as int));
        }
        match effective_rate_limit(&v[i], service) {
            Some(l) => {
                let mut e = String::from_str("const rateLimit");
                let c = v[i].code_name();
                e.append(c.as_str());
                e.append(" = new RateLimit(");
                let mx = u64_to_string(l.max as u64);
                e.append(mx.as_str());
                e.append(", ");
                let w = u64_to_string(l.per_seconds);
                e.append(w.as_str());
                e.append(" * 1000);");
                proof {
                    lemma_views_push(entries@, e);
                }
                entries.push(e);
            },
            None => {},
        }
        i += 1;
    }
    proof {
        lemma_take_full(v@);
    }
    if entries.len() == 0 {
        return String::new();
    }
    let mut out = String::from_str("\nclass RateLimit {\n  private count = 0;\n  private reset = Date.now();\n  constructor(private max: number, private windowMs: number) {}\n  allow(): boolean {\n    const now = Date.now();\n    if (now - this.reset >= this.windowMs) {\n      this.reset = now;\n      this.count = 0;\n    }\n    if (this.count >= this.max) return false;\n    this.count += 1;\n    return true;\n  }\n}\n");
    out.append("\n");
    let j = join(&entries, "\n");
    out.append(j.as_str());
    out.append("\n");
    out
}

// ---------------------------------------------------------------------------
// index.ts
// ---------------------------------------------------------------------------

#[verifier::opaque]
pub open spec fn ts_index_template(imports: Seq<char>, pkg: Seq<char>, service_name: Seq<char>, server_opts: Seq<char>, methods: Seq<char>, addr: Seq<char>, port: Seq<char>, creds: Seq<char>, event_consumers: Seq<char>, headers_helpers: Seq<char>, access_log_helpers: Seq<char>, middleware_defs: Seq<char>, rate_limit_defs: Seq<char>) -> Seq<char> {
    imports + "\n\nconst protoPath = path.join(__dirname, '..', 'rpc.proto');\nconst packageDef = protoLoader.loadSync(protoPath, {\n  keepCase: true,\n  longs: String,\n  enums: String,\n  defaults: true,\n  oneofs: true,\n});\nconst proto = (grpc.loadPackageDefinition(packageDef) as any);\n\nconst serviceDef = proto."@ + pkg + "."@ + service_name + ";\n"@ + server_opts + "\nconst server = new grpc.Server(serverOptions);\n\nserver.addService(serviceDef.service, {\n"@ + methods + "});\n\nserver.bindAsync('"@ + addr + ":"@ + port + "', "@ + creds + ", () => {\n  server.start();\n  console.log('gRPC server listening on "@ + addr + ":"@ + port + "');\n"@ + event_consumers + "\n});\n"@ + headers_helpers + "\n"@ + access_log_helpers + "\n"@ + middleware_defs + "\n"@ + rate_limit_defs + "\n"@
}

pub open spec fn ts_needs_tls(service: Service) -> bool {
    match service.rpc.grpc_config {
        Some(c) => c.tls_cert is Some,
        None => false,
    }
}

pub open spec fn ts_event_consumers(service: Service) -> bool {
    service.events.config is Some && service.events.subscribes@.len() > 0
}

/// The import lines of `index.ts`; `module_imports` are the lines that
/// import the service's runtime modules.
pub open spec fn spec_ts_imports(service: Service, module_imports: Seq<Seq<char>>) -> Seq<Seq<char>> {
    seq![
        "import * as grpc from '@grpc/grpc-js';"@,
        "import * as protoLoader from '@grpc/proto-loader';"@,
        "import path from 'path';"@,
    ] + (if ts_needs_tls(service) {
        seq!["import fs from 'fs';"@]
    } else {
        Seq::empty()
    }) + module_imports + if ts_event_consumers(service) {
        seq!["import * as events from './events';"@]
    } else {
        Seq::empty()
    }
}

pub open spec fn ts_method_fn(service: Service) -> spec_fn(RpcDef) -> Seq<char> {
    |r: RpcDef| spec_ts_method(r, service)
}

/// `src/index.ts` of the gRPC server: load the proto file, add one
/// handler per method, bind and start, then the helpers.
pub open spec fn spec_build_index_ts(service: Service, module_imports: Seq<Seq<char>>) -> Seq<char> {
    let ap = spec_grpc_addr_port(service);
    ts_index_template(
        seq_join(spec_ts_imports(service, module_imports), "\n"@),
        "nimesvc."@ + unicode_lowercase(service.name@),
        service.name@,
        spec_render_server_options(service),
        concat_all(service.rpc.methods@, ts_method_fn(service)),
        ap.0,
        dec_nat(ap.1 as nat),
        spec_render_server_creds(service),
        if ts_event_consumers(service) {
            "events.startEventConsumers();\n"@
        } else {
            Seq::empty()
        },
        spec_ts_header_helpers(service),
        spec_ts_access_log_helpers(service),
        spec_build_middleware_ts(service),
        spec_ts_rate_limit_defs(service),
    )
}

fn push_line(v: &mut Vec<String>, s: &str)
    ensures
        views(final(v)@) == views(old(v)@).push(s@),
{
    let x = String::from_str(s);
    proof {
        lemma_views_push(v@, x);
    }
    v.push(x);
}

pub fn build_index_ts(service: &Service, module_imports: &Vec<String>) -> (r: String)
    ensures
        r@ == spec_build_index_ts(*service, views(module_imports@)),
{
    let mut lines: Vec<String> = Vec::new();
    push_line(&mut lines, "import * as grpc from '@grpc/grpc-js';");
    push_line(&mut lines, "import * as protoLoader from '@grpc/proto-loader';");
    push_line(&mut lines, "import path from 'path';");
    let needs_tls = match &service.rpc.grpc_config {
        Some(c) => c.tls_cert.is_some(),
        None => false,
    };
    if needs_tls {
        push_line(&mut lines, "import fs from 'fs';");
    }
    let ghost before = views(lines@);
    let mut i: usize = 0;
    while i < module_imports.len()
        invariant
            0 <= i <= module_imports@.len(),
            views(lines@) == before + views(module_imports@.take(i as int)),
        decreases module_imports@.len() - i,
    {
        let x = module_imports[i].clone();
        proof {
            lemma_views_push(lines@, x);
            assert(views(module_imports@.take(i + 1)) =~= views(module_imports@.take(i as int)).push(module_imports@[i as int]@));
        }
        lines.push(x);
        i += 1;
    }
    proof {
        lemma_take_full(module_imports@);
    }
    let consumers = service.events.config.is_some() && service.events.subscribes.len() > 0;
    if consumers {
        push_line(&mut lines, "import * as events from './events';");
    }
    assert(views(lines@) =~= spec_ts_imports(*service, views(module_imports@)));
    let imports = join(&lines, "\n");
    let lower = to_lowercase(service.name.as_str());
    let mut pkg = String::from_str("nimesvc.");
    pkg.append(lower.as_str());
    let service_name = &service.name;
    let mut methods = String::new();
    let v = &service.rpc.methods;
    let mut k: usize = 0;
    while k < v.len()
        invariant
            0 <= k <= v@.len(),
            v@ == service.rpc.methods@,
            methods@ == concat_all(v@.take(k as int), ts_method_fn(*service)),
        decreases v@.len() - k,
    {
        proof {
            lemma_concat_all_step(v@, k as int, ts_method_fn(*service));
        }
        let m = render_ts_method(&v[k], service);
        methods.append(m.as_str());
        k += 1;
    }
    proof {
        lemma_take_full(v@);
    }
    let (addr, p) = grpc_addr_port(service);
    let port = u64_to_string(p as u64);
    let server_opts = render_server_options(service);
    let creds = render_server_creds(service);
    let headers_helpers = render_header_helpers(service);
    let access_log_helpers = render_access_log_helpers(service);
    let middleware_defs = build_middleware_ts(service);
    let rate_limit_defs = render_rate_limit_defs(service);
    let event_consumers = if consumers {
        String::from_str("events.startEventConsumers();\n")
    } else {
        String::new()
    };
    let mut s = String::from_str(imports.as_str());
    s.append("\n\nconst protoPath = path.join(__dirname, '..', 'rpc.proto');\nconst packageDef = protoLoader.loadSync(protoPath, {\n  keepCase: true,\n  longs: String,\n  enums: String,\n  defaults: true,\n  oneofs: true,\n});\nconst proto = (grpc.loadPackageDefinition(packageDef) as any);\n\nconst serviceDef = proto.");
    s.append(pkg.as_str());
    s.append(".");
    s.append(service_name.as_str());
    s.append(";\n");
    s.append(server_opts.as_str());
    s.append("\nconst server = new grpc.Server(serverOptions);\n\nserver.addService(serviceDef.service, {\n");
    s.append(methods.as_str());
    s.append("});\n\nserver.bindAsync('");
    s.append(addr.as_str());
    s.append(":");
    s.append(port.as_str());
    s.append("', ");
    s.append(creds.as_str());
    s.append(", () => {\n  server.start();\n  console.log('gRPC server listening on ");
    s.append(addr.as_str());
    s.append(":");
    s.append(port.as_str());
    s.append("');\n");
    s.append(event_consumers.as_str());
    s.append("\n});\n");
    s.append(headers_helpers.as_str());
    s.append("\n");
    s.append(access_log_helpers.as_str());
    s.append("\n");
    s.append(middleware_defs.as_str());
    s.append("\n");
    s.append(rate_limit_defs.as_str());
    s.append("\n");
    proof {
        reveal(ts_index_template);
    }
    s
}

} // verus!
