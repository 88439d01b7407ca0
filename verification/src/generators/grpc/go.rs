//! The gRPC server in Go: `go.mod`, the type aliases, `main.go`, the
//! server with one method per RPC, and the middleware.

use vstd::prelude::*;

use crate::generators::go::events::{import_block, render_import_block};
use crate::generators::go::middleware::{name_set, names_to_set, push_all};
use crate::generators::go::util::{
    go_field_name, go_type, render_module_imports, spec_go_field_name, spec_go_type,
    spec_render_module_imports, spec_type_uses_types_pkg, type_uses_types_pkg,
};
use crate::generators::rpc::spec_rpc_code_name;
use crate::ir::{
    effective_auth, spec_code_name, spec_effective_auth, AuthSpec, CallArg, EnumDef, Field, InputRef,
    InputSource, RateLimit, RpcDef, Service, Type, TypeDef, UseScope,
};
use crate::sorted::{ss_add, strings_view};
use crate::text::{
    concat_all, debug_quoted, debug_str, dec_nat, join, lemma_concat_all_step, lemma_take_full,
    lemma_views_push, seq_join, u64_to_string, views,
};

verus! {

// ---------------------------------------------------------------------------
// Settings of the gRPC server
// ---------------------------------------------------------------------------

/// The address and port to listen on: the gRPC configuration's, else
/// `127.0.0.1` and 50051.
pub open spec fn spec_grpc_addr_port(service: Service) -> (Seq<char>, u16) {
    match service.rpc.grpc_config {
        Some(cfg) => (match cfg.address {
            Some(a) => a@,
            None => "127.0.0.1"@,
        }, match cfg.port {
            Some(p) => p,
            None => 50051,
        }),
        None => ("127.0.0.1"@, 50051),
    }
}

pub fn grpc_addr_port(service: &Service) -> (r: (String, u16))
    ensures
        (r.0@, r.1) == spec_grpc_addr_port(*service),
{
    match &service.rpc.grpc_config {
        Some(cfg) => {
            let addr = match &cfg.address {
                Some(a) => a.clone(),
                None => String::from_str("127.0.0.1"),
            };
            let port: u16 = match cfg.port {
                Some(p) => p,
                None => 50051,
            };
            (addr, port)
        },
        None => (String::from_str("127.0.0.1"), 50051),
    }
}

/// TLS is on when both a certificate and a key are configured.
pub open spec fn spec_grpc_tls(service: Service) -> (bool, Seq<char>, Seq<char>) {
    match service.rpc.grpc_config {
        Some(cfg) => match (cfg.tls_cert, cfg.tls_key) {
            (Some(c), Some(k)) => (true, c@, k@),
            _ => (false, Seq::empty(), Seq::empty()),
        },
        None => (false, Seq::empty(), Seq::empty()),
    }
}

pub fn grpc_tls(service: &Service) -> (r: (bool, String, String))
    ensures
        (r.0, r.1@, r.2@) == spec_grpc_tls(*service),
{
    match &service.rpc.grpc_config {
        Some(cfg) => match (&cfg.tls_cert, &cfg.tls_key) {
            (Some(c), Some(k)) => (true, c.clone(), k.clone()),
            _ => (false, String::new(), String::new()),
        },
        None => (false, String::new(), String::new()),
    }
}

/// The server options limiting message sizes, when configured.
pub open spec fn spec_grpc_max_message(service: Service) -> Seq<char> {
    match service.rpc.grpc_config {
        Some(cfg) => match cfg.max_message_size {
            Some(size) => "    opts = append(opts, grpc.MaxRecvMsgSize(int("@ + dec_nat(size as nat) + ")), grpc.MaxSendMsgSize(int("@ + dec_nat(size as nat) + ")))\n"@,
            None => Seq::empty(),
        },
        None => Seq::empty(),
    }
}

pub fn grpc_max_message(service: &Service) -> (r: String)
    ensures
        r@ == spec_grpc_max_message(*service),
{
    match &service.rpc.grpc_config {
        Some(cfg) => match cfg.max_message_size {
            Some(size) => {
                let sz = u64_to_string(size);
                let mut s = String::from_str("    opts = append(opts, grpc.MaxRecvMsgSize(int(");
                s.append(sz.as_str());
                s.append(")), grpc.MaxSendMsgSize(int(");
                s.append(sz.as_str());
                s.append(")))\n");
                s
            },
            None => String::new(),
        },
        None => String::new(),
    }
}

/// The TLS credentials option, when TLS is on.
pub open spec fn spec_render_tls_opts(enabled: bool, cert: Seq<char>, key: Seq<char>) -> Seq<char> {
    if !enabled {
        Seq::empty()
    } else {
        "    creds, err := credentials.NewServerTLSFromFile(\""@ + cert + "\", \""@ + key + "\")\n    if err != nil {\n        panic(err)\n    }\n    opts = append(opts, grpc.Creds(creds))\n"@
    }
}

pub fn render_tls_opts(enabled: bool, cert: String, key: String) -> (r: String)
    ensures
        r@ == spec_render_tls_opts(enabled, cert@, key@),
{
    if !enabled {
        return String::new();
    }
    let mut s = String::from_str("    creds, err := credentials.NewServerTLSFromFile(\"");
    s.append(cert.as_str());
    s.append("\", \"");
    s.append(key.as_str());
    s.append("\")\n    if err != nil {\n        panic(err)\n    }\n    opts = append(opts, grpc.Creds(creds))\n");
    s
}

/// `go.mod` of the gRPC server; the Redis client when events go through
/// Redis.
pub open spec fn spec_build_grpc_go_mod(service: Service, module_name: Seq<char>) -> Seq<char> {
    "module "@ + module_name + "\n\ngo 1.20\n\nrequire (\n    google.golang.org/grpc v1.64.0\n    google.golang.org/protobuf v1.34.0\n"@
        + (if service.events.config is Some {
        "    github.com/redis/go-redis/v9 v9.5.1\n"@
    } else {
        Seq::empty()
    }) + " )\n"@
}

pub fn build_grpc_go_mod(service: &Service, module_name: &str) -> (r: String)
    ensures
        r@ == spec_build_grpc_go_mod(*service, module_name@),
{
    let mut s = String::from_str("module ");
    s.append(module_name);
    s.append("\n\ngo 1.20\n\nrequire (\n    google.golang.org/grpc v1.64.0\n    google.golang.org/protobuf v1.34.0\n");
    if service.events.config.is_some() {
        s.append("    github.com/redis/go-redis/v9 v9.5.1\n");
    }
    s.append(" )\n");
    s
}

/// The script generating the Go code of the proto file.
pub open spec fn gen_sh() -> Seq<char> {
    "#!/usr/bin/env bash\nset -e\nprotoc \\\n  --go_out=. --go_opt=paths=source_relative \\\n  --go-grpc_out=. --go-grpc_opt=paths=source_relative \\\n  proto/rpc.proto\n"@
}

pub fn render_gen_sh() -> (r: String)
    ensures
        r@ == gen_sh(),
{
    String::from_str("#!/usr/bin/env bash\nset -e\nprotoc \\\n  --go_out=. --go_opt=paths=source_relative \\\n  --go-grpc_out=. --go-grpc_opt=paths=source_relative \\\n  proto/rpc.proto\n")
}

// ---------------------------------------------------------------------------
// types.go
// ---------------------------------------------------------------------------

pub open spec fn alias_line(name: Seq<char>) -> Seq<char> {
    "type "@ + name + " = rpc."@ + name + "\n"@
}

pub open spec fn rpc_alias_lines(rpc: RpcDef) -> Seq<char> {
    let c = spec_rpc_code_name(rpc);
    "type "@ + c + "Request = rpc."@ + c + "Request\n"@ + "type "@ + c + "Response = rpc."@ + c
        + "Response\n"@
}

/// `types/types.go`: aliases of the generated message types for the
/// enums, the types and the requests and responses of every RPC.
pub open spec fn spec_grpc_types_go(service: Service, module_name: Seq<char>) -> Seq<char> {
    "package types\n\nimport rpc \""@ + module_name + "/proto\"\n\n"@ + concat_all(
        service.schema.enums@,
        |e: EnumDef| alias_line(spec_code_name(e.name)),
    ) + concat_all(service.schema.types@, |t: TypeDef| alias_line(spec_code_name(t.name)))
        + concat_all(service.rpc.methods@, |r: RpcDef| rpc_alias_lines(r))
}

pub fn build_types_go(service: &Service, module_name: &str) -> (r: String)
    ensures
        r@ == spec_grpc_types_go(*service, module_name@),
{
    let mut out = String::from_str("package types\n\nimport rpc \"");
    out.append(module_name);
    out.append("/proto\"\n\n");
    let ghost h0 = out@;
    let ghost fe = |e: EnumDef| alias_line(spec_code_name(e.name));
    let v = &service.schema.enums;
    let mut i: usize = 0;
    while i < v.len()
        invariant
            0 <= i <= v@.len(),
            v@ == service.schema.enums@,
            fe == (|e: EnumDef| alias_line(spec_code_name(e.name))),
            out@ == h0 + concat_all(v@.take(i as int), fe),
        decreases v@.len() - i,
    {
        proof {
            lemma_concat_all_step(v@, i as int, fe);
        }
        let n = v[i].name.code_name();
        out.append("type ");
        out.append(n.as_str());
        out.append(" = rpc.");
        out.append(n.as_str());
        out.append("\n");
        i += 1;
    }
    proof {
        lemma_take_full(v@);
    }
    let ghost h1 = out@;
    let ghost ft = |t: TypeDef| alias_line(spec_code_name(t.name));
    let v = &service.schema.types;
    let mut i: usize = 0;
    while i < v.len()
        invariant
            0 <= i <= v@.len(),
            v@ == service.schema.types@,
            ft == (|t: TypeDef| alias_line(spec_code_name(t.name))),
            out@ == h1 + concat_all(v@.take(i as int), ft),
        decreases v@.len() - i,
    {
        proof {
            lemma_concat_all_step(v@, i as int, ft);
        }
        let n = v[i].name.code_name();
        out.append("type ");
        out.append(n.as_str());
        out.append(" = rpc.");
        out.append(n.as_str());
        out.append("\n");
        i += 1;
    }
    proof {
        lemma_take_full(v@);
    }
    let ghost h2 = out@;
    let ghost fr = |r: RpcDef| rpc_alias_lines(r);
    let v = &service.rpc.methods;
    let mut i: usize = 0;
    while i < v.len()
        invariant
            0 <= i <= v@.len(),
            v@ == service.rpc.methods@,
            fr == (|r: RpcDef| rpc_alias_lines(r)),
            out@ == h2 + concat_all(v@.take(i as int), fr),
        decreases v@.len() - i,
    {
        proof {
            lemma_concat_all_step(v@, i as int, fr);
        }
        let c = v[i].code_name();
        let mut line = String::from_str("type ");
        line.append(c.as_str());
        line.append("Request = rpc.");
        line.append(c.as_str());
        line.append("Request\n");
        line.append("type ");
        line.append(c.as_str());
        line.append("Response = rpc.");
        line.append(c.as_str());
        line.append("Response\n");
        assert(line@ =~= rpc_alias_lines(v@[i as int]));
        out.append(line.as_str());
        i += 1;
    }
    proof {
        lemma_take_full(v@);
    }
    out
}

// ---------------------------------------------------------------------------
// main.go
// ---------------------------------------------------------------------------

#[verifier::opaque]
pub open spec fn grpc_main_body(addr: Seq<char>, port: Seq<char>, max_msg: Seq<char>, tls_opts: Seq<char>, service_name: Seq<char>, event_consumers: Seq<char>) -> Seq<char> {
    "func main() {\n    lis, err := net.Listen(\"tcp\", \""@ + addr + ":"@ + port + "\")\n    if err != nil {\n        panic(err)\n    }\n\n    opts := []grpc.ServerOption{}\n"@ + max_msg + tls_opts + "\n    s := grpc.NewServer(opts...)\n    rpc.Register"@ + service_name + "Server(s, &Server{})\n"@ + event_consumers + "\n    fmt.Println(\"gRPC server listening on "@ + addr + ":"@ + port + "\")\n    if err := s.Serve(lis); err != nil {\n        panic(err)\n    }\n}\n"@
}

pub open spec fn grpc_main_imports(service: Service, module_name: Seq<char>) -> Seq<Seq<char>> {
    seq!["\"fmt\""@, "\"net\""@, "\"google.golang.org/grpc\""@, "rpc \""@ + module_name + "/proto\""@]
        + if spec_grpc_tls(service).0 {
        seq!["\"google.golang.org/grpc/credentials\""@]
    } else {
        Seq::empty()
    }
}

/// `main.go` of the gRPC server: listen, apply the size and TLS options,
/// register the server, start event consumers when needed, serve.
pub open spec fn spec_grpc_main_go(service: Service, module_name: Seq<char>) -> Seq<char> {
    let ap = spec_grpc_addr_port(service);
    let tls = spec_grpc_tls(service);
    "package main\n\n"@ + import_block(grpc_main_imports(service, module_name)) + grpc_main_body(
        ap.0,
        dec_nat(ap.1 as nat),
        spec_grpc_max_message(service),
        spec_render_tls_opts(tls.0, tls.1, tls.2),
        service.name@,
        if service.events.config is Some && service.events.subscribes@.len() > 0 {
            "    StartEventConsumers()\n"@
        } else {
            Seq::empty()
        },
    )
}

pub fn build_main_go(service: &Service, module_name: &str) -> (r: String)
    ensures
        r@ == spec_grpc_main_go(*service, module_name@),
{
    let (addr, p) = grpc_addr_port(service);
    let (tls_enabled, cert, key) = grpc_tls(service);
    let max_msg = grpc_max_message(service);
    let mut imports: Vec<String> = Vec::new();
    imports.push(String::from_str("\"fmt\""));
    imports.push(String::from_str("\"net\""));
    imports.push(String::from_str("\"google.golang.org/grpc\""));
    let mut rp = String::from_str("rpc \"");
    rp.append(module_name);
    rp.append("/proto\"");
    imports.push(rp);
    if tls_enabled {
        imports.push(String::from_str("\"google.golang.org/grpc/credentials\""));
    }
    assert(views(imports@) =~= grpc_main_imports(*service, module_name@));
    let port = u64_to_string(p as u64);
    let tls_opts = render_tls_opts(tls_enabled, cert, key);
    let event_consumers = if service.events.config.is_some() && service.events.subscribes.len() > 0 {
        String::from_str("    StartEventConsumers()\n")
    } else {
        String::new()
    };
    let service_name = &service.name;
    let ib = render_import_block(&imports);
    let mut s = String::from_str("func main() {\n    lis, err := net.Listen(\"tcp\", \"");
    s.append(addr.as_str());
    s.append(":");
    s.append(port.as_str());
    s.append("\")\n    if err != nil {\n        panic(err)\n    }\n\n    opts := []grpc.ServerOption{}\n");
    s.append(max_msg.as_str());
    s.append(tls_opts.as_str());
    s.append("\n    s := grpc.NewServer(opts...)\n    rpc.Register");
    s.append(service_name.as_str());
    s.append("Server(s, &Server{})\n");
    s.append(event_consumers.as_str());
    s.append("\n    fmt.Println(\"gRPC server listening on ");
    s.append(addr.as_str());
    s.append(":");
    s.append(port.as_str());
    s.append("\")\n    if err := s.Serve(lis); err != nil {\n        panic(err)\n    }\n}\n");
    proof {
        reveal(grpc_main_body);
    }
    let mut out = String::from_str("package main\n\n");
    out.append(ib.as_str());
    out.append(s.as_str());
    out
}

// ---------------------------------------------------------------------------
// One method per RPC
// ---------------------------------------------------------------------------

/// The Go type a method answers.
pub open spec fn spec_grpc_response_type(rpc: RpcDef) -> Seq<char> {
    match rpc.output {
        Type::Void => "*rpc.Empty"@,
        Type::Any | Type::MapOf(_) | Type::Union(_) | Type::OneOf(_) | Type::Nullable(_) => "*rpc.Struct"@,
        Type::Named(n) => "*rpc."@ + spec_code_name(n),
        _ => "*rpc."@ + spec_rpc_code_name(rpc) + "Response"@,
    }
}

pub fn rpc_response_type(rpc: &RpcDef) -> (r: String)
    ensures
        r@ == spec_grpc_response_type(*rpc),
{
    match &rpc.output {
        Type::Void => String::from_str("*rpc.Empty"),
        Type::Any | Type::MapOf(_) | Type::Union(_) | Type::OneOf(_) | Type::Nullable(_) => String::from_str("*rpc.Struct"),
        Type::Named(n) => {
            let mut s = String::from_str("*rpc.");
            let c = n.code_name();
            s.append(c.as_str());
            s
        },
        _ => {
            let mut s = String::from_str("*rpc.");
            let c = rpc.code_name();
            s.append(c.as_str());
            s.append("Response");
            s
        },
    }
}

pub open spec fn decode_into(ty: Seq<char>) -> Seq<char> {
    "    var response rpc."@ + ty + "\n    if data, err := json.Marshal(result); err == nil {\n        _ = json.Unmarshal(data, &response)\n    }\n"@
}

/// The statements turning the module's result into the response, and the
/// response expression.
pub open spec fn spec_grpc_response_expr(rpc: RpcDef) -> (Seq<char>, Seq<char>) {
    match rpc.output {
        Type::Void => (Seq::empty(), "&rpc.Empty{}"@),
        Type::Named(n) => (decode_into(spec_code_name(n)), "&response"@),
        Type::Object(_) => (decode_into(spec_rpc_code_name(rpc) + "Response"@), "&response"@),
        Type::Any | Type::MapOf(_) | Type::Union(_) | Type::OneOf(_) | Type::Nullable(_) => (
            "    data, _ := json.Marshal(result)\n    var tmp map[string]any\n    _ = json.Unmarshal(data, &tmp)\n    response, _ := structpb.NewStruct(tmp)\n"@,
            "response"@,
        ),
        _ => (Seq::empty(), "&rpc."@ + spec_rpc_code_name(rpc) + "Response{Value: result}"@),
    }
}

fn decode_into_exec(ty: &str) -> (r: String)
    ensures
        r@ == decode_into(ty@),
{
    let mut s = String::from_str("    var response rpc.");
    s.append(ty);
    s.append("\n    if data, err := json.Marshal(result); err == nil {\n        _ = json.Unmarshal(data, &response)\n    }\n");
    s
}

pub fn render_response_expr(rpc: &RpcDef) -> (r: (String, String))
    ensures
        (r.0@, r.1@) == spec_grpc_response_expr(*rpc),
{
    match &rpc.output {
        Type::Void => (String::new(), String::from_str("&rpc.Empty{}")),
        Type::Named(n) => {
            let c = n.code_name();
            (decode_into_exec(c.as_str()), String::from_str("&response"))
        },
        Type::Object(_) => {
            let mut c = rpc.code_name();
            c.append("Response");
            (decode_into_exec(c.as_str()), String::from_str("&response"))
        },
        Type::Any | Type::MapOf(_) | Type::Union(_) | Type::OneOf(_) | Type::Nullable(_) => (
            String::from_str("    data, _ := json.Marshal(result)\n    var tmp map[string]any\n    _ = json.Unmarshal(data, &tmp)\n    response, _ := structpb.NewStruct(tmp)\n"),
            String::from_str("response"),
        ),
        _ => {
            let mut s = String::from_str("&rpc.");
            let c = rpc.code_name();
            s.append(c.as_str());
            s.append("Response{Value: result}");
            (String::new(), s)
        },
    }
}

pub open spec fn go_seg_names(path: Seq<String>) -> Seq<Seq<char>> {
    path.map_values(|s: String| spec_go_field_name(s@))
}

/// An input reference in a method: a header of the headers struct, else
/// a field of the request, path segments in Go field style.
pub open spec fn spec_grpc_input_ref(input: InputRef) -> Seq<char> {
    let base = if input.source is Headers {
        "headers"@
    } else {
        "input"@
    };
    if input.path@.len() == 0 {
        base
    } else {
        base + "."@ + seq_join(go_seg_names(input.path@), "."@)
    }
}

pub fn render_input_ref(input: &InputRef) -> (r: String)
    ensures
        r@ == spec_grpc_input_ref(*input),
{
    let mut base = match input.source {
        InputSource::Headers => String::from_str("headers"),
        _ => String::from_str("input"),
    };
    if input.path.len() == 0 {
        return base;
    }
    let mut parts: Vec<String> = Vec::new();
    let mut i: usize = 0;
    while i < input.path.len()
        invariant
            0 <= i <= input.path@.len(),
            views(parts@) == go_seg_names(input.path@.take(i as int)),
        decreases input.path@.len() - i,
    {
        let n = go_field_name(input.path[i].as_str());
        proof {
            lemma_views_push(parts@, n);
        }
        parts.push(n);
        i += 1;
        assert(views(parts@) =~= go_seg_names(input.path@.take(i as int)));
    }
    proof {
        lemma_take_full(input.path@);
    }
    let j = join(&parts, ".");
    base.append(".");
    base.append(j.as_str());
    base
}

pub open spec fn grpc_arg_views(args: Seq<CallArg>) -> Seq<Seq<char>> {
    args.map_values(|a: CallArg| spec_grpc_input_ref(a.value))
}

pub fn render_call_args(args: &Vec<CallArg>) -> (r: String)
    ensures
        r@ == seq_join(grpc_arg_views(args@), ", "@),
{
    let mut parts: Vec<String> = Vec::new();
    let mut i: usize = 0;
    while i < args.len()
        invariant
            0 <= i <= args@.len(),
            views(parts@) == grpc_arg_views(args@.take(i as int)),
        decreases args@.len() - i,
    {
        let s = render_input_ref(&args[i].value);
        proof {
            lemma_views_push(parts@, s);
        }
        parts.push(s);
        i += 1;
        assert(views(parts@) =~= grpc_arg_views(args@.take(i as int)));
    }
    proof {
        lemma_take_full(args@);
    }
    join(&parts, ", ")
}

/// The module call of a method.
pub open spec fn spec_grpc_call_expr(rpc: RpcDef) -> Seq<char> {
    rpc.call.module@ + "."@ + rpc.call.function@ + "("@ + seq_join(grpc_arg_views(rpc.call.args@), ", "@) + ")"@
}

pub fn render_call_expr(rpc: &RpcDef) -> (r: String)
    ensures
        r@ == spec_grpc_call_expr(*rpc),
{
    let args = render_call_args(&rpc.call.args);
    let mut s = String::from_str(rpc.call.module.as_str());
    s.append(".");
    s.append(rpc.call.function.as_str());
    s.append("(");
    s.append(args.as_str());
    s.append(")");
    s
}

/// Reading one header from the metadata into the headers struct: parsed
/// as its type, stored by pointer when optional, and answered with
/// `InvalidArgument` when a required header is missing.
pub open spec fn spec_render_parse_string(
    target: Seq<char>,
    getter: Seq<char>,
    required: bool,
    optional: bool,
    ty: Type,
) -> Seq<char> {
    "    if val, ok := "@ + getter + "; ok {\n"@ + (match ty {
        Type::Int => "        if parsed, err := strconv.ParseInt(val, 10, 64); err == nil {\n"@,
        Type::Float => "        if parsed, err := strconv.ParseFloat(val, 64); err == nil {\n"@,
        Type::Bool => "        if parsed, ok := parseBool(val); ok {\n"@,
        _ => "        {\n            parsed := val\n"@,
    }) + (if optional {
        "            "@ + target + " = &parsed\n"@
    } else {
        "            "@ + target + " = parsed\n"@
    }) + "        }\n    } else {\n"@ + (if required {
        "        return nil, status.Error(codes.InvalidArgument, \"missing header\")\n"@
    } else {
        Seq::empty()
    }) + "    }\n"@
}

pub fn render_parse_from_string(target: &str, ty: &Type, getter: &str, required: bool, optional: bool) -> (r: String)
    ensures
        r@ == spec_render_parse_string(target@, getter@, required, optional, *ty),
{
    let mut out = String::from_str("    if val, ok := ");
    out.append(getter);
    out.append("; ok {\n");
    match ty {
        Type::Int => out.append("        if parsed, err := strconv.ParseInt(val, 10, 64); err == nil {\n"),
        Type::Float => out.append("        if parsed, err := strconv.ParseFloat(val, 64); err == nil {\n"),
        Type::Bool => out.append("        if parsed, ok := parseBool(val); ok {\n"),
        _ => out.append("        {\n            parsed := val\n"),
    }
    out.append("            ");
    out.append(target);
    if optional {
        out.append(" = &parsed\n");
    } else {
        out.append(" = parsed\n");
    }
    out.append("        }\n    } else {\n");
    if required {
        out.append("        return nil, status.Error(codes.InvalidArgument, \"missing header\")\n");
    }
    out.append("    }\n");
    out
}

pub open spec fn header_parse_fn() -> spec_fn(Field) -> Seq<char> {
    |f: Field| spec_render_parse_string(
        "headers."@ + spec_go_field_name(f.name@),
        "metaGet(md, \""@ + f.name@ + "\")"@,
        !f.optional,
        f.optional,
        f.ty,
    )
}

/// The headers struct of a method filled from the incoming metadata.
pub open spec fn spec_grpc_headers_init(rpc: RpcDef) -> Seq<char> {
    if rpc.headers@.len() == 0 {
        Seq::empty()
    } else {
        "    md, _ := metadata.FromIncomingContext(ctx)\n"@ + "    var headers "@ + spec_rpc_code_name(rpc)
            + "Headers\n"@ + concat_all(rpc.headers@, header_parse_fn())
    }
}

pub fn render_headers_init(rpc: &RpcDef) -> (r: String)
    ensures
        r@ == spec_grpc_headers_init(*rpc),
{
    if rpc.headers.len() == 0 {
        return String::new();
    }
    let mut out = String::from_str("    md, _ := metadata.FromIncomingContext(ctx)\n");
    out.append("    var headers ");
    let c = rpc.code_name();
    out.append(c.as_str());
    out.append("Headers\n");
    let ghost head = out@;
    let v = &rpc.headers;
    let mut i: usize = 0;
    while i < v.len()
        invariant
            0 <= i <= v@.len(),
            v@ == rpc.headers@,
            out@ == head + concat_all(v@.take(i as int), header_parse_fn()),
        decreases v@.len() - i,
    {
        proof {
            lemma_concat_all_step(v@, i as int, header_parse_fn());
        }
        let f = &v[i];
        let mut target = String::from_str("headers.");
        let n = go_field_name(f.name.as_str());
        target.append(n.as_str());
        let mut getter = String::from_str("metaGet(md, \"");
        getter.append(f.name.as_str());
        getter.append("\")");
        let p = render_parse_from_string(target.as_str(), &f.ty, getter.as_str(), !f.optional, f.optional);
        out.append(p.as_str());
        i += 1;
    }
    proof {
        lemma_take_full(v@);
    }
    out
}

pub open spec fn grpc_mw_call_fn() -> spec_fn(String) -> Seq<char> {
    |n: String| "    if err := "@ + n@ + "(ctx); err != nil {\n        return nil, err\n    }\n"@
}

/// The service's middleware, then the method's, each able to refuse.
pub open spec fn spec_grpc_middleware_calls(rpc: RpcDef, service: Service) -> Seq<char> {
    concat_all(service.common.middleware@ + rpc.middleware@, grpc_mw_call_fn())
}

fn push_mw_calls(out: &mut String, v: &Vec<String>)
    ensures
        final(out)@ == old(out)@ + concat_all(v@, grpc_mw_call_fn()),
{
    let ghost head = out@;
    let mut i: usize = 0;
    while i < v.len()
        invariant
            0 <= i <= v@.len(),
            out@ == head + concat_all(v@.take(i as int), grpc_mw_call_fn()),
        decreases v@.len() - i,
    {
        proof {
            lemma_concat_all_step(v@, i as int, grpc_mw_call_fn());
        }
        let n = &v[i];
        let mut s = String::from_str("    if err := ");
        s.append(n.as_str());
        s.append("(ctx); err != nil {\n        return nil, err\n    }\n");
        out.append(s.as_str());
        i += 1;
    }
    proof {
        lemma_take_full(v@);
    }
}

pub proof fn lemma_concat_all_add<A>(a: Seq<A>, b: Seq<A>, f: spec_fn(A) -> Seq<char>)
    ensures
        concat_all(a + b, f) == concat_all(a, f) + concat_all(b, f),
    decreases b.len(),
{
    if b.len() == 0 {
        assert(a + b =~= a);
        assert(concat_all(a, f) + Seq::<char>::empty() =~= concat_all(a, f));
    } else {
        lemma_concat_all_add(a, b.drop_last(), f);
        assert((a + b).drop_last() =~= a + b.drop_last());
    }
}

pub fn render_middleware_calls(rpc: &RpcDef, service: &Service) -> (r: String)
    ensures
        r@ == spec_grpc_middleware_calls(*rpc, *service),
{
    let mut out = String::new();
    push_mw_calls(&mut out, &service.common.middleware);
    push_mw_calls(&mut out, &rpc.middleware);
    proof {
        lemma_concat_all_add(service.common.middleware@, rpc.middleware@, grpc_mw_call_fn());
        assert(out@ =~= spec_grpc_middleware_calls(*rpc, *service));
    }
    out
}

/// The authentication check of a method, by its effective scheme.
pub open spec fn spec_grpc_auth_check(rpc: RpcDef, service: Service) -> Seq<char> {
    match spec_effective_auth(rpc.auth, service.common.auth) {
        Some(AuthSpec::Bearer) => "    if err := authBearer(ctx); err != nil {\n        return nil, err\n    }\n"@,
        Some(AuthSpec::ApiKey) => "    if err := authApiKey(ctx); err != nil {\n        return nil, err\n    }\n"@,
        _ => Seq::empty(),
    }
}

pub fn render_auth_check(rpc: &RpcDef, service: &Service) -> (r: String)
    ensures
        r@ == spec_grpc_auth_check(*rpc, *service),
{
    match effective_auth(rpc.auth, service.common.auth) {
        Some(AuthSpec::Bearer) => String::from_str("    if err := authBearer(ctx); err != nil {\n        return nil, err\n    }\n"),
        Some(AuthSpec::ApiKey) => String::from_str("    if err := authApiKey(ctx); err != nil {\n        return nil, err\n    }\n"),
        _ => String::new(),
    }
}

/// The limit of a method: its own, else the service's.
pub open spec fn spec_rpc_rate_limit(rpc: RpcDef, service: Service) -> Option<RateLimit> {
    match rpc.rate_limit {
        Some(l) => Some(l),
        None => service.common.rate_limit,
    }
}

pub fn effective_rate_limit(rpc: &RpcDef, service: &Service) -> (r: Option<RateLimit>)
    ensures
        r == spec_rpc_rate_limit(*rpc, *service),
{
    match rpc.rate_limit {
        Some(l) => Some(l),
        None => service.common.rate_limit,
    }
}

pub open spec fn spec_grpc_rate_limit_check(rpc: RpcDef, service: Service) -> Seq<char> {
    if spec_rpc_rate_limit(rpc, service) is None {
        Seq::empty()
    } else {
        "    if !rateLimit"@ + spec_rpc_code_name(rpc) + ".Allow() {\n        return nil, status.Error(codes.ResourceExhausted, \"rate limited\")\n    }\n"@
    }
}

pub fn render_rate_limit_check(rpc: &RpcDef, service: &Service) -> (r: String)
    ensures
        r@ == spec_grpc_rate_limit_check(*rpc, *service),
{
    if effective_rate_limit(rpc, service).is_none() {
        return String::new();
    }
    let code = rpc.code_name();
    let mut s = String::from_str("    if !rateLimit");
    s.append(code.as_str());
    s.append(".Allow() {\n        return nil, status.Error(codes.ResourceExhausted, \"rate limited\")\n    }\n");
    s
}

pub open spec fn rate_limit_var_fn(service: Service) -> spec_fn(RpcDef) -> Seq<char> {
    |r: RpcDef| match spec_rpc_rate_limit(r, service) {
        Some(l) => "var rateLimit"@ + spec_rpc_code_name(r) + " = rateLimit{max: "@ + dec_nat(l.max as nat) + ", window: time.Duration("@ + dec_nat(l.per_seconds as nat) + ") * time.Second}\n"@,
        None => Seq::empty(),
    }
}

/// The limiter type and one limiter per method with a limit.
pub open spec fn spec_grpc_rate_limit_helpers(service: Service) -> Seq<char> {
    "type rateLimit struct { count int; reset time.Time; max int; window time.Duration }\n"@ + "func (r *rateLimit) Allow() bool {\n    now := time.Now()\n    if r.reset.IsZero() || now.After(r.reset) {\n        r.reset = now.Add(r.window)\n        r.count = 0\n    }\n    if r.count >= r.max { return false }\n    r.count += 1\n    return true\n}\n\n"@ + concat_all(service.rpc.methods@, rate_limit_var_fn(service)) + "\n"@
}

pub fn render_rate_limit_helpers(service: &Service) -> (r: String)
    ensures
        r@ == spec_grpc_rate_limit_helpers(*service),
{
    let mut out = String::from_str("type rateLimit struct { count int; reset time.Time; max int; window time.Duration }\n");
    out.append("func (r *rateLimit) Allow() bool {\n    now := time.Now()\n    if r.reset.IsZero() || now.After(r.reset) {\n        r.reset = now.Add(r.window)\n        r.count = 0\n    }\n    if r.count >= r.max { return false }\n    r.count += 1\n    return true\n}\n\n");
    let ghost head = out@;
    let v = &service.rpc.methods;
    let mut i: usize = 0;
    while i < v.len()
        invariant
            0 <= i <= v@.len(),
            v@ == service.rpc.methods@,
            out@ == head + concat_all(v@.take(i as int), rate_limit_var_fn(*service)),
        decreases v@.len() - i,
    {
        proof {
            lemma_concat_all_step(v@, i as int, rate_limit_var_fn(*service));
        }
        match effective_rate_limit(&v[i], service) {
            Some(l) => {
                let code = v[i].code_name();
                let mx = u64_to_string(l.max as u64);
                let win = u64_to_string(l.per_seconds);
                let mut s = String::from_str("var rateLimit");
                s.append(code.as_str());
                s.append(" = rateLimit{max: ");
                s.append(mx.as_str());
                s.append(", window: time.Duration(");
                s.append(win.as_str());
                s.append(") * time.Second}\n");
                out.append(s.as_str());
            },
            None => {},
        }
        i += 1;
    }
    proof {
        lemma_take_full(v@);
    }
    out.append("\n");
    out
}

#[verifier::opaque]
pub open spec fn grpc_method_template(method: Seq<char>, req: Seq<char>, resp_ty: Seq<char>, service_name: Seq<char>, rpc_name: Seq<char>, auth: Seq<char>, headers_init: Seq<char>, middleware_calls: Seq<char>, rate_limit: Seq<char>, call_expr: Seq<char>, response_preamble: Seq<char>, response_expr: Seq<char>) -> Seq<char> {
    "func (s *Server) "@ + method + "(ctx context.Context, input "@ + req + ") (resp "@ + resp_ty + ", err error) {\n    started := time.Now()\n    defer func() {\n        statusLabel := \"OK\"\n        if err != nil {\n            statusLabel = status.Code(err).String()\n        }\n        fmt.Fprintf(os.Stderr, \"["@ + service_name + "] gRPC "@ + rpc_name + " -> %s (%dms)\\n\", statusLabel, time.Since(started).Milliseconds())\n    }()\n"@ + auth + headers_init + middleware_calls + rate_limit + "    result := "@ + call_expr + "\n"@ + response_preamble + "    return "@ + response_expr + ", nil\n}"@
}

/// One server method: access log, authentication, headers, middleware,
/// rate limit, the module call and the response.
pub open spec fn spec_grpc_rpc_method(rpc: RpcDef, service: Service) -> Seq<char> {
    let c = spec_rpc_code_name(rpc);
    let resp = spec_grpc_response_expr(rpc);
    grpc_method_template(
        c,
        "*rpc."@ + c + "Request"@,
        spec_grpc_response_type(rpc),
        service.name@,
        c,
        spec_grpc_auth_check(rpc, service),
        spec_grpc_headers_init(rpc),
        spec_grpc_middleware_calls(rpc, service),
        spec_grpc_rate_limit_check(rpc, service),
        spec_grpc_call_expr(rpc),
        resp.0,
        resp.1,
    )
}

pub fn render_rpc_method(rpc: &RpcDef, service: &Service) -> (r: String)
    ensures
        r@ == spec_grpc_rpc_method(*rpc, *service),
{
    let method = rpc.code_name();
    let mut req = String::from_str("*rpc.");
    req.append(method.as_str());
    req.append("Request");
    let resp_ty = rpc_response_type(rpc);
    let call_expr = render_call_expr(rpc);
    let (response_preamble, response_expr) = render_response_expr(rpc);
    let auth = render_auth_check(rpc, service);
    let middleware_calls = render_middleware_calls(rpc, service);
    let rate_limit = render_rate_limit_check(rpc, service);
    let headers_init = render_headers_init(rpc);
    let service_name = &service.name;
    let rpc_name = &method;
    let mut s = String::from_str("func (s *Server) ");
    s.append(method.as_str());
    s.append("(ctx context.Context, input ");
    s.append(req.as_str());
    s.append(") (resp ");
    s.append(resp_ty.as_str());
    s.append(", err error) {\n    started := time.Now()\n    defer func() {\n        statusLabel := \"OK\"\n        if err != nil {\n            statusLabel = status.Code(err).String()\n        }\n        fmt.Fprintf(os.Stderr, \"[");
    s.append(service_name.as_str());
    s.append("] gRPC ");
    s.append(rpc_name.as_str());
    s.append(" -> %s (%dms)\\n\", statusLabel, time.Since(started).Milliseconds())\n    }()\n");
    s.append(auth.as_str());
    s.append(headers_init.as_str());
    s.append(middleware_calls.as_str());
    s.append(rate_limit.as_str());
    s.append("    result := ");
    s.append(call_expr.as_str());
    s.append("\n");
    s.append(response_preamble.as_str());
    s.append("    return ");
    s.append(response_expr.as_str());
    s.append(", nil\n}");
    proof {
        reveal(grpc_method_template);
    }
    s
}

// ---------------------------------------------------------------------------
// Helpers of server.go
// ---------------------------------------------------------------------------

pub open spec fn header_field_line(f: Field) -> Seq<char> {
    if f.optional {
        "    "@ + spec_go_field_name(f.name@) + " *"@ + spec_go_type(f.ty, true) + "\n"@
    } else {
        "    "@ + spec_go_field_name(f.name@) + " "@ + spec_go_type(f.ty, true) + "\n"@
    }
}

pub open spec fn header_struct_fn() -> spec_fn(RpcDef) -> Seq<char> {
    |r: RpcDef| if r.headers@.len() == 0 {
        Seq::empty()
    } else {
        "type "@ + spec_rpc_code_name(r) + "Headers struct {\n"@ + concat_all(
            r.headers@,
            |f: Field| header_field_line(f),
        ) + "}\n\n"@
    }
}

/// A headers struct per method that reads headers.
pub open spec fn spec_grpc_header_structs(service: Service) -> Seq<char> {
    concat_all(service.rpc.methods@, header_struct_fn())
}

fn header_struct(r: &RpcDef) -> (s: String)
    ensures
        s@ == header_struct_fn()(*r),
{
    if r.headers.len() == 0 {
        return String::new();
    }
    let mut out = String::from_str("type ");
    let c = r.code_name();
    out.append(c.as_str());
    out.append("Headers struct {\n");
    let ghost head = out@;
    let ghost f = |f: Field| header_field_line(f);
    let v = &r.headers;
    let mut i: usize = 0;
    while i < v.len()
        invariant
            0 <= i <= v@.len(),
            v@ == r.headers@,
            f == (|f: Field| header_field_line(f)),
            out@ == head + concat_all(v@.take(i as int), f),
        decreases v@.len() - i,
    {
        proof {
            lemma_concat_all_step(v@, i as int, f);
        }
        let fld = &v[i];
        let n = go_field_name(fld.name.as_str());
        let t = go_type(&fld.ty, true);
        out.append("    ");
        out.append(n.as_str());
        if fld.optional {
            out.append(" *");
        } else {
            out.append(" ");
        }
        out.append(t.as_str());
        out.append("\n");
        i += 1;
    }
    proof {
        lemma_take_full(v@);
    }
    out.append("}\n\n");
    out
}

pub fn render_header_structs(service: &Service) -> (r: String)
    ensures
        r@ == spec_grpc_header_structs(*service),
{
    let v = &service.rpc.methods;
    let mut out = String::new();
    let mut i: usize = 0;
    while i < v.len()
        invariant
            0 <= i <= v@.len(),
            v@ == service.rpc.methods@,
            out@ == concat_all(v@.take(i as int), header_struct_fn()),
        decreases v@.len() - i,
    {
        proof {
            lemma_concat_all_step(v@, i as int, header_struct_fn());
        }
        let s = header_struct(&v[i]);
        out.append(s.as_str());
        i += 1;
    }
    proof {
        lemma_take_full(v@);
    }
    out
}

/// The metadata reader and the boolean parser the header code uses.
pub open spec fn grpc_header_helpers() -> Seq<char> {
    "\nfunc metaGet(md metadata.MD, name string) (string, bool) {\n    vals := md.Get(name)\n    if len(vals) == 0 {\n        return \"\", false\n    }\n    return vals[0], true\n}\n\nfunc parseBool(v string) (bool, bool) {\n    if v == \"true\" {\n        return true, true\n    }\n    if v == \"false\" {\n        return false, true\n    }\n    return false, false\n}\n"@
}

pub fn render_header_helpers() -> (r: String)
    ensures
        r@ == grpc_header_helpers(),
{
    String::from_str("\nfunc metaGet(md metadata.MD, name string) (string, bool) {\n    vals := md.Get(name)\n    if len(vals) == 0 {\n        return \"\", false\n    }\n    return vals[0], true\n}\n\nfunc parseBool(v string) (bool, bool) {\n    if v == \"true\" {\n        return true, true\n    }\n    if v == \"false\" {\n        return false, true\n    }\n    return false, false\n}\n")
}

/// The authentication functions, when the service or a method asks for
/// authentication.
pub open spec fn spec_grpc_auth_helpers(service: Service) -> Seq<char> {
    if !grpc_needs_auth(service) {
        Seq::empty()
    } else {
        "\nfunc authBearer(ctx context.Context) error {\n    md, _ := metadata.FromIncomingContext(ctx)\n    if _, ok := metaGet(md, \"authorization\"); !ok {\n        return status.Error(codes.Unauthenticated, \"missing authorization\")\n    }\n    return nil\n}\n\nfunc authApiKey(ctx context.Context) error {\n    md, _ := metadata.FromIncomingContext(ctx)\n    if _, ok := metaGet(md, \"x-api-key\"); !ok {\n        return status.Error(codes.Unauthenticated, \"missing api key\")\n    }\n    return nil\n}\n"@
    }
}

pub fn render_auth_helpers(service: &Service) -> (r: String)
    ensures
        r@ == spec_grpc_auth_helpers(*service),
{
    if !service_needs_auth(service) {
        return String::new();
    }
    String::from_str("\nfunc authBearer(ctx context.Context) error {\n    md, _ := metadata.FromIncomingContext(ctx)\n    if _, ok := metaGet(md, \"authorization\"); !ok {\n        return status.Error(codes.Unauthenticated, \"missing authorization\")\n    }\n    return nil\n}\n\nfunc authApiKey(ctx context.Context) error {\n    md, _ := metadata.FromIncomingContext(ctx)\n    if _, ok := metaGet(md, \"x-api-key\"); !ok {\n        return status.Error(codes.Unauthenticated, \"missing api key\")\n    }\n    return nil\n}\n")
}

// ---------------------------------------------------------------------------
// server.go
// ---------------------------------------------------------------------------

pub open spec fn rpc_has_auth(r: RpcDef) -> bool {
    r.auth is Some
}

pub open spec fn grpc_needs_auth(service: Service) -> bool {
    service.common.auth is Some || exists|i: int|
        0 <= i < service.rpc.methods@.len() && rpc_has_auth(#[trigger] service.rpc.methods@[i])
}

pub fn service_needs_auth(service: &Service) -> (r: bool)
    ensures
        r == grpc_needs_auth(*service),
{
    if service.common.auth.is_some() {
        return true;
    }
    let v = &service.rpc.methods;
    let mut i: usize = 0;
    while i < v.len()
        invariant
            0 <= i <= v@.len(),
            v@ == service.rpc.methods@,
            forall|j: int| 0 <= j < i ==> !rpc_has_auth(#[trigger] v@[j]),
        decreases v@.len() - i,
    {
        if v[i].auth.is_some() {
            assert(rpc_has_auth(v@[i as int]));
            return true;
        }
        i += 1;
    }
    false
}

/// The properties of a method that decide the imports of `server.go`.
pub enum RpcFlag {
    Headers,
    RateLimit,
    Types,
    Json,
    Structpb,
}

pub open spec fn header_uses_types(f: Field) -> bool {
    spec_type_uses_types_pkg(f.ty)
}

pub open spec fn rpc_flag(flag: RpcFlag, r: RpcDef, service: Service) -> bool {
    match flag {
        RpcFlag::Headers => r.headers@.len() > 0,
        RpcFlag::RateLimit => spec_rpc_rate_limit(r, service) is Some,
        RpcFlag::Types => exists|k: int| 0 <= k < r.headers@.len() && header_uses_types(#[trigger] r.headers@[k]),
        RpcFlag::Json => r.output is Named || r.output is Object || r.output is Any || r.output is MapOf
            || r.output is Union || r.output is OneOf || r.output is Nullable,
        RpcFlag::Structpb => r.output is Any || r.output is MapOf || r.output is Union || r.output is OneOf
            || r.output is Nullable,
    }
}

pub open spec fn any_rpc_flag(flag: RpcFlag, service: Service) -> bool {
    exists|i: int| 0 <= i < service.rpc.methods@.len() && rpc_flag(flag, #[trigger] service.rpc.methods@[i], service)
}

fn any_header_types(fs: &Vec<Field>) -> (r: bool)
    ensures
        r == exists|k: int| 0 <= k < fs@.len() && header_uses_types(#[trigger] fs@[k]),
{
    let mut i: usize = 0;
    while i < fs.len()
        invariant
            0 <= i <= fs@.len(),
            forall|j: int| 0 <= j < i ==> !header_uses_types(#[trigger] fs@[j]),
        decreases fs@.len() - i,
    {
        if type_uses_types_pkg(&fs[i].ty) {
            assert(header_uses_types(fs@[i as int]));
            return true;
        }
        i += 1;
    }
    false
}

fn rpc_flag_exec(flag: &RpcFlag, r: &RpcDef, service: &Service) -> (b: bool)
    ensures
        b == rpc_flag(*flag, *r, *service),
{
    match flag {
        RpcFlag::Headers => r.headers.len() > 0,
        RpcFlag::RateLimit => effective_rate_limit(r, service).is_some(),
        RpcFlag::Types => any_header_types(&r.headers),
        RpcFlag::Json => match r.output {
            Type::Named(_) | Type::Object(_) | Type::Any | Type::MapOf(_) | Type::Union(_)
            | Type::OneOf(_) | Type::Nullable(_) => true,
            _ => false,
        },
        RpcFlag::Structpb => match r.output {
            Type::Any | Type::MapOf(_) | Type::Union(_) | Type::OneOf(_) | Type::Nullable(_) => true,
            _ => false,
        },
    }
}

fn any_rpc(flag: RpcFlag, service: &Service) -> (r: bool)
    ensures
        r == any_rpc_flag(flag, *service),
{
    let v = &service.rpc.methods;
    let mut i: usize = 0;
    while i < v.len()
        invariant
            0 <= i <= v@.len(),
            v@ == service.rpc.methods@,
            forall|j: int| 0 <= j < i ==> !rpc_flag(flag, #[trigger] v@[j], *service),
        decreases v@.len() - i,
    {
        if rpc_flag_exec(&flag, &v[i], service) {
            return true;
        }
        i += 1;
    }
    false
}

pub open spec fn server_imports_a(service: Service, module_name: Seq<char>) -> Seq<Seq<char>> {
    let access = service.rpc.methods@.len() > 0;
    seq!["\"context\""@] + (if access {
        seq!["\"fmt\""@, "\"os\""@, "\"time\""@]
    } else {
        Seq::empty()
    }) + (if any_rpc_flag(RpcFlag::Json, service) {
        seq!["\"encoding/json\""@]
    } else {
        Seq::empty()
    }) + (if any_rpc_flag(RpcFlag::RateLimit, service) {
        seq!["\"time\""@]
    } else {
        Seq::empty()
    }) + (if any_rpc_flag(RpcFlag::Headers, service) {
        seq!["\"strconv\""@]
    } else {
        Seq::empty()
    }) + seq!["rpc \""@ + module_name + "/proto\""@] + (if any_rpc_flag(RpcFlag::Types, service) {
        seq!["types \""@ + module_name + "/types\""@]
    } else {
        Seq::empty()
    })
}

pub open spec fn server_imports_b(service: Service) -> Seq<Seq<char>> {
    let access = service.rpc.methods@.len() > 0;
    let headers = any_rpc_flag(RpcFlag::Headers, service);
    let auth = grpc_needs_auth(service);
    let rl = any_rpc_flag(RpcFlag::RateLimit, service);
    (if headers || auth {
        seq!["\"google.golang.org/grpc/metadata\""@]
    } else {
        Seq::empty()
    }) + (if headers || auth || rl {
        seq!["\"google.golang.org/grpc/status\""@, "\"google.golang.org/grpc/codes\""@]
    } else if access {
        seq!["\"google.golang.org/grpc/status\""@]
    } else {
        Seq::empty()
    }) + (if any_rpc_flag(RpcFlag::Structpb, service) {
        seq!["\"google.golang.org/protobuf/types/known/structpb\""@]
    } else {
        Seq::empty()
    })
}

/// The imports of `server.go`, in order: the standard packages the
/// methods need, the proto package, the types package when a header names
/// a schema type, the gRPC packages, then the service's modules.
pub open spec fn spec_server_imports(service: Service, module_name: Seq<char>) -> Seq<Seq<char>> {
    server_imports_a(service, module_name) + server_imports_b(service) + spec_render_module_imports(
        service,
        module_name,
        UseScope::Both,
    )
}

fn push_str_line(v: &mut Vec<String>, s: &str)
    ensures
        views(final(v)@) == views(old(v)@).push(s@),
{
    let x = String::from_str(s);
    proof {
        lemma_views_push(v@, x);
    }
    v.push(x);
}

fn push_imports_a(v: &mut Vec<String>, service: &Service, module_name: &str)
    ensures
        views(final(v)@) == views(old(v)@) + server_imports_a(*service, module_name@),
{
    let ghost o = views(v@);
    push_str_line(v, "\"context\"");
    if service.rpc.methods.len() > 0 {
        push_str_line(v, "\"fmt\"");
        push_str_line(v, "\"os\"");
        push_str_line(v, "\"time\"");
    }
    if any_rpc(RpcFlag::Json, service) {
        push_str_line(v, "\"encoding/json\"");
    }
    if any_rpc(RpcFlag::RateLimit, service) {
        push_str_line(v, "\"time\"");
    }
    if any_rpc(RpcFlag::Headers, service) {
        push_str_line(v, "\"strconv\"");
    }
    let mut rp = String::from_str("rpc \"");
    rp.append(module_name);
    rp.append("/proto\"");
    push_str_line(v, rp.as_str());
    if any_rpc(RpcFlag::Types, service) {
        let mut tp = String::from_str("types \"");
        tp.append(module_name);
        tp.append("/types\"");
        push_str_line(v, tp.as_str());
    }
    assert(views(v@) =~= o + server_imports_a(*service, module_name@));
}

fn push_imports_b(v: &mut Vec<String>, service: &Service)
    ensures
        views(final(v)@) == views(old(v)@) + server_imports_b(*service),
{
    let ghost o = views(v@);
    let access = service.rpc.methods.len() > 0;
    let headers = any_rpc(RpcFlag::Headers, service);
    let auth = service_needs_auth(service);
    let rl = any_rpc(RpcFlag::RateLimit, service);
    if headers || auth {
        push_str_line(v, "\"google.golang.org/grpc/metadata\"");
    }
    if headers || auth || rl {
        push_str_line(v, "\"google.golang.org/grpc/status\"");
        push_str_line(v, "\"google.golang.org/grpc/codes\"");
    } else if access {
        push_str_line(v, "\"google.golang.org/grpc/status\"");
    }
    if any_rpc(RpcFlag::Structpb, service) {
        push_str_line(v, "\"google.golang.org/protobuf/types/known/structpb\"");
    }
    assert(views(v@) =~= o + server_imports_b(*service));
}

fn server_imports(service: &Service, module_name: &str) -> (r: Vec<String>)
    ensures
        views(r@) == spec_server_imports(*service, module_name@),
{
    let mut v: Vec<String> = Vec::new();
    assert(views(v@) =~= Seq::<Seq<char>>::empty());
    push_imports_a(&mut v, service, module_name);
    push_imports_b(&mut v, service);
    let ghost before = views(v@);
    let mods = render_module_imports(service, module_name, UseScope::Both);
    let mut i: usize = 0;
    while i < mods.len()
        invariant
            0 <= i <= mods@.len(),
            views(v@) == before + views(mods@.take(i as int)),
        decreases mods@.len() - i,
    {
        let x = mods[i].clone();
        proof {
            lemma_views_push(v@, x);
            assert(views(mods@.take(i + 1)) =~= views(mods@.take(i as int)).push(mods@[i as int]@));
        }
        v.push(x);
        i += 1;
    }
    proof {
        lemma_take_full(mods@);
    }
    assert(views(v@) =~= spec_server_imports(*service, module_name@));
    v
}

pub open spec fn method_block_fn(service: Service) -> spec_fn(RpcDef) -> Seq<char> {
    |r: RpcDef| spec_grpc_rpc_method(r, service) + "\n"@
}

/// What follows the methods: header structs and helpers, the metadata
/// reader for authentication alone, the limiters, the authentication
/// functions.
pub open spec fn spec_server_helpers(service: Service) -> Seq<char> {
    let headers = any_rpc_flag(RpcFlag::Headers, service);
    (if headers {
        spec_grpc_header_structs(service) + "\n"@ + grpc_header_helpers()
    } else {
        Seq::empty()
    }) + (if !headers && grpc_needs_auth(service) {
        "func metaGet(md metadata.MD, name string) (string, bool) {\n    vals := md.Get(name)\n    if len(vals) == 0 {\n        return \"\", false\n    }\n    return vals[0], true\n}\n\n"@
    } else {
        Seq::empty()
    }) + (if any_rpc_flag(RpcFlag::RateLimit, service) {
        spec_grpc_rate_limit_helpers(service)
    } else {
        Seq::empty()
    }) + spec_grpc_auth_helpers(service)
}

/// `server.go`: the imports, the server type, one method per RPC, and
/// the helpers the methods use.
pub open spec fn spec_build_server_go(service: Service, module_name: Seq<char>) -> Seq<char> {
    "package main\n\n"@ + import_block(spec_server_imports(service, module_name))
        + "type Server struct {\n    rpc.Unimplemented"@ + service.name@ + "Server\n}\n\n"@ + concat_all(
        service.rpc.methods@,
        method_block_fn(service),
    ) + "\n"@ + spec_server_helpers(service) + "\n"@
}

pub fn build_server_go(service: &Service, module_name: &str) -> (r: String)
    ensures
        r@ == spec_build_server_go(*service, module_name@),
{
    let imports = server_imports(service, module_name);
    let ib = render_import_block(&imports);
    let mut methods = String::new();
    let v = &service.rpc.methods;
    let mut i: usize = 0;
    while i < v.len()
        invariant
            0 <= i <= v@.len(),
            v@ == service.rpc.methods@,
            methods@ == concat_all(v@.take(i as int), method_block_fn(*service)),
        decreases v@.len() - i,
    {
        proof {
            lemma_concat_all_step(v@, i as int, method_block_fn(*service));
        }
        let m = render_rpc_method(&v[i], service);
        methods.append(m.as_str());
        methods.append("\n");
        i += 1;
    }
    proof {
        lemma_take_full(v@);
    }
    let headers = any_rpc(RpcFlag::Headers, service);
    let mut helpers = String::new();
    if headers {
        let hs = render_header_structs(service);
        helpers.append(hs.as_str());
        helpers.append("\n");
        let hh = render_header_helpers();
        helpers.append(hh.as_str());
    }
    if !headers && service_needs_auth(service) {
        helpers.append("func metaGet(md metadata.MD, name string) (string, bool) {\n    vals := md.Get(name)\n    if len(vals) == 0 {\n        return \"\", false\n    }\n    return vals[0], true\n}\n\n");
    }
    if any_rpc(RpcFlag::RateLimit, service) {
        let rl = render_rate_limit_helpers(service);
        helpers.append(rl.as_str());
    }
    let ah = render_auth_helpers(service);
    helpers.append(ah.as_str());
    assert(helpers@ =~= spec_server_helpers(*service));
    let mut out = String::from_str("package main\n\n");
    out.append(ib.as_str());
    out.append("type Server struct {\n    rpc.Unimplemented");
    out.append(service.name.as_str());
    out.append("Server\n}\n\n");
    out.append(methods.as_str());
    out.append("\n");
    out.append(helpers.as_str());
    out.append("\n");
    out
}

// ---------------------------------------------------------------------------
// middleware.go
// ---------------------------------------------------------------------------

pub open spec fn rpc_mw_names(methods: Seq<RpcDef>) -> Seq<Seq<char>>
    decreases methods.len(),
{
    if methods.len() == 0 {
        Seq::empty()
    } else {
        rpc_mw_names(methods.drop_last()) + views(methods.last().middleware@)
    }
}

/// Every middleware name: the service's, then each method's.
pub open spec fn grpc_middleware_names(service: Service) -> Seq<Seq<char>> {
    views(service.common.middleware@) + rpc_mw_names(service.rpc.methods@)
}

pub open spec fn grpc_mw_func_fn() -> spec_fn(Seq<char>) -> Seq<char> {
    |n: Seq<char>| "func "@ + n + "(ctx context.Context) error {\n    md, _ := metadata.FromIncomingContext(ctx)\n    key := \"x-nimesvc-middleware-\" + strings.ReplaceAll("@ + debug_str(n) + ", \"_\", \"-\")\n    if value, ok := metaGet(md, key); ok {\n        value = strings.ToLower(strings.TrimSpace(value))\n        if value == \"block\" || value == \"deny\" || value == \"forbid\" {\n            return status.Error(codes.PermissionDenied, \"blocked by middleware "@ + n + "\")\n        }\n    }\n    return nil\n}\n\n"@
}

/// `middleware.go` of the gRPC server: nothing when no middleware is
/// used; else one function per name, in text order.
pub open spec fn spec_grpc_middleware_go(service: Service) -> Seq<char> {
    let names = name_set(grpc_middleware_names(service));
    if names.len() == 0 {
        Seq::empty()
    } else {
        "package main\n\nimport (\n    \"context\"\n    \"strings\"\n    \"google.golang.org/grpc/codes\"\n    \"google.golang.org/grpc/metadata\"\n    \"google.golang.org/grpc/status\"\n)\n\n"@ + concat_all(names, grpc_mw_func_fn())
    }
}

pub fn grpc_middleware_list(service: &Service) -> (r: Vec<String>)
    ensures
        views(r@) == grpc_middleware_names(*service),
{
    let mut out: Vec<String> = Vec::new();
    push_all(&mut out, &service.common.middleware);
    assert(views(out@) =~= views(service.common.middleware@));
    let v = &service.rpc.methods;
    let mut i: usize = 0;
    while i < v.len()
        invariant
            0 <= i <= v@.len(),
            v@ == service.rpc.methods@,
            views(out@) == views(service.common.middleware@) + rpc_mw_names(v@.take(i as int)),
        decreases v@.len() - i,
    {
        proof {
            assert(v@.take(i + 1).drop_last() =~= v@.take(i as int));
        }
        push_all(&mut out, &v[i].middleware);
        i += 1;
        assert(views(out@) =~= views(service.common.middleware@) + rpc_mw_names(v@.take(i as int)));
    }
    proof {
        lemma_take_full(v@);
    }
    out
}

pub fn build_middleware_go(service: &Service) -> (r: String)
    ensures
        r@ == spec_grpc_middleware_go(*service),
{
    let all = grpc_middleware_list(service);
    let names = names_to_set(&all);
    if names.len() == 0 {
        return String::new();
    }
    let ghost nv = strings_view(names@);
    let mut out = String::from_str("package main\n\nimport (\n    \"context\"\n    \"strings\"\n    \"google.golang.org/grpc/codes\"\n    \"google.golang.org/grpc/metadata\"\n    \"google.golang.org/grpc/status\"\n)\n\n");
    let ghost start = out@;
    let mut k: usize = 0;
    while k < names.len()
        invariant
            0 <= k <= names@.len(),
            nv == strings_view(names@),
            out@ == start + concat_all(nv.take(k as int), grpc_mw_func_fn()),
        decreases names@.len() - k,
    {
        proof {
            lemma_concat_all_step(nv, k as int, grpc_mw_func_fn());
        }
        assert(nv[k as int] == names@[k as int]@);
        let q = debug_quoted(names[k].as_str());
        let mut s = String::from_str("func ");
        s.append(names[k].as_str());
        s.append("(ctx context.Context) error {\n    md, _ := metadata.FromIncomingContext(ctx)\n    key := \"x-nimesvc-middleware-\" + strings.ReplaceAll(");
        s.append(q.as_str());
        s.append(", \"_\", \"-\")\n    if value, ok := metaGet(md, key); ok {\n        value = strings.ToLower(strings.TrimSpace(value))\n        if value == \"block\" || value == \"deny\" || value == \"forbid\" {\n            return status.Error(codes.PermissionDenied, \"blocked by middleware ");
        s.append(names[k].as_str());
        s.append("\")\n        }\n    }\n    return nil\n}\n\n");
        out.append(s.as_str());
        k += 1;
    }
    proof {
        lemma_take_full(nv);
    }
    out
}

} // verus!
