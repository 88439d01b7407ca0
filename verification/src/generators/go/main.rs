//! The `main.go` of a Go server: imports, helpers, input structs, one
//! handler per route, the router and the listener.

use vstd::prelude::*;

use crate::generators::common::env::{render_env_checks_go, spec_env_checks, EnvTarget};
use crate::generators::common::errors::{missing_header_status, spec_missing_header_status};
use crate::generators::common::headers::{
    default_cors_headers, default_cors_methods, header_runtime_key, spec_header_runtime_key,
};
use crate::generators::common::validation::{route_has_regex, route_has_union_validation, spec_route_any, FieldTest};
use crate::generators::go::sockets::{render_socket_helpers, socket_handler_name, spec_render_socket_helpers, spec_socket_handler_name};
use crate::generators::go::util::{
    all_routes_respond, auth_middleware_name, body_struct_name, effective_rate_limit, go_call_name,
    go_field_name, go_type, handler_name, headers_struct_name, http_method, middleware_name,
    module_import_alias, needs_json, needs_rate_limit, needs_strconv, needs_types_in_main,
    path_struct_name, primary_response, query_struct_name, rate_limit_name, remote_call_fn_name,
    render_module_imports, spec_auth_middleware_name, spec_effective_rate_limit, spec_go_call_name,
    spec_go_field_name, spec_go_type, spec_handler_name, spec_http_method, spec_needs_json,
    spec_needs_rate_limit, spec_needs_strconv, spec_needs_types_in_main, spec_primary_response,
    spec_rate_limit_name, spec_remote_call_fn_name, spec_render_module_imports, spec_struct_name,
    spec_wrap_optional, to_go_func_name, wrap_optional,
};
use crate::generators::go::validation::{
    render_validation_block, render_validation_helpers, spec_render_validation_block,
    spec_render_validation_helpers,
};
use crate::ir::{
    spec_code_name, spec_effective_auth, effective_auth, CallArg, EventsBroker, Field, InputRef,
    InputSource, ResponseSpec, Route, Service, SocketDef, Type, UseScope,
};
use crate::text::{
    concat_all, dec_nat, join, lemma_concat_all_step, lemma_take_full, lemma_views_push,
    replace_char, replace_char_seq, seq_join, str_eq, trim, trim_seq, u64_to_string, views,
};

verus! {

/// Whether parsing a value of this type names the types package.
pub open spec fn spec_needs_types_pkg_for_parse(ty: Type) -> bool
    decreases ty,
{
    match ty {
        Type::Named(_) => true,
        Type::Array(inner) => spec_needs_types_pkg_for_parse(*inner),
        Type::MapOf(inner) => spec_needs_types_pkg_for_parse(*inner),
        Type::Nullable(inner) => spec_needs_types_pkg_for_parse(*inner),
        Type::Union(items) => exists|i: int| 0 <= i < items@.len() && spec_needs_types_pkg_for_parse(#[trigger] items@[i]),
        Type::OneOf(items) => exists|i: int| 0 <= i < items@.len() && spec_needs_types_pkg_for_parse(#[trigger] items@[i]),
        _ => false,
    }
}

#[verifier::loop_isolation(false)]
pub fn needs_types_pkg_for_parse(ty: &Type) -> (r: bool)
    ensures
        r == spec_needs_types_pkg_for_parse(*ty),
    decreases ty,
{
    match ty {
        Type::Named(_) => true,
        Type::Array(inner) => needs_types_pkg_for_parse(inner),
        Type::MapOf(inner) => needs_types_pkg_for_parse(inner),
        Type::Nullable(inner) => needs_types_pkg_for_parse(inner),
        Type::Union(items) | Type::OneOf(items) => {
            let mut i: usize = 0;
            while i < items.len()
                invariant
                    0 <= i <= items@.len(),
                    forall|j: int| 0 <= j < i ==> !spec_needs_types_pkg_for_parse(#[trigger] items@[j]),
                decreases items@.len() - i,
            {
                assert(decreases_to!(items => items@[i as int]));
                if needs_types_pkg_for_parse(&items[i]) {
                    assert(spec_needs_types_pkg_for_parse(items@[i as int]));
                    return true;
                }
                i += 1;
            }
            false
        },
        _ => false,
    }
}

/// The assignment of the parsed value to its target, through a copy when
/// the target is a pointer.
pub open spec fn parsed_assign(target: Seq<char>, optional_ptr: bool) -> Seq<char> {
    if optional_ptr {
        "    tmp := parsed\n"@ + "    "@ + target + " = &tmp\n"@
    } else {
        "    "@ + target + " = parsed\n"@
    }
}

/// Reading one path, query or header value into a struct field: present
/// when required, parsed by type, stored through a pointer when optional.
pub open spec fn spec_parse_from_string(
    target: Seq<char>,
    ty: Type,
    getter: Seq<char>,
    required: bool,
    optional_ptr: bool,
    missing_status: Seq<char>,
    missing_msg: Seq<char>,
) -> Seq<char> {
    let head = "    value := "@ + getter + "\n"@ + if required {
        "    if value == \"\" {\n"@ + "        http.Error(w, "@ + missing_msg + ", "@ + missing_status + ")\n"@ + "        return\n    }\n"@
    } else {
        "    if value != \"\" {\n"@
    };
    let body = match ty {
        Type::String => if optional_ptr {
            "    "@ + target + " = &value\n"@
        } else {
            "    "@ + target + " = value\n"@
        },
        Type::Int => "    parsed, err := strconv.ParseInt(value, 10, 64)\n"@ + "    if err != nil { http.Error(w, \"invalid int\", http.StatusBadRequest); return }\n"@ + parsed_assign(target, optional_ptr),
        Type::Float => "    parsed, err := strconv.ParseFloat(value, 64)\n"@ + "    if err != nil { http.Error(w, \"invalid float\", http.StatusBadRequest); return }\n"@ + parsed_assign(target, optional_ptr),
        Type::Bool => "    parsed, err := strconv.ParseBool(value)\n"@ + "    if err != nil { http.Error(w, \"invalid bool\", http.StatusBadRequest); return }\n"@ + parsed_assign(target, optional_ptr),
        _ => "    var parsed "@ + spec_go_type(ty, spec_needs_types_pkg_for_parse(ty)) + "\n    if err := json.Unmarshal([]byte(value), &parsed); err != nil { http.Error(w, \"invalid json value\", http.StatusBadRequest); return }\n"@
            + parsed_assign(target, optional_ptr),
    };
    head + body + if !required {
        "    }\n"@
    } else {
        Seq::empty()
    }
}

fn push_parsed_assign(out: &mut String, target: &str, optional_ptr: bool)
    ensures
        final(out)@ == old(out)@ + parsed_assign(target@, optional_ptr),
{
    let mut s = if optional_ptr {
        let mut s = String::from_str("    tmp := parsed\n");
        s.append("    ");
        s
    } else {
        String::from_str("    ")
    };
    s.append(target);
    if optional_ptr {
        s.append(" = &tmp\n");
    } else {
        s.append(" = parsed\n");
    }
    out.append(s.as_str());
}

pub fn parse_from_string(
    target: &str,
    ty: &Type,
    getter: &str,
    required: bool,
    optional_ptr: bool,
    missing_status: &str,
    missing_msg: &str,
) -> (r: String)
    ensures
        r@ == spec_parse_from_string(target@, *ty, getter@, required, optional_ptr, missing_status@, missing_msg@),
{
    let mut h = String::from_str("    value := ");
    h.append(getter);
    h.append("\n");
    if required {
        let mut q = String::from_str("    if value == \"\" {\n");
        q.append("        http.Error(w, ");
        q.append(missing_msg);
        q.append(", ");
        q.append(missing_status);
        q.append(")\n");
        q.append("        return\n    }\n");
        h.append(q.as_str());
    } else {
        h.append("    if value != \"\" {\n");
    }
    let mut b = String::new();
    match ty {
        Type::String => {
            b.append("    ");
            b.append(target);
            if optional_ptr {
                b.append(" = &value\n");
            } else {
                b.append(" = value\n");
            }
        },
        Type::Int => {
            b.append("    parsed, err := strconv.ParseInt(value, 10, 64)\n");
            b.append("    if err != nil { http.Error(w, \"invalid int\", http.StatusBadRequest); return }\n");
            push_parsed_assign(&mut b, target, optional_ptr);
        },
        Type::Float => {
            b.append("    parsed, err := strconv.ParseFloat(value, 64)\n");
            b.append("    if err != nil { http.Error(w, \"invalid float\", http.StatusBadRequest); return }\n");
            push_parsed_assign(&mut b, target, optional_ptr);
        },
        Type::Bool => {
            b.append("    parsed, err := strconv.ParseBool(value)\n");
            b.append("    if err != nil { http.Error(w, \"invalid bool\", http.StatusBadRequest); return }\n");
            push_parsed_assign(&mut b, target, optional_ptr);
        },
        _ => {
            b.append("    var parsed ");
            let g = go_type(ty, needs_types_pkg_for_parse(ty));
            b.append(g.as_str());
            b.append("\n    if err := json.Unmarshal([]byte(value), &parsed); err != nil { http.Error(w, \"invalid json value\", http.StatusBadRequest); return }\n");
            push_parsed_assign(&mut b, target, optional_ptr);
        },
    }
    let mut out = h;
    out.append(b.as_str());
    if !required {
        out.append("    }\n");
    }
    assert(out@ =~= spec_parse_from_string(target@, *ty, getter@, required, optional_ptr, missing_status@, missing_msg@));
    out
}

/// One field line of a path struct: Go name and Go type.
pub open spec fn path_field_line_fn() -> spec_fn(Field) -> Seq<char> {
    |f: Field| "    "@ + spec_go_field_name(f.name@) + " "@ + spec_go_type(f.ty, true) + "\n"@
}

/// One field line of a query or header struct: a pointer when optional.
pub open spec fn opt_field_line_fn() -> spec_fn(Field) -> Seq<char> {
    |f: Field| {
        let t = spec_go_type(f.ty, true);
        "    "@ + spec_go_field_name(f.name@) + " "@ + (if f.optional {
            spec_wrap_optional(t)
        } else {
            t
        }) + "\n"@
    }
}

/// One field line of a body struct, with its JSON tag.
pub open spec fn body_field_line_fn() -> spec_fn(Field) -> Seq<char> {
    |f: Field| {
        let t = spec_go_type(f.ty, true);
        if f.optional {
            "    "@ + spec_go_field_name(f.name@) + " "@ + spec_wrap_optional(t) + " `json:\""@ + f.name@ + ",omitempty\"`\n"@
        } else {
            "    "@ + spec_go_field_name(f.name@) + " "@ + t + " `json:\""@ + f.name@ + "\"`\n"@
        }
    }
}

#[derive(Clone, Copy)]
pub enum FieldLine {
    Path,
    Optional,
    Body,
}

pub open spec fn field_line_fn(kind: FieldLine) -> spec_fn(Field) -> Seq<char> {
    match kind {
        FieldLine::Path => path_field_line_fn(),
        FieldLine::Optional => opt_field_line_fn(),
        FieldLine::Body => body_field_line_fn(),
    }
}

fn field_line(kind: FieldLine, f: &Field) -> (r: String)
    ensures
        r@ == field_line_fn(kind)(*f),
{
    let gname = go_field_name(f.name.as_str());
    let gty = go_type(&f.ty, true);
    let mut s = String::from_str("    ");
    s.append(gname.as_str());
    s.append(" ");
    match kind {
        FieldLine::Path => {
            s.append(gty.as_str());
            s.append("\n");
        },
        FieldLine::Optional => {
            if f.optional {
                let t = wrap_optional(gty.as_str());
                s.append(t.as_str());
            } else {
                s.append(gty.as_str());
            }
            s.append("\n");
        },
        FieldLine::Body => {
            if f.optional {
                let t = wrap_optional(gty.as_str());
                s.append(t.as_str());
                s.append(" `json:\"");
                s.append(f.name.as_str());
                s.append(",omitempty\"`\n");
            } else {
                s.append(gty.as_str());
                s.append(" `json:\"");
                s.append(f.name.as_str());
                s.append("\"`\n");
            }
        },
    }
    s
}

/// A struct type declaration: its fields, or nothing when it has none.
pub open spec fn spec_struct_block(name: Seq<char>, fields: Seq<Field>, kind: FieldLine) -> Seq<char> {
    if fields.len() == 0 {
        Seq::empty()
    } else {
        "type "@ + name + " struct {\n"@ + concat_all(fields, field_line_fn(kind)) + "}\n\n"@
    }
}

fn struct_block(name: &String, fields: &Vec<Field>, kind: FieldLine) -> (r: String)
    ensures
        r@ == spec_struct_block(name@, fields@, kind),
{
    if fields.len() == 0 {
        return String::new();
    }
    let ghost f = field_line_fn(kind);
    let mut body = String::new();
    let mut i: usize = 0;
    while i < fields.len()
        invariant
            0 <= i <= fields@.len(),
            f == field_line_fn(kind),
            body@ == concat_all(fields@.take(i as int), f),
        decreases fields@.len() - i,
    {
        proof {
            lemma_concat_all_step(fields@, i as int, f);
        }
        let line = field_line(kind, &fields[i]);
        body.append(line.as_str());
        i += 1;
    }
    proof {
        lemma_take_full(fields@);
    }
    let mut s = String::from_str("type ");
    s.append(name.as_str());
    s.append(" struct {\n");
    s.append(body.as_str());
    s.append("}\n\n");
    s
}

/// The structs a handler decodes its inputs into: path, query, headers,
/// body, each only when the route has such inputs.
pub open spec fn spec_route_input_structs(route: Route) -> Seq<char> {
    spec_struct_block(spec_struct_name(route, "Path"@), route.input.path@, FieldLine::Path)
        + spec_struct_block(spec_struct_name(route, "Query"@), route.input.query@, FieldLine::Optional)
        + spec_struct_block(spec_struct_name(route, "Headers"@), route.headers@, FieldLine::Optional)
        + spec_struct_block(spec_struct_name(route, "Body"@), route.input.body@, FieldLine::Body)
}

pub fn render_route_input_structs(route: &Route) -> (r: String)
    ensures
        r@ == spec_route_input_structs(*route),
{
    let pn = path_struct_name(route);
    let qn = query_struct_name(route);
    let hn = headers_struct_name(route);
    let bn = body_struct_name(route);
    let mut s = struct_block(&pn, &route.input.path, FieldLine::Path);
    let q = struct_block(&qn, &route.input.query, FieldLine::Optional);
    let h = struct_block(&hn, &route.headers, FieldLine::Optional);
    let b = struct_block(&bn, &route.input.body, FieldLine::Body);
    s.append(q.as_str());
    s.append(h.as_str());
    s.append(b.as_str());
    s
}

// ---------------------------------------------------------------------------
// Calls
// ---------------------------------------------------------------------------

pub open spec fn source_base(src: InputSource) -> Seq<char> {
    match src {
        InputSource::Path => "path"@,
        InputSource::Query => "query"@,
        InputSource::Body => "body"@,
        InputSource::Headers => "headers"@,
        InputSource::Input => "input"@,
    }
}

fn source_base_str(src: InputSource) -> (r: &'static str)
    ensures
        r@ == source_base(src),
{
    match src {
        InputSource::Path => "path",
        InputSource::Query => "query",
        InputSource::Body => "body",
        InputSource::Headers => "headers",
        InputSource::Input => "input",
    }
}

pub open spec fn go_names(path: Seq<String>) -> Seq<Seq<char>> {
    path.map_values(|p: String| spec_go_field_name(p@))
}

/// A Go expression reading an input: the struct, then each field in Go
/// names.
pub open spec fn spec_input_ref(input: InputRef) -> Seq<char> {
    if input.path@.len() == 0 {
        source_base(input.source)
    } else {
        source_base(input.source) + "."@ + seq_join(go_names(input.path@), "."@)
    }
}

pub fn render_input_ref(input: &InputRef) -> (r: String)
    ensures
        r@ == spec_input_ref(*input),
{
    let base = source_base_str(input.source);
    if input.path.len() == 0 {
        return String::from_str(base);
    }
    let mut parts: Vec<String> = Vec::new();
    let mut i: usize = 0;
    while i < input.path.len()
        invariant
            0 <= i <= input.path@.len(),
            views(parts@) == go_names(input.path@.take(i as int)),
        decreases input.path@.len() - i,
    {
        let g = go_field_name(input.path[i].as_str());
        proof {
            lemma_views_push(parts@, g);
            assert(go_names(input.path@.take(i + 1)) =~= go_names(input.path@.take(i as int)).push(g@));
        }
        parts.push(g);
        i += 1;
    }
    assert(input.path@.take(input.path@.len() as int) =~= input.path@);
    let mut s = String::from_str(base);
    s.append(".");
    let j = join(&parts, ".");
    s.append(j.as_str());
    s
}

pub open spec fn arg_refs(args: Seq<CallArg>) -> Seq<Seq<char>> {
    args.map_values(|a: CallArg| spec_input_ref(a.value))
}

/// The arguments of a call, comma separated.
pub open spec fn spec_call_args(args: Seq<CallArg>) -> Seq<char> {
    seq_join(arg_refs(args), ", "@)
}

pub fn render_call_args(args: &Vec<CallArg>) -> (r: String)
    ensures
        r@ == spec_call_args(args@),
{
    let mut parts: Vec<String> = Vec::new();
    let mut i: usize = 0;
    while i < args.len()
        invariant
            0 <= i <= args@.len(),
            views(parts@) == arg_refs(args@.take(i as int)),
        decreases args@.len() - i,
    {
        let x = render_input_ref(&args[i].value);
        proof {
            lemma_views_push(parts@, x);
            assert(arg_refs(args@.take(i + 1)) =~= arg_refs(args@.take(i as int)).push(x@));
        }
        parts.push(x);
        i += 1;
    }
    assert(args@.take(args@.len() as int) =~= args@);
    join(&parts, ", ")
}

/// The call a handler makes: the remote call of a forwarded route, a
/// local function, or a module's wrapper; with a final newline.
pub open spec fn spec_call_expr(route: Route) -> Seq<char> {
    let args = spec_call_args(route.call.args@);
    if route.call.service_base is Some {
        spec_remote_call_fn_name(route) + "("@ + args + ", r)\n"@
    } else if route.call.module@.len() == 0 {
        spec_go_field_name(route.call.function@) + "("@ + args + ")\n"@
    } else {
        route.call.module@ + "."@ + spec_go_call_name(route.call.function@) + "("@ + args + ")\n"@
    }
}

pub fn render_call_expr(route: &Route) -> (r: String)
    ensures
        r@ == spec_call_expr(*route),
{
    let args = render_call_args(&route.call.args);
    if route.call.service_base.is_some() {
        let mut s = remote_call_fn_name(route);
        s.append("(");
        s.append(args.as_str());
        s.append(", r)\n");
        return s;
    }
    if route.call.module.as_str().is_empty() {
        let mut s = to_go_func_name(route.call.function.as_str());
        s.append("(");
        s.append(args.as_str());
        s.append(")\n");
        s
    } else {
        let mut s = module_import_alias(route.call.module.as_str());
        s.append(".");
        let f = go_call_name(route.call.function.as_str());
        s.append(f.as_str());
        s.append("(");
        s.append(args.as_str());
        s.append(")\n");
        s
    }
}

pub open spec fn write_header(status: u16) -> Seq<char> {
    "    w.WriteHeader("@ + dec_nat(status as nat) + ")\n"@
}

fn write_header_line(status: u16) -> (r: String)
    ensures
        r@ == write_header(status),
{
    let mut s = String::from_str("    w.WriteHeader(");
    let d = u64_to_string(status as u64);
    s.append(d.as_str());
    s.append(")\n");
    s
}

/// Writing the result: as text for a string response, else as JSON.
pub open spec fn spec_write_response(resp: ResponseSpec) -> Seq<char> {
    match resp.ty {
        Type::String => "    w.Header().Set(\"Content-Type\", \"text/plain\")\n"@ + write_header(resp.status) + "    _, _ = w.Write([]byte(result))\n"@,
        _ => "    w.Header().Set(\"Content-Type\", \"application/json\")\n"@ + write_header(resp.status) + "    _ = json.NewEncoder(w).Encode(result)\n"@,
    }
}

pub fn render_write_response(resp: &ResponseSpec) -> (r: String)
    ensures
        r@ == spec_write_response(*resp),
{
    let h = write_header_line(resp.status);
    match resp.ty {
        Type::String => {
            let mut s = String::from_str("    w.Header().Set(\"Content-Type\", \"text/plain\")\n");
            s.append(h.as_str());
            s.append("    _, _ = w.Write([]byte(result))\n");
            s
        },
        _ => {
            let mut s = String::from_str("    w.Header().Set(\"Content-Type\", \"application/json\")\n");
            s.append(h.as_str());
            s.append("    _ = json.NewEncoder(w).Encode(result)\n");
            s
        },
    }
}

/// A health check answers its status, with `ok` as body unless void.
pub open spec fn spec_healthcheck_go(resp: ResponseSpec) -> Seq<char> {
    if resp.ty is Void {
        write_header(resp.status)
    } else {
        write_header(resp.status) + "    _, _ = w.Write([]byte(\"ok\"))\n"@
    }
}

pub fn healthcheck_go(resp: &ResponseSpec) -> (r: String)
    ensures
        r@ == spec_healthcheck_go(*resp),
{
    let mut s = write_header_line(resp.status);
    match resp.ty {
        Type::Void => {},
        _ => {
            s.append("    _, _ = w.Write([]byte(\"ok\"))\n");
        },
    }
    s
}

pub open spec fn path_parse_fn() -> spec_fn(Field) -> Seq<char> {
    |f: Field| spec_parse_from_string(
        "path."@ + spec_go_field_name(f.name@),
        f.ty,
        "chi.URLParam(r, \""@ + f.name@ + "\")"@,
        true,
        false,
        "http.StatusBadRequest"@,
        "\"missing parameter\""@,
    )
}

pub open spec fn query_parse_fn() -> spec_fn(Field) -> Seq<char> {
    |f: Field| spec_parse_from_string(
        "query."@ + spec_go_field_name(f.name@),
        f.ty,
        "q.Get(\""@ + f.name@ + "\")"@,
        !f.optional,
        f.optional,
        "http.StatusBadRequest"@,
        "\"missing parameter\""@,
    )
}

/// 401 for a missing credential header, else 400.
pub open spec fn missing_status_name(name: Seq<char>) -> Seq<char> {
    if spec_missing_header_status(name) == 401 {
        "http.StatusUnauthorized"@
    } else {
        "http.StatusBadRequest"@
    }
}

pub open spec fn header_parse_fn() -> spec_fn(Field) -> Seq<char> {
    |f: Field| spec_parse_from_string(
        "headers."@ + spec_go_field_name(f.name@),
        f.ty,
        "r.Header.Get(\""@ + spec_header_runtime_key(f.name@) + "\")"@,
        !f.optional,
        f.optional,
        missing_status_name(f.name@),
        "\"missing header "@ + f.name@ + "\""@,
    )
}

#[derive(Clone, Copy)]
pub enum ParseKind {
    Path,
    Query,
    Header,
}

pub open spec fn parse_fn(kind: ParseKind) -> spec_fn(Field) -> Seq<char> {
    match kind {
        ParseKind::Path => path_parse_fn(),
        ParseKind::Query => query_parse_fn(),
        ParseKind::Header => header_parse_fn(),
    }
}

fn parse_field(kind: ParseKind, f: &Field) -> (r: String)
    ensures
        r@ == parse_fn(kind)(*f),
{
    let g = go_field_name(f.name.as_str());
    match kind {
        ParseKind::Path => {
            let mut t = String::from_str("path.");
            t.append(g.as_str());
            let mut getter = String::from_str("chi.URLParam(r, \"");
            getter.append(f.name.as_str());
            getter.append("\")");
            parse_from_string(t.as_str(), &f.ty, getter.as_str(), true, false, "http.StatusBadRequest", "\"missing parameter\"")
        },
        ParseKind::Query => {
            let mut t = String::from_str("query.");
            t.append(g.as_str());
            let mut getter = String::from_str("q.Get(\"");
            getter.append(f.name.as_str());
            getter.append("\")");
            parse_from_string(t.as_str(), &f.ty, getter.as_str(), !f.optional, f.optional, "http.StatusBadRequest", "\"missing parameter\"")
        },
        ParseKind::Header => {
            let mut t = String::from_str("headers.");
            t.append(g.as_str());
            let key = header_runtime_key(f.name.as_str());
            let mut getter = String::from_str("r.Header.Get(\"");
            getter.append(key.as_str());
            getter.append("\")");
            let status = if missing_header_status(f.name.as_str()) == 401 {
                "http.StatusUnauthorized"
            } else {
                "http.StatusBadRequest"
            };
            let mut msg = String::from_str("\"missing header ");
            msg.append(f.name.as_str());
            msg.append("\"");
            parse_from_string(t.as_str(), &f.ty, getter.as_str(), !f.optional, f.optional, status, msg.as_str())
        },
    }
}

fn parse_fields(kind: ParseKind, fields: &Vec<Field>) -> (r: String)
    ensures
        r@ == concat_all(fields@, parse_fn(kind)),
{
    let ghost f = parse_fn(kind);
    let mut out = String::new();
    let mut i: usize = 0;
    while i < fields.len()
        invariant
            0 <= i <= fields@.len(),
            f == parse_fn(kind),
            out@ == concat_all(fields@.take(i as int), f),
        decreases fields@.len() - i,
    {
        proof {
            lemma_concat_all_step(fields@, i as int, f);
        }
        let x = parse_field(kind, &fields[i]);
        out.append(x.as_str());
        i += 1;
    }
    proof {
        lemma_take_full(fields@);
    }
    out
}

/// Decoding the inputs of a route: path, query and header values parsed
/// one by one, the body decoded from JSON.
pub open spec fn spec_handler_inputs(route: Route) -> Seq<char> {
    (if route.input.path@.len() == 0 {
        Seq::empty()
    } else {
        "    var path "@ + spec_struct_name(route, "Path"@) + ";\n"@ + concat_all(route.input.path@, parse_fn(ParseKind::Path))
    }) + (if route.input.query@.len() == 0 {
        Seq::empty()
    } else {
        "    var query "@ + spec_struct_name(route, "Query"@) + ";\n"@ + "    q := r.URL.Query()\n"@ + concat_all(route.input.query@, parse_fn(ParseKind::Query))
    }) + (if route.headers@.len() == 0 {
        Seq::empty()
    } else {
        "    var headers "@ + spec_struct_name(route, "Headers"@) + ";\n"@ + concat_all(route.headers@, parse_fn(ParseKind::Header))
    }) + (if route.input.body@.len() == 0 {
        Seq::empty()
    } else {
        "    var body "@ + spec_struct_name(route, "Body"@) + ";\n"@ + "    if err := json.NewDecoder(r.Body).Decode(&body); err != nil {\n"@ + "        http.Error(w, \"invalid body\", http.StatusBadRequest)\n"@ + "        return\n    }\n"@
    })
}

fn handler_inputs(route: &Route) -> (r: String)
    ensures
        r@ == spec_handler_inputs(*route),
{
    let mut a = String::new();
    if route.input.path.len() > 0 {
        a.append("    var path ");
        let n = path_struct_name(route);
        a.append(n.as_str());
        a.append(";\n");
        let x = parse_fields(ParseKind::Path, &route.input.path);
        a.append(x.as_str());
    }
    let mut b = String::new();
    if route.input.query.len() > 0 {
        b.append("    var query ");
        let n = query_struct_name(route);
        b.append(n.as_str());
        b.append(";\n");
        b.append("    q := r.URL.Query()\n");
        let x = parse_fields(ParseKind::Query, &route.input.query);
        b.append(x.as_str());
    }
    let mut c = String::new();
    if route.headers.len() > 0 {
        c.append("    var headers ");
        let n = headers_struct_name(route);
        c.append(n.as_str());
        c.append(";\n");
        let x = parse_fields(ParseKind::Header, &route.headers);
        c.append(x.as_str());
    }
    let mut d = String::new();
    if route.input.body.len() > 0 {
        d.append("    var body ");
        let n = body_struct_name(route);
        d.append(n.as_str());
        d.append(";\n");
        d.append("    if err := json.NewDecoder(r.Body).Decode(&body); err != nil {\n");
        d.append("        http.Error(w, \"invalid body\", http.StatusBadRequest)\n");
        d.append("        return\n    }\n");
    }
    let mut out = a;
    out.append(b.as_str());
    out.append(c.as_str());
    out.append(d.as_str());
    assert(out@ =~= spec_handler_inputs(*route));
    out
}

/// What a handler does once its inputs are checked: answer a health
/// check, or make the call (forwarding errors of a remote call as 502) and
/// write the result.
pub open spec fn spec_handler_outcome(route: Route) -> Seq<char> {
    let resp = spec_primary_response(route.responses@);
    if route.healthcheck {
        spec_healthcheck_go(resp)
    } else {
        let call = spec_call_expr(route);
        if route.call.service_base is Some {
            if resp.ty is Void {
                "    if err := "@ + trim_seq(call) + "; err != nil {\n        http.Error(w, err.Error(), http.StatusBadGateway)\n        return\n    }\n"@ + write_header(resp.status)
            } else {
                "    result, err := "@ + trim_seq(call) + "\n    if err != nil {\n        http.Error(w, err.Error(), http.StatusBadGateway)\n        return\n    }\n"@ + spec_write_response(resp)
            }
        } else {
            if resp.ty is Void {
                call + write_header(resp.status)
            } else {
                "    result := "@ + trim_seq(call) + "\n"@ + spec_write_response(resp)
            }
        }
    }
}

fn handler_outcome(route: &Route) -> (r: String)
    requires
        route.responses@.len() > 0,
    ensures
        r@ == spec_handler_outcome(*route),
{
    let resp = primary_response(route);
    if route.healthcheck {
        return healthcheck_go(resp);
    }
    let call = render_call_expr(route);
    let is_void = match resp.ty {
        Type::Void => true,
        _ => false,
    };
    if route.call.service_base.is_some() {
        let t = trim(call.as_str());
        if is_void {
            let mut s = String::from_str("    if err := ");
            s.append(t.as_str());
            s.append("; err != nil {\n        http.Error(w, err.Error(), http.StatusBadGateway)\n        return\n    }\n");
            let h = write_header_line(resp.status);
            s.append(h.as_str());
            s
        } else {
            let mut s = String::from_str("    result, err := ");
            s.append(t.as_str());
            s.append("\n    if err != nil {\n        http.Error(w, err.Error(), http.StatusBadGateway)\n        return\n    }\n");
            let x = render_write_response(resp);
            s.append(x.as_str());
            s
        }
    } else {
        if is_void {
            let mut s = call;
            let h = write_header_line(resp.status);
            s.append(h.as_str());
            s
        } else {
            let t = trim(call.as_str());
            let mut s = String::from_str("    result := ");
            s.append(t.as_str());
            s.append("\n");
            let x = render_write_response(resp);
            s.append(x.as_str());
            s
        }
    }
}

/// The handler of a route: decode and check its inputs, then act.
#[verifier::opaque]
pub open spec fn spec_route_handler(route: Route) -> Seq<char> {
    "func "@ + spec_handler_name(route) + "(w http.ResponseWriter, r *http.Request) {\n"@
        + spec_handler_inputs(route) + spec_render_validation_block(route) + spec_handler_outcome(route)
        + "}\n"@
}

pub fn render_route_handler(route: &Route) -> (r: String)
    requires
        route.responses@.len() > 0,
    ensures
        r@ == spec_route_handler(*route),
{
    let name = handler_name(route);
    let mut s = String::from_str("func ");
    s.append(name.as_str());
    s.append("(w http.ResponseWriter, r *http.Request) {\n");
    let i = handler_inputs(route);
    s.append(i.as_str());
    let v = render_validation_block(route);
    s.append(v.as_str());
    let o = handler_outcome(route);
    s.append(o.as_str());
    s.append("}\n");
    proof {
        reveal(spec_route_handler);
    }
    s
}

/// The access log middleware, when the service has routes.
pub open spec fn spec_access_log_helpers(service: Service) -> Seq<char> {
    if service.http.routes@.len() == 0 {
        Seq::empty()
    } else {
        "type loggingResponseWriter struct {\n    http.ResponseWriter\n    status int\n}\n\nfunc (w *loggingResponseWriter) WriteHeader(status int) {\n    w.status = status\n    w.ResponseWriter.WriteHeader(status)\n}\n\nfunc accessLogMiddleware(next http.Handler) http.Handler {\n    return http.HandlerFunc(func(w http.ResponseWriter, r *http.Request) {\n        started := time.Now()\n        lw := &loggingResponseWriter{ResponseWriter: w, status: http.StatusOK}\n        next.ServeHTTP(lw, r)\n        fmt.Fprintf(os.Stderr, \"["@ + service.name@ + "] %s %s -> %d (%dms)\\n\", r.Method, r.URL.RequestURI(), lw.status, time.Since(started).Milliseconds())\n    })\n}\n\n"@
    }
}

pub fn render_access_log_helpers(service: &Service) -> (r: String)
    ensures
        r@ == spec_access_log_helpers(*service),
{
    if service.http.routes.len() == 0 {
        return String::new();
    }
    let mut s = String::from_str("type loggingResponseWriter struct {\n    http.ResponseWriter\n    status int\n}\n\nfunc (w *loggingResponseWriter) WriteHeader(status int) {\n    w.status = status\n    w.ResponseWriter.WriteHeader(status)\n}\n\nfunc accessLogMiddleware(next http.Handler) http.Handler {\n    return http.HandlerFunc(func(w http.ResponseWriter, r *http.Request) {\n        started := time.Now()\n        lw := &loggingResponseWriter{ResponseWriter: w, status: http.StatusOK}\n        next.ServeHTTP(lw, r)\n        fmt.Fprintf(os.Stderr, \"[");
    s.append(service.name.as_str());
    s.append("] %s %s -> %d (%dms)\\n\", r.Method, r.URL.RequestURI(), lw.status, time.Since(started).Milliseconds())\n    })\n}\n\n");
    s
}

pub open spec fn rate_limit_fn(service: Service) -> spec_fn(Route) -> Seq<char> {
    |r: Route| match spec_effective_rate_limit(r, service) {
        Some(l) => "func "@ + spec_rate_limit_name(r) + "(next http.Handler) http.Handler {\n    return http.HandlerFunc(func(w http.ResponseWriter, r *http.Request) {\n        rateLimitState.Lock()\n        state, ok := rateLimitState.m[\""@ + spec_rate_limit_name(r) + "\"]\n        if !ok || time.Since(state.reset) >= "@ + dec_nat(l.per_seconds as nat) + "*time.Second {\n            state = &rateLimitStateType{count: 0, reset: time.Now()}\n            rateLimitState.m[\""@ + spec_rate_limit_name(r) + "\"] = state\n        }\n        if state.count >= "@ + dec_nat(l.max as nat) + " {\n            rateLimitState.Unlock()\n            http.Error(w, \"Too Many Requests\", http.StatusTooManyRequests)\n            return\n        }\n        state.count++\n        rateLimitState.Unlock()\n        next.ServeHTTP(w, r)\n    })\n}\n\n"@,
        None => Seq::empty(),
    }
}

/// The shared rate limit state and one limiting middleware per route
/// with a limit (its own or the service's).
pub open spec fn spec_rate_limit_helpers(service: Service) -> Seq<char> {
    "type rateLimitStateType struct { count int; reset time.Time }\n"@ + "var rateLimitState = struct { sync.Mutex; m map[string]*rateLimitStateType }{m: map[string]*rateLimitStateType{}}\n\n"@ + concat_all(service.http.routes@, rate_limit_fn(service))
}

fn rate_limit_fn_exec(service: &Service, r: &Route) -> (res: String)
    ensures
        res@ == rate_limit_fn(*service)(*r),
{
    match effective_rate_limit(r, service) {
        Some(l) => {
            let name = rate_limit_name(r);
            let win = u64_to_string(l.per_seconds);
            let mx = u64_to_string(l.max as u64);
            let mut s = String::from_str("func ");
            s.append(name.as_str());
            s.append("(next http.Handler) http.Handler {\n    return http.HandlerFunc(func(w http.ResponseWriter, r *http.Request) {\n        rateLimitState.Lock()\n        state, ok := rateLimitState.m[\"");
            s.append(name.as_str());
            s.append("\"]\n        if !ok || time.Since(state.reset) >= ");
            s.append(win.as_str());
            s.append("*time.Second {\n            state = &rateLimitStateType{count: 0, reset: time.Now()}\n            rateLimitState.m[\"");
            s.append(name.as_str());
            s.append("\"] = state\n        }\n        if state.count >= ");
            s.append(mx.as_str());
            s.append(" {\n            rateLimitState.Unlock()\n            http.Error(w, \"Too Many Requests\", http.StatusTooManyRequests)\n            return\n        }\n        state.count++\n        rateLimitState.Unlock()\n        next.ServeHTTP(w, r)\n    })\n}\n\n");
            s
        },
        None => String::new(),
    }
}

pub fn render_rate_limit_helpers(service: &Service) -> (r: String)
    ensures
        r@ == spec_rate_limit_helpers(*service),
{
    let mut out = String::from_str("type rateLimitStateType struct { count int; reset time.Time }\n");
    out.append("var rateLimitState = struct { sync.Mutex; m map[string]*rateLimitStateType }{m: map[string]*rateLimitStateType{}}\n\n");
    let ghost start = out@;
    let ghost f = rate_limit_fn(*service);
    let routes = &service.http.routes;
    let mut i: usize = 0;
    while i < routes.len()
        invariant
            0 <= i <= routes@.len(),
            routes@ == service.http.routes@,
            f == rate_limit_fn(*service),
            out@ == start + concat_all(routes@.take(i as int), f),
        decreases routes@.len() - i,
    {
        proof {
            lemma_concat_all_step(routes@, i as int, f);
        }
        let x = rate_limit_fn_exec(service, &routes[i]);
        out.append(x.as_str());
        i += 1;
        assert(out@ =~= start + concat_all(routes@.take(i as int), f));
    }
    proof {
        lemma_take_full(routes@);
    }
    out
}

/// An origin as a Go string key: backslashes and quotes escaped.
pub open spec fn go_quoted_origin(o: Seq<char>) -> Seq<char> {
    "\""@ + replace_char_seq(replace_char_seq(o, '\\', "\\\\"@), '"', "\\\""@) + "\": true"@
}

pub open spec fn origin_items(v: Seq<String>) -> Seq<Seq<char>> {
    v.map_values(|o: String| go_quoted_origin(o@))
}

/// A comma separated list in quotes, or the default when empty.
pub open spec fn quoted_list(v: Seq<String>, default: Seq<char>) -> Seq<char> {
    if v.len() == 0 {
        "\""@ + default + "\""@
    } else {
        "\""@ + seq_join(views(v), ","@) + "\""@
    }
}

pub open spec fn cors_template(headers: Seq<char>, methods: Seq<char>) -> Seq<char> {
    "func corsMiddleware(next http.Handler) http.Handler {\n    return http.HandlerFunc(func(w http.ResponseWriter, r *http.Request) {\n        origin := r.Header.Get(\"Origin\")\n        if corsAllowAny {\n            w.Header().Set(\"Access-Control-Allow-Origin\", \"*\")\n        } else if origin != \"\" && corsAllowList[origin] {\n            w.Header().Set(\"Access-Control-Allow-Origin\", origin)\n            w.Header().Set(\"Vary\", \"Origin\")\n        }\n        w.Header().Set(\"Access-Control-Allow-Headers\", "@ + headers + ")\n        w.Header().Set(\"Access-Control-Allow-Methods\", "@ + methods + ")\n        if r.Method == http.MethodOptions {\n            w.WriteHeader(http.StatusNoContent)\n            return\n        }\n        next.ServeHTTP(w, r)\n    })\n}\n\n"@
}

/// The CORS settings and middleware, when the service configures CORS.
pub open spec fn spec_cors_helpers(service: Service) -> Seq<char> {
    match service.common.cors {
        None => Seq::empty(),
        Some(cors) => {
            let list = if cors.allow_any {
                "var corsAllowList = map[string]bool{}\n\n"@
            } else {
                "var corsAllowList = map[string]bool{"@ + seq_join(origin_items(cors.origins@), ", "@) + "}\n\n"@
            };
            "var corsAllowAny = "@ + (if cors.allow_any {
                "true"@
            } else {
                "false"@
            }) + "\n"@ + list + cors_template(
                quoted_list(cors.headers@, "authorization,content-type,x-admin-token,x_admin_token"@),
                quoted_list(cors.methods@, "GET,POST,PUT,PATCH,DELETE,OPTIONS"@),
            )
        },
    }
}

fn quoted_list_exec(v: &Vec<String>, default: &str) -> (r: String)
    ensures
        r@ == quoted_list(v@, default@),
{
    let mut s = String::from_str("\"");
    if v.len() == 0 {
        s.append(default);
    } else {
        let j = join(v, ",");
        s.append(j.as_str());
    }
    s.append("\"");
    s
}

fn origin_list(v: &Vec<String>) -> (r: String)
    ensures
        r@ == seq_join(origin_items(v@), ", "@),
{
    let mut parts: Vec<String> = Vec::new();
    let mut i: usize = 0;
    while i < v.len()
        invariant
            0 <= i <= v@.len(),
            views(parts@) == origin_items(v@.take(i as int)),
        decreases v@.len() - i,
    {
        let a = replace_char(v[i].as_str(), '\\', "\\\\");
        let b = replace_char(a.as_str(), '"', "\\\"");
        let mut s = String::from_str("\"");
        s.append(b.as_str());
        s.append("\": true");
        proof {
            lemma_views_push(parts@, s);
            assert(origin_items(v@.take(i + 1)) =~= origin_items(v@.take(i as int)).push(s@));
        }
        parts.push(s);
        i += 1;
    }
    assert(v@.take(v@.len() as int) =~= v@);
    join(&parts, ", ")
}

pub fn render_cors_helpers(service: &Service) -> (r: String)
    ensures
        r@ == spec_cors_helpers(*service),
{
    let cors = match &service.common.cors {
        None => {
            return String::new();
        },
        Some(c) => c,
    };
    let mut out = String::from_str("var corsAllowAny = ");
    if cors.allow_any {
        out.append("true");
    } else {
        out.append("false");
    }
    out.append("\n");
    if cors.allow_any {
        out.append("var corsAllowList = map[string]bool{}\n\n");
    } else {
        let mut l = String::from_str("var corsAllowList = map[string]bool{");
        let items = origin_list(&cors.origins);
        l.append(items.as_str());
        l.append("}\n\n");
        out.append(l.as_str());
    }
    let headers = quoted_list_exec(&cors.headers, default_cors_headers());
    let methods = quoted_list_exec(&cors.methods, default_cors_methods());
    let mut s = String::from_str("func corsMiddleware(next http.Handler) http.Handler {\n    return http.HandlerFunc(func(w http.ResponseWriter, r *http.Request) {\n        origin := r.Header.Get(\"Origin\")\n        if corsAllowAny {\n            w.Header().Set(\"Access-Control-Allow-Origin\", \"*\")\n        } else if origin != \"\" && corsAllowList[origin] {\n            w.Header().Set(\"Access-Control-Allow-Origin\", origin)\n            w.Header().Set(\"Vary\", \"Origin\")\n        }\n        w.Header().Set(\"Access-Control-Allow-Headers\", ");
    s.append(headers.as_str());
    s.append(")\n        w.Header().Set(\"Access-Control-Allow-Methods\", ");
    s.append(methods.as_str());
    s.append(")\n        if r.Method == http.MethodOptions {\n            w.WriteHeader(http.StatusNoContent)\n            return\n        }\n        next.ServeHTTP(w, r)\n    })\n}\n\n");
    out.append(s.as_str());
    assert(out@ =~= spec_cors_helpers(*service));
    out
}

// ---------------------------------------------------------------------------
// The router
// ---------------------------------------------------------------------------

/// The middleware in front of a route's handler: its rate limit, its own
/// middleware, then its authentication.
pub open spec fn route_chain(route: Route, service: Service) -> Seq<Seq<char>> {
    (if spec_effective_rate_limit(route, service) is Some {
        seq![spec_rate_limit_name(route)]
    } else {
        Seq::empty()
    }) + views(route.middleware@) + match spec_effective_auth(route.auth, service.common.auth) {
        Some(a) => seq![spec_auth_middleware_name(a)],
        None => Seq::empty(),
    }
}

pub open spec fn route_line_fn(service: Service) -> spec_fn(Route) -> Seq<char> {
    |r: Route| {
        let c = route_chain(r, service);
        let tail = "Method(\""@ + spec_http_method(r.method) + "\", \""@ + r.path@ + "\", http.HandlerFunc("@ + spec_handler_name(r) + "))\n"@;
        if c.len() == 0 {
            "r."@ + tail
        } else {
            "r.With("@ + seq_join(c, ", "@) + ")."@ + tail
        }
    }
}

pub open spec fn use_line_fn() -> spec_fn(String) -> Seq<char> {
    |n: String| "r.Use("@ + n@ + ")\n"@
}

pub open spec fn socket_route_fn() -> spec_fn(SocketDef) -> Seq<char> {
    |s: SocketDef| "r.Get(\""@ + s.path@ + "\", "@ + spec_socket_handler_name(spec_code_name(s.name)) + ")\n"@
}

/// The router: global middleware, then one registration per route and per
/// socket.
pub open spec fn spec_router_setup(service: Service) -> Seq<char> {
    "r := chi.NewRouter()\n"@ + (if spec_needs_rate_limit(service) {
        "    _ = rateLimitState\n"@
    } else {
        Seq::empty()
    }) + (if service.http.routes@.len() > 0 {
        "    r.Use(accessLogMiddleware)\n"@
    } else {
        Seq::empty()
    }) + (if service.common.cors is Some {
        "    r.Use(corsMiddleware)\n"@
    } else {
        Seq::empty()
    }) + concat_all(service.common.middleware@, use_line_fn()) + concat_all(
        service.http.routes@,
        route_line_fn(service),
    ) + concat_all(service.sockets.sockets@, socket_route_fn())
}

fn route_line(service: &Service, r: &Route) -> (res: String)
    ensures
        res@ == route_line_fn(*service)(*r),
{
    let mut chain: Vec<String> = Vec::new();
    let ghost c0 = views(chain@);
    if effective_rate_limit(r, service).is_some() {
        let n = rate_limit_name(r);
        proof {
            lemma_views_push(chain@, n);
        }
        chain.push(n);
    }
    let ghost c1 = views(chain@);
    let mut i: usize = 0;
    while i < r.middleware.len()
        invariant
            0 <= i <= r.middleware@.len(),
            views(chain@) == c1 + views(r.middleware@.take(i as int)),
        decreases r.middleware@.len() - i,
    {
        let m = middleware_name(r.middleware[i].as_str());
        proof {
            lemma_views_push(chain@, m);
            lemma_views_push(r.middleware@.take(i as int), r.middleware@[i as int]);
            assert(r.middleware@.take(i + 1) =~= r.middleware@.take(i as int).push(r.middleware@[i as int]));
        }
        chain.push(m);
        i += 1;
        assert(views(chain@) =~= c1 + views(r.middleware@.take(i as int)));
    }
    assert(r.middleware@.take(r.middleware@.len() as int) =~= r.middleware@);
    let ghost c2 = views(chain@);
    match effective_auth(r.auth, service.common.auth) {
        Some(a) => {
            let n = auth_middleware_name(&a);
            proof {
                lemma_views_push(chain@, n);
            }
            chain.push(n);
        },
        None => {},
    }
    assert(views(chain@) =~= route_chain(*r, *service));
    let handler = handler_name(r);
    let mut tail = String::from_str("Method(\"");
    tail.append(http_method(r));
    tail.append("\", \"");
    tail.append(r.path.as_str());
    tail.append("\", http.HandlerFunc(");
    tail.append(handler.as_str());
    tail.append("))\n");
    if chain.len() == 0 {
        let mut s = String::from_str("r.");
        s.append(tail.as_str());
        s
    } else {
        let mut s = String::from_str("r.With(");
        let j = join(&chain, ", ");
        s.append(j.as_str());
        s.append(").");
        s.append(tail.as_str());
        s
    }
}

pub fn render_router_setup(service: &Service) -> (r: String)
    ensures
        r@ == spec_router_setup(*service),
{
    let mut out = String::from_str("r := chi.NewRouter()\n");
    if needs_rate_limit(service) {
        out.append("    _ = rateLimitState\n");
    }
    if service.http.routes.len() > 0 {
        out.append("    r.Use(accessLogMiddleware)\n");
    }
    if service.common.cors.is_some() {
        out.append("    r.Use(corsMiddleware)\n");
    }
    let ghost a = out@;
    let mws = &service.common.middleware;
    let mut i: usize = 0;
    while i < mws.len()
        invariant
            0 <= i <= mws@.len(),
            out@ == a + concat_all(mws@.take(i as int), use_line_fn()),
        decreases mws@.len() - i,
    {
        proof {
            lemma_concat_all_step(mws@, i as int, use_line_fn());
        }
        let mut s = String::from_str("r.Use(");
        let n = middleware_name(mws[i].as_str());
        s.append(n.as_str());
        s.append(")\n");
        out.append(s.as_str());
        i += 1;
        assert(out@ =~= a + concat_all(mws@.take(i as int), use_line_fn()));
    }
    proof {
        lemma_take_full(mws@);
    }
    let ghost b = out@;
    let ghost f = route_line_fn(*service);
    let routes = &service.http.routes;
    let mut k: usize = 0;
    while k < routes.len()
        invariant
            0 <= k <= routes@.len(),
            routes@ == service.http.routes@,
            f == route_line_fn(*service),
            out@ == b + concat_all(routes@.take(k as int), f),
        decreases routes@.len() - k,
    {
        proof {
            lemma_concat_all_step(routes@, k as int, f);
        }
        let s = route_line(service, &routes[k]);
        out.append(s.as_str());
        k += 1;
        assert(out@ =~= b + concat_all(routes@.take(k as int), f));
    }
    proof {
        lemma_take_full(routes@);
    }
    let ghost c = out@;
    let sockets = &service.sockets.sockets;
    let mut j: usize = 0;
    while j < sockets.len()
        invariant
            0 <= j <= sockets@.len(),
            out@ == c + concat_all(sockets@.take(j as int), socket_route_fn()),
        decreases sockets@.len() - j,
    {
        proof {
            lemma_concat_all_step(sockets@, j as int, socket_route_fn());
        }
        let code = sockets[j].name.code_name();
        let h = socket_handler_name(code.as_str());
        let mut s = String::from_str("r.Get(\"");
        s.append(sockets[j].path.as_str());
        s.append("\", ");
        s.append(h.as_str());
        s.append(")\n");
        out.append(s.as_str());
        j += 1;
        assert(out@ =~= c + concat_all(sockets@.take(j as int), socket_route_fn()));
    }
    proof {
        lemma_take_full(sockets@);
    }
    out
}

// ---------------------------------------------------------------------------
// Imports
// ---------------------------------------------------------------------------

pub open spec fn push_unique(v: Seq<Seq<char>>, x: Seq<char>) -> Seq<Seq<char>> {
    if v.contains(x) {
        v
    } else {
        v.push(x)
    }
}

pub open spec fn any_route_test(test: FieldTest, routes: Seq<Route>) -> bool {
    exists|i: int| 0 <= i < routes.len() && spec_route_any(test, #[trigger] routes[i])
}

pub open spec fn any_socket_limit(sockets: Seq<SocketDef>) -> bool {
    exists|i: int| 0 <= i < sockets.len() && (#[trigger] sockets[i]).rate_limit is Some
}

/// The packages `main.go` imports, in order: what every server needs, then
/// what its routes, sockets, checks and logging use, then the modules used
/// at run time.
pub open spec fn spec_go_imports(service: Service, module_name: Seq<char>) -> Seq<Seq<char>> {
    let needs_ws = service.sockets.sockets@.len() > 0;
    let needs_log = service.http.routes@.len() > 0;
    let v0 = seq!["\"net/http\""@, "\"github.com/go-chi/chi/v5\""@];
    let v1 = if spec_needs_json(service) || needs_ws {
        v0.push("\"encoding/json\""@)
    } else {
        v0
    };
    let v2 = if spec_needs_strconv(service) {
        v1.push("\"strconv\""@)
    } else {
        v1
    };
    let v3 = if spec_needs_rate_limit(service) || any_socket_limit(service.sockets.sockets@) {
        v2.push("\"sync\""@).push("\"time\""@)
    } else {
        v2
    };
    let v4 = if needs_ws {
        push_unique(
            push_unique(push_unique(v3.push("\"github.com/gorilla/websocket\""@), "\"fmt\""@), "\"os\""@),
            "\"sync\""@,
        )
    } else {
        v3
    };
    let v5 = if any_route_test(FieldTest::HasRegex, service.http.routes@) {
        v4.push("\"regexp\""@)
    } else {
        v4
    };
    let v6 = if any_route_test(FieldTest::NeedsUnionCheck, service.http.routes@) {
        v5.push("\"math\""@)
    } else {
        v5
    };
    let v7 = if service.common.env@.len() > 0 {
        v6.push("\"fmt\""@).push("\"os\""@)
    } else {
        v6
    };
    let v8 = if needs_log {
        push_unique(push_unique(push_unique(v7, "\"fmt\""@), "\"os\""@), "\"time\""@)
    } else {
        v7
    };
    let v9 = if spec_needs_types_in_main(service) {
        v8.push("\""@ + module_name + "/types\""@)
    } else {
        v8
    };
    v9 + spec_render_module_imports(service, module_name, UseScope::Runtime)
}

fn push_text(v: &mut Vec<String>, x: &str)
    ensures
        views(final(v)@) == views(old(v)@).push(x@),
{
    let s = String::from_str(x);
    proof {
        lemma_views_push(v@, s);
    }
    v.push(s);
}

fn push_unique_text(v: &mut Vec<String>, x: &str)
    ensures
        views(final(v)@) == push_unique(views(old(v)@), x@),
{
    let ghost vv = views(v@);
    let mut i: usize = 0;
    while i < v.len()
        invariant
            0 <= i <= v@.len(),
            vv == views(v@),
            forall|j: int| 0 <= j < i ==> vv[j] != x@,
        decreases v@.len() - i,
    {
        assert(vv[i as int] == v@[i as int]@);
        if str_eq(v[i].as_str(), x) {
            assert(vv.contains(x@));
            return;
        }
        i += 1;
    }
    assert(!vv.contains(x@));
    push_text(v, x);
}

fn any_route_regex(routes: &Vec<Route>) -> (r: bool)
    ensures
        r == any_route_test(FieldTest::HasRegex, routes@),
{
    let mut i: usize = 0;
    while i < routes.len()
        invariant
            0 <= i <= routes@.len(),
            forall|j: int| 0 <= j < i ==> !spec_route_any(FieldTest::HasRegex, #[trigger] routes@[j]),
        decreases routes@.len() - i,
    {
        if route_has_regex(&routes[i]) {
            assert(spec_route_any(FieldTest::HasRegex, routes@[i as int]));
            return true;
        }
        i += 1;
    }
    false
}

fn any_route_union(routes: &Vec<Route>) -> (r: bool)
    ensures
        r == any_route_test(FieldTest::NeedsUnionCheck, routes@),
{
    let mut i: usize = 0;
    while i < routes.len()
        invariant
            0 <= i <= routes@.len(),
            forall|j: int| 0 <= j < i ==> !spec_route_any(FieldTest::NeedsUnionCheck, #[trigger] routes@[j]),
        decreases routes@.len() - i,
    {
        if route_has_union_validation(&routes[i]) {
            assert(spec_route_any(FieldTest::NeedsUnionCheck, routes@[i as int]));
            return true;
        }
        i += 1;
    }
    false
}

fn any_socket_limit_exec(sockets: &Vec<SocketDef>) -> (r: bool)
    ensures
        r == any_socket_limit(sockets@),
{
    let mut i: usize = 0;
    while i < sockets.len()
        invariant
            0 <= i <= sockets@.len(),
            forall|j: int| 0 <= j < i ==> (#[trigger] sockets@[j]).rate_limit is None,
        decreases sockets@.len() - i,
    {
        if sockets[i].rate_limit.is_some() {
            return true;
        }
        i += 1;
    }
    false
}

pub fn go_imports(service: &Service, module_name: &str) -> (r: Vec<String>)
    requires
        all_routes_respond(*service),
    ensures
        views(r@) == spec_go_imports(*service, module_name@),
{
    let needs_ws = service.sockets.sockets.len() > 0;
    let needs_log = service.http.routes.len() > 0;
    let mut v: Vec<String> = Vec::new();
    push_text(&mut v, "\"net/http\"");
    push_text(&mut v, "\"github.com/go-chi/chi/v5\"");
    assert(views(v@) =~= seq!["\"net/http\""@, "\"github.com/go-chi/chi/v5\""@]);
    if needs_json(service) || needs_ws {
        push_text(&mut v, "\"encoding/json\"");
    }
    if needs_strconv(service) {
        push_text(&mut v, "\"strconv\"");
    }
    if needs_rate_limit(service) || any_socket_limit_exec(&service.sockets.sockets) {
        push_text(&mut v, "\"sync\"");
        push_text(&mut v, "\"time\"");
    }
    if needs_ws {
        push_text(&mut v, "\"github.com/gorilla/websocket\"");
        push_unique_text(&mut v, "\"fmt\"");
        push_unique_text(&mut v, "\"os\"");
        push_unique_text(&mut v, "\"sync\"");
    }
    if any_route_regex(&service.http.routes) {
        push_text(&mut v, "\"regexp\"");
    }
    if any_route_union(&service.http.routes) {
        push_text(&mut v, "\"math\"");
    }
    if service.common.env.len() > 0 {
        push_text(&mut v, "\"fmt\"");
        push_text(&mut v, "\"os\"");
    }
    if needs_log {
        push_unique_text(&mut v, "\"fmt\"");
        push_unique_text(&mut v, "\"os\"");
        push_unique_text(&mut v, "\"time\"");
    }
    if needs_types_in_main(service) {
        let mut t = String::from_str("\"");
        t.append(module_name);
        t.append("/types\"");
        proof {
            lemma_views_push(v@, t);
        }
        v.push(t);
    }
    let mods = render_module_imports(service, module_name, UseScope::Runtime);
    let ghost before = views(v@);
    let mut i: usize = 0;
    while i < mods.len()
        invariant
            0 <= i <= mods@.len(),
            views(v@) == before + views(mods@.take(i as int)),
        decreases mods@.len() - i,
    {
        let x = mods[i].clone();
        proof {
            lemma_views_push(v@, x);
            lemma_views_push(mods@.take(i as int), mods@[i as int]);
            assert(mods@.take(i + 1) =~= mods@.take(i as int).push(mods@[i as int]));
        }
        v.push(x);
        i += 1;
        assert(views(v@) =~= before + views(mods@.take(i as int)));
    }
    assert(mods@.take(mods@.len() as int) =~= mods@);
    v
}

pub open spec fn import_lines(v: Seq<Seq<char>>) -> Seq<Seq<char>> {
    v.map_values(|i: Seq<char>| "    "@ + i)
}

// ---------------------------------------------------------------------------
// main.go
// ---------------------------------------------------------------------------

pub open spec fn route_handler_fn() -> spec_fn(Route) -> Seq<char> {
    |r: Route| spec_route_handler(r) + "\n"@
}

pub open spec fn route_structs_fn() -> spec_fn(Route) -> Seq<char> {
    |r: Route| spec_route_input_structs(r)
}

/// The handlers: one per route, the type-test helpers when used, and the
/// socket code when the service has sockets; each followed by a blank line.
pub open spec fn spec_go_handlers(service: Service) -> Seq<char> {
    let helpers = spec_render_validation_helpers(service);
    concat_all(service.http.routes@, route_handler_fn()) + (if helpers.len() > 0 {
        helpers + "\n"@
    } else {
        Seq::empty()
    }) + (if service.sockets.sockets@.len() > 0 {
        spec_render_socket_helpers(service) + "\n"@
    } else {
        Seq::empty()
    })
}

#[verifier::opaque]
pub open spec fn main_go_template(imports: Seq<char>, rate_helpers: Seq<char>, cors_helpers: Seq<char>, access_log_helpers: Seq<char>, route_structs: Seq<char>, handlers: Seq<char>, env_checks: Seq<char>, router_setup: Seq<char>, event_consumers: Seq<char>, address: Seq<char>, port: Seq<char>) -> Seq<char> {
    "package main\n\nimport (\n"@ + imports + "\n)\n\n"@ + rate_helpers + "\n"@ + cors_helpers + "\n"@ + access_log_helpers + "\n"@ + route_structs + "\n"@ + handlers + "\nfunc main() {\n"@ + env_checks + "\n    "@ + router_setup + "\n"@ + event_consumers + "\n    http.ListenAndServe(\""@ + address + ":"@ + port + "\", r)\n}\n"@
}

/// The whole `main.go` of a Go server in module `module_name`.
pub open spec fn spec_build_main_go(service: Service, module_name: Seq<char>) -> Seq<char> {
    main_go_template(
        seq_join(import_lines(spec_go_imports(service, module_name)), "\n"@),
        if spec_needs_rate_limit(service) {
            spec_rate_limit_helpers(service)
        } else {
            Seq::empty()
        },
        spec_cors_helpers(service),
        spec_access_log_helpers(service),
        concat_all(service.http.routes@, route_structs_fn()),
        spec_go_handlers(service),
        spec_env_checks(EnvTarget::Go, service.common.env@),
        spec_router_setup(service),
        if service.events.config is Some && service.events.subscribes@.len() > 0 {
            "    StartEventConsumers()\n"@
        } else {
            Seq::empty()
        },
        match service.common.address {
            Some(a) => a@,
            None => "127.0.0.1"@,
        },
        dec_nat(
            match service.common.port {
                Some(p) => p as nat,
                None => 3000,
            },
        ),
    )
}

fn go_handlers(service: &Service) -> (r: String)
    requires
        all_routes_respond(*service),
    ensures
        r@ == spec_go_handlers(*service),
{
    let routes = &service.http.routes;
    let mut out = String::new();
    let mut i: usize = 0;
    while i < routes.len()
        invariant
            0 <= i <= routes@.len(),
            routes@ == service.http.routes@,
            all_routes_respond(*service),
            out@ == concat_all(routes@.take(i as int), route_handler_fn()),
        decreases routes@.len() - i,
    {
        proof {
            lemma_concat_all_step(routes@, i as int, route_handler_fn());
        }
        assert(routes@[i as int].responses@.len() > 0);
        let h = render_route_handler(&routes[i]);
        out.append(h.as_str());
        out.append("\n");
        i += 1;
        assert(out@ =~= concat_all(routes@.take(i as int), route_handler_fn()));
    }
    proof {
        lemma_take_full(routes@);
    }
    let helpers = render_validation_helpers(service);
    if !helpers.as_str().is_empty() {
        out.append(helpers.as_str());
        out.append("\n");
    }
    if service.sockets.sockets.len() > 0 {
        let s = render_socket_helpers(service);
        out.append(s.as_str());
        out.append("\n");
    }
    assert(out@ =~= spec_go_handlers(*service));
    out
}

fn route_structs(service: &Service) -> (r: String)
    ensures
        r@ == concat_all(service.http.routes@, route_structs_fn()),
{
    let routes = &service.http.routes;
    let mut out = String::new();
    let mut i: usize = 0;
    while i < routes.len()
        invariant
            0 <= i <= routes@.len(),
            out@ == concat_all(routes@.take(i as int), route_structs_fn()),
        decreases routes@.len() - i,
    {
        proof {
            lemma_concat_all_step(routes@, i as int, route_structs_fn());
        }
        let s = render_route_input_structs(&routes[i]);
        out.append(s.as_str());
        i += 1;
    }
    proof {
        lemma_take_full(routes@);
    }
    out
}

fn import_block(v: &Vec<String>) -> (r: String)
    ensures
        r@ == seq_join(import_lines(views(v@)), "\n"@),
{
    let mut lines: Vec<String> = Vec::new();
    let mut i: usize = 0;
    while i < v.len()
        invariant
            0 <= i <= v@.len(),
            views(lines@) == import_lines(views(v@).take(i as int)),
        decreases v@.len() - i,
    {
        let mut s = String::from_str("    ");
        s.append(v[i].as_str());
        proof {
            lemma_views_push(lines@, s);
            assert(views(v@)[i as int] == v@[i as int]@);
            assert(import_lines(views(v@).take(i + 1)) =~= import_lines(views(v@).take(i as int)).push(s@));
        }
        lines.push(s);
        i += 1;
    }
    assert(views(v@).take(v@.len() as int) =~= views(v@));
    join(&lines, "\n")
}

pub fn build_main_go(service: &Service, module_name: &str) -> (r: String)
    requires
        all_routes_respond(*service),
    ensures
        r@ == spec_build_main_go(*service, module_name@),
{
    let import_list = go_imports(service, module_name);
    let imports = import_block(&import_list);
    let rate_helpers = if needs_rate_limit(service) {
        render_rate_limit_helpers(service)
    } else {
        String::new()
    };
    let cors_helpers = render_cors_helpers(service);
    let access_log_helpers = render_access_log_helpers(service);
    let route_structs = route_structs(service);
    let handlers = go_handlers(service);
    let env_checks = render_env_checks_go(service);
    let router_setup = render_router_setup(service);
    let event_consumers = if service.events.config.is_some() && service.events.subscribes.len() > 0 {
        String::from_str("    StartEventConsumers()\n")
    } else {
        String::new()
    };
    let address = match &service.common.address {
        Some(a) => a.clone(),
        None => String::from_str("127.0.0.1"),
    };
    let port_n: u64 = match service.common.port {
        Some(p) => p as u64,
        None => 3000,
    };
    let port = u64_to_string(port_n);
    let mut s = String::from_str("package main\n\nimport (\n");
    s.append(imports.as_str());
    s.append("\n)\n\n");
    s.append(rate_helpers.as_str());
    s.append("\n");
    s.append(cors_helpers.as_str());
    s.append("\n");
    s.append(access_log_helpers.as_str());
    s.append("\n");
    s.append(route_structs.as_str());
    s.append("\n");
    s.append(handlers.as_str());
    s.append("\nfunc main() {\n");
    s.append(env_checks.as_str());
    s.append("\n    ");
    s.append(router_setup.as_str());
    s.append("\n");
    s.append(event_consumers.as_str());
    s.append("\n    http.ListenAndServe(\"");
    s.append(address.as_str());
    s.append(":");
    s.append(port.as_str());
    s.append("\", r)\n}\n");
    proof {
        reveal(main_go_template);
    }
    s
}

} // verus!
