//! The route handlers of the Rust server: input structs, header
//! extraction, the module call and the answer, and the helpers they share.

use vstd::prelude::*;

use crate::generators::common::errors::{missing_header_status, spec_missing_header_status};
use crate::generators::common::headers::{header_runtime_key, spec_header_runtime_key};
use crate::generators::go::util::{
    auth_middleware_name, effective_rate_limit, remote_call_fn_name, spec_auth_middleware_name,
    spec_effective_rate_limit, spec_remote_call_fn_name,
};
use crate::generators::go::util::{all_routes_respond, primary_response, spec_primary_response};
use crate::generators::rust::util::{
    handler_name, is_path_sep, rust_type, spec_rs_handler_name, spec_rust_type,
    spec_status_code_expr, spec_to_snake_case, status_code_expr, to_snake_case, trim_end_char,
    trim_start_char, trimmed_range,
};
use crate::generators::rust::validation::{
    render_validation_block, render_validation_helpers, spec_rs_validation_block,
    spec_rs_validation_helpers,
};
use crate::ir::{
    effective_auth, spec_effective_auth, CallArg, CallSpec, Field, HttpMethod, InputRef,
    InputSource, ResponseSpec, Route, Service, SocketDef, Type,
};
use crate::text::{
    ascii_upper, ascii_upper_seq, chars_of, char_is_ascii_alnum, char_to_ascii_upper, concat_all,
    dec_nat, is_ascii_alnum, is_ws, join, lemma_concat_all_step, lemma_take_full, lemma_views_push,
    seq_join, to_ascii_uppercase, trim_end_seq, u64_to_string, views,
};

verus! {

// ---------------------------------------------------------------------------
// Input structs
// ---------------------------------------------------------------------------

pub open spec fn spec_method_title(m: HttpMethod) -> Seq<char> {
    match m {
        HttpMethod::Get => "Get"@,
        HttpMethod::Post => "Post"@,
        HttpMethod::Put => "Put"@,
        HttpMethod::Patch => "Patch"@,
        HttpMethod::Delete => "Delete"@,
        HttpMethod::Options => "Options"@,
        HttpMethod::Head => "Head"@,
    }
}

fn method_title(m: &HttpMethod) -> (r: &'static str)
    ensures
        r@ == spec_method_title(*m),
{
    match m {
        HttpMethod::Get => "Get",
        HttpMethod::Post => "Post",
        HttpMethod::Put => "Put",
        HttpMethod::Patch => "Patch",
        HttpMethod::Delete => "Delete",
        HttpMethod::Options => "Options",
        HttpMethod::Head => "Head",
    }
}

pub open spec fn ends_with_underscore(s: Seq<char>) -> bool {
    s.len() > 0 && s.last() == '_'
}

/// The struct base built from `start` and the path so far: ASCII letters
/// and digits in capitals (dropping a `_` just before one), one `_` per
/// run of separators, other characters dropped.
pub open spec fn struct_base_state(s: Seq<char>, start: Seq<char>) -> Seq<char>
    decreases s.len(),
{
    if s.len() == 0 {
        start
    } else {
        let p = struct_base_state(s.drop_last(), start);
        let c = s.last();
        if is_ascii_alnum(c) {
            (if ends_with_underscore(p) {
                p.drop_last()
            } else {
                p
            }).push(ascii_upper(c))
        } else if is_path_sep(c) && !ends_with_underscore(p) {
            p.push('_')
        } else {
            p
        }
    }
}

/// The prefix of the input struct names of a route: its method in title
/// case and its path in capitals, words joined by `_`.
pub open spec fn spec_handler_struct_base(route: Route) -> Seq<char> {
    trim_end_char(
        trim_start_char(struct_base_state(route.path@, spec_method_title(route.method)), '_'),
        '_',
    )
}

pub fn handler_struct_base(route: &Route) -> (r: String)
    ensures
        r@ == spec_handler_struct_base(*route),
{
    let m = method_title(&route.method);
    let mut buf = chars_of(m);
    let cs = chars_of(route.path.as_str());
    let mut i: usize = 0;
    while i < cs.len()
        invariant
            0 <= i <= cs@.len(),
            cs@ == route.path@,
            buf@ == struct_base_state(cs@.take(i as int), m@),
        decreases cs@.len() - i,
    {
        proof {
            assert(cs@.take(i + 1).drop_last() =~= cs@.take(i as int));
        }
        let ch = cs[i];
        let ends = buf.len() > 0 && buf[buf.len() - 1] == '_';
        if char_is_ascii_alnum(ch) {
            if ends {
                buf.pop();
            }
            buf.push(char_to_ascii_upper(ch));
        } else if (ch == '/' || ch == '-' || ch == '_' || ch == '{' || ch == '}') && !ends {
            buf.push('_');
        }
        i += 1;
    }
    proof {
        lemma_take_full(cs@);
    }
    trimmed_range(&buf, '_')
}

pub open spec fn spec_input_struct_name(route: Route, suffix: Seq<char>) -> Seq<char> {
    spec_handler_struct_base(route) + suffix
}

fn input_struct_name(route: &Route, suffix: &str) -> (r: String)
    ensures
        r@ == spec_input_struct_name(*route, suffix@),
{
    let mut s = handler_struct_base(route);
    s.append(suffix);
    s
}

/// A field of a generated struct: optional fields (and every field of
/// an all-optional struct) wrapped in `Option`.
pub open spec fn spec_struct_field(f: Field, optional: bool) -> Seq<char> {
    if optional || f.optional {
        "    "@ + f.name@ + ": Option<"@ + spec_rust_type(f.ty) + ">,\n"@
    } else {
        "    "@ + f.name@ + ": "@ + spec_rust_type(f.ty) + ",\n"@
    }
}

pub open spec fn struct_field_fn(optional: bool) -> spec_fn(Field) -> Seq<char> {
    |f: Field| spec_struct_field(f, optional)
}

/// A `Deserialize` struct with the given fields.
pub open spec fn spec_render_struct(name: Seq<char>, fields: Seq<Field>, optional: bool) -> Seq<char> {
    "#[derive(Deserialize)]\nstruct "@ + name + " {\n"@ + concat_all(fields, struct_field_fn(optional))
        + "}\n\n"@
}

pub fn render_struct(name: &str, fields: &Vec<Field>, optional: bool) -> (r: String)
    ensures
        r@ == spec_render_struct(name@, fields@, optional),
{
    let mut out = String::from_str("#[derive(Deserialize)]\nstruct ");
    out.append(name);
    out.append(" {\n");
    let ghost head = out@;
    let ghost f = struct_field_fn(optional);
    let mut i: usize = 0;
    while i < fields.len()
        invariant
            0 <= i <= fields@.len(),
            f == struct_field_fn(optional),
            out@ == head + concat_all(fields@.take(i as int), f),
        decreases fields@.len() - i,
    {
        proof {
            lemma_concat_all_step(fields@, i as int, f);
        }
        let field = &fields[i];
        let ty = rust_type(&field.ty);
        out.append("    ");
        out.append(field.name.as_str());
        if optional || field.optional {
            out.append(": Option<");
            out.append(ty.as_str());
            out.append(">,\n");
        } else {
            out.append(": ");
            out.append(ty.as_str());
            out.append(",\n");
        }
        i += 1;
    }
    proof {
        lemma_take_full(fields@);
    }
    out.append("}\n\n");
    out
}

/// The structs a route's handler extracts: path, query (all fields
/// optional), body and headers, each only when that input has fields.
pub open spec fn spec_render_input_structs(route: Route) -> Seq<char> {
    (if route.input.path@.len() > 0 {
        spec_render_struct(spec_input_struct_name(route, "Path"@), route.input.path@, false)
    } else {
        Seq::empty()
    }) + (if route.input.query@.len() > 0 {
        spec_render_struct(spec_input_struct_name(route, "Query"@), route.input.query@, true)
    } else {
        Seq::empty()
    }) + (if route.input.body@.len() > 0 {
        spec_render_struct(spec_input_struct_name(route, "Body"@), route.input.body@, false)
    } else {
        Seq::empty()
    }) + (if route.headers@.len() > 0 {
        spec_render_struct(spec_input_struct_name(route, "Headers"@), route.headers@, false)
    } else {
        Seq::empty()
    })
}

pub fn render_input_structs(route: &Route) -> (r: String)
    ensures
        r@ == spec_render_input_structs(*route),
{
    let mut out = String::new();
    let ghost e = out@;
    if route.input.path.len() > 0 {
        let n = input_struct_name(route, "Path");
        let s = render_struct(n.as_str(), &route.input.path, false);
        out.append(s.as_str());
    }
    let ghost a = out@;
    if route.input.query.len() > 0 {
        let n = input_struct_name(route, "Query");
        let s = render_struct(n.as_str(), &route.input.query, true);
        out.append(s.as_str());
    }
    let ghost b = out@;
    if route.input.body.len() > 0 {
        let n = input_struct_name(route, "Body");
        let s = render_struct(n.as_str(), &route.input.body, false);
        out.append(s.as_str());
    }
    let ghost c = out@;
    if route.headers.len() > 0 {
        let n = input_struct_name(route, "Headers");
        let s = render_struct(n.as_str(), &route.headers, false);
        out.append(s.as_str());
    }
    assert(out@ =~= spec_render_input_structs(*route));
    out
}

// ---------------------------------------------------------------------------
// Calls and answers
// ---------------------------------------------------------------------------

pub open spec fn spec_source_name(s: InputSource) -> Seq<char> {
    match s {
        InputSource::Path => "path"@,
        InputSource::Query => "query"@,
        InputSource::Body => "body"@,
        InputSource::Headers => "headers"@,
        InputSource::Input => "input"@,
    }
}

/// An input reference as a Rust expression: its source variable, then
/// `.segment` for each segment of its path.
pub open spec fn spec_rs_input_ref(input: InputRef) -> Seq<char> {
    spec_source_name(input.source) + concat_all(views(input.path@), |seg: Seq<char>| "."@ + seg)
}

pub fn render_input_ref(input: &InputRef) -> (r: String)
    ensures
        r@ == spec_rs_input_ref(*input),
{
    let mut out = match input.source {
        InputSource::Path => String::from_str("path"),
        InputSource::Query => String::from_str("query"),
        InputSource::Body => String::from_str("body"),
        InputSource::Headers => String::from_str("headers"),
        InputSource::Input => String::from_str("input"),
    };
    let ghost head = out@;
    let ghost segs = views(input.path@);
    let ghost f = |seg: Seq<char>| "."@ + seg;
    let mut i: usize = 0;
    while i < input.path.len()
        invariant
            0 <= i <= input.path@.len(),
            segs == views(input.path@),
            f == (|seg: Seq<char>| "."@ + seg),
            out@ == head + concat_all(segs.take(i as int), f),
        decreases input.path@.len() - i,
    {
        proof {
            lemma_concat_all_step(segs, i as int, f);
        }
        out.append(".");
        out.append(input.path[i].as_str());
        i += 1;
    }
    proof {
        lemma_take_full(segs);
    }
    out
}

pub open spec fn arg_views(args: Seq<CallArg>) -> Seq<Seq<char>> {
    args.map_values(|a: CallArg| spec_rs_input_ref(a.value))
}

/// The arguments of a call, joined by `, `.
pub open spec fn spec_rs_call_args(args: Seq<CallArg>) -> Seq<char> {
    seq_join(arg_views(args), ", "@)
}

pub fn render_call_args(args: &Vec<CallArg>) -> (r: String)
    ensures
        r@ == spec_rs_call_args(args@),
{
    let mut parts: Vec<String> = Vec::new();
    let mut i: usize = 0;
    while i < args.len()
        invariant
            0 <= i <= args@.len(),
            views(parts@) == arg_views(args@.take(i as int)),
        decreases args@.len() - i,
    {
        let s = render_input_ref(&args[i].value);
        proof {
            lemma_views_push(parts@, s);
        }
        parts.push(s);
        i += 1;
        assert(views(parts@) =~= arg_views(args@.take(i as int)));
    }
    proof {
        lemma_take_full(args@);
    }
    join(&parts, ", ")
}

/// The call a handler makes: the remote-call function of another service
/// (with the request headers, or none), an async module function awaited,
/// or a blocking module function run on the blocking pool.
pub open spec fn spec_rs_call_expr(route: Route, needs_raw_headers: bool) -> Seq<char> {
    if route.call.service_base is Some {
        spec_remote_call_fn_name(route) + "("@ + spec_rs_call_args(route.call.args@) + ", "@ + (
        if needs_raw_headers {
            "&raw_headers"@
        } else {
            "&HeaderMap::new()"@
        }) + ")"@
    } else if route.call.is_async {
        route.call.module@ + "::"@ + spec_to_snake_case(route.call.function@) + "("@
            + spec_rs_call_args(route.call.args@) + ").await"@
    } else {
        "call_blocking(move || "@ + route.call.module@ + "::"@ + spec_to_snake_case(
            route.call.function@,
        ) + "("@ + spec_rs_call_args(route.call.args@) + ")).await"@
    }
}

pub fn render_call_expr(route: &Route, needs_raw_headers: bool) -> (r: String)
    ensures
        r@ == spec_rs_call_expr(*route, needs_raw_headers),
{
    let args = render_call_args(&route.call.args);
    if route.call.service_base.is_some() {
        let mut s = remote_call_fn_name(route);
        s.append("(");
        s.append(args.as_str());
        s.append(", ");
        if needs_raw_headers {
            s.append("&raw_headers");
        } else {
            s.append("&HeaderMap::new()");
        }
        s.append(")");
        return s;
    }
    let func = to_snake_case(route.call.function.as_str());
    if route.call.is_async {
        let mut s = String::from_str(route.call.module.as_str());
        s.append("::");
        s.append(func.as_str());
        s.append("(");
        s.append(args.as_str());
        s.append(").await");
        s
    } else {
        let mut s = String::from_str("call_blocking(move || ");
        s.append(route.call.module.as_str());
        s.append("::");
        s.append(func.as_str());
        s.append("(");
        s.append(args.as_str());
        s.append(")).await");
        s
    }
}

/// What a handler answers with the call's value: the status alone for no
/// content, text as is, anything else as JSON, with the status in front
/// unless it is 200.
pub open spec fn spec_call_return_expr(resp: ResponseSpec, status_expr: Seq<char>, call_expr: Seq<char>) -> Seq<char> {
    match resp.ty {
        Type::Void => "    "@ + call_expr + ";\n    "@ + status_expr,
        Type::String => if resp.status == 200 {
            "    "@ + call_expr
        } else {
            "    ("@ + status_expr + ", "@ + call_expr + ")"@
        },
        _ => if resp.status == 200 {
            "    Json("@ + call_expr + ")"@
        } else {
            "    ("@ + status_expr + ", Json("@ + call_expr + "))"@
        },
    }
}

pub fn build_call_return_expr(resp: &ResponseSpec, status_expr: &str, call_expr: &str) -> (r: String)
    ensures
        r@ == spec_call_return_expr(*resp, status_expr@, call_expr@),
{
    match resp.ty {
        Type::Void => {
            let mut s = String::from_str("    ");
            s.append(call_expr);
            s.append(";\n    ");
            s.append(status_expr);
            s
        },
        Type::String => {
            if resp.status == 200 {
                let mut s = String::from_str("    ");
                s.append(call_expr);
                s
            } else {
                let mut s = String::from_str("    (");
                s.append(status_expr);
                s.append(", ");
                s.append(call_expr);
                s.append(")");
                s
            }
        },
        _ => {
            if resp.status == 200 {
                let mut s = String::from_str("    Json(");
                s.append(call_expr);
                s.append(")");
                s
            } else {
                let mut s = String::from_str("    (");
                s.append(status_expr);
                s.append(", Json(");
                s.append(call_expr);
                s.append("))");
                s
            }
        },
    }
}

/// The answer of a health check: the status, with `"ok"` for a text
/// response.
pub open spec fn spec_healthcheck_return_expr(resp: ResponseSpec, status_expr: Seq<char>) -> Seq<char> {
    match resp.ty {
        Type::String => "    ("@ + status_expr + ", \"ok\")"@,
        _ => "    "@ + status_expr,
    }
}

pub fn healthcheck_return_expr(resp: &ResponseSpec, status_expr: &str) -> (r: String)
    ensures
        r@ == spec_healthcheck_return_expr(*resp, status_expr@),
{
    match resp.ty {
        Type::String => {
            let mut s = String::from_str("    (");
            s.append(status_expr);
            s.append(", \"ok\")");
            s
        },
        _ => {
            let mut s = String::from_str("    ");
            s.append(status_expr);
            s
        },
    }
}

/// The call of a socket message handler with the context and the frame's
/// data, awaited when the function is async.
pub open spec fn spec_render_socket_call(call: CallSpec) -> Seq<char> {
    call.module@ + "::"@ + call.function@ + "(ctx.clone(), frame.data)"@ + if call.is_async {
        ".await"@
    } else {
        Seq::empty()
    }
}

pub fn render_socket_call(call: &CallSpec) -> (r: String)
    ensures
        r@ == spec_render_socket_call(*call),
{
    let mut s = String::from_str(call.module.as_str());
    s.append("::");
    s.append(call.function.as_str());
    s.append("(ctx.clone(), frame.data)");
    if call.is_async {
        s.append(".await");
    }
    s
}

// ---------------------------------------------------------------------------
// Middleware of a route
// ---------------------------------------------------------------------------

/// The layers of a route, innermost first: its rate limiter when a limit
/// above zero applies, its own middleware, then its authentication.
pub open spec fn spec_route_layer_names(route: Route, service: Service) -> Seq<Seq<char>> {
    (match spec_effective_rate_limit(route, service) {
        Some(l) => if l.max > 0 {
            seq!["rate_limit_"@ + spec_rs_handler_name(route)]
        } else {
            Seq::empty()
        },
        None => Seq::empty(),
    }) + views(route.middleware@) + match spec_effective_auth(route.auth, service.common.auth) {
        Some(a) => seq![spec_auth_middleware_name(a)],
        None => Seq::empty(),
    }
}

pub open spec fn spec_route_middleware_chain(route: Route, service: Service) -> Seq<char> {
    concat_all(spec_route_layer_names(route, service), |n: Seq<char>| ".layer(from_fn("@ + n + "))"@)
}

pub fn route_middleware_chain(route: &Route, service: &Service) -> (r: String)
    ensures
        r@ == spec_route_middleware_chain(*route, *service),
{
    let mut names: Vec<String> = Vec::new();
    match effective_rate_limit(route, service) {
        Some(l) => {
            if l.max > 0 {
                let mut n = String::from_str("rate_limit_");
                let h = handler_name(route);
                n.append(h.as_str());
                proof {
                    lemma_views_push(names@, n);
                }
                names.push(n);
            }
        },
        None => {},
    }
    let mut i: usize = 0;
    let ghost first = views(names@);
    while i < route.middleware.len()
        invariant
            0 <= i <= route.middleware@.len(),
            views(names@) == first + views(route.middleware@.take(i as int)),
        decreases route.middleware@.len() - i,
    {
        let n = route.middleware[i].clone();
        proof {
            lemma_views_push(names@, n);
            lemma_views_push(route.middleware@.take(i as int), route.middleware@[i as int]);
            assert(route.middleware@.take(i + 1) =~= route.middleware@.take(i as int).push(
                route.middleware@[i as int],
            ));
        }
        names.push(n);
        i += 1;
    }
    proof {
        lemma_take_full(route.middleware@);
    }
    match effective_auth(route.auth, service.common.auth) {
        Some(a) => {
            let n = auth_middleware_name(&a);
            proof {
                lemma_views_push(names@, n);
            }
            names.push(n);
        },
        None => {},
    }
    let ghost nv = views(names@);
    assert(nv =~= spec_route_layer_names(*route, *service));
    let ghost f = |n: Seq<char>| ".layer(from_fn("@ + n + "))"@;
    let mut out = String::new();
    let mut k: usize = 0;
    while k < names.len()
        invariant
            0 <= k <= names@.len(),
            nv == views(names@),
            f == (|n: Seq<char>| ".layer(from_fn("@ + n + "))"@),
            out@ == concat_all(nv.take(k as int), f),
        decreases names@.len() - k,
    {
        proof {
            lemma_concat_all_step(nv, k as int, f);
        }
        out.append(".layer(from_fn(");
        out.append(names[k].as_str());
        out.append("))");
        k += 1;
    }
    proof {
        lemma_take_full(nv);
    }
    out
}


// ---------------------------------------------------------------------------
// Header extraction
// ---------------------------------------------------------------------------

/// The expression reading one header from the raw header map: parsed for
/// numbers and booleans, as text otherwise.
pub open spec fn spec_header_expr(f: Field, raw: Seq<char>) -> Seq<char> {
    let key = spec_header_runtime_key(f.name@);
    match f.ty {
        Type::Int => "header_parse::<i64>(&"@ + raw + ", \""@ + key + "\")"@,
        Type::Float => "header_parse::<f64>(&"@ + raw + ", \""@ + key + "\")"@,
        Type::Bool => "header_parse::<bool>(&"@ + raw + ", \""@ + key + "\")"@,
        _ => "header_str(&"@ + raw + ", \""@ + key + "\")"@,
    }
}

fn header_expr(f: &Field, raw: &str) -> (r: String)
    ensures
        r@ == spec_header_expr(*f, raw@),
{
    let key = header_runtime_key(f.name.as_str());
    let mut s = match f.ty {
        Type::Int => String::from_str("header_parse::<i64>(&"),
        Type::Float => String::from_str("header_parse::<f64>(&"),
        Type::Bool => String::from_str("header_parse::<bool>(&"),
        _ => String::from_str("header_str(&"),
    };
    s.append(raw);
    s.append(", \"");
    s.append(key.as_str());
    s.append("\")");
    s
}

/// The status a missing required header is answered with.
pub open spec fn spec_header_status(f: Field) -> Seq<char> {
    if spec_missing_header_status(f.name@) == 401 {
        "StatusCode::UNAUTHORIZED"@
    } else {
        "StatusCode::BAD_REQUEST"@
    }
}

/// The statements before the headers struct for one field: a required
/// header is read into `header_<name>` and its absence answered at once.
pub open spec fn spec_header_pre(f: Field, raw: Seq<char>) -> Seq<Seq<char>> {
    if f.optional {
        Seq::empty()
    } else {
        seq![
            "    let header_"@ + f.name@ + " = "@ + spec_header_expr(f, raw) + ";"@,
            "    if header_"@ + f.name@ + ".is_none() { return "@ + spec_header_status(f)
                + ".into_response(); }"@,
        ]
    }
}

/// The struct field of one header.
pub open spec fn spec_header_line(f: Field, raw: Seq<char>) -> Seq<char> {
    if f.optional {
        "        "@ + f.name@ + ": "@ + spec_header_expr(f, raw) + ","@
    } else {
        "        "@ + f.name@ + ": header_"@ + f.name@ + ".unwrap(),"@
    }
}

pub open spec fn header_pre_lines(fs: Seq<Field>, raw: Seq<char>) -> Seq<Seq<char>>
    decreases fs.len(),
{
    if fs.len() == 0 {
        Seq::empty()
    } else {
        header_pre_lines(fs.drop_last(), raw) + spec_header_pre(fs.last(), raw)
    }
}

pub open spec fn header_lines(fs: Seq<Field>, raw: Seq<char>) -> Seq<Seq<char>> {
    fs.map_values(|f: Field| spec_header_line(f, raw))
}

/// The headers struct of a handler, built from the raw header map.
pub open spec fn spec_render_headers_init(route: Route, raw: Seq<char>) -> Seq<char> {
    let pre = header_pre_lines(route.headers@, raw);
    (if pre.len() > 0 {
        seq_join(pre, "\n"@) + "\n"@
    } else {
        Seq::empty()
    }) + "    let headers = "@ + spec_input_struct_name(route, "Headers"@) + " {\n"@ + seq_join(
        header_lines(route.headers@, raw),
        "\n"@,
    ) + "\n    };\n"@
}

pub fn render_headers_init(route: &Route, raw_headers: &str) -> (r: String)
    ensures
        r@ == spec_render_headers_init(*route, raw_headers@),
{
    let fields = &route.headers;
    let mut pre: Vec<String> = Vec::new();
    let mut lines: Vec<String> = Vec::new();
    let mut i: usize = 0;
    while i < fields.len()
        invariant
            0 <= i <= fields@.len(),
            fields@ == route.headers@,
            views(pre@) == header_pre_lines(fields@.take(i as int), raw_headers@),
            views(lines@) == header_lines(fields@.take(i as int), raw_headers@),
        decreases fields@.len() - i,
    {
        proof {
            assert(fields@.take(i + 1).drop_last() =~= fields@.take(i as int));
        }
        let field = &fields[i];
        let expr = header_expr(field, raw_headers);
        if field.optional {
            let mut l = String::from_str("        ");
            l.append(field.name.as_str());
            l.append(": ");
            l.append(expr.as_str());
            l.append(",");
            proof {
                lemma_views_push(lines@, l);
            }
            lines.push(l);
            assert(views(pre@) =~= header_pre_lines(fields@.take(i + 1), raw_headers@));
        } else {
            let mut a = String::from_str("    let header_");
            a.append(field.name.as_str());
            a.append(" = ");
            a.append(expr.as_str());
            a.append(";");
            let status = if missing_header_status(field.name.as_str()) == 401 {
                "StatusCode::UNAUTHORIZED"
            } else {
                "StatusCode::BAD_REQUEST"
            };
            let mut b = String::from_str("    if header_");
            b.append(field.name.as_str());
            b.append(".is_none() { return ");
            b.append(status);
            b.append(".into_response(); }");
            let ghost p0 = views(pre@);
            proof {
                lemma_views_push(pre@, a);
            }
            pre.push(a);
            proof {
                lemma_views_push(pre@, b);
            }
            pre.push(b);
            assert(views(pre@) =~= header_pre_lines(fields@.take(i + 1), raw_headers@));
            let mut l = String::from_str("        ");
            l.append(field.name.as_str());
            l.append(": header_");
            l.append(field.name.as_str());
            l.append(".unwrap(),");
            proof {
                lemma_views_push(lines@, l);
            }
            lines.push(l);
        }
        i += 1;
        assert(views(lines@) =~= header_lines(fields@.take(i as int), raw_headers@));
    }
    proof {
        lemma_take_full(fields@);
    }
    let mut out = String::new();
    if pre.len() > 0 {
        let p = join(&pre, "\n");
        out.append(p.as_str());
        out.append("\n");
    }
    out.append("    let headers = ");
    let n = input_struct_name(route, "Headers");
    out.append(n.as_str());
    out.append(" {\n");
    let l = join(&lines, "\n");
    out.append(l.as_str());
    out.append("\n    };\n");
    out
}

// ---------------------------------------------------------------------------
// Handlers
// ---------------------------------------------------------------------------

/// Whether a handler takes the raw header map: it reads headers, or it
/// forwards them to another service.
pub open spec fn needs_raw_headers(route: Route) -> bool {
    route.headers@.len() > 0 || route.call.service_base is Some
}

/// The extractor parameters of a handler.
pub open spec fn spec_handler_args(route: Route) -> Seq<Seq<char>> {
    (if needs_raw_headers(route) {
        seq!["raw_headers: HeaderMap"@]
    } else {
        Seq::empty()
    }) + (if route.input.path@.len() > 0 {
        seq!["Path(path): Path<"@ + spec_input_struct_name(route, "Path"@) + ">"@]
    } else {
        Seq::empty()
    }) + (if route.input.query@.len() > 0 {
        seq!["Query(query): Query<"@ + spec_input_struct_name(route, "Query"@) + ">"@]
    } else {
        Seq::empty()
    }) + (if route.input.body@.len() > 0 {
        seq!["Json(body): Json<"@ + spec_input_struct_name(route, "Body"@) + ">"@]
    } else {
        Seq::empty()
    })
}

pub open spec fn spec_args_sig(route: Route) -> Seq<char> {
    let args = spec_handler_args(route);
    if args.len() == 0 {
        "()"@
    } else {
        "("@ + seq_join(args, ", "@) + ")"@
    }
}

/// What a handler computes and answers: a health check answers at once;
/// a call to another service answers its error status when it fails;
/// a module call's value is answered as its response type says.
pub open spec fn spec_return_expr(route: Route) -> Seq<char> {
    let resp = spec_primary_response(route.responses@);
    let st = spec_status_code_expr(resp.status);
    if route.healthcheck {
        spec_healthcheck_return_expr(resp, st)
    } else if route.call.service_base is Some {
        let call = spec_rs_call_expr(route, needs_raw_headers(route));
        if resp.ty is Void {
            "    if let Err(s) = "@ + call + ".await {\n        return s.into_response();\n    }\n    "@
                + st + ".into_response()\n"@
        } else {
            "    let result = match "@ + call
                + ".await {\n        Ok(v) => v,\n        Err(s) => return s.into_response(),\n    };\n"@
                + trim_end_seq(spec_call_return_expr(resp, st, "result"@)) + ".into_response()"@
                + "\n"@
        }
    } else {
        spec_call_return_expr(resp, st, spec_rs_call_expr(route, needs_raw_headers(route)))
    }
}

/// The axum handler of a route.
#[verifier::opaque]
pub open spec fn spec_rs_route_handler(route: Route) -> Seq<char> {
    "async fn "@ + spec_rs_handler_name(route) + spec_args_sig(route) + " -> impl IntoResponse {\n"@
        + (if route.headers@.len() == 0 {
        Seq::empty()
    } else {
        spec_render_headers_init(route, "raw_headers"@)
    }) + spec_rs_validation_block(route) + "    let response = {\n"@ + spec_return_expr(route)
        + "\n    };\n    response.into_response()\n}\n"@
}

proof fn lemma_trim_end_noop(s: Seq<char>)
    requires
        s.len() > 0,
        !is_ws(s.last()),
    ensures
        trim_end_seq(s) == s,
{
}

fn handler_args(route: &Route) -> (r: Vec<String>)
    ensures
        views(r@) == spec_handler_args(*route),
{
    let mut args: Vec<String> = Vec::new();
    if route.headers.len() > 0 || route.call.service_base.is_some() {
        let a = String::from_str("raw_headers: HeaderMap");
        proof {
            lemma_views_push(args@, a);
        }
        args.push(a);
    }
    if route.input.path.len() > 0 {
        let mut a = String::from_str("Path(path): Path<");
        let n = input_struct_name(route, "Path");
        a.append(n.as_str());
        a.append(">");
        proof {
            lemma_views_push(args@, a);
        }
        args.push(a);
    }
    if route.input.query.len() > 0 {
        let mut a = String::from_str("Query(query): Query<");
        let n = input_struct_name(route, "Query");
        a.append(n.as_str());
        a.append(">");
        proof {
            lemma_views_push(args@, a);
        }
        args.push(a);
    }
    if route.input.body.len() > 0 {
        let mut a = String::from_str("Json(body): Json<");
        let n = input_struct_name(route, "Body");
        a.append(n.as_str());
        a.append(">");
        proof {
            lemma_views_push(args@, a);
        }
        args.push(a);
    }
    assert(views(args@) =~= spec_handler_args(*route));
    args
}

fn return_expr(route: &Route) -> (r: String)
    requires
        route.responses@.len() > 0,
    ensures
        r@ == spec_return_expr(*route),
{
    let resp = primary_response(route);
    let st = status_code_expr(resp.status);
    let raw = route.headers.len() > 0 || route.call.service_base.is_some();
    if route.healthcheck {
        healthcheck_return_expr(resp, st.as_str())
    } else if route.call.service_base.is_some() {
        let call = render_call_expr(route, raw);
        match resp.ty {
            Type::Void => {
                let mut s = String::from_str("    if let Err(s) = ");
                s.append(call.as_str());
                s.append(".await {\n        return s.into_response();\n    }\n    ");
                s.append(st.as_str());
                s.append(".into_response()\n");
                s
            },
            _ => {
                let body = build_call_return_expr(resp, st.as_str(), "result");
                proof {
                    reveal_strlit(")");
                    reveal_strlit("))");
                    reveal_strlit("result");
                    lemma_trim_end_noop(body@);
                }
                let mut s = String::from_str("    let result = match ");
                s.append(call.as_str());
                s.append(".await {\n        Ok(v) => v,\n        Err(s) => return s.into_response(),\n    };\n");
                s.append(body.as_str());
                s.append(".into_response()");
                s.append("\n");
                s
            },
        }
    } else {
        let call = render_call_expr(route, raw);
        build_call_return_expr(resp, st.as_str(), call.as_str())
    }
}

pub fn render_route_handler(route: &Route) -> (r: String)
    requires
        route.responses@.len() > 0,
    ensures
        r@ == spec_rs_route_handler(*route),
{
    let name = handler_name(route);
    let args = handler_args(route);
    let sig = if args.len() == 0 {
        String::from_str("()")
    } else {
        let mut s = String::from_str("(");
        let j = join(&args, ", ");
        s.append(j.as_str());
        s.append(")");
        s
    };
    let header_struct = if route.headers.len() == 0 {
        String::new()
    } else {
        render_headers_init(route, "raw_headers")
    };
    let validation_block = render_validation_block(route);
    let ret = return_expr(route);
    proof {
        reveal(spec_rs_route_handler);
    }
    let mut out = String::from_str("async fn ");
    out.append(name.as_str());
    out.append(sig.as_str());
    out.append(" -> impl IntoResponse {\n");
    out.append(header_struct.as_str());
    out.append(validation_block.as_str());
    out.append("    let response = {\n");
    out.append(ret.as_str());
    out.append("\n    };\n    response.into_response()\n}\n");
    out
}

// ---------------------------------------------------------------------------
// Helpers shared by the handlers
// ---------------------------------------------------------------------------

/// The limiter of a route whose limit (its own, else the service's) is
/// set: a counter per time window, refusing requests over the maximum.
#[verifier::opaque]
pub open spec fn spec_rate_limit_helper(route: Route, service: Service) -> Seq<char> {
    match spec_effective_rate_limit(route, service) {
        Some(l) => {
            let nm = "rate_limit_"@ + spec_rs_handler_name(route);
            let st = "RATE_LIMIT_"@ + ascii_upper_seq(spec_rs_handler_name(route));
            "\nstatic "@ + st + ": OnceLock<Mutex<(u32, Instant)>> = OnceLock::new();\n\nasync fn "@ + nm + "<B>(req: Request<B>, next: Next<B>) -> Result<Response, StatusCode> {\n    let state = "@ + st + ".get_or_init(|| Mutex::new((0, Instant::now())));\n    let mut guard = state.lock().unwrap();\n    let elapsed = guard.1.elapsed();\n    if elapsed >= Duration::from_secs("@ + dec_nat(l.per_seconds as nat) + ") {\n        *guard = (0, Instant::now());\n    }\n    if guard.0 >= "@ + dec_nat(l.max as nat) + " {\n        return Err(StatusCode::TOO_MANY_REQUESTS);\n    }\n    guard.0 += 1;\n    drop(guard);\n    Ok(next.run(req).await)\n}\n"@
        },
        None => Seq::empty(),
    }
}

fn rate_limit_helper(route: &Route, service: &Service) -> (r: String)
    ensures
        r@ == spec_rate_limit_helper(*route, *service),
{
    proof {
        reveal(spec_rate_limit_helper);
    }
    match effective_rate_limit(route, service) {
        Some(l) => {
            let h = handler_name(route);
            let mut name = String::from_str("rate_limit_");
            name.append(h.as_str());
            let mut static_name = String::from_str("RATE_LIMIT_");
            let u = to_ascii_uppercase(h.as_str());
            static_name.append(u.as_str());
            let window = u64_to_string(l.per_seconds);
            let max = u64_to_string(l.max as u64);
            let mut s = String::from_str("\nstatic ");
            s.append(static_name.as_str());
            s.append(": OnceLock<Mutex<(u32, Instant)>> = OnceLock::new();\n\nasync fn ");
            s.append(name.as_str());
            s.append("<B>(req: Request<B>, next: Next<B>) -> Result<Response, StatusCode> {\n    let state = ");
            s.append(static_name.as_str());
            s.append(".get_or_init(|| Mutex::new((0, Instant::now())));\n    let mut guard = state.lock().unwrap();\n    let elapsed = guard.1.elapsed();\n    if elapsed >= Duration::from_secs(");
            s.append(window.as_str());
            s.append(") {\n        *guard = (0, Instant::now());\n    }\n    if guard.0 >= ");
            s.append(max.as_str());
            s.append(" {\n        return Err(StatusCode::TOO_MANY_REQUESTS);\n    }\n    guard.0 += 1;\n    drop(guard);\n    Ok(next.run(req).await)\n}\n");
            s
        },
        None => String::new(),
    }
}

pub open spec fn header_str_helper() -> Seq<char> {
    "\nfn header_str(headers: &HeaderMap, name: &str) -> Option<String> {\n    headers\n        .get(name)\n        .and_then(|v| v.to_str().ok())\n        .map(|s| s.to_string())\n}\n"@
}

pub open spec fn header_parse_helper() -> Seq<char> {
    "\nfn header_parse<T: std::str::FromStr>(headers: &HeaderMap, name: &str) -> Option<T> {\n    headers.get(name).and_then(|v| v.to_str().ok())?.parse().ok()\n}\n"@
}

pub open spec fn call_blocking_helper() -> Seq<char> {
    "\nasync fn call_blocking<T, F>(f: F) -> T\nwhere\n    T: Send + 'static,\n    F: FnOnce() -> T + Send + 'static,\n{\n    tokio::task::spawn_blocking(f)\n        .await\n        .expect(\"blocking task failed\")\n}\n"@
}

pub open spec fn route_has_headers(r: Route) -> bool {
    r.headers@.len() > 0
}

pub open spec fn socket_has_headers(s: SocketDef) -> bool {
    s.headers@.len() > 0
}

/// Whether some route or socket reads a header.
pub open spec fn spec_needs_header_str(service: Service) -> bool {
    (exists|i: int|
        0 <= i < service.http.routes@.len() && route_has_headers(#[trigger] service.http.routes@[i]))
        || (exists|i: int|
        0 <= i < service.sockets.sockets@.len() && socket_has_headers(
            #[trigger] service.sockets.sockets@[i],
        ))
}

pub open spec fn numeric_header(f: Field) -> bool {
    f.ty is Int || f.ty is Float
}

pub open spec fn has_numeric_header(fs: Seq<Field>) -> bool {
    exists|k: int| 0 <= k < fs.len() && numeric_header(#[trigger] fs[k])
}

/// Whether some header of a route or a socket is a number.
pub open spec fn spec_needs_header_parse(service: Service) -> bool {
    (exists|i: int|
        0 <= i < service.http.routes@.len() && has_numeric_header(
            (#[trigger] service.http.routes@[i]).headers@,
        )) || (exists|i: int|
        0 <= i < service.sockets.sockets@.len() && has_numeric_header(
            (#[trigger] service.sockets.sockets@[i]).headers@,
        ))
}

pub open spec fn blocking_call(r: Route) -> bool {
    r.call.service_base is None && !r.call.is_async
}

/// Whether some route calls a blocking module function.
pub open spec fn spec_needs_call_blocking(service: Service) -> bool {
    exists|i: int| 0 <= i < service.http.routes@.len() && blocking_call(#[trigger] service.http.routes@[i])
}

pub open spec fn input_structs_fn() -> spec_fn(Route) -> Seq<char> {
    |r: Route| spec_render_input_structs(r)
}

pub open spec fn handler_block_fn() -> spec_fn(Route) -> Seq<char> {
    |r: Route| spec_rs_route_handler(r) + "\n"@
}

pub open spec fn rate_limit_fn(service: Service) -> spec_fn(Route) -> Seq<char> {
    |r: Route| spec_rate_limit_helper(r, service)
}

/// The route part of `main.rs`: the input structs of every route, every
/// handler, the validation helpers, the header readers, the blocking-call
/// helper and the rate limiters, each only when something uses it.
#[verifier::opaque]
pub open spec fn spec_render_route_helpers(service: Service) -> Seq<char> {
    let routes = service.http.routes@;
    let vh = spec_rs_validation_helpers(service);
    concat_all(routes, input_structs_fn()) + concat_all(routes, handler_block_fn()) + (if vh.len()
        > 0 {
        vh + "\n"@
    } else {
        Seq::empty()
    }) + (if spec_needs_header_str(service) {
        header_str_helper() + if spec_needs_header_parse(service) {
            header_parse_helper()
        } else {
            Seq::empty()
        }
    } else {
        Seq::empty()
    }) + (if spec_needs_call_blocking(service) {
        call_blocking_helper()
    } else {
        Seq::empty()
    }) + concat_all(routes, rate_limit_fn(service))
}

fn needs_header_str(service: &Service) -> (r: bool)
    ensures
        r == spec_needs_header_str(*service),
{
    let routes = &service.http.routes;
    let mut i: usize = 0;
    while i < routes.len()
        invariant
            0 <= i <= routes@.len(),
            routes@ == service.http.routes@,
            forall|j: int| 0 <= j < i ==> !route_has_headers(#[trigger] routes@[j]),
        decreases routes@.len() - i,
    {
        if routes[i].headers.len() > 0 {
            assert(route_has_headers(routes@[i as int]));
            return true;
        }
        i += 1;
    }
    let sockets = &service.sockets.sockets;
    let mut k: usize = 0;
    while k < sockets.len()
        invariant
            0 <= k <= sockets@.len(),
            sockets@ == service.sockets.sockets@,
            forall|j: int| 0 <= j < k ==> !socket_has_headers(#[trigger] sockets@[j]),
        decreases sockets@.len() - k,
    {
        if sockets[k].headers.len() > 0 {
            assert(socket_has_headers(sockets@[k as int]));
            return true;
        }
        k += 1;
    }
    false
}

fn any_numeric_header(fs: &Vec<Field>) -> (r: bool)
    ensures
        r == has_numeric_header(fs@),
{
    let mut i: usize = 0;
    while i < fs.len()
        invariant
            0 <= i <= fs@.len(),
            forall|j: int| 0 <= j < i ==> !numeric_header(#[trigger] fs@[j]),
        decreases fs@.len() - i,
    {
        match fs[i].ty {
            Type::Int | Type::Float => {
                assert(numeric_header(fs@[i as int]));
                return true;
            },
            _ => {},
        }
        i += 1;
    }
    false
}

fn needs_header_parse(service: &Service) -> (r: bool)
    ensures
        r == spec_needs_header_parse(*service),
{
    let routes = &service.http.routes;
    let mut i: usize = 0;
    while i < routes.len()
        invariant
            0 <= i <= routes@.len(),
            routes@ == service.http.routes@,
            forall|j: int| 0 <= j < i ==> !has_numeric_header((#[trigger] routes@[j]).headers@),
        decreases routes@.len() - i,
    {
        if any_numeric_header(&routes[i].headers) {
            return true;
        }
        i += 1;
    }
    let sockets = &service.sockets.sockets;
    let mut k: usize = 0;
    while k < sockets.len()
        invariant
            0 <= k <= sockets@.len(),
            sockets@ == service.sockets.sockets@,
            forall|j: int| 0 <= j < k ==> !has_numeric_header((#[trigger] sockets@[j]).headers@),
        decreases sockets@.len() - k,
    {
        if any_numeric_header(&sockets[k].headers) {
            return true;
        }
        k += 1;
    }
    false
}

fn needs_call_blocking(service: &Service) -> (r: bool)
    ensures
        r == spec_needs_call_blocking(*service),
{
    let routes = &service.http.routes;
    let mut i: usize = 0;
    while i < routes.len()
        invariant
            0 <= i <= routes@.len(),
            routes@ == service.http.routes@,
            forall|j: int| 0 <= j < i ==> !blocking_call(#[trigger] routes@[j]),
        decreases routes@.len() - i,
    {
        if routes[i].call.service_base.is_none() && !routes[i].call.is_async {
            assert(blocking_call(routes@[i as int]));
            return true;
        }
        i += 1;
    }
    false
}

fn route_structs_and_handlers(service: &Service) -> (r: String)
    requires
        all_routes_respond(*service),
    ensures
        r@ == concat_all(service.http.routes@, input_structs_fn()) + concat_all(
            service.http.routes@,
            handler_block_fn(),
        ),
{
    let routes = &service.http.routes;
    let mut out = String::new();
    let mut i: usize = 0;
    while i < routes.len()
        invariant
            0 <= i <= routes@.len(),
            routes@ == service.http.routes@,
            out@ == concat_all(routes@.take(i as int), input_structs_fn()),
        decreases routes@.len() - i,
    {
        proof {
            lemma_concat_all_step(routes@, i as int, input_structs_fn());
        }
        let s = render_input_structs(&routes[i]);
        out.append(s.as_str());
        i += 1;
    }
    proof {
        lemma_take_full(routes@);
    }
    let ghost a = out@;
    let mut i: usize = 0;
    while i < routes.len()
        invariant
            0 <= i <= routes@.len(),
            routes@ == service.http.routes@,
            all_routes_respond(*service),
            out@ == a + concat_all(routes@.take(i as int), handler_block_fn()),
        decreases routes@.len() - i,
    {
        proof {
            lemma_concat_all_step(routes@, i as int, handler_block_fn());
            assert(routes@[i as int].responses@.len() > 0);
        }
        let s = render_route_handler(&routes[i]);
        out.append(s.as_str());
        out.append("\n");
        i += 1;
        assert(out@ =~= a + concat_all(routes@.take(i as int), handler_block_fn()));
    }
    out
}

fn rate_limit_helpers(service: &Service) -> (r: String)
    ensures
        r@ == concat_all(service.http.routes@, rate_limit_fn(*service)),
{
    let routes = &service.http.routes;
    let mut out = String::new();
    let mut i: usize = 0;
    while i < routes.len()
        invariant
            0 <= i <= routes@.len(),
            routes@ == service.http.routes@,
            out@ == concat_all(routes@.take(i as int), rate_limit_fn(*service)),
        decreases routes@.len() - i,
    {
        proof {
            lemma_concat_all_step(routes@, i as int, rate_limit_fn(*service));
        }
        let s = rate_limit_helper(&routes[i], service);
        out.append(s.as_str());
        i += 1;
    }
    proof {
        lemma_take_full(routes@);
    }
    out
}

pub fn render_route_helpers(service: &Service) -> (r: String)
    requires
        all_routes_respond(*service),
    ensures
        r@ == spec_render_route_helpers(*service),
{
    let mut out = route_structs_and_handlers(service);
    let vh = render_validation_helpers(service);
    if !vh.as_str().is_empty() {
        out.append(vh.as_str());
        out.append("\n");
    }
    if needs_header_str(service) {
        out.append("\nfn header_str(headers: &HeaderMap, name: &str) -> Option<String> {\n    headers\n        .get(name)\n        .and_then(|v| v.to_str().ok())\n        .map(|s| s.to_string())\n}\n");
        if needs_header_parse(service) {
            out.append("\nfn header_parse<T: std::str::FromStr>(headers: &HeaderMap, name: &str) -> Option<T> {\n    headers.get(name).and_then(|v| v.to_str().ok())?.parse().ok()\n}\n");
        }
    }
    if needs_call_blocking(service) {
        out.append("\nasync fn call_blocking<T, F>(f: F) -> T\nwhere\n    T: Send + 'static,\n    F: FnOnce() -> T + Send + 'static,\n{\n    tokio::task::spawn_blocking(f)\n        .await\n        .expect(\"blocking task failed\")\n}\n");
    }
    let rl = rate_limit_helpers(service);
    out.append(rl.as_str());
    proof {
        reveal(spec_render_route_helpers);
    }
    out
}

} // verus!
