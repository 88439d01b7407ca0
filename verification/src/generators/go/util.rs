//! Names, types and decisions shared by the pieces of the Go server.

use vstd::prelude::*;

use crate::ir::{
    spec_code_name, AuthSpec, EventsBroker, HttpMethod, RateLimit, ResponseSpec, Route, Service,
    Type, TypeName, UseScope,
};
use crate::text::{
    ascii_lower, ascii_upper, ascii_upper_seq, chars_of, char_is_ascii_alnum, char_to_ascii_lower,
    char_to_ascii_upper, concat_all, is_ascii_alnum, is_ascii_seq, is_prefix, lemma_concat_all_step,
    lemma_take_full, lemma_views_push, push_char, starts_with, str_eq, to_ascii_uppercase, views,
};

verus! {

// ---------------------------------------------------------------------------
// Identifiers
// ---------------------------------------------------------------------------

/// Every ASCII letter or digit lower-cased, every other character `_`.
pub open spec fn spec_sanitize_name(s: Seq<char>) -> Seq<char> {
    s.map_values(|c: char| if is_ascii_alnum(c) { ascii_lower(c) } else { '_' })
}

pub fn sanitize_name(path: &str) -> (r: String)
    ensures
        r@ == spec_sanitize_name(path@),
{
    let cs = chars_of(path);
    let mut out = String::new();
    let mut i: usize = 0;
    while i < cs.len()
        invariant
            0 <= i <= cs@.len(),
            cs@ == path@,
            out@ == spec_sanitize_name(cs@.take(i as int)),
        decreases cs@.len() - i,
    {
        let ch = cs[i];
        if char_is_ascii_alnum(ch) {
            push_char(&mut out, char_to_ascii_lower(ch));
        } else {
            push_char(&mut out, '_');
        }
        i += 1;
        assert(out@ =~= spec_sanitize_name(cs@.take(i as int)));
    }
    proof {
        lemma_take_full(cs@);
    }
    out
}

/// Words of ASCII letters and digits, each starting with an upper-case
/// letter, other characters dropped: the state is the text so far and
/// whether the next kept character starts a word.
pub open spec fn camel_state(s: Seq<char>) -> (Seq<char>, bool)
    decreases s.len(),
{
    if s.len() == 0 {
        (Seq::empty(), true)
    } else {
        let (out, cap) = camel_state(s.drop_last());
        let c = s.last();
        if is_ascii_alnum(c) {
            if cap {
                (out.push(ascii_upper(c)), false)
            } else {
                (out.push(c), false)
            }
        } else {
            (out, true)
        }
    }
}

/// The camel-case word built from `s`, or `fallback` when it is empty.
pub open spec fn spec_camel_or(s: Seq<char>, fallback: Seq<char>) -> Seq<char> {
    let out = camel_state(s).0;
    if out.len() == 0 {
        fallback
    } else {
        out
    }
}

fn camel_or(raw: &str, fallback: &str) -> (r: String)
    ensures
        r@ == spec_camel_or(raw@, fallback@),
{
    let cs = chars_of(raw);
    let mut out = String::new();
    let mut cap = true;
    let mut i: usize = 0;
    while i < cs.len()
        invariant
            0 <= i <= cs@.len(),
            cs@ == raw@,
            (out@, cap) == camel_state(cs@.take(i as int)),
        decreases cs@.len() - i,
    {
        proof {
            assert(cs@.take(i + 1).drop_last() =~= cs@.take(i as int));
        }
        let ch = cs[i];
        if char_is_ascii_alnum(ch) {
            if cap {
                push_char(&mut out, char_to_ascii_upper(ch));
                cap = false;
            } else {
                push_char(&mut out, ch);
            }
        } else {
            cap = true;
        }
        i += 1;
    }
    proof {
        lemma_take_full(cs@);
    }
    if out.as_str().unicode_len() == 0 {
        fallback.to_owned()
    } else {
        out
    }
}

/// Exported Go name for a DSL name: camel case, `Field` when nothing is
/// left.
pub open spec fn spec_go_field_name(raw: Seq<char>) -> Seq<char> {
    spec_camel_or(raw, "Field"@)
}

pub fn go_field_name(raw: &str) -> (r: String)
    ensures
        r@ == spec_go_field_name(raw@),
{
    camel_or(raw, "Field")
}

pub fn to_go_func_name(raw: &str) -> (r: String)
    ensures
        r@ == spec_go_field_name(raw@),
{
    go_field_name(raw)
}

pub open spec fn spec_remote_call_type_name(name: Seq<char>) -> Seq<char> {
    spec_camel_or(name, "RemoteCall"@)
}

pub fn remote_call_type_name(name: &str) -> (r: String)
    ensures
        r@ == spec_remote_call_type_name(name@),
{
    camel_or(name, "RemoteCall")
}

/// The prefix of the Go wrappers generated around module functions.
pub open spec fn spec_go_fn_prefix() -> Seq<char> {
    "Ns"@
}

pub open spec fn spec_go_wrapper_name(raw: Seq<char>) -> Seq<char> {
    spec_go_fn_prefix() + spec_go_field_name(raw)
}

pub fn go_wrapper_name(raw: &str) -> (r: String)
    ensures
        r@ == spec_go_wrapper_name(raw@),
{
    let mut out = String::from_str("Ns");
    let n = to_go_func_name(raw);
    out.append(n.as_str());
    out
}

/// A name that already carries the wrapper prefix is used as a function
/// name; any other name goes through its wrapper.
pub open spec fn spec_go_call_name(raw: Seq<char>) -> Seq<char> {
    if is_prefix(spec_go_fn_prefix(), raw) {
        spec_go_field_name(raw)
    } else {
        spec_go_wrapper_name(raw)
    }
}

pub fn go_call_name(raw: &str) -> (r: String)
    ensures
        r@ == spec_go_call_name(raw@),
{
    if starts_with(raw, "Ns") {
        to_go_func_name(raw)
    } else {
        go_wrapper_name(raw)
    }
}

/// Lower-case ASCII letters and digits with single `_` between the runs
/// of other characters, no `_` at either end.
pub open spec fn collapse_underscores(s: Seq<char>) -> Seq<char>
    decreases s.len(),
{
    if s.len() == 0 {
        Seq::empty()
    } else {
        let p = collapse_underscores(s.drop_last());
        if s.last() == '_' && p.len() > 0 && p.last() == '_' {
            p
        } else {
            p.push(s.last())
        }
    }
}

pub open spec fn strip_underscores(s: Seq<char>) -> Seq<char> {
    let a = if s.len() > 0 && s[0] == '_' {
        s.drop_first()
    } else {
        s
    };
    if a.len() > 0 && a.last() == '_' {
        a.drop_last()
    } else {
        a
    }
}

pub open spec fn spec_normalize_ident(raw: Seq<char>) -> Seq<char> {
    strip_underscores(collapse_underscores(spec_sanitize_name(raw)))
}

pub fn normalize_ident(raw: &str) -> (r: String)
    ensures
        r@ == spec_normalize_ident(raw@),
{
    let s = sanitize_name(raw);
    let cs = chars_of(s.as_str());
    let mut col: Vec<char> = Vec::new();
    let mut i: usize = 0;
    while i < cs.len()
        invariant
            0 <= i <= cs@.len(),
            cs@ == s@,
            col@ == collapse_underscores(cs@.take(i as int)),
        decreases cs@.len() - i,
    {
        proof {
            assert(cs@.take(i + 1).drop_last() =~= cs@.take(i as int));
        }
        let c = cs[i];
        if c == '_' && col.len() > 0 && col[col.len() - 1] == '_' {
        } else {
            col.push(c);
        }
        i += 1;
    }
    proof {
        lemma_take_full(cs@);
    }
    let n = col.len();
    let start: usize = if n > 0 && col[0] == '_' {
        1
    } else {
        0
    };
    let end: usize = if n > start && col[n - 1] == '_' {
        n - 1
    } else {
        n
    };
    proof {
        let c = col@;
        let a = if c.len() > 0 && c[0] == '_' {
            c.drop_first()
        } else {
            c
        };
        assert(a =~= c.subrange(start as int, n as int));
        if a.len() > 0 && a.last() == '_' {
            assert(a.drop_last() =~= c.subrange(start as int, end as int));
        } else {
            assert(a =~= c.subrange(start as int, end as int));
        }
    }
    crate::text::string_of_range(&col, start, end)
}

// ---------------------------------------------------------------------------
// Routes
// ---------------------------------------------------------------------------

pub open spec fn spec_method_lower(m: HttpMethod) -> Seq<char> {
    match m {
        HttpMethod::Get => "get"@,
        HttpMethod::Post => "post"@,
        HttpMethod::Put => "put"@,
        HttpMethod::Patch => "patch"@,
        HttpMethod::Delete => "delete"@,
        HttpMethod::Options => "options"@,
        HttpMethod::Head => "head"@,
    }
}

pub fn method_lower(m: &HttpMethod) -> (r: &'static str)
    ensures
        r@ == spec_method_lower(*m),
{
    match m {
        HttpMethod::Get => "get",
        HttpMethod::Post => "post",
        HttpMethod::Put => "put",
        HttpMethod::Patch => "patch",
        HttpMethod::Delete => "delete",
        HttpMethod::Options => "options",
        HttpMethod::Head => "head",
    }
}

/// The Go handler of a route: method in lower case, then the sanitized
/// path.
pub open spec fn spec_handler_name(route: Route) -> Seq<char> {
    spec_method_lower(route.method) + spec_sanitize_name(route.path@)
}

pub fn handler_name(route: &Route) -> (r: String)
    ensures
        r@ == spec_handler_name(*route),
{
    let mut base = String::from_str(method_lower(&route.method));
    let s = sanitize_name(route.path.as_str());
    base.append(s.as_str());
    base
}

/// The Go handler of every route is named in ASCII: the method in lower
/// case, then the route's path with every character that is not an ASCII
/// letter or digit written as `_`.
pub proof fn law_go_handler_names_are_ascii(route: Route)
    ensures
        is_ascii_seq(spec_handler_name(route)),
{
    reveal_strlit("get");
    reveal_strlit("post");
    reveal_strlit("put");
    reveal_strlit("patch");
    reveal_strlit("delete");
    reveal_strlit("options");
    reveal_strlit("head");
    let m = spec_method_lower(route.method);
    let s = spec_sanitize_name(route.path@);
    assert forall|i: int| 0 <= i < s.len() implies (#[trigger] s[i] as u32) < 128 by {
        let c = route.path@[i];
        if is_ascii_alnum(c) {
            if 'A' <= c && c <= 'Z' {
                assert(s[i] == ((c as u32) + 32) as char);
            }
        }
    }
    let h = m + s;
    assert forall|i: int| 0 <= i < h.len() implies (#[trigger] h[i] as u32) < 128 by {
        if i < m.len() {
            assert(h[i] == m[i]);
        } else {
            assert(h[i] == s[i - m.len()]);
        }
    }
}

/// The handler name in capitals followed by `suffix`: the names of the
/// input structs of a route. (The handler name is ASCII, so this is its
/// full upper-casing.)
pub open spec fn spec_struct_name(route: Route, suffix: Seq<char>) -> Seq<char> {
    ascii_upper_seq(spec_handler_name(route)) + suffix
}

fn struct_name(route: &Route, suffix: &str) -> (r: String)
    ensures
        r@ == spec_struct_name(*route, suffix@),
{
    let h = handler_name(route);
    let mut out = to_ascii_uppercase(h.as_str());
    out.append(suffix);
    out
}

pub fn path_struct_name(route: &Route) -> (r: String)
    ensures
        r@ == spec_struct_name(*route, "Path"@),
{
    struct_name(route, "Path")
}

pub fn query_struct_name(route: &Route) -> (r: String)
    ensures
        r@ == spec_struct_name(*route, "Query"@),
{
    struct_name(route, "Query")
}

pub fn body_struct_name(route: &Route) -> (r: String)
    ensures
        r@ == spec_struct_name(*route, "Body"@),
{
    struct_name(route, "Body")
}

pub fn headers_struct_name(route: &Route) -> (r: String)
    ensures
        r@ == spec_struct_name(*route, "Headers"@),
{
    struct_name(route, "Headers")
}

pub open spec fn spec_http_method(m: HttpMethod) -> Seq<char> {
    crate::format::spec_method_name(m)
}

pub fn http_method(route: &Route) -> (r: &'static str)
    ensures
        r@ == spec_http_method(route.method),
{
    crate::format::method_name(&route.method)
}

pub open spec fn spec_auth_middleware_name(auth: AuthSpec) -> Seq<char> {
    match auth {
        AuthSpec::NoAuth => "auth_none"@,
        AuthSpec::Bearer => "auth_bearer"@,
        AuthSpec::ApiKey => "auth_api_key"@,
    }
}

pub fn auth_middleware_name(auth: &AuthSpec) -> (r: String)
    ensures
        r@ == spec_auth_middleware_name(*auth),
{
    match auth {
        AuthSpec::NoAuth => String::from_str("auth_none"),
        AuthSpec::Bearer => String::from_str("auth_bearer"),
        AuthSpec::ApiKey => String::from_str("auth_api_key"),
    }
}

pub fn middleware_name(raw: &str) -> (r: String)
    ensures
        r@ == raw@,
{
    raw.to_owned()
}

pub fn module_import_alias(raw: &str) -> (r: String)
    ensures
        r@ == raw@,
{
    raw.to_owned()
}

pub open spec fn is_success(status: u16) -> bool {
    200 <= status < 300
}

/// The response a handler produces: the first 2xx response, else the first.
pub open spec fn spec_primary_index(resps: Seq<ResponseSpec>) -> int
    decreases resps.len(),
{
    if resps.len() == 0 {
        0
    } else {
        let k = spec_primary_index(resps.drop_last());
        if k < resps.len() - 1 && is_success(resps[k].status) {
            k
        } else if is_success(resps.last().status) {
            resps.len() - 1
        } else {
            k
        }
    }
}

pub open spec fn first_success(resps: Seq<ResponseSpec>, k: int) -> bool {
    &&& 0 <= k < resps.len()
    &&& is_success(resps[k].status)
    &&& forall|j: int| 0 <= j < k ==> !is_success(#[trigger] resps[j].status)
}

pub open spec fn spec_primary_response(resps: Seq<ResponseSpec>) -> ResponseSpec {
    if exists|k: int| first_success(resps, k) {
        resps[choose|k: int| first_success(resps, k)]
    } else {
        resps[0]
    }
}

pub fn primary_response(route: &Route) -> (r: &ResponseSpec)
    requires
        route.responses@.len() > 0,
    ensures
        *r == spec_primary_response(route.responses@),
{
    let mut i: usize = 0;
    while i < route.responses.len()
        invariant
            0 <= i <= route.responses@.len(),
            forall|j: int| 0 <= j < i ==> !is_success(#[trigger] route.responses@[j].status),
        decreases route.responses@.len() - i,
    {
        let s = route.responses[i].status;
        if 200 <= s && s < 300 {
            proof {
                let rs = route.responses@;
                assert(first_success(rs, i as int));
                let k = choose|k: int| first_success(rs, k);
                if k < i {
                    assert(!is_success(rs[k].status));
                }
                if k > i {
                    assert(!is_success(rs[i as int].status));
                }
            }
            return &route.responses[i];
        }
        i += 1;
    }
    &route.responses[0]
}

pub open spec fn spec_effective_rate_limit(route: Route, service: Service) -> Option<RateLimit> {
    match route.rate_limit {
        Some(l) => Some(l),
        None => service.common.rate_limit,
    }
}

pub fn effective_rate_limit(route: &Route, service: &Service) -> (r: Option<RateLimit>)
    ensures
        r == spec_effective_rate_limit(*route, *service),
{
    match route.rate_limit {
        Some(l) => Some(l),
        None => service.common.rate_limit,
    }
}

pub open spec fn spec_rate_limit_name(route: Route) -> Seq<char> {
    "rate_limit_"@ + spec_handler_name(route)
}

pub fn rate_limit_name(route: &Route) -> (r: String)
    ensures
        r@ == spec_rate_limit_name(*route),
{
    let mut out = String::from_str("rate_limit_");
    let h = handler_name(route);
    out.append(h.as_str());
    out
}

/// `call_<service>_<module>_<function>`, each part normalized.
pub open spec fn spec_remote_call_fn_name(route: Route) -> Seq<char> {
    let service = match route.call.service {
        Some(s) => s@,
        None => "service"@,
    };
    "call_"@ + spec_normalize_ident(service) + "_"@ + spec_normalize_ident(route.call.module@)
        + "_"@ + spec_normalize_ident(route.call.function@)
}

pub fn remote_call_fn_name(route: &Route) -> (r: String)
    ensures
        r@ == spec_remote_call_fn_name(*route),
{
    let svc = match &route.call.service {
        Some(s) => normalize_ident(s.as_str()),
        None => normalize_ident("service"),
    };
    let mut out = String::from_str("call_");
    out.append(svc.as_str());
    out.append("_");
    let m = normalize_ident(route.call.module.as_str());
    out.append(m.as_str());
    out.append("_");
    let f = normalize_ident(route.call.function.as_str());
    out.append(f.as_str());
    out
}

// ---------------------------------------------------------------------------
// Types
// ---------------------------------------------------------------------------

pub open spec fn spec_go_type_name(name: TypeName, use_types_pkg: bool) -> Seq<char> {
    if use_types_pkg {
        "types."@ + spec_code_name(name)
    } else {
        spec_code_name(name)
    }
}

pub fn go_type_name(name: &TypeName, use_types_pkg: bool) -> (r: String)
    ensures
        r@ == spec_go_type_name(*name, use_types_pkg),
{
    let base = name.code_name();
    if use_types_pkg {
        let mut out = String::from_str("types.");
        out.append(base.as_str());
        out
    } else {
        base
    }
}

/// The Go type of a DSL type; named types live in the `types` package
/// when `use_types_pkg`.
pub open spec fn spec_go_type(ty: Type, use_types_pkg: bool) -> Seq<char>
    decreases ty,
{
    match ty {
        Type::String => "string"@,
        Type::Int => "int64"@,
        Type::Float => "float64"@,
        Type::Bool => "bool"@,
        Type::Array(inner) => "[]"@ + spec_go_type(*inner, use_types_pkg),
        Type::MapOf(inner) => "map[string]"@ + spec_go_type(*inner, use_types_pkg),
        Type::Union(_) | Type::OneOf(_) => "any"@,
        Type::Nullable(inner) => "*"@ + spec_go_type(*inner, use_types_pkg),
        Type::Object(_) => "map[string]any"@,
        Type::Named(n) => spec_go_type_name(n, use_types_pkg),
        Type::Any => "any"@,
        Type::Void => "struct{}"@,
    }
}

/// The wrappers of the DSL become Go's own: a list is a slice of its
/// element's Go type, a map a `map[string]` of its value's, and a nullable
/// type a pointer to its inner one, wherever named types live; a slice
/// is never written as its bare element type.
pub proof fn law_go_type_wrappers(elem: Type, use_types_pkg: bool)
    ensures
        spec_go_type(Type::Array(Box::new(elem)), use_types_pkg) == "[]"@ + spec_go_type(
            elem,
            use_types_pkg,
        ),
        spec_go_type(Type::MapOf(Box::new(elem)), use_types_pkg) == "map[string]"@
            + spec_go_type(elem, use_types_pkg),
        spec_go_type(Type::Nullable(Box::new(elem)), use_types_pkg) == "*"@ + spec_go_type(
            elem,
            use_types_pkg,
        ),
        spec_go_type(Type::Array(Box::new(elem)), use_types_pkg) != spec_go_type(
            elem,
            use_types_pkg,
        ),
{
    reveal_strlit("[]");
    assert(("[]"@ + spec_go_type(elem, use_types_pkg)).len() == spec_go_type(elem, use_types_pkg).len() + 2);
}

pub fn go_type(ty: &Type, use_types_pkg: bool) -> (r: String)
    ensures
        r@ == spec_go_type(*ty, use_types_pkg),
    decreases ty,
{
    match ty {
        Type::String => String::from_str("string"),
        Type::Int => String::from_str("int64"),
        Type::Float => String::from_str("float64"),
        Type::Bool => String::from_str("bool"),
        Type::Array(inner) => {
            let mut out = String::from_str("[]");
            let x = go_type(inner, use_types_pkg);
            out.append(x.as_str());
            out
        },
        Type::MapOf(inner) => {
            let mut out = String::from_str("map[string]");
            let x = go_type(inner, use_types_pkg);
            out.append(x.as_str());
            out
        },
        Type::Union(_) | Type::OneOf(_) => String::from_str("any"),
        Type::Nullable(inner) => {
            let mut out = String::from_str("*");
            let x = go_type(inner, use_types_pkg);
            out.append(x.as_str());
            out
        },
        Type::Object(_) => String::from_str("map[string]any"),
        Type::Named(n) => go_type_name(n, use_types_pkg),
        Type::Any => String::from_str("any"),
        Type::Void => String::from_str("struct{}"),
    }
}

/// A pointer type is kept; any other type becomes a pointer to it.
pub open spec fn spec_wrap_optional(go_ty: Seq<char>) -> Seq<char> {
    if go_ty.len() > 0 && go_ty[0] == '*' {
        go_ty
    } else {
        "*"@ + go_ty
    }
}

pub fn wrap_optional(go_ty: &str) -> (r: String)
    ensures
        r@ == spec_wrap_optional(go_ty@),
{
    if crate::text::first_char_is(go_ty, '*') {
        go_ty.to_owned()
    } else {
        let mut out = String::from_str("*");
        out.append(go_ty);
        out
    }
}

/// Whether the Go type of `ty` names something of the `types` package.
pub open spec fn spec_type_uses_types_pkg(ty: Type) -> bool
    decreases ty,
{
    match ty {
        Type::Named(_) => true,
        Type::Array(inner) => spec_type_uses_types_pkg(*inner),
        Type::MapOf(inner) => spec_type_uses_types_pkg(*inner),
        Type::Nullable(inner) => spec_type_uses_types_pkg(*inner),
        Type::Union(items) => exists|i: int|
            0 <= i < items@.len() && spec_type_uses_types_pkg(#[trigger] items@[i]),
        Type::OneOf(items) => exists|i: int|
            0 <= i < items@.len() && spec_type_uses_types_pkg(#[trigger] items@[i]),
        _ => false,
    }
}

#[verifier::loop_isolation(false)]
pub fn type_uses_types_pkg(ty: &Type) -> (r: bool)
    ensures
        r == spec_type_uses_types_pkg(*ty),
    decreases ty,
{
    match ty {
        Type::Named(_) => true,
        Type::Array(inner) => type_uses_types_pkg(inner),
        Type::MapOf(inner) => type_uses_types_pkg(inner),
        Type::Nullable(inner) => type_uses_types_pkg(inner),
        Type::Union(items) | Type::OneOf(items) => {
            let mut i: usize = 0;
            while i < items.len()
                invariant
                    0 <= i <= items@.len(),
                    forall|j: int| 0 <= j < i ==> !spec_type_uses_types_pkg(#[trigger] items@[j]),
                decreases items@.len() - i,
            {
                if type_uses_types_pkg(&items[i]) {
                    return true;
                }
                i += 1;
            }
            false
        },
        _ => false,
    }
}

// ---------------------------------------------------------------------------
// What a service needs
// ---------------------------------------------------------------------------

pub open spec fn spec_is_scalar(ty: Type) -> bool {
    ty is String || ty is Int || ty is Float || ty is Bool
}

pub open spec fn some_field(fields: Seq<crate::ir::Field>, p: spec_fn(Type) -> bool) -> bool {
    exists|i: int| 0 <= i < fields.len() && p(#[trigger] fields[i].ty)
}

/// Whether a route reads JSON: a body, a non-scalar path, query or header
/// input, or a primary response that is neither text nor empty.
pub open spec fn spec_route_needs_json(r: Route) -> bool {
    ||| r.input.body@.len() > 0
    ||| some_field(r.input.path@, |t: Type| !spec_is_scalar(t))
    ||| some_field(r.input.query@, |t: Type| !spec_is_scalar(t))
    ||| some_field(r.headers@, |t: Type| !spec_is_scalar(t))
    ||| !(spec_primary_response(r.responses@).ty is String || spec_primary_response(
        r.responses@,
    ).ty is Void)
}

pub open spec fn all_routes_respond(service: Service) -> bool {
    forall|i: int| 0 <= i < service.http.routes@.len() ==> (#[trigger] service.http.routes@[i]).responses@.len() > 0
}

pub open spec fn spec_needs_json(service: Service) -> bool {
    exists|i: int|
        0 <= i < service.http.routes@.len() && spec_route_needs_json(
            #[trigger] service.http.routes@[i],
        )
}

fn any_non_scalar(fields: &Vec<crate::ir::Field>) -> (r: bool)
    ensures
        r == some_field(fields@, |t: Type| !spec_is_scalar(t)),
{
    let mut i: usize = 0;
    while i < fields.len()
        invariant
            0 <= i <= fields@.len(),
            forall|j: int| 0 <= j < i ==> spec_is_scalar(#[trigger] fields@[j].ty),
        decreases fields@.len() - i,
    {
        match fields[i].ty {
            Type::String | Type::Int | Type::Float | Type::Bool => {},
            _ => {
                return true;
            },
        }
        i += 1;
    }
    false
}

pub fn needs_json(service: &Service) -> (r: bool)
    requires
        all_routes_respond(*service),
    ensures
        r == spec_needs_json(*service),
{
    let routes = &service.http.routes;
    let mut i: usize = 0;
    while i < routes.len()
        invariant
            0 <= i <= routes@.len(),
            routes == &service.http.routes,
            all_routes_respond(*service),
            forall|j: int| 0 <= j < i ==> !spec_route_needs_json(#[trigger] routes@[j]),
        decreases routes@.len() - i,
    {
        let route = &routes[i];
        if route.input.body.len() > 0 {
            return true;
        }
        if any_non_scalar(&route.input.path) || any_non_scalar(&route.input.query)
            || any_non_scalar(&route.headers) {
            return true;
        }
        let resp = primary_response(route);
        match resp.ty {
            Type::String | Type::Void => {},
            _ => {
                return true;
            },
        }
        i += 1;
    }
    false
}

pub open spec fn is_parsed_scalar(ty: Type) -> bool {
    ty is Int || ty is Float || ty is Bool
}

/// Whether some path, query or header input is a number or a boolean.
pub open spec fn spec_needs_strconv(service: Service) -> bool {
    exists|i: int|
        0 <= i < service.http.routes@.len() && {
            let r = #[trigger] service.http.routes@[i];
            ||| some_field(r.input.path@, |t: Type| is_parsed_scalar(t))
            ||| some_field(r.input.query@, |t: Type| is_parsed_scalar(t))
            ||| some_field(r.headers@, |t: Type| is_parsed_scalar(t))
        }
}

fn any_parsed_scalar(fields: &Vec<crate::ir::Field>) -> (r: bool)
    ensures
        r == some_field(fields@, |t: Type| is_parsed_scalar(t)),
{
    let mut i: usize = 0;
    while i < fields.len()
        invariant
            0 <= i <= fields@.len(),
            forall|j: int| 0 <= j < i ==> !is_parsed_scalar(#[trigger] fields@[j].ty),
        decreases fields@.len() - i,
    {
        match fields[i].ty {
            Type::Int | Type::Float | Type::Bool => {
                return true;
            },
            _ => {},
        }
        i += 1;
    }
    false
}

pub fn needs_strconv(service: &Service) -> (r: bool)
    ensures
        r == spec_needs_strconv(*service),
{
    let routes = &service.http.routes;
    let mut i: usize = 0;
    while i < routes.len()
        invariant
            0 <= i <= routes@.len(),
            routes == &service.http.routes,
            forall|j: int|
                0 <= j < i ==> {
                    let r = #[trigger] routes@[j];
                    !some_field(r.input.path@, |t: Type| is_parsed_scalar(t)) && !some_field(
                        r.input.query@,
                        |t: Type| is_parsed_scalar(t),
                    ) && !some_field(r.headers@, |t: Type| is_parsed_scalar(t))
                },
        decreases routes@.len() - i,
    {
        let route = &routes[i];
        if any_parsed_scalar(&route.input.path) || any_parsed_scalar(&route.input.query)
            || any_parsed_scalar(&route.headers) {
            return true;
        }
        i += 1;
    }
    false
}

/// Whether some route input has a type of the `types` package.
pub open spec fn spec_needs_types_in_main(service: Service) -> bool {
    exists|i: int|
        0 <= i < service.http.routes@.len() && {
            let r = #[trigger] service.http.routes@[i];
            ||| some_field(r.input.path@, |t: Type| spec_type_uses_types_pkg(t))
            ||| some_field(r.input.query@, |t: Type| spec_type_uses_types_pkg(t))
            ||| some_field(r.input.body@, |t: Type| spec_type_uses_types_pkg(t))
            ||| some_field(r.headers@, |t: Type| spec_type_uses_types_pkg(t))
        }
}

fn any_types_pkg(fields: &Vec<crate::ir::Field>) -> (r: bool)
    ensures
        r == some_field(fields@, |t: Type| spec_type_uses_types_pkg(t)),
{
    let mut i: usize = 0;
    while i < fields.len()
        invariant
            0 <= i <= fields@.len(),
            forall|j: int| 0 <= j < i ==> !spec_type_uses_types_pkg(#[trigger] fields@[j].ty),
        decreases fields@.len() - i,
    {
        if type_uses_types_pkg(&fields[i].ty) {
            return true;
        }
        i += 1;
    }
    false
}

pub fn needs_types_in_main(service: &Service) -> (r: bool)
    ensures
        r == spec_needs_types_in_main(*service),
{
    let routes = &service.http.routes;
    let mut i: usize = 0;
    while i < routes.len()
        invariant
            0 <= i <= routes@.len(),
            routes == &service.http.routes,
            forall|j: int|
                0 <= j < i ==> {
                    let r = #[trigger] routes@[j];
                    !some_field(r.input.path@, |t: Type| spec_type_uses_types_pkg(t))
                        && !some_field(r.input.query@, |t: Type| spec_type_uses_types_pkg(t))
                        && !some_field(r.input.body@, |t: Type| spec_type_uses_types_pkg(t))
                        && !some_field(r.headers@, |t: Type| spec_type_uses_types_pkg(t))
                },
        decreases routes@.len() - i,
    {
        let route = &routes[i];
        if any_types_pkg(&route.input.path) || any_types_pkg(&route.input.query) || any_types_pkg(
            &route.input.body,
        ) || any_types_pkg(&route.headers) {
            return true;
        }
        i += 1;
    }
    false
}

/// Whether some route calls another service over HTTP.
pub open spec fn spec_needs_remote_calls(service: Service) -> bool {
    exists|i: int|
        0 <= i < service.http.routes@.len() && (#[trigger] service.http.routes@[i]).call.service_base is Some
}

pub fn needs_remote_calls(service: &Service) -> (r: bool)
    ensures
        r == spec_needs_remote_calls(*service),
{
    let routes = &service.http.routes;
    let mut i: usize = 0;
    while i < routes.len()
        invariant
            0 <= i <= routes@.len(),
            routes == &service.http.routes,
            forall|j: int| 0 <= j < i ==> (#[trigger] routes@[j]).call.service_base is None,
        decreases routes@.len() - i,
    {
        if routes[i].call.service_base.is_some() {
            return true;
        }
        i += 1;
    }
    false
}

/// Whether some route is rate limited, by itself or by the service.
pub open spec fn spec_needs_rate_limit(service: Service) -> bool {
    exists|i: int|
        0 <= i < service.http.routes@.len() && ((#[trigger] service.http.routes@[i]).rate_limit is Some
            || service.common.rate_limit is Some)
}

pub fn needs_rate_limit(service: &Service) -> (r: bool)
    ensures
        r == spec_needs_rate_limit(*service),
{
    let routes = &service.http.routes;
    let mut i: usize = 0;
    while i < routes.len()
        invariant
            0 <= i <= routes@.len(),
            routes == &service.http.routes,
            forall|j: int|
                0 <= j < i ==> !((#[trigger] routes@[j]).rate_limit is Some
                    || service.common.rate_limit is Some),
        decreases routes@.len() - i,
    {
        if routes[i].rate_limit.is_some() || service.common.rate_limit.is_some() {
            return true;
        }
        i += 1;
    }
    false
}

// ---------------------------------------------------------------------------
// go.mod and module imports
// ---------------------------------------------------------------------------

pub open spec fn module_requires(mods: Seq<crate::ir::ModuleUse>) -> Seq<(Seq<char>, Seq<char>)>
    decreases mods.len(),
{
    if mods.len() == 0 {
        Seq::empty()
    } else {
        let rest = module_requires(mods.drop_last());
        let m = mods.last();
        match (m.path, m.version) {
            (None, Some(v)) => rest.push((m.name@, v@)),
            _ => rest,
        }
    }
}

/// The modules a generated Go server requires: chi, the websocket
/// package for sockets, the Redis client for Redis events, then every
/// versioned package module.
pub open spec fn spec_go_requires(service: Service) -> Seq<(Seq<char>, Seq<char>)> {
    let base = seq![("github.com/go-chi/chi/v5"@, "v5.0.10"@)];
    let ws = if service.sockets.sockets@.len() > 0 {
        base.push(("github.com/gorilla/websocket"@, "v1.5.1"@))
    } else {
        base
    };
    let redis = match service.events.config {
        Some(cfg) => ws.push(("github.com/redis/go-redis/v9"@, "v9.5.1"@)),
        None => ws,
    };
    redis + module_requires(service.common.modules@)
}

pub open spec fn spec_require_line(e: (Seq<char>, Seq<char>)) -> Seq<char> {
    "    "@ + e.0 + " "@ + e.1 + "\n"@
}

pub open spec fn spec_build_go_mod(service: Service, module_name: Seq<char>) -> Seq<char> {
    let reqs = spec_go_requires(service);
    "module "@ + module_name + "\n\ngo 1.20\n\n"@ + if reqs.len() > 0 {
        "require (\n"@ + concat_all(reqs, |e: (Seq<char>, Seq<char>)| spec_require_line(e))
            + ")\n"@
    } else {
        Seq::empty()
    }
}

pub open spec fn pair_views(v: Seq<(String, String)>) -> Seq<(Seq<char>, Seq<char>)> {
    v.map_values(|e: (String, String)| (e.0@, e.1@))
}

pub proof fn lemma_pair_views_push(v: Seq<(String, String)>, e: (String, String))
    ensures
        pair_views(v.push(e)) == pair_views(v).push((e.0@, e.1@)),
{
    assert(pair_views(v.push(e)) =~= pair_views(v).push((e.0@, e.1@)));
}

pub fn build_go_mod(service: &Service, module_name: &str) -> (r: String)
    ensures
        r@ == spec_build_go_mod(*service, module_name@),
{
    let mut deps: Vec<(String, String)> = Vec::new();
    deps.push((String::from_str("github.com/go-chi/chi/v5"), String::from_str("v5.0.10")));
    assert(pair_views(deps@) =~= seq![("github.com/go-chi/chi/v5"@, "v5.0.10"@)]);
    if service.sockets.sockets.len() > 0 {
        let e = (String::from_str("github.com/gorilla/websocket"), String::from_str("v1.5.1"));
        proof {
            lemma_pair_views_push(deps@, e);
        }
        deps.push(e);
    }
    if let Some(cfg) = &service.events.config {
        match cfg.broker {
            EventsBroker::Redis => {
                let e = (
                    String::from_str("github.com/redis/go-redis/v9"),
                    String::from_str("v9.5.1"),
                );
                proof {
                    lemma_pair_views_push(deps@, e);
                }
                deps.push(e);
            },
        }
    }
    let ghost fixed = pair_views(deps@);
    let mods = &service.common.modules;
    let mut i: usize = 0;
    while i < mods.len()
        invariant
            0 <= i <= mods@.len(),
            pair_views(deps@) == fixed + module_requires(mods@.take(i as int)),
        decreases mods@.len() - i,
    {
        proof {
            assert(mods@.take(i + 1).drop_last() =~= mods@.take(i as int));
        }
        let m = &mods[i];
        if m.path.is_none() {
            if let Some(ver) = &m.version {
                let e = (m.name.clone(), ver.clone());
                proof {
                    lemma_pair_views_push(deps@, e);
                }
                deps.push(e);
            }
        }
        i += 1;
    }
    proof {
        lemma_take_full(mods@);
    }
    assert(pair_views(deps@) == spec_go_requires(*service));
    let mut out = String::from_str("module ");
    out.append(module_name);
    out.append("\n\ngo 1.20\n\n");
    let ghost head = out@;
    let ghost reqs = pair_views(deps@);
    let mut block = String::new();
    if deps.len() > 0 {
        block.append("require (\n");
        let ghost b0 = block@;
        let mut k: usize = 0;
        while k < deps.len()
            invariant
                0 <= k <= deps@.len(),
                reqs == pair_views(deps@),
                block@ == b0 + concat_all(
                    reqs.take(k as int),
                    |e: (Seq<char>, Seq<char>)| spec_require_line(e),
                ),
            decreases deps@.len() - k,
        {
            proof {
                lemma_concat_all_step(reqs, k as int, |e: (Seq<char>, Seq<char>)| spec_require_line(e));
            }
            block.append("    ");
            block.append(deps[k].0.as_str());
            block.append(" ");
            block.append(deps[k].1.as_str());
            block.append("\n");
            k += 1;
        }
        proof {
            lemma_take_full(reqs);
        }
        block.append(")\n");
        proof {
            reveal_strlit("require (\n");
            assert(b0 =~= "require (\n"@);
        }
    }
    out.append(block.as_str());
    out
}

// ---------------------------------------------------------------------------
// Module imports
// ---------------------------------------------------------------------------

pub open spec fn scope_matches(want: UseScope, have: UseScope) -> bool {
    match want {
        UseScope::Compile => have is Compile || have is Both,
        UseScope::Runtime => have is Runtime || have is Both,
        UseScope::Both => true,
    }
}

/// The name a module is imported under: its alias, else its name.
pub open spec fn spec_local_name(m: crate::ir::ModuleUse) -> Seq<char> {
    match m.alias {
        Some(a) => a@,
        None => m.name@,
    }
}

/// What identifies an import: local name, module name, and whether it is
/// a local module.
pub open spec fn spec_import_key(m: crate::ir::ModuleUse) -> Seq<char> {
    spec_local_name(m) + "|"@ + m.name@ + "|"@ + if m.path is Some {
        "true"@
    } else {
        "false"@
    }
}

pub open spec fn spec_import_line(m: crate::ir::ModuleUse, module_name: Seq<char>) -> Seq<char> {
    if m.path is Some {
        spec_local_name(m) + " \""@ + module_name + "/modules/"@ + spec_local_name(m) + "\""@
    } else {
        spec_local_name(m) + " \""@ + m.name@ + "\""@
    }
}

/// The import lines and the keys seen, after the first `n` modules: a
/// module out of scope, or whose key was seen, adds nothing.
pub open spec fn spec_imports_state(
    mods: Seq<crate::ir::ModuleUse>,
    module_name: Seq<char>,
    scope: UseScope,
) -> (Seq<Seq<char>>, Seq<Seq<char>>)
    decreases mods.len(),
{
    if mods.len() == 0 {
        (Seq::empty(), Seq::empty())
    } else {
        let (lines, seen) = spec_imports_state(mods.drop_last(), module_name, scope);
        let m = mods.last();
        let key = spec_import_key(m);
        if !scope_matches(scope, m.scope) || seen.contains(key) {
            (lines, seen)
        } else {
            (lines.push(spec_import_line(m, module_name)), seen.push(key))
        }
    }
}

pub open spec fn spec_render_module_imports(
    service: Service,
    module_name: Seq<char>,
    scope: UseScope,
) -> Seq<Seq<char>> {
    spec_imports_state(service.common.modules@, module_name, scope).0
}

pub fn seen_contains(seen: &Vec<String>, key: &str) -> (r: bool)
    ensures
        r == views(seen@).contains(key@),
{
    let mut i: usize = 0;
    while i < seen.len()
        invariant
            0 <= i <= seen@.len(),
            forall|j: int| 0 <= j < i ==> seen@[j]@ != key@,
        decreases seen@.len() - i,
    {
        if str_eq(seen[i].as_str(), key) {
            assert(views(seen@)[i as int] == key@);
            return true;
        }
        i += 1;
    }
    proof {
        if views(seen@).contains(key@) {
            let j = choose|j: int| 0 <= j < views(seen@).len() && views(seen@)[j] == key@;
            assert(seen@[j]@ == key@);
        }
    }
    false
}

fn scope_ok(want: UseScope, have: UseScope) -> (r: bool)
    ensures
        r == scope_matches(want, have),
{
    match want {
        UseScope::Compile => match have {
            UseScope::Compile | UseScope::Both => true,
            _ => false,
        },
        UseScope::Runtime => match have {
            UseScope::Runtime | UseScope::Both => true,
            _ => false,
        },
        UseScope::Both => true,
    }
}

pub fn render_module_imports(service: &Service, module_name: &str, scope: UseScope) -> (r: Vec<
    String,
>)
    ensures
        views(r@) == spec_render_module_imports(*service, module_name@, scope),
{
    let mods = &service.common.modules;
    let mut out: Vec<String> = Vec::new();
    let mut seen: Vec<String> = Vec::new();
    let mut i: usize = 0;
    while i < mods.len()
        invariant
            0 <= i <= mods@.len(),
            (views(out@), views(seen@)) == spec_imports_state(
                mods@.take(i as int),
                module_name@,
                scope,
            ),
        decreases mods@.len() - i,
    {
        proof {
            assert(mods@.take(i + 1).drop_last() =~= mods@.take(i as int));
        }
        let m = &mods[i];
        if scope_ok(scope, m.scope) {
            let local: &str = match &m.alias {
                Some(a) => a.as_str(),
                None => m.name.as_str(),
            };
            let mut key = String::from_str(local);
            key.append("|");
            key.append(m.name.as_str());
            key.append("|");
            key.append(
                if m.path.is_some() {
                    "true"
                } else {
                    "false"
                },
            );
            if !seen_contains(&seen, key.as_str()) {
                proof {
                    lemma_views_push(seen@, key);
                }
                seen.push(key);
                let mut line = String::from_str(local);
                if m.path.is_some() {
                    line.append(" \"");
                    line.append(module_name);
                    line.append("/modules/");
                    line.append(local);
                    line.append("\"");
                } else {
                    line.append(" \"");
                    line.append(m.name.as_str());
                    line.append("\"");
                }
                proof {
                    lemma_views_push(out@, line);
                }
                out.push(line);
            }
        }
        i += 1;
    }
    proof {
        lemma_take_full(mods@);
    }
    out
}

} // verus!
