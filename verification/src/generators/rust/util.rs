//! Names, types and decisions shared by the pieces of the Rust (axum)
//! server.

use vstd::prelude::*;

use crate::generators::common::types::{spec_uses_named_type, uses_named_type};
use crate::generators::common::validation::{route_has_regex, spec_route_any, FieldTest};
use crate::generators::go::util::{
    lemma_pair_views_push, method_lower, needs_remote_calls, pair_views, spec_method_lower,
    spec_needs_remote_calls,
};
use crate::ir::{spec_code_name, Field, HttpMethod, ModuleUse, Route, Service, Type};
use crate::text::{
    ascii_lower, chars_of, concat_all, lemma_concat_all_step, str_eq, char_is_ascii_alnum, char_is_ascii_upper, char_to_ascii_lower, dec_nat,
    is_ascii_alnum, is_ascii_upper, lemma_take_full, push_char, seq_join, string_of_range,
    u64_to_string,
};

verus! {

// ---------------------------------------------------------------------------
// Types
// ---------------------------------------------------------------------------

/// The Rust type that holds a value of an IR type.
pub open spec fn spec_rust_type(ty: Type) -> Seq<char>
    decreases ty,
{
    match ty {
        Type::String => "String"@,
        Type::Int => "i64"@,
        Type::Float => "f64"@,
        Type::Bool => "bool"@,
        Type::Object(_) => "serde_json::Value"@,
        Type::Array(inner) => "Vec<"@ + spec_rust_type(*inner) + ">"@,
        Type::MapOf(inner) => "std::collections::HashMap<String, "@ + spec_rust_type(*inner) + ">"@,
        Type::Union(_) => "serde_json::Value"@,
        Type::OneOf(_) => "serde_json::Value"@,
        Type::Nullable(inner) => "Option<"@ + spec_rust_type(*inner) + ">"@,
        Type::Any => "serde_json::Value"@,
        Type::Void => "()"@,
        Type::Named(n) => spec_code_name(n),
    }
}

pub fn rust_type(ty: &Type) -> (r: String)
    ensures
        r@ == spec_rust_type(*ty),
    decreases ty,
{
    match ty {
        Type::String => String::from_str("String"),
        Type::Int => String::from_str("i64"),
        Type::Float => String::from_str("f64"),
        Type::Bool => String::from_str("bool"),
        Type::Object(_) => String::from_str("serde_json::Value"),
        Type::Array(inner) => {
            let mut s = String::from_str("Vec<");
            let t = rust_type(inner);
            s.append(t.as_str());
            s.append(">");
            s
        },
        Type::MapOf(inner) => {
            let mut s = String::from_str("std::collections::HashMap<String, ");
            let t = rust_type(inner);
            s.append(t.as_str());
            s.append(">");
            s
        },
        Type::Union(_) | Type::OneOf(_) => String::from_str("serde_json::Value"),
        Type::Nullable(inner) => {
            let mut s = String::from_str("Option<");
            let t = rust_type(inner);
            s.append(t.as_str());
            s.append(">");
            s
        },
        Type::Any => String::from_str("serde_json::Value"),
        Type::Void => String::from_str("()"),
        Type::Named(n) => n.code_name(),
    }
}

/// Whether a handler answers a value of this type as JSON (text and
/// no-content answers are written otherwise).
pub open spec fn spec_returns_json(ty: Type) -> bool {
    !(ty is String || ty is Void)
}

pub fn returns_json(ty: &Type) -> (r: bool)
    ensures
        r == spec_returns_json(*ty),
{
    match ty {
        Type::String | Type::Void => false,
        _ => true,
    }
}

/// The axum expression of an HTTP status.
pub open spec fn spec_status_code_expr(status: u16) -> Seq<char> {
    if status == 200 {
        "StatusCode::OK"@
    } else if status == 201 {
        "StatusCode::CREATED"@
    } else if status == 202 {
        "StatusCode::ACCEPTED"@
    } else if status == 204 {
        "StatusCode::NO_CONTENT"@
    } else if status == 400 {
        "StatusCode::BAD_REQUEST"@
    } else if status == 401 {
        "StatusCode::UNAUTHORIZED"@
    } else if status == 403 {
        "StatusCode::FORBIDDEN"@
    } else if status == 404 {
        "StatusCode::NOT_FOUND"@
    } else if status == 409 {
        "StatusCode::CONFLICT"@
    } else if status == 422 {
        "StatusCode::UNPROCESSABLE_ENTITY"@
    } else if status == 500 {
        "StatusCode::INTERNAL_SERVER_ERROR"@
    } else {
        "StatusCode::from_u16("@ + dec_nat(status as nat) + ").unwrap()"@
    }
}

/// The code of each named constant of axum's `StatusCode` that generated
/// handlers use; none for any other name.
pub open spec fn axum_status_constant(name: Seq<char>) -> Option<u16> {
    if name == "OK"@ {
        Some(200)
    } else if name == "CREATED"@ {
        Some(201)
    } else if name == "ACCEPTED"@ {
        Some(202)
    } else if name == "NO_CONTENT"@ {
        Some(204)
    } else if name == "BAD_REQUEST"@ {
        Some(400)
    } else if name == "UNAUTHORIZED"@ {
        Some(401)
    } else if name == "FORBIDDEN"@ {
        Some(403)
    } else if name == "NOT_FOUND"@ {
        Some(404)
    } else if name == "CONFLICT"@ {
        Some(409)
    } else if name == "UNPROCESSABLE_ENTITY"@ {
        Some(422)
    } else if name == "INTERNAL_SERVER_ERROR"@ {
        Some(500)
    } else {
        None
    }
}

/// Whether some named constant of that table has this code.
pub open spec fn has_axum_status_constant(status: u16) -> bool {
    exists|c: Seq<char>| axum_status_constant(c) == Some(status)
}

/// A status with a named axum constant is written as that constant, the
/// one whose code it is; any other status is built from its number.
pub proof fn law_status_code_expr_names_its_code(status: u16, c: Seq<char>)
    ensures
        axum_status_constant(c) == Some(status) ==> spec_status_code_expr(status)
            == "StatusCode::"@ + c,
        !has_axum_status_constant(status) ==> spec_status_code_expr(status)
            == "StatusCode::from_u16("@ + dec_nat(status as nat) + ").unwrap()"@,
{
    reveal_strlit("OK");
    reveal_strlit("CREATED");
    reveal_strlit("ACCEPTED");
    reveal_strlit("NO_CONTENT");
    reveal_strlit("BAD_REQUEST");
    reveal_strlit("UNAUTHORIZED");
    reveal_strlit("FORBIDDEN");
    reveal_strlit("NOT_FOUND");
    reveal_strlit("CONFLICT");
    reveal_strlit("UNPROCESSABLE_ENTITY");
    reveal_strlit("INTERNAL_SERVER_ERROR");
    reveal_strlit("StatusCode::");
    reveal_strlit("StatusCode::OK");
    reveal_strlit("StatusCode::CREATED");
    reveal_strlit("StatusCode::ACCEPTED");
    reveal_strlit("StatusCode::NO_CONTENT");
    reveal_strlit("StatusCode::BAD_REQUEST");
    reveal_strlit("StatusCode::UNAUTHORIZED");
    reveal_strlit("StatusCode::FORBIDDEN");
    reveal_strlit("StatusCode::NOT_FOUND");
    reveal_strlit("StatusCode::CONFLICT");
    reveal_strlit("StatusCode::UNPROCESSABLE_ENTITY");
    reveal_strlit("StatusCode::INTERNAL_SERVER_ERROR");
    if axum_status_constant(c) == Some(status) {
        assert(spec_status_code_expr(status) =~= "StatusCode::"@ + c);
    }
    if !has_axum_status_constant(status) {
        assert("OK"@[0] == 'O' && "OK"@.len() == 2);
        assert("CREATED"@[0] == 'C' && "CREATED"@.len() == 7);
        assert("ACCEPTED"@[0] == 'A' && "ACCEPTED"@.len() == 8);
        assert("NO_CONTENT"@[0] == 'N' && "NO_CONTENT"@.len() == 10);
        assert("BAD_REQUEST"@[0] == 'B' && "BAD_REQUEST"@.len() == 11);
        assert("UNAUTHORIZED"@[0] == 'U' && "UNAUTHORIZED"@.len() == 12);
        assert("FORBIDDEN"@[0] == 'F' && "FORBIDDEN"@.len() == 9);
        assert("NOT_FOUND"@[0] == 'N' && "NOT_FOUND"@.len() == 9);
        assert("CONFLICT"@[0] == 'C' && "CONFLICT"@.len() == 8);
        assert("UNPROCESSABLE_ENTITY"@[0] == 'U' && "UNPROCESSABLE_ENTITY"@.len() == 20);
        assert("INTERNAL_SERVER_ERROR"@[0] == 'I' && "INTERNAL_SERVER_ERROR"@.len() == 21);
        assert(axum_status_constant("OK"@) == Some(200u16));
        assert(axum_status_constant("CREATED"@) == Some(201u16));
        assert(axum_status_constant("ACCEPTED"@) == Some(202u16));
        assert(axum_status_constant("NO_CONTENT"@) == Some(204u16));
        assert(axum_status_constant("BAD_REQUEST"@) == Some(400u16));
        assert(axum_status_constant("UNAUTHORIZED"@) == Some(401u16));
        assert(axum_status_constant("FORBIDDEN"@) == Some(403u16));
        assert(axum_status_constant("NOT_FOUND"@) == Some(404u16));
        assert(axum_status_constant("CONFLICT"@) == Some(409u16));
        assert(axum_status_constant("UNPROCESSABLE_ENTITY"@) == Some(422u16));
        assert(axum_status_constant("INTERNAL_SERVER_ERROR"@) == Some(500u16));
    }
}

pub fn status_code_expr(status: u16) -> (r: String)
    ensures
        r@ == spec_status_code_expr(status),
{
    if status == 200 {
        String::from_str("StatusCode::OK")
    } else if status == 201 {
        String::from_str("StatusCode::CREATED")
    } else if status == 202 {
        String::from_str("StatusCode::ACCEPTED")
    } else if status == 204 {
        String::from_str("StatusCode::NO_CONTENT")
    } else if status == 400 {
        String::from_str("StatusCode::BAD_REQUEST")
    } else if status == 401 {
        String::from_str("StatusCode::UNAUTHORIZED")
    } else if status == 403 {
        String::from_str("StatusCode::FORBIDDEN")
    } else if status == 404 {
        String::from_str("StatusCode::NOT_FOUND")
    } else if status == 409 {
        String::from_str("StatusCode::CONFLICT")
    } else if status == 422 {
        String::from_str("StatusCode::UNPROCESSABLE_ENTITY")
    } else if status == 500 {
        String::from_str("StatusCode::INTERNAL_SERVER_ERROR")
    } else {
        let mut s = String::from_str("StatusCode::from_u16(");
        let d = u64_to_string(status as u64);
        s.append(d.as_str());
        s.append(").unwrap()");
        s
    }
}

// ---------------------------------------------------------------------------
// Handler names
// ---------------------------------------------------------------------------

/// The characters of a route path that separate the words of its name.
pub open spec fn is_path_sep(c: char) -> bool {
    c == '/' || c == '-' || c == '_' || c == '{' || c == '}'
}

/// The name built from `start` and the path so far, and whether it ends
/// in a separator: ASCII letters and digits lower-cased, each run of
/// separators one `_`, other characters dropped.
pub open spec fn handler_state(s: Seq<char>, start: Seq<char>) -> (Seq<char>, bool)
    decreases s.len(),
{
    if s.len() == 0 {
        (start, true)
    } else {
        let (o, last) = handler_state(s.drop_last(), start);
        let c = s.last();
        if is_ascii_alnum(c) {
            (o.push(ascii_lower(c)), false)
        } else if is_path_sep(c) && !last {
            (o.push('_'), true)
        } else {
            (o, last)
        }
    }
}

/// `s` without the copies of `c` at its end.
pub open spec fn trim_end_char(s: Seq<char>, c: char) -> Seq<char>
    decreases s.len(),
{
    if s.len() > 0 && s.last() == c {
        trim_end_char(s.drop_last(), c)
    } else {
        s
    }
}

/// `s` without the copies of `c` at its start.
pub open spec fn trim_start_char(s: Seq<char>, c: char) -> Seq<char>
    decreases s.len(),
{
    if s.len() > 0 && s[0] == c {
        trim_start_char(s.drop_first(), c)
    } else {
        s
    }
}

proof fn lemma_trim_end_take(s: Seq<char>, c: char, n: int)
    requires
        0 <= n <= s.len(),
        forall|k: int| n <= k < s.len() ==> s[k] == c,
    ensures
        trim_end_char(s, c) == trim_end_char(s.take(n), c),
    decreases s.len() - n,
{
    if n < s.len() {
        assert(s.drop_last().take(n) =~= s.take(n));
        lemma_trim_end_take(s.drop_last(), c, n);
    } else {
        assert(s.take(n) =~= s);
    }
}

proof fn lemma_trim_start_skip(s: Seq<char>, c: char, n: int)
    requires
        0 <= n <= s.len(),
        forall|k: int| 0 <= k < n ==> s[k] == c,
    ensures
        trim_start_char(s, c) == trim_start_char(s.skip(n), c),
    decreases n,
{
    if n > 0 {
        assert(s.drop_first().skip(n - 1) =~= s.skip(n));
        lemma_trim_start_skip(s.drop_first(), c, n - 1);
    } else {
        assert(s.skip(0) =~= s);
    }
}

/// `chars[from..to]` with the copies of `c` at both ends removed.
pub fn trimmed_range(cs: &Vec<char>, c: char) -> (r: String)
    ensures
        r@ == trim_end_char(trim_start_char(cs@, c), c),
{
    let n = cs.len();
    let mut start: usize = 0;
    while start < n && cs[start] == c
        invariant
            0 <= start <= n == cs@.len(),
            forall|k: int| 0 <= k < start ==> cs@[k] == c,
        decreases n - start,
    {
        start += 1;
    }
    proof {
        lemma_trim_start_skip(cs@, c, start as int);
        assert(trim_start_char(cs@.skip(start as int), c) == cs@.skip(start as int));
    }
    let mut end: usize = n;
    while end > start && cs[end - 1] == c
        invariant
            start <= end <= n == cs@.len(),
            forall|k: int| end <= k < n ==> cs@[k] == c,
        decreases end,
    {
        end -= 1;
    }
    proof {
        let t = cs@.skip(start as int);
        lemma_trim_end_take(t, c, end - start);
        assert(t.take(end - start) =~= cs@.subrange(start as int, end as int));
        let u = cs@.subrange(start as int, end as int);
        assert(trim_end_char(u, c) == u);
    }
    string_of_range(cs, start, end)
}

/// The handler function of a route: method in lower case, `_`, then the
/// words of the path, no `_` at the end.
pub open spec fn spec_rs_handler_name(route: Route) -> Seq<char> {
    trim_end_char(handler_state(route.path@, spec_method_lower(route.method) + "_"@).0, '_')
}

pub fn handler_name(route: &Route) -> (r: String)
    ensures
        r@ == spec_rs_handler_name(*route),
{
    let m = method_lower(&route.method);
    let mut start = String::from_str(m);
    start.append("_");
    let head = chars_of(start.as_str());
    let cs = chars_of(route.path.as_str());
    let mut buf: Vec<char> = head;
    let mut last = true;
    let mut i: usize = 0;
    while i < cs.len()
        invariant
            0 <= i <= cs@.len(),
            cs@ == route.path@,
            (buf@, last) == handler_state(cs@.take(i as int), start@),
        decreases cs@.len() - i,
    {
        proof {
            assert(cs@.take(i + 1).drop_last() =~= cs@.take(i as int));
        }
        let ch = cs[i];
        if char_is_ascii_alnum(ch) {
            buf.push(char_to_ascii_lower(ch));
            last = false;
        } else if (ch == '/' || ch == '-' || ch == '_' || ch == '{' || ch == '}') && !last {
            buf.push('_');
            last = true;
        }
        i += 1;
    }
    proof {
        lemma_take_full(cs@);
    }
    let n = buf.len();
    let mut end: usize = n;
    while end > 0 && buf[end - 1] == '_'
        invariant
            0 <= end <= n == buf@.len(),
            forall|k: int| end <= k < n ==> buf@[k] == '_',
        decreases end,
    {
        end -= 1;
    }
    proof {
        lemma_trim_end_take(buf@, '_', end as int);
        assert(trim_end_char(buf@.take(end as int), '_') == buf@.take(end as int));
        assert(buf@.take(end as int) =~= buf@.subrange(0, end as int));
    }
    string_of_range(&buf, 0, end)
}

// ---------------------------------------------------------------------------
// Identifier styles
// ---------------------------------------------------------------------------

/// `snake_case`: each ASCII capital lower-cased, with `_` before it unless
/// it is the first character.
pub open spec fn spec_to_snake_case(s: Seq<char>) -> Seq<char>
    decreases s.len(),
{
    if s.len() == 0 {
        Seq::empty()
    } else {
        let c = s.last();
        spec_to_snake_case(s.drop_last()) + if is_ascii_upper(c) {
            if s.len() > 1 {
                seq!['_', ascii_lower(c)]
            } else {
                seq![ascii_lower(c)]
            }
        } else {
            seq![c]
        }
    }
}

pub fn to_snake_case(input: &str) -> (r: String)
    ensures
        r@ == spec_to_snake_case(input@),
{
    let cs = chars_of(input);
    let mut out = String::new();
    let mut i: usize = 0;
    while i < cs.len()
        invariant
            0 <= i <= cs@.len(),
            cs@ == input@,
            out@ == spec_to_snake_case(cs@.take(i as int)),
        decreases cs@.len() - i,
    {
        proof {
            assert(cs@.take(i + 1).drop_last() =~= cs@.take(i as int));
        }
        let ch = cs[i];
        if char_is_ascii_upper(ch) {
            if i != 0 {
                push_char(&mut out, '_');
            }
            push_char(&mut out, char_to_ascii_lower(ch));
        } else {
            push_char(&mut out, ch);
        }
        i += 1;
        assert(out@ =~= spec_to_snake_case(cs@.take(i as int)));
    }
    proof {
        lemma_take_full(cs@);
    }
    out
}

/// `kebab-case` before trimming: ASCII letters and digits lower-cased, a
/// `-` before each capital that is not first, one `-` for a run of `_`,
/// `-` and spaces, other characters dropped.
pub open spec fn kebab_raw(s: Seq<char>) -> Seq<char>
    decreases s.len(),
{
    if s.len() == 0 {
        Seq::empty()
    } else {
        let p = kebab_raw(s.drop_last());
        let c = s.last();
        if is_ascii_alnum(c) {
            if is_ascii_upper(c) && s.len() > 1 {
                p + seq!['-', ascii_lower(c)]
            } else {
                p.push(ascii_lower(c))
            }
        } else if (c == '_' || c == '-' || c == ' ') && !(p.len() > 0 && p.last() == '-') {
            p.push('-')
        } else {
            p
        }
    }
}

/// The crate name of a service: its name in kebab case without `-` at the
/// ends, or `service-api` when nothing is kept.
pub open spec fn spec_to_kebab_case(s: Seq<char>) -> Seq<char> {
    let raw = kebab_raw(s);
    if raw.len() == 0 {
        "service-api"@
    } else {
        trim_end_char(trim_start_char(raw, '-'), '-')
    }
}

pub fn to_kebab_case(input: &str) -> (r: String)
    ensures
        r@ == spec_to_kebab_case(input@),
{
    let cs = chars_of(input);
    let mut out: Vec<char> = Vec::new();
    let mut i: usize = 0;
    while i < cs.len()
        invariant
            0 <= i <= cs@.len(),
            cs@ == input@,
            out@ == kebab_raw(cs@.take(i as int)),
        decreases cs@.len() - i,
    {
        proof {
            assert(cs@.take(i + 1).drop_last() =~= cs@.take(i as int));
        }
        let ch = cs[i];
        if char_is_ascii_alnum(ch) {
            if char_is_ascii_upper(ch) {
                if i != 0 {
                    out.push('-');
                }
                out.push(char_to_ascii_lower(ch));
            } else {
                out.push(char_to_ascii_lower(ch));
            }
        } else if ch == '_' || ch == '-' || ch == ' ' {
            if !(out.len() > 0 && out[out.len() - 1] == '-') {
                out.push('-');
            }
        }
        i += 1;
        assert(out@ =~= kebab_raw(cs@.take(i as int)));
    }
    proof {
        lemma_take_full(cs@);
    }
    if out.len() == 0 {
        return String::from_str("service-api");
    }
    trimmed_range(&out, '-')
}


// ---------------------------------------------------------------------------
// Paths
// ---------------------------------------------------------------------------

/// The number of characters before the first `}` (all of them if none).
pub open spec fn closing_index(s: Seq<char>) -> int
    decreases s.len(),
{
    if s.len() == 0 || s[0] == '}' {
        0
    } else {
        1 + closing_index(s.drop_first())
    }
}

pub proof fn lemma_closing_index_bounds(s: Seq<char>)
    ensures
        0 <= closing_index(s) <= s.len(),
    decreases s.len(),
{
    if s.len() > 0 && s[0] != '}' {
        lemma_closing_index_bounds(s.drop_first());
    }
}

proof fn lemma_closing_index(s: Seq<char>, m: int)
    requires
        0 <= m <= s.len(),
        forall|k: int| 0 <= k < m ==> s[k] != '}',
        m == s.len() || s[m] == '}',
    ensures
        closing_index(s) == m,
    decreases m,
{
    if m > 0 {
        lemma_closing_index(s.drop_first(), m - 1);
    }
}

/// An axum route path: each `{name}` written `:name`, an empty `{}` kept.
pub open spec fn spec_axum_path(s: Seq<char>) -> Seq<char>
    decreases s.len(),
{
    if s.len() == 0 {
        Seq::empty()
    } else if s[0] == '{' {
        let rest = s.drop_first();
        let k = closing_index(rest);
        proof {
            lemma_closing_index_bounds(rest);
        }
        let name = rest.take(k);
        let after = if k < rest.len() {
            rest.skip(k + 1)
        } else {
            Seq::empty()
        };
        (if name.len() == 0 {
            "{}"@
        } else {
            ":"@ + name
        }) + spec_axum_path(after)
    } else {
        seq![s[0]] + spec_axum_path(s.drop_first())
    }
}

pub fn axum_path(raw: &str) -> (r: String)
    ensures
        r@ == spec_axum_path(raw@),
{
    let cs = chars_of(raw);
    let n = cs.len();
    let mut out = String::new();
    let mut i: usize = 0;
    assert(cs@.skip(0) =~= cs@);
    assert(out@ + spec_axum_path(cs@) =~= spec_axum_path(cs@));
    while i < n
        invariant
            0 <= i <= n == cs@.len(),
            cs@ == raw@,
            out@ + spec_axum_path(cs@.skip(i as int)) == spec_axum_path(cs@),
        decreases n - i,
    {
        let ghost s = cs@.skip(i as int);
        if cs[i] == '{' {
            let mut j: usize = i + 1;
            while j < n && cs[j] != '}'
                invariant
                    i + 1 <= j <= n == cs@.len(),
                    forall|k: int| i + 1 <= k < j ==> cs@[k] != '}',
                decreases n - j,
            {
                j += 1;
            }
            let name = string_of_range(&cs, i + 1, j);
            proof {
                let rest = s.drop_first();
                assert(rest =~= cs@.skip(i + 1));
                lemma_closing_index(rest, j - (i + 1));
                assert(rest.take(j - (i + 1)) =~= name@);
                if j < n {
                    assert(rest.skip(j - (i + 1) + 1) =~= cs@.skip(j + 1));
                } else {
                    assert(cs@.skip(n as int) =~= Seq::<char>::empty());
                }
            }
            let ghost before = out@;
            if name.as_str().is_empty() {
                out.append("{}");
            } else {
                out.append(":");
                out.append(name.as_str());
            }
            i = if j < n {
                j + 1
            } else {
                n
            };
            assert(out@ + spec_axum_path(cs@.skip(i as int)) == spec_axum_path(cs@)) by {
                assert(before + spec_axum_path(s) == spec_axum_path(cs@));
            }
        } else {
            let ghost before = out@;
            push_char(&mut out, cs[i]);
            i += 1;
            proof {
                assert(s.drop_first() =~= cs@.skip(i as int));
                assert(out@ + spec_axum_path(cs@.skip(i as int)) =~= before + spec_axum_path(s));
            }
        }
    }
    proof {
        assert(cs@.skip(n as int) =~= Seq::<char>::empty());
        assert(cs@.skip(0) =~= cs@);
    }
    out
}

// ---------------------------------------------------------------------------
// What a service needs
// ---------------------------------------------------------------------------

/// The HTTP methods in the order of their lower-case names.
pub open spec fn sorted_methods() -> Seq<HttpMethod> {
    seq![
        HttpMethod::Delete,
        HttpMethod::Get,
        HttpMethod::Head,
        HttpMethod::Options,
        HttpMethod::Patch,
        HttpMethod::Post,
        HttpMethod::Put,
    ]
}

pub open spec fn method_present(service: Service, m: HttpMethod) -> bool {
    exists|i: int|
        0 <= i < service.http.routes@.len() && (#[trigger] service.http.routes@[i]).method == m
}

/// The names of the first `k` methods (in name order) that some route uses.
pub open spec fn used_method_names(service: Service, k: nat) -> Seq<Seq<char>>
    decreases k,
{
    if k == 0 {
        Seq::empty()
    } else {
        let p = used_method_names(service, (k - 1) as nat);
        let m = sorted_methods()[k - 1];
        if method_present(service, m) {
            p.push(spec_method_lower(m))
        } else {
            p
        }
    }
}

/// The routing functions to import: every method used, in name order
/// and without repetition, or `get` alone when there is no route.
pub open spec fn spec_render_method_imports(service: Service) -> Seq<char> {
    let names = used_method_names(service, 7);
    if names.len() == 0 {
        "get"@
    } else {
        seq_join(names, ", "@)
    }
}

fn same_method(a: &HttpMethod, b: &HttpMethod) -> (r: bool)
    ensures
        r == (*a == *b),
{
    match (a, b) {
        (HttpMethod::Get, HttpMethod::Get) => true,
        (HttpMethod::Post, HttpMethod::Post) => true,
        (HttpMethod::Put, HttpMethod::Put) => true,
        (HttpMethod::Patch, HttpMethod::Patch) => true,
        (HttpMethod::Delete, HttpMethod::Delete) => true,
        (HttpMethod::Options, HttpMethod::Options) => true,
        (HttpMethod::Head, HttpMethod::Head) => true,
        _ => false,
    }
}

fn has_method(service: &Service, m: &HttpMethod) -> (r: bool)
    ensures
        r == method_present(*service, *m),
{
    let routes = &service.http.routes;
    let mut i: usize = 0;
    while i < routes.len()
        invariant
            0 <= i <= routes@.len(),
            routes@ == service.http.routes@,
            forall|j: int| 0 <= j < i ==> (#[trigger] routes@[j]).method != *m,
        decreases routes@.len() - i,
    {
        if same_method(&routes[i].method, m) {
            return true;
        }
        i += 1;
    }
    false
}

pub fn render_method_imports(service: &Service) -> (r: String)
    ensures
        r@ == spec_render_method_imports(*service),
{
    let order: Vec<HttpMethod> = vec![
        HttpMethod::Delete,
        HttpMethod::Get,
        HttpMethod::Head,
        HttpMethod::Options,
        HttpMethod::Patch,
        HttpMethod::Post,
        HttpMethod::Put,
    ];
    assert(order@ =~= sorted_methods());
    let mut out = String::new();
    let mut count: usize = 0;
    let mut k: usize = 0;
    while k < 7
        invariant
            0 <= k <= 7,
            order@ == sorted_methods(),
            count == used_method_names(*service, k as nat).len(),
            count <= k,
            out@ == seq_join(used_method_names(*service, k as nat), ", "@),
        decreases 7 - k,
    {
        let m = order[k];
        let ghost prev = used_method_names(*service, k as nat);
        if has_method(service, &m) {
            let name = method_lower(&m);
            assert(used_method_names(*service, (k + 1) as nat).drop_last() =~= prev);
            if count > 0 {
                out.append(", ");
            }
            out.append(name);
            count += 1;
        }
        k += 1;
    }
    if count == 0 {
        return String::from_str("get");
    }
    out
}

pub open spec fn field_uses_named(f: Field) -> bool {
    spec_uses_named_type(f.ty)
}

pub open spec fn fields_use_named(fs: Seq<Field>) -> bool {
    exists|i: int| 0 <= i < fs.len() && field_uses_named(#[trigger] fs[i])
}

pub open spec fn route_uses_named(r: Route) -> bool {
    fields_use_named(r.input.path@) || fields_use_named(r.input.query@) || fields_use_named(
        r.input.body@,
    ) || fields_use_named(r.headers@)
}

/// Whether `main.rs` must import the schema types: some route input
/// names one.
pub open spec fn spec_needs_types_import(service: Service) -> bool {
    exists|i: int|
        0 <= i < service.http.routes@.len() && route_uses_named(#[trigger] service.http.routes@[i])
}

fn any_named(fs: &Vec<Field>) -> (r: bool)
    ensures
        r == fields_use_named(fs@),
{
    let mut i: usize = 0;
    while i < fs.len()
        invariant
            0 <= i <= fs@.len(),
            forall|j: int| 0 <= j < i ==> !field_uses_named(#[trigger] fs@[j]),
        decreases fs@.len() - i,
    {
        if uses_named_type(&fs[i].ty) {
            assert(field_uses_named(fs@[i as int]));
            return true;
        }
        i += 1;
    }
    false
}

pub fn needs_types_import(service: &Service) -> (r: bool)
    ensures
        r == spec_needs_types_import(*service),
{
    let routes = &service.http.routes;
    let mut i: usize = 0;
    while i < routes.len()
        invariant
            0 <= i <= routes@.len(),
            routes@ == service.http.routes@,
            forall|j: int| 0 <= j < i ==> !route_uses_named(#[trigger] routes@[j]),
        decreases routes@.len() - i,
    {
        let r = &routes[i];
        if any_named(&r.input.path) || any_named(&r.input.query) || any_named(&r.input.body)
            || any_named(&r.headers) {
            assert(route_uses_named(routes@[i as int]));
            return true;
        }
        i += 1;
    }
    false
}

/// Whether some route input is checked against a regex or a format.
pub open spec fn spec_needs_regex(service: Service) -> bool {
    exists|i: int|
        0 <= i < service.http.routes@.len() && spec_route_any(
            FieldTest::HasRegex,
            #[trigger] service.http.routes@[i],
        )
}

pub fn needs_regex(service: &Service) -> (r: bool)
    ensures
        r == spec_needs_regex(*service),
{
    let routes = &service.http.routes;
    let mut i: usize = 0;
    while i < routes.len()
        invariant
            0 <= i <= routes@.len(),
            routes@ == service.http.routes@,
            forall|j: int| 0 <= j < i ==> !spec_route_any(FieldTest::HasRegex, #[trigger] routes@[j]),
        decreases routes@.len() - i,
    {
        if route_has_regex(&routes[i]) {
            return true;
        }
        i += 1;
    }
    false
}


// ---------------------------------------------------------------------------
// Cargo.toml
// ---------------------------------------------------------------------------

/// Where the first `::` of `s` starts (its length when there is none).
pub open spec fn sep_index(s: Seq<char>) -> int
    decreases s.len(),
{
    if s.len() < 2 {
        s.len() as int
    } else if s[0] == ':' && s[1] == ':' {
        0
    } else {
        1 + sep_index(s.drop_first())
    }
}

/// Position `k` of `s` does not start a `::`, and is not the last one.
pub open spec fn no_dcolon_at(s: Seq<char>, k: int) -> bool {
    k + 1 < s.len() && !(s[k] == ':' && s[k + 1] == ':')
}

proof fn lemma_sep_index(s: Seq<char>, m: int)
    requires
        0 <= m,
        forall|k: int| 0 <= k < m ==> #[trigger] no_dcolon_at(s, k),
        m + 1 >= s.len() || (s[m] == ':' && s[m + 1] == ':'),
    ensures
        m + 1 < s.len() ==> sep_index(s) == m,
        m + 1 >= s.len() ==> sep_index(s) == s.len(),
    decreases m,
{
    if m > 0 {
        assert(no_dcolon_at(s, 0));
        let t = s.drop_first();
        assert forall|k: int| 0 <= k < m - 1 implies #[trigger] no_dcolon_at(t, k) by {
            assert(no_dcolon_at(s, k + 1));
        }
        lemma_sep_index(t, m - 1);
    }
}

/// The crate a module path names: the part before its first `::`.
pub open spec fn crate_of(s: Seq<char>) -> Seq<char> {
    s.take(sep_index(s))
}

pub fn crate_of_path(s: &str) -> (r: String)
    ensures
        r@ == crate_of(s@),
{
    let cs = chars_of(s);
    let n = cs.len();
    let mut i: usize = 0;
    while i + 1 < n && !(cs[i] == ':' && cs[i + 1] == ':')
        invariant
            0 <= i,
            n == cs@.len(),
            i < n || i == 0,
            forall|k: int| 0 <= k < i ==> #[trigger] no_dcolon_at(cs@, k),
        decreases n - i,
    {
        i += 1;
    }
    proof {
        lemma_sep_index(cs@, i as int);
    }
    if i + 1 < n {
        assert(cs@.take(i as int) =~= cs@.subrange(0, i as int));
        string_of_range(&cs, 0, i)
    } else {
        assert(cs@.take(n as int) =~= cs@.subrange(0, n as int));
        string_of_range(&cs, 0, n)
    }
}

pub open spec fn has_dep(deps: Seq<(Seq<char>, Seq<char>)>, name: Seq<char>) -> bool {
    exists|i: int| 0 <= i < deps.len() && (#[trigger] deps[i]).0 == name
}

/// The version of a module as a TOML string, `"*"` when none is given.
pub open spec fn quoted_version(m: ModuleUse) -> Seq<char> {
    "\""@ + match m.version {
        Some(v) => v@,
        None => "*"@,
    } + "\""@
}

/// The crates of the modules without a path, added after `deps`; a crate
/// already listed is not added again.
pub open spec fn module_deps(deps: Seq<(Seq<char>, Seq<char>)>, mods: Seq<ModuleUse>) -> Seq<
    (Seq<char>, Seq<char>),
>
    decreases mods.len(),
{
    if mods.len() == 0 {
        deps
    } else {
        let p = module_deps(deps, mods.drop_last());
        let m = mods.last();
        if m.path is None && !has_dep(p, crate_of(m.name@)) {
            p.push((crate_of(m.name@), quoted_version(m)))
        } else {
            p
        }
    }
}

/// The dependencies every generated server has, then those its features
/// need.
pub open spec fn base_deps(service: Service) -> Seq<(Seq<char>, Seq<char>)> {
    let axum = if service.sockets.sockets@.len() == 0 {
        "\"0.7\""@
    } else {
        "{ version = \"0.7\", features = [\"ws\"] }"@
    };
    let d0 = seq![
        ("axum"@, axum),
        ("tokio"@, "{ version = \"1\", features = [\"full\"] }"@),
        ("serde"@, "{ version = \"1\", features = [\"derive\"] }"@),
        ("serde_json"@, "\"1.0\""@),
    ];
    let d1 = if spec_needs_remote_calls(service) {
        d0.push(("reqwest"@, "{ version = \"0.11\", features = [\"json\"] }"@))
    } else {
        d0
    };
    let d2 = if service.events.definitions@.len() > 0 {
        let a = d1.push(("once_cell"@, "\"1.19\""@));
        if service.events.config is Some {
            a.push(("redis"@, "{ version = \"0.25\", features = [\"tokio-comp\"] }"@))
        } else {
            a
        }
    } else {
        d1
    };
    let d3 = if spec_needs_regex(service) {
        d2.push(("regex"@, "\"1.10\""@))
    } else {
        d2
    };
    let d4 = if service.common.cors is Some {
        d3.push(("tower-http"@, "{ version = \"0.5\", features = [\"cors\"] }"@))
    } else {
        d3
    };
    if service.sockets.sockets@.len() > 0 {
        d4.push(("futures-util"@, "{ version = \"0.3\", features = [\"sink\"] }"@))
    } else {
        d4
    }
}

pub open spec fn spec_cargo_deps(service: Service) -> Seq<(Seq<char>, Seq<char>)> {
    module_deps(base_deps(service), service.common.modules@)
}

pub open spec fn dep_line(e: (Seq<char>, Seq<char>)) -> Seq<char> {
    e.0 + " = "@ + e.1 + "\n"@
}

/// `Cargo.toml` of the generated crate.
pub open spec fn spec_build_cargo_toml(service: Service, crate_name: Seq<char>) -> Seq<char> {
    "[package]\nname = \""@ + crate_name + "\"\nversion = \"0.1.0\"\nedition = \"2021\"\n\n[dependencies]\n"@
        + concat_all(spec_cargo_deps(service), |e: (Seq<char>, Seq<char>)| dep_line(e))
}

fn push_dep(deps: &mut Vec<(String, String)>, name: &str, value: &str)
    ensures
        pair_views(final(deps)@) == pair_views(old(deps)@).push((name@, value@)),
{
    let e = (String::from_str(name), String::from_str(value));
    proof {
        lemma_pair_views_push(deps@, e);
    }
    deps.push(e);
}

fn contains_dep(deps: &Vec<(String, String)>, name: &str) -> (r: bool)
    ensures
        r == has_dep(pair_views(deps@), name@),
{
    let ghost pv = pair_views(deps@);
    let mut i: usize = 0;
    while i < deps.len()
        invariant
            0 <= i <= deps@.len(),
            pv == pair_views(deps@),
            forall|j: int| 0 <= j < i ==> (#[trigger] pv[j]).0 != name@,
        decreases deps@.len() - i,
    {
        if str_eq(deps[i].0.as_str(), name) {
            assert(pv[i as int].0 == name@);
            return true;
        }
        i += 1;
    }
    false
}

pub fn build_cargo_toml(service: &Service, crate_name: &str) -> (r: String)
    ensures
        r@ == spec_build_cargo_toml(*service, crate_name@),
{
    let mut deps: Vec<(String, String)> = Vec::new();
    if service.sockets.sockets.len() == 0 {
        push_dep(&mut deps, "axum", "\"0.7\"");
    } else {
        push_dep(&mut deps, "axum", "{ version = \"0.7\", features = [\"ws\"] }");
    }
    push_dep(&mut deps, "tokio", "{ version = \"1\", features = [\"full\"] }");
    push_dep(&mut deps, "serde", "{ version = \"1\", features = [\"derive\"] }");
    push_dep(&mut deps, "serde_json", "\"1.0\"");
    if needs_remote_calls(service) {
        push_dep(&mut deps, "reqwest", "{ version = \"0.11\", features = [\"json\"] }");
    }
    if service.events.definitions.len() > 0 {
        push_dep(&mut deps, "once_cell", "\"1.19\"");
        if service.events.config.is_some() {
            push_dep(&mut deps, "redis", "{ version = \"0.25\", features = [\"tokio-comp\"] }");
        }
    }
    if needs_regex(service) {
        push_dep(&mut deps, "regex", "\"1.10\"");
    }
    if service.common.cors.is_some() {
        push_dep(&mut deps, "tower-http", "{ version = \"0.5\", features = [\"cors\"] }");
    }
    if service.sockets.sockets.len() > 0 {
        push_dep(&mut deps, "futures-util", "{ version = \"0.3\", features = [\"sink\"] }");
    }
    assert(pair_views(deps@) =~= base_deps(*service));
    let ghost base = pair_views(deps@);
    let mods = &service.common.modules;
    let mut i: usize = 0;
    while i < mods.len()
        invariant
            0 <= i <= mods@.len(),
            mods@ == service.common.modules@,
            pair_views(deps@) == module_deps(base, mods@.take(i as int)),
        decreases mods@.len() - i,
    {
        proof {
            assert(mods@.take(i + 1).drop_last() =~= mods@.take(i as int));
        }
        let m = &mods[i];
        if m.path.is_none() {
            let c = crate_of_path(m.name.as_str());
            if !contains_dep(&deps, c.as_str()) {
                let mut value = String::from_str("\"");
                match &m.version {
                    Some(v) => value.append(v.as_str()),
                    None => value.append("*"),
                }
                value.append("\"");
                let e = (c, value);
                proof {
                    lemma_pair_views_push(deps@, e);
                }
                deps.push(e);
            }
        }
        i += 1;
    }
    proof {
        lemma_take_full(mods@);
    }
    let ghost all = pair_views(deps@);
    let mut lines = String::new();
    let mut k: usize = 0;
    while k < deps.len()
        invariant
            0 <= k <= deps@.len(),
            all == pair_views(deps@),
            lines@ == concat_all(all.take(k as int), |e: (Seq<char>, Seq<char>)| dep_line(e)),
        decreases deps@.len() - k,
    {
        proof {
            lemma_concat_all_step(all, k as int, |e: (Seq<char>, Seq<char>)| dep_line(e));
        }
        lines.append(deps[k].0.as_str());
        lines.append(" = ");
        lines.append(deps[k].1.as_str());
        lines.append("\n");
        k += 1;
    }
    proof {
        lemma_take_full(all);
    }
    let mut out = String::from_str("[package]\nname = \"");
    out.append(crate_name);
    out.append("\"\nversion = \"0.1.0\"\nedition = \"2021\"\n\n[dependencies]\n");
    out.append(lines.as_str());
    out
}

} // verus!
