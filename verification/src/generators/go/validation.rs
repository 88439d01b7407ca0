//! Request validation in the Go server: the checks a handler runs on its
//! decoded input before it calls the module function.

use vstd::prelude::*;

use crate::generators::common::validation::{
    field_needs_validation, route_has_union_validation, route_has_validation,
    spec_field_needs_validation, spec_route_any, FieldTest,
};
use crate::generators::go::util::{go_field_name, spec_go_field_name};
use crate::ir::{Field, Route, Service, Type, Validation};
use crate::text::{
    concat_all, debug_quoted, debug_str, dec_int, i64_to_string, lemma_concat_all_step,
    lemma_take_full, spaces, spaces_string, str_eq,
};

verus! {

// ---------------------------------------------------------------------------
// Runtime type tests
// ---------------------------------------------------------------------------

/// The Go helpers `isString`, `isInt`, ... that union checks call.
pub open spec fn go_type_test_helpers() -> Seq<char> {
    "\nfunc isString(v any) bool {\n    _, ok := v.(string)\n    return ok\n}\n\nfunc isBool(v any) bool {\n    _, ok := v.(bool)\n    return ok\n}\n\nfunc isNumber(v any) bool {\n    switch v.(type) {\n    case int, int64, float32, float64:\n        return true\n    default:\n        return false\n    }\n}\n\nfunc isInt(v any) bool {\n    switch t := v.(type) {\n    case int, int64:\n        return true\n    case float64:\n        return math.Trunc(t) == t\n    default:\n        return false\n    }\n}\n\nfunc isArray(v any) bool {\n    _, ok := v.([]any)\n    return ok\n}\n\nfunc isMap(v any) bool {\n    _, ok := v.(map[string]any)\n    return ok\n}\n\n"@
}

pub open spec fn spec_any_union_route(routes: Seq<Route>) -> bool {
    exists|i: int|
        0 <= i < routes.len() && spec_route_any(FieldTest::NeedsUnionCheck, #[trigger] routes[i])
}

pub open spec fn spec_render_validation_helpers(service: Service) -> Seq<char> {
    if spec_any_union_route(service.http.routes@) {
        go_type_test_helpers()
    } else {
        Seq::empty()
    }
}

/// The type-test helpers, emitted only when some route checks a union.
pub fn render_validation_helpers(service: &Service) -> (r: String)
    ensures
        r@ == spec_render_validation_helpers(*service),
{
    let routes = &service.http.routes;
    let mut i: usize = 0;
    while i < routes.len()
        invariant
            0 <= i <= routes@.len(),
            routes@ == service.http.routes@,
            forall|j: int|
                0 <= j < i ==> !spec_route_any(FieldTest::NeedsUnionCheck, #[trigger] routes@[j]),
        decreases routes@.len() - i,
    {
        if route_has_union_validation(&routes[i]) {
            assert(spec_route_any(FieldTest::NeedsUnionCheck, routes@[i as int]));
            let r = String::from_str("\nfunc isString(v any) bool {\n    _, ok := v.(string)\n    return ok\n}\n\nfunc isBool(v any) bool {\n    _, ok := v.(bool)\n    return ok\n}\n\nfunc isNumber(v any) bool {\n    switch v.(type) {\n    case int, int64, float32, float64:\n        return true\n    default:\n        return false\n    }\n}\n\nfunc isInt(v any) bool {\n    switch t := v.(type) {\n    case int, int64:\n        return true\n    case float64:\n        return math.Trunc(t) == t\n    default:\n        return false\n    }\n}\n\nfunc isArray(v any) bool {\n    _, ok := v.([]any)\n    return ok\n}\n\nfunc isMap(v any) bool {\n    _, ok := v.(map[string]any)\n    return ok\n}\n\n");
            return r;
        }
        i += 1;
    }
    String::new()
}

/// Go boolean expression testing that `v` holds a value of type `ty`.
pub open spec fn spec_go_type_match(ty: Type, v: Seq<char>) -> Seq<char>
    decreases ty, 0nat,
{
    match ty {
        Type::String => "isString("@ + v + ")"@,
        Type::Int => "isInt("@ + v + ")"@,
        Type::Float => "isNumber("@ + v + ")"@,
        Type::Bool => "isBool("@ + v + ")"@,
        Type::Array(_) => "isArray("@ + v + ")"@,
        Type::MapOf(_) => "isMap("@ + v + ")"@,
        Type::Object(_) => "isMap("@ + v + ")"@,
        Type::Named(_) => "isMap("@ + v + ")"@,
        Type::Any => "true"@,
        Type::Void => v + " == nil"@,
        Type::Nullable(inner) => v + " == nil || "@ + spec_go_type_match(*inner, v),
        Type::Union(items) => "("@ + spec_go_or_list(items@, items@.len(), v) + ")"@,
        Type::OneOf(items) => "func() bool {\n    count := 0"@ + spec_go_count_lines(
            items@,
            items@.len(),
            v,
        ) + "\n    return count == 1\n}()"@,
    }
}

/// The tests of the first `n` types, joined by ` || `.
pub open spec fn spec_go_or_list(items: Seq<Type>, n: nat, v: Seq<char>) -> Seq<char>
    decreases items, n,
{
    if n == 0 || n > items.len() {
        Seq::empty()
    } else if n == 1 {
        spec_go_type_match(items[0], v)
    } else {
        spec_go_or_list(items, (n - 1) as nat, v) + " || "@ + spec_go_type_match(items[n - 1], v)
    }
}

/// One counting line per type, for the first `n` types.
pub open spec fn spec_go_count_lines(items: Seq<Type>, n: nat, v: Seq<char>) -> Seq<char>
    decreases items, n,
{
    if n == 0 || n > items.len() {
        Seq::empty()
    } else {
        spec_go_count_lines(items, (n - 1) as nat, v) + "\n    if "@ + spec_go_type_match(
            items[n - 1],
            v,
        ) + " { count++ }"@
    }
}

/// A union test (any alternative matches) or a one-of test (exactly one
/// alternative matches, counted in a closure).
pub open spec fn spec_go_match_expr(items: Seq<Type>, oneof: bool, v: Seq<char>) -> Seq<char> {
    if oneof {
        "func() bool {\n    count := 0"@ + spec_go_count_lines(items, items.len(), v)
            + "\n    return count == 1\n}()"@
    } else {
        "("@ + spec_go_or_list(items, items.len(), v) + ")"@
    }
}

pub fn render_go_type_match_expr(ty: &Type, v: &str) -> (r: String)
    ensures
        r@ == spec_go_type_match(*ty, v@),
    decreases ty, 0nat,
{
    match ty {
        Type::String => {
            let mut s = String::from_str("isString(");
            s.append(v);
            s.append(")");
            s
        },
        Type::Int => {
            let mut s = String::from_str("isInt(");
            s.append(v);
            s.append(")");
            s
        },
        Type::Float => {
            let mut s = String::from_str("isNumber(");
            s.append(v);
            s.append(")");
            s
        },
        Type::Bool => {
            let mut s = String::from_str("isBool(");
            s.append(v);
            s.append(")");
            s
        },
        Type::Array(_) => {
            let mut s = String::from_str("isArray(");
            s.append(v);
            s.append(")");
            s
        },
        Type::MapOf(_) | Type::Object(_) | Type::Named(_) => {
            let mut s = String::from_str("isMap(");
            s.append(v);
            s.append(")");
            s
        },
        Type::Any => String::from_str("true"),
        Type::Void => {
            let mut s = String::from_str(v);
            s.append(" == nil");
            s
        },
        Type::Nullable(inner) => {
            let mut s = String::from_str(v);
            s.append(" == nil || ");
            let x = render_go_type_match_expr(inner, v);
            s.append(x.as_str());
            s
        },
        Type::Union(items) => render_go_match_expr(items, false, v),
        Type::OneOf(items) => render_go_match_expr(items, true, v),
    }
}

pub fn render_go_match_expr(items: &Vec<Type>, oneof: bool, v: &str) -> (r: String)
    ensures
        r@ == spec_go_match_expr(items@, oneof, v@),
    decreases items, 1nat,
{
    if oneof {
        let mut s = String::from_str("func() bool {\n    count := 0");
        let ghost head = s@;
        let mut i: usize = 0;
        while i < items.len()
            invariant
                0 <= i <= items@.len(),
                s@ == head + spec_go_count_lines(items@, i as nat, v@),
            decreases items@.len() - i,
        {
            assert(decreases_to!(items => items@[i as int]));
            let e = render_go_type_match_expr(&items[i], v);
            s.append("\n    if ");
            s.append(e.as_str());
            s.append(" { count++ }");
            i += 1;
            assert(s@ =~= head + spec_go_count_lines(items@, i as nat, v@));
        }
        s.append("\n    return count == 1\n}()");
        s
    } else {
        let mut body = String::new();
        let mut i: usize = 0;
        while i < items.len()
            invariant
                0 <= i <= items@.len(),
                body@ == spec_go_or_list(items@, i as nat, v@),
            decreases items@.len() - i,
        {
            assert(decreases_to!(items => items@[i as int]));
            let e = render_go_type_match_expr(&items[i], v);
            if i > 0 {
                body.append(" || ");
            }
            body.append(e.as_str());
            i += 1;
            assert(body@ =~= spec_go_or_list(items@, i as nat, v@));
        }
        let mut s = String::from_str("(");
        s.append(body.as_str());
        s.append(")");
        s
    }
}

// ---------------------------------------------------------------------------
// Checks on one value
// ---------------------------------------------------------------------------

/// Whether values of `ty` hold something that must be checked element by
/// element: a union, a one-of or a nullable, possibly inside arrays and maps.
pub open spec fn spec_type_needs_deep_check(ty: Type) -> bool
    decreases ty,
{
    match ty {
        Type::Union(_) | Type::OneOf(_) | Type::Nullable(_) => true,
        Type::Array(inner) => spec_type_needs_deep_check(*inner),
        Type::MapOf(inner) => spec_type_needs_deep_check(*inner),
        _ => false,
    }
}

pub fn type_needs_deep_check(ty: &Type) -> (r: bool)
    ensures
        r == spec_type_needs_deep_check(*ty),
    decreases ty,
{
    match ty {
        Type::Union(_) | Type::OneOf(_) | Type::Nullable(_) => true,
        Type::Array(inner) => type_needs_deep_check(inner),
        Type::MapOf(inner) => type_needs_deep_check(inner),
        _ => false,
    }
}

/// `if <cond> {` answering 400 `invalid <name>` and returning.
pub open spec fn go_guard(pad: Seq<char>, cond: Seq<char>, name: Seq<char>) -> Seq<char> {
    pad + "if "@ + cond + " {\n"@ + pad + "    http.Error(w, \"invalid "@ + name
        + "\", http.StatusBadRequest)\n"@ + pad + "    return\n"@ + pad + "}\n"@
}

fn push_guard(out: &mut String, pad: &str, cond: &str, name: &str)
    ensures
        final(out)@ == old(out)@ + go_guard(pad@, cond@, name@),
{
    let mut g = String::from_str(pad);
    g.append("if ");
    g.append(cond);
    g.append(" {\n");
    g.append(pad);
    g.append("    http.Error(w, \"invalid ");
    g.append(name);
    g.append("\", http.StatusBadRequest)\n");
    g.append(pad);
    g.append("    return\n");
    g.append(pad);
    g.append("}\n");
    out.append(g.as_str());
}

/// The first bound when it is set, else the second.
pub open spec fn opt_or(a: Option<i64>, b: Option<i64>) -> Option<i64> {
    if a is Some {
        a
    } else {
        b
    }
}

fn opt_or_exec(a: Option<i64>, b: Option<i64>) -> (r: Option<i64>)
    ensures
        r == opt_or(a, b),
{
    if a.is_some() {
        a
    } else {
        b
    }
}

/// A guard on `<prefix><bound><suffix>` when the bound is set.
pub open spec fn go_bound_guard(
    bound: Option<i64>,
    pad: Seq<char>,
    prefix: Seq<char>,
    suffix: Seq<char>,
    name: Seq<char>,
) -> Seq<char> {
    match bound {
        Some(b) => go_guard(pad, prefix + dec_int(b as int) + suffix, name),
        None => Seq::empty(),
    }
}

fn push_bound_guard(
    out: &mut String,
    bound: Option<i64>,
    pad: &str,
    prefix: &str,
    suffix: &str,
    name: &str,
)
    ensures
        final(out)@ == old(out)@ + go_bound_guard(bound, pad@, prefix@, suffix@, name@),
{
    match bound {
        Some(b) => {
            let mut c = String::from_str(prefix);
            let n = i64_to_string(b);
            c.append(n.as_str());
            c.append(suffix);
            push_guard(out, pad, c.as_str(), name);
        },
        None => {
            assert(out@ + Seq::<char>::empty() =~= out@);
        },
    }
}

pub open spec fn go_len_lt(v: Seq<char>) -> Seq<char> {
    "len("@ + v + ") < "@
}

pub open spec fn go_len_gt(v: Seq<char>) -> Seq<char> {
    "len("@ + v + ") > "@
}

pub open spec fn go_regex_cond(q: Seq<char>, v: Seq<char>) -> Seq<char> {
    "ok, _ := regexp.MatchString("@ + q + ", "@ + v + "); !ok"@
}

/// Checks on the length bounds of an array or a map.
pub open spec fn go_items_bounds(v: Validation, value: Seq<char>, name: Seq<char>, pad: Seq<char>) -> Seq<char> {
    go_bound_guard(opt_or(v.min_items, v.min), pad, go_len_lt(value), ""@, name)
        + go_bound_guard(opt_or(v.max_items, v.max), pad, go_len_gt(value), ""@, name)
}

fn push_items_bounds(out: &mut String, v: &Validation, value: &str, name: &str, pad: &str)
    ensures
        final(out)@ == old(out)@ + go_items_bounds(*v, value@, name@, pad@),
{
    let mut lt = String::from_str("len(");
    lt.append(value);
    lt.append(") < ");
    let mut gt = String::from_str("len(");
    gt.append(value);
    gt.append(") > ");
    let ghost o = out@;
    push_bound_guard(out, opt_or_exec(v.min_items, v.min), pad, lt.as_str(), "", name);
    push_bound_guard(out, opt_or_exec(v.max_items, v.max), pad, gt.as_str(), "", name);
    assert(out@ =~= o + go_items_bounds(*v, value@, name@, pad@));
}

/// The regex of a string field, or the pattern of a known format, as a
/// Go check; `q` is the regex already written as a Go string literal.
pub open spec fn go_pattern_check(v: Validation, q: Seq<char>, value: Seq<char>, name: Seq<char>, pad: Seq<char>) -> Seq<char> {
    if v.regex is Some {
        go_guard(pad, go_regex_cond(q, value), name)
    } else {
        match v.format {
            Some(f) => if f@ == "email"@ {
                go_guard(pad, go_regex_cond("\"^[^@\\\\s]+@[^@\\\\s]+\\\\.[^@\\\\s]+$\""@, value), name)
            } else if f@ == "uuid"@ {
                go_guard(pad, go_regex_cond("\"^[0-9a-fA-F]{8}-[0-9a-fA-F]{4}-[0-9a-fA-F]{4}-[0-9a-fA-F]{4}-[0-9a-fA-F]{12}$\""@, value), name)
            } else {
                Seq::empty()
            },
            None => Seq::empty(),
        }
    }
}

fn push_regex_guard(out: &mut String, q: &str, value: &str, name: &str, pad: &str)
    ensures
        final(out)@ == old(out)@ + go_guard(pad@, go_regex_cond(q@, value@), name@),
{
    let mut c = String::from_str("ok, _ := regexp.MatchString(");
    c.append(q);
    c.append(", ");
    c.append(value);
    c.append("); !ok");
    push_guard(out, pad, c.as_str(), name);
}

fn push_pattern_check(out: &mut String, v: &Validation, q: &str, value: &str, name: &str, pad: &str)
    ensures
        final(out)@ == old(out)@ + go_pattern_check(*v, q@, value@, name@, pad@),
{
    if v.regex.is_some() {
        push_regex_guard(out, q, value, name, pad);
    } else {
        match &v.format {
            Some(f) => {
                if str_eq(f.as_str(), "email") {
                    push_regex_guard(out, "\"^[^@\\\\s]+@[^@\\\\s]+\\\\.[^@\\\\s]+$\"", value, name, pad);
                } else if str_eq(f.as_str(), "uuid") {
                    push_regex_guard(out, "\"^[0-9a-fA-F]{8}-[0-9a-fA-F]{4}-[0-9a-fA-F]{4}-[0-9a-fA-F]{4}-[0-9a-fA-F]{12}$\"", value, name, pad);
                } else {
                    assert(out@ + Seq::<char>::empty() =~= out@);
                }
            },
            None => {
                assert(out@ + Seq::<char>::empty() =~= out@);
            },
        }
    }
}

/// The checks that the validation of a field asks of its value.
pub open spec fn spec_go_value_checks(
    ty: Type,
    validation: Option<Validation>,
    q: Seq<char>,
    value: Seq<char>,
    name: Seq<char>,
    pad: Seq<char>,
) -> Seq<char> {
    match validation {
        None => Seq::empty(),
        Some(v) => match ty {
            Type::String => go_bound_guard(opt_or(v.min_len, v.min), pad, go_len_lt(value), ""@, name)
                + go_bound_guard(opt_or(v.max_len, v.max), pad, go_len_gt(value), ""@, name)
                + go_pattern_check(v, q, value, name, pad),
            Type::Int => go_bound_guard(v.min, pad, value + " < "@, ""@, name) + go_bound_guard(
                v.max,
                pad,
                value + " > "@,
                ""@,
                name,
            ),
            Type::Float => go_bound_guard(v.min, pad, value + " < float64("@, ")"@, name)
                + go_bound_guard(v.max, pad, value + " > float64("@, ")"@, name),
            Type::Array(_) => go_items_bounds(v, value, name, pad),
            _ => Seq::empty(),
        },
    }
}

fn go_value_checks(
    ty: &Type,
    validation: &Option<Validation>,
    q: &str,
    value: &str,
    name: &str,
    pad: &str,
) -> (r: String)
    ensures
        r@ == spec_go_value_checks(*ty, *validation, q@, value@, name@, pad@),
{
    let mut out = String::new();
    match validation {
        None => out,
        Some(v) => match ty {
            Type::String => {
                let mut lt = String::from_str("len(");
                lt.append(value);
                lt.append(") < ");
                let mut gt = String::from_str("len(");
                gt.append(value);
                gt.append(") > ");
                push_bound_guard(&mut out, opt_or_exec(v.min_len, v.min), pad, lt.as_str(), "", name);
                push_bound_guard(&mut out, opt_or_exec(v.max_len, v.max), pad, gt.as_str(), "", name);
                push_pattern_check(&mut out, v, q, value, name, pad);
                assert(out@ =~= spec_go_value_checks(*ty, *validation, q@, value@, name@, pad@));
                out
            },
            Type::Int => {
                let mut lt = String::from_str(value);
                lt.append(" < ");
                let mut gt = String::from_str(value);
                gt.append(" > ");
                push_bound_guard(&mut out, v.min, pad, lt.as_str(), "", name);
                push_bound_guard(&mut out, v.max, pad, gt.as_str(), "", name);
                assert(out@ =~= spec_go_value_checks(*ty, *validation, q@, value@, name@, pad@));
                out
            },
            Type::Float => {
                let mut lt = String::from_str(value);
                lt.append(" < float64(");
                let mut gt = String::from_str(value);
                gt.append(" > float64(");
                push_bound_guard(&mut out, v.min, pad, lt.as_str(), ")", name);
                push_bound_guard(&mut out, v.max, pad, gt.as_str(), ")", name);
                assert(out@ =~= spec_go_value_checks(*ty, *validation, q@, value@, name@, pad@));
                out
            },
            Type::Array(_) => {
                push_items_bounds(&mut out, v, value, name, pad);
                assert(out@ =~= spec_go_value_checks(*ty, *validation, q@, value@, name@, pad@));
                out
            },
            _ => out,
        },
    }
}

/// `for _, item := range <value> {` around the checks of each element.
pub open spec fn go_loop_block(pad: Seq<char>, value: Seq<char>, body: Seq<char>) -> Seq<char> {
    pad + "for _, item := range "@ + value + " {\n"@ + body + pad + "}\n"@
}

/// The checks of a value of type `ty` written with indentation `pad`;
/// `q` is the field's regex as a Go string literal.
pub open spec fn spec_go_checks(
    value: Seq<char>,
    ty: Type,
    validation: Option<Validation>,
    q: Seq<char>,
    name: Seq<char>,
    pad: Seq<char>,
) -> Seq<char>
    decreases ty, 1nat,
{
    match ty {
        Type::Nullable(inner) => pad + "if "@ + value + " != nil {\n"@ + spec_go_checks(
            "*"@ + value,
            *inner,
            validation,
            q,
            name,
            pad + "    "@,
        ) + pad + "}\n"@,
        _ => spec_go_pre_checks(value, ty, validation, q, name, pad) + spec_go_value_checks(
            ty,
            validation,
            q,
            value,
            name,
            pad,
        ) + spec_go_post_checks(value, ty, q, name, pad),
    }
}

/// What comes before the validation checks: the union test, or the bounds
/// and element checks of a map.
pub open spec fn spec_go_pre_checks(
    value: Seq<char>,
    ty: Type,
    validation: Option<Validation>,
    q: Seq<char>,
    name: Seq<char>,
    pad: Seq<char>,
) -> Seq<char>
    decreases ty, 0nat,
{
    match ty {
        Type::Union(items) => go_guard(pad, "!"@ + spec_go_match_expr(items@, false, value), name),
        Type::OneOf(items) => go_guard(pad, "!"@ + spec_go_match_expr(items@, true, value), name),
        Type::MapOf(inner) => {
            let bounds = match validation {
                Some(v) => go_items_bounds(v, value, name, pad),
                None => Seq::empty(),
            };
            let deep = if spec_type_needs_deep_check(*inner) {
                go_loop_block(
                    pad,
                    value,
                    spec_go_checks("item"@, *inner, None, q, name, pad + "    "@),
                )
            } else {
                Seq::empty()
            };
            bounds + deep
        },
        _ => Seq::empty(),
    }
}

/// What comes after the validation checks: the element checks of an array.
pub open spec fn spec_go_post_checks(
    value: Seq<char>,
    ty: Type,
    q: Seq<char>,
    name: Seq<char>,
    pad: Seq<char>,
) -> Seq<char>
    decreases ty, 0nat,
{
    match ty {
        Type::Array(inner) => if spec_type_needs_deep_check(*inner) {
            go_loop_block(pad, value, spec_go_checks("item"@, *inner, None, q, name, pad + "    "@))
        } else {
            Seq::empty()
        },
        _ => Seq::empty(),
    }
}

fn go_element_loop(inner: &Type, q: &str, value: &str, name: &str, pad: &str) -> (r: String)
    ensures
        r@ == go_loop_block(
            pad@,
            value@,
            spec_go_checks("item"@, *inner, None, q@, name@, pad@ + "    "@),
        ),
    decreases inner, 2nat,
{
    let mut ip = String::from_str(pad);
    ip.append("    ");
    let none: Option<Validation> = None;
    let body = go_checks("item", inner, &none, q, name, ip.as_str());
    let mut s = String::from_str(pad);
    s.append("for _, item := range ");
    s.append(value);
    s.append(" {\n");
    s.append(body.as_str());
    s.append(pad);
    s.append("}\n");
    s
}

fn go_pre_checks(
    value: &str,
    ty: &Type,
    validation: &Option<Validation>,
    q: &str,
    name: &str,
    pad: &str,
) -> (r: String)
    ensures
        r@ == spec_go_pre_checks(value@, *ty, *validation, q@, name@, pad@),
    decreases ty, 0nat,
{
    let mut out = String::new();
    match ty {
        Type::Union(items) => {
            let e = render_go_match_expr(items, false, value);
            let mut c = String::from_str("!");
            c.append(e.as_str());
            push_guard(&mut out, pad, c.as_str(), name);
            assert(out@ =~= spec_go_pre_checks(value@, *ty, *validation, q@, name@, pad@));
        },
        Type::OneOf(items) => {
            let e = render_go_match_expr(items, true, value);
            let mut c = String::from_str("!");
            c.append(e.as_str());
            push_guard(&mut out, pad, c.as_str(), name);
            assert(out@ =~= spec_go_pre_checks(value@, *ty, *validation, q@, name@, pad@));
        },
        Type::MapOf(inner) => {
            match validation {
                Some(v) => push_items_bounds(&mut out, v, value, name, pad),
                None => {},
            }
            if type_needs_deep_check(inner) {
                let l = go_element_loop(inner, q, value, name, pad);
                out.append(l.as_str());
            }
            assert(out@ =~= spec_go_pre_checks(value@, *ty, *validation, q@, name@, pad@));
        },
        _ => {},
    }
    out
}

fn go_post_checks(value: &str, ty: &Type, q: &str, name: &str, pad: &str) -> (r: String)
    ensures
        r@ == spec_go_post_checks(value@, *ty, q@, name@, pad@),
    decreases ty, 0nat,
{
    match ty {
        Type::Array(inner) => {
            if type_needs_deep_check(inner) {
                go_element_loop(inner, q, value, name, pad)
            } else {
                String::new()
            }
        },
        _ => String::new(),
    }
}

fn go_checks(
    value: &str,
    ty: &Type,
    validation: &Option<Validation>,
    q: &str,
    name: &str,
    pad: &str,
) -> (r: String)
    ensures
        r@ == spec_go_checks(value@, *ty, *validation, q@, name@, pad@),
    decreases ty, 1nat,
{
    match ty {
        Type::Nullable(inner) => {
            let mut nv = String::from_str("*");
            nv.append(value);
            let mut ip = String::from_str(pad);
            ip.append("    ");
            let body = go_checks(nv.as_str(), inner, validation, q, name, ip.as_str());
            let mut out = String::from_str(pad);
            out.append("if ");
            out.append(value);
            out.append(" != nil {\n");
            out.append(body.as_str());
            out.append(pad);
            out.append("}\n");
            out
        },
        _ => {
            let pre = go_pre_checks(value, ty, validation, q, name, pad);
            let mid = go_value_checks(ty, validation, q, value, name, pad);
            let post = go_post_checks(value, ty, q, name, pad);
            let mut out = pre;
            out.append(mid.as_str());
            out.append(post.as_str());
            out
        },
    }
}

/// The checks of a value of type `ty` at indentation `indent`; a regex of
/// the validation is written as a Go string literal.
pub fn render_validation_checks(
    value_expr: &str,
    ty: &Type,
    validation: &Option<Validation>,
    field_name: &str,
    indent: usize,
) -> (r: String)
    ensures
        r@ == spec_go_checks(
            value_expr@,
            *ty,
            *validation,
            go_regex_source(*validation),
            field_name@,
            spaces(indent as nat),
        ),
{
    let q = match validation {
        Some(v) => match &v.regex {
            Some(r) => debug_quoted(r.as_str()),
            None => String::new(),
        },
        None => String::new(),
    };
    let pad = spaces_string(indent);
    go_checks(value_expr, ty, validation, q.as_str(), field_name, pad.as_str())
}

// ---------------------------------------------------------------------------
// Checks on the inputs of a route
// ---------------------------------------------------------------------------

/// The regex of a validation quoted as a Go string literal, or nothing.
pub open spec fn go_regex_source(validation: Option<Validation>) -> Seq<char> {
    match validation {
        Some(v) => match v.regex {
            Some(r) => debug_str(r@),
            None => Seq::empty(),
        },
        None => Seq::empty(),
    }
}

pub open spec fn spec_go_field_validation(base: Seq<char>, f: Field, optional_struct: bool) -> Seq<char> {
    if !spec_field_needs_validation(f) {
        Seq::empty()
    } else {
        let access = base + "."@ + spec_go_field_name(f.name@);
        let q = go_regex_source(f.validation);
        if optional_struct || f.optional {
            let value = if f.ty is Nullable {
                access
            } else {
                "*"@ + access
            };
            "    if "@ + access + " != nil {\n"@ + spec_go_checks(
                value,
                f.ty,
                f.validation,
                q,
                f.name@,
                spaces(8),
            ) + "    }\n"@
        } else {
            spec_go_checks(access, f.ty, f.validation, q, f.name@, spaces(4))
        }
    }
}

pub open spec fn go_field_validation_fn(base: Seq<char>, optional_struct: bool) -> spec_fn(Field) -> Seq<char> {
    |f: Field| spec_go_field_validation(base, f, optional_struct)
}

pub open spec fn spec_go_field_validations(base: Seq<char>, fields: Seq<Field>, optional_struct: bool) -> Seq<char> {
    concat_all(fields, go_field_validation_fn(base, optional_struct))
}

fn render_field_validation(base: &str, field: &Field, optional_struct: bool) -> (r: String)
    ensures
        r@ == spec_go_field_validation(base@, *field, optional_struct),
{
    if !field_needs_validation(field) {
        return String::new();
    }
    let mut access = String::from_str(base);
    access.append(".");
    let gf = go_field_name(field.name.as_str());
    access.append(gf.as_str());
    if optional_struct || field.optional {
        let value = match &field.ty {
            Type::Nullable(_) => String::from_str(access.as_str()),
            _ => {
                let mut s = String::from_str("*");
                s.append(access.as_str());
                s
            },
        };
        let checks = render_validation_checks(
            value.as_str(),
            &field.ty,
            &field.validation,
            field.name.as_str(),
            8,
        );
        let mut out = String::from_str("    if ");
        out.append(access.as_str());
        out.append(" != nil {\n");
        out.append(checks.as_str());
        out.append("    }\n");
        out
    } else {
        render_validation_checks(
            access.as_str(),
            &field.ty,
            &field.validation,
            field.name.as_str(),
            4,
        )
    }
}

pub fn render_field_validations(base: &str, fields: &Vec<Field>, optional_struct: bool) -> (r: String)
    ensures
        r@ == spec_go_field_validations(base@, fields@, optional_struct),
{
    let ghost f = go_field_validation_fn(base@, optional_struct);
    let mut out = String::new();
    let mut i: usize = 0;
    while i < fields.len()
        invariant
            0 <= i <= fields@.len(),
            f == go_field_validation_fn(base@, optional_struct),
            out@ == concat_all(fields@.take(i as int), f),
        decreases fields@.len() - i,
    {
        proof {
            lemma_concat_all_step(fields@, i as int, f);
        }
        let s = render_field_validation(base, &fields[i], optional_struct);
        out.append(s.as_str());
        i += 1;
    }
    proof {
        lemma_take_full(fields@);
    }
    out
}

pub open spec fn spec_render_validation_block(route: Route) -> Seq<char> {
    if !spec_route_any(FieldTest::NeedsValidation, route) {
        Seq::empty()
    } else {
        spec_go_field_validations("path"@, route.input.path@, false) + spec_go_field_validations(
            "query"@,
            route.input.query@,
            true,
        ) + spec_go_field_validations("body"@, route.input.body@, false)
            + spec_go_field_validations("headers"@, route.headers@, false)
    }
}

/// The checks of every input of a route, in the order path, query, body,
/// headers; nothing when no input is validated.
pub fn render_validation_block(route: &Route) -> (r: String)
    ensures
        r@ == spec_render_validation_block(*route),
{
    if !route_has_validation(route) {
        return String::new();
    }
    let a = render_field_validations("path", &route.input.path, false);
    let b = render_field_validations("query", &route.input.query, true);
    let c = render_field_validations("body", &route.input.body, false);
    let d = render_field_validations("headers", &route.headers, false);
    let mut out = a;
    out.append(b.as_str());
    out.append(c.as_str());
    out.append(d.as_str());
    out
}

} // verus!
