//! Request validation in the Rust server: the checks a handler runs on
//! its extracted input before it calls the module function.

use vstd::prelude::*;

use crate::generators::common::validation::{
    field_needs_validation, route_has_validation, spec_field_needs_validation, spec_route_any,
    FieldTest,
};
use crate::generators::go::validation::opt_or;
use crate::ir::{Field, Route, Service, Type, Validation};
use crate::text::{
    concat_all, debug_quoted, debug_str, dec_int, i64_to_string, lemma_concat_all_step,
    lemma_take_full, spaces, spaces_string, str_eq,
};

verus! {

// ---------------------------------------------------------------------------
// JSON type tests
// ---------------------------------------------------------------------------

/// Rust boolean expression testing that the `serde_json::Value` `v` holds
/// a value of type `ty`.
pub open spec fn spec_json_match(ty: Type, v: Seq<char>) -> Seq<char>
    decreases ty, 0nat,
{
    match ty {
        Type::String => v + ".is_string()"@,
        Type::Int => v + ".as_i64().is_some() || "@ + v + ".as_u64().is_some()"@,
        Type::Float => v + ".is_number()"@,
        Type::Bool => v + ".is_boolean()"@,
        Type::Array(_) => v + ".is_array()"@,
        Type::MapOf(_) => v + ".is_object()"@,
        Type::Object(_) => v + ".is_object()"@,
        Type::Named(_) => v + ".is_object()"@,
        Type::Any => "true"@,
        Type::Void => v + ".is_null()"@,
        Type::Nullable(inner) => v + ".is_null() || "@ + spec_json_match(*inner, v),
        Type::Union(items) => "("@ + spec_json_or_list(items@, items@.len(), v) + ")"@,
        Type::OneOf(items) => "{\n    let mut count = 0;"@ + spec_json_count_lines(
            items@,
            items@.len(),
            v,
        ) + "\n    count == 1\n}"@,
    }
}

/// The tests of the first `n` types, joined by ` || `.
pub open spec fn spec_json_or_list(items: Seq<Type>, n: nat, v: Seq<char>) -> Seq<char>
    decreases items, n,
{
    if n == 0 || n > items.len() {
        Seq::empty()
    } else if n == 1 {
        spec_json_match(items[0], v)
    } else {
        spec_json_or_list(items, (n - 1) as nat, v) + " || "@ + spec_json_match(items[n - 1], v)
    }
}

/// One counting line per type, for the first `n` types.
pub open spec fn spec_json_count_lines(items: Seq<Type>, n: nat, v: Seq<char>) -> Seq<char>
    decreases items, n,
{
    if n == 0 || n > items.len() {
        Seq::empty()
    } else {
        spec_json_count_lines(items, (n - 1) as nat, v) + "\n    if "@ + spec_json_match(
            items[n - 1],
            v,
        ) + " { count += 1; }"@
    }
}

/// A union test (any alternative matches) or a one-of test (exactly one
/// alternative matches, counted in a block).
pub open spec fn spec_json_match_list(items: Seq<Type>, oneof: bool, v: Seq<char>) -> Seq<char> {
    if oneof {
        "{\n    let mut count = 0;"@ + spec_json_count_lines(items, items.len(), v)
            + "\n    count == 1\n}"@
    } else {
        "("@ + spec_json_or_list(items, items.len(), v) + ")"@
    }
}

pub fn json_match_expr(ty: &Type, v: &str) -> (r: String)
    ensures
        r@ == spec_json_match(*ty, v@),
    decreases ty, 0nat,
{
    match ty {
        Type::String => {
            let mut s = String::from_str(v);
            s.append(".is_string()");
            s
        },
        Type::Int => {
            let mut s = String::from_str(v);
            s.append(".as_i64().is_some() || ");
            s.append(v);
            s.append(".as_u64().is_some()");
            s
        },
        Type::Float => {
            let mut s = String::from_str(v);
            s.append(".is_number()");
            s
        },
        Type::Bool => {
            let mut s = String::from_str(v);
            s.append(".is_boolean()");
            s
        },
        Type::Array(_) => {
            let mut s = String::from_str(v);
            s.append(".is_array()");
            s
        },
        Type::MapOf(_) | Type::Object(_) | Type::Named(_) => {
            let mut s = String::from_str(v);
            s.append(".is_object()");
            s
        },
        Type::Any => String::from_str("true"),
        Type::Void => {
            let mut s = String::from_str(v);
            s.append(".is_null()");
            s
        },
        Type::Nullable(inner) => {
            let mut s = String::from_str(v);
            s.append(".is_null() || ");
            let x = json_match_expr(inner, v);
            s.append(x.as_str());
            s
        },
        Type::Union(items) => render_json_match_expr(items, false, v),
        Type::OneOf(items) => render_json_match_expr(items, true, v),
    }
}

pub fn render_json_match_expr(items: &Vec<Type>, oneof: bool, v: &str) -> (r: String)
    ensures
        r@ == spec_json_match_list(items@, oneof, v@),
    decreases items, 1nat,
{
    if oneof {
        let mut s = String::from_str("{\n    let mut count = 0;");
        let ghost head = s@;
        let mut i: usize = 0;
        while i < items.len()
            invariant
                0 <= i <= items@.len(),
                s@ == head + spec_json_count_lines(items@, i as nat, v@),
            decreases items@.len() - i,
        {
            assert(decreases_to!(items => items@[i as int]));
            let e = json_match_expr(&items[i], v);
            s.append("\n    if ");
            s.append(e.as_str());
            s.append(" { count += 1; }");
            i += 1;
            assert(s@ =~= head + spec_json_count_lines(items@, i as nat, v@));
        }
        s.append("\n    count == 1\n}");
        s
    } else {
        let mut body = String::new();
        let mut i: usize = 0;
        while i < items.len()
            invariant
                0 <= i <= items@.len(),
                body@ == spec_json_or_list(items@, i as nat, v@),
            decreases items@.len() - i,
        {
            assert(decreases_to!(items => items@[i as int]));
            let e = json_match_expr(&items[i], v);
            if i > 0 {
                body.append(" || ");
            }
            body.append(e.as_str());
            i += 1;
            assert(body@ =~= spec_json_or_list(items@, i as nat, v@));
        }
        let mut s = String::from_str("(");
        s.append(body.as_str());
        s.append(")");
        s
    }
}

// ---------------------------------------------------------------------------
// Checks on one value
// ---------------------------------------------------------------------------

/// Whether values of `ty` hold something that must be checked element by
/// element: a union, a one-of, a nullable or an object, possibly inside
/// arrays and maps.
pub open spec fn spec_rs_needs_deep_check(ty: Type) -> bool
    decreases ty,
{
    match ty {
        Type::Union(_) | Type::OneOf(_) | Type::Nullable(_) | Type::Object(_) => true,
        Type::Array(inner) => spec_rs_needs_deep_check(*inner),
        Type::MapOf(inner) => spec_rs_needs_deep_check(*inner),
        _ => false,
    }
}

pub fn type_needs_deep_check(ty: &Type) -> (r: bool)
    ensures
        r == spec_rs_needs_deep_check(*ty),
    decreases ty,
{
    match ty {
        Type::Union(_) | Type::OneOf(_) | Type::Nullable(_) | Type::Object(_) => true,
        Type::Array(inner) => type_needs_deep_check(inner),
        Type::MapOf(inner) => type_needs_deep_check(inner),
        _ => false,
    }
}

/// `if <cond> {` answering `invalid_field(<name>)` and returning.
pub open spec fn rs_guard(pad: Seq<char>, cond: Seq<char>, name: Seq<char>) -> Seq<char> {
    pad + "if "@ + cond + " {\n"@ + pad + "    return invalid_field(\""@ + name
        + "\").into_response();\n"@ + pad + "}\n"@
}

fn push_guard(out: &mut String, pad: &str, cond: &str, name: &str)
    ensures
        final(out)@ == old(out)@ + rs_guard(pad@, cond@, name@),
{
    let mut g = String::from_str(pad);
    g.append("if ");
    g.append(cond);
    g.append(" {\n");
    g.append(pad);
    g.append("    return invalid_field(\"");
    g.append(name);
    g.append("\").into_response();\n");
    g.append(pad);
    g.append("}\n");
    out.append(g.as_str());
}

fn opt_or_exec(a: Option<i64>, b: Option<i64>) -> (r: Option<i64>)
    ensures
        r == opt_or(a, b),
{
    if a.is_some() {
        a
    } else {
        b
    }
}

/// A guard on `<prefix><bound><suffix>` when the bound is set.
pub open spec fn rs_bound_guard(
    bound: Option<i64>,
    pad: Seq<char>,
    prefix: Seq<char>,
    suffix: Seq<char>,
    name: Seq<char>,
) -> Seq<char> {
    match bound {
        Some(b) => rs_guard(pad, prefix + dec_int(b as int) + suffix, name),
        None => Seq::empty(),
    }
}

fn push_bound_guard(
    out: &mut String,
    bound: Option<i64>,
    pad: &str,
    prefix: &str,
    suffix: &str,
    name: &str,
)
    ensures
        final(out)@ == old(out)@ + rs_bound_guard(bound, pad@, prefix@, suffix@, name@),
{
    match bound {
        Some(b) => {
            let mut c = String::from_str(prefix);
            let n = i64_to_string(b);
            c.append(n.as_str());
            c.append(suffix);
            push_guard(out, pad, c.as_str(), name);
        },
        None => {
            assert(out@ + Seq::<char>::empty() =~= out@);
        },
    }
}

/// Checks on the length bounds of an array or a map.
pub open spec fn rs_items_bounds(v: Validation, value: Seq<char>, name: Seq<char>, pad: Seq<char>) -> Seq<char> {
    rs_bound_guard(opt_or(v.min_items, v.min), pad, value + ".len() < "@, " as usize"@, name)
        + rs_bound_guard(opt_or(v.max_items, v.max), pad, value + ".len() > "@, " as usize"@, name)
}

fn push_items_bounds(out: &mut String, v: &Validation, value: &str, name: &str, pad: &str)
    ensures
        final(out)@ == old(out)@ + rs_items_bounds(*v, value@, name@, pad@),
{
    let mut lt = String::from_str(value);
    lt.append(".len() < ");
    let mut gt = String::from_str(value);
    gt.append(".len() > ");
    let ghost o = out@;
    push_bound_guard(out, opt_or_exec(v.min_items, v.min), pad, lt.as_str(), " as usize", name);
    push_bound_guard(out, opt_or_exec(v.max_items, v.max), pad, gt.as_str(), " as usize", name);
    assert(out@ =~= o + rs_items_bounds(*v, value@, name@, pad@));
}

pub open spec fn rs_regex_cond(q: Seq<char>, v: Seq<char>) -> Seq<char> {
    "!Regex::new("@ + q + ").unwrap().is_match("@ + v + ")"@
}

/// The regex of a string field, or the pattern of a known format, as a
/// check; the regex is written as a Rust string literal.
pub open spec fn rs_pattern_check(v: Validation, value: Seq<char>, name: Seq<char>, pad: Seq<char>) -> Seq<char> {
    match v.regex {
        Some(r) => rs_guard(pad, rs_regex_cond(debug_str(r@), value), name),
        None => match v.format {
            Some(f) => if f@ == "email"@ {
                rs_guard(pad, rs_regex_cond("\"^[^@\\\\s]+@[^@\\\\s]+\\\\.[^@\\\\s]+$\""@, value), name)
            } else if f@ == "uuid"@ {
                rs_guard(pad, rs_regex_cond("\"^[0-9a-fA-F]{8}-[0-9a-fA-F]{4}-[0-9a-fA-F]{4}-[0-9a-fA-F]{4}-[0-9a-fA-F]{12}$\""@, value), name)
            } else {
                Seq::empty()
            },
            None => Seq::empty(),
        },
    }
}

fn push_regex_guard(out: &mut String, q: &str, value: &str, name: &str, pad: &str)
    ensures
        final(out)@ == old(out)@ + rs_guard(pad@, rs_regex_cond(q@, value@), name@),
{
    let mut c = String::from_str("!Regex::new(");
    c.append(q);
    c.append(").unwrap().is_match(");
    c.append(value);
    c.append(")");
    push_guard(out, pad, c.as_str(), name);
}

fn push_pattern_check(out: &mut String, v: &Validation, value: &str, name: &str, pad: &str)
    ensures
        final(out)@ == old(out)@ + rs_pattern_check(*v, value@, name@, pad@),
{
    match &v.regex {
        Some(r) => {
            let q = debug_quoted(r.as_str());
            push_regex_guard(out, q.as_str(), value, name, pad);
        },
        None => match &v.format {
            Some(f) => {
                if str_eq(f.as_str(), "email") {
                    push_regex_guard(out, "\"^[^@\\\\s]+@[^@\\\\s]+\\\\.[^@\\\\s]+$\"", value, name, pad);
                } else if str_eq(f.as_str(), "uuid") {
                    push_regex_guard(out, "\"^[0-9a-fA-F]{8}-[0-9a-fA-F]{4}-[0-9a-fA-F]{4}-[0-9a-fA-F]{4}-[0-9a-fA-F]{12}$\"", value, name, pad);
                } else {
                    assert(out@ + Seq::<char>::empty() =~= out@);
                }
            },
            None => {
                assert(out@ + Seq::<char>::empty() =~= out@);
            },
        },
    }
}

/// The checks that the validation of a field asks of its value.
pub open spec fn spec_rs_value_checks(
    ty: Type,
    validation: Option<Validation>,
    value: Seq<char>,
    name: Seq<char>,
    pad: Seq<char>,
) -> Seq<char> {
    match validation {
        None => Seq::empty(),
        Some(v) => match ty {
            Type::String => rs_bound_guard(opt_or(v.min_len, v.min), pad, value + ".len() < "@, " as usize"@, name)
                + rs_bound_guard(opt_or(v.max_len, v.max), pad, value + ".len() > "@, " as usize"@, name)
                + rs_pattern_check(v, value, name, pad),
            Type::Int => rs_bound_guard(v.min, pad, "*"@ + value + " < "@, ""@, name)
                + rs_bound_guard(v.max, pad, "*"@ + value + " > "@, ""@, name),
            Type::Float => rs_bound_guard(v.min, pad, "*"@ + value + " < "@, " as f64"@, name)
                + rs_bound_guard(v.max, pad, "*"@ + value + " > "@, " as f64"@, name),
            Type::Array(_) => rs_items_bounds(v, value, name, pad),
            _ => Seq::empty(),
        },
    }
}

fn rs_value_checks(
    ty: &Type,
    validation: &Option<Validation>,
    value: &str,
    name: &str,
    pad: &str,
) -> (r: String)
    ensures
        r@ == spec_rs_value_checks(*ty, *validation, value@, name@, pad@),
{
    let mut out = String::new();
    match validation {
        None => out,
        Some(v) => match ty {
            Type::String => {
                let mut lt = String::from_str(value);
                lt.append(".len() < ");
                let mut gt = String::from_str(value);
                gt.append(".len() > ");
                push_bound_guard(&mut out, opt_or_exec(v.min_len, v.min), pad, lt.as_str(), " as usize", name);
                push_bound_guard(&mut out, opt_or_exec(v.max_len, v.max), pad, gt.as_str(), " as usize", name);
                push_pattern_check(&mut out, v, value, name, pad);
                assert(out@ =~= spec_rs_value_checks(*ty, *validation, value@, name@, pad@));
                out
            },
            Type::Int => {
                let mut lt = String::from_str("*");
                lt.append(value);
                lt.append(" < ");
                let mut gt = String::from_str("*");
                gt.append(value);
                gt.append(" > ");
                push_bound_guard(&mut out, v.min, pad, lt.as_str(), "", name);
                push_bound_guard(&mut out, v.max, pad, gt.as_str(), "", name);
                assert(out@ =~= spec_rs_value_checks(*ty, *validation, value@, name@, pad@));
                out
            },
            Type::Float => {
                let mut lt = String::from_str("*");
                lt.append(value);
                lt.append(" < ");
                let mut gt = String::from_str("*");
                gt.append(value);
                gt.append(" > ");
                push_bound_guard(&mut out, v.min, pad, lt.as_str(), " as f64", name);
                push_bound_guard(&mut out, v.max, pad, gt.as_str(), " as f64", name);
                assert(out@ =~= spec_rs_value_checks(*ty, *validation, value@, name@, pad@));
                out
            },
            Type::Array(_) => {
                push_items_bounds(&mut out, v, value, name, pad);
                assert(out@ =~= spec_rs_value_checks(*ty, *validation, value@, name@, pad@));
                out
            },
            _ => out,
        },
    }
}

/// `for item in <value><iter> {` around the checks of each element.
pub open spec fn rs_loop_block(pad: Seq<char>, value: Seq<char>, iter: Seq<char>, body: Seq<char>) -> Seq<char> {
    pad + "for item in "@ + value + iter + " {\n"@ + body + pad + "}\n"@
}

/// The checks of a value of type `ty` written with indentation `pad`.
pub open spec fn spec_rs_checks(
    value: Seq<char>,
    ty: Type,
    validation: Option<Validation>,
    name: Seq<char>,
    pad: Seq<char>,
) -> Seq<char>
    decreases ty, 1nat,
{
    match ty {
        Type::Nullable(inner) => pad + "if let Some(inner) = "@ + value + ".as_ref() {\n"@
            + spec_rs_checks("inner"@, *inner, validation, name, pad + "    "@) + pad + "}\n"@,
        _ => spec_rs_pre_checks(value, ty, validation, name, pad) + spec_rs_value_checks(
            ty,
            validation,
            value,
            name,
            pad,
        ),
    }
}

/// What comes before the validation checks: the union test, the object
/// test, the bounds of a map, and the element checks of maps and arrays.
pub open spec fn spec_rs_pre_checks(
    value: Seq<char>,
    ty: Type,
    validation: Option<Validation>,
    name: Seq<char>,
    pad: Seq<char>,
) -> Seq<char>
    decreases ty, 0nat,
{
    match ty {
        Type::Union(items) => rs_guard(pad, "!("@ + spec_json_match_list(items@, false, value) + ")"@, name),
        Type::OneOf(items) => rs_guard(pad, "!("@ + spec_json_match_list(items@, true, value) + ")"@, name),
        Type::MapOf(inner) => {
            let bounds = match validation {
                Some(v) => rs_items_bounds(v, value, name, pad),
                None => Seq::empty(),
            };
            let deep = if spec_rs_needs_deep_check(*inner) {
                rs_loop_block(
                    pad,
                    value,
                    ".values()"@,
                    spec_rs_checks("item"@, *inner, None, name, pad + "    "@),
                )
            } else {
                Seq::empty()
            };
            bounds + deep
        },
        Type::Array(inner) => if spec_rs_needs_deep_check(*inner) {
            rs_loop_block(pad, value, ".iter()"@, spec_rs_checks("item"@, *inner, None, name, pad + "    "@))
        } else {
            Seq::empty()
        },
        Type::Object(_) => rs_guard(pad, "!"@ + value + ".is_object()"@, name),
        _ => Seq::empty(),
    }
}

fn rs_element_loop(inner: &Type, value: &str, iter: &str, name: &str, pad: &str) -> (r: String)
    ensures
        r@ == rs_loop_block(
            pad@,
            value@,
            iter@,
            spec_rs_checks("item"@, *inner, None, name@, pad@ + "    "@),
        ),
    decreases inner, 2nat,
{
    let mut ip = String::from_str(pad);
    ip.append("    ");
    let none: Option<Validation> = None;
    let body = rs_checks("item", inner, &none, name, ip.as_str());
    let mut s = String::from_str(pad);
    s.append("for item in ");
    s.append(value);
    s.append(iter);
    s.append(" {\n");
    s.append(body.as_str());
    s.append(pad);
    s.append("}\n");
    s
}

fn rs_pre_checks(
    value: &str,
    ty: &Type,
    validation: &Option<Validation>,
    name: &str,
    pad: &str,
) -> (r: String)
    ensures
        r@ == spec_rs_pre_checks(value@, *ty, *validation, name@, pad@),
    decreases ty, 0nat,
{
    let mut out = String::new();
    match ty {
        Type::Union(items) => {
            let e = render_json_match_expr(items, false, value);
            let mut c = String::from_str("!(");
            c.append(e.as_str());
            c.append(")");
            push_guard(&mut out, pad, c.as_str(), name);
            assert(out@ =~= spec_rs_pre_checks(value@, *ty, *validation, name@, pad@));
        },
        Type::OneOf(items) => {
            let e = render_json_match_expr(items, true, value);
            let mut c = String::from_str("!(");
            c.append(e.as_str());
            c.append(")");
            push_guard(&mut out, pad, c.as_str(), name);
            assert(out@ =~= spec_rs_pre_checks(value@, *ty, *validation, name@, pad@));
        },
        Type::MapOf(inner) => {
            match validation {
                Some(v) => push_items_bounds(&mut out, v, value, name, pad),
                None => {},
            }
            if type_needs_deep_check(inner) {
                let l = rs_element_loop(inner, value, ".values()", name, pad);
                out.append(l.as_str());
            }
            assert(out@ =~= spec_rs_pre_checks(value@, *ty, *validation, name@, pad@));
        },
        Type::Array(inner) => {
            if type_needs_deep_check(inner) {
                let l = rs_element_loop(inner, value, ".iter()", name, pad);
                out.append(l.as_str());
            }
            assert(out@ =~= spec_rs_pre_checks(value@, *ty, *validation, name@, pad@));
        },
        Type::Object(_) => {
            let mut c = String::from_str("!");
            c.append(value);
            c.append(".is_object()");
            push_guard(&mut out, pad, c.as_str(), name);
            assert(out@ =~= spec_rs_pre_checks(value@, *ty, *validation, name@, pad@));
        },
        _ => {},
    }
    out
}

fn rs_checks(
    value: &str,
    ty: &Type,
    validation: &Option<Validation>,
    name: &str,
    pad: &str,
) -> (r: String)
    ensures
        r@ == spec_rs_checks(value@, *ty, *validation, name@, pad@),
    decreases ty, 1nat,
{
    match ty {
        Type::Nullable(inner) => {
            let mut ip = String::from_str(pad);
            ip.append("    ");
            let body = rs_checks("inner", inner, validation, name, ip.as_str());
            let mut out = String::from_str(pad);
            out.append("if let Some(inner) = ");
            out.append(value);
            out.append(".as_ref() {\n");
            out.append(body.as_str());
            out.append(pad);
            out.append("}\n");
            out
        },
        _ => {
            let pre = rs_pre_checks(value, ty, validation, name, pad);
            let mid = rs_value_checks(ty, validation, value, name, pad);
            let mut out = pre;
            out.append(mid.as_str());
            out
        },
    }
}

/// The checks of a value of type `ty` at indentation `indent`.
pub fn render_validation_checks(
    value_expr: &str,
    ty: &Type,
    validation: &Option<Validation>,
    field_label: &str,
    indent: usize,
) -> (r: String)
    ensures
        r@ == spec_rs_checks(value_expr@, *ty, *validation, field_label@, spaces(indent as nat)),
{
    let pad = spaces_string(indent);
    rs_checks(value_expr, ty, validation, field_label, pad.as_str())
}

// ---------------------------------------------------------------------------
// Checks on the inputs of a route
// ---------------------------------------------------------------------------

pub open spec fn spec_rs_field_validation(base: Seq<char>, f: Field, optional_struct: bool) -> Seq<char> {
    if !spec_field_needs_validation(f) {
        Seq::empty()
    } else {
        let access = base + "."@ + f.name@;
        if optional_struct || f.optional {
            "    if let Some(value) = &"@ + access + " {\n"@ + spec_rs_checks(
                "value"@,
                f.ty,
                f.validation,
                f.name@,
                spaces(8),
            ) + "    }\n"@
        } else {
            spec_rs_checks(access, f.ty, f.validation, f.name@, spaces(4))
        }
    }
}

pub open spec fn rs_field_validation_fn(base: Seq<char>, optional_struct: bool) -> spec_fn(Field) -> Seq<char> {
    |f: Field| spec_rs_field_validation(base, f, optional_struct)
}

pub open spec fn spec_rs_field_validations(base: Seq<char>, fields: Seq<Field>, optional_struct: bool) -> Seq<char> {
    concat_all(fields, rs_field_validation_fn(base, optional_struct))
}

fn render_field_validation(base: &str, field: &Field, optional_struct: bool) -> (r: String)
    ensures
        r@ == spec_rs_field_validation(base@, *field, optional_struct),
{
    if !field_needs_validation(field) {
        return String::new();
    }
    let mut access = String::from_str(base);
    access.append(".");
    access.append(field.name.as_str());
    if optional_struct || field.optional {
        let checks = render_validation_checks(
            "value",
            &field.ty,
            &field.validation,
            field.name.as_str(),
            8,
        );
        let mut out = String::from_str("    if let Some(value) = &");
        out.append(access.as_str());
        out.append(" {\n");
        out.append(checks.as_str());
        out.append("    }\n");
        out
    } else {
        render_validation_checks(
            access.as_str(),
            &field.ty,
            &field.validation,
            field.name.as_str(),
            4,
        )
    }
}

pub fn render_field_validations(base: &str, fields: &Vec<Field>, optional_struct: bool) -> (r: String)
    ensures
        r@ == spec_rs_field_validations(base@, fields@, optional_struct),
{
    let ghost f = rs_field_validation_fn(base@, optional_struct);
    let mut out = String::new();
    let mut i: usize = 0;
    while i < fields.len()
        invariant
            0 <= i <= fields@.len(),
            f == rs_field_validation_fn(base@, optional_struct),
            out@ == concat_all(fields@.take(i as int), f),
        decreases fields@.len() - i,
    {
        proof {
            lemma_concat_all_step(fields@, i as int, f);
        }
        let s = render_field_validation(base, &fields[i], optional_struct);
        out.append(s.as_str());
        i += 1;
    }
    proof {
        lemma_take_full(fields@);
    }
    out
}

pub open spec fn spec_rs_validation_block(route: Route) -> Seq<char> {
    if !spec_route_any(FieldTest::NeedsValidation, route) {
        Seq::empty()
    } else {
        spec_rs_field_validations("path"@, route.input.path@, false) + spec_rs_field_validations(
            "query"@,
            route.input.query@,
            true,
        ) + spec_rs_field_validations("body"@, route.input.body@, false)
            + spec_rs_field_validations("headers"@, route.headers@, false)
    }
}

/// The checks of every input of a route, in the order path, query, body,
/// headers; nothing when no input is validated.
pub fn render_validation_block(route: &Route) -> (r: String)
    ensures
        r@ == spec_rs_validation_block(*route),
{
    if !route_has_validation(route) {
        return String::new();
    }
    let a = render_field_validations("path", &route.input.path, false);
    let b = render_field_validations("query", &route.input.query, true);
    let c = render_field_validations("body", &route.input.body, false);
    let d = render_field_validations("headers", &route.headers, false);
    let mut out = a;
    out.append(b.as_str());
    out.append(c.as_str());
    out.append(d.as_str());
    out
}

pub open spec fn spec_any_validated_route(routes: Seq<Route>) -> bool {
    exists|i: int|
        0 <= i < routes.len() && spec_route_any(FieldTest::NeedsValidation, #[trigger] routes[i])
}

/// `invalid_field`, emitted only when some route validates an input.
pub open spec fn spec_rs_validation_helpers(service: Service) -> Seq<char> {
    if spec_any_validated_route(service.http.routes@) {
        "\nfn invalid_field(name: &str) -> (StatusCode, String) {\n    (StatusCode::BAD_REQUEST, format!(\"invalid {}\", name))\n}\n"@
    } else {
        Seq::empty()
    }
}

pub fn render_validation_helpers(service: &Service) -> (r: String)
    ensures
        r@ == spec_rs_validation_helpers(*service),
{
    let routes = &service.http.routes;
    let mut i: usize = 0;
    while i < routes.len()
        invariant
            0 <= i <= routes@.len(),
            routes@ == service.http.routes@,
            forall|j: int|
                0 <= j < i ==> !spec_route_any(FieldTest::NeedsValidation, #[trigger] routes@[j]),
        decreases routes@.len() - i,
    {
        if route_has_validation(&routes[i]) {
            assert(spec_route_any(FieldTest::NeedsValidation, routes@[i as int]));
            return String::from_str("\nfn invalid_field(name: &str) -> (StatusCode, String) {\n    (StatusCode::BAD_REQUEST, format!(\"invalid {}\", name))\n}\n");
        }
        i += 1;
    }
    String::new()
}

} // verus!
