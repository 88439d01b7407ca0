//! The canonical text of a project in the DSL: what `nimesvc fmt` writes.

use vstd::prelude::*;

use crate::ir::{
    spec_display, AuthSpec, CallArg, CallSpec, CorsConfig, EnumDef, EnumVariant, EnvVar,
    EventDef, EventsBroker, Field, HttpMethod, InputRef, InputSource, Lang, ModuleUse, Project, ProjectCommon,
    RateLimit, ResponseSpec, Route, RpcDef, Service, SocketDef, SocketMessage, SocketTrigger, Type,
    TypeDef, TypeName, UseScope, Validation,
};
use crate::text::{
    chars_of, concat_all, dec_int, dec_nat, i64_to_string, join, lemma_concat_all_step, lemma_take_full,
    lemma_add_empty, lemma_views_push, push_char, seq_join, u64_to_string, views,
};

verus! {

// ---------------------------------------------------------------------------
// Small pieces
// ---------------------------------------------------------------------------

pub open spec fn spec_format_auth(auth: AuthSpec) -> Seq<char> {
    match auth {
        AuthSpec::NoAuth => "none"@,
        AuthSpec::Bearer => "bearer"@,
        AuthSpec::ApiKey => "api_key"@,
    }
}

pub fn format_auth(auth: &AuthSpec) -> (r: &'static str)
    ensures
        r@ == spec_format_auth(*auth),
{
    match auth {
        AuthSpec::NoAuth => "none",
        AuthSpec::Bearer => "bearer",
        AuthSpec::ApiKey => "api_key",
    }
}

/// `max/unit`; windows other than a minute or an hour are written as `sec`.
pub open spec fn spec_format_rate_limit(limit: RateLimit) -> Seq<char> {
    let unit = if limit.per_seconds == 60 {
        "min"@
    } else if limit.per_seconds == 3600 {
        "hour"@
    } else {
        "sec"@
    };
    dec_nat(limit.max as nat) + "/"@ + unit
}

pub fn format_rate_limit(limit: &RateLimit) -> (r: String)
    ensures
        r@ == spec_format_rate_limit(*limit),
{
    let unit = match limit.per_seconds {
        1 => "sec",
        60 => "min",
        3600 => "hour",
        _ => "sec",
    };
    let mut out = u64_to_string(limit.max as u64);
    out.append("/");
    out.append(unit);
    out
}

pub open spec fn spec_method_name(m: HttpMethod) -> Seq<char> {
    match m {
        HttpMethod::Get => "GET"@,
        HttpMethod::Post => "POST"@,
        HttpMethod::Put => "PUT"@,
        HttpMethod::Patch => "PATCH"@,
        HttpMethod::Delete => "DELETE"@,
        HttpMethod::Options => "OPTIONS"@,
        HttpMethod::Head => "HEAD"@,
    }
}

/// How a method is written in the DSL and in HTTP.
pub fn method_name(m: &HttpMethod) -> (r: &'static str)
    ensures
        r@ == spec_method_name(*m),
{
    match m {
        HttpMethod::Get => "GET",
        HttpMethod::Post => "POST",
        HttpMethod::Put => "PUT",
        HttpMethod::Patch => "PATCH",
        HttpMethod::Delete => "DELETE",
        HttpMethod::Options => "OPTIONS",
        HttpMethod::Head => "HEAD",
    }
}

pub open spec fn spec_format_name_version(name: Seq<char>, version: Option<u32>) -> Seq<char> {
    match version {
        Some(v) => name + "@"@ + dec_nat(v as nat),
        None => name,
    }
}

pub fn format_name_version(name: &str, version: Option<u32>) -> (r: String)
    ensures
        r@ == spec_format_name_version(name@, version),
{
    let mut out = String::from_str(name);
    if let Some(v) = version {
        out.append("@");
        let d = u64_to_string(v as u64);
        out.append(d.as_str());
    }
    out
}

pub open spec fn spec_format_use(m: ModuleUse) -> Seq<char> {
    let scope = match m.scope {
        UseScope::Runtime => "runtime "@,
        UseScope::Compile => "compile "@,
        UseScope::Both => Seq::empty(),
    };
    let loc = match m.path {
        Some(p) => " \""@ + p@ + "\""@,
        None => match m.version {
            Some(v) => " \""@ + v@ + "\""@,
            None => Seq::empty(),
        },
    };
    let alias = match m.alias {
        Some(a) => " as "@ + a@,
        None => Seq::empty(),
    };
    "use "@ + scope + m.name@ + loc + alias
}

pub fn format_use(module: &ModuleUse) -> (r: String)
    ensures
        r@ == spec_format_use(*module),
{
    let mut out = String::from_str("use ");
    match module.scope {
        UseScope::Runtime => out.append("runtime "),
        UseScope::Compile => out.append("compile "),
        UseScope::Both => {},
    }
    out.append(module.name.as_str());
    if let Some(path) = &module.path {
        out.append(" \"");
        out.append(path.as_str());
        out.append("\"");
    } else if let Some(version) = &module.version {
        out.append(" \"");
        out.append(version.as_str());
        out.append("\"");
    }
    if let Some(alias) = &module.alias {
        out.append(" as ");
        out.append(alias.as_str());
    }
    assert(out@ =~= spec_format_use(*module));
    out
}

pub open spec fn spec_format_input_ref(input: InputRef) -> Seq<char> {
    let head = match input.source {
        InputSource::Path => "path"@,
        InputSource::Query => "query"@,
        InputSource::Body => "body"@,
        InputSource::Headers => "headers"@,
        InputSource::Input => "input"@,
    };
    head + concat_all(input.path@, |seg: String| "."@ + seg@)
}

pub fn format_input_ref(input: &InputRef) -> (r: String)
    ensures
        r@ == spec_format_input_ref(*input),
{
    let mut out = String::from_str(
        match input.source {
            InputSource::Path => "path",
            InputSource::Query => "query",
            InputSource::Body => "body",
            InputSource::Headers => "headers",
            InputSource::Input => "input",
        },
    );
    let ghost head = out@;
    let ghost f = |seg: String| "."@ + seg@;
    let mut i: usize = 0;
    while i < input.path.len()
        invariant
            0 <= i <= input.path@.len(),
            f == (|seg: String| "."@ + seg@),
            out@ == head + concat_all(input.path@.take(i as int), f),
        decreases input.path@.len() - i,
    {
        proof {
            lemma_concat_all_step(input.path@, i as int, f);
        }
        out.append(".");
        out.append(input.path[i].as_str());
        i += 1;
    }
    proof {
        lemma_take_full(input.path@);
    }
    out
}

pub open spec fn spec_format_arg(arg: CallArg) -> Seq<char> {
    match arg.name {
        Some(n) => n@ + "="@ + spec_format_input_ref(arg.value),
        None => spec_format_input_ref(arg.value),
    }
}

pub open spec fn spec_arg_texts(args: Seq<CallArg>) -> Seq<Seq<char>> {
    args.map_values(|a: CallArg| spec_format_arg(a))
}

proof fn lemma_arg_texts_step(args: Seq<CallArg>, i: int)
    requires
        0 <= i < args.len(),
    ensures
        spec_arg_texts(args.take(i + 1)) == spec_arg_texts(args.take(i)).push(
            spec_format_arg(args[i]),
        ),
{
    assert(spec_arg_texts(args.take(i + 1)) =~= spec_arg_texts(args.take(i)).push(
        spec_format_arg(args[i]),
    ));
}

proof fn lemma_constraint_parts_step(cs: Seq<(String, String)>, i: int)
    requires
        0 <= i < cs.len(),
    ensures
        spec_constraint_parts(cs.take(i + 1)) == spec_constraint_parts(cs.take(i)).push(
            spec_constraint_part(cs[i]),
        ),
{
    assert(spec_constraint_parts(cs.take(i + 1)) =~= spec_constraint_parts(cs.take(i)).push(
        spec_constraint_part(cs[i]),
    ));
}

pub open spec fn spec_format_call(call: CallSpec) -> Seq<char> {
    let target = match call.service {
        Some(s) => s@ + "."@,
        None => Seq::empty(),
    } + call.module@ + "."@ + call.function@;
    let prefix = if call.is_async {
        "async "@
    } else {
        Seq::empty()
    };
    let args = if call.args@.len() == 0 {
        Seq::empty()
    } else {
        "("@ + seq_join(spec_arg_texts(call.args@), ", "@) + ")"@
    };
    prefix + target + args
}

pub fn format_call(call: &CallSpec) -> (r: String)
    ensures
        r@ == spec_format_call(*call),
{
    let mut target = String::new();
    if let Some(service) = &call.service {
        target.append(service.as_str());
        target.append(".");
    }
    target.append(call.module.as_str());
    target.append(".");
    target.append(call.function.as_str());

    let mut out = String::new();
    if call.is_async {
        out.append("async ");
    }
    out.append(target.as_str());

    if call.args.len() > 0 {
        let mut args: Vec<String> = Vec::new();
        let mut i: usize = 0;
        while i < call.args.len()
            invariant
                0 <= i <= call.args@.len(),
                views(args@) == spec_arg_texts(call.args@.take(i as int)),
            decreases call.args@.len() - i,
        {
            let arg = &call.args[i];
            let value = format_input_ref(&arg.value);
            let item = match &arg.name {
                Some(name) => {
                    let mut s = String::from_str(name.as_str());
                    s.append("=");
                    s.append(value.as_str());
                    s
                },
                None => value,
            };
            assert(item@ == spec_format_arg(call.args@[i as int]));
            proof {
                lemma_views_push(args@, item);
                lemma_arg_texts_step(call.args@, i as int);
            }
            args.push(item);
            i += 1;
        }
        proof {
            lemma_take_full(call.args@);
        }
        let joined = join(&args, ", ");
        out.append("(");
        out.append(joined.as_str());
        out.append(")");
    }
    assert(out@ =~= spec_format_call(*call));
    out
}

// ---------------------------------------------------------------------------
// Types and fields
// ---------------------------------------------------------------------------

pub open spec fn spec_validation_parts(v: Validation) -> Seq<Seq<char>> {
    let p0: Seq<Seq<char>> = Seq::empty();
    let p1 = match v.min {
        Some(x) => p0.push("min="@ + dec_int(x as int)),
        None => p0,
    };
    let p2 = match v.max {
        Some(x) => p1.push("max="@ + dec_int(x as int)),
        None => p1,
    };
    let p3 = match v.min_len {
        Some(x) => p2.push("min_len="@ + dec_int(x as int)),
        None => p2,
    };
    let p4 = match v.max_len {
        Some(x) => p3.push("max_len="@ + dec_int(x as int)),
        None => p3,
    };
    let p5 = match v.min_items {
        Some(x) => p4.push("min_items="@ + dec_int(x as int)),
        None => p4,
    };
    let p6 = match v.max_items {
        Some(x) => p5.push("max_items="@ + dec_int(x as int)),
        None => p5,
    };
    let p7 = match v.regex {
        Some(x) => p6.push("regex=\""@ + x@ + "\""@),
        None => p6,
    };
    let p8 = match v.format {
        Some(x) => p7.push("format=\""@ + x@ + "\""@),
        None => p7,
    };
    p8 + spec_constraint_parts(v.constraints@)
}

pub open spec fn spec_constraint_part(kv: (String, String)) -> Seq<char> {
    kv.0@ + "=\""@ + kv.1@ + "\""@
}

pub open spec fn spec_constraint_parts(cs: Seq<(String, String)>) -> Seq<Seq<char>> {
    cs.map_values(|kv: (String, String)| spec_constraint_part(kv))
}

/// The validation arguments of a field, comma separated.
pub open spec fn spec_format_validation(v: Validation) -> Seq<char> {
    seq_join(spec_validation_parts(v), ", "@)
}

fn push_number_part(parts: &mut Vec<String>, label: &str, val: Option<i64>)
    ensures
        views(final(parts)@) == match val {
            Some(x) => views(old(parts)@).push(label@ + dec_int(x as int)),
            None => views(old(parts)@),
        },
{
    if let Some(x) = val {
        let mut s = String::from_str(label);
        let d = i64_to_string(x);
        s.append(d.as_str());
        parts.push(s);
        assert(views(parts@) =~= views(old(parts)@).push(label@ + dec_int(x as int)));
    }
}

fn push_quoted_part(parts: &mut Vec<String>, label: &str, val: &Option<String>)
    ensures
        views(final(parts)@) == match *val {
            Some(x) => views(old(parts)@).push(label@ + x@ + "\""@),
            None => views(old(parts)@),
        },
{
    if let Some(x) = val {
        let mut s = String::from_str(label);
        s.append(x.as_str());
        s.append("\"");
        parts.push(s);
        assert(views(parts@) =~= views(old(parts)@).push(label@ + x@ + "\""@));
    }
}

pub fn format_validation(v: &Validation) -> (r: String)
    ensures
        r@ == spec_format_validation(*v),
{
    let mut parts: Vec<String> = Vec::new();
    assert(views(parts@) =~= Seq::<Seq<char>>::empty());
    push_number_part(&mut parts, "min=", v.min);
    push_number_part(&mut parts, "max=", v.max);
    push_number_part(&mut parts, "min_len=", v.min_len);
    push_number_part(&mut parts, "max_len=", v.max_len);
    push_number_part(&mut parts, "min_items=", v.min_items);
    push_number_part(&mut parts, "max_items=", v.max_items);
    push_quoted_part(&mut parts, "regex=\"", &v.regex);
    push_quoted_part(&mut parts, "format=\"", &v.format);
    let ghost fixed = views(parts@);
    let mut i: usize = 0;
    while i < v.constraints.len()
        invariant
            0 <= i <= v.constraints@.len(),
            views(parts@) == fixed + spec_constraint_parts(v.constraints@.take(i as int)),
        decreases v.constraints@.len() - i,
    {
        let mut s = v.constraints[i].0.clone();
        s.append("=\"");
        s.append(v.constraints[i].1.as_str());
        s.append("\"");
        assert(s@ == spec_constraint_part(v.constraints@[i as int]));
        proof {
            lemma_views_push(parts@, s);
            lemma_constraint_parts_step(v.constraints@, i as int);
        }
        parts.push(s);
        i += 1;
    }
    proof {
        lemma_take_full(v.constraints@);
    }
    join(&parts, ", ")
}

pub open spec fn spec_format_type(ty: Type) -> Seq<char>
    decreases ty, 0nat,
{
    match ty {
        Type::String => "string"@,
        Type::Int => "int"@,
        Type::Float => "float"@,
        Type::Bool => "bool"@,
        Type::Void => "void"@,
        Type::Any => "any"@,
        Type::Named(n) => spec_display(n),
        Type::Array(inner) => "array<"@ + spec_format_type(*inner) + ">"@,
        Type::MapOf(inner) => "map<"@ + spec_format_type(*inner) + ">"@,
        Type::Union(items) => "union<"@ + spec_format_types(items@, items@.len()) + ">"@,
        Type::OneOf(items) => "oneof<"@ + spec_format_types(items@, items@.len()) + ">"@,
        Type::Nullable(inner) => "nullable<"@ + spec_format_type(*inner) + ">"@,
        Type::Object(fields) => "{ "@ + spec_format_fields(fields@, fields@.len()) + " }"@,
    }
}

/// A list is written `array<..>` around its element's text, and so never
/// reads as a map, a nullable type, a union or a oneof, whatever the
/// element types; two lists read alike only when their elements do.
pub proof fn law_format_keeps_lists(elem: Type, other: Type, items: Vec<Type>)
    ensures
        spec_format_type(Type::Array(Box::new(elem))) == "array<"@ + spec_format_type(elem)
            + ">"@,
        spec_format_type(Type::Array(Box::new(elem))) != spec_format_type(
            Type::MapOf(Box::new(other)),
        ),
        spec_format_type(Type::Array(Box::new(elem))) != spec_format_type(
            Type::Nullable(Box::new(other)),
        ),
        spec_format_type(Type::Array(Box::new(elem))) != spec_format_type(Type::Union(items)),
        spec_format_type(Type::Array(Box::new(elem))) != spec_format_type(Type::OneOf(items)),
        spec_format_type(Type::Array(Box::new(elem))) == spec_format_type(
            Type::Array(Box::new(other)),
        ) ==> spec_format_type(elem) == spec_format_type(other),
{
    reveal_strlit("array<");
    reveal_strlit("map<");
    reveal_strlit("nullable<");
    reveal_strlit("union<");
    reveal_strlit("oneof<");
    reveal_strlit(">");
    let a = spec_format_type(Type::Array(Box::new(elem)));
    assert(a[0] == 'a');
    assert(spec_format_type(Type::MapOf(Box::new(other)))[0] == 'm');
    assert(spec_format_type(Type::Nullable(Box::new(other)))[0] == 'n');
    assert(spec_format_type(Type::Union(items))[0] == 'u');
    assert(spec_format_type(Type::OneOf(items))[0] == 'o');
    let b = spec_format_type(Type::Array(Box::new(other)));
    if a == b {
        let e = spec_format_type(elem);
        let o = spec_format_type(other);
        assert(a.len() == e.len() + 7);
        assert(b.len() == o.len() + 7);
        assert(e =~= a.subrange(6, a.len() - 1));
        assert(o =~= b.subrange(6, b.len() - 1));
    }
}

/// The first `n` types, each formatted, comma separated.
pub open spec fn spec_format_types(items: Seq<Type>, n: nat) -> Seq<char>
    decreases items, n,
{
    if n == 0 || n > items.len() {
        Seq::empty()
    } else if n == 1 {
        spec_format_type(items[0])
    } else {
        spec_format_types(items, (n - 1) as nat) + ", "@ + spec_format_type(items[n - 1])
    }
}

/// The first `n` fields, each formatted, comma separated.
pub open spec fn spec_format_fields(fields: Seq<Field>, n: nat) -> Seq<char>
    decreases fields, n,
{
    if n == 0 || n > fields.len() {
        Seq::empty()
    } else if n == 1 {
        spec_format_field(fields[0])
    } else {
        spec_format_fields(fields, (n - 1) as nat) + ", "@ + spec_format_field(fields[n - 1])
    }
}

/// `name: type`, `?` after the name when optional, validation arguments
/// in brackets when there are any.
pub open spec fn spec_format_field(f: Field) -> Seq<char>
    decreases f, 0nat,
{
    let name = if f.optional {
        f.name@.push('?')
    } else {
        f.name@
    };
    let v = match f.validation {
        Some(val) => {
            let s = spec_format_validation(val);
            if s.len() == 0 {
                Seq::empty()
            } else {
                "("@ + s + ")"@
            }
        },
        None => Seq::empty(),
    };
    name + ": "@ + spec_format_type(f.ty) + v
}

#[verifier::loop_isolation(false)]
pub fn format_type(ty: &Type) -> (r: String)
    ensures
        r@ == spec_format_type(*ty),
    decreases ty, 0nat,
{
    match ty {
        Type::String => String::from_str("string"),
        Type::Int => String::from_str("int"),
        Type::Float => String::from_str("float"),
        Type::Bool => String::from_str("bool"),
        Type::Void => String::from_str("void"),
        Type::Any => String::from_str("any"),
        Type::Named(n) => n.display(),
        Type::Array(inner) => {
            let mut s = String::from_str("array<");
            let x = format_type(inner);
            s.append(x.as_str());
            s.append(">");
            s
        },
        Type::MapOf(inner) => {
            let mut s = String::from_str("map<");
            let x = format_type(inner);
            s.append(x.as_str());
            s.append(">");
            s
        },
        Type::Nullable(inner) => {
            let mut s = String::from_str("nullable<");
            let x = format_type(inner);
            s.append(x.as_str());
            s.append(">");
            s
        },
        Type::Union(items) => {
            let mut s = String::from_str("union<");
            let x = format_types(items);
            s.append(x.as_str());
            s.append(">");
            s
        },
        Type::OneOf(items) => {
            let mut s = String::from_str("oneof<");
            let x = format_types(items);
            s.append(x.as_str());
            s.append(">");
            s
        },
        Type::Object(fields) => {
            let mut s = String::from_str("{ ");
            let x = format_fields(fields);
            s.append(x.as_str());
            s.append(" }");
            s
        },
    }
}

fn format_types(items: &Vec<Type>) -> (r: String)
    ensures
        r@ == spec_format_types(items@, items@.len()),
    decreases items, 1nat,
{
    let mut out = String::new();
    let mut i: usize = 0;
    while i < items.len()
        invariant
            0 <= i <= items@.len(),
            out@ == spec_format_types(items@, i as nat),
        decreases items@.len() - i,
    {
        assert(decreases_to!(items => items@[i as int]));
        let x = format_type(&items[i]);
        if i > 0 {
            out.append(", ");
        }
        out.append(x.as_str());
        i += 1;
        assert(out@ =~= spec_format_types(items@, i as nat));
    }
    out
}

fn format_fields(fields: &Vec<Field>) -> (r: String)
    ensures
        r@ == spec_format_fields(fields@, fields@.len()),
    decreases fields, 1nat,
{
    let mut out = String::new();
    let mut i: usize = 0;
    while i < fields.len()
        invariant
            0 <= i <= fields@.len(),
            out@ == spec_format_fields(fields@, i as nat),
        decreases fields@.len() - i,
    {
        assert(decreases_to!(fields => fields@[i as int]));
        let x = format_field(&fields[i]);
        if i > 0 {
            out.append(", ");
        }
        out.append(x.as_str());
        i += 1;
        assert(out@ =~= spec_format_fields(fields@, i as nat));
    }
    out
}

pub fn format_field(field: &Field) -> (r: String)
    ensures
        r@ == spec_format_field(*field),
    decreases field, 0nat,
{
    let mut name = field.name.clone();
    if field.optional {
        push_char(&mut name, '?');
    }
    let mut out = name;
    out.append(": ");
    let t = format_type(&field.ty);
    out.append(t.as_str());
    if let Some(val) = &field.validation {
        let v = format_validation(val);
        if v.as_str().unicode_len() > 0 {
            out.append("(");
            out.append(v.as_str());
            out.append(")");
        }
    }
    assert(out@ =~= spec_format_field(*field));
    out
}

/// A response: the bare type for 200, the bare status for no body, else
/// status and type.
pub open spec fn spec_format_response(resp: ResponseSpec) -> Seq<char> {
    if resp.status == 200 {
        spec_format_type(resp.ty)
    } else if resp.ty is Void {
        dec_nat(resp.status as nat)
    } else {
        dec_nat(resp.status as nat) + " "@ + spec_format_type(resp.ty)
    }
}

pub fn format_response(resp: &ResponseSpec) -> (r: String)
    ensures
        r@ == spec_format_response(*resp),
{
    if resp.status == 200 {
        format_type(&resp.ty)
    } else if let Type::Void = resp.ty {
        u64_to_string(resp.status as u64)
    } else {
        let mut s = u64_to_string(resp.status as u64);
        s.append(" ");
        let t = format_type(&resp.ty);
        s.append(t.as_str());
        s
    }
}

// ---------------------------------------------------------------------------
// Repeated line shapes
// ---------------------------------------------------------------------------

pub open spec fn spec_field_line(indent: Seq<char>, f: Field) -> Seq<char> {
    indent + spec_format_field(f) + "\n"@
}

pub open spec fn spec_field_lines(indent: Seq<char>, fields: Seq<Field>) -> Seq<char> {
    concat_all(fields, |f: Field| spec_field_line(indent, f))
}

fn emit_field_lines(out: &mut String, indent: &str, fields: &Vec<Field>)
    ensures
        final(out)@ == old(out)@ + spec_field_lines(indent@, fields@),
{
    let ghost start = out@;
    let mut i: usize = 0;
    while i < fields.len()
        invariant
            0 <= i <= fields@.len(),
            out@ == start + spec_field_lines(indent@, fields@.take(i as int)),
        decreases fields@.len() - i,
    {
        proof {
            lemma_concat_all_step(fields@, i as int, |f: Field| spec_field_line(indent@, f));
        }
        out.append(indent);
        let x = format_field(&fields[i]);
        out.append(x.as_str());
        out.append("\n");
        i += 1;
    }
    proof {
        lemma_take_full(fields@);
    }
}

/// A `label:` line followed by the field lines, or nothing for no field.
pub open spec fn spec_field_block(
    label_indent: Seq<char>,
    label: Seq<char>,
    indent: Seq<char>,
    fields: Seq<Field>,
) -> Seq<char> {
    if fields.len() == 0 {
        Seq::empty()
    } else {
        label_indent + label + ":\n"@ + spec_field_lines(indent, fields)
    }
}

fn emit_field_block(
    out: &mut String,
    label_indent: &str,
    label: &str,
    indent: &str,
    fields: &Vec<Field>,
)
    ensures
        final(out)@ == old(out)@ + spec_field_block(label_indent@, label@, indent@, fields@),
{
    if fields.len() > 0 {
        out.append(label_indent);
        out.append(label);
        out.append(":\n");
        emit_field_lines(out, indent, fields);
    } else {
        assert(out@ =~= old(out)@ + Seq::<char>::empty());
    }
}

pub open spec fn spec_word_line(indent: Seq<char>, word: Seq<char>, s: String) -> Seq<char> {
    indent + word + s@ + "\n"@
}

pub open spec fn spec_word_lines(indent: Seq<char>, word: Seq<char>, v: Seq<String>) -> Seq<char> {
    concat_all(v, |s: String| spec_word_line(indent, word, s))
}

/// One line `indent word item` per item.
fn emit_word_lines(out: &mut String, indent: &str, word: &str, v: &Vec<String>)
    ensures
        final(out)@ == old(out)@ + spec_word_lines(indent@, word@, v@),
{
    let ghost start = out@;
    let mut i: usize = 0;
    while i < v.len()
        invariant
            0 <= i <= v@.len(),
            out@ == start + spec_word_lines(indent@, word@, v@.take(i as int)),
        decreases v@.len() - i,
    {
        proof {
            lemma_concat_all_step(v@, i as int, |s: String| spec_word_line(indent@, word@, s));
        }
        out.append(indent);
        out.append(word);
        out.append(v[i].as_str());
        out.append("\n");
        i += 1;
    }
    proof {
        lemma_take_full(v@);
    }
}

pub open spec fn spec_use_line(indent: Seq<char>, m: ModuleUse) -> Seq<char> {
    indent + spec_format_use(m) + "\n"@
}

pub open spec fn spec_use_lines(indent: Seq<char>, v: Seq<ModuleUse>) -> Seq<char> {
    concat_all(v, |m: ModuleUse| spec_use_line(indent, m))
}

fn emit_use_lines(out: &mut String, indent: &str, v: &Vec<ModuleUse>)
    ensures
        final(out)@ == old(out)@ + spec_use_lines(indent@, v@),
{
    let ghost start = out@;
    let mut i: usize = 0;
    while i < v.len()
        invariant
            0 <= i <= v@.len(),
            out@ == start + spec_use_lines(indent@, v@.take(i as int)),
        decreases v@.len() - i,
    {
        proof {
            lemma_concat_all_step(v@, i as int, |m: ModuleUse| spec_use_line(indent@, m));
        }
        out.append(indent);
        let x = format_use(&v[i]);
        out.append(x.as_str());
        out.append("\n");
        i += 1;
    }
    proof {
        lemma_take_full(v@);
    }
}

pub open spec fn spec_auth_line(indent: Seq<char>, auth: Option<AuthSpec>) -> Seq<char> {
    match auth {
        Some(a) => indent + "auth "@ + spec_format_auth(a) + "\n"@,
        None => Seq::empty(),
    }
}

fn emit_auth_line(out: &mut String, indent: &str, auth: &Option<AuthSpec>)
    ensures
        final(out)@ == old(out)@ + spec_auth_line(indent@, *auth),
{
    if let Some(a) = auth {
        out.append(indent);
        out.append("auth ");
        out.append(format_auth(a));
        out.append("\n");
    } else {
        assert(out@ =~= old(out)@ + Seq::<char>::empty());
    }
}

pub open spec fn spec_rate_limit_line(indent: Seq<char>, limit: Option<RateLimit>) -> Seq<char> {
    match limit {
        Some(l) => indent + "rate_limit "@ + spec_format_rate_limit(l) + "\n"@,
        None => Seq::empty(),
    }
}

fn emit_rate_limit_line(out: &mut String, indent: &str, limit: &Option<RateLimit>)
    ensures
        final(out)@ == old(out)@ + spec_rate_limit_line(indent@, *limit),
{
    if let Some(l) = limit {
        out.append(indent);
        out.append("rate_limit ");
        let x = format_rate_limit(l);
        out.append(x.as_str());
        out.append("\n");
    } else {
        assert(out@ =~= old(out)@ + Seq::<char>::empty());
    }
}

/// `indent label: "value"` when the value is present.
pub open spec fn spec_quoted_line(indent: Seq<char>, label: Seq<char>, v: Option<String>) -> Seq<
    char,
> {
    match v {
        Some(x) => indent + label + ": \""@ + x@ + "\"\n"@,
        None => Seq::empty(),
    }
}

fn emit_quoted_line(out: &mut String, indent: &str, label: &str, v: &Option<String>)
    ensures
        final(out)@ == old(out)@ + spec_quoted_line(indent@, label@, *v),
{
    if let Some(x) = v {
        out.append(indent);
        out.append(label);
        out.append(": \"");
        out.append(x.as_str());
        out.append("\"\n");
    } else {
        assert(out@ =~= old(out)@ + Seq::<char>::empty());
    }
}

/// `indent label: number` when the number is present.
pub open spec fn spec_number_line(indent: Seq<char>, label: Seq<char>, v: Option<u64>) -> Seq<
    char,
> {
    match v {
        Some(x) => indent + label + ": "@ + dec_nat(x as nat) + "\n"@,
        None => Seq::empty(),
    }
}

fn emit_number_line(out: &mut String, indent: &str, label: &str, v: Option<u64>)
    ensures
        final(out)@ == old(out)@ + spec_number_line(indent@, label@, v),
{
    if let Some(x) = v {
        out.append(indent);
        out.append(label);
        out.append(": ");
        let d = u64_to_string(x);
        out.append(d.as_str());
        out.append("\n");
    } else {
        assert(out@ =~= old(out)@ + Seq::<char>::empty());
    }
}

pub open spec fn opt_u16_to_u64(v: Option<u16>) -> Option<u64> {
    match v {
        Some(x) => Some(x as u64),
        None => None,
    }
}

fn widen_port(v: Option<u16>) -> (r: Option<u64>)
    ensures
        r == opt_u16_to_u64(v),
{
    match v {
        Some(x) => Some(x as u64),
        None => None,
    }
}

// ---------------------------------------------------------------------------
// Service sections
// ---------------------------------------------------------------------------

pub open spec fn spec_lang_word(l: Lang) -> Seq<char> {
    match l {
        Lang::Rust => "rust"@,
        Lang::TypeScript => "ts"@,
        Lang::Go => "go"@,
    }
}

pub open spec fn spec_service_decl(svc: Service) -> Seq<char> {
    "service "@ + svc.name@ + match svc.language {
        Some(l) => " "@ + spec_lang_word(l),
        None => Seq::empty(),
    } + ":"@ + "\n"@
}

fn emit_service_decl(out: &mut String, svc: &Service)
    ensures
        final(out)@ == old(out)@ + spec_service_decl(*svc),
{
    out.append("service ");
    out.append(svc.name.as_str());
    if let Some(l) = &svc.language {
        out.append(" ");
        out.append(
            match l {
                Lang::Rust => "rust",
                Lang::TypeScript => "ts",
                Lang::Go => "go",
            },
        );
    }
    out.append(":");
    out.append("\n");
    assert(out@ =~= old(out)@ + spec_service_decl(*svc));
}

pub open spec fn spec_cors_origins(cors: CorsConfig) -> Seq<char> {
    if cors.allow_any {
        "        cors: \"*\"\n"@
    } else if cors.origins@.len() > 0 {
        "        cors: \""@ + seq_join(views(cors.origins@), ", "@) + "\"\n"@
    } else {
        Seq::empty()
    }
}

pub open spec fn spec_list_line(label: Seq<char>, v: Seq<String>) -> Seq<char> {
    if v.len() > 0 {
        "        "@ + label + ": \""@ + seq_join(views(v), ", "@) + "\"\n"@
    } else {
        Seq::empty()
    }
}

pub open spec fn spec_cors_lines(cors: CorsConfig) -> Seq<char> {
    spec_cors_origins(cors) + spec_list_line("cors_methods"@, cors.methods@) + spec_list_line(
        "cors_headers"@,
        cors.headers@,
    )
}

fn emit_list_line(out: &mut String, label: &str, v: &Vec<String>)
    ensures
        final(out)@ == old(out)@ + spec_list_line(label@, v@),
{
    if v.len() > 0 {
        out.append("        ");
        out.append(label);
        out.append(": \"");
        let j = join(v, ", ");
        out.append(j.as_str());
        out.append("\"\n");
    } else {
        proof {
            lemma_add_empty(out@);
        }
    }
}

pub open spec fn spec_config_block(svc: Service) -> Seq<char> {
    let c = svc.common;
    if c.address is Some || c.port is Some || c.base_url is Some || c.cors is Some {
        "    config:\n"@ + spec_quoted_line("        "@, "address"@, c.address) + spec_number_line(
            "        "@,
            "port"@,
            opt_u16_to_u64(c.port),
        ) + spec_quoted_line("        "@, "base_url"@, c.base_url) + match c.cors {
            Some(cors) => spec_cors_lines(cors),
            None => Seq::empty(),
        }
    } else {
        Seq::empty()
    }
}

fn emit_cors_lines(out: &mut String, cors: &CorsConfig)
    ensures
        final(out)@ == old(out)@ + spec_cors_lines(*cors),
{
    let ghost start = out@;
    if cors.allow_any {
        out.append("        cors: \"*\"\n");
    } else if cors.origins.len() > 0 {
        out.append("        cors: \"");
        let j = join(&cors.origins, ", ");
        out.append(j.as_str());
        out.append("\"\n");
    } else {
        proof {
            lemma_add_empty(out@);
        }
    }
    emit_list_line(out, "cors_methods", &cors.methods);
    emit_list_line(out, "cors_headers", &cors.headers);
}

fn emit_config_block(out: &mut String, svc: &Service)
    ensures
        final(out)@ == old(out)@ + spec_config_block(*svc),
{
    let c = &svc.common;
    if c.address.is_some() || c.port.is_some() || c.base_url.is_some() || c.cors.is_some() {
        let ghost start = out@;
        out.append("    config:\n");
        emit_quoted_line(out, "        ", "address", &c.address);
        emit_number_line(out, "        ", "port", widen_port(c.port));
        emit_quoted_line(out, "        ", "base_url", &c.base_url);
        if let Some(cors) = &c.cors {
            emit_cors_lines(out, cors);
        }
        assert(out@ =~= start + spec_config_block(*svc));
    } else {
        assert(out@ =~= old(out)@ + Seq::<char>::empty());
    }
}

pub open spec fn spec_grpc_block(svc: Service) -> Seq<char> {
    match svc.rpc.grpc_config {
        Some(cfg) => "    grpc_config:\n"@ + spec_quoted_line("        "@, "address"@, cfg.address)
            + spec_number_line("        "@, "port"@, opt_u16_to_u64(cfg.port)) + spec_number_line(
            "        "@,
            "max_message_size"@,
            cfg.max_message_size,
        ) + match (cfg.tls_cert, cfg.tls_key) {
            (Some(cert), Some(key)) => "        tls: \""@ + cert@ + "\" \""@ + key@ + "\"\n"@,
            _ => Seq::empty(),
        },
        None => Seq::empty(),
    }
}

fn emit_grpc_block(out: &mut String, svc: &Service)
    ensures
        final(out)@ == old(out)@ + spec_grpc_block(*svc),
{
    if let Some(cfg) = &svc.rpc.grpc_config {
        let ghost start = out@;
        out.append("    grpc_config:\n");
        emit_quoted_line(out, "        ", "address", &cfg.address);
        emit_number_line(out, "        ", "port", widen_port(cfg.port));
        emit_number_line(out, "        ", "max_message_size", cfg.max_message_size);
        if let (Some(cert), Some(key)) = (&cfg.tls_cert, &cfg.tls_key) {
            out.append("        tls: \"");
            out.append(cert.as_str());
            out.append("\" \"");
            out.append(key.as_str());
            out.append("\"\n");
        }
        assert(out@ =~= start + spec_grpc_block(*svc));
    } else {
        assert(out@ =~= old(out)@ + Seq::<char>::empty());
    }
}

pub open spec fn spec_events_block(svc: Service) -> Seq<char> {
    match svc.events.config {
        Some(cfg) => "    events_config:\n"@ + "        broker: \""@ + "redis"@ + "\"\n"@
            + spec_quoted_line("        "@, "url"@, cfg.url) + spec_quoted_line(
            "        "@,
            "stream_prefix"@,
            cfg.stream_prefix,
        ) + spec_quoted_line("        "@, "group"@, cfg.group) + spec_quoted_line(
            "        "@,
            "consumer"@,
            cfg.consumer,
        ),
        None => Seq::empty(),
    }
}

fn emit_events_block(out: &mut String, svc: &Service)
    ensures
        final(out)@ == old(out)@ + spec_events_block(*svc),
{
    if let Some(cfg) = &svc.events.config {
        let ghost start = out@;
        out.append("    events_config:\n");
        out.append("        broker: \"");
        out.append(
            match cfg.broker {
                EventsBroker::Redis => "redis",
            },
        );
        out.append("\"\n");
        emit_quoted_line(out, "        ", "url", &cfg.url);
        emit_quoted_line(out, "        ", "stream_prefix", &cfg.stream_prefix);
        emit_quoted_line(out, "        ", "group", &cfg.group);
        emit_quoted_line(out, "        ", "consumer", &cfg.consumer);
        assert(out@ =~= start + spec_events_block(*svc));
    } else {
        assert(out@ =~= old(out)@ + Seq::<char>::empty());
    }
}

pub open spec fn spec_env_line(e: EnvVar) -> Seq<char> {
    match e.default {
        Some(d) => "    env "@ + e.name@ + "=\""@ + d@ + "\"\n"@,
        None => "    env "@ + e.name@ + "\n"@,
    }
}

pub open spec fn spec_env_lines(v: Seq<EnvVar>) -> Seq<char> {
    concat_all(v, |e: EnvVar| spec_env_line(e))
}

fn emit_env_lines(out: &mut String, v: &Vec<EnvVar>)
    ensures
        final(out)@ == old(out)@ + spec_env_lines(v@),
{
    let ghost start = out@;
    let mut i: usize = 0;
    while i < v.len()
        invariant
            0 <= i <= v@.len(),
            out@ == start + spec_env_lines(v@.take(i as int)),
        decreases v@.len() - i,
    {
        proof {
            lemma_concat_all_step(v@, i as int, |e: EnvVar| spec_env_line(e));
        }
        out.append("    env ");
        out.append(v[i].name.as_str());
        if let Some(d) = &v[i].default {
            out.append("=\"");
            out.append(d.as_str());
            out.append("\"\n");
        } else {
            out.append("\n");
        }
        i += 1;
    }
    proof {
        lemma_take_full(v@);
    }
}

pub open spec fn spec_name_line(indent: Seq<char>, word: Seq<char>, n: TypeName) -> Seq<char> {
    indent + word + spec_display(n) + "\n"@
}

pub open spec fn spec_name_lines(indent: Seq<char>, word: Seq<char>, v: Seq<TypeName>) -> Seq<
    char,
> {
    concat_all(v, |n: TypeName| spec_name_line(indent, word, n))
}

fn emit_name_lines(out: &mut String, indent: &str, word: &str, v: &Vec<TypeName>)
    ensures
        final(out)@ == old(out)@ + spec_name_lines(indent@, word@, v@),
{
    let ghost start = out@;
    let mut i: usize = 0;
    while i < v.len()
        invariant
            0 <= i <= v@.len(),
            out@ == start + spec_name_lines(indent@, word@, v@.take(i as int)),
        decreases v@.len() - i,
    {
        proof {
            lemma_concat_all_step(v@, i as int, |n: TypeName| spec_name_line(indent@, word@, n));
        }
        out.append(indent);
        out.append(word);
        let d = v[i].display();
        out.append(d.as_str());
        out.append("\n");
        i += 1;
    }
    proof {
        lemma_take_full(v@);
    }
}

pub open spec fn spec_type_block(t: TypeDef) -> Seq<char> {
    "\n    type "@ + spec_display(t.name) + ":\n"@ + spec_field_lines("        "@, t.fields@)
}

pub open spec fn spec_type_blocks(v: Seq<TypeDef>) -> Seq<char> {
    concat_all(v, |t: TypeDef| spec_type_block(t))
}

fn emit_type_blocks(out: &mut String, v: &Vec<TypeDef>)
    ensures
        final(out)@ == old(out)@ + spec_type_blocks(v@),
{
    let ghost start = out@;
    let mut i: usize = 0;
    while i < v.len()
        invariant
            0 <= i <= v@.len(),
            out@ == start + spec_type_blocks(v@.take(i as int)),
        decreases v@.len() - i,
    {
        proof {
            lemma_concat_all_step(v@, i as int, |t: TypeDef| spec_type_block(t));
        }
        out.append("\n    type ");
        let d = v[i].name.display();
        out.append(d.as_str());
        out.append(":\n");
        emit_field_lines(out, "        ", &v[i].fields);
        i += 1;
    }
    proof {
        lemma_take_full(v@);
    }
}

pub open spec fn spec_variant_line(var: EnumVariant) -> Seq<char> {
    match var.value {
        Some(x) => "        "@ + var.name@ + " = "@ + dec_int(x as int) + "\n"@,
        None => "        "@ + var.name@ + "\n"@,
    }
}

pub open spec fn spec_enum_block(en: EnumDef) -> Seq<char> {
    "\n    enum "@ + spec_display(en.name) + ":\n"@ + concat_all(
        en.variants@,
        |v: EnumVariant| spec_variant_line(v),
    )
}

pub open spec fn spec_enum_blocks(v: Seq<EnumDef>) -> Seq<char> {
    concat_all(v, |en: EnumDef| spec_enum_block(en))
}

fn emit_enum_blocks(out: &mut String, v: &Vec<EnumDef>)
    ensures
        final(out)@ == old(out)@ + spec_enum_blocks(v@),
{
    let ghost start = out@;
    let mut i: usize = 0;
    while i < v.len()
        invariant
            0 <= i <= v@.len(),
            out@ == start + spec_enum_blocks(v@.take(i as int)),
        decreases v@.len() - i,
    {
        proof {
            lemma_concat_all_step(v@, i as int, |en: EnumDef| spec_enum_block(en));
        }
        out.append("\n    enum ");
        let d = v[i].name.display();
        out.append(d.as_str());
        out.append(":\n");
        let vars = &v[i].variants;
        let ghost mid = out@;
        let mut k: usize = 0;
        while k < vars.len()
            invariant
                0 <= k <= vars@.len(),
                out@ == mid + concat_all(vars@.take(k as int), |v: EnumVariant| spec_variant_line(v)),
            decreases vars@.len() - k,
        {
            proof {
                lemma_concat_all_step(vars@, k as int, |v: EnumVariant| spec_variant_line(v));
            }
            out.append("        ");
            out.append(vars[k].name.as_str());
            if let Some(x) = vars[k].value {
                out.append(" = ");
                let dd = i64_to_string(x);
                out.append(dd.as_str());
            }
            out.append("\n");
            k += 1;
        }
        proof {
            lemma_take_full(vars@);
        }
        i += 1;
    }
    proof {
        lemma_take_full(v@);
    }
}

pub open spec fn spec_event_block(ev: EventDef) -> Seq<char> {
    "\n    event "@ + spec_display(ev.name) + ":\n"@ + "        payload: "@ + spec_format_type(
        ev.payload,
    ) + "\n"@
}

pub open spec fn spec_event_blocks(v: Seq<EventDef>) -> Seq<char> {
    concat_all(v, |ev: EventDef| spec_event_block(ev))
}

fn emit_event_blocks(out: &mut String, v: &Vec<EventDef>)
    ensures
        final(out)@ == old(out)@ + spec_event_blocks(v@),
{
    let ghost start = out@;
    let mut i: usize = 0;
    while i < v.len()
        invariant
            0 <= i <= v@.len(),
            out@ == start + spec_event_blocks(v@.take(i as int)),
        decreases v@.len() - i,
    {
        proof {
            lemma_concat_all_step(v@, i as int, |ev: EventDef| spec_event_block(ev));
        }
        out.append("\n    event ");
        let d = v[i].name.display();
        out.append(d.as_str());
        out.append(":\n");
        out.append("        payload: ");
        let t = format_type(&v[i].payload);
        out.append(t.as_str());
        out.append("\n");
        i += 1;
    }
    proof {
        lemma_take_full(v@);
    }
}

// ---------------------------------------------------------------------------
// RPC methods
// ---------------------------------------------------------------------------

#[verifier::opaque]
pub open spec fn spec_rpc_block(rpc: RpcDef) -> Seq<char> {
    "\n    rpc "@ + rpc.service@ + "."@ + spec_format_name_version(rpc.name@, rpc.version) + ":\n"@
        + spec_use_lines("        "@, rpc.modules@) + spec_field_block(
        "        "@,
        "input"@,
        "            "@,
        rpc.input@,
    ) + spec_field_block("        "@, "headers"@, "            "@, rpc.headers@) + "        output "@
        + spec_format_type(rpc.output) + "\n"@ + spec_auth_line("        "@, rpc.auth)
        + spec_word_lines("        "@, "middleware "@, rpc.middleware@) + spec_rate_limit_line(
        "        "@,
        rpc.rate_limit,
    ) + "        call "@ + spec_format_call(rpc.call) + "\n"@
}

pub open spec fn spec_rpc_blocks(v: Seq<RpcDef>) -> Seq<char> {
    concat_all(v, |r: RpcDef| spec_rpc_block(r))
}

fn emit_rpc_block(out: &mut String, rpc: &RpcDef)
    ensures
        final(out)@ == old(out)@ + spec_rpc_block(*rpc),
{
    reveal(spec_rpc_block);
    let mut blk = String::from_str("\n    rpc ");
    blk.append(rpc.service.as_str());
    blk.append(".");
    let nv = format_name_version(rpc.name.as_str(), rpc.version);
    blk.append(nv.as_str());
    blk.append(":\n");
    emit_use_lines(&mut blk, "        ", &rpc.modules);
    emit_field_block(&mut blk, "        ", "input", "            ", &rpc.input);
    emit_field_block(&mut blk, "        ", "headers", "            ", &rpc.headers);
    blk.append("        output ");
    let t = format_type(&rpc.output);
    blk.append(t.as_str());
    blk.append("\n");
    emit_auth_line(&mut blk, "        ", &rpc.auth);
    emit_word_lines(&mut blk, "        ", "middleware ", &rpc.middleware);
    emit_rate_limit_line(&mut blk, "        ", &rpc.rate_limit);
    blk.append("        call ");
    let c = format_call(&rpc.call);
    blk.append(c.as_str());
    blk.append("\n");
    out.append(blk.as_str());
}

fn emit_rpc_blocks(out: &mut String, v: &Vec<RpcDef>)
    ensures
        final(out)@ == old(out)@ + spec_rpc_blocks(v@),
{
    let ghost start = out@;
    let mut i: usize = 0;
    while i < v.len()
        invariant
            0 <= i <= v@.len(),
            out@ == start + spec_rpc_blocks(v@.take(i as int)),
        decreases v@.len() - i,
    {
        proof {
            lemma_concat_all_step(v@, i as int, |r: RpcDef| spec_rpc_block(r));
        }
        emit_rpc_block(out, &v[i]);
        i += 1;
    }
    proof {
        lemma_take_full(v@);
    }
}

// ---------------------------------------------------------------------------
// Sockets
// ---------------------------------------------------------------------------

pub open spec fn spec_room_line(indent: Seq<char>, room: String) -> Seq<char> {
    indent + "room \""@ + room@ + "\"\n"@
}

pub open spec fn spec_trigger_block(t: SocketTrigger) -> Seq<char> {
    "        trigger "@ + spec_display(t.name) + ":\n"@ + match t.room {
        Some(r) => spec_room_line("            "@, r),
        None => Seq::empty(),
    } + "            payload "@ + spec_format_type(t.payload) + "\n"@
}

pub open spec fn spec_message_line(m: SocketMessage) -> Seq<char> {
    "            "@ + spec_display(m.name) + " -> "@ + spec_format_call(m.handler) + "\n"@
}

pub open spec fn spec_message_block(label: Seq<char>, v: Seq<SocketMessage>) -> Seq<char> {
    if v.len() == 0 {
        Seq::empty()
    } else {
        "        "@ + label + ":\n"@ + concat_all(v, |m: SocketMessage| spec_message_line(m))
    }
}

#[verifier::opaque]
pub open spec fn spec_socket_block(s: SocketDef) -> Seq<char> {
    "\n    socket "@ + spec_display(s.name) + " \""@ + s.path@ + "\":\n"@ + concat_all(
        s.rooms@,
        |r: String| spec_room_line("        "@, r),
    ) + concat_all(s.triggers@, |t: SocketTrigger| spec_trigger_block(t)) + spec_use_lines(
        "        "@,
        s.modules@,
    ) + spec_auth_line("        "@, s.auth) + spec_word_lines(
        "        "@,
        "middleware "@,
        s.middleware@,
    ) + spec_rate_limit_line("        "@, s.rate_limit) + spec_field_block(
        "        "@,
        "headers"@,
        "            "@,
        s.headers@,
    ) + spec_message_block("inbound"@, s.inbound@) + spec_message_block("outbound"@, s.outbound@)
}

pub open spec fn spec_socket_blocks(v: Seq<SocketDef>) -> Seq<char> {
    concat_all(v, |s: SocketDef| spec_socket_block(s))
}

fn emit_message_block(out: &mut String, label: &str, v: &Vec<SocketMessage>)
    ensures
        final(out)@ == old(out)@ + spec_message_block(label@, v@),
{
    if v.len() == 0 {
        proof {
            lemma_add_empty(out@);
        }
        return;
    }
    out.append("        ");
    out.append(label);
    out.append(":\n");
    let ghost start = out@;
    let mut i: usize = 0;
    while i < v.len()
        invariant
            0 <= i <= v@.len(),
            out@ == start + concat_all(v@.take(i as int), |m: SocketMessage| spec_message_line(m)),
        decreases v@.len() - i,
    {
        proof {
            lemma_concat_all_step(v@, i as int, |m: SocketMessage| spec_message_line(m));
        }
        out.append("            ");
        let d = v[i].name.display();
        out.append(d.as_str());
        out.append(" -> ");
        let c = format_call(&v[i].handler);
        out.append(c.as_str());
        out.append("\n");
        i += 1;
    }
    proof {
        lemma_take_full(v@);
    }
}

fn emit_rooms(out: &mut String, rooms: &Vec<String>)
    ensures
        final(out)@ == old(out)@ + concat_all(rooms@, |r: String| spec_room_line("        "@, r)),
{
    let ghost a = out@;
    let mut i: usize = 0;
    while i < rooms.len()
        invariant
            0 <= i <= rooms@.len(),
            out@ == a + concat_all(rooms@.take(i as int), |r: String| spec_room_line("        "@, r)),
        decreases rooms@.len() - i,
    {
        proof {
            lemma_concat_all_step(rooms@, i as int, |r: String| spec_room_line("        "@, r));
        }
        out.append("        ");
        out.append("room \"");
        out.append(rooms[i].as_str());
        out.append("\"\n");
        i += 1;
    }
    proof {
        lemma_take_full(rooms@);
    }
}

fn emit_trigger_block(out: &mut String, t: &SocketTrigger)
    ensures
        final(out)@ == old(out)@ + spec_trigger_block(*t),
{
    let mut blk = String::from_str("        trigger ");
    let tn = t.name.display();
    blk.append(tn.as_str());
    blk.append(":\n");
    let ghost before_room = blk@;
    if let Some(r) = &t.room {
        let mut line = String::from_str("            ");
        line.append("room \"");
        line.append(r.as_str());
        line.append("\"\n");
        blk.append(line.as_str());
    } else {
        proof {
            lemma_add_empty(blk@);
        }
    }
    blk.append("            payload ");
    let ty = format_type(&t.payload);
    blk.append(ty.as_str());
    blk.append("\n");
    out.append(blk.as_str());
}

fn emit_triggers(out: &mut String, v: &Vec<SocketTrigger>)
    ensures
        final(out)@ == old(out)@ + concat_all(v@, |t: SocketTrigger| spec_trigger_block(t)),
{
    let ghost b = out@;
    let mut k: usize = 0;
    while k < v.len()
        invariant
            0 <= k <= v@.len(),
            out@ == b + concat_all(v@.take(k as int), |t: SocketTrigger| spec_trigger_block(t)),
        decreases v@.len() - k,
    {
        proof {
            lemma_concat_all_step(v@, k as int, |t: SocketTrigger| spec_trigger_block(t));
        }
        emit_trigger_block(out, &v[k]);
        k += 1;
    }
    proof {
        lemma_take_full(v@);
    }
}

fn emit_socket_block(out: &mut String, s: &SocketDef)
    ensures
        final(out)@ == old(out)@ + spec_socket_block(*s),
{
    reveal(spec_socket_block);
    let mut blk = String::from_str("\n    socket ");
    let d = s.name.display();
    blk.append(d.as_str());
    blk.append(" \"");
    blk.append(s.path.as_str());
    blk.append("\":\n");
    emit_rooms(&mut blk, &s.rooms);
    emit_triggers(&mut blk, &s.triggers);
    emit_use_lines(&mut blk, "        ", &s.modules);
    emit_auth_line(&mut blk, "        ", &s.auth);
    emit_word_lines(&mut blk, "        ", "middleware ", &s.middleware);
    emit_rate_limit_line(&mut blk, "        ", &s.rate_limit);
    emit_field_block(&mut blk, "        ", "headers", "            ", &s.headers);
    emit_message_block(&mut blk, "inbound", &s.inbound);
    emit_message_block(&mut blk, "outbound", &s.outbound);
    out.append(blk.as_str());
}

fn emit_socket_blocks(out: &mut String, v: &Vec<SocketDef>)
    ensures
        final(out)@ == old(out)@ + spec_socket_blocks(v@),
{
    let ghost start = out@;
    let mut i: usize = 0;
    while i < v.len()
        invariant
            0 <= i <= v@.len(),
            out@ == start + spec_socket_blocks(v@.take(i as int)),
        decreases v@.len() - i,
    {
        proof {
            lemma_concat_all_step(v@, i as int, |s: SocketDef| spec_socket_block(s));
        }
        emit_socket_block(out, &v[i]);
        i += 1;
    }
    proof {
        lemma_take_full(v@);
    }
}

// ---------------------------------------------------------------------------
// Routes
// ---------------------------------------------------------------------------

pub open spec fn spec_input_block(r: Route) -> Seq<char> {
    if r.input.path@.len() > 0 || r.input.query@.len() > 0 || r.input.body@.len() > 0 {
        "        input:\n"@ + spec_field_block("            "@, "path"@, "                "@, r.input.path@)
            + spec_field_block("            "@, "query"@, "                "@, r.input.query@)
            + spec_field_block("            "@, "body"@, "                "@, r.input.body@)
    } else {
        Seq::empty()
    }
}

pub open spec fn spec_response_line(resp: ResponseSpec) -> Seq<char> {
    "            "@ + spec_format_response(resp) + "\n"@
}

pub open spec fn spec_responses_block(v: Seq<ResponseSpec>) -> Seq<char> {
    if v.len() == 1 {
        "        response "@ + spec_format_response(v[0]) + "\n"@
    } else if v.len() > 1 {
        "        responses:\n"@ + concat_all(v, |x: ResponseSpec| spec_response_line(x))
    } else {
        Seq::empty()
    }
}

#[verifier::opaque]
pub open spec fn spec_route_block(r: Route) -> Seq<char> {
    "\n    "@ + spec_method_name(r.method) + " \""@ + r.path@ + "\":\n"@ + spec_input_block(r)
        + spec_field_block("        "@, "headers"@, "            "@, r.headers@)
        + spec_responses_block(r.responses@) + spec_auth_line("        "@, r.auth) + spec_word_lines(
        "        "@,
        "middleware "@,
        r.middleware@,
    ) + spec_rate_limit_line("        "@, r.rate_limit) + (if r.healthcheck {
        "        healthcheck\n"@
    } else {
        Seq::empty()
    }) + "        call "@ + spec_format_call(r.call) + "\n"@
}

pub open spec fn spec_route_blocks(v: Seq<Route>) -> Seq<char> {
    concat_all(v, |r: Route| spec_route_block(r))
}

fn emit_input_block(out: &mut String, r: &Route)
    ensures
        final(out)@ == old(out)@ + spec_input_block(*r),
{
    if r.input.path.len() > 0 || r.input.query.len() > 0 || r.input.body.len() > 0 {
        out.append("        input:\n");
        emit_field_block(out, "            ", "path", "                ", &r.input.path);
        emit_field_block(out, "            ", "query", "                ", &r.input.query);
        emit_field_block(out, "            ", "body", "                ", &r.input.body);
    } else {
        proof {
            lemma_add_empty(out@);
        }
    }
}

fn emit_responses_block(out: &mut String, v: &Vec<ResponseSpec>)
    ensures
        final(out)@ == old(out)@ + spec_responses_block(v@),
{
    if v.len() == 1 {
        out.append("        response ");
        let x = format_response(&v[0]);
        out.append(x.as_str());
        out.append("\n");
    } else if v.len() > 1 {
        out.append("        responses:\n");
        let ghost start = out@;
        let mut i: usize = 0;
        while i < v.len()
            invariant
                0 <= i <= v@.len(),
                out@ == start + concat_all(v@.take(i as int), |x: ResponseSpec| spec_response_line(x)),
            decreases v@.len() - i,
        {
            proof {
                lemma_concat_all_step(v@, i as int, |x: ResponseSpec| spec_response_line(x));
            }
            out.append("            ");
            let x = format_response(&v[i]);
            out.append(x.as_str());
            out.append("\n");
            i += 1;
        }
        proof {
            lemma_take_full(v@);
        }
    } else {
        proof {
            lemma_add_empty(out@);
        }
    }
}

fn emit_route_block(out: &mut String, r: &Route)
    ensures
        final(out)@ == old(out)@ + spec_route_block(*r),
{
    reveal(spec_route_block);
    let mut blk = String::from_str("\n    ");
    blk.append(method_name(&r.method));
    blk.append(" \"");
    blk.append(r.path.as_str());
    blk.append("\":\n");
    emit_input_block(&mut blk, r);
    emit_field_block(&mut blk, "        ", "headers", "            ", &r.headers);
    emit_responses_block(&mut blk, &r.responses);
    emit_auth_line(&mut blk, "        ", &r.auth);
    emit_word_lines(&mut blk, "        ", "middleware ", &r.middleware);
    emit_rate_limit_line(&mut blk, "        ", &r.rate_limit);
    if r.healthcheck {
        blk.append("        healthcheck\n");
    } else {
        proof {
            lemma_add_empty(blk@);
        }
    }
    blk.append("        call ");
    let c = format_call(&r.call);
    blk.append(c.as_str());
    blk.append("\n");
    out.append(blk.as_str());
}

fn emit_route_blocks(out: &mut String, v: &Vec<Route>)
    ensures
        final(out)@ == old(out)@ + spec_route_blocks(v@),
{
    let ghost start = out@;
    let mut i: usize = 0;
    while i < v.len()
        invariant
            0 <= i <= v@.len(),
            out@ == start + spec_route_blocks(v@.take(i as int)),
        decreases v@.len() - i,
    {
        proof {
            lemma_concat_all_step(v@, i as int, |r: Route| spec_route_block(r));
        }
        emit_route_block(out, &v[i]);
        i += 1;
    }
    proof {
        lemma_take_full(v@);
    }
}

// ---------------------------------------------------------------------------
// Services and projects
// ---------------------------------------------------------------------------

/// The DSL text of one service: its declaration, settings, schema, RPC
/// methods, sockets and routes, in that order.
#[verifier::opaque]
pub open spec fn spec_format_service(svc: Service) -> Seq<char> {
    spec_service_decl(svc) + spec_config_block(svc) + spec_grpc_block(svc) + spec_events_block(svc)
        + spec_use_lines("    "@, svc.common.modules@) + spec_env_lines(svc.common.env@)
        + spec_auth_line("    "@, svc.common.auth) + spec_word_lines(
        "    "@,
        "middleware "@,
        svc.common.middleware@,
    ) + spec_rate_limit_line("    "@, svc.common.rate_limit) + spec_field_block(
        "    "@,
        "headers"@,
        "        "@,
        svc.http.headers@,
    ) + spec_name_lines("    "@, "emit "@, svc.events.emits@) + spec_name_lines(
        "    "@,
        "subscribe "@,
        svc.events.subscribes@,
    ) + spec_type_blocks(svc.schema.types@) + spec_enum_blocks(svc.schema.enums@)
        + spec_event_blocks(svc.events.definitions@) + spec_rpc_blocks(svc.rpc.methods@)
        + spec_socket_blocks(svc.sockets.sockets@) + spec_route_blocks(svc.http.routes@)
}

pub fn format_service(service: &Service) -> (r: String)
    ensures
        r@ == spec_format_service(*service),
{
    reveal(spec_format_service);
    let mut out = String::new();
    emit_service_decl(&mut out, service);
    assert(out@ =~= spec_service_decl(*service));
    emit_config_block(&mut out, service);
    emit_grpc_block(&mut out, service);
    emit_events_block(&mut out, service);
    emit_use_lines(&mut out, "    ", &service.common.modules);
    emit_env_lines(&mut out, &service.common.env);
    emit_auth_line(&mut out, "    ", &service.common.auth);
    emit_word_lines(&mut out, "    ", "middleware ", &service.common.middleware);
    emit_rate_limit_line(&mut out, "    ", &service.common.rate_limit);
    emit_field_block(&mut out, "    ", "headers", "        ", &service.http.headers);
    emit_name_lines(&mut out, "    ", "emit ", &service.events.emits);
    emit_name_lines(&mut out, "    ", "subscribe ", &service.events.subscribes);
    emit_type_blocks(&mut out, &service.schema.types);
    emit_enum_blocks(&mut out, &service.schema.enums);
    emit_event_blocks(&mut out, &service.events.definitions);
    emit_rpc_blocks(&mut out, &service.rpc.methods);
    emit_socket_blocks(&mut out, &service.sockets.sockets);
    emit_route_blocks(&mut out, &service.http.routes);
    out
}

pub open spec fn spec_service_texts(v: Seq<Service>) -> Seq<Seq<char>> {
    v.map_values(|s: Service| spec_format_service(s))
}

pub open spec fn spec_version_piece(c: ProjectCommon) -> Seq<char> {
    match c.default_version {
        Some(v) => "version "@ + dec_nat(v as nat) + "\n\n"@,
        None => Seq::empty(),
    }
}

pub open spec fn spec_output_piece(c: ProjectCommon) -> Seq<char> {
    match c.output {
        Some(o) => "output \""@ + o@ + "\"\n\n"@,
        None => Seq::empty(),
    }
}

pub open spec fn spec_blank_if(b: bool) -> Seq<char> {
    if b {
        "\n"@
    } else {
        Seq::empty()
    }
}

/// The project-wide settings.
pub open spec fn spec_project_head(c: ProjectCommon) -> Seq<char> {
    spec_version_piece(c) + spec_output_piece(c) + spec_auth_line(""@, c.auth) + spec_word_lines(
        ""@,
        "middleware "@,
        c.middleware@,
    ) + spec_blank_if(c.auth is Some || c.middleware@.len() > 0) + spec_use_lines(""@, c.modules@)
        + spec_blank_if(c.modules@.len() > 0)
}

/// Project-wide settings, then the services separated by blank lines.
pub open spec fn spec_project_body(p: Project) -> Seq<char> {
    spec_project_head(p.common) + seq_join(spec_service_texts(p.services@), "\n"@)
}

fn emit_blank_if(out: &mut String, b: bool)
    ensures
        final(out)@ == old(out)@ + spec_blank_if(b),
{
    if b {
        out.append("\n");
    } else {
        proof {
            lemma_add_empty(out@);
        }
    }
}

/// The text always ends with a line break.
pub open spec fn spec_with_final_newline(s: Seq<char>) -> Seq<char> {
    if s.len() > 0 && s.last() == '\n' {
        s
    } else {
        s.push('\n')
    }
}

pub open spec fn spec_format_project(p: Project) -> Seq<char> {
    spec_with_final_newline(spec_project_body(p))
}

fn render_project_head(c: &ProjectCommon) -> (r: String)
    ensures
        r@ == spec_project_head(*c),
{
    let mut out = String::new();
    if let Some(v) = c.default_version {
        out.append("version ");
        let d = u64_to_string(v as u64);
        out.append(d.as_str());
        out.append("\n\n");
        assert(out@ =~= spec_version_piece(*c));
    } else {
        assert(out@ =~= spec_version_piece(*c));
    }
    if let Some(o) = &c.output {
        out.append("output \"");
        out.append(o.as_str());
        out.append("\"\n\n");
    } else {
        proof {
            lemma_add_empty(out@);
        }
    }
    emit_auth_line(&mut out, "", &c.auth);
    emit_word_lines(&mut out, "", "middleware ", &c.middleware);
    emit_blank_if(&mut out, c.auth.is_some() || c.middleware.len() > 0);
    emit_use_lines(&mut out, "", &c.modules);
    emit_blank_if(&mut out, c.modules.len() > 0);
    out
}

fn render_service_texts(services: &Vec<Service>) -> (texts: Vec<String>)
    ensures
        views(texts@) == spec_service_texts(services@),
{
    let mut texts: Vec<String> = Vec::new();
    let mut i: usize = 0;
    while i < services.len()
        invariant
            0 <= i <= services@.len(),
            views(texts@) == spec_service_texts(services@.take(i as int)),
        decreases services@.len() - i,
    {
        let t = format_service(&services[i]);
        proof {
            lemma_views_push(texts@, t);
            assert(spec_service_texts(services@.take(i + 1)) =~= spec_service_texts(
                services@.take(i as int),
            ).push(spec_format_service(services@[i as int])));
        }
        texts.push(t);
        i += 1;
    }
    proof {
        lemma_take_full(services@);
    }
    texts
}

pub fn format_project(project: &Project) -> (r: String)
    ensures
        r@ == spec_format_project(*project),
{
    let mut out = render_project_head(&project.common);
    let texts = render_service_texts(&project.services);
    let joined = join(&texts, "\n");
    out.append(joined.as_str());
    let cs = chars_of(out.as_str());
    if cs.len() == 0 || cs[cs.len() - 1] != '\n' {
        push_char(&mut out, '\n');
    }
    out
}

} // verus!
