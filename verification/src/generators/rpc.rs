//! The protobuf description (`rpc.proto`) of a service's RPC methods.

use vstd::prelude::*;

use crate::ir::{spec_code_name, EnumVariant, Field, RpcDef, Service, Type};
use crate::sorted::{kv_view, sm_contains, sm_has_key, sm_insert, sm_put};
use crate::text::{
    concat_all, dec_int, dec_nat, i64_to_string, lemma_concat_all_step, lemma_take_full,
    to_lowercase, u64_to_string, unicode_lowercase,
};

verus! {

// ---------------------------------------------------------------------------
// Names and types
// ---------------------------------------------------------------------------

/// `name`, or `nameV<version>`.
pub open spec fn spec_rpc_code_name(rpc: RpcDef) -> Seq<char> {
    match rpc.version {
        Some(v) => rpc.name@ + "V"@ + dec_nat(v as nat),
        None => rpc.name@,
    }
}

impl RpcDef {
    pub fn code_name(&self) -> (r: String)
        ensures
            r@ == spec_rpc_code_name(*self),
    {
        let mut out = self.name.clone();
        if let Some(v) = self.version {
            out.append("V");
            let d = u64_to_string(v as u64);
            out.append(d.as_str());
        }
        out
    }
}

/// The protobuf type of a field, and whether the field is `repeated`.
pub open spec fn spec_proto_type(ty: Type) -> (Seq<char>, bool)
    decreases ty,
{
    match ty {
        Type::String => ("string"@, false),
        Type::Int => ("int64"@, false),
        Type::Float => ("double"@, false),
        Type::Bool => ("bool"@, false),
        Type::Array(inner) => (spec_proto_type(*inner).0, true),
        Type::Object(_) => ("bytes"@, false),
        Type::MapOf(_) | Type::Union(_) | Type::OneOf(_) | Type::Nullable(_) | Type::Any => (
            "google.protobuf.Struct"@,
            false,
        ),
        Type::Void => ("google.protobuf.Empty"@, false),
        Type::Named(n) => (spec_code_name(n), false),
    }
}

pub fn proto_type(ty: &Type) -> (r: (String, bool))
    ensures
        r.0@ == spec_proto_type(*ty).0,
        r.1 == spec_proto_type(*ty).1,
    decreases ty,
{
    match ty {
        Type::String => (String::from_str("string"), false),
        Type::Int => (String::from_str("int64"), false),
        Type::Float => (String::from_str("double"), false),
        Type::Bool => (String::from_str("bool"), false),
        Type::Array(inner) => {
            let (inner_ty, _) = proto_type(inner);
            (inner_ty, true)
        },
        Type::Object(_) => (String::from_str("bytes"), false),
        Type::MapOf(_) | Type::Union(_) | Type::OneOf(_) | Type::Nullable(_) | Type::Any => (
            String::from_str("google.protobuf.Struct"),
            false,
        ),
        Type::Void => (String::from_str("google.protobuf.Empty"), false),
        Type::Named(n) => (n.code_name(), false),
    }
}

/// Whether the type needs `google.protobuf.Struct`.
pub open spec fn spec_uses_struct(ty: Type) -> bool
    decreases ty,
{
    match ty {
        Type::Any | Type::MapOf(_) | Type::Union(_) | Type::OneOf(_) | Type::Nullable(_) => true,
        Type::Array(inner) => spec_uses_struct(*inner),
        Type::Object(fields) => exists|i: int|
            0 <= i < fields@.len() && spec_uses_struct(#[trigger] fields@[i].ty),
        _ => false,
    }
}

#[verifier::loop_isolation(false)]
pub fn uses_struct(ty: &Type) -> (r: bool)
    ensures
        r == spec_uses_struct(*ty),
    decreases ty,
{
    match ty {
        Type::Any | Type::MapOf(_) | Type::Union(_) | Type::OneOf(_) | Type::Nullable(_) => true,
        Type::Array(inner) => uses_struct(inner),
        Type::Object(fields) => {
            let mut i: usize = 0;
            while i < fields.len()
                invariant
                    0 <= i <= fields@.len(),
                    forall|j: int| 0 <= j < i ==> !spec_uses_struct(#[trigger] fields@[j].ty),
                decreases fields@.len() - i,
            {
                if uses_struct(&fields[i].ty) {
                    return true;
                }
                i += 1;
            }
            false
        },
        _ => false,
    }
}

pub open spec fn spec_is_optional_scalar(ty: Type) -> bool {
    ty is String || ty is Int || ty is Float || ty is Bool
}

pub fn is_optional_scalar(ty: &Type) -> (r: bool)
    ensures
        r == spec_is_optional_scalar(*ty),
{
    match ty {
        Type::String | Type::Int | Type::Float | Type::Bool => true,
        _ => false,
    }
}

// ---------------------------------------------------------------------------
// Messages
// ---------------------------------------------------------------------------

/// Where the fields of a message come from.
#[derive(Clone, Copy)]
pub enum MsgRef {
    /// The fields of schema type `i`.
    TypeFields(usize),
    /// The input of RPC method `i`.
    RpcInput(usize),
    /// The object output of RPC method `i`.
    RpcOutputFields(usize),
    /// One field `value` holding the scalar or list output of method `i`.
    RpcOutputValue(usize),
}

/// The messages of the schema types: a map from type name to fields,
/// in name order, a later type of the same name replacing an earlier one.
pub open spec fn spec_type_msgs(svc: Service, n: int) -> Seq<(Seq<char>, MsgRef)>
    decreases n,
{
    if n <= 0 {
        Seq::empty()
    } else {
        sm_insert(
            spec_type_msgs(svc, n - 1),
            spec_code_name(svc.schema.types@[n - 1].name),
            MsgRef::TypeFields((n - 1) as usize),
        )
    }
}

pub open spec fn spec_is_value_output(ty: Type) -> bool {
    ty is Array || ty is String || ty is Int || ty is Float || ty is Bool
}

/// What one RPC method adds: its request message unless a message of that
/// name exists; its object response (replacing any); the one-field
/// response of a scalar or list output unless the name exists.
pub open spec fn spec_rpc_step(m: Seq<(Seq<char>, MsgRef)>, rpc: RpcDef, i: int) -> Seq<
    (Seq<char>, MsgRef),
> {
    let req = spec_rpc_code_name(rpc) + "Request"@;
    let m1 = if sm_has_key(m, req) {
        m
    } else {
        sm_insert(m, req, MsgRef::RpcInput(i as usize))
    };
    let resp = spec_rpc_code_name(rpc) + "Response"@;
    if rpc.output is Object {
        sm_insert(m1, resp, MsgRef::RpcOutputFields(i as usize))
    } else if spec_is_value_output(rpc.output) {
        if sm_has_key(m1, resp) {
            m1
        } else {
            sm_insert(m1, resp, MsgRef::RpcOutputValue(i as usize))
        }
    } else {
        m1
    }
}

pub open spec fn spec_rpc_msgs(svc: Service, n: int) -> Seq<(Seq<char>, MsgRef)>
    decreases n,
{
    if n <= 0 {
        spec_type_msgs(svc, svc.schema.types@.len() as int)
    } else {
        spec_rpc_step(spec_rpc_msgs(svc, n - 1), svc.rpc.methods@[n - 1], n - 1)
    }
}

/// All messages of the description, in name order.
pub open spec fn spec_messages(svc: Service) -> Seq<(Seq<char>, MsgRef)> {
    spec_rpc_msgs(svc, svc.rpc.methods@.len() as int)
}

/// One field line; `number` is the field's position counted from 1.
pub open spec fn spec_field_line(name: Seq<char>, ty: Type, optional: bool, number: nat) -> Seq<
    char,
> {
    let (pty, repeated) = spec_proto_type(ty);
    let prefix = if repeated {
        "  repeated "@
    } else if optional && spec_is_optional_scalar(ty) {
        "  optional "@
    } else {
        "  "@
    };
    prefix + pty + " "@ + name + " = "@ + dec_nat(number) + ";"@ + "\n"@
}

/// A list becomes a `repeated` field of its element's protobuf type: a
/// type is repeated exactly when it is a list, the repeated type is the
/// element's own, and the line of a list field opens with `  repeated `
/// followed by that element type, whether or not the field is optional.
pub proof fn law_lists_are_repeated(name: Seq<char>, ty: Type, elem: Type, optional: bool, number: nat)
    ensures
        spec_proto_type(ty).1 <==> ty is Array,
        spec_proto_type(Type::Array(Box::new(elem))).0 == spec_proto_type(elem).0,
        ("  repeated "@ + spec_proto_type(elem).0).is_prefix_of(
            spec_field_line(name, Type::Array(Box::new(elem)), optional, number),
        ),
{
    let line = spec_field_line(name, Type::Array(Box::new(elem)), optional, number);
    let head = "  repeated "@ + spec_proto_type(elem).0;
    let rest = " "@ + name + " = "@ + dec_nat(number) + ";"@ + "\n"@;
    assert(line =~= head + rest);
    assert(line.subrange(0, head.len() as int) =~= head);
}

pub open spec fn spec_field_lines(fields: Seq<Field>) -> Seq<char>
    decreases fields.len(),
{
    if fields.len() == 0 {
        Seq::empty()
    } else {
        spec_field_lines(fields.drop_last()) + spec_field_line(
            fields.last().name@,
            fields.last().ty,
            fields.last().optional,
            fields.len(),
        )
    }
}

pub open spec fn spec_msg_body(svc: Service, r: MsgRef) -> Seq<char> {
    match r {
        MsgRef::TypeFields(i) => spec_field_lines(svc.schema.types@[i as int].fields@),
        MsgRef::RpcInput(i) => spec_field_lines(svc.rpc.methods@[i as int].input@),
        MsgRef::RpcOutputFields(i) => match svc.rpc.methods@[i as int].output {
            Type::Object(f) => spec_field_lines(f@),
            _ => Seq::empty(),
        },
        MsgRef::RpcOutputValue(i) => spec_field_line(
            "value"@,
            svc.rpc.methods@[i as int].output,
            false,
            1,
        ),
    }
}

pub open spec fn spec_message(svc: Service, e: (Seq<char>, MsgRef)) -> Seq<char> {
    "message "@ + e.0 + " {\n"@ + spec_msg_body(svc, e.1) + "}\n\n"@
}

pub open spec fn spec_messages_text(svc: Service, m: Seq<(Seq<char>, MsgRef)>) -> Seq<char> {
    concat_all(m, |e: (Seq<char>, MsgRef)| spec_message(svc, e))
}

// ---------------------------------------------------------------------------
// Enums and the service block
// ---------------------------------------------------------------------------

/// A variant's number: its own value, else its position.
pub open spec fn spec_variant_lines(vs: Seq<EnumVariant>) -> Seq<char>
    decreases vs.len(),
{
    if vs.len() == 0 {
        Seq::empty()
    } else {
        let idx = vs.len() - 1;
        let val: int = match vs.last().value {
            Some(x) => x as int,
            None => (idx as usize as i64) as int,
        };
        spec_variant_lines(vs.drop_last()) + "  "@ + vs.last().name@ + " = "@ + dec_int(val)
            + ";\n"@
    }
}

pub open spec fn spec_enum_block(en: crate::ir::EnumDef) -> Seq<char> {
    "enum "@ + spec_code_name(en.name) + " {\n"@ + spec_variant_lines(en.variants@) + "}\n\n"@
}

pub open spec fn spec_enums_text(ens: Seq<crate::ir::EnumDef>) -> Seq<char> {
    concat_all(ens, |en: crate::ir::EnumDef| spec_enum_block(en))
}

pub open spec fn spec_response_name(rpc: RpcDef) -> Seq<char> {
    match rpc.output {
        Type::Void => "google.protobuf.Empty"@,
        Type::Object(_) => spec_rpc_code_name(rpc) + "Response"@,
        Type::Any | Type::MapOf(_) | Type::Union(_) | Type::OneOf(_) | Type::Nullable(_) =>
            "google.protobuf.Struct"@,
        Type::Named(n) => spec_code_name(n),
        _ => spec_rpc_code_name(rpc) + "Response"@,
    }
}

pub open spec fn spec_rpc_line(rpc: RpcDef) -> Seq<char> {
    "  rpc "@ + spec_rpc_code_name(rpc) + " ("@ + spec_rpc_code_name(rpc) + "Request"@
        + ") returns ("@ + spec_response_name(rpc) + ");\n"@
}

pub open spec fn spec_rpc_lines(rpcs: Seq<RpcDef>) -> Seq<char> {
    concat_all(rpcs, |r: RpcDef| spec_rpc_line(r))
}

pub open spec fn spec_needs_empty(svc: Service) -> bool {
    exists|i: int| 0 <= i < svc.rpc.methods@.len() && (#[trigger] svc.rpc.methods@[i]).output is Void
}

pub open spec fn spec_needs_struct(svc: Service) -> bool {
    exists|i: int|
        0 <= i < svc.rpc.methods@.len() && spec_uses_struct(#[trigger] svc.rpc.methods@[i].output)
}

pub open spec fn spec_imports(svc: Service) -> Seq<char> {
    let ne = spec_needs_empty(svc);
    let ns = spec_needs_struct(svc);
    (if ne {
        "import \"google/protobuf/empty.proto\";\n"@
    } else {
        Seq::empty()
    }) + (if ns {
        "import \"google/protobuf/struct.proto\";\n"@
    } else {
        Seq::empty()
    }) + (if ne || ns {
        "\n"@
    } else {
        Seq::empty()
    })
}

pub open spec fn spec_proto_header(svc: Service) -> Seq<char> {
    let lname = unicode_lowercase(svc.name@);
    "syntax = \"proto3\";\n\n"@ + "package nimesvc."@ + lname + ";\n"@
        + "option go_package = \"nimesvc/"@ + lname + "-grpc/proto;rpc\";\n\n"@
}

/// The whole `rpc.proto`; empty when the service has no RPC method.
pub open spec fn spec_build_proto(svc: Service) -> Seq<char> {
    if svc.rpc.methods@.len() == 0 {
        Seq::empty()
    } else {
        spec_proto_header(svc) + spec_imports(svc) + spec_enums_text(svc.schema.enums@)
            + spec_messages_text(svc, spec_messages(svc)) + "service "@ + svc.name@ + " {\n"@
            + spec_rpc_lines(svc.rpc.methods@) + "}\n"@
    }
}

// ---------------------------------------------------------------------------
// Rendering
// ---------------------------------------------------------------------------

fn render_field_line(name: &str, ty: &Type, optional: bool, number: usize, out: &mut String)
    ensures
        final(out)@ == old(out)@ + spec_field_line(name@, *ty, optional, number as nat),
{
    let (pty, repeated) = proto_type(ty);
    if repeated {
        out.append("  repeated ");
    } else if optional && is_optional_scalar(ty) {
        out.append("  optional ");
    } else {
        out.append("  ");
    }
    out.append(pty.as_str());
    out.append(" ");
    out.append(name);
    out.append(" = ");
    let d = u64_to_string(number as u64);
    out.append(d.as_str());
    out.append(";");
    out.append("\n");
}

fn render_field_lines(fields: &Vec<Field>, out: &mut String)
    ensures
        final(out)@ == old(out)@ + spec_field_lines(fields@),
{
    let ghost start = out@;
    let mut i: usize = 0;
    while i < fields.len()
        invariant
            0 <= i <= fields@.len(),
            out@ == start + spec_field_lines(fields@.take(i as int)),
        decreases fields@.len() - i,
    {
        assert(fields@.take(i + 1).drop_last() =~= fields@.take(i as int));
        render_field_line(fields[i].name.as_str(), &fields[i].ty, fields[i].optional, i + 1, out);
        i += 1;
    }
    proof {
        lemma_take_full(fields@);
    }
}

fn render_message_body(svc: &Service, r: MsgRef, out: &mut String)
    requires
        match r {
            MsgRef::TypeFields(i) => i < svc.schema.types@.len(),
            MsgRef::RpcInput(i) => i < svc.rpc.methods@.len(),
            MsgRef::RpcOutputFields(i) => i < svc.rpc.methods@.len(),
            MsgRef::RpcOutputValue(i) => i < svc.rpc.methods@.len(),
        },
    ensures
        final(out)@ == old(out)@ + spec_msg_body(*svc, r),
{
    match r {
        MsgRef::TypeFields(i) => render_field_lines(&svc.schema.types[i].fields, out),
        MsgRef::RpcInput(i) => render_field_lines(&svc.rpc.methods[i].input, out),
        MsgRef::RpcOutputFields(i) => match &svc.rpc.methods[i].output {
            Type::Object(f) => render_field_lines(f, out),
            _ => {
                assert(out@ =~= old(out)@ + Seq::<char>::empty());
            },
        },
        MsgRef::RpcOutputValue(i) => {
            render_field_line("value", &svc.rpc.methods[i].output, false, 1, out);
        },
    }
}

pub open spec fn msg_ref_ok(svc: Service, r: MsgRef) -> bool {
    match r {
        MsgRef::TypeFields(i) => i < svc.schema.types@.len(),
        MsgRef::RpcInput(i) => i < svc.rpc.methods@.len(),
        MsgRef::RpcOutputFields(i) => i < svc.rpc.methods@.len(),
        MsgRef::RpcOutputValue(i) => i < svc.rpc.methods@.len(),
    }
}

pub open spec fn msgs_ok(svc: Service, m: Seq<(Seq<char>, MsgRef)>) -> bool {
    forall|i: int| 0 <= i < m.len() ==> msg_ref_ok(svc, #[trigger] m[i].1)
}

proof fn lemma_insert_ok(svc: Service, m: Seq<(Seq<char>, MsgRef)>, k: Seq<char>, r: MsgRef)
    requires
        msgs_ok(svc, m),
        msg_ref_ok(svc, r),
    ensures
        msgs_ok(svc, sm_insert(m, k, r)),
    decreases m.len(),
{
    if m.len() > 0 && m[0].0 != k && !crate::sorted::seq_lt(k, m[0].0) {
        let rest = m.drop_first();
        assert(msgs_ok(svc, rest)) by {
            assert forall|i: int| 0 <= i < rest.len() implies msg_ref_ok(svc, #[trigger] rest[i].1) by {
                assert(rest[i] == m[i + 1]);
            }
        }
        lemma_insert_ok(svc, rest, k, r);
        let t = sm_insert(rest, k, r);
        let x = sm_insert(m, k, r);
        assert(x =~= seq![m[0]] + t);
        assert forall|i: int| 0 <= i < x.len() implies msg_ref_ok(svc, #[trigger] x[i].1) by {
            if i > 0 {
                assert(x[i] == t[i - 1]);
            }
        }
    } else if m.len() > 0 {
        let x = sm_insert(m, k, r);
        assert forall|i: int| 0 <= i < x.len() implies msg_ref_ok(svc, #[trigger] x[i].1) by {
            if m[0].0 == k {
                if i > 0 {
                    assert(x[i] == m[i]);
                }
            } else {
                if i > 0 {
                    assert(x[i] == m[i - 1]);
                }
            }
        }
    }
}

fn render_messages(svc: &Service, m: &Vec<(String, MsgRef)>, out: &mut String)
    requires
        msgs_ok(*svc, kv_view(m@)),
    ensures
        final(out)@ == old(out)@ + spec_messages_text(*svc, kv_view(m@)),
{
    let ghost start = out@;
    let ghost mv = kv_view(m@);
    let mut i: usize = 0;
    while i < m.len()
        invariant
            0 <= i <= m@.len(),
            mv == kv_view(m@),
            msgs_ok(*svc, mv),
            out@ == start + spec_messages_text(*svc, mv.take(i as int)),
        decreases m@.len() - i,
    {
        proof {
            lemma_concat_all_step(mv, i as int, |e: (Seq<char>, MsgRef)| spec_message(*svc, e));
            assert(msg_ref_ok(*svc, mv[i as int].1));
        }
        out.append("message ");
        out.append(m[i].0.as_str());
        out.append(" {\n");
        render_message_body(svc, m[i].1, out);
        out.append("}\n\n");
        i += 1;
    }
    proof {
        lemma_take_full(mv);
    }
}

fn collect_messages(svc: &Service) -> (m: Vec<(String, MsgRef)>)
    ensures
        kv_view(m@) == spec_messages(*svc),
        msgs_ok(*svc, kv_view(m@)),
{
    let mut m: Vec<(String, MsgRef)> = Vec::new();
    let mut t: usize = 0;
    while t < svc.schema.types.len()
        invariant
            0 <= t <= svc.schema.types@.len(),
            kv_view(m@) == spec_type_msgs(*svc, t as int),
            msgs_ok(*svc, kv_view(m@)),
        decreases svc.schema.types@.len() - t,
    {
        let name = svc.schema.types[t].name.code_name();
        proof {
            lemma_insert_ok(*svc, kv_view(m@), name@, MsgRef::TypeFields(t));
        }
        sm_put(&mut m, name, MsgRef::TypeFields(t));
        t += 1;
    }
    let mut i: usize = 0;
    while i < svc.rpc.methods.len()
        invariant
            0 <= i <= svc.rpc.methods@.len(),
            kv_view(m@) == spec_rpc_msgs(*svc, i as int),
            msgs_ok(*svc, kv_view(m@)),
        decreases svc.rpc.methods@.len() - i,
    {
        let rpc = &svc.rpc.methods[i];
        let code = rpc.code_name();
        let mut req = code.clone();
        req.append("Request");
        if !sm_contains(&m, req.as_str()) {
            proof {
                lemma_insert_ok(*svc, kv_view(m@), req@, MsgRef::RpcInput(i));
            }
            sm_put(&mut m, req, MsgRef::RpcInput(i));
        }
        let mut resp = code;
        resp.append("Response");
        match &rpc.output {
            Type::Object(_) => {
                proof {
                    lemma_insert_ok(*svc, kv_view(m@), resp@, MsgRef::RpcOutputFields(i));
                }
                sm_put(&mut m, resp, MsgRef::RpcOutputFields(i));
            },
            Type::Array(_) | Type::String | Type::Int | Type::Float | Type::Bool => {
                if !sm_contains(&m, resp.as_str()) {
                    proof {
                        lemma_insert_ok(*svc, kv_view(m@), resp@, MsgRef::RpcOutputValue(i));
                    }
                    sm_put(&mut m, resp, MsgRef::RpcOutputValue(i));
                }
            },
            _ => {},
        }
        i += 1;
    }
    m
}

fn render_enums(svc: &Service, out: &mut String)
    ensures
        final(out)@ == old(out)@ + spec_enums_text(svc.schema.enums@),
{
    let ghost start = out@;
    let ens = &svc.schema.enums;
    let mut e: usize = 0;
    while e < ens.len()
        invariant
            0 <= e <= ens@.len(),
            out@ == start + spec_enums_text(ens@.take(e as int)),
        decreases ens@.len() - e,
    {
        proof {
            lemma_concat_all_step(ens@, e as int, |en: crate::ir::EnumDef| spec_enum_block(en));
        }
        let en = &ens[e];
        out.append("enum ");
        let name = en.name.code_name();
        out.append(name.as_str());
        out.append(" {\n");
        let ghost mid = out@;
        let mut k: usize = 0;
        while k < en.variants.len()
            invariant
                0 <= k <= en.variants@.len(),
                out@ == mid + spec_variant_lines(en.variants@.take(k as int)),
            decreases en.variants@.len() - k,
        {
            assert(en.variants@.take(k + 1).drop_last() =~= en.variants@.take(k as int));
            let var = &en.variants[k];
            let val: i64 = match var.value {
                Some(x) => x,
                None => k as i64,
            };
            out.append("  ");
            out.append(var.name.as_str());
            out.append(" = ");
            let d = i64_to_string(val);
            out.append(d.as_str());
            out.append(";\n");
            k += 1;
        }
        proof {
            lemma_take_full(en.variants@);
        }
        out.append("}\n\n");
        e += 1;
    }
    proof {
        lemma_take_full(ens@);
    }
}

fn render_response_name(rpc: &RpcDef) -> (r: String)
    ensures
        r@ == spec_response_name(*rpc),
{
    match &rpc.output {
        Type::Void => String::from_str("google.protobuf.Empty"),
        Type::Object(_) => {
            let mut s = rpc.code_name();
            s.append("Response");
            s
        },
        Type::Any | Type::MapOf(_) | Type::Union(_) | Type::OneOf(_) | Type::Nullable(_) => {
            String::from_str("google.protobuf.Struct")
        },
        Type::Named(n) => n.code_name(),
        _ => {
            let mut s = rpc.code_name();
            s.append("Response");
            s
        },
    }
}

fn render_rpc_lines(rpcs: &Vec<RpcDef>, out: &mut String)
    ensures
        final(out)@ == old(out)@ + spec_rpc_lines(rpcs@),
{
    let ghost start = out@;
    let mut i: usize = 0;
    while i < rpcs.len()
        invariant
            0 <= i <= rpcs@.len(),
            out@ == start + spec_rpc_lines(rpcs@.take(i as int)),
        decreases rpcs@.len() - i,
    {
        proof {
            lemma_concat_all_step(rpcs@, i as int, |r: RpcDef| spec_rpc_line(r));
        }
        let code = rpcs[i].code_name();
        let resp = render_response_name(&rpcs[i]);
        out.append("  rpc ");
        out.append(code.as_str());
        out.append(" (");
        out.append(code.as_str());
        out.append("Request");
        out.append(") returns (");
        out.append(resp.as_str());
        out.append(");\n");
        i += 1;
    }
    proof {
        lemma_take_full(rpcs@);
    }
}

fn render_imports(svc: &Service) -> (r: String)
    ensures
        r@ == spec_imports(*svc),
{
    let mut needs_empty = false;
    let mut needs_struct = false;
    let mut i: usize = 0;
    while i < svc.rpc.methods.len()
        invariant
            0 <= i <= svc.rpc.methods@.len(),
            needs_empty == exists|j: int|
                0 <= j < i && (#[trigger] svc.rpc.methods@[j]).output is Void,
            needs_struct == exists|j: int|
                0 <= j < i && spec_uses_struct(#[trigger] svc.rpc.methods@[j].output),
        decreases svc.rpc.methods@.len() - i,
    {
        let rpc = &svc.rpc.methods[i];
        if let Type::Void = rpc.output {
            needs_empty = true;
        }
        if uses_struct(&rpc.output) {
            needs_struct = true;
        }
        i += 1;
    }
    let mut out = String::new();
    if needs_empty {
        out.append("import \"google/protobuf/empty.proto\";\n");
    }
    if needs_struct {
        out.append("import \"google/protobuf/struct.proto\";\n");
    }
    if needs_empty || needs_struct {
        out.append("\n");
    }
    assert(out@ =~= spec_imports(*svc));
    out
}

pub fn build_proto(service: &Service) -> (r: String)
    ensures
        r@ == spec_build_proto(*service),
{
    if service.rpc.methods.len() == 0 {
        return String::new();
    }
    let lname = to_lowercase(service.name.as_str());
    let mut out = String::from_str("syntax = \"proto3\";\n\n");
    out.append("package nimesvc.");
    out.append(lname.as_str());
    out.append(";\n");
    out.append("option go_package = \"nimesvc/");
    out.append(lname.as_str());
    out.append("-grpc/proto;rpc\";\n\n");
    let imports = render_imports(service);
    out.append(imports.as_str());
    render_enums(service, &mut out);
    let messages = collect_messages(service);
    render_messages(service, &messages, &mut out);
    out.append("service ");
    out.append(service.name.as_str());
    out.append(" {\n");
    render_rpc_lines(&service.rpc.methods, &mut out);
    out.append("}\n");
    out
}

} // verus!
