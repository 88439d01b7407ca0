//! `types.rs` of the Rust server: the schema's enums and structs, event
//! payload aliases and the payloads of socket messages.

use vstd::prelude::*;

use crate::generators::go::types::is_numeric_enum;
use crate::generators::rust::util::{rust_type, spec_rust_type};
use crate::ir::{spec_code_name, EnumDef, EnumVariant, EventDef, Field, Service, TypeDef};
use crate::text::{concat_all, dec_int, i64_to_string, lemma_concat_all_step, lemma_take_full};

verus! {

pub open spec fn variant_line(v: EnumVariant) -> Seq<char> {
    match v.value {
        Some(x) => "    "@ + v.name@ + " = "@ + dec_int(x as int) + ",\n"@,
        None => "    "@ + v.name@ + ",\n"@,
    }
}

/// A serde enum; `repr(i64)` when every variant has a value.
pub open spec fn spec_rs_enum(en: EnumDef) -> Seq<char> {
    "#[derive(Serialize, Deserialize)]\n"@ + (if is_numeric_enum(en) {
        "#[repr(i64)]\n"@
    } else {
        Seq::empty()
    }) + "pub enum "@ + spec_code_name(en.name) + " {\n"@ + concat_all(
        en.variants@,
        |v: EnumVariant| variant_line(v),
    ) + "}\n\n"@
}

fn rs_enum(en: &EnumDef) -> (r: String)
    ensures
        r@ == spec_rs_enum(*en),
{
    let mut numeric = true;
    let mut i: usize = 0;
    while i < en.variants.len()
        invariant
            0 <= i <= en.variants@.len(),
            numeric == forall|j: int| 0 <= j < i ==> (#[trigger] en.variants@[j]).value is Some,
        decreases en.variants@.len() - i,
    {
        if en.variants[i].value.is_none() {
            numeric = false;
        }
        i += 1;
    }
    let mut out = String::from_str("#[derive(Serialize, Deserialize)]\n");
    if numeric {
        out.append("#[repr(i64)]\n");
    }
    out.append("pub enum ");
    let name = en.name.code_name();
    out.append(name.as_str());
    out.append(" {\n");
    let ghost head = out@;
    let ghost f = |v: EnumVariant| variant_line(v);
    let mut k: usize = 0;
    while k < en.variants.len()
        invariant
            0 <= k <= en.variants@.len(),
            f == (|v: EnumVariant| variant_line(v)),
            out@ == head + concat_all(en.variants@.take(k as int), f),
        decreases en.variants@.len() - k,
    {
        proof {
            lemma_concat_all_step(en.variants@, k as int, f);
        }
        let v = &en.variants[k];
        out.append("    ");
        out.append(v.name.as_str());
        match v.value {
            Some(x) => {
                out.append(" = ");
                let d = i64_to_string(x);
                out.append(d.as_str());
                out.append(",\n");
            },
            None => {
                out.append(",\n");
            },
        }
        k += 1;
    }
    proof {
        lemma_take_full(en.variants@);
    }
    out.append("}\n\n");
    out
}

pub open spec fn pub_field_line(f: Field) -> Seq<char> {
    if f.optional {
        "    pub "@ + f.name@ + ": Option<"@ + spec_rust_type(f.ty) + ">,\n"@
    } else {
        "    pub "@ + f.name@ + ": "@ + spec_rust_type(f.ty) + ",\n"@
    }
}

/// A serde struct with public fields, optional ones wrapped in `Option`.
pub open spec fn spec_rs_struct(t: TypeDef) -> Seq<char> {
    "#[derive(Serialize, Deserialize)]\npub struct "@ + spec_code_name(t.name) + " {\n"@ + concat_all(
        t.fields@,
        |f: Field| pub_field_line(f),
    ) + "}\n\n"@
}

fn rs_struct(t: &TypeDef) -> (r: String)
    ensures
        r@ == spec_rs_struct(*t),
{
    let mut out = String::from_str("#[derive(Serialize, Deserialize)]\npub struct ");
    let name = t.name.code_name();
    out.append(name.as_str());
    out.append(" {\n");
    let ghost head = out@;
    let ghost f = |f: Field| pub_field_line(f);
    let mut k: usize = 0;
    while k < t.fields.len()
        invariant
            0 <= k <= t.fields@.len(),
            f == (|f: Field| pub_field_line(f)),
            out@ == head + concat_all(t.fields@.take(k as int), f),
        decreases t.fields@.len() - k,
    {
        proof {
            lemma_concat_all_step(t.fields@, k as int, f);
        }
        let field = &t.fields[k];
        let ty = rust_type(&field.ty);
        out.append("    pub ");
        out.append(field.name.as_str());
        if field.optional {
            out.append(": Option<");
            out.append(ty.as_str());
            out.append(">,\n");
        } else {
            out.append(": ");
            out.append(ty.as_str());
            out.append(",\n");
        }
        k += 1;
    }
    proof {
        lemma_take_full(t.fields@);
    }
    out.append("}\n\n");
    out
}

pub open spec fn event_alias(ev: EventDef) -> Seq<char> {
    "pub type "@ + spec_code_name(ev.name) + "Event = "@ + spec_rust_type(ev.payload) + ";\n\n"@
}

/// The enums, then the structs, then an alias per event payload.
pub open spec fn spec_render_type_defs(service: Service) -> Seq<char> {
    concat_all(service.schema.enums@, |e: EnumDef| spec_rs_enum(e)) + concat_all(
        service.schema.types@,
        |t: TypeDef| spec_rs_struct(t),
    ) + concat_all(service.events.definitions@, |ev: EventDef| event_alias(ev))
}

pub fn render_type_defs(service: &Service) -> (r: String)
    ensures
        r@ == spec_render_type_defs(*service),
{
    let mut out = String::new();
    let ghost fe = |e: EnumDef| spec_rs_enum(e);
    let enums = &service.schema.enums;
    let mut i: usize = 0;
    while i < enums.len()
        invariant
            0 <= i <= enums@.len(),
            enums@ == service.schema.enums@,
            fe == (|e: EnumDef| spec_rs_enum(e)),
            out@ == concat_all(enums@.take(i as int), fe),
        decreases enums@.len() - i,
    {
        proof {
            lemma_concat_all_step(enums@, i as int, fe);
        }
        let s = rs_enum(&enums[i]);
        out.append(s.as_str());
        i += 1;
    }
    proof {
        lemma_take_full(enums@);
    }
    let ghost a = out@;
    let ghost ft = |t: TypeDef| spec_rs_struct(t);
    let types = &service.schema.types;
    let mut i: usize = 0;
    while i < types.len()
        invariant
            0 <= i <= types@.len(),
            types@ == service.schema.types@,
            ft == (|t: TypeDef| spec_rs_struct(t)),
            out@ == a + concat_all(types@.take(i as int), ft),
        decreases types@.len() - i,
    {
        proof {
            lemma_concat_all_step(types@, i as int, ft);
        }
        let s = rs_struct(&types[i]);
        out.append(s.as_str());
        i += 1;
    }
    proof {
        lemma_take_full(types@);
    }
    let ghost b = out@;
    let ghost fv = |ev: EventDef| event_alias(ev);
    let evs = &service.events.definitions;
    let mut i: usize = 0;
    while i < evs.len()
        invariant
            0 <= i <= evs@.len(),
            evs@ == service.events.definitions@,
            fv == (|ev: EventDef| event_alias(ev)),
            out@ == b + concat_all(evs@.take(i as int), fv),
        decreases evs@.len() - i,
    {
        proof {
            lemma_concat_all_step(evs@, i as int, fv);
        }
        let ev = &evs[i];
        out.append("pub type ");
        let name = ev.name.code_name();
        out.append(name.as_str());
        out.append("Event = ");
        let ty = rust_type(&ev.payload);
        out.append(ty.as_str());
        out.append(";\n\n");
        i += 1;
    }
    proof {
        lemma_take_full(evs@);
    }
    out
}

/// The payload structs of the built-in socket messages.
pub open spec fn socket_payloads() -> Seq<char> {
    "#[derive(Serialize, Deserialize)]\npub struct JoinPayload {\n    pub user_id: Option<String>,\n    pub meta: Option<serde_json::Value>,\n}\n\n#[derive(Serialize, Deserialize)]\npub struct ExitPayload {\n    pub reason: Option<String>,\n}\n\n#[derive(Serialize, Deserialize)]\npub struct MessageInPayload {\n    pub id: Option<String>,\n    pub text: Option<String>,\n    pub data: Option<serde_json::Value>,\n}\n\n#[derive(Serialize, Deserialize)]\npub struct MessageOutPayload {\n    pub id: Option<String>,\n    pub text: Option<String>,\n    pub data: Option<serde_json::Value>,\n}\n\n#[derive(Serialize, Deserialize)]\npub struct TypingPayload {\n    pub user_id: Option<String>,\n    pub typing: Option<bool>,\n}\n\n#[derive(Serialize, Deserialize)]\npub struct PingPayload {\n    pub ts: Option<i64>,\n}\n\n#[derive(Serialize, Deserialize)]\npub struct PongPayload {\n    pub ts: Option<i64>,\n}\n\n#[derive(Serialize, Deserialize)]\npub struct AuthPayload {\n    pub token: Option<String>,\n}\n\n#[derive(Serialize, Deserialize)]\npub struct SubscribePayload {\n    pub topic: Option<String>,\n}\n\n#[derive(Serialize, Deserialize)]\npub struct UnsubscribePayload {\n    pub topic: Option<String>,\n}\n\n#[derive(Serialize, Deserialize)]\npub struct RoomJoinPayload {\n    pub room: Option<String>,\n}\n\n#[derive(Serialize, Deserialize)]\npub struct RoomLeavePayload {\n    pub room: Option<String>,\n}\n\n#[derive(Serialize, Deserialize)]\npub struct AckPayload {\n    pub id: Option<String>,\n}\n\n#[derive(Serialize, Deserialize)]\npub struct ReceiptPayload {\n    pub id: Option<String>,\n    pub status: Option<String>,\n}\n\n#[derive(Serialize, Deserialize)]\npub struct UserJoinedPayload {\n    pub user_id: Option<String>,\n}\n\n#[derive(Serialize, Deserialize)]\npub struct UserLeftPayload {\n    pub user_id: Option<String>,\n}\n\n#[derive(Serialize, Deserialize)]\npub struct ErrorPayload {\n    pub message: Option<String>,\n    pub code: Option<String>,\n}\n\n#[derive(Serialize, Deserialize)]\npub struct ServerNoticePayload {\n    pub message: Option<String>,\n    pub level: Option<String>,\n}\n\n"@
}

pub fn render_socket_payloads() -> (r: String)
    ensures
        r@ == socket_payloads(),
{
    String::from_str("#[derive(Serialize, Deserialize)]\npub struct JoinPayload {\n    pub user_id: Option<String>,\n    pub meta: Option<serde_json::Value>,\n}\n\n#[derive(Serialize, Deserialize)]\npub struct ExitPayload {\n    pub reason: Option<String>,\n}\n\n#[derive(Serialize, Deserialize)]\npub struct MessageInPayload {\n    pub id: Option<String>,\n    pub text: Option<String>,\n    pub data: Option<serde_json::Value>,\n}\n\n#[derive(Serialize, Deserialize)]\npub struct MessageOutPayload {\n    pub id: Option<String>,\n    pub text: Option<String>,\n    pub data: Option<serde_json::Value>,\n}\n\n#[derive(Serialize, Deserialize)]\npub struct TypingPayload {\n    pub user_id: Option<String>,\n    pub typing: Option<bool>,\n}\n\n#[derive(Serialize, Deserialize)]\npub struct PingPayload {\n    pub ts: Option<i64>,\n}\n\n#[derive(Serialize, Deserialize)]\npub struct PongPayload {\n    pub ts: Option<i64>,\n}\n\n#[derive(Serialize, Deserialize)]\npub struct AuthPayload {\n    pub token: Option<String>,\n}\n\n#[derive(Serialize, Deserialize)]\npub struct SubscribePayload {\n    pub topic: Option<String>,\n}\n\n#[derive(Serialize, Deserialize)]\npub struct UnsubscribePayload {\n    pub topic: Option<String>,\n}\n\n#[derive(Serialize, Deserialize)]\npub struct RoomJoinPayload {\n    pub room: Option<String>,\n}\n\n#[derive(Serialize, Deserialize)]\npub struct RoomLeavePayload {\n    pub room: Option<String>,\n}\n\n#[derive(Serialize, Deserialize)]\npub struct AckPayload {\n    pub id: Option<String>,\n}\n\n#[derive(Serialize, Deserialize)]\npub struct ReceiptPayload {\n    pub id: Option<String>,\n    pub status: Option<String>,\n}\n\n#[derive(Serialize, Deserialize)]\npub struct UserJoinedPayload {\n    pub user_id: Option<String>,\n}\n\n#[derive(Serialize, Deserialize)]\npub struct UserLeftPayload {\n    pub user_id: Option<String>,\n}\n\n#[derive(Serialize, Deserialize)]\npub struct ErrorPayload {\n    pub message: Option<String>,\n    pub code: Option<String>,\n}\n\n#[derive(Serialize, Deserialize)]\npub struct ServerNoticePayload {\n    pub message: Option<String>,\n    pub level: Option<String>,\n}\n\n")
}

/// `types.rs`: nothing when the service has no schema, event or socket;
/// else the serde imports, the type definitions, and the socket payloads
/// when it has sockets.
pub open spec fn spec_build_types_rs(service: Service) -> Seq<char> {
    if service.schema.types@.len() == 0 && service.schema.enums@.len() == 0
        && service.events.definitions@.len() == 0 && service.sockets.sockets@.len() == 0 {
        Seq::empty()
    } else {
        "#![allow(dead_code)]\nuse serde::{Serialize, Deserialize};\n\n"@ + spec_render_type_defs(service) + if service.sockets.sockets@.len() > 0 {
            socket_payloads()
        } else {
            Seq::empty()
        }
    }
}

pub fn build_types_rs(service: &Service) -> (r: String)
    ensures
        r@ == spec_build_types_rs(*service),
{
    if service.schema.types.len() == 0 && service.schema.enums.len() == 0
        && service.events.definitions.len() == 0 && service.sockets.sockets.len() == 0 {
        return String::new();
    }
    let mut out = String::from_str("#![allow(dead_code)]\nuse serde::{Serialize, Deserialize};\n\n");
    let d = render_type_defs(service);
    out.append(d.as_str());
    if service.sockets.sockets.len() > 0 {
        let p = render_socket_payloads();
        out.append(p.as_str());
    }
    out
}

} // verus!
