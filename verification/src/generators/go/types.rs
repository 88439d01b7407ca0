//! `types.go`: the schema's enums and types, event payload aliases and
//! the payloads of socket messages.

use vstd::prelude::*;

use crate::generators::go::util::{go_field_name, go_type, spec_go_field_name, spec_go_type, spec_wrap_optional, wrap_optional};
use crate::ir::{spec_code_name, EnumDef, EnumVariant, EventDef, Field, Service, TypeDef};
use crate::text::{concat_all, dec_int, i64_to_string, lemma_concat_all_step, lemma_take_full};

verus! {

pub open spec fn is_numeric_enum(en: EnumDef) -> bool {
    forall|i: int| 0 <= i < en.variants@.len() ==> (#[trigger] en.variants@[i]).value is Some
}

pub open spec fn numeric_const_fn(enum_name: Seq<char>) -> spec_fn(EnumVariant) -> Seq<char> {
    |v: EnumVariant| "    "@ + v.name@ + " "@ + enum_name + " = "@ + dec_int(
        match v.value {
            Some(x) => x as int,
            None => 0,
        },
    ) + "\n"@
}

pub open spec fn string_const_fn(enum_name: Seq<char>) -> spec_fn(EnumVariant) -> Seq<char> {
    |v: EnumVariant| "    "@ + v.name@ + " "@ + enum_name + " = \""@ + v.name@ + "\"\n"@
}

/// An enum as a named Go type with constants: numbers when every variant
/// has a value, else strings.
pub open spec fn spec_go_enum(en: EnumDef) -> Seq<char> {
    let name = spec_code_name(en.name);
    if is_numeric_enum(en) {
        "type "@ + name + " int64\n"@ + "const (\n"@ + concat_all(en.variants@, numeric_const_fn(name)) + ")\n\n"@
    } else {
        "type "@ + name + " string\n"@ + "const (\n"@ + concat_all(en.variants@, string_const_fn(name)) + ")\n\n"@
    }
}

fn go_enum(en: &EnumDef) -> (r: String)
    ensures
        r@ == spec_go_enum(*en),
{
    let name = en.name.code_name();
    let mut numeric = true;
    let mut i: usize = 0;
    while i < en.variants.len()
        invariant
            0 <= i <= en.variants@.len(),
            numeric == forall|j: int| 0 <= j < i ==> (#[trigger] en.variants@[j]).value is Some,
        decreases en.variants@.len() - i,
    {
        if en.variants[i].value.is_none() {
            numeric = false;
        }
        i += 1;
    }
    let ghost f = if numeric {
        numeric_const_fn(name@)
    } else {
        string_const_fn(name@)
    };
    let mut consts = String::new();
    let mut k: usize = 0;
    while k < en.variants.len()
        invariant
            0 <= k <= en.variants@.len(),
            f == if numeric {
                numeric_const_fn(name@)
            } else {
                string_const_fn(name@)
            },
            consts@ == concat_all(en.variants@.take(k as int), f),
        decreases en.variants@.len() - k,
    {
        proof {
            lemma_concat_all_step(en.variants@, k as int, f);
        }
        let v = &en.variants[k];
        let mut s = String::from_str("    ");
        s.append(v.name.as_str());
        s.append(" ");
        s.append(name.as_str());
        if numeric {
            s.append(" = ");
            let val: i64 = match v.value {
                Some(x) => x,
                None => 0,
            };
            let d = i64_to_string(val);
            s.append(d.as_str());
            s.append("\n");
        } else {
            s.append(" = \"");
            s.append(v.name.as_str());
            s.append("\"\n");
        }
        consts.append(s.as_str());
        k += 1;
    }
    proof {
        lemma_take_full(en.variants@);
    }
    let mut out = String::from_str("type ");
    out.append(name.as_str());
    if numeric {
        out.append(" int64\n");
    } else {
        out.append(" string\n");
    }
    out.append("const (\n");
    out.append(consts.as_str());
    out.append(")\n\n");
    out
}

pub open spec fn struct_field_fn() -> spec_fn(Field) -> Seq<char> {
    |f: Field| {
        let t = spec_go_type(f.ty, false);
        if f.optional {
            "    "@ + spec_go_field_name(f.name@) + " "@ + spec_wrap_optional(t) + " `json:\""@ + f.name@ + ",omitempty\"`\n"@
        } else {
            "    "@ + spec_go_field_name(f.name@) + " "@ + t + " `json:\""@ + f.name@ + "\"`\n"@
        }
    }
}

/// A schema type as a Go struct with JSON tags.
pub open spec fn spec_go_struct(t: TypeDef) -> Seq<char> {
    "type "@ + spec_code_name(t.name) + " struct {\n"@ + concat_all(t.fields@, struct_field_fn()) + "}\n\n"@
}

fn go_struct(t: &TypeDef) -> (r: String)
    ensures
        r@ == spec_go_struct(*t),
{
    let mut body = String::new();
    let mut i: usize = 0;
    while i < t.fields.len()
        invariant
            0 <= i <= t.fields@.len(),
            body@ == concat_all(t.fields@.take(i as int), struct_field_fn()),
        decreases t.fields@.len() - i,
    {
        proof {
            lemma_concat_all_step(t.fields@, i as int, struct_field_fn());
        }
        let f = &t.fields[i];
        let g = go_field_name(f.name.as_str());
        let ty = go_type(&f.ty, false);
        let mut s = String::from_str("    ");
        s.append(g.as_str());
        s.append(" ");
        if f.optional {
            let w = wrap_optional(ty.as_str());
            s.append(w.as_str());
            s.append(" `json:\"");
            s.append(f.name.as_str());
            s.append(",omitempty\"`\n");
        } else {
            s.append(ty.as_str());
            s.append(" `json:\"");
            s.append(f.name.as_str());
            s.append("\"`\n");
        }
        body.append(s.as_str());
        i += 1;
    }
    proof {
        lemma_take_full(t.fields@);
    }
    let mut out = String::from_str("type ");
    let c = t.name.code_name();
    out.append(c.as_str());
    out.append(" struct {\n");
    out.append(body.as_str());
    out.append("}\n\n");
    out
}

pub open spec fn event_alias_fn() -> spec_fn(EventDef) -> Seq<char> {
    |e: EventDef| "type "@ + spec_code_name(e.name) + "Event = "@ + spec_go_type(e.payload, false) + "\n\n"@
}

pub open spec fn enum_fn() -> spec_fn(EnumDef) -> Seq<char> {
    |e: EnumDef| spec_go_enum(e)
}

pub open spec fn struct_fn() -> spec_fn(TypeDef) -> Seq<char> {
    |t: TypeDef| spec_go_struct(t)
}

pub open spec fn socket_payload_types() -> Seq<char> {
    "type JoinPayload struct {\n    UserId *string `json:\"user_id,omitempty\"`\n    Meta any `json:\"meta,omitempty\"`\n}\n\ntype ExitPayload struct {\n    Reason *string `json:\"reason,omitempty\"`\n}\n\ntype MessageInPayload struct {\n    Id *string `json:\"id,omitempty\"`\n    Text *string `json:\"text,omitempty\"`\n    Data any `json:\"data,omitempty\"`\n}\n\ntype MessageOutPayload struct {\n    Id *string `json:\"id,omitempty\"`\n    Text *string `json:\"text,omitempty\"`\n    Data any `json:\"data,omitempty\"`\n}\n\ntype TypingPayload struct {\n    UserId *string `json:\"user_id,omitempty\"`\n    Typing *bool `json:\"typing,omitempty\"`\n}\n\ntype PingPayload struct {\n    Ts *int64 `json:\"ts,omitempty\"`\n}\n\ntype PongPayload struct {\n    Ts *int64 `json:\"ts,omitempty\"`\n}\n\ntype AuthPayload struct {\n    Token *string `json:\"token,omitempty\"`\n}\n\ntype SubscribePayload struct {\n    Topic *string `json:\"topic,omitempty\"`\n}\n\ntype UnsubscribePayload struct {\n    Topic *string `json:\"topic,omitempty\"`\n}\n\ntype RoomJoinPayload struct {\n    Room *string `json:\"room,omitempty\"`\n}\n\ntype RoomLeavePayload struct {\n    Room *string `json:\"room,omitempty\"`\n}\n\ntype AckPayload struct {\n    Id *string `json:\"id,omitempty\"`\n}\n\ntype ReceiptPayload struct {\n    Id *string `json:\"id,omitempty\"`\n    Status *string `json:\"status,omitempty\"`\n}\n\ntype UserJoinedPayload struct {\n    UserId *string `json:\"user_id,omitempty\"`\n}\n\ntype UserLeftPayload struct {\n    UserId *string `json:\"user_id,omitempty\"`\n}\n\ntype ErrorPayload struct {\n    Message *string `json:\"message,omitempty\"`\n    Code *string `json:\"code,omitempty\"`\n}\n\ntype ServerNoticePayload struct {\n    Message *string `json:\"message,omitempty\"`\n    Level *string `json:\"level,omitempty\"`\n}\n\n"@
}

/// The Go types of a service in package `package`.
pub open spec fn spec_build_types_go_with_package(service: Service, package: Seq<char>) -> Seq<char> {
    "package "@ + package + "\n\n"@ + concat_all(service.schema.enums@, enum_fn()) + concat_all(
        service.schema.types@,
        struct_fn(),
    ) + concat_all(service.events.definitions@, event_alias_fn()) + if service.sockets.sockets@.len() > 0 {
        socket_payload_types()
    } else {
        Seq::empty()
    }
}

pub fn build_types_go_with_package(service: &Service, package: &str) -> (r: String)
    ensures
        r@ == spec_build_types_go_with_package(*service, package@),
{
    let mut out = String::from_str("package ");
    out.append(package);
    out.append("\n\n");
    let ghost a = out@;
    let enums = &service.schema.enums;
    let mut i: usize = 0;
    while i < enums.len()
        invariant
            0 <= i <= enums@.len(),
            out@ == a + concat_all(enums@.take(i as int), enum_fn()),
        decreases enums@.len() - i,
    {
        proof {
            lemma_concat_all_step(enums@, i as int, enum_fn());
        }
        let x = go_enum(&enums[i]);
        out.append(x.as_str());
        i += 1;
        assert(out@ =~= a + concat_all(enums@.take(i as int), enum_fn()));
    }
    proof {
        lemma_take_full(enums@);
    }
    let ghost b = out@;
    let types = &service.schema.types;
    let mut j: usize = 0;
    while j < types.len()
        invariant
            0 <= j <= types@.len(),
            out@ == b + concat_all(types@.take(j as int), struct_fn()),
        decreases types@.len() - j,
    {
        proof {
            lemma_concat_all_step(types@, j as int, struct_fn());
        }
        let x = go_struct(&types[j]);
        out.append(x.as_str());
        j += 1;
        assert(out@ =~= b + concat_all(types@.take(j as int), struct_fn()));
    }
    proof {
        lemma_take_full(types@);
    }
    let ghost c = out@;
    let defs = &service.events.definitions;
    let mut k: usize = 0;
    while k < defs.len()
        invariant
            0 <= k <= defs@.len(),
            out@ == c + concat_all(defs@.take(k as int), event_alias_fn()),
        decreases defs@.len() - k,
    {
        proof {
            lemma_concat_all_step(defs@, k as int, event_alias_fn());
        }
        let mut s = String::from_str("type ");
        let n = defs[k].name.code_name();
        s.append(n.as_str());
        s.append("Event = ");
        let t = go_type(&defs[k].payload, false);
        s.append(t.as_str());
        s.append("\n\n");
        out.append(s.as_str());
        k += 1;
        assert(out@ =~= c + concat_all(defs@.take(k as int), event_alias_fn()));
    }
    proof {
        lemma_take_full(defs@);
    }
    if service.sockets.sockets.len() > 0 {
        out.append("type JoinPayload struct {\n    UserId *string `json:\"user_id,omitempty\"`\n    Meta any `json:\"meta,omitempty\"`\n}\n\ntype ExitPayload struct {\n    Reason *string `json:\"reason,omitempty\"`\n}\n\ntype MessageInPayload struct {\n    Id *string `json:\"id,omitempty\"`\n    Text *string `json:\"text,omitempty\"`\n    Data any `json:\"data,omitempty\"`\n}\n\ntype MessageOutPayload struct {\n    Id *string `json:\"id,omitempty\"`\n    Text *string `json:\"text,omitempty\"`\n    Data any `json:\"data,omitempty\"`\n}\n\ntype TypingPayload struct {\n    UserId *string `json:\"user_id,omitempty\"`\n    Typing *bool `json:\"typing,omitempty\"`\n}\n\ntype PingPayload struct {\n    Ts *int64 `json:\"ts,omitempty\"`\n}\n\ntype PongPayload struct {\n    Ts *int64 `json:\"ts,omitempty\"`\n}\n\ntype AuthPayload struct {\n    Token *string `json:\"token,omitempty\"`\n}\n\ntype SubscribePayload struct {\n    Topic *string `json:\"topic,omitempty\"`\n}\n\ntype UnsubscribePayload struct {\n    Topic *string `json:\"topic,omitempty\"`\n}\n\ntype RoomJoinPayload struct {\n    Room *string `json:\"room,omitempty\"`\n}\n\ntype RoomLeavePayload struct {\n    Room *string `json:\"room,omitempty\"`\n}\n\ntype AckPayload struct {\n    Id *string `json:\"id,omitempty\"`\n}\n\ntype ReceiptPayload struct {\n    Id *string `json:\"id,omitempty\"`\n    Status *string `json:\"status,omitempty\"`\n}\n\ntype UserJoinedPayload struct {\n    UserId *string `json:\"user_id,omitempty\"`\n}\n\ntype UserLeftPayload struct {\n    UserId *string `json:\"user_id,omitempty\"`\n}\n\ntype ErrorPayload struct {\n    Message *string `json:\"message,omitempty\"`\n    Code *string `json:\"code,omitempty\"`\n}\n\ntype ServerNoticePayload struct {\n    Message *string `json:\"message,omitempty\"`\n    Level *string `json:\"level,omitempty\"`\n}\n\n");
    } else {
        assert(out@ + Seq::<char>::empty() =~= out@);
    }
    out
}

pub fn build_types_go(service: &Service) -> (r: String)
    ensures
        r@ == spec_build_types_go_with_package(*service, "types"@),
{
    build_types_go_with_package(service, "types")
}

} // verus!
