//! The remote calls of the Rust server: one client function per module
//! function of another service that its routes call.

use vstd::prelude::*;

use crate::generators::go::remote_calls::{
    calls_view, collect_remote_calls, remote_calls_upto, remote_routes_respond, RemoteArg,
    RemoteCall, RemoteCallV,
};
use crate::generators::go::util::{remote_call_type_name, spec_remote_call_type_name};
use crate::generators::rust::util::{rust_type, spec_rust_type};
use crate::ir::{Service, Type};
use crate::resolve::{rref_view, RRef, RTy};
use crate::sorted::kv_view;
use crate::text::{
    concat_all, join, lemma_concat_all_step, lemma_take_full, lemma_views_push, seq_join, views,
};

verus! {

/// The Rust type of a resolved argument; a route's whole input is a JSON
/// value.
pub open spec fn rty_rust_type(t: RTy) -> Seq<char> {
    match t {
        RTy::Of(x) => spec_rust_type(x),
        RTy::ObjectOf(_) => "serde_json::Value"@,
    }
}

fn rref_rust_type(t: &RRef) -> (r: String)
    ensures
        r@ == rty_rust_type(rref_view(*t)),
{
    match t {
        RRef::Ty(x) => rust_type(x),
        RRef::AnyTy => rust_type(&Type::Any),
        _ => String::from_str("serde_json::Value"),
    }
}

/// An argument's type, in `Option` when it may be missing.
pub open spec fn arg_type(a: (Seq<char>, RTy, bool)) -> Seq<char> {
    if a.2 {
        "Option<"@ + rty_rust_type(a.1) + ">"@
    } else {
        rty_rust_type(a.1)
    }
}

fn arg_type_exec(a: &RemoteArg) -> (r: String)
    ensures
        r@ == arg_type((a.name@, rref_view(a.ty), a.optional)),
{
    let t = rref_rust_type(&a.ty);
    if a.optional {
        let mut s = String::from_str("Option<");
        s.append(t.as_str());
        s.append(">");
        s
    } else {
        t
    }
}

pub open spec fn request_field(a: (Seq<char>, RTy, bool)) -> Seq<char> {
    "    pub "@ + a.0 + ": "@ + arg_type(a) + ",\n"@
}

pub open spec fn rs_params_of(args: Seq<(Seq<char>, RTy, bool)>) -> Seq<Seq<char>> {
    args.map_values(|a: (Seq<char>, RTy, bool)| a.0 + ": "@ + arg_type(a))
}

pub open spec fn rs_payload_of(args: Seq<(Seq<char>, RTy, bool)>) -> Seq<Seq<char>> {
    args.map_values(|a: (Seq<char>, RTy, bool)| "\""@ + a.0 + "\": "@ + a.0)
}

/// How the client reads the answer: nothing for void, the text (JSON
/// string or raw) for a string, else the decoded JSON value.
pub open spec fn rs_parse_expr(resp: Type) -> Seq<char> {
    match resp {
        Type::Void => "let _ = resp.text().await; Ok(())"@,
        Type::String => "let text = resp.text().await.unwrap_or_default();\n    match serde_json::from_str::<String>(&text) {\n        Ok(v) => Ok(v),\n        Err(_) => Ok(text),\n    }"@,
        _ => "match resp.json::<"@ + spec_rust_type(resp)
            + ">().await {\n        Ok(v) => Ok(v),\n        Err(_) => Err(StatusCode::BAD_GATEWAY),\n    }"@,
    }
}

fn parse_expr_exec(resp: &Type) -> (r: String)
    ensures
        r@ == rs_parse_expr(*resp),
{
    match resp {
        Type::Void => String::from_str("let _ = resp.text().await; Ok(())"),
        Type::String => String::from_str("let text = resp.text().await.unwrap_or_default();\n    match serde_json::from_str::<String>(&text) {\n        Ok(v) => Ok(v),\n        Err(_) => Ok(text),\n    }"),
        _ => {
            let mut s = String::from_str("match resp.json::<");
            let t = rust_type(resp);
            s.append(t.as_str());
            s.append(">().await {\n        Ok(v) => Ok(v),\n        Err(_) => Err(StatusCode::BAD_GATEWAY),\n    }");
            s
        },
    }
}

/// The client function of one call.
#[verifier::opaque]
pub open spec fn rs_remote_fn_template(name: Seq<char>, args: Seq<char>, ret: Seq<char>, base: Seq<char>, path: Seq<char>, payload: Seq<char>, parse_expr: Seq<char>) -> Seq<char> {
    "pub async fn "@ + name + "("@ + args + ", headers: &HeaderMap) -> Result<"@ + ret + ", StatusCode> {\n    let client = Client::new();\n    let url = format!(\""@ + base + path + "\");\n    let payload = json!({"@ + payload + "});\n    let mut req = client.post(url).json(&payload);\n    if let Some(value) = headers.get(\"authorization\") {\n        if let Ok(v) = value.to_str() {\n            req = req.header(\"authorization\", v);\n        }\n    }\n    for (name, value) in headers.iter() {\n        let key = name.as_str();\n        if key.starts_with(\"x-\") {\n            if let Ok(v) = value.to_str() {\n                req = req.header(key, v);\n            }\n        }\n    }\n    let resp = match req.send().await {\n        Ok(r) => r,\n        Err(_) => return Err(StatusCode::BAD_GATEWAY),\n    };\n    if !resp.status().is_success() {\n        return Err(StatusCode::BAD_GATEWAY);\n    }\n    "@ + parse_expr + "\n}\n\n"@
}

/// The request struct, the response alias and the client function of one
/// call.
pub open spec fn spec_rs_remote_call_text(c: RemoteCallV) -> Seq<char> {
    let tn = spec_remote_call_type_name(c.0);
    "pub struct "@ + tn + "Request {\n"@ + concat_all(c.3, |a: (Seq<char>, RTy, bool)| request_field(a))
        + "}\n"@ + "pub type "@ + tn + "Response = "@ + spec_rust_type(c.4) + ";\n\n"@
        + rs_remote_fn_template(
        c.0,
        seq_join(rs_params_of(c.3), ", "@),
        spec_rust_type(c.4),
        c.1,
        c.2,
        seq_join(rs_payload_of(c.3), ", "@),
        rs_parse_expr(c.4),
    )
}

pub open spec fn arg_views(c: RemoteCall) -> Seq<(Seq<char>, RTy, bool)> {
    c.args@.map_values(|a: RemoteArg| (a.name@, rref_view(a.ty), a.optional))
}

fn remote_call_text(c: &RemoteCall) -> (r: String)
    ensures
        r@ == spec_rs_remote_call_text(crate::generators::go::remote_calls::remote_call_view(*c)),
{
    let ghost cv = crate::generators::go::remote_calls::remote_call_view(*c);
    let ghost av = cv.3;
    assert(av =~= arg_views(*c));
    let tn = remote_call_type_name(c.name.as_str());
    let mut fields = String::new();
    let mut params: Vec<String> = Vec::new();
    let mut payload: Vec<String> = Vec::new();
    let ghost f = |a: (Seq<char>, RTy, bool)| request_field(a);
    let mut i: usize = 0;
    while i < c.args.len()
        invariant
            0 <= i <= c.args@.len(),
            av == arg_views(*c),
            f == (|a: (Seq<char>, RTy, bool)| request_field(a)),
            fields@ == concat_all(av.take(i as int), f),
            views(params@) == rs_params_of(av.take(i as int)),
            views(payload@) == rs_payload_of(av.take(i as int)),
        decreases c.args@.len() - i,
    {
        proof {
            lemma_concat_all_step(av, i as int, f);
        }
        let a = &c.args[i];
        let t = arg_type_exec(a);
        fields.append("    pub ");
        fields.append(a.name.as_str());
        fields.append(": ");
        fields.append(t.as_str());
        fields.append(",\n");
        let mut p = a.name.clone();
        p.append(": ");
        p.append(t.as_str());
        proof {
            lemma_views_push(params@, p);
        }
        params.push(p);
        let mut q = String::from_str("\"");
        q.append(a.name.as_str());
        q.append("\": ");
        q.append(a.name.as_str());
        proof {
            lemma_views_push(payload@, q);
        }
        payload.push(q);
        i += 1;
        assert(views(params@) =~= rs_params_of(av.take(i as int)));
        assert(views(payload@) =~= rs_payload_of(av.take(i as int)));
    }
    proof {
        lemma_take_full(av);
    }
    let args = join(&params, ", ");
    let payload = join(&payload, ", ");
    let ret = rust_type(c.response);
    let parse_expr = parse_expr_exec(c.response);
    let name = &c.name;
    let base = &c.base;
    let path = &c.path;
    let mut s = String::from_str("pub async fn ");
    s.append(name.as_str());
    s.append("(");
    s.append(args.as_str());
    s.append(", headers: &HeaderMap) -> Result<");
    s.append(ret.as_str());
    s.append(", StatusCode> {\n    let client = Client::new();\n    let url = format!(\"");
    s.append(base.as_str());
    s.append(path.as_str());
    s.append("\");\n    let payload = json!({");
    s.append(payload.as_str());
    s.append("});\n    let mut req = client.post(url).json(&payload);\n    if let Some(value) = headers.get(\"authorization\") {\n        if let Ok(v) = value.to_str() {\n            req = req.header(\"authorization\", v);\n        }\n    }\n    for (name, value) in headers.iter() {\n        let key = name.as_str();\n        if key.starts_with(\"x-\") {\n            if let Ok(v) = value.to_str() {\n                req = req.header(key, v);\n            }\n        }\n    }\n    let resp = match req.send().await {\n        Ok(r) => r,\n        Err(_) => return Err(StatusCode::BAD_GATEWAY),\n    };\n    if !resp.status().is_success() {\n        return Err(StatusCode::BAD_GATEWAY);\n    }\n    ");
    s.append(parse_expr.as_str());
    s.append("\n}\n\n");
    proof {
        reveal(rs_remote_fn_template);
    }
    let mut out = String::from_str("pub struct ");
    out.append(tn.as_str());
    out.append("Request {\n");
    out.append(fields.as_str());
    out.append("}\n");
    out.append("pub type ");
    out.append(tn.as_str());
    out.append("Response = ");
    out.append(ret.as_str());
    out.append(";\n\n");
    out.append(s.as_str());
    out
}

pub open spec fn rs_remote_call_text_fn() -> spec_fn((Seq<char>, RemoteCallV)) -> Seq<char> {
    |e: (Seq<char>, RemoteCallV)| spec_rs_remote_call_text(e.1)
}

/// `remote_calls.rs`: nothing when no route calls another service; else
/// the imports and one client per distinct call, in key order.
pub open spec fn spec_build_remote_calls_rs(svc: Service) -> Seq<char> {
    let calls = remote_calls_upto(svc, svc.http.routes@.len());
    if calls.len() == 0 {
        Seq::empty()
    } else {
        "#![allow(dead_code)]\nuse axum::http::{HeaderMap, StatusCode};\nuse reqwest::Client;\nuse serde_json::json;\n#[allow(unused_imports)]\nuse crate::types::*;\n\n"@ + concat_all(calls, rs_remote_call_text_fn())
    }
}

pub fn build_remote_calls_rs(svc: &Service) -> (r: String)
    requires
        remote_routes_respond(*svc),
    ensures
        r@ == spec_build_remote_calls_rs(*svc),
{
    let calls = collect_remote_calls(svc);
    let ghost cv = calls_view(calls@);
    if calls.len() == 0 {
        assert(cv.len() == 0);
        return String::new();
    }
    let mut out = String::from_str("#![allow(dead_code)]\nuse axum::http::{HeaderMap, StatusCode};\nuse reqwest::Client;\nuse serde_json::json;\n#[allow(unused_imports)]\nuse crate::types::*;\n\n");
    let ghost head = out@;
    let mut k: usize = 0;
    while k < calls.len()
        invariant
            0 <= k <= calls@.len(),
            cv == calls_view(calls@),
            cv.len() == calls@.len(),
            out@ == head + concat_all(cv.take(k as int), rs_remote_call_text_fn()),
        decreases calls@.len() - k,
    {
        proof {
            lemma_concat_all_step(cv, k as int, rs_remote_call_text_fn());
        }
        assert(cv[k as int].1 == crate::generators::go::remote_calls::remote_call_view(calls@[k as int].1));
        let t = remote_call_text(&calls[k].1);
        out.append(t.as_str());
        k += 1;
    }
    proof {
        lemma_take_full(cv);
    }
    out
}

} // verus!
