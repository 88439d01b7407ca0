//! `middleware.rs` of the Rust server: one axum middleware per name a
//! service's routes use.

use vstd::prelude::*;

use crate::generators::go::middleware::{name_set, sorted_middleware_names, used_middleware};
use crate::ir::Service;
use crate::sorted::strings_view;
use crate::text::{
    concat_all, debug_quoted, debug_str, lemma_concat_all_step, lemma_take_full, replace_char,
    replace_char_seq, str_eq,
};

verus! {

/// The middleware function of one name; `quoted` is the name written as a
/// Rust string literal. The built-in authentication middleware check
/// their header; any other lets a request header block it.
pub open spec fn spec_rs_middleware_func(name: Seq<char>, quoted: Seq<char>) -> Seq<char> {
    let body = if name == "auth_none"@ {
        "    Ok(next.run(req).await)\n"@
    } else if name == "auth_bearer"@ {
        "    if req.headers().get(\"authorization\").is_none() {\n        return Err(StatusCode::UNAUTHORIZED);\n    }\n    Ok(next.run(req).await)\n"@
    } else if name == "auth_api_key"@ {
        "    if req.headers().get(\"x-api-key\").is_none() {\n        return Err(StatusCode::UNAUTHORIZED);\n    }\n    Ok(next.run(req).await)\n"@
    } else {
        "    if matches!(middleware_directive(&req, "@ + quoted + ").as_deref(), Some(\"block\" | \"deny\" | \"forbid\")) {\n        return Err(StatusCode::FORBIDDEN);\n    }\n    let mut response = next.run(req).await;\n    if let Ok(header_name) = HeaderName::from_bytes(b\"x-nimesvc-middleware-"@ + replace_char_seq(name, '_', "-"@) + "\") {\n        response.headers_mut().insert(header_name, HeaderValue::from_static(\"ok\"));\n    }\n    Ok(response)\n"@
    };
    "pub async fn "@ + name + "(req: Request<Body>, next: Next) -> Result<Response, StatusCode> {\n"@ + body + "}\n\n"@
}

pub fn rs_middleware_func(name: &str, quoted: &str) -> (r: String)
    ensures
        r@ == spec_rs_middleware_func(name@, quoted@),
{
    let body = if str_eq(name, "auth_none") {
        String::from_str("    Ok(next.run(req).await)\n")
    } else if str_eq(name, "auth_bearer") {
        String::from_str("    if req.headers().get(\"authorization\").is_none() {\n        return Err(StatusCode::UNAUTHORIZED);\n    }\n    Ok(next.run(req).await)\n")
    } else if str_eq(name, "auth_api_key") {
        String::from_str("    if req.headers().get(\"x-api-key\").is_none() {\n        return Err(StatusCode::UNAUTHORIZED);\n    }\n    Ok(next.run(req).await)\n")
    } else {
        let header = replace_char(name, '_', "-");
        let mut s = String::from_str("    if matches!(middleware_directive(&req, ");
        s.append(quoted);
        s.append(").as_deref(), Some(\"block\" | \"deny\" | \"forbid\")) {\n        return Err(StatusCode::FORBIDDEN);\n    }\n    let mut response = next.run(req).await;\n    if let Ok(header_name) = HeaderName::from_bytes(b\"x-nimesvc-middleware-");
        s.append(header.as_str());
        s.append("\") {\n        response.headers_mut().insert(header_name, HeaderValue::from_static(\"ok\"));\n    }\n    Ok(response)\n");
        s
    };
    let mut s = String::from_str("pub async fn ");
    s.append(name);
    s.append("(req: Request<Body>, next: Next) -> Result<Response, StatusCode> {\n");
    s.append(body.as_str());
    s.append("}\n\n");
    s
}

pub open spec fn rs_middleware_func_fn() -> spec_fn(Seq<char>) -> Seq<char> {
    |n: Seq<char>| spec_rs_middleware_func(n, debug_str(n))
}

/// `middleware.rs`: nothing when no middleware is used; else the
/// directive helper and one function per name, in text order.
pub open spec fn spec_build_middleware_rs(svc: Service) -> Seq<char> {
    let names = name_set(used_middleware(svc));
    if names.len() == 0 {
        Seq::empty()
    } else {
        "use axum::{body::Body, http::{header::HeaderName, HeaderValue, Request, StatusCode}, middleware::Next, response::Response};\n\nfn middleware_directive(req: &Request<Body>, name: &str) -> Option<String> {\n    let header = format!(\"x-nimesvc-middleware-{}\", name.replace('_', \"-\"));\n    req.headers().get(&header).and_then(|v| v.to_str().ok()).map(|v| v.trim().to_ascii_lowercase())\n}\n\n"@ + concat_all(names, rs_middleware_func_fn())
    }
}

pub fn build_middleware_rs(svc: &Service) -> (r: String)
    ensures
        r@ == spec_build_middleware_rs(*svc),
{
    let names = sorted_middleware_names(svc);
    if names.len() == 0 {
        return String::new();
    }
    let ghost nv = strings_view(names@);
    let mut out = String::from_str("use axum::{body::Body, http::{header::HeaderName, HeaderValue, Request, StatusCode}, middleware::Next, response::Response};\n\nfn middleware_directive(req: &Request<Body>, name: &str) -> Option<String> {\n    let header = format!(\"x-nimesvc-middleware-{}\", name.replace('_', \"-\"));\n    req.headers().get(&header).and_then(|v| v.to_str().ok()).map(|v| v.trim().to_ascii_lowercase())\n}\n\n");
    let ghost start = out@;
    let mut k: usize = 0;
    while k < names.len()
        invariant
            0 <= k <= names@.len(),
            nv == strings_view(names@),
            out@ == start + concat_all(nv.take(k as int), rs_middleware_func_fn()),
        decreases names@.len() - k,
    {
        proof {
            lemma_concat_all_step(nv, k as int, rs_middleware_func_fn());
        }
        assert(nv[k as int] == names@[k as int]@);
        let q = debug_quoted(names[k].as_str());
        let f = rs_middleware_func(names[k].as_str(), q.as_str());
        out.append(f.as_str());
        k += 1;
        assert(out@ =~= start + concat_all(nv.take(k as int), rs_middleware_func_fn()));
    }
    proof {
        lemma_take_full(nv);
    }
    out
}

} // verus!
