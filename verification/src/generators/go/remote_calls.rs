//! The remote calls of a Go server: one client function per module
//! function of another service that its routes call.

use vstd::prelude::*;

use crate::generators::go::util::{
    go_field_name, go_type, primary_response, remote_call_fn_name, remote_call_type_name,
    spec_go_field_name, spec_go_type, spec_primary_response, spec_remote_call_fn_name,
    spec_remote_call_type_name, spec_type_uses_types_pkg, type_uses_types_pkg,
};
use crate::ir::{spec_code_name, CallArg, InputRef, Route, Service, Type};
use crate::resolve::{
    field_lookup, find_type_def, first_type_def, lookup, rref_view, source_fields_of,
    spec_resolve_start, RRef, RTy,
};
use crate::sorted::{kv_view, lemma_sm_has_key_map, lemma_sm_insert_map, sm_contains, sm_has_key, sm_insert, sm_put};
use crate::text::{concat_all, dec_nat, join, lemma_concat_all_step, lemma_take_full, lemma_views_push, seq_join, u64_to_string, views};

verus! {

// ---------------------------------------------------------------------------
// Argument types
// ---------------------------------------------------------------------------

/// One step into a field, where an unknown schema type has no fields.
pub open spec fn go_resolve_step(svc: Service, cur: (RTy, bool), seg: Seq<char>) -> (RTy, bool) {
    let fields: Seq<crate::ir::Field> = match cur.0 {
        RTy::ObjectOf(fs) => fs,
        RTy::Of(t) => match t {
            Type::Object(v) => v@,
            Type::Named(n) => {
                let k = first_type_def(svc.schema.types@, n, 0);
                if k < 0 {
                    Seq::empty()
                } else {
                    svc.schema.types@[k].fields@
                }
            },
            _ => Seq::empty(),
        },
    };
    let found = field_lookup(fields, seg);
    (found.0, cur.1 || found.1)
}

pub open spec fn go_resolve_upto(svc: Service, route: Route, input: InputRef, n: nat) -> (RTy, bool)
    decreases n,
{
    if n <= 1 {
        let s = spec_resolve_start(route, input);
        (s.0, s.1)
    } else {
        go_resolve_step(svc, go_resolve_upto(svc, route, input, (n - 1) as nat), input.path@[n - 1]@)
    }
}

/// The type and optionality of what an input reference names.
pub open spec fn go_resolve(svc: Service, route: Route, input: InputRef) -> (RTy, bool) {
    go_resolve_upto(svc, route, input, input.path@.len())
}

fn go_resolve_step_exec<'a>(svc: &'a Service, cur: (RRef<'a>, bool), seg: &str) -> (r: (RRef<'a>, bool))
    ensures
        (rref_view(r.0), r.1) == go_resolve_step(*svc, (rref_view(cur.0), cur.1), seg@),
{
    let (ty, opt) = cur;
    let empty_fields: Option<&'a Vec<crate::ir::Field>> = None;
    let fields: Option<&'a Vec<crate::ir::Field>> = match ty {
        RRef::Fields(v) => Some(v),
        RRef::NoFields => empty_fields,
        RRef::AnyTy => empty_fields,
        RRef::Ty(t) => match t {
            Type::Object(v) => Some(v),
            Type::Named(n) => match find_type_def(&svc.schema.types, n) {
                None => empty_fields,
                Some(def) => Some(&def.fields),
            },
            _ => empty_fields,
        },
    };
    match fields {
        None => {
            let e: Vec<crate::ir::Field> = Vec::new();
            assert(field_lookup(e@, seg@) == field_lookup(Seq::<crate::ir::Field>::empty(), seg@)) by {
                assert(e@ =~= Seq::<crate::ir::Field>::empty());
            }
            assert(crate::resolve::first_field(Seq::<crate::ir::Field>::empty(), seg@, 0) == -1);
            (RRef::AnyTy, opt)
        },
        Some(fs) => {
            let (t2, o2, _v) = lookup(fs, seg);
            (t2, opt || o2)
        },
    }
}

pub fn go_resolve_input_ref<'a>(svc: &'a Service, route: &'a Route, input: &InputRef) -> (r: (RRef<'a>, bool))
    ensures
        (rref_view(r.0), r.1) == go_resolve(*svc, *route, *input),
{
    let fs = source_fields_of(route, input.source);
    let start: (RRef<'a>, bool) = if input.path.len() == 0 {
        match fs {
            Some(v) => (RRef::Fields(v), false),
            None => (RRef::NoFields, false),
        }
    } else {
        match fs {
            Some(v) => {
                let (t, o, _v) = lookup(v, input.path[0].as_str());
                (t, o)
            },
            None => {
                assert(crate::resolve::first_field(Seq::<crate::ir::Field>::empty(), input.path@[0]@, 0) == -1);
                (RRef::AnyTy, false)
            },
        }
    };
    let mut cur = start;
    let mut i: usize = 1;
    while i < input.path.len()
        invariant
            1 <= i,
            i <= input.path@.len() || (input.path@.len() == 0 && i == 1),
            go_resolve_upto(*svc, *route, *input, i as nat) == (rref_view(cur.0), cur.1),
        decreases input.path@.len() - i,
    {
        cur = go_resolve_step_exec(svc, cur, input.path[i].as_str());
        i += 1;
    }
    proof {
        if input.path@.len() == 0 {
            assert(go_resolve_upto(*svc, *route, *input, 0) == go_resolve_upto(*svc, *route, *input, 1));
        }
    }
    cur
}

// ---------------------------------------------------------------------------
// Collecting the calls
// ---------------------------------------------------------------------------

/// A remote call: client function name, base URL, internal path, the
/// arguments (name, type, optional) and the response type.
pub type RemoteCallV = (Seq<char>, Seq<char>, Seq<char>, Seq<(Seq<char>, RTy, bool)>, Type);

pub open spec fn remote_arg_name(arg: CallArg, idx: nat) -> Seq<char> {
    match arg.name {
        Some(n) => n@,
        None => "arg"@ + dec_nat(idx),
    }
}

pub open spec fn remote_args(svc: Service, route: Route, n: nat) -> Seq<(Seq<char>, RTy, bool)>
    decreases n,
{
    if n == 0 {
        Seq::empty()
    } else {
        let arg = route.call.args@[n - 1];
        let res = go_resolve(svc, route, arg.value);
        remote_args(svc, route, (n - 1) as nat).push((remote_arg_name(arg, (n - 1) as nat), res.0, res.1))
    }
}

pub open spec fn spec_remote_call(svc: Service, route: Route, base: Seq<char>) -> RemoteCallV {
    (
        spec_remote_call_fn_name(route),
        base,
        "/__call/"@ + route.call.module@ + "/"@ + route.call.function@,
        remote_args(svc, route, route.call.args@.len()),
        spec_primary_response(route.responses@).ty,
    )
}

/// What identifies a remote call: target service, module, function, base.
pub open spec fn remote_key(route: Route, base: Seq<char>) -> Seq<char> {
    (match route.call.service {
        Some(s) => s@,
        None => "service"@,
    }) + "::"@ + route.call.module@ + "::"@ + route.call.function@ + "::"@ + base
}

/// The remote calls of the first `n` routes, in key order, the first
/// route of each key giving the call.
pub open spec fn remote_calls_upto(svc: Service, n: nat) -> Seq<(Seq<char>, RemoteCallV)>
    decreases n,
{
    if n == 0 {
        Seq::empty()
    } else {
        let m = remote_calls_upto(svc, (n - 1) as nat);
        let route = svc.http.routes@[n - 1];
        match route.call.service_base {
            None => m,
            Some(base) => {
                let key = remote_key(route, base@);
                if sm_has_key(m, key) {
                    m
                } else {
                    sm_insert(m, key, spec_remote_call(svc, route, base@))
                }
            },
        }
    }
}

/// Every route forwarding to another service has a response.
pub open spec fn remote_routes_respond(svc: Service) -> bool {
    forall|i: int| 0 <= i < svc.http.routes@.len() && (#[trigger] svc.http.routes@[i]).call.service_base is Some
        ==> svc.http.routes@[i].responses@.len() > 0
}

pub struct RemoteArg<'a> {
    pub name: String,
    pub ty: RRef<'a>,
    pub optional: bool,
}

pub struct RemoteCall<'a> {
    pub name: String,
    pub base: String,
    pub path: String,
    pub args: Vec<RemoteArg<'a>>,
    pub response: &'a Type,
}

pub open spec fn remote_arg_view(a: RemoteArg) -> (Seq<char>, RTy, bool) {
    (a.name@, rref_view(a.ty), a.optional)
}

pub open spec fn remote_call_view(c: RemoteCall) -> RemoteCallV {
    (c.name@, c.base@, c.path@, c.args@.map_values(|a: RemoteArg| remote_arg_view(a)), *c.response)
}

pub open spec fn calls_view(m: Seq<(String, RemoteCall)>) -> Seq<(Seq<char>, RemoteCallV)> {
    kv_view(m).map_values(|e: (Seq<char>, RemoteCall)| (e.0, remote_call_view(e.1)))
}

fn remote_key_exec(route: &Route, base: &String) -> (r: String)
    ensures
        r@ == remote_key(*route, base@),
{
    let mut s = match &route.call.service {
        Some(x) => x.clone(),
        None => String::from_str("service"),
    };
    s.append("::");
    s.append(route.call.module.as_str());
    s.append("::");
    s.append(route.call.function.as_str());
    s.append("::");
    s.append(base.as_str());
    s
}

fn remote_call_of<'a>(svc: &'a Service, route: &'a Route, base: &String) -> (r: RemoteCall<'a>)
    requires
        route.responses@.len() > 0,
    ensures
        remote_call_view(r) == spec_remote_call(*svc, *route, base@),
{
    let args = &route.call.args;
    let mut out: Vec<RemoteArg<'a>> = Vec::new();
    let mut i: usize = 0;
    while i < args.len()
        invariant
            0 <= i <= args@.len(),
            args@ == route.call.args@,
            out@.map_values(|a: RemoteArg| remote_arg_view(a)) == remote_args(*svc, *route, i as nat),
        decreases args@.len() - i,
    {
        let (t, o) = go_resolve_input_ref(svc, route, &args[i].value);
        let name = match &args[i].name {
            Some(n) => n.clone(),
            None => {
                let mut s = String::from_str("arg");
                let d = u64_to_string(i as u64);
                s.append(d.as_str());
                s
            },
        };
        let a = RemoteArg { name, ty: t, optional: o };
        let ghost before = out@.map_values(|a: RemoteArg| remote_arg_view(a));
        let ghost av = remote_arg_view(a);
        out.push(a);
        assert(out@.map_values(|a: RemoteArg| remote_arg_view(a)) =~= before.push(av));
        i += 1;
    }
    let mut path = String::from_str("/__call/");
    path.append(route.call.module.as_str());
    path.append("/");
    path.append(route.call.function.as_str());
    let resp = primary_response(route);
    RemoteCall { name: remote_call_fn_name(route), base: base.clone(), path, args: out, response: &resp.ty }
}

pub fn collect_remote_calls<'a>(svc: &'a Service) -> (r: Vec<(String, RemoteCall<'a>)>)
    requires
        remote_routes_respond(*svc),
    ensures
        calls_view(r@) == remote_calls_upto(*svc, svc.http.routes@.len()),
{
    let mut m: Vec<(String, RemoteCall<'a>)> = Vec::new();
    assert(calls_view(m@) =~= Seq::<(Seq<char>, RemoteCallV)>::empty());
    let routes = &svc.http.routes;
    let mut i: usize = 0;
    while i < routes.len()
        invariant
            0 <= i <= routes@.len(),
            routes@ == svc.http.routes@,
            remote_routes_respond(*svc),
            calls_view(m@) == remote_calls_upto(*svc, i as nat),
        decreases routes@.len() - i,
    {
        let route = &routes[i];
        match &route.call.service_base {
            None => {},
            Some(base) => {
                let key = remote_key_exec(route, base);
                proof {
                    lemma_sm_has_key_map(kv_view(m@), key@, |c: RemoteCall| remote_call_view(c));
                    assert(calls_view(m@) == kv_view(m@).map_values(|e: (Seq<char>, RemoteCall)| (e.0, (|c: RemoteCall| remote_call_view(c))(e.1))));
                }
                if !sm_contains(&m, key.as_str()) {
                    assert(routes@[i as int].responses@.len() > 0);
                    let c = remote_call_of(svc, route, base);
                    let ghost before = kv_view(m@);
                    let ghost cv = c;
                    sm_put(&mut m, key, c);
                    proof {
                        lemma_sm_insert_map(before, key@, cv, |c: RemoteCall| remote_call_view(c));
                        assert(calls_view(m@) == kv_view(m@).map_values(|e: (Seq<char>, RemoteCall)| (e.0, (|c: RemoteCall| remote_call_view(c))(e.1))));
                    }
                }
            },
        }
        i += 1;
    }
    m
}

// ---------------------------------------------------------------------------
// Rendering
// ---------------------------------------------------------------------------

/// The value a Go function returns with an error, by response type.
pub open spec fn spec_zero_value(ty: Type) -> Seq<char> {
    match ty {
        Type::String => "\"\""@,
        Type::Int => "0"@,
        Type::Float => "0"@,
        Type::Bool => "false"@,
        Type::Void => "struct{}{}"@,
        Type::Named(n) => "types."@ + spec_code_name(n) + "{}"@,
        _ => "nil"@,
    }
}

pub fn zero_value(ty: &Type) -> (r: String)
    ensures
        r@ == spec_zero_value(*ty),
{
    match ty {
        Type::String => String::from_str("\"\""),
        Type::Int => String::from_str("0"),
        Type::Float => String::from_str("0"),
        Type::Bool => String::from_str("false"),
        Type::Void => String::from_str("struct{}{}"),
        Type::Named(n) => {
            let mut s = String::from_str("types.");
            let c = n.code_name();
            s.append(c.as_str());
            s.append("{}");
            s
        },
        _ => String::from_str("nil"),
    }
}

pub open spec fn rty_go_type(t: RTy) -> Seq<char> {
    match t {
        RTy::Of(x) => spec_go_type(x, true),
        RTy::ObjectOf(_) => "map[string]any"@,
    }
}

pub open spec fn rty_uses_types(t: RTy) -> bool {
    match t {
        RTy::Of(x) => spec_type_uses_types_pkg(x),
        RTy::ObjectOf(_) => false,
    }
}

fn rref_go_type(t: &RRef) -> (r: String)
    ensures
        r@ == rty_go_type(rref_view(*t)),
{
    match t {
        RRef::Ty(x) => go_type(x, true),
        RRef::AnyTy => go_type(&Type::Any, true),
        _ => String::from_str("map[string]any"),
    }
}

fn rref_uses_types(t: &RRef) -> (r: bool)
    ensures
        r == rty_uses_types(rref_view(*t)),
{
    match t {
        RRef::Ty(x) => type_uses_types_pkg(x),
        _ => false,
    }
}

pub open spec fn request_field_fn() -> spec_fn((Seq<char>, RTy, bool)) -> Seq<char> {
    |a: (Seq<char>, RTy, bool)| if a.2 {
        "    "@ + spec_go_field_name(a.0) + " *"@ + rty_go_type(a.1) + " `json:\""@ + a.0 + ",omitempty\"`\n"@
    } else {
        "    "@ + spec_go_field_name(a.0) + " "@ + rty_go_type(a.1) + " `json:\""@ + a.0 + "\"`\n"@
    }
}

pub open spec fn params_of(args: Seq<(Seq<char>, RTy, bool)>) -> Seq<Seq<char>> {
    args.map_values(|a: (Seq<char>, RTy, bool)| a.0 + (if a.2 {
        " *"@
    } else {
        " "@
    }) + rty_go_type(a.1))
}

pub open spec fn payload_of(args: Seq<(Seq<char>, RTy, bool)>) -> Seq<Seq<char>> {
    args.map_values(|a: (Seq<char>, RTy, bool)| "\""@ + a.0 + "\": "@ + a.0)
}

/// The ending of a client function: nothing to read for void, the text
/// (JSON string or raw) for a string, else the decoded JSON value.
pub open spec fn remote_tail(resp: Type) -> Seq<char> {
    let zero = spec_zero_value(resp);
    match resp {
        Type::Void => "    return "@ + zero + ", nil\n}\n\n"@,
        Type::String => "    body, _ := io.ReadAll(resp.Body)\n    var value string\n    if err := json.Unmarshal(body, &value); err == nil {\n        return value, nil\n    }\n    return string(body), nil\n}\n\n"@,
        _ => "    var value "@ + spec_go_type(resp, true) + "\n"@ + "    if err := json.NewDecoder(resp.Body).Decode(&value); err != nil {\n        return "@ + zero
            + ", err\n    }\n"@ + "    return value, nil\n}\n\n"@,
    }
}

/// The request type, response type and client function of one call.
pub open spec fn spec_remote_call_text(c: RemoteCallV) -> Seq<char> {
    let tn = spec_remote_call_type_name(c.0);
    let params = seq_join(params_of(c.3), ", "@);
    let ret = spec_go_type(c.4, true);
    let zero = spec_zero_value(c.4);
    "type "@ + tn + "Request struct {\n"@ + concat_all(c.3, request_field_fn()) + "}\n"@
        + "type "@ + tn + "Response = "@ + ret + "\n\n"@
        + "func "@ + c.0 + "("@ + params + (if params.len() == 0 {
        Seq::empty()
    } else {
        ", "@
    }) + "req *http.Request) ("@ + ret + ", error) {\n"@
        + "    payload := map[string]any{"@ + seq_join(payload_of(c.3), ", "@) + "}\n"@
        + "    data, _ := json.Marshal(payload)\n"@
        + "    httpReq, err := http.NewRequest(\"POST\", \""@ + c.1 + c.2 + "\", bytes.NewReader(data))\n"@
        + "    if err != nil { return "@ + zero + ", err }\n"@ + "    httpReq.Header.Set(\"Content-Type\", \"application/json\")\n    if req != nil {\n        for k, v := range req.Header {\n            key := strings.ToLower(k)\n            if key == \"authorization\" || strings.HasPrefix(key, \"x-\") {\n                for _, item := range v {\n                    httpReq.Header.Add(k, item)\n                }\n            }\n        }\n    }\n    resp, err := http.DefaultClient.Do(httpReq)\n"@
        + "    if err != nil { return "@ + zero + ", err }\n"@ + "    defer resp.Body.Close()\n    if resp.StatusCode < 200 || resp.StatusCode >= 300 {\n        return "@ + zero + ", fmt.Errorf(\"remote call failed: %d\", resp.StatusCode)\n    }\n"@
        + remote_tail(c.4)
}

fn remote_call_text(c: &RemoteCall) -> (r: String)
    ensures
        r@ == spec_remote_call_text(remote_call_view(*c)),
{
    let ghost cv = remote_call_view(*c);
    let tn = remote_call_type_name(c.name.as_str());
    let ret = go_type(c.response, true);
    let zero = zero_value(c.response);
    let mut fields = String::new();
    let mut params: Vec<String> = Vec::new();
    let mut payload: Vec<String> = Vec::new();
    let mut i: usize = 0;
    while i < c.args.len()
        invariant
            0 <= i <= c.args@.len(),
            cv == remote_call_view(*c),
            fields@ == concat_all(cv.3.take(i as int), request_field_fn()),
            views(params@) == params_of(cv.3.take(i as int)),
            views(payload@) == payload_of(cv.3.take(i as int)),
        decreases c.args@.len() - i,
    {
        let a = &c.args[i];
        assert(cv.3[i as int] == remote_arg_view(*a));
        proof {
            lemma_concat_all_step(cv.3, i as int, request_field_fn());
        }
        let gty = rref_go_type(&a.ty);
        let gname = go_field_name(a.name.as_str());
        let mut f = String::from_str("    ");
        f.append(gname.as_str());
        if a.optional {
            f.append(" *");
        } else {
            f.append(" ");
        }
        f.append(gty.as_str());
        f.append(" `json:\"");
        f.append(a.name.as_str());
        if a.optional {
            f.append(",omitempty\"`\n");
        } else {
            f.append("\"`\n");
        }
        fields.append(f.as_str());
        let mut p = a.name.clone();
        if a.optional {
            p.append(" *");
        } else {
            p.append(" ");
        }
        p.append(gty.as_str());
        let mut q = String::from_str("\"");
        q.append(a.name.as_str());
        q.append("\": ");
        q.append(a.name.as_str());
        proof {
            lemma_views_push(params@, p);
            lemma_views_push(payload@, q);
            assert(params_of(cv.3.take(i + 1)) =~= params_of(cv.3.take(i as int)).push(p@));
            assert(payload_of(cv.3.take(i + 1)) =~= payload_of(cv.3.take(i as int)).push(q@));
        }
        params.push(p);
        payload.push(q);
        i += 1;
    }
    assert(cv.3.take(cv.3.len() as int) =~= cv.3);
    let params_text = join(&params, ", ");
    let payload_text = join(&payload, ", ");
    let mut s = String::from_str("type ");
    s.append(tn.as_str());
    s.append("Request struct {\n");
    s.append(fields.as_str());
    s.append("}\n");
    s.append("type ");
    s.append(tn.as_str());
    s.append("Response = ");
    s.append(ret.as_str());
    s.append("\n\n");
    s.append("func ");
    s.append(c.name.as_str());
    s.append("(");
    s.append(params_text.as_str());
    if !params_text.as_str().is_empty() {
        s.append(", ");
    }
    s.append("req *http.Request) (");
    s.append(ret.as_str());
    s.append(", error) {\n");
    s.append("    payload := map[string]any{");
    s.append(payload_text.as_str());
    s.append("}\n");
    s.append("    data, _ := json.Marshal(payload)\n");
    s.append("    httpReq, err := http.NewRequest(\"POST\", \"");
    s.append(c.base.as_str());
    s.append(c.path.as_str());
    s.append("\", bytes.NewReader(data))\n");
    s.append("    if err != nil { return ");
    s.append(zero.as_str());
    s.append(", err }\n");
    s.append("    httpReq.Header.Set(\"Content-Type\", \"application/json\")\n    if req != nil {\n        for k, v := range req.Header {\n            key := strings.ToLower(k)\n            if key == \"authorization\" || strings.HasPrefix(key, \"x-\") {\n                for _, item := range v {\n                    httpReq.Header.Add(k, item)\n                }\n            }\n        }\n    }\n    resp, err := http.DefaultClient.Do(httpReq)\n");
    s.append("    if err != nil { return ");
    s.append(zero.as_str());
    s.append(", err }\n");
    s.append("    defer resp.Body.Close()\n    if resp.StatusCode < 200 || resp.StatusCode >= 300 {\n        return ");
    s.append(zero.as_str());
    s.append(", fmt.Errorf(\"remote call failed: %d\", resp.StatusCode)\n    }\n");
    let mut t = String::new();
    match c.response {
        Type::Void => {
            t.append("    return ");
            t.append(zero.as_str());
            t.append(", nil\n}\n\n");
        },
        Type::String => {
            t.append("    body, _ := io.ReadAll(resp.Body)\n    var value string\n    if err := json.Unmarshal(body, &value); err == nil {\n        return value, nil\n    }\n    return string(body), nil\n}\n\n");
        },
        _ => {
            t.append("    var value ");
            t.append(ret.as_str());
            t.append("\n");
            t.append("    if err := json.NewDecoder(resp.Body).Decode(&value); err != nil {\n        return ");
            t.append(zero.as_str());
            t.append(", err\n    }\n");
            t.append("    return value, nil\n}\n\n");
        },
    }
    assert(t@ =~= remote_tail(cv.4));
    s.append(t.as_str());
    assert(s@ =~= spec_remote_call_text(cv));
    s
}

pub open spec fn remote_call_text_fn() -> spec_fn((Seq<char>, RemoteCallV)) -> Seq<char> {
    |e: (Seq<char>, RemoteCallV)| spec_remote_call_text(e.1)
}

pub open spec fn call_uses_types(c: RemoteCallV) -> bool {
    spec_type_uses_types_pkg(c.4) || exists|j: int| 0 <= j < c.3.len() && rty_uses_types(#[trigger] c.3[j].1)
}

/// `remote_calls.go`: nothing when no route calls another service; else
/// the imports (with `io` when some call returns a string, and the types
/// package when some call uses it) and each call in key order.
pub open spec fn spec_build_remote_calls_go(svc: Service, module_name: Seq<char>) -> Seq<char> {
    let calls = remote_calls_upto(svc, svc.http.routes@.len());
    if calls.len() == 0 {
        Seq::empty()
    } else {
        "package main\n\nimport (\n    \"bytes\"\n    \"encoding/json\"\n    \"fmt\"\n    \"net/http\"\n    \"strings\"\n"@ + (if exists|i: int| 0 <= i < calls.len() && (#[trigger] calls[i]).1.4 is String {
            "    \"io\"\n"@
        } else {
            Seq::empty()
        }) + (if exists|i: int| 0 <= i < calls.len() && call_uses_types(#[trigger] calls[i].1) {
            "    \""@ + module_name + "/types\"\n"@
        } else {
            Seq::empty()
        }) + ")\n\n"@ + concat_all(calls, remote_call_text_fn())
    }
}

fn call_uses_types_exec(c: &RemoteCall) -> (r: bool)
    ensures
        r == call_uses_types(remote_call_view(*c)),
{
    let ghost cv = remote_call_view(*c);
    if type_uses_types_pkg(c.response) {
        return true;
    }
    let mut j: usize = 0;
    while j < c.args.len()
        invariant
            0 <= j <= c.args@.len(),
            cv == remote_call_view(*c),
            forall|k: int| 0 <= k < j ==> !rty_uses_types(#[trigger] cv.3[k].1),
        decreases c.args@.len() - j,
    {
        assert(cv.3[j as int] == remote_arg_view(c.args@[j as int]));
        if rref_uses_types(&c.args[j].ty) {
            assert(rty_uses_types(cv.3[j as int].1));
            return true;
        }
        j += 1;
    }
    false
}

pub fn build_remote_calls_go(svc: &Service, module_name: &str) -> (r: String)
    requires
        remote_routes_respond(*svc),
    ensures
        r@ == spec_build_remote_calls_go(*svc, module_name@),
{
    let calls = collect_remote_calls(svc);
    let ghost cv = calls_view(calls@);
    if calls.len() == 0 {
        return String::new();
    }
    let mut needs_io = false;
    let mut needs_types = false;
    let mut i: usize = 0;
    while i < calls.len()
        invariant
            0 <= i <= calls@.len(),
            cv == calls_view(calls@),
            needs_io == exists|k: int| 0 <= k < i && (#[trigger] cv[k]).1.4 is String,
            needs_types == exists|k: int| 0 <= k < i && call_uses_types(#[trigger] cv[k].1),
        decreases calls@.len() - i,
    {
        assert(cv[i as int].1 == remote_call_view(calls@[i as int].1));
        match calls[i].1.response {
            Type::String => {
                needs_io = true;
            },
            _ => {},
        }
        if call_uses_types_exec(&calls[i].1) {
            needs_types = true;
        }
        i += 1;
    }
    let mut out = String::from_str("package main\n\nimport (\n    \"bytes\"\n    \"encoding/json\"\n    \"fmt\"\n    \"net/http\"\n    \"strings\"\n");
    if needs_io {
        out.append("    \"io\"\n");
    }
    if needs_types {
        let mut t = String::from_str("    \"");
        t.append(module_name);
        t.append("/types\"\n");
        out.append(t.as_str());
    }
    out.append(")\n\n");
    let ghost start = out@;
    let mut k: usize = 0;
    while k < calls.len()
        invariant
            0 <= k <= calls@.len(),
            cv == calls_view(calls@),
            out@ == start + concat_all(cv.take(k as int), remote_call_text_fn()),
        decreases calls@.len() - k,
    {
        proof {
            lemma_concat_all_step(cv, k as int, remote_call_text_fn());
        }
        assert(cv[k as int].1 == remote_call_view(calls@[k as int].1));
        let t = remote_call_text(&calls[k].1);
        out.append(t.as_str());
        k += 1;
        assert(out@ =~= start + concat_all(cv.take(k as int), remote_call_text_fn()));
    }
    proof {
        lemma_take_full(cv);
    }
    out
}

} // verus!
