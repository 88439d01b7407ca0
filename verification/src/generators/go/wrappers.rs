//! The wrapper files of the Go server: for each local module, a file in
//! its package that exposes every function a route calls under the
//! server's naming (`Ns` and the function in Go style).

use vstd::prelude::*;

use crate::cli::prep::first_key;
use crate::generators::go::remote_calls::{go_resolve, go_resolve_input_ref, RemoteArg};
use crate::generators::go::util::{
    go_type, go_wrapper_name, primary_response, spec_go_field_name, spec_go_type,
    spec_go_wrapper_name, spec_primary_response, to_go_func_name, all_routes_respond,
};
use crate::ir::{spec_module_key, Route, Service, Type};
use crate::resolve::{rref_view, RRef, RTy};
use crate::text::{
    concat_all, dec_nat, is_prefix, join, lemma_concat_all_step, lemma_take_full, lemma_views_push,
    seq_join, starts_with, str_eq, u64_to_string, views,
};

verus! {

/// A wrapped function: its name in the module, its arguments (name, type,
/// optional) and its result type.
pub type WrapFnV = (Seq<char>, Seq<(Seq<char>, RTy, bool)>, Type);

/// A module and the functions wrapped in it, in order of first use.
pub type WrapModuleV = (Seq<char>, Seq<WrapFnV>);

/// Whether a route's call is wrapped: a local call of a function without
/// the `Ns` prefix in a declared module that has a path.
pub open spec fn wrap_eligible(svc: Service, route: Route) -> bool {
    let k = first_key(svc.common.modules@, route.call.module@, 0);
    &&& route.call.service_base is None
    &&& route.call.module@.len() > 0
    &&& k >= 0
    &&& svc.common.modules@[k].path is Some
    &&& !is_prefix("Ns"@, route.call.function@)
}

/// The arguments of the first `n` call arguments: `arg1`, `arg2`, ...
/// with the types they resolve to.
pub open spec fn wrap_args(svc: Service, route: Route, n: nat) -> Seq<(Seq<char>, RTy, bool)>
    decreases n,
{
    if n == 0 {
        Seq::empty()
    } else {
        let res = go_resolve(svc, route, route.call.args@[n - 1].value);
        wrap_args(svc, route, (n - 1) as nat).push(("arg"@ + dec_nat(n), res.0, res.1))
    }
}

pub open spec fn module_index(m: Seq<WrapModuleV>, name: Seq<char>, j: int) -> int
    decreases m.len() - j,
{
    if j < 0 || j >= m.len() {
        -1
    } else if m[j].0 == name {
        j
    } else {
        module_index(m, name, j + 1)
    }
}

pub open spec fn has_wrap_fn(fs: Seq<WrapFnV>, name: Seq<char>) -> bool {
    exists|i: int| 0 <= i < fs.len() && (#[trigger] fs[i]).0 == name
}

/// A function added to its module's list, unless it is there already.
pub open spec fn wrap_add(m: Seq<WrapModuleV>, module: Seq<char>, f: WrapFnV) -> Seq<WrapModuleV> {
    let k = module_index(m, module, 0);
    if k < 0 {
        m.push((module, seq![f]))
    } else if has_wrap_fn(m[k].1, f.0) {
        m
    } else {
        m.update(k, (module, m[k].1.push(f)))
    }
}

/// The wrapped functions of the first `n` routes, by module.
pub open spec fn wrappers_upto(svc: Service, n: nat) -> Seq<WrapModuleV>
    decreases n,
{
    if n == 0 {
        Seq::empty()
    } else {
        let m = wrappers_upto(svc, (n - 1) as nat);
        let r = svc.http.routes@[n - 1];
        if wrap_eligible(svc, r) {
            wrap_add(
                m,
                r.call.module@,
                (r.call.function@, wrap_args(svc, r, r.call.args@.len()), spec_primary_response(r.responses@).ty),
            )
        } else {
            m
        }
    }
}

pub open spec fn spec_wrappers(svc: Service) -> Seq<WrapModuleV> {
    wrappers_upto(svc, svc.http.routes@.len())
}

// ---------------------------------------------------------------------------
// Rendering
// ---------------------------------------------------------------------------

/// An argument type in a module's own package (no `types.` prefix).
pub open spec fn rty_plain_go_type(t: RTy) -> Seq<char> {
    match t {
        RTy::Of(x) => spec_go_type(x, false),
        RTy::ObjectOf(_) => "map[string]any"@,
    }
}

pub open spec fn wrap_params(args: Seq<(Seq<char>, RTy, bool)>) -> Seq<Seq<char>> {
    args.map_values(|a: (Seq<char>, RTy, bool)| a.0 + " "@ + (if a.2 {
        "*"@
    } else {
        Seq::empty()
    }) + rty_plain_go_type(a.1))
}

pub open spec fn wrap_names(args: Seq<(Seq<char>, RTy, bool)>) -> Seq<Seq<char>> {
    args.map_values(|a: (Seq<char>, RTy, bool)| a.0)
}

/// The wrapper of one function: it calls the function and returns its
/// result, if any.
pub open spec fn spec_wrapper_fn(f: WrapFnV) -> Seq<char> {
    let sig = seq_join(wrap_params(f.1), ", "@);
    let call_args = seq_join(wrap_names(f.1), ", "@);
    let target = spec_go_field_name(f.0);
    if f.2 is Void {
        "func "@ + spec_go_wrapper_name(f.0) + "("@ + sig + ") {\n    "@ + target + "("@ + call_args
            + ")\n}\n\n"@
    } else {
        "func "@ + spec_go_wrapper_name(f.0) + "("@ + sig + ") "@ + spec_go_type(f.2, false)
            + " {\n    return "@ + target + "("@ + call_args + ")\n}\n\n"@
    }
}

/// The wrapper file of one module.
pub open spec fn spec_wrapper_file(m: WrapModuleV) -> Seq<char> {
    "package "@ + m.0 + "\n\n"@ + concat_all(m.1, |f: WrapFnV| spec_wrapper_fn(f))
}

pub struct WrapFn<'a> {
    pub name: String,
    pub args: Vec<RemoteArg<'a>>,
    pub ret: &'a Type,
}

pub struct WrapModule<'a> {
    pub name: String,
    pub funcs: Vec<WrapFn<'a>>,
}

pub open spec fn wrap_arg_view(a: RemoteArg) -> (Seq<char>, RTy, bool) {
    (a.name@, rref_view(a.ty), a.optional)
}

pub open spec fn wrap_fn_view(f: WrapFn) -> WrapFnV {
    (f.name@, f.args@.map_values(|a: RemoteArg| wrap_arg_view(a)), *f.ret)
}

pub open spec fn wrap_fns_view(fs: Seq<WrapFn>) -> Seq<WrapFnV> {
    fs.map_values(|f: WrapFn| wrap_fn_view(f))
}

pub open spec fn wrap_module_view(m: WrapModule) -> WrapModuleV {
    (m.name@, wrap_fns_view(m.funcs@))
}

pub open spec fn wrap_modules_view(ms: Seq<WrapModule>) -> Seq<WrapModuleV> {
    ms.map_values(|m: WrapModule| wrap_module_view(m))
}

fn rref_plain_go_type(t: &RRef) -> (r: String)
    ensures
        r@ == rty_plain_go_type(rref_view(*t)),
{
    match t {
        RRef::Ty(x) => go_type(x, false),
        RRef::AnyTy => go_type(&Type::Any, false),
        _ => String::from_str("map[string]any"),
    }
}

fn wrapper_fn(f: &WrapFn) -> (r: String)
    ensures
        r@ == spec_wrapper_fn(wrap_fn_view(*f)),
{
    let ghost av = wrap_fn_view(*f).1;
    let mut params: Vec<String> = Vec::new();
    let mut names: Vec<String> = Vec::new();
    let mut i: usize = 0;
    while i < f.args.len()
        invariant
            0 <= i <= f.args@.len(),
            av == f.args@.map_values(|a: RemoteArg| wrap_arg_view(a)),
            views(params@) == wrap_params(av.take(i as int)),
            views(names@) == wrap_names(av.take(i as int)),
        decreases f.args@.len() - i,
    {
        let a = &f.args[i];
        let t = rref_plain_go_type(&a.ty);
        let mut p = a.name.clone();
        p.append(" ");
        if a.optional {
            p.append("*");
        }
        p.append(t.as_str());
        let n = a.name.clone();
        proof {
            lemma_views_push(params@, p);
            lemma_views_push(names@, n);
        }
        params.push(p);
        names.push(n);
        i += 1;
        assert(views(params@) =~= wrap_params(av.take(i as int)));
        assert(views(names@) =~= wrap_names(av.take(i as int)));
    }
    proof {
        lemma_take_full(av);
    }
    let sig = join(&params, ", ");
    let call_args = join(&names, ", ");
    let target = to_go_func_name(f.name.as_str());
    let wrapper = go_wrapper_name(f.name.as_str());
    let mut s = String::from_str("func ");
    s.append(wrapper.as_str());
    s.append("(");
    s.append(sig.as_str());
    match f.ret {
        Type::Void => {
            s.append(") {\n    ");
        },
        _ => {
            s.append(") ");
            let rt = go_type(f.ret, false);
            s.append(rt.as_str());
            s.append(" {\n    return ");
        },
    }
    s.append(target.as_str());
    s.append("(");
    s.append(call_args.as_str());
    s.append(")\n}\n\n");
    s
}

pub fn render_wrapper_file(m: &WrapModule) -> (r: String)
    ensures
        r@ == spec_wrapper_file(wrap_module_view(*m)),
{
    let mut out = String::from_str("package ");
    out.append(m.name.as_str());
    out.append("\n\n");
    let ghost head = out@;
    let ghost fv = wrap_fns_view(m.funcs@);
    let ghost f = |f: WrapFnV| spec_wrapper_fn(f);
    let mut i: usize = 0;
    while i < m.funcs.len()
        invariant
            0 <= i <= m.funcs@.len(),
            fv == wrap_fns_view(m.funcs@),
            f == (|f: WrapFnV| spec_wrapper_fn(f)),
            out@ == head + concat_all(fv.take(i as int), f),
        decreases m.funcs@.len() - i,
    {
        proof {
            lemma_concat_all_step(fv, i as int, f);
        }
        let s = wrapper_fn(&m.funcs[i]);
        out.append(s.as_str());
        i += 1;
    }
    proof {
        lemma_take_full(fv);
    }
    out
}


// ---------------------------------------------------------------------------
// Collecting the wrapped functions
// ---------------------------------------------------------------------------

fn find_module_decl(mods: &Vec<crate::ir::ModuleUse>, key: &str) -> (r: Option<usize>)
    ensures
        match r {
            Some(j) => j < mods@.len() && j as int == first_key(mods@, key@, 0),
            None => first_key(mods@, key@, 0) == -1,
        },
{
    let mut j: usize = 0;
    while j < mods.len()
        invariant
            0 <= j <= mods@.len(),
            first_key(mods@, key@, 0) == first_key(mods@, key@, j as int),
        decreases mods@.len() - j,
    {
        if str_eq(mods[j].key().as_str(), key) {
            return Some(j);
        }
        j += 1;
    }
    None
}

fn is_eligible(svc: &Service, route: &Route) -> (r: bool)
    ensures
        r == wrap_eligible(*svc, *route),
{
    if route.call.service_base.is_some() || route.call.module.as_str().is_empty() {
        return false;
    }
    match find_module_decl(&svc.common.modules, route.call.module.as_str()) {
        None => false,
        Some(k) => svc.common.modules[k].path.is_some() && !starts_with(route.call.function.as_str(), "Ns"),
    }
}

fn wrap_args_of<'a>(svc: &'a Service, route: &'a Route) -> (r: Vec<RemoteArg<'a>>)
    ensures
        r@.map_values(|a: RemoteArg| wrap_arg_view(a)) == wrap_args(*svc, *route, route.call.args@.len()),
{
    let args = &route.call.args;
    let mut out: Vec<RemoteArg<'a>> = Vec::new();
    let mut i: usize = 0;
    while i < args.len()
        invariant
            0 <= i <= args@.len(),
            args@ == route.call.args@,
            out@.map_values(|a: RemoteArg| wrap_arg_view(a)) == wrap_args(*svc, *route, i as nat),
        decreases args@.len() - i,
    {
        let (t, o) = go_resolve_input_ref(svc, route, &args[i].value);
        let mut name = String::from_str("arg");
        let d = u64_to_string((i + 1) as u64);
        name.append(d.as_str());
        let a = RemoteArg { name, ty: t, optional: o };
        let ghost before = out@.map_values(|a: RemoteArg| wrap_arg_view(a));
        let ghost av = wrap_arg_view(a);
        out.push(a);
        assert(out@.map_values(|a: RemoteArg| wrap_arg_view(a)) =~= before.push(av));
        i += 1;
    }
    out
}

fn module_position(m: &Vec<WrapModule>, name: &str) -> (r: Option<usize>)
    ensures
        match r {
            Some(k) => k < m@.len() && k as int == module_index(wrap_modules_view(m@), name@, 0),
            None => module_index(wrap_modules_view(m@), name@, 0) == -1,
        },
{
    let ghost mv = wrap_modules_view(m@);
    let mut j: usize = 0;
    while j < m.len()
        invariant
            0 <= j <= m@.len(),
            mv == wrap_modules_view(m@),
            module_index(mv, name@, 0) == module_index(mv, name@, j as int),
        decreases m@.len() - j,
    {
        assert(mv[j as int].0 == m@[j as int].name@);
        if str_eq(m[j].name.as_str(), name) {
            return Some(j);
        }
        j += 1;
    }
    None
}

fn has_func(fs: &Vec<WrapFn>, name: &str) -> (r: bool)
    ensures
        r == has_wrap_fn(wrap_fns_view(fs@), name@),
{
    let ghost fv = wrap_fns_view(fs@);
    let mut j: usize = 0;
    while j < fs.len()
        invariant
            0 <= j <= fs@.len(),
            fv == wrap_fns_view(fs@),
            forall|i: int| 0 <= i < j ==> (#[trigger] fv[i]).0 != name@,
        decreases fs@.len() - j,
    {
        assert(fv[j as int].0 == fs@[j as int].name@);
        if str_eq(fs[j].name.as_str(), name) {
            return true;
        }
        j += 1;
    }
    false
}

proof fn lemma_module_index_range(m: Seq<WrapModuleV>, name: Seq<char>, j: int)
    requires
        0 <= j,
    ensures
        module_index(m, name, j) == -1 || (j <= module_index(m, name, j) < m.len() && m[module_index(
            m,
            name,
            j,
        )].0 == name),
    decreases m.len() - j,
{
    if j < m.len() && m[j].0 != name {
        lemma_module_index_range(m, name, j + 1);
    }
}

/// Every local module's wrapped functions, modules and functions in
/// order of first use.
pub fn collect_wrappers<'a>(svc: &'a Service) -> (r: Vec<WrapModule<'a>>)
    requires
        all_routes_respond(*svc),
    ensures
        wrap_modules_view(r@) == spec_wrappers(*svc),
{
    let mut m: Vec<WrapModule<'a>> = Vec::new();
    assert(wrap_modules_view(m@) =~= Seq::<WrapModuleV>::empty());
    let routes = &svc.http.routes;
    let mut i: usize = 0;
    while i < routes.len()
        invariant
            0 <= i <= routes@.len(),
            routes@ == svc.http.routes@,
            all_routes_respond(*svc),
            wrap_modules_view(m@) == wrappers_upto(*svc, i as nat),
        decreases routes@.len() - i,
    {
        let route = &routes[i];
        let ghost start = wrap_modules_view(m@);
        assert(wrappers_upto(*svc, (i + 1) as nat) == if wrap_eligible(*svc, *route) {
            wrap_add(
                start,
                route.call.module@,
                (route.call.function@, wrap_args(*svc, *route, route.call.args@.len()), spec_primary_response(route.responses@).ty),
            )
        } else {
            start
        });
        if is_eligible(svc, route) {
            assert(routes@[i as int].responses@.len() > 0);
            let resp = primary_response(route);
            let args = wrap_args_of(svc, route);
            let f = WrapFn { name: route.call.function.clone(), args, ret: &resp.ty };
            let ghost fv = wrap_fn_view(f);
            let ghost before = wrap_modules_view(m@);
            assert(fv == (route.call.function@, wrap_args(*svc, *route, route.call.args@.len()), spec_primary_response(route.responses@).ty));
            match module_position(&m, route.call.module.as_str()) {
                None => {
                    let mut funcs: Vec<WrapFn<'a>> = Vec::new();
                    funcs.push(f);
                    let e = WrapModule { name: route.call.module.clone(), funcs };
                    let ghost ev = wrap_module_view(e);
                    assert(ev.1 =~= seq![fv]);
                    m.push(e);
                    assert(wrap_modules_view(m@) =~= before.push(ev));
                    assert(wrap_modules_view(m@) == wrap_add(before, route.call.module@, fv));
                },
                Some(k) => {
                    proof {
                        lemma_module_index_range(before, route.call.module@, 0);
                    }
                    if !has_func(&m[k].funcs, route.call.function.as_str()) {
                        let mut e = m.remove(k);
                        let ghost ev0 = wrap_module_view(e);
                        assert(ev0 == before[k as int]);
                        e.funcs.push(f);
                        let ghost ev = wrap_module_view(e);
                        assert(ev.1 =~= ev0.1.push(fv));
                        m.insert(k, e);
                        assert(wrap_modules_view(m@) =~= before.update(k as int, ev));
                        assert(ev == (route.call.module@, before[k as int].1.push(fv)));
                        assert(wrap_modules_view(m@) == wrap_add(before, route.call.module@, fv));
                    } else {
                        assert(before[k as int].1 == wrap_fns_view(m@[k as int].funcs@));
                        assert(wrap_modules_view(m@) == wrap_add(before, route.call.module@, fv));
                    }
                },
            }
        }
        i += 1;
    }
    m
}

} // verus!
