//! `middleware.go`: one Go middleware per name a service's routes use.

use vstd::prelude::*;

use crate::generators::go::util::{auth_middleware_name, spec_auth_middleware_name};
use crate::ir::{effective_auth, spec_effective_auth, Route, Service};
use crate::sorted::{lemma_ss_insert, ss_add, ss_insert, ss_sorted, strings_view};
use crate::text::{
    concat_all, debug_quoted, debug_str, lemma_concat_all_step, lemma_take_full, lemma_views_push,
    replace_char, replace_char_seq, str_eq, views,
};

verus! {

/// The middleware names of a route: its own, then its authentication's.
pub open spec fn route_middleware_names(r: Route, svc: Service) -> Seq<Seq<char>> {
    views(r.middleware@) + match spec_effective_auth(r.auth, svc.common.auth) {
        Some(a) => seq![spec_auth_middleware_name(a)],
        None => Seq::empty(),
    }
}

pub open spec fn names_upto(svc: Service, n: nat) -> Seq<Seq<char>>
    decreases n,
{
    if n == 0 {
        views(svc.common.middleware@)
    } else {
        names_upto(svc, (n - 1) as nat) + route_middleware_names(svc.http.routes@[n - 1], svc)
    }
}

/// Every middleware name used: the service's, then each route's.
pub open spec fn used_middleware(svc: Service) -> Seq<Seq<char>> {
    names_upto(svc, svc.http.routes@.len())
}

/// A list of names as a set in text order.
pub open spec fn name_set(s: Seq<Seq<char>>) -> Seq<Seq<char>>
    decreases s.len(),
{
    if s.len() == 0 {
        Seq::empty()
    } else {
        ss_insert(name_set(s.drop_last()), s.last())
    }
}

/// The Go function of one middleware; `quoted` is its name written as a
/// Go string literal. The built-in authentication middleware check their
/// header; any other lets a request header block it.
pub open spec fn spec_middleware_func(name: Seq<char>, quoted: Seq<char>) -> Seq<char> {
    let body = if name == "auth_none"@ {
        "        next.ServeHTTP(w, r)\n"@
    } else if name == "auth_bearer"@ {
        "        if strings.TrimSpace(r.Header.Get(\"Authorization\")) == \"\" {\n            http.Error(w, \"missing authorization\", http.StatusUnauthorized)\n            return\n        }\n        next.ServeHTTP(w, r)\n"@
    } else if name == "auth_api_key"@ {
        "        if strings.TrimSpace(r.Header.Get(\"X-Api-Key\")) == \"\" {\n            http.Error(w, \"missing api key\", http.StatusUnauthorized)\n            return\n        }\n        next.ServeHTTP(w, r)\n"@
    } else {
        "        directive := middlewareDirective(r, "@ + quoted + ")\n        if directive == \"block\" || directive == \"deny\" || directive == \"forbid\" {\n            http.Error(w, \"blocked by middleware "@ + name + "\", http.StatusForbidden)\n            return\n        }\n        w.Header().Set(\"x-nimesvc-middleware-"@ + replace_char_seq(name, '_', "-"@) + "\", \"ok\")\n        next.ServeHTTP(w, r)\n"@
    };
    "func "@ + name + "(next http.Handler) http.Handler {\n    return http.HandlerFunc(func(w http.ResponseWriter, r *http.Request) {\n"@ + body + "    })\n}\n\n"@
}

pub fn middleware_func(name: &str, quoted_name: &str) -> (r: String)
    ensures
        r@ == spec_middleware_func(name@, quoted_name@),
{
    let body = if str_eq(name, "auth_none") {
        String::from_str("        next.ServeHTTP(w, r)\n")
    } else if str_eq(name, "auth_bearer") {
        String::from_str("        if strings.TrimSpace(r.Header.Get(\"Authorization\")) == \"\" {\n            http.Error(w, \"missing authorization\", http.StatusUnauthorized)\n            return\n        }\n        next.ServeHTTP(w, r)\n")
    } else if str_eq(name, "auth_api_key") {
        String::from_str("        if strings.TrimSpace(r.Header.Get(\"X-Api-Key\")) == \"\" {\n            http.Error(w, \"missing api key\", http.StatusUnauthorized)\n            return\n        }\n        next.ServeHTTP(w, r)\n")
    } else {
        let header = replace_char(name, '_', "-");
        let mut s = String::from_str("        directive := middlewareDirective(r, ");
        s.append(quoted_name);
        s.append(")\n        if directive == \"block\" || directive == \"deny\" || directive == \"forbid\" {\n            http.Error(w, \"blocked by middleware ");
        s.append(name);
        s.append("\", http.StatusForbidden)\n            return\n        }\n        w.Header().Set(\"x-nimesvc-middleware-");
        s.append(header.as_str());
        s.append("\", \"ok\")\n        next.ServeHTTP(w, r)\n");
        s
    };
    let mut s = String::from_str("func ");
    s.append(name);
    s.append("(next http.Handler) http.Handler {\n    return http.HandlerFunc(func(w http.ResponseWriter, r *http.Request) {\n");
    s.append(body.as_str());
    s.append("    })\n}\n\n");
    s
}

pub open spec fn middleware_func_fn() -> spec_fn(Seq<char>) -> Seq<char> {
    |n: Seq<char>| spec_middleware_func(n, debug_str(n))
}

/// `middleware.go`: nothing when no middleware is used; else the
/// directive helper and one function per name, in text order.
pub open spec fn spec_build_middleware_go(svc: Service) -> Seq<char> {
    let names = name_set(used_middleware(svc));
    if names.len() == 0 {
        Seq::empty()
    } else {
        "package main\n\nimport (\n    \"net/http\"\n    \"strings\"\n)\n\nfunc middlewareDirective(r *http.Request, name string) string {\n    key := \"x-nimesvc-middleware-\" + strings.ReplaceAll(name, \"_\", \"-\")\n    return strings.ToLower(strings.TrimSpace(r.Header.Get(key)))\n}\n\n"@ + concat_all(names, middleware_func_fn())
    }
}

pub fn push_all(out: &mut Vec<String>, v: &Vec<String>)
    ensures
        views(final(out)@) == views(old(out)@) + views(v@),
{
    let ghost start = views(out@);
    let mut i: usize = 0;
    while i < v.len()
        invariant
            0 <= i <= v@.len(),
            views(out@) == start + views(v@.take(i as int)),
        decreases v@.len() - i,
    {
        let x = v[i].clone();
        proof {
            lemma_views_push(out@, x);
            lemma_views_push(v@.take(i as int), v@[i as int]);
            assert(v@.take(i + 1) =~= v@.take(i as int).push(v@[i as int]));
        }
        out.push(x);
        i += 1;
        assert(views(out@) =~= start + views(v@.take(i as int)));
    }
    assert(v@.take(v@.len() as int) =~= v@);
}

fn collect_names(svc: &Service) -> (r: Vec<String>)
    ensures
        views(r@) == used_middleware(*svc),
{
    let mut out: Vec<String> = Vec::new();
    push_all(&mut out, &svc.common.middleware);
    assert(views(out@) =~= views(svc.common.middleware@));
    let routes = &svc.http.routes;
    let mut i: usize = 0;
    while i < routes.len()
        invariant
            0 <= i <= routes@.len(),
            routes@ == svc.http.routes@,
            views(out@) == names_upto(*svc, i as nat),
        decreases routes@.len() - i,
    {
        let r = &routes[i];
        push_all(&mut out, &r.middleware);
        match effective_auth(r.auth, svc.common.auth) {
            Some(a) => {
                let n = auth_middleware_name(&a);
                proof {
                    lemma_views_push(out@, n);
                }
                out.push(n);
            },
            None => {},
        }
        i += 1;
        assert(views(out@) =~= names_upto(*svc, i as nat));
    }
    out
}

/// The generated middleware are each listed once, in text order, as a
/// sorted set holds them: the list of names is strictly increasing and
/// holds exactly the names used.
pub proof fn law_middleware_names_sorted_once(names: Seq<Seq<char>>)
    ensures
        ss_sorted(name_set(names)),
        forall|x: Seq<char>| #[trigger] name_set(names).contains(x) <==> names.contains(x),
    decreases names.len(),
{
    if names.len() > 0 {
        let init = names.drop_last();
        law_middleware_names_sorted_once(init);
        lemma_ss_insert(name_set(init), names.last());
        assert forall|x: Seq<char>| #[trigger] name_set(names).contains(x) <==> names.contains(x) by {
            assert(ss_insert(name_set(init), names.last()).contains(x) <==> (name_set(init).contains(x) || x == names.last()));
            if init.contains(x) {
                let i = choose|i: int| 0 <= i < init.len() && init[i] == x;
                assert(names[i] == x);
            }
            if names.contains(x) {
                let i = choose|i: int| 0 <= i < names.len() && names[i] == x;
                if i < names.len() - 1 {
                    assert(init[i] == x);
                }
            }
        }
    }
}

/// Names as a set in text order.
pub fn names_to_set(all: &Vec<String>) -> (r: Vec<String>)
    ensures
        strings_view(r@) == name_set(views(all@)),
{
    let ghost av = views(all@);
    let mut names: Vec<String> = Vec::new();
    let mut i: usize = 0;
    while i < all.len()
        invariant
            0 <= i <= all@.len(),
            av == views(all@),
            strings_view(names@) == name_set(av.take(i as int)),
        decreases all@.len() - i,
    {
        proof {
            assert(av.take(i + 1).drop_last() =~= av.take(i as int));
            assert(av[i as int] == all@[i as int]@);
        }
        ss_add(&mut names, all[i].clone());
        i += 1;
    }
    assert(av.take(av.len() as int) =~= av);
    names
}

/// Every middleware name the service uses, once each, in text order.
pub fn sorted_middleware_names(svc: &Service) -> (r: Vec<String>)
    ensures
        strings_view(r@) == name_set(used_middleware(*svc)),
{
    let all = collect_names(svc);
    names_to_set(&all)
}

pub fn build_middleware_go(svc: &Service) -> (r: String)
    ensures
        r@ == spec_build_middleware_go(*svc),
{
    let names = sorted_middleware_names(svc);
    if names.len() == 0 {
        return String::new();
    }
    let ghost nv = strings_view(names@);
    let mut out = String::from_str("package main\n\nimport (\n    \"net/http\"\n    \"strings\"\n)\n\nfunc middlewareDirective(r *http.Request, name string) string {\n    key := \"x-nimesvc-middleware-\" + strings.ReplaceAll(name, \"_\", \"-\")\n    return strings.ToLower(strings.TrimSpace(r.Header.Get(key)))\n}\n\n");
    let ghost start = out@;
    let mut k: usize = 0;
    while k < names.len()
        invariant
            0 <= k <= names@.len(),
            nv == strings_view(names@),
            out@ == start + concat_all(nv.take(k as int), middleware_func_fn()),
        decreases names@.len() - k,
    {
        proof {
            lemma_concat_all_step(nv, k as int, middleware_func_fn());
        }
        assert(nv[k as int] == names@[k as int]@);
        let q = debug_quoted(names[k].as_str());
        let f = middleware_func(names[k].as_str(), q.as_str());
        out.append(f.as_str());
        k += 1;
        assert(out@ =~= start + concat_all(nv.take(k as int), middleware_func_fn()));
    }
    proof {
        lemma_take_full(nv);
    }
    out
}

} // verus!
