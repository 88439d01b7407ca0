//! `nimesvc lint`: warnings about a project that parses but is probably
//! not what its author meant (no services, services with nothing to
//! serve, event settings with no events, modules that nothing calls).

use vstd::prelude::*;

use crate::cli::doctor::{flat_map, lemma_flat_map_step, lemma_take_all};
use crate::ir::{spec_module_key, EventsBroker, ModuleUse, Project, Route, RpcDef, Service, SocketDef, SocketMessage};
use crate::text::{str_eq, views};

verus! {

// ---------------------------------------------------------------------------
// The modules a service calls
// ---------------------------------------------------------------------------

/// A route calls a module of its own service unless it forwards to
/// another service.
pub open spec fn route_use(r: Route) -> Seq<Seq<char>> {
    if r.call.service_base is None {
        seq![r.call.module@]
    } else {
        Seq::empty()
    }
}

pub open spec fn route_use_fn() -> spec_fn(Route) -> Seq<Seq<char>> {
    |r: Route| route_use(r)
}

pub open spec fn rpc_use_fn() -> spec_fn(RpcDef) -> Seq<Seq<char>> {
    |r: RpcDef| seq![r.call.module@]
}

pub open spec fn msg_use_fn() -> spec_fn(SocketMessage) -> Seq<Seq<char>> {
    |m: SocketMessage| seq![m.handler.module@]
}

/// The handlers of a socket's inbound messages, then of its outbound ones.
pub open spec fn socket_use(s: SocketDef) -> Seq<Seq<char>> {
    flat_map(s.inbound@, msg_use_fn()) + flat_map(s.outbound@, msg_use_fn())
}

pub open spec fn socket_use_fn() -> spec_fn(SocketDef) -> Seq<Seq<char>> {
    |s: SocketDef| socket_use(s)
}

/// The module names that a service's routes, RPC methods and socket
/// handlers call, in that order, repeats kept.
pub open spec fn service_uses(svc: Service) -> Seq<Seq<char>> {
    flat_map(svc.http.routes@, route_use_fn()) + flat_map(svc.rpc.methods@, rpc_use_fn())
        + flat_map(svc.sockets.sockets@, socket_use_fn())
}

// ---------------------------------------------------------------------------
// The warnings
// ---------------------------------------------------------------------------

pub open spec fn no_endpoints(svc: Service) -> bool {
    svc.http.routes@.len() == 0 && svc.rpc.methods@.len() == 0 && svc.sockets.sockets@.len() == 0
}

/// Redis is configured for events, but the service neither emits nor
/// subscribes to any.
pub open spec fn idle_events(svc: Service) -> bool {
    &&& svc.events.config matches Some(c) && c.broker is Redis
    &&& svc.events.emits@.len() == 0
    &&& svc.events.subscribes@.len() == 0
}

pub open spec fn unused_module_warning(svc: Service, m: ModuleUse) -> Seq<Seq<char>> {
    if service_uses(svc).contains(spec_module_key(m)) {
        Seq::empty()
    } else {
        seq!["Service '"@ + svc.name@ + "' module '"@ + spec_module_key(m) + "' is not used"@]
    }
}

pub open spec fn unused_module_fn(svc: Service) -> spec_fn(ModuleUse) -> Seq<Seq<char>> {
    |m: ModuleUse| unused_module_warning(svc, m)
}

/// The warnings about one service, in the order they are reported.
pub open spec fn service_warnings(svc: Service) -> Seq<Seq<char>> {
    (if no_endpoints(svc) {
        seq!["Service '"@ + svc.name@ + "' has no routes, rpcs, or sockets"@]
    } else {
        Seq::empty()
    }) + (if idle_events(svc) {
        seq!["Service '"@ + svc.name@ + "' has events_config but no emit/subscribe"@]
    } else {
        Seq::empty()
    }) + flat_map(svc.common.modules@, unused_module_fn(svc))
}

pub open spec fn service_warnings_fn() -> spec_fn(Service) -> Seq<Seq<char>> {
    |s: Service| service_warnings(s)
}

/// Some service of the project calls the module by this name.
pub open spec fn used_anywhere(project: Project, key: Seq<char>) -> bool {
    exists|i: int| 0 <= i < project.services@.len() && service_uses(#[trigger] project.services@[i]).contains(key)
}

pub open spec fn unused_global_warning(project: Project, m: ModuleUse) -> Seq<Seq<char>> {
    if used_anywhere(project, spec_module_key(m)) {
        Seq::empty()
    } else {
        seq!["Global module '"@ + spec_module_key(m) + "' is not used"@]
    }
}

pub open spec fn unused_global_fn(project: Project) -> spec_fn(ModuleUse) -> Seq<Seq<char>> {
    |m: ModuleUse| unused_global_warning(project, m)
}

/// All warnings: a project without services, then each service's, then
/// the project-wide modules that no service calls.
pub open spec fn spec_lint_warnings(project: Project) -> Seq<Seq<char>> {
    (if project.services@.len() == 0 {
        seq!["No services declared"@]
    } else {
        Seq::empty()
    }) + flat_map(project.services@, service_warnings_fn()) + flat_map(
        project.common.modules@,
        unused_global_fn(project),
    )
}

// ---------------------------------------------------------------------------
// Computing them
// ---------------------------------------------------------------------------

fn push_all_strings(out: &mut Vec<String>, more: Vec<String>)
    ensures
        views(final(out)@) == views(old(out)@) + views(more@),
{
    let ghost start = views(out@);
    let mut i: usize = 0;
    while i < more.len()
        invariant
            0 <= i <= more@.len(),
            views(out@) == start + views(more@).take(i as int),
        decreases more@.len() - i,
    {
        let ghost before = views(out@);
        out.push(more[i].clone());
        assert(views(out@) =~= before.push(more@[i as int]@));
        i += 1;
        assert(views(more@).take(i as int) =~= views(more@).take(i - 1).push(more@[i - 1]@));
    }
    assert(views(more@).take(more@.len() as int) =~= views(more@));
}

fn push_message_uses(out: &mut Vec<String>, msgs: &Vec<SocketMessage>)
    ensures
        views(final(out)@) == views(old(out)@) + flat_map(msgs@, msg_use_fn()),
{
    let ghost start = views(out@);
    let mut i: usize = 0;
    while i < msgs.len()
        invariant
            0 <= i <= msgs@.len(),
            views(out@) == start + flat_map(msgs@.take(i as int), msg_use_fn()),
        decreases msgs@.len() - i,
    {
        proof {
            lemma_flat_map_step(msgs@, i as int, msg_use_fn());
        }
        let ghost before = views(out@);
        out.push(msgs[i].handler.module.clone());
        assert(views(out@) =~= before + seq![msgs@[i as int].handler.module@]);
        i += 1;
        assert(views(out@) =~= start + flat_map(msgs@.take(i as int), msg_use_fn()));
    }
    proof {
        lemma_take_all(msgs@);
    }
}

/// The module names that the service calls.
pub fn collect_service_uses(svc: &Service) -> (r: Vec<String>)
    ensures
        views(r@) == service_uses(*svc),
{
    let mut out: Vec<String> = Vec::new();
    let routes = &svc.http.routes;
    let mut i: usize = 0;
    while i < routes.len()
        invariant
            0 <= i <= routes@.len(),
            views(out@) == flat_map(routes@.take(i as int), route_use_fn()),
        decreases routes@.len() - i,
    {
        proof {
            lemma_flat_map_step(routes@, i as int, route_use_fn());
        }
        let ghost before = views(out@);
        if routes[i].call.service_base.is_none() {
            out.push(routes[i].call.module.clone());
            assert(views(out@) =~= before + route_use(routes@[i as int]));
        } else {
            assert(views(out@) =~= before + route_use(routes@[i as int]));
        }
        i += 1;
    }
    proof {
        lemma_take_all(routes@);
    }
    let ghost a = views(out@);
    let methods = &svc.rpc.methods;
    let mut k: usize = 0;
    while k < methods.len()
        invariant
            0 <= k <= methods@.len(),
            views(out@) == a + flat_map(methods@.take(k as int), rpc_use_fn()),
        decreases methods@.len() - k,
    {
        proof {
            lemma_flat_map_step(methods@, k as int, rpc_use_fn());
        }
        let ghost before = views(out@);
        out.push(methods[k].call.module.clone());
        assert(views(out@) =~= before + seq![methods@[k as int].call.module@]);
        k += 1;
        assert(views(out@) =~= a + flat_map(methods@.take(k as int), rpc_use_fn()));
    }
    proof {
        lemma_take_all(methods@);
    }
    let ghost b = views(out@);
    let sockets = &svc.sockets.sockets;
    let mut s: usize = 0;
    while s < sockets.len()
        invariant
            0 <= s <= sockets@.len(),
            views(out@) == b + flat_map(sockets@.take(s as int), socket_use_fn()),
        decreases sockets@.len() - s,
    {
        proof {
            lemma_flat_map_step(sockets@, s as int, socket_use_fn());
        }
        push_message_uses(&mut out, &sockets[s].inbound);
        push_message_uses(&mut out, &sockets[s].outbound);
        s += 1;
        assert(views(out@) =~= b + flat_map(sockets@.take(s as int), socket_use_fn()));
    }
    proof {
        lemma_take_all(sockets@);
    }
    assert(views(out@) =~= service_uses(*svc));
    out
}

fn contains_str(v: &Vec<String>, s: &str) -> (r: bool)
    ensures
        r == views(v@).contains(s@),
{
    let mut i: usize = 0;
    while i < v.len()
        invariant
            0 <= i <= v@.len(),
            forall|j: int| 0 <= j < i ==> views(v@)[j] != s@,
        decreases v@.len() - i,
    {
        assert(views(v@)[i as int] == v@[i as int]@);
        if str_eq(v[i].as_str(), s) {
            return true;
        }
        i += 1;
    }
    false
}

fn service_warnings_exec(svc: &Service) -> (r: Vec<String>)
    ensures
        views(r@) == service_warnings(*svc),
{
    let mut out: Vec<String> = Vec::new();
    if svc.http.routes.len() == 0 && svc.rpc.methods.len() == 0 && svc.sockets.sockets.len() == 0 {
        let mut w = String::from_str("Service '");
        w.append(svc.name.as_str());
        w.append("' has no routes, rpcs, or sockets");
        out.push(w);
    }
    let ghost a = views(out@);
    let idle = match &svc.events.config {
        Some(c) => match c.broker {
            EventsBroker::Redis => svc.events.emits.len() == 0 && svc.events.subscribes.len() == 0,
        },
        None => false,
    };
    if idle {
        let mut w = String::from_str("Service '");
        w.append(svc.name.as_str());
        w.append("' has events_config but no emit/subscribe");
        out.push(w);
    }
    let ghost b = views(out@);
    let used = collect_service_uses(svc);
    let mods = &svc.common.modules;
    let mut i: usize = 0;
    while i < mods.len()
        invariant
            0 <= i <= mods@.len(),
            views(used@) == service_uses(*svc),
            views(out@) == b + flat_map(mods@.take(i as int), unused_module_fn(*svc)),
        decreases mods@.len() - i,
    {
        proof {
            lemma_flat_map_step(mods@, i as int, unused_module_fn(*svc));
        }
        let key = mods[i].key();
        let ghost before = views(out@);
        if !contains_str(&used, key.as_str()) {
            let mut w = String::from_str("Service '");
            w.append(svc.name.as_str());
            w.append("' module '");
            w.append(key.as_str());
            w.append("' is not used");
            out.push(w);
            assert(views(out@) =~= before + unused_module_warning(*svc, mods@[i as int]));
        } else {
            assert(views(out@) =~= before + unused_module_warning(*svc, mods@[i as int]));
        }
        i += 1;
    }
    proof {
        lemma_take_all(mods@);
    }
    assert(views(out@) =~= service_warnings(*svc));
    out
}

/// The lint warnings of a project, in the order they are printed.
pub fn lint_warnings(project: &Project) -> (r: Vec<String>)
    ensures
        views(r@) == spec_lint_warnings(*project),
{
    let mut out: Vec<String> = Vec::new();
    if project.services.len() == 0 {
        out.push(String::from_str("No services declared"));
    }
    let ghost a = views(out@);
    let services = &project.services;
    let mut uses: Vec<Vec<String>> = Vec::new();
    let mut i: usize = 0;
    while i < services.len()
        invariant
            0 <= i <= services@.len(),
            uses@.len() == i,
            forall|j: int| 0 <= j < i ==> views(#[trigger] uses@[j]@) == service_uses(services@[j]),
            views(out@) == a + flat_map(services@.take(i as int), service_warnings_fn()),
        decreases services@.len() - i,
    {
        proof {
            lemma_flat_map_step(services@, i as int, service_warnings_fn());
        }
        let w = service_warnings_exec(&services[i]);
        push_all_strings(&mut out, w);
        uses.push(collect_service_uses(&services[i]));
        i += 1;
    }
    proof {
        lemma_take_all(services@);
    }
    let ghost b = views(out@);
    let mods = &project.common.modules;
    let mut k: usize = 0;
    while k < mods.len()
        invariant
            0 <= k <= mods@.len(),
            services@ == project.services@,
            uses@.len() == services@.len(),
            forall|j: int| 0 <= j < services@.len() ==> views(#[trigger] uses@[j]@) == service_uses(services@[j]),
            views(out@) == b + flat_map(mods@.take(k as int), unused_global_fn(*project)),
        decreases mods@.len() - k,
    {
        proof {
            lemma_flat_map_step(mods@, k as int, unused_global_fn(*project));
        }
        let key = mods[k].key();
        let mut found = false;
        let mut j: usize = 0;
        while j < uses.len()
            invariant
                0 <= j <= uses@.len(),
                services@ == project.services@,
                uses@.len() == services@.len(),
                forall|t: int| 0 <= t < services@.len() ==> views(#[trigger] uses@[t]@) == service_uses(services@[t]),
                found <==> exists|t: int| 0 <= t < j && service_uses(#[trigger] services@[t]).contains(key@),
            decreases uses@.len() - j,
        {
            let hit = contains_str(&uses[j], key.as_str());
            assert(views(uses@[j as int]@) == service_uses(services@[j as int]));
            if hit {
                found = true;
            }
            j += 1;
        }
        proof {
            let key_v = spec_module_key(mods@[k as int]);
            assert(key@ == key_v);
            if used_anywhere(*project, key_v) {
                let t = choose|t: int| 0 <= t < project.services@.len() && service_uses(#[trigger] project.services@[t]).contains(key_v);
                assert(service_uses(services@[t]).contains(key@));
            }
        }
        assert(found == used_anywhere(*project, spec_module_key(mods@[k as int])));
        let ghost before = views(out@);
        if !found {
            let mut w = String::from_str("Global module '");
            w.append(key.as_str());
            w.append("' is not used");
            out.push(w);
            assert(views(out@) =~= before + unused_global_warning(*project, mods@[k as int]));
        } else {
            assert(views(out@) =~= before + unused_global_warning(*project, mods@[k as int]));
        }
        k += 1;
    }
    proof {
        lemma_take_all(mods@);
    }
    assert(views(out@) =~= spec_lint_warnings(*project));
    out
}

/// What `nimesvc lint` prints, line by line: `Lint: OK` when there is no
/// warning, else a heading and one line per warning.
pub open spec fn spec_lint_report(warnings: Seq<Seq<char>>) -> Seq<Seq<char>> {
    if warnings.len() == 0 {
        seq!["Lint: OK"@]
    } else {
        seq!["Lint: warnings"@] + warnings.map_values(|w: Seq<char>| " - "@ + w)
    }
}

pub fn lint_report(warnings: &Vec<String>) -> (r: Vec<String>)
    ensures
        views(r@) == spec_lint_report(views(warnings@)),
{
    let mut out: Vec<String> = Vec::new();
    if warnings.len() == 0 {
        out.push(String::from_str("Lint: OK"));
        return out;
    }
    out.push(String::from_str("Lint: warnings"));
    let mut i: usize = 0;
    while i < warnings.len()
        invariant
            0 <= i <= warnings@.len(),
            views(out@) == seq!["Lint: warnings"@] + views(warnings@).take(i as int).map_values(
                |w: Seq<char>| " - "@ + w,
            ),
        decreases warnings@.len() - i,
    {
        let mut line = String::from_str(" - ");
        line.append(warnings[i].as_str());
        let ghost before = views(out@);
        out.push(line);
        assert(views(out@) =~= before.push(line@));
        i += 1;
        assert(views(warnings@).take(i as int).map_values(|w: Seq<char>| " - "@ + w) =~= views(
            warnings@,
        ).take(i - 1).map_values(|w: Seq<char>| " - "@ + w).push(" - "@ + warnings@[i - 1]@));
    }
    assert(views(warnings@).take(warnings@.len() as int) =~= views(warnings@));
    out
}

} // verus!
