//! `nimesvc env`: the environment variables that the services of a
//! project declare, with their defaults.

use vstd::prelude::*;

use crate::cli::doctor::{flat_map, lemma_flat_map_step, lemma_take_all};
use crate::ir::{EnvVar, Project, Service};
use crate::text::views;

verus! {

/// `  NAME="default"`, or `  NAME` for a variable without a default.
pub open spec fn env_line(e: EnvVar) -> Seq<char> {
    match e.default {
        Some(d) => "  "@ + e.name@ + "=\""@ + d@ + "\""@,
        None => "  "@ + e.name@,
    }
}

/// The lines for one service: nothing when it declares no variable, else
/// a heading when the project has several services, then one line per
/// variable.
pub open spec fn service_env_block(svc: Service, multi: bool) -> Seq<Seq<char>> {
    if svc.common.env@.len() == 0 {
        Seq::empty()
    } else {
        (if multi {
            seq!["Service "@ + svc.name@ + ":"@]
        } else {
            Seq::empty()
        }) + svc.common.env@.map_values(|e: EnvVar| env_line(e))
    }
}

pub open spec fn service_env_block_fn(multi: bool) -> spec_fn(Service) -> Seq<Seq<char>> {
    |s: Service| service_env_block(s, multi)
}

/// What `nimesvc env` prints for a project read from `input`.
pub open spec fn spec_env_report(project: Project, input: Seq<char>) -> Seq<Seq<char>> {
    if project.services@.len() == 0 {
        seq!["No services found in "@ + input]
    } else {
        let body = flat_map(project.services@, service_env_block_fn(project.services@.len() > 1));
        if body.len() == 0 {
            seq!["No env vars declared in "@ + input]
        } else {
            body
        }
    }
}

fn push_env_block(out: &mut Vec<String>, svc: &Service, multi: bool)
    ensures
        views(final(out)@) == views(old(out)@) + service_env_block(*svc, multi),
{
    let ghost start = views(out@);
    let vars = &svc.common.env;
    if vars.len() == 0 {
        assert(views(out@) =~= start + service_env_block(*svc, multi));
        return;
    }
    if multi {
        let mut h = String::from_str("Service ");
        h.append(svc.name.as_str());
        h.append(":");
        out.push(h);
    }
    let ghost head = views(out@);
    assert(head =~= start + (if multi {
        seq!["Service "@ + svc.name@ + ":"@]
    } else {
        Seq::<Seq<char>>::empty()
    }));
    let mut i: usize = 0;
    while i < vars.len()
        invariant
            0 <= i <= vars@.len(),
            views(out@) == head + vars@.take(i as int).map_values(|e: EnvVar| env_line(e)),
        decreases vars@.len() - i,
    {
        let mut line = String::from_str("  ");
        line.append(vars[i].name.as_str());
        match &vars[i].default {
            Some(d) => {
                line.append("=\"");
                line.append(d.as_str());
                line.append("\"");
            },
            None => {},
        }
        assert(line@ == env_line(vars@[i as int]));
        let ghost before = views(out@);
        out.push(line);
        assert(views(out@) =~= before.push(line@));
        i += 1;
        assert(vars@.take(i as int).map_values(|e: EnvVar| env_line(e)) =~= vars@.take(i - 1).map_values(
            |e: EnvVar| env_line(e),
        ).push(env_line(vars@[i - 1])));
    }
    assert(vars@.take(vars@.len() as int) =~= vars@);
    assert(views(out@) =~= start + service_env_block(*svc, multi));
}

/// The lines that `nimesvc env` prints for a project read from `input`.
pub fn env_report(project: &Project, input: &str) -> (r: Vec<String>)
    ensures
        views(r@) == spec_env_report(*project, input@),
{
    let mut out: Vec<String> = Vec::new();
    if project.services.len() == 0 {
        let mut line = String::from_str("No services found in ");
        line.append(input);
        out.push(line);
        assert(views(out@) =~= spec_env_report(*project, input@));
        return out;
    }
    let multi = project.services.len() > 1;
    let services = &project.services;
    let mut i: usize = 0;
    while i < services.len()
        invariant
            0 <= i <= services@.len(),
            multi == (services@.len() > 1),
            views(out@) == flat_map(services@.take(i as int), service_env_block_fn(multi)),
        decreases services@.len() - i,
    {
        proof {
            lemma_flat_map_step(services@, i as int, service_env_block_fn(multi));
        }
        push_env_block(&mut out, &services[i], multi);
        i += 1;
    }
    proof {
        lemma_take_all(services@);
    }
    if out.len() == 0 {
        let mut line = String::from_str("No env vars declared in ");
        line.append(input);
        out.push(line);
    }
    assert(views(out@) =~= spec_env_report(*project, input@));
    out
}

} // verus!
