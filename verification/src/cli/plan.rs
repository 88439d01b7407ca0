//! What `run` and `generate` do for each service: which servers to build,
//! in which language, into which output directory.

use vstd::prelude::*;

use crate::ir::{Lang, Service};
use crate::paths::{join_path, path_join};
use crate::text::str_eq;

verus! {

pub open spec fn spec_parse_lang(raw: Seq<char>) -> Option<Lang> {
    if raw == "rs"@ || raw == "rust"@ {
        Some(Lang::Rust)
    } else if raw == "ts"@ || raw == "typescript"@ {
        Some(Lang::TypeScript)
    } else if raw == "go"@ || raw == "golang"@ {
        Some(Lang::Go)
    } else {
        None
    }
}

/// Why a command cannot go on.
#[derive(Debug)]
pub enum PlanError {
    /// The kind `grpc` was given without `--lang`.
    GrpcNeedsLang,
    /// A language name that is none of rust, ts, go.
    UnknownLanguage(String),
    /// A service that names no language while none was given.
    ServiceWithoutLanguage(String),
    /// `grpc` was asked for but no service has RPC methods.
    NoRpcServices,
}

pub open spec fn is_unknown_lang(e: PlanError, raw: Seq<char>) -> bool {
    match e {
        PlanError::UnknownLanguage(s) => s@ == raw,
        _ => false,
    }
}

pub open spec fn is_no_lang(e: PlanError, service: Seq<char>) -> bool {
    match e {
        PlanError::ServiceWithoutLanguage(n) => n@ == service,
        _ => false,
    }
}

/// The language a name stands for; the error names the text given.
pub fn parse_lang(raw: &str) -> (r: Result<Lang, PlanError>)
    ensures
        match r {
            Ok(l) => spec_parse_lang(raw@) == Some(l),
            Err(e) => spec_parse_lang(raw@) is None && is_unknown_lang(e, raw@),
        },
{
    if str_eq(raw, "rs") || str_eq(raw, "rust") {
        Ok(Lang::Rust)
    } else if str_eq(raw, "ts") || str_eq(raw, "typescript") {
        Ok(Lang::TypeScript)
    } else if str_eq(raw, "go") || str_eq(raw, "golang") {
        Ok(Lang::Go)
    } else {
        Err(PlanError::UnknownLanguage(raw.to_owned()))
    }
}

/// How the command-line kind and `--lang` are read: the kind `grpc` asks
/// for gRPC servers only, in the language of `--lang`; any other kind is a
/// language, which wins over `--lang`.
pub struct Targets {
    pub grpc_only: bool,
    pub lang: Option<Lang>,
}

pub open spec fn is_grpc_kind(kind: Option<Seq<char>>) -> bool {
    kind == Some("grpc"@)
}

pub open spec fn opt_str_view(o: Option<&str>) -> Option<Seq<char>> {
    match o {
        Some(s) => Some(s@),
        None => None,
    }
}

pub fn read_targets(kind: Option<&str>, lang: Option<&str>) -> (r: Result<Targets, PlanError>)
    ensures
        is_grpc_kind(opt_str_view(kind)) ==> match r {
            Ok(t) => t.grpc_only && lang is Some && t.lang == spec_parse_lang(lang.unwrap()@)
                && t.lang is Some,
            Err(e) => (lang is None && e is GrpcNeedsLang) || (lang is Some && spec_parse_lang(
                lang.unwrap()@,
            ) is None && is_unknown_lang(e, lang.unwrap()@)),
        },
        !is_grpc_kind(opt_str_view(kind)) ==> {
            let chosen = if kind is Some {
                kind
            } else {
                lang
            };
            match r {
                Ok(t) => !t.grpc_only && match chosen {
                    Some(c) => t.lang == spec_parse_lang(c@) && t.lang is Some,
                    None => t.lang is None,
                },
                Err(e) => chosen is Some && spec_parse_lang(chosen.unwrap()@) is None
                    && is_unknown_lang(e, chosen.unwrap()@),
            }
        },
{
    let grpc = match kind {
        Some(k) => str_eq(k, "grpc"),
        None => false,
    };
    if grpc {
        match lang {
            None => Err(PlanError::GrpcNeedsLang),
            Some(l) => match parse_lang(l) {
                Ok(v) => Ok(Targets { grpc_only: true, lang: Some(v) }),
                Err(e) => Err(e),
            },
        }
    } else {
        let chosen = match kind {
            Some(k) => Some(k),
            None => lang,
        };
        match chosen {
            None => Ok(Targets { grpc_only: false, lang: None }),
            Some(c) => match parse_lang(c) {
                Ok(v) => Ok(Targets { grpc_only: false, lang: Some(v) }),
                Err(e) => Err(e),
            },
        }
    }
}

/// One server to build: the HTTP server of a service, or its gRPC server.
#[derive(Clone, Copy, Debug)]
pub struct Build {
    pub lang: Lang,
    pub grpc: bool,
}

/// The output directory name of a server: the service's name, with
/// `-grpc` after it for the gRPC server.
pub open spec fn spec_out_dir_name(service: Seq<char>, grpc: bool) -> Seq<char> {
    if grpc {
        service + "-grpc"@
    } else {
        service
    }
}

pub fn out_dir_name(service: &str, grpc: bool) -> (r: String)
    ensures
        r@ == spec_out_dir_name(service@, grpc),
{
    let mut s = String::from_str(service);
    if grpc {
        s.append("-grpc");
    }
    s
}

/// Where the servers of a project go: the `--out` given, else the
/// project's `output`, else `.nimesvc` in the directory of the input.
pub open spec fn spec_out_base(out: Option<Seq<char>>, output: Option<Seq<char>>, input_dir: Seq<char>) -> Seq<char> {
    match out {
        Some(o) => o,
        None => match output {
            Some(p) => p,
            None => path_join(input_dir, ".nimesvc"@),
        },
    }
}

pub fn out_base(out: Option<&str>, output: Option<&str>, input_dir: &str) -> (r: String)
    ensures
        r@ == spec_out_base(opt_str_view(out), opt_str_view(output), input_dir@),
{
    match out {
        Some(o) => o.to_owned(),
        None => match output {
            Some(p) => p.to_owned(),
            None => join_path(input_dir, ".nimesvc"),
        },
    }
}

/// Each service is generated into a folder of its own: services with
/// different names never share an output folder of the same kind.
pub proof fn law_distinct_services_distinct_dirs(a: Seq<char>, b: Seq<char>, grpc: bool)
    requires
        a != b,
    ensures
        spec_out_dir_name(a, grpc) != spec_out_dir_name(b, grpc),
{
    if grpc && a + "-grpc"@ == b + "-grpc"@ {
        let x = a + "-grpc"@;
        let y = b + "-grpc"@;
        assert(x.len() == a.len() + "-grpc"@.len());
        assert(y.len() == b.len() + "-grpc"@.len());
        assert(x.len() == y.len());
        assert(a.len() == b.len());
        assert(a =~= x.take(a.len() as int));
        assert(b =~= x.take(b.len() as int));
    }
}

/// The servers `run` starts for one service, in order. With `grpc` only,
/// the gRPC server of a service that has RPC methods; otherwise the HTTP
/// server in the service's language (else the language given), then the
/// gRPC server when it has RPC methods.
pub open spec fn spec_run_builds(targets_grpc_only: bool, targets_lang: Option<Lang>, svc: Service) -> Result<Seq<Build>, ()> {
    let has_rpc = svc.rpc.methods@.len() > 0;
    if targets_grpc_only {
        if has_rpc {
            Ok(seq![Build { lang: targets_lang.unwrap(), grpc: true }])
        } else {
            Ok(Seq::empty())
        }
    } else {
        let lang = if svc.language is Some {
            svc.language
        } else {
            targets_lang
        };
        match lang {
            None => Err(()),
            Some(l) => if has_rpc {
                Ok(seq![Build { lang: l, grpc: false }, Build { lang: l, grpc: true }])
            } else {
                Ok(seq![Build { lang: l, grpc: false }])
            },
        }
    }
}

fn builds_of(targets: &Targets, svc: &Service, grpc_every_service: bool) -> (r: Result<Vec<Build>, PlanError>)
    requires
        targets.grpc_only ==> targets.lang is Some,
    ensures
        match r {
            Ok(v) => {
                let has_rpc = svc.rpc.methods@.len() > 0;
                if targets.grpc_only {
                    v@ == if has_rpc || grpc_every_service {
                        seq![Build { lang: targets.lang.unwrap(), grpc: true }]
                    } else {
                        Seq::empty()
                    }
                } else {
                    spec_run_builds(false, targets.lang, *svc) == Ok::<Seq<Build>, ()>(v@)
                }
            },
            Err(e) => !targets.grpc_only && spec_run_builds(false, targets.lang, *svc) is Err
                && is_no_lang(e, svc.name@),
        },
{
    let mut v: Vec<Build> = Vec::new();
    let has_rpc = svc.rpc.methods.len() > 0;
    if targets.grpc_only {
        if has_rpc || grpc_every_service {
            let l = match targets.lang {
                Some(l) => l,
                None => Lang::Rust,
            };
            v.push(Build { lang: l, grpc: true });
            assert(v@ =~= seq![Build { lang: targets.lang.unwrap(), grpc: true }]);
        } else {
            assert(v@ =~= Seq::<Build>::empty());
        }
        return Ok(v);
    }
    let lang = match svc.language {
        Some(l) => Some(l),
        None => targets.lang,
    };
    match lang {
        None => Err(PlanError::ServiceWithoutLanguage(svc.name.clone())),
        Some(l) => {
            v.push(Build { lang: l, grpc: false });
            if has_rpc {
                v.push(Build { lang: l, grpc: true });
                assert(v@ =~= seq![Build { lang: l, grpc: false }, Build { lang: l, grpc: true }]);
            } else {
                assert(v@ =~= seq![Build { lang: l, grpc: false }]);
            }
            Ok(v)
        },
    }
}

/// The servers `run` starts for one service (see `spec_run_builds`); the
/// error names a service that has no language when none was given.
pub fn run_builds(targets: &Targets, svc: &Service) -> (r: Result<Vec<Build>, PlanError>)
    requires
        targets.grpc_only ==> targets.lang is Some,
    ensures
        match r {
            Ok(v) => spec_run_builds(targets.grpc_only, targets.lang, *svc) == Ok::<Seq<Build>, ()>(v@),
            Err(e) => spec_run_builds(targets.grpc_only, targets.lang, *svc) is Err
                && is_no_lang(e, svc.name@),
        },
{
    builds_of(targets, svc, false)
}

/// The servers `generate` writes for one service: as `run`, except that
/// with `grpc` only every service gets a gRPC server.
pub fn generate_builds(targets: &Targets, svc: &Service) -> (r: Result<Vec<Build>, PlanError>)
    requires
        targets.grpc_only ==> targets.lang is Some,
    ensures
        targets.grpc_only ==> (r matches Ok(v) && v@ == seq![
            Build { lang: targets.lang.unwrap(), grpc: true },
        ]),
        !targets.grpc_only ==> match r {
            Ok(v) => spec_run_builds(false, targets.lang, *svc) == Ok::<Seq<Build>, ()>(v@),
            Err(e) => spec_run_builds(false, targets.lang, *svc) is Err
                && is_no_lang(e, svc.name@),
        },
{
    builds_of(targets, svc, true)
}

/// `run` with `grpc` only fails when no service had RPC methods.
pub fn check_grpc_started(targets: &Targets, started: bool) -> (r: Result<(), PlanError>)
    ensures
        r is Err <==> (targets.grpc_only && !started),
        r matches Err(e) ==> e is NoRpcServices,
{
    if targets.grpc_only && !started {
        Err(PlanError::NoRpcServices)
    } else {
        Ok(())
    }
}

pub open spec fn spec_plan_message(e: PlanError, command: Seq<char>, input: Seq<char>) -> Seq<char> {
    match e {
        PlanError::GrpcNeedsLang => "`nimesvc "@ + command + " "@ + input
            + "` with kind `grpc` requires `--lang <rust|ts|go>`"@,
        PlanError::UnknownLanguage(s) => "Unknown language '"@ + s@
            + "'. Supported values: rust, ts, go"@,
        PlanError::ServiceWithoutLanguage(n) => "Service '"@ + n@
            + "' has no language. Pass `nimesvc "@ + command + " "@ + input
            + " <rust|ts|go>` or `--lang <rust|ts|go>`."@,
        PlanError::NoRpcServices => "No RPC services found in '"@ + input + "'"@,
    }
}

impl PlanError {
    /// The error text, for the command (`run` or `generate`) given the
    /// input file `input`.
    pub fn message(&self, command: &str, input: &str) -> (r: String)
        ensures
            r@ == spec_plan_message(*self, command@, input@),
    {
        match self {
            PlanError::GrpcNeedsLang => {
                let mut s = String::from_str("`nimesvc ");
                s.append(command);
                s.append(" ");
                s.append(input);
                s.append("` with kind `grpc` requires `--lang <rust|ts|go>`");
                s
            },
            PlanError::UnknownLanguage(x) => {
                let mut s = String::from_str("Unknown language '");
                s.append(x.as_str());
                s.append("'. Supported values: rust, ts, go");
                s
            },
            PlanError::ServiceWithoutLanguage(n) => {
                let mut s = String::from_str("Service '");
                s.append(n.as_str());
                s.append("' has no language. Pass `nimesvc ");
                s.append(command);
                s.append(" ");
                s.append(input);
                s.append(" <rust|ts|go>` or `--lang <rust|ts|go>`.");
                s
            },
            PlanError::NoRpcServices => {
                let mut s = String::from_str("No RPC services found in '");
                s.append(input);
                s.append("'");
                s
            },
        }
    }
}

} // verus!
