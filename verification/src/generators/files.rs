//! The files of each generated server: their paths (relative to the
//! output directory) and contents, in the order they are written.

use vstd::prelude::*;

use crate::generators::go::events::{build_events_go, spec_build_events_go};
use crate::generators::go::main::{build_main_go, spec_build_main_go};
use crate::generators::go::middleware::{build_middleware_go, spec_build_middleware_go};
use crate::generators::go::remote_calls::{
    build_remote_calls_go, remote_routes_respond, spec_build_remote_calls_go,
};
use crate::generators::go::types::{build_types_go, spec_build_types_go_with_package};
use crate::generators::go::util::{
    all_routes_respond, build_go_mod, needs_remote_calls, spec_build_go_mod, spec_needs_remote_calls,
};
use crate::generators::go::wrappers::{
    collect_wrappers, render_wrapper_file, spec_wrapper_file, spec_wrappers, wrap_module_view,
    wrap_modules_view, WrapModuleV,
};
use crate::generators::grpc;
use crate::generators::rpc::{build_proto, spec_build_proto};
use crate::generators::rust;
use crate::ir::Service;
use crate::text::{to_lowercase, unicode_lowercase};

verus! {

/// A file to write: its path relative to the output directory, and its
/// text.
pub struct GeneratedFile {
    pub path: String,
    pub content: String,
}

pub open spec fn file_view(f: GeneratedFile) -> (Seq<char>, Seq<char>) {
    (f.path@, f.content@)
}

pub open spec fn files_view(v: Seq<GeneratedFile>) -> Seq<(Seq<char>, Seq<char>)> {
    v.map_values(|f: GeneratedFile| file_view(f))
}

fn push_file(v: &mut Vec<GeneratedFile>, path: &str, content: String)
    ensures
        files_view(final(v)@) == files_view(old(v)@).push((path@, content@)),
{
    let f = GeneratedFile { path: String::from_str(path), content };
    let ghost before = files_view(v@);
    v.push(f);
    assert(files_view(v@) =~= before.push((path@, content@)));
}

/// A file only when its text is not empty.
pub open spec fn nonempty_file(path: Seq<char>, content: Seq<char>) -> Seq<(Seq<char>, Seq<char>)> {
    if content.len() == 0 {
        Seq::empty()
    } else {
        seq![(path, content)]
    }
}

fn push_nonempty(v: &mut Vec<GeneratedFile>, path: &str, content: String)
    ensures
        files_view(final(v)@) == files_view(old(v)@) + nonempty_file(path@, content@),
{
    let ghost before = files_view(v@);
    if content.as_str().is_empty() {
        assert(files_view(v@) =~= before + nonempty_file(path@, content@));
    } else {
        push_file(v, path, content);
        assert(files_view(v@) =~= before + nonempty_file(path@, content@));
    }
}

pub proof fn lemma_all_respond_remote(service: Service)
    requires
        all_routes_respond(service),
    ensures
        remote_routes_respond(service),
{
    assert forall|i: int|
        0 <= i < service.http.routes@.len() && (#[trigger] service.http.routes@[i]).call.service_base is Some
    implies service.http.routes@[i].responses@.len() > 0 by {
    }
}

// ---------------------------------------------------------------------------
// The HTTP server in Go
// ---------------------------------------------------------------------------

/// The Go module of a service: `nimesvc/<name in lower case>-api`.
pub open spec fn spec_go_module_name(service: Service) -> Seq<char> {
    "nimesvc/"@ + unicode_lowercase(service.name@) + "-api"@
}

pub fn go_module_name(service: &Service) -> (r: String)
    ensures
        r@ == spec_go_module_name(*service),
{
    let l = to_lowercase(service.name.as_str());
    let mut s = String::from_str("nimesvc/");
    s.append(l.as_str());
    s.append("-api");
    s
}

pub open spec fn wrapper_entries(ms: Seq<WrapModuleV>) -> Seq<(Seq<char>, Seq<char>)> {
    ms.map_values(|m: WrapModuleV| ("modules/"@ + m.0 + "/nimesvc_wrap.go"@, spec_wrapper_file(m)))
}

/// The files of the Go HTTP server: `go.mod`, the types, `main.go`,
/// then the events, the proto file, the remote calls and the middleware
/// when there is something to put in them, then one wrapper file per
/// local module that routes call.
pub open spec fn spec_go_server_files(service: Service) -> Seq<(Seq<char>, Seq<char>)> {
    let mn = spec_go_module_name(service);
    seq![
        ("go.mod"@, spec_build_go_mod(service, mn)),
        ("types/types.go"@, spec_build_types_go_with_package(service, "types"@)),
        ("main.go"@, spec_build_main_go(service, mn)),
    ] + (if service.events.definitions@.len() > 0 {
        seq![("events.go"@, spec_build_events_go(service, mn))]
    } else {
        Seq::empty()
    }) + nonempty_file("rpc.proto"@, spec_build_proto(service)) + (if spec_needs_remote_calls(service) {
        seq![("remote_calls.go"@, spec_build_remote_calls_go(service, mn))]
    } else {
        Seq::empty()
    }) + nonempty_file("middleware.go"@, spec_build_middleware_go(service)) + wrapper_entries(
        spec_wrappers(service),
    )
}

#[verifier::spinoff_prover]
#[verifier::rlimit(50)]
pub fn go_server_files(service: &Service) -> (r: Vec<GeneratedFile>)
    requires
        all_routes_respond(*service),
    ensures
        files_view(r@) == spec_go_server_files(*service),
{
    proof {
        lemma_all_respond_remote(*service);
    }
    let mn = go_module_name(service);
    let mut v: Vec<GeneratedFile> = Vec::new();
    push_file(&mut v, "go.mod", build_go_mod(service, mn.as_str()));
    push_file(&mut v, "types/types.go", build_types_go(service));
    push_file(&mut v, "main.go", build_main_go(service, mn.as_str()));
    let ghost a = files_view(v@);
    if service.events.definitions.len() > 0 {
        push_file(&mut v, "events.go", build_events_go(service, mn.as_str()));
    }
    let ghost b = files_view(v@);
    push_nonempty(&mut v, "rpc.proto", build_proto(service));
    let ghost c = files_view(v@);
    if needs_remote_calls(service) {
        push_file(&mut v, "remote_calls.go", build_remote_calls_go(service, mn.as_str()));
    }
    let ghost d = files_view(v@);
    push_nonempty(&mut v, "middleware.go", build_middleware_go(service));
    let ghost e = files_view(v@);
    let mods = collect_wrappers(service);
    let ghost mv = wrap_modules_view(mods@);
    let mut i: usize = 0;
    while i < mods.len()
        invariant
            0 <= i <= mods@.len(),
            mv == wrap_modules_view(mods@),
            files_view(v@) == e + wrapper_entries(mv.take(i as int)),
        decreases mods@.len() - i,
    {
        let mut path = String::from_str("modules/");
        path.append(mods[i].name.as_str());
        path.append("/nimesvc_wrap.go");
        let content = render_wrapper_file(&mods[i]);
        let f = GeneratedFile { path, content };
        let ghost before = files_view(v@);
        v.push(f);
        assert(mv[i as int] == wrap_module_view(mods@[i as int]));
        assert(files_view(v@) =~= before.push(file_view(f)));
        i += 1;
        assert(wrapper_entries(mv.take(i as int)) =~= wrapper_entries(mv.take(i - 1)).push(
            ("modules/"@ + mv[i - 1].0 + "/nimesvc_wrap.go"@, spec_wrapper_file(mv[i - 1])),
        ));
    }
    assert(mv.take(mods@.len() as int) =~= mv);
    assert(files_view(v@) =~= spec_go_server_files(*service));
    v
}

// ---------------------------------------------------------------------------
// The HTTP server in Rust
// ---------------------------------------------------------------------------

/// The crate of a service: its name in kebab case and `-api`.
pub open spec fn spec_rust_crate_name(service: Service) -> Seq<char> {
    rust::util::spec_to_kebab_case(service.name@) + "-api"@
}

/// The files of the Rust HTTP server: `Cargo.toml`, `main.rs`,
/// `types.rs`, then the proto file, the events, the remote calls and the
/// middleware when there is something to put in them.
pub open spec fn spec_rust_server_files(service: Service) -> Seq<(Seq<char>, Seq<char>)> {
    seq![
        ("Cargo.toml"@, rust::util::spec_build_cargo_toml(service, spec_rust_crate_name(service))),
        ("src/main.rs"@, rust::main::spec_build_main_rs(service)),
        ("src/types.rs"@, rust::types::spec_build_types_rs(service)),
    ] + nonempty_file("rpc.proto"@, spec_build_proto(service)) + (if service.events.definitions@.len() > 0 {
        seq![("src/events.rs"@, rust::events::spec_build_events_rs(service))]
    } else {
        Seq::empty()
    }) + (if spec_needs_remote_calls(service) {
        seq![("src/remote_calls.rs"@, rust::remote_calls::spec_build_remote_calls_rs(service))]
    } else {
        Seq::empty()
    }) + nonempty_file("src/middleware.rs"@, rust::middleware::spec_build_middleware_rs(service))
}

fn rust_crate_name(service: &Service) -> (r: String)
    ensures
        r@ == spec_rust_crate_name(*service),
{
    let mut crate_name = rust::util::to_kebab_case(service.name.as_str());
    crate_name.append("-api");
    crate_name
}

#[verifier::spinoff_prover]
#[verifier::rlimit(50)]
pub fn rust_server_files(service: &Service) -> (r: Vec<GeneratedFile>)
    requires
        all_routes_respond(*service),
    ensures
        files_view(r@) == spec_rust_server_files(*service),
{
    proof {
        lemma_all_respond_remote(*service);
    }
    let crate_name = rust_crate_name(service);
    let mut v: Vec<GeneratedFile> = Vec::new();
    push_file(&mut v, "Cargo.toml", rust::util::build_cargo_toml(service, crate_name.as_str()));
    push_file(&mut v, "src/main.rs", rust::main::build_main_rs(service));
    push_file(&mut v, "src/types.rs", rust::types::build_types_rs(service));
    let ghost a = files_view(v@);
    push_nonempty(&mut v, "rpc.proto", build_proto(service));
    let ghost b = files_view(v@);
    if service.events.definitions.len() > 0 {
        push_file(&mut v, "src/events.rs", rust::events::build_events_rs(service));
    }
    let ghost c = files_view(v@);
    if needs_remote_calls(service) {
        push_file(&mut v, "src/remote_calls.rs", rust::remote_calls::build_remote_calls_rs(service));
    }
    let ghost d = files_view(v@);
    push_nonempty(&mut v, "src/middleware.rs", rust::middleware::build_middleware_rs(service));
    let ghost e = files_view(v@);
    assert(e =~= spec_rust_server_files(*service));
    v
}

// ---------------------------------------------------------------------------
// The gRPC servers
// ---------------------------------------------------------------------------

pub open spec fn spec_grpc_module_name(service: Service) -> Seq<char> {
    "nimesvc/"@ + unicode_lowercase(service.name@) + "-grpc"@
}

/// The files of the Go gRPC server.
pub open spec fn spec_grpc_go_files(service: Service) -> Seq<(Seq<char>, Seq<char>)> {
    let mn = spec_grpc_module_name(service);
    seq![
        ("go.mod"@, grpc::go::spec_build_grpc_go_mod(service, mn)),
        ("proto/rpc.proto"@, spec_build_proto(service)),
        ("types/types.go"@, grpc::go::spec_grpc_types_go(service, mn)),
    ] + (if service.events.definitions@.len() > 0 {
        seq![("events.go"@, spec_build_events_go(service, mn))]
    } else {
        Seq::empty()
    }) + seq![
        ("gen.sh"@, grpc::go::gen_sh()),
        ("server.go"@, grpc::go::spec_build_server_go(service, mn)),
        ("main.go"@, grpc::go::spec_grpc_main_go(service, mn)),
    ] + nonempty_file("middleware.go"@, grpc::go::spec_grpc_middleware_go(service))
}

pub fn grpc_go_files(service: &Service) -> (r: Vec<GeneratedFile>)
    ensures
        files_view(r@) == spec_grpc_go_files(*service),
{
    let l = to_lowercase(service.name.as_str());
    let mut mn = String::from_str("nimesvc/");
    mn.append(l.as_str());
    mn.append("-grpc");
    let mut v: Vec<GeneratedFile> = Vec::new();
    push_file(&mut v, "go.mod", grpc::go::build_grpc_go_mod(service, mn.as_str()));
    push_file(&mut v, "proto/rpc.proto", build_proto(service));
    push_file(&mut v, "types/types.go", grpc::go::build_types_go(service, mn.as_str()));
    let ghost a = files_view(v@);
    if service.events.definitions.len() > 0 {
        push_file(&mut v, "events.go", build_events_go(service, mn.as_str()));
    }
    let ghost b = files_view(v@);
    push_file(&mut v, "gen.sh", grpc::go::render_gen_sh());
    push_file(&mut v, "server.go", grpc::go::build_server_go(service, mn.as_str()));
    push_file(&mut v, "main.go", grpc::go::build_main_go(service, mn.as_str()));
    let ghost c = files_view(v@);
    push_nonempty(&mut v, "middleware.go", grpc::go::build_middleware_go(service));
    assert(files_view(v@) =~= spec_grpc_go_files(*service));
    v
}

/// The files of the Rust gRPC server.
pub open spec fn spec_grpc_rust_files(service: Service) -> Seq<(Seq<char>, Seq<char>)> {
    let crate_name = unicode_lowercase(service.name@) + "-grpc"@;
    seq![
        ("Cargo.toml"@, grpc::rust::spec_grpc_cargo_toml(service, crate_name)),
        ("rpc.proto"@, spec_build_proto(service)),
        ("build.rs"@, grpc::rust::grpc_build_rs()),
        ("src/types.rs"@, grpc::rust::spec_grpc_types_rs(service)),
    ] + nonempty_file("src/events.rs"@, rust::events::spec_build_events_rs(service)) + seq![
        ("src/main.rs"@, grpc::rust::spec_grpc_main_rs(service)),
    ] + nonempty_file("src/middleware.rs"@, grpc::rust::spec_grpc_middleware_rs(service))
}

pub fn grpc_rust_files(service: &Service) -> (r: Vec<GeneratedFile>)
    ensures
        files_view(r@) == spec_grpc_rust_files(*service),
{
    let mut crate_name = to_lowercase(service.name.as_str());
    crate_name.append("-grpc");
    let mut v: Vec<GeneratedFile> = Vec::new();
    push_file(&mut v, "Cargo.toml", grpc::rust::build_cargo_toml(service, crate_name.as_str()));
    push_file(&mut v, "rpc.proto", build_proto(service));
    push_file(&mut v, "build.rs", grpc::rust::render_build_rs());
    push_file(&mut v, "src/types.rs", grpc::rust::build_types_rs(service));
    let ghost a = files_view(v@);
    push_nonempty(&mut v, "src/events.rs", rust::events::build_events_rs(service));
    let ghost b = files_view(v@);
    push_file(&mut v, "src/main.rs", grpc::rust::build_main_rs(service));
    let ghost c = files_view(v@);
    push_nonempty(&mut v, "src/middleware.rs", grpc::rust::build_middleware_rs(service));
    assert(files_view(v@) =~= spec_grpc_rust_files(*service));
    v
}

} // verus!
