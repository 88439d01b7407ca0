//! Preparing a service for generation: resolving calls between services,
//! checking the modules it uses, and placing module files.

use vstd::prelude::*;

use crate::cli::doctor::{flat_map, lemma_flat_map_step, lemma_take_all};
use crate::deep::{
    copy_fields, copy_opt_validation, copy_type, field_list_eq, field_lists_equal,
    opt_validation_eq, opt_validation_equal, type_eq, type_equal, type_name_eq,
};
use crate::ir::{
    spec_display, spec_module_key, AuthSpec, CallArg, CallSpec, Field, HttpMethod, Input, InputRef,
    InputSource, Lang, ModuleUse, Project, ResponseSpec, Route, RpcDef, Service, SocketDef, Type,
    TypeDef, UseScope, Validation,
};
use crate::paths::{
    components, extension, file_name, is_absolute, is_name, join_path, lemma_components_of_names,
    lemma_components_pieces, no_slash, path_components, path_extension, path_file_name, path_join,
};
use crate::generators::go::util::{primary_response, spec_primary_response};
use crate::resolve::{
    field_lookup, find_type_def, first_field, first_type_def, lookup, opt_ref_view, rref_view, rty_eq, rty_match,
    source_fields_of, spec_resolve_start, RRef, RTy, Resolution,
};
use crate::text::{
    dec_nat, is_prefix, join, lemma_views_push, lines_of, seq_join, spec_lines, starts_with, str_eq, trim_start,
    trim_start_seq, u64_to_string, views,
};

verus! {

// ---------------------------------------------------------------------------
// Languages and module files
// ---------------------------------------------------------------------------

/// The module file extensions a language accepts.
pub open spec fn spec_is_module_compatible(lang: Lang, ext: Seq<char>) -> bool {
    match lang {
        Lang::Rust => ext == "rs"@,
        Lang::TypeScript => ext == "ts"@ || ext == "js"@,
        Lang::Go => ext == "go"@,
    }
}

pub fn is_module_compatible(lang: &Lang, ext: &str) -> (r: bool)
    ensures
        r == spec_is_module_compatible(*lang, ext@),
{
    match lang {
        Lang::Rust => str_eq(ext, "rs"),
        Lang::TypeScript => str_eq(ext, "ts") || str_eq(ext, "js"),
        Lang::Go => str_eq(ext, "go"),
    }
}

pub open spec fn spec_expected_module_extension(lang: Lang) -> Seq<char> {
    match lang {
        Lang::Rust => "`.rs`"@,
        Lang::TypeScript => "`.ts` or `.js`"@,
        Lang::Go => "`.go`"@,
    }
}

pub fn expected_module_extension(lang: &Lang) -> (r: &'static str)
    ensures
        r@ == spec_expected_module_extension(*lang),
{
    match lang {
        Lang::Rust => "`.rs`",
        Lang::TypeScript => "`.ts` or `.js`",
        Lang::Go => "`.go`",
    }
}

// ---------------------------------------------------------------------------
// Addresses
// ---------------------------------------------------------------------------

/// Where other services reach a service: its `base_url`, else
/// `http://<address>:<port>` with `127.0.0.1` for a missing or wildcard
/// address and 3000 for a missing port.
pub open spec fn spec_service_base_url(svc: Service) -> Seq<char> {
    match svc.common.base_url {
        Some(b) => b@,
        None => {
            let address = match svc.common.address {
                Some(a) => if a@ == "0.0.0.0"@ {
                    "127.0.0.1"@
                } else {
                    a@
                },
                None => "127.0.0.1"@,
            };
            let port: nat = match svc.common.port {
                Some(p) => p as nat,
                None => 3000,
            };
            "http://"@ + address + ":"@ + dec_nat(port)
        },
    }
}

pub fn service_base_url(svc: &Service) -> (r: String)
    ensures
        r@ == spec_service_base_url(*svc),
{
    if let Some(b) = &svc.common.base_url {
        return b.clone();
    }
    let mut out = String::from_str("http://");
    match &svc.common.address {
        Some(a) => {
            if str_eq(a.as_str(), "0.0.0.0") {
                out.append("127.0.0.1");
            } else {
                out.append(a.as_str());
            }
        },
        None => out.append("127.0.0.1"),
    }
    out.append(":");
    let port: u64 = match svc.common.port {
        Some(p) => p as u64,
        None => 3000,
    };
    let digits = u64_to_string(port);
    out.append(digits.as_str());
    out
}

// ---------------------------------------------------------------------------
// Argument names
// ---------------------------------------------------------------------------

pub open spec fn arg_index_name(idx: nat) -> Seq<char> {
    "arg"@ + dec_nat(idx)
}

/// The name of the `idx`-th argument of a call: its own name when it has a
/// non-empty one, else `arg<idx>`.
pub open spec fn spec_call_arg_name(arg: CallArg, idx: nat) -> Seq<char> {
    match arg.name {
        Some(n) => if n@.len() > 0 {
            n@
        } else {
            arg_index_name(idx)
        },
        None => arg_index_name(idx),
    }
}

fn index_name(idx: usize) -> (r: String)
    ensures
        r@ == arg_index_name(idx as nat),
{
    let mut s = String::from_str("arg");
    let d = u64_to_string(idx as u64);
    s.append(d.as_str());
    s
}

pub fn call_arg_name(arg: &CallArg, idx: usize) -> (r: String)
    ensures
        r@ == spec_call_arg_name(*arg, idx as nat),
{
    match &arg.name {
        Some(n) => {
            if !n.as_str().is_empty() {
                n.clone()
            } else {
                index_name(idx)
            }
        },
        None => index_name(idx),
    }
}

pub open spec fn spec_call_arg_name_from_field(field: Field, idx: nat) -> Seq<char> {
    if field.name@.len() == 0 {
        arg_index_name(idx)
    } else {
        field.name@
    }
}

pub fn call_arg_name_from_field(field: &Field, idx: usize) -> (r: String)
    ensures
        r@ == spec_call_arg_name_from_field(*field, idx as nat),
{
    if field.name.as_str().is_empty() {
        index_name(idx)
    } else {
        field.name.clone()
    }
}

// ---------------------------------------------------------------------------
// Module paths
// ---------------------------------------------------------------------------

/// The name components of a path: root, `.` and `..` left out.
pub open spec fn normal_parts(c: Seq<Seq<char>>) -> Seq<Seq<char>>
    decreases c.len(),
{
    if c.len() == 0 {
        Seq::empty()
    } else {
        let rest = normal_parts(c.drop_last());
        let x = c.last();
        if x == seq!['/'] || x == seq!['.'] || x == seq!['.', '.'] {
            rest
        } else {
            rest.push(x)
        }
    }
}

/// A path written with `/` between its name components only, as imports
/// write it.
pub open spec fn spec_path_to_import_string(path: Seq<char>) -> Seq<char> {
    seq_join(normal_parts(components(path)), "/"@)
}

fn is_special_component(c: &str) -> (r: bool)
    ensures
        r == (c@ == seq!['/'] || c@ == seq!['.'] || c@ == seq!['.', '.']),
{
    proof {
        reveal_strlit("/");
        reveal_strlit(".");
        reveal_strlit("..");
        assert("/"@ =~= seq!['/']);
        assert("."@ =~= seq!['.']);
        assert(".."@ =~= seq!['.', '.']);
    }
    str_eq(c, "/") || str_eq(c, ".") || str_eq(c, "..")
}

fn name_components(path: &str) -> (r: Vec<String>)
    ensures
        views(r@) == normal_parts(components(path@)),
{
    let comps = path_components(path);
    let ghost cv = views(comps@);
    let mut out: Vec<String> = Vec::new();
    let mut i: usize = 0;
    while i < comps.len()
        invariant
            0 <= i <= comps@.len(),
            cv == views(comps@),
            cv == components(path@),
            views(out@) == normal_parts(cv.take(i as int)),
        decreases comps@.len() - i,
    {
        proof {
            assert(cv.take(i + 1).drop_last() =~= cv.take(i as int));
            assert(cv[i as int] == comps@[i as int]@);
        }
        if !is_special_component(comps[i].as_str()) {
            let ghost before = views(out@);
            out.push(comps[i].clone());
            assert(views(out@) =~= before.push(cv[i as int]));
        }
        i += 1;
    }
    proof {
        assert(cv.take(cv.len() as int) =~= cv);
    }
    out
}

pub fn path_to_import_string(path: &str) -> (r: String)
    ensures
        r@ == spec_path_to_import_string(path@),
{
    let parts = name_components(path);
    join(&parts, "/")
}

/// Why a module cannot be prepared.
#[derive(Debug)]
pub enum ModulePathError {
    /// An absolute path without a file name, or a path with no name in it.
    Invalid(String),
    /// A relative path that goes up with `..`.
    HasParent(String),
}

pub open spec fn has_parent_part(c: Seq<Seq<char>>) -> bool {
    exists|i: int| 0 <= i < c.len() && c[i] == seq!['.', '.']
}

/// Where a module file goes under the generated sources: the file name of
/// an absolute path, else the path's name components. `None` for an
/// invalid path, `Some(Err(()))` for one that goes up with `..`.
pub open spec fn spec_normalize_module_rel_path(raw: Seq<char>) -> Option<Result<Seq<char>, ()>> {
    if is_absolute(raw) {
        match file_name(raw) {
            Some(n) => Some(Ok(n)),
            None => None,
        }
    } else if has_parent_part(components(raw)) {
        Some(Err(()))
    } else {
        let parts = normal_parts(components(raw));
        if parts.len() == 0 {
            None
        } else {
            Some(Ok(seq_join(parts, "/"@)))
        }
    }
}

pub fn normalize_module_rel_path(raw: &str) -> (r: Result<String, ModulePathError>)
    ensures
        match r {
            Ok(p) => spec_normalize_module_rel_path(raw@) == Some(Ok::<Seq<char>, ()>(p@)),
            Err(ModulePathError::Invalid(s)) => spec_normalize_module_rel_path(raw@) is None && s@ == raw@,
            Err(ModulePathError::HasParent(s)) => spec_normalize_module_rel_path(raw@) == Some(
                Err::<Seq<char>, ()>(()),
            ) && s@ == raw@,
        },
{
    let cs = crate::text::chars_of(raw);
    if cs.len() > 0 && cs[0] == '/' {
        let comps = path_components(raw);
        let n = comps.len();
        if n > 0 && !is_special_component(comps[n - 1].as_str()) {
            proof {
                assert(views(comps@)[n as int - 1] == comps@[n as int - 1]@);
            }
            return Ok(comps[n - 1].clone());
        }
        return Err(ModulePathError::Invalid(raw.to_owned()));
    }
    assert(!is_absolute(raw@));
    let comps = path_components(raw);
    let ghost cv = views(comps@);
    let mut i: usize = 0;
    while i < comps.len()
        invariant
            0 <= i <= comps@.len(),
            cv == views(comps@),
            cv == components(raw@),
            !is_absolute(raw@),
            forall|j: int| 0 <= j < i ==> cv[j] != seq!['.', '.'],
        decreases comps@.len() - i,
    {
        proof {
            reveal_strlit("..");
            assert(".."@ =~= seq!['.', '.']);
            assert(cv[i as int] == comps@[i as int]@);
        }
        if str_eq(comps[i].as_str(), "..") {
            assert(has_parent_part(cv));
            return Err(ModulePathError::HasParent(raw.to_owned()));
        }
        i += 1;
    }
    assert(!has_parent_part(cv));
    let parts = name_components(raw);
    if parts.len() == 0 {
        return Err(ModulePathError::Invalid(raw.to_owned()));
    }
    Ok(join(&parts, "/"))
}

proof fn lemma_normal_parts_names(c: Seq<Seq<char>>)
    requires
        forall|i: int| 0 <= i < c.len() ==> {
            let x = #[trigger] c[i];
            x == seq!['/'] || x == seq!['.'] || (x.len() > 0 && no_slash(x))
        },
    ensures
        forall|i: int| 0 <= i < normal_parts(c).len() ==> is_name(#[trigger] normal_parts(c)[i]),
    decreases c.len(),
{
    if c.len() > 0 {
        let init = c.drop_last();
        assert forall|i: int| 0 <= i < init.len() implies {
            let x = #[trigger] init[i];
            x == seq!['/'] || x == seq!['.'] || (x.len() > 0 && no_slash(x))
        } by {
            assert(init[i] == c[i]);
        }
        lemma_normal_parts_names(init);
        let x = c[c.len() - 1];
        assert(x == c.last());
        let rest = normal_parts(init);
        assert forall|i: int| 0 <= i < normal_parts(c).len() implies is_name(#[trigger] normal_parts(c)[i]) by {
            if i < rest.len() {
                assert(normal_parts(c)[i] == rest[i]);
            }
        }
    }
}

/// A module file is always placed inside the generated sources: the path
/// that a declared module path normalizes to is relative and made of
/// names only, with no root, `.` or `..` among its components.
pub proof fn law_module_paths_stay_inside(raw: Seq<char>, rel: Seq<char>)
    requires
        spec_normalize_module_rel_path(raw) == Some(Ok::<Seq<char>, ()>(rel)),
    ensures
        components(rel).len() >= 1,
        forall|i: int| 0 <= i < components(rel).len() ==> is_name(#[trigger] components(rel)[i]),
{
    reveal_strlit("/");
    assert("/"@ =~= seq!['/']);
    lemma_components_pieces(raw);
    let c = components(raw);
    if is_absolute(raw) {
        assert(file_name(raw) == Some(rel));
        assert(rel == c[c.len() - 1]);
        assert(is_name(rel));
        lemma_components_of_names(seq![rel]);
        assert(seq_join(seq![rel], seq!['/']) == rel);
    } else {
        let parts = normal_parts(c);
        lemma_normal_parts_names(c);
        lemma_components_of_names(parts);
    }
}

// ---------------------------------------------------------------------------
// Go packages
// ---------------------------------------------------------------------------

/// The lines written so far, and whether the package clause was replaced,
/// after the first `n` lines.
pub open spec fn rewrite_state(lines: Seq<Seq<char>>, pkg: Seq<char>, n: nat) -> (Seq<char>, bool)
    decreases n,
{
    if n == 0 {
        (Seq::empty(), false)
    } else {
        let (out, replaced) = rewrite_state(lines, pkg, (n - 1) as nat);
        let l = lines[n - 1];
        if !replaced && is_prefix("package "@, trim_start_seq(l)) {
            (out + "package "@ + pkg + "\n"@, true)
        } else {
            (out + l + "\n"@, replaced)
        }
    }
}

/// A Go file with its first package clause renamed to `pkg` (every line
/// ending in a newline), or with `package <pkg>` put before it when it has
/// none.
pub open spec fn spec_rewrite_go_package(src: Seq<char>, pkg: Seq<char>) -> Seq<char> {
    let lines = spec_lines(src);
    let (out, replaced) = rewrite_state(lines, pkg, lines.len());
    if replaced {
        out
    } else {
        "package "@ + pkg + "\n\n"@ + src
    }
}

pub fn rewrite_go_package(src: &str, package: &str) -> (r: String)
    ensures
        r@ == spec_rewrite_go_package(src@, package@),
{
    let lines = lines_of(src);
    let ghost lv = views(lines@);
    let mut out = String::new();
    let mut replaced = false;
    let mut i: usize = 0;
    while i < lines.len()
        invariant
            0 <= i <= lines@.len(),
            lv == views(lines@),
            lv == spec_lines(src@),
            (out@, replaced) == rewrite_state(lv, package@, i as nat),
        decreases lines@.len() - i,
    {
        let line = lines[i].as_str();
        assert(lv[i as int] == line@);
        let t = trim_start(line);
        if !replaced && starts_with(t.as_str(), "package ") {
            out.append("package ");
            out.append(package);
            out.append("\n");
            replaced = true;
        } else {
            out.append(line);
            out.append("\n");
        }
        i += 1;
    }
    if replaced {
        out
    } else {
        let mut s = String::from_str("package ");
        s.append(package);
        s.append("\n\n");
        s.append(src);
        s
    }
}

// ---------------------------------------------------------------------------
// Errors
// ---------------------------------------------------------------------------

#[derive(Clone, Copy, Debug)]
pub enum PrepErrorKind {
    /// route, service, target
    UnknownTargetService,
    /// route, service, module, function, target
    TargetModuleMissing,
    /// route, service, module, function, target
    TargetModuleCompileOnly,
    /// rpc, service, target
    RpcCallsOtherService,
    /// alias
    DuplicateModuleAlias,
    /// module, service
    ModuleNotDeclared,
    /// module, service
    ModuleCompileOnly,
    /// module path
    IncompatibleModule(Lang),
    /// module path
    InvalidModulePath,
    /// module path
    ModulePathHasParent,
    /// route, service
    InternalRouteConflict,
    /// caller service, route, module, function, target service
    CallerModuleMissing,
    /// caller service, route, module, function, target service
    CallerModuleCompileOnly,
    /// type
    UnknownType,
}

/// Why a service cannot be prepared: what went wrong, and the names the
/// message gives, in the order the kind lists them.
#[derive(Debug)]
pub struct PrepError {
    pub kind: PrepErrorKind,
    pub args: Vec<String>,
}

pub open spec fn err_view(e: PrepError) -> (PrepErrorKind, Seq<Seq<char>>) {
    (e.kind, views(e.args@))
}

pub open spec fn lang_debug_name(l: Lang) -> Seq<char> {
    match l {
        Lang::Rust => "Rust"@,
        Lang::TypeScript => "TypeScript"@,
        Lang::Go => "Go"@,
    }
}

pub open spec fn spec_prep_message(kind: PrepErrorKind, a: Seq<Seq<char>>) -> Seq<char> {
    match kind {
        PrepErrorKind::UnknownTargetService => "Route '"@ + a[0] + "' in service '"@ + a[1]
            + "' references unknown target service '"@ + a[2] + "'"@,
        PrepErrorKind::TargetModuleMissing => "Route '"@ + a[0] + "' in service '"@ + a[1]
            + "' calls '"@ + a[2] + "."@ + a[3] + "', but target service '"@ + a[4]
            + "' does not declare module '"@ + a[2] + "'"@,
        PrepErrorKind::TargetModuleCompileOnly => "Route '"@ + a[0] + "' in service '"@ + a[1]
            + "' calls '"@ + a[2] + "."@ + a[3] + "', but module '"@ + a[2]
            + "' in target service '"@ + a[4]
            + "' is compile-only. Use `runtime` or the default scope."@,
        PrepErrorKind::RpcCallsOtherService => "RPC '"@ + a[0] + "' in service '"@ + a[1]
            + "' calls service '"@ + a[2] + "', but RPC handlers may only call local modules"@,
        PrepErrorKind::DuplicateModuleAlias => "Duplicate module alias '"@ + a[0]
            + "'. Rename one of the `use` declarations or add an explicit alias."@,
        PrepErrorKind::ModuleNotDeclared => "Module '"@ + a[0] + "' is used by service '"@ + a[1]
            + "' but is not declared via `use`"@,
        PrepErrorKind::ModuleCompileOnly => "Module '"@ + a[0] + "' in service '"@ + a[1]
            + "' is compile-only but used at runtime. Use `runtime` or the default scope."@,
        PrepErrorKind::IncompatibleModule(l) => "Module '"@ + a[0] + "' is not compatible with "@
            + lang_debug_name(l) + ". Expected "@ + spec_expected_module_extension(l)
            + " module files."@,
        PrepErrorKind::InvalidModulePath => "Invalid module path '"@ + a[0] + "'"@,
        PrepErrorKind::ModulePathHasParent => "Module path '"@ + a[0] + "' cannot contain '..'"@,
        PrepErrorKind::InternalRouteConflict => "Generated internal route '"@ + a[0]
            + "' for service '"@ + a[1] + "' conflicts with an existing route"@,
        PrepErrorKind::CallerModuleMissing => "Service '"@ + a[0] + "' route '"@ + a[1]
            + "' calls '"@ + a[2] + "."@ + a[3] + "', but target service '"@ + a[4]
            + "' does not declare module '"@ + a[2] + "'"@,
        PrepErrorKind::CallerModuleCompileOnly => "Service '"@ + a[0] + "' route '"@ + a[1]
            + "' calls '"@ + a[2] + "."@ + a[3] + "', but module '"@ + a[2]
            + "' in target service '"@ + a[4] + "' is compile-only"@,
        PrepErrorKind::UnknownType => "Unknown type '"@ + a[0] + "'"@,
    }
}

/// The number of names each kind of error gives.
pub open spec fn arg_count(kind: PrepErrorKind) -> nat {
    match kind {
        PrepErrorKind::UnknownTargetService => 3,
        PrepErrorKind::TargetModuleMissing => 5,
        PrepErrorKind::TargetModuleCompileOnly => 5,
        PrepErrorKind::RpcCallsOtherService => 3,
        PrepErrorKind::DuplicateModuleAlias => 1,
        PrepErrorKind::ModuleNotDeclared => 2,
        PrepErrorKind::ModuleCompileOnly => 2,
        PrepErrorKind::IncompatibleModule(_) => 1,
        PrepErrorKind::InvalidModulePath => 1,
        PrepErrorKind::ModulePathHasParent => 1,
        PrepErrorKind::InternalRouteConflict => 2,
        PrepErrorKind::CallerModuleMissing => 5,
        PrepErrorKind::CallerModuleCompileOnly => 5,
        PrepErrorKind::UnknownType => 1,
    }
}

fn lang_debug_str(l: Lang) -> (r: &'static str)
    ensures
        r@ == lang_debug_name(l),
{
    match l {
        Lang::Rust => "Rust",
        Lang::TypeScript => "TypeScript",
        Lang::Go => "Go",
    }
}

impl PrepError {
    /// The error text.
    pub fn message(&self) -> (r: String)
        requires
            self.args@.len() == arg_count(self.kind),
        ensures
            r@ == spec_prep_message(self.kind, views(self.args@)),
    {
        let a = &self.args;
        proof {
            assert forall|i: int| 0 <= i < a@.len() implies views(a@)[i] == a@[i]@ by {}
        }
        match self.kind {
            PrepErrorKind::UnknownTargetService => {
                let mut s = String::from_str("Route '");
                s.append(a[0].as_str());
                s.append("' in service '");
                s.append(a[1].as_str());
                s.append("' references unknown target service '");
                s.append(a[2].as_str());
                s.append("'");
                s
            },
            PrepErrorKind::TargetModuleMissing => {
                let mut s = String::from_str("Route '");
                s.append(a[0].as_str());
                s.append("' in service '");
                s.append(a[1].as_str());
                s.append("' calls '");
                s.append(a[2].as_str());
                s.append(".");
                s.append(a[3].as_str());
                s.append("', but target service '");
                s.append(a[4].as_str());
                s.append("' does not declare module '");
                s.append(a[2].as_str());
                s.append("'");
                s
            },
            PrepErrorKind::TargetModuleCompileOnly => {
                let mut s = String::from_str("Route '");
                s.append(a[0].as_str());
                s.append("' in service '");
                s.append(a[1].as_str());
                s.append("' calls '");
                s.append(a[2].as_str());
                s.append(".");
                s.append(a[3].as_str());
                s.append("', but module '");
                s.append(a[2].as_str());
                s.append("' in target service '");
                s.append(a[4].as_str());
                s.append("' is compile-only. Use `runtime` or the default scope.");
                s
            },
            PrepErrorKind::RpcCallsOtherService => {
                let mut s = String::from_str("RPC '");
                s.append(a[0].as_str());
                s.append("' in service '");
                s.append(a[1].as_str());
                s.append("' calls service '");
                s.append(a[2].as_str());
                s.append("', but RPC handlers may only call local modules");
                s
            },
            PrepErrorKind::DuplicateModuleAlias => {
                let mut s = String::from_str("Duplicate module alias '");
                s.append(a[0].as_str());
                s.append("'. Rename one of the `use` declarations or add an explicit alias.");
                s
            },
            PrepErrorKind::ModuleNotDeclared => {
                let mut s = String::from_str("Module '");
                s.append(a[0].as_str());
                s.append("' is used by service '");
                s.append(a[1].as_str());
                s.append("' but is not declared via `use`");
                s
            },
            PrepErrorKind::ModuleCompileOnly => {
                let mut s = String::from_str("Module '");
                s.append(a[0].as_str());
                s.append("' in service '");
                s.append(a[1].as_str());
                s.append("' is compile-only but used at runtime. Use `runtime` or the default scope.");
                s
            },
            PrepErrorKind::IncompatibleModule(l) => {
                let mut s = String::from_str("Module '");
                s.append(a[0].as_str());
                s.append("' is not compatible with ");
                s.append(lang_debug_str(l));
                s.append(". Expected ");
                s.append(expected_module_extension(&l));
                s.append(" module files.");
                s
            },
            PrepErrorKind::InvalidModulePath => {
                let mut s = String::from_str("Invalid module path '");
                s.append(a[0].as_str());
                s.append("'");
                s
            },
            PrepErrorKind::ModulePathHasParent => {
                let mut s = String::from_str("Module path '");
                s.append(a[0].as_str());
                s.append("' cannot contain '..'");
                s
            },
            PrepErrorKind::InternalRouteConflict => {
                let mut s = String::from_str("Generated internal route '");
                s.append(a[0].as_str());
                s.append("' for service '");
                s.append(a[1].as_str());
                s.append("' conflicts with an existing route");
                s
            },
            PrepErrorKind::CallerModuleMissing => {
                let mut s = String::from_str("Service '");
                s.append(a[0].as_str());
                s.append("' route '");
                s.append(a[1].as_str());
                s.append("' calls '");
                s.append(a[2].as_str());
                s.append(".");
                s.append(a[3].as_str());
                s.append("', but target service '");
                s.append(a[4].as_str());
                s.append("' does not declare module '");
                s.append(a[2].as_str());
                s.append("'");
                s
            },
            PrepErrorKind::CallerModuleCompileOnly => {
                let mut s = String::from_str("Service '");
                s.append(a[0].as_str());
                s.append("' route '");
                s.append(a[1].as_str());
                s.append("' calls '");
                s.append(a[2].as_str());
                s.append(".");
                s.append(a[3].as_str());
                s.append("', but module '");
                s.append(a[2].as_str());
                s.append("' in target service '");
                s.append(a[4].as_str());
                s.append("' is compile-only");
                s
            },
            PrepErrorKind::UnknownType => {
                let mut s = String::from_str("Unknown type '");
                s.append(a[0].as_str());
                s.append("'");
                s
            },
        }
    }
}

fn err1(kind: PrepErrorKind, a: &String) -> (r: PrepError)
    ensures
        err_view(r) == (kind, seq![a@]),
        r.args@.len() == 1,
{
    let mut v: Vec<String> = Vec::new();
    v.push(a.clone());
    let r = PrepError { kind, args: v };
    assert(views(r.args@) =~= seq![a@]);
    r
}

fn err2(kind: PrepErrorKind, a: &String, b: &String) -> (r: PrepError)
    ensures
        err_view(r) == (kind, seq![a@, b@]),
        r.args@.len() == 2,
{
    let mut v: Vec<String> = Vec::new();
    v.push(a.clone());
    v.push(b.clone());
    let r = PrepError { kind, args: v };
    assert(views(r.args@) =~= seq![a@, b@]);
    r
}

fn err3(kind: PrepErrorKind, a: &String, b: &String, c: &String) -> (r: PrepError)
    ensures
        err_view(r) == (kind, seq![a@, b@, c@]),
        r.args@.len() == 3,
{
    let mut v: Vec<String> = Vec::new();
    v.push(a.clone());
    v.push(b.clone());
    v.push(c.clone());
    let r = PrepError { kind, args: v };
    assert(views(r.args@) =~= seq![a@, b@, c@]);
    r
}

fn err5(kind: PrepErrorKind, a: &String, b: &String, c: &String, d: &String, e: &String) -> (r: PrepError)
    ensures
        err_view(r) == (kind, seq![a@, b@, c@, d@, e@]),
        r.args@.len() == 5,
{
    let mut v: Vec<String> = Vec::new();
    v.push(a.clone());
    v.push(b.clone());
    v.push(c.clone());
    v.push(d.clone());
    v.push(e.clone());
    let r = PrepError { kind, args: v };
    assert(views(r.args@) =~= seq![a@, b@, c@, d@, e@]);
    r
}

// ---------------------------------------------------------------------------
// The modules of a service
// ---------------------------------------------------------------------------

pub open spec fn rpc_modules_fn() -> spec_fn(RpcDef) -> Seq<ModuleUse> {
    |m: RpcDef| m.modules@
}

pub open spec fn socket_modules_fn() -> spec_fn(SocketDef) -> Seq<ModuleUse> {
    |s: SocketDef| s.modules@
}

/// Every module declaration a service sees, in order: the project's, the
/// service's, then those of its RPC methods and of its sockets.
pub open spec fn all_modules(project: Project, svc: Service) -> Seq<ModuleUse> {
    project.common.modules@ + svc.common.modules@ + flat_map(svc.rpc.methods@, rpc_modules_fn())
        + flat_map(svc.sockets.sockets@, socket_modules_fn())
}

fn push_refs<'a>(out: &mut Vec<&'a ModuleUse>, v: &'a Vec<ModuleUse>)
    ensures
        final(out)@.len() == old(out)@.len() + v@.len(),
        forall|i: int| 0 <= i < old(out)@.len() ==> *final(out)@[i] == *old(out)@[i],
        forall|i: int| 0 <= i < v@.len() ==> *final(out)@[old(out)@.len() + i] == v@[i],
{
    let ghost start = out@;
    let mut i: usize = 0;
    while i < v.len()
        invariant
            0 <= i <= v@.len(),
            out@.len() == start.len() + i,
            forall|k: int| 0 <= k < start.len() ==> *out@[k] == *start[k],
            forall|k: int| 0 <= k < i ==> *out@[start.len() + k] == v@[k],
        decreases v@.len() - i,
    {
        out.push(&v[i]);
        i += 1;
    }
}

pub open spec fn refs_match(r: Seq<&ModuleUse>, m: Seq<ModuleUse>) -> bool {
    r.len() == m.len() && forall|i: int| 0 <= i < m.len() ==> *r[i] == m[i]
}

pub fn collect_all_modules<'a>(project: &'a Project, svc: &'a Service) -> (r: Vec<&'a ModuleUse>)
    ensures
        refs_match(r@, all_modules(*project, *svc)),
{
    let mut out: Vec<&ModuleUse> = Vec::new();
    push_refs(&mut out, &project.common.modules);
    push_refs(&mut out, &svc.common.modules);
    let ghost a = project.common.modules@ + svc.common.modules@;
    assert(refs_match(out@, a));
    let methods = &svc.rpc.methods;
    let mut i: usize = 0;
    while i < methods.len()
        invariant
            0 <= i <= methods@.len(),
            refs_match(out@, a + flat_map(methods@.take(i as int), rpc_modules_fn())),
        decreases methods@.len() - i,
    {
        proof {
            lemma_flat_map_step(methods@, i as int, rpc_modules_fn());
        }
        let ghost before = a + flat_map(methods@.take(i as int), rpc_modules_fn());
        push_refs(&mut out, &methods[i].modules);
        i += 1;
        proof {
            let after = a + flat_map(methods@.take(i as int), rpc_modules_fn());
            assert(after =~= before + methods@[i - 1].modules@);
        }
    }
    proof {
        lemma_take_all(methods@);
    }
    let ghost b = a + flat_map(methods@, rpc_modules_fn());
    let sockets = &svc.sockets.sockets;
    let mut k: usize = 0;
    while k < sockets.len()
        invariant
            0 <= k <= sockets@.len(),
            refs_match(out@, b + flat_map(sockets@.take(k as int), socket_modules_fn())),
        decreases sockets@.len() - k,
    {
        proof {
            lemma_flat_map_step(sockets@, k as int, socket_modules_fn());
        }
        let ghost before = b + flat_map(sockets@.take(k as int), socket_modules_fn());
        push_refs(&mut out, &sockets[k].modules);
        k += 1;
        proof {
            let after = b + flat_map(sockets@.take(k as int), socket_modules_fn());
            assert(after =~= before + sockets@[k - 1].modules@);
        }
    }
    proof {
        lemma_take_all(sockets@);
    }
    out
}

/// The first declaration at or after `j` known by `key`, or -1.
pub open spec fn first_key(mods: Seq<ModuleUse>, key: Seq<char>, j: int) -> int
    decreases mods.len() - j,
{
    if j < 0 || j >= mods.len() {
        -1
    } else if spec_module_key(mods[j]) == key {
        j
    } else {
        first_key(mods, key, j + 1)
    }
}

proof fn lemma_first_key_range(mods: Seq<ModuleUse>, key: Seq<char>, j: int)
    requires
        0 <= j,
    ensures
        first_key(mods, key, j) == -1 || (j <= first_key(mods, key, j) < mods.len()
            && spec_module_key(mods[first_key(mods, key, j)]) == key),
    decreases mods.len() - j,
{
    if j < mods.len() && spec_module_key(mods[j]) != key {
        lemma_first_key_range(mods, key, j + 1);
    }
}

fn find_first_key(mods: &Vec<&ModuleUse>, key: &str) -> (r: Option<usize>)
    ensures
        match r {
            Some(j) => j < mods@.len() && j as int == first_key(mods@.map_values(|m: &ModuleUse| *m), key@, 0),
            None => first_key(mods@.map_values(|m: &ModuleUse| *m), key@, 0) == -1,
        },
{
    let ghost mv = mods@.map_values(|m: &ModuleUse| *m);
    let mut j: usize = 0;
    while j < mods.len()
        invariant
            0 <= j <= mods@.len(),
            mv == mods@.map_values(|m: &ModuleUse| *m),
            first_key(mv, key@, 0) == first_key(mv, key@, j as int),
        decreases mods@.len() - j,
    {
        assert(mv[j as int] == *mods@[j as int]);
        if str_eq(mods[j].key().as_str(), key) {
            return Some(j);
        }
        j += 1;
    }
    None
}

/// The derived equality of module declarations: all fields equal.
pub open spec fn module_eq(a: ModuleUse, b: ModuleUse) -> bool {
    &&& a.name@ == b.name@
    &&& opt_str(a.path) == opt_str(b.path)
    &&& opt_str(a.version) == opt_str(b.version)
    &&& opt_str(a.alias) == opt_str(b.alias)
    &&& a.scope == b.scope
}

pub open spec fn opt_str(o: Option<String>) -> Option<Seq<char>> {
    match o {
        Some(s) => Some(s@),
        None => None,
    }
}

fn opt_str_eq(a: &Option<String>, b: &Option<String>) -> (r: bool)
    ensures
        r == (opt_str(*a) == opt_str(*b)),
{
    match (a, b) {
        (Some(x), Some(y)) => str_eq(x.as_str(), y.as_str()),
        (None, None) => true,
        _ => false,
    }
}

fn scope_eq(a: UseScope, b: UseScope) -> (r: bool)
    ensures
        r == (a == b),
{
    match (a, b) {
        (UseScope::Runtime, UseScope::Runtime) => true,
        (UseScope::Compile, UseScope::Compile) => true,
        (UseScope::Both, UseScope::Both) => true,
        _ => false,
    }
}

pub fn modules_equal(a: &ModuleUse, b: &ModuleUse) -> (r: bool)
    ensures
        r == module_eq(*a, *b),
{
    str_eq(a.name.as_str(), b.name.as_str()) && opt_str_eq(&a.path, &b.path) && opt_str_eq(
        &a.version,
        &b.version,
    ) && opt_str_eq(&a.alias, &b.alias) && scope_eq(a.scope, b.scope)
}

// ---------------------------------------------------------------------------
// Calls between services and modules
// ---------------------------------------------------------------------------

/// The last service of the first `n` called `name`, or -1 (later
/// declarations of a name win).
pub open spec fn last_service(services: Seq<Service>, name: Seq<char>, n: int) -> int
    decreases n,
{
    if n <= 0 {
        -1
    } else if services[n - 1].name@ == name {
        n - 1
    } else {
        last_service(services, name, n - 1)
    }
}

proof fn lemma_last_service_range(services: Seq<Service>, name: Seq<char>, n: int)
    requires
        n <= services.len(),
    ensures
        -1 <= last_service(services, name, n) < services.len(),
        last_service(services, name, n) >= 0 ==> services[last_service(services, name, n)].name@ == name,
    decreases n,
{
    if n > 0 && services[n - 1].name@ != name {
        lemma_last_service_range(services, name, n - 1);
    }
}

/// The base URL a route forwards to when it calls service `t`: the target
/// must exist and declare the called module for run time.
pub open spec fn spec_target_base(project: Project, svc: Service, r: Route, t: Seq<char>) -> Result<Seq<char>, (PrepErrorKind, Seq<Seq<char>>)> {
    let ti = last_service(project.services@, t, project.services@.len() as int);
    if ti < 0 {
        Err((PrepErrorKind::UnknownTargetService, seq![r.path@, svc.name@, t]))
    } else {
        let target = project.services@[ti];
        let mods = all_modules(project, target);
        let mi = first_key(mods, r.call.module@, 0);
        if mi < 0 {
            Err((PrepErrorKind::TargetModuleMissing, seq![r.path@, svc.name@, r.call.module@, r.call.function@, t]))
        } else if mods[mi].scope is Compile {
            Err((PrepErrorKind::TargetModuleCompileOnly, seq![r.path@, svc.name@, r.call.module@, r.call.function@, t]))
        } else {
            Ok(spec_service_base_url(target))
        }
    }
}

fn target_base(project: &Project, svc: &Service, r: &Route, t: &String) -> (res: Result<String, PrepError>)
    ensures
        match res {
            Ok(b) => spec_target_base(*project, *svc, *r, t@) == Ok::<Seq<char>, (PrepErrorKind, Seq<Seq<char>>)>(b@),
            Err(e) => spec_target_base(*project, *svc, *r, t@) == Err::<Seq<char>, (PrepErrorKind, Seq<Seq<char>>)>(err_view(e))
                && e.args@.len() == arg_count(e.kind),
        },
{
    let services = &project.services;
    proof {
        lemma_last_service_range(services@, t@, services@.len() as int);
    }
    let mut k: usize = services.len();
    while k > 0
        invariant
            k <= services@.len(),
            last_service(services@, t@, services@.len() as int) == last_service(services@, t@, k as int),
        ensures
            k <= services@.len(),
            last_service(services@, t@, services@.len() as int) == last_service(services@, t@, k as int),
            k == 0 || services@[k - 1].name@ == t@,
        decreases k,
    {
        if str_eq(services[k - 1].name.as_str(), t.as_str()) {
            break;
        }
        k -= 1;
    }
    if k == 0 {
        assert(last_service(services@, t@, services@.len() as int) == -1);
        let e = err3(PrepErrorKind::UnknownTargetService, &r.path, &svc.name, t);
        assert(e.args@.len() == views(e.args@).len());
        assert(spec_target_base(*project, *svc, *r, t@) == Err::<Seq<char>, (PrepErrorKind, Seq<Seq<char>>)>(err_view(e)));
        return Err(e);
    }
    let target = &services[k - 1];
    let mods = collect_all_modules(project, target);
    let ghost mv = mods@.map_values(|m: &ModuleUse| *m);
    assert(mv =~= all_modules(*project, *target));
    proof {
        lemma_first_key_range(mv, r.call.module@, 0);
    }
    match find_first_key(&mods, r.call.module.as_str()) {
        None => Err(
            err5(
                PrepErrorKind::TargetModuleMissing,
                &r.path,
                &svc.name,
                &r.call.module,
                &r.call.function,
                t,
            ),
        ),
        Some(mi) => {
            assert(mv[mi as int] == *mods@[mi as int]);
            match mods[mi].scope {
                UseScope::Compile => Err(
                    err5(
                        PrepErrorKind::TargetModuleCompileOnly,
                        &r.path,
                        &svc.name,
                        &r.call.module,
                        &r.call.function,
                        t,
                    ),
                ),
                _ => Ok(service_base_url(target)),
            }
        },
    }
}

pub open spec fn opt_views(v: Seq<Option<String>>) -> Seq<Option<Seq<char>>> {
    v.map_values(|o: Option<String>| opt_str(o))
}

/// Over the first `n` routes: the base URL given to each route that calls
/// another service (nothing for the others), and the modules called
/// locally, in order; or the first error.
pub open spec fn route_stage(project: Project, svc: Service, n: nat) -> Result<(Seq<Option<Seq<char>>>, Seq<Seq<char>>), (PrepErrorKind, Seq<Seq<char>>)>
    decreases n,
{
    if n == 0 {
        Ok((Seq::empty(), Seq::empty()))
    } else {
        match route_stage(project, svc, (n - 1) as nat) {
            Err(e) => Err(e),
            Ok((bases, used)) => {
                let r = svc.http.routes@[n - 1];
                if r.healthcheck {
                    Ok((bases.push(None), used))
                } else {
                    match r.call.service {
                        Some(t) => match spec_target_base(project, svc, r, t@) {
                            Err(e) => Err(e),
                            Ok(b) => Ok((bases.push(Some(b)), used)),
                        },
                        None => Ok((bases.push(None), used.push(r.call.module@))),
                    }
                }
            },
        }
    }
}

/// The modules used after the routes, extended by the RPC methods (which
/// may call no other service) over the first `n` methods.
pub open spec fn rpc_stage(svc: Service, used: Seq<Seq<char>>, n: nat) -> Result<Seq<Seq<char>>, (PrepErrorKind, Seq<Seq<char>>)>
    decreases n,
{
    if n == 0 {
        Ok(used)
    } else {
        match rpc_stage(svc, used, (n - 1) as nat) {
            Err(e) => Err(e),
            Ok(u) => {
                let m = svc.rpc.methods@[n - 1];
                match m.call.service {
                    Some(t) => if t@ != svc.name@ {
                        Err((PrepErrorKind::RpcCallsOtherService, seq![m.name@, svc.name@, t@]))
                    } else {
                        Ok(u.push(m.call.module@))
                    },
                    None => Ok(u.push(m.call.module@)),
                }
            },
        }
    }
}

pub open spec fn handler_module_fn() -> spec_fn(crate::ir::SocketMessage) -> Seq<Seq<char>> {
    |m: crate::ir::SocketMessage| seq![m.handler.module@]
}

pub open spec fn socket_used_fn() -> spec_fn(SocketDef) -> Seq<Seq<char>> {
    |s: SocketDef| flat_map(s.inbound@, handler_module_fn()) + flat_map(s.outbound@, handler_module_fn())
}

/// The first declaration among the first `n` that reuses an earlier name
/// for a different module: its name.
pub open spec fn dup_stage(all: Seq<ModuleUse>, n: nat) -> Option<Seq<char>>
    decreases n,
{
    if n == 0 {
        None
    } else {
        match dup_stage(all, (n - 1) as nat) {
            Some(k) => Some(k),
            None => {
                let m = all[n - 1];
                let first = first_key(all, spec_module_key(m), 0);
                if 0 <= first < n - 1 && !module_eq(all[first], m) {
                    Some(spec_module_key(m))
                } else {
                    None
                }
            },
        }
    }
}

/// The first of the first `n` used modules that is not declared, or that
/// is declared for compile time only.
pub open spec fn used_stage(all: Seq<ModuleUse>, used: Seq<Seq<char>>, svc_name: Seq<char>, n: nat) -> Option<(PrepErrorKind, Seq<Seq<char>>)>
    decreases n,
{
    if n == 0 {
        None
    } else {
        match used_stage(all, used, svc_name, (n - 1) as nat) {
            Some(e) => Some(e),
            None => {
                let u = used[n - 1];
                let k = first_key(all, u, 0);
                if k < 0 {
                    Some((PrepErrorKind::ModuleNotDeclared, seq![u, svc_name]))
                } else if all[k].scope is Compile {
                    Some((PrepErrorKind::ModuleCompileOnly, seq![u, svc_name]))
                } else {
                    None
                }
            },
        }
    }
}

/// The positions of the first declaration of each name, in order.
pub open spec fn uniq_stage(all: Seq<ModuleUse>, n: nat) -> Seq<int>
    decreases n,
{
    if n == 0 {
        Seq::empty()
    } else {
        let rest = uniq_stage(all, (n - 1) as nat);
        if first_key(all, spec_module_key(all[n - 1]), 0) == n - 1 {
            rest.push(n - 1)
        } else {
            rest
        }
    }
}

/// The checks of calls and modules done before any file is written: the
/// base URL given to each route, and the module declarations kept (the
/// first of each name), or the first error.
pub open spec fn spec_check_calls(project: Project, svc: Service) -> Result<(Seq<Option<Seq<char>>>, Seq<int>), (PrepErrorKind, Seq<Seq<char>>)> {
    match route_stage(project, svc, svc.http.routes@.len()) {
        Err(e) => Err(e),
        Ok((bases, used0)) => match rpc_stage(svc, used0, svc.rpc.methods@.len()) {
            Err(e) => Err(e),
            Ok(used1) => {
                let used = used1 + flat_map(svc.sockets.sockets@, socket_used_fn());
                let all = all_modules(project, svc);
                match dup_stage(all, all.len()) {
                    Some(k) => Err((PrepErrorKind::DuplicateModuleAlias, seq![k])),
                    None => match used_stage(all, used, svc.name@, used.len()) {
                        Some(e) => Err(e),
                        None => Ok((bases, uniq_stage(all, all.len()))),
                    },
                }
            },
        },
    }
}

proof fn lemma_route_stage_err(project: Project, svc: Service, i: nat, n: nat)
    requires
        i <= n,
        route_stage(project, svc, i) is Err,
    ensures
        route_stage(project, svc, n) == route_stage(project, svc, i),
    decreases n - i,
{
    if i < n {
        lemma_route_stage_err(project, svc, i, (n - 1) as nat);
    }
}

proof fn lemma_rpc_stage_err(svc: Service, used: Seq<Seq<char>>, i: nat, n: nat)
    requires
        i <= n,
        rpc_stage(svc, used, i) is Err,
    ensures
        rpc_stage(svc, used, n) == rpc_stage(svc, used, i),
    decreases n - i,
{
    if i < n {
        lemma_rpc_stage_err(svc, used, i, (n - 1) as nat);
    }
}

proof fn lemma_dup_stage_some(all: Seq<ModuleUse>, i: nat, n: nat)
    requires
        i <= n,
        dup_stage(all, i) is Some,
    ensures
        dup_stage(all, n) == dup_stage(all, i),
    decreases n - i,
{
    if i < n {
        lemma_dup_stage_some(all, i, (n - 1) as nat);
    }
}

proof fn lemma_used_stage_some(all: Seq<ModuleUse>, used: Seq<Seq<char>>, name: Seq<char>, i: nat, n: nat)
    requires
        i <= n,
        used_stage(all, used, name, i) is Some,
    ensures
        used_stage(all, used, name, n) == used_stage(all, used, name, i),
    decreases n - i,
{
    if i < n {
        lemma_used_stage_some(all, used, name, i, (n - 1) as nat);
    }
}

/// What preparing changes in a service before its modules are placed.
pub struct CallPlan {
    /// For each route, the base URL of the service it forwards to.
    pub route_bases: Vec<Option<String>>,
    /// The positions, in `all_modules`, of the declarations kept.
    pub modules: Vec<usize>,
}

pub open spec fn usize_ints(v: Seq<usize>) -> Seq<int> {
    v.map_values(|j: usize| j as int)
}

fn push_socket_used(used: &mut Vec<String>, sockets: &Vec<SocketDef>)
    ensures
        views(final(used)@) == views(old(used)@) + flat_map(sockets@, socket_used_fn()),
{
    let ghost start = views(used@);
    let mut k: usize = 0;
    while k < sockets.len()
        invariant
            0 <= k <= sockets@.len(),
            views(used@) == start + flat_map(sockets@.take(k as int), socket_used_fn()),
        decreases sockets@.len() - k,
    {
        proof {
            lemma_flat_map_step(sockets@, k as int, socket_used_fn());
        }
        let ghost mid = views(used@);
        let sock = &sockets[k];
        let mut j: usize = 0;
        while j < sock.inbound.len()
            invariant
                0 <= j <= sock.inbound@.len(),
                views(used@) == mid + flat_map(sock.inbound@.take(j as int), handler_module_fn()),
            decreases sock.inbound@.len() - j,
        {
            proof {
                lemma_flat_map_step(sock.inbound@, j as int, handler_module_fn());
            }
            assert(handler_module_fn()(sock.inbound@[j as int]) == seq![sock.inbound@[j as int].handler.module@]);
            let name = sock.inbound[j].handler.module.clone();
            proof {
                lemma_views_push(used@, name);
            }
            used.push(name);
            j += 1;
            assert(views(used@) =~= mid + flat_map(sock.inbound@.take(j as int), handler_module_fn()));
        }
        proof {
            lemma_take_all(sock.inbound@);
        }
        let ghost mid2 = views(used@);
        let mut j2: usize = 0;
        while j2 < sock.outbound.len()
            invariant
                0 <= j2 <= sock.outbound@.len(),
                views(used@) == mid2 + flat_map(sock.outbound@.take(j2 as int), handler_module_fn()),
            decreases sock.outbound@.len() - j2,
        {
            proof {
                lemma_flat_map_step(sock.outbound@, j2 as int, handler_module_fn());
            }
            assert(handler_module_fn()(sock.outbound@[j2 as int]) == seq![sock.outbound@[j2 as int].handler.module@]);
            let name = sock.outbound[j2].handler.module.clone();
            proof {
                lemma_views_push(used@, name);
            }
            used.push(name);
            j2 += 1;
            assert(views(used@) =~= mid2 + flat_map(sock.outbound@.take(j2 as int), handler_module_fn()));
        }
        proof {
            lemma_take_all(sock.outbound@);
        }
        assert(socket_used_fn()(sockets@[k as int]) == flat_map(sock.inbound@, handler_module_fn()) + flat_map(sock.outbound@, handler_module_fn()));
        k += 1;
        assert(views(used@) =~= start + flat_map(sockets@.take(k as int), socket_used_fn()));
    }
    proof {
        lemma_take_all(sockets@);
    }
}

/// Each route of the first `n` gets one base.
proof fn lemma_route_stage_len(project: Project, svc: Service, n: nat)
    requires
        n <= svc.http.routes@.len(),
    ensures
        route_stage(project, svc, n) matches Ok((bases, _)) ==> bases.len() == n,
    decreases n,
{
    if n > 0 {
        lemma_route_stage_len(project, svc, (n - 1) as nat);
    }
}

pub fn check_calls(project: &Project, svc: &Service) -> (r: Result<CallPlan, PrepError>)
    ensures
        match r {
            Ok(p) => spec_check_calls(*project, *svc) == Ok::<(Seq<Option<Seq<char>>>, Seq<int>), (PrepErrorKind, Seq<Seq<char>>)>((
                opt_views(p.route_bases@),
                usize_ints(p.modules@),
            )),
            Err(e) => spec_check_calls(*project, *svc) == Err::<(Seq<Option<Seq<char>>>, Seq<int>), (PrepErrorKind, Seq<Seq<char>>)>(err_view(e))
                && e.args@.len() == arg_count(e.kind),
        },
        r matches Ok(p) ==> p.route_bases@.len() == svc.http.routes@.len(),
{
    proof {
        lemma_route_stage_len(*project, *svc, svc.http.routes@.len());
    }
    let routes = &svc.http.routes;
    let mut bases: Vec<Option<String>> = Vec::new();
    let mut used: Vec<String> = Vec::new();
    assert(opt_views(bases@) =~= Seq::<Option<Seq<char>>>::empty());
    assert(views(used@) =~= Seq::<Seq<char>>::empty());
    let mut i: usize = 0;
    while i < routes.len()
        invariant
            0 <= i <= routes@.len(),
            routes@ == svc.http.routes@,
            route_stage(*project, *svc, i as nat) == Ok::<(Seq<Option<Seq<char>>>, Seq<Seq<char>>), (PrepErrorKind, Seq<Seq<char>>)>((opt_views(bases@), views(used@))),
        decreases routes@.len() - i,
    {
        let r = &routes[i];
        let ghost b0 = opt_views(bases@);
        let ghost u0 = views(used@);
        if r.healthcheck {
            bases.push(None);
            assert(opt_views(bases@) =~= b0.push(None));
        } else {
            match &r.call.service {
                Some(t) => {
                    match target_base(project, svc, r, t) {
                        Err(e) => {
                            proof {
                                lemma_route_stage_err(*project, *svc, (i + 1) as nat, routes@.len());
                            }
                            return Err(e);
                        },
                        Ok(b) => {
                            let ghost bv = b@;
                            bases.push(Some(b));
                            assert(opt_views(bases@) =~= b0.push(Some(bv)));
                        },
                    }
                },
                None => {
                    bases.push(None);
                    used.push(r.call.module.clone());
                    assert(opt_views(bases@) =~= b0.push(None));
                    assert(views(used@) =~= u0.push(r.call.module@));
                },
            }
        }
        i += 1;
    }
    let ghost bases_v = opt_views(bases@);
    let ghost used0 = views(used@);
    let methods = &svc.rpc.methods;
    let mut k: usize = 0;
    while k < methods.len()
        invariant
            0 <= k <= methods@.len(),
            methods@ == svc.rpc.methods@,
            route_stage(*project, *svc, svc.http.routes@.len()) == Ok::<(Seq<Option<Seq<char>>>, Seq<Seq<char>>), (PrepErrorKind, Seq<Seq<char>>)>((bases_v, used0)),
            rpc_stage(*svc, used0, k as nat) == Ok::<Seq<Seq<char>>, (PrepErrorKind, Seq<Seq<char>>)>(views(used@)),
        decreases methods@.len() - k,
    {
        let m = &methods[k];
        let ghost u0 = views(used@);
        if let Some(t) = &m.call.service {
            if !str_eq(t.as_str(), svc.name.as_str()) {
                let e = err3(PrepErrorKind::RpcCallsOtherService, &m.name, &svc.name, t);
                proof {
                    lemma_rpc_stage_err(*svc, used0, (k + 1) as nat, methods@.len());
                }
                return Err(e);
            }
        }
        used.push(m.call.module.clone());
        assert(views(used@) =~= u0.push(m.call.module@));
        k += 1;
    }
    let ghost used1 = views(used@);
    push_socket_used(&mut used, &svc.sockets.sockets);
    let all = collect_all_modules(project, svc);
    let ghost av = all@.map_values(|m: &ModuleUse| *m);
    assert(av =~= all_modules(*project, *svc));
    let ghost uv = views(used@);
    // Two declarations under one name must be the same declaration.
    let mut j: usize = 0;
    while j < all.len()
        invariant
            0 <= j <= all@.len(),
            av == all@.map_values(|m: &ModuleUse| *m),
            av == all_modules(*project, *svc),
            uv == views(used@),
            uv == used1 + flat_map(svc.sockets.sockets@, socket_used_fn()),
            route_stage(*project, *svc, svc.http.routes@.len()) == Ok::<(Seq<Option<Seq<char>>>, Seq<Seq<char>>), (PrepErrorKind, Seq<Seq<char>>)>((bases_v, used0)),
            rpc_stage(*svc, used0, svc.rpc.methods@.len()) == Ok::<Seq<Seq<char>>, (PrepErrorKind, Seq<Seq<char>>)>(used1),
            dup_stage(av, j as nat) is None,
        decreases all@.len() - j,
    {
        assert(av[j as int] == *all@[j as int]);
        proof {
            lemma_first_key_range(av, spec_module_key(av[j as int]), 0);
        }
        let first = find_first_key(&all, all[j].key().as_str());
        match first {
            Some(f) => {
                assert(av[f as int] == *all@[f as int]);
                if f < j && !modules_equal(all[f], all[j]) {
                    let e = err1(PrepErrorKind::DuplicateModuleAlias, all[j].key());
                    proof {
                        lemma_dup_stage_some(av, (j + 1) as nat, av.len());
                    }
                    return Err(e);
                }
            },
            None => {},
        }
        j += 1;
    }
    let mut u: usize = 0;
    while u < used.len()
        invariant
            0 <= u <= used@.len(),
            uv == views(used@),
            uv == used1 + flat_map(svc.sockets.sockets@, socket_used_fn()),
            av == all@.map_values(|m: &ModuleUse| *m),
            av == all_modules(*project, *svc),
            route_stage(*project, *svc, svc.http.routes@.len()) == Ok::<(Seq<Option<Seq<char>>>, Seq<Seq<char>>), (PrepErrorKind, Seq<Seq<char>>)>((bases_v, used0)),
            rpc_stage(*svc, used0, svc.rpc.methods@.len()) == Ok::<Seq<Seq<char>>, (PrepErrorKind, Seq<Seq<char>>)>(used1),
            dup_stage(av, av.len()) is None,
            used_stage(av, uv, svc.name@, u as nat) is None,
        decreases used@.len() - u,
    {
        assert(uv[u as int] == used@[u as int]@);
        proof {
            lemma_first_key_range(av, uv[u as int], 0);
        }
        match find_first_key(&all, used[u].as_str()) {
            None => {
                let e = err2(PrepErrorKind::ModuleNotDeclared, &used[u], &svc.name);
                proof {
                    lemma_used_stage_some(av, uv, svc.name@, (u + 1) as nat, uv.len());
                }
                return Err(e);
            },
            Some(f) => {
                assert(av[f as int] == *all@[f as int]);
                match all[f].scope {
                    UseScope::Compile => {
                        let e = err2(PrepErrorKind::ModuleCompileOnly, &used[u], &svc.name);
                        proof {
                            lemma_used_stage_some(av, uv, svc.name@, (u + 1) as nat, uv.len());
                        }
                        return Err(e);
                    },
                    _ => {},
                }
            },
        }
        u += 1;
    }
    let mut kept: Vec<usize> = Vec::new();
    assert(usize_ints(kept@) =~= Seq::<int>::empty());
    let mut q: usize = 0;
    while q < all.len()
        invariant
            0 <= q <= all@.len(),
            av == all@.map_values(|m: &ModuleUse| *m),
            usize_ints(kept@) == uniq_stage(av, q as nat),
        decreases all@.len() - q,
    {
        assert(av[q as int] == *all@[q as int]);
        let ghost k0 = usize_ints(kept@);
        match find_first_key(&all, all[q].key().as_str()) {
            Some(f) => {
                if f == q {
                    kept.push(q);
                    assert(usize_ints(kept@) =~= k0.push(q as int));
                }
            },
            None => {},
        }
        q += 1;
    }
    Ok(CallPlan { route_bases: bases, modules: kept })
}

// ---------------------------------------------------------------------------
// Placing module files
// ---------------------------------------------------------------------------

#[derive(Clone, Copy, Debug)]
pub enum PlacementKind {
    /// The module has no file: nothing to place.
    Keep,
    /// A Go file rewritten into package `package` under that directory.
    GoPackage,
    /// A file copied to `rel_path` under the generated sources.
    Copy,
}

/// Where a module's file comes from and goes. For `GoPackage`, `dest` is
/// the file name and `import_path` the package; for `Copy`, `dest` is the
/// relative destination and `import_path` what imports write.
#[derive(Debug)]
pub struct Placement {
    pub kind: PlacementKind,
    pub source: String,
    pub dest: String,
    pub import_path: String,
}

pub open spec fn placement_view(p: Placement) -> (PlacementKind, Seq<char>, Seq<char>, Seq<char>) {
    (p.kind, p.source@, p.dest@, p.import_path@)
}

/// The placement of one kept module of a service generated in `lang`;
/// `input_dir` is the directory of the `.ns` file.
pub open spec fn spec_place_module(m: ModuleUse, input_dir: Seq<char>, lang: Lang) -> Result<(PlacementKind, Seq<char>, Seq<char>, Seq<char>), (PrepErrorKind, Seq<Seq<char>>)> {
    match m.path {
        None => Ok((PlacementKind::Keep, Seq::empty(), Seq::empty(), Seq::empty())),
        Some(p) => {
            let src = path_join(input_dir, p@);
            let ext = match extension(src) {
                Some(e) => e,
                None => Seq::empty(),
            };
            if !spec_is_module_compatible(lang, ext) {
                Err((PrepErrorKind::IncompatibleModule(lang), seq![p@]))
            } else if lang is Go {
                match file_name(src) {
                    None => Err((PrepErrorKind::InvalidModulePath, seq![p@])),
                    Some(f) => Ok((PlacementKind::GoPackage, src, f, spec_module_key(m))),
                }
            } else {
                match spec_normalize_module_rel_path(p@) {
                    None => Err((PrepErrorKind::InvalidModulePath, seq![p@])),
                    Some(Err(_)) => Err((PrepErrorKind::ModulePathHasParent, seq![p@])),
                    Some(Ok(rel)) => Ok((PlacementKind::Copy, src, rel, spec_path_to_import_string(rel))),
                }
            }
        },
    }
}

pub fn place_module(m: &ModuleUse, input_dir: &str, lang: Lang) -> (r: Result<Placement, PrepError>)
    ensures
        match r {
            Ok(p) => spec_place_module(*m, input_dir@, lang) == Ok::<(PlacementKind, Seq<char>, Seq<char>, Seq<char>), (PrepErrorKind, Seq<Seq<char>>)>(placement_view(p)),
            Err(e) => spec_place_module(*m, input_dir@, lang) == Err::<(PlacementKind, Seq<char>, Seq<char>, Seq<char>), (PrepErrorKind, Seq<Seq<char>>)>(err_view(e))
                && e.args@.len() == arg_count(e.kind),
        },
{
    let p = match &m.path {
        None => {
            return Ok(
                Placement {
                    kind: PlacementKind::Keep,
                    source: String::new(),
                    dest: String::new(),
                    import_path: String::new(),
                },
            );
        },
        Some(p) => p,
    };
    let src = join_path(input_dir, p.as_str());
    let ext = match path_extension(src.as_str()) {
        Some(e) => e,
        None => String::new(),
    };
    if !is_module_compatible(&lang, ext.as_str()) {
        return Err(err1(PrepErrorKind::IncompatibleModule(lang), p));
    }
    match lang {
        Lang::Go => match path_file_name(src.as_str()) {
            None => Err(err1(PrepErrorKind::InvalidModulePath, p)),
            Some(f) => Ok(
                Placement {
                    kind: PlacementKind::GoPackage,
                    source: src,
                    dest: f,
                    import_path: m.key().clone(),
                },
            ),
        },
        _ => match normalize_module_rel_path(p.as_str()) {
            Err(ModulePathError::Invalid(_)) => Err(err1(PrepErrorKind::InvalidModulePath, p)),
            Err(ModulePathError::HasParent(_)) => Err(err1(PrepErrorKind::ModulePathHasParent, p)),
            Ok(rel) => {
                let import_path = path_to_import_string(rel.as_str());
                Ok(Placement { kind: PlacementKind::Copy, source: src, dest: rel, import_path })
            },
        },
    }
}

/// The middleware of a prepared service: the project's, then its own.
pub fn merged_middleware(project: &Project, svc: &Service) -> (r: Vec<String>)
    ensures
        views(r@) == views(project.common.middleware@) + views(svc.common.middleware@),
{
    let mut out: Vec<String> = Vec::new();
    let a = &project.common.middleware;
    let mut i: usize = 0;
    while i < a.len()
        invariant
            0 <= i <= a@.len(),
            views(out@) == views(a@.take(i as int)),
        decreases a@.len() - i,
    {
        let x = a[i].clone();
        proof {
            lemma_views_push(out@, x);
            assert(a@.take(i + 1) =~= a@.take(i as int).push(a@[i as int]));
            lemma_views_push(a@.take(i as int), a@[i as int]);
        }
        out.push(x);
        i += 1;
    }
    assert(a@.take(a@.len() as int) =~= a@);
    let b = &svc.common.middleware;
    let ghost start = views(out@);
    let mut k: usize = 0;
    while k < b.len()
        invariant
            0 <= k <= b@.len(),
            views(out@) == start + views(b@.take(k as int)),
        decreases b@.len() - k,
    {
        let x = b[k].clone();
        proof {
            lemma_views_push(out@, x);
            assert(b@.take(k + 1) =~= b@.take(k as int).push(b@[k as int]));
            lemma_views_push(b@.take(k as int), b@[k as int]);
        }
        out.push(x);
        k += 1;
        assert(views(out@) =~= start + views(b@.take(k as int)));
    }
    assert(b@.take(b@.len() as int) =~= b@);
    out
}

/// A route forwarded to the service at `base`; a route with no base
/// keeps its call as it is.
pub open spec fn with_base(r: Route, base: Option<String>) -> Route {
    match base {
        Some(b) => Route { call: CallSpec { service_base: Some(b), ..r.call }, ..r },
        None => r,
    }
}

/// The routes of a service with the bases the plan found for them.
pub open spec fn based_routes(routes: Seq<Route>, bases: Seq<Option<String>>) -> Seq<Route> {
    Seq::new(routes.len(), |i: int| with_base(routes[i], bases[i]))
}

/// The service as it is generated: its forwarded routes know their
/// target's address, its modules are the placed ones, its authentication
/// falls back on the project's, its middleware follows the project's, and
/// the internal routes for the calls of other services come after its own
/// routes. Everything else is kept.
pub fn prepared_service(
    project: &Project,
    svc: Service,
    plan: &CallPlan,
    modules: Vec<ModuleUse>,
    incoming: Vec<Route>,
) -> (r: Service)
    requires
        plan.route_bases@.len() == svc.http.routes@.len(),
    ensures
        r.name == svc.name,
        r.language == svc.language,
        r.common.address == svc.common.address,
        r.common.port == svc.common.port,
        r.common.base_url == svc.common.base_url,
        r.common.cors == svc.common.cors,
        r.common.modules@ == modules@,
        r.common.env == svc.common.env,
        r.common.auth == (if svc.common.auth is Some {
            svc.common.auth
        } else {
            project.common.auth
        }),
        views(r.common.middleware@) == views(project.common.middleware@) + views(svc.common.middleware@),
        r.common.rate_limit == svc.common.rate_limit,
        r.http.headers == svc.http.headers,
        r.http.routes@ == based_routes(svc.http.routes@, plan.route_bases@) + incoming@,
        r.rpc == svc.rpc,
        r.events == svc.events,
        r.schema == svc.schema,
        r.sockets == svc.sockets,
{
    let middleware = merged_middleware(project, &svc);
    let auth = match svc.common.auth {
        Some(a) => Some(a),
        None => project.common.auth,
    };
    let ghost old_routes = svc.http.routes@;
    let Service { name, language, common, http, rpc, events, schema, sockets } = svc;
    let mut rest = http.routes;
    let mut routes: Vec<Route> = Vec::new();
    let n = rest.len();
    let mut i: usize = 0;
    while i < n
        invariant
            0 <= i <= n,
            n == old_routes.len(),
            plan.route_bases@.len() == n,
            rest@ == old_routes.skip(i as int),
            routes@ == based_routes(old_routes, plan.route_bases@).take(i as int),
        decreases n - i,
    {
        assert(rest@[0] == old_routes[i as int]);
        let mut rt = rest.remove(0);
        match &plan.route_bases[i] {
            Some(b) => {
                rt.call.service_base = Some(b.clone());
            },
            None => {},
        }
        assert(rt == with_base(old_routes[i as int], plan.route_bases@[i as int]));
        routes.push(rt);
        assert(rest@ =~= old_routes.skip(i + 1));
        i += 1;
        assert(routes@ =~= based_routes(old_routes, plan.route_bases@).take(i as int));
    }
    assert(based_routes(old_routes, plan.route_bases@).take(n as int) =~= based_routes(old_routes, plan.route_bases@));
    let mut more = incoming;
    routes.append(&mut more);
    Service {
        name,
        language,
        common: crate::ir::ServiceCommon {
            address: common.address,
            port: common.port,
            base_url: common.base_url,
            cors: common.cors,
            modules,
            env: common.env,
            auth,
            middleware,
            rate_limit: common.rate_limit,
        },
        http: crate::ir::HttpSection { headers: http.headers, routes },
        rpc,
        events,
        schema,
        sockets,
    }
}

/// The first generated internal route whose path is already a route of
/// the service.
pub open spec fn first_conflict(existing: Seq<Route>, incoming: Seq<Route>, n: nat) -> Option<Seq<char>>
    decreases n,
{
    if n == 0 {
        None
    } else {
        match first_conflict(existing, incoming, (n - 1) as nat) {
            Some(p) => Some(p),
            None => {
                let p = incoming[n - 1].path@;
                if exists|i: int| 0 <= i < existing.len() && #[trigger] existing[i].path@ == p {
                    Some(p)
                } else {
                    None
                }
            },
        }
    }
}

proof fn lemma_first_conflict_some(existing: Seq<Route>, incoming: Seq<Route>, i: nat, n: nat)
    requires
        i <= n,
        first_conflict(existing, incoming, i) is Some,
    ensures
        first_conflict(existing, incoming, n) == first_conflict(existing, incoming, i),
    decreases n - i,
{
    if i < n {
        lemma_first_conflict_some(existing, incoming, i, (n - 1) as nat);
    }
}

/// Generated internal routes may not reuse the path of a route the
/// service declares.
pub fn check_internal_routes(svc: &Service, incoming: &Vec<Route>) -> (r: Result<(), PrepError>)
    ensures
        match r {
            Ok(_) => first_conflict(svc.http.routes@, incoming@, incoming@.len()) is None,
            Err(e) => first_conflict(svc.http.routes@, incoming@, incoming@.len()) matches Some(p)
                && err_view(e) == (PrepErrorKind::InternalRouteConflict, seq![p, svc.name@])
                && e.args@.len() == arg_count(e.kind),
        },
{
    let existing = &svc.http.routes;
    let mut k: usize = 0;
    while k < incoming.len()
        invariant
            0 <= k <= incoming@.len(),
            existing@ == svc.http.routes@,
            first_conflict(existing@, incoming@, k as nat) is None,
        decreases incoming@.len() - k,
    {
        let p = &incoming[k].path;
        let mut i: usize = 0;
        while i < existing.len()
            invariant
                0 <= i <= existing@.len(),
                k < incoming@.len(),
                existing@ == svc.http.routes@,
                p@ == incoming@[k as int].path@,
                first_conflict(existing@, incoming@, k as nat) is None,
                forall|j: int| 0 <= j < i ==> existing@[j].path@ != p@,
            decreases existing@.len() - i,
        {
            if str_eq(existing[i].path.as_str(), p.as_str()) {
                let e = err2(PrepErrorKind::InternalRouteConflict, p, &svc.name);
                proof {
                    assert(existing@[i as int].path@ == p@);
                    lemma_first_conflict_some(existing@, incoming@, (k + 1) as nat, incoming@.len());
                }
                return Err(e);
            }
            i += 1;
        }
        k += 1;
    }
    Ok(())
}

// ---------------------------------------------------------------------------
// The type of a call argument
// ---------------------------------------------------------------------------










/// One step into a field: objects and named schema types have fields; any
/// other type gives `any`. The error names an unknown schema type.
pub open spec fn spec_resolve_step(svc: Service, cur: Resolution, seg: Seq<char>) -> Result<Resolution, Seq<char>> {
    let (ty, opt, val) = cur;
    let fields: Result<Option<Seq<Field>>, Seq<char>> = match ty {
        RTy::ObjectOf(fs) => Ok(Some(fs)),
        RTy::Of(t) => match t {
            Type::Object(v) => Ok(Some(v@)),
            Type::Named(n) => {
                let k = first_type_def(svc.schema.types@, n, 0);
                if k < 0 {
                    Err(spec_display(n))
                } else {
                    Ok(Some(svc.schema.types@[k].fields@))
                }
            },
            _ => Ok(None),
        },
    };
    match fields {
        Err(e) => Err(e),
        Ok(None) => Ok((RTy::Of(Type::Any), opt, None)),
        Ok(Some(fs)) => {
            let (t2, o2, v2) = field_lookup(fs, seg);
            Ok((t2, opt || o2, v2))
        },
    }
}

/// The resolution after the first `n` segments of the reference's path.
pub open spec fn resolve_upto(svc: Service, route: Route, input: InputRef, n: nat) -> Result<Resolution, Seq<char>>
    decreases n,
{
    if n <= 1 {
        Ok(spec_resolve_start(route, input))
    } else {
        match resolve_upto(svc, route, input, (n - 1) as nat) {
            Err(e) => Err(e),
            Ok(cur) => spec_resolve_step(svc, cur, input.path@[n - 1]@),
        }
    }
}

/// The type of the value an input reference of a route of `svc` names.
pub open spec fn spec_resolve_input_ref(svc: Service, route: Route, input: InputRef) -> Result<Resolution, Seq<char>> {
    resolve_upto(svc, route, input, input.path@.len())
}








fn resolve_step<'a>(
    svc: &'a Service,
    cur: (RRef<'a>, bool, Option<&'a Validation>),
    seg: &str,
) -> (r: Result<(RRef<'a>, bool, Option<&'a Validation>), PrepError>)
    ensures
        match r {
            Ok(x) => spec_resolve_step(*svc, (rref_view(cur.0), cur.1, opt_ref_view(cur.2)), seg@) == Ok::<Resolution, Seq<char>>((rref_view(x.0), x.1, opt_ref_view(x.2))),
            Err(e) => spec_resolve_step(*svc, (rref_view(cur.0), cur.1, opt_ref_view(cur.2)), seg@) matches Err(n)
                && err_view(e) == (PrepErrorKind::UnknownType, seq![n])
                && e.args@.len() == arg_count(e.kind),
        },
{
    let (ty, opt, _val) = cur;
    let fields: Option<&'a Vec<Field>> = match ty {
        RRef::Fields(v) => Some(v),
        RRef::NoFields => {
            return Ok((RRef::AnyTy, opt, None));
        },
        RRef::AnyTy => None,
        RRef::Ty(t) => match t {
            Type::Object(v) => Some(v),
            Type::Named(n) => match find_type_def(&svc.schema.types, n) {
                None => {
                    let d = n.display();
                    return Err(err1(PrepErrorKind::UnknownType, &d));
                },
                Some(def) => Some(&def.fields),
            },
            _ => None,
        },
    };
    match fields {
        None => Ok((RRef::AnyTy, opt, None)),
        Some(fs) => {
            let (t2, o2, v2) = lookup(fs, seg);
            Ok((t2, opt || o2, v2))
        },
    }
}

/// `resolve_input_ref_type`: the type, optionality and validation of what
/// an input reference of a route of `svc` names.
pub fn resolve_input_ref<'a>(svc: &'a Service, route: &'a Route, input: &InputRef) -> (r: Result<(RRef<'a>, bool, Option<&'a Validation>), PrepError>)
    ensures
        match r {
            Ok(x) => spec_resolve_input_ref(*svc, *route, *input) == Ok::<Resolution, Seq<char>>((rref_view(x.0), x.1, opt_ref_view(x.2))),
            Err(e) => spec_resolve_input_ref(*svc, *route, *input) matches Err(n)
                && err_view(e) == (PrepErrorKind::UnknownType, seq![n])
                && e.args@.len() == arg_count(e.kind),
        },
{
    let fs = source_fields_of(route, input.source);
    let start: (RRef<'a>, bool, Option<&'a Validation>) = if input.path.len() == 0 {
        match fs {
            Some(v) => (RRef::Fields(v), false, None),
            None => (RRef::NoFields, false, None),
        }
    } else {
        match fs {
            Some(v) => lookup(v, input.path[0].as_str()),
            None => {
                let empty: Vec<Field> = Vec::new();
                assert(first_field(empty@, input.path@[0]@, 0) == -1);
                (RRef::AnyTy, false, None)
            },
        }
    };
    assert((rref_view(start.0), start.1, opt_ref_view(start.2)) == spec_resolve_start(*route, *input));
    let mut cur = start;
    let mut i: usize = 1;
    while i < input.path.len()
        invariant
            1 <= i,
            i <= input.path@.len() || (input.path@.len() == 0 && i == 1),
            resolve_upto(*svc, *route, *input, i as nat) == Ok::<Resolution, Seq<char>>((rref_view(cur.0), cur.1, opt_ref_view(cur.2))),
        decreases input.path@.len() - i,
    {
        match resolve_step(svc, cur, input.path[i].as_str()) {
            Err(e) => {
                proof {
                    lemma_resolve_err(*svc, *route, *input, (i + 1) as nat, input.path@.len());
                }
                return Err(e);
            },
            Ok(next) => {
                cur = next;
            },
        }
        i += 1;
    }
    assert(resolve_upto(*svc, *route, *input, i as nat) == Ok::<Resolution, Seq<char>>((rref_view(cur.0), cur.1, opt_ref_view(cur.2))));
    assert(i >= input.path@.len());
    proof {
        if input.path@.len() == 0 {
            assert(resolve_upto(*svc, *route, *input, 0) == Ok::<Resolution, Seq<char>>(spec_resolve_start(*route, *input)));
            assert(resolve_upto(*svc, *route, *input, 1) == Ok::<Resolution, Seq<char>>(spec_resolve_start(*route, *input)));
        } else {
            assert(i as int == input.path@.len());
        }
    }
    assert(spec_resolve_input_ref(*svc, *route, *input) == Ok::<Resolution, Seq<char>>((rref_view(cur.0), cur.1, opt_ref_view(cur.2))));
    let res = Ok(cur);
    assert(res matches Ok(x) && spec_resolve_input_ref(*svc, *route, *input) == Ok::<Resolution, Seq<char>>((rref_view(x.0), x.1, opt_ref_view(x.2))));
    res
}

proof fn lemma_resolve_err(svc: Service, route: Route, input: InputRef, i: nat, n: nat)
    requires
        i <= n,
        resolve_upto(svc, route, input, i) is Err,
    ensures
        resolve_upto(svc, route, input, n) == resolve_upto(svc, route, input, i),
    decreases n - i,
{
    if i < n {
        lemma_resolve_err(svc, route, input, i, (n - 1) as nat);
    }
}

// ---------------------------------------------------------------------------
// Calls from other services
// ---------------------------------------------------------------------------

/// A resolved argument: its name, type, optionality and validation.
pub type RArgV = (Seq<char>, RTy, bool, Option<Validation>);

pub open spec fn rarg_eq(a: RArgV, b: RArgV) -> bool {
    a.0 == b.0 && rty_eq(a.1, b.1) && a.2 == b.2 && opt_validation_eq(a.3, b.3)
}

pub open spec fn rargs_eq(a: Seq<RArgV>, b: Seq<RArgV>) -> bool {
    a.len() == b.len() && forall|i: int| 0 <= i < a.len() ==> #[trigger] rarg_eq(a[i], b[i])
}

/// The resolved arguments of the first `n` arguments of a route's call;
/// the error names an unknown schema type.
pub open spec fn spec_call_args(caller: Service, route: Route, n: nat) -> Result<Seq<RArgV>, Seq<char>>
    decreases n,
{
    if n == 0 {
        Ok(Seq::empty())
    } else {
        match spec_call_args(caller, route, (n - 1) as nat) {
            Err(e) => Err(e),
            Ok(v) => {
                let arg = route.call.args@[n - 1];
                match spec_resolve_input_ref(caller, route, arg.value) {
                    Err(e) => Err(e),
                    Ok(res) => Ok(v.push((spec_call_arg_name(arg, (n - 1) as nat), res.0, res.1, res.2))),
                }
            },
        }
    }
}

/// An internal route to generate: module, function, arguments, response
/// type, and whether the call is asynchronous.
pub type EntryV = (Seq<char>, Seq<char>, Seq<RArgV>, Type, bool);

/// The entry for a module function, or -1.
pub open spec fn find_entry(state: Seq<EntryV>, m: Seq<char>, f: Seq<char>, n: int) -> int
    decreases n,
{
    if n <= 0 {
        -1
    } else if state[n - 1].0 == m && state[n - 1].1 == f {
        n - 1
    } else {
        find_entry(state, m, f, n - 1)
    }
}

/// One more call of a module function: a new entry; or, when arguments or
/// response differ from the entry's, the new ones, the call being
/// asynchronous if either was.
pub open spec fn merge_call(state: Seq<EntryV>, m: Seq<char>, f: Seq<char>, args: Seq<RArgV>, resp: Type, is_async: bool) -> Seq<EntryV> {
    let i = find_entry(state, m, f, state.len() as int);
    if i < 0 {
        state.push((m, f, args, resp, is_async))
    } else {
        let e = state[i];
        if !rargs_eq(e.2, args) || !type_eq(e.3, resp) {
            state.update(i, (m, f, args, resp, e.4 || is_async))
        } else {
            state
        }
    }
}

pub open spec fn calls_service(route: Route, target: Service) -> bool {
    match route.call.service {
        Some(t) => t@ == target.name@,
        None => false,
    }
}

/// The last declaration among the first `n` known by `key`, or -1.
pub open spec fn last_key(mods: Seq<ModuleUse>, key: Seq<char>, n: int) -> int
    decreases n,
{
    if n <= 0 {
        -1
    } else if spec_module_key(mods[n - 1]) == key {
        n - 1
    } else {
        last_key(mods, key, n - 1)
    }
}

/// One route of a caller, seen from the target service.
pub open spec fn incoming_route_step(project: Project, target: Service, caller: Service, route: Route, state: Seq<EntryV>) -> Result<Seq<EntryV>, (PrepErrorKind, Seq<Seq<char>>)> {
    if !calls_service(route, target) {
        Ok(state)
    } else {
        let mods = project.common.modules@ + target.common.modules@;
        let k = last_key(mods, route.call.module@, mods.len() as int);
        let names = seq![caller.name@, route.path@, route.call.module@, route.call.function@, target.name@];
        if k < 0 {
            Err((PrepErrorKind::CallerModuleMissing, names))
        } else if mods[k].scope is Compile {
            Err((PrepErrorKind::CallerModuleCompileOnly, names))
        } else {
            match spec_call_args(caller, route, route.call.args@.len()) {
                Err(n) => Err((PrepErrorKind::UnknownType, seq![n])),
                Ok(args) => Ok(merge_call(
                    state,
                    route.call.module@,
                    route.call.function@,
                    args,
                    spec_primary_response(route.responses@).ty,
                    route.call.is_async,
                )),
            }
        }
    }
}

pub open spec fn incoming_routes_stage(project: Project, target: Service, caller: Service, state: Seq<EntryV>, n: nat) -> Result<Seq<EntryV>, (PrepErrorKind, Seq<Seq<char>>)>
    decreases n,
{
    if n == 0 {
        Ok(state)
    } else {
        match incoming_routes_stage(project, target, caller, state, (n - 1) as nat) {
            Err(e) => Err(e),
            Ok(st) => incoming_route_step(project, target, caller, caller.http.routes@[n - 1], st),
        }
    }
}

/// The calls of the first `n` services of the project into `target`.
pub open spec fn incoming_stage(project: Project, target: Service, n: nat) -> Result<Seq<EntryV>, (PrepErrorKind, Seq<Seq<char>>)>
    decreases n,
{
    if n == 0 {
        Ok(Seq::empty())
    } else {
        match incoming_stage(project, target, (n - 1) as nat) {
            Err(e) => Err(e),
            Ok(st) => {
                let caller = project.services@[n - 1];
                incoming_routes_stage(project, target, caller, st, caller.http.routes@.len())
            },
        }
    }
}

/// The target declares the module a route calls, and not as compile-only.
pub open spec fn target_module_usable(project: Project, target: Service, route: Route) -> bool {
    let mods = project.common.modules@ + target.common.modules@;
    let k = last_key(mods, route.call.module@, mods.len() as int);
    k >= 0 && !(mods[k].scope is Compile)
}

/// Collecting the calls into `target` reads the response of the `r`-th
/// route of the `c`-th service: the route calls the target, no earlier
/// route gave an error, and the module it calls passes the checks.
pub open spec fn reads_response(project: Project, target: Service, c: int, r: int) -> bool {
    let caller = project.services@[c];
    let route = caller.http.routes@[r];
    &&& calls_service(route, target)
    &&& target_module_usable(project, target, route)
    &&& match incoming_stage(project, target, c as nat) {
        Ok(st) => incoming_routes_stage(project, target, caller, st, r as nat) is Ok,
        Err(_) => false,
    }
}

/// Every route whose response collecting the calls into `target` reads
/// has one.
pub open spec fn callers_respond(project: Project, target: Service) -> bool {
    forall|c: int, r: int|
        0 <= c < project.services@.len() && 0 <= r < project.services@[c].http.routes@.len()
            && reads_response(project, target, c, r)
            ==> (#[trigger] project.services@[c].http.routes@[r]).responses@.len() > 0
}

/// The internal route generated for an entry: `POST /__call/<module>/<fn>`
/// taking the arguments as body fields and passing them on by name.
pub open spec fn internal_route_matches(r: Route, e: EntryV) -> bool {
    &&& r.method is Post
    &&& r.path@ == "/__call/"@ + e.0 + "/"@ + e.1
    &&& r.input.path@.len() == 0
    &&& r.input.query@.len() == 0
    &&& r.headers@.len() == 0
    &&& r.input.body@.len() == e.2.len()
    &&& forall|k: int| 0 <= k < e.2.len() ==> {
        let f = #[trigger] r.input.body@[k];
        &&& f.name@ == e.2[k].0
        &&& rty_match(f.ty, e.2[k].1)
        &&& f.optional == e.2[k].2
        &&& opt_validation_eq(f.validation, e.2[k].3)
    }
    &&& r.responses@.len() == 1
    &&& r.responses@[0].status == 200
    &&& type_eq(r.responses@[0].ty, e.3)
    &&& r.auth is None
    &&& r.middleware@.len() == 0
    &&& r.rate_limit is None
    &&& !r.healthcheck
    &&& r.internal
    &&& r.call.service is None
    &&& r.call.service_base is None
    &&& r.call.module@ == e.0
    &&& r.call.function@ == e.1
    &&& r.call.is_async == e.4
    &&& r.call.args@.len() == e.2.len()
    &&& forall|k: int| 0 <= k < e.2.len() ==> {
        let a = #[trigger] r.call.args@[k];
        &&& a.name matches Some(n) && n@ == spec_call_arg_name_from_field(r.input.body@[k], k as nat)
        &&& a.value.source is Body
        &&& a.value.path@.len() == 1
        &&& a.value.path@[0]@ == e.2[k].0
    }
}

pub struct RArg<'a> {
    pub name: String,
    pub ty: RRef<'a>,
    pub optional: bool,
    pub validation: Option<&'a Validation>,
}

pub open spec fn rarg_view(a: RArg) -> RArgV {
    (a.name@, rref_view(a.ty), a.optional, opt_ref_view(a.validation))
}

pub open spec fn rarg_views(v: Seq<RArg>) -> Seq<RArgV> {
    v.map_values(|a: RArg| rarg_view(a))
}

pub struct Entry<'a> {
    pub module: String,
    pub function: String,
    pub args: Vec<RArg<'a>>,
    pub response: &'a Type,
    pub is_async: bool,
}

pub open spec fn entry_view(e: Entry) -> EntryV {
    (e.module@, e.function@, rarg_views(e.args@), *e.response, e.is_async)
}

pub open spec fn entry_views(v: Seq<Entry>) -> Seq<EntryV> {
    v.map_values(|e: Entry| entry_view(e))
}

fn rref_equal(a: &RRef, b: &RRef) -> (r: bool)
    ensures
        r == rty_eq(rref_view(*a), rref_view(*b)),
{
    let any = Type::Any;
    let none: Vec<Field> = Vec::new();
    assert(none@ =~= Seq::<Field>::empty());
    match (a, b) {
        (RRef::Ty(x), RRef::Ty(y)) => type_equal(x, y),
        (RRef::Ty(x), RRef::AnyTy) => type_equal(x, &any),
        (RRef::AnyTy, RRef::Ty(y)) => type_equal(&any, y),
        (RRef::AnyTy, RRef::AnyTy) => true,
        (RRef::Fields(xs), RRef::Fields(ys)) => field_lists_equal(xs, ys),
        (RRef::Fields(xs), RRef::NoFields) => field_lists_equal(xs, &none),
        (RRef::NoFields, RRef::Fields(ys)) => field_lists_equal(&none, ys),
        (RRef::NoFields, RRef::NoFields) => true,
        (RRef::Ty(x), RRef::Fields(ys)) => match x {
            Type::Object(v) => field_lists_equal(v, ys),
            _ => false,
        },
        (RRef::Ty(x), RRef::NoFields) => match x {
            Type::Object(v) => field_lists_equal(v, &none),
            _ => false,
        },
        (RRef::Fields(xs), RRef::Ty(y)) => match y {
            Type::Object(v) => field_lists_equal(xs, v),
            _ => false,
        },
        (RRef::NoFields, RRef::Ty(y)) => match y {
            Type::Object(v) => field_lists_equal(&none, v),
            _ => false,
        },
        (RRef::AnyTy, _) => false,
        (_, RRef::AnyTy) => false,
    }
}

fn opt_ref_validation_equal(a: Option<&Validation>, b: Option<&Validation>) -> (r: bool)
    ensures
        r == opt_validation_eq(opt_ref_view(a), opt_ref_view(b)),
{
    match (a, b) {
        (Some(x), Some(y)) => crate::deep::validation_equal(x, y),
        (None, None) => true,
        _ => false,
    }
}

fn rargs_equal(a: &Vec<RArg>, b: &Vec<RArg>) -> (r: bool)
    ensures
        r == rargs_eq(rarg_views(a@), rarg_views(b@)),
{
    if a.len() != b.len() {
        return false;
    }
    let ghost av = rarg_views(a@);
    let ghost bv = rarg_views(b@);
    let mut i: usize = 0;
    while i < a.len()
        invariant
            0 <= i <= a@.len() == b@.len(),
            av == rarg_views(a@),
            bv == rarg_views(b@),
            forall|j: int| 0 <= j < i ==> #[trigger] rarg_eq(av[j], bv[j]),
        decreases a@.len() - i,
    {
        assert(av[i as int] == rarg_view(a@[i as int]));
        assert(bv[i as int] == rarg_view(b@[i as int]));
        let x = &a[i];
        let y = &b[i];
        if !(str_eq(x.name.as_str(), y.name.as_str()) && rref_equal(&x.ty, &y.ty) && x.optional
            == y.optional && opt_ref_validation_equal(x.validation, y.validation)) {
            assert(!rarg_eq(av[i as int], bv[i as int]));
            return false;
        }
        i += 1;
    }
    true
}

fn call_args<'a>(caller: &'a Service, route: &'a Route) -> (r: Result<Vec<RArg<'a>>, PrepError>)
    ensures
        match r {
            Ok(v) => spec_call_args(*caller, *route, route.call.args@.len()) == Ok::<Seq<RArgV>, Seq<char>>(rarg_views(v@)),
            Err(e) => spec_call_args(*caller, *route, route.call.args@.len()) matches Err(n)
                && err_view(e) == (PrepErrorKind::UnknownType, seq![n])
                && e.args@.len() == arg_count(e.kind),
        },
{
    let args = &route.call.args;
    let mut out: Vec<RArg<'a>> = Vec::new();
    assert(rarg_views(out@) =~= Seq::<RArgV>::empty());
    let mut i: usize = 0;
    while i < args.len()
        invariant
            0 <= i <= args@.len(),
            args@ == route.call.args@,
            spec_call_args(*caller, *route, i as nat) == Ok::<Seq<RArgV>, Seq<char>>(rarg_views(out@)),
        decreases args@.len() - i,
    {
        let arg = &args[i];
        match resolve_input_ref(caller, route, &arg.value) {
            Err(e) => {
                proof {
                    lemma_call_args_err(*caller, *route, (i + 1) as nat, args@.len());
                }
                return Err(e);
            },
            Ok((t, o, v)) => {
                let name = call_arg_name(arg, i);
                let ghost before = rarg_views(out@);
                let a = RArg { name, ty: t, optional: o, validation: v };
                let ghost av = rarg_view(a);
                out.push(a);
                assert(rarg_views(out@) =~= before.push(av));
            },
        }
        i += 1;
    }
    Ok(out)
}

proof fn lemma_call_args_err(caller: Service, route: Route, i: nat, n: nat)
    requires
        i <= n,
        spec_call_args(caller, route, i) is Err,
    ensures
        spec_call_args(caller, route, n) == spec_call_args(caller, route, i),
    decreases n - i,
{
    if i < n {
        lemma_call_args_err(caller, route, i, (n - 1) as nat);
    }
}

proof fn lemma_find_entry_range(state: Seq<EntryV>, m: Seq<char>, f: Seq<char>, n: int)
    requires
        n <= state.len(),
    ensures
        -1 <= find_entry(state, m, f, n) < n || (n <= 0 && find_entry(state, m, f, n) == -1),
        find_entry(state, m, f, n) >= 0 ==> state[find_entry(state, m, f, n)].0 == m
            && state[find_entry(state, m, f, n)].1 == f,
    decreases n,
{
    if n > 0 && !(state[n - 1].0 == m && state[n - 1].1 == f) {
        lemma_find_entry_range(state, m, f, n - 1);
    }
}

fn merge_entry<'a>(entries: &mut Vec<Entry<'a>>, m: &String, f: &String, args: Vec<RArg<'a>>, resp: &'a Type, is_async: bool)
    ensures
        entry_views(final(entries)@) == merge_call(entry_views(old(entries)@), m@, f@, rarg_views(args@), *resp, is_async),
{
    let ghost st = entry_views(entries@);
    proof {
        lemma_find_entry_range(st, m@, f@, st.len() as int);
    }
    let mut i: usize = entries.len();
    while i > 0
        invariant
            i <= entries@.len(),
            st == entry_views(entries@),
            find_entry(st, m@, f@, st.len() as int) == find_entry(st, m@, f@, i as int),
        ensures
            i <= entries@.len(),
            find_entry(st, m@, f@, st.len() as int) == find_entry(st, m@, f@, i as int),
            i == 0 || (st[i - 1].0 == m@ && st[i - 1].1 == f@),
        decreases i,
    {
        assert(st[i - 1] == entry_view(entries@[i - 1]));
        if str_eq(entries[i - 1].module.as_str(), m.as_str()) && str_eq(entries[i - 1].function.as_str(), f.as_str()) {
            break;
        }
        i -= 1;
    }
    if i == 0 {
        let e = Entry { module: m.clone(), function: f.clone(), args, response: resp, is_async };
        let ghost ev = entry_view(e);
        entries.push(e);
        assert(entry_views(entries@) =~= st.push(ev));
        return;
    }
    let k = i - 1;
    assert(st[k as int] == entry_view(entries@[k as int]));
    let same = rargs_equal(&entries[k].args, &args) && type_equal(entries[k].response, resp);
    if !same {
        let old_entry = entries.remove(k);
        let e = Entry {
            module: m.clone(),
            function: f.clone(),
            args,
            response: resp,
            is_async: old_entry.is_async || is_async,
        };
        let ghost ev = entry_view(e);
        entries.insert(k, e);
        assert(entry_views(entries@) =~= st.update(k as int, ev));
    }
}

fn calls_service_exec(route: &Route, target: &Service) -> (r: bool)
    ensures
        r == calls_service(*route, *target),
{
    match &route.call.service {
        Some(t) => str_eq(t.as_str(), target.name.as_str()),
        None => false,
    }
}

fn target_module_scope(project: &Project, target: &Service, key: &str) -> (r: Option<UseScope>)
    ensures
        ({
            let mods = project.common.modules@ + target.common.modules@;
            let k = last_key(mods, key@, mods.len() as int);
            match r {
                Some(s) => k >= 0 && mods[k].scope == s,
                None => k < 0,
            }
        }),
{
    let ghost mods = project.common.modules@ + target.common.modules@;
    let a = &project.common.modules;
    let b = &target.common.modules;
    let mut j: usize = b.len();
    while j > 0
        invariant
            j <= b@.len(),
            mods == a@ + b@,
            a@ == project.common.modules@,
            b@ == target.common.modules@,
            last_key(mods, key@, mods.len() as int) == last_key(mods, key@, a@.len() + j),
        decreases j,
    {
        assert(mods[a@.len() + j - 1] == b@[j - 1]);
        if str_eq(b[j - 1].key().as_str(), key) {
            return Some(b[j - 1].scope);
        }
        j -= 1;
    }
    let mut i: usize = a.len();
    while i > 0
        invariant
            i <= a@.len(),
            mods == a@ + b@,
            a@ == project.common.modules@,
            b@ == target.common.modules@,
            last_key(mods, key@, mods.len() as int) == last_key(mods, key@, i as int),
        decreases i,
    {
        assert(mods[i - 1] == a@[i - 1]);
        if str_eq(a[i - 1].key().as_str(), key) {
            return Some(a[i - 1].scope);
        }
        i -= 1;
    }
    None
}

proof fn lemma_incoming_routes_err(project: Project, target: Service, caller: Service, state: Seq<EntryV>, i: nat, n: nat)
    requires
        i <= n,
        incoming_routes_stage(project, target, caller, state, i) is Err,
    ensures
        incoming_routes_stage(project, target, caller, state, n) == incoming_routes_stage(project, target, caller, state, i),
    decreases n - i,
{
    if i < n {
        lemma_incoming_routes_err(project, target, caller, state, i, (n - 1) as nat);
    }
}

proof fn lemma_incoming_err(project: Project, target: Service, i: nat, n: nat)
    requires
        i <= n,
        incoming_stage(project, target, i) is Err,
    ensures
        incoming_stage(project, target, n) == incoming_stage(project, target, i),
    decreases n - i,
{
    if i < n {
        lemma_incoming_err(project, target, i, (n - 1) as nat);
    }
}

/// Every route of `caller` whose response collecting the calls into
/// `target` reads, starting from `start`, has one.
pub open spec fn caller_answered(project: Project, target: Service, caller: Service, start: Seq<EntryV>) -> bool {
    forall|r: int|
        0 <= r < caller.http.routes@.len() && calls_service(#[trigger] caller.http.routes@[r], target)
            && target_module_usable(project, target, caller.http.routes@[r])
            && incoming_routes_stage(project, target, caller, start, r as nat) is Ok
            ==> caller.http.routes@[r].responses@.len() > 0
}

/// How gathering the calls into a service ended: with a value, with an
/// error, or at a route whose response is read but that has none.
enum Gathered<T> {
    Done(T),
    Failed(PrepError),
    Unanswered,
}

proof fn lemma_routes_after_error(project: Project, target: Service, caller: Service, start: Seq<EntryV>, i: nat)
    requires
        incoming_routes_stage(project, target, caller, start, i) is Err,
    ensures
        forall|r: int| r >= i ==> #[trigger] incoming_routes_stage(project, target, caller, start, r as nat) is Err,
{
    assert forall|r: int| r >= i implies #[trigger] incoming_routes_stage(project, target, caller, start, r as nat) is Err by {
        lemma_incoming_routes_err(project, target, caller, start, i, r as nat);
    }
}

fn incoming_from_caller<'a>(project: &'a Project, target: &'a Service, caller: &'a Service, entries: &mut Vec<Entry<'a>>) -> (r: Gathered<()>)
    ensures
        r is Done ==> incoming_routes_stage(*project, *target, *caller, entry_views(old(entries)@), caller.http.routes@.len())
            == Ok::<Seq<EntryV>, (PrepErrorKind, Seq<Seq<char>>)>(entry_views(final(entries)@))
            && caller_answered(*project, *target, *caller, entry_views(old(entries)@)),
        r matches Gathered::Failed(e) ==> incoming_routes_stage(*project, *target, *caller, entry_views(old(entries)@), caller.http.routes@.len())
            == Err::<Seq<EntryV>, (PrepErrorKind, Seq<Seq<char>>)>(err_view(e))
            && e.args@.len() == arg_count(e.kind)
            && caller_answered(*project, *target, *caller, entry_views(old(entries)@)),
        r is Unanswered ==> !caller_answered(*project, *target, *caller, entry_views(old(entries)@)),
{
    let ghost start = entry_views(entries@);
    let routes = &caller.http.routes;
    let mut i: usize = 0;
    while i < routes.len()
        invariant
            0 <= i <= routes@.len(),
            routes@ == caller.http.routes@,
            start == entry_views(old(entries)@),
            forall|r: int|
                0 <= r < i && calls_service(#[trigger] caller.http.routes@[r], *target)
                    && target_module_usable(*project, *target, caller.http.routes@[r])
                    && incoming_routes_stage(*project, *target, *caller, start, r as nat) is Ok
                    ==> caller.http.routes@[r].responses@.len() > 0,
            incoming_routes_stage(*project, *target, *caller, start, i as nat)
                == Ok::<Seq<EntryV>, (PrepErrorKind, Seq<Seq<char>>)>(entry_views(entries@)),
        decreases routes@.len() - i,
    {
        let route = &routes[i];
        if calls_service_exec(route, target) {
            match target_module_scope(project, target, route.call.module.as_str()) {
                None => {
                    let e = err5(PrepErrorKind::CallerModuleMissing, &caller.name, &route.path, &route.call.module, &route.call.function, &target.name);
                    proof {
                        lemma_incoming_routes_err(*project, *target, *caller, start, (i + 1) as nat, routes@.len());
                        lemma_routes_after_error(*project, *target, *caller, start, (i + 1) as nat);
                    }
                    return Gathered::Failed(e);
                },
                Some(UseScope::Compile) => {
                    let e = err5(PrepErrorKind::CallerModuleCompileOnly, &caller.name, &route.path, &route.call.module, &route.call.function, &target.name);
                    proof {
                        lemma_incoming_routes_err(*project, *target, *caller, start, (i + 1) as nat, routes@.len());
                        lemma_routes_after_error(*project, *target, *caller, start, (i + 1) as nat);
                    }
                    return Gathered::Failed(e);
                },
                Some(_) => {},
            }
            if route.responses.len() == 0 {
                assert(caller.http.routes@[i as int] == *route);
                return Gathered::Unanswered;
            }
            match call_args(caller, route) {
                Err(e) => {
                    proof {
                        lemma_incoming_routes_err(*project, *target, *caller, start, (i + 1) as nat, routes@.len());
                        lemma_routes_after_error(*project, *target, *caller, start, (i + 1) as nat);
                    }
                    return Gathered::Failed(e);
                },
                Ok(args) => {
                    let resp = primary_response(route);
                    merge_entry(entries, &route.call.module, &route.call.function, args, &resp.ty, route.call.is_async);
                },
            }
        }
        i += 1;
    }
    Gathered::Done(())
}

/// The calls other services of the project make into `target`: one entry
/// per module function, in order of first call; or the first error.
pub open spec fn spec_collect_incoming(project: Project, target: Service) -> Result<Seq<EntryV>, (PrepErrorKind, Seq<Seq<char>>)> {
    incoming_stage(project, target, project.services@.len())
}

proof fn lemma_services_after_error(project: Project, target: Service, c: nat)
    requires
        incoming_stage(project, target, c) is Err,
    ensures
        forall|d: int| d >= c ==> #[trigger] incoming_stage(project, target, d as nat) is Err,
{
    assert forall|d: int| d >= c implies #[trigger] incoming_stage(project, target, d as nat) is Err by {
        lemma_incoming_err(project, target, c, d as nat);
    }
}

fn collect_entries<'a>(project: &'a Project, target: &'a Service) -> (r: Gathered<Vec<Entry<'a>>>)
    ensures
        r matches Gathered::Done(v) ==> spec_collect_incoming(*project, *target) == Ok::<Seq<EntryV>, (PrepErrorKind, Seq<Seq<char>>)>(entry_views(v@))
            && callers_respond(*project, *target),
        r matches Gathered::Failed(e) ==> spec_collect_incoming(*project, *target) == Err::<Seq<EntryV>, (PrepErrorKind, Seq<Seq<char>>)>(err_view(e))
            && e.args@.len() == arg_count(e.kind)
            && callers_respond(*project, *target),
        r is Unanswered ==> !callers_respond(*project, *target),
{
    let mut entries: Vec<Entry<'a>> = Vec::new();
    assert(entry_views(entries@) =~= Seq::<EntryV>::empty());
    let services = &project.services;
    let mut c: usize = 0;
    while c < services.len()
        invariant
            0 <= c <= services@.len(),
            services@ == project.services@,
            incoming_stage(*project, *target, c as nat) == Ok::<Seq<EntryV>, (PrepErrorKind, Seq<Seq<char>>)>(entry_views(entries@)),
            forall|d: int, r: int|
                0 <= d < c && 0 <= r < project.services@[d].http.routes@.len()
                    && reads_response(*project, *target, d, r)
                    ==> (#[trigger] project.services@[d].http.routes@[r]).responses@.len() > 0,
        decreases services@.len() - c,
    {
        let caller = &services[c];
        let ghost start = entry_views(entries@);
        assert(project.services@[c as int] == *caller);
        match incoming_from_caller(project, target, caller, &mut entries) {
            Gathered::Failed(e) => {
                proof {
                    lemma_incoming_err(*project, *target, (c + 1) as nat, services@.len());
                    lemma_services_after_error(*project, *target, (c + 1) as nat);
                    assert forall|d: int, r: int|
                        0 <= d < project.services@.len() && 0 <= r < project.services@[d].http.routes@.len()
                            && reads_response(*project, *target, d, r)
                        implies (#[trigger] project.services@[d].http.routes@[r]).responses@.len() > 0 by {
                        if d == c {
                            assert(caller.http.routes@[r] == project.services@[d].http.routes@[r]);
                        }
                    }
                }
                return Gathered::Failed(e);
            },
            Gathered::Unanswered => {
                proof {
                    let r = choose|r: int|
                        !(0 <= r < caller.http.routes@.len() && calls_service(#[trigger] caller.http.routes@[r], *target)
                            && target_module_usable(*project, *target, caller.http.routes@[r])
                            && incoming_routes_stage(*project, *target, *caller, start, r as nat) is Ok
                            ==> caller.http.routes@[r].responses@.len() > 0);
                    assert(reads_response(*project, *target, c as int, r));
                    assert(project.services@[c as int].http.routes@[r] == caller.http.routes@[r]);
                }
                return Gathered::Unanswered;
            },
            Gathered::Done(_) => {
                proof {
                    assert forall|d: int, r: int|
                        0 <= d < c + 1 && 0 <= r < project.services@[d].http.routes@.len()
                            && reads_response(*project, *target, d, r)
                        implies (#[trigger] project.services@[d].http.routes@[r]).responses@.len() > 0 by {
                        if d == c {
                            assert(caller.http.routes@[r] == project.services@[d].http.routes@[r]);
                        }
                    }
                }
            },
        }
        c += 1;
    }
    Gathered::Done(entries)
}

fn materialize(t: &RRef) -> (r: Type)
    ensures
        rty_match(r, rref_view(*t)),
{
    match t {
        RRef::Ty(x) => copy_type(x),
        RRef::Fields(v) => Type::Object(copy_fields(v)),
        RRef::AnyTy => Type::Any,
        RRef::NoFields => {
            let v: Vec<Field> = Vec::new();
            assert(crate::deep::fields_eq(v@, Seq::<Field>::empty(), 0));
            Type::Object(v)
        },
    }
}

fn build_internal_route(e: &Entry) -> (r: Route)
    ensures
        internal_route_matches(r, entry_view(*e)),
{
    let ghost ev = entry_view(*e);
    let mut path = String::from_str("/__call/");
    path.append(e.module.as_str());
    path.append("/");
    path.append(e.function.as_str());
    let mut body: Vec<Field> = Vec::new();
    let mut args: Vec<CallArg> = Vec::new();
    let mut k: usize = 0;
    while k < e.args.len()
        invariant
            0 <= k <= e.args@.len(),
            ev == entry_view(*e),
            body@.len() == k,
            args@.len() == k,
            forall|j: int| 0 <= j < k ==> {
                let f = #[trigger] body@[j];
                &&& f.name@ == ev.2[j].0
                &&& rty_match(f.ty, ev.2[j].1)
                &&& f.optional == ev.2[j].2
                &&& opt_validation_eq(f.validation, ev.2[j].3)
            },
            forall|j: int| 0 <= j < k ==> {
                let a = #[trigger] args@[j];
                &&& a.name matches Some(n) && n@ == spec_call_arg_name_from_field(body@[j], j as nat)
                &&& a.value.source is Body
                &&& a.value.path@.len() == 1
                &&& a.value.path@[0]@ == ev.2[j].0
            },
        decreases e.args@.len() - k,
    {
        let a = &e.args[k];
        assert(ev.2[k as int] == rarg_view(e.args@[k as int]));
        let field = Field {
            name: a.name.clone(),
            ty: materialize(&a.ty),
            optional: a.optional,
            validation: match a.validation {
                Some(v) => Some(crate::deep::copy_validation(v)),
                None => None,
            },
        };
        let arg_name = call_arg_name_from_field(&field, k);
        let mut segs: Vec<String> = Vec::new();
        segs.push(a.name.clone());
        let arg = CallArg {
            name: Some(arg_name),
            value: InputRef { source: InputSource::Body, path: segs },
        };
        body.push(field);
        args.push(arg);
        k += 1;
    }
    let mut responses: Vec<ResponseSpec> = Vec::new();
    responses.push(ResponseSpec { status: 200, ty: copy_type(e.response) });
    Route {
        method: HttpMethod::Post,
        path,
        input: Input { path: Vec::new(), query: Vec::new(), body },
        headers: Vec::new(),
        responses,
        auth: None,
        middleware: Vec::new(),
        rate_limit: None,
        healthcheck: false,
        call: CallSpec {
            service: None,
            service_base: None,
            module: e.module.clone(),
            function: e.function.clone(),
            args,
            is_async: e.is_async,
        },
        internal: true,
    }
}

/// `collect_incoming_calls`: the internal routes `target` must serve for
/// the calls other services make into it, one per module function (in
/// order of first call), or the first error.
pub fn collect_incoming_calls(target: &Service, project: &Project) -> (r: Result<Vec<Route>, PrepError>)
    requires
        callers_respond(*project, *target),
    ensures
        match r {
            Ok(routes) => spec_collect_incoming(*project, *target) matches Ok(entries)
                && routes@.len() == entries.len()
                && forall|k: int| 0 <= k < entries.len() ==> internal_route_matches(#[trigger] routes@[k], entries[k]),
            Err(e) => spec_collect_incoming(*project, *target) == Err::<Seq<EntryV>, (PrepErrorKind, Seq<Seq<char>>)>(err_view(e))
                && e.args@.len() == arg_count(e.kind),
        },
{
    match collect_entries(project, target) {
        Gathered::Done(entries) => Ok(internal_routes(&entries)),
        Gathered::Failed(e) => Err(e),
        Gathered::Unanswered => {
            // Ruled out by the requirement: every response read exists.
            assert(false);
            Err(PrepError { kind: PrepErrorKind::UnknownType, args: Vec::new() })
        },
    }
}

/// `collect_incoming_calls` where it applies: nothing when a route whose
/// response is read declares none, else what `collect_incoming_calls`
/// returns.
pub fn try_collect_incoming_calls(target: &Service, project: &Project) -> (r: Option<Result<Vec<Route>, PrepError>>)
    ensures
        r is None <==> !callers_respond(*project, *target),
        r matches Some(Ok(routes)) ==> spec_collect_incoming(*project, *target) matches Ok(entries)
            && routes@.len() == entries.len()
            && forall|k: int| 0 <= k < entries.len() ==> internal_route_matches(#[trigger] routes@[k], entries[k]),
        r matches Some(Err(e)) ==> spec_collect_incoming(*project, *target) == Err::<Seq<EntryV>, (PrepErrorKind, Seq<Seq<char>>)>(err_view(e))
            && e.args@.len() == arg_count(e.kind),
{
    match collect_entries(project, target) {
        Gathered::Done(entries) => Some(Ok(internal_routes(&entries))),
        Gathered::Failed(e) => Some(Err(e)),
        Gathered::Unanswered => None,
    }
}

fn internal_routes(entries: &Vec<Entry>) -> (routes: Vec<Route>)
    ensures
        routes@.len() == entries@.len(),
        forall|k: int| 0 <= k < entries@.len() ==> internal_route_matches(#[trigger] routes@[k], entry_views(entries@)[k]),
{
    let ghost ev = entry_views(entries@);
    let mut routes: Vec<Route> = Vec::new();
    let mut k: usize = 0;
    while k < entries.len()
        invariant
            0 <= k <= entries@.len(),
            ev == entry_views(entries@),
            routes@.len() == k,
            forall|j: int| 0 <= j < k ==> internal_route_matches(#[trigger] routes@[j], ev[j]),
        decreases entries@.len() - k,
    {
        let r = build_internal_route(&entries[k]);
        assert(ev[k as int] == entry_view(entries@[k as int]));
        routes.push(r);
        k += 1;
    }
    routes
}

} // verus!
