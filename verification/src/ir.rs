//! The intermediate representation of a parsed `.ns` project: services,
//! their HTTP routes, RPC methods, sockets, events and schema types.

use vstd::prelude::*;

use crate::text::{dec_nat, u64_to_string};

verus! {

#[derive(Clone, Copy, Debug)]
pub enum Lang {
    Rust,
    TypeScript,
    Go,
}

#[derive(Clone, Copy, Debug)]
pub enum HttpMethod {
    Get,
    Post,
    Put,
    Patch,
    Delete,
    Options,
    Head,
}

#[derive(Clone, Copy, Debug)]
pub enum AuthSpec {
    NoAuth,
    Bearer,
    ApiKey,
}

#[derive(Clone, Copy, Debug)]
pub enum UseScope {
    Runtime,
    Compile,
    Both,
}

#[derive(Clone, Copy, Debug)]
pub enum EventsBroker {
    Redis,
}

#[derive(Clone, Copy, Debug)]
pub enum InputSource {
    Path,
    Query,
    Body,
    Headers,
    Input,
}

/// A (possibly versioned) name of a schema type, event or socket.
#[derive(Debug)]
pub struct TypeName {
    pub name: String,
    pub version: Option<u32>,
}

#[derive(Debug)]
pub struct Validation {
    pub min: Option<i64>,
    pub max: Option<i64>,
    pub min_len: Option<i64>,
    pub max_len: Option<i64>,
    pub min_items: Option<i64>,
    pub max_items: Option<i64>,
    pub regex: Option<String>,
    pub format: Option<String>,
    pub constraints: Vec<(String, String)>,
}

#[derive(Debug)]
pub struct Field {
    pub name: String,
    pub ty: Type,
    pub optional: bool,
    pub validation: Option<Validation>,
}

#[derive(Debug)]
pub enum Type {
    String,
    Int,
    Float,
    Bool,
    Void,
    Any,
    Named(TypeName),
    Array(Box<Type>),
    MapOf(Box<Type>),
    Union(Vec<Type>),
    OneOf(Vec<Type>),
    Nullable(Box<Type>),
    Object(Vec<Field>),
}

#[derive(Clone, Copy, Debug)]
pub struct RateLimit {
    pub max: u32,
    pub per_seconds: u64,
}

#[derive(Debug)]
pub struct ModuleUse {
    pub name: String,
    pub path: Option<String>,
    pub version: Option<String>,
    pub alias: Option<String>,
    pub scope: UseScope,
}

#[derive(Debug)]
pub struct EnvVar {
    pub name: String,
    pub default: Option<String>,
}

#[derive(Debug)]
pub struct CorsConfig {
    pub allow_any: bool,
    pub origins: Vec<String>,
    pub methods: Vec<String>,
    pub headers: Vec<String>,
}

/// Settings shared by every service of a project.
#[derive(Debug)]
pub struct ProjectCommon {
    pub default_version: Option<u32>,
    pub output: Option<String>,
    pub auth: Option<AuthSpec>,
    pub middleware: Vec<String>,
    pub modules: Vec<ModuleUse>,
}

/// Settings of one service.
#[derive(Debug)]
pub struct ServiceCommon {
    pub address: Option<String>,
    pub port: Option<u16>,
    pub base_url: Option<String>,
    pub cors: Option<CorsConfig>,
    pub modules: Vec<ModuleUse>,
    pub env: Vec<EnvVar>,
    pub auth: Option<AuthSpec>,
    pub middleware: Vec<String>,
    pub rate_limit: Option<RateLimit>,
}

#[derive(Debug)]
pub struct InputRef {
    pub source: InputSource,
    pub path: Vec<String>,
}

#[derive(Debug)]
pub struct CallArg {
    pub name: Option<String>,
    pub value: InputRef,
}

#[derive(Debug)]
pub struct CallSpec {
    pub service: Option<String>,
    pub service_base: Option<String>,
    pub module: String,
    pub function: String,
    pub args: Vec<CallArg>,
    pub is_async: bool,
}

#[derive(Debug)]
pub struct ResponseSpec {
    pub status: u16,
    pub ty: Type,
}

#[derive(Debug)]
pub struct Input {
    pub path: Vec<Field>,
    pub query: Vec<Field>,
    pub body: Vec<Field>,
}

#[derive(Debug)]
pub struct Route {
    pub method: HttpMethod,
    pub path: String,
    pub input: Input,
    pub headers: Vec<Field>,
    pub responses: Vec<ResponseSpec>,
    pub auth: Option<AuthSpec>,
    pub middleware: Vec<String>,
    pub rate_limit: Option<RateLimit>,
    pub healthcheck: bool,
    pub call: CallSpec,
    /// Set on the routes generated for calls from other services.
    pub internal: bool,
}

#[derive(Debug)]
pub struct HttpSection {
    pub headers: Vec<Field>,
    pub routes: Vec<Route>,
}

#[derive(Debug)]
pub struct TypeDef {
    pub name: TypeName,
    pub fields: Vec<Field>,
}

#[derive(Debug)]
pub struct EnumVariant {
    pub name: String,
    pub value: Option<i64>,
}

#[derive(Debug)]
pub struct EnumDef {
    pub name: TypeName,
    pub variants: Vec<EnumVariant>,
}

#[derive(Debug)]
pub struct Schema {
    pub types: Vec<TypeDef>,
    pub enums: Vec<EnumDef>,
}

#[derive(Debug)]
pub struct EventDef {
    pub name: TypeName,
    pub payload: Type,
}

#[derive(Debug)]
pub struct EventsConfig {
    pub broker: EventsBroker,
    pub url: Option<String>,
    pub stream_prefix: Option<String>,
    pub group: Option<String>,
    pub consumer: Option<String>,
}

#[derive(Debug)]
pub struct EventsSection {
    pub config: Option<EventsConfig>,
    pub emits: Vec<TypeName>,
    pub subscribes: Vec<TypeName>,
    pub definitions: Vec<EventDef>,
}

#[derive(Debug)]
pub struct GrpcConfig {
    pub address: Option<String>,
    pub port: Option<u16>,
    pub max_message_size: Option<u64>,
    pub tls_cert: Option<String>,
    pub tls_key: Option<String>,
}

#[derive(Debug)]
pub struct RpcDef {
    pub service: String,
    pub name: String,
    pub version: Option<u32>,
    pub modules: Vec<ModuleUse>,
    pub input: Vec<Field>,
    pub headers: Vec<Field>,
    pub output: Type,
    pub auth: Option<AuthSpec>,
    pub middleware: Vec<String>,
    pub rate_limit: Option<RateLimit>,
    pub call: CallSpec,
}

#[derive(Debug)]
pub struct RpcSection {
    pub grpc_config: Option<GrpcConfig>,
    pub methods: Vec<RpcDef>,
}

#[derive(Debug)]
pub struct SocketTrigger {
    pub name: TypeName,
    pub room: Option<String>,
    pub payload: Type,
}

#[derive(Debug)]
pub struct SocketMessage {
    pub name: TypeName,
    pub handler: CallSpec,
}

#[derive(Debug)]
pub struct SocketDef {
    pub name: TypeName,
    pub path: String,
    pub rooms: Vec<String>,
    pub triggers: Vec<SocketTrigger>,
    pub modules: Vec<ModuleUse>,
    pub auth: Option<AuthSpec>,
    pub middleware: Vec<String>,
    pub rate_limit: Option<RateLimit>,
    pub headers: Vec<Field>,
    pub inbound: Vec<SocketMessage>,
    pub outbound: Vec<SocketMessage>,
}

#[derive(Debug)]
pub struct SocketsSection {
    pub sockets: Vec<SocketDef>,
}

#[derive(Debug)]
pub struct Service {
    pub name: String,
    pub language: Option<Lang>,
    pub common: ServiceCommon,
    pub http: HttpSection,
    pub rpc: RpcSection,
    pub events: EventsSection,
    pub schema: Schema,
    pub sockets: SocketsSection,
}

#[derive(Debug)]
pub struct Project {
    pub common: ProjectCommon,
    pub services: Vec<Service>,
}

// ---------------------------------------------------------------------------
// Names
// ---------------------------------------------------------------------------

/// `name`, or `name@version` for a versioned name: how the DSL writes it.
pub open spec fn spec_display(n: TypeName) -> Seq<char> {
    match n.version {
        Some(v) => n.name@ + "@"@ + dec_nat(v as nat),
        None => n.name@,
    }
}

/// `name`, or `nameV<version>`: the identifier used in generated code.
pub open spec fn spec_code_name(n: TypeName) -> Seq<char> {
    match n.version {
        Some(v) => n.name@ + "V"@ + dec_nat(v as nat),
        None => n.name@,
    }
}

impl TypeName {
    pub fn display(&self) -> (r: String)
        ensures
            r@ == spec_display(*self),
    {
        let mut out = self.name.clone();
        if let Some(v) = self.version {
            out.append("@");
            let d = u64_to_string(v as u64);
            out.append(d.as_str());
        }
        out
    }

    pub fn code_name(&self) -> (r: String)
        ensures
            r@ == spec_code_name(*self),
    {
        let mut out = self.name.clone();
        if let Some(v) = self.version {
            out.append("V");
            let d = u64_to_string(v as u64);
            out.append(d.as_str());
        }
        out
    }
}

/// The authentication that applies: the narrower scope's setting when it
/// has one, else the wider scope's; `none` at the deciding scope means no
/// authentication.
pub open spec fn spec_effective_auth(local: Option<AuthSpec>, outer: Option<AuthSpec>) -> Option<
    AuthSpec,
> {
    match local {
        Some(AuthSpec::NoAuth) => None,
        Some(a) => Some(a),
        None => match outer {
            Some(AuthSpec::NoAuth) => None,
            other => other,
        },
    }
}

pub fn effective_auth(local: Option<AuthSpec>, outer: Option<AuthSpec>) -> (r: Option<AuthSpec>)
    ensures
        r == spec_effective_auth(local, outer),
{
    match local {
        Some(AuthSpec::NoAuth) => None,
        Some(a) => Some(a),
        None => match outer {
            Some(AuthSpec::NoAuth) => None,
            other => other,
        },
    }
}

// ---------------------------------------------------------------------------
// Modules
// ---------------------------------------------------------------------------

/// The name a module is known by: its alias, else its name.
pub open spec fn spec_module_key(m: ModuleUse) -> Seq<char> {
    match m.alias {
        Some(a) => a@,
        None => m.name@,
    }
}

impl ModuleUse {
    pub fn key(&self) -> (r: &String)
        ensures
            r@ == spec_module_key(*self),
    {
        match &self.alias {
            Some(a) => a,
            None => &self.name,
        }
    }
}

} // verus!
