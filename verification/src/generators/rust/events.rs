//! `events.rs` of the Rust server: publishing and handling the events a
//! service declares, in memory or through Redis streams.

use vstd::prelude::*;

use crate::generators::rust::util::{rust_type, spec_rust_type, spec_to_snake_case, to_snake_case};
use crate::ir::{spec_code_name, EventDef, Service, TypeName};
use crate::text::{
    concat_all, lemma_concat_all_step, lemma_take_full, str_eq, to_lowercase, to_uppercase,
    unicode_lowercase, unicode_uppercase,
};

verus! {

/// The registry, subscription and publication of one event, in memory.
pub open spec fn memory_event(e: EventDef) -> Seq<char> {
    let name = spec_code_name(e.name);
    let hn = unicode_uppercase(name) + "_HANDLERS"@;
    let pty = spec_rust_type(e.payload);
    let snake = spec_to_snake_case(name);
    ("static "@ + hn + ": Lazy<Mutex<Vec<Arc<dyn Fn(&"@ + pty + ") + Send + Sync>>>> = Lazy::new(|| Mutex::new(Vec::new()));\n"@) + ("pub fn on_"@ + snake + "(handler: impl Fn(&"@ + pty + ") + Send + Sync + 'static) {\n    "@ + hn + ".lock().unwrap().push(Arc::new(handler));\n}\n"@) + ("pub fn emit_"@ + snake + "(payload: &"@ + pty + ") {\n    let handlers = "@ + hn + ".lock().unwrap().clone();\n    for handler in handlers {\n        handler(payload);\n    }\n}\n\n"@)
}

/// The same, with publication to a Redis stream.
pub open spec fn redis_event(e: EventDef) -> Seq<char> {
    let name = spec_code_name(e.name);
    let hn = unicode_uppercase(name) + "_HANDLERS"@;
    let pty = spec_rust_type(e.payload);
    let snake = spec_to_snake_case(name);
    ("static "@ + hn + ": Lazy<Mutex<Vec<Arc<dyn Fn(&"@ + pty + ") + Send + Sync>>>> = Lazy::new(|| Mutex::new(Vec::new()));\n"@) + ("pub fn on_"@ + snake + "(handler: impl Fn(&"@ + pty + ") + Send + Sync + 'static) {\n    "@ + hn + ".lock().unwrap().push(Arc::new(handler));\n}\n"@) + ("pub fn emit_"@ + snake + "(payload: &"@ + pty + ") {\n    let payload = serde_json::to_string(payload).unwrap_or_else(|_| \"{}\".to_string());\n    let stream = stream_name(\""@ + name + "\");\n    tokio::spawn(async move {\n        if let Err(err) = publish_event(stream, payload).await {\n            eprintln!(\"events: publish error {}\", err);\n        }\n    });\n}\n\n"@)
}

fn event_parts(e: &EventDef) -> (r: (String, String, String, String))
    ensures
        r.0@ == spec_code_name(e.name),
        r.1@ == unicode_uppercase(spec_code_name(e.name)) + "_HANDLERS"@,
        r.2@ == spec_rust_type(e.payload),
        r.3@ == spec_to_snake_case(spec_code_name(e.name)),
{
    let name = e.name.code_name();
    let mut hn = to_uppercase(name.as_str());
    hn.append("_HANDLERS");
    let pty = rust_type(&e.payload);
    let snake = to_snake_case(name.as_str());
    (name, hn, pty, snake)
}

fn event_code(e: &EventDef, redis: bool) -> (r: String)
    ensures
        r@ == if redis {
            redis_event(*e)
        } else {
            memory_event(*e)
        },
{
    let (name, hn, pty, snake) = event_parts(e);
    let mut a = String::from_str("static ");
    a.append(hn.as_str());
    a.append(": Lazy<Mutex<Vec<Arc<dyn Fn(&");
    a.append(pty.as_str());
    a.append(") + Send + Sync>>>> = Lazy::new(|| Mutex::new(Vec::new()));\n");
    let mut b = String::from_str("pub fn on_");
    b.append(snake.as_str());
    b.append("(handler: impl Fn(&");
    b.append(pty.as_str());
    b.append(") + Send + Sync + 'static) {\n    ");
    b.append(hn.as_str());
    b.append(".lock().unwrap().push(Arc::new(handler));\n}\n");
    if redis {
    let mut c = String::from_str("pub fn emit_");
    c.append(snake.as_str());
    c.append("(payload: &");
    c.append(pty.as_str());
    c.append(") {\n    let payload = serde_json::to_string(payload).unwrap_or_else(|_| \"{}\".to_string());\n    let stream = stream_name(\"");
    c.append(name.as_str());
    c.append("\");\n    tokio::spawn(async move {\n        if let Err(err) = publish_event(stream, payload).await {\n            eprintln!(\"events: publish error {}\", err);\n        }\n    });\n}\n\n");
        a.append(b.as_str());
        a.append(c.as_str());
        a
    } else {
    let mut c = String::from_str("pub fn emit_");
    c.append(snake.as_str());
    c.append("(payload: &");
    c.append(pty.as_str());
    c.append(") {\n    let handlers = ");
    c.append(hn.as_str());
    c.append(".lock().unwrap().clone();\n    for handler in handlers {\n        handler(payload);\n    }\n}\n\n");
        a.append(b.as_str());
        a.append(c.as_str());
        a
    }
}

pub open spec fn memory_event_fn() -> spec_fn(EventDef) -> Seq<char> {
    |e: EventDef| memory_event(e)
}

pub open spec fn redis_event_fn() -> spec_fn(EventDef) -> Seq<char> {
    |e: EventDef| redis_event(e)
}

/// Events handled in memory.
pub open spec fn spec_build_events_memory_rs(svc: Service) -> Seq<char> {
    "#![allow(dead_code)]\nuse once_cell::sync::Lazy;\nuse std::sync::{Arc, Mutex};\n\n"@ + concat_all(svc.events.definitions@, memory_event_fn())
}

fn events_code(defs: &Vec<EventDef>, redis: bool) -> (r: String)
    ensures
        r@ == concat_all(defs@, if redis {
            redis_event_fn()
        } else {
            memory_event_fn()
        }),
{
    let ghost f = if redis {
        redis_event_fn()
    } else {
        memory_event_fn()
    };
    let mut out = String::new();
    let mut k: usize = 0;
    while k < defs.len()
        invariant
            0 <= k <= defs@.len(),
            f == if redis {
                redis_event_fn()
            } else {
                memory_event_fn()
            },
            out@ == concat_all(defs@.take(k as int), f),
        decreases defs@.len() - k,
    {
        proof {
            lemma_concat_all_step(defs@, k as int, f);
        }
        let x = event_code(&defs[k], redis);
        out.append(x.as_str());
        k += 1;
    }
    proof {
        lemma_take_full(defs@);
    }
    out
}

pub fn build_events_memory_rs(svc: &Service) -> (r: String)
    ensures
        r@ == spec_build_events_memory_rs(*svc),
{
    let mut out = String::from_str("#![allow(dead_code)]\nuse once_cell::sync::Lazy;\nuse std::sync::{Arc, Mutex};\n\n");
    let body = events_code(&svc.events.definitions, false);
    out.append(body.as_str());
    out
}

/// The payload type of a subscribed event: that of the first definition
/// with its name, else a JSON value.
pub open spec fn rs_subscribed_payload(defs: Seq<EventDef>, n: Seq<char>, j: int) -> Seq<char>
    decreases defs.len() - j,
{
    if j < 0 || j >= defs.len() {
        "JsonValue"@
    } else if spec_code_name(defs[j].name) == n {
        spec_rust_type(defs[j].payload)
    } else {
        rs_subscribed_payload(defs, n, j + 1)
    }
}

fn subscribed_payload(defs: &Vec<EventDef>, n: &str) -> (r: String)
    ensures
        r@ == rs_subscribed_payload(defs@, n@, 0),
{
    let mut j: usize = 0;
    while j < defs.len()
        invariant
            0 <= j <= defs@.len(),
            rs_subscribed_payload(defs@, n@, 0) == rs_subscribed_payload(defs@, n@, j as int),
        decreases defs@.len() - j,
    {
        let c = defs[j].name.code_name();
        if str_eq(c.as_str(), n) {
            return rust_type(&defs[j].payload);
        }
        j += 1;
    }
    String::from_str("JsonValue")
}

pub open spec fn rs_consumer_fn(defs: Seq<EventDef>) -> spec_fn(TypeName) -> Seq<char> {
    |t: TypeName| {
        let name = spec_code_name(t);
        let hn = unicode_uppercase(name) + "_HANDLERS"@;
        let pty = rs_subscribed_payload(defs, name, 0);
        "    let stream = stream_name(\""@ + name + "\");\n    tokio::spawn(consume_loop::<"@ + pty + ">(stream, &"@ + hn + "));\n"@
    }
}

pub open spec fn rs_opt_or(o: Option<String>, d: Seq<char>) -> Seq<char> {
    match o {
        Some(x) => x@,
        None => d,
    }
}

fn opt_or_exec(o: &Option<String>, d: &str) -> (r: String)
    ensures
        r@ == rs_opt_or(*o, d@),
{
    match o {
        Some(x) => x.clone(),
        None => String::from_str(d),
    }
}

pub open spec fn str_const(name: Seq<char>, value: Seq<char>, tail: Seq<char>) -> Seq<char> {
    "const "@ + name + ": &str = \""@ + value + "\";\n"@ + tail
}

fn str_const_exec(out: &mut String, name: &str, value: &str, tail: &str)
    ensures
        final(out)@ == old(out)@ + str_const(name@, value@, tail@),
{
    let mut s = String::from_str("const ");
    s.append(name);
    s.append(": &str = \"");
    s.append(value);
    s.append("\";\n");
    s.append(tail);
    out.append(s.as_str());
}

/// What `events.rs` starts with for Redis: imports, settings, helpers.
pub open spec fn rs_redis_prefix(svc: Service) -> Seq<char> {
    let cfg = svc.events.config.unwrap();
    let service_name = unicode_lowercase(svc.name@);
    "#![allow(dead_code)]\nuse once_cell::sync::Lazy;\nuse std::sync::{Arc, Mutex};\nuse std::time::Duration;\nuse redis::AsyncCommands;\nuse serde_json::Value as JsonValue;\n\n"@ + str_const("EVENTS_STREAM_PREFIX"@, rs_opt_or(cfg.stream_prefix, service_name), ""@)
        + str_const("EVENTS_GROUP"@, rs_opt_or(cfg.group, service_name), ""@) + str_const(
        "EVENTS_CONSUMER_OVERRIDE"@,
        rs_opt_or(cfg.consumer, ""@),
        ""@,
    ) + str_const("EVENTS_REDIS_URL"@, rs_opt_or(cfg.url, ""@), "\n"@) + str_const(
        "EVENTS_CONSUMER_PREFIX"@,
        service_name,
        "\n"@,
    ) + "\nfn redis_url() -> String {\n    if !EVENTS_REDIS_URL.is_empty() {\n        return EVENTS_REDIS_URL.to_string();\n    }\n    std::env::var(\"REDIS_URL\").unwrap_or_else(|_| \"redis://127.0.0.1:6379\".to_string())\n}\n\nfn stream_name(event: &str) -> String {\n    format!(\"{}.{}\", EVENTS_STREAM_PREFIX, event)\n}\n\nfn group_name() -> String {\n    EVENTS_GROUP.to_string()\n}\n\nfn consumer_name() -> String {\n    if !EVENTS_CONSUMER_OVERRIDE.is_empty() {\n        return EVENTS_CONSUMER_OVERRIDE.to_string();\n    }\n    format!(\"{}-{}\", EVENTS_CONSUMER_PREFIX, std::process::id())\n}\n\nasync fn publish_event(stream: String, payload: String) -> redis::RedisResult<()> {\n    let client = redis::Client::open(redis_url())?;\n    let mut conn = client.get_async_connection().await?;\n    let _: () = redis::cmd(\"XADD\")\n        .arg(stream)\n        .arg(\"*\")\n        .arg(\"payload\")\n        .arg(payload)\n        .query_async(&mut conn)\n        .await?;\n    Ok(())\n}\n\nfn parse_entries(value: redis::Value) -> Vec<(String, String)> {\n    let mut out = Vec::new();\n    let streams = match value {\n        redis::Value::Bulk(v) => v,\n        _ => return out,\n    };\n    for stream in streams {\n        let redis::Value::Bulk(stream_parts) = stream else { continue; };\n        if stream_parts.len() < 2 {\n            continue;\n        }\n        let redis::Value::Bulk(entries) = &stream_parts[1] else { continue; };\n        for entry in entries {\n            let redis::Value::Bulk(fields) = entry else { continue; };\n            if fields.len() < 2 {\n                continue;\n            }\n            let id = match &fields[0] {\n                redis::Value::Data(d) => String::from_utf8_lossy(d).to_string(),\n                _ => continue,\n            };\n            let redis::Value::Bulk(kv) = &fields[1] else { continue; };\n            let mut payload = None;\n            let mut it = kv.iter();\n            while let (Some(k), Some(v)) = (it.next(), it.next()) {\n                let key = match k {\n                    redis::Value::Data(d) => String::from_utf8_lossy(d).to_string(),\n                    _ => continue,\n                };\n                if key == \"payload\" {\n                    if let redis::Value::Data(d) = v {\n                        payload = Some(String::from_utf8_lossy(d).to_string());\n                    }\n                }\n            }\n            if let Some(payload) = payload {\n                out.push((id, payload));\n            }\n        }\n    }\n    out\n}\n\nfn handler_snapshot<T>(\n    handlers: &'static Lazy<Mutex<Vec<Arc<dyn Fn(&T) + Send + Sync>>>>,\n) -> Vec<Arc<dyn Fn(&T) + Send + Sync>> {\n    handlers.lock().unwrap().clone()\n}\n\nasync fn consume_loop<T: serde::de::DeserializeOwned + Send + 'static>(\n    stream: String,\n    handlers: &'static Lazy<Mutex<Vec<Arc<dyn Fn(&T) + Send + Sync>>>>,\n) {\n    let group = group_name();\n    let consumer = consumer_name();\n    let client = match redis::Client::open(redis_url()) {\n        Ok(c) => c,\n        Err(err) => {\n            eprintln!(\"events: redis error {}\", err);\n            return;\n        }\n    };\n    let mut conn = match client.get_async_connection().await {\n        Ok(c) => c,\n        Err(err) => {\n            eprintln!(\"events: redis connection error {}\", err);\n            return;\n        }\n    };\n    let _ : redis::RedisResult<()> = redis::cmd(\"XGROUP\")\n        .arg(\"CREATE\")\n        .arg(&stream)\n        .arg(&group)\n        .arg(\"$\")\n        .arg(\"MKSTREAM\")\n        .query_async(&mut conn)\n        .await;\n\n    loop {\n        let reply: redis::RedisResult<redis::Value> = redis::cmd(\"XREADGROUP\")\n            .arg(\"GROUP\")\n            .arg(&group)\n            .arg(&consumer)\n            .arg(\"BLOCK\")\n            .arg(1000)\n            .arg(\"COUNT\")\n            .arg(10)\n            .arg(\"STREAMS\")\n            .arg(&stream)\n            .arg(\">\")\n            .query_async(&mut conn)\n            .await;\n        let Ok(value) = reply else {\n            tokio::time::sleep(Duration::from_millis(500)).await;\n            continue;\n        };\n        let entries = parse_entries(value);\n        for (id, payload) in entries {\n            if let Ok(parsed) = serde_json::from_str::<T>(&payload) {\n                for handler in handler_snapshot(handlers) {\n                    handler(&parsed);\n                }\n            }\n            let _ : redis::RedisResult<()> = redis::cmd(\"XACK\")\n                .arg(&stream)\n                .arg(&group)\n                .arg(&id)\n                .query_async(&mut conn)\n                .await;\n        }\n    }\n}\n"@
}

pub open spec fn rs_redis_consumers(svc: Service) -> Seq<char> {
    if svc.events.subscribes@.len() > 0 {
        "pub async fn start_event_consumers() {\n"@ + concat_all(
            svc.events.subscribes@,
            rs_consumer_fn(svc.events.definitions@),
        ) + "}\n"@
    } else {
        Seq::empty()
    }
}

/// Events published to and consumed from Redis streams; consumers start
/// for the subscribed events.
pub open spec fn spec_build_events_redis_rs(svc: Service) -> Seq<char> {
    rs_redis_prefix(svc) + concat_all(svc.events.definitions@, redis_event_fn()) + rs_redis_consumers(
        svc,
    )
}

fn redis_consumers(svc: &Service) -> (r: String)
    ensures
        r@ == rs_redis_consumers(*svc),
{
    let subs = &svc.events.subscribes;
    let defs = &svc.events.definitions;
    if subs.len() == 0 {
        return String::new();
    }
    let ghost f = rs_consumer_fn(defs@);
    let mut body = String::new();
    let mut j: usize = 0;
    while j < subs.len()
        invariant
            0 <= j <= subs@.len(),
            f == rs_consumer_fn(defs@),
            body@ == concat_all(subs@.take(j as int), f),
        decreases subs@.len() - j,
    {
        proof {
            lemma_concat_all_step(subs@, j as int, f);
        }
        let name = subs[j].code_name();
        let mut hn = to_uppercase(name.as_str());
        hn.append("_HANDLERS");
        let pty = subscribed_payload(defs, name.as_str());
            let mut s = String::from_str("    let stream = stream_name(\"");
            s.append(name.as_str());
            s.append("\");\n    tokio::spawn(consume_loop::<");
            s.append(pty.as_str());
            s.append(">(stream, &");
            s.append(hn.as_str());
            s.append("));\n");
        body.append(s.as_str());
        j += 1;
    }
    proof {
        lemma_take_full(subs@);
    }
    let mut cons = String::from_str("pub async fn start_event_consumers() {\n");
    cons.append(body.as_str());
    cons.append("}\n");
    cons
}

pub fn build_events_redis_rs(svc: &Service) -> (r: String)
    requires
        svc.events.config is Some,
    ensures
        r@ == spec_build_events_redis_rs(*svc),
{
    let cfg = match &svc.events.config {
        Some(c) => c,
        None => {
            return String::new();
        },
    };
    let service_name = to_lowercase(svc.name.as_str());
    let mut out = String::from_str("#![allow(dead_code)]\nuse once_cell::sync::Lazy;\nuse std::sync::{Arc, Mutex};\nuse std::time::Duration;\nuse redis::AsyncCommands;\nuse serde_json::Value as JsonValue;\n\n");
    let sp = opt_or_exec(&cfg.stream_prefix, service_name.as_str());
    str_const_exec(&mut out, "EVENTS_STREAM_PREFIX", sp.as_str(), "");
    let gr = opt_or_exec(&cfg.group, service_name.as_str());
    str_const_exec(&mut out, "EVENTS_GROUP", gr.as_str(), "");
    let co = opt_or_exec(&cfg.consumer, "");
    str_const_exec(&mut out, "EVENTS_CONSUMER_OVERRIDE", co.as_str(), "");
    let ur = opt_or_exec(&cfg.url, "");
    str_const_exec(&mut out, "EVENTS_REDIS_URL", ur.as_str(), "\n");
    str_const_exec(&mut out, "EVENTS_CONSUMER_PREFIX", service_name.as_str(), "\n");
    out.append("\nfn redis_url() -> String {\n    if !EVENTS_REDIS_URL.is_empty() {\n        return EVENTS_REDIS_URL.to_string();\n    }\n    std::env::var(\"REDIS_URL\").unwrap_or_else(|_| \"redis://127.0.0.1:6379\".to_string())\n}\n\nfn stream_name(event: &str) -> String {\n    format!(\"{}.{}\", EVENTS_STREAM_PREFIX, event)\n}\n\nfn group_name() -> String {\n    EVENTS_GROUP.to_string()\n}\n\nfn consumer_name() -> String {\n    if !EVENTS_CONSUMER_OVERRIDE.is_empty() {\n        return EVENTS_CONSUMER_OVERRIDE.to_string();\n    }\n    format!(\"{}-{}\", EVENTS_CONSUMER_PREFIX, std::process::id())\n}\n\nasync fn publish_event(stream: String, payload: String) -> redis::RedisResult<()> {\n    let client = redis::Client::open(redis_url())?;\n    let mut conn = client.get_async_connection().await?;\n    let _: () = redis::cmd(\"XADD\")\n        .arg(stream)\n        .arg(\"*\")\n        .arg(\"payload\")\n        .arg(payload)\n        .query_async(&mut conn)\n        .await?;\n    Ok(())\n}\n\nfn parse_entries(value: redis::Value) -> Vec<(String, String)> {\n    let mut out = Vec::new();\n    let streams = match value {\n        redis::Value::Bulk(v) => v,\n        _ => return out,\n    };\n    for stream in streams {\n        let redis::Value::Bulk(stream_parts) = stream else { continue; };\n        if stream_parts.len() < 2 {\n            continue;\n        }\n        let redis::Value::Bulk(entries) = &stream_parts[1] else { continue; };\n        for entry in entries {\n            let redis::Value::Bulk(fields) = entry else { continue; };\n            if fields.len() < 2 {\n                continue;\n            }\n            let id = match &fields[0] {\n                redis::Value::Data(d) => String::from_utf8_lossy(d).to_string(),\n                _ => continue,\n            };\n            let redis::Value::Bulk(kv) = &fields[1] else { continue; };\n            let mut payload = None;\n            let mut it = kv.iter();\n            while let (Some(k), Some(v)) = (it.next(), it.next()) {\n                let key = match k {\n                    redis::Value::Data(d) => String::from_utf8_lossy(d).to_string(),\n                    _ => continue,\n                };\n                if key == \"payload\" {\n                    if let redis::Value::Data(d) = v {\n                        payload = Some(String::from_utf8_lossy(d).to_string());\n                    }\n                }\n            }\n            if let Some(payload) = payload {\n                out.push((id, payload));\n            }\n        }\n    }\n    out\n}\n\nfn handler_snapshot<T>(\n    handlers: &'static Lazy<Mutex<Vec<Arc<dyn Fn(&T) + Send + Sync>>>>,\n) -> Vec<Arc<dyn Fn(&T) + Send + Sync>> {\n    handlers.lock().unwrap().clone()\n}\n\nasync fn consume_loop<T: serde::de::DeserializeOwned + Send + 'static>(\n    stream: String,\n    handlers: &'static Lazy<Mutex<Vec<Arc<dyn Fn(&T) + Send + Sync>>>>,\n) {\n    let group = group_name();\n    let consumer = consumer_name();\n    let client = match redis::Client::open(redis_url()) {\n        Ok(c) => c,\n        Err(err) => {\n            eprintln!(\"events: redis error {}\", err);\n            return;\n        }\n    };\n    let mut conn = match client.get_async_connection().await {\n        Ok(c) => c,\n        Err(err) => {\n            eprintln!(\"events: redis connection error {}\", err);\n            return;\n        }\n    };\n    let _ : redis::RedisResult<()> = redis::cmd(\"XGROUP\")\n        .arg(\"CREATE\")\n        .arg(&stream)\n        .arg(&group)\n        .arg(\"$\")\n        .arg(\"MKSTREAM\")\n        .query_async(&mut conn)\n        .await;\n\n    loop {\n        let reply: redis::RedisResult<redis::Value> = redis::cmd(\"XREADGROUP\")\n            .arg(\"GROUP\")\n            .arg(&group)\n            .arg(&consumer)\n            .arg(\"BLOCK\")\n            .arg(1000)\n            .arg(\"COUNT\")\n            .arg(10)\n            .arg(\"STREAMS\")\n            .arg(&stream)\n            .arg(\">\")\n            .query_async(&mut conn)\n            .await;\n        let Ok(value) = reply else {\n            tokio::time::sleep(Duration::from_millis(500)).await;\n            continue;\n        };\n        let entries = parse_entries(value);\n        for (id, payload) in entries {\n            if let Ok(parsed) = serde_json::from_str::<T>(&payload) {\n                for handler in handler_snapshot(handlers) {\n                    handler(&parsed);\n                }\n            }\n            let _ : redis::RedisResult<()> = redis::cmd(\"XACK\")\n                .arg(&stream)\n                .arg(&group)\n                .arg(&id)\n                .query_async(&mut conn)\n                .await;\n        }\n    }\n}\n");
    assert(out@ =~= rs_redis_prefix(*svc));
    let body = events_code(&svc.events.definitions, true);
    out.append(body.as_str());
    let cons = redis_consumers(svc);
    out.append(cons.as_str());
    out
}

/// `events.rs`: nothing without event definitions; Redis streams when a
/// broker is configured, else handlers in memory.
pub open spec fn spec_build_events_rs(svc: Service) -> Seq<char> {
    if svc.events.definitions@.len() == 0 {
        Seq::empty()
    } else if svc.events.config is Some {
        spec_build_events_redis_rs(svc)
    } else {
        spec_build_events_memory_rs(svc)
    }
}

pub fn build_events_rs(svc: &Service) -> (r: String)
    ensures
        r@ == spec_build_events_rs(*svc),
{
    if svc.events.definitions.len() == 0 {
        return String::new();
    }
    if svc.events.config.is_some() {
        return build_events_redis_rs(svc);
    }
    build_events_memory_rs(svc)
}

} // verus!
