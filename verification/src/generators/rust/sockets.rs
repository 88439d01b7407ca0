//! The WebSocket endpoints of the Rust server: one handler per socket
//! with its context type, rooms, message dispatch, checks and helpers.

use vstd::prelude::*;

use crate::generators::common::headers::{header_runtime_key, spec_header_runtime_key};
use crate::generators::go::sockets::{first_message, find_message, first_trigger};
use crate::generators::rust::routes::{render_socket_call, spec_render_socket_call};
use crate::generators::rust::util::{spec_to_snake_case, to_snake_case};
use crate::ir::{spec_code_name, AuthSpec, Field, Service, SocketDef, SocketMessage, SocketTrigger, TypeName};
use crate::text::{
    concat_all, dec_nat, lemma_concat_all_step, lemma_take_full, seq_join, str_eq, to_uppercase,
    u64_to_string, unicode_uppercase,
};

verus! {

/// The axum handler of a socket: `ws_` and its name in snake case.
pub open spec fn spec_socket_handler_name(name: Seq<char>) -> Seq<char> {
    "ws_"@ + spec_to_snake_case(name)
}

pub fn socket_handler_name(name: &str) -> (r: String)
    ensures
        r@ == spec_socket_handler_name(name@),
{
    let mut s = String::from_str("ws_");
    let n = to_snake_case(name);
    s.append(n.as_str());
    s
}

/// The authentication a socket asks of the upgrade request.
pub open spec fn spec_rs_socket_auth_check(socket: SocketDef) -> Seq<char> {
    match socket.auth {
        Some(AuthSpec::Bearer) => "    if header_str(&headers, \"authorization\").is_none() {\n        let ctx = ctx.clone();\n        ctx.send_error(\"missing authorization\");\n        return;\n    }\n"@,
        Some(AuthSpec::ApiKey) => "    if header_str(&headers, \"x-api-key\").is_none() {\n        let ctx = ctx.clone();\n        ctx.send_error(\"missing api key\");\n        return;\n    }\n"@,
        _ => Seq::empty(),
    }
}

pub fn render_socket_auth_check(socket: &SocketDef) -> (r: String)
    ensures
        r@ == spec_rs_socket_auth_check(*socket),
{
    match socket.auth {
        Some(AuthSpec::Bearer) => String::from_str("    if header_str(&headers, \"authorization\").is_none() {\n        let ctx = ctx.clone();\n        ctx.send_error(\"missing authorization\");\n        return;\n    }\n"),
        Some(AuthSpec::ApiKey) => String::from_str("    if header_str(&headers, \"x-api-key\").is_none() {\n        let ctx = ctx.clone();\n        ctx.send_error(\"missing api key\");\n        return;\n    }\n"),
        _ => String::new(),
    }
}

/// The check that a required header is present.
pub open spec fn spec_rs_socket_header_line(f: Field) -> Seq<char> {
    if f.optional {
        Seq::empty()
    } else {
        "    if header_str(&headers, \""@ + spec_header_runtime_key(f.name@) + "\").is_none() {\n        let ctx = ctx.clone();\n        ctx.send_error(\"missing header "@ + spec_header_runtime_key(f.name@) + "\");\n        return;\n    }\n"@
    }
}

pub open spec fn rs_socket_header_line_fn() -> spec_fn(Field) -> Seq<char> {
    |f: Field| spec_rs_socket_header_line(f)
}

pub open spec fn spec_rs_socket_header_check(socket: SocketDef) -> Seq<char> {
    concat_all(socket.headers@, rs_socket_header_line_fn())
}

fn socket_header_line(f: &Field) -> (r: String)
    ensures
        r@ == spec_rs_socket_header_line(*f),
{
    if f.optional {
        String::new()
    } else {
        let key = header_runtime_key(f.name.as_str());
        let mut s = String::from_str("    if header_str(&headers, \"");
        s.append(key.as_str());
        s.append("\").is_none() {\n        let ctx = ctx.clone();\n        ctx.send_error(\"missing header ");
        s.append(key.as_str());
        s.append("\");\n        return;\n    }\n");
        s
    }
}

pub fn render_socket_header_check(socket: &SocketDef) -> (r: String)
    ensures
        r@ == spec_rs_socket_header_check(*socket),
{
    let v = &socket.headers;
    let mut out = String::new();
    let mut i: usize = 0;
    while i < v.len()
        invariant
            0 <= i <= v@.len(),
            out@ == concat_all(v@.take(i as int), rs_socket_header_line_fn()),
        decreases v@.len() - i,
    {
        proof {
            lemma_concat_all_step(v@, i as int, rs_socket_header_line_fn());
        }
        let line = socket_header_line(&v[i]);
        out.append(line.as_str());
        i += 1;
    }
    proof {
        lemma_take_full(v@);
    }
    out
}

pub open spec fn rs_socket_mw_call_fn() -> spec_fn(String) -> Seq<char> {
    |n: String| {
        let name = n@;
        "            if let Err(msg) = ws_"@ + name + "(&ctx, &frame.kind).await {\n                ctx.send_error(&msg);\n                continue;\n            }\n"@
    }
}

/// The middleware each frame goes through.
pub open spec fn spec_rs_socket_middleware_calls(socket: SocketDef) -> Seq<char> {
    concat_all(socket.middleware@, rs_socket_mw_call_fn())
}

pub fn render_socket_middleware_calls(socket: &SocketDef) -> (r: String)
    ensures
        r@ == spec_rs_socket_middleware_calls(*socket),
{
    let v = &socket.middleware;
    let mut out = String::new();
    let mut i: usize = 0;
    while i < v.len()
        invariant
            0 <= i <= v@.len(),
            out@ == concat_all(v@.take(i as int), rs_socket_mw_call_fn()),
        decreases v@.len() - i,
    {
        proof {
            lemma_concat_all_step(v@, i as int, rs_socket_mw_call_fn());
        }
        let name = &v[i];
        let mut s = String::from_str("            if let Err(msg) = ws_");
        s.append(name.as_str());
        s.append("(&ctx, &frame.kind).await {\n                ctx.send_error(&msg);\n                continue;\n            }\n");
        out.append(s.as_str());
        i += 1;
    }
    proof {
        lemma_take_full(v@);
    }
    out
}

pub open spec fn rs_socket_context_name(socket: SocketDef) -> Seq<char> {
    spec_code_name(socket.name) + "SocketContext"@
}

pub open spec fn rs_socket_mw_def_fn(ctx: Seq<char>) -> spec_fn(String) -> Seq<char> {
    |n: String| {
        let name = n@;
        "async fn ws_"@ + name + "(_ctx: &"@ + ctx + ", message: &str) -> Result<(), String> {\n    let message = message.trim();\n    if message.is_empty() {\n        return Err(\"empty socket message kind\".to_string());\n    }\n    if message.len() > 128 {\n        return Err(\"socket message kind is too long\".to_string());\n    }\n    Ok(())\n}\n\n"@
    }
}

/// A default definition of each socket middleware: it refuses an empty
/// or overlong message kind.
pub open spec fn spec_rs_socket_middleware_defs(socket: SocketDef) -> Seq<char> {
    concat_all(socket.middleware@, rs_socket_mw_def_fn(rs_socket_context_name(socket)))
}

fn context_name(socket: &SocketDef) -> (r: String)
    ensures
        r@ == rs_socket_context_name(*socket),
{
    let mut s = socket.name.code_name();
    s.append("SocketContext");
    s
}

pub fn render_socket_middleware_defs(socket: &SocketDef) -> (r: String)
    ensures
        r@ == spec_rs_socket_middleware_defs(*socket),
{
    let ctx = context_name(socket);
    let ghost f = rs_socket_mw_def_fn(ctx@);
    let v = &socket.middleware;
    let mut out = String::new();
    let mut i: usize = 0;
    while i < v.len()
        invariant
            0 <= i <= v@.len(),
            f == rs_socket_mw_def_fn(ctx@),
            out@ == concat_all(v@.take(i as int), f),
        decreases v@.len() - i,
    {
        proof {
            lemma_concat_all_step(v@, i as int, f);
        }
        let name = &v[i];
        let mut s = String::from_str("async fn ws_");
        s.append(name.as_str());
        s.append("(_ctx: &");
        s.append(ctx.as_str());
        s.append(", message: &str) -> Result<(), String> {\n    let message = message.trim();\n    if message.is_empty() {\n        return Err(\"empty socket message kind\".to_string());\n    }\n    if message.len() > 128 {\n        return Err(\"socket message kind is too long\".to_string());\n    }\n    Ok(())\n}\n\n");
        out.append(s.as_str());
        i += 1;
    }
    proof {
        lemma_take_full(v@);
    }
    out
}

/// The name of a socket's rate-limit state: its name in capitals.
pub open spec fn socket_rate_static(socket: SocketDef) -> Seq<char> {
    "SOCKET_RATE_"@ + unicode_uppercase(spec_code_name(socket.name))
}

fn rate_static_name(socket: &SocketDef) -> (r: String)
    ensures
        r@ == socket_rate_static(*socket),
{
    let code = socket.name.code_name();
    let up = to_uppercase(code.as_str());
    let mut s = String::from_str("SOCKET_RATE_");
    s.append(up.as_str());
    s
}

pub open spec fn spec_rs_socket_rate_limit_defs(socket: SocketDef) -> Seq<char> {
    if socket.rate_limit is Some {
        let st = socket_rate_static(socket);
        "static "@ + st + ": OnceLock<Mutex<(u32, Instant)>> = OnceLock::new();\n\n"@
    } else {
        Seq::empty()
    }
}

pub fn render_socket_rate_limit_defs(socket: &SocketDef) -> (r: String)
    ensures
        r@ == spec_rs_socket_rate_limit_defs(*socket),
{
    if socket.rate_limit.is_none() {
        return String::new();
    }
    let st_name = rate_static_name(socket);
    let mut s = String::from_str("static ");
    s.append(st_name.as_str());
    s.append(": OnceLock<Mutex<(u32, Instant)>> = OnceLock::new();\n\n");
    s
}

/// The per-frame rate check of a socket with a limit.
pub open spec fn spec_rs_socket_rate_limit_check(socket: SocketDef) -> Seq<char> {
    match socket.rate_limit {
        Some(l) => {
            let st = socket_rate_static(socket);
            "            let state = "@ + st + ".get_or_init(|| Mutex::new((0, Instant::now())));\n            let mut guard = state.lock().unwrap();\n            let elapsed = guard.1.elapsed();\n            if elapsed >= Duration::from_secs("@ + dec_nat(l.per_seconds as nat) + ") {\n                *guard = (0, Instant::now());\n            }\n            if guard.0 >= "@ + dec_nat(l.max as nat) + " {\n                ctx.send_error(\"rate limited\");\n                continue;\n            }\n            guard.0 += 1;\n            drop(guard);\n"@
        },
        None => Seq::empty(),
    }
}

pub fn render_socket_rate_limit_check(socket: &SocketDef) -> (r: String)
    ensures
        r@ == spec_rs_socket_rate_limit_check(*socket),
{
    match socket.rate_limit {
        Some(l) => {
            let st_name = rate_static_name(socket);
            let mx = u64_to_string(l.max as u64);
            let win = u64_to_string(l.per_seconds);
            let mut s = String::from_str("            let state = ");
            s.append(st_name.as_str());
            s.append(".get_or_init(|| Mutex::new((0, Instant::now())));\n            let mut guard = state.lock().unwrap();\n            let elapsed = guard.1.elapsed();\n            if elapsed >= Duration::from_secs(");
            s.append(win.as_str());
            s.append(") {\n                *guard = (0, Instant::now());\n            }\n            if guard.0 >= ");
            s.append(mx.as_str());
            s.append(" {\n                ctx.send_error(\"rate limited\");\n                continue;\n            }\n            guard.0 += 1;\n            drop(guard);\n");
            s
        },
        None => String::new(),
    }
}

/// The quoted rooms of a socket joined by ` | `.
pub open spec fn room_patterns(rooms: Seq<String>) -> Seq<Seq<char>> {
    rooms.map_values(|r: String| "\""@ + r@ + "\""@)
}

/// The test of a room name: any room when the socket declares none, else
/// one of its rooms.
pub open spec fn spec_allowed_match(socket: SocketDef) -> Seq<char> {
    if socket.rooms@.len() == 0 {
        "true"@
    } else {
        "matches!(room, "@ + seq_join(room_patterns(socket.rooms@), " | "@) + ")"@
    }
}

pub open spec fn spec_room_arg(socket: SocketDef) -> Seq<char> {
    if socket.rooms@.len() == 0 {
        "_room"@
    } else {
        "room"@
    }
}

fn allowed_match(socket: &SocketDef) -> (r: String)
    ensures
        r@ == spec_allowed_match(*socket),
{
    if socket.rooms.len() == 0 {
        return String::from_str("true");
    }
    let v = &socket.rooms;
    let mut parts = String::new();
    let mut i: usize = 0;
    while i < v.len()
        invariant
            0 <= i <= v@.len(),
            parts@ == seq_join(room_patterns(v@.take(i as int)), " | "@),
        decreases v@.len() - i,
    {
        proof {
            assert(room_patterns(v@.take(i + 1)).drop_last() =~= room_patterns(v@.take(i as int)));
        }
        if i > 0 {
            parts.append(" | ");
        }
        parts.append("\"");
        parts.append(v[i].as_str());
        parts.append("\"");
        i += 1;
    }
    proof {
        lemma_take_full(v@);
    }
    let mut s = String::from_str("matches!(room, ");
    s.append(parts.as_str());
    s.append(")");
    s
}

pub open spec fn rs_send_method_fn() -> spec_fn(SocketMessage) -> Seq<char> {
    |m: SocketMessage| "    pub fn send_"@ + spec_code_name(m.name) + "(&self, data: Value) {\n        self.send_raw(\""@ + spec_code_name(m.name) + "\", data);\n    }\n"@
}

/// A `send_<message>` method per outbound message, then the room methods.
pub open spec fn spec_rs_outbound_methods(allowed_fn: Seq<char>, room_fn: Seq<char>, msgs: Seq<SocketMessage>) -> Seq<char> {
    concat_all(msgs, rs_send_method_fn()) + "    pub fn send_room(&self, room: &str, kind: &str, data: Value) {\n        if !"@ + allowed_fn + "(room) {\n            self.send_error(\"invalid room\");\n            return;\n        }\n        let rooms = "@ + room_fn + "();\n        let map = rooms.lock().unwrap();\n        if let Some(members) = map.get(room) {\n            let frame = SocketFrame { kind: kind.to_string(), data, room: Some(room.to_string()) };\n            if let Ok(text) = serde_json::to_string(&frame) {\n                for sender in members.values() {\n                    let _ = sender.send(Message::Text(text.clone()));\n                }\n            }\n        }\n    }\n    pub fn join_room(&self, room: &str) {\n        if !"@ + allowed_fn + "(room) {\n            self.send_error(\"invalid room\");\n            return;\n        }\n        let rooms = "@ + room_fn + "();\n        let mut map = rooms.lock().unwrap();\n        let entry = map.entry(room.to_string()).or_insert_with(HashMap::new);\n        entry.insert(self.id, self.sender.clone());\n    }\n    pub fn leave_room(&self, room: &str) {\n        let rooms = "@ + room_fn + "();\n        let mut map = rooms.lock().unwrap();\n        if let Some(entry) = map.get_mut(room) {\n            entry.remove(&self.id);\n            if entry.is_empty() {\n                map.remove(room);\n            }\n        }\n    }\n    pub fn leave_all_rooms(&self) {\n        let rooms = "@ + room_fn + "();\n        let mut map = rooms.lock().unwrap();\n        let keys: Vec<String> = map.keys().cloned().collect();\n        for room in keys {\n            if let Some(entry) = map.get_mut(&room) {\n                entry.remove(&self.id);\n                if entry.is_empty() {\n                    map.remove(&room);\n                }\n            }\n        }\n    }\n"@
}

fn outbound_methods(allowed_fn: &String, room_fn: &String, msgs: &Vec<SocketMessage>) -> (r: String)
    ensures
        r@ == spec_rs_outbound_methods(allowed_fn@, room_fn@, msgs@),
{
    let mut out = String::new();
    let mut i: usize = 0;
    while i < msgs.len()
        invariant
            0 <= i <= msgs@.len(),
            out@ == concat_all(msgs@.take(i as int), rs_send_method_fn()),
        decreases msgs@.len() - i,
    {
        proof {
            lemma_concat_all_step(msgs@, i as int, rs_send_method_fn());
        }
        let name = msgs[i].name.code_name();
        let mut s = String::from_str("    pub fn send_");
        s.append(name.as_str());
        s.append("(&self, data: Value) {\n        self.send_raw(\"");
        s.append(name.as_str());
        s.append("\", data);\n    }\n");
        out.append(s.as_str());
        i += 1;
    }
    proof {
        lemma_take_full(msgs@);
    }
    let mut s = String::from_str("    pub fn send_room(&self, room: &str, kind: &str, data: Value) {\n        if !");
    s.append(allowed_fn.as_str());
    s.append("(room) {\n            self.send_error(\"invalid room\");\n            return;\n        }\n        let rooms = ");
    s.append(room_fn.as_str());
    s.append("();\n        let map = rooms.lock().unwrap();\n        if let Some(members) = map.get(room) {\n            let frame = SocketFrame { kind: kind.to_string(), data, room: Some(room.to_string()) };\n            if let Ok(text) = serde_json::to_string(&frame) {\n                for sender in members.values() {\n                    let _ = sender.send(Message::Text(text.clone()));\n                }\n            }\n        }\n    }\n    pub fn join_room(&self, room: &str) {\n        if !");
    s.append(allowed_fn.as_str());
    s.append("(room) {\n            self.send_error(\"invalid room\");\n            return;\n        }\n        let rooms = ");
    s.append(room_fn.as_str());
    s.append("();\n        let mut map = rooms.lock().unwrap();\n        let entry = map.entry(room.to_string()).or_insert_with(HashMap::new);\n        entry.insert(self.id, self.sender.clone());\n    }\n    pub fn leave_room(&self, room: &str) {\n        let rooms = ");
    s.append(room_fn.as_str());
    s.append("();\n        let mut map = rooms.lock().unwrap();\n        if let Some(entry) = map.get_mut(room) {\n            entry.remove(&self.id);\n            if entry.is_empty() {\n                map.remove(room);\n            }\n        }\n    }\n    pub fn leave_all_rooms(&self) {\n        let rooms = ");
    s.append(room_fn.as_str());
    s.append("();\n        let mut map = rooms.lock().unwrap();\n        let keys: Vec<String> = map.keys().cloned().collect();\n        for room in keys {\n            if let Some(entry) = map.get_mut(&room) {\n                entry.remove(&self.id);\n                if entry.is_empty() {\n                    map.remove(&room);\n                }\n            }\n        }\n    }\n");
    out.append(s.as_str());
    out
}

/// The check that a frame of a message bound to a room names that room.
pub open spec fn spec_rs_room_guard(triggers: Seq<SocketTrigger>, name: TypeName) -> Seq<char> {
    let k = first_trigger(triggers, name, 0);
    if k < 0 {
        Seq::empty()
    } else {
        match triggers[k].room {
            Some(r) => {
                let room = r@;
                "                if frame.room.as_deref() != Some(\""@ + room + "\") {\n                    ctx.send_error(\"invalid room\");\n                    continue;\n                }\n"@
            },
            None => Seq::empty(),
        }
    }
}

fn room_guard(triggers: &Vec<SocketTrigger>, name: &TypeName) -> (r: String)
    ensures
        r@ == spec_rs_room_guard(triggers@, *name),
{
    let mut j: usize = 0;
    while j < triggers.len()
        invariant
            0 <= j <= triggers@.len(),
            first_trigger(triggers@, *name, 0) == first_trigger(triggers@, *name, j as int),
        decreases triggers@.len() - j,
    {
        let t = &triggers[j];
        let same = str_eq(t.name.name.as_str(), name.name.as_str()) && match (t.name.version, name.version) {
            (Some(a), Some(b)) => a == b,
            (None, None) => true,
            _ => false,
        };
        if same {
            match &t.room {
                Some(room) => {
                    let mut s = String::from_str("                if frame.room.as_deref() != Some(\"");
                    s.append(room.as_str());
                    s.append("\") {\n                    ctx.send_error(\"invalid room\");\n                    continue;\n                }\n");
                    return s;
                },
                None => {
                    return String::new();
                },
            }
        }
        j += 1;
    }
    String::new()
}

pub open spec fn rs_dispatch_case_fn(triggers: Seq<SocketTrigger>) -> spec_fn(SocketMessage) -> Seq<char> {
    |m: SocketMessage| if m.name.name@ == "Ping"@ {
        "            \"Ping\" => {\n                ctx.send_raw(\"Pong\", json!({}));\n"@ + spec_rs_room_guard(triggers, m.name) + "                "@ + spec_render_socket_call(m.handler) + ";\n            }\n"@
    } else {
        "            \""@ + spec_code_name(m.name) + "\" => {\n"@ + spec_rs_room_guard(triggers, m.name) + "                "@ + spec_render_socket_call(m.handler) + ";\n            }\n"@
    }
}

/// The arm of each inbound message, then the fallback arm.
pub open spec fn spec_rs_dispatch(socket: SocketDef) -> Seq<char> {
    concat_all(socket.inbound@, rs_dispatch_case_fn(socket.triggers@)) + "            _ => {\n                ctx.send_error(\"unknown message\");\n            }\n"@
}

fn dispatch_case(triggers: &Vec<SocketTrigger>, m: &SocketMessage) -> (r: String)
    ensures
        r@ == rs_dispatch_case_fn(triggers@)(*m),
{
    let guard = room_guard(triggers, &m.name);
    let call = render_socket_call(&m.handler);
    if str_eq(m.name.name.as_str(), "Ping") {
        let mut s = String::from_str("            \"Ping\" => {\n                ctx.send_raw(\"Pong\", json!({}));\n");
        s.append(guard.as_str());
        s.append("                ");
        s.append(call.as_str());
        s.append(";\n            }\n");
        s
    } else {
        let name = m.name.code_name();
        let mut s = String::from_str("            \"");
        s.append(name.as_str());
        s.append("\" => {\n");
        s.append(guard.as_str());
        s.append("                ");
        s.append(call.as_str());
        s.append(";\n            }\n");
        s
    }
}

fn render_dispatch(socket: &SocketDef) -> (r: String)
    ensures
        r@ == spec_rs_dispatch(*socket),
{
    let ghost f = rs_dispatch_case_fn(socket.triggers@);
    let v = &socket.inbound;
    let mut out = String::new();
    let mut i: usize = 0;
    while i < v.len()
        invariant
            0 <= i <= v@.len(),
            f == rs_dispatch_case_fn(socket.triggers@),
            out@ == concat_all(v@.take(i as int), f),
        decreases v@.len() - i,
    {
        proof {
            lemma_concat_all_step(v@, i as int, f);
        }
        let c = dispatch_case(&socket.triggers, &v[i]);
        out.append(c.as_str());
        i += 1;
    }
    proof {
        lemma_take_full(v@);
    }
    out.append("            _ => {\n                ctx.send_error(\"unknown message\");\n            }\n");
    out
}

/// The `Join` handler run when a client connects, if the socket has one.
pub open spec fn spec_rs_join_call(socket: SocketDef) -> Seq<char> {
    let k = first_message(socket.inbound@, "Join"@, 0);
    if k < 0 {
        Seq::empty()
    } else {
        "    let frame = SocketFrame { kind: \"Join\".to_string(), data: json!({}), room: None };\n    "@ + spec_render_socket_call(socket.inbound@[k].handler) + ";\n"@
    }
}

/// The `Exit` handler run when a client leaves, if the socket has one.
pub open spec fn spec_rs_exit_call(socket: SocketDef) -> Seq<char> {
    let k = first_message(socket.inbound@, "Exit"@, 0);
    if k < 0 {
        Seq::empty()
    } else {
        "    let frame = SocketFrame { kind: \"Exit\".to_string(), data: json!({}), room: None };\n    "@ + spec_render_socket_call(socket.inbound@[k].handler) + ";\n"@
    }
}

fn join_call(socket: &SocketDef) -> (r: String)
    ensures
        r@ == spec_rs_join_call(*socket),
{
    match find_message(&socket.inbound, "Join") {
        None => String::new(),
        Some(m) => {
            let call = render_socket_call(&m.handler);
            let mut s = String::from_str("    let frame = SocketFrame { kind: \"Join\".to_string(), data: json!({}), room: None };\n    ");
            s.append(call.as_str());
            s.append(";\n");
            s
        },
    }
}

fn exit_call(socket: &SocketDef) -> (r: String)
    ensures
        r@ == spec_rs_exit_call(*socket),
{
    match find_message(&socket.inbound, "Exit") {
        None => String::new(),
        Some(m) => {
            let call = render_socket_call(&m.handler);
            let mut s = String::from_str("    let frame = SocketFrame { kind: \"Exit\".to_string(), data: json!({}), room: None };\n    ");
            s.append(call.as_str());
            s.append(";\n");
            s
        },
    }
}

/// The built-in answer to `Ping`, unless the socket handles `Ping` itself.
pub open spec fn spec_rs_ping_builtin(socket: SocketDef) -> Seq<char> {
    if first_message(socket.inbound@, "Ping"@, 0) >= 0 {
        Seq::empty()
    } else {
        "            \"Ping\" => { ctx.send_raw(\"Pong\", json!({})); }\n"@
    }
}

fn ping_builtin(socket: &SocketDef) -> (r: String)
    ensures
        r@ == spec_rs_ping_builtin(*socket),
{
    match find_message(&socket.inbound, "Ping") {
        Some(_) => String::new(),
        None => String::from_str("            \"Ping\" => { ctx.send_raw(\"Pong\", json!({})); }\n"),
    }
}

/// The room registry of a socket, its connection counter, and its room
/// test.
pub open spec fn spec_rs_room_helpers(room_static: Seq<char>, id_static: Seq<char>, room_fn: Seq<char>, allowed_fn: Seq<char>, allowed_match: Seq<char>, room_arg: Seq<char>) -> Seq<char> {
    "\nstatic "@ + room_static + ": OnceLock<Mutex<HashMap<String, HashMap<u64, mpsc::UnboundedSender<Message>>>>> = OnceLock::new();\nstatic "@ + id_static + ": AtomicU64 = AtomicU64::new(1);\n\nfn "@ + room_fn + "() -> &'static Mutex<HashMap<String, HashMap<u64, mpsc::UnboundedSender<Message>>>> {\n    "@ + room_static + ".get_or_init(|| Mutex::new(HashMap::new()))\n}\n\nfn "@ + allowed_fn + "("@ + room_arg + ": &str) -> bool {\n    "@ + allowed_match + "\n}\n"@
}

fn room_helpers(room_static: &String, id_static: &String, room_fn: &String, allowed_fn: &String, allowed_match: &String, room_arg: &String) -> (r: String)
    ensures
        r@ == spec_rs_room_helpers(room_static@, id_static@, room_fn@, allowed_fn@, allowed_match@, room_arg@),
{
    let mut s = String::from_str("\nstatic ");
    s.append(room_static.as_str());
    s.append(": OnceLock<Mutex<HashMap<String, HashMap<u64, mpsc::UnboundedSender<Message>>>>> = OnceLock::new();\nstatic ");
    s.append(id_static.as_str());
    s.append(": AtomicU64 = AtomicU64::new(1);\n\nfn ");
    s.append(room_fn.as_str());
    s.append("() -> &'static Mutex<HashMap<String, HashMap<u64, mpsc::UnboundedSender<Message>>>> {\n    ");
    s.append(room_static.as_str());
    s.append(".get_or_init(|| Mutex::new(HashMap::new()))\n}\n\nfn ");
    s.append(allowed_fn.as_str());
    s.append("(");
    s.append(room_arg.as_str());
    s.append(": &str) -> bool {\n    ");
    s.append(allowed_match.as_str());
    s.append("\n}\n");
    s
}

/// The Rust code of one socket: its room helpers, its context type with
/// send and room methods, its upgrade handler and its connection loop.
#[verifier::opaque]
pub open spec fn rs_socket_template(room_helpers: Seq<char>, ctx_name: Seq<char>, outbound_methods: Seq<char>, handler_name: Seq<char>, handle_fn: Seq<char>, id_static: Seq<char>, service: Seq<char>, path: Seq<char>, auth_check: Seq<char>, header_check: Seq<char>, join_call: Seq<char>, allowed_fn: Seq<char>, middleware_calls: Seq<char>, rate_limit_check: Seq<char>, ping_builtin: Seq<char>, dispatch: Seq<char>, exit_call: Seq<char>, middleware_defs: Seq<char>, rate_limit_defs: Seq<char>) -> Seq<char> {
    "\n"@ + room_helpers + "\n#[derive(Clone)]\nstruct "@ + ctx_name + " {\n    headers: HeaderMap,\n    sender: mpsc::UnboundedSender<Message>,\n    id: u64,\n    room: Arc<Mutex<Option<String>>>,\n}\n\n#[allow(dead_code, non_snake_case)]\nimpl "@ + ctx_name + " {\n    fn set_room(&self, room: Option<String>) {\n        *self.room.lock().unwrap() = room;\n    }\n\n    fn room(&self) -> Option<String> {\n        self.room.lock().unwrap().clone()\n    }\n\n    fn send_raw(&self, kind: &str, data: Value) {\n        let frame = SocketFrame { kind: kind.to_string(), data, room: None };\n        if let Ok(text) = serde_json::to_string(&frame) {\n            let _ = self.sender.send(Message::Text(text));\n        }\n    }\n\n    fn send_error(&self, message: &str) {\n        self.send_raw(\"Error\", json!({ \"message\": message }));\n    }\n\n"@ + outbound_methods + "}\n\nasync fn "@ + handler_name + "(ws: WebSocketUpgrade, headers: HeaderMap) -> impl IntoResponse {\n    ws.on_upgrade(move |socket| "@ + handle_fn + "(socket, headers))\n}\n\nasync fn "@ + handle_fn + "(socket: WebSocket, headers: HeaderMap) {\n    let (mut ws_sender, mut ws_receiver) = socket.split();\n    let (tx, mut rx) = mpsc::unbounded_channel::<Message>();\n    let id = "@ + id_static + ".fetch_add(1, Ordering::Relaxed);\n    let ctx = "@ + ctx_name + " {\n        headers: headers.clone(),\n        sender: tx,\n        id,\n        room: Arc::new(Mutex::new(None)),\n    };\n    eprintln!(\"["@ + service + "] WS connect "@ + path + " -> OPEN\");\n\n    let send_task = tokio::spawn(async move {\n        while let Some(msg) = rx.recv().await {\n            let _ = ws_sender.send(msg).await;\n        }\n    });\n\n"@ + auth_check + header_check + join_call + "\n    while let Some(Ok(msg)) = ws_receiver.next().await {\n        if let Message::Text(text) = msg {\n            let parsed: Result<SocketFrame, _> = serde_json::from_str(&text);\n            let frame = match parsed {\n                Ok(frame) => frame,\n                Err(_) => {\n                    eprintln!(\"["@ + service + "] WS message "@ + path + " -> INVALID_MESSAGE\");\n                    ctx.send_error(\"invalid message\");\n                    continue;\n                }\n            };\n            if let Some(room) = frame.room.as_deref() {\n                if !"@ + allowed_fn + "(room) {\n                    eprintln!(\"["@ + service + "] WS message "@ + path + " -> INVALID_ROOM\");\n                    ctx.send_error(\"invalid room\");\n                    continue;\n                }\n            }\n            eprintln!(\n                \"["@ + service + "] WS message "@ + path + " -> type={} room={}\",\n                frame.kind,\n                frame.room.as_deref().unwrap_or(\"-\")\n            );\n            ctx.set_room(frame.room.clone());\n"@ + middleware_calls + rate_limit_check + "            match frame.kind.as_str() {\n"@ + ping_builtin + dispatch + "            }\n        }\n    }\n"@ + exit_call + "\n    eprintln!(\"["@ + service + "] WS disconnect "@ + path + " -> CLOSED\");\n    ctx.leave_all_rooms();\n    drop(ctx);\n    let _ = send_task.abort();\n}\n\n"@ + middleware_defs + "\n"@ + rate_limit_defs + "\n"@
}

pub open spec fn spec_rs_render_socket_helper(svc: Service, socket: SocketDef) -> Seq<char> {
    let code = spec_code_name(socket.name);
    let up = unicode_uppercase(code);
    let snake = spec_to_snake_case(code);
    let ctx = code + "SocketContext"@;
    let handler = spec_socket_handler_name(code);
    let room_fn = "socket_rooms_"@ + snake;
    let allowed_fn = "socket_room_allowed_"@ + snake;
    rs_socket_template(
        spec_rs_room_helpers(
            "SOCKET_ROOMS_"@ + up,
            "SOCKET_CONN_ID_"@ + up,
            room_fn,
            allowed_fn,
            spec_allowed_match(socket),
            spec_room_arg(socket),
        ),
        ctx,
        spec_rs_outbound_methods(allowed_fn, room_fn, socket.outbound@),
        handler,
        "handle_"@ + handler,
        "SOCKET_CONN_ID_"@ + up,
        svc.name@,
        socket.path@,
        spec_rs_socket_auth_check(socket),
        spec_rs_socket_header_check(socket),
        spec_rs_join_call(socket),
        allowed_fn,
        spec_rs_socket_middleware_calls(socket),
        spec_rs_socket_rate_limit_check(socket),
        spec_rs_ping_builtin(socket),
        spec_rs_dispatch(socket),
        spec_rs_exit_call(socket),
        spec_rs_socket_middleware_defs(socket),
        spec_rs_socket_rate_limit_defs(socket),
    )
}

pub fn render_socket_helper(service: &Service, socket: &SocketDef) -> (r: String)
    ensures
        r@ == spec_rs_render_socket_helper(*service, *socket),
{
    let code = socket.name.code_name();
    let up = to_uppercase(code.as_str());
    let snake = to_snake_case(code.as_str());
    let mut ctx_name = String::from_str(code.as_str());
    ctx_name.append("SocketContext");
    let handler_name = socket_handler_name(code.as_str());
    let mut handle_fn = String::from_str("handle_");
    handle_fn.append(handler_name.as_str());
    let mut room_static = String::from_str("SOCKET_ROOMS_");
    room_static.append(up.as_str());
    let mut id_static = String::from_str("SOCKET_CONN_ID_");
    id_static.append(up.as_str());
    let mut room_fn = String::from_str("socket_rooms_");
    room_fn.append(snake.as_str());
    let mut allowed_fn = String::from_str("socket_room_allowed_");
    allowed_fn.append(snake.as_str());
    let allowed_match = allowed_match(socket);
    let room_arg = if socket.rooms.len() == 0 {
        String::from_str("_room")
    } else {
        String::from_str("room")
    };
    let room_helpers = room_helpers(&room_static, &id_static, &room_fn, &allowed_fn, &allowed_match, &room_arg);
    let outbound_methods = outbound_methods(&allowed_fn, &room_fn, &socket.outbound);
    let auth_check = render_socket_auth_check(socket);
    let header_check = render_socket_header_check(socket);
    let join_call = join_call(socket);
    let middleware_calls = render_socket_middleware_calls(socket);
    let rate_limit_check = render_socket_rate_limit_check(socket);
    let ping_builtin = ping_builtin(socket);
    let dispatch = render_dispatch(socket);
    let exit_call = exit_call(socket);
    let middleware_defs = render_socket_middleware_defs(socket);
    let rate_limit_defs = render_socket_rate_limit_defs(socket);
    let mut s = String::from_str("\n");
    s.append(room_helpers.as_str());
    s.append("\n#[derive(Clone)]\nstruct ");
    s.append(ctx_name.as_str());
    s.append(" {\n    headers: HeaderMap,\n    sender: mpsc::UnboundedSender<Message>,\n    id: u64,\n    room: Arc<Mutex<Option<String>>>,\n}\n\n#[allow(dead_code, non_snake_case)]\nimpl ");
    s.append(ctx_name.as_str());
    s.append(" {\n    fn set_room(&self, room: Option<String>) {\n        *self.room.lock().unwrap() = room;\n    }\n\n    fn room(&self) -> Option<String> {\n        self.room.lock().unwrap().clone()\n    }\n\n    fn send_raw(&self, kind: &str, data: Value) {\n        let frame = SocketFrame { kind: kind.to_string(), data, room: None };\n        if let Ok(text) = serde_json::to_string(&frame) {\n            let _ = self.sender.send(Message::Text(text));\n        }\n    }\n\n    fn send_error(&self, message: &str) {\n        self.send_raw(\"Error\", json!({ \"message\": message }));\n    }\n\n");
    s.append(outbound_methods.as_str());
    s.append("}\n\nasync fn ");
    s.append(handler_name.as_str());
    s.append("(ws: WebSocketUpgrade, headers: HeaderMap) -> impl IntoResponse {\n    ws.on_upgrade(move |socket| ");
    s.append(handle_fn.as_str());
    s.append("(socket, headers))\n}\n\nasync fn ");
    s.append(handle_fn.as_str());
    s.append("(socket: WebSocket, headers: HeaderMap) {\n    let (mut ws_sender, mut ws_receiver) = socket.split();\n    let (tx, mut rx) = mpsc::unbounded_channel::<Message>();\n    let id = ");
    s.append(id_static.as_str());
    s.append(".fetch_add(1, Ordering::Relaxed);\n    let ctx = ");
    s.append(ctx_name.as_str());
    s.append(" {\n        headers: headers.clone(),\n        sender: tx,\n        id,\n        room: Arc::new(Mutex::new(None)),\n    };\n    eprintln!(\"[");
    s.append(service.name.as_str());
    s.append("] WS connect ");
    s.append(socket.path.as_str());
    s.append(" -> OPEN\");\n\n    let send_task = tokio::spawn(async move {\n        while let Some(msg) = rx.recv().await {\n            let _ = ws_sender.send(msg).await;\n        }\n    });\n\n");
    s.append(auth_check.as_str());
    s.append(header_check.as_str());
    s.append(join_call.as_str());
    s.append("\n    while let Some(Ok(msg)) = ws_receiver.next().await {\n        if let Message::Text(text) = msg {\n            let parsed: Result<SocketFrame, _> = serde_json::from_str(&text);\n            let frame = match parsed {\n                Ok(frame) => frame,\n                Err(_) => {\n                    eprintln!(\"[");
    s.append(service.name.as_str());
    s.append("] WS message ");
    s.append(socket.path.as_str());
    s.append(" -> INVALID_MESSAGE\");\n                    ctx.send_error(\"invalid message\");\n                    continue;\n                }\n            };\n            if let Some(room) = frame.room.as_deref() {\n                if !");
    s.append(allowed_fn.as_str());
    s.append("(room) {\n                    eprintln!(\"[");
    s.append(service.name.as_str());
    s.append("] WS message ");
    s.append(socket.path.as_str());
    s.append(" -> INVALID_ROOM\");\n                    ctx.send_error(\"invalid room\");\n                    continue;\n                }\n            }\n            eprintln!(\n                \"[");
    s.append(service.name.as_str());
    s.append("] WS message ");
    s.append(socket.path.as_str());
    s.append(" -> type={} room={}\",\n                frame.kind,\n                frame.room.as_deref().unwrap_or(\"-\")\n            );\n            ctx.set_room(frame.room.clone());\n");
    s.append(middleware_calls.as_str());
    s.append(rate_limit_check.as_str());
    s.append("            match frame.kind.as_str() {\n");
    s.append(ping_builtin.as_str());
    s.append(dispatch.as_str());
    s.append("            }\n        }\n    }\n");
    s.append(exit_call.as_str());
    s.append("\n    eprintln!(\"[");
    s.append(service.name.as_str());
    s.append("] WS disconnect ");
    s.append(socket.path.as_str());
    s.append(" -> CLOSED\");\n    ctx.leave_all_rooms();\n    drop(ctx);\n    let _ = send_task.abort();\n}\n\n");
    s.append(middleware_defs.as_str());
    s.append("\n");
    s.append(rate_limit_defs.as_str());
    s.append("\n");
    proof {
        reveal(rs_socket_template);
    }
    s
}

pub open spec fn rs_socket_helper_fn(svc: Service) -> spec_fn(SocketDef) -> Seq<char> {
    |s: SocketDef| spec_rs_render_socket_helper(svc, s) + "\n"@
}

/// The frame type, then each socket's code followed by a blank line;
/// nothing when the service has no socket.
pub open spec fn spec_rs_render_socket_helpers(svc: Service) -> Seq<char> {
    if svc.sockets.sockets@.len() == 0 {
        Seq::empty()
    } else {
        "\n#[derive(Debug, Serialize, Deserialize)]\nstruct SocketFrame {\n    #[serde(rename = \"type\")]\n    kind: String,\n    data: Value,\n    #[serde(skip_serializing_if = \"Option::is_none\")]\n    room: Option<String>,\n}\n"@ + concat_all(svc.sockets.sockets@, rs_socket_helper_fn(svc))
    }
}

pub fn render_socket_helpers(service: &Service) -> (r: String)
    ensures
        r@ == spec_rs_render_socket_helpers(*service),
{
    if service.sockets.sockets.len() == 0 {
        return String::new();
    }
    let v = &service.sockets.sockets;
    let mut out = String::from_str("\n#[derive(Debug, Serialize, Deserialize)]\nstruct SocketFrame {\n    #[serde(rename = \"type\")]\n    kind: String,\n    data: Value,\n    #[serde(skip_serializing_if = \"Option::is_none\")]\n    room: Option<String>,\n}\n");
    let ghost head = out@;
    let mut i: usize = 0;
    while i < v.len()
        invariant
            0 <= i <= v@.len(),
            v@ == service.sockets.sockets@,
            out@ == head + concat_all(v@.take(i as int), rs_socket_helper_fn(*service)),
        decreases v@.len() - i,
    {
        proof {
            lemma_concat_all_step(v@, i as int, rs_socket_helper_fn(*service));
        }
        let h = render_socket_helper(service, &v[i]);
        out.append(h.as_str());
        out.append("\n");
        i += 1;
        assert(out@ =~= head + concat_all(v@.take(i as int), rs_socket_helper_fn(*service)));
    }
    proof {
        lemma_take_full(v@);
    }
    out
}

} // verus!
