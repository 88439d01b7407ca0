//! The WebSocket endpoints of the Go server: one handler per socket with
//! its rooms, message dispatch, checks and helpers.

use vstd::prelude::*;

use crate::generators::common::headers::{header_runtime_key, spec_header_runtime_key};
use crate::generators::go::util::{spec_go_field_name, to_go_func_name};
use crate::ir::{spec_code_name, AuthSpec, CallSpec, Field, Service, SocketDef, SocketMessage, SocketTrigger, TypeName};
use crate::text::{concat_all, dec_nat, lemma_concat_all_step, lemma_take_full, str_eq, u64_to_string};

verus! {

pub open spec fn spec_socket_handler_name(raw: Seq<char>) -> Seq<char> {
    "ws"@ + spec_go_field_name(raw)
}

pub fn socket_handler_name(raw: &str) -> (r: String)
    ensures
        r@ == spec_socket_handler_name(raw@),
{
    let mut s = String::from_str("ws");
    let n = to_go_func_name(raw);
    s.append(n.as_str());
    s
}

/// The Go statement that hands a frame to a module function (in a
/// goroutine when the call is asynchronous).
pub open spec fn spec_socket_call(call: CallSpec) -> Seq<char> {
    if call.is_async {
        "go func() { "@ + call.module@ + "."@ + call.function@ + "(ctx, frame.Data) }()"@
    } else {
        call.module@ + "."@ + call.function@ + "(ctx, frame.Data)"@
    }
}

pub fn render_socket_call(call: &CallSpec) -> (r: String)
    ensures
        r@ == spec_socket_call(*call),
{
    if call.is_async {
        let mut s = String::from_str("go func() { ");
        s.append(call.module.as_str());
        s.append(".");
        s.append(call.function.as_str());
        s.append("(ctx, frame.Data) }()");
        s
    } else {
        let mut s = String::from_str(call.module.as_str());
        s.append(".");
        s.append(call.function.as_str());
        s.append("(ctx, frame.Data)");
        s
    }
}

pub open spec fn spec_socket_auth_check(socket: SocketDef) -> Seq<char> {
    match socket.auth {
        Some(AuthSpec::Bearer) => "    if r.Header.Get(\"authorization\") == \"\" {\n        _ = ctx.SendError(\"missing authorization\")\n        return\n    }\n"@,
        Some(AuthSpec::ApiKey) => "    if r.Header.Get(\"x-api-key\") == \"\" {\n        _ = ctx.SendError(\"missing api key\")\n        return\n    }\n"@,
        _ => Seq::empty(),
    }
}

pub fn render_socket_auth_check(socket: &SocketDef) -> (r: String)
    ensures
        r@ == spec_socket_auth_check(*socket),
{
    match socket.auth {
        Some(AuthSpec::Bearer) => String::from_str("    if r.Header.Get(\"authorization\") == \"\" {\n        _ = ctx.SendError(\"missing authorization\")\n        return\n    }\n"),
        Some(AuthSpec::ApiKey) => String::from_str("    if r.Header.Get(\"x-api-key\") == \"\" {\n        _ = ctx.SendError(\"missing api key\")\n        return\n    }\n"),
        _ => String::new(),
    }
}

/// The check that a required header is present.
pub open spec fn spec_socket_header_line(f: Field) -> Seq<char> {
    if f.optional {
        Seq::empty()
    } else {
        "    if r.Header.Get(\""@ + spec_header_runtime_key(f.name@) + "\") == \"\" {\n        _ = ctx.SendError(\"missing header "@ + f.name@ + "\")\n        return\n    }\n"@
    }
}

pub open spec fn socket_header_line_fn() -> spec_fn(Field) -> Seq<char> {
    |f: Field| spec_socket_header_line(f)
}

pub open spec fn spec_socket_header_check(socket: SocketDef) -> Seq<char> {
    concat_all(socket.headers@, socket_header_line_fn())
}

fn socket_header_line(f: &Field) -> (r: String)
    ensures
        r@ == spec_socket_header_line(*f),
{
    if f.optional {
        String::new()
    } else {
        let key = header_runtime_key(f.name.as_str());
            let mut s = String::from_str("    if r.Header.Get(\"");
            s.append(key.as_str());
            s.append("\") == \"\" {\n        _ = ctx.SendError(\"missing header ");
            s.append(f.name.as_str());
            s.append("\")\n        return\n    }\n");
        s
    }
}

pub fn render_socket_header_check(socket: &SocketDef) -> (r: String)
    ensures
        r@ == spec_socket_header_check(*socket),
{
    let v = &socket.headers;
    let mut out = String::new();
    let mut i: usize = 0;
    while i < v.len()
        invariant
            0 <= i <= v@.len(),
            out@ == concat_all(v@.take(i as int), socket_header_line_fn()),
        decreases v@.len() - i,
    {
        proof {
            lemma_concat_all_step(v@, i as int, socket_header_line_fn());
        }
        let line = socket_header_line(&v[i]);
        out.append(line.as_str());
        i += 1;
    }
    proof {
        lemma_take_full(v@);
    }
    out
}

pub open spec fn socket_mw_call_fn() -> spec_fn(String) -> Seq<char> {
    |n: String| {
        let name = n@;
        "        if err := ws_"@ + name + "(ctx, frame.Type); err != nil {\n            _ = ctx.SendError(err.Error())\n            continue\n        }\n"@
    }
}

/// The middleware each frame goes through.
pub open spec fn spec_socket_middleware_calls(socket: SocketDef) -> Seq<char> {
    concat_all(socket.middleware@, socket_mw_call_fn())
}

pub fn render_socket_middleware_calls(socket: &SocketDef) -> (r: String)
    ensures
        r@ == spec_socket_middleware_calls(*socket),
{
    let v = &socket.middleware;
    let mut out = String::new();
    let mut i: usize = 0;
    while i < v.len()
        invariant
            0 <= i <= v@.len(),
            out@ == concat_all(v@.take(i as int), socket_mw_call_fn()),
        decreases v@.len() - i,
    {
        proof {
            lemma_concat_all_step(v@, i as int, socket_mw_call_fn());
        }
        let name = &v[i];
        let mut s = String::from_str("        if err := ws_");
        s.append(name.as_str());
        s.append("(ctx, frame.Type); err != nil {\n            _ = ctx.SendError(err.Error())\n            continue\n        }\n");
        out.append(s.as_str());
        i += 1;
    }
    proof {
        lemma_take_full(v@);
    }
    out
}

pub open spec fn socket_context_name(socket: SocketDef) -> Seq<char> {
    spec_code_name(socket.name) + "SocketContext"@
}

pub open spec fn socket_mw_def_fn(ctx: Seq<char>) -> spec_fn(String) -> Seq<char> {
    |n: String| {
        let name = n@;
        "func ws_"@ + name + "(_ctx *"@ + ctx + ", message string) error {\n    kind := strings.TrimSpace(message)\n    if kind == \"\" {\n        return fmt.Errorf(\"empty socket message kind\")\n    }\n    if len(kind) > 128 {\n        return fmt.Errorf(\"socket message kind is too long\")\n    }\n    return nil\n}\n\n"@
    }
}

/// A default definition of each socket middleware: it refuses an empty
/// or overlong message kind.
pub open spec fn spec_socket_middleware_defs(socket: SocketDef) -> Seq<char> {
    concat_all(socket.middleware@, socket_mw_def_fn(socket_context_name(socket)))
}

fn context_name(socket: &SocketDef) -> (r: String)
    ensures
        r@ == socket_context_name(*socket),
{
    let mut s = socket.name.code_name();
    s.append("SocketContext");
    s
}

pub fn render_socket_middleware_defs(socket: &SocketDef) -> (r: String)
    ensures
        r@ == spec_socket_middleware_defs(*socket),
{
    let ctx = context_name(socket);
    let ghost f = socket_mw_def_fn(ctx@);
    let v = &socket.middleware;
    let mut out = String::new();
    let mut i: usize = 0;
    while i < v.len()
        invariant
            0 <= i <= v@.len(),
            f == socket_mw_def_fn(ctx@),
            out@ == concat_all(v@.take(i as int), f),
        decreases v@.len() - i,
    {
        proof {
            lemma_concat_all_step(v@, i as int, f);
        }
        let name = &v[i];
        let mut s = String::from_str("func ws_");
        s.append(name.as_str());
        s.append("(_ctx *");
        s.append(ctx.as_str());
        s.append(", message string) error {\n    kind := strings.TrimSpace(message)\n    if kind == \"\" {\n        return fmt.Errorf(\"empty socket message kind\")\n    }\n    if len(kind) > 128 {\n        return fmt.Errorf(\"socket message kind is too long\")\n    }\n    return nil\n}\n\n");
        out.append(s.as_str());
        i += 1;
    }
    proof {
        lemma_take_full(v@);
    }
    out
}

pub open spec fn spec_socket_rate_limit_defs(socket: SocketDef) -> Seq<char> {
    match socket.rate_limit {
        Some(l) => "var rateLimit"@ + spec_code_name(socket.name) + " = rateLimit{max: "@ + dec_nat(l.max as nat) + ", window: time.Duration("@ + dec_nat(l.per_seconds as nat) + ") * time.Second}\n\n"@,
        None => Seq::empty(),
    }
}

pub fn render_socket_rate_limit_defs(socket: &SocketDef) -> (r: String)
    ensures
        r@ == spec_socket_rate_limit_defs(*socket),
{
    match socket.rate_limit {
        Some(l) => {
            let code = socket.name.code_name();
            let mx = u64_to_string(l.max as u64);
            let win = u64_to_string(l.per_seconds);
            let mut s = String::from_str("var rateLimit");
            s.append(code.as_str());
            s.append(" = rateLimit{max: ");
            s.append(mx.as_str());
            s.append(", window: time.Duration(");
            s.append(win.as_str());
            s.append(") * time.Second}\n\n");
            s
        },
        None => String::new(),
    }
}

pub open spec fn spec_socket_rate_limit_check(socket: SocketDef) -> Seq<char> {
    if socket.rate_limit is Some {
        "        if !rateLimit"@ + spec_code_name(socket.name) + ".Allow() {\n            _ = ctx.SendError(\"rate limited\")\n            continue\n        }\n"@
    } else {
        Seq::empty()
    }
}

pub fn render_socket_rate_limit_check(socket: &SocketDef) -> (r: String)
    ensures
        r@ == spec_socket_rate_limit_check(*socket),
{
    if socket.rate_limit.is_none() {
        return String::new();
    }
    let code = socket.name.code_name();
        let mut s = String::from_str("        if !rateLimit");
        s.append(code.as_str());
        s.append(".Allow() {\n            _ = ctx.SendError(\"rate limited\")\n            continue\n        }\n");
    s
}

pub open spec fn room_case_fn() -> spec_fn(String) -> Seq<char> {
    |r: String| {
        let room = r@;
        "    case \""@ + room + "\":\n        return true\n"@
    }
}

/// The body of the function telling whether a room is one the socket
/// declares (any room when it declares none).
pub open spec fn spec_room_allowed_body(socket: SocketDef) -> Seq<char> {
    if socket.rooms@.len() == 0 {
        "    return true\n"@
    } else {
        "    switch room {\n"@ + concat_all(socket.rooms@, room_case_fn()) + "    default:\n        return false\n    }\n"@
    }
}

fn room_allowed_body(socket: &SocketDef) -> (r: String)
    ensures
        r@ == spec_room_allowed_body(*socket),
{
    if socket.rooms.len() == 0 {
        return String::from_str("    return true\n");
    }
    let v = &socket.rooms;
    let mut cases = String::new();
    let mut i: usize = 0;
    while i < v.len()
        invariant
            0 <= i <= v@.len(),
            cases@ == concat_all(v@.take(i as int), room_case_fn()),
        decreases v@.len() - i,
    {
        proof {
            lemma_concat_all_step(v@, i as int, room_case_fn());
        }
        let room = &v[i];
        let mut s = String::from_str("    case \"");
        s.append(room.as_str());
        s.append("\":\n        return true\n");
        cases.append(s.as_str());
        i += 1;
    }
    proof {
        lemma_take_full(v@);
    }
    let mut s = String::from_str("    switch room {\n");
    s.append(cases.as_str());
    s.append("    default:\n        return false\n    }\n");
    s
}

pub open spec fn send_method_fn(ctx: Seq<char>) -> spec_fn(SocketMessage) -> Seq<char> {
    |m: SocketMessage| "func (ctx *"@ + ctx + ") Send"@ + spec_code_name(m.name) + "(data any) error {\n    return ctx.SendRaw(\""@ + spec_code_name(m.name) + "\", data)\n}\n\n"@
}

/// A `Send<Message>` method per outbound message, then the room methods.
pub open spec fn spec_outbound_methods(ctx: Seq<char>, allowed: Seq<char>, room_reg: Seq<char>, msgs: Seq<SocketMessage>) -> Seq<char> {
    concat_all(msgs, send_method_fn(ctx)) + "func (ctx *"@ + ctx + ") SendRoom(room string, kind string, data any) error {\n    if !"@ + allowed + "(room) {\n        return ctx.SendError(\"invalid room\")\n    }\n    frame := map[string]any{\"type\": kind, \"data\": data, \"room\": room}\n    rooms := &"@ + room_reg + "\n    rooms.Lock()\n    members := rooms.m[room]\n    rooms.Unlock()\n    for conn := range members {\n        _ = conn.WriteJSON(frame)\n    }\n    return nil\n}\n\nfunc (ctx *"@ + ctx + ") JoinRoom(room string) {\n    if !"@ + allowed + "(room) {\n        _ = ctx.SendError(\"invalid room\")\n        return\n    }\n    rooms := &"@ + room_reg + "\n    rooms.Lock()\n    members, ok := rooms.m[room]\n    if !ok {\n        members = map[*websocket.Conn]bool{}\n        rooms.m[room] = members\n    }\n    members[ctx.Conn] = true\n    rooms.Unlock()\n}\n\nfunc (ctx *"@ + ctx + ") LeaveRoom(room string) {\n    rooms := &"@ + room_reg + "\n    rooms.Lock()\n    if members, ok := rooms.m[room]; ok {\n        delete(members, ctx.Conn)\n        if len(members) == 0 {\n            delete(rooms.m, room)\n        }\n    }\n    rooms.Unlock()\n}\n\nfunc (ctx *"@ + ctx + ") LeaveAllRooms() {\n    rooms := &"@ + room_reg + "\n    rooms.Lock()\n    for room, members := range rooms.m {\n        delete(members, ctx.Conn)\n        if len(members) == 0 {\n            delete(rooms.m, room)\n        }\n    }\n    rooms.Unlock()\n}\n\n"@
}

fn outbound_methods(ctx: &String, allowed: &String, room_reg: &String, msgs: &Vec<SocketMessage>) -> (r: String)
    ensures
        r@ == spec_outbound_methods(ctx@, allowed@, room_reg@, msgs@),
{
    let ghost f = send_method_fn(ctx@);
    let mut out = String::new();
    let mut i: usize = 0;
    while i < msgs.len()
        invariant
            0 <= i <= msgs@.len(),
            f == send_method_fn(ctx@),
            out@ == concat_all(msgs@.take(i as int), f),
        decreases msgs@.len() - i,
    {
        proof {
            lemma_concat_all_step(msgs@, i as int, f);
        }
        let m = &msgs[i];
        let name = m.name.code_name();
        let mut s = String::from_str("func (ctx *");
        s.append(ctx.as_str());
        s.append(") Send");
        s.append(name.as_str());
        s.append("(data any) error {\n    return ctx.SendRaw(\"");
        s.append(name.as_str());
        s.append("\", data)\n}\n\n");
        out.append(s.as_str());
        i += 1;
    }
    proof {
        lemma_take_full(msgs@);
    }
    let mut s = String::from_str("func (ctx *");
    s.append(ctx.as_str());
    s.append(") SendRoom(room string, kind string, data any) error {\n    if !");
    s.append(allowed.as_str());
    s.append("(room) {\n        return ctx.SendError(\"invalid room\")\n    }\n    frame := map[string]any{\"type\": kind, \"data\": data, \"room\": room}\n    rooms := &");
    s.append(room_reg.as_str());
    s.append("\n    rooms.Lock()\n    members := rooms.m[room]\n    rooms.Unlock()\n    for conn := range members {\n        _ = conn.WriteJSON(frame)\n    }\n    return nil\n}\n\nfunc (ctx *");
    s.append(ctx.as_str());
    s.append(") JoinRoom(room string) {\n    if !");
    s.append(allowed.as_str());
    s.append("(room) {\n        _ = ctx.SendError(\"invalid room\")\n        return\n    }\n    rooms := &");
    s.append(room_reg.as_str());
    s.append("\n    rooms.Lock()\n    members, ok := rooms.m[room]\n    if !ok {\n        members = map[*websocket.Conn]bool{}\n        rooms.m[room] = members\n    }\n    members[ctx.Conn] = true\n    rooms.Unlock()\n}\n\nfunc (ctx *");
    s.append(ctx.as_str());
    s.append(") LeaveRoom(room string) {\n    rooms := &");
    s.append(room_reg.as_str());
    s.append("\n    rooms.Lock()\n    if members, ok := rooms.m[room]; ok {\n        delete(members, ctx.Conn)\n        if len(members) == 0 {\n            delete(rooms.m, room)\n        }\n    }\n    rooms.Unlock()\n}\n\nfunc (ctx *");
    s.append(ctx.as_str());
    s.append(") LeaveAllRooms() {\n    rooms := &");
    s.append(room_reg.as_str());
    s.append("\n    rooms.Lock()\n    for room, members := range rooms.m {\n        delete(members, ctx.Conn)\n        if len(members) == 0 {\n            delete(rooms.m, room)\n        }\n    }\n    rooms.Unlock()\n}\n\n");
    out.append(s.as_str());
    out
}

/// The first trigger named like a message, or -1.
pub open spec fn first_trigger(triggers: Seq<SocketTrigger>, name: TypeName, j: int) -> int
    decreases triggers.len() - j,
{
    if j < 0 || j >= triggers.len() {
        -1
    } else if triggers[j].name.name@ == name.name@ && triggers[j].name.version == name.version {
        j
    } else {
        first_trigger(triggers, name, j + 1)
    }
}

/// The check that a frame of a message bound to a room names that room.
pub open spec fn spec_room_guard(triggers: Seq<SocketTrigger>, name: TypeName) -> Seq<char> {
    let k = first_trigger(triggers, name, 0);
    if k < 0 {
        Seq::empty()
    } else {
        match triggers[k].room {
            Some(r) => {
                let room = r@;
                "            if frame.Room != \""@ + room + "\" {\n                _ = ctx.SendError(\"invalid room\")\n                continue\n            }\n"@
            },
            None => Seq::empty(),
        }
    }
}

fn room_guard(triggers: &Vec<SocketTrigger>, name: &TypeName) -> (r: String)
    ensures
        r@ == spec_room_guard(triggers@, *name),
{
    let mut j: usize = 0;
    while j < triggers.len()
        invariant
            0 <= j <= triggers@.len(),
            first_trigger(triggers@, *name, 0) == first_trigger(triggers@, *name, j as int),
        decreases triggers@.len() - j,
    {
        let t = &triggers[j];
        let same = str_eq(t.name.name.as_str(), name.name.as_str()) && match (t.name.version, name.version) {
            (Some(a), Some(b)) => a == b,
            (None, None) => true,
            _ => false,
        };
        if same {
            match &t.room {
                Some(room) => {
            let mut s = String::from_str("            if frame.Room != \"");
            s.append(room.as_str());
            s.append("\" {\n                _ = ctx.SendError(\"invalid room\")\n                continue\n            }\n");
                    return s;
                },
                None => {
                    return String::new();
                },
            }
        }
        j += 1;
    }
    String::new()
}

pub open spec fn dispatch_case_fn(triggers: Seq<SocketTrigger>) -> spec_fn(SocketMessage) -> Seq<char> {
    |m: SocketMessage| if m.name.name@ == "Ping"@ {
        "        case \"Ping\":\n            _ = ctx.SendRaw(\"Pong\", map[string]any{})\n"@ + spec_room_guard(triggers, m.name) + "            "@ + spec_socket_call(m.handler) + "\n"@
    } else {
        "        case \""@ + spec_code_name(m.name) + "\":\n"@ + spec_room_guard(triggers, m.name) + "            "@ + spec_socket_call(m.handler) + "\n"@
    }
}

/// The `case` of each inbound message, then the default case.
pub open spec fn spec_dispatch(socket: SocketDef) -> Seq<char> {
    concat_all(socket.inbound@, dispatch_case_fn(socket.triggers@)) + "        default:\n            _ = ctx.SendError(\"unknown message\")\n"@
}

fn dispatch_case(triggers: &Vec<SocketTrigger>, m: &SocketMessage) -> (r: String)
    ensures
        r@ == dispatch_case_fn(triggers@)(*m),
{
    let guard = room_guard(triggers, &m.name);
    let call = render_socket_call(&m.handler);
    if str_eq(m.name.name.as_str(), "Ping") {
        let mut s = String::from_str("        case \"Ping\":\n            _ = ctx.SendRaw(\"Pong\", map[string]any{})\n");
        s.append(guard.as_str());
        s.append("            ");
        s.append(call.as_str());
        s.append("\n");
        s
    } else {
        let name = m.name.code_name();
        let mut s = String::from_str("        case \"");
        s.append(name.as_str());
        s.append("\":\n");
        s.append(guard.as_str());
        s.append("            ");
        s.append(call.as_str());
        s.append("\n");
        s
    }
}

fn render_dispatch(socket: &SocketDef) -> (r: String)
    ensures
        r@ == spec_dispatch(*socket),
{
    let ghost f = dispatch_case_fn(socket.triggers@);
    let v = &socket.inbound;
    let mut out = String::new();
    let mut i: usize = 0;
    while i < v.len()
        invariant
            0 <= i <= v@.len(),
            f == dispatch_case_fn(socket.triggers@),
            out@ == concat_all(v@.take(i as int), f),
        decreases v@.len() - i,
    {
        proof {
            lemma_concat_all_step(v@, i as int, f);
        }
        let c = dispatch_case(&socket.triggers, &v[i]);
        out.append(c.as_str());
        i += 1;
    }
    proof {
        lemma_take_full(v@);
    }
    out.append("        default:\n            _ = ctx.SendError(\"unknown message\")\n");
    out
}

/// The first inbound message called `name`, or -1.
pub open spec fn first_message(msgs: Seq<SocketMessage>, name: Seq<char>, j: int) -> int
    decreases msgs.len() - j,
{
    if j < 0 || j >= msgs.len() {
        -1
    } else if msgs[j].name.name@ == name {
        j
    } else {
        first_message(msgs, name, j + 1)
    }
}

proof fn lemma_first_message_range(msgs: Seq<SocketMessage>, name: Seq<char>, j: int)
    requires
        0 <= j,
    ensures
        first_message(msgs, name, j) == -1 || (j <= first_message(msgs, name, j) < msgs.len()),
    decreases msgs.len() - j,
{
    if j < msgs.len() && msgs[j].name.name@ != name {
        lemma_first_message_range(msgs, name, j + 1);
    }
}

pub fn find_message<'a>(msgs: &'a Vec<SocketMessage>, name: &str) -> (r: Option<&'a SocketMessage>)
    ensures
        match r {
            Some(m) => first_message(msgs@, name@, 0) >= 0 && *m == msgs@[first_message(msgs@, name@, 0)],
            None => first_message(msgs@, name@, 0) < 0,
        },
{
    proof {
        lemma_first_message_range(msgs@, name@, 0);
    }
    let mut j: usize = 0;
    while j < msgs.len()
        invariant
            0 <= j <= msgs@.len(),
            first_message(msgs@, name@, 0) == first_message(msgs@, name@, j as int),
        decreases msgs@.len() - j,
    {
        if str_eq(msgs[j].name.name.as_str(), name) {
            return Some(&msgs[j]);
        }
        j += 1;
    }
    None
}

/// The `Join` handler run when a client connects, if the socket has one.
pub open spec fn spec_join_call(socket: SocketDef) -> Seq<char> {
    let k = first_message(socket.inbound@, "Join"@, 0);
    if k < 0 {
        Seq::empty()
    } else {
        "    {\n        frame := socketFrameIn{Type: \"Join\", Data: json.RawMessage(`{}`)}\n        "@ + spec_socket_call(socket.inbound@[k].handler) + "\n    }\n"@
    }
}

/// The `Exit` handler run when a client leaves, if the socket has one.
pub open spec fn spec_exit_call(socket: SocketDef) -> Seq<char> {
    let k = first_message(socket.inbound@, "Exit"@, 0);
    if k < 0 {
        Seq::empty()
    } else {
        "    {\n        frame := socketFrameIn{Type: \"Exit\", Data: json.RawMessage(`{}`)}\n        "@ + spec_socket_call(socket.inbound@[k].handler) + "\n    }\n"@
    }
}

fn join_call(socket: &SocketDef) -> (r: String)
    ensures
        r@ == spec_join_call(*socket),
{
    match find_message(&socket.inbound, "Join") {
        None => String::new(),
        Some(m) => {
            let call = render_socket_call(&m.handler);
            let mut s = String::from_str("    {\n        frame := socketFrameIn{Type: \"Join\", Data: json.RawMessage(`{}`)}\n        ");
            s.append(call.as_str());
            s.append("\n    }\n");
            s
        },
    }
}

fn exit_call(socket: &SocketDef) -> (r: String)
    ensures
        r@ == spec_exit_call(*socket),
{
    match find_message(&socket.inbound, "Exit") {
        None => String::new(),
        Some(m) => {
            let call = render_socket_call(&m.handler);
            let mut s = String::from_str("    {\n        frame := socketFrameIn{Type: \"Exit\", Data: json.RawMessage(`{}`)}\n        ");
            s.append(call.as_str());
            s.append("\n    }\n");
            s
        },
    }
}

/// The built-in answer to `Ping`, unless the socket handles `Ping` itself.
pub open spec fn spec_ping_builtin(socket: SocketDef) -> Seq<char> {
    if first_message(socket.inbound@, "Ping"@, 0) >= 0 {
        Seq::empty()
    } else {
        "        case \"Ping\":\n            _ = ctx.SendRaw(\"Pong\", map[string]any{})\n"@
    }
}

fn ping_builtin(socket: &SocketDef) -> (r: String)
    ensures
        r@ == spec_ping_builtin(*socket),
{
    match find_message(&socket.inbound, "Ping") {
        Some(_) => String::new(),
        None => String::from_str("        case \"Ping\":\n            _ = ctx.SendRaw(\"Pong\", map[string]any{})\n"),
    }
}

/// The room registry of a socket and its room test.
pub open spec fn spec_room_helpers(socket: SocketDef, room_reg: Seq<char>, room_allowed: Seq<char>) -> Seq<char> {
    "var "@ + room_reg + " = struct { sync.Mutex; m map[string]map[*websocket.Conn]bool }{m: map[string]map[*websocket.Conn]bool{}}\n\nfunc "@ + room_allowed + "(room string) bool {\n"@ + spec_room_allowed_body(socket) + "\n}\n\n"@
}

fn room_helpers(socket: &SocketDef, room_reg: &String, room_allowed: &String) -> (r: String)
    ensures
        r@ == spec_room_helpers(*socket, room_reg@, room_allowed@),
{
    let allowed = room_allowed_body(socket);
    let mut s = String::from_str("var ");
    s.append(room_reg.as_str());
    s.append(" = struct { sync.Mutex; m map[string]map[*websocket.Conn]bool }{m: map[string]map[*websocket.Conn]bool{}}\n\nfunc ");
    s.append(room_allowed.as_str());
    s.append("(room string) bool {\n");
    s.append(allowed.as_str());
    s.append("\n}\n\n");
    s
}

/// The Go code of one socket: its context type with send and room
/// methods, its room registry, and its connection handler.
#[verifier::opaque]
pub open spec fn socket_template(service: Service, socket: SocketDef, ctx_name: Seq<char>, room_helpers: Seq<char>, outbound_methods: Seq<char>, handler_name: Seq<char>, auth_check: Seq<char>, header_check: Seq<char>, join_call: Seq<char>, room_allowed: Seq<char>, middleware_calls: Seq<char>, rate_limit_check: Seq<char>, ping_builtin: Seq<char>, dispatch: Seq<char>, exit_call: Seq<char>, middleware_defs: Seq<char>, rate_limit_defs: Seq<char>) -> Seq<char> {
    "type "@ + ctx_name + " struct {\n    Conn *websocket.Conn\n    Headers http.Header\n    Room string\n}\n\nfunc (ctx *"@ + ctx_name + ") SendRaw(kind string, data any) error {\n    frame := map[string]any{\"type\": kind, \"data\": data}\n    return ctx.Conn.WriteJSON(frame)\n}\n\nfunc (ctx *"@ + ctx_name + ") SendError(message string) error {\n    return ctx.SendRaw(\"Error\", map[string]any{\"message\": message})\n}\n\n"@ + room_helpers + outbound_methods + "\nfunc "@ + handler_name + "(w http.ResponseWriter, r *http.Request) {\n    conn, err := wsUpgrader.Upgrade(w, r, nil)\n    if err != nil {\n        return\n    }\n    defer conn.Close()\n\n    ctx := &"@ + ctx_name + "{Conn: conn, Headers: r.Header}\n    fmt.Fprintf(os.Stderr, \"["@ + service.name@ + "] WS connect "@ + socket.path@ + " -> OPEN\\n\")\n\n"@ + auth_check + header_check + join_call + "\n    for {\n        _, msg, err := conn.ReadMessage()\n        if err != nil {\n            break\n        }\n        var frame socketFrameIn\n        if err := json.Unmarshal(msg, &frame); err != nil {\n            fmt.Fprintf(os.Stderr, \"["@ + service.name@ + "] WS message "@ + socket.path@ + " -> INVALID_MESSAGE\\n\")\n            _ = ctx.SendError(\"invalid message\")\n            continue\n        }\n        if frame.Room != \"\" && !"@ + room_allowed + "(frame.Room) {\n            fmt.Fprintf(os.Stderr, \"["@ + service.name@ + "] WS message "@ + socket.path@ + " -> INVALID_ROOM\\n\")\n            _ = ctx.SendError(\"invalid room\")\n            continue\n        }\n        fmt.Fprintf(os.Stderr, \"["@ + service.name@ + "] WS message "@ + socket.path@ + " -> type=%s room=%s\\n\", frame.Type, func() string {\n            if frame.Room == \"\" {\n                return \"-\"\n            }\n            return frame.Room\n        }())\n        ctx.Room = frame.Room\n"@ + middleware_calls + rate_limit_check + "        switch frame.Type {\n"@ + ping_builtin + dispatch + "        }\n    }\n"@ + exit_call + "\n    fmt.Fprintf(os.Stderr, \"["@ + service.name@ + "] WS disconnect "@ + socket.path@ + " -> CLOSED\\n\")\n    ctx.LeaveAllRooms()\n}\n\n"@ + middleware_defs + "\n"@ + rate_limit_defs + "\n"@
}

pub open spec fn spec_render_socket_helper(service: Service, socket: SocketDef) -> Seq<char> {
    let code = spec_code_name(socket.name);
    let ctx = code + "SocketContext"@;
    let room_reg = "socketRooms"@ + code;
    let room_allowed = "socketRoomAllowed"@ + code;
    socket_template(
        service,
        socket,
        ctx,
        spec_room_helpers(socket, room_reg, room_allowed),
        spec_outbound_methods(ctx, room_allowed, room_reg, socket.outbound@),
        spec_socket_handler_name(code),
        spec_socket_auth_check(socket),
        spec_socket_header_check(socket),
        spec_join_call(socket),
        room_allowed,
        spec_socket_middleware_calls(socket),
        spec_socket_rate_limit_check(socket),
        spec_ping_builtin(socket),
        spec_dispatch(socket),
        spec_exit_call(socket),
        spec_socket_middleware_defs(socket),
        spec_socket_rate_limit_defs(socket),
    )
}

pub fn render_socket_helper(service: &Service, socket: &SocketDef) -> (r: String)
    ensures
        r@ == spec_render_socket_helper(*service, *socket),
{
    let code = socket.name.code_name();
    let mut ctx_name = String::from_str(code.as_str());
    ctx_name.append("SocketContext");
    let handler_name = socket_handler_name(code.as_str());
    let mut room_reg = String::from_str("socketRooms");
    room_reg.append(code.as_str());
    let mut room_allowed = String::from_str("socketRoomAllowed");
    room_allowed.append(code.as_str());
    let room_helpers = room_helpers(socket, &room_reg, &room_allowed);
    let outbound_methods = outbound_methods(&ctx_name, &room_allowed, &room_reg, &socket.outbound);
    let auth_check = render_socket_auth_check(socket);
    let header_check = render_socket_header_check(socket);
    let join_call = join_call(socket);
    let middleware_calls = render_socket_middleware_calls(socket);
    let rate_limit_check = render_socket_rate_limit_check(socket);
    let ping_builtin = ping_builtin(socket);
    let dispatch = render_dispatch(socket);
    let exit_call = exit_call(socket);
    let middleware_defs = render_socket_middleware_defs(socket);
    let rate_limit_defs = render_socket_rate_limit_defs(socket);
    let mut s = String::from_str("type ");
    s.append(ctx_name.as_str());
    s.append(" struct {\n    Conn *websocket.Conn\n    Headers http.Header\n    Room string\n}\n\nfunc (ctx *");
    s.append(ctx_name.as_str());
    s.append(") SendRaw(kind string, data any) error {\n    frame := map[string]any{\"type\": kind, \"data\": data}\n    return ctx.Conn.WriteJSON(frame)\n}\n\nfunc (ctx *");
    s.append(ctx_name.as_str());
    s.append(") SendError(message string) error {\n    return ctx.SendRaw(\"Error\", map[string]any{\"message\": message})\n}\n\n");
    s.append(room_helpers.as_str());
    s.append(outbound_methods.as_str());
    s.append("\nfunc ");
    s.append(handler_name.as_str());
    s.append("(w http.ResponseWriter, r *http.Request) {\n    conn, err := wsUpgrader.Upgrade(w, r, nil)\n    if err != nil {\n        return\n    }\n    defer conn.Close()\n\n    ctx := &");
    s.append(ctx_name.as_str());
    s.append("{Conn: conn, Headers: r.Header}\n    fmt.Fprintf(os.Stderr, \"[");
    s.append(service.name.as_str());
    s.append("] WS connect ");
    s.append(socket.path.as_str());
    s.append(" -> OPEN\\n\")\n\n");
    s.append(auth_check.as_str());
    s.append(header_check.as_str());
    s.append(join_call.as_str());
    s.append("\n    for {\n        _, msg, err := conn.ReadMessage()\n        if err != nil {\n            break\n        }\n        var frame socketFrameIn\n        if err := json.Unmarshal(msg, &frame); err != nil {\n            fmt.Fprintf(os.Stderr, \"[");
    s.append(service.name.as_str());
    s.append("] WS message ");
    s.append(socket.path.as_str());
    s.append(" -> INVALID_MESSAGE\\n\")\n            _ = ctx.SendError(\"invalid message\")\n            continue\n        }\n        if frame.Room != \"\" && !");
    s.append(room_allowed.as_str());
    s.append("(frame.Room) {\n            fmt.Fprintf(os.Stderr, \"[");
    s.append(service.name.as_str());
    s.append("] WS message ");
    s.append(socket.path.as_str());
    s.append(" -> INVALID_ROOM\\n\")\n            _ = ctx.SendError(\"invalid room\")\n            continue\n        }\n        fmt.Fprintf(os.Stderr, \"[");
    s.append(service.name.as_str());
    s.append("] WS message ");
    s.append(socket.path.as_str());
    s.append(" -> type=%s room=%s\\n\", frame.Type, func() string {\n            if frame.Room == \"\" {\n                return \"-\"\n            }\n            return frame.Room\n        }())\n        ctx.Room = frame.Room\n");
    s.append(middleware_calls.as_str());
    s.append(rate_limit_check.as_str());
    s.append("        switch frame.Type {\n");
    s.append(ping_builtin.as_str());
    s.append(dispatch.as_str());
    s.append("        }\n    }\n");
    s.append(exit_call.as_str());
    s.append("\n    fmt.Fprintf(os.Stderr, \"[");
    s.append(service.name.as_str());
    s.append("] WS disconnect ");
    s.append(socket.path.as_str());
    s.append(" -> CLOSED\\n\")\n    ctx.LeaveAllRooms()\n}\n\n");
    s.append(middleware_defs.as_str());
    s.append("\n");
    s.append(rate_limit_defs.as_str());
    s.append("\n");
    proof {
        reveal(socket_template);
    }
    s
}

/// The frame type, the upgrader, the rate limiter when a socket has a
/// limit, then each socket's code followed by a blank line; nothing when
/// the service has no socket.
pub open spec fn spec_render_socket_helpers(service: Service) -> Seq<char> {
    let sockets = service.sockets.sockets@;
    if sockets.len() == 0 {
        Seq::empty()
    } else {
        "type socketFrameIn struct {\n    Type string `json:\"type\"`\n    Data json.RawMessage `json:\"data\"`\n    Room string `json:\"room,omitempty\"`\n}\n\nvar wsUpgrader = websocket.Upgrader{\n    CheckOrigin: func(r *http.Request) bool { return true },\n}\n\n"@ + (if exists|i: int| 0 <= i < sockets.len() && (#[trigger] sockets[i]).rate_limit is Some {
            "type rateLimit struct { count int; reset time.Time; max int; window time.Duration }\nfunc (r *rateLimit) Allow() bool {\n    now := time.Now()\n    if r.reset.IsZero() || now.After(r.reset) {\n        r.reset = now.Add(r.window)\n        r.count = 0\n    }\n    if r.count >= r.max { return false }\n    r.count += 1\n    return true\n}\n\n"@
        } else {
            Seq::empty()
        }) + concat_all(sockets, socket_helper_fn(service))
    }
}

pub open spec fn socket_helper_fn(service: Service) -> spec_fn(SocketDef) -> Seq<char> {
    |s: SocketDef| spec_render_socket_helper(service, s) + "\n"@
}

fn any_socket_rate_limit(sockets: &Vec<SocketDef>) -> (r: bool)
    ensures
        r == exists|i: int| 0 <= i < sockets@.len() && (#[trigger] sockets@[i]).rate_limit is Some,
{
    let mut i: usize = 0;
    while i < sockets.len()
        invariant
            0 <= i <= sockets@.len(),
            forall|j: int| 0 <= j < i ==> (#[trigger] sockets@[j]).rate_limit is None,
        decreases sockets@.len() - i,
    {
        if sockets[i].rate_limit.is_some() {
            return true;
        }
        i += 1;
    }
    false
}

pub fn render_socket_helpers(service: &Service) -> (r: String)
    ensures
        r@ == spec_render_socket_helpers(*service),
{
    let sockets = &service.sockets.sockets;
    if sockets.len() == 0 {
        return String::new();
    }
    let mut out = String::from_str("type socketFrameIn struct {\n    Type string `json:\"type\"`\n    Data json.RawMessage `json:\"data\"`\n    Room string `json:\"room,omitempty\"`\n}\n\nvar wsUpgrader = websocket.Upgrader{\n    CheckOrigin: func(r *http.Request) bool { return true },\n}\n\n");
    let ghost head = out@;
    if any_socket_rate_limit(sockets) {
        out.append("type rateLimit struct { count int; reset time.Time; max int; window time.Duration }\nfunc (r *rateLimit) Allow() bool {\n    now := time.Now()\n    if r.reset.IsZero() || now.After(r.reset) {\n        r.reset = now.Add(r.window)\n        r.count = 0\n    }\n    if r.count >= r.max { return false }\n    r.count += 1\n    return true\n}\n\n");
    } else {
        assert(out@ + Seq::<char>::empty() =~= out@);
    }
    let ghost start = out@;
    let ghost f = socket_helper_fn(*service);
    let mut i: usize = 0;
    while i < sockets.len()
        invariant
            0 <= i <= sockets@.len(),
            sockets@ == service.sockets.sockets@,
            f == socket_helper_fn(*service),
            out@ == start + concat_all(sockets@.take(i as int), f),
        decreases sockets@.len() - i,
    {
        proof {
            lemma_concat_all_step(sockets@, i as int, f);
        }
        let h = render_socket_helper(service, &sockets[i]);
        out.append(h.as_str());
        out.append("\n");
        i += 1;
        assert(out@ =~= start + concat_all(sockets@.take(i as int), f));
    }
    proof {
        lemma_take_full(sockets@);
    }
    out
}

} // verus!
