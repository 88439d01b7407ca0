//! `events.go`: publishing and handling the events a service declares,
//! in memory or through Redis streams.

use vstd::prelude::*;

use crate::generators::go::util::{go_type, spec_go_type, spec_type_uses_types_pkg, type_uses_types_pkg};
use crate::ir::{spec_code_name, EventDef, Service, TypeName};
use crate::text::{
    concat_all, lemma_concat_all_step, lemma_take_full, lemma_views_push, seq_join, str_eq,
    to_lowercase, unicode_lowercase, views,
};

verus! {

pub open spec fn events_use_types(defs: Seq<EventDef>) -> bool {
    exists|i: int| 0 <= i < defs.len() && spec_type_uses_types_pkg(#[trigger] defs[i].payload)
}

fn events_use_types_exec(defs: &Vec<EventDef>) -> (r: bool)
    ensures
        r == events_use_types(defs@),
{
    let mut i: usize = 0;
    while i < defs.len()
        invariant
            0 <= i <= defs@.len(),
            forall|j: int| 0 <= j < i ==> !spec_type_uses_types_pkg(#[trigger] defs@[j].payload),
        decreases defs@.len() - i,
    {
        if type_uses_types_pkg(&defs[i].payload) {
            return true;
        }
        i += 1;
    }
    false
}

pub open spec fn import_block(v: Seq<Seq<char>>) -> Seq<char> {
    "import (\n"@ + seq_join(v.map_values(|i: Seq<char>| "    "@ + i), "\n"@) + "\n)\n\n"@
}

pub fn render_import_block(v: &Vec<String>) -> (r: String)
    ensures
        r@ == import_block(views(v@)),
{
    let mut lines: Vec<String> = Vec::new();
    let ghost vv = views(v@);
    let mut i: usize = 0;
    while i < v.len()
        invariant
            0 <= i <= v@.len(),
            vv == views(v@),
            views(lines@) == vv.take(i as int).map_values(|x: Seq<char>| "    "@ + x),
        decreases v@.len() - i,
    {
        let mut s = String::from_str("    ");
        s.append(v[i].as_str());
        proof {
            lemma_views_push(lines@, s);
            assert(vv[i as int] == v@[i as int]@);
            assert(vv.take(i + 1).map_values(|x: Seq<char>| "    "@ + x) =~= vv.take(i as int).map_values(|x: Seq<char>| "    "@ + x).push(s@));
        }
        lines.push(s);
        i += 1;
    }
    assert(vv.take(vv.len() as int) =~= vv);
    let j = crate::text::join(&lines, "\n");
    let mut out = String::from_str("import (\n");
    out.append(j.as_str());
    out.append("\n)\n\n");
    out
}

// ---------------------------------------------------------------------------
// In memory
// ---------------------------------------------------------------------------

pub open spec fn memory_event_fn() -> spec_fn(EventDef) -> Seq<char> {
    |e: EventDef| {
        let name = spec_code_name(e.name);
        ("var "@ + name + "_Handlers"@ + " = struct { sync.Mutex; list []func("@ + spec_go_type(e.payload, true) + ") }{}\n"@) + ("func On"@ + name + "(handler func("@ + spec_go_type(e.payload, true) + ")) {\n    "@ + name + "_Handlers"@ + ".Lock()\n    defer "@ + name + "_Handlers"@ + ".Unlock()\n    "@ + name + "_Handlers"@ + ".list = append("@ + name + "_Handlers"@ + ".list, handler)\n}\n"@) + ("func Emit"@ + name + "(payload "@ + spec_go_type(e.payload, true) + ") {\n    "@ + name + "_Handlers"@ + ".Lock()\n    list := append([]func("@ + spec_go_type(e.payload, true) + "){}, "@ + name + "_Handlers"@ + ".list...)\n    "@ + name + "_Handlers"@ + ".Unlock()\n    for _, handler := range list {\n        handler(payload)\n    }\n}\n\n"@)
    }
}

/// Events delivered to the handlers of the same process.
pub open spec fn spec_events_memory_go(svc: Service, module_name: Seq<char>) -> Seq<char> {
    let defs = svc.events.definitions@;
    let imports = if events_use_types(defs) {
        seq!["\"sync\""@, "\""@ + module_name + "/types\""@]
    } else {
        seq!["\"sync\""@]
    };
    "package main\n\n"@ + import_block(imports) + concat_all(defs, memory_event_fn())
}

fn memory_event(e: &EventDef) -> (r: String)
    ensures
        r@ == memory_event_fn()(*e),
{
    let name = e.name.code_name();
    let pty = go_type(&e.payload, true);
    let mut handlers = name.clone();
    handlers.append("_Handlers");
        let mut a = String::from_str("var ");
        a.append(handlers.as_str());
        a.append(" = struct { sync.Mutex; list []func(");
        a.append(pty.as_str());
        a.append(") }{}\n");
        let mut b = String::from_str("func On");
        b.append(name.as_str());
        b.append("(handler func(");
        b.append(pty.as_str());
        b.append(")) {\n    ");
        b.append(handlers.as_str());
        b.append(".Lock()\n    defer ");
        b.append(handlers.as_str());
        b.append(".Unlock()\n    ");
        b.append(handlers.as_str());
        b.append(".list = append(");
        b.append(handlers.as_str());
        b.append(".list, handler)\n}\n");
        let mut c = String::from_str("func Emit");
        c.append(name.as_str());
        c.append("(payload ");
        c.append(pty.as_str());
        c.append(") {\n    ");
        c.append(handlers.as_str());
        c.append(".Lock()\n    list := append([]func(");
        c.append(pty.as_str());
        c.append("){}, ");
        c.append(handlers.as_str());
        c.append(".list...)\n    ");
        c.append(handlers.as_str());
        c.append(".Unlock()\n    for _, handler := range list {\n        handler(payload)\n    }\n}\n\n");
    a.append(b.as_str());
    a.append(c.as_str());
    a
}

fn module_imports(first: &Vec<String>, defs: &Vec<EventDef>, module_name: &str) -> (r: Vec<String>)
    ensures
        views(r@) == if events_use_types(defs@) {
            views(first@).push("\""@ + module_name@ + "/types\""@)
        } else {
            views(first@)
        },
{
    let mut v: Vec<String> = Vec::new();
    let mut i: usize = 0;
    while i < first.len()
        invariant
            0 <= i <= first@.len(),
            views(v@) == views(first@.take(i as int)),
        decreases first@.len() - i,
    {
        let x = first[i].clone();
        proof {
            lemma_views_push(v@, x);
            lemma_views_push(first@.take(i as int), first@[i as int]);
            assert(first@.take(i + 1) =~= first@.take(i as int).push(first@[i as int]));
        }
        v.push(x);
        i += 1;
    }
    assert(first@.take(first@.len() as int) =~= first@);
    if events_use_types_exec(defs) {
        let mut t = String::from_str("\"");
        t.append(module_name);
        t.append("/types\"");
        proof {
            lemma_views_push(v@, t);
        }
        v.push(t);
    }
    v
}

pub fn build_events_memory_go(svc: &Service, module_name: &str) -> (r: String)
    ensures
        r@ == spec_events_memory_go(*svc, module_name@),
{
    let mut first: Vec<String> = Vec::new();
    first.push(String::from_str("\"sync\""));
    assert(views(first@) =~= seq!["\"sync\""@]);
    let defs = &svc.events.definitions;
    let imports = module_imports(&first, defs, module_name);
    assert(views(imports@) =~= if events_use_types(defs@) {
        seq!["\"sync\""@, "\""@ + module_name@ + "/types\""@]
    } else {
        seq!["\"sync\""@]
    });
    let mut out = String::from_str("package main\n\n");
    let ib = render_import_block(&imports);
    out.append(ib.as_str());
    let ghost start = out@;
    let mut k: usize = 0;
    while k < defs.len()
        invariant
            0 <= k <= defs@.len(),
            out@ == start + concat_all(defs@.take(k as int), memory_event_fn()),
        decreases defs@.len() - k,
    {
        proof {
            lemma_concat_all_step(defs@, k as int, memory_event_fn());
        }
        let x = memory_event(&defs[k]);
        out.append(x.as_str());
        k += 1;
        assert(out@ =~= start + concat_all(defs@.take(k as int), memory_event_fn()));
    }
    proof {
        lemma_take_full(defs@);
    }
    assert(out@ =~= spec_events_memory_go(*svc, module_name@));
    out
}

// ---------------------------------------------------------------------------
// Redis streams
// ---------------------------------------------------------------------------

pub open spec fn redis_event_fn() -> spec_fn(EventDef) -> Seq<char> {
    |e: EventDef| {
        let name = spec_code_name(e.name);
        ("var "@ + name + "_Handlers"@ + " = eventHandlers["@ + spec_go_type(e.payload, true) + "]{}\n"@) + ("func On"@ + name + "(handler func("@ + spec_go_type(e.payload, true) + ")) {\n    "@ + name + "_Handlers"@ + ".Lock()\n    defer "@ + name + "_Handlers"@ + ".Unlock()\n    "@ + name + "_Handlers"@ + ".list = append("@ + name + "_Handlers"@ + ".list, handler)\n}\n"@) + ("func Emit"@ + name + "(payload "@ + spec_go_type(e.payload, true) + ") {\n    data, err := json.Marshal(payload)\n    if err != nil {\n        return\n    }\n    stream := streamName(\""@ + name + "\")\n    go func() {\n        if err := publishEvent(context.Background(), stream, string(data)); err != nil {\n            fmt.Println(\"events: publish error\", err)\n        }\n    }()\n}\n\n"@)
    }
}

/// The payload type of a subscribed event: that of its definition, else
/// a generic map.
pub open spec fn subscribed_payload(defs: Seq<EventDef>, n: Seq<char>, j: int) -> Seq<char>
    decreases defs.len() - j,
{
    if j < 0 || j >= defs.len() {
        "map[string]interface{}"@
    } else if spec_code_name(defs[j].name) == n {
        spec_go_type(defs[j].payload, true)
    } else {
        subscribed_payload(defs, n, j + 1)
    }
}

pub open spec fn consumer_fn(defs: Seq<EventDef>) -> spec_fn(TypeName) -> Seq<char> {
    |t: TypeName| {
        let n = spec_code_name(t);
        let pty = subscribed_payload(defs, n, 0);
        "    go consumeLoop["@ + pty + "](streamName(\""@ + n + "\"), &"@ + n + "_Handlers"@ + ")\n"@
    }
}

pub open spec fn quoted_const(name: Seq<char>, value: Seq<char>) -> Seq<char> {
    "const "@ + name + " = \""@ + value + "\"\n"@
}

pub open spec fn opt_or_text(o: Option<String>, d: Seq<char>) -> Seq<char> {
    match o {
        Some(x) => x@,
        None => d,
    }
}

/// What `events.go` starts with for Redis: imports, settings, helpers.
pub open spec fn redis_prefix(svc: Service, module_name: Seq<char>) -> Seq<char> {
    let cfg = svc.events.config.unwrap();
    let service_name = unicode_lowercase(svc.name@);
    let defs = svc.events.definitions@;
    let base = seq!["\"context\""@, "\"encoding/json\""@, "\"fmt\""@, "\"os\""@, "\"strings\""@, "\"sync\""@, "\"time\""@, "\"github.com/redis/go-redis/v9\""@];
    let imports = if events_use_types(defs) {
        base.push("\""@ + module_name + "/types\""@)
    } else {
        base
    };
    "package main\n\n"@ + import_block(imports) + quoted_const("eventsStreamPrefix"@, opt_or_text(cfg.stream_prefix, service_name))
        + quoted_const("eventsGroup"@, opt_or_text(cfg.group, service_name))
        + quoted_const("eventsConsumerOverride"@, opt_or_text(cfg.consumer, ""@))
        + quoted_const("eventsRedisURL"@, opt_or_text(cfg.url, ""@))
        + "const eventsConsumerPrefix = \""@ + service_name + "\"\n\n"@ + "\nvar redisOnce sync.Once\nvar redisClient *redis.Client\n\nfunc redisURL() string {\n    if eventsRedisURL != \"\" {\n        return eventsRedisURL\n    }\n    if env := os.Getenv(\"REDIS_URL\"); env != \"\" {\n        return env\n    }\n    return \"redis://127.0.0.1:6379\"\n}\n\nfunc streamName(event string) string {\n    return fmt.Sprintf(\"%s.%s\", eventsStreamPrefix, event)\n}\n\nfunc groupName() string {\n    return eventsGroup\n}\n\nfunc consumerName() string {\n    if eventsConsumerOverride != \"\" {\n        return eventsConsumerOverride\n    }\n    return fmt.Sprintf(\"%s-%d\", eventsConsumerPrefix, os.Getpid())\n}\n\nfunc getRedis() *redis.Client {\n    redisOnce.Do(func() {\n        url := redisURL()\n        if strings.HasPrefix(url, \"redis://\") || strings.HasPrefix(url, \"rediss://\") {\n            if opt, err := redis.ParseURL(url); err == nil {\n                redisClient = redis.NewClient(opt)\n                return\n            }\n        }\n        redisClient = redis.NewClient(&redis.Options{Addr: url})\n    })\n    return redisClient\n}\n\nfunc publishEvent(ctx context.Context, stream string, payload string) error {\n    return getRedis().XAdd(ctx, &redis.XAddArgs{\n        Stream: stream,\n        Values: map[string]any{\"payload\": payload},\n    }).Err()\n}\n\ntype eventHandlers[T any] struct {\n    sync.Mutex\n    list []func(T)\n}\n\nfunc handlersSnapshot[T any](h *eventHandlers[T]) []func(T) {\n    h.Lock()\n    list := append([]func(T){}, h.list...)\n    h.Unlock()\n    return list\n}\n\nfunc consumeLoop[T any](stream string, handlers *eventHandlers[T]) {\n    ctx := context.Background()\n    rdb := getRedis()\n    group := groupName()\n    consumer := consumerName()\n    if err := rdb.XGroupCreateMkStream(ctx, stream, group, \"$\").Err(); err != nil {\n        if !strings.Contains(err.Error(), \"BUSYGROUP\") {\n            fmt.Println(\"events: group create error\", err)\n        }\n    }\n    for {\n        streams, err := rdb.XReadGroup(ctx, &redis.XReadGroupArgs{\n            Group:    group,\n            Consumer: consumer,\n            Streams:  []string{stream, \">\"},\n            Count:    10,\n            Block:    time.Second,\n        }).Result()\n        if err != nil {\n            if err == redis.Nil {\n                continue\n            }\n            time.Sleep(500 * time.Millisecond)\n            continue\n        }\n        for _, s := range streams {\n            for _, msg := range s.Messages {\n                payloadRaw, ok := msg.Values[\"payload\"]\n                if !ok {\n                    _ = rdb.XAck(ctx, stream, group, msg.ID).Err()\n                    continue\n                }\n                payloadStr := \"\"\n                switch v := payloadRaw.(type) {\n                case string:\n                    payloadStr = v\n                case []byte:\n                    payloadStr = string(v)\n                default:\n                    payloadStr = fmt.Sprint(v)\n                }\n                var parsed T\n                if err := json.Unmarshal([]byte(payloadStr), &parsed); err == nil {\n                    for _, handler := range handlersSnapshot(handlers) {\n                        handler(parsed)\n                    }\n                }\n                _ = rdb.XAck(ctx, stream, group, msg.ID).Err()\n            }\n        }\n    }\n}\n"@
}

pub open spec fn redis_consumers(svc: Service) -> Seq<char> {
    if svc.events.subscribes@.len() > 0 {
        "func StartEventConsumers() {\n"@ + concat_all(svc.events.subscribes@, consumer_fn(svc.events.definitions@)) + "}\n"@
    } else {
        Seq::empty()
    }
}

/// Events published to and consumed from Redis streams; consumers start
/// for the subscribed events.
pub open spec fn spec_events_redis_go(svc: Service, module_name: Seq<char>) -> Seq<char> {
    redis_prefix(svc, module_name) + concat_all(svc.events.definitions@, redis_event_fn()) + redis_consumers(svc)
}

fn redis_event(e: &EventDef) -> (r: String)
    ensures
        r@ == redis_event_fn()(*e),
{
    let name = e.name.code_name();
    let pty = go_type(&e.payload, true);
    let mut handlers = name.clone();
    handlers.append("_Handlers");
        let mut a = String::from_str("var ");
        a.append(handlers.as_str());
        a.append(" = eventHandlers[");
        a.append(pty.as_str());
        a.append("]{}\n");
        let mut b = String::from_str("func On");
        b.append(name.as_str());
        b.append("(handler func(");
        b.append(pty.as_str());
        b.append(")) {\n    ");
        b.append(handlers.as_str());
        b.append(".Lock()\n    defer ");
        b.append(handlers.as_str());
        b.append(".Unlock()\n    ");
        b.append(handlers.as_str());
        b.append(".list = append(");
        b.append(handlers.as_str());
        b.append(".list, handler)\n}\n");
        let mut c = String::from_str("func Emit");
        c.append(name.as_str());
        c.append("(payload ");
        c.append(pty.as_str());
        c.append(") {\n    data, err := json.Marshal(payload)\n    if err != nil {\n        return\n    }\n    stream := streamName(\"");
        c.append(name.as_str());
        c.append("\")\n    go func() {\n        if err := publishEvent(context.Background(), stream, string(data)); err != nil {\n            fmt.Println(\"events: publish error\", err)\n        }\n    }()\n}\n\n");
    a.append(b.as_str());
    a.append(c.as_str());
    a
}

fn subscribed_payload_exec(defs: &Vec<EventDef>, n: &str) -> (r: String)
    ensures
        r@ == subscribed_payload(defs@, n@, 0),
{
    let mut j: usize = 0;
    while j < defs.len()
        invariant
            0 <= j <= defs@.len(),
            subscribed_payload(defs@, n@, 0) == subscribed_payload(defs@, n@, j as int),
        decreases defs@.len() - j,
    {
        let c = defs[j].name.code_name();
        if str_eq(c.as_str(), n) {
            return go_type(&defs[j].payload, true);
        }
        j += 1;
    }
    String::from_str("map[string]interface{}")
}

fn quoted_const_exec(name: &str, value: &str) -> (r: String)
    ensures
        r@ == quoted_const(name@, value@),
{
    let mut s = String::from_str("const ");
    s.append(name);
    s.append(" = \"");
    s.append(value);
    s.append("\"\n");
    s
}

fn opt_or_exec(o: &Option<String>, d: &str) -> (r: String)
    ensures
        r@ == opt_or_text(*o, d@),
{
    match o {
        Some(x) => x.clone(),
        None => String::from_str(d),
    }
}

pub fn build_events_redis_go(svc: &Service, module_name: &str) -> (r: String)
    requires
        svc.events.config is Some,
    ensures
        r@ == spec_events_redis_go(*svc, module_name@),
{
    let cfg = match &svc.events.config {
        Some(c) => c,
        None => {
            return String::new();
        },
    };
    let service_name = to_lowercase(svc.name.as_str());
    let defs = &svc.events.definitions;
    let mut first: Vec<String> = Vec::new();
    first.push(String::from_str("\"context\""));
    first.push(String::from_str("\"encoding/json\""));
    first.push(String::from_str("\"fmt\""));
    first.push(String::from_str("\"os\""));
    first.push(String::from_str("\"strings\""));
    first.push(String::from_str("\"sync\""));
    first.push(String::from_str("\"time\""));
    first.push(String::from_str("\"github.com/redis/go-redis/v9\""));
    assert(views(first@) =~= seq!["\"context\""@, "\"encoding/json\""@, "\"fmt\""@, "\"os\""@, "\"strings\""@, "\"sync\""@, "\"time\""@, "\"github.com/redis/go-redis/v9\""@]);
    let imports = module_imports(&first, defs, module_name);
    assert(views(imports@) =~= if events_use_types(defs@) {
        seq!["\"context\""@, "\"encoding/json\""@, "\"fmt\""@, "\"os\""@, "\"strings\""@, "\"sync\""@, "\"time\""@, "\"github.com/redis/go-redis/v9\""@].push("\""@ + module_name@ + "/types\""@)
    } else {
        seq!["\"context\""@, "\"encoding/json\""@, "\"fmt\""@, "\"os\""@, "\"strings\""@, "\"sync\""@, "\"time\""@, "\"github.com/redis/go-redis/v9\""@]
    });
    let mut out = String::from_str("package main\n\n");
    let ib = render_import_block(&imports);
    out.append(ib.as_str());
    let sp = opt_or_exec(&cfg.stream_prefix, service_name.as_str());
    let c1 = quoted_const_exec("eventsStreamPrefix", sp.as_str());
    out.append(c1.as_str());
    let gr = opt_or_exec(&cfg.group, service_name.as_str());
    let c2 = quoted_const_exec("eventsGroup", gr.as_str());
    out.append(c2.as_str());
    let co = opt_or_exec(&cfg.consumer, "");
    let c3 = quoted_const_exec("eventsConsumerOverride", co.as_str());
    out.append(c3.as_str());
    let ur = opt_or_exec(&cfg.url, "");
    let c4 = quoted_const_exec("eventsRedisURL", ur.as_str());
    out.append(c4.as_str());
    out.append("const eventsConsumerPrefix = \"");
    out.append(service_name.as_str());
    out.append("\"\n\n");
    out.append("\nvar redisOnce sync.Once\nvar redisClient *redis.Client\n\nfunc redisURL() string {\n    if eventsRedisURL != \"\" {\n        return eventsRedisURL\n    }\n    if env := os.Getenv(\"REDIS_URL\"); env != \"\" {\n        return env\n    }\n    return \"redis://127.0.0.1:6379\"\n}\n\nfunc streamName(event string) string {\n    return fmt.Sprintf(\"%s.%s\", eventsStreamPrefix, event)\n}\n\nfunc groupName() string {\n    return eventsGroup\n}\n\nfunc consumerName() string {\n    if eventsConsumerOverride != \"\" {\n        return eventsConsumerOverride\n    }\n    return fmt.Sprintf(\"%s-%d\", eventsConsumerPrefix, os.Getpid())\n}\n\nfunc getRedis() *redis.Client {\n    redisOnce.Do(func() {\n        url := redisURL()\n        if strings.HasPrefix(url, \"redis://\") || strings.HasPrefix(url, \"rediss://\") {\n            if opt, err := redis.ParseURL(url); err == nil {\n                redisClient = redis.NewClient(opt)\n                return\n            }\n        }\n        redisClient = redis.NewClient(&redis.Options{Addr: url})\n    })\n    return redisClient\n}\n\nfunc publishEvent(ctx context.Context, stream string, payload string) error {\n    return getRedis().XAdd(ctx, &redis.XAddArgs{\n        Stream: stream,\n        Values: map[string]any{\"payload\": payload},\n    }).Err()\n}\n\ntype eventHandlers[T any] struct {\n    sync.Mutex\n    list []func(T)\n}\n\nfunc handlersSnapshot[T any](h *eventHandlers[T]) []func(T) {\n    h.Lock()\n    list := append([]func(T){}, h.list...)\n    h.Unlock()\n    return list\n}\n\nfunc consumeLoop[T any](stream string, handlers *eventHandlers[T]) {\n    ctx := context.Background()\n    rdb := getRedis()\n    group := groupName()\n    consumer := consumerName()\n    if err := rdb.XGroupCreateMkStream(ctx, stream, group, \"$\").Err(); err != nil {\n        if !strings.Contains(err.Error(), \"BUSYGROUP\") {\n            fmt.Println(\"events: group create error\", err)\n        }\n    }\n    for {\n        streams, err := rdb.XReadGroup(ctx, &redis.XReadGroupArgs{\n            Group:    group,\n            Consumer: consumer,\n            Streams:  []string{stream, \">\"},\n            Count:    10,\n            Block:    time.Second,\n        }).Result()\n        if err != nil {\n            if err == redis.Nil {\n                continue\n            }\n            time.Sleep(500 * time.Millisecond)\n            continue\n        }\n        for _, s := range streams {\n            for _, msg := range s.Messages {\n                payloadRaw, ok := msg.Values[\"payload\"]\n                if !ok {\n                    _ = rdb.XAck(ctx, stream, group, msg.ID).Err()\n                    continue\n                }\n                payloadStr := \"\"\n                switch v := payloadRaw.(type) {\n                case string:\n                    payloadStr = v\n                case []byte:\n                    payloadStr = string(v)\n                default:\n                    payloadStr = fmt.Sprint(v)\n                }\n                var parsed T\n                if err := json.Unmarshal([]byte(payloadStr), &parsed); err == nil {\n                    for _, handler := range handlersSnapshot(handlers) {\n                        handler(parsed)\n                    }\n                }\n                _ = rdb.XAck(ctx, stream, group, msg.ID).Err()\n            }\n        }\n    }\n}\n");
    assert(out@ == redis_prefix(*svc, module_name@));
    let ghost start = out@;
    let mut k: usize = 0;
    while k < defs.len()
        invariant
            0 <= k <= defs@.len(),
            out@ == start + concat_all(defs@.take(k as int), redis_event_fn()),
        decreases defs@.len() - k,
    {
        proof {
            lemma_concat_all_step(defs@, k as int, redis_event_fn());
        }
        let x = redis_event(&defs[k]);
        out.append(x.as_str());
        k += 1;
        assert(out@ =~= start + concat_all(defs@.take(k as int), redis_event_fn()));
    }
    proof {
        lemma_take_full(defs@);
    }
    let subs = &svc.events.subscribes;
    let mut cons = String::new();
    if subs.len() > 0 {
        let ghost f = consumer_fn(defs@);
        let mut body = String::new();
        let mut j: usize = 0;
        while j < subs.len()
            invariant
                0 <= j <= subs@.len(),
                f == consumer_fn(defs@),
                body@ == concat_all(subs@.take(j as int), f),
            decreases subs@.len() - j,
        {
            proof {
                lemma_concat_all_step(subs@, j as int, f);
            }
            let name = subs[j].code_name();
            let pty = subscribed_payload_exec(defs, name.as_str());
            let mut handlers = name.clone();
            handlers.append("_Handlers");
            let mut s = String::from_str("    go consumeLoop[");
            s.append(pty.as_str());
            s.append("](streamName(\"");
            s.append(name.as_str());
            s.append("\"), &");
            s.append(handlers.as_str());
            s.append(")\n");
            body.append(s.as_str());
            j += 1;
        }
        proof {
            lemma_take_full(subs@);
        }
        cons = String::from_str("func StartEventConsumers() {\n");
        cons.append(body.as_str());
        cons.append("}\n");
    }
    assert(cons@ == redis_consumers(*svc));
    out.append(cons.as_str());
    assert(out@ =~= spec_events_redis_go(*svc, module_name@));
    out
}

/// `events.go`: nothing without event definitions; Redis streams when a
/// broker is configured, else handlers in memory.
pub open spec fn spec_build_events_go(svc: Service, module_name: Seq<char>) -> Seq<char> {
    if svc.events.definitions@.len() == 0 {
        Seq::empty()
    } else if svc.events.config is Some {
        spec_events_redis_go(svc, module_name)
    } else {
        spec_events_memory_go(svc, module_name)
    }
}

pub fn build_events_go(svc: &Service, module_name: &str) -> (r: String)
    ensures
        r@ == spec_build_events_go(*svc, module_name@),
{
    if svc.events.definitions.len() == 0 {
        return String::new();
    }
    if svc.events.config.is_some() {
        build_events_redis_go(svc, module_name)
    } else {
        build_events_memory_go(svc, module_name)
    }
}

} // verus!
