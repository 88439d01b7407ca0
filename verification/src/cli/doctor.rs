//! The module check of `doctor`: every module file a service declares must
//! exist, suit the service's language, and define each function that the
//! service's routes, RPC methods and socket handlers call.

use vstd::prelude::*;

use crate::ir::{
    spec_module_key, CallSpec, Lang, ModuleUse, Project, Route, RpcDef, Service, SocketDef,
    SocketMessage,
};
use crate::paths::{extension, join_path, path_extension, path_join};
use crate::sorted::{ss_add, ss_insert, strings_view};
use crate::text::{char_is_ascii_alnum, chars_of, is_ascii_alnum, push_char, str_eq, views};

verus! {

// ---------------------------------------------------------------------------
// Tokens
// ---------------------------------------------------------------------------

pub open spec fn is_word_char(c: char) -> bool {
    is_ascii_alnum(c) || c == '_'
}

/// The characters kept as tokens of their own.
pub open spec fn is_punct(c: char) -> bool {
    c == '(' || c == ')' || c == '{' || c == '}' || c == '[' || c == ']' || c == '=' || c == ';'
        || c == '.'
}

/// The tokens found so far and the word being read, after the characters `s`.
pub open spec fn tok_state(s: Seq<char>) -> (Seq<Seq<char>>, Seq<char>)
    decreases s.len(),
{
    if s.len() == 0 {
        (Seq::empty(), Seq::empty())
    } else {
        let (out, buf) = tok_state(s.drop_last());
        let c = s.last();
        if is_word_char(c) {
            (out, buf.push(c))
        } else {
            let flushed = if buf.len() > 0 {
                out.push(buf)
            } else {
                out
            };
            if is_punct(c) {
                (flushed.push(seq![c]), Seq::empty())
            } else {
                (flushed, Seq::empty())
            }
        }
    }
}

/// The tokens of a source file: maximal runs of ASCII letters, digits and
/// `_`, and each of `(){}[]=;.`; everything else separates.
pub open spec fn spec_tokens(s: Seq<char>) -> Seq<Seq<char>> {
    let (out, buf) = tok_state(s);
    if buf.len() > 0 {
        out.push(buf)
    } else {
        out
    }
}

fn char_is_punct(c: char) -> (r: bool)
    ensures
        r == is_punct(c),
{
    c == '(' || c == ')' || c == '{' || c == '}' || c == '[' || c == ']' || c == '=' || c == ';'
        || c == '.'
}

pub fn tokenize_source(src: &str) -> (r: Vec<String>)
    ensures
        views(r@) == spec_tokens(src@),
{
    let cs = chars_of(src);
    let mut out: Vec<String> = Vec::new();
    let mut buf = String::new();
    let mut i: usize = 0;
    while i < cs.len()
        invariant
            0 <= i <= cs@.len(),
            cs@ == src@,
            (views(out@), buf@) == tok_state(cs@.take(i as int)),
        decreases cs@.len() - i,
    {
        let ch = cs[i];
        proof {
            assert(cs@.take(i + 1).drop_last() =~= cs@.take(i as int));
        }
        if char_is_ascii_alnum(ch) || ch == '_' {
            push_char(&mut buf, ch);
        } else {
            if !buf.as_str().is_empty() {
                let ghost before = views(out@);
                let b = buf;
                out.push(b);
                buf = String::new();
                assert(views(out@) =~= before.push(b@));
            }
            if char_is_punct(ch) {
                let ghost before = views(out@);
                let mut t = String::new();
                push_char(&mut t, ch);
                out.push(t);
                assert(views(out@) =~= before.push(seq![ch]));
            }
            buf = String::new();
        }
        i += 1;
        assert(buf@ =~= tok_state(cs@.take(i as int)).1);
    }
    assert(cs@.take(cs@.len() as int) =~= cs@);
    if !buf.as_str().is_empty() {
        let ghost before = views(out@);
        let b = buf;
        out.push(b);
        assert(views(out@) =~= before.push(b@));
    }
    out
}

// ---------------------------------------------------------------------------
// Function definitions
// ---------------------------------------------------------------------------

pub open spec fn tok_is(toks: Seq<Seq<char>>, j: int, w: Seq<char>) -> bool {
    0 <= j < toks.len() && toks[j] == w
}

/// Reading tokens from `i`: `fn` takes the next token as the name it
/// defines, and scanning goes on after that name.
pub open spec fn rust_scan(toks: Seq<Seq<char>>, i: int, name: Seq<char>) -> bool
    decreases toks.len() - i,
{
    if i < 0 || i >= toks.len() {
        false
    } else if toks[i] == "fn"@ {
        if i + 1 < toks.len() {
            toks[i + 1] == name || rust_scan(toks, i + 2, name)
        } else {
            false
        }
    } else {
        rust_scan(toks, i + 1, name)
    }
}

pub fn rust_has_fn(tokens: &Vec<String>, name: &str) -> (r: bool)
    ensures
        r == rust_scan(views(tokens@), 0, name@),
{
    let ghost toks = views(tokens@);
    let mut i: usize = 0;
    while i < tokens.len()
        invariant
            0 <= i <= tokens@.len() + 1,
            toks == views(tokens@),
            rust_scan(toks, 0, name@) == rust_scan(toks, i as int, name@),
        decreases tokens@.len() + 1 - i,
    {
        assert(toks[i as int] == tokens@[i as int]@);
        if str_eq(tokens[i].as_str(), "fn") {
            if i + 1 < tokens.len() {
                assert(toks[i + 1] == tokens@[i + 1]@);
                if str_eq(tokens[i + 1].as_str(), name) {
                    return true;
                }
                i += 2;
            } else {
                return false;
            }
        } else {
            i += 1;
        }
    }
    false
}

/// A TypeScript definition of `name` starting at token `i`.
pub open spec fn ts_def_at(toks: Seq<Seq<char>>, i: int, name: Seq<char>) -> bool {
    let t = toks[i];
    if t == "function"@ {
        tok_is(toks, i + 1, name)
    } else if t == "const"@ || t == "let"@ || t == "var"@ {
        tok_is(toks, i + 1, name) && tok_is(toks, i + 2, "="@)
    } else if t == "export"@ {
        (tok_is(toks, i + 1, "function"@) && tok_is(toks, i + 2, name)) || ((tok_is(
            toks,
            i + 1,
            "const"@,
        ) || tok_is(toks, i + 1, "let"@) || tok_is(toks, i + 1, "var"@)) && tok_is(
            toks,
            i + 2,
            name,
        ) && tok_is(toks, i + 3, "="@))
    } else if t == "async"@ {
        tok_is(toks, i + 1, "function"@) && tok_is(toks, i + 2, name)
    } else {
        false
    }
}

pub open spec fn spec_ts_has_fn(toks: Seq<Seq<char>>, name: Seq<char>) -> bool {
    exists|i: int| 0 <= i < toks.len() && #[trigger] ts_def_at(toks, i, name)
}

/// Whether the token `k` places after `i` is `w`.
fn token_at(tokens: &Vec<String>, i: usize, k: usize, w: &str) -> (r: bool)
    requires
        i <= tokens@.len(),
    ensures
        r == tok_is(views(tokens@), i + k, w@),
{
    if k < tokens.len() - i {
        assert(views(tokens@)[i + k] == tokens@[i + k]@);
        str_eq(tokens[i + k].as_str(), w)
    } else {
        false
    }
}

fn ts_def_at_exec(tokens: &Vec<String>, i: usize, name: &str) -> (r: bool)
    requires
        i < tokens@.len(),
    ensures
        r == ts_def_at(views(tokens@), i as int, name@),
{
    let t = tokens[i].as_str();
    assert(views(tokens@)[i as int] == tokens@[i as int]@);
    if str_eq(t, "function") {
        token_at(tokens, i, 1, name)
    } else if str_eq(t, "const") || str_eq(t, "let") || str_eq(t, "var") {
        token_at(tokens, i, 1, name) && token_at(tokens, i, 2, "=")
    } else if str_eq(t, "export") {
        (token_at(tokens, i, 1, "function") && token_at(tokens, i, 2, name)) || ((token_at(tokens, i, 1, "const",
        ) || token_at(tokens, i, 1, "let") || token_at(tokens, i, 1, "var")) && token_at(tokens, i, 2, name,
        ) && token_at(tokens, i, 3, "="))
    } else if str_eq(t, "async") {
        token_at(tokens, i, 1, "function") && token_at(tokens, i, 2, name)
    } else {
        false
    }
}

pub fn ts_has_fn(tokens: &Vec<String>, name: &str) -> (r: bool)
    ensures
        r == spec_ts_has_fn(views(tokens@), name@),
{
    let mut i: usize = 0;
    while i < tokens.len()
        invariant
            0 <= i <= tokens@.len(),
            forall|j: int| 0 <= j < i ==> !#[trigger] ts_def_at(views(tokens@), j, name@),
        decreases tokens@.len() - i,
    {
        if ts_def_at_exec(tokens, i, name) {
            return true;
        }
        i += 1;
    }
    false
}

/// The index of the first `)` at or after `j` (the length when there is none).
pub open spec fn first_close(toks: Seq<Seq<char>>, j: int) -> int
    decreases toks.len() - j,
{
    if j < 0 || j >= toks.len() {
        j
    } else if toks[j] == ")"@ {
        j
    } else {
        first_close(toks, j + 1)
    }
}

/// A Go `func name` or method `func (recv) name` at token `i`.
pub open spec fn go_def_at(toks: Seq<Seq<char>>, i: int, name: Seq<char>) -> bool {
    toks[i] == "func"@ && if tok_is(toks, i + 1, "("@) {
        tok_is(toks, first_close(toks, i + 2) + 1, name)
    } else {
        tok_is(toks, i + 1, name)
    }
}

pub open spec fn spec_go_has_fn(toks: Seq<Seq<char>>, name: Seq<char>) -> bool {
    exists|i: int| 0 <= i < toks.len() && #[trigger] go_def_at(toks, i, name)
}

fn go_def_at_exec(tokens: &Vec<String>, i: usize, name: &str) -> (r: bool)
    requires
        i < tokens@.len(),
    ensures
        r == go_def_at(views(tokens@), i as int, name@),
{
    let ghost toks = views(tokens@);
    assert(toks[i as int] == tokens@[i as int]@);
    if !str_eq(tokens[i].as_str(), "func") {
        return false;
    }
    if token_at(tokens, i, 1, "(") {
        let n = tokens.len();
        assert(i + 1 < n);
        let mut j = i + 2;
        while j < tokens.len() && !str_eq(tokens[j].as_str(), ")")
            invariant
                i + 2 <= j <= tokens@.len(),
                toks == views(tokens@),
                first_close(toks, i + 2) == first_close(toks, j as int),
            decreases tokens@.len() - j,
        {
            assert(toks[j as int] == tokens@[j as int]@);
            j += 1;
        }
        if j < tokens.len() {
            assert(toks[j as int] == tokens@[j as int]@);
        }
        token_at(tokens, j, 1, name)
    } else {
        token_at(tokens, i, 1, name)
    }
}

pub fn go_has_fn(tokens: &Vec<String>, name: &str) -> (r: bool)
    ensures
        r == spec_go_has_fn(views(tokens@), name@),
{
    let mut i: usize = 0;
    while i < tokens.len()
        invariant
            0 <= i <= tokens@.len(),
            forall|j: int| 0 <= j < i ==> !#[trigger] go_def_at(views(tokens@), j, name@),
        decreases tokens@.len() - i,
    {
        if go_def_at_exec(tokens, i, name) {
            return true;
        }
        i += 1;
    }
    false
}

/// Whether the tokens of a module in `lang` define `name`.
pub open spec fn spec_has_fn(lang: Lang, toks: Seq<Seq<char>>, name: Seq<char>) -> bool {
    match lang {
        Lang::Rust => rust_scan(toks, 0, name),
        Lang::TypeScript => spec_ts_has_fn(toks, name),
        Lang::Go => spec_go_has_fn(toks, name),
    }
}

// ---------------------------------------------------------------------------
// What the service needs of its modules
// ---------------------------------------------------------------------------

/// `f` applied to every element of `s`, the resulting sequences joined.
pub open spec fn flat_map<A, B>(s: Seq<A>, f: spec_fn(A) -> Seq<B>) -> Seq<B>
    decreases s.len(),
{
    if s.len() == 0 {
        Seq::empty()
    } else {
        flat_map(s.drop_last(), f) + f(s.last())
    }
}

pub proof fn lemma_flat_map_step<A, B>(s: Seq<A>, i: int, f: spec_fn(A) -> Seq<B>)
    requires
        0 <= i < s.len(),
    ensures
        flat_map(s.take(i + 1), f) == flat_map(s.take(i), f) + f(s[i]),
{
    assert(s.take(i + 1).drop_last() =~= s.take(i));
}

pub proof fn lemma_take_all<A>(s: Seq<A>)
    ensures
        s.take(s.len() as int) == s,
{
    assert(s.take(s.len() as int) =~= s);
}

/// The module and function a call names, unless it names no module.
pub open spec fn call_need(c: CallSpec) -> Seq<(Seq<char>, Seq<char>)> {
    if c.module@.len() == 0 {
        Seq::empty()
    } else {
        seq![(c.module@, c.function@)]
    }
}

pub open spec fn route_need(r: Route) -> Seq<(Seq<char>, Seq<char>)> {
    if r.call.service_base is Some {
        Seq::empty()
    } else {
        call_need(r.call)
    }
}

pub open spec fn route_need_fn() -> spec_fn(Route) -> Seq<(Seq<char>, Seq<char>)> {
    |r: Route| route_need(r)
}

pub open spec fn rpc_need_fn() -> spec_fn(RpcDef) -> Seq<(Seq<char>, Seq<char>)> {
    |m: RpcDef| call_need(m.call)
}

pub open spec fn msg_need_fn() -> spec_fn(SocketMessage) -> Seq<(Seq<char>, Seq<char>)> {
    |m: SocketMessage| call_need(m.handler)
}

pub open spec fn socket_need(s: SocketDef) -> Seq<(Seq<char>, Seq<char>)> {
    flat_map(s.inbound@, msg_need_fn()) + flat_map(s.outbound@, msg_need_fn())
}

pub open spec fn socket_need_fn() -> spec_fn(SocketDef) -> Seq<(Seq<char>, Seq<char>)> {
    |s: SocketDef| socket_need(s)
}

/// Every (module, function) that the routes (not forwarded to another
/// service), RPC methods and socket handlers of a service call, in order.
pub open spec fn service_needs(svc: Service) -> Seq<(Seq<char>, Seq<char>)> {
    flat_map(svc.http.routes@, route_need_fn()) + flat_map(svc.rpc.methods@, rpc_need_fn())
        + flat_map(svc.sockets.sockets@, socket_need_fn())
}

pub open spec fn pair_views(v: Seq<(String, String)>) -> Seq<(Seq<char>, Seq<char>)> {
    v.map_values(|e: (String, String)| (e.0@, e.1@))
}

fn push_call_need(out: &mut Vec<(String, String)>, c: &CallSpec)
    ensures
        pair_views(final(out)@) == pair_views(old(out)@) + call_need(*c),
{
    if c.module.as_str().is_empty() {
        assert(pair_views(out@) + Seq::<(Seq<char>, Seq<char>)>::empty() =~= pair_views(out@));
        return;
    }
    let ghost before = pair_views(out@);
    out.push((c.module.clone(), c.function.clone()));
    assert(pair_views(out@) =~= before + call_need(*c));
}

fn push_message_needs(out: &mut Vec<(String, String)>, msgs: &Vec<SocketMessage>)
    ensures
        pair_views(final(out)@) == pair_views(old(out)@) + flat_map(msgs@, msg_need_fn()),
{
    let ghost start = pair_views(out@);
    let mut i: usize = 0;
    while i < msgs.len()
        invariant
            0 <= i <= msgs@.len(),
            pair_views(out@) == start + flat_map(msgs@.take(i as int), msg_need_fn()),
        decreases msgs@.len() - i,
    {
        proof {
            lemma_flat_map_step(msgs@, i as int, msg_need_fn());
        }
        push_call_need(out, &msgs[i].handler);
        i += 1;
        assert(pair_views(out@) =~= start + flat_map(msgs@.take(i as int), msg_need_fn()));
    }
    proof {
        lemma_take_all(msgs@);
    }
}

pub fn collect_service_needs(svc: &Service) -> (r: Vec<(String, String)>)
    ensures
        pair_views(r@) == service_needs(*svc),
{
    let mut out: Vec<(String, String)> = Vec::new();
    let routes = &svc.http.routes;
    let mut i: usize = 0;
    while i < routes.len()
        invariant
            0 <= i <= routes@.len(),
            pair_views(out@) == flat_map(routes@.take(i as int), route_need_fn()),
        decreases routes@.len() - i,
    {
        proof {
            lemma_flat_map_step(routes@, i as int, route_need_fn());
        }
        if routes[i].call.service_base.is_none() {
            push_call_need(&mut out, &routes[i].call);
        } else {
            assert(pair_views(out@) + Seq::<(Seq<char>, Seq<char>)>::empty() =~= pair_views(out@));
        }
        i += 1;
    }
    proof {
        lemma_take_all(routes@);
    }
    let ghost a = pair_views(out@);
    let methods = &svc.rpc.methods;
    let mut k: usize = 0;
    while k < methods.len()
        invariant
            0 <= k <= methods@.len(),
            pair_views(out@) == a + flat_map(methods@.take(k as int), rpc_need_fn()),
        decreases methods@.len() - k,
    {
        proof {
            lemma_flat_map_step(methods@, k as int, rpc_need_fn());
        }
        push_call_need(&mut out, &methods[k].call);
        k += 1;
        assert(pair_views(out@) =~= a + flat_map(methods@.take(k as int), rpc_need_fn()));
    }
    proof {
        lemma_take_all(methods@);
    }
    let ghost b = pair_views(out@);
    let sockets = &svc.sockets.sockets;
    let mut s: usize = 0;
    while s < sockets.len()
        invariant
            0 <= s <= sockets@.len(),
            pair_views(out@) == b + flat_map(sockets@.take(s as int), socket_need_fn()),
        decreases sockets@.len() - s,
    {
        proof {
            lemma_flat_map_step(sockets@, s as int, socket_need_fn());
        }
        push_message_needs(&mut out, &sockets[s].inbound);
        push_message_needs(&mut out, &sockets[s].outbound);
        s += 1;
        assert(pair_views(out@) =~= b + flat_map(sockets@.take(s as int), socket_need_fn()));
    }
    proof {
        lemma_take_all(sockets@);
    }
    out
}

/// The needs grouped by module, modules in order of first use, each with
/// its functions as a set in text order.
pub open spec fn find_key(g: Seq<(Seq<char>, Seq<Seq<char>>)>, m: Seq<char>, n: int) -> int
    decreases n,
{
    if n <= 0 {
        -1
    } else if g[n - 1].0 == m {
        n - 1
    } else {
        find_key(g, m, n - 1)
    }
}

pub open spec fn group_step(g: Seq<(Seq<char>, Seq<Seq<char>>)>, e: (Seq<char>, Seq<char>)) -> Seq<
    (Seq<char>, Seq<Seq<char>>),
> {
    let i = find_key(g, e.0, g.len() as int);
    if i >= 0 {
        g.update(i, (e.0, ss_insert(g[i].1, e.1)))
    } else {
        g.push((e.0, seq![e.1]))
    }
}

pub open spec fn group_needs(s: Seq<(Seq<char>, Seq<char>)>) -> Seq<(Seq<char>, Seq<Seq<char>>)>
    decreases s.len(),
{
    if s.len() == 0 {
        Seq::empty()
    } else {
        group_step(group_needs(s.drop_last()), s.last())
    }
}

pub open spec fn group_views(g: Seq<(String, Vec<String>)>) -> Seq<(Seq<char>, Seq<Seq<char>>)> {
    g.map_values(|e: (String, Vec<String>)| (e.0@, strings_view(e.1@)))
}

proof fn lemma_find_key_range(g: Seq<(Seq<char>, Seq<Seq<char>>)>, m: Seq<char>, n: int)
    requires
        n <= g.len(),
    ensures
        -1 <= find_key(g, m, n) < n || (n <= 0 && find_key(g, m, n) == -1),
        find_key(g, m, n) >= 0 ==> g[find_key(g, m, n)].0 == m,
    decreases n,
{
    if n > 0 && g[n - 1].0 != m {
        lemma_find_key_range(g, m, n - 1);
    }
}

fn add_need(groups: &mut Vec<(String, Vec<String>)>, m: &String, f: &String)
    ensures
        group_views(final(groups)@) == group_step(group_views(old(groups)@), (m@, f@)),
{
    let ghost g = group_views(groups@);
    let mut i: usize = groups.len();
    while i > 0
        invariant
            i <= groups@.len(),
            g == group_views(groups@),
            find_key(g, m@, g.len() as int) == find_key(g, m@, i as int),
        ensures
            i <= groups@.len(),
            find_key(g, m@, g.len() as int) == find_key(g, m@, i as int),
            i == 0 || g[i - 1].0 == m@,
        decreases i,
    {
        assert(g[i - 1] == (groups@[i - 1].0@, strings_view(groups@[i - 1].1@)));
        if str_eq(groups[i - 1].0.as_str(), m.as_str()) {
            break;
        }
        i -= 1;
    }
    proof {
        lemma_find_key_range(g, m@, g.len() as int);
    }
    if i > 0 {
        let mut entry = groups.remove(i - 1);
        assert(strings_view(entry.1@) == g[i - 1].1);
        ss_add(&mut entry.1, f.clone());
        groups.insert(i - 1, entry);
        assert(group_views(groups@) =~= g.update(i - 1, (m@, ss_insert(g[i - 1].1, f@))));
    } else {
        let mut fs: Vec<String> = Vec::new();
        fs.push(f.clone());
        assert(strings_view(fs@) =~= seq![f@]);
        groups.push((m.clone(), fs));
        assert(group_views(groups@) =~= g.push((m@, seq![f@])));
    }
}

pub fn group_service_needs(needs: &Vec<(String, String)>) -> (r: Vec<(String, Vec<String>)>)
    ensures
        group_views(r@) == group_needs(pair_views(needs@)),
{
    let mut groups: Vec<(String, Vec<String>)> = Vec::new();
    let ghost pv = pair_views(needs@);
    let mut i: usize = 0;
    while i < needs.len()
        invariant
            0 <= i <= needs@.len(),
            pv == pair_views(needs@),
            group_views(groups@) == group_needs(pv.take(i as int)),
        decreases needs@.len() - i,
    {
        proof {
            assert(pv.take(i + 1).drop_last() =~= pv.take(i as int));
            assert(pv.take(i + 1).last() == pv[i as int]);
        }
        add_need(&mut groups, &needs[i].0, &needs[i].1);
        i += 1;
    }
    proof {
        lemma_take_all(pv);
    }
    groups
}

// ---------------------------------------------------------------------------
// Issues
// ---------------------------------------------------------------------------

#[derive(Clone, Copy, Debug)]
pub enum IssueKind {
    ModuleNotFound,
    IncompatibleExtension(Lang),
    MissingFunction,
}

/// A problem with one module of a service. `function` is empty unless a
/// function is missing; `path` is the module file as joined to the
/// project's directory.
#[derive(Debug)]
pub struct ModuleIssue {
    pub kind: IssueKind,
    pub module: String,
    pub function: String,
    pub path: String,
}

pub open spec fn issue_view(i: ModuleIssue) -> (IssueKind, Seq<char>, Seq<char>, Seq<char>) {
    (i.kind, i.module@, i.function@, i.path@)
}

pub open spec fn issue_views(v: Seq<ModuleIssue>) -> Seq<(IssueKind, Seq<char>, Seq<char>, Seq<char>)> {
    v.map_values(|i: ModuleIssue| issue_view(i))
}

pub open spec fn lang_debug(l: Lang) -> Seq<char> {
    match l {
        Lang::Rust => "Rust"@,
        Lang::TypeScript => "TypeScript"@,
        Lang::Go => "Go"@,
    }
}

fn lang_debug_str(l: Lang) -> (r: &'static str)
    ensures
        r@ == lang_debug(l),
{
    match l {
        Lang::Rust => "Rust",
        Lang::TypeScript => "TypeScript",
        Lang::Go => "Go",
    }
}

pub open spec fn spec_issue_message(service: Seq<char>, i: (IssueKind, Seq<char>, Seq<char>, Seq<char>)) -> Seq<char> {
    match i.0 {
        IssueKind::ModuleNotFound => "Service '"@ + service + "' module '"@ + i.1 + "' not found at "@
            + i.3,
        IssueKind::IncompatibleExtension(l) => "Service '"@ + service + "' module '"@ + i.1
            + "' has incompatible extension for "@ + lang_debug(l) + ": "@ + i.3,
        IssueKind::MissingFunction => "Service '"@ + service + "' module '"@ + i.1
            + "' missing function '"@ + i.2 + "' in "@ + i.3,
    }
}

impl ModuleIssue {
    /// The line `doctor` prints for this issue.
    pub fn message(&self, service: &str) -> (r: String)
        ensures
            r@ == spec_issue_message(service@, issue_view(*self)),
    {
        let mut out = String::from_str("Service '");
        out.append(service);
        out.append("' module '");
        out.append(self.module.as_str());
        match self.kind {
            IssueKind::ModuleNotFound => {
                out.append("' not found at ");
                out.append(self.path.as_str());
            },
            IssueKind::IncompatibleExtension(l) => {
                out.append("' has incompatible extension for ");
                out.append(lang_debug_str(l));
                out.append(": ");
                out.append(self.path.as_str());
            },
            IssueKind::MissingFunction => {
                out.append("' missing function '");
                out.append(self.function.as_str());
                out.append("' in ");
                out.append(self.path.as_str());
            },
        }
        out
    }
}

/// The extension a module of `lang` must have.
pub open spec fn ext_matches(l: Lang, e: Option<Seq<char>>) -> bool {
    match l {
        Lang::Rust => e == Some("rs"@),
        Lang::TypeScript => e == Some("ts"@),
        Lang::Go => e == Some("go"@),
    }
}

/// The language a module file's extension names, if any.
pub open spec fn ext_lang(e: Option<Seq<char>>) -> Option<Lang> {
    if e == Some("rs"@) {
        Some(Lang::Rust)
    } else if e == Some("ts"@) {
        Some(Lang::TypeScript)
    } else if e == Some("go"@) {
        Some(Lang::Go)
    } else {
        None
    }
}

fn opt_is(e: &Option<String>, w: &str) -> (r: bool)
    ensures
        r == (match e {
            Some(x) => x@ == w@,
            None => false,
        }),
{
    match e {
        Some(x) => str_eq(x.as_str(), w),
        None => false,
    }
}

pub open spec fn opt_view(e: Option<String>) -> Option<Seq<char>> {
    match e {
        Some(x) => Some(x@),
        None => None,
    }
}

fn ext_matches_exec(l: Lang, e: &Option<String>) -> (r: bool)
    ensures
        r == ext_matches(l, opt_view(*e)),
{
    match l {
        Lang::Rust => opt_is(e, "rs"),
        Lang::TypeScript => opt_is(e, "ts"),
        Lang::Go => opt_is(e, "go"),
    }
}

fn ext_lang_exec(e: &Option<String>) -> (r: Option<Lang>)
    ensures
        r == ext_lang(opt_view(*e)),
{
    if opt_is(e, "rs") {
        Some(Lang::Rust)
    } else if opt_is(e, "ts") {
        Some(Lang::TypeScript)
    } else if opt_is(e, "go") {
        Some(Lang::Go)
    } else {
        None
    }
}

/// The modules a service sees: the project's, then its own.
pub open spec fn visible_modules(project: Project, svc: Service) -> Seq<ModuleUse> {
    project.common.modules@ + svc.common.modules@
}

fn visible_module<'a>(project: &'a Project, svc: &'a Service, j: usize) -> (r: &'a ModuleUse)
    requires
        j < visible_modules(*project, *svc).len(),
    ensures
        *r == visible_modules(*project, *svc)[j as int],
{
    if j < project.common.modules.len() {
        &project.common.modules[j]
    } else {
        &svc.common.modules[j - project.common.modules.len()]
    }
}

/// The issue of one declared module file: missing, or of the wrong
/// extension for the service's language. `content` is the file's text, or
/// nothing when it does not exist.
pub open spec fn file_issue(lang: Option<Lang>, base: Seq<char>, m: ModuleUse, content: Option<String>) -> Seq<(IssueKind, Seq<char>, Seq<char>, Seq<char>)> {
    match m.path {
        None => Seq::empty(),
        Some(p) => {
            let path = path_join(base, p@);
            match content {
                None => seq![(IssueKind::ModuleNotFound, spec_module_key(m), Seq::empty(), path)],
                Some(_) => match lang {
                    Some(l) => if ext_matches(l, extension(path)) {
                        Seq::empty()
                    } else {
                        seq![(IssueKind::IncompatibleExtension(l), spec_module_key(m), Seq::empty(), path)]
                    },
                    None => Seq::empty(),
                },
            }
        },
    }
}

pub open spec fn file_issues(lang: Option<Lang>, base: Seq<char>, mods: Seq<ModuleUse>, contents: Seq<Option<String>>, n: nat) -> Seq<(IssueKind, Seq<char>, Seq<char>, Seq<char>)>
    decreases n,
{
    if n == 0 {
        Seq::empty()
    } else {
        file_issues(lang, base, mods, contents, (n - 1) as nat) + file_issue(
            lang,
            base,
            mods[n - 1],
            contents[n - 1],
        )
    }
}

/// The last existing file declared under the name `key` among the first
/// `n` modules, or -1.
pub open spec fn source_index(mods: Seq<ModuleUse>, contents: Seq<Option<String>>, key: Seq<char>, n: int) -> int
    decreases n,
{
    if n <= 0 {
        -1
    } else if mods[n - 1].path is Some && contents[n - 1] is Some && spec_module_key(mods[n - 1])
        == key {
        n - 1
    } else {
        source_index(mods, contents, key, n - 1)
    }
}

proof fn lemma_source_index_range(mods: Seq<ModuleUse>, contents: Seq<Option<String>>, key: Seq<char>, n: int)
    requires
        n <= mods.len(),
        n <= contents.len(),
    ensures
        -1 <= source_index(mods, contents, key, n) < n || (n <= 0 && source_index(mods, contents, key, n) == -1),
        source_index(mods, contents, key, n) >= 0 ==> {
            let j = source_index(mods, contents, key, n);
            mods[j].path is Some && contents[j] is Some && spec_module_key(mods[j]) == key
        },
    decreases n,
{
    if n > 0 && !(mods[n - 1].path is Some && contents[n - 1] is Some && spec_module_key(mods[n - 1]) == key) {
        lemma_source_index_range(mods, contents, key, n - 1);
    }
}

/// The missing functions among the first `n` of `fs`.
pub open spec fn missing_fns(l: Lang, toks: Seq<Seq<char>>, m: Seq<char>, fs: Seq<Seq<char>>, path: Seq<char>, n: nat) -> Seq<(IssueKind, Seq<char>, Seq<char>, Seq<char>)>
    decreases n,
{
    if n == 0 {
        Seq::empty()
    } else {
        missing_fns(l, toks, m, fs, path, (n - 1) as nat) + if spec_has_fn(l, toks, fs[n - 1]) {
            Seq::empty()
        } else {
            seq![(IssueKind::MissingFunction, m, fs[n - 1], path)]
        }
    }
}

/// The functions of one module that its file does not define. Nothing is
/// checked when no existing file is declared under that name, or when the
/// language is neither the service's nor named by the file's extension.
pub open spec fn group_issues(svc_lang: Option<Lang>, base: Seq<char>, mods: Seq<ModuleUse>, contents: Seq<Option<String>>, grp: (Seq<char>, Seq<Seq<char>>)) -> Seq<(IssueKind, Seq<char>, Seq<char>, Seq<char>)> {
    let j = source_index(mods, contents, grp.0, mods.len() as int);
    if j < 0 {
        Seq::empty()
    } else {
        let path = path_join(base, mods[j].path.unwrap()@);
        let lang = match svc_lang {
            Some(l) => Some(l),
            None => ext_lang(extension(path)),
        };
        match lang {
            None => Seq::empty(),
            Some(l) => missing_fns(
                l,
                spec_tokens(contents[j].unwrap()@),
                grp.0,
                grp.1,
                path,
                grp.1.len(),
            ),
        }
    }
}

pub open spec fn group_issues_fn(svc_lang: Option<Lang>, base: Seq<char>, mods: Seq<ModuleUse>, contents: Seq<Option<String>>) -> spec_fn((Seq<char>, Seq<Seq<char>>)) -> Seq<(IssueKind, Seq<char>, Seq<char>, Seq<char>)> {
    |g: (Seq<char>, Seq<Seq<char>>)| group_issues(svc_lang, base, mods, contents, g)
}

/// Every module issue of a service: first those of the declared files in
/// order, then the missing functions, module by module in order of first
/// use and function by function in text order.
pub open spec fn spec_service_issues(project: Project, svc: Service, base: Seq<char>, contents: Seq<Option<String>>) -> Seq<(IssueKind, Seq<char>, Seq<char>, Seq<char>)> {
    let mods = visible_modules(project, svc);
    file_issues(svc.language, base, mods, contents, mods.len()) + flat_map(
        group_needs(service_needs(svc)),
        group_issues_fn(svc.language, base, mods, contents),
    )
}

fn has_fn(l: Lang, tokens: &Vec<String>, name: &str) -> (r: bool)
    ensures
        r == spec_has_fn(l, views(tokens@), name@),
{
    match l {
        Lang::Rust => rust_has_fn(tokens, name),
        Lang::TypeScript => ts_has_fn(tokens, name),
        Lang::Go => go_has_fn(tokens, name),
    }
}

fn push_file_issue(
    out: &mut Vec<ModuleIssue>,
    lang: Option<Lang>,
    base_dir: &str,
    m: &ModuleUse,
    content: &Option<String>,
)
    ensures
        issue_views(final(out)@) == issue_views(old(out)@) + file_issue(lang, base_dir@, *m, *content),
{
    let ghost before = issue_views(out@);
    match &m.path {
        None => {
            assert(issue_views(out@) =~= before + file_issue(lang, base_dir@, *m, *content));
        },
        Some(p) => {
            let path = join_path(base_dir, p.as_str());
            match content {
                None => {
                    out.push(
                        ModuleIssue {
                            kind: IssueKind::ModuleNotFound,
                            module: m.key().clone(),
                            function: String::new(),
                            path,
                        },
                    );
                    assert(issue_views(out@) =~= before + file_issue(lang, base_dir@, *m, *content));
                },
                Some(_) => match lang {
                    Some(l) => {
                        let ext = path_extension(path.as_str());
                        assert(opt_view(ext) == extension(path@));
                        if !ext_matches_exec(l, &ext) {
                            out.push(
                                ModuleIssue {
                                    kind: IssueKind::IncompatibleExtension(l),
                                    module: m.key().clone(),
                                    function: String::new(),
                                    path,
                                },
                            );
                        }
                        assert(issue_views(out@) =~= before + file_issue(lang, base_dir@, *m, *content));
                    },
                    None => {
                        assert(issue_views(out@) =~= before + file_issue(lang, base_dir@, *m, *content));
                    },
                },
            }
        },
    }
}

fn find_source(project: &Project, svc: &Service, contents: &Vec<Option<String>>, key: &String) -> (r: Option<usize>)
    requires
        contents@.len() == visible_modules(*project, *svc).len(),
    ensures
        match r {
            Some(j) => j as int == source_index(visible_modules(*project, *svc), contents@, key@, contents@.len() as int),
            None => source_index(visible_modules(*project, *svc), contents@, key@, contents@.len() as int) < 0,
        },
{
    let ghost mods = visible_modules(*project, *svc);
    let mut j: usize = contents.len();
    while j > 0
        invariant
            j <= contents@.len(),
            contents@.len() == mods.len(),
            mods == visible_modules(*project, *svc),
            source_index(mods, contents@, key@, contents@.len() as int) == source_index(mods, contents@, key@, j as int),
        decreases j,
    {
        let m = visible_module(project, svc, j - 1);
        if m.path.is_some() && contents[j - 1].is_some() && str_eq(m.key().as_str(), key.as_str()) {
            return Some(j - 1);
        }
        j -= 1;
    }
    None
}

fn push_group_issues(
    out: &mut Vec<ModuleIssue>,
    project: &Project,
    svc: &Service,
    base_dir: &str,
    contents: &Vec<Option<String>>,
    grp: &(String, Vec<String>),
)
    requires
        contents@.len() == visible_modules(*project, *svc).len(),
    ensures
        issue_views(final(out)@) == issue_views(old(out)@) + group_issues(
            svc.language,
            base_dir@,
            visible_modules(*project, *svc),
            contents@,
            (grp.0@, strings_view(grp.1@)),
        ),
{
    let ghost mods = visible_modules(*project, *svc);
    let ghost before = issue_views(out@);
    let ghost g = (grp.0@, strings_view(grp.1@));
    proof {
        lemma_source_index_range(mods, contents@, grp.0@, mods.len() as int);
    }
    let found = find_source(project, svc, contents, &grp.0);
    let j = match found {
        None => {
            assert(issue_views(out@) =~= before + group_issues(svc.language, base_dir@, mods, contents@, g));
            return;
        },
        Some(j) => j,
    };
    let m = visible_module(project, svc, j);
    let p = match &m.path {
        Some(p) => p,
        None => {
            return;
        },
    };
    let content = match &contents[j] {
        Some(c) => c,
        None => {
            return;
        },
    };
    let path = join_path(base_dir, p.as_str());
    let lang = match svc.language {
        Some(l) => Some(l),
        None => {
            let ext = path_extension(path.as_str());
            assert(opt_view(ext) == extension(path@));
            ext_lang_exec(&ext)
        },
    };
    let l = match lang {
        None => {
            assert(issue_views(out@) =~= before + group_issues(svc.language, base_dir@, mods, contents@, g));
            return;
        },
        Some(l) => l,
    };
    let tokens = tokenize_source(content.as_str());
    let ghost toks = views(tokens@);
    let fs = &grp.1;
    let mut k: usize = 0;
    while k < fs.len()
        invariant
            0 <= k <= fs@.len(),
            toks == views(tokens@),
            toks == spec_tokens(content@),
            issue_views(out@) == before + missing_fns(l, toks, grp.0@, strings_view(fs@), path@, k as nat),
        decreases fs@.len() - k,
    {
        assert(strings_view(fs@)[k as int] == fs@[k as int]@);
        let ghost prev = issue_views(out@);
        let ghost step = missing_fns(l, toks, grp.0@, strings_view(fs@), path@, (k + 1) as nat);
        assert(step == missing_fns(l, toks, grp.0@, strings_view(fs@), path@, k as nat) + if spec_has_fn(
            l,
            toks,
            fs@[k as int]@,
        ) {
            Seq::empty()
        } else {
            seq![(IssueKind::MissingFunction, grp.0@, fs@[k as int]@, path@)]
        });
        if !has_fn(l, &tokens, fs[k].as_str()) {
            let issue = ModuleIssue {
                kind: IssueKind::MissingFunction,
                module: grp.0.clone(),
                function: fs[k].clone(),
                path: path.clone(),
            };
            assert(issue_view(issue) == (IssueKind::MissingFunction, grp.0@, fs@[k as int]@, path@));
            out.push(issue);
            assert(issue_views(out@) =~= prev.push(issue_view(issue)));
        } else {
            assert(prev + Seq::<(IssueKind, Seq<char>, Seq<char>, Seq<char>)>::empty() =~= prev);
        }
        k += 1;
        assert(issue_views(out@) =~= before + missing_fns(l, toks, grp.0@, strings_view(fs@), path@, k as nat));
    }
    assert(issue_views(out@) == before + group_issues(svc.language, base_dir@, mods, contents@, g));
}

/// The module issues of one service of `project`. `base_dir` is the
/// directory of the `.ns` file; `contents[j]` is the text of the file of
/// the `j`-th module the service sees (the project's, then its own), or
/// nothing when that file does not exist.
pub fn check_service_modules(
    project: &Project,
    svc: &Service,
    base_dir: &str,
    contents: &Vec<Option<String>>,
) -> (r: Vec<ModuleIssue>)
    requires
        contents@.len() == visible_modules(*project, *svc).len(),
    ensures
        issue_views(r@) == spec_service_issues(*project, *svc, base_dir@, contents@),
{
    let ghost mods = visible_modules(*project, *svc);
    let mut out: Vec<ModuleIssue> = Vec::new();
    let mut j: usize = 0;
    while j < contents.len()
        invariant
            0 <= j <= contents@.len(),
            contents@.len() == mods.len(),
            mods == visible_modules(*project, *svc),
            issue_views(out@) == file_issues(svc.language, base_dir@, mods, contents@, j as nat),
        decreases contents@.len() - j,
    {
        let m = visible_module(project, svc, j);
        push_file_issue(&mut out, svc.language, base_dir, m, &contents[j]);
        j += 1;
    }
    let ghost a = issue_views(out@);
    let needs = collect_service_needs(svc);
    let groups = group_service_needs(&needs);
    let ghost f = group_issues_fn(svc.language, base_dir@, mods, contents@);
    let mut k: usize = 0;
    while k < groups.len()
        invariant
            0 <= k <= groups@.len(),
            contents@.len() == mods.len(),
            mods == visible_modules(*project, *svc),
            f == group_issues_fn(svc.language, base_dir@, mods, contents@),
            issue_views(out@) == a + flat_map(group_views(groups@).take(k as int), f),
        decreases groups@.len() - k,
    {
        proof {
            lemma_flat_map_step(group_views(groups@), k as int, f);
        }
        push_group_issues(&mut out, project, svc, base_dir, contents, &groups[k]);
        k += 1;
        assert(issue_views(out@) =~= a + flat_map(group_views(groups@).take(k as int), f));
    }
    proof {
        lemma_take_all(group_views(groups@));
    }
    out
}

pub open spec fn issue_message_fn(service: Seq<char>) -> spec_fn((IssueKind, Seq<char>, Seq<char>, Seq<char>)) -> Seq<char> {
    |i: (IssueKind, Seq<char>, Seq<char>, Seq<char>)| spec_issue_message(service, i)
}

/// The error lines of the first `n` services, in order.
pub open spec fn project_messages(project: Project, base: Seq<char>, contents: Seq<Vec<Option<String>>>, n: nat) -> Seq<Seq<char>>
    decreases n,
{
    if n == 0 {
        Seq::empty()
    } else {
        let svc = project.services@[n - 1];
        project_messages(project, base, contents, (n - 1) as nat) + spec_service_issues(
            project,
            svc,
            base,
            contents[n - 1]@,
        ).map_values(issue_message_fn(svc.name@))
    }
}

/// The module errors of every service of a project, as `doctor` prints
/// them; none means the modules are in order. `contents[i]` holds the
/// module files of the `i`-th service as `check_service_modules` takes them.
pub fn validate_modules(project: &Project, base_dir: &str, contents: &Vec<Vec<Option<String>>>) -> (r: Vec<String>)
    requires
        contents@.len() == project.services@.len(),
        forall|i: int|
            0 <= i < contents@.len() ==> (#[trigger] contents@[i])@.len() == visible_modules(
                *project,
                project.services@[i],
            ).len(),
    ensures
        views(r@) == project_messages(*project, base_dir@, contents@, project.services@.len()),
{
    let mut out: Vec<String> = Vec::new();
    let mut i: usize = 0;
    while i < project.services.len()
        invariant
            0 <= i <= project.services@.len(),
            contents@.len() == project.services@.len(),
            forall|j: int|
                0 <= j < contents@.len() ==> (#[trigger] contents@[j])@.len() == visible_modules(
                    *project,
                    project.services@[j],
                ).len(),
            views(out@) == project_messages(*project, base_dir@, contents@, i as nat),
        decreases project.services@.len() - i,
    {
        let svc = &project.services[i];
        let issues = check_service_modules(project, svc, base_dir, &contents[i]);
        let ghost start = views(out@);
        let ghost iv = issue_views(issues@);
        let ghost mf = issue_message_fn(svc.name@);
        let mut k: usize = 0;
        while k < issues.len()
            invariant
                0 <= k <= issues@.len(),
                iv == issue_views(issues@),
                mf == issue_message_fn(svc.name@),
                views(out@) == start + iv.take(k as int).map_values(mf),
            decreases issues@.len() - k,
        {
            let msg = issues[k].message(svc.name.as_str());
            let ghost before = views(out@);
            out.push(msg);
            proof {
                assert(iv[k as int] == issue_view(issues@[k as int]));
                assert(views(out@) =~= before.push(msg@));
                assert(iv.take(k + 1).map_values(mf) =~= iv.take(k as int).map_values(mf).push(mf(iv[k as int])));
            }
            k += 1;
        }
        proof {
            assert(iv.take(iv.len() as int) =~= iv);
        }
        i += 1;
    }
    out
}

} // verus!
