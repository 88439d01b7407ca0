//! How header names written in the DSL map to the names seen at runtime.

use vstd::prelude::*;

use crate::text::{
    ascii_lower, ascii_lower_seq, is_ascii_seq, is_ws, replace_char, replace_char_seq, to_lowercase, trim,
    trim_end_seq, trim_seq, trim_start_seq, unicode_lowercase,
};

verus! {

/// The key a header is looked up by at runtime: trimmed, lower-cased,
/// `_` written as `-`.
pub open spec fn spec_header_runtime_key(name: Seq<char>) -> Seq<char> {
    replace_char_seq(unicode_lowercase(trim_seq(name)), '_', "-"@)
}

/// The key a header is written with in the DSL: trimmed, lower-cased,
/// `-` written as `_`.
pub open spec fn spec_header_dsl_key(name: Seq<char>) -> Seq<char> {
    replace_char_seq(unicode_lowercase(trim_seq(name)), '-', "_"@)
}

/// A runtime key character: ASCII lower-cased, `_` written as `-`.
pub open spec fn runtime_char(x: char) -> char {
    if ascii_lower(x) == '_' {
        '-'
    } else {
        ascii_lower(x)
    }
}

/// A DSL key character: ASCII lower-cased, `-` written as `_`.
pub open spec fn dsl_char(x: char) -> char {
    if ascii_lower(x) == '-' {
        '_'
    } else {
        ascii_lower(x)
    }
}

/// The runtime key of an ASCII header name.
pub open spec fn ascii_runtime_key(name: Seq<char>) -> Seq<char> {
    trim_seq(name).map_values(|x: char| runtime_char(x))
}

/// The DSL key of an ASCII header name.
pub open spec fn ascii_dsl_key(name: Seq<char>) -> Seq<char> {
    trim_seq(name).map_values(|x: char| dsl_char(x))
}

proof fn lemma_trim_start_skip(s: Seq<char>) -> (k: int)
    ensures
        0 <= k <= s.len(),
        trim_start_seq(s) == s.skip(k),
        k < s.len() ==> !is_ws(s[k]),
    decreases s.len(),
{
    if s.len() > 0 && is_ws(s[0]) {
        let k = lemma_trim_start_skip(s.drop_first());
        assert(s.drop_first().skip(k) =~= s.skip(k + 1));
        if k + 1 < s.len() {
            assert(s.drop_first()[k] == s[k + 1]);
        }
        k + 1
    } else {
        assert(s.skip(0) =~= s);
        0
    }
}

proof fn lemma_trim_end_take(s: Seq<char>) -> (m: int)
    ensures
        0 <= m <= s.len(),
        trim_end_seq(s) == s.take(m),
        m > 0 ==> !is_ws(s[m - 1]),
    decreases s.len(),
{
    if s.len() > 0 && is_ws(s.last()) {
        let m = lemma_trim_end_take(s.drop_last());
        assert(s.drop_last().take(m) =~= s.take(m));
        m
    } else {
        assert(s.take(s.len() as int) =~= s);
        s.len() as int
    }
}

/// What trimming leaves: characters of the name, with no white space at
/// either end.
proof fn lemma_trim_ends(s: Seq<char>)
    ensures
        is_ascii_seq(s) ==> is_ascii_seq(trim_seq(s)),
        trim_seq(s).len() > 0 ==> !is_ws(trim_seq(s)[0]) && !is_ws(trim_seq(s).last()),
{
    let k = lemma_trim_start_skip(s);
    let u = s.skip(k);
    let m = lemma_trim_end_take(u);
    let t = trim_seq(s);
    assert(t == u.take(m));
    if is_ascii_seq(s) {
        assert forall|i: int| 0 <= i < t.len() implies (#[trigger] t[i] as u32) < 128 by {
            assert(t[i] == s[k + i]);
        }
    }
    if t.len() > 0 {
        assert(t[0] == s[k]);
        assert(t.last() == u[m - 1]);
    }
}

/// A name with no white space at either end is its own trim.
proof fn lemma_trim_unchanged(s: Seq<char>)
    requires
        s.len() > 0 ==> !is_ws(s[0]) && !is_ws(s.last()),
    ensures
        trim_seq(s) == s,
{
    assert(trim_start_seq(s) == s);
}

/// Replacing one character by one other is mapping each character.
proof fn lemma_replace_one(s: Seq<char>, c: char, d: char)
    ensures
        replace_char_seq(s, c, seq![d]) == s.map_values(|x: char| if x == c { d } else { x }),
    decreases s.len(),
{
    if s.len() > 0 {
        lemma_replace_one(s.drop_last(), c, d);
        assert(s.drop_last().map_values(|x: char| if x == c { d } else { x }).push(
            if s.last() == c { d } else { s.last() },
        ) =~= s.map_values(|x: char| if x == c { d } else { x }));
    } else {
        assert(s.map_values(|x: char| if x == c { d } else { x }) =~= Seq::<char>::empty());
    }
}

proof fn lemma_not_ws_lower(x: char)
    ensures
        !is_ws(x) ==> !is_ws(ascii_lower(x)) && !is_ws(runtime_char(x)) && !is_ws(dsl_char(x)),
        (x as u32) < 128 ==> (ascii_lower(x) as u32) < 128 && (runtime_char(x) as u32) < 128 && (dsl_char(x) as u32) < 128,
        ascii_lower(ascii_lower(x)) == ascii_lower(x),
{
}

proof fn lemma_runtime_form(t: Seq<char>)
    ensures
        replace_char_seq(ascii_lower_seq(t), '_', "-"@) == t.map_values(|x: char| runtime_char(x)),
        replace_char_seq(ascii_lower_seq(t), '-', "_"@) == t.map_values(|x: char| dsl_char(x)),
{
    reveal_strlit("-");
    reveal_strlit("_");
    assert("-"@ =~= seq!['-']);
    assert("_"@ =~= seq!['_']);
    let l = ascii_lower_seq(t);
    lemma_replace_one(l, '_', '-');
    lemma_replace_one(l, '-', '_');
    assert(l.map_values(|x: char| if x == '_' { '-' } else { x }) =~= t.map_values(|x: char| runtime_char(x)));
    assert(l.map_values(|x: char| if x == '-' { '_' } else { x }) =~= t.map_values(|x: char| dsl_char(x)));
}

/// The keys of ASCII names are ASCII, with no white space at either end.
proof fn lemma_key_shape(s: Seq<char>)
    requires
        is_ascii_seq(s),
    ensures
        is_ascii_seq(ascii_runtime_key(s)),
        is_ascii_seq(ascii_dsl_key(s)),
        trim_seq(ascii_runtime_key(s)) == ascii_runtime_key(s),
        trim_seq(ascii_dsl_key(s)) == ascii_dsl_key(s),
{
    lemma_trim_ends(s);
    let t = trim_seq(s);
    let a = ascii_runtime_key(s);
    let b = ascii_dsl_key(s);
    assert forall|i: int| 0 <= i < a.len() implies (#[trigger] a[i] as u32) < 128 by {
        assert((t[i] as u32) < 128);
        lemma_not_ws_lower(t[i]);
    }
    assert forall|i: int| 0 <= i < b.len() implies (#[trigger] b[i] as u32) < 128 by {
        assert((t[i] as u32) < 128);
        lemma_not_ws_lower(t[i]);
    }
    if t.len() > 0 {
        lemma_not_ws_lower(t[0]);
        lemma_not_ws_lower(t.last());
        assert(a.last() == runtime_char(t.last()));
        assert(b.last() == dsl_char(t.last()));
    }
    lemma_trim_unchanged(a);
    lemma_trim_unchanged(b);
}

/// Header keys of ASCII names go back and forth: the DSL key of a runtime
/// key is the name's DSL key, the runtime key of a DSL key is the name's
/// runtime key, and a runtime key is its own runtime key.
pub proof fn law_header_keys_round_trip(s: Seq<char>)
    requires
        is_ascii_seq(s),
    ensures
        ascii_dsl_key(ascii_runtime_key(s)) == ascii_dsl_key(s),
        ascii_runtime_key(ascii_dsl_key(s)) == ascii_runtime_key(s),
        ascii_runtime_key(ascii_runtime_key(s)) == ascii_runtime_key(s),
        is_ascii_seq(ascii_runtime_key(s)),
        is_ascii_seq(ascii_dsl_key(s)),
{
    lemma_key_shape(s);
    let t = trim_seq(s);
    let a = ascii_runtime_key(s);
    let b = ascii_dsl_key(s);
    assert forall|i: int| 0 <= i < t.len() implies dsl_char(#[trigger] runtime_char(t[i])) == dsl_char(t[i])
        && runtime_char(dsl_char(t[i])) == runtime_char(t[i]) && runtime_char(runtime_char(t[i]))
        == runtime_char(t[i]) by {
        lemma_not_ws_lower(t[i]);
    }
    assert(ascii_dsl_key(a) =~= b);
    assert(ascii_runtime_key(b) =~= a);
    assert(ascii_runtime_key(a) =~= a);
}

pub fn header_runtime_key(name: &str) -> (r: String)
    ensures
        r@ == spec_header_runtime_key(name@),
        is_ascii_seq(name@) ==> r@ == ascii_runtime_key(name@),
{
    let t = trim(name);
    let l = to_lowercase(t.as_str());
    proof {
        lemma_trim_ends(name@);
        lemma_runtime_form(t@);
    }
    replace_char(l.as_str(), '_', "-")
}

pub fn header_dsl_key(name: &str) -> (r: String)
    ensures
        r@ == spec_header_dsl_key(name@),
        is_ascii_seq(name@) ==> r@ == ascii_dsl_key(name@),
{
    let t = trim(name);
    let l = to_lowercase(t.as_str());
    proof {
        lemma_trim_ends(name@);
        lemma_runtime_form(t@);
    }
    replace_char(l.as_str(), '-', "_")
}

pub fn default_cors_methods() -> (r: &'static str)
    ensures
        r@ == "GET,POST,PUT,PATCH,DELETE,OPTIONS"@,
{
    "GET,POST,PUT,PATCH,DELETE,OPTIONS"
}

pub fn default_cors_headers() -> (r: &'static str)
    ensures
        r@ == "authorization,content-type,x-admin-token,x_admin_token"@,
{
    "authorization,content-type,x-admin-token,x_admin_token"
}

} // verus!
