//! What the commands that build and start servers decide from the files
//! they read: the hash stamp of a `go.mod`, the process id in a pid file,
//! and the package name in a generated `Cargo.toml`.

use vstd::prelude::*;

use sha2::{Digest, Sha256};

use crate::generators::rust::util::{trim_end_char, trim_start_char, trimmed_range};
use crate::text::{chars_of, is_ascii_digit, is_prefix, lines_of, spec_lines, starts_with, trim, trim_seq, views};

verus! {

// ---------------------------------------------------------------------------
// SHA-256 stamps
// ---------------------------------------------------------------------------

/// Name for the SHA-256 digest of a byte string.
pub uninterp spec fn sha256_digest(data: Seq<u8>) -> Seq<u8>;

/// `sha2::Sha256`: a new hasher, `update` with the data, `finalize`. The
/// contract says that the digest is a function of the data alone and is
/// 32 bytes long (the output size that `Sha256` is declared with).
#[verifier::external_body]
fn sha256(data: &[u8]) -> (r: Vec<u8>)
    ensures
        r@ == sha256_digest(data@),
        r@.len() == 32,
{
    let mut hasher = Sha256::new();
    hasher.update(data);
    hasher.finalize().to_vec()
}

/// The lowercase hexadecimal digit of a value below 16.
pub open spec fn hex_char(d: int) -> char {
    if d < 10 {
        (48 + d) as char
    } else {
        (87 + d) as char
    }
}

/// Each byte as two lowercase hexadecimal digits, the high one first.
pub open spec fn hex_seq(bytes: Seq<u8>) -> Seq<char>
    decreases bytes.len(),
{
    if bytes.len() == 0 {
        Seq::empty()
    } else {
        hex_seq(bytes.drop_last()).push(hex_char(bytes.last() as int / 16)).push(hex_char(bytes.last() as int % 16))
    }
}

fn hex_digit(d: u8) -> (c: char)
    requires
        d < 16,
    ensures
        c == hex_char(d as int),
{
    if d < 10 {
        (48u8 + d) as char
    } else {
        (87u8 + d) as char
    }
}

pub fn lower_hex(bytes: &Vec<u8>) -> (r: String)
    ensures
        r@ == hex_seq(bytes@),
{
    let mut out = String::new();
    let mut i: usize = 0;
    while i < bytes.len()
        invariant
            0 <= i <= bytes@.len(),
            out@ == hex_seq(bytes@.take(i as int)),
        decreases bytes@.len() - i,
    {
        let b = bytes[i];
        crate::text::push_char(&mut out, hex_digit(b / 16));
        crate::text::push_char(&mut out, hex_digit(b % 16));
        assert(bytes@.take(i + 1).drop_last() =~= bytes@.take(i as int));
        i += 1;
    }
    assert(bytes@.take(bytes@.len() as int) =~= bytes@);
    out
}

/// The stamp written for a `go.mod`: its SHA-256 digest in lowercase
/// hexadecimal.
pub open spec fn spec_content_hash_hex(data: Seq<u8>) -> Seq<char> {
    hex_seq(sha256_digest(data))
}

pub fn content_hash_hex(data: &[u8]) -> (r: String)
    ensures
        r@ == spec_content_hash_hex(data@),
        r@.len() == 64,
{
    let digest = sha256(data);
    let r = lower_hex(&digest);
    proof {
        lemma_hex_len(digest@);
    }
    r
}

pub proof fn lemma_hex_len(bytes: Seq<u8>)
    ensures
        hex_seq(bytes).len() == 2 * bytes.len(),
    decreases bytes.len(),
{
    if bytes.len() > 0 {
        lemma_hex_len(bytes.drop_last());
    }
}

/// A stamp file matches when its text, trimmed, is the expected stamp.
pub fn stamp_matches(content: &str, expected: &str) -> (r: bool)
    ensures
        r == (trim_seq(content@) == expected@),
{
    let t = trim(content);
    crate::text::str_eq(t.as_str(), expected)
}

// ---------------------------------------------------------------------------
// Process ids
// ---------------------------------------------------------------------------

pub open spec fn all_digits(s: Seq<char>) -> bool {
    forall|i: int| 0 <= i < s.len() ==> is_ascii_digit(#[trigger] s[i])
}

/// The value of a string of decimal digits.
pub open spec fn digits_value(s: Seq<char>) -> nat
    decreases s.len(),
{
    if s.len() == 0 {
        0
    } else {
        digits_value(s.drop_last()) * 10 + ((s.last() as u32) - 48) as nat
    }
}

/// What `str::parse::<u32>` accepts: an optional `+`, then one or more
/// ASCII digits whose value fits in 32 bits.
pub open spec fn spec_parse_u32(s: Seq<char>) -> Option<u32> {
    let d = if s.len() > 0 && s[0] == '+' {
        s.drop_first()
    } else {
        s
    };
    if d.len() > 0 && all_digits(d) && digits_value(d) <= u32::MAX {
        Some(digits_value(d) as u32)
    } else {
        None
    }
}

proof fn lemma_digits_value_grows(s: Seq<char>, j: int, k: int)
    requires
        0 <= j <= k <= s.len(),
        all_digits(s),
    ensures
        digits_value(s.take(j)) <= digits_value(s.take(k)),
    decreases k - j,
{
    if j < k {
        lemma_digits_value_grows(s, j, k - 1);
        assert(s.take(k).drop_last() =~= s.take(k - 1));
        assert(is_ascii_digit(s[k - 1]));
    }
}

fn parse_u32_chars(d: &Vec<char>, from: usize) -> (r: Option<u32>)
    requires
        from <= d@.len(),
    ensures
        r == (if d@.len() > from && all_digits(d@.skip(from as int)) && digits_value(d@.skip(from as int))
            <= u32::MAX {
            Some(digits_value(d@.skip(from as int)) as u32)
        } else {
            None
        }),
{
    let ghost t = d@.skip(from as int);
    if d.len() == from {
        return None;
    }
    let mut val: u64 = 0;
    let mut i: usize = from;
    while i < d.len()
        invariant
            from <= i <= d@.len(),
            t == d@.skip(from as int),
            all_digits(t.take(i - from)),
            val == digits_value(t.take(i - from)),
            val <= u32::MAX,
        decreases d@.len() - i,
    {
        let c = d[i];
        assert(t[i - from] == c);
        if !crate::text::char_is_ascii_digit(c) {
            assert(!all_digits(t));
            return None;
        }
        let dv = (c as u32 - 48) as u64;
        let next = val * 10 + dv;
        assert(t.take(i - from + 1).drop_last() =~= t.take(i - from));
        assert(digits_value(t.take(i - from + 1)) == next);
        if next > 4294967295u64 {
            proof {
                if all_digits(t) {
                    lemma_digits_value_grows(t, i - from + 1, t.len() as int);
                    assert(t.take(t.len() as int) =~= t);
                }
            }
            return None;
        }
        val = next;
        i += 1;
    }
    assert(t.take(i - from) =~= t);
    Some(val as u32)
}

pub fn parse_u32(s: &str) -> (r: Option<u32>)
    ensures
        r == spec_parse_u32(s@),
{
    let cs = chars_of(s);
    if cs.len() > 0 && cs[0] == '+' {
        assert(cs@.skip(1) =~= s@.drop_first());
        parse_u32_chars(&cs, 1)
    } else {
        assert(cs@.skip(0) =~= s@);
        parse_u32_chars(&cs, 0)
    }
}

/// The process id in a pid file: its text, trimmed, read as a `u32`.
pub fn parse_pid(content: &str) -> (r: Option<u32>)
    ensures
        r == spec_parse_u32(trim_seq(content@)),
{
    let t = trim(content);
    parse_u32(t.as_str())
}

// ---------------------------------------------------------------------------
// The package of a generated Rust server
// ---------------------------------------------------------------------------

pub open spec fn is_name_line(line: Seq<char>) -> bool {
    is_prefix("name = "@, trim_seq(line))
}

/// The first line of `lines`, from `n` on, that sets a name.
pub open spec fn first_name_line(lines: Seq<Seq<char>>, n: int) -> int
    decreases lines.len() - n,
    when 0 <= n <= lines.len()
{
    if n == lines.len() {
        -1
    } else if is_name_line(lines[n]) {
        n
    } else {
        first_name_line(lines, n + 1)
    }
}

/// The value of the first `name = ` line (trimmed), with the double
/// quotes at either end removed; none when no line sets a name.
pub open spec fn spec_package_name(manifest: Seq<char>) -> Option<Seq<char>> {
    let lines = spec_lines(manifest);
    let i = first_name_line(lines, 0);
    if i < 0 {
        None
    } else {
        Some(trim_end_char(trim_start_char(trim_seq(lines[i]).skip(7), '"'), '"'))
    }
}

pub fn package_name(manifest: &str) -> (r: Option<String>)
    ensures
        match r {
            Some(name) => spec_package_name(manifest@) == Some(name@),
            None => spec_package_name(manifest@) is None,
        },
{
    let lines = lines_of(manifest);
    let ghost ls = views(lines@);
    let mut i: usize = 0;
    while i < lines.len()
        invariant
            0 <= i <= lines@.len(),
            ls == views(lines@),
            ls == spec_lines(manifest@),
            first_name_line(ls, 0) == first_name_line(ls, i as int),
        decreases lines@.len() - i,
    {
        let t = trim(lines[i].as_str());
        assert(ls[i as int] == lines@[i as int]@);
        if starts_with(t.as_str(), "name = ") {
            proof {
                reveal_strlit("name = ");
            }
            let cs = chars_of(t.as_str());
            let rest = crate::text::string_of_range(&cs, 7, cs.len());
            let rcs = chars_of(rest.as_str());
            let name = trimmed_range(&rcs, '"');
            assert(rest@ =~= trim_seq(ls[i as int]).skip(7));
            return Some(name);
        }
        i += 1;
    }
    None
}

/// The file name of the binary that `cargo build` makes for a package.
pub open spec fn spec_rust_executable_name(package: Seq<char>, windows: bool) -> Seq<char> {
    if windows {
        package + ".exe"@
    } else {
        package
    }
}

pub fn rust_executable_name(package: &str, windows: bool) -> (r: String)
    ensures
        r@ == spec_rust_executable_name(package@, windows),
{
    let mut s = String::from_str(package);
    if windows {
        s.append(".exe");
    }
    s
}

} // verus!
