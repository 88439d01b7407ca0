//! The rest of `doctor`: which tools are missing, which directories the
//! search for `.ns` files skips, and the order the files are checked in.

use vstd::prelude::*;

use crate::cli::dev::{insert_sorted, path_distinct, path_sorted};
use crate::paths::{extension, path_eq, path_extension};
use crate::text::{str_eq, views};

verus! {

/// Directories that never hold a project's own `.ns` files.
pub open spec fn spec_is_skipped_dir(name: Seq<char>) -> bool {
    ||| name == ".git"@
    ||| name == "target"@
    ||| name == "node_modules"@
    ||| name == ".nimesvc"@
    ||| name == "release"@
    ||| name == "examples"@
}

pub fn is_skipped_dir(name: &str) -> (r: bool)
    ensures
        r == spec_is_skipped_dir(name@),
{
    str_eq(name, ".git") || str_eq(name, "target") || str_eq(name, "node_modules") || str_eq(
        name,
        ".nimesvc",
    ) || str_eq(name, "release") || str_eq(name, "examples")
}

/// A file is an entry to check when its extension is `ns`.
pub fn is_ns_file(path: &str) -> (r: bool)
    ensures
        r == (extension(path@) == Some("ns"@)),
{
    match path_extension(path) {
        Some(e) => str_eq(e.as_str(), "ns"),
        None => false,
    }
}

/// The entries found, in `Path` order.
pub fn sort_entries(entries: Vec<String>) -> (r: Vec<String>)
    requires
        path_distinct(views(entries@)),
    ensures
        path_sorted(views(r@)),
        forall|s: Seq<char>| views(r@).contains(s) <==> views(entries@).contains(s),
{
    let mut out: Vec<String> = Vec::new();
    let mut i: usize = 0;
    while i < entries.len()
        invariant
            0 <= i <= entries@.len(),
            path_distinct(views(entries@)),
            path_sorted(views(out@)),
            forall|s: Seq<char>| views(out@).contains(s) <==> views(entries@).take(i as int).contains(s),
        decreases entries@.len() - i,
    {
        let x = entries[i].clone();
        proof {
            assert(views(entries@)[i as int] == x@);
            assert forall|k: int| 0 <= k < out@.len() implies !path_eq(#[trigger] out@[k]@, x@) by {
                assert(views(out@)[k] == out@[k]@);
                assert(views(out@).contains(out@[k]@));
                let t = choose|t: int| 0 <= t < i && views(entries@).take(i as int)[t] == out@[k]@;
                assert(views(entries@)[t] == out@[k]@);
                assert(!path_eq(views(entries@)[t], views(entries@)[i as int]));
            }
        }
        let ghost xv = x@;
        insert_sorted(&mut out, x);
        proof {
            let prev = views(entries@).take(i as int);
            let next = views(entries@).take(i + 1);
            assert(next =~= prev.push(xv));
            assert forall|s: Seq<char>| views(out@).contains(s) <==> next.contains(s) by {
                if next.contains(s) {
                    let t = choose|t: int| 0 <= t < next.len() && next[t] == s;
                    if t < i {
                        assert(prev[t] == s);
                    }
                }
                if prev.contains(s) {
                    let t = choose|t: int| 0 <= t < prev.len() && prev[t] == s;
                    assert(next[t] == s);
                }
                if s == xv {
                    assert(next[i as int] == s);
                }
            }
        }
        i += 1;
    }
    assert(views(entries@).take(entries@.len() as int) =~= views(entries@));
    out
}

/// The tools `doctor` looks for, by whether each was found: cargo, node,
/// bun and go.
pub open spec fn spec_missing_tools(cargo: bool, node: bool, bun: bool, go: bool) -> Seq<Seq<char>> {
    (if cargo {
        Seq::empty()
    } else {
        seq!["cargo (Rust)"@]
    }) + (if node {
        Seq::empty()
    } else {
        seq!["node (TypeScript runtime)"@]
    }) + (if bun {
        Seq::empty()
    } else {
        seq!["bun (TypeScript deps/runtime)"@]
    }) + (if go {
        Seq::empty()
    } else {
        seq!["go (Golang)"@]
    })
}

pub fn missing_tools(cargo: bool, node: bool, bun: bool, go: bool) -> (r: Vec<String>)
    ensures
        views(r@) == spec_missing_tools(cargo, node, bun, go),
{
    let mut out: Vec<String> = Vec::new();
    if !cargo {
        out.push(String::from_str("cargo (Rust)"));
    }
    let ghost a = views(out@);
    if !node {
        out.push(String::from_str("node (TypeScript runtime)"));
    }
    let ghost b = views(out@);
    if !bun {
        out.push(String::from_str("bun (TypeScript deps/runtime)"));
    }
    let ghost c = views(out@);
    if !go {
        out.push(String::from_str("go (Golang)"));
    }
    assert(views(out@) =~= spec_missing_tools(cargo, node, bun, go));
    out
}

/// The lines `doctor` prints about missing tools: none when every tool
/// was found, else a heading and one line per tool.
pub open spec fn spec_missing_tools_report(missing: Seq<Seq<char>>) -> Seq<Seq<char>> {
    if missing.len() == 0 {
        Seq::empty()
    } else {
        seq!["Doctor: warnings (missing tools):"@] + missing.map_values(|m: Seq<char>| " - "@ + m)
    }
}

pub fn missing_tools_report(missing: &Vec<String>) -> (r: Vec<String>)
    ensures
        views(r@) == spec_missing_tools_report(views(missing@)),
{
    let mut out: Vec<String> = Vec::new();
    if missing.len() == 0 {
        assert(views(out@) =~= spec_missing_tools_report(views(missing@)));
        return out;
    }
    out.push(String::from_str("Doctor: warnings (missing tools):"));
    let mut i: usize = 0;
    while i < missing.len()
        invariant
            0 <= i <= missing@.len(),
            views(out@) == seq!["Doctor: warnings (missing tools):"@] + views(missing@).take(
                i as int,
            ).map_values(|m: Seq<char>| " - "@ + m),
        decreases missing@.len() - i,
    {
        let mut line = String::from_str(" - ");
        line.append(missing[i].as_str());
        let ghost before = views(out@);
        out.push(line);
        assert(views(out@) =~= before.push(line@));
        i += 1;
        assert(views(missing@).take(i as int).map_values(|m: Seq<char>| " - "@ + m) =~= views(
            missing@,
        ).take(i - 1).map_values(|m: Seq<char>| " - "@ + m).push(" - "@ + missing@[i - 1]@));
    }
    assert(views(missing@).take(missing@.len() as int) =~= views(missing@));
    out
}

} // verus!
