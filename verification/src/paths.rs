//! Unix paths as text: their components, equality and order by
//! components, and joining, as `std::path::Path` defines them.
//!
//! A component is written as text: `/` for the root, `.` for a leading
//! current-directory component, `..` for a parent, and the name itself for
//! a normal component (which never holds `/` and is never `.` or `..`).

use vstd::prelude::*;

use crate::sorted::{lemma_lt_asymmetric, lemma_lt_irreflexive, lemma_lt_total, lemma_lt_transitive, seq_lt};
use crate::text::{chars_of, push_char, seq_join, str_eq, string_of_range, views};

verus! {

/// The pieces of `s` between slashes (one more than there are slashes).
pub open spec fn segments(s: Seq<char>) -> Seq<Seq<char>>
    decreases s.len(),
{
    if s.len() == 0 {
        seq![Seq::empty()]
    } else if s.last() == '/' {
        segments(s.drop_last()).push(Seq::empty())
    } else {
        let p = segments(s.drop_last());
        p.update(p.len() - 1, p.last().push(s.last()))
    }
}

pub proof fn lemma_segments_nonempty(s: Seq<char>)
    ensures
        segments(s).len() >= 1,
    decreases s.len(),
{
    if s.len() > 0 {
        lemma_segments_nonempty(s.drop_last());
    }
}

/// The normal and parent components among segments: empty pieces and `.`
/// are dropped.
pub open spec fn kept_segments(segs: Seq<Seq<char>>) -> Seq<Seq<char>>
    decreases segs.len(),
{
    if segs.len() == 0 {
        Seq::empty()
    } else {
        let rest = kept_segments(segs.drop_last());
        let x = segs.last();
        if x.len() == 0 || x == seq!['.'] {
            rest
        } else {
            rest.push(x)
        }
    }
}

/// The components of a path, as `Path::components` gives them on Unix.
pub open spec fn components(s: Seq<char>) -> Seq<Seq<char>> {
    let head: Seq<Seq<char>> = if s.len() > 0 && s[0] == '/' {
        seq![seq!['/']]
    } else if segments(s)[0] == seq!['.'] {
        seq![seq!['.']]
    } else {
        Seq::empty()
    };
    head + kept_segments(segments(s))
}

/// Rank of a component in the order of `std::path::Component`:
/// root, then current directory, then parent, then names.
pub open spec fn comp_rank(c: Seq<char>) -> int {
    if c == seq!['/'] {
        0
    } else if c == seq!['.'] {
        1
    } else if c == seq!['.', '.'] {
        2
    } else {
        3
    }
}

pub open spec fn comp_lt(a: Seq<char>, b: Seq<char>) -> bool {
    if comp_rank(a) != comp_rank(b) {
        comp_rank(a) < comp_rank(b)
    } else if comp_rank(a) == 3 {
        seq_lt(a, b)
    } else {
        false
    }
}

/// Lexicographic order of component lists: the order of `Path`.
pub open spec fn comps_lt(a: Seq<Seq<char>>, b: Seq<Seq<char>>) -> bool
    decreases a.len(),
{
    if a.len() == 0 {
        b.len() > 0
    } else if b.len() == 0 {
        false
    } else if a[0] != b[0] {
        comp_lt(a[0], b[0])
    } else {
        comps_lt(a.drop_first(), b.drop_first())
    }
}

pub open spec fn path_eq(a: Seq<char>, b: Seq<char>) -> bool {
    components(a) == components(b)
}

pub open spec fn path_lt(a: Seq<char>, b: Seq<char>) -> bool {
    comps_lt(components(a), components(b))
}

proof fn lemma_comp_lt_order(a: Seq<char>, b: Seq<char>, c: Seq<char>)
    ensures
        !comp_lt(a, a),
        !(comp_lt(a, b) && comp_lt(b, a)),
        a != b ==> comp_lt(a, b) || comp_lt(b, a),
        comp_lt(a, b) && comp_lt(b, c) ==> comp_lt(a, c),
{
    lemma_lt_irreflexive(a);
    lemma_lt_asymmetric(a, b);
    lemma_lt_total(a, b);
    if comp_lt(a, b) && comp_lt(b, c) && comp_rank(a) == 3 && comp_rank(b) == 3 && comp_rank(c) == 3 {
        lemma_lt_transitive(a, b, c);
    }
    if a != b && comp_rank(a) == comp_rank(b) && comp_rank(a) < 3 {
        assert(false);
    }
}

pub proof fn lemma_comps_lt_irreflexive(a: Seq<Seq<char>>)
    ensures
        !comps_lt(a, a),
    decreases a.len(),
{
    if a.len() > 0 {
        lemma_comps_lt_irreflexive(a.drop_first());
    }
}

pub proof fn lemma_comps_lt_asymmetric(a: Seq<Seq<char>>, b: Seq<Seq<char>>)
    ensures
        !(comps_lt(a, b) && comps_lt(b, a)),
    decreases a.len(),
{
    if a.len() > 0 && b.len() > 0 {
        if a[0] == b[0] {
            lemma_comps_lt_asymmetric(a.drop_first(), b.drop_first());
        } else {
            lemma_comp_lt_order(a[0], b[0], b[0]);
        }
    }
}

pub proof fn lemma_comps_lt_total(a: Seq<Seq<char>>, b: Seq<Seq<char>>)
    ensures
        a != b ==> comps_lt(a, b) || comps_lt(b, a),
    decreases a.len(),
{
    if a.len() > 0 && b.len() > 0 {
        if a[0] == b[0] {
            lemma_comps_lt_total(a.drop_first(), b.drop_first());
            if a.drop_first() == b.drop_first() {
                assert(a =~= seq![a[0]] + a.drop_first());
                assert(b =~= seq![b[0]] + b.drop_first());
            }
        } else {
            lemma_comp_lt_order(a[0], b[0], b[0]);
        }
    } else if a.len() == 0 && b.len() == 0 {
        assert(a =~= b);
    }
}

pub proof fn lemma_comps_lt_transitive(a: Seq<Seq<char>>, b: Seq<Seq<char>>, c: Seq<Seq<char>>)
    requires
        comps_lt(a, b),
        comps_lt(b, c),
    ensures
        comps_lt(a, c),
    decreases a.len(),
{
    if a.len() > 0 && b.len() > 0 && c.len() > 0 {
        lemma_comp_lt_order(a[0], b[0], c[0]);
        lemma_comp_lt_order(a[0], c[0], b[0]);
        if a[0] == b[0] && b[0] == c[0] {
            lemma_comps_lt_transitive(a.drop_first(), b.drop_first(), c.drop_first());
        }
    }
}

// ---------------------------------------------------------------------------
// Executable counterparts
// ---------------------------------------------------------------------------

pub fn split_segments(s: &str) -> (r: Vec<String>)
    ensures
        views(r@) == segments(s@),
{
    let cs = chars_of(s);
    let mut done: Vec<String> = Vec::new();
    let mut cur = String::new();
    let mut i: usize = 0;
    while i < cs.len()
        invariant
            0 <= i <= cs@.len(),
            cs@ == s@,
            views(done@).push(cur@) == segments(cs@.take(i as int)),
        decreases cs@.len() - i,
    {
        proof {
            assert(cs@.take(i + 1).drop_last() =~= cs@.take(i as int));
        }
        if cs[i] == '/' {
            let finished = cur;
            proof {
                crate::text::lemma_views_push(done@, finished);
            }
            done.push(finished);
            cur = String::new();
        } else {
            let ghost before = views(done@).push(cur@);
            push_char(&mut cur, cs[i]);
            proof {
                assert(views(done@).push(cur@) =~= before.update(
                    before.len() - 1,
                    before.last().push(cs@[i as int]),
                ));
            }
        }
        i += 1;
    }
    proof {
        crate::text::lemma_take_full(cs@);
        crate::text::lemma_views_push(done@, cur);
    }
    done.push(cur);
    done
}

fn is_dot(s: &str) -> (r: bool)
    ensures
        r == (s@ == seq!['.']),
{
    let cs = chars_of(s);
    let r = cs.len() == 1 && cs[0] == '.';
    proof {
        if r {
            assert(s@ =~= seq!['.']);
        }
    }
    r
}

pub fn path_components(s: &str) -> (r: Vec<String>)
    ensures
        views(r@) == components(s@),
{
    let segs = split_segments(s);
    proof {
        lemma_segments_nonempty(s@);
    }
    let cs = chars_of(s);
    let mut out: Vec<String> = Vec::new();
    if cs.len() > 0 && cs[0] == '/' {
        let mut root = String::new();
        push_char(&mut root, '/');
        out.push(root);
        assert(views(out@) =~= seq![seq!['/']]);
    } else if is_dot(segs[0].as_str()) {
        let mut dot = String::new();
        push_char(&mut dot, '.');
        out.push(dot);
        assert(views(out@) =~= seq![seq!['.']]);
    } else {
        assert(views(out@) =~= Seq::<Seq<char>>::empty());
    }
    let ghost head = views(out@);
    let mut i: usize = 0;
    while i < segs.len()
        invariant
            0 <= i <= segs@.len(),
            views(segs@) == segments(s@),
            views(out@) == head + kept_segments(views(segs@).take(i as int)),
        decreases segs@.len() - i,
    {
        proof {
            assert(views(segs@).take(i + 1).drop_last() =~= views(segs@).take(i as int));
            assert(views(segs@).take(i + 1).last() == segs@[i as int]@);
        }
        let x = &segs[i];
        if x.as_str().unicode_len() == 0 || is_dot(x.as_str()) {
        } else {
            let c = x.clone();
            proof {
                crate::text::lemma_views_push(out@, c);
            }
            out.push(c);
        }
        i += 1;
    }
    proof {
        crate::text::lemma_take_full(views(segs@));
    }
    out
}

fn comp_rank_of(c: &str) -> (r: u8)
    ensures
        r as int == comp_rank(c@),
{
    let cs = chars_of(c);
    if cs.len() == 1 && cs[0] == '/' {
        assert(c@ =~= seq!['/']);
        0
    } else if cs.len() == 1 && cs[0] == '.' {
        assert(c@ =~= seq!['.']);
        1
    } else if cs.len() == 2 && cs[0] == '.' && cs[1] == '.' {
        assert(c@ =~= seq!['.', '.']);
        2
    } else {
        proof {
            if c@ == seq!['/'] || c@ == seq!['.'] {
                assert(cs@.len() == 1);
            }
            if c@ == seq!['.', '.'] {
                assert(cs@.len() == 2);
            }
        }
        3
    }
}

fn comp_less(a: &str, b: &str) -> (r: bool)
    ensures
        r == comp_lt(a@, b@),
{
    let ra = comp_rank_of(a);
    let rb = comp_rank_of(b);
    if ra != rb {
        ra < rb
    } else if ra == 3 {
        crate::sorted::str_lt(a, b)
    } else {
        false
    }
}

fn comps_less(a: &Vec<String>, b: &Vec<String>) -> (r: bool)
    ensures
        r == comps_lt(views(a@), views(b@)),
{
    let ghost va = views(a@);
    let ghost vb = views(b@);
    let mut i: usize = 0;
    assert(va.skip(0) =~= va);
    assert(vb.skip(0) =~= vb);
    while i < a.len() && i < b.len() && str_eq(a[i].as_str(), b[i].as_str())
        invariant
            0 <= i <= a@.len(),
            i <= b@.len(),
            va == views(a@),
            vb == views(b@),
            comps_lt(va, vb) == comps_lt(va.skip(i as int), vb.skip(i as int)),
        decreases a@.len() - i,
    {
        proof {
            assert(va.skip(i as int).drop_first() =~= va.skip(i + 1));
            assert(vb.skip(i as int).drop_first() =~= vb.skip(i + 1));
        }
        i += 1;
    }
    if i == a.len() {
        i < b.len()
    } else if i == b.len() {
        false
    } else {
        proof {
            assert(va.skip(i as int)[0] == a@[i as int]@);
            assert(vb.skip(i as int)[0] == b@[i as int]@);
        }
        comp_less(a[i].as_str(), b[i].as_str())
    }
}

fn comps_equal(a: &Vec<String>, b: &Vec<String>) -> (r: bool)
    ensures
        r == (views(a@) == views(b@)),
{
    if a.len() != b.len() {
        assert(views(a@).len() != views(b@).len());
        return false;
    }
    let mut i: usize = 0;
    while i < a.len()
        invariant
            0 <= i <= a@.len() == b@.len(),
            forall|j: int| 0 <= j < i ==> a@[j]@ == b@[j]@,
        decreases a@.len() - i,
    {
        if !str_eq(a[i].as_str(), b[i].as_str()) {
            assert(views(a@)[i as int] != views(b@)[i as int]);
            return false;
        }
        i += 1;
    }
    assert(views(a@) =~= views(b@));
    true
}

/// `Path` equality: the same components.
pub fn paths_equal(a: &str, b: &str) -> (r: bool)
    ensures
        r == path_eq(a@, b@),
{
    let ca = path_components(a);
    let cb = path_components(b);
    comps_equal(&ca, &cb)
}

/// `Path` order: components compared in turn.
pub fn path_less(a: &str, b: &str) -> (r: bool)
    ensures
        r == path_lt(a@, b@),
{
    let ca = path_components(a);
    let cb = path_components(b);
    comps_less(&ca, &cb)
}

// ---------------------------------------------------------------------------
// Joining
// ---------------------------------------------------------------------------

pub open spec fn is_absolute(s: Seq<char>) -> bool {
    s.len() > 0 && s[0] == '/'
}

/// `dir.join(rel)`: an absolute `rel` replaces `dir`; otherwise `rel` is
/// appended, with a `/` between unless `dir` is empty or ends with one.
pub open spec fn path_join(dir: Seq<char>, rel: Seq<char>) -> Seq<char> {
    if is_absolute(rel) {
        rel
    } else if dir.len() == 0 || dir.last() == '/' {
        dir + rel
    } else {
        dir + seq!['/'] + rel
    }
}

pub fn join_path(dir: &str, rel: &str) -> (r: String)
    ensures
        r@ == path_join(dir@, rel@),
{
    let rc = chars_of(rel);
    if rc.len() > 0 && rc[0] == '/' {
        return rel.to_owned();
    }
    let dc = chars_of(dir);
    let mut out = dir.to_owned();
    if dc.len() > 0 && dc[dc.len() - 1] != '/' {
        push_char(&mut out, '/');
    }
    out.append(rel);
    out
}

/// The last component when it is a name, as `Path::file_name` gives it.
pub open spec fn file_name(s: Seq<char>) -> Option<Seq<char>> {
    let c = components(s);
    if c.len() > 0 && c.last() != seq!['/'] && c.last() != seq!['.'] && c.last() != seq!['.', '.'] {
        Some(c.last())
    } else {
        None
    }
}

/// The index of the last `.` among the first `n` characters, or -1.
pub open spec fn last_dot(f: Seq<char>, n: int) -> int
    decreases n,
{
    if n <= 0 {
        -1
    } else if f[n - 1] == '.' {
        n - 1
    } else {
        last_dot(f, n - 1)
    }
}

/// `Path::extension`: what follows the last `.` of the file name, unless
/// the name has no `.` or its only leading `.` makes it a hidden name.
pub open spec fn extension(s: Seq<char>) -> Option<Seq<char>> {
    match file_name(s) {
        Some(f) => {
            let i = last_dot(f, f.len() as int);
            if i <= 0 {
                None
            } else {
                Some(f.skip(i + 1))
            }
        },
        None => None,
    }
}

proof fn lemma_last_dot_range(f: Seq<char>, n: int)
    requires
        n <= f.len(),
    ensures
        -1 <= last_dot(f, n) < n || (n <= 0 && last_dot(f, n) == -1),
        last_dot(f, n) >= 0 ==> f[last_dot(f, n)] == '.',
    decreases n,
{
    if n > 0 && f[n - 1] != '.' {
        lemma_last_dot_range(f, n - 1);
    }
}

pub fn path_extension(s: &str) -> (r: Option<String>)
    ensures
        match r {
            Some(e) => extension(s@) == Some(e@),
            None => extension(s@) is None,
        },
{
    let comps = path_components(s);
    let n = comps.len();
    if n == 0 {
        return None;
    }
    let last = &comps[n - 1];
    assert(components(s@).last() == last@) by {
        assert(views(comps@)[n as int - 1] == comps@[n as int - 1]@);
    }
    if str_eq(last.as_str(), "/") || str_eq(last.as_str(), ".") || str_eq(last.as_str(), "..") {
        proof {
            reveal_strlit("/");
            reveal_strlit(".");
            reveal_strlit("..");
            assert("/"@ =~= seq!['/']);
            assert("."@ =~= seq!['.']);
            assert(".."@ =~= seq!['.', '.']);
        }
        return None;
    }
    proof {
        reveal_strlit("/");
        reveal_strlit(".");
        reveal_strlit("..");
        assert("/"@ =~= seq!['/']);
        assert("."@ =~= seq!['.']);
        assert(".."@ =~= seq!['.', '.']);
        assert(components(s@).len() == n);
        assert(file_name(s@) == Some(last@));
    }
    let cs = chars_of(last.as_str());
    let mut i: usize = cs.len();
    while i > 0
        invariant
            i <= cs@.len(),
            cs@ == last@,
            last_dot(cs@, cs@.len() as int) == last_dot(cs@, i as int),
        ensures
            i <= cs@.len(),
            last_dot(cs@, cs@.len() as int) == last_dot(cs@, i as int),
            i == 0 || cs@[i - 1] == '.',
        decreases i,
    {
        if cs[i - 1] == '.' {
            break;
        }
        i -= 1;
    }
    proof {
        lemma_last_dot_range(cs@, cs@.len() as int);
    }
    if i <= 1 {
        return None;
    }
    let e = string_of_range(&cs, i, cs.len());
    assert(e@ =~= last@.skip(i as int));
    Some(e)
}

/// `Path::file_name`.
pub fn path_file_name(s: &str) -> (r: Option<String>)
    ensures
        match r {
            Some(n) => file_name(s@) == Some(n@),
            None => file_name(s@) is None,
        },
{
    let comps = path_components(s);
    let n = comps.len();
    if n == 0 {
        return None;
    }
    let last = &comps[n - 1];
    assert(components(s@).last() == last@) by {
        assert(views(comps@)[n as int - 1] == comps@[n as int - 1]@);
    }
    proof {
        reveal_strlit("/");
        reveal_strlit(".");
        reveal_strlit("..");
        assert("/"@ =~= seq!['/']);
        assert("."@ =~= seq!['.']);
        assert(".."@ =~= seq!['.', '.']);
    }
    if str_eq(last.as_str(), "/") || str_eq(last.as_str(), ".") || str_eq(last.as_str(), "..") {
        return None;
    }
    Some(last.clone())
}


// ---------------------------------------------------------------------------
// Paths made of names
// ---------------------------------------------------------------------------

pub open spec fn no_slash(x: Seq<char>) -> bool {
    forall|i: int| 0 <= i < x.len() ==> x[i] != '/'
}

/// A normal component: a non-empty name without `/` that is neither `.`
/// nor `..`.
pub open spec fn is_name(x: Seq<char>) -> bool {
    x.len() > 0 && no_slash(x) && x != seq!['.'] && x != seq!['.', '.']
}

pub proof fn lemma_segments_no_slash(s: Seq<char>)
    ensures
        forall|i: int| 0 <= i < segments(s).len() ==> no_slash(#[trigger] segments(s)[i]),
    decreases s.len(),
{
    lemma_segments_nonempty(s);
    if s.len() > 0 {
        lemma_segments_no_slash(s.drop_last());
        lemma_segments_nonempty(s.drop_last());
        let p = segments(s.drop_last());
        if s.last() != '/' {
            assert forall|i: int| 0 <= i < segments(s).len() implies no_slash(#[trigger] segments(s)[i]) by {
                if i == p.len() - 1 {
                    let x = p.last().push(s.last());
                    assert(segments(s)[i] == x);
                    assert forall|j: int| 0 <= j < x.len() implies x[j] != '/' by {
                        if j < p.last().len() {
                            assert(no_slash(p[p.len() - 1]));
                        }
                    }
                } else {
                    assert(segments(s)[i] == p[i]);
                }
            }
        } else {
            assert forall|i: int| 0 <= i < segments(s).len() implies no_slash(#[trigger] segments(s)[i]) by {
                if i < p.len() {
                    assert(segments(s)[i] == p[i]);
                }
            }
        }
    }
}

pub proof fn lemma_kept_segments_names(segs: Seq<Seq<char>>)
    requires
        forall|i: int| 0 <= i < segs.len() ==> no_slash(#[trigger] segs[i]),
    ensures
        forall|i: int| 0 <= i < kept_segments(segs).len() ==> {
            let x = #[trigger] kept_segments(segs)[i];
            x.len() > 0 && no_slash(x) && x != seq!['.']
        },
    decreases segs.len(),
{
    if segs.len() > 0 {
        lemma_kept_segments_names(segs.drop_last());
        let rest = kept_segments(segs.drop_last());
        assert(no_slash(segs[segs.len() - 1]));
        assert forall|i: int| 0 <= i < kept_segments(segs).len() implies {
            let x = #[trigger] kept_segments(segs)[i];
            x.len() > 0 && no_slash(x) && x != seq!['.']
        } by {
            if i < rest.len() {
                assert(kept_segments(segs)[i] == rest[i]);
            }
        }
    }
}

pub proof fn lemma_kept_segments_of_names(parts: Seq<Seq<char>>)
    requires
        forall|i: int| 0 <= i < parts.len() ==> (#[trigger] parts[i]).len() > 0 && parts[i] != seq!['.'],
    ensures
        kept_segments(parts) == parts,
    decreases parts.len(),
{
    if parts.len() > 0 {
        lemma_kept_segments_of_names(parts.drop_last());
        assert(parts[parts.len() - 1].len() > 0);
        assert(parts.drop_last().push(parts.last()) =~= parts);
    }
}

proof fn lemma_segments_of_name(b: Seq<char>)
    requires
        no_slash(b),
    ensures
        segments(b) == seq![b],
    decreases b.len(),
{
    if b.len() > 0 {
        lemma_segments_of_name(b.drop_last());
        assert(b.last() == b[b.len() - 1]);
        assert(b.drop_last().push(b.last()) =~= b);
        assert(seq![b.drop_last()].update(0, b.drop_last().push(b.last())) =~= seq![b]);
    } else {
        assert(b =~= Seq::<char>::empty());
    }
}

proof fn lemma_segments_after_slash(x: Seq<char>, b: Seq<char>)
    requires
        no_slash(b),
    ensures
        segments(x + seq!['/'] + b) == segments(x).push(b),
    decreases b.len(),
{
    let s = x + seq!['/'] + b;
    if b.len() == 0 {
        assert(s.drop_last() =~= x);
        assert(b =~= Seq::<char>::empty());
    } else {
        let b0 = b.drop_last();
        assert(no_slash(b0));
        lemma_segments_after_slash(x, b0);
        assert(s.drop_last() =~= x + seq!['/'] + b0);
        assert(s.last() == b[b.len() - 1]);
        let p = segments(x).push(b0);
        assert(p.last() == b0);
        assert(b0.push(b.last()) =~= b);
        assert(s.last() == b.last());
        assert(p.update(p.len() - 1, p.last().push(s.last())) =~= segments(x).push(b));
    }
}

/// Names joined with `/` have those names as their pieces between
/// slashes.
pub proof fn lemma_segments_of_join(parts: Seq<Seq<char>>)
    requires
        parts.len() >= 1,
        forall|i: int| 0 <= i < parts.len() ==> no_slash(#[trigger] parts[i]),
    ensures
        segments(seq_join(parts, seq!['/'])) == parts,
    decreases parts.len(),
{
    assert(no_slash(parts[parts.len() - 1]));
    if parts.len() == 1 {
        lemma_segments_of_name(parts[0]);
        assert(seq![parts[0]] =~= parts);
    } else {
        let init = parts.drop_last();
        assert forall|i: int| 0 <= i < init.len() implies no_slash(#[trigger] init[i]) by {
            assert(init[i] == parts[i]);
        }
        lemma_segments_of_join(init);
        lemma_segments_after_slash(seq_join(init, seq!['/']), parts.last());
        assert(init.push(parts.last()) =~= parts);
    }
}

/// The first character of joined names is that of the first name.
pub proof fn lemma_join_first(parts: Seq<Seq<char>>, sep: Seq<char>)
    requires
        parts.len() >= 1,
        parts[0].len() > 0,
    ensures
        seq_join(parts, sep).len() > 0,
        seq_join(parts, sep)[0] == parts[0][0],
    decreases parts.len(),
{
    if parts.len() > 1 {
        lemma_join_first(parts.drop_last(), sep);
    }
}

/// Names joined with `/` are a relative path whose components are those
/// names.
pub proof fn lemma_components_of_names(parts: Seq<Seq<char>>)
    requires
        parts.len() >= 1,
        forall|i: int| 0 <= i < parts.len() ==> is_name(#[trigger] parts[i]),
    ensures
        components(seq_join(parts, seq!['/'])) == parts,
{
    let s = seq_join(parts, seq!['/']);
    assert forall|i: int| 0 <= i < parts.len() implies no_slash(#[trigger] parts[i]) by {
        assert(is_name(parts[i]));
    }
    lemma_segments_of_join(parts);
    assert(is_name(parts[0]));
    lemma_join_first(parts, seq!['/']);
    assert(s[0] != '/');
    assert(segments(s)[0] != seq!['.']);
    assert forall|i: int| 0 <= i < parts.len() implies (#[trigger] parts[i]).len() > 0 && parts[i] != seq!['.'] by {
        assert(is_name(parts[i]));
    }
    lemma_kept_segments_of_names(parts);
    assert(Seq::<Seq<char>>::empty() + parts =~= parts);
}

/// Every component of a path other than a root or a leading `.` is a
/// non-empty piece without `/` and is not `.`.
pub proof fn lemma_components_pieces(s: Seq<char>)
    ensures
        forall|i: int| 0 <= i < components(s).len() ==> {
            let x = #[trigger] components(s)[i];
            x == seq!['/'] || x == seq!['.'] || (x.len() > 0 && no_slash(x))
        },
{
    lemma_segments_no_slash(s);
    lemma_kept_segments_names(segments(s));
    let head: Seq<Seq<char>> = if s.len() > 0 && s[0] == '/' {
        seq![seq!['/']]
    } else if segments(s)[0] == seq!['.'] {
        seq![seq!['.']]
    } else {
        Seq::empty()
    };
    let kept = kept_segments(segments(s));
    assert(components(s) == head + kept);
    assert forall|i: int| 0 <= i < components(s).len() implies {
        let x = #[trigger] components(s)[i];
        x == seq!['/'] || x == seq!['.'] || (x.len() > 0 && no_slash(x))
    } by {
        if i >= head.len() {
            assert(components(s)[i] == kept[i - head.len()]);
        }
    }
}

} // verus!
