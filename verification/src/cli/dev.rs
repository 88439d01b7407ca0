//! The decisions of the development loop: which watched files changed
//! between two snapshots of modification times, and how the watch list
//! itself changed.

use vstd::prelude::*;

use crate::paths::{
    comps_lt, components, is_absolute, lemma_comps_lt_asymmetric, lemma_comps_lt_irreflexive,
    lemma_comps_lt_total, lemma_comps_lt_transitive, path_eq, path_join, path_less, path_lt,
    paths_equal,
};
use crate::cli::doctor::{flat_map, lemma_flat_map_step, lemma_take_all};
use crate::ir::{ModuleUse, Project, RpcDef, Service, SocketDef};
use crate::text::{chars_of, first_char_is, starts_with_char, trim, trim_seq};
use vstd::relations::injective_on;
use vstd::set_lib::{lemma_int_range, lemma_len_subset, lemma_map_size, lemma_map_size_bound, lemma_subset_equality, set_int_range};

verus! {

/// Modification times of watched paths, at most one entry per path (paths
/// that name the same components are the same path). A time is counted in
/// nanoseconds since the Unix epoch; `None` when it could not be read.
pub struct Snapshot {
    entries: Vec<(String, Option<u128>)>,
}

pub open spec fn entries_unique(e: Seq<(String, Option<u128>)>) -> bool {
    forall|i: int, j: int|
        0 <= i < j < e.len() ==> !path_eq(#[trigger] e[i].0@, #[trigger] e[j].0@)
}

pub open spec fn snap_has(e: Seq<(String, Option<u128>)>, p: Seq<char>) -> bool {
    exists|i: int| 0 <= i < e.len() && path_eq(#[trigger] e[i].0@, p)
}

/// The time recorded for `p`, if `p` is watched.
pub open spec fn snap_get(e: Seq<(String, Option<u128>)>, p: Seq<char>) -> Option<Option<u128>> {
    if snap_has(e, p) {
        Some(e[choose|i: int| 0 <= i < e.len() && path_eq(#[trigger] e[i].0@, p)].1)
    } else {
        None
    }
}

/// In a snapshot that holds each path once, the time of a path is the
/// time of the entry that names it.
pub proof fn lemma_snap_get_at(e: Seq<(String, Option<u128>)>, p: Seq<char>, k: int)
    requires
        entries_unique(e),
        0 <= k < e.len(),
        path_eq(e[k].0@, p),
    ensures
        snap_get(e, p) == Some(e[k].1),
{
    assert(snap_has(e, p));
    let c = choose|i: int| 0 <= i < e.len() && path_eq(#[trigger] e[i].0@, p);
    if c < k {
        assert(!path_eq(e[c].0@, e[k].0@));
    } else if k < c {
        assert(!path_eq(e[k].0@, e[c].0@));
    }
}

impl Snapshot {
    #[verifier::type_invariant]
    spec fn inv(self) -> bool {
        entries_unique(self.entries@)
    }

    pub closed spec fn view(self) -> Seq<(String, Option<u128>)> {
        self.entries@
    }

    pub fn new() -> (s: Snapshot)
        ensures
            s.view().len() == 0,
            entries_unique(s.view()),
    {
        Snapshot { entries: Vec::new() }
    }

    /// A snapshot holds each path once. Call it to learn so of a snapshot
    /// you were handed, for the laws that take snapshots by their view.
    pub fn each_path_once(&self)
        ensures
            entries_unique(self.view()),
    {
        proof {
            use_type_invariant(self);
        }
    }

    pub fn len(&self) -> (n: usize)
        ensures
            n == self.view().len(),
    {
        self.entries.len()
    }

    /// Records the time of `path`; a path already present keeps its entry
    /// (and its text) and gets the new time.
    #[verifier::loop_isolation(false)]
    pub fn insert(&mut self, path: String, modified: Option<u128>)
        ensures
            snap_has(old(self).view(), path@) ==> (exists|i: int|
                0 <= i < old(self).view().len() && path_eq(
                    #[trigger] old(self).view()[i].0@,
                    path@,
                ) && final(self).view() == old(self).view().update(
                    i,
                    (old(self).view()[i].0, modified),
                )),
            !snap_has(old(self).view(), path@) ==> final(self).view() == old(self).view().push(
                (path, modified),
            ),
            entries_unique(final(self).view()),
            snap_get(final(self).view(), path@) == Some(modified),
            forall|q: Seq<char>|
                !path_eq(q, path@) ==> #[trigger] snap_get(final(self).view(), q) == snap_get(
                    old(self).view(),
                    q,
                ),
    {
        proof {
            use_type_invariant(&*self);
        }
        let mut i: usize = 0;
        while i < self.entries.len()
            invariant
                0 <= i <= self.entries@.len(),
                entries_unique(self.entries@),
                self.view() == old(self).view(),
                forall|j: int| 0 <= j < i ==> !path_eq(#[trigger] self.entries@[j].0@, path@),
            decreases self.entries@.len() - i,
        {
            if paths_equal(self.entries[i].0.as_str(), path.as_str()) {
                let key = self.entries[i].0.clone();
                let ghost old_e = self.entries@;
                assert(old_e == old(self).view());
                let mut entries = Vec::new();
                std::mem::swap(&mut entries, &mut self.entries);
                entries.set(i, (key, modified));
                proof {
                    assert(entries_unique(entries@)) by {
                        assert forall|a: int, b: int| 0 <= a < b < entries@.len() implies !path_eq(
                            #[trigger] entries@[a].0@,
                            #[trigger] entries@[b].0@,
                        ) by {
                            assert(entries@[a].0@ == old_e[a].0@);
                            assert(entries@[b].0@ == old_e[b].0@);
                        }
                    }
                }
                self.entries = entries;
                assert(self.view() =~= old_e.update(i as int, (old_e[i as int].0, modified)));
                assert(path_eq(old_e[i as int].0@, path@));
                assert(snap_has(old_e, path@));
                proof {
                    let ne = self.entries@;
                    lemma_snap_get_at(ne, path@, i as int);
                    assert forall|q: Seq<char>| !path_eq(q, path@) implies #[trigger] snap_get(ne, q) == snap_get(old_e, q) by {
                        if snap_has(old_e, q) {
                            let k = choose|k: int| 0 <= k < old_e.len() && path_eq(#[trigger] old_e[k].0@, q);
                            lemma_snap_get_at(old_e, q, k);
                            assert(ne[k].0@ == old_e[k].0@);
                            lemma_snap_get_at(ne, q, k);
                            assert(k != i);
                        } else {
                            if snap_has(ne, q) {
                                let k = choose|k: int| 0 <= k < ne.len() && path_eq(#[trigger] ne[k].0@, q);
                                assert(path_eq(old_e[k].0@, q));
                            }
                        }
                    }
                }
                return;
            }
            i += 1;
        }
        let ghost old_e = self.entries@;
        assert(old_e == old(self).view());
        assert(!snap_has(old_e, path@));
        let ghost pv = path@;
        let mut entries = Vec::new();
        std::mem::swap(&mut entries, &mut self.entries);
        entries.push((path, modified));
        proof {
            assert(entries_unique(entries@)) by {
                assert forall|a: int, b: int| 0 <= a < b < entries@.len() implies !path_eq(
                    #[trigger] entries@[a].0@,
                    #[trigger] entries@[b].0@,
                ) by {
                    if b == old_e.len() {
                        assert(entries@[a] == old_e[a]);
                        assert(!path_eq(old_e[a].0@, pv));
                    } else {
                        assert(entries@[a] == old_e[a]);
                        assert(entries@[b] == old_e[b]);
                    }
                }
            }
        }
        self.entries = entries;
        proof {
            let ne = self.entries@;
            assert(ne == old_e.push((path, modified)));
            lemma_snap_get_at(ne, pv, old_e.len() as int);
            assert forall|q: Seq<char>| !path_eq(q, pv) implies #[trigger] snap_get(ne, q) == snap_get(old_e, q) by {
                if snap_has(old_e, q) {
                    let k = choose|k: int| 0 <= k < old_e.len() && path_eq(#[trigger] old_e[k].0@, q);
                    lemma_snap_get_at(old_e, q, k);
                    assert(ne[k] == old_e[k]);
                    lemma_snap_get_at(ne, q, k);
                } else {
                    if snap_has(ne, q) {
                        let k = choose|k: int| 0 <= k < ne.len() && path_eq(#[trigger] ne[k].0@, q);
                        if k < old_e.len() {
                            assert(ne[k] == old_e[k]);
                        }
                    }
                }
            }
        }
    }

    /// The time recorded for a path.
    pub fn get(&self, path: &str) -> (r: Option<Option<u128>>)
        ensures
            r == snap_get(self.view(), path@),
    {
        proof {
            use_type_invariant(self);
        }
        let mut i: usize = 0;
        while i < self.entries.len()
            invariant
                0 <= i <= self.entries@.len(),
                entries_unique(self.entries@),
                forall|j: int| 0 <= j < i ==> !path_eq(#[trigger] self.entries@[j].0@, path@),
            decreases self.entries@.len() - i,
        {
            if paths_equal(self.entries[i].0.as_str(), path) {
                proof {
                    let e = self.entries@;
                    assert(snap_has(e, path@));
                    let k = choose|k: int| 0 <= k < e.len() && path_eq(#[trigger] e[k].0@, path@);
                    if k != i {
                        if k < i {
                            assert(!path_eq(e[k].0@, path@));
                        } else {
                            assert(!path_eq(e[i as int].0@, e[k].0@));
                        }
                    }
                }
                return Some(self.entries[i].1);
            }
            i += 1;
        }
        None
    }

    pub fn entry(&self, i: usize) -> (r: (&String, Option<u128>))
        requires
            i < self.view().len(),
        ensures
            *r.0 == self.view()[i as int].0,
            r.1 == self.view()[i as int].1,
    {
        (&self.entries[i].0, self.entries[i].1)
    }
}

/// Whether anything differs: another number of watched paths, or a path
/// whose time is new or other than before.
pub open spec fn spec_has_changes(
    prev: Seq<(String, Option<u128>)>,
    cur: Seq<(String, Option<u128>)>,
) -> bool {
    prev.len() != cur.len() || exists|i: int|
        0 <= i < cur.len() && snap_get(prev, (#[trigger] cur[i]).0@) != Some(cur[i].1)
}

pub fn has_changes(previous: &Snapshot, current: &Snapshot) -> (r: bool)
    ensures
        r == spec_has_changes(previous.view(), current.view()),
{
    if previous.len() != current.len() {
        return true;
    }
    let mut i: usize = 0;
    while i < current.len()
        invariant
            0 <= i <= current.view().len(),
            previous.view().len() == current.view().len(),
            forall|j: int|
                0 <= j < i ==> snap_get(previous.view(), (#[trigger] current.view()[j]).0@)
                    == Some(current.view()[j].1),
        decreases current.view().len() - i,
    {
        let (path, time) = current.entry(i);
        if previous.get(path.as_str()) != Some(time) {
            return true;
        }
        i += 1;
    }
    false
}

/// A path counts as changed when its time is new or differs, or when it is
/// no longer watched.
pub open spec fn is_changed(
    prev: Seq<(String, Option<u128>)>,
    cur: Seq<(String, Option<u128>)>,
    p: Seq<char>,
) -> bool {
    ||| exists|i: int|
        0 <= i < cur.len() && (#[trigger] cur[i]).0@ == p && snap_get(prev, p) != Some(cur[i].1)
    ||| exists|i: int| 0 <= i < prev.len() && (#[trigger] prev[i]).0@ == p && !snap_has(cur, p)
}

/// Strictly increasing in the order of `Path`.
pub open spec fn path_sorted(v: Seq<Seq<char>>) -> bool {
    forall|i: int, j: int| 0 <= i < j < v.len() ==> path_lt(#[trigger] v[i], #[trigger] v[j])
}

pub open spec fn path_distinct(v: Seq<Seq<char>>) -> bool {
    forall|i: int, j: int| 0 <= i < j < v.len() ==> !path_eq(#[trigger] v[i], #[trigger] v[j])
}

/// Inserts `x` into a list kept in `Path` order; `x` names a path that is
/// not in the list.
pub fn insert_sorted(v: &mut Vec<String>, x: String)
    requires
        path_sorted(crate::text::views(old(v)@)),
        forall|i: int| 0 <= i < old(v)@.len() ==> !path_eq(#[trigger] old(v)@[i]@, x@),
    ensures
        path_sorted(crate::text::views(final(v)@)),
        forall|s: Seq<char>|
            crate::text::views(final(v)@).contains(s) <==> (crate::text::views(
                old(v)@,
            ).contains(s) || s == x@),
{
    let ghost ov = crate::text::views(v@);
    let mut j: usize = 0;
    while j < v.len() && path_less(v[j].as_str(), x.as_str())
        invariant
            j <= v@.len(),
            ov == crate::text::views(v@),
            forall|i: int| 0 <= i < j ==> path_lt(#[trigger] ov[i], x@),
        decreases v@.len() - j,
    {
        j += 1;
    }
    let ghost xv = x@;
    v.insert(j, x);
    proof {
        let nv = crate::text::views(v@);
        assert(nv =~= ov.take(j as int) + seq![xv] + ov.skip(j as int));
        if j < ov.len() {
            assert(!path_eq(ov[j as int], xv));
            lemma_comps_lt_total(components(ov[j as int]), components(xv));
        }
        assert forall|a: int, b: int| 0 <= a < b < nv.len() implies path_lt(
            #[trigger] nv[a],
            #[trigger] nv[b],
        ) by {
            if b < j {
                assert(nv[a] == ov[a] && nv[b] == ov[b]);
            } else if b == j {
                assert(nv[a] == ov[a]);
            } else if a == j {
                assert(nv[b] == ov[b - 1]);
                if b - 1 > j {
                    lemma_comps_lt_transitive(
                        components(xv),
                        components(ov[j as int]),
                        components(ov[b - 1]),
                    );
                }
            } else if a < j {
                assert(nv[a] == ov[a] && nv[b] == ov[b - 1]);
            } else {
                assert(nv[a] == ov[a - 1] && nv[b] == ov[b - 1]);
            }
        }
        assert forall|s: Seq<char>| nv.contains(s) <==> (ov.contains(s) || s == xv) by {
            if nv.contains(s) {
                let k = choose|k: int| 0 <= k < nv.len() && nv[k] == s;
                if k < j {
                    assert(ov[k] == s);
                } else if k > j {
                    assert(ov[k - 1] == s);
                }
            }
            if ov.contains(s) {
                let k = choose|k: int| 0 <= k < ov.len() && ov[k] == s;
                if k < j {
                    assert(nv[k] == s);
                } else {
                    assert(nv[k + 1] == s);
                }
            }
            if s == xv {
                assert(nv[j as int] == s);
            }
        }
    }
}

/// The changed paths, each once, in `Path` order.
pub fn changed_paths(previous: &Snapshot, current: &Snapshot) -> (r: Vec<String>)
    ensures
        path_sorted(crate::text::views(r@)),
        forall|p: Seq<char>|
            crate::text::views(r@).contains(p) <==> is_changed(previous.view(), current.view(), p),
{
    proof {
        use_type_invariant(previous);
        use_type_invariant(current);
    }
    let ghost pv = previous.view();
    let ghost cv = current.view();
    let mut out: Vec<String> = Vec::new();
    let mut i: usize = 0;
    while i < current.len()
        invariant
            0 <= i <= cv.len(),
            pv == previous.view(),
            cv == current.view(),
            entries_unique(cv),
            entries_unique(pv),
            path_sorted(crate::text::views(out@)),
            forall|s: Seq<char>|
                crate::text::views(out@).contains(s) ==> exists|k: int|
                    0 <= k < i && (#[trigger] cv[k]).0@ == s,
            forall|s: Seq<char>|
                crate::text::views(out@).contains(s) <==> exists|k: int|
                    0 <= k < i && (#[trigger] cv[k]).0@ == s && snap_get(pv, s) != Some(cv[k].1),
        decreases cv.len() - i,
    {
        let (path, time) = current.entry(i);
        if previous.get(path.as_str()) != Some(time) {
            proof {
                assert forall|a: int| 0 <= a < out@.len() implies !path_eq(
                    #[trigger] out@[a]@,
                    path@,
                ) by {
                    let s = out@[a]@;
                    assert(crate::text::views(out@)[a] == s);
                    assert(crate::text::views(out@).contains(s));
                    let k = choose|k: int| 0 <= k < i && (#[trigger] cv[k]).0@ == s;
                    assert(!path_eq(cv[k].0@, cv[i as int].0@));
                }
            }
            let p = path.clone();
            insert_sorted(&mut out, p);
        }
        i += 1;
    }
    let mut k: usize = 0;
    while k < previous.len()
        invariant
            0 <= k <= pv.len(),
            pv == previous.view(),
            cv == current.view(),
            entries_unique(cv),
            entries_unique(pv),
            path_sorted(crate::text::views(out@)),
            forall|s: Seq<char>|
                crate::text::views(out@).contains(s) ==> (exists|q: int|
                    0 <= q < cv.len() && (#[trigger] cv[q]).0@ == s) || (exists|q: int|
                    0 <= q < k && (#[trigger] pv[q]).0@ == s && !snap_has(cv, s)),
            forall|s: Seq<char>|
                crate::text::views(out@).contains(s) <==> ((exists|q: int|
                    0 <= q < cv.len() && (#[trigger] cv[q]).0@ == s && snap_get(pv, s) != Some(
                        cv[q].1,
                    )) || (exists|q: int|
                    0 <= q < k && (#[trigger] pv[q]).0@ == s && !snap_has(cv, s))),
        decreases pv.len() - k,
    {
        let (path, _time) = previous.entry(k);
        if current.get(path.as_str()).is_none() {
            proof {
                assert(!snap_has(cv, path@));
                assert forall|a: int| 0 <= a < out@.len() implies !path_eq(
                    #[trigger] out@[a]@,
                    path@,
                ) by {
                    let s = out@[a]@;
                    assert(crate::text::views(out@)[a] == s);
                    assert(crate::text::views(out@).contains(s));
                    if exists|q: int| 0 <= q < cv.len() && (#[trigger] cv[q]).0@ == s {
                        let q = choose|q: int| 0 <= q < cv.len() && (#[trigger] cv[q]).0@ == s;
                        if path_eq(s, path@) {
                            assert(path_eq(cv[q].0@, path@));
                            assert(snap_has(cv, path@));
                        }
                    } else {
                        let q = choose|q: int|
                            0 <= q < k && (#[trigger] pv[q]).0@ == s && !snap_has(cv, s);
                        assert(!path_eq(pv[q].0@, pv[k as int].0@));
                    }
                }
            }
            let p = path.clone();
            insert_sorted(&mut out, p);
        }
        k += 1;
    }
    out
}

// ---------------------------------------------------------------------------
// Laws of the development loop
// ---------------------------------------------------------------------------

/// Where in `prev` the path of `cur[i]` is recorded.
spec fn match_index(prev: Seq<(String, Option<u128>)>, cur: Seq<(String, Option<u128>)>) -> spec_fn(int) -> int {
    |i: int| choose|k: int| 0 <= k < prev.len() && path_eq(#[trigger] prev[k].0@, cur[i].0@)
}

/// When every path of `cur` is recorded in `prev` (each snapshot holding
/// a path once), `cur` has at most as many paths as `prev`, and as many
/// only when every path of `prev` is in `cur` too.
proof fn lemma_cover(prev: Seq<(String, Option<u128>)>, cur: Seq<(String, Option<u128>)>)
    requires
        entries_unique(prev),
        entries_unique(cur),
        forall|i: int| 0 <= i < cur.len() ==> snap_has(prev, (#[trigger] cur[i]).0@),
    ensures
        cur.len() <= prev.len(),
        cur.len() == prev.len() ==> forall|k: int| 0 <= k < prev.len() ==> snap_has(cur, (#[trigger] prev[k]).0@),
{
    let f = match_index(prev, cur);
    let x = set_int_range(0, cur.len() as int);
    let y = x.map(f);
    let all = set_int_range(0, prev.len() as int);
    lemma_int_range(0, cur.len() as int);
    lemma_int_range(0, prev.len() as int);
    assert forall|i: int| 0 <= i < cur.len() implies 0 <= #[trigger] f(i) < prev.len() && path_eq(prev[f(i)].0@, cur[i].0@) by {
        assert(snap_has(prev, cur[i].0@));
    }
    assert(injective_on(f, x)) by {
        assert forall|i: int, j: int| x.contains(i) && x.contains(j) && #[trigger] f(i) == #[trigger] f(j) implies i == j by {
            assert(path_eq(cur[i].0@, cur[j].0@));
            if i < j {
                assert(!path_eq(cur[i].0@, cur[j].0@));
            } else if j < i {
                assert(!path_eq(cur[j].0@, cur[i].0@));
            }
        }
    }
    lemma_map_size(x, y, f);
    assert(y.subset_of(all)) by {
        assert forall|k: int| y.contains(k) implies all.contains(k) by {
            let i = choose|i: int| x.contains(i) && f(i) == k;
        }
    }
    lemma_len_subset(y, all);
    if cur.len() == prev.len() {
        lemma_subset_equality(y, all);
        assert forall|k: int| 0 <= k < prev.len() implies snap_has(cur, (#[trigger] prev[k]).0@) by {
            assert(all.contains(k));
            assert(y.contains(k));
            let i = choose|i: int| x.contains(i) && f(i) == k;
            assert(path_eq(cur[i].0@, prev[k].0@));
        }
    }
}

/// The development loop restarts exactly when something changed:
/// `has_changes` holds of two snapshots if and only if `changed_paths`
/// reports at least one path for them.
pub proof fn law_restart_iff_some_path_changed(prev: Seq<(String, Option<u128>)>, cur: Seq<(String, Option<u128>)>)
    requires
        entries_unique(prev),
        entries_unique(cur),
    ensures
        spec_has_changes(prev, cur) <==> exists|p: Seq<char>| is_changed(prev, cur, p),
{
    if exists|i: int| 0 <= i < cur.len() && snap_get(prev, (#[trigger] cur[i]).0@) != Some(cur[i].1) {
        let i = choose|i: int| 0 <= i < cur.len() && snap_get(prev, (#[trigger] cur[i]).0@) != Some(cur[i].1);
        assert(is_changed(prev, cur, cur[i].0@));
    } else {
        assert forall|i: int| 0 <= i < cur.len() implies snap_has(prev, (#[trigger] cur[i]).0@) by {
            assert(snap_get(prev, cur[i].0@) == Some(cur[i].1));
        }
        lemma_cover(prev, cur);
        if prev.len() != cur.len() {
            let f = match_index(prev, cur);
            let x = set_int_range(0, cur.len() as int);
            let all = set_int_range(0, prev.len() as int);
            lemma_int_range(0, cur.len() as int);
            lemma_int_range(0, prev.len() as int);
            lemma_map_size_bound(x, x.map(f), f);
            assert(x.map(f).len() < all.len());
            assert(!all.subset_of(x.map(f))) by {
                if all.subset_of(x.map(f)) {
                    lemma_len_subset(all, x.map(f));
                }
            }
            let k = choose|k: int| all.contains(k) && !x.map(f).contains(k);
            if snap_has(cur, prev[k].0@) {
                let i = choose|i: int| 0 <= i < cur.len() && path_eq(#[trigger] cur[i].0@, prev[k].0@);
                assert(snap_has(prev, cur[i].0@));
                let k2 = f(i);
                assert(path_eq(prev[k2].0@, cur[i].0@));
                if k2 < k {
                    assert(!path_eq(prev[k2].0@, prev[k].0@));
                } else if k < k2 {
                    assert(!path_eq(prev[k].0@, prev[k2].0@));
                }
                assert(x.contains(i));
                assert(x.map(f).contains(k));
            }
            assert(is_changed(prev, cur, prev[k].0@));
        } else {
            assert forall|p: Seq<char>| !is_changed(prev, cur, p) by {
                if exists|k: int| 0 <= k < prev.len() && (#[trigger] prev[k]).0@ == p && !snap_has(cur, p) {
                    let k = choose|k: int| 0 <= k < prev.len() && (#[trigger] prev[k]).0@ == p && !snap_has(cur, p);
                    assert(snap_has(cur, prev[k].0@));
                }
            }
        }
    }
}

/// The paths of `v` that are not in `others`, in the order of `v`.
pub open spec fn not_in(v: Seq<Seq<char>>, others: Seq<Seq<char>>) -> Seq<Seq<char>>
    decreases v.len(),
{
    if v.len() == 0 {
        Seq::empty()
    } else {
        let rest = not_in(v.drop_last(), others);
        if exists|j: int| 0 <= j < others.len() && path_eq(#[trigger] others[j], v.last()) {
            rest
        } else {
            rest.push(v.last())
        }
    }
}

fn contains_path(v: &Vec<String>, p: &str) -> (r: bool)
    ensures
        r == exists|j: int| 0 <= j < v@.len() && path_eq(#[trigger] crate::text::views(v@)[j], p@),
{
    let mut i: usize = 0;
    while i < v.len()
        invariant
            0 <= i <= v@.len(),
            forall|j: int| 0 <= j < i ==> !path_eq(#[trigger] crate::text::views(v@)[j], p@),
        decreases v@.len() - i,
    {
        if paths_equal(v[i].as_str(), p) {
            assert(crate::text::views(v@)[i as int] == v@[i as int]@);
            return true;
        }
        assert(crate::text::views(v@)[i as int] == v@[i as int]@);
        i += 1;
    }
    false
}

fn filter_not_in(v: &Vec<String>, others: &Vec<String>) -> (r: Vec<String>)
    ensures
        crate::text::views(r@) == not_in(crate::text::views(v@), crate::text::views(others@)),
{
    let ghost vv = crate::text::views(v@);
    let ghost ov = crate::text::views(others@);
    let mut out: Vec<String> = Vec::new();
    let mut i: usize = 0;
    while i < v.len()
        invariant
            0 <= i <= v@.len(),
            vv == crate::text::views(v@),
            ov == crate::text::views(others@),
            crate::text::views(out@) == not_in(vv.take(i as int), ov),
        decreases v@.len() - i,
    {
        proof {
            assert(vv.take(i + 1).drop_last() =~= vv.take(i as int));
            assert(vv.take(i + 1).last() == v@[i as int]@);
        }
        if !contains_path(others, v[i].as_str()) {
            let c = v[i].clone();
            proof {
                crate::text::lemma_views_push(out@, c);
            }
            out.push(c);
        }
        i += 1;
    }
    proof {
        crate::text::lemma_take_full(vv);
    }
    out
}

/// A snapshot compared with itself shows no change: the development loop
/// does not restart while nothing is touched.
pub proof fn law_unchanged_snapshot_reports_nothing(e: Seq<(String, Option<u128>)>)
    requires
        entries_unique(e),
    ensures
        !spec_has_changes(e, e),
        forall|p: Seq<char>| !is_changed(e, e, p),
{
    assert forall|i: int| 0 <= i < e.len() implies snap_get(e, (#[trigger] e[i]).0@) == Some(e[i].1) by {
        lemma_snap_get_at(e, e[i].0@, i);
    }
    assert forall|p: Seq<char>| !is_changed(e, e, p) by {
        if exists|i: int| 0 <= i < e.len() && (#[trigger] e[i]).0@ == p && !snap_has(e, p) {
            let i = choose|i: int| 0 <= i < e.len() && (#[trigger] e[i]).0@ == p && !snap_has(e, p);
            assert(path_eq(e[i].0@, p));
        }
    }
}

proof fn lemma_not_in_contains(v: Seq<Seq<char>>, others: Seq<Seq<char>>, p: Seq<char>)
    ensures
        not_in(v, others).contains(p) <==> (v.contains(p) && !exists|j: int|
            0 <= j < others.len() && path_eq(#[trigger] others[j], p)),
    decreases v.len(),
{
    if v.len() > 0 {
        let rest = v.drop_last();
        let r = not_in(rest, others);
        lemma_not_in_contains(rest, others, p);
        assert(v =~= rest.push(v.last()));
        assert(v.contains(p) <==> (rest.contains(p) || v.last() == p)) by {
            if v.contains(p) {
                let i = choose|i: int| 0 <= i < v.len() && v[i] == p;
                if i < v.len() - 1 {
                    assert(rest[i] == p);
                }
            }
            if rest.contains(p) {
                let i = choose|i: int| 0 <= i < rest.len() && rest[i] == p;
                assert(v[i] == p);
            }
            if v.last() == p {
                assert(v[v.len() - 1] == p);
            }
        }
        let x = v.last();
        assert(r.push(x).contains(p) <==> (r.contains(p) || x == p)) by {
            if r.push(x).contains(p) {
                let i = choose|i: int| 0 <= i < r.push(x).len() && r.push(x)[i] == p;
                if i < r.len() {
                    assert(r[i] == p);
                }
            }
            if r.contains(p) {
                let i = choose|i: int| 0 <= i < r.len() && r[i] == p;
                assert(r.push(x)[i] == p);
            }
            if x == p {
                assert(r.push(x)[r.len() as int] == p);
            }
        }
    }
}

/// What the watch list change reports: a path is added when it is
/// watched now and no path naming the same file was watched before, and
/// removed when it was watched before and no path naming the same file is
/// watched now.
pub proof fn law_watch_changes_exact(previous: Seq<Seq<char>>, current: Seq<Seq<char>>, p: Seq<char>)
    ensures
        not_in(current, previous).contains(p) <==> (current.contains(p) && !exists|j: int|
            0 <= j < previous.len() && path_eq(#[trigger] previous[j], p)),
        not_in(previous, current).contains(p) <==> (previous.contains(p) && !exists|j: int|
            0 <= j < current.len() && path_eq(#[trigger] current[j], p)),
{
    lemma_not_in_contains(current, previous, p);
    lemma_not_in_contains(previous, current, p);
}

/// The paths newly watched and the paths no longer watched.
pub fn watch_path_changes(previous: &Vec<String>, current: &Vec<String>) -> (r: (
    Vec<String>,
    Vec<String>,
))
    ensures
        crate::text::views(r.0@) == not_in(
            crate::text::views(current@),
            crate::text::views(previous@),
        ),
        crate::text::views(r.1@) == not_in(
            crate::text::views(previous@),
            crate::text::views(current@),
        ),
{
    let added = filter_not_in(current, previous);
    let removed = filter_not_in(previous, current);
    (added, removed)
}

/// Where a module path declared in a project is watched: an absolute path
/// as written, a relative one under the project's directory.
pub open spec fn spec_resolve_watch_path(input_dir: Seq<char>, raw: Seq<char>) -> Seq<char> {
    if is_absolute(raw) {
        raw
    } else {
        path_join(input_dir, raw)
    }
}

pub fn resolve_watch_path(input_dir: &str, raw: &str) -> (r: String)
    ensures
        r@ == spec_resolve_watch_path(input_dir@, raw@),
{
    if first_char_is(raw, '/') {
        raw.to_owned()
    } else {
        crate::paths::join_path(input_dir, raw)
    }
}

// ---------------------------------------------------------------------------
// The watch list
// ---------------------------------------------------------------------------

/// Where a declared module is watched, if it names a file.
pub open spec fn module_watch(input_dir: Seq<char>, m: ModuleUse) -> Seq<Seq<char>> {
    match m.path {
        Some(p) => seq![spec_resolve_watch_path(input_dir, p@)],
        None => Seq::empty(),
    }
}

pub open spec fn module_watch_fn(input_dir: Seq<char>) -> spec_fn(ModuleUse) -> Seq<Seq<char>> {
    |m: ModuleUse| module_watch(input_dir, m)
}

pub open spec fn rpc_watch_fn(input_dir: Seq<char>) -> spec_fn(RpcDef) -> Seq<Seq<char>> {
    |r: RpcDef| flat_map(r.modules@, module_watch_fn(input_dir))
}

pub open spec fn socket_watch_fn(input_dir: Seq<char>) -> spec_fn(SocketDef) -> Seq<Seq<char>> {
    |s: SocketDef| flat_map(s.modules@, module_watch_fn(input_dir))
}

/// The module files of a service: its own modules, then those of its RPC
/// methods, then those of its sockets.
pub open spec fn service_watch(input_dir: Seq<char>, svc: Service) -> Seq<Seq<char>> {
    flat_map(svc.common.modules@, module_watch_fn(input_dir)) + flat_map(svc.rpc.methods@, rpc_watch_fn(input_dir))
        + flat_map(svc.sockets.sockets@, socket_watch_fn(input_dir))
}

pub open spec fn service_watch_fn(input_dir: Seq<char>) -> spec_fn(Service) -> Seq<Seq<char>> {
    |s: Service| service_watch(input_dir, s)
}

/// Everything the development loop watches, before ordering: the input,
/// the `.env` files beside it, then every declared module file.
pub open spec fn watch_candidates(project: Project, input: Seq<char>, input_dir: Seq<char>) -> Seq<Seq<char>> {
    seq![input, path_join(input_dir, ".env"@), path_join(input_dir, ".env.local"@)] + flat_map(
        project.common.modules@,
        module_watch_fn(input_dir),
    ) + flat_map(project.services@, service_watch_fn(input_dir))
}

/// Some entry of `v` names the same path as `p`.
pub open spec fn watched(v: Seq<Seq<char>>, p: Seq<char>) -> bool {
    exists|a: int| 0 <= a < v.len() && path_eq(#[trigger] v[a], p)
}

/// No earlier entry names the same path as the `k`-th.
pub open spec fn first_of_path(v: Seq<Seq<char>>, k: int) -> bool {
    forall|j: int| 0 <= j < k ==> !path_eq(#[trigger] v[j], v[k])
}

fn push_module_watch(out: &mut Vec<String>, input_dir: &str, mods: &Vec<ModuleUse>)
    ensures
        crate::text::views(final(out)@) == crate::text::views(old(out)@) + flat_map(mods@, module_watch_fn(input_dir@)),
{
    let ghost start = crate::text::views(out@);
    let mut i: usize = 0;
    while i < mods.len()
        invariant
            0 <= i <= mods@.len(),
            crate::text::views(out@) == start + flat_map(mods@.take(i as int), module_watch_fn(input_dir@)),
        decreases mods@.len() - i,
    {
        proof {
            lemma_flat_map_step(mods@, i as int, module_watch_fn(input_dir@));
        }
        let ghost before = crate::text::views(out@);
        match &mods[i].path {
            Some(p) => {
                let w = resolve_watch_path(input_dir, p.as_str());
                out.push(w);
                assert(crate::text::views(out@) =~= before + module_watch(input_dir@, mods@[i as int]));
            },
            None => {
                assert(crate::text::views(out@) =~= before + module_watch(input_dir@, mods@[i as int]));
            },
        }
        i += 1;
    }
    proof {
        lemma_take_all(mods@);
    }
}

fn push_service_watch(out: &mut Vec<String>, input_dir: &str, svc: &Service)
    ensures
        crate::text::views(final(out)@) == crate::text::views(old(out)@) + service_watch(input_dir@, *svc),
{
    let ghost start = crate::text::views(out@);
    push_module_watch(out, input_dir, &svc.common.modules);
    let ghost a = crate::text::views(out@);
    let methods = &svc.rpc.methods;
    let mut i: usize = 0;
    while i < methods.len()
        invariant
            0 <= i <= methods@.len(),
            crate::text::views(out@) == a + flat_map(methods@.take(i as int), rpc_watch_fn(input_dir@)),
        decreases methods@.len() - i,
    {
        proof {
            lemma_flat_map_step(methods@, i as int, rpc_watch_fn(input_dir@));
        }
        push_module_watch(out, input_dir, &methods[i].modules);
        i += 1;
        assert(crate::text::views(out@) =~= a + flat_map(methods@.take(i as int), rpc_watch_fn(input_dir@)));
    }
    proof {
        lemma_take_all(methods@);
    }
    let ghost b = crate::text::views(out@);
    let sockets = &svc.sockets.sockets;
    let mut k: usize = 0;
    while k < sockets.len()
        invariant
            0 <= k <= sockets@.len(),
            crate::text::views(out@) == b + flat_map(sockets@.take(k as int), socket_watch_fn(input_dir@)),
        decreases sockets@.len() - k,
    {
        proof {
            lemma_flat_map_step(sockets@, k as int, socket_watch_fn(input_dir@));
        }
        push_module_watch(out, input_dir, &sockets[k].modules);
        k += 1;
        assert(crate::text::views(out@) =~= b + flat_map(sockets@.take(k as int), socket_watch_fn(input_dir@)));
    }
    proof {
        lemma_take_all(sockets@);
    }
    assert(crate::text::views(out@) =~= start + service_watch(input_dir@, *svc));
}

fn watch_candidate_list(project: &Project, input: &str, input_dir: &str) -> (r: Vec<String>)
    ensures
        crate::text::views(r@) == watch_candidates(*project, input@, input_dir@),
{
    let mut out: Vec<String> = Vec::new();
    out.push(input.to_owned());
    out.push(crate::paths::join_path(input_dir, ".env"));
    out.push(crate::paths::join_path(input_dir, ".env.local"));
    let ghost a = crate::text::views(out@);
    assert(a =~= seq![input@, path_join(input_dir@, ".env"@), path_join(input_dir@, ".env.local"@)]);
    push_module_watch(&mut out, input_dir, &project.common.modules);
    let ghost b = crate::text::views(out@);
    let services = &project.services;
    let mut i: usize = 0;
    while i < services.len()
        invariant
            0 <= i <= services@.len(),
            crate::text::views(out@) == b + flat_map(services@.take(i as int), service_watch_fn(input_dir@)),
        decreases services@.len() - i,
    {
        proof {
            lemma_flat_map_step(services@, i as int, service_watch_fn(input_dir@));
        }
        push_service_watch(&mut out, input_dir, &services[i]);
        i += 1;
        assert(crate::text::views(out@) =~= b + flat_map(services@.take(i as int), service_watch_fn(input_dir@)));
    }
    proof {
        lemma_take_all(services@);
    }
    assert(crate::text::views(out@) =~= watch_candidates(*project, input@, input_dir@));
    out
}

/// The paths the development loop watches for a project read from
/// `input` in `input_dir`: the input, its `.env` and `.env.local`, and
/// every declared module file, each path once (as its first mention) and
/// in `Path` order.
pub fn collect_watch_paths(project: &Project, input: &str, input_dir: &str) -> (r: Vec<String>)
    ensures
        path_sorted(crate::text::views(r@)),
        forall|s: Seq<char>|
            crate::text::views(r@).contains(s) <==> exists|k: int|
                0 <= k < watch_candidates(*project, input@, input_dir@).len()
                    && #[trigger] watch_candidates(*project, input@, input_dir@)[k] == s
                    && first_of_path(watch_candidates(*project, input@, input_dir@), k),
        forall|k: int|
            0 <= k < watch_candidates(*project, input@, input_dir@).len() ==> #[trigger] watched(
                crate::text::views(r@),
                watch_candidates(*project, input@, input_dir@)[k],
            ),
{
    let raw = watch_candidate_list(project, input, input_dir);
    let ghost rv = crate::text::views(raw@);
    let mut out: Vec<String> = Vec::new();
    let mut i: usize = 0;
    while i < raw.len()
        invariant
            0 <= i <= raw@.len(),
            rv == crate::text::views(raw@),
            path_sorted(crate::text::views(out@)),
            forall|s: Seq<char>|
                crate::text::views(out@).contains(s) <==> exists|k: int|
                    0 <= k < i && #[trigger] rv[k] == s && first_of_path(rv, k),
            forall|k: int|
                #![trigger rv[k]]
                0 <= k < i ==> exists|a: int|
                    0 <= a < out@.len() && path_eq(#[trigger] crate::text::views(out@)[a], rv[k]),
        decreases raw@.len() - i,
    {
        let ghost ov = crate::text::views(out@);
        assert(rv[i as int] == raw@[i as int]@);
        if contains_path(&out, raw[i].as_str()) {
            proof {
                let a = choose|a: int| 0 <= a < out@.len() && path_eq(#[trigger] crate::text::views(out@)[a], rv[i as int]);
                assert(ov.contains(ov[a]));
                let k = choose|k: int| 0 <= k < i && #[trigger] rv[k] == ov[a] && first_of_path(rv, k);
                assert(!first_of_path(rv, i as int)) by {
                    assert(path_eq(rv[k], rv[i as int]));
                }
                assert forall|s: Seq<char>|
                    crate::text::views(out@).contains(s) <==> exists|k2: int|
                        0 <= k2 < i + 1 && #[trigger] rv[k2] == s && first_of_path(rv, k2) by {
                    if exists|k2: int| 0 <= k2 < i + 1 && #[trigger] rv[k2] == s && first_of_path(rv, k2) {
                        let k2 = choose|k2: int| 0 <= k2 < i + 1 && #[trigger] rv[k2] == s && first_of_path(rv, k2);
                        assert(k2 != i);
                    }
                }
            }
        } else {
            proof {
                assert forall|j: int| 0 <= j < i implies !path_eq(#[trigger] rv[j], rv[i as int]) by {
                    let a = choose|a: int| 0 <= a < out@.len() && path_eq(#[trigger] crate::text::views(out@)[a], rv[j]);
                    if path_eq(rv[j], rv[i as int]) {
                        assert(path_eq(ov[a], rv[i as int]));
                    }
                }
                assert(first_of_path(rv, i as int));
                assert forall|a: int| 0 <= a < out@.len() implies !path_eq(#[trigger] out@[a]@, raw@[i as int]@) by {
                    assert(ov[a] == out@[a]@);
                }
            }
            let x = raw[i].clone();
            insert_sorted(&mut out, x);
            proof {
                let nv = crate::text::views(out@);
                assert forall|s: Seq<char>|
                    nv.contains(s) <==> exists|k2: int|
                        0 <= k2 < i + 1 && #[trigger] rv[k2] == s && first_of_path(rv, k2) by {
                    if s == rv[i as int] {
                        assert(rv[i as int] == s);
                    }
                    if exists|k2: int| 0 <= k2 < i + 1 && #[trigger] rv[k2] == s && first_of_path(rv, k2) {
                        let k2 = choose|k2: int| 0 <= k2 < i + 1 && #[trigger] rv[k2] == s && first_of_path(rv, k2);
                        if k2 < i {
                            assert(ov.contains(s));
                        }
                    }
                }
                assert forall|k: int| #![trigger rv[k]] 0 <= k < i + 1 implies exists|a: int|
                    0 <= a < out@.len() && path_eq(#[trigger] crate::text::views(out@)[a], rv[k]) by {
                    if k == i {
                        assert(nv.contains(rv[i as int]));
                        let a = choose|a: int| 0 <= a < nv.len() && nv[a] == rv[i as int];
                        assert(path_eq(nv[a], rv[k]));
                    } else {
                        let a = choose|a: int| 0 <= a < ov.len() && path_eq(#[trigger] ov[a], rv[k]);
                        assert(ov.contains(ov[a]));
                        assert(nv.contains(ov[a]));
                        let b = choose|b: int| 0 <= b < nv.len() && nv[b] == ov[a];
                        assert(path_eq(nv[b], rv[k]));
                    }
                }
            }
        }
        i += 1;
    }
    proof {
        assert(rv == watch_candidates(*project, input@, input_dir@));
        assert forall|k: int| 0 <= k < rv.len() implies #[trigger] watched(crate::text::views(out@), rv[k]) by {
            let a = choose|a: int| 0 <= a < out@.len() && path_eq(#[trigger] crate::text::views(out@)[a], rv[k]);
        }
    }
    out
}

/// An access log line of a generated server: `[...] ... -> ...` once
/// trimmed.
pub open spec fn spec_is_access_log_line(line: Seq<char>) -> bool {
    let t = trim_seq(line);
    starts_with_char(t, '[') && exists|i: int|
        0 <= i && i + 4 <= t.len() && #[trigger] t.subrange(i, i + 4) == " -> "@
}

pub fn is_access_log_line(line: &str) -> (r: bool)
    ensures
        r == spec_is_access_log_line(line@),
{
    let t = trim(line);
    if !first_char_is(t.as_str(), '[') {
        return false;
    }
    let cs = chars_of(t.as_str());
    proof {
        reveal_strlit(" -> ");
    }
    let mut i: usize = 0;
    while cs.len() >= 4 && i <= cs.len() - 4
        invariant
            cs@ == t@,
            t@ == trim_seq(line@),
            starts_with_char(t@, '['),
            forall|j: int| 0 <= j < i ==> #[trigger] t@.subrange(j, j + 4) != " -> "@,
        decreases cs@.len() - i,
    {
        if cs[i] == ' ' && cs[i + 1] == '-' && cs[i + 2] == '>' && cs[i + 3] == ' ' {
            proof {
                reveal_strlit(" -> ");
            }
            assert(t@.subrange(i as int, i + 4) =~= " -> "@);
            assert(spec_is_access_log_line(line@));
            return true;
        }
        assert(t@.subrange(i as int, i + 4)[1] == cs@[i + 1]);
        assert(t@.subrange(i as int, i + 4) != " -> "@) by {
            reveal_strlit(" -> ");
            if t@.subrange(i as int, i + 4) == " -> "@ {
                assert(t@.subrange(i as int, i + 4)[0] == ' ');
                assert(t@.subrange(i as int, i + 4)[2] == '>');
                assert(t@.subrange(i as int, i + 4)[3] == ' ');
            }
        }
        i += 1;
    }
    false
}

} // verus!
