//! Text order and association lists kept in that order, keyed by text:
//! what the generators use where an ordered map or set of names decides the
//! order of the output.

use vstd::prelude::*;

use crate::text::chars_of;

verus! {

/// The order of `str`: lexicographic by character (code point).
pub open spec fn seq_lt(a: Seq<char>, b: Seq<char>) -> bool
    decreases a.len(),
{
    if a.len() == 0 {
        b.len() > 0
    } else if b.len() == 0 {
        false
    } else if a[0] != b[0] {
        a[0] < b[0]
    } else {
        seq_lt(a.drop_first(), b.drop_first())
    }
}

pub proof fn lemma_lt_irreflexive(a: Seq<char>)
    ensures
        !seq_lt(a, a),
    decreases a.len(),
{
    if a.len() > 0 {
        lemma_lt_irreflexive(a.drop_first());
    }
}

pub proof fn lemma_lt_asymmetric(a: Seq<char>, b: Seq<char>)
    ensures
        !(seq_lt(a, b) && seq_lt(b, a)),
    decreases a.len(),
{
    if a.len() > 0 && b.len() > 0 && a[0] == b[0] {
        lemma_lt_asymmetric(a.drop_first(), b.drop_first());
    }
}

pub proof fn lemma_lt_total(a: Seq<char>, b: Seq<char>)
    ensures
        a != b ==> seq_lt(a, b) || seq_lt(b, a),
    decreases a.len(),
{
    if a.len() > 0 && b.len() > 0 && a[0] == b[0] {
        lemma_lt_total(a.drop_first(), b.drop_first());
        if a.drop_first() == b.drop_first() {
            assert(a =~= seq![a[0]] + a.drop_first());
            assert(b =~= seq![b[0]] + b.drop_first());
        }
    } else if a.len() > 0 && b.len() > 0 {
        assert(a[0] < b[0] || b[0] < a[0]);
    } else if a.len() == 0 && b.len() == 0 {
        assert(a =~= b);
    }
}

pub proof fn lemma_lt_transitive(a: Seq<char>, b: Seq<char>, c: Seq<char>)
    requires
        seq_lt(a, b),
        seq_lt(b, c),
    ensures
        seq_lt(a, c),
    decreases a.len(),
{
    if a.len() > 0 && b.len() > 0 && c.len() > 0 {
        if a[0] == b[0] && b[0] == c[0] {
            lemma_lt_transitive(a.drop_first(), b.drop_first(), c.drop_first());
        }
    }
}

/// `a < b` in the order of `str`.
pub fn str_lt(a: &str, b: &str) -> (r: bool)
    ensures
        r == seq_lt(a@, b@),
{
    let ac = chars_of(a);
    let bc = chars_of(b);
    let mut i: usize = 0;
    assert(a@.skip(0) =~= a@);
    assert(b@.skip(0) =~= b@);
    while i < ac.len() && i < bc.len() && ac[i] == bc[i]
        invariant
            0 <= i <= ac@.len(),
            i <= bc@.len(),
            ac@ == a@,
            bc@ == b@,
            seq_lt(a@, b@) == seq_lt(a@.skip(i as int), b@.skip(i as int)),
        decreases ac@.len() - i,
    {
        proof {
            let x = a@.skip(i as int);
            let y = b@.skip(i as int);
            assert(x.drop_first() =~= a@.skip(i + 1));
            assert(y.drop_first() =~= b@.skip(i + 1));
        }
        i += 1;
    }
    if i == ac.len() {
        i < bc.len()
    } else if i == bc.len() {
        false
    } else {
        proof {
            let x = a@.skip(i as int);
            let y = b@.skip(i as int);
            assert(x[0] == ac@[i as int]);
            assert(y[0] == bc@[i as int]);
        }
        ac[i] < bc[i]
    }
}

// ---------------------------------------------------------------------------
// Association lists in key order
// ---------------------------------------------------------------------------

/// Keys strictly increasing: each key once, in order.
pub open spec fn sm_sorted<V>(m: Seq<(Seq<char>, V)>) -> bool {
    forall|i: int, j: int| 0 <= i < j < m.len() ==> seq_lt(#[trigger] m[i].0, #[trigger] m[j].0)
}

pub open spec fn sm_has_key<V>(m: Seq<(Seq<char>, V)>, k: Seq<char>) -> bool {
    exists|i: int| 0 <= i < m.len() && #[trigger] m[i].0 == k
}

/// Insertion into a key-ordered list: the value of an existing key is
/// replaced; a new key goes before the first greater key.
pub open spec fn sm_insert<V>(m: Seq<(Seq<char>, V)>, k: Seq<char>, v: V) -> Seq<(Seq<char>, V)>
    decreases m.len(),
{
    if m.len() == 0 {
        seq![(k, v)]
    } else if m[0].0 == k {
        seq![(k, v)] + m.drop_first()
    } else if seq_lt(k, m[0].0) {
        seq![(k, v)] + m
    } else {
        seq![m[0]] + sm_insert(m.drop_first(), k, v)
    }
}

/// `sm_insert` seen from the position it acts at.
pub proof fn lemma_sm_insert_at<V>(m: Seq<(Seq<char>, V)>, k: Seq<char>, v: V, j: int)
    requires
        0 <= j <= m.len(),
        forall|i: int| 0 <= i < j ==> seq_lt(#[trigger] m[i].0, k),
        j < m.len() ==> !seq_lt(m[j].0, k),
    ensures
        sm_insert(m, k, v) == if j < m.len() && m[j].0 == k {
            m.take(j) + seq![(k, v)] + m.skip(j + 1)
        } else {
            m.take(j) + seq![(k, v)] + m.skip(j)
        },
    decreases j,
{
    if j == 0 {
        if m.len() > 0 && m[0].0 != k {
            lemma_lt_total(k, m[0].0);
        }
        assert(m.skip(0) =~= m);
        assert(m.skip(1) =~= m.drop_first());
        assert(m.take(0) =~= Seq::<(Seq<char>, V)>::empty());
    } else {
        lemma_lt_irreflexive(k);
        lemma_lt_asymmetric(m[0].0, k);
        assert forall|i: int| 0 <= i < j - 1 implies seq_lt(#[trigger] m.drop_first()[i].0, k) by {
            assert(m.drop_first()[i] == m[i + 1]);
        }
        lemma_sm_insert_at(m.drop_first(), k, v, j - 1);
        assert(m.drop_first().take(j - 1) =~= m.take(j).drop_first());
        if j < m.len() {
            assert(m.drop_first().skip(j) =~= m.skip(j + 1));
        }
        assert(m.drop_first().skip(j - 1) =~= m.skip(j));
        assert(m.take(j) =~= seq![m[0]] + m.take(j).drop_first());
    }
}

/// Law: insertion keeps the list in strictly increasing key order.
pub proof fn lemma_sm_insert_sorted<V>(m: Seq<(Seq<char>, V)>, k: Seq<char>, v: V)
    requires
        sm_sorted(m),
    ensures
        sm_sorted(sm_insert(m, k, v)),
    decreases m.len(),
{
    if m.len() > 0 && m[0].0 != k && !seq_lt(k, m[0].0) {
        lemma_lt_total(k, m[0].0);
        let rest = m.drop_first();
        assert(sm_sorted(rest)) by {
            assert forall|i: int, j: int| 0 <= i < j < rest.len() implies seq_lt(
                #[trigger] rest[i].0,
                #[trigger] rest[j].0,
            ) by {
                assert(rest[i] == m[i + 1]);
                assert(rest[j] == m[j + 1]);
            }
        }
        lemma_sm_insert_sorted(rest, k, v);
        lemma_sm_insert_keys(rest, k, v);
        let r = sm_insert(m, k, v);
        let t = sm_insert(rest, k, v);
        assert(r =~= seq![m[0]] + t);
        assert forall|i: int, j: int| 0 <= i < j < r.len() implies seq_lt(
            #[trigger] r[i].0,
            #[trigger] r[j].0,
        ) by {
            if i == 0 {
                let kj = t[j - 1].0;
                assert(r[j] == t[j - 1]);
                assert(r[0] == m[0]);
                assert(sm_has_key(t, kj));
                if kj == k {
                } else {
                    assert(sm_has_key(rest, kj));
                    let p = choose|p: int| 0 <= p < rest.len() && #[trigger] rest[p].0 == kj;
                    assert(rest[p] == m[p + 1]);
                    assert(seq_lt(m[0].0, m[p + 1].0));
                }
            } else {
                assert(r[i] == t[i - 1]);
                assert(r[j] == t[j - 1]);
            }
        }
    } else if m.len() > 0 && m[0].0 != k {
        let r = sm_insert(m, k, v);
        assert(r =~= seq![(k, v)] + m);
        assert forall|i: int, j: int| 0 <= i < j < r.len() implies seq_lt(
            #[trigger] r[i].0,
            #[trigger] r[j].0,
        ) by {
            if i == 0 {
                assert(r[j] == m[j - 1]);
                if j - 1 > 0 {
                    lemma_lt_transitive(k, m[0].0, m[j - 1].0);
                }
            } else {
                assert(r[i] == m[i - 1]);
                assert(r[j] == m[j - 1]);
            }
        }
    } else if m.len() > 0 {
        let r = sm_insert(m, k, v);
        assert forall|i: int, j: int| 0 <= i < j < r.len() implies seq_lt(
            #[trigger] r[i].0,
            #[trigger] r[j].0,
        ) by {
            assert(r[i].0 == m[i].0);
            assert(r[j].0 == m[j].0);
        }
    }
}

/// Law: after insertion the keys are the old keys and the inserted one.
pub proof fn lemma_sm_insert_keys<V>(m: Seq<(Seq<char>, V)>, k: Seq<char>, v: V)
    ensures
        forall|q: Seq<char>| #[trigger]
            sm_has_key(sm_insert(m, k, v), q) <==> (sm_has_key(m, q) || q == k),
    decreases m.len(),
{
    let r = sm_insert(m, k, v);
    if m.len() == 0 {
        assert forall|q: Seq<char>| #[trigger] sm_has_key(r, q) <==> (sm_has_key(m, q) || q == k) by {
            if q == k {
                assert(r[0].0 == k);
            }
        }
    } else if m[0].0 == k {
        assert forall|q: Seq<char>| #[trigger] sm_has_key(r, q) <==> (sm_has_key(m, q) || q == k) by {
            if sm_has_key(r, q) {
                let i = choose|i: int| 0 <= i < r.len() && #[trigger] r[i].0 == q;
                assert(r[i].0 == m[i].0);
            }
            if sm_has_key(m, q) {
                let i = choose|i: int| 0 <= i < m.len() && #[trigger] m[i].0 == q;
                assert(r[i].0 == m[i].0);
            }
            if q == k {
                assert(r[0].0 == k);
            }
        }
    } else if seq_lt(k, m[0].0) {
        assert forall|q: Seq<char>| #[trigger] sm_has_key(r, q) <==> (sm_has_key(m, q) || q == k) by {
            if sm_has_key(r, q) {
                let i = choose|i: int| 0 <= i < r.len() && #[trigger] r[i].0 == q;
                if i > 0 {
                    assert(r[i] == m[i - 1]);
                }
            }
            if sm_has_key(m, q) {
                let i = choose|i: int| 0 <= i < m.len() && #[trigger] m[i].0 == q;
                assert(r[i + 1] == m[i]);
            }
            if q == k {
                assert(r[0].0 == k);
            }
        }
    } else {
        let rest = m.drop_first();
        let t = sm_insert(rest, k, v);
        lemma_sm_insert_keys(rest, k, v);
        assert(r =~= seq![m[0]] + t);
        assert forall|q: Seq<char>| #[trigger] sm_has_key(r, q) <==> (sm_has_key(m, q) || q == k) by {
            if sm_has_key(r, q) {
                let i = choose|i: int| 0 <= i < r.len() && #[trigger] r[i].0 == q;
                if i > 0 {
                    assert(r[i] == t[i - 1]);
                    assert(sm_has_key(t, q));
                    if sm_has_key(rest, q) {
                        let p = choose|p: int| 0 <= p < rest.len() && #[trigger] rest[p].0 == q;
                        assert(m[p + 1] == rest[p]);
                        assert(sm_has_key(m, q));
                    }
                } else {
                    assert(r[0] == m[0]);
                    assert(sm_has_key(m, q));
                }
            }
            if sm_has_key(m, q) {
                let i = choose|i: int| 0 <= i < m.len() && #[trigger] m[i].0 == q;
                if i > 0 {
                    assert(rest[i - 1] == m[i]);
                    assert(sm_has_key(rest, q));
                    assert(sm_has_key(t, q));
                    let p = choose|p: int| 0 <= p < t.len() && #[trigger] t[p].0 == q;
                    assert(r[p + 1] == t[p]);
                    assert(sm_has_key(r, q));
                } else {
                    assert(r[0] == m[0]);
                    assert(sm_has_key(r, q));
                }
            }
            if q == k {
                assert(sm_has_key(t, q));
                let p = choose|p: int| 0 <= p < t.len() && #[trigger] t[p].0 == q;
                assert(r[p + 1] == t[p]);
                assert(sm_has_key(r, q));
            }
        }
    }
}

/// Where in a key-ordered list the key `k` belongs: the first position
/// whose key is not below `k`.
pub fn sm_position(keys: &Vec<String>, k: &str) -> (j: usize)
    ensures
        j <= keys@.len(),
        forall|i: int| 0 <= i < j ==> seq_lt(#[trigger] keys@[i]@, k@),
        j < keys@.len() ==> !seq_lt(keys@[j as int]@, k@),
{
    let mut j: usize = 0;
    while j < keys.len() && str_lt(keys[j].as_str(), k)
        invariant
            j <= keys@.len(),
            forall|i: int| 0 <= i < j ==> seq_lt(#[trigger] keys@[i]@, k@),
        decreases keys@.len() - j,
    {
        j += 1;
    }
    j
}

// ---------------------------------------------------------------------------
// Sets of names in text order
// ---------------------------------------------------------------------------

/// Insertion into a strictly increasing list of names (a set kept in order).
pub open spec fn ss_insert(s: Seq<Seq<char>>, k: Seq<char>) -> Seq<Seq<char>>
    decreases s.len(),
{
    if s.len() == 0 {
        seq![k]
    } else if s[0] == k {
        s
    } else if seq_lt(k, s[0]) {
        seq![k] + s
    } else {
        seq![s[0]] + ss_insert(s.drop_first(), k)
    }
}

/// Names strictly increasing in text order: each once, in order.
pub open spec fn ss_sorted(s: Seq<Seq<char>>) -> bool {
    forall|i: int, j: int| 0 <= i < j < s.len() ==> seq_lt(#[trigger] s[i], #[trigger] s[j])
}

/// Law: inserting into a set of names kept in text order keeps it in
/// order, and adds exactly the name inserted.
pub proof fn lemma_ss_insert(s: Seq<Seq<char>>, k: Seq<char>)
    requires
        ss_sorted(s),
    ensures
        ss_sorted(ss_insert(s, k)),
        forall|x: Seq<char>| #[trigger] ss_insert(s, k).contains(x) <==> (s.contains(x) || x == k),
    decreases s.len(),
{
    let r = ss_insert(s, k);
    if s.len() == 0 {
        assert(r[0] == k);
    } else if s[0] == k {
        assert(s.contains(k));
    } else if seq_lt(k, s[0]) {
        assert(r =~= seq![k] + s);
        assert forall|i: int, j: int| 0 <= i < j < r.len() implies seq_lt(#[trigger] r[i], #[trigger] r[j]) by {
            if i == 0 {
                if j - 1 > 0 {
                    lemma_lt_transitive(k, s[0], s[j - 1]);
                }
            } else {
                assert(r[i] == s[i - 1] && r[j] == s[j - 1]);
            }
        }
        assert forall|x: Seq<char>| r.contains(x) <==> (s.contains(x) || x == k) by {
            if r.contains(x) {
                let i = choose|i: int| 0 <= i < r.len() && r[i] == x;
                if i > 0 {
                    assert(s[i - 1] == x);
                }
            }
            if s.contains(x) {
                let i = choose|i: int| 0 <= i < s.len() && s[i] == x;
                assert(r[i + 1] == x);
            }
            if x == k {
                assert(r[0] == x);
            }
        }
    } else {
        lemma_lt_total(k, s[0]);
        let rest = s.drop_first();
        assert forall|i: int, j: int| 0 <= i < j < rest.len() implies seq_lt(#[trigger] rest[i], #[trigger] rest[j]) by {
            assert(rest[i] == s[i + 1] && rest[j] == s[j + 1]);
        }
        lemma_ss_insert(rest, k);
        let r2 = ss_insert(rest, k);
        assert(r =~= seq![s[0]] + r2);
        assert forall|i: int, j: int| 0 <= i < j < r.len() implies seq_lt(#[trigger] r[i], #[trigger] r[j]) by {
            if i == 0 {
                assert(r[j] == r2[j - 1]);
                assert(r2.contains(r2[j - 1]));
                if r2[j - 1] != k {
                    assert(rest.contains(r2[j - 1]));
                    let m = choose|m: int| 0 <= m < rest.len() && rest[m] == r2[j - 1];
                    assert(s[m + 1] == rest[m]);
                }
            } else {
                assert(r[i] == r2[i - 1] && r[j] == r2[j - 1]);
            }
        }
        assert forall|x: Seq<char>| r.contains(x) <==> (s.contains(x) || x == k) by {
            if r.contains(x) {
                let i = choose|i: int| 0 <= i < r.len() && r[i] == x;
                if i > 0 {
                    assert(r2[i - 1] == x);
                    assert(r2.contains(x));
                    if rest.contains(x) {
                        let m = choose|m: int| 0 <= m < rest.len() && rest[m] == x;
                        assert(s[m + 1] == x);
                    }
                } else {
                    assert(s[0] == x);
                }
            }
            if s.contains(x) {
                let i = choose|i: int| 0 <= i < s.len() && s[i] == x;
                if i == 0 {
                    assert(r[0] == x);
                } else {
                    assert(rest[i - 1] == x);
                    assert(rest.contains(x));
                    assert(ss_insert(rest, k).contains(x) <==> (rest.contains(x) || x == k));
                    assert(r2.contains(x));
                    let m = choose|m: int| 0 <= m < r2.len() && r2[m] == x;
                    assert(r[m + 1] == x);
                }
            }
            if x == k {
                assert(ss_insert(rest, k).contains(x) <==> (rest.contains(x) || x == k));
                assert(r2.contains(x));
                let m = choose|m: int| 0 <= m < r2.len() && r2[m] == x;
                assert(r[m + 1] == x);
            }
        }
    }
}

pub open spec fn strings_view(v: Seq<String>) -> Seq<Seq<char>> {
    v.map_values(|s: String| s@)
}

proof fn lemma_ss_insert_at(s: Seq<Seq<char>>, k: Seq<char>, j: int)
    requires
        0 <= j <= s.len(),
        forall|i: int| 0 <= i < j ==> seq_lt(#[trigger] s[i], k),
        j < s.len() ==> !seq_lt(s[j], k),
    ensures
        ss_insert(s, k) == if j < s.len() && s[j] == k {
            s
        } else {
            s.take(j) + seq![k] + s.skip(j)
        },
    decreases j,
{
    if j == 0 {
        if s.len() > 0 && s[0] != k {
            lemma_lt_total(k, s[0]);
        }
        assert(s.skip(0) =~= s);
        assert(s.take(0) =~= Seq::<Seq<char>>::empty());
    } else {
        lemma_lt_irreflexive(k);
        lemma_lt_asymmetric(s[0], k);
        assert forall|i: int| 0 <= i < j - 1 implies seq_lt(#[trigger] s.drop_first()[i], k) by {
            assert(s.drop_first()[i] == s[i + 1]);
        }
        lemma_ss_insert_at(s.drop_first(), k, j - 1);
        assert(s.drop_first().take(j - 1) =~= s.take(j).drop_first());
        assert(s.drop_first().skip(j - 1) =~= s.skip(j));
        assert(s.take(j) =~= seq![s[0]] + s.take(j).drop_first());
        assert(s =~= seq![s[0]] + s.drop_first());
    }
}

/// Adds `k` to a set of names kept in text order.
pub fn ss_add(set: &mut Vec<String>, k: String)
    ensures
        strings_view(final(set)@) == ss_insert(strings_view(old(set)@), k@),
{
    let ghost old_v = strings_view(set@);
    let j = sm_position_str(set, k.as_str());
    proof {
        assert forall|i: int| 0 <= i < j implies seq_lt(#[trigger] old_v[i], k@) by {
            assert(old_v[i] == set@[i]@);
        }
        lemma_ss_insert_at(old_v, k@, j as int);
    }
    if j < set.len() && set[j] == k {
        return;
    }
    set.insert(j, k);
    proof {
        assert(strings_view(set@) =~= old_v.take(j as int) + seq![k@] + old_v.skip(j as int));
    }
}

fn sm_position_str(keys: &Vec<String>, k: &str) -> (j: usize)
    ensures
        j <= keys@.len(),
        forall|i: int| 0 <= i < j ==> seq_lt(#[trigger] keys@[i]@, k@),
        j < keys@.len() ==> !seq_lt(keys@[j as int]@, k@),
{
    sm_position(keys, k)
}


/// The keys of an association list seen as text.
pub open spec fn kv_view<V>(m: Seq<(String, V)>) -> Seq<(Seq<char>, V)> {
    m.map_values(|e: (String, V)| (e.0@, e.1))
}

pub fn sm_contains<V>(m: &Vec<(String, V)>, k: &str) -> (r: bool)
    ensures
        r == sm_has_key(kv_view(m@), k@),
{
    let mut i: usize = 0;
    while i < m.len()
        invariant
            0 <= i <= m@.len(),
            forall|j: int| 0 <= j < i ==> #[trigger] m@[j].0@ != k@,
        decreases m@.len() - i,
    {
        if crate::text::str_eq(m[i].0.as_str(), k) {
            assert(kv_view(m@)[i as int].0 == k@);
            return true;
        }
        i += 1;
    }
    proof {
        if sm_has_key(kv_view(m@), k@) {
            let j = choose|j: int| 0 <= j < kv_view(m@).len() && #[trigger] kv_view(m@)[j].0 == k@;
            assert(m@[j].0@ == k@);
        }
    }
    false
}

/// Inserts into a key-ordered association list, replacing the value of an
/// existing key.
pub fn sm_put<V>(m: &mut Vec<(String, V)>, k: String, v: V)
    ensures
        kv_view(final(m)@) == sm_insert(kv_view(old(m)@), k@, v),
{
    let ghost old_v = kv_view(m@);
    let mut j: usize = 0;
    while j < m.len() && str_lt(m[j].0.as_str(), k.as_str())
        invariant
            j <= m@.len(),
            old_v == kv_view(m@),
            forall|i: int| 0 <= i < j ==> seq_lt(#[trigger] old_v[i].0, k@),
        decreases m@.len() - j,
    {
        j += 1;
    }
    proof {
        lemma_sm_insert_at(old_v, k@, v, j as int);
    }
    if j < m.len() && crate::text::str_eq(m[j].0.as_str(), k.as_str()) {
        m.set(j, (k, v));
        proof {
            assert(kv_view(m@) =~= old_v.take(j as int) + seq![(k@, v)] + old_v.skip(j + 1));
        }
    } else {
        m.insert(j, (k, v));
        proof {
            assert(kv_view(m@) =~= old_v.take(j as int) + seq![(k@, v)] + old_v.skip(j as int));
        }
    }
}

/// Mapping the values commutes with insertion.
pub proof fn lemma_sm_insert_map<V, W>(m: Seq<(Seq<char>, V)>, k: Seq<char>, v: V, f: spec_fn(V) -> W)
    ensures
        sm_insert(m, k, v).map_values(|e: (Seq<char>, V)| (e.0, f(e.1))) == sm_insert(
            m.map_values(|e: (Seq<char>, V)| (e.0, f(e.1))),
            k,
            f(v),
        ),
    decreases m.len(),
{
    let g = |e: (Seq<char>, V)| (e.0, f(e.1));
    let mm = m.map_values(g);
    if m.len() == 0 {
        assert(sm_insert(m, k, v).map_values(g) =~= seq![(k, f(v))]);
    } else if m[0].0 == k {
        assert(mm.drop_first() =~= m.drop_first().map_values(g));
        assert(sm_insert(m, k, v).map_values(g) =~= seq![(k, f(v))] + mm.drop_first());
    } else if seq_lt(k, m[0].0) {
        assert(sm_insert(m, k, v).map_values(g) =~= seq![(k, f(v))] + mm);
    } else {
        lemma_sm_insert_map(m.drop_first(), k, v, f);
        assert(mm.drop_first() =~= m.drop_first().map_values(g));
        assert(sm_insert(m, k, v).map_values(g) =~= seq![mm[0]] + sm_insert(mm.drop_first(), k, f(v)));
    }
}

/// Having a key does not depend on the values.
pub proof fn lemma_sm_has_key_map<V, W>(m: Seq<(Seq<char>, V)>, k: Seq<char>, f: spec_fn(V) -> W)
    ensures
        sm_has_key(m.map_values(|e: (Seq<char>, V)| (e.0, f(e.1))), k) == sm_has_key(m, k),
{
    let mm = m.map_values(|e: (Seq<char>, V)| (e.0, f(e.1)));
    if sm_has_key(m, k) {
        let i = choose|i: int| 0 <= i < m.len() && #[trigger] m[i].0 == k;
        assert(mm[i].0 == k);
    }
    if sm_has_key(mm, k) {
        let i = choose|i: int| 0 <= i < mm.len() && #[trigger] mm[i].0 == k;
        assert(m[i].0 == k);
    }
}

} // verus!
