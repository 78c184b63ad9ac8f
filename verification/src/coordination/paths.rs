//! Walks along directed links between named nodes, reachability, and the
//! closure that computes it.
use vstd::prelude::*;
use crate::text::{contains_str, push_owned, strings_view};

verus! {

/// The character views of a vector of string pairs.
pub open spec fn pair_views(v: Seq<(String, String)>) -> Seq<(Seq<char>, Seq<char>)> {
    Seq::new(v.len(), |i: int| (v[i].0@, v[i].1@))
}

/// A walk from `p[0]` to `p.last()`, each step along a link `(from, to)`.
pub open spec fn is_walk(pairs: Seq<(Seq<char>, Seq<char>)>, p: Seq<Seq<char>>) -> bool {
    &&& p.len() >= 1
    &&& forall|i: int| 0 <= i < p.len() - 1 ==> #[trigger] link_at(pairs, p, i)
}

/// The step of `p` from position `i` to `i + 1` is a link.
pub open spec fn link_at(pairs: Seq<(Seq<char>, Seq<char>)>, p: Seq<Seq<char>>, i: int) -> bool {
    pairs.contains((p[i], p[i + 1]))
}

/// `b` is reachable from `a` along links, in zero or more steps.
pub open spec fn reaches(pairs: Seq<(Seq<char>, Seq<char>)>, a: Seq<char>, b: Seq<char>) -> bool {
    exists|p: Seq<Seq<char>>| #[trigger] is_walk(pairs, p) && p[0] == a && p.last() == b
}

/// No walk of one step or more comes back to where it started.
pub open spec fn acyclic(pairs: Seq<(Seq<char>, Seq<char>)>) -> bool {
    forall|p: Seq<Seq<char>>| #[trigger] is_walk(pairs, p) && p.len() >= 2 ==> p[0] != p.last()
}

/// A walk extended by one step is a walk.
pub proof fn lemma_walk_push(pairs: Seq<(Seq<char>, Seq<char>)>, p: Seq<Seq<char>>, x: Seq<char>)
    requires
        is_walk(pairs, p),
        pairs.contains((p.last(), x)),
    ensures
        is_walk(pairs, p.push(x)),
{
    let q = p.push(x);
    assert forall|i: int| 0 <= i < q.len() - 1 implies #[trigger] link_at(pairs, q, i) by {
        if i < p.len() - 1 {
            assert(link_at(pairs, p, i));
            assert(q[i] == p[i] && q[i + 1] == p[i + 1]);
        } else {
            assert(q[i] == p.last() && q[i + 1] == x);
        }
    }
}

/// The first position of `x` in `q`, which holds it somewhere.
pub proof fn first_position(q: Seq<Seq<char>>, x: Seq<char>) -> (j: int)
    requires
        q.contains(x),
    ensures
        0 <= j < q.len(),
        q[j] == x,
        forall|i: int| 0 <= i < j ==> q[i] != x,
    decreases q.len(),
{
    if q[0] == x {
        0
    } else {
        let k = choose|k: int| 0 <= k < q.len() && q[k] == x;
        let t = q.subrange(1, q.len() as int);
        assert(t[k - 1] == x);
        let j = first_position(t, x);
        assert forall|i: int| 0 <= i < j + 1 implies q[i] != x by {
            if i > 0 {
                assert(q[i] == t[i - 1]);
            }
        }
        j + 1
    }
}

/// A step of the links with `(d, p)` added, other than `(d, p)` itself, is
/// an old step.
proof fn lemma_step_old(pairs: Seq<(Seq<char>, Seq<char>)>, d: Seq<char>, p: Seq<char>, a: Seq<char>, b: Seq<char>)
    requires
        pairs.push((d, p)).contains((a, b)),
        a != d || b != p,
    ensures
        pairs.contains((a, b)),
{
    let np = pairs.push((d, p));
    let t = choose|t: int| 0 <= t < np.len() && np[t] == (a, b);
    if t < pairs.len() {
        assert(pairs[t] == np[t]);
    }
}

/// A walk that never takes the new step `(d, p)` is an old walk.
proof fn lemma_walk_old(pairs: Seq<(Seq<char>, Seq<char>)>, d: Seq<char>, p: Seq<char>, c: Seq<Seq<char>>)
    requires
        is_walk(pairs.push((d, p)), c),
        forall|k: int| #![trigger c[k]] 0 <= k < c.len() - 1 ==> !(c[k] == d && c[k + 1] == p),
    ensures
        is_walk(pairs, c),
{
    assert forall|i: int| 0 <= i < c.len() - 1 implies #[trigger] link_at(pairs, c, i) by {
        assert(link_at(pairs.push((d, p)), c, i));
        assert(!(c[i] == d && c[i + 1] == p));
        lemma_step_old(pairs, d, p, c[i], c[i + 1]);
    }
}

/// A walk of the extended links that meets `d` has an old prefix that ends
/// at `d`.
proof fn lemma_prefix_old(pairs: Seq<(Seq<char>, Seq<char>)>, d: Seq<char>, p: Seq<char>, q: Seq<Seq<char>>)
    requires
        is_walk(pairs.push((d, p)), q),
        q.contains(d),
    ensures
        reaches(pairs, q[0], d),
{
    let j = first_position(q, d);
    let w = q.subrange(0, j + 1);
    assert forall|i: int| 0 <= i < w.len() - 1 implies #[trigger] link_at(pairs, w, i) by {
        assert(w[i] == q[i] && w[i + 1] == q[i + 1]);
        assert(q[i] != d);
        assert(link_at(pairs.push((d, p)), q, i));
        lemma_step_old(pairs, d, p, q[i], q[i + 1]);
    }
    assert(is_walk(pairs, w));
    assert(w[0] == q[0] && w.last() == d);
}

/// Going round a cycle that takes the step `(d, p)` gives a walk from `p`
/// to `d`.
proof fn lemma_rotate(np: Seq<(Seq<char>, Seq<char>)>, c: Seq<Seq<char>>, k: int) -> (q: Seq<Seq<char>>)
    requires
        is_walk(np, c),
        c.len() >= 2,
        c[0] == c.last(),
        0 <= k < c.len() - 1,
    ensures
        is_walk(np, q),
        q[0] == c[k + 1],
        q.last() == c[k],
{
    let n1 = c.len() - k - 1;
    let q = Seq::new((c.len() - 1) as nat, |i: int| if i < n1 { c[k + 1 + i] } else { c[i - n1 + 1] });
    assert forall|i: int| 0 <= i < q.len() - 1 implies #[trigger] link_at(np, q, i) by {
        if i < n1 - 1 {
            assert(link_at(np, c, k + 1 + i));
            assert(q[i] == c[k + 1 + i] && q[i + 1] == c[k + 1 + i + 1]);
        } else if i == n1 - 1 {
            assert(link_at(np, c, 0));
            assert(q[i] == c[0]);
            assert(q[i + 1] == c[1]);
        } else {
            assert(link_at(np, c, i - n1 + 1));
            assert(q[i] == c[i - n1 + 1] && q[i + 1] == c[i - n1 + 1 + 1]);
        }
    }
    assert(q[0] == c[k + 1]);
    assert(q.last() == c[k]);
    q
}

/// Adding the link `(d, p)` keeps the links acyclic when `d` is not
/// reachable from `p`.
pub proof fn lemma_add_edge_acyclic(pairs: Seq<(Seq<char>, Seq<char>)>, d: Seq<char>, p: Seq<char>)
    requires
        acyclic(pairs),
        !reaches(pairs, p, d),
    ensures
        acyclic(pairs.push((d, p))),
{
    let np = pairs.push((d, p));
    assert forall|c: Seq<Seq<char>>| #[trigger] is_walk(np, c) && c.len() >= 2 implies c[0] != c.last() by {
        if c[0] == c.last() {
            if exists|k: int| #![trigger c[k]] 0 <= k < c.len() - 1 && c[k] == d && c[k + 1] == p {
                let k = choose|k: int| #![trigger c[k]] 0 <= k < c.len() - 1 && c[k] == d && c[k + 1] == p;
                let q = lemma_rotate(np, c, k);
                assert(q[q.len() - 1] == d);
                assert(q.contains(d));
                lemma_prefix_old(pairs, d, p, q);
            } else {
                lemma_walk_old(pairs, d, p, c);
            }
        }
    }
}

/// How many of the first `n` items `seen` lacks.
pub open spec fn absent(items: Seq<Seq<char>>, seen: Seq<Seq<char>>, n: int) -> nat
    decreases n,
{
    if n <= 0 {
        0
    } else {
        absent(items, seen, n - 1) + (if seen.contains(items[n - 1]) { 0nat } else { 1nat })
    }
}

/// Seeing more leaves no more items absent.
pub proof fn lemma_absent_mono(items: Seq<Seq<char>>, a: Seq<Seq<char>>, b: Seq<Seq<char>>, n: int)
    requires
        forall|x: Seq<char>| a.contains(x) ==> b.contains(x),
    ensures
        absent(items, b, n) <= absent(items, a, n),
    decreases n,
{
    if n > 0 {
        lemma_absent_mono(items, a, b, n - 1);
        if a.contains(items[n - 1]) {
            assert(b.contains(items[n - 1]));
        }
    }
}

/// Seeing more, among it an item that was absent, leaves fewer absent.
pub proof fn lemma_absent_drop(items: Seq<Seq<char>>, a: Seq<Seq<char>>, b: Seq<Seq<char>>, n: int, k: int)
    requires
        forall|x: Seq<char>| a.contains(x) ==> b.contains(x),
        0 <= k < n,
        !a.contains(items[k]),
        b.contains(items[k]),
    ensures
        absent(items, b, n) < absent(items, a, n),
    decreases n,
{
    if k == n - 1 {
        lemma_absent_mono(items, a, b, n - 1);
    } else {
        lemma_absent_drop(items, a, b, n - 1, k);
        if a.contains(items[n - 1]) {
            assert(b.contains(items[n - 1]));
        }
    }
}

/// The ends of the links.
pub open spec fn targets(pairs: Seq<(Seq<char>, Seq<char>)>) -> Seq<Seq<char>> {
    Seq::new(pairs.len(), |i: int| pairs[i].1)
}

/// Every link that starts in `s` ends in `s`.
pub open spec fn closed_under(pairs: Seq<(Seq<char>, Seq<char>)>, s: Seq<Seq<char>>) -> bool {
    forall|i: int| 0 <= i < pairs.len() && #[trigger] s.contains(pairs[i].0) ==> s.contains(pairs[i].1)
}

proof fn lemma_closed_walk_at(pairs: Seq<(Seq<char>, Seq<char>)>, s: Seq<Seq<char>>, p: Seq<Seq<char>>, k: int)
    requires
        closed_under(pairs, s),
        is_walk(pairs, p),
        s.contains(p[0]),
        0 <= k < p.len(),
    ensures
        s.contains(p[k]),
    decreases k,
{
    if k > 0 {
        lemma_closed_walk_at(pairs, s, p, k - 1);
        assert(link_at(pairs, p, k - 1));
        assert(pairs.contains((p[k - 1], p[k])));
        let j = choose|j: int| 0 <= j < pairs.len() && pairs[j] == (p[k - 1], p[k]);
        assert(s.contains(pairs[j].0));
    }
}

/// A walk that starts in a closed set stays in it.
pub proof fn lemma_closed_walk(pairs: Seq<(Seq<char>, Seq<char>)>, s: Seq<Seq<char>>, p: Seq<Seq<char>>)
    requires
        closed_under(pairs, s),
        is_walk(pairs, p),
        s.contains(p[0]),
    ensures
        s.contains(p.last()),
{
    lemma_closed_walk_at(pairs, s, p, p.len() - 1);
}

/// Appending a new element keeps a sequence free of duplicates.
pub proof fn lemma_push_distinct(s: Seq<Seq<char>>, x: Seq<char>)
    requires
        s.no_duplicates(),
        !s.contains(x),
    ensures
        s.push(x).no_duplicates(),
        s.push(x).contains(x),
        forall|y: Seq<char>| s.contains(y) ==> s.push(x).contains(y),
{
    let t = s.push(x);
    assert(t[s.len() as int] == x);
    assert forall|i: int, j: int| 0 <= i < t.len() && 0 <= j < t.len() && i != j implies t[i] != t[j] by {
        if i < s.len() && j < s.len() {
            assert(t[i] == s[i] && t[j] == s[j]);
        } else if i < s.len() {
            assert(t[i] == s[i]);
        } else {
            assert(t[j] == s[j]);
        }
    }
    assert forall|y: Seq<char>| s.contains(y) implies t.contains(y) by {
        let i = choose|i: int| 0 <= i < s.len() && s[i] == y;
        assert(t[i] == y);
    }
}

/// One more step from a reached node reaches its end.
proof fn lemma_reach_extend(pv: Seq<(Seq<char>, Seq<char>)>, start: Seq<char>, cur: Seq<Seq<char>>, i: int)
    requires
        0 <= i < pv.len(),
        cur.contains(pv[i].0),
        !cur.contains(pv[i].1),
        cur.no_duplicates(),
        forall|x: Seq<char>| #[trigger] cur.contains(x) ==> reaches(pv, start, x),
    ensures
        cur.push(pv[i].1).no_duplicates(),
        cur.push(pv[i].1).contains(pv[i].1),
        forall|y: Seq<char>| cur.contains(y) ==> cur.push(pv[i].1).contains(y),
        forall|x: Seq<char>| #[trigger] cur.push(pv[i].1).contains(x) ==> reaches(pv, start, x),
{
    let a = pv[i].0;
    let b = pv[i].1;
    let w = choose|w: Seq<Seq<char>>| #[trigger] is_walk(pv, w) && w[0] == start && w.last() == a;
    assert(pv.contains((w.last(), b)));
    lemma_walk_push(pv, w, b);
    assert(w.push(b)[0] == start && w.push(b).last() == b);
    assert(reaches(pv, start, b));
    lemma_push_distinct(cur, b);
    assert forall|x: Seq<char>| #[trigger] cur.push(b).contains(x) implies reaches(pv, start, x) by {
        if x != b {
            let k = choose|k: int| 0 <= k < cur.push(b).len() && cur.push(b)[k] == x;
            assert(cur[k] == x);
            assert(cur.contains(x));
        }
    }
}

/// The names reachable from `start` along the links of `pairs`, each once.
pub fn reach_set(pairs: &Vec<(String, String)>, start: &str) -> (r: Vec<String>)
    ensures
        strings_view(r@).no_duplicates(),
        forall|x: Seq<char>| #![trigger strings_view(r@).contains(x)] #![trigger reaches(pair_views(pairs@), start@, x)]
            strings_view(r@).contains(x) <==> reaches(pair_views(pairs@), start@, x),
{
    let ghost pv = pair_views(pairs@);
    let mut seen: Vec<String> = Vec::new();
    push_owned(&mut seen, start);
    proof {
        assert(strings_view(seen@)[0] == start@);
        assert(strings_view(seen@).no_duplicates());
        let w = seq![start@];
        assert(is_walk(pv, w));
        assert(reaches(pv, start@, start@));
        assert forall|x: Seq<char>| #[trigger] strings_view(seen@).contains(x) implies reaches(pv, start@, x) by {
            let i = choose|i: int| 0 <= i < strings_view(seen@).len() && strings_view(seen@)[i] == x;
            assert(i == 0);
        }
    }
    let mut changed = true;
    while changed
        invariant
            pv == pair_views(pairs@),
            strings_view(seen@).no_duplicates(),
            strings_view(seen@).contains(start@),
            forall|x: Seq<char>| #[trigger] strings_view(seen@).contains(x) ==> reaches(pv, start@, x),
            !changed ==> closed_under(pv, strings_view(seen@)),
        decreases 2 * absent(targets(pv), strings_view(seen@), pv.len() as int) + (if changed { 1int } else { 0int }),
    {
        let ghost before = strings_view(seen@);
        let mut added = false;
        let mut i: usize = 0;
        while i < pairs.len()
            invariant
                pv == pair_views(pairs@),
                i <= pairs@.len(),
                forall|x: Seq<char>| before.contains(x) ==> strings_view(seen@).contains(x),
                strings_view(seen@).no_duplicates(),
                strings_view(seen@).contains(start@),
                forall|x: Seq<char>| #[trigger] strings_view(seen@).contains(x) ==> reaches(pv, start@, x),
                !added ==> strings_view(seen@) == before,
                !added ==> forall|j: int| 0 <= j < i && #[trigger] before.contains(pv[j].0) ==> before.contains(pv[j].1),
                added ==> exists|j: int| 0 <= j < i && !before.contains(pv[j].1) && #[trigger] strings_view(seen@).contains(pv[j].1),
            decreases pairs@.len() - i,
        {
            let ghost cur = strings_view(seen@);
            assert(pv[i as int] == (pairs@[i as int].0@, pairs@[i as int].1@));
            let from_in = contains_str(&seen, pairs[i].0.as_str());
            if from_in {
                let to_in = contains_str(&seen, pairs[i].1.as_str());
                if !to_in {
                    proof {
                        lemma_reach_extend(pv, start@, cur, i as int);
                        if added {
                            let j = choose|j: int| 0 <= j < i && !before.contains(pv[j].1) && #[trigger] cur.contains(pv[j].1);
                            assert(cur.push(pv[i as int].1).contains(pv[j].1));
                        }
                    }
                    push_owned(&mut seen, pairs[i].1.as_str());
                    assert(strings_view(seen@) == cur.push(pv[i as int].1));
                    added = true;
                }
            }
            i = i + 1;
        }
        proof {
            let after = strings_view(seen@);
            if added {
                let j = choose|j: int| 0 <= j < pv.len() && !before.contains(pv[j].1) && #[trigger] after.contains(pv[j].1);
                assert(targets(pv)[j] == pv[j].1);
                lemma_absent_drop(targets(pv), before, after, pv.len() as int, j);
            } else {
                assert forall|j: int| 0 <= j < pv.len() && #[trigger] after.contains(pv[j].0) implies after.contains(pv[j].1) by {
                    assert(before.contains(pv[j].0));
                }
            }
        }
        changed = added;
    }
    proof {
        let s = strings_view(seen@);
        assert forall|x: Seq<char>| #[trigger] reaches(pv, start@, x) implies s.contains(x) by {
            let p = choose|p: Seq<Seq<char>>| #[trigger] is_walk(pv, p) && p[0] == start@ && p.last() == x;
            lemma_closed_walk(pv, s, p);
        }
    }
    seen
}

/// A walk of `n + 1` nodes in `r` from `r0`, where every node of `r` has a
/// link to a node of `r`.
proof fn lemma_long_walk(pairs: Seq<(Seq<char>, Seq<char>)>, r: Set<Seq<char>>, r0: Seq<char>, n: nat) -> (w: Seq<Seq<char>>)
    requires
        r.contains(r0),
        forall|x: Seq<char>| #[trigger] r.contains(x) ==> exists|y: Seq<char>| r.contains(y) && pairs.contains((x, y)),
    ensures
        is_walk(pairs, w),
        w.len() == n + 1,
        w[0] == r0,
        forall|i: int| 0 <= i < w.len() ==> r.contains(#[trigger] w[i]),
    decreases n,
{
    if n == 0 {
        seq![r0]
    } else {
        let w0 = lemma_long_walk(pairs, r, r0, (n - 1) as nat);
        let x = w0.last();
        assert(r.contains(x));
        let y = choose|y: Seq<char>| r.contains(y) && pairs.contains((x, y));
        lemma_walk_push(pairs, w0, y);
        let w = w0.push(y);
        assert forall|i: int| 0 <= i < w.len() implies r.contains(#[trigger] w[i]) by {
            if i < w0.len() {
                assert(w[i] == w0[i]);
            }
        }
        w
    }
}

/// Over acyclic links, a finite set in which every node has a link to a
/// node of the set is empty.
pub proof fn lemma_no_stuck_set(pairs: Seq<(Seq<char>, Seq<char>)>, r: Set<Seq<char>>)
    requires
        acyclic(pairs),
        r.finite(),
        forall|x: Seq<char>| #[trigger] r.contains(x) ==> exists|y: Seq<char>| r.contains(y) && pairs.contains((x, y)),
    ensures
        r.is_empty(),
{
    if !r.is_empty() {
        let r0 = r.choose();
        let w = lemma_long_walk(pairs, r, r0, r.len());
        if w.no_duplicates() {
            w.unique_seq_to_set();
            assert forall|x: Seq<char>| w.to_set().contains(x) implies r.contains(x) by {
                let i = choose|i: int| 0 <= i < w.len() && w[i] == x;
                assert(r.contains(w[i]));
            }
            assert(w.to_set().subset_of(r));
            vstd::set_lib::lemma_len_subset(w.to_set(), r);
        } else {
            let (i, j) = choose|i: int, j: int| 0 <= i < w.len() && 0 <= j < w.len() && i != j && w[i] == w[j];
            let a = if i < j { i } else { j };
            let b = if i < j { j } else { i };
            let c = w.subrange(a, b + 1);
            assert forall|k: int| 0 <= k < c.len() - 1 implies #[trigger] link_at(pairs, c, k) by {
                assert(link_at(pairs, w, a + k));
                assert(c[k] == w[a + k] && c[k + 1] == w[a + k + 1]);
            }
            assert(is_walk(pairs, c));
            assert(c[0] == w[a] && c.last() == w[b]);
        }
    }
}
} // verus!
