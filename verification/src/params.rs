//! Named parameter tables: a list of `(name, identifier)` pairs read as a map in which a later
//! pair overrides an earlier one with the same name, and the ordering of names by which the
//! leftover parameters are reported.

use vstd::prelude::*;
use crate::text::{chars_of, chars_eq};

verus! {

broadcast use vstd::seq::group_seq_axioms;

/// The models of a list of string pairs.
pub open spec fn pairs_view(p: Seq<(String, String)>) -> Seq<(Seq<char>, Seq<char>)> {
    p.map_values(|x: (String, String)| (x.0@, x.1@))
}

/// The map that a list of pairs denotes: a later pair overrides an earlier one with the same name.
pub open spec fn param_map(p: Seq<(Seq<char>, Seq<char>)>) -> Map<Seq<char>, Seq<char>>
    decreases p.len(),
{
    if p.len() == 0 {
        Map::empty()
    } else {
        param_map(p.drop_last()).insert(p.last().0, p.last().1)
    }
}

/// Whether no two pairs share a name.
pub open spec fn unique_names(p: Seq<(Seq<char>, Seq<char>)>) -> bool {
    forall|i: int, j: int| 0 <= i < j < p.len() ==> p[i].0 != p[j].0
}

/// The lexicographic order of character sequences, which for strings is also the order of their
/// UTF-8 bytes.
pub open spec fn seq_lt(a: Seq<char>, b: Seq<char>) -> bool
    decreases a.len(),
{
    if a.len() == 0 {
        b.len() > 0
    } else if b.len() == 0 {
        false
    } else if a[0] != b[0] {
        a[0] < b[0]
    } else {
        seq_lt(a.skip(1), b.skip(1))
    }
}

/// Whether `k` is the least name of a map.
pub open spec fn is_least_key(m: Map<Seq<char>, Seq<char>>, k: Seq<char>) -> bool {
    m.dom().contains(k) && forall|x: Seq<char>| #[trigger] m.dom().contains(x) ==> !seq_lt(x, k)
}

pub proof fn lemma_seq_lt_transitive(a: Seq<char>, b: Seq<char>, c: Seq<char>)
    requires
        seq_lt(a, b),
        seq_lt(b, c),
    ensures
        seq_lt(a, c),
    decreases a.len(),
{
    if a.len() > 0 && b.len() > 0 && c.len() > 0 && a[0] == b[0] && b[0] == c[0] {
        lemma_seq_lt_transitive(a.skip(1), b.skip(1), c.skip(1));
    }
}

pub proof fn lemma_seq_lt_irreflexive(a: Seq<char>)
    ensures
        !seq_lt(a, a),
    decreases a.len(),
{
    if a.len() > 0 {
        lemma_seq_lt_irreflexive(a.skip(1));
    }
}

/// The map of a table with unique names holds exactly its pairs.
pub proof fn lemma_param_map_unique(p: Seq<(Seq<char>, Seq<char>)>)
    requires
        unique_names(p),
    ensures
        forall|i: int|
            0 <= i < p.len() ==> #[trigger] param_map(p).dom().contains(p[i].0) && param_map(p)[p[i].0]
                == p[i].1,
        forall|k: Seq<char>|
            #[trigger] param_map(p).dom().contains(k) ==> exists|i: int| 0 <= i < p.len() && p[i].0 == k,
        param_map(p).dom().finite(),
    decreases p.len(),
{
    if p.len() > 0 {
        let q = p.drop_last();
        assert(unique_names(q));
        lemma_param_map_unique(q);
        assert forall|k: Seq<char>| #[trigger] param_map(p).dom().contains(k) implies exists|i: int|
            0 <= i < p.len() && p[i].0 == k by {
            if k != p.last().0 {
                assert(param_map(q).dom().contains(k));
                let i = choose|i: int| 0 <= i < q.len() && q[i].0 == k;
                assert(p[i].0 == k);
            } else {
                assert(p[p.len() - 1].0 == k);
            }
        }
        assert forall|i: int| 0 <= i < p.len() implies #[trigger] param_map(p).dom().contains(p[i].0)
            && param_map(p)[p[i].0] == p[i].1 by {
            if i < p.len() - 1 {
                assert(q[i] == p[i]);
                assert(p[i].0 != p.last().0);
            }
        }
    }
}

proof fn lemma_param_map_update(p: Seq<(Seq<char>, Seq<char>)>, j: int, kv: (Seq<char>, Seq<char>))
    requires
        unique_names(p),
        0 <= j < p.len(),
        p[j].0 == kv.0,
    ensures
        param_map(p.update(j, kv)) == param_map(p).insert(kv.0, kv.1),
    decreases p.len(),
{
    let q = p.drop_last();
    if j == p.len() - 1 {
        assert(p.update(j, kv).drop_last() =~= q);
        assert(param_map(p.update(j, kv)) =~= param_map(p).insert(kv.0, kv.1));
    } else {
        assert(unique_names(q));
        lemma_param_map_update(q, j, kv);
        assert(p.update(j, kv).drop_last() =~= q.update(j, kv));
        assert(p[j].0 != p.last().0);
        assert(param_map(p.update(j, kv)) =~= param_map(p).insert(kv.0, kv.1));
    }
}

proof fn lemma_param_map_remove(p: Seq<(Seq<char>, Seq<char>)>, j: int)
    requires
        unique_names(p),
        0 <= j < p.len(),
    ensures
        param_map(p.remove(j)) == param_map(p).remove(p[j].0),
        unique_names(p.remove(j)),
    decreases p.len(),
{
    let q = p.drop_last();
    assert(unique_names(q));
    if j == p.len() - 1 {
        assert(p.remove(j) =~= q);
        lemma_param_map_unique(q);
        if param_map(q).dom().contains(p[j].0) {
            let i = choose|i: int| 0 <= i < q.len() && q[i].0 == p[j].0;
            assert(p[i].0 == p[j].0);
        }
        assert(param_map(p.remove(j)) =~= param_map(p).remove(p[j].0));
    } else {
        lemma_param_map_remove(q, j);
        assert(p.remove(j).drop_last() =~= q.remove(j));
        assert(p.remove(j).last() == p.last());
        assert(p[j].0 != p.last().0);
        assert(param_map(p.remove(j)) =~= param_map(p).remove(p[j].0));
    }
    assert forall|a: int, b: int| 0 <= a < b < p.remove(j).len() implies p.remove(j)[a].0 != p.remove(
        j,
    )[b].0 by {
        let a2 = if a < j { a } else { a + 1 };
        let b2 = if b < j { b } else { b + 1 };
        assert(p.remove(j)[a] == p[a2]);
        assert(p.remove(j)[b] == p[b2]);
    }
}

proof fn lemma_pairs_view_update(t: Seq<(String, String)>, j: int, kv: (String, String))
    requires
        0 <= j < t.len(),
    ensures
        pairs_view(t.update(j, kv)) == pairs_view(t).update(j, (kv.0@, kv.1@)),
{
    assert(pairs_view(t.update(j, kv)) =~= pairs_view(t).update(j, (kv.0@, kv.1@)));
}

proof fn lemma_pairs_view_remove(t: Seq<(String, String)>, j: int)
    requires
        0 <= j < t.len(),
    ensures
        pairs_view(t.remove(j)) == pairs_view(t).remove(j),
{
    assert(pairs_view(t.remove(j)) =~= pairs_view(t).remove(j));
}

proof fn lemma_pairs_view_push(t: Seq<(String, String)>, kv: (String, String))
    ensures
        pairs_view(t.push(kv)) == pairs_view(t).push((kv.0@, kv.1@)),
{
    assert(pairs_view(t.push(kv)) =~= pairs_view(t).push((kv.0@, kv.1@)));
}

/// Finds the index of the pair with the given name.
fn find_name(t: &Vec<(String, String)>, name: &str) -> (res: Option<usize>)
    ensures
        match res {
            Some(i) => i < t@.len() && pairs_view(t@)[i as int].0 == name@,
            None => forall|i: int| 0 <= i < t@.len() ==> pairs_view(t@)[i].0 != name@,
        },
{
    let target = chars_of(name);
    let mut i: usize = 0;
    while i < t.len()
        invariant
            i <= t@.len(),
            target@ == name@,
            forall|j: int| 0 <= j < i ==> pairs_view(t@)[j].0 != name@,
        decreases t@.len() - i,
    {
        let key = chars_of(t[i].0.as_str());
        if chars_eq(key.as_slice(), target.as_slice()) {
            return Some(i);
        }
        i += 1;
    }
    None
}

/// Collects a list of pairs into a table with unique names, a later pair overriding an earlier
/// one with the same name.
pub fn collect_params(params: &Vec<(String, String)>) -> (res: Vec<(String, String)>)
    ensures
        unique_names(pairs_view(res@)),
        param_map(pairs_view(res@)) == param_map(pairs_view(params@)),
{
    let mut t: Vec<(String, String)> = Vec::new();
    let mut i: usize = 0;
    assert(param_map(pairs_view(t@)) =~= param_map(pairs_view(params@).take(0)));
    while i < params.len()
        invariant
            i <= params@.len(),
            unique_names(pairs_view(t@)),
            param_map(pairs_view(t@)) == param_map(pairs_view(params@).take(i as int)),
        decreases params@.len() - i,
    {
        let k = params[i].0.clone();
        let v = params[i].1.clone();
        let ghost kv = (k@, v@);
        let ghost old_t = t@;
        match find_name(&t, k.as_str()) {
            Some(j) => {
                t.set(j, (k, v));
                proof {
                    lemma_pairs_view_update(old_t, j as int, (k, v));
                    lemma_param_map_update(pairs_view(old_t), j as int, kv);
                    let nt = pairs_view(t@);
                    assert forall|a: int, b: int| 0 <= a < b < nt.len() implies nt[a].0 != nt[b].0 by {
                        assert(nt[a].0 == pairs_view(old_t)[a].0);
                        assert(nt[b].0 == pairs_view(old_t)[b].0);
                    }
                }
            },
            None => {
                t.push((k, v));
                proof {
                    lemma_pairs_view_push(old_t, (k, v));
                    assert(pairs_view(t@).drop_last() =~= pairs_view(old_t));
                }
            },
        }
        proof {
            assert(pairs_view(params@).take(i + 1).drop_last() =~= pairs_view(params@).take(i as int));
            assert(pairs_view(params@)[i as int] == kv);
        }
        i += 1;
    }
    assert(pairs_view(params@).take(params@.len() as int) =~= pairs_view(params@));
    t
}

/// Removes the pair with the given name from a table, giving its identifier.
pub fn take_param(t: &mut Vec<(String, String)>, name: &str) -> (res: Option<String>)
    requires
        unique_names(pairs_view(old(t)@)),
    ensures
        unique_names(pairs_view(final(t)@)),
        match res {
            Some(id) => param_map(pairs_view(old(t)@)).dom().contains(name@) && id@ == param_map(
                pairs_view(old(t)@),
            )[name@] && param_map(pairs_view(final(t)@)) == param_map(pairs_view(old(t)@)).remove(name@),
            None => !param_map(pairs_view(old(t)@)).dom().contains(name@) && final(t)@ == old(t)@,
        },
{
    proof {
        lemma_param_map_unique(pairs_view(t@));
    }
    match find_name(t, name) {
        Some(j) => {
            let ghost old_t = t@;
            let (_, id) = t.remove(j);
            proof {
                lemma_pairs_view_remove(old_t, j as int);
                lemma_param_map_remove(pairs_view(old_t), j as int);
                assert(pairs_view(old_t)[j as int].1 == id@);
            }
            Some(id)
        },
        None => {
            proof {
                if param_map(pairs_view(t@)).dom().contains(name@) {
                    let i = choose|i: int| 0 <= i < pairs_view(t@).len() && pairs_view(t@)[i].0 == name@;
                }
            }
            None
        },
    }
}

/// Whether the characters `a` come before `b` in lexicographic order.
pub fn chars_lt(a: &[char], b: &[char]) -> (res: bool)
    ensures
        res == seq_lt(a@, b@),
{
    let mut k: usize = 0;
    assert(a@.skip(0) =~= a@);
    assert(b@.skip(0) =~= b@);
    while k < a.len() && k < b.len()
        invariant
            k <= a@.len(),
            k <= b@.len(),
            seq_lt(a@, b@) == seq_lt(a@.skip(k as int), b@.skip(k as int)),
        decreases a@.len() - k,
    {
        if a[k] != b[k] {
            return a[k] < b[k];
        }
        assert(a@.skip(k as int).skip(1) =~= a@.skip(k + 1));
        assert(b@.skip(k as int).skip(1) =~= b@.skip(k + 1));
        k += 1;
    }
    k < b.len()
}

/// The index of the pair with the least name in a non-empty table.
pub fn least_param(t: &Vec<(String, String)>) -> (res: usize)
    requires
        t@.len() > 0,
        unique_names(pairs_view(t@)),
    ensures
        res < t@.len(),
        is_least_key(param_map(pairs_view(t@)), pairs_view(t@)[res as int].0),
{
    let ghost p = pairs_view(t@);
    let mut best: usize = 0;
    let mut best_key = chars_of(t[0].0.as_str());
    let mut i: usize = 1;
    proof {
        lemma_seq_lt_irreflexive(p[0].0);
    }
    while i < t.len()
        invariant
            p == pairs_view(t@),
            1 <= i <= t@.len(),
            best < t@.len(),
            best_key@ == p[best as int].0,
            forall|j: int| 0 <= j < i ==> !seq_lt(#[trigger] p[j].0, p[best as int].0),
        decreases t@.len() - i,
    {
        let key = chars_of(t[i].0.as_str());
        if chars_lt(key.as_slice(), best_key.as_slice()) {
            proof {
                assert forall|j: int| 0 <= j < i + 1 implies !seq_lt(#[trigger] p[j].0, p[i as int].0) by {
                    if j == i {
                        lemma_seq_lt_irreflexive(p[j].0);
                    } else if seq_lt(p[j].0, p[i as int].0) {
                        lemma_seq_lt_transitive(p[j].0, p[i as int].0, p[best as int].0);
                    }
                }
            }
            best = i;
            best_key = key;
        }
        i += 1;
    }
    proof {
        lemma_param_map_unique(p);
        assert forall|x: Seq<char>| #[trigger] param_map(p).dom().contains(x) implies !seq_lt(
            x,
            p[best as int].0,
        ) by {
            let j = choose|j: int| 0 <= j < p.len() && p[j].0 == x;
        }
    }
    best
}

} // verus!
