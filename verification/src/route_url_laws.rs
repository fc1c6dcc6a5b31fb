//! Laws relating the parser of route URLs to their textual form.

use vstd::prelude::*;
use crate::route_url::{
    Seg, ParseError, ParamScan, scan, scan_param, spec_parse, display, seg_text, flush,
    is_param_char, is_literal_char, is_url_path_char, lemma_scan_param_bounds,
};

verus! {

broadcast use vstd::seq::group_seq_axioms;

/// Whether the segment at index `i` may follow the segments before it.
pub open spec fn seg_wf(u: Seq<Seg>, i: int) -> bool {
    match u[i] {
        Seg::Sep => true,
        Seg::Param(n) => i > 0 && u[i - 1] == Seg::Sep && forall|k: int|
            0 <= k < n.len() ==> is_param_char(#[trigger] n[k]),
        Seg::Lit(l) => i > 0 && l.len() > 0 && !(u[i - 1] is Lit) && forall|k: int|
            0 <= k < l.len() ==> is_literal_char(#[trigger] l[k]),
    }
}

/// The route URLs that the parser can produce: a leading separator, parameters only right
/// after a separator, non-empty literals made of URL path characters, never two literals in a
/// row.
pub open spec fn well_formed(u: Seq<Seg>) -> bool {
    &&& u.len() >= 1
    &&& u[0] == Seg::Sep
    &&& forall|i: int| 1 <= i < u.len() ==> #[trigger] seg_wf(u, i)
}

proof fn lemma_display_push(u: Seq<Seg>, g: Seg)
    ensures
        display(u.push(g)) == display(u) + seg_text(g),
{
    assert(u.push(g).drop_last() =~= u);
}

proof fn lemma_wf_push(u: Seq<Seg>, g: Seg)
    requires
        well_formed(u),
        seg_wf(u.push(g), u.len() as int),
    ensures
        well_formed(u.push(g)),
{
    let v = u.push(g);
    assert forall|i: int| 1 <= i < v.len() implies #[trigger] seg_wf(v, i) by {
        if i < u.len() {
            assert(seg_wf(u, i));
            assert(v[i] == u[i]);
            assert(v[i - 1] == u[i - 1]);
        }
    }
}

/// What holds of the scanner's state while it parses `s`.
spec fn scan_inv(s: Seq<char>, i: int, segs: Seq<Seg>, start: Option<int>) -> bool {
    &&& 1 <= i <= s.len()
    &&& well_formed(segs)
    &&& !(segs.last() is Lit)
    &&& match start {
        None => display(segs) == s.take(i),
        Some(st) => 1 <= st < i && display(segs) == s.take(st) && forall|k: int|
            st <= k < i ==> is_literal_char(#[trigger] s[k]),
    }
}

proof fn lemma_flush(s: Seq<char>, i: int, segs: Seq<Seg>, start: Option<int>)
    requires
        scan_inv(s, i, segs, start),
    ensures
        well_formed(flush(s, segs, start, i)),
        display(flush(s, segs, start, i)) == s.take(i),
        flush(s, segs, start, i).last() == Seg::Sep || !(segs.last() is Lit) && start is None
            || flush(s, segs, start, i).last() is Lit,
{
    match start {
        None => {},
        Some(st) => {
            let l = s.subrange(st, i);
            let v = segs.push(Seg::Lit(l));
            assert(v[segs.len() as int] == Seg::Lit(l));
            assert(v[segs.len() - 1] == segs.last());
            assert(seg_wf(v, segs.len() as int));
            lemma_wf_push(segs, Seg::Lit(l));
            lemma_display_push(segs, Seg::Lit(l));
            assert(s.take(st) + l =~= s.take(i));
        },
    }
}

proof fn lemma_scan_sound(s: Seq<char>, i: int, segs: Seq<Seg>, start: Option<int>)
    requires
        scan_inv(s, i, segs, start),
    ensures
        scan(s, i, segs, start) matches Ok(r) ==> well_formed(r) && display(r) == s,
    decreases s.len() - i,
{
    if i >= s.len() {
        lemma_flush(s, i, segs, start);
        assert(s.take(i) =~= s);
    } else {
        let c = s[i];
        if c == '/' {
            lemma_flush(s, i, segs, start);
            let f = flush(s, segs, start, i);
            let v = f.push(Seg::Sep);
            assert(seg_wf(v, f.len() as int));
            lemma_wf_push(f, Seg::Sep);
            lemma_display_push(f, Seg::Sep);
            assert(s.take(i) + seq!['/'] =~= s.take(i + 1));
            lemma_scan_sound(s, i + 1, v, None);
        } else if c == '{' {
            if start is Some || segs.len() == 0 || segs.last() != Seg::Sep {
            } else {
                lemma_scan_param_bounds(s, i + 1);
                match scan_param(s, i + 1) {
                    ParamScan::Closed(stop) => {
                        let n = s.subrange(i + 1, stop);
                        let v = segs.push(Seg::Param(n));
                        assert(v[segs.len() as int] == Seg::Param(n));
                        assert(v[segs.len() - 1] == segs.last());
                        assert forall|k: int| 0 <= k < n.len() implies is_param_char(#[trigger] n[k]) by {
                            assert(n[k] == s[i + 1 + k]);
                        }
                        assert(seg_wf(v, segs.len() as int));
                        lemma_wf_push(segs, Seg::Param(n));
                        lemma_display_push(segs, Seg::Param(n));
                        assert(s.take(i) + (seq!['{'] + n + seq!['}']) =~= s.take(stop + 1));
                        lemma_scan_sound(s, stop + 1, v, None);
                    },
                    _ => {},
                }
            }
        } else if is_url_path_char(c) {
            let ns = if start is None { Some(i) } else { start };
            assert(is_literal_char(c));
            lemma_scan_sound(s, i + 1, segs, ns);
        } else {
        }
    }
}

/// Parsing and display agree: every route URL that parses is well formed, and writing it out
/// gives back the text it was parsed from.
pub proof fn law_parse_then_display(s: Seq<char>)
    ensures
        spec_parse(s) matches Ok(u) ==> well_formed(u) && display(u) == s,
{
    if s.len() > 0 && s[0] == '/' {
        let segs = seq![Seg::Sep];
        assert(well_formed(segs));
        assert(display(segs) =~= seq!['/']) by {
            lemma_display_push(Seq::<Seg>::empty(), Seg::Sep);
            assert(Seq::<Seg>::empty().push(Seg::Sep) =~= segs);
        }
        assert(s.take(1) =~= seq!['/']);
        lemma_scan_sound(s, 1, segs, None);
    }
}

} // verus!

verus! {

/// The length of the text of the first `k` segments.
spec fn pos(u: Seq<Seg>, k: int) -> int {
    display(u.take(k)).len() as int
}

proof fn lemma_display_take_step(u: Seq<Seg>, k: int)
    requires
        0 <= k < u.len(),
    ensures
        display(u.take(k + 1)) == display(u.take(k)) + seg_text(u[k]),
{
    assert(u.take(k + 1) =~= u.take(k).push(u[k]));
    lemma_display_push(u.take(k), u[k]);
}

proof fn lemma_display_prefix(u: Seq<Seg>, k: int, m: int)
    requires
        0 <= k <= m <= u.len(),
    ensures
        pos(u, k) <= pos(u, m),
        display(u.take(m)).take(pos(u, k)) == display(u.take(k)),
    decreases m - k,
{
    if k < m {
        lemma_display_prefix(u, k, m - 1);
        lemma_display_take_step(u, m - 1);
        assert(display(u.take(m)).take(pos(u, k)) =~= display(u.take(m - 1)).take(pos(u, k)));
    } else {
        assert(display(u.take(m)).take(pos(u, k)) =~= display(u.take(k)));
    }
}

/// The text of segment `k` sits between `pos(u, k)` and `pos(u, k + 1)` in the whole text.
proof fn lemma_segment_text(u: Seq<Seg>, k: int)
    requires
        0 <= k < u.len(),
    ensures
        pos(u, k + 1) == pos(u, k) + seg_text(u[k]).len(),
        pos(u, k + 1) <= display(u).len(),
        display(u).subrange(pos(u, k), pos(u, k + 1)) == seg_text(u[k]),
{
    lemma_display_take_step(u, k);
    lemma_display_prefix(u, k + 1, u.len() as int);
    assert(u.take(u.len() as int) =~= u);
    let d = display(u);
    assert(d.take(pos(u, k + 1)) == display(u.take(k)) + seg_text(u[k]));
    assert(d.subrange(pos(u, k), pos(u, k + 1)) =~= (display(u.take(k)) + seg_text(u[k])).subrange(
        pos(u, k),
        pos(u, k + 1),
    ));
}

proof fn lemma_scan_param_run(s: Seq<char>, a: int, b: int)
    requires
        0 <= a <= b < s.len(),
        s[b] == '}',
        forall|j: int| a <= j < b ==> is_param_char(#[trigger] s[j]),
    ensures
        scan_param(s, a) == ParamScan::Closed(b),
    decreases b - a,
{
    if a < b {
        assert(is_param_char(s[a]));
        lemma_scan_param_run(s, a + 1, b);
    }
}

proof fn lemma_literal_run(s: Seq<char>, i: int, b: int, segs: Seq<Seg>, start: Option<int>)
    requires
        0 <= i < b <= s.len(),
        forall|m: int| i <= m < b ==> is_literal_char(#[trigger] s[m]),
    ensures
        scan(s, i, segs, start) == scan(
            s,
            b,
            segs,
            Some(
                match start {
                    Some(st) => st,
                    None => i,
                },
            ),
        ),
    decreases b - i,
{
    assert(is_literal_char(s[i]));
    let ns = if start is None { Some(i) } else { start };
    if i + 1 < b {
        lemma_literal_run(s, i + 1, b, segs, ns);
    }
}

proof fn lemma_parse_complete(u: Seq<Seg>, k: int)
    requires
        well_formed(u),
        1 <= k <= u.len(),
    ensures
        scan(display(u), pos(u, k), u.take(k), None) == Ok::<Seq<Seg>, ParseError>(u),
    decreases u.len() - k,
{
    let d = display(u);
    let n = u.len() as int;
    if k == n {
        lemma_display_prefix(u, k, n);
        assert(u.take(n) =~= u);
    } else {
        lemma_segment_text(u, k);
        assert(seg_wf(u, k));
        let p = pos(u, k);
        assert(u.take(k).len() == k);
        assert(u.take(k).last() == u[k - 1]);
        match u[k] {
            Seg::Sep => {
                assert(d[p] == seg_text(u[k])[0]);
                assert(u.take(k).push(Seg::Sep) =~= u.take(k + 1));
                lemma_parse_complete(u, k + 1);
            },
            Seg::Param(nm) => {
                let q = p + 1 + nm.len();
                assert(d[p] == seg_text(u[k])[0]);
                assert(d[q] == seg_text(u[k])[nm.len() as int + 1]);
                assert forall|j: int| p + 1 <= j < q implies is_param_char(#[trigger] d[j]) by {
                    assert(d[j] == seg_text(u[k])[j - p]);
                    assert(seg_text(u[k])[j - p] == nm[j - p - 1]);
                }
                lemma_scan_param_run(d, p + 1, q);
                assert forall|j: int| 0 <= j < nm.len() implies #[trigger] d.subrange(p + 1, q)[j]
                    == nm[j] by {
                    assert(d[p + 1 + j] == seg_text(u[k])[j + 1]);
                }
                assert(d.subrange(p + 1, q) =~= nm);
                assert(u.take(k).push(Seg::Param(nm)) =~= u.take(k + 1));
                lemma_parse_complete(u, k + 1);
            },
            Seg::Lit(l) => {
                let b = pos(u, k + 1);
                assert forall|m: int| p <= m < b implies is_literal_char(#[trigger] d[m]) by {
                    assert(d[m] == seg_text(u[k])[m - p]);
                }
                lemma_literal_run(d, p, b, u.take(k), None);
                assert(d.subrange(p, b) =~= l);
                if k + 1 == n {
                    lemma_display_prefix(u, k + 1, n);
                    assert(u.take(n) =~= u);
                    assert(u.take(k).push(Seg::Lit(l)) =~= u);
                } else {
                    assert(seg_wf(u, k + 1));
                    assert(u[k + 1] == Seg::Sep);
                    lemma_segment_text(u, k + 1);
                    assert(d[b] == seg_text(u[k + 1])[0]);
                    assert(u.take(k).push(Seg::Lit(l)).push(Seg::Sep) =~= u.take(k + 2));
                    lemma_parse_complete(u, k + 2);
                }
            },
        }
    }
}

/// Every well-formed route URL is read back unchanged from its textual form.
pub proof fn law_display_then_parse(u: Seq<Seg>)
    requires
        well_formed(u),
    ensures
        spec_parse(display(u)) == Ok::<Seq<Seg>, ParseError>(u),
{
    lemma_segment_text(u, 0);
    assert(u.take(0) =~= Seq::<Seg>::empty());
    assert(display(u)[0] == seg_text(u[0])[0]);
    assert(u.take(1) =~= seq![Seg::Sep]);
    lemma_parse_complete(u, 1);
}

} // verus!
