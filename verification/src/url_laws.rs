//! Laws relating the parser of `url` attribute URLs to their textual form.

use vstd::prelude::*;
use crate::url::{
    Elem, NameScan, UrlParseError, url_scan, scan_name, spec_parse_url, url_display, elem_text,
    flush_lit, is_name_start, is_ascii_digit, is_forbidden, all_ascii, lemma_scan_name_bounds,
};

verus! {

broadcast use vstd::seq::group_seq_axioms;

/// The characters of a literal element: ASCII, and none of `/`, `{` and the forbidden ones.
pub open spec fn is_lit_char(c: char) -> bool {
    (c as u32) < 128 && c != '/' && c != '{' && !is_forbidden(c)
}

/// A path parameter name: a letter or `_`, then letters, `_` and digits.
pub open spec fn is_param_name(n: Seq<char>) -> bool {
    &&& n.len() > 0
    &&& is_name_start(n[0])
    &&& forall|k: int| 1 <= k < n.len() ==> is_name_start(#[trigger] n[k]) || is_ascii_digit(n[k])
}

/// Whether the element at index `i` may follow the elements before it.
pub open spec fn elem_wf(u: Seq<Elem>, i: int) -> bool {
    match u[i] {
        Elem::Slash => true,
        Elem::Unnamed => true,
        Elem::Named(n) => is_param_name(n),
        Elem::Lit(l) => i > 0 && l.len() > 0 && !(u[i - 1] is Lit) && forall|k: int|
            0 <= k < l.len() ==> is_lit_char(#[trigger] l[k]),
    }
}

/// The URLs that the parser can produce: a leading slash, valid parameter names, non-empty
/// literals of allowed characters, never two literals in a row.
pub open spec fn url_well_formed(u: Seq<Elem>) -> bool {
    &&& u.len() >= 1
    &&& u[0] == Elem::Slash
    &&& forall|i: int| 1 <= i < u.len() ==> #[trigger] elem_wf(u, i)
}

proof fn lemma_display_push(u: Seq<Elem>, e: Elem)
    ensures
        url_display(u.push(e)) == url_display(u) + elem_text(e),
{
    assert(u.push(e).drop_last() =~= u);
}

proof fn lemma_wf_push(u: Seq<Elem>, e: Elem)
    requires
        url_well_formed(u),
        elem_wf(u.push(e), u.len() as int),
    ensures
        url_well_formed(u.push(e)),
{
    let v = u.push(e);
    assert forall|i: int| 1 <= i < v.len() implies #[trigger] elem_wf(v, i) by {
        if i < u.len() {
            assert(elem_wf(u, i));
            assert(v[i] == u[i]);
            assert(v[i - 1] == u[i - 1]);
        }
    }
}

/// What holds of the scanner's state while it parses `s`.
spec fn scan_inv(s: Seq<char>, i: int, last: int, acc: Seq<Elem>) -> bool {
    &&& 1 <= last <= i <= s.len()
    &&& all_ascii(s)
    &&& url_well_formed(acc)
    &&& !(acc.last() is Lit)
    &&& url_display(acc) == s.take(last)
    &&& forall|k: int| last <= k < i ==> is_lit_char(#[trigger] s[k])
}

proof fn lemma_flush(s: Seq<char>, i: int, last: int, acc: Seq<Elem>)
    requires
        scan_inv(s, i, last, acc),
    ensures
        url_well_formed(flush_lit(s, acc, last, i)),
        url_display(flush_lit(s, acc, last, i)) == s.take(i),
{
    if last < i {
        let l = s.subrange(last, i);
        let v = acc.push(Elem::Lit(l));
        assert(v[acc.len() as int] == Elem::Lit(l));
        assert(v[acc.len() - 1] == acc.last());
        assert(elem_wf(v, acc.len() as int));
        lemma_wf_push(acc, Elem::Lit(l));
        lemma_display_push(acc, Elem::Lit(l));
        assert(s.take(last) + l =~= s.take(i));
    }
}

proof fn lemma_scan_sound(s: Seq<char>, i: int, last: int, acc: Seq<Elem>)
    requires
        scan_inv(s, i, last, acc),
    ensures
        url_scan(s, i, last, acc) matches Ok(r) ==> url_well_formed(r) && url_display(r) == s,
    decreases s.len() - i,
{
    if i >= s.len() {
        lemma_flush(s, i, last, acc);
        assert(s.take(i) =~= s);
    } else {
        let c = s[i];
        if c == '/' {
            lemma_flush(s, i, last, acc);
            let f = flush_lit(s, acc, last, i);
            let v = f.push(Elem::Slash);
            assert(elem_wf(v, f.len() as int));
            lemma_wf_push(f, Elem::Slash);
            lemma_display_push(f, Elem::Slash);
            assert(s.take(i) + seq!['/'] =~= s.take(i + 1));
            lemma_scan_sound(s, i + 1, i + 1, v);
        } else if c == '{' {
            lemma_scan_name_bounds(s, i + 1, i + 1);
            match scan_name(s, i + 1, i + 1) {
                NameScan::Closed(end) => {
                    lemma_flush(s, i, last, acc);
                    let f = flush_lit(s, acc, last, i);
                    let n = s.subrange(i + 1, end);
                    let e = if end == i + 1 {
                        Elem::Unnamed
                    } else {
                        Elem::Named(n)
                    };
                    let v = f.push(e);
                    assert(v[f.len() as int] == e);
                    if end > i + 1 {
                        assert(n[0] == s[i + 1]);
                        assert forall|k: int| 1 <= k < n.len() implies is_name_start(#[trigger] n[k])
                            || is_ascii_digit(n[k]) by {
                            assert(n[k] == s[i + 1 + k]);
                        }
                    }
                    assert(elem_wf(v, f.len() as int));
                    lemma_wf_push(f, e);
                    lemma_display_push(f, e);
                    assert(s.take(i) + elem_text(e) =~= s.take(end + 1));
                    lemma_scan_sound(s, end + 1, end + 1, v);
                },
                _ => {},
            }
        } else if is_forbidden(c) {
        } else {
            assert((s[i] as u32) < 128);
            assert(is_lit_char(c));
            lemma_scan_sound(s, i + 1, last, acc);
        }
    }
}

/// Parsing and display agree: every URL that parses is well formed, and writing it out gives
/// back the text it was parsed from.
pub proof fn law_url_parse_then_display(s: Seq<char>)
    ensures
        spec_parse_url(s) matches Ok(u) ==> url_well_formed(u) && url_display(u) == s,
{
    if all_ascii(s) && s.len() > 0 && s[0] == '/' {
        let acc = seq![Elem::Slash];
        assert(url_well_formed(acc));
        assert(url_display(acc) =~= seq!['/']) by {
            lemma_display_push(Seq::<Elem>::empty(), Elem::Slash);
            assert(Seq::<Elem>::empty().push(Elem::Slash) =~= acc);
        }
        assert(s.take(1) =~= seq!['/']);
        lemma_scan_sound(s, 1, 1, acc);
    }
}

} // verus!

verus! {

/// The length of the text of the first `k` elements.
spec fn pos(u: Seq<Elem>, k: int) -> int {
    url_display(u.take(k)).len() as int
}

proof fn lemma_display_take_step(u: Seq<Elem>, k: int)
    requires
        0 <= k < u.len(),
    ensures
        url_display(u.take(k + 1)) == url_display(u.take(k)) + elem_text(u[k]),
{
    assert(u.take(k + 1) =~= u.take(k).push(u[k]));
    lemma_display_push(u.take(k), u[k]);
}

proof fn lemma_display_prefix(u: Seq<Elem>, k: int, m: int)
    requires
        0 <= k <= m <= u.len(),
    ensures
        pos(u, k) <= pos(u, m),
        url_display(u.take(m)).take(pos(u, k)) == url_display(u.take(k)),
    decreases m - k,
{
    if k < m {
        lemma_display_prefix(u, k, m - 1);
        lemma_display_take_step(u, m - 1);
        assert(url_display(u.take(m)).take(pos(u, k)) =~= url_display(u.take(m - 1)).take(
            pos(u, k),
        ));
    } else {
        assert(url_display(u.take(m)).take(pos(u, k)) =~= url_display(u.take(k)));
    }
}

/// The text of element `k` sits between `pos(u, k)` and `pos(u, k + 1)` in the whole text.
proof fn lemma_element_text(u: Seq<Elem>, k: int)
    requires
        0 <= k < u.len(),
    ensures
        pos(u, k + 1) == pos(u, k) + elem_text(u[k]).len(),
        pos(u, k + 1) <= url_display(u).len(),
        url_display(u).subrange(pos(u, k), pos(u, k + 1)) == elem_text(u[k]),
{
    lemma_display_take_step(u, k);
    lemma_display_prefix(u, k + 1, u.len() as int);
    assert(u.take(u.len() as int) =~= u);
    let d = url_display(u);
    assert(d.take(pos(u, k + 1)) == url_display(u.take(k)) + elem_text(u[k]));
    assert(d.subrange(pos(u, k), pos(u, k + 1)) =~= (url_display(u.take(k)) + elem_text(
        u[k],
    )).subrange(pos(u, k), pos(u, k + 1)));
}

proof fn lemma_display_ascii(u: Seq<Elem>)
    requires
        forall|i: int| 0 <= i < u.len() ==> (u[i] is Slash || u[i] is Unnamed || #[trigger] elem_wf(u, i)),
    ensures
        all_ascii(url_display(u)),
    decreases u.len(),
{
    if u.len() > 0 {
        let v = u.drop_last();
        assert forall|i: int| 0 <= i < v.len() implies (v[i] is Slash || v[i] is Unnamed
            || #[trigger] elem_wf(v, i)) by {
            assert(v[i] == u[i]);
            if !(u[i] is Slash || u[i] is Unnamed) {
                assert(elem_wf(u, i));
                if u[i] is Lit {
                    assert(v[i - 1] == u[i - 1]);
                }
            }
        }
        lemma_display_ascii(v);
        let t = elem_text(u.last());
        assert(elem_wf(u, u.len() - 1) || u.last() is Slash || u.last() is Unnamed);
        assert forall|k: int| 0 <= k < t.len() implies (#[trigger] t[k] as u32) < 128 by {
            match u.last() {
                Elem::Named(n) => {
                    if 1 <= k <= n.len() {
                        assert(t[k] == n[k - 1]);
                        if k - 1 > 0 {
                            assert(is_name_start(n[k - 1]) || is_ascii_digit(n[k - 1]));
                        }
                    }
                },
                Elem::Lit(l) => {
                    assert(is_lit_char(l[k]));
                },
                _ => {},
            }
        }
        let d = url_display(u);
        assert(d == url_display(v) + t);
        assert forall|k: int| 0 <= k < d.len() implies (#[trigger] d[k] as u32) < 128 by {
            if k < url_display(v).len() {
                assert(d[k] == url_display(v)[k]);
            } else {
                assert(d[k] == t[k - url_display(v).len()]);
            }
        }
    }
}

proof fn lemma_name_run(s: Seq<char>, start: int, a: int, b: int)
    requires
        0 <= start <= a <= b < s.len(),
        s[b] == '}',
        forall|j: int| a <= j < b ==> is_name_start(#[trigger] s[j]) || (is_ascii_digit(s[j]) && j
            > start),
    ensures
        scan_name(s, start, a) == NameScan::Closed(b),
    decreases b - a,
{
    if a < b {
        assert(is_name_start(s[a]) || (is_ascii_digit(s[a]) && a > start));
        lemma_name_run(s, start, a + 1, b);
    }
}

proof fn lemma_literal_run(s: Seq<char>, i: int, b: int, last: int, acc: Seq<Elem>)
    requires
        0 <= i <= b <= s.len(),
        forall|m: int| i <= m < b ==> is_lit_char(#[trigger] s[m]),
    ensures
        url_scan(s, i, last, acc) == url_scan(s, b, last, acc),
    decreases b - i,
{
    if i < b {
        assert(is_lit_char(s[i]));
        lemma_literal_run(s, i + 1, b, last, acc);
    }
}

#[verifier::rlimit(50)]
#[verifier::spinoff_prover]
proof fn lemma_parse_complete(u: Seq<Elem>, k: int, last: int, acc: Seq<Elem>)
    requires
        url_well_formed(u),
        1 <= k <= u.len(),
        1 <= last <= pos(u, k),
        flush_lit(url_display(u), acc, last, pos(u, k)) == u.take(k),
        last < pos(u, k) ==> k < u.len() ==> !(u[k] is Lit),
        last == pos(u, k) ==> acc == u.take(k),
    ensures
        url_scan(url_display(u), pos(u, k), last, acc) == Ok::<Seq<Elem>, UrlParseError>(u),
    decreases u.len() - k,
{
    let d = url_display(u);
    let n = u.len() as int;
    let p = pos(u, k);
    if k == n {
        lemma_display_prefix(u, k, n);
        assert(u.take(n) =~= u);
    } else {
        lemma_element_text(u, k);
        assert(elem_wf(u, k) || k == 0);
        let f = flush_lit(d, acc, last, p);
        match u[k] {
            Elem::Slash => {
                assert(d[p] == elem_text(u[k])[0]);
                assert(f.push(Elem::Slash) =~= u.take(k + 1));
                lemma_parse_complete(u, k + 1, p + 1, u.take(k + 1));
            },
            Elem::Unnamed => {
                assert(d[p] == elem_text(u[k])[0]);
                assert(d[p + 1] == elem_text(u[k])[1]);
                lemma_name_run(d, p + 1, p + 1, p + 1);
                assert(f.push(Elem::Unnamed) =~= u.take(k + 1));
                lemma_parse_complete(u, k + 1, p + 2, u.take(k + 1));
            },
            Elem::Named(nm) => {
                let q = p + 1 + nm.len();
                assert(elem_wf(u, k));
                assert(d[p] == elem_text(u[k])[0]);
                assert(d[q] == elem_text(u[k])[nm.len() as int + 1]);
                assert forall|j: int| p + 1 <= j < q implies is_name_start(#[trigger] d[j]) || (
                is_ascii_digit(d[j]) && j > p + 1) by {
                    assert(d[j] == elem_text(u[k])[j - p]);
                    assert(elem_text(u[k])[j - p] == nm[j - p - 1]);
                }
                lemma_name_run(d, p + 1, p + 1, q);
                assert forall|j: int| 0 <= j < nm.len() implies #[trigger] d.subrange(p + 1, q)[j]
                    == nm[j] by {
                    assert(d[p + 1 + j] == elem_text(u[k])[j + 1]);
                }
                assert(d.subrange(p + 1, q) =~= nm);
                assert(f.push(Elem::Named(nm)) =~= u.take(k + 1));
                lemma_parse_complete(u, k + 1, q + 1, u.take(k + 1));
            },
            Elem::Lit(l) => {
                assert(elem_wf(u, k));
                let b = pos(u, k + 1);
                assert forall|m: int| p <= m < b implies is_lit_char(#[trigger] d[m]) by {
                    assert(d[m] == elem_text(u[k])[m - p]);
                }
                lemma_literal_run(d, p, b, last, acc);
                assert(d.subrange(p, b) =~= l);
                assert(acc.push(Elem::Lit(l)) =~= u.take(k + 1));
                if k + 1 < n {
                    assert(elem_wf(u, k + 1));
                    assert(u[k] == u[k + 1 - 1]);
                }
                lemma_parse_complete(u, k + 1, p, acc);
            },
        }
    }
}

/// Every well-formed URL is read back unchanged from its textual form.
pub proof fn law_url_display_then_parse(u: Seq<Elem>)
    requires
        url_well_formed(u),
    ensures
        spec_parse_url(url_display(u)) == Ok::<Seq<Elem>, UrlParseError>(u),
{
    assert forall|i: int| 0 <= i < u.len() implies (u[i] is Slash || u[i] is Unnamed
        || #[trigger] elem_wf(u, i)) by {
        if i >= 1 {
            assert(elem_wf(u, i));
        }
    }
    lemma_display_ascii(u);
    lemma_element_text(u, 0);
    assert(u.take(0) =~= Seq::<Elem>::empty());
    assert(url_display(u)[0] == elem_text(u[0])[0]);
    assert(u.take(1) =~= seq![Elem::Slash]);
    lemma_parse_complete(u, 1, 1, seq![Elem::Slash]);
}

} // verus!
